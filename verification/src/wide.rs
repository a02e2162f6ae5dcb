//! Strings as Windows takes them: UTF-16, and the bytes of it.

use crate::text::chars_of;
use crate::netstack::wire::{le16, push_le16};
use vstd::prelude::*;
use vstd::utf8::{char_is_scalar, char_u32_cast};

verus! {

/// The UTF-16 code units of a character.
pub open spec fn units_of(c: char) -> Seq<u16> {
    let n = c as u32;
    if n < 0x10000 {
        seq![n as u16]
    } else {
        seq![(0xD800 + (n - 0x10000) / 1024) as u16, (0xDC00 + (n - 0x10000) % 1024) as u16]
    }
}

/// The UTF-16 code units of a string.
pub open spec fn utf16(s: Seq<char>) -> Seq<u16>
    decreases s.len(),
{
    if s.len() == 0 {
        Seq::empty()
    } else {
        utf16(s.drop_last()) + units_of(s.last())
    }
}

/// The code units of a string and a terminating 0.
pub open spec fn wide(s: Seq<char>) -> Seq<u16> {
    utf16(s).push(0)
}

/// The bytes of code units, low byte first.
pub open spec fn unit_bytes(u: Seq<u16>) -> Seq<u8>
    decreases u.len(),
{
    if u.len() == 0 {
        Seq::empty()
    } else {
        unit_bytes(u.drop_last()) + le16(u.last())
    }
}

/// The code units of two strings one after the other.
pub proof fn law_utf16_concat(a: Seq<char>, b: Seq<char>)
    ensures
        utf16(a + b) == utf16(a) + utf16(b),
    decreases b.len(),
{
    if b.len() == 0 {
        assert(a + b =~= a);
        assert(utf16(a) + Seq::<u16>::empty() =~= utf16(a));
    } else {
        law_utf16_concat(a, b.drop_last());
        assert((a + b).drop_last() =~= a + b.drop_last());
        assert((a + b).last() == b.last());
        assert((utf16(a) + utf16(b.drop_last())) + units_of(b.last()) =~= utf16(a) + (utf16(
            b.drop_last(),
        ) + units_of(b.last())));
    }
}

/// Only the character NUL gives a code unit 0, so the terminating 0 of a string
/// without one is the first.
pub proof fn law_wide_terminator(s: Seq<char>)
    ensures
        utf16(s).contains(0) <==> s.contains('\0'),
    decreases s.len(),
{
    if s.len() > 0 {
        let t = s.drop_last();
        let c = s.last();
        let u = utf16(t);
        law_wide_terminator(t);
        char_is_scalar(c);
        assert(units_of(c).contains(0) <==> c == '\0') by {
            assert('\0' as u32 == 0);
            if c == '\0' {
                assert(units_of(c)[0] == 0);
            }
            if units_of(c).contains(0) {
                let i = choose|i: int| 0 <= i < units_of(c).len() && units_of(c)[i] == 0;
                assert(c as u32 == 0);
                char_u32_cast(c, 0u32);
                char_u32_cast('\0', 0u32);
            }
        }
        if utf16(s).contains(0) {
            let i = choose|i: int| 0 <= i < utf16(s).len() && utf16(s)[i] == 0;
            if i < u.len() {
                assert(u[i] == 0);
                let j = choose|j: int| 0 <= j < t.len() && t[j] == '\0';
                assert(s[j] == '\0');
            } else {
                assert(units_of(c)[i - u.len()] == 0);
                assert(s[s.len() - 1] == '\0');
            }
        }
        if s.contains('\0') {
            let j = choose|j: int| 0 <= j < s.len() && s[j] == '\0';
            if j < t.len() {
                assert(t[j] == '\0');
                let i = choose|i: int| 0 <= i < u.len() && u[i] == 0;
                assert(utf16(s)[i] == 0);
            } else {
                let i = choose|i: int| 0 <= i < units_of(c).len() && units_of(c)[i] == 0;
                assert(utf16(s)[u.len() + i] == 0);
            }
        }
    }
}

/// Appends the code units of a character.
pub fn push_units(out: &mut Vec<u16>, c: char)
    ensures
        final(out)@ == old(out)@ + units_of(c),
{
    proof {
        char_is_scalar(c);
    }
    let n: u32 = c as u32;
    if n < 0x10000 {
        out.push(n as u16);
    } else {
        out.push((0xD800 + (n - 0x10000) / 1024) as u16);
        out.push((0xDC00 + (n - 0x10000) % 1024) as u16);
    }
    assert(out@ =~= old(out)@ + units_of(c));
}

/// Appends the code units of a string.
pub fn push_utf16(out: &mut Vec<u16>, s: &str)
    ensures
        final(out)@ == old(out)@ + utf16(s@),
{
    let v = chars_of(s);
    let mut i: usize = 0;
    let ghost before = out@;
    assert(s@.take(0) =~= Seq::<char>::empty());
    assert(before + Seq::<u16>::empty() =~= before);
    while i < v.len()
        invariant
            i <= v.len(),
            v@ == s@,
            out@ == before + utf16(s@.take(i as int)),
        decreases v.len() - i,
    {
        push_units(out, v[i]);
        proof {
            let t = s@.take(i + 1);
            assert(t.drop_last() =~= s@.take(i as int));
            assert(before + utf16(s@.take(i as int)) + units_of(v[i as int]) =~= before + utf16(t));
        }
        i = i + 1;
    }
    assert(s@.take(s@.len() as int) =~= s@);
}

/// The code units of a string.
pub fn encode_utf16(s: &str) -> (out: Vec<u16>)
    ensures
        out@ == utf16(s@),
{
    let mut out: Vec<u16> = Vec::new();
    push_utf16(&mut out, s);
    assert(Seq::<u16>::empty() + utf16(s@) =~= utf16(s@));
    out
}

/// The code units of a string and a terminating 0.
pub fn to_wide(s: &str) -> (out: Vec<u16>)
    ensures
        out@ == wide(s@),
{
    let mut out = encode_utf16(s);
    out.push(0);
    out
}

/// Appends the bytes of code units.
pub fn push_unit_bytes(out: &mut Vec<u8>, u: &[u16])
    ensures
        final(out)@ == old(out)@ + unit_bytes(u@),
{
    let mut i: usize = 0;
    let ghost before = out@;
    assert(u@.take(0) =~= Seq::<u16>::empty());
    assert(before + Seq::<u8>::empty() =~= before);
    while i < u.len()
        invariant
            i <= u.len(),
            out@ == before + unit_bytes(u@.take(i as int)),
        decreases u.len() - i,
    {
        push_le16(out, u[i]);
        proof {
            let t = u@.take(i + 1);
            assert(t.drop_last() =~= u@.take(i as int));
            assert(before + unit_bytes(u@.take(i as int)) + le16(u[i as int]) =~= before
                + unit_bytes(t));
        }
        i = i + 1;
    }
    assert(u@.take(u@.len() as int) =~= u@);
}

/// A code unit takes two bytes.
pub proof fn lemma_unit_bytes_len(u: Seq<u16>)
    ensures
        unit_bytes(u).len() == 2 * u.len(),
    decreases u.len(),
{
    if u.len() > 0 {
        lemma_unit_bytes_len(u.drop_last());
    }
}

/// The size fields of the counted string that Windows passes a text in: the
/// bytes without the terminator, and with it. Both are kept in 16 bits.
pub open spec fn counted_sizes(s: Seq<char>) -> (u16, u16) {
    (
        ((2 * utf16(s).len()) % 65536) as u16,
        ((2 * utf16(s).len() + 2) % 65536) as u16,
    )
}

/// The sizes are the real ones for every text of fewer than 32767 code units.
pub proof fn law_counted_sizes(s: Seq<char>)
    requires
        utf16(s).len() < 32767,
    ensures
        counted_sizes(s).0 == unit_bytes(utf16(s)).len(),
        counted_sizes(s).1 == unit_bytes(wide(s)).len(),
{
    lemma_unit_bytes_len(utf16(s));
    lemma_unit_bytes_len(wide(s));
}

/// The code units of a text with a terminating 0, and the size fields of its
/// counted string.
pub fn make_unicode_string(s: &str) -> (r: (Vec<u16>, u16, u16))
    ensures
        r.0@ == wide(s@),
        (r.1, r.2) == counted_sizes(s@),
{
    let units = to_wide(s);
    let n: u64 = (units.len() - 1) as u64 % 32768;
    let size: u16 = (2 * n) as u16;
    let room: u16 = ((2 * n + 2) % 65536) as u16;
    (units, size, room)
}

/// A character below U+10000 is one code unit, its own number; any other is a
/// high and then a low surrogate from which its number is read back.
pub proof fn law_code_units(c: char)
    ensures
        (c as u32) < 0x10000 ==> units_of(c) == seq![c as u16],
        (c as u32) >= 0x10000 ==> {
            let u = units_of(c);
            &&& u.len() == 2
            &&& 0xD800 <= u[0] <= 0xDBFF
            &&& 0xDC00 <= u[1] <= 0xDFFF
            &&& 0x10000 + (u[0] - 0xD800) * 1024 + (u[1] - 0xDC00) == c as u32
        },
{
    let n = c as u32;
    vstd::utf8::char_u32_cast(c, n);
    assert(n <= 0x10FFFF);
}

/// A string is its code units one after the other; the wide form has one 0 more;
/// and each unit is two bytes, the low one first.
pub proof fn law_wide_form(s: Seq<char>, c: char, u: Seq<u16>, x: u16)
    ensures
        utf16(Seq::empty()) == Seq::<u16>::empty(),
        utf16(s.push(c)) == utf16(s) + units_of(c),
        wide(s) == utf16(s).push(0),
        unit_bytes(u.push(x)).len() == unit_bytes(u).len() + 2,
        unit_bytes(u.push(x))[unit_bytes(u).len() as int] + 256 * unit_bytes(
            u.push(x),
        )[unit_bytes(u).len() as int + 1] == x,
{
    assert(s.push(c).drop_last() =~= s);
    assert(u.push(x).drop_last() =~= u);
}

} // verus!
