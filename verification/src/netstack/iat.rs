//! The import table of a loaded module.
//!
//! A module names, per library that it imports from, the functions that it
//! imports, and keeps beside each name a slot with the address that its calls
//! go to. `find_slots` finds the slots of given functions of one library;
//! writing another address into a slot redirects the module's calls of that
//! function, and writing the old one back ends that.

use crate::netstack::wire::{le16_at, le32_at, read_le16, read_le32};
use vstd::prelude::*;

verus! {

pub const DOS_SIGNATURE: u16 = 0x5A4D;

pub const NT_SIGNATURE: u32 = 0x4550;

/// Where the DOS header keeps the position of the NT headers.
pub const LFANEW_OFFSET: usize = 60;

/// Where the NT headers keep the position of the import table, and four bytes
/// further its size.
pub const IMPORT_DIR_OFFSET: usize = 144;

/// The size of an import descriptor.
pub const DESCRIPTOR_SIZE: usize = 20;

/// A thunk from here on imports by number, not by name.
pub const ORDINAL_FLAG: u64 = 0x8000_0000_0000_0000;

/// The slot of an imported function: its position in the module, and which of
/// the wanted functions it is of.
#[derive(Clone, Copy, Debug, PartialEq, Eq, Structural)]
pub struct Hit {
    pub slot: usize,
    pub hook: usize,
}

/// The number whose eight bytes stand at `i`, low byte first.
pub open spec fn le64_at(s: Seq<u8>, i: int) -> u64 {
    (le32_at(s, i) + 0x1_0000_0000 * le32_at(s, i + 4)) as u64
}

/// The ASCII lower case form of a byte.
pub open spec fn lower_byte(b: u8) -> u8 {
    if 65 <= b <= 90 {
        (b + 32) as u8
    } else {
        b
    }
}

/// Whether two byte strings differ at most in the case of ASCII letters.
pub open spec fn same_ignoring_case(a: Seq<u8>, b: Seq<u8>) -> bool {
    a.len() == b.len() && forall|i: int|
        0 <= i < a.len() ==> #[trigger] lower_byte(a[i]) == lower_byte(b[i])
}

/// The bytes without one NUL at the end, if there is one.
pub open spec fn without_nul(b: Seq<u8>) -> Seq<u8> {
    if b.len() > 0 && b.last() == 0 {
        b.drop_last()
    } else {
        b
    }
}

/// The bytes up to the first NUL.
pub open spec fn until_nul(s: Seq<u8>) -> Seq<u8>
    decreases s.len(),
{
    if s.len() == 0 || s[0] == 0 {
        Seq::empty()
    } else {
        seq![s[0]] + until_nul(s.skip(1))
    }
}

/// The string at a position of the image; empty outside the image.
pub open spec fn name_at(image: Seq<u8>, at: int) -> Seq<u8> {
    if 0 <= at <= image.len() {
        until_nul(image.skip(at))
    } else {
        Seq::empty()
    }
}

/// The contents of a list of byte strings.
pub open spec fn names(hooks: Seq<Vec<u8>>) -> Seq<Seq<u8>> {
    Seq::new(hooks.len(), |i: int| hooks[i]@)
}

/// The wanted functions from the `k`-th on that are called `name`.
pub open spec fn matches_of(name: Seq<u8>, slot: int, hooks: Seq<Seq<u8>>, k: int) -> Seq<Hit>
    decreases hooks.len() - k,
{
    if k < 0 || k >= hooks.len() {
        Seq::empty()
    } else {
        let rest = matches_of(name, slot, hooks, k + 1);
        if without_nul(hooks[k]) == name {
            seq![Hit { slot: slot as usize, hook: k as usize }] + rest
        } else {
            rest
        }
    }
}

/// The slots of one descriptor, from the thunk at `at` on. `iat` is the
/// position of the slot that belongs to that thunk. Only slots that lie in the
/// image count.
pub open spec fn thunk_hits(image: Seq<u8>, at: int, iat: int, hooks: Seq<Seq<u8>>) -> Seq<Hit>
    decreases image.len() - at,
{
    if at < 0 || at + 8 > image.len() {
        Seq::empty()
    } else {
        let v = le64_at(image, at);
        if v == 0 {
            Seq::empty()
        } else {
            let rest = thunk_hits(image, at + 8, iat + 8, hooks);
            if v < ORDINAL_FLAG && iat + 8 <= image.len() {
                matches_of(name_at(image, v + 2), iat, hooks, 0) + rest
            } else {
                rest
            }
        }
    }
}

/// The slots of the import descriptors from the one at `at` on. The list of
/// descriptors ends with one that names neither a library nor slots.
pub open spec fn descriptor_hits(
    image: Seq<u8>,
    at: int,
    library: Seq<u8>,
    hooks: Seq<Seq<u8>>,
) -> Seq<Hit>
    decreases image.len() - at,
{
    if at < 0 || at + DESCRIPTOR_SIZE > image.len() {
        Seq::empty()
    } else {
        let by_name = le32_at(image, at) as int;
        let name = le32_at(image, at + 12) as int;
        let slots = le32_at(image, at + 16) as int;
        if name == 0 && slots == 0 {
            Seq::empty()
        } else {
            let rest = descriptor_hits(image, at + DESCRIPTOR_SIZE, library, hooks);
            if same_ignoring_case(name_at(image, name), library) {
                thunk_hits(
                    image,
                    if by_name != 0 {
                        by_name
                    } else {
                        slots
                    },
                    slots,
                    hooks,
                ) + rest
            } else {
                rest
            }
        }
    }
}

/// The position of the import table of a 64-bit image, if it has one.
pub open spec fn import_table(image: Seq<u8>, sized: bool) -> Option<int> {
    if image.len() < LFANEW_OFFSET + 4 || le16_at(image, 0) != DOS_SIGNATURE {
        None
    } else {
        let nt = le32_at(image, LFANEW_OFFSET as int) as int;
        if nt + IMPORT_DIR_OFFSET + 8 > image.len() || le32_at(image, nt) != NT_SIGNATURE {
            None
        } else {
            let at = le32_at(image, nt + IMPORT_DIR_OFFSET) as int;
            let size = le32_at(image, nt + IMPORT_DIR_OFFSET + 4);
            if at == 0 || (sized && size == 0) {
                None
            } else {
                Some(at)
            }
        }
    }
}

/// The slots of the wanted functions of a library, in the order of the import
/// table.
pub open spec fn slots_of(
    image: Seq<u8>,
    library: Seq<u8>,
    hooks: Seq<Seq<u8>>,
    sized: bool,
) -> Seq<Hit> {
    match import_table(image, sized) {
        None => Seq::empty(),
        Some(at) => descriptor_hits(image, at, library, hooks),
    }
}

fn read_le64(s: &[u8], i: usize) -> (x: u64)
    requires
        i + 8 <= s.len(),
    ensures
        x == le64_at(s@, i as int),
{
    read_le32(s, i) as u64 + 0x1_0000_0000 * (read_le32(s, i + 4) as u64)
}

/// The bytes without one NUL at the end, if there is one.
pub fn strip_nul(b: &[u8]) -> (r: &[u8])
    ensures
        r@ == without_nul(b@),
{
    if b.len() > 0 && b[b.len() - 1] == 0 {
        let r = b.split_at(b.len() - 1).0;
        assert(r@ =~= b@.drop_last());
        r
    } else {
        b
    }
}

fn byte_lower(b: u8) -> (r: u8)
    ensures
        r == lower_byte(b),
{
    if 65 <= b && b <= 90 {
        b + 32
    } else {
        b
    }
}

/// Whether two byte strings differ at most in the case of ASCII letters.
pub fn ascii_eq_ignore_case(a: &[u8], b: &[u8]) -> (r: bool)
    ensures
        r == same_ignoring_case(a@, b@),
{
    if a.len() != b.len() {
        return false;
    }
    let mut i: usize = 0;
    while i < a.len()
        invariant
            a.len() == b.len(),
            i <= a.len(),
            forall|j: int| 0 <= j < i ==> #[trigger] lower_byte(a[j]) == lower_byte(b[j]),
        decreases a.len() - i,
    {
        if byte_lower(a[i]) != byte_lower(b[i]) {
            assert(lower_byte(a@[i as int]) != lower_byte(b@[i as int]));
            return false;
        }
        i = i + 1;
    }
    true
}

fn same_bytes(a: &[u8], b: &[u8]) -> (r: bool)
    ensures
        r == (a@ == b@),
{
    if a.len() != b.len() {
        return false;
    }
    let mut i: usize = 0;
    while i < a.len()
        invariant
            a.len() == b.len(),
            i <= a.len(),
            forall|j: int| 0 <= j < i ==> a[j] == b[j],
        decreases a.len() - i,
    {
        if a[i] != b[i] {
            return false;
        }
        i = i + 1;
    }
    assert(a@ =~= b@);
    true
}

proof fn lemma_until_nul(s: Seq<u8>, n: int)
    requires
        0 <= n <= s.len(),
        forall|j: int| 0 <= j < n ==> s[j] != 0,
        n < s.len() ==> s[n] == 0,
    ensures
        until_nul(s) == s.take(n),
    decreases s.len(),
{
    if n > 0 {
        lemma_until_nul(s.skip(1), n - 1);
        assert(seq![s[0]] + s.skip(1).take(n - 1) =~= s.take(n));
    } else {
        assert(s.take(0) =~= Seq::<u8>::empty());
    }
}

/// The string at a position of the image; empty outside the image.
pub fn cstr_bytes(image: &[u8], at: u64) -> (v: Vec<u8>)
    ensures
        v@ == name_at(image@, at as int),
{
    let mut v: Vec<u8> = Vec::new();
    if at > image.len() as u64 {
        assert(v@ =~= Seq::<u8>::empty());
        return v;
    }
    let start: usize = at as usize;
    let mut i: usize = start;
    while i < image.len() && image[i] != 0
        invariant
            start <= i <= image.len(),
            v@ == image@.subrange(start as int, i as int),
            forall|j: int| start <= j < i ==> image[j] != 0,
        decreases image.len() - i,
    {
        v.push(image[i]);
        i = i + 1;
    }
    proof {
        let s = image@.skip(start as int);
        lemma_until_nul(s, i - start);
        assert(s.take(i - start) =~= v@);
    }
    v
}

fn push_matches(out: &mut Vec<Hit>, name: &[u8], slot: usize, hooks: &[Vec<u8>])
    ensures
        final(out)@ == old(out)@ + matches_of(name@, slot as int, names(hooks@), 0),
{
    let ghost all = names(hooks@);
    let ghost before = out@;
    let mut k: usize = 0;
    while k < hooks.len()
        invariant
            k <= hooks.len(),
            all == names(hooks@),
            out@ + matches_of(name@, slot as int, all, k as int) == before + matches_of(
                name@,
                slot as int,
                all,
                0,
            ),
        decreases hooks.len() - k,
    {
        let ghost sofar = out@;
        assert(all[k as int] == hooks@[k as int]@);
        if same_bytes(strip_nul(hooks[k].as_slice()), name) {
            let h = Hit { slot, hook: k };
            out.push(h);
            proof {
                let rest = matches_of(name@, slot as int, all, k + 1);
                assert(sofar.push(h) + rest =~= sofar + (seq![h] + rest));
            }
        }
        k = k + 1;
    }
    assert(out@ + Seq::<Hit>::empty() =~= out@);
}

fn push_thunks(out: &mut Vec<Hit>, image: &[u8], thunks: usize, slots: usize, hooks: &[Vec<u8>])
    requires
        image.len() <= u32::MAX,
        thunks <= u32::MAX,
        slots <= u32::MAX,
    ensures
        final(out)@ == old(out)@ + thunk_hits(
            image@,
            thunks as int,
            slots as int,
            names(hooks@),
        ),
{
    let ghost all = names(hooks@);
    let ghost before = out@;
    let ghost whole = before + thunk_hits(image@, thunks as int, slots as int, all);
    let mut at: usize = thunks;
    let mut iat: u64 = slots as u64;
    while at <= image.len() && image.len() - at >= 8
        invariant
            image.len() <= u32::MAX,
            slots <= u32::MAX,
            thunks <= at,
            iat == slots + (at - thunks),
            at <= u32::MAX + 8,
            all == names(hooks@),
            out@ + thunk_hits(image@, at as int, iat as int, all) == whole,
        ensures
            out@ == whole,
        decreases image.len() + 8 - at,
    {
        let v: u64 = read_le64(image, at);
        if v == 0 {
            assert(out@ + Seq::<Hit>::empty() =~= out@);
            break;
        }
        let ghost sofar = out@;
        if v < ORDINAL_FLAG && iat + 8 <= image.len() as u64 {
            let name = cstr_bytes(image, v + 2);
            push_matches(out, name.as_slice(), iat as usize, hooks);
            proof {
                let here = matches_of(name@, iat as int, all, 0);
                let rest = thunk_hits(image@, at + 8, iat + 8, all);
                assert((sofar + here) + rest =~= sofar + (here + rest));
            }
        }
        at = at + 8;
        iat = iat + 8;
    }
    assert(out@ + Seq::<Hit>::empty() =~= out@);
}

fn find_import_table(image: &[u8], sized: bool) -> (r: Option<u32>)
    ensures
        match r {
            Some(at) => import_table(image@, sized) == Some(at as int),
            None => import_table(image@, sized) is None,
        },
{
    if image.len() < LFANEW_OFFSET + 4 || read_le16(image, 0) != DOS_SIGNATURE {
        return None;
    }
    let nt: u32 = read_le32(image, LFANEW_OFFSET);
    if (nt as u64) + (IMPORT_DIR_OFFSET as u64) + 8 > image.len() as u64 {
        return None;
    }
    let nt_at: usize = nt as usize;
    if read_le32(image, nt_at) != NT_SIGNATURE {
        return None;
    }
    let at: u32 = read_le32(image, nt_at + IMPORT_DIR_OFFSET);
    let size: u32 = read_le32(image, nt_at + IMPORT_DIR_OFFSET + 4);
    if at == 0 || (sized && size == 0) {
        None
    } else {
        Some(at)
    }
}

/// The slots of the functions `hooks` of a library in the import table of a
/// module. `image` is the module as it lies in memory, whose size Windows keeps
/// in 32 bits. Names are compared as they are, the library's without regard to
/// case. With `sized`, an import table of size 0 counts as none.
pub fn find_slots(image: &[u8], library: &[u8], hooks: &[Vec<u8>], sized: bool) -> (out: Vec<Hit>)
    requires
        image.len() <= u32::MAX,
    ensures
        out@ == slots_of(image@, library@, names(hooks@), sized),
{
    let mut out: Vec<Hit> = Vec::new();
    let table: u32 = match find_import_table(image, sized) {
        None => {
            assert(out@ =~= Seq::<Hit>::empty());
            return out;
        },
        Some(at) => at,
    };
    let ghost all = names(hooks@);
    let ghost whole = descriptor_hits(image@, table as int, library@, all);
    let mut at: usize = table as usize;
    assert(Seq::<Hit>::empty() + whole =~= whole);
    while at <= image.len() && image.len() - at >= DESCRIPTOR_SIZE
        invariant
            image.len() <= u32::MAX,
            at <= u32::MAX + DESCRIPTOR_SIZE,
            all == names(hooks@),
            out@ + descriptor_hits(image@, at as int, library@, all) == whole,
        ensures
            out@ == whole,
        decreases image.len() + DESCRIPTOR_SIZE - at,
    {
        let by_name: usize = read_le32(image, at) as usize;
        let name: u32 = read_le32(image, at + 12);
        let slots: usize = read_le32(image, at + 16) as usize;
        if name == 0 && slots == 0 {
            assert(out@ + Seq::<Hit>::empty() =~= out@);
            break;
        }
        let ghost sofar = out@;
        let found = cstr_bytes(image, name as u64);
        if ascii_eq_ignore_case(found.as_slice(), library) {
            let thunks: usize = if by_name != 0 {
                by_name
            } else {
                slots
            };
            push_thunks(&mut out, image, thunks, slots, hooks);
            proof {
                let here = thunk_hits(image@, thunks as int, slots as int, all);
                let rest = descriptor_hits(image@, at + DESCRIPTOR_SIZE, library@, all);
                assert((sofar + here) + rest =~= sofar + (here + rest));
            }
        }
        at = at + DESCRIPTOR_SIZE;
    }
    assert(out@ + Seq::<Hit>::empty() =~= out@);
    out
}

/// The memory and the recorded addresses, by function, after the slots were
/// redirected in order. Each write records what the slot held before it.
pub open spec fn patched(memory: Map<int, u64>, hits: Seq<Hit>, replacements: Seq<u64>) -> (
    Map<int, u64>,
    Map<int, u64>,
)
    decreases hits.len(),
{
    if hits.len() == 0 {
        (memory, Map::empty())
    } else {
        let (m, o) = patched(memory, hits.drop_last(), replacements);
        let h = hits.last();
        (
            m.insert(h.slot as int, replacements[h.hook as int]),
            o.insert(h.hook as int, m[h.slot as int]),
        )
    }
}

/// The memory after the recorded addresses were written back in order.
pub open spec fn restored(memory: Map<int, u64>, hits: Seq<Hit>, originals: Map<int, u64>) -> Map<
    int,
    u64,
>
    decreases hits.len(),
{
    if hits.len() == 0 {
        memory
    } else {
        let h = hits.last();
        restored(memory, hits.drop_last(), originals).insert(
            h.slot as int,
            originals[h.hook as int],
        )
    }
}

/// No slot and no function occurs twice.
pub open spec fn all_distinct(hits: Seq<Hit>) -> bool {
    forall|i: int, j: int|
        0 <= i < j < hits.len() ==> (#[trigger] hits[i]).slot != (#[trigger] hits[j]).slot
            && hits[i].hook != hits[j].hook
}

proof fn lemma_patched(memory: Map<int, u64>, hits: Seq<Hit>, replacements: Seq<u64>)
    requires
        all_distinct(hits),
    ensures
        forall|i: int|
            0 <= i < hits.len() ==> patched(memory, hits, replacements).1[(
            #[trigger] hits[i]).hook as int] == memory[hits[i].slot as int],
        forall|s: int|
            (forall|i: int| 0 <= i < hits.len() ==> (#[trigger] hits[i]).slot != s) ==> {
                &&& #[trigger] patched(memory, hits, replacements).0[s] == memory[s]
                &&& patched(memory, hits, replacements).0.contains_key(s) == memory.contains_key(s)
            },
        forall|i: int|
            0 <= i < hits.len() ==> patched(memory, hits, replacements).0.contains_key(
                (#[trigger] hits[i]).slot as int,
            ),
    decreases hits.len(),
{
    if hits.len() > 0 {
        let init = hits.drop_last();
        let h = hits.last();
        lemma_patched(memory, init, replacements);
        assert forall|i: int| 0 <= i < init.len() implies (#[trigger] init[i]).slot != h.slot
            && init[i].hook != h.hook by {
            assert(init[i] == hits[i]);
            assert(hits[hits.len() - 1] == h);
        }
        assert(patched(memory, init, replacements).0[h.slot as int] == memory[h.slot as int]);
        assert forall|i: int| 0 <= i < hits.len() implies patched(memory, hits, replacements).1[(
        #[trigger] hits[i]).hook as int] == memory[hits[i].slot as int] by {
            if i < init.len() {
                assert(init[i] == hits[i]);
            }
        }
        assert forall|s: int|
            (forall|i: int| 0 <= i < hits.len() ==> (#[trigger] hits[i]).slot != s) implies {
            &&& #[trigger] patched(memory, hits, replacements).0[s] == memory[s]
            &&& patched(memory, hits, replacements).0.contains_key(s) == memory.contains_key(s)
        } by {
            assert(hits[hits.len() - 1] == h);
            assert forall|i: int| 0 <= i < init.len() implies (#[trigger] init[i]).slot != s by {
                assert(init[i] == hits[i]);
            }
            assert(patched(memory, init, replacements).0[s] == memory[s]);
        }
        assert forall|i: int| 0 <= i < hits.len() implies patched(
            memory,
            hits,
            replacements,
        ).0.contains_key((#[trigger] hits[i]).slot as int) by {
            if i < init.len() {
                assert(init[i] == hits[i]);
            }
        }
    }
}

proof fn lemma_restored(memory: Map<int, u64>, hits: Seq<Hit>, originals: Map<int, u64>)
    requires
        all_distinct(hits),
    ensures
        forall|i: int|
            0 <= i < hits.len() ==> restored(memory, hits, originals)[(
            #[trigger] hits[i]).slot as int] == originals[hits[i].hook as int],
        forall|s: int|
            (forall|i: int| 0 <= i < hits.len() ==> (#[trigger] hits[i]).slot != s) ==> {
                &&& #[trigger] restored(memory, hits, originals)[s] == memory[s]
                &&& restored(memory, hits, originals).contains_key(s) == memory.contains_key(s)
            },
        forall|i: int|
            0 <= i < hits.len() ==> restored(memory, hits, originals).contains_key(
                (#[trigger] hits[i]).slot as int,
            ),
    decreases hits.len(),
{
    if hits.len() > 0 {
        let init = hits.drop_last();
        let h = hits.last();
        lemma_restored(memory, init, originals);
        assert forall|i: int| 0 <= i < hits.len() implies restored(memory, hits, originals)[(
        #[trigger] hits[i]).slot as int] == originals[hits[i].hook as int] by {
            assert(hits[hits.len() - 1] == h);
            if i < init.len() {
                assert(init[i] == hits[i]);
            }
        }
        assert forall|s: int|
            (forall|i: int| 0 <= i < hits.len() ==> (#[trigger] hits[i]).slot != s) implies {
            &&& #[trigger] restored(memory, hits, originals)[s] == memory[s]
            &&& restored(memory, hits, originals).contains_key(s) == memory.contains_key(s)
        } by {
            assert(hits[hits.len() - 1] == h);
            assert forall|i: int| 0 <= i < init.len() implies (#[trigger] init[i]).slot != s by {
                assert(init[i] == hits[i]);
            }
            assert(restored(memory, init, originals)[s] == memory[s]);
        }
        assert forall|i: int| 0 <= i < hits.len() implies restored(
            memory,
            hits,
            originals,
        ).contains_key((#[trigger] hits[i]).slot as int) by {
            if i < init.len() {
                assert(init[i] == hits[i]);
            }
        }
    }
}

/// Writing the recorded addresses back undoes the redirection, where no slot
/// and no function occurs twice.
pub proof fn law_restore_undoes_patch(
    memory: Map<int, u64>,
    hits: Seq<Hit>,
    replacements: Seq<u64>,
)
    requires
        all_distinct(hits),
        forall|i: int| 0 <= i < hits.len() ==> memory.contains_key((#[trigger] hits[i]).slot as int),
    ensures
        ({
            let (m, o) = patched(memory, hits, replacements);
            restored(m, hits, o) == memory
        }),
{
    let (m, o) = patched(memory, hits, replacements);
    let r = restored(m, hits, o);
    lemma_patched(memory, hits, replacements);
    lemma_restored(m, hits, o);
    assert forall|s: int| #[trigger] r.contains_key(s) == memory.contains_key(s) && (
    memory.contains_key(s) ==> r[s] == memory[s]) by {
        if exists|i: int| 0 <= i < hits.len() && (#[trigger] hits[i]).slot == s {
            let i = choose|i: int| 0 <= i < hits.len() && (#[trigger] hits[i]).slot == s;
            assert(r.contains_key(hits[i].slot as int));
            assert(r[hits[i].slot as int] == o[hits[i].hook as int]);
        } else {
            assert(r[s] == m[s]);
            assert(m[s] == memory[s]);
        }
    }
    assert forall|s: int| r.dom().contains(s) == memory.dom().contains(s) by {
        assert(r.contains_key(s) == memory.contains_key(s));
    }
    assert forall|s: int| #[trigger] r.dom().contains(s) implies r[s] == memory[s] by {
        assert(r.contains_key(s));
    }
    assert(r =~= memory);
}

/// One write into a slot: what it held before, and what is written.
#[derive(Clone, Copy, Debug)]
pub struct SlotWrite {
    pub slot: usize,
    pub hook: usize,
    pub before: u64,
    pub value: u64,
}

/// The addresses in the slots of an image.
pub open spec fn memory_of(image: Seq<u8>) -> Map<int, u64> {
    Map::new(|s: int| 0 <= s && s + 8 <= image.len(), |s: int| le64_at(image, s))
}

/// The writes that redirect the slots `hits`, in order; the write for a
/// function records what its slot held just before.
pub fn patch_module(image: &[u8], hits: &[Hit], replacements: &[u64]) -> (out: Vec<SlotWrite>)
    requires
        forall|i: int|
            0 <= i < hits.len() ==> (#[trigger] hits[i]).slot + 8 <= image.len() && hits[i].hook
                < replacements.len(),
    ensures
        out.len() == hits.len(),
        forall|i: int|
            0 <= i < out.len() ==> {
                &&& (#[trigger] out[i]).slot == hits[i].slot
                &&& out[i].hook == hits[i].hook
                &&& out[i].value == replacements[hits[i].hook as int]
                &&& out[i].before == patched(
                    memory_of(image@),
                    hits@.take(i),
                    replacements@,
                ).0[hits[i].slot as int]
            },
{
    let ghost memory = memory_of(image@);
    let mut out: Vec<SlotWrite> = Vec::new();
    let mut i: usize = 0;
    while i < hits.len()
        invariant
            i <= hits.len(),
            out.len() == i,
            memory == memory_of(image@),
            forall|j: int|
                0 <= j < hits.len() ==> (#[trigger] hits[j]).slot + 8 <= image.len()
                    && hits[j].hook < replacements.len(),
            forall|j: int|
                0 <= j < i ==> {
                    &&& (#[trigger] out[j]).slot == hits[j].slot
                    &&& out[j].hook == hits[j].hook
                    &&& out[j].value == replacements[hits[j].hook as int]
                    &&& out[j].before == patched(memory, hits@.take(j), replacements@).0[
                        hits[j].slot as int]
                },
        decreases hits.len() - i,
    {
        let h: Hit = hits[i];
        let mut before: u64 = read_le64(image, h.slot);
        let mut k: usize = 0;
        assert(hits@.take(0) =~= Seq::<Hit>::empty());
        while k < i
            invariant
                k <= i < hits.len(),
                out.len() == i,
                h == hits[i as int],
                h.slot + 8 <= image.len(),
                forall|j: int|
                    0 <= j < i ==> {
                        &&& (#[trigger] out[j]).slot == hits[j].slot
                        &&& out[j].value == replacements[hits[j].hook as int]
                    },
                before == patched(memory, hits@.take(k as int), replacements@).0[h.slot as int],
            decreases i - k,
        {
            proof {
                let p = hits@.take(k + 1);
                assert(p.drop_last() =~= hits@.take(k as int));
                assert(p.last() == hits[k as int]);
            }
            if out[k].slot == h.slot {
                before = out[k].value;
            }
            k = k + 1;
        }
        out.push(SlotWrite { slot: h.slot, hook: h.hook, before, value: replacements[h.hook] });
        i = i + 1;
    }
    out
}

/// The writes that end the redirection of the slots `hits`, in order.
pub fn restore_module(hits: &[Hit], originals: &[u64]) -> (out: Vec<(usize, u64)>)
    requires
        forall|i: int| 0 <= i < hits.len() ==> (#[trigger] hits[i]).hook < originals.len(),
    ensures
        out.len() == hits.len(),
        forall|i: int|
            0 <= i < out.len() ==> (#[trigger] out[i]).0 == hits[i].slot && out[i].1
                == originals[hits[i].hook as int],
{
    let mut out: Vec<(usize, u64)> = Vec::new();
    let mut i: usize = 0;
    while i < hits.len()
        invariant
            i <= hits.len(),
            out.len() == i,
            forall|j: int| 0 <= j < hits.len() ==> (#[trigger] hits[j]).hook < originals.len(),
            forall|j: int|
                0 <= j < i ==> (#[trigger] out[j]).0 == hits[j].slot && out[j].1
                    == originals[hits[j].hook as int],
        decreases hits.len() - i,
    {
        out.push((hits[i].slot, originals[hits[i].hook]));
        i = i + 1;
    }
    out
}

/// Every slot that is found lies in the image and belongs to one of the wanted
/// functions.
pub proof fn law_slots_are_inside(
    image: Seq<u8>,
    library: Seq<u8>,
    hooks: Seq<Seq<u8>>,
    sized: bool,
    i: int,
)
    requires
        image.len() <= u32::MAX,
        hooks.len() <= u32::MAX,
        0 <= i < slots_of(image, library, hooks, sized).len(),
    ensures
        slots_of(image, library, hooks, sized)[i].slot + 8 <= image.len(),
        slots_of(image, library, hooks, sized)[i].hook < hooks.len(),
{
    lemma_descriptors_inside(image, import_table(image, sized)->0, library, hooks);
}

spec fn inside(hits: Seq<Hit>, image: Seq<u8>, hooks: Seq<Seq<u8>>) -> bool {
    forall|i: int|
        0 <= i < hits.len() ==> (#[trigger] hits[i]).slot + 8 <= image.len() && hits[i].hook
            < hooks.len()
}

proof fn lemma_matches_inside(
    image: Seq<u8>,
    name: Seq<u8>,
    slot: int,
    hooks: Seq<Seq<u8>>,
    k: int,
)
    requires
        image.len() <= u32::MAX,
        hooks.len() <= u32::MAX,
        0 <= slot,
        slot + 8 <= image.len(),
    ensures
        inside(matches_of(name, slot, hooks, k), image, hooks),
    decreases hooks.len() - k,
{
    if 0 <= k < hooks.len() {
        lemma_matches_inside(image, name, slot, hooks, k + 1);
    }
}

proof fn lemma_thunks_inside(image: Seq<u8>, at: int, iat: int, hooks: Seq<Seq<u8>>)
    requires
        image.len() <= u32::MAX,
        hooks.len() <= u32::MAX,
        0 <= iat,
    ensures
        inside(thunk_hits(image, at, iat, hooks), image, hooks),
    decreases image.len() - at,
{
    if 0 <= at && at + 8 <= image.len() {
        let v = le64_at(image, at);
        if v != 0 {
            lemma_thunks_inside(image, at + 8, iat + 8, hooks);
            if v < ORDINAL_FLAG && iat + 8 <= image.len() {
                lemma_matches_inside(image, name_at(image, v + 2), iat, hooks, 0);
            }
        }
    }
}

proof fn lemma_descriptors_inside(
    image: Seq<u8>,
    at: int,
    library: Seq<u8>,
    hooks: Seq<Seq<u8>>,
)
    requires
        image.len() <= u32::MAX,
        hooks.len() <= u32::MAX,
    ensures
        inside(descriptor_hits(image, at, library, hooks), image, hooks),
    decreases image.len() - at,
{
    if 0 <= at && at + DESCRIPTOR_SIZE <= image.len() {
        let by_name = le32_at(image, at) as int;
        let name = le32_at(image, at + 12) as int;
        let slots = le32_at(image, at + 16) as int;
        if !(name == 0 && slots == 0) {
            lemma_descriptors_inside(image, at + DESCRIPTOR_SIZE, library, hooks);
            lemma_thunks_inside(
                image,
                if by_name != 0 {
                    by_name
                } else {
                    slots
                },
                slots,
                hooks,
            );
        }
    }
}

/// An import is matched by the hook of its own name, exactly: each hit is at the
/// import's slot and of a hook with that name, and every hook with it hits.
pub proof fn law_imports_are_matched_by_name(
    name: Seq<u8>,
    slot: int,
    hooks: Seq<Seq<u8>>,
    k: int,
    j: int,
)
    requires
        0 <= slot <= u32::MAX,
        hooks.len() <= u32::MAX,
        0 <= k <= hooks.len(),
    ensures
        forall|i: int|
            0 <= i < matches_of(name, slot, hooks, k).len() ==> {
                let h = #[trigger] matches_of(name, slot, hooks, k)[i];
                h.slot == slot && k <= h.hook < hooks.len() && without_nul(hooks[h.hook as int])
                    == name
            },
        k <= j < hooks.len() && without_nul(hooks[j]) == name ==> matches_of(
            name,
            slot,
            hooks,
            k,
        ).contains(Hit { slot: slot as usize, hook: j as usize }),
    decreases hooks.len() - k,
{
    if k < hooks.len() {
        let m = matches_of(name, slot, hooks, k);
        let rest = matches_of(name, slot, hooks, k + 1);
        let first = Hit { slot: slot as usize, hook: k as usize };
        law_imports_are_matched_by_name(name, slot, hooks, k + 1, j);
        if without_nul(hooks[k]) == name {
            assert(m[0] == first);
            assert forall|i: int| 0 <= i < m.len() implies {
                let h = #[trigger] m[i];
                h.slot == slot && k <= h.hook < hooks.len() && without_nul(hooks[h.hook as int])
                    == name
            } by {
                if i > 0 {
                    assert(m[i] == rest[i - 1]);
                }
            }
        }
        if k < j < hooks.len() && without_nul(hooks[j]) == name {
            let x = Hit { slot: slot as usize, hook: j as usize };
            let i = choose|i: int| 0 <= i < rest.len() && rest[i] == x;
            if without_nul(hooks[k]) == name {
                assert(m[i + 1] == x);
            } else {
                assert(m[i] == x);
            }
        }
    }
}

/// A patched slot holds the replacement of its own hook, the original of that
/// hook is what stood there, and no other slot changes.
pub proof fn law_patched_slots(
    memory: Map<int, u64>,
    hits: Seq<Hit>,
    replacements: Seq<u64>,
    i: int,
    other: int,
)
    requires
        all_distinct(hits),
        0 <= i < hits.len(),
    ensures
        patched(memory, hits, replacements).0[hits[i].slot as int]
            == replacements[hits[i].hook as int],
        patched(memory, hits, replacements).1[hits[i].hook as int] == memory[hits[i].slot as int],
        (forall|k: int| 0 <= k < hits.len() ==> (#[trigger] hits[k]).slot != other) ==> patched(
            memory,
            hits,
            replacements,
        ).0[other] == memory[other],
    decreases hits.len(),
{
    let init = hits.drop_last();
    let last = hits.last();
    assert(hits[hits.len() - 1] == last);
    assert forall|a: int, b: int| 0 <= a < b < init.len() implies (#[trigger] init[a]).slot != (
    #[trigger] init[b]).slot && init[a].hook != init[b].hook by {
        assert(hits[a] == init[a] && hits[b] == init[b]);
    }
    lemma_untouched(memory, init, replacements, last.slot as int);
    lemma_untouched(memory, hits, replacements, other);
    assert forall|k: int| 0 <= k < init.len() implies (#[trigger] init[k]).slot != last.slot by {
        assert(hits[k] == init[k]);
    }
    if i < init.len() {
        law_patched_slots(memory, init, replacements, i, other);
        assert(init[i] == hits[i]);
        assert(hits[i].slot != last.slot && hits[i].hook != last.hook);
    }
}

proof fn lemma_untouched(memory: Map<int, u64>, hits: Seq<Hit>, replacements: Seq<u64>, other: int)
    ensures
        (forall|k: int| 0 <= k < hits.len() ==> (#[trigger] hits[k]).slot != other) ==> patched(
            memory,
            hits,
            replacements,
        ).0[other] == memory[other],
    decreases hits.len(),
{
    if hits.len() > 0 {
        let init = hits.drop_last();
        lemma_untouched(memory, init, replacements, other);
        assert(hits[hits.len() - 1] == hits.last());
        if forall|k: int| 0 <= k < hits.len() ==> (#[trigger] hits[k]).slot != other {
            assert forall|k: int| 0 <= k < init.len() implies (#[trigger] init[k]).slot != other by {
                assert(hits[k] == init[k]);
            }
        }
    }
}

/// The marks and offsets of an executable file: it begins with `MZ`, says at
/// byte 60 where `PE` and two zeros stand, and has the place of its imports 144
/// bytes behind that; each imported library takes 20 bytes.
pub proof fn law_image_layout(image: Seq<u8>, sized: bool)
    ensures
        import_table(image, sized) matches Some(at) ==> {
            let nt = le32_at(image, 60) as int;
            &&& image.len() >= 64
            &&& image[0] == 0x4D && image[1] == 0x5A
            &&& nt + 152 <= image.len()
            &&& image[nt] == 0x50 && image[nt + 1] == 0x45 && image[nt + 2] == 0 && image[nt + 3]
                == 0
            &&& at == le32_at(image, nt + 144)
            &&& at != 0
            &&& sized ==> le32_at(image, nt + 148) != 0
        },
        DESCRIPTOR_SIZE == 20,
        ORDINAL_FLAG == 0x8000_0000_0000_0000,
{
}

/// Names of libraries are compared without regard to the case of ASCII letters,
/// and those of imports as they are, up to the NUL.
pub proof fn law_name_comparison(a: Seq<u8>, b: Seq<u8>)
    ensures
        same_ignoring_case(a, a),
        same_ignoring_case(a, b) ==> a.len() == b.len() && same_ignoring_case(b, a),
        lower_byte(0x41) == 0x61 && lower_byte(0x5A) == 0x7A,
        forall|c: u8| (c < 0x41 || c > 0x5A) ==> #[trigger] lower_byte(c) == c,
        !a.contains(0) ==> until_nul(a.push(0) + b) == a,
        a.len() > 0 && a.last() != 0 ==> without_nul(a) == a && without_nul(a.push(0)) == a,
    decreases a.len(),
{
    let s = a.push(0) + b;
    assert(a.push(0).drop_last() =~= a);
    if same_ignoring_case(a, b) {
        assert forall|i: int| 0 <= i < b.len() implies #[trigger] lower_byte(b[i]) == lower_byte(
            a[i],
        ) by {
            assert(lower_byte(a[i]) == lower_byte(b[i]));
        }
    }
    if !a.contains(0) {
        if a.len() == 0 {
            assert(s[0] == 0);
            assert(until_nul(s) =~= a);
        } else {
            let t = a.skip(1);
            if t.contains(0) {
                let i = choose|i: int| 0 <= i < t.len() && t[i] == 0;
                assert(a[i + 1] == 0);
            }
            law_name_comparison(t, b);
            assert(s.skip(1) =~= t.push(0) + b);
            assert(s[0] == a[0]);
            assert(a[0] != 0);
            assert(seq![a[0]] + t =~= a);
        }
    }
}

/// The imports of a library: its descriptor says where the names stand and where
/// the slots, in that order and with the name of the library between them; where
/// no names are given the slots hold them.
pub proof fn law_descriptor_layout(
    image: Seq<u8>,
    at: int,
    library: Seq<u8>,
    hooks: Seq<Seq<u8>>,
)
    requires
        0 <= at,
        at + 20 <= image.len(),
    ensures
        ({
            let by_name = le32_at(image, at) as int;
            let name = le32_at(image, at + 12) as int;
            let slots = le32_at(image, at + 16) as int;
            let rest = descriptor_hits(image, at + 20, library, hooks);
            &&& name == 0 && slots == 0 ==> descriptor_hits(image, at, library, hooks).len() == 0
            &&& (name != 0 || slots != 0) && !same_ignoring_case(name_at(image, name), library)
                ==> descriptor_hits(image, at, library, hooks) == rest
            &&& (name != 0 || slots != 0) && same_ignoring_case(name_at(image, name), library)
                && by_name != 0 ==> descriptor_hits(image, at, library, hooks) == thunk_hits(
                image,
                by_name,
                slots,
                hooks,
            ) + rest
            &&& (name != 0 || slots != 0) && same_ignoring_case(name_at(image, name), library)
                && by_name == 0 ==> descriptor_hits(image, at, library, hooks) == thunk_hits(
                image,
                slots,
                slots,
                hooks,
            ) + rest
        }),
{
}

/// The imports are walked eight bytes at a time, names and slots side by side, up
/// to a zero; one by number has no name; and a name stands behind two bytes of
/// hint.
pub proof fn law_thunk_layout(image: Seq<u8>, at: int, iat: int, hooks: Seq<Seq<u8>>)
    requires
        0 <= at,
        at + 8 <= image.len(),
        iat + 8 <= image.len(),
    ensures
        ({
            let v = le64_at(image, at);
            let rest = thunk_hits(image, at + 8, iat + 8, hooks);
            &&& v == 0 ==> thunk_hits(image, at, iat, hooks).len() == 0
            &&& v >= 0x8000_0000_0000_0000 ==> thunk_hits(image, at, iat, hooks) == rest
            &&& 0 < v < 0x8000_0000_0000_0000 ==> thunk_hits(image, at, iat, hooks) == matches_of(
                name_at(image, v + 2),
                iat,
                hooks,
                0,
            ) + rest
        }),
{
}

} // verus!
