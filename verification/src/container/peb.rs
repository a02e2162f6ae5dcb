//! The image path and the command line that a suspended process is shown.
//!
//! A process that was started through a path of the host is told the path that
//! it has inside the container before it runs: new texts are written to its
//! memory, and the counted strings of its parameters are made to point at them.

use crate::container::config::{Failure, PsrootError};
use crate::text::{concat2, concat4, concat5, decimal, decimal_text, hex, hex_text};
use crate::wide::{
    counted_sizes, make_unicode_string, push_unit_bytes, unit_bytes, wide,
};
use vstd::prelude::*;

verus! {

/// Where the block of a process keeps the address of its parameters.
pub const PEB_OFFSET_PROCESS_PARAMETERS: u64 = 0x20;

/// Where the parameters keep the counted string of the image path.
pub const RUP_OFFSET_IMAGE_PATH_NAME: u64 = 0x60;

/// Where the parameters keep the counted string of the command line.
pub const RUP_OFFSET_COMMAND_LINE: u64 = 0x70;

/// Why the block of the process could not be found.
pub open spec fn block_failure(status: i32) -> Seq<char> {
    "NtQueryInformationProcess(ProcessBasicInformation) -> 0x"@ + hex(
        (status as int % 0x1_0000_0000) as nat,
        8,
    )
}

/// Why memory of the process could not be read.
pub open spec fn read_failure(at: u64, code: u32) -> Seq<char> {
    "ReadProcessMemory(@0x"@ + hex(at as nat, 1) + ") failed: win32 err "@ + decimal(code as nat)
}

/// Why memory of the process could not be written.
pub open spec fn write_failure(at: u64, len: nat, code: u32) -> Seq<char> {
    "WriteProcessMemory(@0x"@ + hex(at as nat, 1) + ", "@ + decimal(len)
        + " bytes) failed: win32 err "@ + decimal(code as nat)
}

/// Where the address of the parameters is to be read, from what the query of
/// the process gave.
pub fn parameters_pointer(status: i32, peb: u64) -> (r: Result<u64, PsrootError>)
    requires
        peb <= u64::MAX - PEB_OFFSET_PROCESS_PARAMETERS,
    ensures
        match r {
            Ok(at) => status == 0 && peb != 0 && at == peb + PEB_OFFSET_PROCESS_PARAMETERS,
            Err(e) => if status != 0 {
                e@ == Failure::Other(block_failure(status))
            } else {
                peb == 0 && e@ == Failure::Other(
                    "NtQueryInformationProcess returned NULL PebBaseAddress"@,
                )
            },
        },
{
    if status != 0 {
        let bits: u64 = if status < 0 {
            (status as i64 + 0x1_0000_0000) as u64
        } else {
            status as u64
        };
        let code = hex_text(bits, 8);
        return Err(
            PsrootError::Other(
                concat2("NtQueryInformationProcess(ProcessBasicInformation) -> 0x", code.as_str()),
            ),
        );
    }
    if peb == 0 {
        return Err(
            PsrootError::Other(
                "NtQueryInformationProcess returned NULL PebBaseAddress".to_owned(),
            ),
        );
    }
    Ok(peb + PEB_OFFSET_PROCESS_PARAMETERS)
}

/// The address of the parameters, from a read of `got` bytes at `at`.
pub fn parameters(at: u64, ok: bool, got: u64, value: u64, code: u32) -> (r: Result<
    u64,
    PsrootError,
>)
    ensures
        match r {
            Ok(p) => ok && got == 8 && p == value && p != 0,
            Err(e) => if !ok || got != 8 {
                e@ == Failure::Other(read_failure(at, code))
            } else {
                value == 0 && e@ == Failure::Other(
                    "child PEB.ProcessParameters is NULL (process not yet initialized?)"@,
                )
            },
        },
{
    if !ok || got != 8 {
        let a = hex_text(at, 1);
        let c = decimal_text(code as u128);
        return Err(
            PsrootError::Other(
                concat4(
                    "ReadProcessMemory(@0x",
                    a.as_str(),
                    ") failed: win32 err ",
                    c.as_str(),
                ),
            ),
        );
    }
    if value == 0 {
        return Err(
            PsrootError::Other(
                "child PEB.ProcessParameters is NULL (process not yet initialized?)".to_owned(),
            ),
        );
    }
    Ok(value)
}

/// A text to be put into the process: where the parameters keep its counted
/// string, its bytes with the terminator, and the sizes of the counted string.
pub struct FieldPatch {
    pub offset: u64,
    pub text: Vec<u8>,
    pub length: u16,
    pub maximum: u16,
}

impl FieldPatch {
    /// Whether this puts the text `s` into the field at `offset`.
    pub open spec fn puts(&self, offset: u64, s: Seq<char>) -> bool {
        &&& self.offset == offset
        &&& self.text@ == unit_bytes(wide(s))
        &&& (self.length, self.maximum) == counted_sizes(s)
    }
}

fn field_patch(offset: u64, s: &str) -> (p: FieldPatch)
    ensures
        p.puts(offset, s@),
{
    let (units, length, maximum) = make_unicode_string(s);
    let mut text: Vec<u8> = Vec::new();
    push_unit_bytes(&mut text, units.as_slice());
    assert(text@ =~= unit_bytes(wide(s@)));
    FieldPatch { offset, text, length, maximum }
}

/// The texts to be put into the process, in this order: the image path, and the
/// command line where there is a new one.
pub fn patch_image_path(image_path: &str, command_line: Option<&str>) -> (v: Vec<FieldPatch>)
    ensures
        v@.len() == if command_line is Some { 2int } else { 1int },
        v@[0].puts(RUP_OFFSET_IMAGE_PATH_NAME, image_path@),
        match command_line {
            Some(c) => v@[1].puts(RUP_OFFSET_COMMAND_LINE, c@),
            None => true,
        },
{
    let mut v: Vec<FieldPatch> = Vec::new();
    v.push(field_patch(RUP_OFFSET_IMAGE_PATH_NAME, image_path));
    if let Some(c) = command_line {
        v.push(field_patch(RUP_OFFSET_COMMAND_LINE, c));
    }
    v
}

/// What comes of allocating memory for a text in the process: `buffer` is 0
/// where it failed.
pub fn allocated(buffer: u64, code: u32) -> (r: Result<(), PsrootError>)
    ensures
        match r {
            Ok(_) => buffer != 0,
            Err(e) => buffer == 0 && e@ == Failure::Other(
                "VirtualAllocEx(child PEB string) failed: win32 err "@ + decimal(code as nat),
            ),
        },
{
    if buffer == 0 {
        let c = decimal_text(code as u128);
        return Err(
            PsrootError::Other(
                concat2("VirtualAllocEx(child PEB string) failed: win32 err ", c.as_str()),
            ),
        );
    }
    Ok(())
}

/// What comes of writing `len` bytes at `at`, of which `wrote` were written.
pub fn written(at: u64, len: usize, ok: bool, wrote: usize, code: u32) -> (r: Result<
    (),
    PsrootError,
>)
    ensures
        match r {
            Ok(_) => ok && wrote == len,
            Err(e) => (!ok || wrote != len) && e@ == Failure::Other(
                write_failure(at, len as nat, code),
            ),
        },
{
    if !ok || wrote != len {
        let a = hex_text(at, 1);
        let n = decimal_text(len as u128);
        let c = decimal_text(code as u128);
        let head = concat5(
            "WriteProcessMemory(@0x",
            a.as_str(),
            ", ",
            n.as_str(),
            " bytes) failed: win32 err ",
        );
        return Err(PsrootError::Other(concat2(head.as_str(), c.as_str())));
    }
    Ok(())
}

/// The `k` lowest bytes of a number, the lowest first.
pub open spec fn le_bytes(n: nat, k: nat) -> Seq<u8>
    decreases k,
{
    if k == 0 {
        seq![]
    } else {
        seq![(n % 256) as u8] + le_bytes(n / 256, (k - 1) as nat)
    }
}

/// The number that bytes hold, the lowest first.
pub open spec fn le_number(b: Seq<u8>) -> nat
    decreases b.len(),
{
    if b.len() == 0 {
        0
    } else {
        b[0] as nat + 256 * le_number(b.skip(1))
    }
}

/// Appends the `k` lowest bytes of a number, the lowest first.
pub fn push_le(out: &mut Vec<u8>, n: u64, k: u8)
    ensures
        final(out)@ == old(out)@ + le_bytes(n as nat, k as nat),
    decreases k,
{
    if k > 0 {
        out.push((n % 256) as u8);
        push_le(out, n / 256, k - 1);
    }
    assert(out@ =~= old(out)@ + le_bytes(n as nat, k as nat));
}

proof fn lemma_le_number(n: nat, k: nat, limit: nat)
    requires
        limit == vstd::arithmetic::power::pow(256, k),
        n < limit,
    ensures
        le_bytes(n, k).len() == k,
        le_number(le_bytes(n, k)) == n,
    decreases k,
{
    vstd::arithmetic::power::lemma_pow0(256);
    if k > 0 {
        let less = vstd::arithmetic::power::pow(256, (k - 1) as nat);
        vstd::arithmetic::power::lemma_pow_positive(256, (k - 1) as nat);
        reveal(vstd::arithmetic::power::pow);
        assert(limit == 256 * less);
        lemma_le_number(n / 256, (k - 1) as nat, less as nat);
        let b = le_bytes(n, k);
        assert(b.skip(1) =~= le_bytes(n / 256, (k - 1) as nat));
    }
}

/// The counted string: both sizes, four bytes of padding, and where the text is.
pub open spec fn counted_string(length: u16, maximum: u16, buffer: u64) -> Seq<u8> {
    seq![
        (length % 256) as u8,
        (length / 256) as u8,
        (maximum % 256) as u8,
        (maximum / 256) as u8,
        0u8,
        0u8,
        0u8,
        0u8,
    ] + le_bytes(buffer as nat, 8)
}

/// The bytes of the counted string of a text that lies at `buffer`.
pub fn counted_string_bytes(length: u16, maximum: u16, buffer: u64) -> (v: Vec<u8>)
    ensures
        v@ == counted_string(length, maximum, buffer),
        v@.len() == 16,
{
    let mut v: Vec<u8> = vec![
        (length % 256) as u8,
        (length / 256) as u8,
        (maximum % 256) as u8,
        (maximum / 256) as u8,
        0u8,
        0u8,
        0u8,
        0u8,
    ];
    push_le(&mut v, buffer, 8);
    proof {
        lemma_pow256();
        lemma_le_number(buffer as nat, 8, 0x1_0000_0000_0000_0000);
    }
    assert(v@ =~= counted_string(length, maximum, buffer));
    v
}

/// The counted string leads to the text: its sizes are those of the text, and
/// its address is where the text was put.
pub proof fn law_counted_string(s: Seq<char>, buffer: u64)
    requires
        crate::wide::utf16(s).len() < 32767,
    ensures
        ({
            let b = counted_string(counted_sizes(s).0, counted_sizes(s).1, buffer);
            &&& b.len() == 16
            &&& b[0] + 256 * b[1] == unit_bytes(crate::wide::utf16(s)).len()
            &&& b[2] + 256 * b[3] == unit_bytes(wide(s)).len()
            &&& le_number(b.skip(8)) == buffer
        }),
{
    let b = counted_string(counted_sizes(s).0, counted_sizes(s).1, buffer);
    crate::wide::law_counted_sizes(s);
    lemma_pow256();
    lemma_le_number(buffer as nat, 8, 0x1_0000_0000_0000_0000);
    assert(b.skip(8) =~= le_bytes(buffer as nat, 8));
}

proof fn lemma_pow256()
    ensures
        vstd::arithmetic::power::pow(256, 8) == 0x1_0000_0000_0000_0000,
{
    reveal(vstd::arithmetic::power::pow);
    reveal_with_fuel(vstd::arithmetic::power::pow, 9);
}

/// Where Windows keeps the path and the command line of a process.
pub proof fn law_parameter_offsets(p: FieldPatch, q: FieldPatch, path: Seq<char>, line: Seq<char>)
    requires
        p.puts(RUP_OFFSET_IMAGE_PATH_NAME, path),
        q.puts(RUP_OFFSET_COMMAND_LINE, line),
    ensures
        PEB_OFFSET_PROCESS_PARAMETERS == 0x20,
        p.offset == 0x60 && q.offset == 0x70,
        p.text@ == unit_bytes(wide(path)) && q.text@ == unit_bytes(wide(line)),
        (p.length, p.maximum) == counted_sizes(path),
        (q.length, q.maximum) == counted_sizes(line),
{
}

} // verus!
