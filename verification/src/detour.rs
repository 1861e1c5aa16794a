use vstd::prelude::*;
use vstd::string::*;

verus! {

// ---------------------------------------------------------------------------
// Hexadecimal numbers in assembler text.
// ---------------------------------------------------------------------------

/// The lower-case hex digit of a value below 16.
pub open spec fn hex_char(d: nat) -> char {
    if d < 10 {
        ((d + 48) as u8) as char
    } else {
        ((d + 87) as u8) as char
    }
}

/// The lower-case hex digits of `n`, without leading zeros (`0` for zero).
pub open spec fn hex_digits(n: nat) -> Seq<char>
    decreases n,
{
    if n < 16 {
        seq![hex_char(n)]
    } else {
        hex_digits(n / 16).push(hex_char(n % 16))
    }
}

/// `n` written as `0x` followed by its lower-case hex digits.
pub open spec fn hex_literal(n: nat) -> Seq<char> {
    seq!['0', 'x'] + hex_digits(n)
}

fn hex_digit_str(d: usize) -> (s: &'static str)
    requires
        d < 16,
    ensures
        s@ == seq![hex_char(d as nat)],
{
    proof {
        reveal_strlit("0");
        reveal_strlit("1");
        reveal_strlit("2");
        reveal_strlit("3");
        reveal_strlit("4");
        reveal_strlit("5");
        reveal_strlit("6");
        reveal_strlit("7");
        reveal_strlit("8");
        reveal_strlit("9");
        reveal_strlit("a");
        reveal_strlit("b");
        reveal_strlit("c");
        reveal_strlit("d");
        reveal_strlit("e");
        reveal_strlit("f");
    }
    let s = match d {
        0 => "0",
        1 => "1",
        2 => "2",
        3 => "3",
        4 => "4",
        5 => "5",
        6 => "6",
        7 => "7",
        8 => "8",
        9 => "9",
        10 => "a",
        11 => "b",
        12 => "c",
        13 => "d",
        14 => "e",
        _ => "f",
    };
    assert(s@ =~= seq![hex_char(d as nat)]);
    s
}

fn append_hex_digits(text: &mut String, n: usize)
    ensures
        final(text)@ == old(text)@ + hex_digits(n as nat),
    decreases n,
{
    if n >= 16 {
        append_hex_digits(text, n / 16);
    }
    text.append(hex_digit_str(n % 16));
    assert(final(text)@ =~= old(text)@ + hex_digits(n as nat));
}

/// Appends `n` as a `0x`-prefixed lower-case hex literal.
pub fn append_hex_literal(text: &mut String, n: usize)
    ensures
        final(text)@ == old(text)@ + hex_literal(n as nat),
{
    text.append("0x");
    proof {
        reveal_strlit("0x");
    }
    append_hex_digits(text, n);
    assert(final(text)@ =~= old(text)@ + hex_literal(n as nat));
}

// ---------------------------------------------------------------------------
// Detours: a jump patched over game code into a trampoline that calls a
// method and runs the patched-over code.
// ---------------------------------------------------------------------------

/// Whether the method runs before or after the patched-over code.
#[derive(Clone, Copy, Debug, PartialEq, Eq, Structural)]
pub enum DetourOrder {
    /// The detour runs first, then the patched-over code.
    DetourBefore,
    /// The patched-over code runs first, then the detour.
    DetourAfter,
}

/// The shortest code region a detour can patch: one relative jump.
pub open spec fn min_detour_len() -> nat {
    5
}

/// Why a detour could not be laid out.
#[derive(Clone, Copy, Debug, PartialEq, Eq, Structural)]
pub enum DetourError {
    /// The region to patch is shorter than a relative jump; its length.
    PatchTooShort(usize),
}

/// Checks that a code region is long enough to hold a relative jump.
pub fn check_patch_region(len: usize) -> (res: Result<(), DetourError>)
    ensures
        res is Ok <==> len >= min_detour_len(),
        res is Err ==> res == Err::<(), DetourError>(DetourError::PatchTooShort(len)),
{
    if len < 5 {
        return Err(DetourError::PatchTooShort(len));
    }
    Ok(())
}

/// The assembler text, before and after the instance address and between
/// it and the method address, of the code that saves the registers, calls
/// the method with the instance, and restores the registers.
pub open spec fn call_assembly_head() -> Seq<char> {
    "push eax\n            push ebx\n            push ecx\n            push edx\n            push esi\n            push edi\n            pushfd\n            mov eax, "@
}

pub open spec fn call_assembly_middle() -> Seq<char> {
    "\n            mov esi, "@
}

pub open spec fn call_assembly_tail() -> Seq<char> {
    "\n            push    eax\n            call    esi\n            pop     eax\n            popfd\n            pop edi\n            pop esi\n            pop edx\n            pop ecx\n            pop ebx\n            pop eax"@
}

/// The assembler text that calls `method_address` with `instance_address`.
pub fn method_call_assembly(instance_address: usize, method_address: usize) -> (text: String)
    ensures
        text@ == call_assembly_head() + hex_literal(instance_address as nat) + call_assembly_middle()
            + hex_literal(method_address as nat) + call_assembly_tail(),
{
    let mut text = String::from_str(
        "push eax\n            push ebx\n            push ecx\n            push edx\n            push esi\n            push edi\n            pushfd\n            mov eax, ",
    );
    append_hex_literal(&mut text, instance_address);
    text.append("\n            mov esi, ");
    append_hex_literal(&mut text, method_address);
    text.append(
        "\n            push    eax\n            call    esi\n            pop     eax\n            popfd\n            pop edi\n            pop esi\n            pop edx\n            pop ecx\n            pop ebx\n            pop eax",
    );
    text
}

/// The assembler text of a jump to `target`.
pub fn jump_assembly(target: usize) -> (text: String)
    ensures
        text@ == "jmp "@ + hex_literal(target as nat),
{
    let mut text = String::from_str("jmp ");
    append_hex_literal(&mut text, target);
    text
}

/// The length of a relative jump instruction.
pub open spec fn jump_len() -> nat {
    5
}

/// The size of a trampoline: the method call, the old code, a jump back.
pub fn trampoline_code_size(call_len: usize, old_len: usize) -> (size: usize)
    requires
        call_len + old_len + jump_len() <= usize::MAX,
    ensures
        size == call_len + old_len + jump_len(),
{
    call_len + old_len + 5
}

/// The body of a trampoline in the given order.
pub open spec fn trampoline_body(order: DetourOrder, call_code: Seq<u8>, old_code: Seq<u8>) -> Seq<
    u8,
> {
    match order {
        DetourOrder::DetourBefore => call_code + old_code,
        DetourOrder::DetourAfter => old_code + call_code,
    }
}

fn append_bytes(v: &mut Vec<u8>, bytes: &[u8])
    ensures
        final(v)@ == old(v)@ + bytes@,
{
    let mut i: usize = 0;
    while i < bytes.len()
        invariant
            i <= bytes@.len(),
            v@ == old(v)@ + bytes@.subrange(0, i as int),
        decreases bytes@.len() - i,
    {
        v.push(bytes[i]);
        i = i + 1;
        assert(v@ =~= old(v)@ + bytes@.subrange(0, i as int));
    }
    assert(bytes@.subrange(0, bytes@.len() as int) =~= bytes@);
}

/// Writes the method-calling code and the patched-over code into the
/// trampoline in the given order. The jump back, which depends on where
/// the trampoline lies, follows at `jump_back_offset`.
pub fn write_trampoline_body(
    trampoline: &mut Vec<u8>,
    order: DetourOrder,
    call_code: &[u8],
    old_code: &[u8],
)
    ensures
        final(trampoline)@ == old(trampoline)@ + trampoline_body(order, call_code@, old_code@),
{
    match order {
        DetourOrder::DetourBefore => {
            append_bytes(trampoline, call_code);
            append_bytes(trampoline, old_code);
        },
        DetourOrder::DetourAfter => {
            append_bytes(trampoline, old_code);
            append_bytes(trampoline, call_code);
        },
    }
    assert(final(trampoline)@ =~= old(trampoline)@ + trampoline_body(order, call_code@, old_code@));
}

/// Appends the jump back to the trampoline.
pub fn write_trampoline_jump_back(trampoline: &mut Vec<u8>, jump_code: &[u8])
    ensures
        final(trampoline)@ == old(trampoline)@ + jump_code@,
{
    append_bytes(trampoline, jump_code);
}

/// Where, from the start of the trampoline, the jump back begins.
pub fn jump_back_offset(call_len: usize, old_len: usize) -> (offset: usize)
    requires
        call_len + old_len <= usize::MAX,
    ensures
        offset == call_len + old_len,
{
    call_len + old_len
}

/// The trampoline body holds both codes, the one that runs first first,
/// and the jump back follows it at `jump_back_offset` whichever the order:
/// the address the jump is assembled for is the address it is written at.
pub proof fn law_jump_back_follows_body(order: DetourOrder, call_code: Seq<u8>, old_code: Seq<u8>)
    ensures
        trampoline_body(order, call_code, old_code).len() == call_code.len() + old_code.len(),
        trampoline_body(DetourOrder::DetourBefore, call_code, old_code).subrange(
            0,
            call_code.len() as int,
        ) == call_code,
        trampoline_body(DetourOrder::DetourAfter, call_code, old_code).subrange(
            0,
            old_code.len() as int,
        ) == old_code,
{
    assert((call_code + old_code).subrange(0, call_code.len() as int) =~= call_code);
    assert((old_code + call_code).subrange(0, old_code.len() as int) =~= old_code);
}

/// The no-operation instruction that fills the rest of a patched region.
pub open spec fn nop() -> u8 {
    0x90
}

/// The bytes written over a region: the jump, then no-ops to the end.
pub open spec fn patch_code(region_len: nat, jump_code: Seq<u8>) -> Seq<u8> {
    jump_code + Seq::new((region_len - jump_code.len()) as nat, |i: int| nop())
}

/// The bytes to write over a code region of `region_len` bytes: the jump
/// into the trampoline, and no-ops after it.
pub fn patch_bytes(region_len: usize, jump_code: &[u8]) -> (patch: Vec<u8>)
    requires
        jump_code@.len() <= region_len,
    ensures
        patch@ == patch_code(region_len as nat, jump_code@),
        patch@.len() == region_len,
{
    let mut patch: Vec<u8> = Vec::new();
    append_bytes(&mut patch, jump_code);
    let mut i: usize = jump_code.len();
    while i < region_len
        invariant
            jump_code@.len() <= i <= region_len,
            patch@ == jump_code@ + Seq::new((i - jump_code@.len()) as nat, |k: int| nop()),
        decreases region_len - i,
    {
        patch.push(0x90);
        i = i + 1;
        assert(patch@ =~= jump_code@ + Seq::new((i - jump_code@.len()) as nat, |k: int| nop()));
    }
    patch
}

/// Memory after `bytes` are written at `at`.
pub open spec fn write_at(memory: Seq<u8>, at: int, bytes: Seq<u8>) -> Seq<u8> {
    memory.subrange(0, at) + bytes + memory.subrange(at + bytes.len(), memory.len() as int)
}

/// Removing a detour undoes installing it: writing the saved original
/// code back over the patched region restores the memory exactly.
pub proof fn law_detour_restores(memory: Seq<u8>, at: int, region_len: nat, jump_code: Seq<u8>)
    requires
        0 <= at,
        at + region_len <= memory.len(),
        jump_code.len() <= region_len,
    ensures
        ({
            let saved = memory.subrange(at, at + region_len);
            let patched = write_at(memory, at, patch_code(region_len, jump_code));
            &&& patched.len() == memory.len()
            &&& patched.subrange(at, at + region_len) == patch_code(region_len, jump_code)
            &&& write_at(patched, at, saved) == memory
        }),
{
    let saved = memory.subrange(at, at + region_len);
    let patch = patch_code(region_len, jump_code);
    let patched = write_at(memory, at, patch);
    assert(patched.subrange(at, at + region_len) =~= patch);
    assert(write_at(patched, at, saved) =~= memory);
}

/// The shortest code region a plain hook can patch on this machine: a
/// relative jump on 32-bit targets, an absolute one on 64-bit targets.
pub fn min_patch_size() -> (size: usize)
    ensures
        size == if usize::BITS == 32 {
            5usize
        } else {
            12usize
        },
{
    if usize::BITS == 32 {
        5
    } else {
        12
    }
}

} // verus!
