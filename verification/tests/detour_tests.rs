use mince::detour::{
    append_hex_literal, check_patch_region, jump_assembly, jump_back_offset, method_call_assembly,
    min_patch_size, patch_bytes, trampoline_code_size, write_trampoline_body,
    write_trampoline_jump_back, DetourError, DetourOrder,
};

#[test]
fn hex_literals_match_alternate_hex_formatting() {
    for n in [0usize, 1, 9, 10, 15, 16, 255, 0x1234_abcd, usize::MAX] {
        let mut s = String::from("x=");
        append_hex_literal(&mut s, n);
        assert_eq!(s, format!("x={:#x}", n));
    }
}

#[test]
fn jump_and_call_texts() {
    assert_eq!(jump_assembly(0x401000), "jmp 0x401000");
    let expected = format!(
        "push eax
            push ebx
            push ecx
            push edx
            push esi
            push edi
            pushfd
            mov eax, {:#x}
            mov esi, {:#x}
            push    eax
            call    esi
            pop     eax
            popfd
            pop edi
            pop esi
            pop edx
            pop ecx
            pop ebx
            pop eax",
        0xdead_beefusize, 0x1000usize
    );
    assert_eq!(method_call_assembly(0xdead_beef, 0x1000), expected);
}

#[test]
fn patch_region_must_hold_a_jump() {
    assert_eq!(check_patch_region(4), Err(DetourError::PatchTooShort(4)));
    assert_eq!(check_patch_region(5), Ok(()));
    assert_eq!(check_patch_region(0), Err(DetourError::PatchTooShort(0)));
}

#[test]
fn trampoline_layout_follows_the_order() {
    let call = [1u8, 2, 3];
    let old = [9u8, 8];
    let mut before = Vec::new();
    write_trampoline_body(&mut before, DetourOrder::DetourBefore, &call, &old);
    assert_eq!(before, vec![1, 2, 3, 9, 8]);
    let mut after = Vec::new();
    write_trampoline_body(&mut after, DetourOrder::DetourAfter, &call, &old);
    assert_eq!(after, vec![9, 8, 1, 2, 3]);
    assert_eq!(jump_back_offset(call.len(), old.len()), 5);
    write_trampoline_jump_back(&mut after, &[0xE9, 0, 0, 0, 0]);
    assert_eq!(after.len(), trampoline_code_size(call.len(), old.len()));
}

#[test]
fn patch_is_jump_then_nops_and_restores() {
    let original = vec![0x10u8, 0x20, 0x30, 0x40, 0x50, 0x60, 0x70, 0x80];
    let mut memory = original.clone();
    let saved = memory[1..7].to_vec();
    let patch = patch_bytes(6, &[0xE9, 1, 2, 3, 4]);
    assert_eq!(patch, vec![0xE9, 1, 2, 3, 4, 0x90]);
    memory[1..7].copy_from_slice(&patch);
    assert_eq!(memory, vec![0x10, 0xE9, 1, 2, 3, 4, 0x90, 0x80]);
    memory[1..7].copy_from_slice(&saved);
    assert_eq!(memory, original);
    assert_eq!(patch_bytes(5, &[0xE9, 0, 0, 0, 0]).len(), 5);
}

#[test]
fn plain_hooks_need_a_pointer_sized_jump() {
    let expected = if usize::BITS == 32 { 5 } else { 12 };
    assert_eq!(min_patch_size(), expected);
}
