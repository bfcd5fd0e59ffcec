use chip8_translator::error::AnomalousCallTarget;
use chip8_translator::translator::Translator;

fn armed() -> Translator {
    let mut translator = Translator::new();
    translator.je(0x0, 0x0, 0x5);
    translator
}

fn branch_after_skip(translator: &Translator) -> (&[u8], &str, usize) {
    (&translator.contents[5..7], translator.debug_symbols[1].text.as_str(), translator.contents.len() - 7)
}

#[test]
fn skip_before_add_branches_over_eight_bytes() {
    let mut translator = armed();
    translator.add(0x0, 0x0, 0x1);
    assert_eq!(branch_after_skip(&translator), (&[0x74u8, 0x0A][..], "je 0x02+0x08", 8));
    assert_eq!(translator.instruction_list, vec![7, 8]);
    assert!(!translator.create_jump);
}

#[test]
fn skip_before_set_index_branches_over_seven_bytes() {
    let mut translator = armed();
    translator.mov_i_addr(0x1, 0x2, 0x3);
    assert_eq!(branch_after_skip(&translator), (&[0x74u8, 0x09][..], "je 0x02+0x07", 7));
    assert_eq!(translator.instruction_list, vec![7, 7]);
}

#[test]
fn skip_before_set_register_branches_over_eight_bytes() {
    let mut translator = armed();
    translator.mov_v_addr(0x1, 0x2, 0x3);
    assert_eq!(branch_after_skip(&translator), (&[0x74u8, 0x0A][..], "je 0x02+0x08", 8));
}

#[test]
fn skip_before_copy_branches_over_both_chunks() {
    let mut translator = armed();
    translator.mov_v_v(0x1, 0x2);
    assert_eq!(branch_after_skip(&translator), (&[0x74u8, 0x0A][..], "je 0x02+0x08", 8));
    assert_eq!(translator.debug_symbols.len(), 4);
    assert_eq!(translator.instruction_list, vec![7, 8]);
}

#[test]
fn skip_before_placeholder_branches_over_sixteen_bytes() {
    let mut translator = armed();
    translator.draw();
    assert_eq!(branch_after_skip(&translator), (&[0x74u8, 0x12][..], "je 0x02+0x10", 16));
    let mut translator = armed();
    translator.rand_bitwise_and(0x0, 0x0, 0x0);
    assert_eq!(branch_after_skip(&translator), (&[0x74u8, 0x12][..], "je 0x02+0x10", 16));
}

#[test]
fn skip_before_jump_branches_over_fourteen_bytes() {
    let mut translator = armed();
    assert_eq!(translator.jmp(0x2, 0x0, 0x0), Ok(()));
    assert_eq!(branch_after_skip(&translator), (&[0x74u8, 0x10][..], "je 0x02+0x0e", 14));
    assert_eq!(translator.instruction_list, vec![7, 14]);
}

#[test]
fn skip_before_call_branches_over_nineteen_bytes() {
    let mut translator = armed();
    assert_eq!(translator.call(0x2, 0x0, 0x0), Ok(()));
    assert_eq!(branch_after_skip(&translator), (&[0x74u8, 0x15][..], "je 0x02+0x13", 19));
    assert_eq!(translator.instruction_list, vec![7, 19]);
}

#[test]
fn skip_before_skip_branches_over_the_comparison() {
    let mut translator = armed();
    translator.je(0x1, 0x0, 0x6);
    assert_eq!(branch_after_skip(&translator), (&[0x74u8, 0x07][..], "je 0x02+0x05", 5));
    assert_eq!(translator.instruction_list, vec![7, 5]);
    assert!(translator.create_jump);
    translator.add(0x0, 0x0, 0x1);
    assert_eq!(&translator.contents[12..14], &[0x74, 0x0A]);
    assert_eq!(translator.instruction_list, vec![7, 7, 8]);
}

#[test]
fn skip_before_dropped_call_branches_over_nothing() {
    let mut translator = armed();
    assert_eq!(translator.call(0x0, 0x0, 0x0), Ok(()));
    assert_eq!(branch_after_skip(&translator), (&[0x74u8, 0x02][..], "je 0x02+0x00", 0));
    assert_eq!(translator.instruction_list, vec![7, 0]);
    assert_eq!(translator.diagnostics, vec![AnomalousCallTarget { position: 1, target: 0 }]);
    assert!(!translator.create_jump);
}

#[test]
fn refused_jump_leaves_the_skip_waiting() {
    let mut translator = armed();
    assert!(translator.jmp(0x3, 0x0, 0x0).is_err());
    assert!(translator.create_jump);
    assert_eq!(translator.contents.len(), 5);
    assert_eq!(translator.instruction_list, vec![5]);
}

#[test]
fn branch_is_emitted_once() {
    let mut translator = armed();
    translator.add(0x0, 0x0, 0x1);
    translator.add(0x0, 0x0, 0x1);
    assert_eq!(translator.contents.len(), 5 + 2 + 8 + 8);
    assert_eq!(translator.debug_symbols.len(), 4);
    assert_eq!(translator.instruction_list, vec![7, 8, 8]);
}

#[test]
fn jump_after_skip_counts_the_branch_in_its_offset() {
    let mut translator = armed();
    assert_eq!(translator.jmp(0x2, 0x0, 0x2), Ok(()));
    assert_eq!(&translator.contents[5..7], &[0x74, 0x10]);
    assert_eq!(&translator.contents[11..18], &[0x49, 0x81, 0xC4, 0x07, 0x00, 0x00, 0x00]);
    assert_eq!(translator.debug_symbols[3].text, "add r12, 0x0007");
    assert_eq!(translator.instruction_list, vec![7, 14]);
    assert_eq!(translator.get_x64_address(0x202), Ok(7));
    // The jump's own code starts where its offset points.
    assert_eq!(translator.debug_symbols[2].start, 7);
}

#[test]
fn call_after_skip_counts_the_branch_in_its_offset() {
    let mut translator = armed();
    assert_eq!(translator.call(0x2, 0x0, 0x2), Ok(()));
    assert_eq!(&translator.contents[5..7], &[0x74, 0x15]);
    assert_eq!(&translator.contents[16..23], &[0x49, 0x81, 0xC4, 0x07, 0x00, 0x00, 0x00]);
    assert_eq!(translator.debug_symbols[4].text, "add r12, 0x0007");
    assert_eq!(translator.instruction_list, vec![7, 19]);
    assert_eq!(translator.get_x64_address(0x202), Ok(7));
}

#[test]
fn jump_after_skip_to_an_earlier_instruction_is_not_moved() {
    let mut translator = Translator::new();
    translator.mov_v_addr(0x0, 0x0, 0x1);
    translator.je(0x0, 0x0, 0x5);
    assert_eq!(translator.jmp(0x2, 0x0, 0x2), Ok(()));
    assert_eq!(translator.debug_symbols[4].text, "add r12, 0x0008");
    assert_eq!(translator.instruction_list, vec![8, 7, 14]);
}
