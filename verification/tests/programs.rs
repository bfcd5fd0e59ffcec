use chip8_translator::error::{AnomalousCallTarget, TranslateError};
use chip8_translator::program::{translate, Opcode};
use chip8_translator::translator::Translator;

#[test]
fn empty_input_translates_to_nothing() {
    let translator = translate(Vec::new()).unwrap();
    assert!(translator.contents.is_empty());
    assert!(translator.debug_symbols.is_empty());
    assert!(translator.instruction_list.is_empty());
    assert!(translator.diagnostics.is_empty());
    assert!(!translator.create_jump);
    assert_eq!(translator.render(), "");
}

#[test]
fn set_skip_add_gives_four_chunks_and_three_entries() {
    let translator = translate(vec![0x60, 0x05, 0x30, 0x05, 0x70, 0x01]).unwrap();
    assert_eq!(
        translator.contents,
        vec![
            0x48, 0xC7, 0x40, 0x18, 0x05, 0x00, 0x00, 0x00, // mov
            0x48, 0x83, 0x78, 0x18, 0x05, // cmp
            0x74, 0x0A, // je
            0x48, 0x81, 0x40, 0x18, 0x01, 0x00, 0x00, 0x00, // add
        ]
    );
    let spans: Vec<(usize, usize)> =
        translator.debug_symbols.iter().map(|s| (s.start, s.length)).collect();
    assert_eq!(spans, vec![(0, 8), (8, 5), (13, 2), (15, 8)]);
    let texts: Vec<&str> = translator.debug_symbols.iter().map(|s| s.text.as_str()).collect();
    assert_eq!(
        texts,
        vec![
            "mov qword ptr [rax+(24+(0x00*8))], 0x05",
            "cmp qword ptr [rax+(24+(0x00*8))], 0x05",
            "je 0x02+0x08",
            "add qword ptr [rax+(24+(0x00*8))], 0x01",
        ]
    );
    assert_eq!(translator.instruction_list, vec![8, 7, 8]);
    assert!(!translator.create_jump);
}

#[test]
fn call_below_base_is_dropped_and_the_run_goes_on() {
    let translator = translate(vec![0x20, 0x00, 0x61, 0x02]).unwrap();
    assert_eq!(translator.contents, vec![0x48, 0xC7, 0x40, 0x20, 0x02, 0x00, 0x00, 0x00]);
    assert_eq!(translator.debug_symbols.len(), 1);
    assert_eq!(translator.instruction_list, vec![0, 8]);
    assert_eq!(translator.diagnostics, vec![AnomalousCallTarget { position: 0, target: 0x000 }]);
    assert_eq!(
        translator.diagnostics[0].message(),
        "Call to weird location found: 0x0000. Ignoring..."
    );
}

#[test]
fn odd_length_is_malformed() {
    assert_eq!(
        translate(vec![0x60, 0x05, 0x30]).err(),
        Some(TranslateError::MalformedInput { length: 3 })
    );
    assert_eq!(translate(vec![0x60]).err(), Some(TranslateError::MalformedInput { length: 1 }));
}

#[test]
fn odd_length_is_reported_before_anything_else() {
    assert_eq!(
        translate(vec![0x00, 0xE0, 0x60]).err(),
        Some(TranslateError::MalformedInput { length: 3 })
    );
}

#[test]
fn unknown_opcode_stops_the_run() {
    assert_eq!(
        translate(vec![0x60, 0x05, 0x00, 0xE0, 0x70, 0x01]).err(),
        Some(TranslateError::UnknownOpcode { position: 1, op: 0x0, a: 0x0, b: 0xE, c: 0x0 })
    );
}

#[test]
fn register_operation_other_than_copy_is_unknown() {
    assert_eq!(
        translate(vec![0x81, 0x24]).err(),
        Some(TranslateError::UnknownOpcode { position: 0, op: 0x8, a: 0x1, b: 0x2, c: 0x4 })
    );
    assert!(translate(vec![0x81, 0x20]).is_ok());
}

#[test]
fn program_ending_on_a_skip_is_refused() {
    assert_eq!(
        translate(vec![0x60, 0x05, 0x30, 0x05]).err(),
        Some(TranslateError::UnterminatedPendingBranch { position: 1 })
    );
    assert_eq!(
        translate(vec![0x30, 0x05]).err(),
        Some(TranslateError::UnterminatedPendingBranch { position: 0 })
    );
}

#[test]
fn forward_jump_is_refused() {
    assert_eq!(
        translate(vec![0x60, 0x05, 0x12, 0x06, 0x70, 0x01]).err(),
        Some(TranslateError::UnresolvedForwardReference { position: 1, target: 0x206 })
    );
}

#[test]
fn forward_call_is_refused() {
    assert_eq!(
        translate(vec![0x22, 0x02]).err(),
        Some(TranslateError::UnresolvedForwardReference { position: 0, target: 0x202 })
    );
}

#[test]
fn every_opcode_is_dispatched_to_its_rule() {
    let rom = vec![
        0xA1, 0x23, // set index
        0xC1, 0x0F, // random
        0x61, 0x02, // set register
        0x71, 0x01, // add
        0x82, 0x10, // copy
        0xD1, 0x25, // draw
        0x22, 0x00, // call
        0x31, 0x03, // skip
        0x12, 0x00, // jump
    ];
    let translator = translate(rom).unwrap();
    assert_eq!(translator.instruction_list, vec![7, 16, 8, 8, 8, 16, 19, 7, 14]);
    assert_eq!(translator.contents.len(), 7 + 16 + 8 + 8 + 8 + 16 + 19 + 7 + 14);
    let texts: Vec<&str> = translator.debug_symbols.iter().map(|s| s.text.as_str()).collect();
    assert_eq!(
        texts,
        vec![
            "mov qword ptr [rax+0], 0x123",
            "RND",
            "mov qword ptr [rax+(24+(0x01*8))], 0x02",
            "add qword ptr [rax+(24+(0x01*8))], 0x01",
            "mov r12, qword ptr [rax+(24+(0x01*8))]",
            "mov qword ptr [rax+(24+(0x02*8))], r12",
            "DRW",
            "push .",
            "mov r12, qword ptr [ebx]",
            "add r12, 0x0000",
            "jmp r12",
            "cmp qword ptr [rax+(24+(0x01*8))], 0x03",
            "je 0x02+0x0e",
            "mov r12, qword ptr [ebx]",
            "add r12, 0x0000",
            "jmp r12",
        ]
    );
}

#[test]
fn length_table_has_one_entry_per_instruction() {
    let roms: Vec<Vec<u8>> = vec![
        vec![],
        vec![0x60, 0x05],
        vec![0x20, 0x00, 0x20, 0x02, 0x30, 0x01, 0x21, 0xFE],
        vec![0x30, 0x05, 0x30, 0x06, 0x30, 0x07, 0xD0, 0x00],
        vec![0xA2, 0x00, 0x12, 0x00, 0x12, 0x02, 0x12, 0x04, 0x12, 0x06],
    ];
    for rom in roms {
        let count = rom.len() / 2;
        let translator = translate(rom).unwrap();
        assert_eq!(translator.instruction_list.len(), count);
    }
}

#[test]
fn symbols_cover_the_buffer_without_gaps() {
    let rom = vec![
        0x60, 0x05, 0x30, 0x05, 0x82, 0x10, 0x30, 0x01, 0x20, 0x00, 0x22, 0x04, 0xD1, 0x23, 0x12,
        0x02,
    ];
    let translator = translate(rom).unwrap();
    let mut cursor = 0;
    for symbol in &translator.debug_symbols {
        assert_eq!(symbol.start, cursor);
        cursor += symbol.length;
    }
    assert_eq!(cursor, translator.contents.len());
    let total: usize = translator.instruction_list.iter().sum();
    assert_eq!(total, translator.contents.len());
}

#[test]
fn offsets_without_skips_are_sums_of_host_lengths() {
    let rom = vec![0xA1, 0x23, 0x61, 0x02, 0xD0, 0x00, 0x82, 0x10, 0x12, 0x00];
    let translator = translate(rom).unwrap();
    let lengths = [7usize, 8, 16, 8, 14];
    let mut sum = 0;
    for (index, length) in lengths.iter().enumerate() {
        let address = 0x200 + 2 * index as u16;
        assert_eq!(translator.get_x64_address(address), Ok(sum));
        sum += length;
    }
    assert_eq!(translator.get_x64_address(0x20A), Ok(sum));
    assert_eq!(translator.get_x64_address(0x200), Ok(0));
}

#[test]
fn backward_jump_over_a_skip_lands_behind_its_branch() {
    // set, skip, add, jump to the add
    let translator = translate(vec![0x60, 0x05, 0x30, 0x05, 0x70, 0x01, 0x12, 0x04]).unwrap();
    assert_eq!(translator.instruction_list, vec![8, 7, 8, 14]);
    assert_eq!(translator.debug_symbols[5].text, "add r12, 0x000f");
    assert_eq!(translator.debug_symbols[3].start, 0x0f);
}

#[test]
fn dispatch_leaves_the_translator_alone_on_an_unknown_opcode() {
    let mut translator = Translator::new();
    translator.mov_v_addr(0x0, 0x0, 0x1);
    assert_eq!(
        translator.dispatch(0xF, 0x1, 0x2, 0x3),
        Err(TranslateError::UnknownOpcode { position: 1, op: 0xF, a: 0x1, b: 0x2, c: 0x3 })
    );
    assert_eq!(translator.contents.len(), 8);
    assert_eq!(translator.instruction_list, vec![8]);
}

#[test]
fn dispatch_does_what_the_rule_does() {
    let mut by_dispatch = Translator::new();
    let mut by_rule = Translator::new();
    assert_eq!(by_dispatch.dispatch(0x8, 0x1, 0x2, 0x0), Ok(()));
    by_rule.mov_v_v(0x1, 0x2);
    assert_eq!(by_dispatch.contents, by_rule.contents);
    assert_eq!(by_dispatch.instruction_list, by_rule.instruction_list);
    assert_eq!(by_dispatch.debug_symbols[1].text, by_rule.debug_symbols[1].text);
}

#[test]
fn opcode_is_selected_by_the_first_and_last_nibble() {
    assert_eq!(Opcode::decode(0xA, 0x7), Some(Opcode::SetIndex));
    assert_eq!(Opcode::decode(0xC, 0x0), Some(Opcode::RandomAnd));
    assert_eq!(Opcode::decode(0x3, 0xF), Some(Opcode::SkipIfEqual));
    assert_eq!(Opcode::decode(0x7, 0x1), Some(Opcode::AddImmediate));
    assert_eq!(Opcode::decode(0x1, 0x2), Some(Opcode::Jump));
    assert_eq!(Opcode::decode(0x6, 0x3), Some(Opcode::SetRegister));
    assert_eq!(Opcode::decode(0xD, 0x4), Some(Opcode::Draw));
    assert_eq!(Opcode::decode(0x8, 0x0), Some(Opcode::CopyRegister));
    assert_eq!(Opcode::decode(0x8, 0x1), None);
    assert_eq!(Opcode::decode(0x2, 0x5), Some(Opcode::Call));
    for op in [0x0, 0x4, 0x5, 0x9, 0xB, 0xE, 0xF] {
        assert_eq!(Opcode::decode(op, 0x0), None);
    }
}

#[test]
fn translate_rom_keeps_what_was_translated_before_an_error() {
    let mut translator = Translator::new();
    let rom = vec![0x20, 0x00, 0x61, 0x02, 0x00, 0xE0, 0x71, 0x01];
    assert_eq!(
        translator.translate_rom(rom),
        Err(TranslateError::UnknownOpcode { position: 2, op: 0x0, a: 0x0, b: 0xE, c: 0x0 })
    );
    assert_eq!(translator.diagnostics, vec![AnomalousCallTarget { position: 0, target: 0x000 }]);
    assert_eq!(translator.contents, vec![0x48, 0xC7, 0x40, 0x20, 0x02, 0x00, 0x00, 0x00]);
    assert_eq!(translator.instruction_list, vec![0, 8]);
    assert_eq!(
        translator.render(),
        "0x0000: 48C7402002000000         => mov qword ptr [rax+(24+(0x01*8))], 0x02\n"
    );
}

#[test]
fn translate_rom_leaves_no_branch_behind_a_trailing_skip() {
    let mut translator = Translator::new();
    assert_eq!(
        translator.translate_rom(vec![0x60, 0x05, 0x30, 0x05]),
        Err(TranslateError::UnterminatedPendingBranch { position: 1 })
    );
    assert_eq!(translator.contents.len(), 8 + 5);
    assert_eq!(translator.debug_symbols.len(), 2);
    assert_eq!(translator.instruction_list, vec![8, 5]);
    assert!(translator.create_jump);
}

#[test]
fn translate_rom_does_not_touch_the_translator_on_an_odd_length() {
    let mut translator = Translator::new();
    translator.draw();
    assert_eq!(
        translator.translate_rom(vec![0x60, 0x05, 0x30]),
        Err(TranslateError::MalformedInput { length: 3 })
    );
    assert_eq!(translator.contents.len(), 16);
    assert_eq!(translator.instruction_list, vec![16]);
}

#[test]
fn translate_rom_agrees_with_translate() {
    let rom = vec![0x60, 0x05, 0x30, 0x05, 0x70, 0x01, 0x12, 0x04];
    let mut translator = Translator::new();
    assert_eq!(translator.translate_rom(rom.clone()), Ok(()));
    let whole = translate(rom).unwrap();
    assert_eq!(translator.contents, whole.contents);
    assert_eq!(translator.instruction_list, whole.instruction_list);
    assert_eq!(translator.render(), whole.render());
}

#[test]
fn translate_rom_goes_on_from_what_the_translator_holds() {
    let mut translator = Translator::new();
    assert_eq!(translator.translate_rom(vec![0x60, 0x05]), Ok(()));
    assert_eq!(translator.translate_rom(vec![0x12, 0x02]), Ok(()));
    assert_eq!(translator.instruction_list, vec![8, 14]);
    assert_eq!(translator.debug_symbols[2].text, "add r12, 0x0008");
    assert_eq!(
        translator.translate_rom(vec![0xFF, 0xFF]),
        Err(TranslateError::UnknownOpcode { position: 2, op: 0xF, a: 0xF, b: 0xF, c: 0xF })
    );
}

#[test]
fn jump_behind_a_skip_in_a_program_starts_at_its_own_code() {
    // skip at 0x200, jump to 0x202 (itself)
    let translator = translate(vec![0x30, 0x05, 0x12, 0x02]).unwrap();
    assert_eq!(translator.instruction_list, vec![7, 14]);
    assert_eq!(translator.debug_symbols[3].text, "add r12, 0x0007");
}
