use chip8_translator::parser::{Parser, TruncatedStream};

#[test]
fn read_splits_two_bytes_into_four_nibbles() {
    let mut parser = Parser::new(vec![0x6A, 0xF5]);
    let mut eof = false;
    assert_eq!(parser.read(&mut eof), Ok((0x6, 0xA, 0xF, 0x5)));
    assert!(eof);
}

#[test]
fn read_reports_end_of_stream_with_the_last_instruction() {
    let mut parser = Parser::new(vec![0x60, 0x05, 0x30, 0x05, 0x70, 0x01]);
    let mut eof = false;
    assert_eq!(parser.read(&mut eof), Ok((0x6, 0x0, 0x0, 0x5)));
    assert!(!eof);
    assert_eq!(parser.read(&mut eof), Ok((0x3, 0x0, 0x0, 0x5)));
    assert!(!eof);
    assert_eq!(parser.read(&mut eof), Ok((0x7, 0x0, 0x0, 0x1)));
    assert!(eof);
}

#[test]
fn read_fails_on_an_empty_stream() {
    let mut parser = Parser::new(Vec::new());
    let mut eof = false;
    assert_eq!(parser.read(&mut eof), Err(TruncatedStream { offset: 0, length: 0 }));
    assert!(!eof);
}

#[test]
fn read_fails_on_a_trailing_byte() {
    let mut parser = Parser::new(vec![0xA1, 0x23, 0x60]);
    let mut eof = false;
    assert_eq!(parser.read(&mut eof), Ok((0xA, 0x1, 0x2, 0x3)));
    assert!(!eof);
    assert_eq!(parser.read(&mut eof), Err(TruncatedStream { offset: 2, length: 3 }));
    assert!(!eof);
}

#[test]
fn read_fails_after_the_last_instruction_and_keeps_the_flag() {
    let mut parser = Parser::new(vec![0x00, 0xE0]);
    let mut eof = false;
    assert_eq!(parser.read(&mut eof), Ok((0x0, 0x0, 0xE, 0x0)));
    assert!(eof);
    assert_eq!(parser.read(&mut eof), Err(TruncatedStream { offset: 2, length: 2 }));
    assert!(eof);
}
