use hack_assembler::base::CommandType;
use hack_assembler::error::ErrorKind;
use hack_assembler::hpu::HPU;
use hack_assembler::lexer::Lexer;
use hack_assembler::parser::{Parser, ParserArg};
use hack_assembler::strutil::Strutil;

#[test]
fn test_comand_detection() {
    assert_eq!(Strutil::empty_line("\n"), true);
    assert_eq!(Strutil::empty_line(""), true);
    assert_eq!(HPU::is_comment(""), false);
    assert_eq!(HPU::is_comment("/"), false);
    assert_eq!(HPU::is_comment("//"), true);
    let a = String::from("@INFINITE_LOOP");
    let c = String::from("M=-1");
    let l = String::from("(INFINITE_LOOP)");
    assert_eq!(HPU::command_type(&a), CommandType::ACommand);
    assert_eq!(HPU::command_type(&c), CommandType::CCommand);
    assert_eq!(HPU::command_type(&l), CommandType::LCommand);
}

#[test]
fn test_parse_command() {
    let mut lexer = Lexer::new();
    let mut input = "@R15";
    lexer.set(input).unwrap();
    println!("{:?}", lexer.tokens);
    let mut parser = Parser::new();
    let mut parg = ParserArg::new(lexer.tokens.clone(), input, 0);
    match parser.parse_command(&mut parg) {
        Ok(()) => {
            assert_eq!(parg.index, 2);
        }
        Err(e) => panic!("{:?}", e),
    }

    input = "(    LABEL       )";
    lexer.set(input).unwrap();
    println!("{:?}", lexer.tokens);
    let mut parg = ParserArg::new(lexer.tokens.clone(), input, 0);
    match parser.parse_command(&mut parg) {
        Ok(()) => {
            assert_eq!(parg.index, 3);
        }
        Err(e) => panic!("{:?}", e),
    }

    input = "MD=M-1;JMP";
    lexer.set(input).unwrap();
    println!("{:?}", lexer.tokens);
    let mut parg = ParserArg::new(lexer.tokens.clone(), input, 0);
    match parser.parse_command(&mut parg) {
        Ok(()) => {
            assert_eq!(parg.index, 5);
        }
        Err(e) => panic!("{:?}", e),
    }
}

fn parse_error(line: &str) -> ErrorKind {
    let mut lexer = Lexer::new();
    lexer.set(line).unwrap();
    let mut parser = Parser::new();
    let mut parg = ParserArg::new(lexer.tokens.clone(), line, 7);
    let e = parser.parse_command(&mut parg).unwrap_err();
    assert_eq!(parg.index, 0);
    assert!(parser.result.t.is_none() && parser.result.lr.is_none());
    assert!(parser.result.cr.is_none() && parser.result.ar.is_none());
    assert_eq!(e.source_line_num, Some(7));
    assert_eq!(e.source_line.as_deref(), Some(line));
    e.kind
}

#[test]
fn unlisted_computation_fails_at_parse_time() {
    assert_eq!(parse_error("X"), ErrorKind::UndefinedMnemonic);
    assert_eq!(parse_error("D=X"), ErrorKind::UndefinedMnemonic);
    assert_eq!(parse_error("Q=D"), ErrorKind::UndefinedMnemonic);
    assert_eq!(parse_error("D;JXX"), ErrorKind::UndefinedMnemonic);
}

#[test]
fn predefined_name_as_label_fails_at_parse_time() {
    assert_eq!(parse_error("(SP)"), ErrorKind::ReservedLabel);
    assert_eq!(parse_error("(R3)"), ErrorKind::ReservedLabel);
}

#[test]
fn malformed_commands_are_rejected() {
    assert_eq!(parse_error("@"), ErrorKind::IllegalAddress);
    assert_eq!(parse_error("@D+1"), ErrorKind::IllegalAddress);
    assert_eq!(parse_error("()"), ErrorKind::UnexpectedToken);
    assert_eq!(parse_error("(A B)"), ErrorKind::UnexpectedToken);
    assert_eq!(parse_error("M= ;JMP"), ErrorKind::MissingComputation);
}

#[test]
fn second_pass_encodes_lines() {
    let mut hpu = HPU::new();
    assert_eq!(hpu.second_pass(0, "@17").unwrap(), "0000000000010001");
    assert_eq!(hpu.second_pass(1, "M=1").unwrap(), "1110111111001000");
    assert_eq!(hpu.second_pass(2, "D;JGT").unwrap(), "1110001100000001");
    assert_eq!(hpu.second_pass(3, "// note").unwrap(), "");
    assert_eq!(hpu.second_pass(4, "").unwrap(), "");
    assert_eq!(hpu.second_pass(5, "(END)").unwrap(), "");
    assert_eq!(hpu.second_pass(6, "@counter").unwrap(), "0000000000010000");
    assert_eq!(hpu.parser.varmem, 17);
}

#[test]
fn first_pass_binds_labels_and_counts_instructions() {
    let mut hpu = HPU::new();
    hpu.first_pass(&(0, "@2".to_string())).unwrap();
    hpu.first_pass(&(1, "// comment".to_string())).unwrap();
    hpu.first_pass(&(2, "(LOOP)".to_string())).unwrap();
    hpu.first_pass(&(3, "D=A".to_string())).unwrap();
    assert_eq!(hpu.valid_line, 2);
    assert_eq!(hpu.parser.map.get("LOOP"), Some(1));
    let e = hpu.first_pass(&(4, "(LOOP)".to_string())).unwrap_err();
    assert_eq!(e.kind, ErrorKind::DuplicateLabel);
    assert_eq!(e.source_line_num, Some(4));
}

#[test]
fn tokens_after_the_jump_are_still_read() {
    assert_eq!(parse_error("D;JGT X"), ErrorKind::UndefinedMnemonic);
    let mut hpu = HPU::new();
    let e = hpu.second_pass(0, "D;JGT X").unwrap_err();
    assert_eq!(e.kind, ErrorKind::UndefinedMnemonic);
}

#[test]
fn errors_carry_their_line_and_change_nothing() {
    let mut hpu = HPU::new();
    assert_eq!(hpu.second_pass(0, "@a").unwrap(), "0000000000010000");
    let e = hpu.second_pass(3, "@40000").unwrap_err();
    assert_eq!(e.kind, ErrorKind::AddressOutOfRange);
    assert_eq!(e.source_line_num, Some(3));
    assert_eq!(e.source_line.as_deref(), Some("@40000"));
    let e = hpu.second_pass(4, "X").unwrap_err();
    assert_eq!(e.source_line_num, Some(4));
    assert_eq!(e.source_line.as_deref(), Some("X"));
    assert_eq!(hpu.parser.varmem, 17);

    let mut hpu = HPU::new();
    assert!(hpu.lexer.tokens.is_empty());
    let e = hpu.first_pass(&(0, "(SP)".to_string())).unwrap_err();
    assert_eq!(e.kind, ErrorKind::ReservedLabel);
    assert_eq!(e.source_line.as_deref(), Some("(SP)"));
    assert_eq!(hpu.valid_line, 0);
    assert_eq!(hpu.parser.map.get("SP"), None);
}
