use hack_assembler::assembler::create_assembler;
use hack_assembler::error::ErrorKind;

fn assemble(src: &[&str]) -> Result<Vec<String>, ErrorKind> {
    let lines: Vec<String> = src.iter().map(|s| s.to_string()).collect();
    let mut assembler = create_assembler(lines);
    assembler.run().map_err(|e| e.kind)
}

#[test]
fn address_and_compute_round_trip() {
    assert_eq!(assemble(&["@17"]).unwrap(), vec!["0000000000010001"]);
    assert_eq!(assemble(&["M=1"]).unwrap(), vec!["1110111111001000"]);
    assert_eq!(assemble(&["D;JGT"]).unwrap(), vec!["1110001100000001"]);
}

#[test]
fn label_resolves_to_next_instruction() {
    let out = assemble(&[
        "// count down",
        "@3",
        "D=A",
        "",
        "(LOOP)",
        "D=D-1",
        "@LOOP",
        "D;JGT",
        "(END)",
        "@END",
        "0;JMP",
    ])
    .unwrap();
    assert_eq!(out.len(), 7);
    assert_eq!(out[3], "0000000000000010");
    assert_eq!(out[5], "0000000000000101");
}

#[test]
fn label_used_before_definition() {
    let out = assemble(&["@END", "0;JMP", "(END)", "@END"]).unwrap();
    assert_eq!(out, vec!["0000000000000010", "1110101010000111", "0000000000000010"]);
}

#[test]
fn variables_follow_first_use_order() {
    let out = assemble(&["@i", "M=1", "@sum", "M=0", "@i", "@LOOP", "(LOOP)"]).unwrap();
    assert_eq!(out[0], "0000000000010000");
    assert_eq!(out[2], "0000000000010001");
    assert_eq!(out[4], "0000000000010000");
    assert_eq!(out[5], "0000000000000110");
}

#[test]
fn lines_are_trimmed_before_translation() {
    let out = assemble(&["   @R1   ", "\tAM = M+1 ; JNE  "]).unwrap();
    assert_eq!(out, vec!["0000000000000001", "1111110111101101"]);
}

#[test]
fn errors_stop_the_run() {
    assert_eq!(assemble(&["@1", "X"]).unwrap_err(), ErrorKind::UndefinedMnemonic);
    assert_eq!(assemble(&["(SP)", "@1"]).unwrap_err(), ErrorKind::ReservedLabel);
    assert_eq!(assemble(&["(A)", "(A)"]).unwrap_err(), ErrorKind::DuplicateLabel);
    assert_eq!(assemble(&["@40000"]).unwrap_err(), ErrorKind::AddressOutOfRange);
}

#[test]
fn empty_program_has_no_output() {
    assert_eq!(assemble(&[]).unwrap(), Vec::<String>::new());
    assert_eq!(assemble(&["", "// only a comment"]).unwrap(), Vec::<String>::new());
}

#[test]
fn run_reports_the_first_failing_line() {
    let lines: Vec<String> = ["@1", "", "  D=X  ", "Q=D"].iter().map(|s| s.to_string()).collect();
    let mut assembler = create_assembler(lines);
    let e = assembler.run().unwrap_err();
    assert_eq!(e.kind, ErrorKind::UndefinedMnemonic);
    assert_eq!(e.source_line_num, Some(2));
    assert_eq!(e.source_line.as_deref(), Some("D=X"));
    assert!(!e.comment.is_empty());

    let lines: Vec<String> = ["(A)", "@A", "(A)"].iter().map(|s| s.to_string()).collect();
    let mut assembler = create_assembler(lines);
    let e = assembler.run().unwrap_err();
    assert_eq!(e.kind, ErrorKind::DuplicateLabel);
    assert_eq!(e.source_line_num, Some(2));
    assert_eq!(e.source_line.as_deref(), Some("(A)"));
}
