use hack_assembler::strutil::{split_words, trim, Strutil};

#[test]
fn test() {
    let s0 = "MD=A-1;JMP";
    assert!(Strutil::fall_within(s0, "="));
    assert!(Strutil::fall_within(s0, ";"));
    let s1 = "=A-1JMP;";
    assert!(!Strutil::fall_within(s1, "="));
    assert!(!Strutil::fall_within(s1, ";"));
}

#[test]
fn test_rust_string() {
    let s = " Hello\tworld\t";
    assert_eq!("Hello\tworld", s.trim());
    assert_eq!(" Hello\tworld\t", s);

    let s2 = " Hello\tworld\t";
    assert_eq!("Hello\tworld", s2.trim());
    assert_eq!(" Hello\tworld\t", s2);

    let s3 = String::from("(LOOP)");
    let label: String = s3.chars().filter(|&c| c != '(' && c != ')').collect();
    assert_eq!(label, "LOOP");

    let s4 = "@R2@";
    let iter: Vec<&str> = s4.split("@").collect();
    let symbol = iter[1];
    assert_eq!(symbol, "R2");
}

#[test]
fn trim_matches_std() {
    for s in [" Hello\tworld\t", "", "   ", "\u{3000}x\u{a0}", "a b", "\n@R2\r"] {
        assert_eq!(trim(s), s.trim());
    }
}

#[test]
fn split_words_matches_std() {
    for s in ["  MD  M-1 ", "", "\t", "a\u{2003}b  c", "one"] {
        let ours: Vec<&str> = split_words(s);
        let std_words: Vec<&str> = s.split_whitespace().collect();
        assert_eq!(ours, std_words);
    }
}

#[test]
fn fall_within_edges() {
    assert!(!Strutil::fall_within("", "="));
    assert!(!Strutil::fall_within("M=", "="));
    assert!(!Strutil::fall_within("abc", "="));
    assert!(Strutil::fall_within("a=b=", "="));
    assert!(!Strutil::fall_within("abc", ""));
    assert!(Strutil::fall_within("é=x", "="));
}

#[test]
fn empty_line_detection() {
    assert!(Strutil::empty_line(""));
    assert!(Strutil::empty_line(" \t\r\n"));
    assert!(!Strutil::empty_line(" x "));
}
