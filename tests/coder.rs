use hack_assembler::coder::{capped_decimal, Coder};
use hack_assembler::error::ErrorKind;
use hack_assembler::parser::{ACmdResult, CCmdResult};
use hack_assembler::symbols::SymbolTable;

#[test]
fn test_a_translate() {
    let mut map = SymbolTable::new();
    map.bind("FOO", 20);
    let mut varmem: usize = 16;
    let result = ACmdResult { value: "R0".into() };
    assert_eq!(
        Coder::translate_a(&mut map, &mut varmem, &result).unwrap(),
        "0000000000000000"
    );
    let result = ACmdResult {
        value: "R15".into(),
    };
    assert_eq!(
        Coder::translate_a(&mut map, &mut varmem, &result).unwrap(),
        "0000000000001111"
    );
    let result = ACmdResult {
        value: "FOO".into(),
    };
    assert_eq!(
        Coder::translate_a(&mut map, &mut varmem, &result).unwrap(),
        "0000000000010100"
    );
}

#[test]
fn test_c_translate() {
    let result = CCmdResult {
        dest: Some("MD".into()),
        comp: Some("M-1".into()),
        jump: Some("JMP".into()),
    };
    // 111, then M-1 = 1110010, MD = 011, JMP = 111
    assert_eq!(Coder::translate_c(&result).unwrap(), "1111110010011111");
}

fn encode_a(map: &mut SymbolTable, varmem: &mut usize, value: &str) -> String {
    Coder::translate_a(map, varmem, &ACmdResult { value: value.into() }).unwrap()
}

#[test]
fn decimal_literals_encode_as_fifteen_bits() {
    let mut map = SymbolTable::new();
    let mut varmem: usize = 16;
    for n in [0usize, 1, 17, 255, 16384, 32767] {
        let w = encode_a(&mut map, &mut varmem, &n.to_string());
        assert_eq!(w, format!("0{:015b}", n));
    }
    assert_eq!(encode_a(&mut map, &mut varmem, "17"), "0000000000010001");
    assert_eq!(varmem, 16);
}

#[test]
fn predefined_names_encode_as_their_values() {
    let names = [
        ("SP", 0), ("LCL", 1), ("ARG", 2), ("THIS", 3), ("THAT", 4), ("SCREEN", 16384),
        ("KBD", 24576), ("R7", 7), ("R13", 13),
    ];
    let mut map = SymbolTable::new();
    let mut varmem: usize = 16;
    for (name, value) in names {
        let by_name = encode_a(&mut map, &mut varmem, name);
        let by_number = encode_a(&mut map, &mut varmem, &value.to_string());
        assert_eq!(by_name, by_number);
    }
    assert_eq!(varmem, 16);
}

#[test]
fn variables_are_allocated_from_sixteen() {
    let mut map = SymbolTable::new();
    let mut varmem: usize = 16;
    assert_eq!(encode_a(&mut map, &mut varmem, "i"), "0000000000010000");
    assert_eq!(encode_a(&mut map, &mut varmem, "sum"), "0000000000010001");
    assert_eq!(encode_a(&mut map, &mut varmem, "i"), "0000000000010000");
    assert_eq!(encode_a(&mut map, &mut varmem, "R1"), "0000000000000001");
    assert_eq!(encode_a(&mut map, &mut varmem, "k"), "0000000000010010");
    assert_eq!(varmem, 19);
    assert_eq!(map.get("sum"), Some(17));
}

#[test]
fn address_out_of_range_is_refused() {
    let mut map = SymbolTable::new();
    let mut varmem: usize = 16;
    let e = Coder::translate_a(&mut map, &mut varmem, &ACmdResult { value: "32768".into() })
        .unwrap_err();
    assert_eq!(e.kind, ErrorKind::AddressOutOfRange);
    let mut full: usize = 32768;
    let e = Coder::translate_a(&mut map, &mut full, &ACmdResult { value: "x".into() }).unwrap_err();
    assert_eq!(e.kind, ErrorKind::AddressOutOfRange);
    assert_eq!(map.get("x"), None);
}

#[test]
fn compute_words_fill_absent_parts_with_zeros() {
    let c = |dest: Option<&str>, comp: Option<&str>, jump: Option<&str>| CCmdResult {
        dest: dest.map(String::from),
        comp: comp.map(String::from),
        jump: jump.map(String::from),
    };
    assert_eq!(Coder::translate_c(&c(Some("M"), Some("1"), None)).unwrap(), "1110111111001000");
    assert_eq!(Coder::translate_c(&c(None, Some("D"), Some("JGT"))).unwrap(), "1110001100000001");
    assert_eq!(Coder::translate_c(&c(None, Some("0"), None)).unwrap(), "1110101010000000");
    let w = Coder::translate_c(&c(Some("AMD"), Some("D|M"), Some("JLE"))).unwrap();
    assert_eq!(w.len(), 16);
    assert_eq!(w, "1111010101111110");
    assert_eq!(
        Coder::translate_c(&c(Some("M"), None, None)).unwrap_err().kind,
        ErrorKind::MissingComputation
    );
    assert_eq!(
        Coder::translate_c(&c(None, Some("X"), None)).unwrap_err().kind,
        ErrorKind::UndefinedMnemonic
    );
}

#[test]
fn reads_capped_decimals() {
    assert_eq!(capped_decimal("0042"), Some(42));
    assert_eq!(capped_decimal("99999999999999999999"), Some(32768));
    assert_eq!(capped_decimal(""), None);
    assert_eq!(capped_decimal("4a"), None);
}

#[test]
fn symbol_table_keeps_first_binding() {
    let mut map = SymbolTable::new();
    assert!(map.bind("LOOP", 4));
    assert!(!map.bind("LOOP", 9));
    assert_eq!(map.get("LOOP"), Some(4));
    assert_eq!(map.get("END"), None);
}
