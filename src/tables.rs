use vstd::prelude::*;

verus! {

/// Whether two strings hold the same characters.
pub fn str_eq(a: &str, b: &str) -> (r: bool)
    ensures
        r == (a@ == b@),
{
    let la = a.unicode_len();
    let lb = b.unicode_len();
    if la != lb {
        return false;
    }
    let mut i: usize = 0;
    while i < la
        invariant
            la == a@.len(),
            lb == b@.len(),
            la == lb,
            i <= la,
            forall|j: int| 0 <= j < i ==> a@[j] == b@[j],
        decreases la - i,
    {
        if a.get_char(i) != b.get_char(i) {
            return false;
        }
        i = i + 1;
    }
    assert(a@ =~= b@);
    true
}

/// The three destination bits of a destination mnemonic.
pub open spec fn dest_code(s: Seq<char>) -> Option<u16> {
    if s == "M"@ {
        Some(1)
    }     else if s == "D"@ {
        Some(2)
    }     else if s == "MD"@ {
        Some(3)
    }     else if s == "A"@ {
        Some(4)
    }     else if s == "AM"@ {
        Some(5)
    }     else if s == "AD"@ {
        Some(6)
    }     else if s == "AMD"@ {
        Some(7)
    } else {
        None
    }
}

/// The three jump bits of a jump mnemonic.
pub open spec fn jump_code(s: Seq<char>) -> Option<u16> {
    if s == "JGT"@ {
        Some(1)
    }     else if s == "JEQ"@ {
        Some(2)
    }     else if s == "JGE"@ {
        Some(3)
    }     else if s == "JLT"@ {
        Some(4)
    }     else if s == "JNE"@ {
        Some(5)
    }     else if s == "JLE"@ {
        Some(6)
    }     else if s == "JMP"@ {
        Some(7)
    } else {
        None
    }
}

/// The seven computation bits (the `a` bit and six ALU bits) of a computation mnemonic.
pub open spec fn comp_code(s: Seq<char>) -> Option<u16> {
    if s == "0"@ {
        Some(42)
    }     else if s == "1"@ {
        Some(63)
    }     else if s == "-1"@ {
        Some(58)
    }     else if s == "D"@ {
        Some(12)
    }     else if s == "A"@ {
        Some(48)
    }     else if s == "M"@ {
        Some(112)
    }     else if s == "!D"@ {
        Some(13)
    }     else if s == "!A"@ {
        Some(49)
    }     else if s == "!M"@ {
        Some(113)
    }     else if s == "-D"@ {
        Some(15)
    }     else if s == "-A"@ {
        Some(51)
    }     else if s == "-M"@ {
        Some(115)
    }     else if s == "D+1"@ {
        Some(31)
    }     else if s == "A+1"@ {
        Some(55)
    }     else if s == "M+1"@ {
        Some(119)
    }     else if s == "D-1"@ {
        Some(14)
    }     else if s == "A-1"@ {
        Some(50)
    }     else if s == "M-1"@ {
        Some(114)
    }     else if s == "D+A"@ {
        Some(2)
    }     else if s == "D+M"@ {
        Some(66)
    }     else if s == "D-A"@ {
        Some(19)
    }     else if s == "D-M"@ {
        Some(83)
    }     else if s == "A-D"@ {
        Some(7)
    }     else if s == "M-D"@ {
        Some(71)
    }     else if s == "D&A"@ {
        Some(0)
    }     else if s == "D&M"@ {
        Some(64)
    }     else if s == "D|A"@ {
        Some(21)
    }     else if s == "D|M"@ {
        Some(85)
    } else {
        None
    }
}

/// The fixed address of a predefined symbol.
pub open spec fn predefined_value(s: Seq<char>) -> Option<usize> {
    if s == "SP"@ {
        Some(0)
    }     else if s == "LCL"@ {
        Some(1)
    }     else if s == "ARG"@ {
        Some(2)
    }     else if s == "THIS"@ {
        Some(3)
    }     else if s == "THAT"@ {
        Some(4)
    }     else if s == "SCREEN"@ {
        Some(16384)
    }     else if s == "KBD"@ {
        Some(24576)
    }     else if s == "R0"@ {
        Some(0)
    }     else if s == "R1"@ {
        Some(1)
    }     else if s == "R2"@ {
        Some(2)
    }     else if s == "R3"@ {
        Some(3)
    }     else if s == "R4"@ {
        Some(4)
    }     else if s == "R5"@ {
        Some(5)
    }     else if s == "R6"@ {
        Some(6)
    }     else if s == "R7"@ {
        Some(7)
    }     else if s == "R8"@ {
        Some(8)
    }     else if s == "R9"@ {
        Some(9)
    }     else if s == "R10"@ {
        Some(10)
    }     else if s == "R11"@ {
        Some(11)
    }     else if s == "R12"@ {
        Some(12)
    }     else if s == "R13"@ {
        Some(13)
    }     else if s == "R14"@ {
        Some(14)
    }     else if s == "R15"@ {
        Some(15)
    } else {
        None
    }
}

/// Looks a destination mnemonic up in the destination table.
pub fn lookup_dest(s: &str) -> (r: Option<u16>)
    ensures
        r == dest_code(s@),
{
    if str_eq(s, "M") {
        Some(1)
    }     else if str_eq(s, "D") {
        Some(2)
    }     else if str_eq(s, "MD") {
        Some(3)
    }     else if str_eq(s, "A") {
        Some(4)
    }     else if str_eq(s, "AM") {
        Some(5)
    }     else if str_eq(s, "AD") {
        Some(6)
    }     else if str_eq(s, "AMD") {
        Some(7)
    } else {
        None
    }
}

/// Looks a jump mnemonic up in the jump table.
pub fn lookup_jump(s: &str) -> (r: Option<u16>)
    ensures
        r == jump_code(s@),
{
    if str_eq(s, "JGT") {
        Some(1)
    }     else if str_eq(s, "JEQ") {
        Some(2)
    }     else if str_eq(s, "JGE") {
        Some(3)
    }     else if str_eq(s, "JLT") {
        Some(4)
    }     else if str_eq(s, "JNE") {
        Some(5)
    }     else if str_eq(s, "JLE") {
        Some(6)
    }     else if str_eq(s, "JMP") {
        Some(7)
    } else {
        None
    }
}

/// Looks a computation mnemonic up in the computation table.
pub fn lookup_comp(s: &str) -> (r: Option<u16>)
    ensures
        r == comp_code(s@),
{
    if str_eq(s, "0") {
        Some(42)
    }     else if str_eq(s, "1") {
        Some(63)
    }     else if str_eq(s, "-1") {
        Some(58)
    }     else if str_eq(s, "D") {
        Some(12)
    }     else if str_eq(s, "A") {
        Some(48)
    }     else if str_eq(s, "M") {
        Some(112)
    }     else if str_eq(s, "!D") {
        Some(13)
    }     else if str_eq(s, "!A") {
        Some(49)
    }     else if str_eq(s, "!M") {
        Some(113)
    }     else if str_eq(s, "-D") {
        Some(15)
    }     else if str_eq(s, "-A") {
        Some(51)
    }     else if str_eq(s, "-M") {
        Some(115)
    }     else if str_eq(s, "D+1") {
        Some(31)
    }     else if str_eq(s, "A+1") {
        Some(55)
    }     else if str_eq(s, "M+1") {
        Some(119)
    }     else if str_eq(s, "D-1") {
        Some(14)
    }     else if str_eq(s, "A-1") {
        Some(50)
    }     else if str_eq(s, "M-1") {
        Some(114)
    }     else if str_eq(s, "D+A") {
        Some(2)
    }     else if str_eq(s, "D+M") {
        Some(66)
    }     else if str_eq(s, "D-A") {
        Some(19)
    }     else if str_eq(s, "D-M") {
        Some(83)
    }     else if str_eq(s, "A-D") {
        Some(7)
    }     else if str_eq(s, "M-D") {
        Some(71)
    }     else if str_eq(s, "D&A") {
        Some(0)
    }     else if str_eq(s, "D&M") {
        Some(64)
    }     else if str_eq(s, "D|A") {
        Some(21)
    }     else if str_eq(s, "D|M") {
        Some(85)
    } else {
        None
    }
}

/// Looks a symbol up among the predefined symbols.
pub fn lookup_predefined(s: &str) -> (r: Option<usize>)
    ensures
        r == predefined_value(s@),
{
    if str_eq(s, "SP") {
        Some(0)
    }     else if str_eq(s, "LCL") {
        Some(1)
    }     else if str_eq(s, "ARG") {
        Some(2)
    }     else if str_eq(s, "THIS") {
        Some(3)
    }     else if str_eq(s, "THAT") {
        Some(4)
    }     else if str_eq(s, "SCREEN") {
        Some(16384)
    }     else if str_eq(s, "KBD") {
        Some(24576)
    }     else if str_eq(s, "R0") {
        Some(0)
    }     else if str_eq(s, "R1") {
        Some(1)
    }     else if str_eq(s, "R2") {
        Some(2)
    }     else if str_eq(s, "R3") {
        Some(3)
    }     else if str_eq(s, "R4") {
        Some(4)
    }     else if str_eq(s, "R5") {
        Some(5)
    }     else if str_eq(s, "R6") {
        Some(6)
    }     else if str_eq(s, "R7") {
        Some(7)
    }     else if str_eq(s, "R8") {
        Some(8)
    }     else if str_eq(s, "R9") {
        Some(9)
    }     else if str_eq(s, "R10") {
        Some(10)
    }     else if str_eq(s, "R11") {
        Some(11)
    }     else if str_eq(s, "R12") {
        Some(12)
    }     else if str_eq(s, "R13") {
        Some(13)
    }     else if str_eq(s, "R14") {
        Some(14)
    }     else if str_eq(s, "R15") {
        Some(15)
    } else {
        None
    }
}

} // verus!
