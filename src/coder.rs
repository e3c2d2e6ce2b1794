use vstd::prelude::*;
use crate::error::{ErrorKind, HackError};
use crate::parser::{ACmdResult, CCmdResult, opt_view};
use crate::symbols::SymbolTable;
use crate::tables::{
    comp_code, dest_code, jump_code, lookup_comp, lookup_dest, lookup_jump, lookup_predefined,
    predefined_value,
};

verus! {

/// Addresses are fifteen bits wide: every address is below this bound.
pub const ADDRESS_LIMIT: usize = 32768;

/// The address at which the first variable is placed.
pub const FIRST_VARIABLE: usize = 16;

/// The low `w` bits of `n`, most significant first.
pub open spec fn bits(n: nat, w: nat) -> Seq<char>
    decreases w,
{
    if w == 0 {
        seq![]
    } else {
        bits(n / 2, (w - 1) as nat).push(if n % 2 == 1 { '1' } else { '0' })
    }
}

/// The number a sequence of binary digits stands for.
pub open spec fn binary_value(s: Seq<char>) -> nat
    decreases s.len(),
{
    if s.len() == 0 {
        0
    } else {
        binary_value(s.drop_last()) * 2 + (if s.last() == '1' { 1nat } else { 0nat })
    }
}

/// `bits(n, w)` has `w` digits and, where `n` fits in them, stands for `n`.
pub proof fn lemma_bits(n: nat, w: nat)
    ensures
        bits(n, w).len() == w,
        n < pow2(w) ==> binary_value(bits(n, w)) == n,
        forall|i: int| 0 <= i < w ==> (#[trigger] bits(n, w)[i] == '0' || bits(n, w)[i] == '1'),
    decreases w,
{
    if w > 0 {
        lemma_bits(n / 2, (w - 1) as nat);
        let b = bits(n, w);
        assert(b.drop_last() =~= bits(n / 2, (w - 1) as nat));
        if n < pow2(w) {
            assert(pow2(w) == 2 * pow2((w - 1) as nat));
            assert(n / 2 < pow2((w - 1) as nat));
        }
    }
}

/// Two to the power `w`.
pub open spec fn pow2(w: nat) -> nat
    decreases w,
{
    if w == 0 {
        1
    } else {
        2 * pow2((w - 1) as nat)
    }
}

/// Whether `s` is a non-empty run of decimal digits.
pub open spec fn is_decimal(s: Seq<char>) -> bool {
    s.len() > 0 && forall|i: int| 0 <= i < s.len() ==> '0' <= #[trigger] s[i] && s[i] <= '9'
}

/// The number a run of decimal digits stands for.
pub open spec fn decimal_value(s: Seq<char>) -> nat
    decreases s.len(),
{
    if s.len() == 0 {
        0
    } else {
        decimal_value(s.drop_last()) * 10 + ((s.last() as u32) - 48) as nat
    }
}

/// What an address command's value stands for, given the symbols bound
/// so far and the next free variable address: the address, and whether
/// the value is a new variable that takes that address.
pub open spec fn resolve(v: Seq<char>, table: Map<Seq<char>, usize>, next: usize) -> (nat, bool) {
    if is_decimal(v) {
        (decimal_value(v), false)
    } else if predefined_value(v) is Some {
        (predefined_value(v)->0 as nat, false)
    } else if table.contains_key(v) {
        (table[v] as nat, false)
    } else {
        (next as nat, true)
    }
}

/// The machine word of an address command that loads `n`.
pub open spec fn a_word(n: nat) -> Seq<char> {
    seq!['0'] + bits(n, 15)
}

/// The machine word of a compute command with the given codes.
pub open spec fn c_word(comp: u16, dest: u16, jump: u16) -> Seq<char> {
    seq!['1', '1', '1'] + bits(comp as nat, 7) + bits(dest as nat, 3) + bits(jump as nat, 3)
}

/// The code of an optional destination or jump: all zeros where it is
/// absent.
pub open spec fn optional_code(o: Option<Seq<char>>, table: spec_fn(Seq<char>) -> Option<u16>) -> Option<u16> {
    match o {
        Some(s) => table(s),
        None => Some(0),
    }
}

/// The machine word of a compute command, or why it has none.
pub open spec fn c_encoding(dest: Option<Seq<char>>, comp: Option<Seq<char>>, jump: Option<Seq<char>>) -> Result<
    Seq<char>,
    ErrorKind,
> {
    match comp {
        None => Err(ErrorKind::MissingComputation),
        Some(c) => {
            let cc = comp_code(c);
            let dd = optional_code(dest, |s: Seq<char>| dest_code(s));
            let jj = optional_code(jump, |s: Seq<char>| jump_code(s));
            if cc is Some && dd is Some && jj is Some {
                Ok(c_word(cc->0, dd->0, jj->0))
            } else {
                Err(ErrorKind::UndefinedMnemonic)
            }
        },
    }
}

/// Appends the low `w` bits of `n` to `out`, most significant first.
pub fn push_bits(out: &mut String, n: usize, w: usize)
    ensures
        final(out)@ == old(out)@ + bits(n as nat, w as nat),
    decreases w,
{
    if w == 0 {
        assert(bits(n as nat, 0) =~= seq![]);
        assert(out@ =~= out@ + bits(n as nat, 0));
        return;
    }
    push_bits(out, n / 2, w - 1);
    proof {
        reveal_strlit("1");
        reveal_strlit("0");
    }
    if n % 2 == 1 {
        out.append("1");
    } else {
        out.append("0");
    }
    assert(out@ =~= old(out)@ + bits(n as nat, w as nat));
}

/// Reads a run of decimal digits: `None` where `s` is not one, else its
/// value, capped at `ADDRESS_LIMIT`.
pub fn capped_decimal(s: &str) -> (r: Option<usize>)
    ensures
        r is Some <==> is_decimal(s@),
        r matches Some(n) ==> n as nat == (if decimal_value(s@) < ADDRESS_LIMIT {
            decimal_value(s@)
        } else {
            ADDRESS_LIMIT as nat
        }),
{
    let len = s.unicode_len();
    if len == 0 {
        return None;
    }
    let mut v: usize = 0;
    let mut i: usize = 0;
    assert(s@.take(0) =~= seq![]);
    while i < len
        invariant
            len == s@.len(),
            i <= len,
            forall|k: int| 0 <= k < i ==> '0' <= #[trigger] s@[k] && s@[k] <= '9',
            v as nat == (if decimal_value(s@.take(i as int)) < ADDRESS_LIMIT {
                decimal_value(s@.take(i as int))
            } else {
                ADDRESS_LIMIT as nat
            }),
        decreases len - i,
    {
        let c = s.get_char(i);
        if c < '0' || c > '9' {
            return None;
        }
        assert(s@.take(i + 1).drop_last() =~= s@.take(i as int));
        let d = (c as u32 - 48) as usize;
        if v < ADDRESS_LIMIT {
            let w = v * 10 + d;
            v = if w < ADDRESS_LIMIT { w } else { ADDRESS_LIMIT };
        }
        i = i + 1;
    }
    assert(s@.take(len as int) =~= s@);
    Some(v)
}

/// Turns parsed commands into machine words.
pub struct Coder {}

impl Coder {
    /// The machine word of an address command. A decimal value stands for
    /// itself; a predefined symbol for its fixed address; a bound symbol
    /// for its value; any other symbol becomes a new variable at `varmem`,
    /// which then moves on by one. An address of sixteen bits or more is
    /// refused, and nothing changes.
    pub fn translate_a(map: &mut SymbolTable, varmem: &mut usize, result: &ACmdResult) -> (r:
        Result<String, HackError>)
        requires
            old(map).wf(),
        ensures
            final(map).wf(),
            ({
                let (n, fresh) = resolve(result.value@, old(map)@, *old(varmem));
                if n < ADDRESS_LIMIT {
                    &&& r matches Ok(w) && w@ == a_word(n)
                    &&& fresh ==> final(map)@ == old(map)@.insert(result.value@, *old(varmem))
                        && *final(varmem) == *old(varmem) + 1
                    &&& !fresh ==> final(map)@ == old(map)@ && *final(varmem) == *old(varmem)
                } else {
                    &&& r matches Err(e) && e.kind == ErrorKind::AddressOutOfRange
                    &&& final(map)@ == old(map)@ && *final(varmem) == *old(varmem)
                }
            }),
            r matches Err(e) ==> e.comment@.len() > 0,
            is_decimal(result.value@) && decimal_value(result.value@) < ADDRESS_LIMIT ==> (r matches Ok(
                w,
            ) && w@ == a_word(decimal_value(result.value@))),
    {
        let v = result.value.as_str();
        let n: usize = match capped_decimal(v) {
            Some(n) => n,
            None => match lookup_predefined(v) {
                Some(n) => n,
                None => match map.get(v) {
                    Some(n) => n,
                    None => {
                        if *varmem >= ADDRESS_LIMIT {
                            return Err(
                                HackError::lineless(
                                    ErrorKind::AddressOutOfRange,
                                    "No address is left for a new variable",
                                ),
                            );
                        }
                        let n = *varmem;
                        map.bind(v, n);
                        *varmem = n + 1;
                        n
                    },
                },
            },
        };
        if n >= ADDRESS_LIMIT {
            return Err(
                HackError::lineless(ErrorKind::AddressOutOfRange, "Address does not fit in 15 bits"),
            );
        }
        let mut out = String::new();
        proof {
            reveal_strlit("0");
        }
        out.append("0");
        push_bits(&mut out, n, 15);
        Ok(out)
    }

    /// The machine word of a compute command: `111`, then the computation,
    /// destination and jump codes, zeros standing for an absent part.
    pub fn translate_c(result: &CCmdResult) -> (r: Result<String, HackError>)
        ensures
            match c_encoding(opt_view(result.dest), opt_view(result.comp), opt_view(result.jump)) {
                Ok(w) => r matches Ok(s) && s@ == w,
                Err(k) => r matches Err(e) && e.kind == k,
            },
            r matches Err(e) ==> e.comment@.len() > 0,
    {
        let comp = match &result.comp {
            Some(c) => c,
            None => {
                return Err(
                    HackError::lineless(ErrorKind::MissingComputation, "Missing computation"),
                );
            },
        };
        let cc = lookup_comp(comp.as_str());
        let dd = match &result.dest {
            Some(d) => lookup_dest(d.as_str()),
            None => Some(0),
        };
        let jj = match &result.jump {
            Some(j) => lookup_jump(j.as_str()),
            None => Some(0),
        };
        match (cc, dd, jj) {
            (Some(c), Some(d), Some(j)) => {
                let mut out = String::new();
                proof {
                    reveal_strlit("111");
                }
                out.append("111");
                push_bits(&mut out, c as usize, 7);
                push_bits(&mut out, d as usize, 3);
                push_bits(&mut out, j as usize, 3);
                assert(out@ =~= c_word(c, d, j));
                Ok(out)
            },
            _ => Err(HackError::lineless(ErrorKind::UndefinedMnemonic, "Undefined mnemonic")),
        }
    }
}

/// The decimal digit that stands for `d`.
pub open spec fn digit_char(d: nat) -> char {
    if d == 0 {
        '0'
    } else if d == 1 {
        '1'
    } else if d == 2 {
        '2'
    } else if d == 3 {
        '3'
    } else if d == 4 {
        '4'
    } else if d == 5 {
        '5'
    } else if d == 6 {
        '6'
    } else if d == 7 {
        '7'
    } else if d == 8 {
        '8'
    } else {
        '9'
    }
}

proof fn lemma_digit_char(d: nat)
    requires
        d < 10,
    ensures
        '0' <= digit_char(d) && digit_char(d) <= '9',
        ((digit_char(d) as u32) - 48) as nat == d,
{
}

/// The decimal numeral of `n`, without leading zeros.
pub open spec fn decimal_text(n: nat) -> Seq<char>
    decreases n,
{
    if n < 10 {
        seq![digit_char(n)]
    } else {
        decimal_text(n / 10).push(digit_char(n % 10))
    }
}

/// The numeral of `n` is a run of decimal digits that stands for `n`.
pub proof fn lemma_decimal_text(n: nat)
    ensures
        is_decimal(decimal_text(n)),
        decimal_value(decimal_text(n)) == n,
    decreases n,
{
    if n >= 10 {
        lemma_decimal_text(n / 10);
        let t = decimal_text(n);
        assert(t.drop_last() =~= decimal_text(n / 10));
        lemma_digit_char(n % 10);
        assert(n == (n / 10) * 10 + n % 10);
        assert(t.last() == digit_char(n % 10));
        assert(decimal_value(t) == decimal_value(t.drop_last()) * 10 + ((t.last() as u32) - 48) as nat);
        assert forall|i: int| 0 <= i < t.len() implies '0' <= #[trigger] t[i] && t[i] <= '9' by {
            if i < t.len() - 1 {
                assert(t[i] == decimal_text(n / 10)[i]);
            }
        }
    } else {
        let t = decimal_text(n);
        assert(t.drop_last() =~= seq![]);
        assert(decimal_value(t.drop_last()) == 0);
        lemma_digit_char(n);
        assert(t.last() == digit_char(n));
    }
}

/// A predefined symbol loads the same address as the numeral of its value.
pub proof fn lemma_predefined_as_number(name: Seq<char>, table: Map<Seq<char>, usize>, next: usize)
    requires
        predefined_value(name) is Some,
    ensures
        resolve(name, table, next) == resolve(decimal_text(predefined_value(name)->0 as nat), table, next),
        resolve(name, table, next) == (predefined_value(name)->0 as nat, false),
{
    reveal_strlit("SP");
    reveal_strlit("LCL");
    reveal_strlit("ARG");
    reveal_strlit("THIS");
    reveal_strlit("THAT");
    reveal_strlit("SCREEN");
    reveal_strlit("KBD");
    reveal_strlit("R0");
    reveal_strlit("R1");
    reveal_strlit("R2");
    reveal_strlit("R3");
    reveal_strlit("R4");
    reveal_strlit("R5");
    reveal_strlit("R6");
    reveal_strlit("R7");
    reveal_strlit("R8");
    reveal_strlit("R9");
    reveal_strlit("R10");
    reveal_strlit("R11");
    reveal_strlit("R12");
    reveal_strlit("R13");
    reveal_strlit("R14");
    reveal_strlit("R15");
    assert(!is_decimal(name)) by {
        assert('9' < name[0]);
    }
    lemma_decimal_text(predefined_value(name)->0 as nat);
}

/// The first use of a symbol that is neither a numeral, nor predefined, nor
/// bound takes the next free address, and the address moves on by one; a
/// later use finds the same address and takes no new one.
pub proof fn lemma_variable_allocation(v: Seq<char>, table: Map<Seq<char>, usize>, next: usize)
    requires
        !is_decimal(v),
        predefined_value(v) is None,
        !table.contains_key(v),
    ensures
        resolve(v, table, next) == (next as nat, true),
        forall|later: usize| resolve(v, table.insert(v, next), later) == (next as nat, false),
{
}

/// A bound symbol always loads its value and takes no new address.
pub proof fn lemma_bound_symbol_reused(v: Seq<char>, table: Map<Seq<char>, usize>, next: usize)
    requires
        !is_decimal(v),
        predefined_value(v) is None,
        table.contains_key(v),
    ensures
        resolve(v, table, next) == (table[v] as nat, false),
{
}

/// A compute word is sixteen characters: `111`, then seven computation bits,
/// then three destination bits and three jump bits; an absent destination or
/// jump reads `000`.
pub proof fn lemma_c_word_shape(comp: u16, dest: u16, jump: u16)
    requires
        comp < 128,
        dest < 8,
        jump < 8,
    ensures
        c_word(comp, dest, jump).len() == 16,
        c_word(comp, dest, jump).take(3) == seq!['1', '1', '1'],
        c_word(comp, dest, jump).subrange(3, 10) == bits(comp as nat, 7),
        c_word(comp, dest, jump).subrange(10, 13) == bits(dest as nat, 3),
        c_word(comp, dest, jump).subrange(13, 16) == bits(jump as nat, 3),
        binary_value(bits(comp as nat, 7)) == comp,
        binary_value(bits(dest as nat, 3)) == dest,
        binary_value(bits(jump as nat, 3)) == jump,
        bits(0, 3) == seq!['0', '0', '0'],
{
    lemma_bits(comp as nat, 7);
    lemma_bits(dest as nat, 3);
    lemma_bits(jump as nat, 3);
    reveal_with_fuel(pow2, 8);
    assert(pow2(3) == 8);
    assert(pow2(7) == 128);
    let w = c_word(comp, dest, jump);
    assert(w.take(3) =~= seq!['1', '1', '1']);
    assert(w.subrange(3, 10) =~= bits(comp as nat, 7));
    assert(w.subrange(10, 13) =~= bits(dest as nat, 3));
    assert(w.subrange(13, 16) =~= bits(jump as nat, 3));
    reveal_with_fuel(bits, 4);
    assert(bits(0, 3) =~= seq!['0', '0', '0']);
}

/// An address word is sixteen characters: `0`, then the fifteen bits of
/// the address, most significant first.
pub proof fn lemma_a_word_shape(n: nat)
    requires
        n < ADDRESS_LIMIT,
    ensures
        a_word(n).len() == 16,
        a_word(n)[0] == '0',
        binary_value(a_word(n).drop_first()) == n,
{
    lemma_bits(n, 15);
    reveal_with_fuel(pow2, 16);
    assert(pow2(15) == 32768);
    assert(a_word(n).drop_first() =~= bits(n, 15));
}

} // verus!
