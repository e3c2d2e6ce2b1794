use vstd::prelude::*;
use crate::base::CommandType;
use crate::coder::FIRST_VARIABLE;
use crate::error::{ErrorKind, HackError};
use crate::lexer::lex_line;
use crate::parser::{parse_spec, Parsed};
use crate::coder::{is_decimal, resolve};
use crate::hpu::{encode_step, label_step, lemma_allocation_step, line_shape, skipped, HPU};
use crate::parser::lemma_parsed_label_not_predefined;
use crate::tables::predefined_value;
use crate::strutil::{trim, trimmed};

verus! {

/// The texts of the lines.
pub open spec fn line_views(lines: Seq<String>) -> Seq<Seq<char>> {
    Seq::new(lines.len(), |i: int| lines[i]@)
}

/// An error of a pass over a program: its kind, and the index of the line
/// it arose on.
pub type LineError = (ErrorKind, int);

/// Whether `e` reports the error `f` on the program `lines`: its kind, the
/// number and the trimmed text of the failing line, and a message.
pub open spec fn failed_on(e: HackError, f: LineError, lines: Seq<Seq<char>>) -> bool {
    &&& e.kind == f.0
    &&& e.source_line_num == Some(f.1 as usize)
    &&& e.source_line is Some
    &&& e.source_line->0@ == trimmed(lines[f.1])
    &&& e.comment@.len() > 0
}

/// The labels bound, and the next instruction address, after the first
/// pass over the first `n` lines.
pub open spec fn first_pass_spec(lines: Seq<Seq<char>>, n: int) -> Result<
    (Map<Seq<char>, usize>, usize),
    LineError,
>
    decreases n,
{
    if n <= 0 {
        Ok((Map::empty(), 0))
    } else {
        match first_pass_spec(lines, n - 1) {
            Err(k) => Err(k),
            Ok((t, c)) => match label_step(t, c, trimmed(lines[n - 1])) {
                Ok(x) => Ok(x),
                Err(k) => Err((k, n - 1)),
            },
        }
    }
}

/// The symbols bound, the next variable address, and the machine words
/// produced, after the second pass over the first `n` lines, starting
/// from the labels `labels`.
pub open spec fn second_pass_spec(
    lines: Seq<Seq<char>>,
    labels: Map<Seq<char>, usize>,
    n: int,
) -> Result<(Map<Seq<char>, usize>, usize, Seq<Seq<char>>), LineError>
    decreases n,
{
    if n <= 0 {
        Ok((labels, FIRST_VARIABLE, seq![]))
    } else {
        match second_pass_spec(lines, labels, n - 1) {
            Err(k) => Err(k),
            Ok((t, v, out)) => match encode_step(t, v, trimmed(lines[n - 1])) {
                Err(k) => Err((k, n - 1)),
                Ok((t2, v2, w)) => Ok((t2, v2, if w.len() > 0 { out.push(w) } else { out })),
            },
        }
    }
}

/// The machine words of a program, one per instruction in source order, or
/// the first error with the index of its line.
pub open spec fn assemble(lines: Seq<Seq<char>>) -> Result<Seq<Seq<char>>, LineError> {
    match first_pass_spec(lines, lines.len() as int) {
        Err(k) => Err(k),
        Ok((labels, _)) => match second_pass_spec(lines, labels, lines.len() as int) {
            Err(k) => Err(k),
            Ok((_, _, out)) => Ok(out),
        },
    }
}

/// Whether a line is an instruction: neither skipped nor a label.
pub open spec fn is_instruction(line: Seq<char>) -> bool {
    !skipped(line) && line_shape(line) != CommandType::LCommand
}

/// The label a line defines, if it is a label command.
pub open spec fn label_of(line: Seq<char>) -> Option<Seq<char>> {
    if skipped(line) || line_shape(line) != CommandType::LCommand {
        None
    } else {
        match lex_line(line) {
            Ok((toks, _)) => match parse_spec(toks, 0) {
                Ok((_, Parsed::Label(l))) => Some(l),
                _ => None,
            },
            Err(_) => None,
        }
    }
}

/// How many of the first `n` lines are instructions.
pub open spec fn instructions_before(lines: Seq<Seq<char>>, n: int) -> nat
    decreases n,
{
    if n <= 0 {
        0
    } else {
        instructions_before(lines, n - 1) + (if is_instruction(trimmed(lines[n - 1])) {
            1nat
        } else {
            0nat
        })
    }
}

/// Where the first pass succeeds on the first `n` lines, its address
/// counter is the number of instructions among them, labels not counted.
pub proof fn lemma_first_pass_count(lines: Seq<Seq<char>>, n: int)
    requires
        0 <= n <= lines.len(),
        lines.len() <= usize::MAX,
        first_pass_spec(lines, n) is Ok,
    ensures
        first_pass_spec(lines, n)->Ok_0.1 == instructions_before(lines, n),
        instructions_before(lines, n) <= n,
    decreases n,
{
    if n > 0 {
        assert(first_pass_spec(lines, n - 1) is Ok);
        lemma_first_pass_count(lines, n - 1);
        let (t, c) = first_pass_spec(lines, n - 1)->Ok_0;
        let line = trimmed(lines[n - 1]);
        if is_instruction(line) {
            assert(label_step(t, c, line) == Ok::<_, ErrorKind>((t, (c + 1) as usize)));
        }
    }
}

/// A label defined on line `k` is bound, once the first pass has gone past
/// it, to the address of the instruction that follows it: the number of
/// instructions before it, labels not counted.
pub proof fn lemma_label_address(lines: Seq<Seq<char>>, n: int, k: int, l: Seq<char>)
    requires
        0 <= k < n <= lines.len(),
        lines.len() <= usize::MAX,
        first_pass_spec(lines, n) is Ok,
        label_of(trimmed(lines[k])) == Some(l),
    ensures
        first_pass_spec(lines, n)->Ok_0.0.contains_key(l),
        first_pass_spec(lines, n)->Ok_0.0[l] == instructions_before(lines, k),
    decreases n,
{
    if n == k + 1 {
        lemma_first_pass_count(lines, k);
    } else {
        lemma_label_address(lines, n - 1, k, l);
    }
}

/// The second pass never changes nor drops a binding it started from.
pub proof fn lemma_second_pass_keeps(
    lines: Seq<Seq<char>>,
    labels: Map<Seq<char>, usize>,
    n: int,
    l: Seq<char>,
)
    requires
        labels.contains_key(l),
        second_pass_spec(lines, labels, n) is Ok,
    ensures
        second_pass_spec(lines, labels, n)->Ok_0.0.contains_key(l),
        second_pass_spec(lines, labels, n)->Ok_0.0[l] == labels[l],
    decreases n,
{
    if n > 0 {
        assert(second_pass_spec(lines, labels, n - 1) is Ok);
        lemma_second_pass_keeps(lines, labels, n - 1, l);
        let (t, v, _) = second_pass_spec(lines, labels, n - 1)->Ok_0;
        lemma_allocation_step(t, v, trimmed(lines[n - 1]));
    }
}

/// An address command that names a label loads, at any point of the
/// second pass, the address of the instruction that follows the label's
/// definition: the number of instructions before it, labels not counted.
pub proof fn lemma_label_reference(lines: Seq<Seq<char>>, k: int, m: int, l: Seq<char>, next: usize)
    requires
        0 <= k < lines.len(),
        0 <= m <= lines.len(),
        lines.len() <= usize::MAX,
        label_of(trimmed(lines[k])) == Some(l),
        !is_decimal(l),
        first_pass_spec(lines, lines.len() as int) is Ok,
        second_pass_spec(lines, first_pass_spec(lines, lines.len() as int)->Ok_0.0, m) is Ok,
    ensures
        resolve(
            l,
            second_pass_spec(lines, first_pass_spec(lines, lines.len() as int)->Ok_0.0, m)->Ok_0.0,
            next,
        ) == (instructions_before(lines, k), false),
{
    let labels = first_pass_spec(lines, lines.len() as int)->Ok_0.0;
    lemma_label_address(lines, lines.len() as int, k, l);
    lemma_second_pass_keeps(lines, labels, m, l);
    let line = trimmed(lines[k]);
    let toks = lex_line(line)->Ok_0.0;
    lemma_parsed_label_not_predefined(toks, 0, l);
}

/// A program in memory, with the unit that translates it.
pub struct Assembler {
    lines: Vec<String>,
    hpu: HPU,
}

/// An assembler for the program whose lines are `lines`.
pub fn create_assembler(lines: Vec<String>) -> (r: Assembler)
    ensures
        r.lines() == line_views(lines@),
{
    Assembler { lines, hpu: HPU::new() }
}

impl Assembler {
    /// The texts of the program's lines.
    pub closed spec fn lines(&self) -> Seq<Seq<char>> {
        line_views(self.lines@)
    }

    /// Translates the whole program: labels first, then every instruction.
    /// Gives the machine words in source order, or the first error, tied to
    /// the number and text of the line it arose on.
    pub fn run(&mut self) -> (r: Result<Vec<String>, HackError>)
        ensures
            final(self).lines() == old(self).lines(),
            match assemble(old(self).lines()) {
                Ok(out) => r matches Ok(v) && line_views(v@) == out,
                Err(f) => r matches Err(e) && failed_on(e, f, old(self).lines()),
            },
    {
        self.hpu = HPU::new();
        self.first_pass()?;
        self.second_pass()
    }

    /// A line without leading and trailing whitespace.
    fn polish(s: &str) -> (r: String)
        ensures
            r@ == trimmed(s@),
    {
        String::from_str(trim(s))
    }

    fn first_pass(&mut self) -> (r: Result<(), HackError>)
        requires
            old(self).hpu.parser.map.wf(),
            old(self).hpu.parser.map@ == Map::<Seq<char>, usize>::empty(),
            old(self).hpu.parser.varmem == 16,
            old(self).hpu.valid_line == 0,
        ensures
            final(self).lines() == old(self).lines(),
            final(self).hpu.parser.map.wf(),
            final(self).hpu.parser.varmem == 16,
            match first_pass_spec(old(self).lines(), old(self).lines().len() as int) {
                Ok((t, c)) => r is Ok && final(self).hpu.parser.map@ == t
                    && final(self).hpu.valid_line == c,
                Err(f) => r matches Err(e) && failed_on(e, f, old(self).lines()),
            },
    {
        let n = self.lines.len();
        let mut i: usize = 0;
        while i < n
            invariant
                n == self.lines@.len(),
                self.lines@ == old(self).lines@,
                i <= n,
                self.hpu.parser.map.wf(),
                self.hpu.parser.varmem == 16,
                self.hpu.valid_line <= i,
                first_pass_spec(self.lines(), i as int) == Ok::<_, LineError>(
                    (self.hpu.parser.map@, self.hpu.valid_line),
                ),
            decreases n - i,
        {
            let data = (i, Assembler::polish(self.lines[i].as_str()));
            assert(self.lines()[i as int] == self.lines@[i as int]@);
            match self.hpu.first_pass(&data) {
                Ok(()) => {},
                Err(e) => {
                    proof {
                        lemma_first_pass_stops(self.lines(), i as int + 1);
                    }
                    return Err(e);
                },
            }
            i = i + 1;
        }
        Ok(())
    }

    fn second_pass(&mut self) -> (r: Result<Vec<String>, HackError>)
        requires
            old(self).hpu.parser.map.wf(),
            old(self).hpu.parser.varmem == 16,
        ensures
            match second_pass_spec(old(self).lines(), old(self).hpu.parser.map@, old(self).lines().len() as int) {
                Ok((_, _, out)) => r matches Ok(v) && line_views(v@) == out,
                Err(f) => r matches Err(e) && failed_on(e, f, old(self).lines()),
            },
            final(self).lines() == old(self).lines(),
    {
        let ghost labels = self.hpu.parser.map@;
        let n = self.lines.len();
        let mut out: Vec<String> = Vec::new();
        let mut i: usize = 0;
        assert(line_views(out@) =~= seq![]);
        while i < n
            invariant
                n == self.lines@.len(),
                self.lines@ == old(self).lines@,
                labels == old(self).hpu.parser.map@,
                i <= n,
                self.hpu.parser.map.wf(),
                second_pass_spec(self.lines(), labels, i as int) == Ok::<_, LineError>(
                    (self.hpu.parser.map@, self.hpu.parser.varmem, line_views(out@)),
                ),
            decreases n - i,
        {
            let line = Assembler::polish(self.lines[i].as_str());
            assert(self.lines()[i as int] == self.lines@[i as int]@);
            match self.hpu.second_pass(i, line.as_str()) {
                Ok(w) => {
                    let ghost before = out@;
                    if w.as_str().unicode_len() > 0 {
                        out.push(w);
                        assert(line_views(out@) =~= line_views(before).push(w@));
                    }
                },
                Err(e) => {
                    proof {
                        lemma_second_pass_stops(self.lines(), labels, i as int + 1);
                    }
                    return Err(e);
                },
            }
            i = i + 1;
        }
        Ok(out)
    }
}

/// Once the first pass fails on a line, it fails with that error.
proof fn lemma_first_pass_stops(lines: Seq<Seq<char>>, n: int)
    requires
        0 < n <= lines.len(),
        first_pass_spec(lines, n) is Err,
    ensures
        first_pass_spec(lines, lines.len() as int) == first_pass_spec(lines, n),
    decreases lines.len() - n,
{
    if n < lines.len() {
        lemma_first_pass_stops(lines, n + 1);
    }
}

/// Once the second pass fails on a line, it fails with that error.
proof fn lemma_second_pass_stops(lines: Seq<Seq<char>>, labels: Map<Seq<char>, usize>, n: int)
    requires
        0 < n <= lines.len(),
        second_pass_spec(lines, labels, n) is Err,
    ensures
        second_pass_spec(lines, labels, lines.len() as int) == second_pass_spec(lines, labels, n),
    decreases lines.len() - n,
{
    if n < lines.len() {
        lemma_second_pass_stops(lines, labels, n + 1);
    }
}

} // verus!
