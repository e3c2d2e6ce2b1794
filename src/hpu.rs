use vstd::prelude::*;
use crate::base::{token_views, Command, CommandType, Token};
use crate::coder::{a_word, c_encoding, is_decimal, resolve, Coder, ADDRESS_LIMIT};
use crate::error::{ErrorKind, HackError};
use crate::lexer::{lex_line, Lexer};
use crate::parser::{parse_spec, Parsed, Parser, ParserArg};
use crate::strutil::{is_blank, Strutil};
use crate::tables::predefined_value;

verus! {

/// Whether a line starts with `//`.
pub open spec fn is_comment_text(s: Seq<char>) -> bool {
    s.len() >= 2 && s[0] == '/' && s[1] == '/'
}

/// Whether a line is left out of both passes: blank, or a comment.
pub open spec fn skipped(s: Seq<char>) -> bool {
    is_blank(s) || is_comment_text(s)
}

/// The shape of a line, told from its first and last characters.
pub open spec fn line_shape(s: Seq<char>) -> CommandType {
    if s.len() > 0 && s[0] == '@' {
        CommandType::ACommand
    } else if s.len() > 0 && s[0] == '(' && s.last() == ')' {
        CommandType::LCommand
    } else {
        CommandType::CCommand
    }
}

/// What the first pass does with one line, given the labels bound so far
/// and the address of the next instruction: a label line binds its label
/// to that address, any other instruction moves the address on.
pub open spec fn label_step(table: Map<Seq<char>, usize>, count: usize, line: Seq<char>) -> Result<
    (Map<Seq<char>, usize>, usize),
    ErrorKind,
> {
    if skipped(line) {
        Ok((table, count))
    } else if line_shape(line) == CommandType::LCommand {
        match lex_line(line) {
            Err(k) => Err(k),
            Ok((toks, _)) => match parse_spec(toks, 0) {
                Err(k) => Err(k),
                Ok((_, Parsed::Label(l))) => if table.contains_key(l) {
                    Err(ErrorKind::DuplicateLabel)
                } else {
                    Ok((table.insert(l, count), count))
                },
                Ok(_) => Ok((table, count)),
            },
        }
    } else {
        Ok((table, (count + 1) as usize))
    }
}

/// What the second pass does with one line, given the symbols bound so
/// far and the next free variable address: the symbols and address after
/// it, and its machine word (empty for a line that has none).
pub open spec fn encode_step(table: Map<Seq<char>, usize>, next: usize, line: Seq<char>) -> Result<
    (Map<Seq<char>, usize>, usize, Seq<char>),
    ErrorKind,
> {
    if skipped(line) {
        Ok((table, next, seq![]))
    } else {
        match lex_line(line) {
            Err(k) => Err(k),
            Ok((toks, _)) => match parse_spec(toks, 0) {
                Err(k) => Err(k),
                Ok((_, Parsed::Label(_))) => Ok((table, next, seq![])),
                Ok((_, Parsed::Address(v))) => {
                    let (n, fresh) = resolve(v, table, next);
                    if n >= ADDRESS_LIMIT {
                        Err(ErrorKind::AddressOutOfRange)
                    } else if fresh {
                        Ok((table.insert(v, next), (next + 1) as usize, a_word(n)))
                    } else {
                        Ok((table, next, a_word(n)))
                    }
                },
                Ok((_, Parsed::Compute(d, c, j))) => match c_encoding(d, c, j) {
                    Ok(w) => Ok((table, next, w)),
                    Err(k) => Err(k),
                },
            },
        }
    }
}

/// In the second pass the next free variable address either stays put,
/// with no new symbol bound, or moves on by exactly one, after binding one
/// symbol that was neither a numeral, nor predefined, nor bound before to
/// the address it had.
pub proof fn lemma_allocation_step(table: Map<Seq<char>, usize>, next: usize, line: Seq<char>)
    requires
        encode_step(table, next, line) is Ok,
    ensures
        ({
            let (t2, v2, _) = encode_step(table, next, line)->Ok_0;
            (v2 == next && t2 == table) || (v2 == next + 1 && exists|v: Seq<char>|
                !is_decimal(v) && predefined_value(v) is None && !table.contains_key(v) && t2
                    == table.insert(v, next))
        }),
{
    if !skipped(line) {
        let toks = lex_line(line)->Ok_0.0;
        match parse_spec(toks, 0) {
            Ok((_, Parsed::Address(v))) => {
                let (n, fresh) = resolve(v, table, next);
                if fresh {
                    assert(!is_decimal(v) && predefined_value(v) is None && !table.contains_key(v));
                }
            },
            _ => {},
        }
    }
}

/// A copy of a sequence of tokens.
fn copy_tokens(v: &Vec<Token>) -> (r: Vec<Token>)
    ensures
        token_views(r@) == token_views(v@),
{
    let mut out: Vec<Token> = Vec::new();
    let mut i: usize = 0;
    while i < v.len()
        invariant
            i <= v@.len(),
            out@.len() == i,
            forall|k: int| 0 <= k < i ==> (#[trigger] out@[k]).view() == v@[k].view(),
        decreases v@.len() - i,
    {
        out.push(Token::from_text(v[i].repr.as_str(), v[i].token_type));
        i = i + 1;
    }
    assert(token_views(out@) =~= token_views(v@));
    out
}

/// The processing unit of the assembler: it runs one line at a time
/// through the lexer, the parser and the code generator.
pub struct HPU {
    pub command: Command,
    pub parser: Parser,
    pub lexer: Lexer,
    pub valid_line: usize,
}

impl HPU {
    /// A unit with no symbols bound, at instruction address 0, whose first
    /// variable goes to 16.
    pub fn new() -> (r: HPU)
        ensures
            r.parser.map.wf(),
            r.parser.map@ == Map::<Seq<char>, usize>::empty(),
            r.parser.varmem == 16,
            r.valid_line == 0,
            r.lexer.tokens@.len() == 0,
            r.lexer.cmd_type is None,
    {
        HPU { command: Command::new(), parser: Parser::new(), lexer: Lexer::new(), valid_line: 0 }
    }

    /// Whether the line starts with `//`.
    pub fn is_comment(s: &str) -> (r: bool)
        ensures
            r == is_comment_text(s@),
    {
        let n = s.unicode_len();
        if n < 2 {
            return false;
        }
        s.get_char(0) == '/' && s.get_char(1) == '/'
    }

    /// Whether the line is blank or a comment.
    pub fn should_skip(s: &str) -> (r: bool)
        ensures
            r == skipped(s@),
    {
        Strutil::empty_line(s) || HPU::is_comment(s)
    }

    /// The shape of a line, told from its first and last characters.
    pub fn command_type(s: &String) -> (r: CommandType)
        ensures
            r == line_shape(s@),
    {
        let n = s.as_str().unicode_len();
        if n == 0 {
            return CommandType::CCommand;
        }
        let first = s.as_str().get_char(0);
        if first == '@' {
            CommandType::ACommand
        } else if first == '(' && s.as_str().get_char(n - 1) == ')' {
            CommandType::LCommand
        } else {
            CommandType::CCommand
        }
    }

    /// Lexes and parses line `num`.
    fn parse_line(&mut self, num: usize, line: &str) -> (r: Result<(), HackError>)
        ensures
            final(self).parser.map == old(self).parser.map,
            final(self).parser.varmem == old(self).parser.varmem,
            final(self).valid_line == old(self).valid_line,
            match lex_line(line@) {
                Err(k) => r matches Err(e) && e.kind == k,
                Ok((toks, _)) => match parse_spec(toks, 0) {
                    Err(k) => r matches Err(e) && e.kind == k,
                    Ok((_, p)) => r is Ok && final(self).parser.result.holds(p),
                },
            },
            r matches Err(e) ==> e.source_line_num == Some(num) && e.source_line is Some
                && e.source_line->0@ == line@ && e.comment@.len() > 0,
    {
        if let Err(e) = self.lexer.set(line) {
            return Err(e.at_line(num, line));
        }
        let toks = copy_tokens(&self.lexer.tokens);
        let mut parg = ParserArg::new(toks, line, num);
        self.parser.parse_command(&mut parg)
    }

    /// The second pass over line `num`: its machine word, or the empty
    /// string for a line that has none.
    pub fn second_pass(&mut self, num: usize, line: &str) -> (r: Result<String, HackError>)
        requires
            old(self).parser.map.wf(),
        ensures
            final(self).parser.map.wf(),
            final(self).valid_line == old(self).valid_line,
            match encode_step(old(self).parser.map@, old(self).parser.varmem, line@) {
                Ok((t, v, w)) => r matches Ok(s) && s@ == w && final(self).parser.map@ == t
                    && final(self).parser.varmem == v,
                Err(k) => r matches Err(e) && e.kind == k,
            },
            r matches Err(e) ==> e.source_line_num == Some(num) && e.source_line is Some
                && e.source_line->0@ == line@ && e.comment@.len() > 0,
            r is Err ==> final(self).parser.map@ == old(self).parser.map@
                && final(self).parser.varmem == old(self).parser.varmem,
    {
        if HPU::should_skip(line) {
            return Ok(String::new());
        }
        self.parse_line(num, line)?;
        let parser = &mut self.parser;
        let res = match (&parser.result.t, &parser.result.ar, &parser.result.cr) {
            (Some(CommandType::ACommand), Some(a), _) => Coder::translate_a(
                &mut parser.map,
                &mut parser.varmem,
                a,
            ),
            (Some(CommandType::CCommand), _, Some(c)) => Coder::translate_c(c),
            _ => Ok(String::new()),
        };
        match res {
            Ok(w) => Ok(w),
            Err(e) => Err(e.at_line(num, line)),
        }
    }

    /// The first pass over one numbered line: a label binds to the address
    /// of the next instruction; any other instruction moves that address on.
    pub fn first_pass(&mut self, data: &(usize, String)) -> (r: Result<(), HackError>)
        requires
            old(self).parser.map.wf(),
            old(self).valid_line < usize::MAX,
        ensures
            final(self).parser.map.wf(),
            final(self).parser.varmem == old(self).parser.varmem,
            final(self).valid_line <= old(self).valid_line + 1,
            match label_step(old(self).parser.map@, old(self).valid_line, data.1@) {
                Ok((t, c)) => r is Ok && final(self).parser.map@ == t && final(self).valid_line == c,
                Err(k) => r matches Err(e) && e.kind == k,
            },
            r matches Err(e) ==> e.source_line_num == Some(data.0) && e.source_line is Some
                && e.source_line->0@ == data.1@ && e.comment@.len() > 0,
            r is Err ==> final(self).parser.map@ == old(self).parser.map@
                && final(self).valid_line == old(self).valid_line,
    {
        let line = data.1.as_str();
        if HPU::should_skip(line) {
            return Ok(());
        }
        if HPU::command_type(&data.1) != CommandType::LCommand {
            self.valid_line = self.valid_line + 1;
            return Ok(());
        }
        self.parse_line(data.0, line)?;
        match (&self.parser.result.t, &self.parser.result.lr) {
            (Some(CommandType::LCommand), Some(l)) => {
                if self.parser.map.bind(l.label.as_str(), self.valid_line) {
                    Ok(())
                } else {
                    Err(
                        HackError::on_line(
                            data.0,
                            line,
                            ErrorKind::DuplicateLabel,
                            String::from_str("Label is defined twice"),
                        ),
                    )
                }
            },
            _ => Ok(()),
        }
    }
}

} // verus!
