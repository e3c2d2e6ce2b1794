use vstd::prelude::*;
use crate::base::{CommandType, TOKENTYPE, Token, TokenView, token_views};
use crate::coder::FIRST_VARIABLE;
use crate::error::{ErrorKind, HackError};
use crate::symbols::SymbolTable;
use crate::tables::{comp_code, dest_code, jump_code, lookup_comp, lookup_dest, lookup_jump, lookup_predefined, predefined_value};

verus! {

/// The text of an optional string.
pub open spec fn opt_view(o: Option<String>) -> Option<Seq<char>> {
    match o {
        Some(s) => Some(s@),
        None => None,
    }
}

/// A copy of an optional string.
fn copy_text(o: &Option<String>) -> (r: Option<String>)
    ensures
        opt_view(r) == opt_view(*o),
{
    match o {
        Some(s) => Some(String::from_str(s.as_str())),
        None => None,
    }
}

/// A label command: `(label)`.
#[derive(Debug)]
pub struct LCmdResult {
    pub label: String,
}

/// A compute command: `dest=comp;jump`, destination and jump optional.
#[derive(Debug)]
pub struct CCmdResult {
    pub dest: Option<String>,
    pub comp: Option<String>,
    pub jump: Option<String>,
}

/// An address command: `@value`.
#[derive(Debug)]
pub struct ACmdResult {
    pub value: String,
}

/// A parsed command, as the specifications see it.
pub ghost enum Parsed {
    Address(Seq<char>),
    Compute(Option<Seq<char>>, Option<Seq<char>>, Option<Seq<char>>),
    Label(Seq<char>),
}

/// Whether token `i` exists and is of kind `kind`.
pub open spec fn kind_at(toks: Seq<TokenView>, i: int, kind: TOKENTYPE) -> bool {
    0 <= i < toks.len() && toks[i].1 == kind
}

/// An address command whose `@` stands at `i`: a number or a symbol must
/// follow it.
pub open spec fn parse_a(toks: Seq<TokenView>, i: int) -> Result<(int, Parsed), ErrorKind> {
    if kind_at(toks, i + 1, TOKENTYPE::NUMBER) || kind_at(toks, i + 1, TOKENTYPE::SYMBOL) {
        Ok((i + 2, Parsed::Address(toks[i + 1].0)))
    } else {
        Err(ErrorKind::IllegalAddress)
    }
}

/// The value of an address command: one token of kind `kind` at `i`.
pub open spec fn parse_value(toks: Seq<TokenView>, i: int, kind: TOKENTYPE) -> Result<
    (int, Parsed),
    ErrorKind,
> {
    if kind_at(toks, i, kind) {
        Ok((i + 1, Parsed::Address(toks[i].0)))
    } else {
        Err(ErrorKind::UnexpectedToken)
    }
}

/// A label at `i`: a symbol that is not predefined.
pub open spec fn parse_label_name(toks: Seq<TokenView>, i: int) -> Result<int, ErrorKind> {
    if !kind_at(toks, i, TOKENTYPE::SYMBOL) {
        Err(ErrorKind::UnexpectedToken)
    } else if predefined_value(toks[i].0) is Some {
        Err(ErrorKind::ReservedLabel)
    } else {
        Ok(i + 1)
    }
}

/// A label command starting at `i`: `(`, a label, `)`.
pub open spec fn parse_l(toks: Seq<TokenView>, i: int) -> Result<(int, Parsed), ErrorKind> {
    if !kind_at(toks, i, TOKENTYPE::LEFTBRACE) {
        Err(ErrorKind::UnexpectedToken)
    } else {
        match parse_label_name(toks, i + 1) {
            Err(k) => Err(k),
            Ok(_) => if kind_at(toks, i + 2, TOKENTYPE::RIGHTBRACE) {
                Ok((i + 3, Parsed::Label(toks[i + 1].0)))
            } else {
                Err(ErrorKind::UnexpectedToken)
            },
        }
    }
}

/// Whether a token of this kind may stand as a computation.
pub open spec fn comp_kind(kind: TOKENTYPE) -> bool {
    kind == TOKENTYPE::EXPRESSION || kind == TOKENTYPE::SYMBOL || kind == TOKENTYPE::NUMBER
}

/// The rest of a compute command from `i`, with the destination,
/// computation and jump read so far. At each step: a token followed by `=`
/// is the destination; `;` introduces the jump; any other token is the
/// computation. The command ends with the tokens.
pub open spec fn parse_c_rec(
    toks: Seq<TokenView>,
    i: int,
    d: Option<Seq<char>>,
    c: Option<Seq<char>>,
    j: Option<Seq<char>>,
) -> Result<(int, Parsed), ErrorKind>
    decreases toks.len() - i,
{
    if i < 0 || i >= toks.len() {
        Ok((i, Parsed::Compute(d, c, j)))
    } else if kind_at(toks, i + 1, TOKENTYPE::EQUAL) {
        if toks[i].1 != TOKENTYPE::SYMBOL {
            Err(ErrorKind::UnexpectedToken)
        } else if dest_code(toks[i].0) is None {
            Err(ErrorKind::UndefinedMnemonic)
        } else {
            parse_c_rec(toks, i + 2, Some(toks[i].0), c, j)
        }
    } else if toks[i].1 == TOKENTYPE::SEMICOLON {
        if !kind_at(toks, i + 1, TOKENTYPE::SYMBOL) {
            Err(ErrorKind::UnexpectedToken)
        } else if jump_code(toks[i + 1].0) is None {
            Err(ErrorKind::UndefinedMnemonic)
        } else {
            parse_c_rec(toks, i + 2, d, c, Some(toks[i + 1].0))
        }
    } else {
        if !comp_kind(toks[i].1) {
            Err(ErrorKind::UnexpectedToken)
        } else if comp_code(toks[i].0) is None {
            Err(ErrorKind::UndefinedMnemonic)
        } else {
            parse_c_rec(toks, i + 1, d, Some(toks[i].0), j)
        }
    }
}

/// A compute command starting at `i`; it must have a computation.
pub open spec fn parse_c(toks: Seq<TokenView>, i: int) -> Result<(int, Parsed), ErrorKind> {
    match parse_c_rec(toks, i, None, None, None) {
        Ok((k, Parsed::Compute(d, c, j))) => if c is Some {
            Ok((k, Parsed::Compute(d, c, j)))
        } else {
            Err(ErrorKind::MissingComputation)
        },
        other => other,
    }
}

/// One command starting at `i`, its shape told by its first token.
pub open spec fn parse_spec(toks: Seq<TokenView>, i: int) -> Result<(int, Parsed), ErrorKind> {
    if i < 0 || i >= toks.len() {
        Err(ErrorKind::UnexpectedToken)
    } else if toks[i].1 == TOKENTYPE::AT {
        parse_a(toks, i)
    } else if toks[i].1 == TOKENTYPE::LEFTBRACE {
        parse_l(toks, i)
    } else {
        parse_c(toks, i)
    }
}

/// The rest of a compute command, where it parses, is a compute command.
pub proof fn lemma_parse_c_rec_compute(
    toks: Seq<TokenView>,
    i: int,
    d: Option<Seq<char>>,
    c: Option<Seq<char>>,
    j: Option<Seq<char>>,
)
    requires
        parse_c_rec(toks, i, d, c, j) is Ok,
    ensures
        parse_c_rec(toks, i, d, c, j)->Ok_0.1 is Compute,
    decreases toks.len() - i,
{
    if 0 <= i < toks.len() {
        if kind_at(toks, i + 1, TOKENTYPE::EQUAL) {
            lemma_parse_c_rec_compute(toks, i + 2, Some(toks[i].0), c, j);
        } else if toks[i].1 != TOKENTYPE::SEMICOLON {
            lemma_parse_c_rec_compute(toks, i + 1, d, Some(toks[i].0), j);
        } else if kind_at(toks, i + 1, TOKENTYPE::SYMBOL) {
            lemma_parse_c_rec_compute(toks, i + 2, d, c, Some(toks[i + 1].0));
        }
    }
}

/// A label that parses is never a predefined symbol.
pub proof fn lemma_parsed_label_not_predefined(toks: Seq<TokenView>, i: int, l: Seq<char>)
    requires
        parse_spec(toks, i) is Ok,
        parse_spec(toks, i)->Ok_0.1 == Parsed::Label(l),
    ensures
        predefined_value(l) is None,
{
    if 0 <= i < toks.len() && toks[i].1 != TOKENTYPE::AT && toks[i].1 != TOKENTYPE::LEFTBRACE {
        lemma_parse_c_rec_compute(toks, i, None, None, None);
    }
}

/// A computation outside the computation table stops a compute command at
/// parse time, whatever was read before it.
pub proof fn lemma_unlisted_computation_rejected(
    toks: Seq<TokenView>,
    i: int,
    d: Option<Seq<char>>,
    c: Option<Seq<char>>,
    j: Option<Seq<char>>,
)
    requires
        0 <= i < toks.len(),
        !kind_at(toks, i + 1, TOKENTYPE::EQUAL),
        toks[i].1 != TOKENTYPE::SEMICOLON,
        comp_kind(toks[i].1),
        comp_code(toks[i].0) is None,
    ensures
        parse_c_rec(toks, i, d, c, j) == Err::<(int, Parsed), ErrorKind>(ErrorKind::UndefinedMnemonic),
{
}

/// A predefined symbol in the place of a label stops a label command at
/// parse time.
pub proof fn lemma_reserved_label_rejected(toks: Seq<TokenView>, i: int)
    requires
        kind_at(toks, i, TOKENTYPE::LEFTBRACE),
        kind_at(toks, i + 1, TOKENTYPE::SYMBOL),
        predefined_value(toks[i + 1].0) is Some,
    ensures
        parse_l(toks, i) == Err::<(int, Parsed), ErrorKind>(ErrorKind::ReservedLabel),
        parse_spec(toks, i) == Err::<(int, Parsed), ErrorKind>(ErrorKind::ReservedLabel),
{
}

/// The tokens of one line, a cursor into them, and where the line came from.
#[derive(Debug)]
pub struct ParserArg {
    pub tokens: Vec<Token>,
    pub index: usize,
    pub content: String,
    pub line_num: usize,
}

impl ParserArg {
    /// The views of the tokens.
    pub open spec fn toks(&self) -> Seq<TokenView> {
        token_views(self.tokens@)
    }

    /// `other` is about the same line, with the same tokens.
    pub open spec fn same_line(&self, other: &ParserArg) -> bool {
        &&& self.tokens@ == other.tokens@
        &&& self.content@ == other.content@
        &&& self.line_num == other.line_num
    }

    /// Whether `e` reports an error of kind `kind` on this line.
    pub open spec fn reports(&self, e: HackError, kind: ErrorKind) -> bool {
        &&& e.kind == kind
        &&& e.source_line_num == Some(self.line_num)
        &&& e.source_line is Some
        &&& e.source_line->0@ == self.content@
        &&& e.comment@.len() > 0
    }

    /// A cursor at the first of `tokens`, on line `line_num` whose text is
    /// `content`.
    pub fn new(tokens: Vec<Token>, content: &str, line_num: usize) -> (r: ParserArg)
        ensures
            r.tokens@ == tokens@,
            r.index == 0,
            r.content@ == content@,
            r.line_num == line_num,
    {
        ParserArg { tokens, index: 0, content: String::from_str(content), line_num }
    }

    /// Moves the cursor one token on.
    pub fn advance(&mut self)
        requires
            old(self).index < old(self).tokens@.len(),
        ensures
            final(self).index == old(self).index + 1,
            final(self).same_line(old(self)),
    {
        let n = self.tokens.len();
        assert(self.index < n);
        self.index = self.index + 1;
    }

    /// The number of the line.
    pub fn line_num(&self) -> (r: usize)
        ensures
            r == self.line_num,
    {
        self.line_num
    }

    /// An error of kind `kind` on this line.
    fn fail(&self, kind: ErrorKind, comment: &str) -> (r: HackError)
        ensures
            self.reports(r, kind),
    {
        HackError::on_line(self.line_num, self.content.as_str(), kind, String::from_str(comment))
    }

    /// Whether the token at the cursor is of kind `kind`.
    fn at_kind(&self, kind: TOKENTYPE) -> (r: bool)
        ensures
            r == kind_at(self.toks(), self.index as int, kind),
    {
        self.index < self.tokens.len() && self.tokens[self.index].token_type == kind
    }
}

/// What one parse leaves behind.
#[derive(Debug)]
pub struct ParserResult {
    pub t: Option<CommandType>,
    pub lr: Option<LCmdResult>,
    pub cr: Option<CCmdResult>,
    pub ar: Option<ACmdResult>,
}

impl ParserResult {
    /// Whether this holds the command `p`, and nothing else.
    pub open spec fn holds(&self, p: Parsed) -> bool {
        match p {
            Parsed::Address(v) => {
                &&& self.t == Some(CommandType::ACommand)
                &&& self.ar is Some && self.ar->0.value@ == v
                &&& self.lr is None && self.cr is None
            },
            Parsed::Compute(d, c, j) => {
                &&& self.t == Some(CommandType::CCommand)
                &&& self.cr is Some
                &&& opt_view(self.cr->0.dest) == d
                &&& opt_view(self.cr->0.comp) == c
                &&& opt_view(self.cr->0.jump) == j
                &&& self.lr is None && self.ar is None
            },
            Parsed::Label(l) => {
                &&& self.t == Some(CommandType::LCommand)
                &&& self.lr is Some && self.lr->0.label@ == l
                &&& self.cr is None && self.ar is None
            },
        }
    }

    /// Forgets the command held, keeping its shape.
    pub fn clear(&mut self)
        ensures
            final(self).t == old(self).t,
            final(self).lr is None,
            final(self).cr is None,
            final(self).ar is None,
    {
        self.lr = None;
        self.cr = None;
        self.ar = None;
    }
}

/// A recursive-descent parser over the tokens of one line, together with
/// the symbols bound so far and the next free variable address.
pub struct Parser {
    pub map: SymbolTable,
    pub varmem: usize,
    pub result: ParserResult,
}

/// How a parse that is specified by `s` ended: the cursor and the result
/// where it succeeded; where it failed, the error, with the cursor and the
/// result left as they were.
pub open spec fn settled(
    r: Result<(), HackError>,
    s: Result<(int, Parsed), ErrorKind>,
    before: ParserArg,
    after: ParserArg,
    result_before: ParserResult,
    result: ParserResult,
) -> bool {
    &&& after.same_line(&before)
    &&& match s {
        Ok((k, p)) => r is Ok && after.index == k && result.holds(p),
        Err(kind) => {
            &&& r is Err
            &&& before.reports(r->Err_0, kind)
            &&& after.index == before.index
            &&& result == result_before
        },
    }
}

impl Parser {
    /// A parser with no symbols bound, whose first variable goes to 16.
    pub fn new() -> (r: Parser)
        ensures
            r.map.wf(),
            r.map@ == Map::<Seq<char>, usize>::empty(),
            r.varmem == 16,
            r.result.t is None && r.result.lr is None && r.result.cr is None && r.result.ar is None,
    {
        Parser {
            map: SymbolTable::new(),
            varmem: FIRST_VARIABLE,
            result: ParserResult { t: None, lr: None, cr: None, ar: None },
        }
    }

    /// Parses the command at the cursor, its shape told by its first token.
    pub fn parse_command(&mut self, parg: &mut ParserArg) -> (r: Result<(), HackError>)
        ensures
            final(self).map == old(self).map,
            final(self).varmem == old(self).varmem,
            settled(r, parse_spec(old(parg).toks(), old(parg).index as int), *old(parg), *final(parg), old(self).result, final(self).result),
    {
        if parg.index >= parg.tokens.len() {
            return Err(parg.fail(ErrorKind::UnexpectedToken, "Expected a command, but the line ended"));
        }
        match parg.tokens[parg.index].token_type {
            TOKENTYPE::AT => self.expect_a_command(parg),
            TOKENTYPE::LEFTBRACE => self.expect_l_command(parg),
            _ => self.expect_c_command(parg),
        }
    }

    /// Moves past a token of kind `kind` at the cursor.
    fn expect_kind(parg: &mut ParserArg, kind: TOKENTYPE) -> (r: Result<(), HackError>)
        ensures
            final(parg).same_line(old(parg)),
            kind_at(old(parg).toks(), old(parg).index as int, kind) ==> r is Ok && final(parg).index == old(parg).index + 1,
            !kind_at(old(parg).toks(), old(parg).index as int, kind) ==> r is Err && old(parg).reports(r->Err_0, ErrorKind::UnexpectedToken),
            r is Err ==> final(parg).index == old(parg).index,
    {
        if parg.at_kind(kind) {
            parg.advance();
            Ok(())
        } else {
            Err(parg.fail(ErrorKind::UnexpectedToken, "Unexpected token"))
        }
    }

    /// Parses a label command: `(`, a label that is not predefined, `)`.
    pub fn expect_l_command(&mut self, parg: &mut ParserArg) -> (r: Result<(), HackError>)
        ensures
            final(self).map == old(self).map,
            final(self).varmem == old(self).varmem,
            settled(r, parse_l(old(parg).toks(), old(parg).index as int), *old(parg), *final(parg), old(self).result, final(self).result),
    {
        let start = parg.index;
        let checked = match Parser::expect_kind(parg, TOKENTYPE::LEFTBRACE) {
            Ok(()) => match Parser::expect_symbol_vl(parg) {
                Ok(()) => Parser::expect_kind(parg, TOKENTYPE::RIGHTBRACE),
                Err(e) => Err(e),
            },
            Err(e) => Err(e),
        };
        if let Err(e) = checked {
            parg.index = start;
            return Err(e);
        }
        let label = parg.tokens[start + 1].repr.as_str();
        self.result.clear();
        self.result.t = Some(CommandType::LCommand);
        self.result.lr = Some(LCmdResult { label: String::from_str(label) });
        Ok(())
    }

    /// Parses a compute command from the cursor; it must have a computation.
    pub fn expect_c_command(&mut self, parg: &mut ParserArg) -> (r: Result<(), HackError>)
        ensures
            final(self).map == old(self).map,
            final(self).varmem == old(self).varmem,
            settled(r, parse_c(old(parg).toks(), old(parg).index as int), *old(parg), *final(parg), old(self).result, final(self).result),
    {
        let start = parg.index;
        let mut saved = Some(CCmdResult { dest: None, comp: None, jump: None });
        std::mem::swap(&mut self.result.cr, &mut saved);
        if let Err(e) = self.expect_c_command_rec(parg) {
            std::mem::swap(&mut self.result.cr, &mut saved);
            return Err(e);
        }
        let has_comp = match &self.result.cr {
            Some(c) => c.comp.is_some(),
            None => false,
        };
        if !has_comp {
            std::mem::swap(&mut self.result.cr, &mut saved);
            let e = parg.fail(ErrorKind::MissingComputation, "A compute command needs a computation");
            parg.index = start;
            return Err(e);
        }
        self.result.t = Some(CommandType::CCommand);
        self.result.lr = None;
        self.result.ar = None;
        Ok(())
    }

    /// Reads the rest of a compute command, one production at a time, into
    /// the compute command held.
    pub fn expect_c_command_rec(&mut self, parg: &mut ParserArg) -> (r: Result<(), HackError>)
        requires
            old(self).result.cr is Some,
        ensures
            final(self).map == old(self).map,
            final(self).varmem == old(self).varmem,
            final(parg).same_line(old(parg)),
            final(self).result.t == old(self).result.t,
            final(self).result.lr == old(self).result.lr,
            final(self).result.ar == old(self).result.ar,
            final(self).result.cr is Some,
            r is Err ==> final(parg).index == old(parg).index && final(self).result == old(self).result,
            match parse_c_rec(
                old(parg).toks(),
                old(parg).index as int,
                opt_view(old(self).result.cr->0.dest),
                opt_view(old(self).result.cr->0.comp),
                opt_view(old(self).result.cr->0.jump),
            ) {
                Ok((k, Parsed::Compute(d, c, j))) => r is Ok && final(parg).index == k
                    && opt_view(final(self).result.cr->0.dest) == d
                    && opt_view(final(self).result.cr->0.comp) == c
                    && opt_view(final(self).result.cr->0.jump) == j,
                Ok(_) => false,
                Err(kind) => r is Err && old(parg).reports(r->Err_0, kind),
            },
    {
        let ghost toks = parg.toks();
        let ghost spec = parse_c_rec(
            toks,
            parg.index as int,
            opt_view(self.result.cr->0.dest),
            opt_view(self.result.cr->0.comp),
            opt_view(self.result.cr->0.jump),
        );
        let (mut dest, mut comp, mut jump) = match &self.result.cr {
            Some(c) => (copy_text(&c.dest), copy_text(&c.comp), copy_text(&c.jump)),
            None => (None, None, None),
        };
        let len = parg.tokens.len();
        let start = parg.index;
        let mut failure: Option<HackError> = None;
        loop
            invariant_except_break
                spec == parse_c_rec(toks, parg.index as int, opt_view(dest), opt_view(comp), opt_view(jump)),
                failure is None,
            invariant
                parg.same_line(old(parg)),
                toks == parg.toks(),
                len == parg.tokens@.len(),
                self.result == old(self).result,
                self.map == old(self).map,
                self.varmem == old(self).varmem,
                old(self).result.cr is Some,
            ensures
                parg.same_line(old(parg)),
                self.result == old(self).result,
                self.map == old(self).map,
                self.varmem == old(self).varmem,
                failure is None ==> spec == Ok::<(int, Parsed), ErrorKind>((parg.index as int, Parsed::Compute(opt_view(dest), opt_view(comp), opt_view(jump)))),
                failure matches Some(e) ==> spec == Err::<(int, Parsed), ErrorKind>(e.kind) && parg.reports(e, e.kind),
            decreases len - parg.index,
        {
            let i = parg.index;
            if i >= len {
                break;
            }
            if i + 1 < len && parg.tokens[i + 1].token_type == TOKENTYPE::EQUAL {
                let t = &parg.tokens[i];
                if t.token_type != TOKENTYPE::SYMBOL {
                    failure = Some(parg.fail(ErrorKind::UnexpectedToken, "Expected a destination"));
                    break;
                }
                if lookup_dest(t.repr.as_str()).is_none() {
                    failure = Some(parg.fail(ErrorKind::UndefinedMnemonic, "Destination is not defined in table DEST"));
                    break;
                }
                dest = Some(String::from_str(t.repr.as_str()));
                parg.advance();
                parg.advance();
            } else if parg.tokens[i].token_type == TOKENTYPE::SEMICOLON {
                if !(i + 1 < len && parg.tokens[i + 1].token_type == TOKENTYPE::SYMBOL) {
                    failure = Some(parg.fail(ErrorKind::UnexpectedToken, "Expected a jump"));
                    break;
                }
                let t = &parg.tokens[i + 1];
                if lookup_jump(t.repr.as_str()).is_none() {
                    failure = Some(parg.fail(ErrorKind::UndefinedMnemonic, "Jump is not defined in table JUMP"));
                    break;
                }
                jump = Some(String::from_str(t.repr.as_str()));
                parg.advance();
                parg.advance();
            } else {
                let t = &parg.tokens[i];
                if !(t.token_type == TOKENTYPE::EXPRESSION || t.token_type == TOKENTYPE::SYMBOL || t.token_type == TOKENTYPE::NUMBER) {
                    failure = Some(parg.fail(ErrorKind::UnexpectedToken, "Expected a computation"));
                    break;
                }
                if lookup_comp(t.repr.as_str()).is_none() {
                    failure = Some(parg.fail(ErrorKind::UndefinedMnemonic, "Computation is not defined in table COMP"));
                    break;
                }
                comp = Some(String::from_str(t.repr.as_str()));
                parg.advance();
            }
        }
        assert(spec == parse_c_rec(
            old(parg).toks(),
            old(parg).index as int,
            opt_view(old(self).result.cr->0.dest),
            opt_view(old(self).result.cr->0.comp),
            opt_view(old(self).result.cr->0.jump),
        ));
        match failure {
            Some(e) => {
                assert(old(parg).reports(e, e.kind));
                parg.index = start;
                Err(e)
            },
            None => {
                self.result.cr = Some(CCmdResult { dest, comp, jump });
                Ok(())
            },
        }
    }

    /// Parses an address command: `@`, then a number or a symbol.
    pub fn expect_a_command(&mut self, parg: &mut ParserArg) -> (r: Result<(), HackError>)
        ensures
            final(self).map == old(self).map,
            final(self).varmem == old(self).varmem,
            settled(r, parse_a(old(parg).toks(), old(parg).index as int), *old(parg), *final(parg), old(self).result, final(self).result),
    {
        if parg.index >= parg.tokens.len() {
            return Err(parg.fail(ErrorKind::IllegalAddress, "Illegal A command"));
        }
        let start = parg.index;
        parg.advance();
        if parg.at_kind(TOKENTYPE::NUMBER) {
            self.expect_number(parg)
        } else if parg.at_kind(TOKENTYPE::SYMBOL) {
            self.expect_symbol_va(parg)
        } else {
            let e = parg.fail(ErrorKind::IllegalAddress, "Illegal A command");
            parg.index = start;
            Err(e)
        }
    }

    /// Reads a number at the cursor as the value of an address command.
    pub fn expect_number(&mut self, parg: &mut ParserArg) -> (r: Result<(), HackError>)
        ensures
            final(self).map == old(self).map,
            final(self).varmem == old(self).varmem,
            settled(r, parse_value(old(parg).toks(), old(parg).index as int, TOKENTYPE::NUMBER), *old(parg), *final(parg), old(self).result, final(self).result),
    {
        self.expect_value(parg, TOKENTYPE::NUMBER)
    }

    /// Reads a symbol at the cursor as the value of an address command.
    pub fn expect_symbol_va(&mut self, parg: &mut ParserArg) -> (r: Result<(), HackError>)
        ensures
            final(self).map == old(self).map,
            final(self).varmem == old(self).varmem,
            settled(r, parse_value(old(parg).toks(), old(parg).index as int, TOKENTYPE::SYMBOL), *old(parg), *final(parg), old(self).result, final(self).result),
    {
        self.expect_value(parg, TOKENTYPE::SYMBOL)
    }

    fn expect_value(&mut self, parg: &mut ParserArg, kind: TOKENTYPE) -> (r: Result<(), HackError>)
        ensures
            final(self).map == old(self).map,
            final(self).varmem == old(self).varmem,
            settled(r, parse_value(old(parg).toks(), old(parg).index as int, kind), *old(parg), *final(parg), old(self).result, final(self).result),
    {
        if !parg.at_kind(kind) {
            return Err(parg.fail(ErrorKind::UnexpectedToken, "Expected the value of an A command"));
        }
        let value = String::from_str(parg.tokens[parg.index].repr.as_str());
        self.result.clear();
        self.result.t = Some(CommandType::ACommand);
        self.result.ar = Some(ACmdResult { value });
        parg.advance();
        Ok(())
    }

    /// Moves past a label at the cursor: a symbol that is not predefined.
    pub fn expect_symbol_vl(parg: &mut ParserArg) -> (r: Result<(), HackError>)
        ensures
            final(parg).same_line(old(parg)),
            match parse_label_name(old(parg).toks(), old(parg).index as int) {
                Ok(k) => r is Ok && final(parg).index == k,
                Err(kind) => r is Err && old(parg).reports(r->Err_0, kind),
            },
            r is Err ==> final(parg).index == old(parg).index,
    {
        if !parg.at_kind(TOKENTYPE::SYMBOL) {
            return Err(parg.fail(ErrorKind::UnexpectedToken, "No label found"));
        }
        if lookup_predefined(parg.tokens[parg.index].repr.as_str()).is_some() {
            return Err(parg.fail(ErrorKind::ReservedLabel, "Using reserved keyword as label is not allowed"));
        }
        parg.advance();
        Ok(())
    }
}

} // verus!
