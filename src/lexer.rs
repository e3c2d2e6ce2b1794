use vstd::prelude::*;
use crate::base::{token_views, CommandType, TOKENTYPE, Token, TokenView};
use crate::coder::is_decimal;
use crate::error::{ErrorKind, HackError};
use crate::strutil::{
    find_str, first_occurrence, falls_within, is_blank, is_white, split_words, trim, trim_end,
    trim_start, trimmed, words, Strutil,
};

verus! {

/// The pattern of a number token: decimal digits only.
pub const NUMBER_PATTERN: &'static str = "^\\d+$";

/// The pattern of a symbol token: a letter or underscore, then letters,
/// digits and underscores.
pub const SYMBOL_PATTERN: &'static str = "^[_[:alpha:]]+[_0-9A-Za-z]*$";

/// Whether the regular expression `pattern` matches somewhere in `text`.
pub uninterp spec fn regex_accepts(pattern: Seq<char>, text: Seq<char>) -> bool;

/// Whether `c` is an ASCII letter.
pub open spec fn is_ascii_letter(c: char) -> bool {
    ('a' <= c && c <= 'z') || ('A' <= c && c <= 'Z')
}

/// Whether `c` is an ASCII character that is not a decimal digit.
pub open spec fn is_ascii_non_digit(c: char) -> bool {
    (c as u32) < 128 && !('0' <= c && c <= '9')
}

/// Whether `s` is an identifier: a letter or underscore, then letters,
/// digits and underscores, all ASCII.
pub open spec fn is_identifier(s: Seq<char>) -> bool {
    &&& s.len() > 0
    &&& is_ascii_letter(s[0]) || s[0] == '_'
    &&& forall|i: int|
        1 <= i < s.len() ==> is_ascii_letter(#[trigger] s[i]) || ('0' <= s[i] && s[i] <= '9')
            || s[i] == '_'
}

/// Relies on regex::Regex::new, which compiles each of the two token
/// patterns (both are valid in the crate's documented syntax: `\d`, `^`,
/// `$`, the ASCII class `[:alpha:]` inside a bracket class), and on
/// regex::Regex::is_match, which tells whether the compiled expression
/// matches somewhere in `text`. Anchored at both ends, the symbol pattern
/// matches exactly the identifiers; the number pattern (`\d` being any
/// Unicode decimal digit) matches every non-empty run of ASCII digits, and
/// no text that is empty or holds an ASCII character other than a digit.
#[verifier::external_body]
fn pattern_matches(pattern: &str, text: &str) -> (r: bool)
    requires
        pattern@ == NUMBER_PATTERN@ || pattern@ == SYMBOL_PATTERN@,
    ensures
        r == regex_accepts(pattern@, text@),
        pattern@ == SYMBOL_PATTERN@ ==> (r <==> is_identifier(text@)),
        pattern@ == NUMBER_PATTERN@ && is_decimal(text@) ==> r,
        pattern@ == NUMBER_PATTERN@ && (text@.len() == 0 || exists|i: int|
            0 <= i < text@.len() && is_ascii_non_digit(#[trigger] text@[i])) ==> !r,
{
    match regex::Regex::new(pattern) {
        Ok(re) => re.is_match(text),
        Err(_) => false,
    }
}

/// The kind of token a piece of text is, given whether it is a number and
/// whether it is a symbol.
pub open spec fn kind_from(is_number: bool, is_symbol: bool) -> TOKENTYPE {
    if is_number {
        TOKENTYPE::NUMBER
    } else if is_symbol {
        TOKENTYPE::SYMBOL
    } else {
        TOKENTYPE::EXPRESSION
    }
}

/// The kind of token `s` is: a number, else a symbol, else an expression.
pub open spec fn classification(s: Seq<char>) -> TOKENTYPE {
    kind_from(regex_accepts(NUMBER_PATTERN@, s), regex_accepts(SYMBOL_PATTERN@, s))
}

/// The tokens of a sequence of pieces, each classified on its own.
pub open spec fn classify_all(ws: Seq<Seq<char>>) -> Seq<TokenView> {
    Seq::new(ws.len(), |i: int| (ws[i], classification(ws[i])))
}

/// The tokens of the whitespace-separated pieces of `s`.
pub open spec fn classify_words(s: Seq<char>) -> Seq<TokenView> {
    classify_all(words(s))
}

/// `e` split around the first occurrence of `mark`, where that occurrence
/// lies strictly inside `e`.
pub open spec fn split_marker(e: Seq<char>, mark: Seq<char>) -> Option<(Seq<char>, Seq<char>)> {
    if falls_within(e, mark) {
        let k = choose|k: int| first_occurrence(e, mark, k);
        Some((e.take(k), e.skip(k + mark.len())))
    } else {
        None
    }
}

/// The tokens of the part of a compute command that follows its
/// destination: computation, then `;` and jump where the line has one.
pub open spec fn jump_part_tokens(e: Seq<char>) -> Seq<TokenView> {
    match split_marker(e, ";"@) {
        Some((comp, jump)) => classify_words(comp).push((";"@, TOKENTYPE::SEMICOLON))
            + classify_words(jump),
        None => classify_words(e),
    }
}

/// The tokens of a compute command: destination and `=` where the line has
/// them, then the rest.
pub open spec fn compute_tokens(e: Seq<char>) -> Seq<TokenView> {
    match split_marker(e, "="@) {
        Some((dest, rest)) => classify_words(dest).push(("="@, TOKENTYPE::EQUAL))
            + jump_part_tokens(rest),
        None => jump_part_tokens(e),
    }
}

/// What lexing a trimmed, non-empty line gives: its tokens and its shape.
pub open spec fn lex_trimmed(e: Seq<char>) -> (Seq<TokenView>, CommandType) {
    if e[0] == '@' {
        (seq![("@"@, TOKENTYPE::AT)] + classify_words(e.drop_first()), CommandType::ACommand)
    } else if e[0] == '(' && e.last() == ')' {
        (
            seq![("("@, TOKENTYPE::LEFTBRACE)] + classify_words(e.subrange(1, e.len() - 1))
                + seq![(")"@, TOKENTYPE::RIGHTBRACE)],
            CommandType::LCommand,
        )
    } else {
        (compute_tokens(e), CommandType::CCommand)
    }
}

/// What lexing a line gives: its tokens and its shape, or the error.
pub open spec fn lex_line(line: Seq<char>) -> Result<(Seq<TokenView>, CommandType), ErrorKind> {
    if is_blank(line) {
        Err(ErrorKind::EmptyLine)
    } else {
        Ok(lex_trimmed(trimmed(line)))
    }
}

proof fn lemma_trim_start(s: Seq<char>)
    ensures
        is_blank(s) <==> trim_start(s).len() == 0,
        trim_start(s).len() > 0 ==> !is_white(trim_start(s)[0]),
    decreases s.len(),
{
    if s.len() > 0 && is_white(s[0]) {
        let t = s.drop_first();
        lemma_trim_start(t);
        if is_blank(t) {
            assert forall|i: int| 0 <= i < s.len() implies is_white(#[trigger] s[i]) by {
                if i > 0 {
                    assert(s[i] == t[i - 1]);
                }
            }
        }
        if is_blank(s) {
            assert forall|i: int| 0 <= i < t.len() implies is_white(#[trigger] t[i]) by {
                assert(t[i] == s[i + 1]);
            }
        }
    } else if s.len() > 0 {
        assert(!is_white(s[0]));
    }
}

proof fn lemma_trim_end(s: Seq<char>)
    requires
        s.len() > 0,
        !is_white(s[0]),
    ensures
        trim_end(s).len() > 0,
        trim_end(s)[0] == s[0],
    decreases s.len(),
{
    if is_white(s.last()) {
        lemma_trim_end(s.drop_last());
    }
}

/// A line that is not blank keeps a first character after trimming, and
/// that character is not whitespace.
pub proof fn lemma_trimmed_nonblank(s: Seq<char>)
    requires
        !is_blank(s),
    ensures
        trimmed(s).len() > 0,
        !is_white(trimmed(s)[0]),
{
    lemma_trim_start(s);
    lemma_trim_end(trim_start(s));
}

/// The first occurrence of a text is unique.
pub proof fn lemma_first_occurrence_unique(e: Seq<char>, mark: Seq<char>, i: int, j: int)
    requires
        first_occurrence(e, mark, i),
        first_occurrence(e, mark, j),
    ensures
        i == j,
{
}

/// Splits `e` around the first occurrence of the one-character `mark`, where
/// that occurrence lies strictly inside `e`.
fn split_at_marker<'a>(e: &'a str, mark: &str) -> (r: Option<(&'a str, &'a str)>)
    requires
        mark@.len() == 1,
    ensures
        r matches Some((a, b)) ==> split_marker(e@, mark@) == Some((a@, b@)),
        r is None ==> split_marker(e@, mark@) is None,
{
    if !Strutil::fall_within(e, mark) {
        return None;
    }
    match find_str(e, mark) {
        Some(k) => {
            proof {
                let c = choose|c: int| first_occurrence(e@, mark@, c);
                lemma_first_occurrence_unique(e@, mark@, k as int, c);
            }
            let n = e.unicode_len();
            Some((e.substring_char(0, k), e.substring_char(k + 1, n)))
        },
        None => None,
    }
}

/// Turns lines of source text into tokens.
#[derive(Debug)]
pub struct Lexer {
    pub tokens: Vec<Token>,
    pub cmd_type: Option<CommandType>,
}

impl Lexer {
    /// A lexer that holds no tokens yet.
    pub fn new() -> (r: Lexer)
        ensures
            r.tokens@.len() == 0,
            r.cmd_type is None,
    {
        Lexer { tokens: Vec::new(), cmd_type: None }
    }

    /// Lexes one line: the tokens of the line and its shape replace what
    /// the lexer held. Only a blank line fails, and leaves the lexer empty.
    pub fn set(&mut self, expr: &str) -> (r: Result<(), HackError>)
        ensures
            r is Ok <==> !is_blank(expr@),
            r is Ok ==> lex_line(expr@) == Ok::<_, ErrorKind>(
                (token_views(final(self).tokens@), final(self).cmd_type->0),
            ),
            r is Ok ==> final(self).cmd_type is Some,
            r matches Err(e) ==> e.kind == ErrorKind::EmptyLine && e.comment@.len() > 0,
            r is Err ==> final(self).tokens@.len() == 0 && final(self).cmd_type is None,
    {
        self.tokens = Vec::new();
        self.cmd_type = None;
        if Lexer::is_empty_line(expr) {
            return Err(HackError::lineless(ErrorKind::EmptyLine, "Empty line"));
        }
        let e = trim(expr);
        proof {
            lemma_trimmed_nonblank(expr@);
        }
        let n = e.unicode_len();
        let first = e.get_char(0);
        if first == '@' {
            self.cmd_type = Some(CommandType::ACommand);
            self.tokens.push(Token::from_text("@", TOKENTYPE::AT));
            let rest = e.substring_char(1, n);
            assert(rest@ =~= e@.drop_first());
            Lexer::add_tokens(&mut self.tokens, rest)?;
            assert(token_views(self.tokens@) =~= seq![("@"@, TOKENTYPE::AT)] + classify_words(
                e@.drop_first(),
            ));
            assert(lex_trimmed(e@) == (token_views(self.tokens@), CommandType::ACommand));
            Ok(())
        } else if first == '(' && e.get_char(n - 1) == ')' {
            self.cmd_type = Some(CommandType::LCommand);
            self.tokens.push(Token::from_text("(", TOKENTYPE::LEFTBRACE));
            let inner = e.substring_char(1, n - 1);
            Lexer::add_tokens(&mut self.tokens, inner)?;
            let ghost mid = self.tokens@;
            self.tokens.push(Token::from_text(")", TOKENTYPE::RIGHTBRACE));
            proof {
                assert(token_views(mid) =~= seq![("("@, TOKENTYPE::LEFTBRACE)] + classify_words(
                    e@.subrange(1, n - 1),
                ));
                assert(token_views(self.tokens@) =~= token_views(mid).push(
                    (")"@, TOKENTYPE::RIGHTBRACE),
                ));
                assert(e@.last() == ')');
                assert(lex_trimmed(e@) == (token_views(self.tokens@), CommandType::LCommand));
            }
            Ok(())
        } else {
            self.cmd_type = Some(CommandType::CCommand);
            let mut rest: &str = e;
            proof {
                reveal_strlit("=");
                reveal_strlit(";");
            }
            match split_at_marker(e, "=") {
                Some((dest, after)) => {
                    Lexer::add_tokens(&mut self.tokens, dest)?;
                    let ghost prev = self.tokens@;
                    self.tokens.push(Token::from_text("=", TOKENTYPE::EQUAL));
                    assert(token_views(self.tokens@) =~= token_views(prev).push(
                        ("="@, TOKENTYPE::EQUAL),
                    ));
                    assert(token_views(prev) =~= classify_words(dest@));
                    rest = after;
                },
                None => {
                    assert(token_views(self.tokens@) =~= seq![]);
                },
            }
            let ghost d = token_views(self.tokens@);
            assert(compute_tokens(e@) =~= d + jump_part_tokens(rest@));
            let ghost rest1 = rest@;
            let ghost c: Seq<TokenView> = seq![];
            match split_at_marker(rest, ";") {
                Some((comp, jump)) => {
                    Lexer::add_tokens(&mut self.tokens, comp)?;
                    let ghost prev = self.tokens@;
                    self.tokens.push(Token::from_text(";", TOKENTYPE::SEMICOLON));
                    proof {
                        c = classify_words(comp@).push((";"@, TOKENTYPE::SEMICOLON));
                        assert(token_views(self.tokens@) =~= token_views(prev).push(
                            (";"@, TOKENTYPE::SEMICOLON),
                        ));
                        assert(token_views(self.tokens@) =~= d + c);
                    }
                    rest = jump;
                },
                None => {
                    assert(token_views(self.tokens@) =~= d + c);
                },
            }
            assert(jump_part_tokens(rest1) =~= c + classify_words(rest@));
            Lexer::add_tokens(&mut self.tokens, rest)?;
            assert(token_views(self.tokens@) =~= d + (c + classify_words(rest@)));
            assert(compute_tokens(e@) == token_views(self.tokens@));
            assert(lex_trimmed(e@) == (token_views(self.tokens@), CommandType::CCommand));
            Ok(())
        }
    }

    /// Appends to `v` the tokens of the whitespace-separated pieces of `s`.
    pub fn add_tokens(v: &mut Vec<Token>, s: &str) -> (r: Result<(), HackError>)
        ensures
            r is Ok,
            token_views(final(v)@) == token_views(old(v)@) + classify_words(s@),
    {
        let subs = split_words(s);
        let ghost ws = words(s@);
        let ghost start = v@;
        let mut i: usize = 0;
        assert(token_views(v@) =~= token_views(start) + classify_all(ws.take(0)));
        while i < subs.len()
            invariant
                subs@.len() == ws.len(),
                forall|k: int| 0 <= k < subs@.len() ==> (#[trigger] subs@[k])@ == ws[k],
                ws == words(s@),
                i <= subs@.len(),
                token_views(v@) == token_views(start) + classify_all(ws.take(i as int)),
            decreases subs@.len() - i,
        {
            let piece = subs[i];
            let t = Lexer::classify(piece)?;
            let ghost prev = v@;
            v.push(t);
            proof {
                assert(token_views(v@) =~= token_views(prev).push(t.view()));
                assert(token_views(v@) =~= token_views(start) + classify_all(ws.take(i + 1)));
            }
            i = i + 1;
        }
        assert(ws.take(i as int) =~= ws);
        Ok(())
    }

    /// Whether the line holds nothing but whitespace.
    pub fn is_empty_line(s: &str) -> (r: bool)
        ensures
            r == is_blank(s@),
    {
        Strutil::empty_line(s)
    }

    /// The token `s` makes, given whether it is a number and whether it is
    /// a symbol.
    pub fn classify_by(s: &str, is_number: bool, is_symbol: bool) -> (r: Token)
        ensures
            r.view() == (s@, kind_from(is_number, is_symbol)),
    {
        let kind = if is_number {
            TOKENTYPE::NUMBER
        } else if is_symbol {
            TOKENTYPE::SYMBOL
        } else {
            TOKENTYPE::EXPRESSION
        };
        Token::from_text(s, kind)
    }

    /// The token that one whitespace-free piece of text makes: a number if
    /// it is all digits, else a symbol if it is an identifier, else an
    /// expression.
    pub fn classify(s: &str) -> (r: Result<Token, HackError>)
        ensures
            r matches Ok(t) && t.view() == (s@, classification(s@)),
            is_decimal(s@) ==> classification(s@) == TOKENTYPE::NUMBER,
            is_identifier(s@) ==> classification(s@) == TOKENTYPE::SYMBOL,
            !is_identifier(s@) && (exists|i: int|
                0 <= i < s@.len() && is_ascii_non_digit(#[trigger] s@[i])) ==> classification(s@)
                == TOKENTYPE::EXPRESSION,
    {
        proof {
            if is_identifier(s@) {
                assert(is_ascii_non_digit(s@[0]));
            }
        }
        if pattern_matches(NUMBER_PATTERN, s) {
            return Ok(Lexer::classify_by(s, true, false));
        }
        let is_symbol = pattern_matches(SYMBOL_PATTERN, s);
        Ok(Lexer::classify_by(s, false, is_symbol))
    }
}

} // verus!
