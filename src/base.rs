use vstd::prelude::*;

verus! {

/// The three shapes a source line can take.
#[derive(PartialEq, Eq, Structural, Debug, Clone, Copy)]
pub enum CommandType {
    ACommand,
    CCommand,
    LCommand,
}

/// The kinds of token the lexer produces.
#[allow(non_camel_case_types, clippy::upper_case_acronyms)]
#[derive(PartialEq, Eq, Structural, Debug, Clone, Copy)]
pub enum TOKENTYPE {
    AT,
    NUMBER,
    SYMBOL,
    LEFTBRACE,
    RIGHTBRACE,
    EQUAL,
    SEMICOLON,
    EXPRESSION,
}

/// One token: its text and its kind.
#[derive(PartialEq, Debug, Clone)]
pub struct Token {
    pub repr: String,
    pub token_type: TOKENTYPE,
}

/// A token as the specifications see it.
pub type TokenView = (Seq<char>, TOKENTYPE);

impl Token {
    pub open spec fn view(&self) -> TokenView {
        (self.repr@, self.token_type)
    }

    /// A token of kind `token_type` whose text is `repr`.
    pub fn from_text(repr: &str, token_type: TOKENTYPE) -> (r: Token)
        ensures
            r.view() == (repr@, token_type),
    {
        Token { repr: String::from_str(repr), token_type }
    }
}

/// The views of a sequence of tokens.
pub open spec fn token_views(ts: Seq<Token>) -> Seq<TokenView> {
    Seq::new(ts.len(), |i: int| ts[i].view())
}

/// Bookkeeping about one source line.
pub struct Command {
    pub lineno: Option<usize>,
    pub lineno_raw: Option<usize>,
    pub command_type: Option<CommandType>,
}

impl Command {
    /// A command about which nothing is known yet.
    pub fn new() -> (r: Command)
        ensures
            r.lineno is None,
            r.lineno_raw is None,
            r.command_type is None,
    {
        Command { lineno: None, lineno_raw: None, command_type: None }
    }
}

} // verus!
