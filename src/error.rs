use vstd::prelude::*;

verus! {

/// What went wrong while translating one line.
#[derive(PartialEq, Eq, Structural, Debug, Clone, Copy)]
pub enum ErrorKind {
    /// The line holds only whitespace.
    EmptyLine,
    /// A piece of a line that no token class accepts. Every piece is at
    /// least an expression, so the lexer never reports it.
    Lex,
    /// An address command without a number or a symbol after `@`.
    IllegalAddress,
    /// A token of another kind than the grammar asks for, or none at all.
    UnexpectedToken,
    /// A destination, computation or jump mnemonic outside its table.
    UndefinedMnemonic,
    /// A predefined symbol used as a label.
    ReservedLabel,
    /// A label defined a second time.
    DuplicateLabel,
    /// A compute command without a computation.
    MissingComputation,
    /// An address that does not fit in fifteen bits.
    AddressOutOfRange,
    /// Reading or writing failed.
    Io,
}

impl ErrorKind {
    /// A short name for this kind of error.
    pub fn name(&self) -> (r: &'static str)
        ensures
            r@.len() > 0,
    {
        match self {
            ErrorKind::EmptyLine => {
                proof {
                    reveal_strlit("Empty line");
                }
                "Empty line"
            },
            ErrorKind::Lex => {
                proof {
                    reveal_strlit("Lexical error");
                }
                "Lexical error"
            },
            ErrorKind::IllegalAddress => {
                proof {
                    reveal_strlit("Illegal address command");
                }
                "Illegal address command"
            },
            ErrorKind::UnexpectedToken => {
                proof {
                    reveal_strlit("Unexpected token");
                }
                "Unexpected token"
            },
            ErrorKind::UndefinedMnemonic => {
                proof {
                    reveal_strlit("Undefined mnemonic");
                }
                "Undefined mnemonic"
            },
            ErrorKind::ReservedLabel => {
                proof {
                    reveal_strlit("Reserved label");
                }
                "Reserved label"
            },
            ErrorKind::DuplicateLabel => {
                proof {
                    reveal_strlit("Duplicate label");
                }
                "Duplicate label"
            },
            ErrorKind::MissingComputation => {
                proof {
                    reveal_strlit("Missing computation");
                }
                "Missing computation"
            },
            ErrorKind::AddressOutOfRange => {
                proof {
                    reveal_strlit("Address out of range");
                }
                "Address out of range"
            },
            ErrorKind::Io => {
                proof {
                    reveal_strlit("I/O error");
                }
                "I/O error"
            },
        }
    }
}

/// The message of an error: the name of its kind, then the detail.
fn message(kind: ErrorKind, detail: &str) -> (r: String)
    ensures
        r@.len() > 0,
        r@.len() >= detail@.len(),
{
    let mut m = String::from_str(kind.name());
    proof {
        reveal_strlit(": ");
    }
    m.append(": ");
    m.append(detail);
    m
}

/// An error with the line it arose on, when there is one.
#[derive(Debug)]
pub struct HackError {
    pub source_line_num: Option<usize>,
    pub source_line: Option<String>,
    pub comment: String,
    pub kind: ErrorKind,
}

impl HackError {
    /// An error tied to line `num`, whose text is `line`; its message names
    /// its kind, then gives `comment`.
    pub fn on_line(num: usize, line: &str, kind: ErrorKind, comment: String) -> (r: HackError)
        ensures
            r.kind == kind,
            r.source_line_num == Some(num),
            r.source_line is Some && r.source_line->0@ == line@,
            r.comment@.len() > 0,
    {
        HackError {
            source_line_num: Some(num),
            source_line: Some(String::from_str(line)),
            comment: message(kind, comment.as_str()),
            kind,
        }
    }

    /// This error, tied to line `num`, whose text is `line`.
    pub fn at_line(self, num: usize, line: &str) -> (r: HackError)
        ensures
            r.kind == self.kind,
            r.source_line_num == Some(num),
            r.source_line is Some && r.source_line->0@ == line@,
            r.comment@ == self.comment@,
    {
        HackError {
            source_line_num: Some(num),
            source_line: Some(String::from_str(line)),
            comment: self.comment,
            kind: self.kind,
        }
    }

    /// An error that belongs to no particular line; its message names its
    /// kind, then gives `comment`.
    pub fn lineless(kind: ErrorKind, comment: &str) -> (r: HackError)
        ensures
            r.kind == kind,
            r.source_line_num is None,
            r.source_line is None,
            r.comment@.len() > 0,
    {
        HackError { source_line_num: None, source_line: None, comment: message(kind, comment), kind }
    }
}

} // verus!
