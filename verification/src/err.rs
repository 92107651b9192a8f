//! The run-time error taxonomy: a closed set of numbered error kinds, each
//! carried with an optional source line and an optional auxiliary text.

use vstd::prelude::*;
use vstd::string::StringExecFns;

verus! {

/// The kinds of error that the variable store, the bit operators and the
/// evaluator raise.
#[derive(Clone, Copy, PartialEq, Eq, Debug, Structural)]
pub enum ErrCode {
    /// Malformed expression.
    IE017,
    /// Programmer is insufficiently polite.
    IE079,
    /// Programmer is overly polite.
    IE099,
    /// The NEXT stack is full.
    IE123,
    /// A NEXT names a label that the program does not have.
    IE129,
    /// An array dimension is zero.
    IE240,
    /// An array subscript is out of range.
    IE241,
    /// A 32-bit value does not fit a 16-bit variable.
    IE275,
    /// RETRIEVE without a matching STASH.
    IE436,
    /// A value exceeds the width that an operator or the input accepts.
    IE533,
    /// Input ended where a number was expected.
    IE562,
    /// An input word is not a digit.
    IE579,
    /// RESUME with a depth of zero.
    IE621,
    /// RESUME deeper than the NEXT stack.
    IE632,
    /// Control fell off the end of the program.
    IE663,
    /// The statement counter cannot count any further.
    IE666,
}

impl ErrCode {
    /// The number under which the error kind is known.
    pub open spec fn number_spec(self) -> u16 {
        match self {
            ErrCode::IE017 => 17,
            ErrCode::IE079 => 79,
            ErrCode::IE099 => 99,
            ErrCode::IE123 => 123,
            ErrCode::IE129 => 129,
            ErrCode::IE240 => 240,
            ErrCode::IE241 => 241,
            ErrCode::IE275 => 275,
            ErrCode::IE436 => 436,
            ErrCode::IE533 => 533,
            ErrCode::IE562 => 562,
            ErrCode::IE579 => 579,
            ErrCode::IE621 => 621,
            ErrCode::IE632 => 632,
            ErrCode::IE663 => 663,
            ErrCode::IE666 => 666,
        }
    }

    /// The number under which the error kind is known.
    pub fn number(self) -> (n: u16)
        ensures
            n == self.number_spec(),
    {
        match self {
            ErrCode::IE017 => 17,
            ErrCode::IE079 => 79,
            ErrCode::IE099 => 99,
            ErrCode::IE123 => 123,
            ErrCode::IE129 => 129,
            ErrCode::IE240 => 240,
            ErrCode::IE241 => 241,
            ErrCode::IE275 => 275,
            ErrCode::IE436 => 436,
            ErrCode::IE533 => 533,
            ErrCode::IE562 => 562,
            ErrCode::IE579 => 579,
            ErrCode::IE621 => 621,
            ErrCode::IE632 => 632,
            ErrCode::IE663 => 663,
            ErrCode::IE666 => 666,
        }
    }
}

/// An error as it is surfaced to callers.
#[derive(Debug, PartialEq, Eq)]
pub struct Error {
    pub code: ErrCode,
    /// The source line of the statement that failed, once known.
    pub line: Option<usize>,
    /// Auxiliary text, such as the input word that was not understood.
    pub text: Option<String>,
}

/// The mathematical content of an [`Error`].
pub ghost struct ErrorV {
    pub code: ErrCode,
    pub line: Option<usize>,
    pub text: Option<Seq<char>>,
}

/// The result of an operation that can fail with an [`Error`].
pub type Res<T> = Result<T, Error>;

/// The error of kind `code` that carries neither line nor text.
pub open spec fn plain(code: ErrCode) -> ErrorV {
    ErrorV { code, line: None, text: None }
}

impl View for Error {
    type V = ErrorV;

    open spec fn view(&self) -> ErrorV {
        ErrorV {
            code: self.code,
            line: self.line,
            text: match self.text {
                Some(s) => Some(s@),
                None => None,
            },
        }
    }
}

impl ErrorV {
    /// The error with its line set to `line`, unless it already has one.
    pub open spec fn at_line(self, line: usize) -> ErrorV {
        if self.line is Some {
            self
        } else {
            ErrorV { line: Some(line), ..self }
        }
    }
}

impl Error {
    /// An error of kind `code` without line or text.
    pub fn new(code: ErrCode) -> (e: Error)
        ensures
            e@ == plain(code),
    {
        Error { code, line: None, text: None }
    }

    /// An error of kind `code` that carries `text`.
    pub fn with_str(code: ErrCode, text: &str) -> (e: Error)
        ensures
            e@ == (ErrorV { code, line: None, text: Some(text@) }),
    {
        Error { code, line: None, text: Some(String::from_str(text)) }
    }

    /// Annotates the error with a source line. An error that already names
    /// a line keeps it.
    pub fn set_line(&mut self, line: usize)
        ensures
            final(self)@ == old(self)@.at_line(line),
    {
        if self.line.is_none() {
            self.line = Some(line);
        }
    }

    /// A copy of the error.
    pub fn dup(&self) -> (e: Error)
        ensures
            e@ == self@,
    {
        let text = match &self.text {
            Some(s) => Some(s.clone()),
            None => None,
        };
        Error { code: self.code, line: self.line, text }
    }

    /// The number of the error's kind.
    pub fn number(&self) -> (n: u16)
        ensures
            n == self.code.number_spec(),
    {
        self.code.number()
    }
}

} // verus!
