//! The command line's own values: the verbosity level and the errors that
//! end a command.

use vstd::prelude::*;
use vstd::string::*;

verus! {

/// How much the tool logs, from the number of `--debug` flags given.
#[derive(Debug, Clone, Copy, PartialEq, Eq, Structural)]
pub enum DebugLevel {
    Error,
    Warn,
    Info,
    Debug,
}

/// The level that `count` repetitions of `--debug` select.
pub open spec fn debug_level_of(count: u8) -> DebugLevel {
    if count >= 3 {
        DebugLevel::Debug
    } else if count >= 2 {
        DebugLevel::Info
    } else if count >= 1 {
        DebugLevel::Warn
    } else {
        DebugLevel::Error
    }
}

/// How verbose a level is, from the least to the most.
pub open spec fn verbosity(level: DebugLevel) -> int {
    match level {
        DebugLevel::Error => 0,
        DebugLevel::Warn => 1,
        DebugLevel::Info => 2,
        DebugLevel::Debug => 3,
    }
}

/// Giving `--debug` more often never makes the tool less verbose, and three
/// times is as verbose as it gets.
pub proof fn lemma_more_debug_flags_more_verbose(a: u8, b: u8)
    requires
        a <= b,
    ensures
        verbosity(debug_level_of(a)) <= verbosity(debug_level_of(b)),
        b >= 3 ==> debug_level_of(b) == DebugLevel::Debug,
{
}

impl From<u8> for DebugLevel {
    fn from(value: u8) -> (r: Self) {
        if value >= 3 {
            Self::Debug
        } else if value >= 2 {
            Self::Info
        } else if value >= 1 {
            Self::Warn
        } else {
            Self::Error
        }
    }
}

impl vstd::std_specs::convert::FromSpecImpl<u8> for DebugLevel {
    open spec fn obeys_from_spec() -> bool {
        true
    }

    open spec fn from_spec(v: u8) -> Self {
        debug_level_of(v)
    }
}

/// The errors that end a command, each with the text that describes its cause.
#[derive(Debug, Clone)]
pub enum CliError {
    BadPath(String),
    AnalysisError(String),
    InterpreterError(String),
    VerificationError(String),
    ParseError(String),
    ServerError(String),
    SocketError(String),
}

/// How an error that ends a command is described.
pub open spec fn cli_error_text(e: CliError) -> Seq<char> {
    match e {
        CliError::BadPath(p) => "Bad path: "@ + p@,
        CliError::AnalysisError(m) => "Analysis error: "@ + m@,
        CliError::InterpreterError(m) => "Interpreter error: "@ + m@,
        CliError::VerificationError(m) => "Processing Stages verification error: "@ + m@,
        CliError::ParseError(m) => "Parsing error: "@ + m@,
        CliError::ServerError(m) => "Server error: "@ + m@,
        CliError::SocketError(m) => "UNIX Socket error: "@ + m@,
    }
}

impl CliError {
    /// The text that describes this error.
    pub fn describe(&self) -> (r: String)
        ensures
            r@ == cli_error_text(*self),
    {
        let (prefix, detail) = match self {
            CliError::BadPath(p) => ("Bad path: ", p),
            CliError::AnalysisError(m) => ("Analysis error: ", m),
            CliError::InterpreterError(m) => ("Interpreter error: ", m),
            CliError::VerificationError(m) => ("Processing Stages verification error: ", m),
            CliError::ParseError(m) => ("Parsing error: ", m),
            CliError::ServerError(m) => ("Server error: ", m),
            CliError::SocketError(m) => ("UNIX Socket error: ", m),
        };
        let mut r = String::new();
        r.append(prefix);
        r.append(detail.as_str());
        r
    }
}

} // verus!
