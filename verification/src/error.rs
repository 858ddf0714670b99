//! Errors of the server and their messages.
use vstd::prelude::*;
use crate::text::{owned, push_str, usize_to_string, decimal};

verus! {

/// An error of the server. Errors that come from a library (input/output,
/// JSON, file watching, regular expressions) carry that library's message.
#[derive(Debug)]
pub enum Error {
    Io(String),
    Json(String),
    Parse { message: String, line: usize, column: usize },
    Execution { command: String, exit_code: Option<i32>, stderr: String },
    JustCommand(String),
    Registry(String),
    Server(String),
    Watch(String),
    Regex(String),
    InvalidToolName(String),
    ToolNotFound(String),
    InvalidParameter(String),
    TaskNotFound(String),
    Timeout(String),
    Internal(String),
    Other(String),
}

/// Text of an exit code as `Some(n)` or `None`, as it is printed for debugging.
pub open spec fn exit_code_text(code: Option<i32>) -> Seq<char> {
    match code {
        Some(n) => "Some("@ + (if n < 0 {
            "-"@ + decimal((-n) as nat)
        } else {
            decimal(n as nat)
        }) + ")"@,
        None => "None"@,
    }
}

/// The message of an error.
pub open spec fn error_text(e: Error) -> Seq<char> {
    match e {
        Error::Io(m) => "IO error: "@ + m@,
        Error::Json(m) => "JSON error: "@ + m@,
        Error::Parse { message, line, column } => "Parse error at line "@ + decimal(line as nat) + ", column "@
            + decimal(column as nat) + ": "@ + message@,
        Error::Execution { command, exit_code, stderr } => "Execution error: command '"@ + command@
            + "' failed with exit code "@ + exit_code_text(exit_code) + ": "@ + stderr@,
        Error::JustCommand(m) => "Just command error: "@ + m@,
        Error::Registry(m) => "Registry error: "@ + m@,
        Error::Server(m) => "Server error: "@ + m@,
        Error::Watch(m) => "File watch error: "@ + m@,
        Error::Regex(m) => "Regex error: "@ + m@,
        Error::InvalidToolName(m) => "Invalid tool name: "@ + m@,
        Error::ToolNotFound(m) => "Tool not found: "@ + m@,
        Error::InvalidParameter(m) => "Invalid parameter: "@ + m@,
        Error::TaskNotFound(m) => "Task not found: "@ + m@,
        Error::Timeout(m) => "Timeout error: "@ + m@,
        Error::Internal(m) => "Internal error: "@ + m@,
        Error::Other(m) => "Other error: "@ + m@,
    }
}

/// Text of an exit code as it is printed for debugging.
fn exit_code_string(code: Option<i32>) -> (s: String)
    ensures
        s@ == exit_code_text(code),
{
    match code {
        Some(n) => {
            let mut s = owned("Some(");
            if n < 0 {
                push_str(&mut s, "-");
                let m: u64 = (0i64 - n as i64) as u64;
                push_str(&mut s, crate::text::u128_to_string(m as u128).as_str());
            } else {
                push_str(&mut s, usize_to_string(n as usize).as_str());
            }
            push_str(&mut s, ")");
            s
        },
        None => owned("None"),
    }
}

/// `prefix` followed by `m`.
fn prefixed(prefix: &str, m: &String) -> (s: String)
    ensures
        s@ == prefix@ + m@,
{
    let mut s = owned(prefix);
    push_str(&mut s, m.as_str());
    s
}

impl Error {
    /// The message of the error.
    pub fn to_string(&self) -> (s: String)
        ensures
            s@ == error_text(*self),
    {
        match self {
            Error::Io(m) => prefixed("IO error: ", m),
            Error::Json(m) => prefixed("JSON error: ", m),
            Error::Parse { message, line, column } => {
                let mut s = owned("Parse error at line ");
                push_str(&mut s, usize_to_string(*line).as_str());
                push_str(&mut s, ", column ");
                push_str(&mut s, usize_to_string(*column).as_str());
                push_str(&mut s, ": ");
                push_str(&mut s, message.as_str());
                s
            },
            Error::Execution { command, exit_code, stderr } => {
                let mut s = owned("Execution error: command '");
                push_str(&mut s, command.as_str());
                push_str(&mut s, "' failed with exit code ");
                push_str(&mut s, exit_code_string(*exit_code).as_str());
                push_str(&mut s, ": ");
                push_str(&mut s, stderr.as_str());
                s
            },
            Error::JustCommand(m) => prefixed("Just command error: ", m),
            Error::Registry(m) => prefixed("Registry error: ", m),
            Error::Server(m) => prefixed("Server error: ", m),
            Error::Watch(m) => prefixed("File watch error: ", m),
            Error::Regex(m) => prefixed("Regex error: ", m),
            Error::InvalidToolName(m) => prefixed("Invalid tool name: ", m),
            Error::ToolNotFound(m) => prefixed("Tool not found: ", m),
            Error::InvalidParameter(m) => prefixed("Invalid parameter: ", m),
            Error::TaskNotFound(m) => prefixed("Task not found: ", m),
            Error::Timeout(m) => prefixed("Timeout error: ", m),
            Error::Internal(m) => prefixed("Internal error: ", m),
            Error::Other(m) => prefixed("Other error: ", m),
        }
    }
}

} // verus!
