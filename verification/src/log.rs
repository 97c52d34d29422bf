//! The line written for a diagnostic message, and the stream it goes to.

use crate::text::{ascii_lowercase, chars_of, lowercase_from, text_of};
use vstd::prelude::*;
use vstd::string::StringExecFns;

verus! {

/// The stream a diagnostic line is written to.
#[derive(Clone, Copy, Debug, PartialEq, Eq, Structural)]
pub enum LogStream {
    /// The standard output stream.
    Standard,
    /// The error stream.
    Error,
}

/// The line for a message: `[frontend:` scope `] ` message, followed by
/// ` | ` and the data where data is given and not empty.
pub open spec fn log_line_text(scope: Seq<char>, message: Seq<char>, data: Option<Seq<char>>) -> Seq<
    char,
> {
    let head = "[frontend:"@ + scope + "] "@ + message;
    match data {
        Some(payload) => if payload.len() > 0 {
            head + " | "@ + payload
        } else {
            head
        },
        None => head,
    }
}

/// The stream for a severity: the error stream for `error`, in any case of
/// its letters, the standard stream for every other.
pub open spec fn stream_of(level: Seq<char>) -> LogStream {
    if ascii_lowercase(level) == seq!['e', 'r', 'r', 'o', 'r'] {
        LogStream::Error
    } else {
        LogStream::Standard
    }
}

/// Builds the line that is written for a diagnostic message.
pub fn log_line(scope: &str, message: &str, data: Option<String>) -> (line: String)
    ensures
        line@ == log_line_text(scope@, message@, text_of(data)),
{
    let mut line = String::from_str("[frontend:");
    line.append(scope);
    line.append("] ");
    line.append(message);
    match data {
        Some(payload) => {
            if !payload.as_str().is_empty() {
                line.append(" | ");
                line.append(payload.as_str());
            }
        },
        None => {},
    }
    line
}

/// Chooses the stream for a severity.
pub fn log_stream(level: &str) -> (stream: LogStream)
    ensures
        stream == stream_of(level@),
{
    let chars = chars_of(level);
    let lower = lowercase_from(&chars, 0);
    assert(chars@.subrange(0, chars.len() as int) =~= level@);
    if lower.len() == 5 && lower[0] == 'e' && lower[1] == 'r' && lower[2] == 'r' && lower[3] == 'o'
        && lower[4] == 'r' {
        assert(lower@ =~= seq!['e', 'r', 'r', 'o', 'r']);
        LogStream::Error
    } else {
        LogStream::Standard
    }
}

} // verus!
