//! Errors of the protocol logic.
use vstd::prelude::*;

use crate::utils::{decimal, push_decimal};

verus! {

/// What can go wrong while interpreting the box's replies.
#[derive(Debug, Clone)]
pub enum Error {
    /// A reply or a value did not have the documented shape.
    Protocol(String),
    /// The box answered a command with a return code other than the one expected.
    CommandFailed { command: String, return_code: u8, data_lines: Vec<String> },
}

/// `r` is what a parser owes for an input whose meaning is `expected`: the value
/// when there is one, else a protocol error.
pub open spec fn parsed_as<T>(r: Result<T, Error>, expected: Option<T>) -> bool {
    match r {
        Ok(v) => expected == Some(v),
        Err(e) => expected is None && e is Protocol,
    }
}

/// `r` is what a parser owes for an input whose meaning is `expected`, compared by view.
pub open spec fn parsed_as_view<T: View>(r: Result<T, Error>, expected: Option<T::V>) -> bool {
    match r {
        Ok(v) => expected == Some(v@),
        Err(e) => expected is None && e is Protocol,
    }
}

/// A protocol error with a fixed message.
pub fn protocol_error(message: &str) -> (e: Error)
    ensures
        e matches Error::Protocol(text) && text@ == message@,
{
    Error::Protocol(String::from_str(message))
}

/// A protocol error whose message quotes the offending text and gives the reason it was
/// refused: `message 'detail': reason`.
pub fn protocol_error_quoted(message: &str, detail: &str, reason: &str) -> (e: Error)
    ensures
        e matches Error::Protocol(text) && text@ == message@ + " '"@ + detail@ + "': "@ + reason@,
{
    let mut text = String::from_str(message);
    text.append(" '");
    text.append(detail);
    text.append("': ");
    text.append(reason);
    Error::Protocol(text)
}

/// A protocol error whose message ends with a number: `message: v`, `v` in decimal.
pub fn protocol_error_number(message: &str, v: u64) -> (e: Error)
    ensures
        e matches Error::Protocol(text) && text@ == message@ + ": "@ + decimal(v as nat),
{
    let mut text = String::from_str(message);
    text.append(": ");
    push_decimal(&mut text, v);
    Error::Protocol(text)
}

/// A protocol error for a line with the wrong number of fields:
/// `message, got n (line: line)`, `n` in decimal.
pub fn protocol_error_fields(message: &str, n: u64, line: &str) -> (e: Error)
    ensures
        e matches Error::Protocol(text) && text@ == message@ + ", got "@ + decimal(n as nat)
            + " (line: "@ + line@ + ")"@,
{
    let mut text = String::from_str(message);
    text.append(", got ");
    push_decimal(&mut text, n);
    text.append(" (line: ");
    text.append(line);
    text.append(")");
    Error::Protocol(text)
}

/// A protocol error for a number in a header that disagrees with another:
/// `message: header=a, label=b`, both in decimal.
pub fn protocol_error_mismatch(message: &str, a: u64, label: &str, b: u64) -> (e: Error)
    ensures
        e matches Error::Protocol(text) && text@ == message@ + ": header="@ + decimal(a as nat)
            + ", "@ + label@ + "="@ + decimal(b as nat),
{
    let mut text = String::from_str(message);
    text.append(": header=");
    push_decimal(&mut text, a);
    text.append(", ");
    text.append(label);
    text.append("=");
    push_decimal(&mut text, b);
    Error::Protocol(text)
}

} // verus!
