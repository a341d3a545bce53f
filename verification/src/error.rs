//! Failures of the channel's operations, and the text that comes with them.

use vstd::prelude::*;
use vstd::utf8::*;
use crate::cstr::from_c_string;
use crate::cstr::until_nul;

verus! {

/// Why an operation on a notification channel failed.
///
/// The variants that carry a text hold the platform's description of the
/// error that the failing call left behind.
#[derive(Debug, Clone, PartialEq, Eq)]
pub enum Error {
    /// The channel could not be created.
    InitFailure(String),
    /// The watch could not be added.
    AddWatchFailure(String),
    /// The watch could not be removed.
    RemoveWatchFailure(String),
    /// Reading from the channel failed.
    ReadFailure(String),
    /// The channel has ended: it will hand out no further event.
    EndOfChannel,
    /// The channel could not be closed.
    CloseFailure(String),
    /// The path cannot be written as a null-terminated string.
    InvalidPath,
}

/// `String::from_utf8`: the text that `bytes` encode in UTF-8, or nothing
/// where they are not valid UTF-8.
#[verifier::external_body]
fn utf8_text(bytes: Vec<u8>) -> (text: Option<String>)
    ensures
        text.is_some() == valid_utf8(bytes@),
        text matches Some(s) ==> s@ == decode_utf8(bytes@),
{
    match String::from_utf8(bytes) {
        Ok(s) => Some(s),
        Err(_) => None,
    }
}

/// Turns the platform's description of an error, a C string, into owned
/// text: what stands before the first zero byte, read as UTF-8.
///
/// Those bytes have to be valid UTF-8. Where they are not, the platform has
/// broken its word and there is no going on: [`try_last_error`] tells.
pub fn last_error(description: &[u8]) -> (text: String)
    requires
        valid_utf8(until_nul(description@)),
    ensures
        text@ == decode_utf8(until_nul(description@)),
{
    utf8_text(from_c_string(description)).unwrap()
}

/// The text of [`last_error`] where there is one, and nothing where the
/// bytes before the first zero byte are not valid UTF-8.
pub fn try_last_error(description: &[u8]) -> (text: Option<String>)
    ensures
        text.is_some() == valid_utf8(until_nul(description@)),
        text matches Some(s) ==> s@ == decode_utf8(until_nul(description@)),
{
    utf8_text(from_c_string(description))
}

} // verus!
