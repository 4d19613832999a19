//! The library's error type: a kind (free message, I/O description, or a
//! numbered custom error) together with an optional source description.
use vstd::prelude::*;

verus! {

/// What went wrong, in one of three shapes.
#[derive(Debug)]
pub enum ErrorKind {
    /// A generic message.
    Msg(String),
    /// An I/O failure, described by its text.
    Io(String),
    /// A numbered error with a message.
    Custom { code: i32, msg: String },
}

/// The error type of the library.
#[derive(Debug)]
pub struct ChimesError {
    /// Kind of error.
    pub kind: ErrorKind,
    /// Text of the underlying cause, when one was recorded.
    pub source: Option<String>,
}

impl ChimesError {
    /// Creates a generic error.
    pub fn msg(value: &str) -> (r: Self)
        ensures
            r.kind matches ErrorKind::Msg(m) && m@ == value@,
            r.source is None,
    {
        ChimesError { kind: ErrorKind::Msg(value.to_owned()), source: None }
    }

    /// Creates a generic error with a cause.
    pub fn chain(value: &str, source: &str) -> (r: Self)
        ensures
            r.kind matches ErrorKind::Msg(m) && m@ == value@,
            r.source matches Some(s) && s@ == source@,
    {
        ChimesError { kind: ErrorKind::Msg(value.to_owned()), source: Some(source.to_owned()) }
    }

    /// Creates a numbered custom error.
    pub fn custom(code: i32, msg: &str) -> (r: Self)
        ensures
            r.kind matches ErrorKind::Custom { code: c, msg: m } && c == code && m@ == msg@,
            r.source is None,
    {
        ChimesError { kind: ErrorKind::Custom { code, msg: msg.to_owned() }, source: None }
    }

    /// Creates a numbered custom error with a cause.
    pub fn custom_error(code: i32, msg: &str, source: &str) -> (r: Self)
        ensures
            r.kind matches ErrorKind::Custom { code: c, msg: m } && c == code && m@ == msg@,
            r.source matches Some(s) && s@ == source@,
    {
        ChimesError {
            kind: ErrorKind::Custom { code, msg: msg.to_owned() },
            source: Some(source.to_owned()),
        }
    }
}

} // verus!
