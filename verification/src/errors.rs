//! The central error type: a lowercase `source` tag and a human-readable
//! `message`.
use crate::format::{painted, red_string, yellow_string, Hue};
use crate::text::cat;
use vstd::prelude::*;

verus! {

/// The central error type. `source` is a lowercase tag (`"io"`,
/// `"config:version"`, `"step"`, ...) and `message` describes the failure.
#[derive(Clone, Debug, PartialEq, Eq)]
pub struct Error {
    pub message: String,
    pub source: String,
}

/// An error as plain text: its tag and its message.
pub struct ErrorView {
    pub source: Seq<char>,
    pub message: Seq<char>,
}

impl View for Error {
    type V = ErrorView;

    open spec fn view(&self) -> ErrorView {
        ErrorView { source: self.source@, message: self.message@ }
    }
}

/// The error with tag `source` and message `message`.
pub open spec fn error_of(source: Seq<char>, message: Seq<char>) -> ErrorView {
    ErrorView { source, message }
}

/// How an error is displayed: `Error from <source>:\n<message>`, with the
/// source in yellow and the message in red.
pub open spec fn displays_as(r: Seq<char>, e: ErrorView) -> bool {
    exists|y: Seq<char>, m: Seq<char>|
        #![auto]
        painted(y, e.source, Hue::Yellow) && painted(m, e.message, Hue::Red) && r
            == "Error from "@ + y + ":\n"@ + m
}

impl Error {
    /// The error tagged `source` with message `message`.
    pub fn new(source: &str, message: &str) -> (r: Error)
        ensures
            r@ == error_of(source@, message@),
    {
        Error { source: source.to_owned(), message: message.to_owned() }
    }

    /// A copy of this error.
    pub fn duplicate(&self) -> (r: Error)
        ensures
            r@ == self@,
    {
        Error { source: self.source.clone(), message: self.message.clone() }
    }

    /// The displayed form: `Error from <source>:\n<message>`.
    pub fn to_string(&self) -> (r: String)
        ensures
            displays_as(r@, self@),
    {
        let y = yellow_string(self.source.as_str());
        let m = red_string(self.message.as_str());
        let mut r = cat("Error from ", y.as_str());
        r.append(":\n");
        r.append(m.as_str());
        assert(r@ =~= "Error from "@ + y@ + ":\n"@ + m@);
        assert(painted(y@, self.source@, Hue::Yellow) && painted(m@, self.message@, Hue::Red));
        r
    }
}

} // verus!
