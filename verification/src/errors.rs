//! Error kinds and messages reported by the cache, its stores and its
//! policies, together with the spec-level view of an error and verified
//! rendering of the decimal numbers that appear in messages.

use vstd::prelude::*;
use vstd::string::*;

verus! {

/// The kinds of failure the library reports. `Size` is an admission refusal
/// by a capacity-bound policy; `AlreadyExists` is reserved for stores that
/// reject duplicate creates (the stores here overwrite instead and never
/// report it); `NoExistingValue` is an update of an absent key; the two
/// codec kinds are reserved for stores that move entries across a process
/// boundary.
#[derive(Clone, Copy, PartialEq, Eq, Structural, Debug)]
pub enum ErrorKind {
    Size,
    AlreadyExists,
    NoExistingValue,
    SerializationFailure,
    DeserializationFailure,
}

/// A failure: a kind plus a human-readable message.
#[derive(Debug)]
pub struct Error {
    pub kind: ErrorKind,
    pub message: String,
}

/// The mathematical view of an `Error`.
pub ghost struct ErrorView {
    pub kind: ErrorKind,
    pub message: Seq<char>,
}

impl View for Error {
    type V = ErrorView;

    open spec fn view(&self) -> ErrorView {
        ErrorView { kind: self.kind, message: self.message@ }
    }
}

/// The decimal digit character for `d` (`d < 10`).
pub open spec fn digit_char(d: nat) -> char {
    if d == 0 {
        '0'
    } else if d == 1 {
        '1'
    } else if d == 2 {
        '2'
    } else if d == 3 {
        '3'
    } else if d == 4 {
        '4'
    } else if d == 5 {
        '5'
    } else if d == 6 {
        '6'
    } else if d == 7 {
        '7'
    } else if d == 8 {
        '8'
    } else {
        '9'
    }
}

/// The decimal rendering of `n`, most significant digit first, no leading
/// zeroes (except for `n == 0` itself).
pub open spec fn decimal_chars(n: nat) -> Seq<char>
    decreases n,
{
    if n < 10 {
        seq![digit_char(n)]
    } else {
        decimal_chars(n / 10).push(digit_char(n % 10))
    }
}

fn digit_str(d: usize) -> (s: &'static str)
    requires
        d < 10,
    ensures
        s@ == seq![digit_char(d as nat)],
{
    proof {
        reveal_strlit("0");
        reveal_strlit("1");
        reveal_strlit("2");
        reveal_strlit("3");
        reveal_strlit("4");
        reveal_strlit("5");
        reveal_strlit("6");
        reveal_strlit("7");
        reveal_strlit("8");
        reveal_strlit("9");
    }
    if d == 0 {
        "0"
    } else if d == 1 {
        "1"
    } else if d == 2 {
        "2"
    } else if d == 3 {
        "3"
    } else if d == 4 {
        "4"
    } else if d == 5 {
        "5"
    } else if d == 6 {
        "6"
    } else if d == 7 {
        "7"
    } else if d == 8 {
        "8"
    } else {
        "9"
    }
}

/// Renders `n` in decimal.
pub fn decimal_string(n: usize) -> (s: String)
    ensures
        s@ == decimal_chars(n as nat),
    decreases n,
{
    if n < 10 {
        String::from_str(digit_str(n))
    } else {
        let mut s = decimal_string(n / 10);
        s.append(digit_str(n % 10));
        s
    }
}

/// The message of a `Size` refusal: it cites the configured limit and the
/// store size observed when the create was refused.
pub open spec fn size_message(limit: nat, observed: nat) -> Seq<char> {
    "Size of cache cannot exceed "@ + decimal_chars(limit) + ". Was "@ + decimal_chars(observed)
}

/// Builds the `Size` error for a refusal at store size `observed` under the
/// configured `limit`.
pub fn size_error(limit: usize, observed: usize) -> (e: Error)
    ensures
        e@.kind == ErrorKind::Size,
        e@.message == size_message(limit as nat, observed as nat),
{
    let mut message = String::from_str("Size of cache cannot exceed ");
    let rendered_limit = decimal_string(limit);
    message.append(rendered_limit.as_str());
    message.append(". Was ");
    let rendered_observed = decimal_string(observed);
    message.append(rendered_observed.as_str());
    Error { kind: ErrorKind::Size, message }
}

/// The message of a `NoExistingValue` failure.
pub open spec fn no_existing_value_message() -> Seq<char> {
    "No existing value for the supplied key"@
}

/// Builds the error for an update of a key that holds no value.
pub fn no_existing_value_error() -> (e: Error)
    ensures
        e@.kind == ErrorKind::NoExistingValue,
        e@.message == no_existing_value_message(),
{
    Error {
        kind: ErrorKind::NoExistingValue,
        message: String::from_str("No existing value for the supplied key"),
    }
}

/// The view of the error that `no_existing_value_error` builds.
pub open spec fn no_existing_value_error_view() -> ErrorView {
    ErrorView { kind: ErrorKind::NoExistingValue, message: no_existing_value_message() }
}

} // verus!
