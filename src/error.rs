//! The failures that operations of this library report.

use vstd::prelude::*;

verus! {

/// Why an operation did not succeed.
#[derive(Debug, PartialEq, Eq)]
pub enum CliError {
    /// The private key already belongs to an account.
    DuplicateKey,
    /// The private key is not a usable secret key.
    InvalidKey,
    /// The name is already taken.
    AlreadyExists,
    /// The claim label or identifier is already tracked.
    AlreadySubmitted,
    /// No entry has the given name.
    NotFound,
    /// No tracked claim has the given key.
    NotSubmitted,
    /// Nothing is stored under the given key.
    NotPresent,
    /// The text is not a canonical hexadecimal identifier.
    InvalidFormat,
    /// The name stands for several identifiers; all of them are listed.
    Ambiguous(Vec<String>),
    /// No account is selected and none was named.
    NoDefaultAccount,
    /// Both an expiry time and a lifetime were given.
    AmbiguousExpiry,
    /// Neither an expiry time nor a lifetime was given.
    MissingExpiry,
    /// The expiry time is not in the future.
    ExpiredAtSubmission,
    /// Both a start time and a window were given for a query.
    AmbiguousSince,
    /// Neither a start time nor a window was given for a query.
    MissingSince,
    /// The start time of a query lies in the future.
    SinceInFuture,
    /// The text is neither a decimal nor a `0x` hexadecimal integer.
    InvalidNumber,
    /// The remote service answered with a value of an unexpected shape.
    UnexpectedResponseShape,
    /// The configuration has no file and cannot be kept.
    NoBackingStore,
    /// The configuration name or path makes no sense for the request.
    InvalidConfig,
    /// The transport failed; its message is kept.
    Transport(String),
}

} // verus!
