use vstd::prelude::*;

verus! {

/// The ways in which generating or publishing listings can fail.
#[derive(Debug, PartialEq, Eq)]
pub enum ListingError {
    /// The bucket width is zero.
    InvalidConfiguration,
    /// A dotted path handed to the payload merger holds no key.
    InvalidArgument,
    /// An image file or input file does not exist.
    NotFound,
    /// Settings, account rows or a JSON template could not be read.
    MalformedInput,
    /// A marketplace response lacks the fields it is expected to carry.
    MalformedResponse,
    /// A marketplace endpoint answered with a non-success status.
    HttpFailure { status: u16, body: String },
}

} // verus!
