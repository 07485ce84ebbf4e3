use vstd::prelude::*;

verus! {

#[verifier::external_type_specification]
#[verifier::external_body]
pub struct ExIoError(std::io::Error);

/// Why writing a record failed.
#[derive(Debug)]
pub enum Error {
    /// A record was given another number of fields than it was made for: the
    /// expected number, then the given one.
    InvalidNumberOfElements(usize, usize),
    /// The destination refused the bytes.
    IOError(std::io::Error),
}

/// The result of a write.
pub type Result<T> = std::result::Result<T, Error>;

} // verus!
