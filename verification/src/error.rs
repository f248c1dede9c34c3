use vstd::prelude::*;

verus! {

/// Why an operation of this library refused its input.
#[derive(Clone, Copy, Debug, PartialEq, Eq)]
pub enum Error {
    /// The table of vendor prefixes holds no entry.
    Configuration,
    /// A vendor prefix or an address does not have the expected shape.
    MalformedInput,
    /// A field is longer than its length prefix can say.
    Encoding,
}

impl Error {
    /// A short sentence for the error, fit for a log line.
    pub fn message(&self) -> (text: &'static str)
        ensures
            text@ == match *self {
                Error::Configuration => "the vendor prefix table is empty"@,
                Error::MalformedInput => "the input does not have the expected shape"@,
                Error::Encoding => "a field does not fit its length prefix"@,
            },
    {
        match self {
            Error::Configuration => "the vendor prefix table is empty",
            Error::MalformedInput => "the input does not have the expected shape",
            Error::Encoding => "a field does not fit its length prefix",
        }
    }
}

} // verus!
