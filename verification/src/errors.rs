use vstd::prelude::*;

verus! {

/// The failure kinds that the library's operations surface to their callers.
#[derive(Clone, Copy, Debug, PartialEq, Eq, Structural)]
pub enum Error {
    /// The vector store or the embedding backend is unreachable or answered
    /// with a non-success status.
    ConnectionFailure,
    /// The embedding model could not produce vectors for the given input.
    EmbeddingFailure,
    /// Batch ingestion inputs (keys, texts, metadata) have differing counts.
    InputLengthMismatch,
    /// A computed vector's length disagrees with the target collection's
    /// configured dimension.
    DimensionMismatch,
    /// A response could not be decoded into the expected structure.
    ParseFailure,
    /// The referenced collection does not exist.
    NotFound,
}

impl Error {
    /// A short human-readable description of the failure kind.
    pub fn describe(&self) -> (r: &'static str)
        ensures
            r@ == self.spec_describe(),
    {
        match self {
            Error::ConnectionFailure => "connection failure",
            Error::EmbeddingFailure => "embedding failure",
            Error::InputLengthMismatch => "input length mismatch",
            Error::DimensionMismatch => "dimension mismatch",
            Error::ParseFailure => "parse failure",
            Error::NotFound => "not found",
        }
    }

    pub open spec fn spec_describe(self) -> Seq<char> {
        match self {
            Error::ConnectionFailure => "connection failure"@,
            Error::EmbeddingFailure => "embedding failure"@,
            Error::InputLengthMismatch => "input length mismatch"@,
            Error::DimensionMismatch => "dimension mismatch"@,
            Error::ParseFailure => "parse failure"@,
            Error::NotFound => "not found"@,
        }
    }
}

} // verus!
