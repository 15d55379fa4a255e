//! The error kinds of the pipeline and when each one arises.

use vstd::prelude::*;

verus! {

/// Every fatal condition of the pipeline, with the identifier a report
/// needs: the operation's URL, table name, or offending value.
#[derive(Debug, Clone)]
pub enum RagError {
    /// An unreadable root path or input source.
    IOError(String),
    /// A non-success HTTP status from the embedding or chat provider,
    /// together with the URL that was called.
    ProviderError(u16, String),
    /// A malformed response body or a response of the wrong shape.
    DecodeError(String),
    /// A write batch that does not match the table schema.
    SchemaError(String),
    /// A table connect, open, or query failure.
    StorageError(String),
    /// An unsupported provider name or invalid flag value.
    ConfigError(String),
}

impl RagError {
    /// True of errors raised by a provider returning a non-success status.
    pub open spec fn is_provider_error(&self) -> bool {
        self is ProviderError
    }

    /// The HTTP status carried by a provider error.
    pub open spec fn provider_status(&self) -> u16
        recommends
            self is ProviderError,
    {
        self->ProviderError_0
    }

    /// The URL or identifier named by this error.
    pub open spec fn spec_detail(&self) -> Seq<char> {
        match self {
            RagError::IOError(s) => s@,
            RagError::ProviderError(_, s) => s@,
            RagError::DecodeError(s) => s@,
            RagError::SchemaError(s) => s@,
            RagError::StorageError(s) => s@,
            RagError::ConfigError(s) => s@,
        }
    }

    /// The URL, table, or value this error names, for reporting.
    pub fn detail(&self) -> (r: &String)
        ensures
            r@ == self.spec_detail(),
    {
        match self {
            RagError::IOError(s) => s,
            RagError::ProviderError(_, s) => s,
            RagError::DecodeError(s) => s,
            RagError::SchemaError(s) => s,
            RagError::StorageError(s) => s,
            RagError::ConfigError(s) => s,
        }
    }
}

} // verus!
