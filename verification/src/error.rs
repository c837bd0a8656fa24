//! The library's error type. Every variant carries a human-readable message;
//! callers that talk to outside systems translate their failures into the
//! matching kind before handing them to the library.

use vstd::prelude::*;

verus! {

#[derive(Debug)]
pub enum TempusError {
    /// A store failure: a transient connection loss or a failed query.
    Database(String),
    /// An HTTP client or transport failure.
    Http(String),
    /// A Kafka producer or broker failure.
    Kafka(String),
    /// A configuration that cannot be used.
    Config(String),
    /// An input that the library rejects.
    Validation(String),
    /// An impossible job state, such as a job without its metadata row.
    JobProcessing(String),
    /// A value that could not be encoded or decoded.
    Serialization(String),
    /// An input/output failure outside the store and the clients.
    Io(String),
}

impl TempusError {
    pub open spec fn spec_message(&self) -> Seq<char> {
        match self {
            TempusError::Database(m) => m@,
            TempusError::Http(m) => m@,
            TempusError::Kafka(m) => m@,
            TempusError::Config(m) => m@,
            TempusError::Validation(m) => m@,
            TempusError::JobProcessing(m) => m@,
            TempusError::Serialization(m) => m@,
            TempusError::Io(m) => m@,
        }
    }

    /// The message carried by the error, whatever its kind.
    pub fn message(&self) -> (r: &String)
        ensures
            r@ == self.spec_message(),
    {
        match self {
            TempusError::Database(m) => m,
            TempusError::Http(m) => m,
            TempusError::Kafka(m) => m,
            TempusError::Config(m) => m,
            TempusError::Validation(m) => m,
            TempusError::JobProcessing(m) => m,
            TempusError::Serialization(m) => m,
            TempusError::Io(m) => m,
        }
    }
}

} // verus!
