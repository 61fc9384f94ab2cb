//! Client library for a remote quantum-random-number-generation service.
//!
//! The library holds the request-building and response-interpretation logic:
//! query-string construction, a JSON value representation with parsing and
//! serialization, decoding of the service's result types, and the
//! classification of HTTP outcomes into a fixed error taxonomy.  The network
//! transport itself lives outside the library.

pub mod client;
pub mod errors;
pub mod json;
pub mod text;
pub mod types;

pub use client::QRNGClient;
pub use errors::QRNGError;
pub use json::JsonValue;
pub use types::{EntropyResult, GenerateOptions, HealthStatus};
