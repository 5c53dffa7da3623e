//! A client for a key-value storage service that is spoken to over HTTP.
//!
//! The library decides what is sent and what a reply means; it sends nothing
//! itself. Each operation of [`UnstorageClient`] yields the [`Request`] to
//! send, and the reply is read by the method of the same name on
//! [`Response`].

pub mod client;
pub mod decimal;
pub mod error;
pub mod headers;
pub mod json;
pub mod model;
pub mod request;
pub mod response;
pub mod syntax;
pub mod time;

pub use client::{TransactionOptions, UnstorageClient};
pub use error::{ErrorKind, StorageError};
pub use headers::Headers;
pub use request::{Body, Method, Request};
pub use response::{is_success, Meta, Response};
pub use time::Timestamp;
