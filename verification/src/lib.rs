//! Client core for the Demografix APIs: genderize.io, agify.io and
//! nationalize.io.
//!
//! The library checks and builds the outbound requests, parses the
//! rate-limit headers into a [`Quota`], decodes the JSON bodies into typed
//! predictions and maps every failure to the single [`Error`] type. Sending a
//! request is the job of a transport supplied by the caller; the synchronous
//! [`BlockingDemografix`] client runs the whole exchange over one.
//!
//! The module [`laws`] states, over the inputs, what these operations keep:
//! which error a status gives, where the quota is read from among the
//! headers, and what a decoded response holds of its body.

pub mod blocking;
pub mod client;
pub mod errors;
pub mod json;
pub mod laws;
pub mod models;
pub mod text;

pub use blocking::{BlockingDemografix, BlockingTransport};
pub use client::{RawResponse, Request};
pub use errors::Error;
pub use json::{JsonNumber, JsonValue};
pub use models::{
    AgifyPrediction, AgifyResult, Batch, GenderizePrediction, GenderizeResult, NationalizeCountry,
    NationalizePrediction, NationalizeResult, Quota,
};
