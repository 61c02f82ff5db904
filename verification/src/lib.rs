//! Client for the HAL resources of a pact broker.
pub mod client;
pub mod error;
pub mod json;
pub mod laws;
pub mod link;
pub mod navigate;
pub mod pacts;
pub mod response;
pub mod template;
pub mod text;
pub mod uri;
