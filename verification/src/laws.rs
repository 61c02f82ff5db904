//! What the client promises, told by what goes in and what comes out.
pub mod addresses;
pub mod characters;
pub mod fetches;
pub mod models;
pub mod replies;
pub mod requests;
pub mod resources;
