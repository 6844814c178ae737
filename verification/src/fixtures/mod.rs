//! What a live test of the stack needs: connect tokens, and a look at what the server reports.
pub mod auth;
pub mod events;
pub mod tinyjson;
