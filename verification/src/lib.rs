//! Persistence and API core of a conversational chat application.
//!
//! Three entities — voices (personas), conversations and messages — live in a
//! storage engine with upsert-by-id writes and soft deletion, fronted by a
//! thin HTTP layer that validates requests, translates storage errors to
//! status codes and wraps every response in a uniform envelope.

pub mod rows;
pub mod fresh;
pub mod voice;
pub mod conversation;
pub mod message;
pub mod store;
pub mod response;
pub mod error;
pub mod routes;
pub mod chat_store;
pub mod laws;
