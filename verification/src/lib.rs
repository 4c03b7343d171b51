//! A Matrix client without a server: every node runs its own homeserver, answers its client's
//! requests from it, and shares the responses with the nodes around it.
//!
//! The library holds the decisions of a node. Each of its loops is a function from where the loop
//! stands and what has happened to where it stands next and what it does; the program around it
//! does the networking, the storage and the waiting.

pub mod client;
pub mod endpoint;
pub mod json;
pub mod laws;
pub mod message;
pub mod peers;
pub mod process;
pub mod report;
pub mod route;
pub mod server;
pub mod startup;
pub mod text;
