//! A small verified library for managing a kubeconfig-style connection file:
//! an in-memory model of the document, the operations that list and select
//! contexts and replace a user's token, and the lexical token validator.

pub mod codec;
pub mod errors;
pub mod kubeconfig;
pub mod store;
pub mod text;
pub mod token;
