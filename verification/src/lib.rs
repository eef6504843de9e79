//! A programmable account: named signers, each with an optional scope, decide
//! together whether a batch of requested operations is authorized.
pub mod auth;
pub mod base64_url;
pub mod cosigned;
pub mod engine;
pub mod host;
pub mod laws;
pub mod policy;
pub mod store;
pub mod types;
pub mod values;
pub mod verify;
pub mod wallet;
