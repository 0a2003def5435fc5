pub mod error;
pub mod code;
pub mod lease;
pub mod keyagree;
pub mod discovery;
pub mod transfer;
pub mod service;
