pub mod cli;
pub mod discover;
pub mod receive;
pub mod send;
