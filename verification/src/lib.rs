//! Decides whether a Stellar contract's WASM reproduces from the build
//! metadata that it records.

pub mod cleanup;
pub mod container;
pub mod digest;
pub mod encoding;
pub mod engine;
pub mod error;
pub mod history;
pub mod meta;
pub mod net;
pub mod path;
pub mod print;
pub mod seqs;
pub mod session;
pub mod shell;
pub mod source;
pub mod terminal;
pub mod text;
pub mod tree;
pub mod trust;
pub mod verify;
