//! What the operations of this library do, said of their arguments and results.
//!
//! Each law takes a call of an operation, as `call_ensures` gives it, and states what the result is
//! in terms of texts, bytes, rows and numbers. The words that several laws share are in [`terms`].

pub mod capability;
pub mod command;
pub mod encrypted_file;
pub mod env;
pub mod keychain;
pub mod naming;
pub mod process;
pub mod table;
pub mod terms;
pub mod text;
