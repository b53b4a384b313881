//! Replaceable secret-reference resolution.
//!
//! A consumer asks for the secret behind a logical reference, such as `model/openai-api-key`, and
//! does not know where it comes from. Four providers answer: [`env`] reads environment variables,
//! [`keychain`] a keychain, [`encrypted_file`] a passphrase-encrypted file, and [`command`] with
//! [`process`] the output of an external program. [`capability`] holds what they share: requests,
//! answers, refusals and failures.
//!
//! What a provider needs of its host it takes through a trait, or hands out as a step to perform.
//! Nothing is promised of such a trait, so what is proved holds whatever the host gives: which
//! configurations are accepted, which source a reference is answered from, and that no failure
//! says more than the reference. [`laws`] says what each operation does, in terms of its arguments
//! and results.

pub mod capability;
pub mod command;
pub mod encrypted_file;
pub mod env;
mod hygiene;
pub mod keychain;
pub mod laws;
pub mod naming;
pub mod process;
pub mod table;
pub mod text;
