//! File encryption with AES-256-CBC, derivation of the encrypted and
//! decrypted file names, and classification of git-status lines.
pub mod text;
pub mod naming;
pub mod gitclean;
pub mod commands;
pub mod encryptions;
