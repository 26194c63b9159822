//! A catalog of speech-synthesis voices published by a remote repository.
//!
//! The library reconciles the repository's JSON manifest with the files
//! present in a local download directory, and plans the download or removal
//! of the two files (model and configuration) that make up one voice. The
//! surrounding program does the fetching, writing and removing; every
//! decision — what the manifest means, which voice counts as downloaded,
//! which URLs and paths a transfer touches, and which error a failure
//! surfaces as — is made here, under contract.

pub mod config;
pub mod errors;
pub mod hf;
pub mod json;
pub mod manifest;
pub mod strutil;
