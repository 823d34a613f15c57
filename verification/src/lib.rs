//! Verified core of a manga downloader: filename sanitization, request
//! signing and client-identity tokens, response-envelope classification,
//! the encrypted image-wrapper codec, download scheduling state machines,
//! and archive planning. I/O lives outside this crate; every function here
//! is specified and checked.
pub mod album_plus;
pub mod api;
pub mod archive;
pub mod chapter;
pub mod codec;
pub mod comic;
pub mod comicinfo;
pub mod config;
pub mod crypto;
pub mod digest;
pub mod entropy;
pub mod envelope;
pub mod errors;
pub mod events;
pub mod identity;
pub mod imagewrap;
pub mod login;
pub mod paths;
pub mod permits;
pub mod progress;
pub mod responses;
pub mod sanitize;
pub mod scheduler;
pub mod signing;
pub mod text;
pub mod update;
