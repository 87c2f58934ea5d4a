//! Verified core of a desktop media-download client: argument validation,
//! tool-path resolution, log-line classification with progress
//! de-duplication, exit-status classification, and hardware-encoder
//! selection with software fallback.
//!
//! Everything that touches the outside world (processes, files, the clock)
//! is either injected as plain values or kept behind small trusted wrappers;
//! the decisions themselves are verified.

pub mod text;
pub mod event;
pub mod parser;
pub mod platform;
pub mod validator;
pub mod exit_code;
pub mod encoder;
pub mod resolver;
pub mod logger;
pub mod hashing;
pub mod clock;
pub mod codec;
