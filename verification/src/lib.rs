//! Policy core of an SMTP filter that lets through only end-to-end encrypted
//! mail: the OpenPGP packet validator, the ASCII-armor check, the MIME
//! classifier, the per-sender rate limiter, the policy engine and the state
//! machine of one SMTP session. The crate performs no input or output; a
//! program around it owns the sockets and the file system.

pub mod armor;
pub mod command;
pub mod config;
pub mod filter;
pub mod mime;
pub mod openpgp;
pub mod policy;
pub mod rate_limit;
pub mod reinject;
pub mod smtp;
pub mod text;
