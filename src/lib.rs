//! Backend-agnostic cryptographic building blocks for OpenPGP messages.
//!
//! - `interface`: the capability contracts that the one linked
//!   cryptographic backend fulfils (randomness, asymmetric operations,
//!   symmetric cipher contexts, key derivation);
//! - `mem`: a buffer for secret material that its owner wipes;
//! - `hash` and `sha1cd`: hash accumulators, among them SHA-1 with
//!   collision detection;
//! - `sign`: signing and verification of content through a digest and the
//!   backend;
//! - `session`: the session key of a message and the records that carry it;
//! - `pipeline`: the order in which the stages of a message writer nest and
//!   are finalized;
//! - `literal`: the literal data packet, the innermost frame of a message;
//! - `armor` and `base64`: the ASCII armor around binary data, whole or
//!   streamed.

pub mod armor;
pub mod base64;
mod bytes;
pub mod error;
pub mod hash;
pub mod interface;
pub mod literal;
pub mod mem;
pub mod pipeline;
pub mod session;
pub mod sign;
pub mod sha1cd;
pub mod symmetric;
pub mod types;

pub use error::{Error, Result};
pub use hash::Digest;
pub use interface::{Asymmetric, Backend, Kdf, SessionKey, Symmetric};
pub use mem::Protected;
pub use sha1cd::{build, Sha1};
