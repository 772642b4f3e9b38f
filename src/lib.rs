//! Two-party oblivious transfer: a Diffie-Hellman base OT and an OT extension,
//! over fixed-width byte blocks masked with AES-256.
pub mod bits;
pub mod block;
pub mod channel;
pub mod curve;
pub mod hash;
pub mod ot;
pub mod types;

pub use channel::Channel;
pub use types::IsZero;
