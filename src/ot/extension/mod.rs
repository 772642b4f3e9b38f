//! Oblivious transfer extension.
pub mod iknp;
