//! Integrations with the terminal host.
pub mod herdr;
