//! Trae.
pub mod adapter;
pub mod adapter_laws;
pub mod login_laws;
pub mod oauth;
pub mod stream;
pub mod stream_laws;
