//! Raccoon.
pub mod adapter;
pub mod adapter_laws;
pub mod balance;
pub mod balance_laws;
pub mod credentials;
pub mod jwt;
pub mod login_laws;
pub mod models;
pub mod models_laws;
pub mod oauth;
