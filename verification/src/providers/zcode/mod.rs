//! ZCode.
pub mod adapter;
pub mod claim;
pub mod claim_laws;
pub mod credentials;
pub mod login_laws;
pub mod models;
pub mod oauth;
pub mod region;
