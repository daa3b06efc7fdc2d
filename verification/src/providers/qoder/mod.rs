//! Qoder.
pub mod adapter;
pub mod answer_laws;
pub mod auth;
pub mod balance;
pub mod balance_laws;
pub mod chat;
pub mod chat_laws;
pub mod cosy;
pub mod credentials;
pub mod endpoints;
pub mod login_laws;
pub mod machine;
pub mod models;
pub mod models_laws;
pub mod oauth;
pub mod piping;
pub mod protocol;
pub mod protocol_laws;
pub mod refresh;
pub mod request_laws;
pub mod signing_laws;
pub mod stream;
pub mod tag_laws;
pub mod thinking_laws;
