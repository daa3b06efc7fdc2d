//! A gateway's rules for the model providers behind it.
pub mod digest;
pub mod errors;
pub mod http;
pub mod json;
pub mod lines;
pub mod number;
pub mod order;
pub mod providers;
pub mod proxies;
pub mod proxy_laws;
pub mod text;
pub mod time;
pub mod update;
pub mod upstream;
pub mod urls;
pub mod usage_laws;
pub mod usage_query;
