//! The model providers behind the gateway.
pub mod adapter;
pub mod kind;
pub mod qoder;
pub mod raccoon;
pub mod refresh_flight;
pub mod trae;
pub mod workbuddy;
pub mod workbuddy_laws;
pub mod zcode;
