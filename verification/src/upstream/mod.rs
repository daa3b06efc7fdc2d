//! What passes between the gateway and an upstream.
pub mod cancellation;
pub mod frame_laws;
pub mod request;
pub mod request_laws;
pub mod sse;
pub mod sse_laws;
pub mod stall;
