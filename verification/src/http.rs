//! What a service answered.
use crate::json;
use crate::json::{Json, JsonV};
use crate::urls;
use vstd::prelude::*;

verus! {

/// The answer of a service to a call.
#[derive(Debug)]
pub struct ApiResponse {
    pub ok: bool,
    pub status: u16,
    /// The JSON value in the body, where it is one.
    pub payload: Option<Json>,
}

/// What an answer means.
pub ghost struct ResponseV {
    pub ok: bool,
    pub status: u16,
    pub payload: Option<JsonV>,
}

impl View for ApiResponse {
    type V = ResponseV;

    open spec fn view(&self) -> ResponseV {
        ResponseV { ok: self.ok, status: self.status, payload: json::owned_view(self.payload) }
    }
}

/// A call to a service.
#[derive(Debug)]
pub struct ApiRequest {
    pub method: &'static str,
    pub url: String,
    pub headers: Vec<(String, String)>,
    pub body: Option<Json>,
}

/// What a call means.
#[verifier::ext_equal]
pub ghost struct RequestV {
    pub method: Seq<char>,
    pub url: Seq<char>,
    pub headers: Seq<(Seq<char>, Seq<char>)>,
    pub body: Option<JsonV>,
}

impl View for ApiRequest {
    type V = RequestV;

    open spec fn view(&self) -> RequestV {
        RequestV {
            method: self.method@,
            url: self.url@,
            headers: urls::pairs_view(self.headers@),
            body: json::owned_view(self.body),
        }
    }
}

/// What a call or a failure to make one means.
pub open spec fn request_view(outcome: Result<ApiRequest, crate::errors::GatewayError>) -> Result<
    RequestV,
    crate::errors::ErrorV,
> {
    match outcome {
        Ok(request) => Ok(request@),
        Err(e) => Err(e@),
    }
}

} // verus!
