//! The error that the gateway answers with.
use crate::text;
use vstd::prelude::*;

verus! {

/// An error to answer a client with.
#[derive(Debug)]
pub struct GatewayError {
    pub status_code: i32,
    pub message: String,
    pub code: Option<String>,
}

/// What an error means.
#[verifier::ext_equal]
pub ghost struct ErrorV {
    pub status: int,
    pub message: Seq<char>,
    pub code: Option<Seq<char>>,
}

impl View for GatewayError {
    type V = ErrorV;

    open spec fn view(&self) -> ErrorV {
        ErrorV {
            status: self.status_code as int,
            message: self.message@,
            code: match self.code {
                Some(code) => Some(code@),
                None => None,
            },
        }
    }
}

impl ErrorV {
    /// An error with a status and no code.
    pub open spec fn plain(status: int, message: Seq<char>) -> ErrorV {
        ErrorV { status, message, code: None }
    }

    /// The error with a code.
    pub open spec fn coded(self, code: Seq<char>) -> ErrorV {
        ErrorV { code: Some(code), ..self }
    }
}

/// A failure with a status and no code.
pub open spec fn fail<T>(status: int, message: Seq<char>) -> Result<T, ErrorV> {
    Err(ErrorV::plain(status, message))
}

/// What the outcome of a check means.
pub open spec fn check_view(outcome: Result<(), GatewayError>) -> Result<(), ErrorV> {
    match outcome {
        Ok(_) => Ok(()),
        Err(e) => Err(e@),
    }
}

/// What a text or a failure means.
pub open spec fn text_view(outcome: Result<String, GatewayError>) -> Result<Seq<char>, ErrorV> {
    match outcome {
        Ok(s) => Ok(s@),
        Err(e) => Err(e@),
    }
}

impl GatewayError {
    /// An error with a status.
    pub fn with_status(status_code: i32, message: &str) -> (error: Self)
        ensures
            error@ == ErrorV::plain(status_code as int, message@),
    {
        GatewayError { status_code, message: text::owned(message), code: None }
    }

    /// An error that blames the request.
    pub fn bad_request(message: &str) -> (error: Self)
        ensures
            error@ == ErrorV::plain(400, message@),
    {
        Self::with_status(400, message)
    }

    /// The error with a code.
    pub fn with_code(self, code: &str) -> (error: Self)
        ensures
            error@ == self@.coded(code@),
    {
        GatewayError {
            status_code: self.status_code,
            message: self.message,
            code: Some(text::owned(code)),
        }
    }

    /// The error with a code where there is one.
    pub fn with_optional_code(self, code: Option<i64>) -> (error: Self)
        ensures
            error@ == match code {
                Some(code) => self@.coded(text::decimal_int(code as int)),
                None => self@,
            },
    {
        match code {
            Some(code) => {
                let shown = text::signed_text(code);
                self.with_code(shown.as_str())
            },
            None => self,
        }
    }
}

} // verus!
