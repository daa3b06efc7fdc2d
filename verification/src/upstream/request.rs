//! Sending a request to an upstream and reading its errors.
use crate::errors::{ErrorV, GatewayError};
use crate::json;
use crate::json::{Json, JsonV};
use crate::providers::adapter::ChatRequestPlan;
use crate::providers::qoder::machine;
use crate::proxies::{ProxyV, ResolvedProxy};
use crate::text;
use crate::urls;
use vstd::prelude::*;
use vstd::string::*;

verus! {

/// An upstream's error.
#[derive(Debug)]
pub struct UpstreamErrorDetail {
    pub code: Option<i64>,
    pub message: String,
}

/// What an upstream's error means.
#[verifier::ext_equal]
pub ghost struct DetailV {
    pub code: Option<int>,
    pub message: Seq<char>,
}

impl View for UpstreamErrorDetail {
    type V = DetailV;

    open spec fn view(&self) -> DetailV {
        DetailV {
            code: match self.code {
                Some(n) => Some(n as int),
                None => None,
            },
            message: self.message@,
        }
    }
}

impl UpstreamErrorDetail {
    /// The error as a value.
    pub fn to_value(&self) -> (value: Json)
        ensures
            value@ == JsonV::object().put(
                "code"@,
                match self@.code {
                    Some(n) => JsonV::Int(n),
                    None => JsonV::Null,
                },
            ).put("message"@, JsonV::Str(self@.message)),
    {
        let mut value = Json::object();
        value.put(
            "code",
            match self.code {
                Some(n) => Json::number(n),
                None => Json::Null,
            },
        );
        value.put("message", Json::text(self.message.as_str()));
        value
    }
}

/// A text that is there and not empty.
pub open spec fn said(content: Option<Seq<char>>) -> Option<Seq<char>> {
    match content {
        Some(s) => if s.len() > 0 {
            Some(s)
        } else {
            None
        },
        None => None,
    }
}

/// The message of an error in a payload, or `otherwise`.
pub open spec fn message_in(payload: JsonV, otherwise: Seq<char>) -> Seq<char> {
    if said(payload.text_at("message"@)) is Some {
        payload.text_at("message"@).unwrap()
    } else if said(payload.text_at("msg"@)) is Some {
        payload.text_at("msg"@).unwrap()
    } else if said(payload.field("error"@).text_at("message"@)) is Some {
        payload.field("error"@).text_at("message"@).unwrap()
    } else {
        otherwise
    }
}

/// The error that an answer states: what its JSON says, else its beginning.
pub open spec fn error_in(content: Seq<char>, payload: Option<JsonV>) -> DetailV {
    let start = text::first_chars(content, 500);
    match payload {
        Some(v) => DetailV {
            code: v.field("code"@).as_int(),
            message: message_in(v, start),
        },
        None => DetailV { code: None, message: start },
    }
}

/// A text that is there and not empty.
fn say(content: Option<&str>) -> (some: Option<&str>)
    ensures
        json::opt_text(some) == said(json::opt_text(content)),
{
    match content {
        Some(s) => if s.is_empty() {
            None
        } else {
            Some(s)
        },
        None => None,
    }
}

/// The error that an answer states, its JSON read already.
pub fn detail_of(content: &str, payload: Option<&Json>) -> (detail: UpstreamErrorDetail)
    ensures
        detail@ == error_in(content@, json::opt_view(payload)),
{
    let start = text::owned(text::take_chars(content, 500));
    let payload = match payload {
        Some(payload) => payload,
        None => return UpstreamErrorDetail { code: None, message: start },
    };
    let code = match payload.get("code") {
        Some(value) => value.as_int(),
        None => None,
    };
    let error = payload.field("error");
    let message = match say(payload.text_at("message")) {
        Some(s) => text::owned(s),
        None => match say(payload.text_at("msg")) {
            Some(s) => text::owned(s),
            None => match say(error.text_at("message")) {
                Some(s) => text::owned(s),
                None => start,
            },
        },
    };
    UpstreamErrorDetail { code, message }
}

/// The error that the text of an answer states.
pub fn read_upstream_error(content: &str) -> (detail: UpstreamErrorDetail)
    ensures
        detail@ == error_in(content@, json::parsed_json(content@)),
{
    match json::parse_json(content) {
        Some(payload) => detail_of(content, Some(&payload)),
        None => detail_of(content, None),
    }
}

/// By which way a request goes out.
pub open spec fn via(proxy: Option<(Seq<char>, Seq<char>)>) -> Seq<char> {
    match proxy {
        Some(p) => if p.0.len() > 0 {
            "经代理 "@ + p.0
        } else {
            "经代理 "@ + p.1
        },
        None => "直连"@,
    }
}

/// How a request that could not be sent reads. A proxy is given by its label and
/// its host.
pub fn describe_failure(lead: &str, proxy: Option<(&str, &str)>, reason: &str) -> (message: String)
    ensures
        message@ == lead@ + "（"@ + via(
            match proxy {
                Some(p) => Some((p.0@, p.1@)),
                None => None,
            },
        ) + "）: "@ + reason@,
{
    let mut message = text::owned(lead);
    message.append("（");
    let ghost before = message@;
    match proxy {
        Some(p) => {
            message.append("经代理 ");
            if p.0.is_empty() {
                message.append(p.1);
            } else {
                message.append(p.0);
            }
        },
        None => message.append("直连"),
    }
    assert(message@ =~= before + via(
        match proxy {
            Some(p) => Some((p.0@, p.1@)),
            None => None,
        },
    ));
    message.append("）: ");
    message.append(reason);
    message
}

/// A request that could not be sent.
#[derive(Debug)]
pub struct UpstreamRequestError {
    pub message: String,
}

impl UpstreamRequestError {
    /// The error to answer the client with.
    pub fn to_gateway_error(&self) -> (error: GatewayError)
        ensures
            error@ == ErrorV::plain(502, self.message@),
    {
        GatewayError::with_status(502, self.message.as_str())
    }
}

/// A request to an upstream, ready to be sent.
#[derive(Debug)]
pub struct TransportRequest {
    pub url: String,
    pub headers: Vec<(String, String)>,
    /// The body as it is written.
    pub payload: String,
    /// The proxy to go by.
    pub proxy: Option<ResolvedProxy>,
}

/// What such a request means.
#[verifier::ext_equal]
pub ghost struct TransportV {
    pub url: Seq<char>,
    pub headers: Seq<(Seq<char>, Seq<char>)>,
    pub payload: Seq<char>,
    pub proxy: Option<ProxyV>,
}

impl View for TransportRequest {
    type V = TransportV;

    open spec fn view(&self) -> TransportV {
        TransportV {
            url: self.url@,
            headers: urls::pairs_view(self.headers@),
            payload: self.payload@,
            proxy: match self.proxy {
                Some(p) => Some(p@),
                None => None,
            },
        }
    }
}

impl TransportRequest {
    /// A request with its body written out.
    pub fn of_plan(plan: ChatRequestPlan, proxy: Option<ResolvedProxy>) -> (request: Self)
        ensures
            request@ == (TransportV {
                url: plan@.url,
                headers: plan@.headers,
                payload: json::json_text(plan@.body),
                proxy: match proxy {
                    Some(p) => Some(p@),
                    None => None,
                },
            }),
    {
        let payload = json::write_json(&plan.body);
        TransportRequest { url: plan.url, headers: plan.headers, payload, proxy }
    }

    /// The error of a request that could not be sent.
    pub fn send_error(&self, reason: &str) -> (error: UpstreamRequestError)
        ensures
            error.message@ == "上游请求失败（"@ + via(
                match self@.proxy {
                    Some(p) => Some((p.label, p.host)),
                    None => None,
                },
            ) + "）: "@ + reason@,
    {
        let way = match &self.proxy {
            Some(proxy) => Some((proxy.label.as_str(), proxy.host.as_str())),
            None => None,
        };
        let message = describe_failure("上游请求失败", way, reason);
        proof {
            reveal_strlit("上游请求失败");
            reveal_strlit("（");
            reveal_strlit("上游请求失败（");
            assert("上游请求失败"@ + "（"@ =~= "上游请求失败（"@);
        }
        UpstreamRequestError { message }
    }
}

/// The id made of two numbers.
pub open spec fn request_id(first: u64, second: u64) -> Seq<char> {
    machine::uuid_of(be_u64(first) + be_u64(second))
}

/// The id of a round of conversation, made of two numbers that are unlikely to
/// come again.
pub fn new_request_id(first: u64, second: u64) -> (id: String)
    ensures
        machine::is_uuid(id@),
        id@ == request_id(first, second),
{
    let mut bytes: Vec<u8> = Vec::new();
    push_u64(&mut bytes, first);
    push_u64(&mut bytes, second);
    assert(bytes@ =~= be_u64(first) + be_u64(second));
    machine::uuid_from(bytes)
}

/// The bytes of a number, the most significant first.
pub open spec fn be_u64(n: u64) -> Seq<u8> {
    crate::digest::be_bytes(n as nat, 8)
}

/// Appends the bytes of a number, the most significant first.
fn push_u64(bytes: &mut Vec<u8>, n: u64)
    ensures
        final(bytes)@ == old(bytes)@ + be_u64(n),
        be_u64(n).len() == 8,
{
    proof {
        reveal_with_fuel(crate::digest::be_bytes, 9);
    }
    let ghost before = bytes@;
    let b7: u8 = (n % 256) as u8;
    let n6: u64 = n / 256;
    let b6: u8 = (n6 % 256) as u8;
    let n5: u64 = n6 / 256;
    let b5: u8 = (n5 % 256) as u8;
    let n4: u64 = n5 / 256;
    let b4: u8 = (n4 % 256) as u8;
    let n3: u64 = n4 / 256;
    let b3: u8 = (n3 % 256) as u8;
    let n2: u64 = n3 / 256;
    let b2: u8 = (n2 % 256) as u8;
    let n1: u64 = n2 / 256;
    let b1: u8 = (n1 % 256) as u8;
    let n0: u64 = n1 / 256;
    let b0: u8 = (n0 % 256) as u8;
    bytes.push(b0);
    bytes.push(b1);
    bytes.push(b2);
    bytes.push(b3);
    bytes.push(b4);
    bytes.push(b5);
    bytes.push(b6);
    bytes.push(b7);
    assert(bytes@ =~= before + be_u64(n));
}

} // verus!
