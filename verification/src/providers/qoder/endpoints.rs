//! Qoder's regions and the addresses of its services. A region is one of two:
//! no address is taken from outside.
use crate::errors;
use crate::errors::{ErrorV, GatewayError};
use crate::json::{Json, JsonV};
use crate::text;
use crate::urls;
use vstd::prelude::*;
use vstd::string::*;

verus! {

/// Where an account lives.
#[derive(Debug, Clone, Copy, PartialEq, Eq, Structural)]
pub enum Region {
    Global,
    Cn,
}

impl Region {
    /// The region that a name stands for.
    pub open spec fn named(name: Seq<char>) -> Option<Region> {
        let inner = text::trimmed(name);
        if inner.len() == 0 || inner == "global"@ || inner == "intl"@ {
            Some(Region::Global)
        } else if inner == "cn"@ {
            Some(Region::Cn)
        } else {
            None
        }
    }

    /// The region that a name stands for; no name is the global one.
    pub fn parse(value: &str) -> (region: Result<Self, GatewayError>)
        ensures
            match Self::named(value@) {
                Some(r) => region is Ok && region->Ok_0 == r,
                None => region is Err && region->Err_0@ == ErrorV::plain(
                    400,
                    "Qoder 地区必须为 global（国际版）或 cn（中国版）"@,
                ),
            },
    {
        let inner = text::trim(value);
        if inner.is_empty() || text::same(inner, "global") || text::same(inner, "intl") {
            Ok(Region::Global)
        } else if text::same(inner, "cn") {
            Ok(Region::Cn)
        } else {
            Err(GatewayError::with_status(400, "Qoder 地区必须为 global（国际版）或 cn（中国版）"))
        }
    }

    /// The value that names the region of an account.
    pub open spec fn mode_of(payload: JsonV) -> JsonV {
        match payload.get("mode"@) {
            Some(v) => v,
            None => payload.field("edition"@),
        }
    }

    /// The region of an account; one without a region is global.
    pub open spec fn in_payload(payload: JsonV) -> Result<Region, ErrorV> {
        match Self::mode_of(payload) {
            JsonV::Null => Ok(Region::Global),
            JsonV::Str(name) => match Self::named(name) {
                Some(r) => Ok(r),
                None => errors::fail(400, "Qoder 地区必须为 global（国际版）或 cn（中国版）"@),
            },
            _ => errors::fail(400, "Qoder 地区必须是字符串"@),
        }
    }

    /// The region of an account; one without a region is global.
    pub fn from_payload(payload: &Json) -> (region: Result<Self, GatewayError>)
        ensures
            match Self::in_payload(payload@) {
                Ok(r) => region is Ok && region->Ok_0 == r,
                Err(e) => region is Err && region->Err_0@ == e,
            },
    {
        let mode = match payload.get("mode") {
            Some(value) => Some(value),
            None => payload.get("edition"),
        };
        match mode {
            None => Ok(Region::Global),
            Some(value) => match value {
                Json::Null => Ok(Region::Global),
                Json::Text(name) => Self::parse(name.as_str()),
                _ => Err(GatewayError::with_status(400, "Qoder 地区必须是字符串")),
            },
        }
    }

    /// The region that this one is not.
    pub open spec fn other(self) -> Region {
        match self {
            Region::Global => Region::Cn,
            Region::Cn => Region::Global,
        }
    }

    /// The region that this one is not.
    pub fn counterpart(self) -> (region: Region)
        ensures
            region == self.other(),
    {
        match self {
            Region::Global => Region::Cn,
            Region::Cn => Region::Global,
        }
    }

    /// The id of the region.
    pub open spec fn spec_id(self) -> Seq<char> {
        match self {
            Region::Global => "global"@,
            Region::Cn => "cn"@,
        }
    }

    /// The id of the region.
    pub fn id(self) -> (id: &'static str)
        ensures
            id@ == self.spec_id(),
    {
        match self {
            Region::Global => "global",
            Region::Cn => "cn",
        }
    }

    /// The upstream's name of the region.
    pub open spec fn spec_edition(self) -> Seq<char> {
        match self {
            Region::Global => "intl"@,
            Region::Cn => "cn"@,
        }
    }

    /// The upstream's name of the region.
    pub fn edition(self) -> (edition: &'static str)
        ensures
            edition@ == self.spec_edition(),
    {
        match self {
            Region::Global => "intl",
            Region::Cn => "cn",
        }
    }

    /// The name of the region for people.
    pub open spec fn spec_label(self) -> Seq<char> {
        match self {
            Region::Global => "国际版"@,
            Region::Cn => "中国版"@,
        }
    }

    /// The name of the region for people.
    pub fn label(self) -> (label: &'static str)
        ensures
            label@ == self.spec_label(),
    {
        match self {
            Region::Global => "国际版",
            Region::Cn => "中国版",
        }
    }

    /// The base of the open interface.
    pub open spec fn spec_open_api(self) -> Seq<char> {
        match self {
            Region::Global => "https://openapi.qoder.sh"@,
            Region::Cn => "https://openapi.qoder.com.cn"@,
        }
    }

    /// The base of the open interface.
    pub fn open_api(self) -> (base: &'static str)
        ensures
            base@ == self.spec_open_api(),
    {
        match self {
            Region::Global => "https://openapi.qoder.sh",
            Region::Cn => "https://openapi.qoder.com.cn",
        }
    }

    /// The base of the account centre.
    pub open spec fn spec_center(self) -> Seq<char> {
        match self {
            Region::Global => "https://center.qoder.sh"@,
            Region::Cn => "https://gateway.qoder.com.cn"@,
        }
    }

    /// The base of the account centre.
    pub fn center(self) -> (base: &'static str)
        ensures
            base@ == self.spec_center(),
    {
        match self {
            Region::Global => "https://center.qoder.sh",
            Region::Cn => "https://gateway.qoder.com.cn",
        }
    }

    /// The base of the pages for people.
    pub open spec fn spec_web_origin(self) -> Seq<char> {
        match self {
            Region::Global => "https://qoder.com"@,
            Region::Cn => "https://qoder.com.cn"@,
        }
    }

    /// The base of the pages for people.
    pub fn web_origin(self) -> (base: &'static str)
        ensures
            base@ == self.spec_web_origin(),
    {
        match self {
            Region::Global => "https://qoder.com",
            Region::Cn => "https://qoder.com.cn",
        }
    }

    /// The address of the page that lets a device in.
    pub fn device_login_url(self) -> (address: String)
        ensures
            address@ == self.spec_web_origin() + DEVICE_LOGIN_PATH@,
    {
        let mut address = text::owned(self.web_origin());
        address.append(DEVICE_LOGIN_PATH);
        address
    }

    /// The base of the gateway that holds the models and the chats.
    pub open spec fn spec_gateway(self) -> Seq<char> {
        match self {
            Region::Global => "https://api3.qoder.sh/"@,
            Region::Cn => "https://gateway.qoder.com.cn/"@,
        }
    }

    /// The base of the gateway that holds the models and the chats.
    pub fn gateway(self) -> (base: &'static str)
        ensures
            base@ == self.spec_gateway(),
    {
        match self {
            Region::Global => "https://api3.qoder.sh/",
            Region::Cn => "https://gateway.qoder.com.cn/",
        }
    }
}

/// The id and the upstream's name of a region both stand for it.
pub proof fn region_names_round_trip(region: Region)
    ensures
        Region::named(region.spec_id()) == Some(region),
        Region::named(region.spec_edition()) == Some(region),
{
    reveal_strlit("global");
    reveal_strlit("intl");
    reveal_strlit("cn");
    let id = region.spec_id();
    let edition = region.spec_edition();
    assert(text::trimmed(id) == id);
    assert(text::trimmed(edition) == edition);
}

pub const DEVICE_LOGIN_PATH: &'static str = "/device/selectAccounts";
pub const DEVICE_POLL_PATH: &'static str = "/api/v1/deviceToken/poll";
pub const EXCHANGE_PATH: &'static str = "/api/v1/jobToken/exchange";
pub const USER_INFO_PATH: &'static str = "/api/v1/userinfo";
pub const USAGE_PATH: &'static str = "/api/v2/quota/usage";
pub const REFRESH_PATH: &'static str = "/algo/api/v3/user/refresh_token";

/// The headers of the open interface.
pub open spec fn api_headers(token: Option<Seq<char>>) -> Seq<(Seq<char>, Seq<char>)> {
    let plain = Seq::empty().push(("Cosy-Version"@, "1.0.1"@)).push(("Cosy-ClientType"@, "5"@)).push(
        ("User-Agent"@, "qoder-local-proxy"@),
    );
    match token {
        Some(t) => plain.push(("Authorization"@, "Bearer "@ + t)),
        None => plain,
    }
}

/// The headers of the open interface.
pub fn open_api_headers(token: Option<&str>) -> (headers: Vec<(String, String)>)
    ensures
        urls::pairs_view(headers@) == api_headers(crate::json::opt_text(token)),
{
    let mut headers = urls::no_pairs();
    urls::push_pair(&mut headers, "Cosy-Version", "1.0.1");
    urls::push_pair(&mut headers, "Cosy-ClientType", "5");
    urls::push_pair(&mut headers, "User-Agent", "qoder-local-proxy");
    if let Some(token) = token {
        let mut bearer = text::owned("Bearer ");
        bearer.append(token);
        urls::push_pair(&mut headers, "Authorization", bearer.as_str());
    }
    headers
}

} // verus!
