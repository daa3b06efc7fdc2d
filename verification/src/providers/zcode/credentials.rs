//! The credentials of a ZCode account: a token for answers, a token for plans and
//! the name of a device.
use super::region::Region;
use crate::digest;
use crate::json;
use crate::number;
use crate::providers::qoder::machine;
use crate::text;
use crate::time::Millis;
use vstd::prelude::*;
use vstd::string::*;

verus! {

/// The credentials of an account.
#[derive(Debug)]
pub struct ZcodeCredentials {
    pub region: Region,
    /// The token for answers.
    pub access_token: String,
    /// The token for plans; it can be empty.
    pub jwt: String,
    pub user_id: String,
    /// The name of the device, which stays the same over all calls.
    pub device_mid: String,
}

/// What credentials mean.
#[verifier::ext_equal]
pub ghost struct CredentialsV {
    pub region: Region,
    pub access_token: Seq<char>,
    pub jwt: Seq<char>,
    pub user_id: Seq<char>,
    pub device_mid: Seq<char>,
}

impl View for ZcodeCredentials {
    type V = CredentialsV;

    open spec fn view(&self) -> CredentialsV {
        CredentialsV {
            region: self.region,
            access_token: self.access_token@,
            jwt: self.jwt@,
            user_id: self.user_id@,
            device_mid: self.device_mid@,
        }
    }
}

impl CredentialsV {
    /// The name of the account for people.
    pub open spec fn shown(self) -> Seq<char> {
        let user = text::trimmed(self.user_id);
        if user.len() == 0 {
            "ZCode "@ + self.region.spec_label()
        } else {
            "ZCode "@ + self.region.spec_label() + " · "@ + user
        }
    }

    /// The id of the account.
    pub open spec fn id(self) -> Seq<char> {
        let user = text::trimmed(self.user_id);
        self.region.spec_account_id_prefix() + if user.len() == 0 {
            "unknown"@
        } else {
            user
        }
    }
}

impl ZcodeCredentials {
    /// The name of the account for people.
    pub fn display_name(&self) -> (name: String)
        ensures
            name@ == self@.shown(),
    {
        let mut name = text::owned("ZCode ");
        name.append(self.region.label());
        let user = text::trim(self.user_id.as_str());
        if !user.is_empty() {
            name.append(" · ");
            name.append(user);
        }
        name
    }

    /// The id of the account.
    pub fn account_id(&self) -> (id: String)
        ensures
            id@ == self@.id(),
    {
        let mut id = text::owned(self.region.account_id_prefix());
        let user = text::trim(self.user_id.as_str());
        if user.is_empty() {
            id.append("unknown");
        } else {
            id.append(user);
        }
        id
    }

    /// Whether requests for answers can be made.
    pub fn can_forward(&self) -> (yes: bool)
        ensures
            yes == (text::trimmed(self@.access_token).len() > 0),
    {
        !text::trim(self.access_token.as_str()).is_empty()
    }

    /// Whether plans can be claimed.
    pub fn can_claim(&self) -> (yes: bool)
        ensures
            yes == (text::trimmed(self@.jwt).len() > 0),
    {
        !text::trim(self.jwt.as_str()).is_empty()
    }
}

/// A time in milliseconds, from a number of seconds or milliseconds told apart by
/// its size.
pub open spec fn millis_of(bits: u64) -> Millis {
    if number::ceil_of(bits) > 1_000_000_000_000 {
        Millis { bits }
    } else {
        Millis { bits: number::thousandfold(bits) }
    }
}

/// The bytes that a part of a token writes.
pub open spec fn payload_bytes(part: Seq<char>) -> Option<Seq<u8>> {
    let body = text::without_end(part, '=');
    match digest::base64_url_decoded(body) {
        Some(bytes) => Some(bytes),
        None => digest::base64_url_padded_decoded(body),
    }
}

/// The time at which a token ends, in milliseconds; nothing where it does not say.
pub open spec fn token_end(token: Seq<char>) -> Option<Millis> {
    let parts = text::parts(text::trimmed(token), '.');
    if parts.len() < 2 {
        None
    } else {
        match payload_bytes(parts[1]) {
            None => None,
            Some(bytes) => match json::parsed_json_bytes(bytes) {
                None => None,
                Some(claims) => match claims.get("exp"@) {
                    None => None,
                    Some(v) => match json::number_bits(v) {
                        Some(bits) => Some(millis_of(bits)),
                        None => None,
                    },
                },
            },
        }
    }
}

/// The time at which a token ends; nothing where it does not say.
fn jwt_expires_at_ms(token: &str) -> (millis: Option<Millis>)
    ensures
        millis == token_end(token@),
{
    let parts = text::split(text::trim(token), '.');
    let ghost all = text::parts(text::trimmed(token@), '.');
    assert(text::views(parts@).len() == parts@.len());
    if parts.len() < 2 {
        return None;
    }
    assert(text::views(parts@)[1] == parts@[1]@);
    let body = text::trim_end_of(parts[1].as_str(), '=');
    let bytes = match digest::decode_base64_url(body) {
        Some(bytes) => bytes,
        None => match digest::decode_base64_url_padded(body) {
            Some(bytes) => bytes,
            None => return None,
        },
    };
    let claims = match json::parse_json_bytes(&bytes) {
        Some(claims) => claims,
        None => return None,
    };
    let end = match claims.get("exp") {
        Some(value) => json::to_double(value),
        None => return None,
    };
    match end {
        Some(end) => {
            let bits: u64 = end.bits();
            if number::ceil_i64(bits) > 1_000_000_000_000 {
                Some(Millis { bits })
            } else {
                Some(Millis { bits: number::by_thousand(bits) })
            }
        },
        None => None,
    }
}

/// The time at which credentials end: that of the token for answers, else that of
/// the token for plans.
pub fn expires_at_ms(credentials: &ZcodeCredentials) -> (millis: Option<Millis>)
    ensures
        millis == match token_end(credentials@.access_token) {
            Some(t) => Some(t),
            None => token_end(credentials@.jwt),
        },
{
    match jwt_expires_at_ms(credentials.access_token.as_str()) {
        Some(millis) => Some(millis),
        None => jwt_expires_at_ms(credentials.jwt.as_str()),
    }
}

/// A new name for a device: a random UUID, or nothing where no random bytes can
/// be had.
pub fn new_device_mid() -> (mid: Option<String>)
    ensures
        mid matches Some(m) ==> machine::is_uuid(m@),
{
    match digest::random_bytes(16) {
        Some(bytes) => Some(machine::uuid_from(bytes)),
        None => None,
    }
}

/// The accounts of the two regions never have one id, whatever their users are
/// called.
pub proof fn regions_share_no_account(a: CredentialsV, b: CredentialsV)
    requires
        a.region != b.region,
    ensures
        a.id() != b.id(),
{
    reveal_strlit("zcode-user-");
    reveal_strlit("zcode-intl-user-");
    let (cn, intl) = if a.region == Region::Cn {
        (a, b)
    } else {
        (b, a)
    };
    assert(cn.id()[6] == 'u');
    assert(intl.id()[6] == 'i');
}

} // verus!
