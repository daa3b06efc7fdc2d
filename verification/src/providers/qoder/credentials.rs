//! Qoder's credentials.
//!
//! A refresh token ends in the user and the machine it belongs to. One from a
//! personal access token begins with `pat` and that token, and any other with
//! the refresh token of a login.
use super::endpoints::Region;
use super::machine;
use crate::errors;
use crate::errors::{ErrorV, GatewayError};
use crate::json;
use crate::json::{Json, JsonV};
use crate::text;
use crate::time;
use vstd::prelude::*;
use vstd::string::*;
use vstd::utf8::*;

verus! {

/// How long before its end a token is renewed.
pub const REFRESH_MARGIN_MS: i64 = 300000;

/// The credentials of an account.
#[derive(Debug)]
pub struct Credentials {
    pub region: Region,
    pub access_token: String,
    pub refresh_token: String,
    pub expires_at: Option<i64>,
    pub user_id: String,
    pub email: String,
    pub name: String,
    pub machine_id: String,
}

/// What credentials mean.
#[verifier::ext_equal]
pub ghost struct CredentialsV {
    pub region: Region,
    pub access_token: Seq<char>,
    pub refresh_token: Seq<char>,
    pub expires_at: Option<int>,
    pub user_id: Seq<char>,
    pub email: Seq<char>,
    pub name: Seq<char>,
    pub machine_id: Seq<char>,
}

impl View for Credentials {
    type V = CredentialsV;

    open spec fn view(&self) -> CredentialsV {
        CredentialsV {
            region: self.region,
            access_token: self.access_token@,
            refresh_token: self.refresh_token@,
            expires_at: time::opt_time(self.expires_at),
            user_id: self.user_id@,
            email: self.email@,
            name: self.name@,
            machine_id: self.machine_id@,
        }
    }
}

/// What credentials or a failure mean.
pub open spec fn outcome_view(outcome: Result<Credentials, GatewayError>) -> Result<
    CredentialsV,
    ErrorV,
> {
    match outcome {
        Ok(c) => Ok(c@),
        Err(e) => Err(e@),
    }
}

/// What one entry says: a text that is not blank, or a number.
pub open spec fn entry_text(value: JsonV) -> Option<Seq<char>> {
    match value {
        JsonV::Str(s) => if text::trimmed(s).len() > 0 {
            Some(text::trimmed(s))
        } else {
            None
        },
        JsonV::Int(_) => Some(value.shown()),
        JsonV::Float { .. } => Some(value.shown()),
        _ => None,
    }
}

/// What the first of some entries says that says something.
pub open spec fn text_of(payload: JsonV, keys: Seq<&str>) -> Seq<char>
    decreases keys.len(),
{
    if keys.len() == 0 {
        Seq::empty()
    } else {
        match entry_text(payload.field(keys[0]@)) {
            Some(s) => s,
            None => text_of(payload, keys.skip(1)),
        }
    }
}

/// What the first of some entries says that says something, or nothing.
pub fn text(payload: &Json, keys: &[&str]) -> (content: String)
    ensures
        content@ == text_of(payload@, keys@),
{
    let mut i: usize = 0;
    assert(keys@.skip(0) =~= keys@);
    while i < keys.len()
        invariant
            i <= keys.len(),
            text_of(payload@, keys@) == text_of(payload@, keys@.skip(i as int)),
        decreases keys.len() - i,
    {
        assert(keys@.skip(i as int)[0] == keys@[i as int]);
        assert(keys@.skip(i as int).skip(1) =~= keys@.skip(i as int + 1));
        if let Some(value) = payload.get(keys[i]) {
            match value {
                Json::Text(s) => {
                    let inner = text::trim(s.as_str());
                    if !inner.is_empty() {
                        return text::owned(inner);
                    }
                },
                Json::Natural(_) => return value.shown(),
                Json::Negative(_) => return value.shown(),
                Json::Float(_) => return value.shown(),
                _ => {},
            }
        }
        i += 1;
    }
    String::new()
}

/// The first of some entries that is a text and not blank, trimmed.
pub open spec fn first_text(payload: JsonV, keys: Seq<&str>) -> Seq<char>
    decreases keys.len(),
{
    if keys.len() == 0 {
        Seq::empty()
    } else {
        match payload.text_at(keys[0]@) {
            Some(s) => if text::trimmed(s).len() > 0 {
                text::trimmed(s)
            } else {
                first_text(payload, keys.skip(1))
            },
            None => first_text(payload, keys.skip(1)),
        }
    }
}

/// A token without the word `Bearer` before it.
pub open spec fn bare_token(s: Seq<char>) -> Seq<char> {
    if s.len() >= 7 && text::ascii_lowercase(s.take(7)) == "bearer "@ {
        text::trimmed(s.skip(7))
    } else {
        s
    }
}

/// Whether a text holds a control character.
pub open spec fn has_control(s: Seq<char>) -> bool {
    exists|i: int| 0 <= i < s.len() && machine::is_control(#[trigger] s[i])
}

/// Whether a text holds a control character.
fn holds_control(content: &str) -> (yes: bool)
    ensures
        yes == has_control(content@),
{
    let chars = text::chars_of(content);
    let mut i: usize = 0;
    while i < chars.len()
        invariant
            chars@ == content@,
            i <= chars.len(),
            forall|k: int| 0 <= k < i ==> !machine::is_control(#[trigger] content@[k]),
        decreases chars.len() - i,
    {
        let c = chars[i];
        if c <= '\u{1f}' || ('\u{7f}' <= c && c <= '\u{9f}') {
            assert(machine::is_control(content@[i as int]));
            return true;
        }
        i += 1;
    }
    false
}

/// The secret that an account gives: a token without `Bearer`, at most `longest`
/// bytes and without control characters.
pub open spec fn secret_of(payload: JsonV, keys: Seq<&str>, longest: int) -> Result<
    Seq<char>,
    ErrorV,
> {
    let token = bare_token(first_text(payload, keys));
    if encode_utf8(token).len() > longest || has_control(token) {
        errors::fail(400, "Qoder 凭证过长或包含非法控制字符"@)
    } else {
        Ok(token)
    }
}

/// The first of some entries that is a text and not blank, trimmed.
fn find_text(payload: &Json, keys: &[&str]) -> (content: String)
    ensures
        content@ == first_text(payload@, keys@),
{
    let mut i: usize = 0;
    assert(keys@.skip(0) =~= keys@);
    while i < keys.len()
        invariant
            i <= keys.len(),
            first_text(payload@, keys@) == first_text(payload@, keys@.skip(i as int)),
        decreases keys.len() - i,
    {
        assert(keys@.skip(i as int)[0] == keys@[i as int]);
        assert(keys@.skip(i as int).skip(1) =~= keys@.skip(i as int + 1));
        if let Some(s) = payload.text_at(keys[i]) {
            let inner = text::trim(s);
            if !inner.is_empty() {
                return text::owned(inner);
            }
        }
        i += 1;
    }
    String::new()
}

/// A token without the word `Bearer` before it.
fn strip_bearer(token: &str) -> (bare: &str)
    ensures
        bare@ == bare_token(token@),
{
    let count: usize = token.unicode_len();
    if count < 7 {
        return token;
    }
    let head = token.substring_char(0, 7);
    assert(head@ =~= token@.take(7));
    let lower = text::text_of(&text::lower_chars(head));
    if text::same(lower.as_str(), "bearer ") {
        let rest = token.substring_char(7, count);
        assert(rest@ =~= token@.skip(7));
        text::trim(rest)
    } else {
        token
    }
}

/// The secret that an account gives: a token without `Bearer`, at most `longest`
/// bytes and without control characters.
pub fn secret(payload: &Json, keys: &[&str], longest: usize) -> (token: Result<
    String,
    GatewayError,
>)
    ensures
        errors::text_view(token) == secret_of(payload@, keys@, longest as int),
{
    let found = find_text(payload, keys);
    let token = strip_bearer(found.as_str());
    if token.as_bytes().len() > longest || holds_control(token) {
        return Err(GatewayError::with_status(400, "Qoder 凭证过长或包含非法控制字符"));
    }
    Ok(text::owned(token))
}

/// Whether a text can name a user or a machine.
pub open spec fn is_identity(s: Seq<char>) -> bool {
    encode_utf8(s).len() <= 256 && !s.contains('|') && !has_control(s)
}

/// The failure of a text that cannot name a user or a machine.
pub open spec fn identity_error() -> ErrorV {
    ErrorV::plain(400, "Qoder 用户或设备标识无效"@)
}

/// Checks that a text can name a user or a machine.
fn validate_identity(value: &str) -> (outcome: Result<(), GatewayError>)
    ensures
        errors::check_view(outcome) == if is_identity(value@) {
            Ok(())
        } else {
            Err(identity_error())
        },
{
    if value.as_bytes().len() > 256 || text::has_char(value, '|') || holds_control(value) {
        return Err(GatewayError::with_status(400, "Qoder 用户或设备标识无效"));
    }
    Ok(())
}

/// The time that an entry gives: seconds or milliseconds, or a text.
pub open spec fn time_of(value: JsonV) -> Option<int> {
    let number = match value.as_int() {
        Some(n) => Some(n),
        None => match value {
            JsonV::Str(s) => match text::written_int(text::trimmed(s)) {
                Some(n) => if i64::MIN <= n <= i64::MAX {
                    Some(n)
                } else {
                    None
                },
                None => None,
            },
            _ => None,
        },
    };
    if number is Some && number.unwrap() > 0 {
        if number.unwrap() < 100_000_000_000 {
            Some(number.unwrap() * 1000)
        } else {
            number
        }
    } else {
        match value {
            JsonV::Str(s) => time::rfc3339_millis(s),
            _ => None,
        }
    }
}

/// The time that an entry gives, in milliseconds: a number of seconds or of
/// milliseconds, told apart by its size, or a text.
pub fn timestamp(value: Option<&Json>) -> (millis: Option<i64>)
    ensures
        time::opt_time(millis) == match json::opt_view(value) {
            Some(v) => time_of(v),
            None => None,
        },
{
    let value = match value {
        Some(value) => value,
        None => return None,
    };
    let number = match value.as_int() {
        Some(n) => Some(n),
        None => match value.as_text() {
            Some(s) => text::parse_i64(text::trim(s)),
            None => None,
        },
    };
    if let Some(n) = number {
        if n > 0 {
            if n < 100_000_000_000 {
                return Some(n * 1000);
            }
            return Some(n);
        }
    }
    match value.as_text() {
        Some(s) => time::parse_rfc3339(s),
        None => None,
    }
}

/// The user and the machine packed into a refresh token, where it has one of the
/// three forms.
pub open spec fn packed(refresh: Seq<char>) -> Option<(Seq<char>, Seq<char>)> {
    let p = text::parts(refresh, '|');
    if p.len() == 5 && p[0] == "pat"@ && p[1].len() > 0 {
        Some((p[3], p[4]))
    } else if p.len() == 3 {
        Some((p[1], p[2]))
    } else if p.len() == 1 {
        Some((Seq::empty(), Seq::empty()))
    } else {
        None
    }
}

/// The first text, or the second where the first is empty.
pub open spec fn either(first: Seq<char>, second: Seq<char>) -> Seq<char> {
    if first.len() == 0 {
        second
    } else {
        first
    }
}

/// The time that the first of some entries gives.
pub open spec fn first_time(payload: JsonV, keys: Seq<&str>) -> Option<int>
    decreases keys.len(),
{
    if keys.len() == 0 {
        None
    } else {
        let own = match payload.get(keys[0]@) {
            Some(v) => time_of(v),
            None => None,
        };
        if own is Some {
            own
        } else {
            first_time(payload, keys.skip(1))
        }
    }
}

/// The time that the first of some entries gives.
fn find_time(payload: &Json, keys: &[&str]) -> (millis: Option<i64>)
    ensures
        time::opt_time(millis) == first_time(payload@, keys@),
{
    let mut i: usize = 0;
    assert(keys@.skip(0) =~= keys@);
    while i < keys.len()
        invariant
            i <= keys.len(),
            first_time(payload@, keys@) == first_time(payload@, keys@.skip(i as int)),
        decreases keys.len() - i,
    {
        assert(keys@.skip(i as int)[0] == keys@[i as int]);
        assert(keys@.skip(i as int).skip(1) =~= keys@.skip(i as int + 1));
        let own = timestamp(payload.get(keys[i]));
        if own.is_some() {
            return own;
        }
        i += 1;
    }
    None
}

/// The credentials that a record of an account holds.
pub open spec fn credentials_in(payload: JsonV, longest: int) -> Result<CredentialsV, ErrorV> {
    if !(payload is Obj) {
        errors::fail(400, "Qoder 账号内容必须是 JSON 对象"@)
    } else {
        match Region::in_payload(payload) {
            Err(e) => Err(e),
            Ok(region) => match secret_of(
                payload,
                seq!["accessToken", "access", "token", "access_token"],
                longest,
            ) {
                Err(e) => Err(e),
                Ok(access) => if access.len() == 0 {
                    errors::fail(400, "缺少 Qoder access / accessToken"@)
                } else {
                    match secret_of(
                        payload,
                        seq!["refreshToken", "refresh", "refresh_token"],
                        longest,
                    ) {
                        Err(e) => Err(e),
                        Ok(refresh) => identified(payload, region, access, refresh),
                    }
                },
            },
        }
    }
}

/// The credentials of a record whose tokens have been read.
pub open spec fn identified(
    payload: JsonV,
    region: Region,
    access: Seq<char>,
    refresh: Seq<char>,
) -> Result<CredentialsV, ErrorV> {
    let user = text_of(payload, seq!["userId", "user_id", "uid"]);
    let device = text_of(payload, seq!["machineId", "machine_id"]);
    match packed(refresh) {
        None => errors::fail(400, "Qoder refresh 格式无效，请粘贴完整账号记录"@),
        Some(p) => if !is_identity(user) {
            Err(identity_error())
        } else if user.len() > 0 && p.0.len() > 0 && user != p.0 {
            errors::fail(400, "Qoder userId 与刷新凭证中的用户不一致"@)
        } else if !is_identity(device) {
            Err(identity_error())
        } else if device.len() > 0 && p.1.len() > 0 && device != p.1 {
            errors::fail(400, "Qoder machineId 与刷新凭证中的设备不一致"@)
        } else if !is_identity(either(user, p.0)) || !is_identity(either(device, p.1)) {
            Err(identity_error())
        } else {
            let whole = if text::parts(refresh, '|').len() == 1 && refresh.len() > 0 {
                packed_token(refresh, either(user, p.0), either(device, p.1))
            } else {
                refresh
            };
            Ok(
                CredentialsV {
                    region,
                    access_token: access,
                    refresh_token: whole,
                    expires_at: first_time(
                        payload,
                        seq!["expiresAt", "expires", "expires_at", "tokenExpiresAt"],
                    ),
                    user_id: either(user, p.0),
                    email: text::first_chars(text_of(payload, seq!["email"]), 320),
                    name: text::first_chars(text_of(payload, seq!["nickname", "name"]), 100),
                    machine_id: either(device, p.1),
                },
            )
        },
    }
}

/// A token with the user and the machine it belongs to.
pub open spec fn packed_token(token: Seq<char>, user: Seq<char>, device: Seq<char>) -> Seq<char> {
    token + "|"@ + user + "|"@ + device
}

/// A token with the user and the machine it belongs to.
pub fn pack(token: &str, user: &str, device: &str) -> (whole: String)
    ensures
        whole@ == packed_token(token@, user@, device@),
{
    let mut whole = text::owned(token);
    whole.append("|");
    whole.append(user);
    whole.append("|");
    whole.append(device);
    whole
}

/// A refresh token without the user and the machine at its end.
pub open spec fn token_prefix(refresh: Seq<char>) -> Seq<char> {
    match text::last_place(refresh, '|') {
        Some(last) => match text::last_place(refresh.take(last), '|') {
            Some(second) => refresh.take(second),
            None => refresh,
        },
        None => refresh,
    }
}

/// A refresh token without the user and the machine at its end.
fn prefix_of(refresh: &str) -> (prefix: &str)
    ensures
        prefix@ == token_prefix(refresh@),
{
    let chars = text::chars_of(refresh);
    assert(refresh@.take(refresh@.len() as int) =~= refresh@);
    let last = match text::find_last(&chars, '|', chars.len()) {
        Some(last) => last,
        None => return refresh,
    };
    match text::find_last(&chars, '|', last) {
        Some(second) => {
            let prefix = refresh.substring_char(0, second);
            assert(prefix@ =~= refresh@.take(second as int));
            prefix
        },
        None => refresh,
    }
}

/// The personal access token in a refresh token.
pub open spec fn pat_in(refresh: Seq<char>) -> Option<Seq<char>> {
    match text::after_prefix(refresh, "pat|"@) {
        Some(rest) => if text::before_char(rest, '|').len() > 0 {
            Some(text::before_char(rest, '|'))
        } else {
            None
        },
        None => None,
    }
}

/// The refresh token of a login in a refresh token; nothing where there is a
/// personal access token.
pub open spec fn login_refresh_in(refresh: Seq<char>) -> Seq<char> {
    if pat_in(refresh) is Some {
        Seq::empty()
    } else {
        text::before_char(refresh, '|')
    }
}

impl CredentialsV {
    /// The credentials with user and machine complete: the refresh token ends in
    /// both, and what comes before stays.
    pub open spec fn completed(self, machine: Seq<char>, longest: int) -> Result<
        CredentialsV,
        ErrorV,
    > {
        let device = either(self.machine_id, machine);
        let refresh = if self.refresh_token.len() == 0 {
            self.refresh_token
        } else {
            packed_token(token_prefix(self.refresh_token), self.user_id, device)
        };
        if self.user_id.len() == 0 {
            errors::fail(400, "缺少 Qoder userId，无法标识账号，请重新登录或粘贴完整账号记录"@)
        } else if !is_identity(self.user_id) {
            Err(identity_error())
        } else if device.len() == 0 {
            errors::fail(500, "无法生成 Qoder 机器标识"@)
        } else if !is_identity(device) {
            Err(identity_error())
        } else if encode_utf8(refresh).len() > longest {
            errors::fail(400, "Qoder 刷新凭证过长"@)
        } else {
            Ok(CredentialsV { machine_id: device, refresh_token: refresh, ..self })
        }
    }

    /// Whether the credentials can be renewed.
    pub open spec fn renewable(self) -> bool {
        pat_in(self.refresh_token) is Some || login_refresh_in(self.refresh_token).len() > 0
    }

    /// The record of the credentials; what is empty is null.
    pub open spec fn record(self) -> JsonV {
        JsonV::object().put("mode"@, JsonV::Str(self.region.spec_id())).put(
            "accessToken"@,
            or_null(self.access_token),
        ).put("refreshToken"@, or_null(self.refresh_token)).put(
            "expiresAt"@,
            match self.expires_at {
                Some(t) => JsonV::Int(t),
                None => JsonV::Null,
            },
        ).put("userId"@, or_null(self.user_id)).put("email"@, or_null(self.email)).put(
            "nickname"@,
            or_null(self.name),
        ).put("machineId"@, or_null(self.machine_id))
    }
}

/// A text, or null for an empty one.
pub open spec fn or_null(s: Seq<char>) -> JsonV {
    if s.len() == 0 {
        JsonV::Null
    } else {
        JsonV::Str(s)
    }
}

/// A text, or null for an empty one.
fn text_or_null(content: &str) -> (value: Json)
    ensures
        value@ == or_null(content@),
{
    if content.is_empty() {
        Json::Null
    } else {
        Json::text(content)
    }
}

impl Clone for Credentials {
    fn clone(&self) -> (copy: Self)
        ensures
            copy@ == self@,
    {
        Credentials {
            region: self.region,
            access_token: text::owned(self.access_token.as_str()),
            refresh_token: text::owned(self.refresh_token.as_str()),
            expires_at: self.expires_at,
            user_id: text::owned(self.user_id.as_str()),
            email: text::owned(self.email.as_str()),
            name: text::owned(self.name.as_str()),
            machine_id: text::owned(self.machine_id.as_str()),
        }
    }
}

impl Credentials {
    /// The credentials of a record whose tokens have been read.
    fn identify(payload: &Json, region: Region, access_token: String, refresh: String) -> (outcome:
        Result<Self, GatewayError>)
        ensures
            outcome_view(outcome) == identified(payload@, region, access_token@, refresh@),
    {
        let parts = text::split(refresh.as_str(), '|');
        let ghost p = text::parts(refresh@, '|');
        assert(forall|i: int| 0 <= i < parts@.len() ==> p[i] == (#[trigger] parts@[i])@);
        let from_pat = parts.len() == 5 && text::same(parts[0].as_str(), "pat")
            && !parts[1].as_str().is_empty();
        let (packed_user, packed_machine) = if from_pat {
            (text::owned(parts[3].as_str()), text::owned(parts[4].as_str()))
        } else if parts.len() == 3 {
            (text::owned(parts[1].as_str()), text::owned(parts[2].as_str()))
        } else if parts.len() == 1 {
            (String::new(), String::new())
        } else {
            return Err(
                GatewayError::with_status(400, "Qoder refresh 格式无效，请粘贴完整账号记录"),
            );
        };
        assert(packed(refresh@) == Some((packed_user@, packed_machine@)));
        let user_id = text(payload, &["userId", "user_id", "uid"]);
        if let Err(error) = validate_identity(user_id.as_str()) {
            return Err(error);
        }
        if !user_id.as_str().is_empty() && !packed_user.as_str().is_empty() && !text::same(
            user_id.as_str(),
            packed_user.as_str(),
        ) {
            return Err(GatewayError::with_status(400, "Qoder userId 与刷新凭证中的用户不一致"));
        }
        let machine_id = text(payload, &["machineId", "machine_id"]);
        if let Err(error) = validate_identity(machine_id.as_str()) {
            return Err(error);
        }
        if !machine_id.as_str().is_empty() && !packed_machine.as_str().is_empty() && !text::same(
            machine_id.as_str(),
            packed_machine.as_str(),
        ) {
            return Err(GatewayError::with_status(400, "Qoder machineId 与刷新凭证中的设备不一致"));
        }
        let user_id = if user_id.as_str().is_empty() {
            packed_user
        } else {
            user_id
        };
        let machine_id = if machine_id.as_str().is_empty() {
            packed_machine
        } else {
            machine_id
        };
        if let Err(error) = validate_identity(user_id.as_str()) {
            return Err(error);
        }
        if let Err(error) = validate_identity(machine_id.as_str()) {
            return Err(error);
        }
        let expires_at = find_time(
            payload,
            &["expiresAt", "expires", "expires_at", "tokenExpiresAt"],
        );
        let email = text(payload, &["email"]);
        let name = text(payload, &["nickname", "name"]);
        proof {
            assert(["email"]@ =~= seq!["email"]);
            assert(["nickname", "name"]@ =~= seq!["nickname", "name"]);
            assert(["expiresAt", "expires", "expires_at", "tokenExpiresAt"]@ =~= seq![
                "expiresAt",
                "expires",
                "expires_at",
                "tokenExpiresAt",
            ]);
        }
        let refresh_token = if parts.len() == 1 && !refresh.as_str().is_empty() {
            pack(refresh.as_str(), user_id.as_str(), machine_id.as_str())
        } else {
            refresh
        };
        Ok(
            Credentials {
                region,
                access_token,
                refresh_token,
                expires_at,
                user_id,
                email: text::owned(text::take_chars(email.as_str(), 320)),
                name: text::owned(text::take_chars(name.as_str(), 100)),
                machine_id,
            },
        )
    }

    /// The credentials that a record of an account holds. No token may be longer
    /// than `longest` bytes.
    pub fn from_payload(payload: &Json, longest: usize) -> (outcome: Result<Self, GatewayError>)
        ensures
            outcome_view(outcome) == credentials_in(payload@, longest as int),
    {
        if !payload.is_object() {
            return Err(GatewayError::with_status(400, "Qoder 账号内容必须是 JSON 对象"));
        }
        let region = match Region::from_payload(payload) {
            Ok(region) => region,
            Err(error) => return Err(error),
        };
        let access_token = match secret(
            payload,
            &["accessToken", "access", "token", "access_token"],
            longest,
        ) {
            Ok(token) => token,
            Err(error) => return Err(error),
        };
        if access_token.as_str().is_empty() {
            return Err(GatewayError::with_status(400, "缺少 Qoder access / accessToken"));
        }
        let refresh = match secret(
            payload,
            &["refreshToken", "refresh", "refresh_token"],
            longest,
        ) {
            Ok(token) => token,
            Err(error) => return Err(error),
        };
        Self::identify(payload, region, access_token, refresh)
    }

    /// Completes user and machine: `machine` stands in where the credentials name
    /// none, and is empty where the machine has no identity, which is a failure. A
    /// failure leaves the credentials unfit for use.
    pub fn complete_identity(&mut self, machine: &str, longest: usize) -> (outcome: Result<
        (),
        GatewayError,
    >)
        ensures
            match old(self)@.completed(machine@, longest as int) {
                Ok(c) => outcome is Ok && final(self)@ == c,
                Err(e) => outcome is Err && outcome->Err_0@ == e,
            },
    {
        if self.user_id.as_str().is_empty() {
            return Err(
                GatewayError::with_status(
                    400,
                    "缺少 Qoder userId，无法标识账号，请重新登录或粘贴完整账号记录",
                ),
            );
        }
        if let Err(error) = validate_identity(self.user_id.as_str()) {
            return Err(error);
        }
        if self.machine_id.as_str().is_empty() {
            self.machine_id = text::owned(machine);
        }
        if self.machine_id.as_str().is_empty() {
            return Err(GatewayError::with_status(500, "无法生成 Qoder 机器标识"));
        }
        if let Err(error) = validate_identity(self.machine_id.as_str()) {
            return Err(error);
        }
        if !self.refresh_token.as_str().is_empty() {
            let prefix = text::owned(prefix_of(self.refresh_token.as_str()));
            self.refresh_token = pack(
                prefix.as_str(),
                self.user_id.as_str(),
                self.machine_id.as_str(),
            );
        }
        if self.refresh_token.as_str().as_bytes().len() > longest {
            return Err(GatewayError::with_status(400, "Qoder 刷新凭证过长"));
        }
        Ok(())
    }

    /// The personal access token behind the credentials.
    pub fn pat(&self) -> (token: Option<&str>)
        ensures
            json::opt_text(token) == pat_in(self@.refresh_token),
    {
        match text::strip_prefix(self.refresh_token.as_str(), "pat|") {
            Some(rest) => {
                let token = text::head_before(rest, '|');
                if token.is_empty() {
                    None
                } else {
                    Some(token)
                }
            },
            None => None,
        }
    }

    /// The refresh token of a login behind the credentials.
    pub fn oauth_refresh(&self) -> (token: &str)
        ensures
            token@ == login_refresh_in(self@.refresh_token),
    {
        if self.pat().is_some() {
            let token = self.refresh_token.as_str().substring_char(0, 0);
            assert(token@ =~= Seq::empty());
            token
        } else {
            text::head_before(self.refresh_token.as_str(), '|')
        }
    }

    /// Whether the credentials can be renewed.
    pub fn can_refresh(&self) -> (yes: bool)
        ensures
            yes == self@.renewable(),
    {
        self.pat().is_some() || !self.oauth_refresh().is_empty()
    }

    /// Whether the credentials can be renewed and are about to end.
    pub fn expiring(&self, now_ms: i64) -> (yes: bool)
        ensures
            yes == (self@.renewable() && self@.expires_at is Some && self@.expires_at.unwrap()
                <= now_ms + REFRESH_MARGIN_MS),
    {
        match self.expires_at {
            Some(end) => self.can_refresh() && end as i128 <= now_ms as i128
                + REFRESH_MARGIN_MS as i128,
            None => false,
        }
    }

    /// The record of the credentials. What is empty is null: it must not replace
    /// what a record already holds.
    pub fn to_value(&self) -> (record: Json)
        ensures
            record@ == self@.record(),
    {
        let mut record = Json::object();
        record.put("mode", Json::text(self.region.id()));
        record.put("accessToken", text_or_null(self.access_token.as_str()));
        record.put("refreshToken", text_or_null(self.refresh_token.as_str()));
        record.put(
            "expiresAt",
            match self.expires_at {
                Some(end) => Json::number(end),
                None => Json::Null,
            },
        );
        record.put("userId", text_or_null(self.user_id.as_str()));
        record.put("email", text_or_null(self.email.as_str()));
        record.put("nickname", text_or_null(self.name.as_str()));
        record.put("machineId", text_or_null(self.machine_id.as_str()));
        record
    }
}

proof fn lemma_last_bar(head: Seq<char>, tail: Seq<char>)
    requires
        !tail.contains('|'),
    ensures
        text::last_place(head.push('|') + tail, '|') == Some(head.len() as int),
    decreases tail.len(),
{
    let whole = head.push('|') + tail;
    if tail.len() > 0 {
        assert(tail[tail.len() - 1] != '|');
        assert(whole.drop_last() =~= head.push('|') + tail.drop_last());
        assert forall|c: char| tail.drop_last().contains(c) implies tail.contains(c) by {
            let i = choose|i: int| 0 <= i < tail.len() - 1 && tail.drop_last()[i] == c;
            assert(tail[i] == c);
        }
        lemma_last_bar(head, tail.drop_last());
    } else {
        assert(whole =~= head.push('|'));
    }
}

/// What precedes the user and the machine of a packed token is the token.
pub proof fn packing_keeps_the_token(token: Seq<char>, user: Seq<char>, device: Seq<char>)
    requires
        is_identity(user),
        is_identity(device),
    ensures
        token_prefix(packed_token(token, user, device)) == token,
{
    reveal_strlit("|");
    let whole = packed_token(token, user, device);
    let head = token.push('|') + user;
    assert(whole =~= head.push('|') + device);
    lemma_last_bar(head, device);
    assert(whole.take(head.len() as int) =~= head);
    lemma_last_bar(token, user);
    assert(whole.take(token.len() as int) =~= token);
}

/// Completed credentials name a machine. Nothing but the machine and the end of
/// the refresh token changes, and an empty refresh token stays empty.
pub proof fn completing_fills_in_the_machine(
    credentials: CredentialsV,
    machine: Seq<char>,
    longest: int,
)
    requires
        credentials.completed(machine, longest) is Ok,
    ensures
        ({
            let done = credentials.completed(machine, longest)->Ok_0;
            &&& done.machine_id.len() > 0
            &&& done.region == credentials.region
            &&& done.access_token == credentials.access_token
            &&& done.expires_at == credentials.expires_at
            &&& done.user_id == credentials.user_id
            &&& done.email == credentials.email
            &&& done.name == credentials.name
            &&& done.refresh_token == if credentials.refresh_token.len() == 0 {
                Seq::empty()
            } else {
                token_prefix(credentials.refresh_token) + "|"@ + done.user_id + "|"@
                    + done.machine_id
            }
        }),
{
}

/// Completing keeps what precedes the user and the machine in the refresh token,
/// and completing again, on whatever machine, changes nothing.
pub proof fn completing_twice_is_completing_once(
    credentials: CredentialsV,
    machine: Seq<char>,
    other: Seq<char>,
    longest: int,
)
    requires
        credentials.completed(machine, longest) is Ok,
    ensures
        ({
            let done = credentials.completed(machine, longest)->Ok_0;
            &&& credentials.refresh_token.len() > 0 ==> token_prefix(done.refresh_token)
                == token_prefix(credentials.refresh_token)
            &&& done.completed(other, longest) == Ok::<CredentialsV, ErrorV>(done)
        }),
{
    let done = credentials.completed(machine, longest)->Ok_0;
    if credentials.refresh_token.len() > 0 {
        packing_keeps_the_token(
            token_prefix(credentials.refresh_token),
            credentials.user_id,
            done.machine_id,
        );
    }
}

} // verus!
