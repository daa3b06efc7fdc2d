//! Raccoon's credentials: those of a stored account, and those that a desktop
//! client keeps in a file. What a renewal gives is written back only where the
//! credentials it began with are still there.
use super::jwt;
use crate::errors;
use crate::errors::{ErrorV, GatewayError};
use crate::http::{ApiRequest, ApiResponse, RequestV, ResponseV};
use crate::json;
use crate::json::{Json, JsonV};
use crate::number;
use crate::providers::refresh_flight;
use crate::text;
use crate::time::Millis;
use crate::urls;
use vstd::prelude::*;
use vstd::string::*;

verus! {

/// The id of the account behind the desktop client.
pub const DESKTOP_ACCOUNT_ID: &'static str = "raccoon-desktop";

/// The largest file of a desktop client.
pub const MAX_AUTH_FILE_SIZE: u64 = 262144;

/// How long to wait for an answer about a login.
pub const AUTH_REQUEST_TIMEOUT_MS: u64 = 30000;

/// How long before its end a token is renewed.
pub const PROACTIVE_REFRESH_MARGIN_MS: u64 = 300000;

/// Why a renewal is not written back.
pub const STALE_REFRESH_MESSAGE: &'static str = "刷新结果已过期：凭证在此期间被更换（重新登录或重导入）";

/// Where credentials come from, and are written back to.
#[derive(Debug, Clone, Copy, PartialEq, Eq, Structural)]
pub enum CredentialOrigin {
    /// The record of an account.
    AccountStore,
    /// The file of a desktop client.
    AuthFile,
}

/// The credentials of an account.
#[derive(Debug)]
pub struct RaccoonCredentials {
    pub id: String,
    pub token: String,
    pub refresh_token: String,
    /// When the token ends.
    pub expires_at: Option<Millis>,
    pub user_id: String,
    pub origin: CredentialOrigin,
}

/// What credentials mean.
#[verifier::ext_equal]
pub ghost struct CredentialsV {
    pub id: Seq<char>,
    pub token: Seq<char>,
    pub refresh_token: Seq<char>,
    pub expires_at: Option<Millis>,
    pub user_id: Seq<char>,
    pub origin: CredentialOrigin,
}

impl View for RaccoonCredentials {
    type V = CredentialsV;

    open spec fn view(&self) -> CredentialsV {
        CredentialsV {
            id: self.id@,
            token: self.token@,
            refresh_token: self.refresh_token@,
            expires_at: self.expires_at,
            user_id: self.user_id@,
            origin: self.origin,
        }
    }
}

impl Clone for RaccoonCredentials {
    fn clone(&self) -> (copy: Self)
        ensures
            copy@ == self@,
    {
        RaccoonCredentials {
            id: text::owned(self.id.as_str()),
            token: text::owned(self.token.as_str()),
            refresh_token: text::owned(self.refresh_token.as_str()),
            expires_at: self.expires_at,
            user_id: text::owned(self.user_id.as_str()),
            origin: self.origin,
        }
    }
}

/// What credentials or a failure mean.
pub open spec fn outcome_view(outcome: Result<RaccoonCredentials, GatewayError>) -> Result<
    CredentialsV,
    ErrorV,
> {
    match outcome {
        Ok(c) => Ok(c@),
        Err(e) => Err(e@),
    }
}

/// What credentials or a reason mean.
pub open spec fn reason_view(outcome: Result<RaccoonCredentials, String>) -> Result<
    CredentialsV,
    Seq<char>,
> {
    match outcome {
        Ok(c) => Ok(c@),
        Err(reason) => Err(reason@),
    }
}

impl CredentialsV {
    /// Whether the token is about to end.
    pub open spec fn ending(self, now_ms: nat) -> bool {
        self.expires_at matches Some(end) && number::is_reached(
            end.bits,
            PROACTIVE_REFRESH_MARGIN_MS as nat,
            now_ms,
        )
    }
}

impl RaccoonCredentials {
    /// Whether the token is about to end; not where nothing is known of its end.
    pub fn is_expiring(&self, now_ms: u64) -> (yes: bool)
        ensures
            yes == self@.ending(now_ms as nat),
    {
        match self.expires_at {
            Some(end) => number::reached(end.bits, PROACTIVE_REFRESH_MARGIN_MS, now_ms),
            None => false,
        }
    }

    /// Whether the credentials can be renewed.
    pub fn can_refresh(&self) -> (yes: bool)
        ensures
            yes == (self@.refresh_token.len() > 0),
    {
        !self.refresh_token.as_str().is_empty()
    }
}

/// A path below a directory.
pub open spec fn below(dir: Seq<char>, separator: char, name: Seq<char>) -> Seq<char> {
    if dir.len() == 0 || dir.last() == separator {
        dir + name
    } else {
        dir.push(separator) + name
    }
}

/// A path below a directory.
fn join_path(dir: &str, separator: char, name: &str) -> (path: String)
    ensures
        path@ == below(dir@, separator, name@),
{
    let chars = text::chars_of(dir);
    let mut path = text::owned(dir);
    if chars.len() > 0 && chars[chars.len() - 1] != separator {
        path.push(separator);
    }
    path.append(name);
    path
}

/// The directory of the desktop client's file: the first configured one that is
/// not blank, else one below the home of the user.
pub open spec fn config_dir(
    own: Option<Seq<char>>,
    common: Option<Seq<char>>,
    home: Seq<char>,
    separator: char,
) -> Seq<char> {
    if own is Some && text::trimmed(own.unwrap()).len() > 0 {
        text::trimmed(own.unwrap())
    } else if common is Some && text::trimmed(common.unwrap()).len() > 0 {
        text::trimmed(common.unwrap())
    } else {
        below(below(home, separator, ".box-agent"@), separator, "config"@)
    }
}

/// A text that is not blank, trimmed.
fn not_blank(content: Option<&str>) -> (inner: Option<&str>)
    ensures
        match content {
            Some(s) => json::opt_text(inner) == if text::trimmed(s@).len() > 0 {
                Some(text::trimmed(s@))
            } else {
                None
            },
            None => inner is None,
        },
{
    match content {
        Some(s) => {
            let inner = text::trim(s);
            if inner.is_empty() {
                None
            } else {
                Some(inner)
            }
        },
        None => None,
    }
}

/// The path of the desktop client's file.
pub fn desktop_auth_file(
    own: Option<&str>,
    common: Option<&str>,
    home: &str,
    separator: char,
) -> (path: String)
    ensures
        path@ == below(
            config_dir(json::opt_text(own), json::opt_text(common), home@, separator),
            separator,
            "auth.json"@,
        ),
{
    let dir = match not_blank(own) {
        Some(dir) => text::owned(dir),
        None => match not_blank(common) {
            Some(dir) => text::owned(dir),
            None => {
                let parent = join_path(home, separator, ".box-agent");
                join_path(parent.as_str(), separator, "config")
            },
        },
    };
    join_path(dir.as_str(), separator, "auth.json")
}

/// What stands at a path.
#[derive(Debug, Clone, Copy, PartialEq, Eq, Structural)]
pub enum PathKind {
    Link,
    /// A file of this size.
    File(u64),
    Other,
}

/// Whether the desktop client's file may be read: only a file of its own, and not
/// a link, that is neither empty nor too large.
pub fn auth_file_meta(kind: PathKind) -> (outcome: Result<(), String>)
    ensures
        match outcome {
            Ok(_) => kind matches PathKind::File(n) && 0 < n <= MAX_AUTH_FILE_SIZE,
            Err(reason) => reason@ == match kind {
                PathKind::Link => "小浣熊登录态路径是符号链接，已拒绝读取"@,
                PathKind::Other => "小浣熊登录态路径不是普通文件"@,
                PathKind::File(_) => "小浣熊登录态文件大小异常"@,
            },
        },
        outcome is Err ==> !(kind matches PathKind::File(n) && 0 < n <= MAX_AUTH_FILE_SIZE),
{
    match kind {
        PathKind::Link => Err(text::owned("小浣熊登录态路径是符号链接，已拒绝读取")),
        PathKind::Other => Err(text::owned("小浣熊登录态路径不是普通文件")),
        PathKind::File(size) => if size == 0 || size > MAX_AUTH_FILE_SIZE {
            Err(text::owned("小浣熊登录态文件大小异常"))
        } else {
            Ok(())
        },
    }
}

/// The content of the desktop client's file, as a value.
pub fn parse_auth_file(content: &str) -> (file: Result<Json, String>)
    ensures
        match json::parsed_json(content@) {
            None => file is Err && file->Err_0@ == "小浣熊登录态无法解析（不是有效 JSON）"@,
            Some(JsonV::Obj(m)) => file is Ok && file->Ok_0@ == JsonV::Obj(m),
            Some(_) => file is Err && file->Err_0@ == "小浣熊登录态根节点不是 JSON 对象"@,
        },
{
    match json::parse_json(content) {
        Some(value) => if value.is_object() {
            Ok(value)
        } else {
            Err(text::owned("小浣熊登录态根节点不是 JSON 对象"))
        },
        None => Err(text::owned("小浣熊登录态无法解析（不是有效 JSON）")),
    }
}

/// The last content of the desktop client's file, good for as long as the file is
/// the same at the same time.
#[derive(Debug)]
pub struct AuthCache {
    entry: Option<(String, i64, Json)>,
}

impl AuthCache {
    /// The path, the time and the content.
    pub closed spec fn known(&self) -> Option<(Seq<char>, i64, JsonV)> {
        match self.entry {
            Some(e) => Some((e.0@, e.1, e.2@)),
            None => None,
        }
    }

    /// Nothing known.
    pub fn new() -> (cache: Self)
        ensures
            cache.known() is None,
    {
        AuthCache { entry: None }
    }

    /// The content that is known for a file and its time.
    pub fn get(&self, path: &str, modified_at: i64) -> (file: Option<Json>)
        ensures
            json::owned_view(file) == match self.known() {
                Some(k) => if k.0 == path@ && k.1 == modified_at {
                    Some(k.2)
                } else {
                    None
                },
                None => None,
            },
    {
        match &self.entry {
            Some(entry) => if text::same(entry.0.as_str(), path) && entry.1 == modified_at {
                Some(entry.2.clone())
            } else {
                None
            },
            None => None,
        }
    }

    /// Keeps a content.
    pub fn put(&mut self, path: &str, modified_at: i64, file: &Json)
        ensures
            final(self).known() == Some((path@, modified_at, file@)),
    {
        self.entry = Some((text::owned(path), modified_at, file.clone()));
    }

    /// Forgets the content: the file is about to change.
    pub fn clear(&mut self)
        ensures
            final(self).known() is None,
    {
        self.entry = None;
    }
}

/// The first entry that is a token.
pub open spec fn token_at(file: JsonV, keys: Seq<&str>) -> Seq<char>
    decreases keys.len(),
{
    if keys.len() == 0 {
        Seq::empty()
    } else {
        match file.text_at(keys[0]@) {
            Some(s) => if jwt::bare(s).len() > 0 {
                jwt::bare(s)
            } else {
                token_at(file, keys.skip(1))
            },
            None => token_at(file, keys.skip(1)),
        }
    }
}

/// The first entry that is a token.
fn find_token(file: &Json, keys: &[&str]) -> (token: String)
    ensures
        token@ == token_at(file@, keys@),
{
    let mut i: usize = 0;
    assert(keys@.skip(0) =~= keys@);
    while i < keys.len()
        invariant
            i <= keys.len(),
            token_at(file@, keys@) == token_at(file@, keys@.skip(i as int)),
        decreases keys.len() - i,
    {
        assert(keys@.skip(i as int)[0] == keys@[i as int]);
        assert(keys@.skip(i as int).skip(1) =~= keys@.skip(i as int + 1));
        if let Some(s) = file.text_at(keys[i]) {
            let token = jwt::strip_bearer(s);
            if !token.as_str().is_empty() {
                return token;
            }
        }
        i += 1;
    }
    String::new()
}

/// The user that a token names.
pub open spec fn user_of(token: Seq<char>) -> Seq<char> {
    match jwt::claims_in(token) {
        Some(claims) => jwt::user_in(claims),
        None => Seq::empty(),
    }
}

/// The user that a token names; empty where it names none.
fn read_user(token: &str) -> (user: String)
    ensures
        user@ == user_of(token@),
{
    match jwt::decode_jwt_claims(token) {
        Some(claims) => jwt::extract_user_id(&claims),
        None => String::new(),
    }
}

/// The access token in the desktop client's file.
pub open spec fn file_token(file: JsonV) -> Seq<char> {
    token_at(file, seq!["access_token", "token", "auth_token"])
}

/// The refresh token in the desktop client's file.
pub open spec fn file_refresh(file: JsonV) -> Seq<char> {
    token_at(file, seq!["refresh_token"])
}

/// The credentials in the desktop client's file.
pub open spec fn file_credentials(file: JsonV) -> Result<CredentialsV, Seq<char>> {
    let token = file_token(file);
    if token.len() == 0 {
        Err("小浣熊登录态里没有 access_token（请在客户端重新登录）"@)
    } else {
        Ok(
            CredentialsV {
                id: DESKTOP_ACCOUNT_ID@,
                token,
                refresh_token: file_refresh(file),
                expires_at: jwt::expiry_in(token),
                user_id: user_of(token),
                origin: CredentialOrigin::AuthFile,
            },
        )
    }
}

/// The credentials in the desktop client's file.
pub fn credentials_from_auth_file(file: &Json) -> (outcome: Result<RaccoonCredentials, String>)
    ensures
        reason_view(outcome) == file_credentials(file@),
{
    assert(["access_token", "token", "auth_token"]@ =~= seq![
        "access_token",
        "token",
        "auth_token",
    ]);
    assert(["refresh_token"]@ =~= seq!["refresh_token"]);
    let token = find_token(file, &["access_token", "token", "auth_token"]);
    if token.as_str().is_empty() {
        return Err(text::owned("小浣熊登录态里没有 access_token（请在客户端重新登录）"));
    }
    let refresh_token = find_token(file, &["refresh_token"]);
    let user_id = read_user(token.as_str());
    let expires_at = jwt::jwt_expiry_ms(token.as_str());
    Ok(
        RaccoonCredentials {
            id: text::owned(DESKTOP_ACCOUNT_ID),
            token,
            refresh_token,
            expires_at,
            user_id,
            origin: CredentialOrigin::AuthFile,
        },
    )
}

/// The last four characters of a token.
pub open spec fn tail_of(token: Seq<char>) -> Seq<char> {
    if token.len() <= 4 {
        token
    } else {
        token.skip(token.len() - 4)
    }
}

/// The last four characters of a token.
pub fn token_tail(token: &str) -> (tail: String)
    ensures
        tail@ == tail_of(token@),
{
    let count: usize = token.unicode_len();
    if count <= 4 {
        return text::owned(token);
    }
    let tail = token.substring_char(count - 4, count);
    assert(tail@ =~= token@.skip(token@.len() - 4));
    text::owned(tail)
}

/// What an account may show of the desktop client's credentials: no token.
pub open spec fn summary(c: CredentialsV, modified_at: int) -> JsonV {
    JsonV::object().put("userId"@, JsonV::Str(c.user_id)).put(
        "tokenTail"@,
        JsonV::Str(tail_of(c.token)),
    ).put(
        "tokenExpiresAt"@,
        match c.expires_at {
            Some(end) => json::number_value(end.bits),
            None => JsonV::Null,
        },
    ).put("hasRefreshToken"@, JsonV::Bool(c.refresh_token.len() > 0)).put(
        "mtime"@,
        JsonV::Int(modified_at),
    )
}

/// What an account may show of the desktop client's credentials: no token.
pub fn desktop_summary(file: &Json, modified_at: i64) -> (outcome: Result<Json, String>)
    ensures
        match file_credentials(file@) {
            Ok(c) => outcome is Ok && outcome->Ok_0@ == summary(c, modified_at as int),
            Err(reason) => outcome is Err && outcome->Err_0@ == reason,
        },
{
    let c = match credentials_from_auth_file(file) {
        Ok(c) => c,
        Err(reason) => return Err(reason),
    };
    let mut out = Json::object();
    out.put("userId", Json::text(c.user_id.as_str()));
    out.put("tokenTail", Json::Text(token_tail(c.token.as_str())));
    out.put(
        "tokenExpiresAt",
        match c.expires_at {
            Some(end) => json::number_json(end.bits),
            None => Json::Null,
        },
    );
    out.put("hasRefreshToken", Json::Bool(!c.refresh_token.as_str().is_empty()));
    out.put("mtime", Json::number(modified_at));
    Ok(out)
}

/// The desktop client's file with renewed tokens, where it still holds the
/// credentials that the renewal began with.
pub open spec fn updated_file(
    file: JsonV,
    expected: CredentialsV,
    access: Seq<char>,
    refresh: Seq<char>,
) -> Result<JsonV, Seq<char>> {
    match file_credentials(file) {
        Err(reason) => Err(reason),
        Ok(c) => if c.token != expected.token || c.refresh_token != expected.refresh_token {
            Err(STALE_REFRESH_MESSAGE@)
        } else {
            let first = if access.len() > 0 {
                file.put("access_token"@, JsonV::Str(jwt::bare(access)))
            } else {
                file
            };
            Ok(
                if refresh.len() > 0 {
                    first.put("refresh_token"@, JsonV::Str(jwt::bare(refresh)))
                } else {
                    first
                },
            )
        },
    }
}

/// What a file or a reason means.
pub open spec fn file_view(outcome: Result<Json, String>) -> Result<JsonV, Seq<char>> {
    match outcome {
        Ok(v) => Ok(v@),
        Err(reason) => Err(reason@),
    }
}

/// What is written to the desktop client's file once it can be updated, or why it
/// cannot.
pub open spec fn file_text(written: Result<Seq<char>, Seq<char>>) -> Result<Seq<char>, Seq<char>> {
    match written {
        Ok(content) => Ok(content + "\n"@),
        Err(reason) => Err("序列化登录态失败: "@ + reason),
    }
}

/// What is written to the desktop client's file, which ends with a line feed.
pub fn finish_file(written: Result<String, String>) -> (outcome: Result<String, String>)
    ensures
        json::text_view(outcome) == file_text(json::text_view(written)),
{
    match written {
        Ok(content) => {
            let mut whole = content;
            whole.append("\n");
            Ok(whole)
        },
        Err(reason) => {
            let mut message = text::owned("序列化登录态失败: ");
            message.append(reason.as_str());
            Err(message)
        },
    }
}

/// What takes the place of the desktop client's file after a renewal, where the
/// file still holds the credentials that the renewal began with.
pub fn persist_auth_file_if_current(
    file: &Json,
    expected: &RaccoonCredentials,
    access_token: &str,
    refresh_token: &str,
) -> (outcome: Result<String, String>)
    requires
        file@ is Obj,
    ensures
        json::text_view(outcome) == match updated_file(
            file@,
            expected@,
            access_token@,
            refresh_token@,
        ) {
            Ok(next) => file_text(json::pretty_text(next)),
            Err(reason) => Err(reason),
        },
{
    match update_auth_file(file, expected, access_token, refresh_token) {
        Ok(next) => finish_file(json::write_pretty(&next)),
        Err(reason) => Err(reason),
    }
}

/// The desktop client's file with renewed tokens, where it still holds the
/// credentials that the renewal began with. What else it holds stays.
pub fn update_auth_file(
    file: &Json,
    expected: &RaccoonCredentials,
    access_token: &str,
    refresh_token: &str,
) -> (outcome: Result<Json, String>)
    requires
        file@ is Obj,
    ensures
        file_view(outcome) == updated_file(file@, expected@, access_token@, refresh_token@),
{
    let stored = match credentials_from_auth_file(file) {
        Ok(stored) => stored,
        Err(reason) => return Err(reason),
    };
    if !text::same(stored.token.as_str(), expected.token.as_str()) || !text::same(
        stored.refresh_token.as_str(),
        expected.refresh_token.as_str(),
    ) {
        return Err(text::owned(STALE_REFRESH_MESSAGE));
    }
    let mut next = file.clone();
    if !access_token.is_empty() {
        next.put("access_token", Json::Text(jwt::strip_bearer(access_token)));
    }
    if !refresh_token.is_empty() {
        next.put("refresh_token", Json::Text(jwt::strip_bearer(refresh_token)));
    }
    Ok(next)
}

/// Whether the desktop client's file is still the one that a renewal began with:
/// just before it is replaced, it is read once more.
pub fn auth_file_still_matches(
    latest: Option<(&Json, i64)>,
    seen_mtime: i64,
    expected: &RaccoonCredentials,
) -> (yes: bool)
    ensures
        yes == match latest {
            Some(l) => l.1 == seen_mtime && file_credentials(l.0@) is Ok && file_credentials(
                l.0@,
            )->Ok_0.token == expected@.token && file_credentials(l.0@)->Ok_0.refresh_token
                == expected@.refresh_token,
            None => false,
        },
{
    let (file, modified_at) = match latest {
        Some(latest) => latest,
        None => return false,
    };
    if modified_at != seen_mtime {
        return false;
    }
    match credentials_from_auth_file(file) {
        Ok(c) => text::same(c.token.as_str(), expected.token.as_str()) && text::same(
            c.refresh_token.as_str(),
            expected.refresh_token.as_str(),
        ),
        Err(_) => false,
    }
}

/// The name of the file that is written first, one for each process.
pub fn temp_name(name: Option<&str>, process: u32) -> (temp: String)
    ensures
        temp@ == (match json::opt_text(name) {
            Some(n) => n,
            None => "auth.json"@,
        }) + "."@ + text::decimal(process as nat) + ".tmp"@,
{
    let mut temp = match name {
        Some(name) => text::owned(name),
        None => text::owned("auth.json"),
    };
    temp.append(".");
    temp.append(text::decimal_text(process as u64).as_str());
    temp.append(".tmp");
    temp
}

/// A text entry, empty where there is none.
pub open spec fn entry(record: JsonV, key: Seq<char>) -> Seq<char> {
    match record.text_at(key) {
        Some(s) => s,
        None => Seq::empty(),
    }
}

/// A text entry, empty where there is none.
fn entry_of(record: &Json, key: &str) -> (content: String)
    ensures
        content@ == entry(record@, key@),
{
    match record.text_at(key) {
        Some(s) => text::owned(s),
        None => String::new(),
    }
}

/// When the token of a stored account ends: what the record says, else what the
/// token does.
pub open spec fn stored_end(record: JsonV, token: Seq<char>) -> Option<Millis> {
    match record.get("expiresAt"@) {
        Some(v) => match json::number_bits(v) {
            Some(bits) => Some(Millis { bits }),
            None => jwt::expiry_in(token),
        },
        None => jwt::expiry_in(token),
    }
}

/// When the token of a stored account ends.
fn read_end(record: &Json, token: &str) -> (millis: Option<Millis>)
    ensures
        millis == stored_end(record@, token@),
{
    if let Some(value) = record.get("expiresAt") {
        if let Some(end) = json::to_double(value) {
            return Some(Millis { bits: end.bits() });
        }
    }
    jwt::jwt_expiry_ms(token)
}

/// Whether an account is the one behind the desktop client.
pub open spec fn is_desktop(record: JsonV) -> bool {
    record.field("desktop"@) == JsonV::Bool(true) || record.text_at("id"@) == Some(
        DESKTOP_ACCOUNT_ID@,
    )
}

/// Where the credentials of an account are.
#[derive(Debug)]
pub enum Snapshot {
    /// In the desktop client's file.
    Desktop,
    Stored(RaccoonCredentials),
}

/// What such a place means.
#[verifier::ext_equal]
pub ghost enum SnapshotV {
    Desktop,
    Stored(CredentialsV),
}

impl View for Snapshot {
    type V = SnapshotV;

    open spec fn view(&self) -> SnapshotV {
        match self {
            Snapshot::Desktop => SnapshotV::Desktop,
            Snapshot::Stored(c) => SnapshotV::Stored(c@),
        }
    }
}

/// What a place or a failure means.
pub open spec fn snapshot_view(outcome: Result<Snapshot, GatewayError>) -> Result<
    SnapshotV,
    ErrorV,
> {
    match outcome {
        Ok(s) => Ok(s@),
        Err(e) => Err(e@),
    }
}

/// The credentials of an account.
pub open spec fn snapshot_of(record: Option<JsonV>) -> Result<SnapshotV, ErrorV> {
    match record {
        None => Ok(SnapshotV::Desktop),
        Some(r) => if is_desktop(r) {
            Ok(SnapshotV::Desktop)
        } else if entry(r, "accessToken"@).len() == 0 {
            errors::fail(
                401,
                "账号 "@ + (match r.text_at("id"@) {
                    Some(id) => id,
                    None => "(未知)"@,
                }) + " 没有可用凭证，请重新添加"@,
            )
        } else {
            Ok(
                SnapshotV::Stored(
                    CredentialsV {
                        id: entry(r, "id"@),
                        token: entry(r, "accessToken"@),
                        refresh_token: entry(r, "refreshToken"@),
                        expires_at: stored_end(r, entry(r, "accessToken"@)),
                        user_id: entry(r, "userId"@),
                        origin: CredentialOrigin::AccountStore,
                    },
                ),
            )
        },
    }
}

/// The credentials of an account: those of its record, or, without a record or
/// for the desktop's account, those in the desktop client's file.
pub fn snapshot_for(record: Option<&Json>) -> (outcome: Result<Snapshot, GatewayError>)
    ensures
        snapshot_view(outcome) == snapshot_of(json::opt_view(record)),
{
    let record = match record {
        Some(record) => record,
        None => return Ok(Snapshot::Desktop),
    };
    let marked = match record.get("desktop") {
        Some(value) => match value {
            Json::Bool(yes) => *yes,
            _ => false,
        },
        None => false,
    };
    let named = match record.text_at("id") {
        Some(id) => text::same(id, DESKTOP_ACCOUNT_ID),
        None => false,
    };
    if marked || named {
        return Ok(Snapshot::Desktop);
    }
    let token = entry_of(record, "accessToken");
    if token.as_str().is_empty() {
        let mut message = text::owned("账号 ");
        match record.text_at("id") {
            Some(id) => message.append(id),
            None => message.append("(未知)"),
        }
        message.append(" 没有可用凭证，请重新添加");
        return Err(GatewayError::with_status(401, message.as_str()));
    }
    let expires_at = read_end(record, token.as_str());
    Ok(
        Snapshot::Stored(
            RaccoonCredentials {
                id: entry_of(record, "id"),
                token,
                refresh_token: entry_of(record, "refreshToken"),
                expires_at,
                user_id: entry_of(record, "userId"),
                origin: CredentialOrigin::AccountStore,
            },
        ),
    )
}

/// The credentials in the desktop client's file, or why there are none.
pub open spec fn desktop_outcome(file: Result<JsonV, Seq<char>>) -> Result<CredentialsV, ErrorV> {
    match file {
        Err(reason) => errors::fail(401, "没有可用的小浣熊登录态："@ + reason),
        Ok(v) => match file_credentials(v) {
            Ok(c) => Ok(c),
            Err(reason) => errors::fail(401, reason),
        },
    }
}

/// The credentials in the desktop client's file, or why there are none.
pub fn desktop_credentials(file: &Result<Json, String>) -> (outcome: Result<
    RaccoonCredentials,
    GatewayError,
>)
    ensures
        outcome_view(outcome) == desktop_outcome(file_view(*file)),
{
    match file {
        Ok(file) => match credentials_from_auth_file(file) {
            Ok(c) => Ok(c),
            Err(reason) => Err(GatewayError::with_status(401, reason.as_str())),
        },
        Err(reason) => {
            let mut message = text::owned("没有可用的小浣熊登录态：");
            message.append(reason.as_str());
            Err(GatewayError::with_status(401, message.as_str()))
        },
    }
}

/// Whether to renew credentials: where that is asked for, or they are about to
/// end.
pub fn refresh(credentials: &RaccoonCredentials, force: bool, now_ms: u64) -> (renew: Result<
    bool,
    GatewayError,
>)
    ensures
        match renew {
            Ok(false) => !force && !credentials@.ending(now_ms as nat),
            Ok(true) => (force || credentials@.ending(now_ms as nat))
                && credentials@.refresh_token.len() > 0,
            Err(e) => (force || credentials@.ending(now_ms as nat))
                && credentials@.refresh_token.len() == 0 && e@ == ErrorV::plain(
                401,
                if credentials@.origin == CredentialOrigin::AuthFile {
                    "小浣熊桌面端登录态已过期且没有 refreshToken，请打开小浣熊客户端重新登录"@
                } else {
                    "该账号没有 refreshToken，无法刷新，请重新添加账号"@
                },
            ),
        },
{
    if !force && !credentials.is_expiring(now_ms) {
        return Ok(false);
    }
    if !credentials.can_refresh() {
        let message = if credentials.origin == CredentialOrigin::AuthFile {
            "小浣熊桌面端登录态已过期且没有 refreshToken，请打开小浣熊客户端重新登录"
        } else {
            "该账号没有 refreshToken，无法刷新，请重新添加账号"
        };
        return Err(GatewayError::with_status(401, message));
    }
    Ok(true)
}

/// The key under which credentials are renewed once.
pub open spec fn key_of(c: CredentialsV, path: Seq<char>, version: int) -> Seq<char> {
    match c.origin {
        CredentialOrigin::AccountStore => c.id + ":"@ + "store"@ + ":"@ + refresh_flight::mark_of(
            c.refresh_token,
        ),
        CredentialOrigin::AuthFile => c.id + ":"@ + "auth"@ + ":"@ + refresh_flight::mark_of(c.refresh_token) + ":"@
            + refresh_flight::mark_of(path + ":"@ + text::decimal_int(version)),
    }
}

/// The key under which credentials are renewed once: those of the desktop
/// client's file only while the file is the same.
pub fn refresh_key(credentials: &RaccoonCredentials, path: &str, version: i64) -> (key: String)
    ensures
        key@ == key_of(credentials@, path@, version as int),
{
    let mut key = text::owned(credentials.id.as_str());
    key.append(":");
    let from_file = credentials.origin == CredentialOrigin::AuthFile;
    if from_file {
        key.append("auth");
    } else {
        key.append("store");
    }
    key.append(":");
    key.append(refresh_flight::fingerprint(credentials.refresh_token.as_str()).as_str());
    if from_file {
        let mut context = text::owned(path);
        context.append(":");
        context.append(text::signed_text(version).as_str());
        key.append(":");
        key.append(refresh_flight::fingerprint(context.as_str()).as_str());
    }
    key
}

/// The call that renews credentials, at this base of the services for logins.
pub fn refresh_request(credentials: &RaccoonCredentials, base: &str) -> (request: ApiRequest)
    ensures
        request@ == (RequestV {
            method: "POST"@,
            url: base@ + "/refresh"@,
            headers: Seq::empty().push(("Content-Type"@, "application/json"@)),
            body: Some(
                JsonV::object().put("refresh_token"@, JsonV::Str(credentials@.refresh_token)),
            ),
        }),
{
    let mut url = text::owned(base);
    url.append("/refresh");
    let mut headers = urls::no_pairs();
    urls::push_pair(&mut headers, "Content-Type", "application/json");
    let mut body = Json::object();
    body.put("refresh_token", Json::text(credentials.refresh_token.as_str()));
    ApiRequest { method: "POST", url, headers, body: Some(body) }
}

/// The error of a renewal that got no answer.
pub fn refresh_transport_error(reason: &str) -> (error: GatewayError)
    ensures
        error@ == ErrorV::plain(502, "小浣熊刷新 token 请求失败: "@ + reason@),
{
    let mut message = text::owned("小浣熊刷新 token 请求失败: ");
    message.append(reason);
    GatewayError::with_status(502, message.as_str())
}

/// What the upstream says of a failure.
pub open spec fn failure_in(payload: JsonV) -> Option<Seq<char>> {
    if payload.shown_at("message"@).len() > 0 {
        Some(payload.shown_at("message"@))
    } else if payload.shown_at("msg"@).len() > 0 {
        Some(payload.shown_at("msg"@))
    } else if payload.field("error"@).shown_at("message"@).len() > 0 {
        Some(payload.field("error"@).shown_at("message"@))
    } else {
        None
    }
}

/// What the upstream says of a failure.
fn error_message(payload: &Json) -> (message: Option<String>)
    ensures
        json::owned_text(message) == failure_in(payload@),
{
    let first = payload.shown_at("message");
    if !first.as_str().is_empty() {
        return Some(first);
    }
    let second = payload.shown_at("msg");
    if !second.as_str().is_empty() {
        return Some(second);
    }
    let third = payload.field("error").shown_at("message");
    if !third.as_str().is_empty() {
        return Some(third);
    }
    None
}

/// How it reads that an answer holds no token.
pub open spec fn no_token(payload: JsonV) -> Seq<char> {
    "小浣熊 token 刷新失败 code="@ + (match payload.get("code"@) {
        Some(v) => v.shown(),
        None => "null"@,
    }) + " msg="@ + (match payload.get("message"@) {
        Some(v) => v.shown(),
        None => match payload.get("msg"@) {
            Some(v) => v.shown(),
            None => "服务器未返回新 token"@,
        },
    })
}

/// How it reads that an answer holds no token.
fn no_token_text(payload: &Json) -> (message: String)
    ensures
        message@ == no_token(payload@),
{
    let mut message = text::owned("小浣熊 token 刷新失败 code=");
    match payload.get("code") {
        Some(value) => message.append(value.shown().as_str()),
        None => message.append("null"),
    }
    message.append(" msg=");
    match payload.get("message") {
        Some(value) => message.append(value.shown().as_str()),
        None => match payload.get("msg") {
            Some(value) => message.append(value.shown().as_str()),
            None => message.append("服务器未返回新 token"),
        },
    }
    message
}

/// The credentials that the answer to a renewal gives.
pub open spec fn renewed(known: CredentialsV, response: ResponseV) -> Result<CredentialsV, ErrorV> {
    let payload = match response.payload {
        Some(v) => v,
        None => JsonV::Null,
    };
    let data = payload.field("data"@);
    let access = jwt::bare(data.shown_at("access_token"@));
    let refresh = jwt::bare(data.shown_at("refresh_token"@));
    if !response.ok {
        errors::fail(
            if response.status == 401 {
                401
            } else {
                502
            },
            "小浣熊刷新接口失败（HTTP "@ + text::decimal(response.status as nat) + "）: "@ + (
            match failure_in(payload) {
                Some(s) => s,
                None => "服务器未返回错误说明"@,
            }),
        )
    } else if access.len() == 0 {
        errors::fail(401, no_token(payload))
    } else {
        Ok(
            CredentialsV {
                token: access,
                refresh_token: if refresh.len() > 0 {
                    refresh
                } else {
                    known.refresh_token
                },
                expires_at: match jwt::expiry_in(access) {
                    Some(t) => Some(t),
                    None => known.expires_at,
                },
                user_id: if user_of(access).len() > 0 {
                    user_of(access)
                } else {
                    known.user_id
                },
                ..known
            },
        )
    }
}

/// Reads the answer to a renewal: what it does not say stays as it is known.
pub fn call_refresh_api(known: &RaccoonCredentials, response: ApiResponse) -> (outcome: Result<
    RaccoonCredentials,
    GatewayError,
>)
    ensures
        outcome_view(outcome) == renewed(known@, response@),
{
    let payload = match response.payload {
        Some(value) => value,
        None => Json::Null,
    };
    if !response.ok {
        let mut message = text::owned("小浣熊刷新接口失败（HTTP ");
        message.append(text::decimal_text(response.status as u64).as_str());
        message.append("）: ");
        match error_message(&payload) {
            Some(reason) => message.append(reason.as_str()),
            None => message.append("服务器未返回错误说明"),
        }
        let status: i32 = if response.status == 401 {
            401
        } else {
            502
        };
        return Err(GatewayError::with_status(status, message.as_str()));
    }
    let data = payload.field("data");
    let access = jwt::strip_bearer(data.shown_at("access_token").as_str());
    if access.as_str().is_empty() {
        return Err(GatewayError::with_status(401, no_token_text(&payload).as_str()));
    }
    let refresh = jwt::strip_bearer(data.shown_at("refresh_token").as_str());
    let mut next = known.clone();
    match jwt::jwt_expiry_ms(access.as_str()) {
        Some(end) => {
            next.expires_at = Some(end);
        },
        None => {},
    }
    let user = read_user(access.as_str());
    if !user.as_str().is_empty() {
        next.user_id = user;
    }
    if !refresh.as_str().is_empty() {
        next.refresh_token = refresh;
    }
    next.token = access;
    Ok(next)
}

/// What came of writing renewed credentials back.
#[derive(Debug, Clone, Copy, PartialEq, Eq, Structural)]
pub enum WriteOutcome {
    Written,
    /// Others have taken their place meanwhile.
    Stale,
    /// They could not be written.
    Failed,
}

/// The credentials to go on with after a renewal: the renewed ones, but those
/// that have taken the place of the known ones meanwhile.
pub open spec fn landed(
    next: CredentialsV,
    write: WriteOutcome,
    latest: Option<Result<CredentialsV, ErrorV>>,
) -> Result<CredentialsV, ErrorV> {
    if write != WriteOutcome::Stale {
        Ok(next)
    } else {
        match latest.unwrap() {
            Ok(c) => Ok(c),
            Err(e) => errors::fail(
                e.status,
                STALE_REFRESH_MESSAGE@ + "（刷新结果已过期，且读取最新凭证失败："@ + e.message
                    + "）"@,
            ),
        }
    }
}

/// What optional credentials or a failure mean.
pub open spec fn latest_view(latest: Option<Result<RaccoonCredentials, GatewayError>>) -> Option<
    Result<CredentialsV, ErrorV>,
> {
    match latest {
        Some(r) => Some(outcome_view(r)),
        None => None,
    }
}

/// The credentials to go on with after a renewal: the renewed ones, also where
/// they could not be written, but those that have taken the place of the known
/// ones meanwhile. `latest` holds those.
pub fn apply_refresh(
    next: RaccoonCredentials,
    write: WriteOutcome,
    latest: Option<Result<RaccoonCredentials, GatewayError>>,
) -> (outcome: Result<RaccoonCredentials, GatewayError>)
    requires
        write == WriteOutcome::Stale ==> latest is Some,
    ensures
        outcome_view(outcome) == landed(next@, write, latest_view(latest)),
{
    if write != WriteOutcome::Stale {
        return Ok(next);
    }
    match latest {
        Some(latest) => match latest {
            Ok(c) => Ok(c),
            Err(error) => {
                let mut message = text::owned(STALE_REFRESH_MESSAGE);
                message.append("（刷新结果已过期，且读取最新凭证失败：");
                message.append(error.message.as_str());
                message.append("）");
                Err(GatewayError::with_status(error.status_code, message.as_str()))
            },
        },
        None => Ok(next),
    }
}

/// Where the credentials are that have taken the place of known ones: those of
/// the desktop client's file there. A stored account that is gone has none:
/// another's are not taken instead.
pub open spec fn latest_of(previous: CredentialsV, record: Option<JsonV>) -> Result<
    SnapshotV,
    ErrorV,
> {
    if previous.origin == CredentialOrigin::AuthFile {
        Ok(SnapshotV::Desktop)
    } else if previous.id.len() == 0 || record is None {
        errors::fail(401, "账号 "@ + previous.id + " 已被删除，本次刷新结果作废"@)
    } else {
        snapshot_of(record)
    }
}

/// Where the credentials are that have taken the place of known ones: those of
/// the desktop client's file there. A stored account that is gone has none:
/// another's are not taken instead.
pub fn latest_credentials(previous: &RaccoonCredentials, record: Option<&Json>) -> (outcome:
    Result<Snapshot, GatewayError>)
    ensures
        snapshot_view(outcome) == latest_of(previous@, json::opt_view(record)),
{
    if previous.origin == CredentialOrigin::AuthFile {
        return Ok(Snapshot::Desktop);
    }
    if previous.id.as_str().is_empty() || record.is_none() {
        let mut message = text::owned("账号 ");
        message.append(previous.id.as_str());
        message.append(" 已被删除，本次刷新结果作废");
        return Err(GatewayError::with_status(401, message.as_str()));
    }
    snapshot_for(record)
}

/// A renewal keeps the account and where it is written back to, and what can be
/// renewed once can be renewed again.
pub proof fn renewals_keep_the_account(known: CredentialsV, response: ResponseV)
    requires
        renewed(known, response) is Ok,
    ensures
        ({
            let next = renewed(known, response)->Ok_0;
            &&& next.id == known.id
            &&& next.origin == known.origin
            &&& next.token.len() > 0
            &&& known.refresh_token.len() > 0 ==> next.refresh_token.len() > 0
        }),
{
}

/// Writing tokens back to the desktop client's file changes nothing else in it,
/// and happens only where the file still holds what the renewal began with.
pub proof fn other_entries_stay(
    file: JsonV,
    expected: CredentialsV,
    access: Seq<char>,
    refresh: Seq<char>,
    key: Seq<char>,
)
    requires
        file is Obj,
        updated_file(file, expected, access, refresh) is Ok,
        key != "access_token"@,
        key != "refresh_token"@,
    ensures
        updated_file(file, expected, access, refresh)->Ok_0.get(key) == file.get(key),
        file_token(file) == expected.token,
        file_refresh(file) == expected.refresh_token,
{
}

/// A renewal that came too late is never used: whoever asked goes on with the
/// credentials that took its place, or is told that there are none.
pub proof fn stale_renewals_are_not_used(
    next: CredentialsV,
    latest: Result<CredentialsV, ErrorV>,
)
    ensures
        ({
            let outcome = landed(next, WriteOutcome::Stale, Some(latest));
            &&& latest is Ok ==> outcome == latest
            &&& latest is Err ==> outcome is Err && outcome->Err_0.status == latest->Err_0.status
        }),
{
}

/// Accounts do not share renewals: what is renewed under one key is one account
/// in one place, with one refresh token by its mark.
pub proof fn accounts_do_not_share_renewals(
    one: CredentialsV,
    two: CredentialsV,
    path: Seq<char>,
    other_path: Seq<char>,
    version: int,
    other_version: int,
)
    requires
        refresh_flight::is_mark(refresh_flight::mark_of(one.refresh_token)),
        refresh_flight::is_mark(refresh_flight::mark_of(two.refresh_token)),
        refresh_flight::is_mark(
            refresh_flight::mark_of(path + ":"@ + text::decimal_int(version)),
        ),
        refresh_flight::is_mark(
            refresh_flight::mark_of(other_path + ":"@ + text::decimal_int(other_version)),
        ),
        key_of(one, path, version) == key_of(two, other_path, other_version),
    ensures
        one.id == two.id,
        one.origin == two.origin,
        refresh_flight::mark_of(one.refresh_token) == refresh_flight::mark_of(two.refresh_token),
{
    let a = refresh_flight::mark_of(one.refresh_token);
    let b = refresh_flight::mark_of(two.refresh_token);
    let c = refresh_flight::mark_of(path + ":"@ + text::decimal_int(version));
    let d = refresh_flight::mark_of(other_path + ":"@ + text::decimal_int(other_version));
    refresh_flight::lemma_mark(a);
    refresh_flight::lemma_mark(b);
    refresh_flight::lemma_mark(c);
    refresh_flight::lemma_mark(d);
    reveal_strlit(":");
    reveal_strlit("store");
    reveal_strlit("auth");
    let key = key_of(one, path, version);
    let n = key.len();
    if one.origin == CredentialOrigin::AccountStore {
        assert(key =~= one.id + ":store:"@ + a) by {
            reveal_strlit(":store:");
        }
        assert(key[n - 35] == 'r');
    } else {
        assert(key[n - 35] == a[30]);
    }
    if two.origin == CredentialOrigin::AccountStore {
        assert(key[n - 35] == 'r');
    } else {
        assert(key[n - 35] == b[30]);
    }
    assert(one.origin == two.origin);
    if one.origin == CredentialOrigin::AccountStore {
        assert(key.take(n - 39) =~= one.id);
        assert(key.take(n - 39) =~= two.id);
        assert(key.skip(n - 32) =~= a);
        assert(key.skip(n - 32) =~= b);
    } else {
        assert(key.take(n - 71) =~= one.id);
        assert(key.take(n - 71) =~= two.id);
        assert(key.subrange(n - 65, n - 33) =~= a);
        assert(key.subrange(n - 65, n - 33) =~= b);
    }
}

} // verus!
