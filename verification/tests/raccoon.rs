use model_gateway::errors::GatewayError;
use model_gateway::http::ApiResponse;
use model_gateway::json::{number_json, parse_json, write_json, write_pretty, Json};
use model_gateway::providers::adapter::{ModelRefreshOutcome, UpstreamErrorClass};
use model_gateway::providers::raccoon::adapter::{
    auth_api_base, env_access_token, llm_base_url, RaccoonAdapter, TokenSource,
};
use model_gateway::providers::raccoon::balance::{
    claim_daily_grant, grant_token, main_site_url, normalize_subscription, query_usage,
    request_json, usage_token, Ask,
};
use model_gateway::providers::raccoon::credentials::{
    apply_refresh, auth_file_meta, auth_file_still_matches, call_refresh_api,
    credentials_from_auth_file, desktop_auth_file, desktop_summary, finish_file,
    latest_credentials, parse_auth_file, persist_auth_file_if_current, refresh, refresh_key,
    refresh_request, snapshot_for, temp_name, token_tail, update_auth_file, AuthCache,
    CredentialOrigin, PathKind, RaccoonCredentials, Snapshot, WriteOutcome,
};
use model_gateway::providers::raccoon::jwt::{
    base64_decode, decode_jwt_claims, display_name, extract_user_id, js_text, jwt_expiry_ms,
    strip_bearer,
};
use model_gateway::providers::raccoon::models::{
    catalog_entries, catalog_request, count, default_model_id, factors_of, fallback_models, list,
    parse_catalog, should_fetch, CatalogState, Price,
};
use model_gateway::providers::raccoon::models;
use model_gateway::providers::raccoon::oauth::{
    build_authorize_url, exchange_code, exchange_transport_error, new_login_state,
    parse_callback_code, read_exchange, saved_id,
};
use model_gateway::number::{by_thousand, reached};
use model_gateway::time::Millis;
use serde_json::Value;

fn millis(time: f64) -> Millis {
    Millis { bits: time.to_bits() }
}

fn json(text: &str) -> Json {
    parse_json(text).expect("JSON")
}

fn value(json: &Json) -> Value {
    serde_json::from_str(&write_json(json)).expect("written JSON can be read")
}

fn answer(status: u16, text: &str) -> ApiResponse {
    ApiResponse { ok: (200..300).contains(&status), status, payload: parse_json(text) }
}

fn error_of<T>(outcome: Result<T, GatewayError>) -> (i32, String) {
    match outcome {
        Ok(_) => panic!("an error was expected"),
        Err(error) => (error.status_code, error.message),
    }
}

fn token_with(payload: &str) -> String {
    let encoded = base64::Engine::encode(
        &base64::engine::general_purpose::URL_SAFE_NO_PAD,
        payload.as_bytes(),
    );
    format!("head.{encoded}.tail")
}

fn credentials() -> RaccoonCredentials {
    RaccoonCredentials {
        id: "a".to_string(),
        token: "t".to_string(),
        refresh_token: "r".to_string(),
        expires_at: Some(millis(1_000_000.0)),
        user_id: "u".to_string(),
        origin: CredentialOrigin::AccountStore,
    }
}

#[test]
fn tokens_lose_their_lead() {
    assert_eq!(strip_bearer(" bEaReR  abc "), "abc");
    assert_eq!(strip_bearer("Bearerabc"), "Bearerabc");
    assert_eq!(strip_bearer("字"), "字");
}

#[test]
fn tokens_claim_things() {
    let claims = decode_jwt_claims(&token_with("{\"exp\":1700000000,\"name\":\" n \"}")).expect("claims");
    assert_eq!(display_name(&claims), "n");
    assert!(decode_jwt_claims("a.!.c").is_none());
    assert!(decode_jwt_claims("opaque").is_none());
    assert!(decode_jwt_claims(&token_with("[1]")).is_none());
    let end = |exp: &str| jwt_expiry_ms(&token_with(&format!("{{\"exp\":{exp}}}")));
    assert_eq!(end("1700000000"), Some(millis(1_700_000_000_000.0)));
    assert_eq!(end("1700000000.0005"), Some(millis(1_700_000_000_000.5)));
    assert_eq!(end("1700000000.0011"), Some(millis(1_700_000_000.0011 * 1000.0)));
    assert_eq!(end("0.0001"), Some(millis(0.0001 * 1000.0)));
    assert_eq!(end("0.001"), Some(millis(1.0)));
    assert_eq!(end("1e300"), Some(millis(1e300 * 1000.0)));
    assert_eq!(end("1e306"), Some(millis(f64::INFINITY)));
    assert_eq!(end("-1"), None);
    assert_eq!(jwt_expiry_ms(&token_with("{\"exp\":0}")), None);
    assert_eq!(jwt_expiry_ms(&token_with("{}")), None);
}

#[test]
fn foreign_characters_make_base64_invalid() {
    assert_eq!(base64_decode("QQ=="), Some(vec![0x41]));
    assert_eq!(base64_decode("QQ"), Some(vec![0x41]));
    assert_eq!(base64_decode("+/+/"), Some(vec![0xfb, 0xff, 0xbf]));
    assert_eq!(base64_decode("-_-_"), None);
    assert_eq!(base64_decode("QQ-"), None);
    assert_eq!(base64_decode("QQ==!"), None);
    assert_eq!(base64_decode("Q!"), None);
    assert_eq!(base64_decode(""), Some(Vec::new()));
    assert!(decode_jwt_claims("a.e30=.c").is_some());
    assert!(decode_jwt_claims("a.e30=!.c").is_none());
}

#[test]
fn tokens_are_read_in_either_alphabet() {
    let payload = "{\"name\":\"???>>>~~~\"}";
    let safe = token_with(payload);
    let usual = safe.replace('-', "+").replace('_', "/");
    assert!(safe.contains('_') || safe.contains('-'));
    assert_ne!(safe, usual);
    assert_eq!(display_name(&decode_jwt_claims(&safe).expect("claims")), "???>>>~~~");
    assert_eq!(display_name(&decode_jwt_claims(&usual).expect("claims")), "???>>>~~~");
}

#[test]
fn numbers_are_multiplied_as_doubles_are() {
    for number in [
        0.0,
        -0.0,
        1.0,
        -1.5,
        0.1,
        1_700_000_000.000_5,
        1_700_000_000.123_456_7,
        9_007_199_254_740_993.0,
        5e-324,
        2.3e-308,
        1.797e305,
        1.798e305,
        1e308,
        -1e308,
    ] {
        let number: f64 = number;
        assert_eq!(by_thousand(number.to_bits()), (number * 1000.0).to_bits(), "{number:e}");
    }
}

#[test]
fn ends_are_reached_as_doubles_are_compared() {
    for end in [
        -5.0,
        0.0,
        0.5,
        300_000.0,
        300_000.5,
        1_700_000_000_000.5,
        1_700_000_000_001.0,
        9_007_199_254_740_994.0,
        18_446_744_073_709_551_616.0,
        1e300,
        f64::INFINITY,
        f64::NAN,
    ] {
        let end: f64 = end;
        for now in [0, 1, 1_699_999_700_000, 1_699_999_700_001, 9_007_199_254_740_993, u64::MAX] {
            assert_eq!(
                reached(end.to_bits(), 300_000, now),
                end - 300_000.0 <= now as f64,
                "{end:e} at {now}"
            );
        }
    }
}

#[test]
fn numbers_are_written_as_they_are() {
    let text = |number: f64| write_json(&number_json(number.to_bits()));
    assert_eq!(text(1_700_000_000_000.0), "1700000000000");
    assert_eq!(text(1_700_000_000_000.5), "1700000000000.5");
    assert_eq!(text(-2.0), "-2");
    assert_eq!(text(0.1), "0.1");
    assert_eq!(text(1e300), "1e+300");
    assert_eq!(text(f64::INFINITY), "null");
    assert_eq!(text(f64::NAN), "null");
}

#[test]
fn values_are_written_over_lines() {
    let written = write_pretty(&json("{\"b\":[1,{}],\"a\":\"x\"}"));
    assert_eq!(written, Ok("{\n  \"a\": \"x\",\n  \"b\": [\n    1,\n    {}\n  ]\n}".to_string()));
}

#[test]
fn user_ids_are_read_from_hexadecimal() {
    let user = |text: &str| extract_user_id(&json(text));
    assert_eq!(user("{\"sid\":\"0xff\"}"), "255");
    assert_eq!(user("{\"iss\":\"ffffffffffffffffffff\"}"), "1208925819614629174706175");
    assert_eq!(user("{\"sid\":\"0000\"}"), "0");
    assert_eq!(user("{\"sid\":\"xyz\",\"sub\":\" s \"}"), "s");
    assert_eq!(user("{\"user_id\":7}"), "7");
    assert_eq!(user("{}"), "");
}

#[test]
fn values_are_shown() {
    assert_eq!(js_text(&json("\"s\"")), "s");
    assert_eq!(js_text(&json("7")), "7");
    assert_eq!(js_text(&json("true")), "true");
    assert_eq!(js_text(&json("null")), "");
}

#[test]
fn raccoon_bases_can_be_set() {
    assert_eq!(llm_base_url(None), "https://xiaohuanxiong.com/api/web/llm/v2");
    assert_eq!(llm_base_url(Some(" https://x// ")), "https://x");
    assert_eq!(auth_api_base(Some(" ")), "https://xiaohuanxiong.com/api/web/auth/v1");
    assert_eq!(main_site_url(None), "https://xiaohuanxiong.com");
    assert_eq!(env_access_token(Some("Bearer x")), Some("x".to_string()));
    assert_eq!(env_access_token(Some("")), None);
}

#[test]
fn raccoon_requests_pass_the_body_on() {
    let body = json("{\"model\":\"m\",\"stream\":true}");
    let plan = RaccoonAdapter
        .build_chat_request(&json("{\"auth\":{\"accessToken\":\"t\"}}"), &body, "https://b")
        .expect("plan");
    assert_eq!(plan.url, "https://b/chat/completions");
    assert_eq!(plan.headers[2], ("Authorization".to_string(), "Bearer t".to_string()));
    assert_eq!(value(&plan.body), value(&body));
    assert_eq!(
        error_of(RaccoonAdapter.build_chat_request(&json("{}"), &body, "b")),
        (401, "小浣熊账号缺少 accessToken，无法转发".to_string())
    );
    assert!(matches!(RaccoonAdapter.ensure_access_token("", Some("x")), TokenSource::Env(t) if t == "x"));
    assert!(matches!(RaccoonAdapter.ensure_access_token("a", Some("x")), TokenSource::Account));
    assert!(RaccoonAdapter.refresh_access_token("a", None).is_ok());
    assert!(RaccoonAdapter.env_credentials_present(Some("x")));
    assert!(!RaccoonAdapter.env_credentials_present(None));
    assert!(RaccoonAdapter.sse_model_rewrite() && RaccoonAdapter.supports_web_login());
    assert!(!RaccoonAdapter.supports_default_model());
    let (url, state) = RaccoonAdapter.build_login_url(Some("https://site/"), 1, 2);
    assert_eq!(state, new_login_state(1, 2));
    assert_eq!(url, build_authorize_url("https://site", &state));
    let current = json(
        "{\"proxy\":{\"protocol\":\"http\",\"host\":\"h\",\"port\":1080,\"username\":\"\",\"password\":\"\",\"label\":\"\"}}",
    );
    let (token, way) = RaccoonAdapter.refresh_models(Ok(&credentials()), Some(&current));
    assert_eq!(token, credentials().token);
    assert_eq!(way.map(|p| (p.host, p.port)), Some(("h".to_string(), Some(1080))));
    let missing = GatewayError::bad_request("none");
    let (token, way) = RaccoonAdapter.refresh_models(Err(&missing), Some(&current));
    assert_eq!(token, "");
    assert!(way.is_none());
    assert!(matches!(
        RaccoonAdapter.classify_error(429, &json("{}"), None),
        UpstreamErrorClass::QuotaLimited { reset_at: None, .. }
    ));
    assert!(matches!(
        RaccoonAdapter.classify_error(401, &json("{}"), None),
        UpstreamErrorClass::TokenExpired { .. }
    ));
    assert!(matches!(
        RaccoonAdapter.classify_error(400, &json("{}"), Some("h")),
        UpstreamErrorClass::ContentBlocked { .. }
    ));
    assert!(RaccoonAdapter.credentials_expiring("a", true, Some(&credentials()), 900_000));
    assert!(!RaccoonAdapter.credentials_expiring("a", true, Some(&credentials()), 100_000));
}

#[test]
fn points_are_asked_for() {
    let mut blank = credentials();
    blank.token = " ".to_string();
    assert_eq!(error_of(usage_token(&blank)), (401, "该账号没有可用凭证，无法查询积分".to_string()));
    assert_eq!(error_of(grant_token(&blank)), (401, "该账号没有可用凭证，无法签到".to_string()));
    assert_eq!(usage_token(&credentials()).expect("token"), credentials().token);
    assert_eq!(grant_token(&credentials()).expect("token"), credentials().token);
    let request = Ask::Balance.request("https://o", "Bearer t");
    assert_eq!(request.url, "https://o/api/web/points/v1/balance");
    assert!(request.headers.contains(&("Authorization".to_string(), "Bearer t".to_string())));
    assert_eq!(Ask::DesktopGrant.request("o", "t").method, "POST");
    assert_eq!(Ask::Bills.timeout_ms(), 25_000);
    assert_eq!(
        error_of(request_json(answer(401, "{}"))),
        (401, "登录态已过期，无法查询积分".to_string())
    );
    assert_eq!(error_of(request_json(answer(500, "{}"))), (502, "积分查询返回 HTTP 500".to_string()));
    assert_eq!(
        error_of(request_json(answer(200, "{\"code\":3}"))),
        (502, "积分查询返回异常 code=3".to_string())
    );
    assert_eq!(
        error_of(request_json(answer(200, "{\"code\":3,\"message\":\"m\"}"))),
        (502, "m".to_string())
    );
    assert_eq!(value(&request_json(answer(200, "{\"data\":{\"a\":1}}")).expect("data"))["a"], 1);
    assert_eq!(value(&request_json(answer(200, "{\"data\":null,\"b\":2}")).expect("data"))["b"], 2);
}

#[test]
fn subscriptions_are_formed() {
    assert_eq!(value(&normalize_subscription(&json("{}"))), Value::Null);
    let own = value(&normalize_subscription(&json(
        "{\"office\":{\"pro_enable\":true,\"active_plan\":{\"type\":\"p\",\"subscription_expired_at\":5}},\"code\":{\"pro_expired_time\":9}}",
    )));
    assert_eq!(own["planName"], "p");
    assert_eq!(own["status"], "active");
    assert_eq!(own["expireAt"], 9);
    let plain = value(&normalize_subscription(&json("{\"code\":{\"plan_type\":\"q\"}}")));
    assert_eq!(plain["planName"], "q");
    assert_eq!(plain["status"], "none");
    let points = "{\"available_points\":3,\"daily_points\":2}";
    let refused = query_usage(json(points), &Err(GatewayError::with_status(502, "x"))).expect("usage");
    let told = query_usage(json(points), &Ok(json("{\"code\":{\"plan_type\":\"q\"}}"))).expect("usage");
    assert_eq!(value(&refused)["available"], 3);
    assert_eq!(value(&refused)["wallets"], value(&told)["wallets"]);
    assert_eq!(value(&refused)["raw"]["subscriptionError"], "x");
    assert_eq!(value(&refused)["subscription"], Value::Null);
    assert_eq!(value(&told)["subscription"]["planName"], "q");
    assert!(query_usage(json("[]"), &Err(GatewayError::with_status(502, "x"))).is_err());
}

#[test]
fn success_is_what_the_bills_say() {
    let bills = "{\"items\":[{\"points\":5,\"created_at\":\"2024-01-02T03:04:05\",\"event_name\":\"e\"},\
                  {\"points\":\"7\",\"created_at\":\"2024-01-02 10:11:12\"},\
                  {\"points\":-1,\"created_at\":\"2024-01-02\"},{\"points\":9,\"created_at\":\"2024-01-01\"}]}";
    let result = value(
        &claim_daily_grant(
            &Ok(json("{\"granted\":true}")),
            &Ok(json("{\"point_grant_toast\":\"t\"}")),
            &Ok(json(bills)),
            "2024-01-02",
        )
        .expect("result"),
    );
    assert_eq!(result["success"], true);
    assert_eq!(result["msg"], "桌面登录奖励已发放；今日积分 +12");
    assert_eq!(result["grantsToday"][0]["name"], "e");
    assert_eq!(result["grantsToday"][0]["at"], "03:04:05");
    assert_eq!(result["grantsToday"][1]["name"], "积分发放");
    assert_eq!(result["settings"]["toast"], "t");
    assert_eq!(result["grantsError"], Value::Null);
    let none = value(
        &claim_daily_grant(
            &Err(GatewayError::with_status(502, "d")),
            &Err(GatewayError::with_status(502, "s")),
            &Ok(json("{}")),
            "2024-01-02",
        )
        .expect("result"),
    );
    assert_eq!(none["success"], false);
    assert_eq!(none["msg"], "今日未见积分入账（可能已领取）；桌面登录奖励未领取");
    let unknown = value(
        &claim_daily_grant(
            &Ok(json("{}")),
            &Ok(json("{}")),
            &Err(GatewayError::with_status(502, "b")),
            "2024-01-02",
        )
        .expect("result"),
    );
    assert_eq!(unknown["msg"], "未能核对今日入账；账单核对失败：b");
    assert_eq!(unknown["grantsError"], "b");
}

#[test]
fn login_files_are_found_and_read() {
    let own = desktop_auth_file(Some("/cfg"), None, "/home/u", '/');
    assert!(own.ends_with("/auth.json"));
    assert_eq!(own, "/cfg/auth.json");
    assert!(auth_file_meta(PathKind::File(10)).is_ok());
    assert_eq!(auth_file_meta(PathKind::File(0)).err(), Some("小浣熊登录态文件大小异常".to_string()));
    assert_eq!(auth_file_meta(PathKind::File(262_145)).err(), Some("小浣熊登录态文件大小异常".to_string()));
    assert_eq!(auth_file_meta(PathKind::Other).err(), Some("小浣熊登录态路径不是普通文件".to_string()));
    assert_eq!(
        auth_file_meta(PathKind::Link).err(),
        Some("小浣熊登录态路径是符号链接，已拒绝读取".to_string())
    );
    assert!(parse_auth_file("{\"a\":1}").is_ok());
    assert!(parse_auth_file("[]").is_err());
    let mut cache = AuthCache::new();
    cache.put("p", 5, &json("{\"a\":1}"));
    assert!(cache.get("p", 5).is_some());
    assert!(cache.get("p", 6).is_none());
    assert!(cache.get("q", 5).is_none());
    cache.clear();
    assert!(cache.get("p", 5).is_none());
    assert!(temp_name(Some("auth.json"), 7).contains("7"));
}

#[test]
fn desktop_logins_are_summed_up() {
    let token = token_with("{\"exp\":1700000000,\"sid\":\"a\"}");
    let file = json(&format!("{{\"access_token\":\"Bearer {token}\",\"refresh_token\":\"r\"}}"));
    let own = credentials_from_auth_file(&file).expect("credentials");
    assert_eq!(own.id, "raccoon-desktop");
    assert_eq!(own.user_id, "10");
    assert_eq!(own.expires_at, Some(millis(1_700_000_000_000.0)));
    let summary = value(&desktop_summary(&file, 9).expect("summary"));
    assert_eq!(summary["tokenTail"], "tail");
    assert_eq!(summary["hasRefreshToken"], true);
    assert_eq!(summary["mtime"], 9);
    assert_eq!(summary["tokenExpiresAt"].as_i64(), Some(1_700_000_000_000));
    let halfway = token_with("{\"exp\":1700000000.0005}");
    let half_file = json(&format!("{{\"access_token\":\"{halfway}\"}}"));
    let half = value(&desktop_summary(&half_file, 9).expect("summary"));
    assert_eq!(half["tokenExpiresAt"].as_f64(), Some(1_700_000_000_000.5));
    assert_eq!(
        credentials_from_auth_file(&json("{}")).err(),
        Some("小浣熊登录态里没有 access_token（请在客户端重新登录）".to_string())
    );
    assert_eq!(token_tail("abc"), "abc");
}

#[test]
fn login_files_are_changed_only_where_they_are_current() {
    let file = json("{\"access_token\":\"t\",\"refresh_token\":\"r\",\"kept\":1}");
    let expected = credentials_from_auth_file(&file).expect("credentials");
    let next = update_auth_file(&file, &expected, "t2", "").expect("file");
    let next_value = value(&next);
    assert_eq!(next_value["access_token"], "t2");
    assert_eq!(next_value["refresh_token"], "r");
    assert_eq!(next_value["kept"], 1);
    let text = persist_auth_file_if_current(&file, &expected, "t2", "").expect("text");
    assert_eq!(text, format!("{}\n", write_pretty(&next).expect("text")));
    assert!(text.starts_with("{\n  \""));
    assert!(text.ends_with("\n}\n"));
    assert_eq!(value(&json(&text)), next_value);
    assert_eq!(finish_file(Ok("{}".to_string())), Ok("{}\n".to_string()));
    assert_eq!(finish_file(Err("e".to_string())), Err("序列化登录态失败: e".to_string()));
    assert_eq!(
        persist_auth_file_if_current(&next, &expected, "t3", "").err(),
        Some("刷新结果已过期：凭证在此期间被更换（重新登录或重导入）".to_string())
    );
    assert!(auth_file_still_matches(Some((&file, 5)), 5, &expected));
    assert!(!auth_file_still_matches(Some((&file, 6)), 5, &expected));
    assert!(!auth_file_still_matches(Some((&next, 5)), 5, &expected));
    assert!(!auth_file_still_matches(None, 5, &expected));
}

#[test]
fn raccoon_records_are_read() {
    assert!(matches!(snapshot_for(None), Ok(Snapshot::Desktop)));
    assert!(matches!(snapshot_for(Some(&json("{\"desktop\":true}"))), Ok(Snapshot::Desktop)));
    assert!(matches!(snapshot_for(Some(&json("{\"id\":\"raccoon-desktop\"}"))), Ok(Snapshot::Desktop)));
    assert_eq!(
        error_of(snapshot_for(Some(&json("{\"id\":\"x\"}")))),
        (401, "账号 x 没有可用凭证，请重新添加".to_string())
    );
    match snapshot_for(Some(&json("{\"id\":\"x\",\"accessToken\":\"t\",\"expiresAt\":5}"))) {
        Ok(Snapshot::Stored(own)) => assert_eq!(own.expires_at, Some(millis(5.0))),
        other => panic!("{other:?}"),
    }
    assert!(latest_credentials(&credentials(), None).is_err());
    let mut desktop = credentials();
    desktop.origin = CredentialOrigin::AuthFile;
    assert!(matches!(latest_credentials(&desktop, None), Ok(Snapshot::Desktop)));
    assert!(latest_credentials(&credentials(), Some(&json("{\"id\":\"a\",\"accessToken\":\"n\"}"))).is_ok());
}

#[test]
fn raccoon_tokens_are_renewed() {
    assert!(matches!(refresh(&credentials(), false, 100_000), Ok(false)));
    assert!(matches!(refresh(&credentials(), false, 900_000), Ok(true)));
    assert!(matches!(refresh(&credentials(), true, 0), Ok(true)));
    let mut without = credentials();
    without.refresh_token = String::new();
    assert!(refresh(&without, true, 0).is_err());
    let request = refresh_request(&credentials(), "https://b");
    assert_eq!(request.url, "https://b/refresh");
    assert_eq!(value(&request.body.expect("body"))["refresh_token"], "r");
    let next = call_refresh_api(
        &credentials(),
        answer(200, &format!("{{\"data\":{{\"access_token\":\"{}\"}}}}", token_with("{\"exp\":5,\"sub\":\"w\"}"))),
    )
    .expect("renewal");
    assert_eq!(next.refresh_token, "r");
    assert_eq!(next.expires_at, Some(millis(5_000.0)));
    assert_eq!(next.user_id, "w");
    assert_eq!(next.id, "a");
    assert_eq!(error_of(call_refresh_api(&credentials(), answer(401, "{}"))).0, 401);
    assert_eq!(error_of(call_refresh_api(&credentials(), answer(500, "{}"))).0, 502);
    assert_eq!(
        error_of(call_refresh_api(&credentials(), answer(200, "{\"code\":7}"))),
        (401, "小浣熊 token 刷新失败 code=7 msg=服务器未返回新 token".to_string())
    );
    assert_eq!(apply_refresh(credentials(), WriteOutcome::Written, None).expect("kept").token, "t");
    let mut other = credentials();
    other.token = "other".to_string();
    assert_eq!(
        apply_refresh(credentials(), WriteOutcome::Stale, Some(Ok(other))).expect("latest").token,
        "other"
    );
    let mut neighbour = credentials();
    neighbour.id = "b".to_string();
    assert_eq!(refresh_key(&credentials(), "p", 1), refresh_key(&credentials(), "p", 2));
    assert_ne!(refresh_key(&credentials(), "p", 1), refresh_key(&neighbour, "p", 1));
    let mut filed = credentials();
    filed.origin = CredentialOrigin::AuthFile;
    assert_ne!(refresh_key(&filed, "p", 1), refresh_key(&filed, "p", 2));
    assert_ne!(refresh_key(&filed, "p", 1), refresh_key(&credentials(), "p", 1));
}

#[test]
fn raccoon_models_are_listed() {
    let default = default_model_id(None);
    let state = CatalogState::default();
    assert_eq!(list(&state, &default).len(), fallback_models(&default).len());
    assert_eq!(count(&state, &default), fallback_models(&default).len());
    assert!(list(&state, &default).iter().all(|m| m.text_at("id").is_some_and(|id| !id.is_empty())));
    assert!(should_fetch(&state, false, 0));
    assert_eq!(catalog_request("https://b", "t").method, "GET");
    let payload = json(
        "{\"data\":{\"categories\":[{\"type\":\"chat\",\"models\":[\
          {\"name\":\" m \",\"tags\":[\"vision\",\" \"],\"params\":{\"max_tokens\":7},\"billing_multiplier\":\"0.5\"},\
          {\"name\":\"\",\"model_name\":\"n\",\"display_name\":\"N\",\"context_window\":9,\"visible\":false}]},\
          {\"type\":\"none\"},\
          {\"models\":[{\"name\":\"m\",\"description\":\"again\"},{\"name\":\" \"},\
          {\"name\":\"o\",\"description\":\" code \",\"display_description\":\" d \"}]}]}}",
    );
    let entries = catalog_entries(&payload);
    assert_eq!(entries.len(), 5);
    let prices: Vec<Price> = entries
        .iter()
        .map(|entry| Price {
            base: Json::Null,
            charged: factors_of(entry).base.map(|d| d.text().to_string()),
        })
        .collect();
    let models: Vec<Value> = parse_catalog(&entries, &prices).iter().map(value).collect();
    assert_eq!(models.len(), 3);
    assert_eq!(models[0]["name"], "m");
    assert_eq!(models[0]["displayName"], "m");
    assert_eq!(models[0]["maxTokens"], 7);
    assert_eq!(models[0]["contextWindow"], Value::Null);
    assert_eq!(models[0]["supportImage"], true);
    assert_eq!(models[0]["supportThinking"], true);
    assert_eq!(models[0]["tags"].as_array().map(Vec::len), Some(1));
    assert_eq!(models[0]["visible"], true);
    assert_eq!(models[0]["credits"], "x0.5 credits");
    assert_eq!(models[1]["name"], "n");
    assert_eq!(models[1]["displayName"], "N");
    assert_eq!(models[1]["contextWindow"], 9);
    assert_eq!(models[1]["supportImage"], false);
    assert_eq!(models[1]["visible"], false);
    assert_eq!(models[1]["credits"], "");
    assert_eq!(models[2]["displayName"], "code");
    assert_eq!(models[2]["description"], "d");
    assert_eq!(models::seed_ids(&CatalogState::default()).len(), 0);
    let mut state = CatalogState::default();
    assert!(matches!(
        models::refresh(&mut state, &answer(500, "{}"), &Vec::new(), 5),
        ModelRefreshOutcome::Failed(_)
    ));
    assert!(!models::remote_refreshed(&state));
    let found = answer(200, "{\"categories\":[{\"models\":[{\"name\":\" m \",\"display_name\":\"M\"}]}]}");
    let prices = vec![Price { base: Json::Null, charged: None }];
    assert!(matches!(
        models::refresh(&mut state, &found, &prices, 5),
        ModelRefreshOutcome::Refreshed(1)
    ));
    let offered = list(&state, &default);
    assert_eq!((offered[0].text_at("id"), offered[0].text_at("name")), (Some("m"), Some("M")));
    assert!(models::remote_refreshed(&state));
    assert_eq!(models::last_refreshed_at(&state), 5);
    models::refresh(&mut state, &answer(200, "{}"), &Vec::new(), 9);
    assert!(models::remote_refreshed(&state));
    assert_eq!(models::last_refreshed_at(&state), 5);
    assert_eq!(list(&state, &default).len(), 1);
}

#[test]
fn raccoon_callbacks_are_checked() {
    let address = build_authorize_url("https://o", "s t");
    assert!(address.starts_with("https://o/code/authorize?"));
    assert_eq!(new_login_state(1, 2), new_login_state(1, 2));
    assert_ne!(new_login_state(1, 2), new_login_state(1, 3));
    let read = |url: &str| parse_callback_code(url, "s");
    assert_eq!(read("office-raccoon://AUTH/callback?code=c&state=s").expect("code"), "c");
    assert_eq!(error_of(read("https://auth/callback?code=c&state=s")).1, "登录回调地址无效");
    assert_eq!(error_of(read("office-raccoon://auth/callback?state=s")).1, "登录回调里没有授权码");
    assert_eq!(
        error_of(read("office-raccoon://auth/callback?code=c")).1,
        "登录回调里没有 state，无法确认这次登录由本机发起，请重新发起网页登录"
    );
    assert_eq!(
        error_of(read("office-raccoon://auth/callback?code=c&state=x")).1,
        "登录回调 state 校验失败，请重新发起登录"
    );
    let long = "x".repeat(8193);
    assert_eq!(
        error_of(read(&format!("office-raccoon://auth/callback?code={long}&state=s"))).1,
        "授权码过长"
    );
    let long = "x".repeat(513);
    assert_eq!(
        error_of(read(&format!("office-raccoon://auth/callback?code=c&state={long}"))).1,
        "登录回调 state 过长"
    );
}

#[test]
fn raccoon_codes_are_exchanged() {
    assert_eq!(error_of(exchange_code(" ", "s", "b")), (400, "缺少授权码".to_string()));
    assert_eq!(error_of(exchange_code("c", " ", "b")), (400, "缺少登录 state".to_string()));
    let request = exchange_code(" c ", "s", "https://b").expect("request");
    assert_eq!(request.url, "https://b/login_with_authorization_code");
    assert_eq!(value(&request.body.expect("body"))["authorization_code"], "c");
    assert_eq!(exchange_transport_error(true, "").status_code, 504);
    assert_eq!(exchange_transport_error(false, "x").message, "网页登录换取凭证失败: x");
    assert_eq!(
        error_of(read_exchange(answer(200, "{\"code\":200035}"))),
        (400, "授权码已失效，请重新发起网页登录".to_string())
    );
    assert_eq!(
        error_of(read_exchange(answer(403, "{\"message\":\"internal_server_error\"}"))),
        (403, "登录服务异常，请稍后重试".to_string())
    );
    assert_eq!(
        error_of(read_exchange(answer(500, "{}"))),
        (502, "网页登录换取凭证失败（HTTP 500）".to_string())
    );
    let record = value(
        &read_exchange(answer(200, "{\"data\":{\"access_token\":\"Bearer a\",\"refresh_token\":\"r\",\"office_identity\":\" i \",\"office_org_name\":\"\"}}"))
            .expect("record"),
    );
    assert_eq!(record["access_token"], "a");
    assert_eq!(record["office_identity"], "i");
    assert!(record.get("office_org_name").is_none());
    assert_eq!(saved_id(&json("{\"id\":\"x\"}")).expect("id"), "x");
    assert_eq!(error_of(saved_id(&json("{}"))).0, 500);
}
