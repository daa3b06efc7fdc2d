use model_gateway::errors::GatewayError;
use model_gateway::http::ApiResponse;
use model_gateway::json::{parse_json, write_json, Json};
use model_gateway::providers::adapter::{ModelRefreshOutcome, ReasoningPatch, UpstreamErrorClass};
use model_gateway::providers::kind::ProviderKind;
use model_gateway::providers::qoder::adapter::{
    response_id, response_id_from, QoderAdapter, RefreshStart,
};
use model_gateway::providers::qoder::auth::{
    account_proxy, apply_profile, clean_pat, exchange_pat, exchange_request, fetch_profile,
    finish_preparation, payload, prepare_account, read_job_tokens, read_profile, transport_error,
    Preparation,
};
use model_gateway::providers::qoder::balance;
use model_gateway::providers::qoder::chat::{
    business_error, build_plan, delta_json, http_error, send_error, TranslatedDelta, Translator,
};
use model_gateway::providers::qoder::cosy::{
    build_auth_headers, encode_body, machine_os, rsa_encrypt, sign_request, signature_path,
    CosyIdentity, Fresh,
};
use model_gateway::providers::qoder::credentials::{pack, timestamp, Credentials};
use model_gateway::providers::qoder::endpoints::{open_api_headers, Region};
use model_gateway::providers::qoder::machine::{
    machine_id, random_secret, read_id, secret_from, uuid_from,
};
use model_gateway::providers::qoder::models::{self, CatalogState, RefreshStep};
use model_gateway::providers::qoder::oauth::{
    drop_hyphens, finish_login, login_from, DeviceLogin, PollStep,
};
use model_gateway::providers::qoder::piping::{
    Aggregator, HeadStep, StreamDriver, StreamEvent, StreamHead, WholeStep,
};
use model_gateway::providers::qoder::protocol::{
    build_upstream_body, classify_upstream_error, client_specified_reasoning, content_to_text,
    normalize_messages, normalize_tools, resolve_thinking, slim_model_config, ThinkingChoice,
    UpstreamKind,
};
use model_gateway::providers::qoder::refresh::{
    accept, ensure_fresh, flight_key, refresh_request, renew, snapshot, Freshness,
};
use model_gateway::providers::qoder::stream::{
    parse_sse_line, strip_thinking_tags, LineBuffer, SseEvent, ThinkingParser,
};
use model_gateway::proxies::ClashSnapshot;
use serde_json::Value;

const LONGEST: usize = 8192;

fn json(text: &str) -> Json {
    parse_json(text).expect("JSON")
}

fn value(json: &Json) -> Value {
    serde_json::from_str(&write_json(json)).expect("written JSON can be read")
}

fn list(text: &str) -> Vec<Json> {
    match json(text) {
        Json::List(items) => items,
        other => panic!("{other:?}"),
    }
}

fn answer(status: u16, text: &str) -> ApiResponse {
    ApiResponse { ok: (200..300).contains(&status), status, payload: parse_json(text) }
}

fn error_of<T>(outcome: Result<T, GatewayError>) -> (i32, String) {
    match outcome {
        Ok(_) => panic!("an error was expected"),
        Err(error) => (error.status_code, error.message),
    }
}

fn no_catalog() -> CatalogState {
    CatalogState { global: Vec::new(), cn: Vec::new(), global_fetched_at: 0, cn_fetched_at: 0 }
}

fn no_clash() -> ClashSnapshot {
    ClashSnapshot { available: false, error: None, mixed_port: None, listeners: Vec::new() }
}

fn credentials(refresh: &str) -> Credentials {
    Credentials {
        region: Region::Global,
        access_token: "access".to_string(),
        refresh_token: refresh.to_string(),
        expires_at: Some(1_700_000_000_000),
        user_id: "user".to_string(),
        email: "e@x".to_string(),
        name: "name".to_string(),
        machine_id: "machine".to_string(),
    }
}

fn wrapped(chunk: &str) -> String {
    let mut envelope = Json::object();
    envelope.put("statusCodeValue", Json::number(200));
    envelope.put("body", Json::text(chunk));
    format!("data: {}\n", write_json(&envelope))
}

fn translator(thinking: bool) -> Translator {
    Translator::new("resp".to_string(), "Auto".to_string(), thinking, 1_700_000_000_123)
}

#[test]
fn thinking_is_told_from_answer() {
    let mut parser = ThinkingParser::new();
    parser.push("a<thi");
    parser.push("nking>b</thinking>\n\nc");
    parser.finish();
    let pieces = parser.take();
    let said: Vec<(String, bool)> = pieces.into_iter().map(|p| (p.text, p.is_thinking)).collect();
    assert_eq!(
        said,
        vec![("a".to_string(), false), ("b".to_string(), true), ("c".to_string(), false)]
    );
}

#[test]
fn plain_text_passes_the_parser() {
    let mut parser = ThinkingParser::default();
    parser.push("1 < 2 and <b> too");
    parser.finish();
    parser.finish();
    let whole: String = parser.take().into_iter().map(|p| p.text).collect();
    assert_eq!(whole, "1 < 2 and <b> too");
    assert_eq!(strip_thinking_tags("<thinking>a</thinking>b"), "ab");
}

#[test]
fn lines_survive_any_cut() {
    let text = "data: 你\r\n\n: no\ndata:b\nda";
    let mut whole = LineBuffer::new();
    let mut expected = whole.push(text.as_bytes());
    expected.extend(whole.finish());
    let mut cut = LineBuffer::new();
    let mut lines = Vec::new();
    for byte in text.as_bytes() {
        lines.extend(cut.push(&[*byte]));
    }
    lines.extend(cut.finish());
    assert_eq!(lines, expected);
    assert_eq!(lines.len(), 2);
}

#[test]
fn envelopes_are_opened() {
    assert!(matches!(parse_sse_line(" "), SseEvent::Skip));
    assert!(matches!(parse_sse_line("[DONE]"), SseEvent::Done));
    assert!(matches!(parse_sse_line("{\"body\":\"[DONE]\"}"), SseEvent::Done));
    assert!(matches!(parse_sse_line("{\"body\":null}"), SseEvent::Skip));
    assert!(matches!(parse_sse_line("{\"body\":\"no json\"}"), SseEvent::Skip));
    match parse_sse_line("{\"body\":\"{\\\"a\\\":1}\"}") {
        SseEvent::Chunk(chunk) => assert_eq!(value(&chunk)["a"], 1),
        other => panic!("{other:?}"),
    }
    match parse_sse_line("{\"statusCodeValue\":429,\"body\":\"slow\"}") {
        SseEvent::Error { status, kind, raw, message, pricing_url } => {
            assert_eq!((status, kind, raw.as_str()), (429, UpstreamKind::Rate, "slow"));
            assert_eq!(message, "请求过于频繁，请稍后重试");
            assert_eq!(pricing_url, None);
        },
        other => panic!("{other:?}"),
    }
}

#[test]
fn failed_turns_take_their_results_along() {
    let messages = list(
        "[{\"role\":\"assistant\",\"__failed\":true,\"tool_calls\":[{\"id\":\"a\"}]},\
          {\"role\":\"tool\",\"tool_call_id\":\"a\",\"content\":\"x\"},\
          {\"role\":\"tool\",\"tool_call_id\":\"b\",\"content\":\"y\"},\
          {\"role\":\"developer\",\"content\":\"d\"},{\"role\":\"other\"},{\"content\":\"z\"},\
          {\"role\":\"assistant\",\"content\":null,\"tool_calls\":[{\"id\":\"c\",\"function\":{\"name\":\"f\",\"arguments\":{\"k\":1}}}]},\
          {\"role\":\"user\",\"content\":[{\"type\":\"text\",\"text\":\"see\"},{\"type\":\"image_url\",\"image_url\":{\"url\":\"u\"}}]}]",
    );
    let out: Vec<Value> = normalize_messages(&messages).iter().map(value).collect();
    assert_eq!(out.len(), 4);
    assert_eq!(out[0]["tool_call_id"], "b");
    assert_eq!(out[1]["role"], "system");
    assert_eq!(out[2]["content"], " ");
    assert_eq!(out[2]["tool_calls"][0]["function"]["arguments"], "{\"k\":1}");
    assert_eq!(out[3]["content"][0]["text"], "see");
    assert_eq!(out[3]["content"][1]["image_url"]["url"], "u");
    assert_eq!(content_to_text(&json("[\"a\",{\"text\":\"b\"},{\"content\":\"c\"},3]")), "abc");
}

#[test]
fn tools_without_a_name_are_left_out() {
    let tools = json("[{\"function\":{\"name\":\"f\",\"description\":\"d\",\"strict\":true}},{\"function\":{}}]");
    let kept = normalize_tools(Some(&tools)).expect("tools");
    assert_eq!(kept.len(), 1);
    let kept = value(&kept[0]);
    assert_eq!(kept["type"], "function");
    assert_eq!(kept["function"]["name"], "f");
    assert!(kept["function"].get("strict").is_none());
    assert!(normalize_tools(Some(&json("[]"))).is_none());
    assert!(normalize_tools(Some(&json("[{}]"))).is_none());
    assert!(normalize_tools(None).is_none());
}

#[test]
fn thinking_is_chosen_by_request_and_model() {
    let choose = |body: &str, model: &str| {
        let choice = resolve_thinking(&json(body), &json(model));
        (choice.enable, choice.effort)
    };
    let able = "{\"reasoning\":true,\"efforts\":[\"low\",\"xhigh\"]}";
    assert_eq!(choose("{}", "{}"), (None, None));
    assert_eq!(choose("{\"reasoning_effort\":\"off\"}", able), (None, None));
    assert_eq!(choose("{\"thinking\":false}", able), (None, None));
    assert_eq!(choose("{}", able), (Some(true), None));
    assert_eq!(choose("{\"reasoning_effort\":\"HIGH\"}", able), (Some(true), Some("xhigh".to_string())));
    assert_eq!(choose("{\"reasoning_effort\":\"minimal\"}", able), (Some(true), Some("low".to_string())));
    assert_eq!(choose("{\"reasoning_effort\":\"odd\"}", able), (Some(true), Some("low".to_string())));
    assert_eq!(
        choose("{\"reasoning_effort\":\"odd\"}", "{\"reasoning\":true}"),
        (Some(true), Some("medium".to_string()))
    );
    assert!(client_specified_reasoning(&json("{\"reasoning\":{}}")));
    assert!(!client_specified_reasoning(&json("{\"reasoning\":null}")));
}

#[test]
fn qoder_errors_are_classified() {
    let kind = |status: u16, text: &str| classify_upstream_error(status, text).kind;
    assert_eq!(kind(403, "Insufficient"), UpstreamKind::Quota);
    assert_eq!(kind(429, ""), UpstreamKind::Rate);
    assert_eq!(kind(200, "Rate Limit hit"), UpstreamKind::Rate);
    assert_eq!(kind(401, ""), UpstreamKind::Auth);
    assert_eq!(kind(403, ""), UpstreamKind::Auth);
    assert_eq!(kind(400, "{\"code\": 112}"), UpstreamKind::Quota);
    assert_eq!(kind(500, ""), UpstreamKind::Server);
    assert_eq!(kind(404, ""), UpstreamKind::Unknown);
    let error = http_error(403, "no");
    assert_eq!(error.status_code, 401);
    assert_eq!(error.message, "上游请求失败：上游拒绝访问，可能是登录态失效或权限不足（上游原文：no）");
    assert_eq!(error.code, Some("403".to_string()));
    let plain = business_error(404, UpstreamKind::Unknown, "gone", "", None);
    assert_eq!((plain.status_code, plain.message.as_str()), (502, "上游返回 404: gone"));
    let priced = business_error(403, UpstreamKind::Quota, "r", "m", Some("https://p"));
    assert_eq!((priced.status_code, priced.message.as_str()), (429, "上游请求失败：m 套餐与额度：https://p（上游原文：r）"));
}

#[test]
fn bodies_carry_stable_ids_for_a_seed() {
    let thinking = ThinkingChoice { enable: Some(true), effort: Some("low".to_string()) };
    let messages = list("[{\"role\":\"user\",\"content\":\"hello\"}]");
    let build = || {
        value(&build_upstream_body(
            "key",
            &json("{\"is_reasoning\":true,\"is_vl\":false,\"extra\":1}"),
            &messages,
            None,
            Some(99_999_999),
            &thinking,
            "user",
            Some("seed"),
            77,
        ))
    };
    let first = build();
    let second = build();
    assert_eq!(first["session_id"], second["session_id"]);
    assert!(first["session_id"].as_str().expect("id").ends_with("-seed"));
    assert_eq!(first["chat_record_id"], second["chat_record_id"]);
    assert_eq!(first["chat_record_id"].as_str().map(|s| s.len()), Some(16));
    assert_ne!(first["request_id"], second["request_id"]);
    assert_eq!(first["parameters"]["max_tokens"], 32_768);
    assert_eq!(first["parameters"]["enable_thinking"], true);
    assert_eq!(first["parameters"]["reasoning_effort"], "low");
    assert_eq!(first["chat_context"]["text"], "hello");
    assert_eq!(first["business"]["begin_at"], 77);
    assert_eq!(first["model_config"]["key"], "key");
    assert!(first["model_config"].get("extra").is_none());
    let slim = value(&slim_model_config(&json("{\"format\":null,\"source\":\"s\",\"thinking_config\":{}}"), "k"));
    assert_eq!(slim.as_object().map(|o| o.len()), Some(2));
}

#[test]
fn record_ids_are_digests_of_the_conversation() {
    let thinking = ThinkingChoice { enable: None, effort: None };
    let messages = list("[{\"role\":\"user\",\"content\":\"hello\"}]");
    let body = value(&build_upstream_body("key", &Json::Null, &messages, None, None, &thinking, "u", Some("s"), 0));
    let digest = <sha2::Sha256 as sha2::Digest>::digest(
        b"qoder-record\0key\0user\0hello\0mt=32768".as_slice(),
    );
    let hex: String = digest.iter().map(|b| format!("{b:02x}")).collect();
    assert_eq!(body["chat_record_id"].as_str(), Some(&hex[..16]));
    let session = <sha2::Sha256 as sha2::Digest>::digest(b"qoder-session\0u\0key".as_slice());
    let hex: String = session.iter().map(|b| format!("{b:02x}")).collect();
    assert_eq!(body["session_id"].as_str(), Some(format!("{}-s", &hex[..16]).as_str()));
}

#[test]
fn bodies_are_shuffled() {
    let std = "ABCDEFGHIJKLMNOPQRSTUVWXYZabcdefghijklmnopqrstuvwxyz0123456789+/";
    let custom = model_gateway::providers::qoder::cosy::CUSTOM_ALPHABET;
    let payload = b"hello, qoder!";
    let plain = base64::Engine::encode(&base64::engine::general_purpose::STANDARD, payload);
    let third = plain.len() / 3;
    let moved = format!(
        "{}{}{}",
        &plain[plain.len() - third..],
        &plain[third..plain.len() - third],
        &plain[..third]
    );
    let expected: String = moved
        .chars()
        .map(|c| match std.find(c) {
            Some(at) => custom.as_bytes()[at] as char,
            None => '$',
        })
        .collect();
    assert_eq!(String::from_utf8(encode_body(payload)).expect("text"), expected);
    assert!(encode_body(b"").is_empty());
}

#[test]
fn requests_are_signed_over_their_path() {
    assert_eq!(
        signature_path("https://api3.qoder.sh/algo/api/v1/x?y=1").expect("path"),
        "/api/v1/x"
    );
    assert_eq!(error_of(signature_path("nowhere")).0, 500);
    let identity = CosyIdentity { user_id: "u", auth_token: "t", name: "n", email: "e", machine_id: "m" };
    let fresh = Fresh {
        aes_key: "0123456789abcdef",
        cosy_key: "key",
        request_id: "rid",
        now_ms: 1_700_000_000_000,
        machine_os: "x86_64_linux",
    };
    let first = sign_request(b"body", "/p", &identity, &fresh);
    assert_eq!(first, sign_request(b"body", "/p", &identity, &fresh));
    assert_ne!(first, sign_request(b"bodY", "/p", &identity, &fresh));
    assert_ne!(first, sign_request(b"body", "/q", &identity, &fresh));
    let built = build_auth_headers(Some(b"x"), "https://api3.qoder.sh/algo/a", &identity, 1, "os").expect("headers");
    assert_eq!(built.len(), first.len());
    assert_eq!(machine_os(true, false, true), "aarch64_darwin");
    let long = "x".repeat(200);
    assert_eq!(
        error_of(rsa_encrypt(&[1u8; 128], &long)),
        (500, "Qoder 签名内容过长".to_string())
    );
}

#[test]
fn qoder_regions_have_names() {
    assert!(matches!(Region::parse(" intl "), Ok(Region::Global)));
    assert!(matches!(Region::parse(""), Ok(Region::Global)));
    assert!(matches!(Region::parse("cn"), Ok(Region::Cn)));
    assert_eq!(error_of(Region::parse("mars")).0, 400);
    assert!(matches!(Region::from_payload(&json("{\"edition\":\"cn\"}")), Ok(Region::Cn)));
    assert_eq!(
        error_of(Region::from_payload(&json("{\"mode\":3}"))),
        (400, "Qoder 地区必须是字符串".to_string())
    );
    assert_eq!(Region::Cn.counterpart(), Region::Global);
    assert_eq!(Region::Cn.device_login_url(), "https://qoder.com.cn/device/selectAccounts");
    assert_eq!(open_api_headers(Some("t")).last(), Some(&("Authorization".to_string(), "Bearer t".to_string())));
    assert_eq!(open_api_headers(None).len(), 3);
}

#[test]
fn machines_keep_their_id() {
    let kept = machine_id(Some(" saved "), &[]).expect("id");
    assert_eq!((kept.value.as_str(), kept.save), ("saved", false));
    let other = machine_id(None, &[None, Some("found".to_string())]).expect("id");
    assert_eq!(other.value, "found");
    let fresh = machine_id(None, &[]).expect("id");
    assert_eq!(fresh.value.len(), 36);
    assert!(fresh.save);
    let again = machine_id(Some(&fresh.value), &[]).expect("id");
    assert_eq!((again.value, again.save), (fresh.value, false));
    assert_eq!(read_id(Some("a\u{1}b")), None);
    assert_eq!(
        uuid_from((0u8..16).collect()),
        "00010203-0405-4607-8809-0a0b0c0d0e0f"
    );
    assert_eq!(random_secret().expect("secret").len(), 43);
}

#[test]
fn qoder_records_are_read() {
    let read = |text: &str| Credentials::from_payload(&json(text), LONGEST);
    assert_eq!(error_of(read("[]")), (400, "Qoder 账号内容必须是 JSON 对象".to_string()));
    assert_eq!(error_of(read("{}")), (400, "缺少 Qoder access / accessToken".to_string()));
    assert_eq!(
        error_of(read("{\"token\":\"t\",\"refresh\":\"a|b\"}")),
        (400, "Qoder refresh 格式无效，请粘贴完整账号记录".to_string())
    );
    assert_eq!(
        error_of(read("{\"token\":\"t\",\"refresh\":\"a|b|c\",\"userId\":\"x\"}")),
        (400, "Qoder userId 与刷新凭证中的用户不一致".to_string())
    );
    assert_eq!(
        error_of(read("{\"token\":\"t\",\"refresh\":\"a|b|c\",\"machineId\":\"x\"}")),
        (400, "Qoder machineId 与刷新凭证中的设备不一致".to_string())
    );
    let own = read("{\"access\":\"t\",\"refresh\":\"r\",\"uid\":\"u\",\"machine_id\":\"m\",\"expires\":1700000000}").expect("record");
    assert_eq!(own.refresh_token, "r|u|m");
    assert_eq!(own.expires_at, Some(1_700_000_000_000));
    let pat = read("{\"access\":\"t\",\"refresh\":\"pat|P|J|u|m\"}").expect("record");
    assert_eq!((pat.user_id.as_str(), pat.machine_id.as_str()), ("u", "m"));
    assert_eq!(pat.pat(), Some("P"));
    let shown = value(&own.to_value());
    assert_eq!(shown["mode"], "global");
    assert_eq!(shown["email"], Value::Null);
    assert_eq!(shown["expiresAt"], 1_700_000_000_000i64);
    assert_eq!(pack("r", "u", "m"), "r|u|m");
}

#[test]
fn times_are_read_in_every_form() {
    assert_eq!(timestamp(Some(&json("1700000000"))), Some(1_700_000_000_000));
    assert_eq!(timestamp(Some(&json("1700000000123"))), Some(1_700_000_000_123));
    assert_eq!(timestamp(Some(&json("\" 1700000000 \""))), Some(1_700_000_000_000));
    assert_eq!(timestamp(Some(&json("\"2023-11-14T22:13:20Z\""))), Some(1_700_000_000_000));
    assert_eq!(timestamp(Some(&json("\"soon\""))), None);
    assert_eq!(timestamp(Some(&json("0"))), None);
    assert_eq!(timestamp(None), None);
}

#[test]
fn identities_are_completed_once() {
    let mut own = credentials("r|x|y");
    own.complete_identity("new", LONGEST).expect("complete");
    assert_eq!(own.refresh_token, "r|user|machine");
    own.complete_identity("new", LONGEST).expect("complete");
    assert_eq!(own.refresh_token, "r|user|machine");
    let mut bare = credentials("");
    bare.machine_id = String::new();
    bare.complete_identity("new", LONGEST).expect("complete");
    assert_eq!(bare.machine_id, "new");
    let mut nowhere = credentials("");
    nowhere.machine_id = String::new();
    assert_eq!(
        error_of(nowhere.complete_identity("", LONGEST)),
        (500, "无法生成 Qoder 机器标识".to_string())
    );
    let mut nobody = credentials("");
    nobody.user_id = String::new();
    assert_eq!(error_of(nobody.complete_identity("new", LONGEST)).0, 400);
    let mut long = credentials(&"x".repeat(LONGEST));
    assert_eq!(
        error_of(long.complete_identity("m", LONGEST)),
        (400, "Qoder 刷新凭证过长".to_string())
    );
}

#[test]
fn personal_tokens_are_exchanged() {
    assert_eq!(transport_error(true).status_code, 504);
    assert!(payload(answer(200, "{\"a\":1}"), "x").is_ok());
    assert!(payload(answer(500, "{}"), "x").is_err());
    assert_eq!(error_of(clean_pat(" ", LONGEST)).0, 400);
    assert_eq!(clean_pat(" p ", LONGEST).expect("token"), "p");
    assert!(exchange_request("p", Region::Cn).url.starts_with("https://openapi.qoder.com.cn"));
    assert!(fetch_profile("t", Region::Global).url.ends_with("/api/v1/userinfo"));
    let tokens = read_job_tokens(answer(200, "{\"token\":\"a\",\"refresh_token\":\"j\"}"), LONGEST).expect("tokens");
    assert_eq!(
        error_of(read_job_tokens(answer(401, "{}"), LONGEST)),
        (401, "Qoder PAT 换取令牌失败（HTTP 401），请确认凭证有效且地区选择正确".to_string())
    );
    assert_eq!(
        error_of(read_profile(answer(200, "[]"))),
        (502, "Qoder 用户信息查询未返回有效 JSON 对象".to_string())
    );
    let own = exchange_pat("p", Region::Global, &tokens, &json("{\"id\":\"u\",\"email\":\"e\"}"), "m", 1_700_000_000_000, LONGEST)
        .expect("credentials");
    assert_eq!(own.access_token, "a");
    assert_eq!(own.pat(), Some("p"));
    assert_eq!(own.refresh_token, "pat|p|j|u|m");
    assert_eq!(own.expires_at, Some(1_700_086_400_000));
    let mut known = credentials("");
    assert!(apply_profile(&mut known, &json("{\"id\":\"other\"}")).is_err());
    assert!(apply_profile(&mut known, &json("{\"id\":\"user\"}")).is_ok());
}

#[test]
fn accounts_are_prepared() {
    match prepare_account(&json("{\"pat\":\"p\"}"), LONGEST) {
        Ok(Preparation::ExchangePat { pat, region }) => assert_eq!((pat.as_str(), region), ("p", Region::Global)),
        other => panic!("{other:?}"),
    }
    match prepare_account(&json("{\"token\":\"t\",\"userId\":\"u\",\"machineId\":\"m\",\"email\":\"e\",\"name\":\"n\"}"), LONGEST) {
        Ok(Preparation::FetchProfile { credentials, .. }) | Ok(Preparation::Complete(credentials)) => {
            let own = finish_preparation(credentials, None, "machine", LONGEST).expect("done");
            assert_eq!(own.user_id, "u");
        },
        other => panic!("{other:?}"),
    }
    assert!(matches!(account_proxy(&json("{}"), &no_clash()), Ok(None)));
    assert_eq!(error_of(account_proxy(&json("{\"proxy\":{}}"), &no_clash())).0, 400);
}

#[test]
fn logins_are_made_of_what_was_drawn() {
    let login = login_from(Region::Cn, "m 1", "verifier", "a-b-c", "state").expect("login");
    assert_eq!(login.state, "state");
    assert_eq!(
        login.auth_url,
        "https://qoder.com.cn/device/selectAccounts?challenge=iMnq5o6zALKXGivsnlom_0F5_WYda32GHkxlV7mq7hQ\
         &challenge_method=S256&machine_id=m+1&nonce=abc"
    );
    assert_eq!(
        login.poll_request().url,
        "https://openapi.qoder.com.cn/api/v1/deviceToken/poll?nonce=abc&verifier=verifier\
         &challenge_method=S256"
    );
    assert_eq!(secret_from(Some(vec![0; 32])).expect("secret"), "A".repeat(43));
    assert_eq!(error_of(secret_from(None)), (500, "无法生成安全的 Qoder 登录随机串".to_string()));
    assert_eq!(
        response_id_from(Some("00010203-0405-4607-8809-0a0b0c0d0e0f")),
        "chatcmpl-000102030405460788090a0b"
    );
    assert_eq!(response_id_from(None), "chatcmpl-");
}

#[test]
fn devices_log_in() {
    let login = DeviceLogin::new(Region::Global, "machine").expect("login");
    assert!(login.auth_url.starts_with("https://qoder.com/device/selectAccounts?"));
    assert_eq!(login.poll_request().method, "GET");
    assert!(matches!(login.poll(answer(404, "{}"), 0, LONGEST), Ok(PollStep::Pending)));
    assert_eq!(drop_hyphens("a-b-c"), "abc");
    match login.poll(answer(200, "{\"token\":\"t\",\"refresh_token\":\"r\",\"user_id\":\"u\"}"), 5, LONGEST) {
        Ok(PollStep::FetchProfile(own)) => {
            assert_eq!(own.access_token, "t");
            let done = finish_login(own, Ok(json("{\"id\":\"u\",\"email\":\"e\"}")), "machine", LONGEST).expect("login");
            assert_eq!(done.refresh_token, "r|u|machine");
            assert_eq!(done.email, "e");
        },
        other => panic!("{other:?}"),
    }
}

#[test]
fn logins_are_renewed_before_they_end() {
    let own = credentials("r|user|machine");
    assert!(matches!(ensure_fresh(&own, false, 1_600_000_000_000), Ok(Freshness::Fresh)));
    assert!(matches!(ensure_fresh(&own, true, 1_600_000_000_000), Ok(Freshness::Renew)));
    assert!(matches!(ensure_fresh(&own, false, 1_700_000_000_000), Ok(Freshness::Renew)));
    assert!(ensure_fresh(&credentials(""), true, 0).is_err());
    assert_eq!(refresh_request(&own).url, "https://center.qoder.sh/algo/api/v3/user/refresh_token");
    let fresh = renew(&own, answer(200, "{\"token\":\"n\",\"refresh_token\":\"r2\"}"), 0, LONGEST).expect("renewal");
    let kept = accept(&own, fresh, false, "machine", LONGEST).expect("accept");
    assert_eq!(kept.user_id, "user");
    assert_eq!(kept.access_token, "n");
    assert_eq!(kept.refresh_token, "r2|user|machine");
    assert!(renew(&own, answer(200, "{}"), 0, LONGEST).is_err());
    assert_ne!(flight_key("s", "a", &own), flight_key("s", "b", &own));
    assert!(!flight_key("s", "a", &own).contains("access"));
    assert!(snapshot(None, "m", LONGEST).is_err());
}

#[test]
fn quotas_are_shown() {
    let usage = value(&balance::query(answer(
        200,
        "{\"userQuota\":{\"remaining\":3,\"total\":10,\"used\":7,\"unit\":\"credits\"},\
          \"orgResourcePackage\":{\"total\":5.5,\"used\":1},\"expiresAt\":9}",
    )).expect("usage"));
    assert_eq!(usage["available"], 3.0);
    assert_eq!(usage["unit"], "credits");
    assert_eq!(usage["wallets"][0]["displayName"], "个人已用");
    assert_eq!(usage["wallets"][1]["balance"], 10.0);
    assert_eq!(usage["wallets"][2]["balanceView"], "5.5 credits");
    assert_eq!(usage["wallets"][3]["balanceView"], "1 credits");
    assert_eq!(usage["subscription"]["expireAt"], 9);
    let bare = value(&balance::query(answer(200, "{}")).expect("usage"));
    assert_eq!(
        error_of(balance::query(answer(429, "{}"))),
        (429, "Qoder 额度查询失败（HTTP 429），请稍后重试".to_string())
    );
    assert_eq!(bare["available"], Value::Null);
    assert_eq!(bare["unit"], "额度");
    assert_eq!(bare["wallets"].as_array().map(|w| w.len()), Some(0));
    let own = credentials("r|user|machine");
    assert!(balance::usage_request(&own).url.ends_with("/api/v2/quota/usage"));
    assert!(balance::should_retry(401, &own));
    assert!(!balance::should_retry(401, &credentials("")));
    assert!(!balance::should_retry(500, &own));
}

#[test]
fn models_are_found_in_their_region_first() {
    let mut state = no_catalog();
    let all = models::list(&state);
    let ids: Vec<String> = all.iter().map(|m| m.text_at("id").unwrap_or("").to_lowercase()).collect();
    let mut distinct = ids.clone();
    distinct.sort();
    distinct.dedup();
    assert_eq!(ids.len(), distinct.len());
    assert_eq!(models::count(&state), ids.len());
    let found = models::resolve(&state, " auto ", Region::Cn).expect("model");
    assert_eq!(found.text_at("upstreamKey"), Some("auto"));
    assert!(models::resolve(&state, "nothing", Region::Cn).is_none());
    assert!(!models::remote_refreshed(&state, Region::Global));
    let outcome = models::refresh(
        &mut state,
        Region::Global,
        &answer(200, "{\"chat\":[{\"key\":\"k\",\"display_name\":\"My Model\",\"enable\":true,\"is_vl\":1,\"thinking_config\":{\"enabled\":{\"efforts\":{\"low\":{}}}}},{\"key\":\"k2\",\"display_name\":\"mymodel\"}]}"),
        &vec!["0.5".to_string(), String::new()],
        99,
    );
    assert!(matches!(outcome, ModelRefreshOutcome::Refreshed(1)));
    assert!(models::remote_refreshed(&state, Region::Global));
    assert_eq!(models::last_refreshed_at(&state), 99);
    let own = models::resolve(&state, "MYMODEL", Region::Global).expect("model");
    assert_eq!(own.text_at("upstreamKey"), Some("k"));
    assert_eq!(value(&own)["efforts"][0], "low");
    assert!(matches!(
        models::refresh(&mut state, Region::Global, &answer(500, "{}"), &Vec::new(), 100),
        ModelRefreshOutcome::Failed(_)
    ));
    assert_eq!(models::last_refreshed_at(&state), 99);
    assert!(matches!(
        models::refresh_step(&state, &credentials(""), false, 100, "os"),
        RefreshStep::Unchanged
    ));
    assert!(matches!(
        models::refresh_step(&state, &credentials(""), true, 100, "os"),
        RefreshStep::Fetch { .. }
    ));
    let factors: Vec<Option<u64>> = models::factors_of(&json(
        "{\"chat\":[{\"price_factor\":0.5},{\"price_factor\":\" 2 \"},{\"price_factor\":0},\
          {\"price_factor\":-1},{\"price_factor\":\"inf\"},{\"price_factor\":true},{}]}",
    ))
    .iter()
    .map(|factor| factor.as_ref().map(|double| double.bits()))
    .collect();
    let expected = [Some(0.5f64), Some(2.0), Some(0.0), None, None, None, None];
    assert_eq!(factors, expected.map(|factor| factor.map(f64::to_bits)));
    assert!(models::factors_of(&json("{}")).is_empty());
    assert_eq!(models::credits_of_text(" 0.5 "), "x0.5 credits");
    assert_eq!(models::credits_of_text(" "), "");
}

#[test]
fn chat_plans_put_the_system_first() {
    let state = no_catalog();
    let body = json("{\"messages\":[{\"role\":\"user\",\"content\":\"u\"},{\"role\":\"system\",\"content\":\"s\"}],\"user\":\"seed\",\"max_tokens\":5}");
    let plan = build_plan(&state, &credentials(""), &body, "Auto", 1_000, "os").expect("plan");
    assert_eq!(
        plan.url,
        "https://api3.qoder.sh/algo/api/v2/service/pro/sse/agent_chat_generation?FetchKeys=llm_model_result&AgentId=agent_common&Encode=1"
    );
    assert_eq!(plan.upstream_key, "auto");
    assert!(plan.headers.contains(&("X-Model-Key".to_string(), "auto".to_string())));
    assert!(plan.headers.contains(&("Accept".to_string(), "text/event-stream".to_string())));
    let missing = build_plan(&state, &credentials(""), &body, "nothing", 1_000, "os");
    match missing {
        Err(error) => {
            assert_eq!(error.message, "模型不存在: nothing。Qoder 可用模型见 GET /v1/models");
            assert_eq!(error.code, Some("model_not_found".to_string()));
        },
        Ok(_) => panic!("an error was expected"),
    }
    assert!(send_error(None, "r").message.contains("直连"));
}

#[test]
fn answers_are_translated() {
    let mut own = translator(true);
    let state = no_catalog();
    let chunks = [
        "{\"model\":\"auto\",\"choices\":[{\"delta\":{\"reasoning_content\":\"r\",\"content\":\"a<thinking>t</thinking>b\"}}]}",
        "{\"choices\":[{\"delta\":{\"tool_calls\":[{\"index\":1,\"id\":\"c\",\"function\":{\"name\":\"f\",\"arguments\":\"{\\\"k\\\":\"}}]}}]}",
        "{\"choices\":[{\"delta\":{\"tool_calls\":[{\"index\":1,\"function\":{\"arguments\":\" 1}\"}},{\"index\":0}]},\"finish_reason\":\"stop\"}],\"usage\":{\"total_tokens\":4}}",
    ];
    let mut deltas = Vec::new();
    for chunk in chunks {
        deltas.extend(own.consume(&json(chunk), &state));
    }
    deltas.extend(own.finish());
    assert!(own.finish().is_empty());
    assert_eq!(deltas.len(), 7);
    assert_eq!(own.content, "ab");
    assert_eq!(own.reasoning, "rt");
    assert_eq!(own.final_finish(), "tool_calls");
    let calls: Vec<Value> = own.final_tool_calls().iter().map(value).collect();
    assert_eq!(calls[0]["id"], "call_0");
    assert_eq!(calls[0]["function"]["arguments"], "{}");
    assert_eq!(calls[1]["function"]["arguments"], "{\"k\":1}");
    let whole = value(&own.completion_body());
    assert_eq!(whole["created"], 1_700_000_000);
    assert_eq!(whole["model"], "Auto");
    assert_eq!(whole["choices"][0]["message"]["content"], "ab");
    assert_eq!(whole["usage"]["total_tokens"], 4);
    let frame = value(&delta_json(&TranslatedDelta::Reasoning("x".to_string())));
    assert_eq!(frame["reasoning_content"], "x");
    assert!(own.take_role_frame());
    assert!(!own.take_role_frame());
}

#[test]
fn streams_are_driven_to_their_end() {
    let state = no_catalog();
    let mut driver = StreamDriver::new(translator(false));
    assert!(driver.start(&Vec::new(), &state).is_empty());
    let text = wrapped("{\"choices\":[{\"delta\":{\"content\":\"hi\"}}]}");
    let step = driver.step(StreamEvent::Bytes(text.as_bytes()), &state);
    assert!(!step.over);
    assert!(step.frames.last().expect("frame").contains("\"content\":\"hi\""));
    let end = driver.step(StreamEvent::Ended, &state);
    assert!(end.over);
    assert_eq!(end.frames.last().map(String::as_str), Some("data: [DONE]\n\n"));
    assert!(end.frames[0].contains("\"finish_reason\":\"stop\""));
    assert_eq!(end.failed, None);
}

#[test]
fn broken_streams_end_with_an_error() {
    let state = no_catalog();
    let mut driver = StreamDriver::new(translator(false));
    let step = driver.step(StreamEvent::Broken("reset"), &state);
    assert!(step.over);
    assert_eq!(step.failed, Some("上游流式传输中断: reset".to_string()));
    assert!(step.frames[0].contains("proxy_error"));
    assert_eq!(step.frames[1], "data: [DONE]\n\n");
    let mut silent = StreamDriver::new(translator(false));
    let step = silent.step(StreamEvent::Broken("流式响应空闲超时(9秒)"), &state);
    assert_eq!(step.failed, Some("流式响应空闲超时(9秒)".to_string()));
    let mut limited = StreamDriver::new(translator(false));
    let step = limited.step(
        StreamEvent::Bytes(b"data: {\"statusCodeValue\":429,\"body\":\"slow\"}\n"),
        &state,
    );
    assert_eq!(step.limited.map(|l| l.status), Some(429));
    assert!(step.over);
}

#[test]
fn heads_are_read_before_anything_is_sent() {
    let mut head = StreamHead::new();
    assert!(matches!(head.prefetch_stream_head(StreamEvent::Bytes(b"data: ")), HeadStep::More));
    match head.prefetch_stream_head(StreamEvent::Bytes(
        format!("{}rest", &wrapped("{\"choices\":[]}")[6..]).as_bytes(),
    )) {
        HeadStep::Ready { chunks, tail } => {
            assert_eq!(chunks.len(), 1);
            assert_eq!(tail, b"rest".to_vec());
        },
        other => panic!("{other:?}"),
    }
    let mut refused = StreamHead::new();
    match refused.prefetch_stream_head(StreamEvent::Bytes(b"data: {\"statusCodeValue\":401,\"body\":\"\"}\n")) {
        HeadStep::Failed { error, limited } => {
            assert_eq!(error.status_code, 401);
            assert!(limited.is_none());
        },
        other => panic!("{other:?}"),
    }
}

#[test]
fn whole_answers_agree_with_streams() {
    let state = no_catalog();
    let text = format!(
        "{}{}data: [DONE]\n",
        wrapped("{\"choices\":[{\"delta\":{\"content\":\"a\"}}]}"),
        wrapped("{\"choices\":[{\"delta\":{\"content\":\"b\"},\"finish_reason\":\"length\"}]}")
    );
    let mut whole = Aggregator::new(translator(false));
    match whole.drive_aggregate(StreamEvent::Bytes(text.as_bytes()), &state) {
        WholeStep::Completed(body) => {
            let body = value(&body);
            assert_eq!(body["choices"][0]["message"]["content"], "ab");
            assert_eq!(body["choices"][0]["finish_reason"], "length");
        },
        other => panic!("{other:?}"),
    }
    let mut driver = StreamDriver::new(translator(false));
    let step = driver.step(StreamEvent::Bytes(text.as_bytes()), &state);
    let streamed: String = step
        .frames
        .iter()
        .filter_map(|f| serde_json::from_str::<Value>(f.trim_start_matches("data: ").trim()).ok())
        .filter_map(|f| f["choices"][0]["delta"]["content"].as_str().map(String::from))
        .collect();
    assert_eq!(streamed, "ab");
}

#[test]
fn qoder_adapter_decides() {
    assert_eq!(QoderAdapter.build_chat_request().status_code, 503);
    assert!(response_id().starts_with("chatcmpl-"));
    assert!(matches!(
        QoderAdapter.classify_error(401, &json("{}"), None),
        UpstreamErrorClass::TokenExpired { .. }
    ));
    assert!(matches!(
        QoderAdapter.classify_error(500, &json("{}"), None),
        UpstreamErrorClass::Fatal { .. }
    ));
    assert!(!QoderAdapter.credentials_expiring(None, 0, LONGEST));
    assert!(matches!(
        QoderAdapter.refresh_models(None, "", &no_clash(), LONGEST),
        RefreshStart::Ended(ModelRefreshOutcome::Unchanged)
    ));
    assert!(matches!(
        QoderAdapter.refresh_models(None, "gone", &no_clash(), LONGEST),
        RefreshStart::Ended(ModelRefreshOutcome::Failed(_))
    ));
    let record = json("{\"token\":\"t\",\"userId\":\"u\"}");
    assert!(matches!(
        QoderAdapter.refresh_models(Some(&record), "", &no_clash(), LONGEST),
        RefreshStart::Fetch(own, None) if own.access_token == "t"
    ));
    let broken = json("{\"token\":\"t\",\"userId\":\"u\",\"proxy\":{}}");
    assert!(matches!(
        QoderAdapter.refresh_models(Some(&broken), "", &no_clash(), LONGEST),
        RefreshStart::Ended(ModelRefreshOutcome::Failed(_))
    ));
    assert_eq!(QoderAdapter.kind(), ProviderKind::Qoder);
    assert!(QoderAdapter.supports_chat() && QoderAdapter.is_stateful());
    assert!(!QoderAdapter.supports_default_model() && !QoderAdapter.sse_model_rewrite());
    match QoderAdapter.reasoning_patch("high", true, &json("{}")) {
        ReasoningPatch::Put { field, value } => {
            assert_eq!(field, "reasoning_effort");
            assert_eq!(value.as_text(), Some("high"));
        },
        other => panic!("{other:?}"),
    }
    assert!(matches!(
        QoderAdapter.reasoning_patch("high", true, &json("{\"reasoning_effort\":\"low\"}")),
        ReasoningPatch::Skip { .. }
    ));
    assert_eq!(
        QoderAdapter.outbound_reasoning(&json("{\"reasoning_effort\":\"low\"}")),
        Some("low".to_string())
    );
    assert!(QoderAdapter.forward_conversation("", &json("{\"model\":\"m\"}")).is_err());
    let (error, limited) = QoderAdapter.forward_failure(429, "slow");
    assert_eq!(error.status_code, 429);
    assert_eq!(limited.map(|l| l.status), Some(429));
}

fn parsed(chunks: &[&str]) -> (String, String) {
    let mut parser = ThinkingParser::new();
    for chunk in chunks {
        parser.push(chunk);
    }
    parser.finish();
    let mut said = (String::new(), String::new());
    for piece in parser.take() {
        if piece.is_thinking {
            said.1.push_str(&piece.text);
        } else {
            said.0.push_str(&piece.text);
        }
    }
    said
}

#[test]
fn tags_may_be_cut_anywhere() {
    let text = "a<thinking>t < u</think></thinking>\n\nb</thought>c<reasoning>d</reasoning>e<th";
    let whole = parsed(&[text]);
    assert_eq!(whole, ("abce<th".to_string(), "t < u</think>d".to_string()));
    let breaks = [text.find("\n\n").expect("break"), text.find("\n\n").expect("break") + 1];
    for cut in 0..text.len() {
        let (first, second) = text.split_at(cut);
        if !breaks.contains(&cut) {
            assert_eq!(parsed(&[first, second]), whole, "cut at {cut}");
        }
    }
    let (first, second) = text.split_at(breaks[0]);
    assert_eq!(parsed(&[first, second]).0, "a\n\nbce<th");
}

#[test]
fn texts_may_come_in_any_number_of_chunks() {
    let text = "a<thinking>b < c</thinking>d</think>e<reasoning>f</reasoning>g<thin";
    let single: Vec<String> = text.chars().map(String::from).collect();
    let chunks: Vec<&str> = single.iter().map(String::as_str).collect();
    assert_eq!(parsed(&chunks), parsed(&[text]));
    assert_eq!(parsed(&[text]), ("adeg<thin".to_string(), "b < cf".to_string()));
    assert_eq!(parsed(&["a\n<thi", "nk", " ", "<", "/thou"]).0, "a\n<think </thou");
    let mut parser = ThinkingParser::new();
    parser.push("x<think");
    parser.finish();
    assert_eq!(parser.take().len(), 2);
    parser.finish();
    assert!(parser.take().is_empty());
}

#[test]
fn chunks_are_counted() {
    let mut own = translator(true);
    assert_eq!(own.chunk_count, 0);
    let mut said = String::new();
    for content in ["<thinking></thinking>", "a<thi", "b", ""] {
        let chunk = format!("{{\"choices\":[{{\"delta\":{{\"content\":\"{content}\"}}}}]}}");
        for step in own.consume(&json(&chunk), &no_catalog()) {
            match step {
                TranslatedDelta::Content(text) => {
                    assert!(!text.is_empty());
                    said.push_str(&text);
                },
                other => panic!("{other:?}"),
            }
        }
    }
    own.consume(&json("{\"usage\":{\"total_tokens\":1}}"), &no_catalog());
    own.consume(&json("{\"usage\":null}"), &no_catalog());
    assert_eq!(own.chunk_count, 6);
    assert_eq!(own.content, said);
    assert_eq!(said, "a<thib");
    assert_eq!(value(&own.usage.expect("usage"))["total_tokens"], 1);
}

#[test]
fn plans_need_an_account() {
    let body = json("{\"messages\":[{\"role\":\"user\",\"content\":\"hi\"}]}");
    let plan = |own: &Credentials| build_plan(&no_catalog(), own, &body, "Auto", 1_000, "os");
    let mut nobody = credentials("");
    nobody.user_id = String::new();
    assert_eq!(plan(&nobody).err().map(|e| e.status_code), Some(400));
    let mut locked = credentials("");
    locked.access_token = String::new();
    assert_eq!(plan(&locked).err().map(|e| e.status_code), Some(401));
    assert!(matches!(
        models::refresh_step(&no_catalog(), &locked, true, 100, "os"),
        RefreshStep::Failed(_)
    ));
}

#[test]
fn default_rules_are_laid_down_for_all_models() {
    let ids = models::seed_default_rules(&no_catalog());
    let listed: Vec<String> = models::list(&no_catalog())
        .iter()
        .filter_map(|model| model.text_at("id").map(String::from))
        .collect();
    assert_eq!(ids, listed);
}
