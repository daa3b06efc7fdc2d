use model_gateway::errors::GatewayError;
use model_gateway::http::ApiResponse;
use model_gateway::json::{parse_json, write_json, Json};
use model_gateway::providers::adapter::{ModelRefreshOutcome, UpstreamErrorClass};
use model_gateway::providers::trae::adapter::{
    account_proxy, credentials_for, refresh_if_needed, TraeAdapter,
};
use model_gateway::providers::trae::oauth::{
    build_login, credentials_of, device_from, exchange, exchange_request, fill_user_info,
    has_fitting_end, login_from, machine_from, machine_trace_id, needs_user_info, parse_callback, refresh, refresh_request, response_payload,
    transport_error, user_info_request, Callback, Client, Credentials,
};
use model_gateway::providers::trae::stream::{
    sse_done, sse_frame, Conversation, SoloSseParser, Translator,
};
use model_gateway::proxies::ClashSnapshot;
use serde_json::Value;

fn client() -> Client {
    Client {
        client_id: "client".to_string(),
        ide_version: "1.2.3".to_string(),
        host: "https://api.trae.example".to_string(),
        headers: vec![("User-Agent".to_string(), "Trae".to_string())],
    }
}

fn value(json: &Json) -> Value {
    serde_json::from_str(&write_json(json)).expect("written JSON can be read")
}

fn json(text: &str) -> Json {
    parse_json(text).expect("JSON")
}

fn error_of<T>(outcome: Result<T, GatewayError>) -> (i32, String) {
    match outcome {
        Ok(_) => panic!("an error was expected"),
        Err(error) => (error.status_code, error.message),
    }
}

fn no_clash() -> ClashSnapshot {
    ClashSnapshot { available: false, error: None, mixed_port: None, listeners: Vec::new() }
}

fn callback() -> Callback {
    Callback {
        access_token: "old".to_string(),
        refresh_token: "refresh".to_string(),
        user_id: String::new(),
        nickname: String::new(),
        enterprise_id: "tenant".to_string(),
        expires_at: None,
    }
}

fn credentials() -> Credentials {
    Credentials {
        access_token: "old".to_string(),
        refresh_token: "refresh".to_string(),
        expires_at: Some(5),
        user_id: "user".to_string(),
        nickname: "nick".to_string(),
        enterprise_id: "tenant".to_string(),
        machine_id: "machine".to_string(),
        device_id: "device".to_string(),
    }
}

#[test]
fn builds_login_url_and_parses_callback() {
    let login = build_login("http://127.0.0.1:1234/authorize", &client()).expect("build login");
    assert!(login.auth_url.starts_with("https://www.trae.cn/authorization?"));
    assert!(login
        .auth_url
        .contains("auth_callback_url=http%3A%2F%2F127.0.0.1%3A1234%2Fauthorize"));
    assert_eq!(login.machine_id.len(), 32);
    assert_eq!(login.device_id.len(), 16);
    assert!(login.device_id.chars().all(|ch| ch.is_ascii_digit()));

    let mut user_info_json = Json::object();
    user_info_json.put("UserID", Json::text("user-1"));
    user_info_json.put("ScreenName", Json::text("Trae User"));
    let user_info: String =
        url::form_urlencoded::byte_serialize(write_json(&user_info_json).as_bytes()).collect();
    let mut user_jwt_json = Json::object();
    user_jwt_json.put("Token", Json::text("jwt-token"));
    let user_jwt: String =
        url::form_urlencoded::byte_serialize(write_json(&user_jwt_json).as_bytes()).collect();
    let callback_url = format!(
        "http://127.0.0.1:1234/authorize?refreshToken=refresh&userInfo={}&userJwt={}&loginTraceID={}",
        user_info, user_jwt, login.state
    );
    let callback = parse_callback(&callback_url, &login.state).expect("parse callback");
    assert_eq!(callback.refresh_token, "refresh");
    assert_eq!(callback.user_id, "user-1");
    assert_eq!(callback.nickname, "Trae User");
    assert_eq!(callback.access_token, "jwt-token");
}

#[test]
fn login_urls_name_every_value_in_order() {
    let login = build_login("http://127.0.0.1:1/a", &client()).expect("build login");
    assert_eq!(login.state, login.device_id);
    let expected = format!(
        "https://www.trae.cn/authorization?login_version=1&auth_from=solo&login_channel=native_ide\
         &plugin_version=2.3.62834&auth_type=local&client_id=client&redirect=0&login_trace_id={d}\
         &auth_callback_url=http%3A%2F%2F127.0.0.1%3A1%2Fa&machine_id={m}&device_id={d}\
         &x_device_id={d}&x_machine_id={m}&x_device_brand=PC&x_device_type=PC&x_os_version=1.0\
         &x_app_version=1.2.3&x_app_type=stable",
        d = login.device_id,
        m = login.machine_id
    );
    assert_eq!(login.auth_url, expected);
}

#[test]
fn logins_need_both_names() {
    let named = |name: &str| Some(name.to_string());
    let from = |machine, device| login_from("http://127.0.0.1:1/a b", &client(), machine, device);
    let login = from(named("m"), named("123")).expect("login");
    assert_eq!(login.state, "000000000000m123");
    assert_eq!((login.machine_id.as_str(), login.device_id.as_str()), ("m", "123"));
    assert!(login.auth_url.starts_with("https://www.trae.cn/authorization?login_version=1&"));
    assert!(login.auth_url.contains("&auth_callback_url=http%3A%2F%2F127.0.0.1%3A1%2Fa+b&"));
    for (machine, device) in [(None, named("1")), (named("m"), None), (None, None)] {
        let error = from(machine, device).err().expect("error");
        assert_eq!((error.status_code, error.message.as_str()), (500, "无法生成 Trae 设备标识"));
    }
}

#[test]
fn logins_differ_from_each_other() {
    let first = build_login("http://127.0.0.1:1/a", &client()).expect("build login");
    let second = build_login("http://127.0.0.1:1/a", &client()).expect("build login");
    assert_ne!(first.machine_id, second.machine_id);
    assert_ne!(first.device_id, second.device_id);
}

#[test]
fn machines_and_devices_are_named_by_their_bytes() {
    let bytes: Vec<u8> = vec![0, 1, 9, 10, 11, 15, 16, 99, 100, 127, 128, 200, 249, 250, 254, 255];
    assert_eq!(
        machine_from(Some(bytes.clone())),
        Some("0001090a0b0f1063647f80c8f9fafeff".to_string())
    );
    assert_eq!(device_from(Some(bytes)), Some("0190156907809045".to_string()));
    assert_eq!(machine_from(None), None);
    assert_eq!(device_from(None), None);
}

#[test]
fn traces_are_the_last_sixteen_bytes_or_padded() {
    assert_eq!(machine_trace_id("abcdefgh", "0123456789"), "cdefgh0123456789".to_string());
    assert_eq!(machine_trace_id("abc", "12"), "00000000000abc12".to_string());
    assert_eq!(machine_trace_id("", ""), "0000000000000000".to_string());
}

#[test]
fn foreign_callbacks_yield_nothing() {
    let url = "http://127.0.0.1/a?refreshToken=r&loginTraceID=one";
    assert_eq!(
        error_of(parse_callback(url, "two")),
        (400, "Trae 登录回调 state 不一致，请重新发起登录".to_string())
    );
    assert_eq!(
        error_of(parse_callback("not an address", "two")),
        (400, "Trae 登录回调地址无效".to_string())
    );
    assert_eq!(
        error_of(parse_callback("http://127.0.0.1/a?loginTraceID=two", "two")),
        (400, "Trae 登录回调缺少凭证".to_string())
    );
}

#[test]
fn callbacks_are_read_from_every_place() {
    let url = "http://127.0.0.1/a?login_trace_id=t&refreshToken=&userJwt=%7B%22RefreshToken%22%3A%22r%22%2C%22TokenExpireAt%22%3A1700000000%7D&userInfo=%7B%22userId%22%3A42%2C%22name%22%3A%22n%22%2C%22tenantId%22%3A%22t%22%7D";
    let read = parse_callback(url, "t").expect("callback");
    assert_eq!(read.refresh_token, "r");
    assert_eq!(read.access_token, "");
    assert_eq!(read.user_id, "42");
    assert_eq!(read.nickname, "n");
    assert_eq!(read.enterprise_id, "t");
    assert_eq!(read.expires_at, Some(1_700_000_000_000));
}

#[test]
fn callbacks_encoded_twice_are_read() {
    let url = "http://127.0.0.1/a?loginTraceID=t&userJwt=%257B%2522Token%2522%253A%2522a%2522%252C%2522TokenExpireAt%2522%253A1700000000123%257D";
    let read = parse_callback(url, "t").expect("callback");
    assert_eq!(read.access_token, "a");
    assert_eq!(read.expires_at, Some(1_700_000_000_123));
}

#[test]
fn the_last_value_of_a_name_counts() {
    let url = "http://127.0.0.1/a?loginTraceID=x&refreshToken=one&refreshToken=two&loginTraceID=t";
    assert_eq!(parse_callback(url, "t").expect("callback").refresh_token, "two");
}

#[test]
fn exchanging_asks_for_a_token() {
    let request = exchange_request(&client(), "refresh");
    assert_eq!(request.method, "POST");
    assert_eq!(
        request.url,
        "https://api.trae.example/cloudide/api/v3/trae/oauth/ExchangeToken"
    );
    assert_eq!(request.headers, vec![("User-Agent".to_string(), "Trae".to_string())]);
    let body = value(&request.body.expect("body"));
    assert_eq!(body["ClientID"], "client");
    assert_eq!(body["RefreshToken"], "refresh");
    assert_eq!(body["ClientSecret"], "-");
    assert_eq!(body["UserID"], "");
}

#[test]
fn users_are_asked_for_with_their_token() {
    let request = user_info_request(&client(), "token");
    assert_eq!(request.url, "https://api.trae.example/cloudide/api/v3/trae/GetUserInfo");
    assert_eq!(
        request.headers.last(),
        Some(&("X-Cloudide-Token".to_string(), "token".to_string()))
    );
    let body = value(&request.body.expect("body"));
    assert_eq!(body["ReqSource"], "IDE");
    assert_eq!(body["IDEVersion"], "1.2.3");
}

fn answer(status: u16, text: &str) -> ApiResponse {
    ApiResponse { ok: (200..300).contains(&status), status, payload: parse_json(text) }
}

#[test]
fn results_are_taken_out_of_answers() {
    let read = response_payload(answer(200, "{\"Result\":{\"Token\":\"a\"}}"), "续期");
    assert_eq!(read.expect("result").text_at("Token"), Some("a"));
    let plain = response_payload(answer(200, "{\"Token\":\"b\"}"), "续期");
    assert_eq!(plain.expect("result").text_at("Token"), Some("b"));
    assert_eq!(
        error_of(response_payload(answer(200, "[]"), "续期")),
        (502, "续期未返回有效 JSON 对象".to_string())
    );
    assert_eq!(
        error_of(response_payload(answer(403, "{\"msg\":\"no\"}"), "续期")),
        (403, "续期失败：no".to_string())
    );
    assert_eq!(
        error_of(response_payload(answer(500, "oops"), "续期")),
        (500, "续期失败：上游返回非 2xx".to_string())
    );
    assert_eq!(transport_error("续期", "down").message, "续期失败：down");
}

#[test]
fn exchanged_logins_take_the_new_tokens() {
    let result = answer(200, "{\"Result\":{\"Token\":\"new\",\"TokenExpireDuration\":60}}");
    assert!(has_fitting_end(&result, 1_000));
    let next = exchange(callback(), result, 1_000).expect("exchange");
    assert_eq!(next.access_token, "new");
    assert_eq!(next.refresh_token, "refresh");
    assert_eq!(next.expires_at, Some(61_000));
    assert_eq!(
        error_of(exchange(callback(), answer(200, "{\"Token\":\"\"}"), 0)),
        (502, "Trae 登录凭证兑换缺少 Token".to_string())
    );
    assert_eq!(
        error_of(exchange(callback(), answer(403, "{}"), 0)),
        (403, "Trae 登录凭证兑换失败：上游返回非 2xx".to_string())
    );
    let far = "{\"TokenExpireDuration\":9223372036854775807}";
    assert!(!has_fitting_end(&answer(200, far), 0));
    assert!(has_fitting_end(&answer(500, far), 0));
}

#[test]
fn users_are_filled_in() {
    assert!(needs_user_info(&callback()));
    let filled = fill_user_info(
        callback(),
        answer(200, "{\"UserID\":\"u\",\"ScreenName\":\"n\",\"EnterpriseID\":\"other\"}"),
    )
    .expect("user");
    assert_eq!(filled.user_id, "u");
    assert_eq!(filled.nickname, "n");
    assert_eq!(filled.enterprise_id, "tenant");
    assert!(!needs_user_info(&filled));
    assert_eq!(
        error_of(fill_user_info(callback(), answer(200, "{}"))),
        (502, "Trae 未返回用户标识".to_string())
    );
    assert_eq!(
        error_of(fill_user_info(callback(), answer(200, "[]"))),
        (502, "Trae 用户信息查询未返回有效 JSON 对象".to_string())
    );
    let own = credentials_of(filled, "m", "d");
    assert_eq!(own.machine_id, "m");
    assert_eq!(own.device_id, "d");
    assert_eq!(own.user_id, "u");
}

#[test]
fn renewed_credentials_stay_those_of_the_account() {
    let known = credentials();
    let next = refresh(&known, answer(200, "{\"Token\":\"new\",\"TokenExpireAt\":1700000000}"), 7)
        .expect("renewal");
    assert_eq!(next.access_token, "new");
    assert_eq!(next.refresh_token, "refresh");
    assert_eq!(next.expires_at, Some(1_700_000_000_000));
    assert_eq!(next.user_id, "user");
    assert_eq!(next.machine_id, "machine");
    assert_eq!(
        error_of(refresh(&known, answer(200, "{}"), 7)),
        (502, "Trae 凭证续期缺少 Token".to_string())
    );
    let mut without = credentials();
    without.refresh_token = String::new();
    assert_eq!(
        error_of(refresh_request(&client(), &without)),
        (400, "Trae 账号缺少 refreshToken，无法续期".to_string())
    );
    assert!(refresh_request(&client(), &known).is_ok());
}

#[test]
fn trae_requests_are_sent_by_a_login() {
    let account = json(
        "{\"auth\":{\"accessToken\":\"t\",\"machineId\":\"m\",\"deviceId\":\"d\"},\"account\":{\"uid\":\"u\"}}",
    );
    let sender = TraeAdapter.sender(&account).expect("sender");
    assert_eq!(
        (sender.token, sender.user_id, sender.machine_id, sender.device_id),
        ("t".to_string(), "u".to_string(), "m".to_string(), "d".to_string())
    );
    let headers = || vec![("H".to_string(), "v".to_string())];
    let plan = TraeAdapter
        .build_chat_request(&account, "https://agent", Ok(json("{\"a\":1}")), headers())
        .expect("plan");
    assert_eq!(plan.url, "https://agent/api/agent/v3/llm_utils_chat");
    assert_eq!(plan.headers, headers());
    assert_eq!(value(&plan.body)["a"], 1);
    assert_eq!(
        error_of(TraeAdapter.build_chat_request(
            &json("{\"auth\":{}}"),
            "https://agent",
            Ok(json("{}")),
            headers(),
        )),
        (401, "Trae 账号缺少 accessToken，无法转发".to_string())
    );
    let bad = || Err(GatewayError::bad_request("bad"));
    assert_eq!(
        error_of(TraeAdapter.build_chat_request(&account, "https://agent", bad(), headers())),
        (400, "bad".to_string())
    );
    let model = |text: &str| {
        TraeAdapter
            .chat_plan(&json(text), "d", "https://agent", Ok(json("{}")), headers())
            .expect("plan")
            .model
    };
    assert_eq!(model("{\"model\":\" m \"}"), "m");
    assert_eq!(model("{\"model\":\" \"}"), "d");
    assert_eq!(model("{}"), "d");
    assert!(TraeAdapter.chat_plan(&json("{}"), "d", "https://agent", bad(), headers()).is_err());
    assert!(TraeAdapter.is_stateful() && TraeAdapter.supports_default_model());
    assert!(!TraeAdapter.sse_model_rewrite());
}

#[test]
fn trae_errors_are_told_apart() {
    let class = |status: u16, text: &str| TraeAdapter.classify_error(status, &json(text));
    assert!(matches!(class(401, "{}"), UpstreamErrorClass::TokenExpired { .. }));
    assert!(matches!(class(200, "{\"code\":1001}"), UpstreamErrorClass::TokenExpired { .. }));
    match class(0, "{\"code\":4008,\"message\":\"full\"}") {
        UpstreamErrorClass::QuotaLimited { status, message, upstream_code, reset_at } => {
            assert_eq!(status, 429);
            assert_eq!(message, "上游返回 0: full");
            assert_eq!(upstream_code, Some(4008));
            assert_eq!(reset_at, None);
        },
        other => panic!("{other:?}"),
    }
    match class(500, "{\"msg\":\"broken\"}") {
        UpstreamErrorClass::Fatal { status, message, upstream_code } => {
            assert_eq!(status, 500);
            assert_eq!(message, "上游返回 500: broken");
            assert_eq!(upstream_code, None);
        },
        other => panic!("{other:?}"),
    }
}

#[test]
fn trae_accounts_are_needed() {
    assert_eq!(
        error_of(credentials_for(None)),
        (401, "没有可用的 Trae 账号".to_string())
    );
    let record = json("{\"proxy\":{\"mode\":\"none\"}}");
    assert!(credentials_for(Some(&record)).is_ok());
    assert_eq!(
        error_of(account_proxy(None, &no_clash())),
        (401, "没有可用的 Trae 账号".to_string())
    );
    assert!(matches!(account_proxy(Some(&json("{}")), &no_clash()), Ok(None)));
    assert!(refresh_if_needed(true, false));
    assert!(!refresh_if_needed(false, false));
    assert!(matches!(
        TraeAdapter.refresh_models(false, false),
        Some(ModelRefreshOutcome::Unchanged)
    ));
    assert!(matches!(
        TraeAdapter.refresh_models(true, false),
        Some(ModelRefreshOutcome::Failed(_))
    ));
    assert!(TraeAdapter.refresh_models(true, true).is_none());
}

#[test]
fn trae_failures_are_cut_short() {
    let long = "字".repeat(301);
    let error = TraeAdapter.http_error(503, &long);
    assert_eq!(error.status_code, 503);
    assert_eq!(error.message, format!("Trae 上游返回 503: {}", "字".repeat(300)));
    assert_eq!(TraeAdapter.send_error("x").message, "Trae 上游请求失败：x");
    assert_eq!(TraeAdapter.broken_error("x").message, "Trae 上游流中断：x");
}

#[test]
fn parses_solo_events_and_translates_completion() {
    let raw = "event:output\n\
               data:{\"response\":\"你好\",\"reasoning_content\":\"思考\",\"tool_calls\":null}\n\n\
               event:output\n\
               data:{\"response\":\"世界\",\"reasoning_content\":null,\"tool_calls\":null}\n\n\
               event:token_usage\n\
               data:{\"prompt_tokens\":10,\"completion_tokens\":2,\"total_tokens\":12}\n\n\
               event:done\n\
               data:{\"finish_reason\":\"stop\"}\n\n";
    let mut parser = SoloSseParser::default();
    let mut translator = Translator::new("glm-5.2", 1_700_000_000_000);
    for event in parser.push(raw.as_bytes()) {
        translator.consume(event).expect("translate event");
    }
    for event in parser.finish() {
        translator.consume(event).expect("translate final event");
    }
    let completion = value(&translator.completion());
    assert_eq!(completion["choices"][0]["message"]["content"], "你好世界");
    assert_eq!(completion["choices"][0]["message"]["reasoning_content"], "思考");
    assert_eq!(completion["usage"]["total_tokens"], 12);
    assert_eq!(completion["choices"][0]["finish_reason"], "stop");
}

#[test]
fn merges_tool_call_fragments() {
    let mut parser = SoloSseParser::default();
    let mut translator = Translator::new("glm-5.2", 1_700_000_000_000);
    for event in parser.push(
        "event:output\n\
         data:{\"response\":\"\",\"tool_calls\":[{\"index\":0,\"id\":\"call-1\",\"type\":\"function\",\"function_call\":{\"name\":\"demo\",\"arguments\":\"\"}}]}\n\n\
         event:output\n\
         data:{\"response\":\"\",\"tool_calls\":[{\"index\":0,\"id\":\"\",\"type\":\"\",\"function_call\":{\"name\":\"\",\"arguments\":\"{\\\"a\\\":\"}}]}\n\n\
         event:output\n\
         data:{\"response\":\"\",\"tool_calls\":[{\"index\":0,\"id\":\"\",\"type\":\"\",\"function_call\":{\"name\":\"\",\"arguments\":\"1}\"}}]}\n\n\
         event:done\n\
         data:{\"finish_reason\":\"tool_calls\"}\n\n"
            .as_bytes(),
    ) {
        translator.consume(event).expect("translate tool event");
    }
    let completion = value(&translator.completion());
    assert_eq!(completion["choices"][0]["message"]["tool_calls"][0]["id"], "call-1");
    assert_eq!(
        completion["choices"][0]["message"]["tool_calls"][0]["function"]["name"],
        "demo"
    );
    assert_eq!(
        completion["choices"][0]["message"]["tool_calls"][0]["function"]["arguments"],
        "{\"a\":1}"
    );
}

#[test]
fn solo_events_survive_any_cut_between_characters() {
    let raw = "event:output\r\ndata:{\"response\":\"你好\"}\r\n\r\nevent:done\ndata:{\"finish_reason\":\"stop\"}\n\n";
    let whole = {
        let mut parser = SoloSseParser::default();
        let mut events = parser.push(raw.as_bytes());
        events.extend(parser.finish());
        events.iter().map(|e| format!("{e:?}")).collect::<Vec<_>>()
    };
    let pieces = {
        let mut parser = SoloSseParser::default();
        let mut events = Vec::new();
        for c in raw.chars() {
            events.extend(parser.push(c.to_string().as_bytes()));
        }
        events.extend(parser.finish());
        events.iter().map(|e| format!("{e:?}")).collect::<Vec<_>>()
    };
    assert_eq!(whole, pieces);
    assert_eq!(whole.len(), 2);
}

#[test]
fn conversations_stream_and_complete_alike() {
    let raw = "event:output\ndata:{\"response\":\"a\"}\n\nevent:output\ndata:{\"response\":\"b\"}\n\nevent:done\ndata:{\"finish_reason\":\"stop\"}\n\n";
    let mut conversation = Conversation::new("glm", 1_700_000_000_000);
    conversation.push(raw.as_bytes()).expect("push");
    conversation.finish().expect("finish");
    let streamed: String = conversation
        .frames()
        .iter()
        .filter_map(|frame| value(frame)["choices"][0]["delta"]["content"].as_str().map(String::from))
        .collect();
    assert_eq!(streamed, "ab");
    assert_eq!(value(&conversation.completion())["choices"][0]["message"]["content"], "ab");
    assert_eq!(sse_done(), "data: [DONE]\n\n");
    assert_eq!(sse_frame(&json("{\"a\":1}")), "data: {\"a\":1}\n\n");
}
