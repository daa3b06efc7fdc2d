use model_gateway::errors::GatewayError;
use model_gateway::json::{parse_json, write_json, Json};
use model_gateway::providers::adapter::{ModelRefreshOutcome, UpstreamErrorClass};
use model_gateway::providers::refresh_flight::{
    fingerprint, wait_step, wait_timeout, Flight, Join, Table, WaitStep,
};
use model_gateway::providers::workbuddy::{
    chat_completions_url, default_session_token, endpoint_of, ensure_leading_system_message,
    env_access_token, Edition, TokenStep, WorkBuddyAdapter,
};
use serde_json::Value;

fn json(text: &str) -> Json {
    parse_json(text).expect("JSON")
}

fn value(json: &Json) -> Value {
    serde_json::from_str(&write_json(json)).expect("written JSON can be read")
}

fn error_of<T>(outcome: Result<T, GatewayError>) -> (i32, String) {
    match outcome {
        Ok(_) => panic!("an error was expected"),
        Err(error) => (error.status_code, error.message),
    }
}

#[test]
fn one_renewal_at_a_time_leads() {
    let mut table = Table::new();
    let first = match table.join("a") {
        Join::Leader(number) => number,
        other => panic!("{other:?}"),
    };
    assert!(matches!(table.join("a"), Join::Waiter(number) if number == first));
    let other = match table.join("b") {
        Join::Leader(number) => number,
        other => panic!("{other:?}"),
    };
    assert_ne!(first, other);
    table.detach("a", other);
    assert!(matches!(table.join("a"), Join::Waiter(_)));
    table.detach("a", first);
    let next = match table.join("a") {
        Join::Leader(number) => number,
        other => panic!("{other:?}"),
    };
    assert_ne!(next, first);
    table.detach("a", first);
    assert!(matches!(table.join("a"), Join::Waiter(_)));
}

#[test]
fn renewals_end_once() {
    let mut flight: Flight<u8> = Flight::new();
    assert!(flight.outcome().is_none());
    flight.set_outcome(Ok(3));
    flight.cancel();
    assert!(matches!(flight.outcome(), Some(Ok(3))));
    let mut gone: Flight<u8> = Flight::new();
    gone.cancel();
    match gone.outcome() {
        Some(Err(error)) => assert_eq!(error.message, "刷新已被取消，请稍后重试"),
        other => panic!("{other:?}"),
    }
    assert!(matches!(wait_step(true, 0), WaitStep::Ready));
    assert!(matches!(wait_step(false, 0), WaitStep::Again));
    assert!(matches!(wait_step(false, 150), WaitStep::TimedOut));
    assert_eq!(wait_timeout().message, "token 正在刷新中，请稍后重试");
}

#[test]
fn fingerprints_hide_secrets() {
    let whole = "ba7816bf8f01cfea414140de5dae2223b00361a396177a9cb410ff61f20015ad";
    let mark = fingerprint("abc");
    assert!(!mark.is_empty());
    assert!(whole.starts_with(&mark));
    assert_ne!(fingerprint("abd"), mark);
}

#[test]
fn system_prompts_stand_first() {
    let added = ensure_leading_system_message(&json("{\"messages\":[{\"role\":\"user\",\"content\":\"x\"}],\"model\":\"m\"}"))
        .expect("changed");
    let added_value = value(&added);
    assert_eq!(added_value["messages"][0]["role"], "system");
    assert_eq!(added_value["messages"][0]["content"], "你是一个得力助手");
    assert_eq!(added_value["messages"][1]["content"], "x");
    assert_eq!(added_value["model"], "m");
    assert!(ensure_leading_system_message(&added).is_none());
    assert!(ensure_leading_system_message(&json("{\"messages\":[{\"role\":\"SYSTEM\"}]}")).is_none());
    assert!(ensure_leading_system_message(&json("{\"messages\":[]}")).is_none());
    assert!(ensure_leading_system_message(&json("{}")).is_none());
}

#[test]
fn workbuddy_requests_name_one_id() {
    let edition = Edition {
        user_agent: "ua".to_string(),
        ua_platform: "CLI".to_string(),
        product_name: "wb".to_string(),
        client_version: "1".to_string(),
    };
    let account = vec![("X-Account".to_string(), "a".to_string())];
    let plan = WorkBuddyAdapter.build_chat_request(&json("{\"model\":\"m\"}"), "https://e", &edition, "id", &account);
    assert_eq!(plan.url, "https://e/v2/chat/completions");
    let ids: Vec<&str> = plan.headers.iter().filter(|h| h.1 == "id").map(|h| h.0.as_str()).collect();
    assert_eq!(
        ids,
        vec!["X-Request-ID", "X-Conversation-Request-ID", "X-Conversation-ID", "X-Session-ID"]
    );
    assert!(plan.headers.contains(&("X-Account".to_string(), "a".to_string())));
    assert_eq!(endpoint_of(&json("{\"endpoint\":\"\"}"), "d"), "d");
    assert_eq!(endpoint_of(&json("{\"endpoint\":\"e\"}"), "d"), "e");
    assert_eq!(chat_completions_url("x"), "x/v2/chat/completions");
}

#[test]
fn workbuddy_errors_are_told_apart() {
    let class = |status: u16, text: &str| WorkBuddyAdapter.classify_error(status, &json(text), 5, None);
    assert!(matches!(class(401, "{}"), UpstreamErrorClass::TokenExpired { .. }));
    match class(400, "{\"code\":6004,\"message\":\"full\"}") {
        UpstreamErrorClass::QuotaLimited { reset_at, upstream_code, .. } => {
            assert_eq!((reset_at, upstream_code), (Some(5), Some(6004)));
        },
        other => panic!("{other:?}"),
    }
    assert!(matches!(class(500, "{}"), UpstreamErrorClass::Fatal { status: 500, .. }));
}

#[test]
fn workbuddy_tokens_come_from_the_account() {
    assert!(WorkBuddyAdapter.env_credentials_present(Some(" t ")));
    assert!(!WorkBuddyAdapter.env_credentials_present(Some(" ")));
    assert!(WorkBuddyAdapter.allows_anonymous_default_session());
    assert!(WorkBuddyAdapter.supports_default_model());
    assert_eq!(env_access_token(Some(" t ")), Some("t".to_string()));
    assert_eq!(env_access_token(Some(" ")), None);
    assert_eq!(default_session_token(Some("t"), &Ok(None)).expect("token"), "t");
    assert_eq!(
        default_session_token(None, &Ok(Some(json("{\"auth\":{\"accessToken\":\"s\"}}")))).expect("token"),
        "s"
    );
    assert_eq!(
        error_of(default_session_token(None, &Ok(None))),
        (401, "当前没有可用登录态：请先在桌面端完成登录".to_string())
    );
    assert!(matches!(
        WorkBuddyAdapter.ensure_access_token("", None, false),
        Ok(TokenStep::Default)
    ));
    let session = json("{\"auth\":{\"accessToken\":\"s\",\"refreshToken\":\"r\"}}");
    assert!(matches!(
        WorkBuddyAdapter.ensure_access_token("a", Some(&session), true),
        Ok(TokenStep::Renew)
    ));
    assert!(matches!(
        WorkBuddyAdapter.ensure_access_token("a", Some(&session), false),
        Ok(TokenStep::Use(token)) if token == "s"
    ));
    assert!(WorkBuddyAdapter.ensure_access_token("a", None, false).is_err());
    assert!(WorkBuddyAdapter.may_refresh("").is_err());
    assert!(WorkBuddyAdapter.may_refresh("a").is_ok());
    assert!(matches!(
        WorkBuddyAdapter.refresh_models(true, 3, ""),
        ModelRefreshOutcome::Refreshed(3)
    ));
    assert!(matches!(
        WorkBuddyAdapter.refresh_models(false, 0, "r"),
        ModelRefreshOutcome::Failed(reason) if reason == "r"
    ));
}

#[test]
fn workbuddy_waits_where_it_is_told_to() {
    let limited = json("{\"code\":11128}");
    let advice = WorkBuddyAdapter.retry_advice(&limited, 0, 2, 500).expect("advice");
    assert_eq!(advice.delay_ms, 500);
    assert!(WorkBuddyAdapter.retry_advice(&limited, 2, 2, 500).is_none());
    assert!(WorkBuddyAdapter.retry_advice(&json("{\"code\":1}"), 0, 2, 500).is_none());
}
