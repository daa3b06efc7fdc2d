use model_gateway::json::{parse_json, write_json, Json};
use model_gateway::proxies::{
    describe_account_proxy, normalize_account_proxy, resolve_account_proxy, resolve_clash,
    session_proxy, ClashListener, ClashSnapshot, ProxyResolution, ResolvedProxy,
};
use model_gateway::update::client::{
    describe_candidates, github_headers, resolve_egress_candidates, EgressRun, EgressStep,
};
use model_gateway::usage_query::{
    has_credentials, query_all, query_usage_inner, resolve_batch_targets, snapshot, store_snapshot,
    supports_usage, unknown_provider, usage_row, UsageOutcome, UsageStage, UsageStep,
};
use model_gateway::errors::GatewayError;
use serde_json::Value;

fn json(text: &str) -> Json {
    parse_json(text).expect("JSON")
}

fn value(json: &Json) -> Value {
    serde_json::from_str(&write_json(json)).expect("written JSON can be read")
}

fn clash() -> ClashSnapshot {
    ClashSnapshot {
        available: true,
        error: None,
        mixed_port: Some(7890),
        listeners: vec![
            ClashListener { uid: "on".to_string(), name: "A".to_string(), port: 1, enabled: true },
            ClashListener { uid: "off".to_string(), name: "B".to_string(), port: 2, enabled: false },
        ],
    }
}

fn failed(config: &str, clash: &ClashSnapshot) -> String {
    match resolve_account_proxy(Some(&json(config)), clash) {
        Some(ProxyResolution::Failed(message)) => message,
        other => panic!("{other:?}"),
    }
}

fn resolved(config: &str, clash: &ClashSnapshot) -> ResolvedProxy {
    match resolve_account_proxy(Some(&json(config)), clash) {
        Some(ProxyResolution::Resolved(proxy)) => proxy,
        other => panic!("{other:?}"),
    }
}

fn refused(input: &str) -> String {
    match normalize_account_proxy(&json(input)) {
        Err(error) => {
            assert_eq!(error.status_code, 400);
            error.message
        },
        other => panic!("{other:?}"),
    }
}

#[test]
fn proxy_settings_are_formed() {
    assert!(matches!(normalize_account_proxy(&Json::Null), Ok(None)));
    assert!(matches!(normalize_account_proxy(&json("\"\"")), Ok(None)));
    assert_eq!(refused("3"), "代理配置必须是对象或 null");
    assert_eq!(refused("{}"), "代理配置缺少 source（clash / custom）");
    assert_eq!(refused("{\"source\":\"clash\"}"), "缺少 Clash 监听器 uid");
    assert_eq!(refused("{\"source\":\"Tor\"}"), "不支持的代理来源: tor");
    assert_eq!(refused("{\"host\":\"h\",\"protocol\":\"ftp\"}"), "代理协议只支持 http 或 socks5");
    assert_eq!(refused("{\"source\":\"custom\"}"), "缺少代理主机地址");
    assert_eq!(refused("{\"host\":\"h\",\"port\":0}"), "代理端口必须是 1-65535 的整数");
    assert_eq!(refused("{\"host\":\"h\",\"port\":65536}"), "代理端口必须是 1-65535 的整数");
    let clash = normalize_account_proxy(&json("{\"listenerUid\":\" u \"}")).expect("ok").expect("some");
    assert_eq!(value(&clash)["source"], "clash");
    assert_eq!(value(&clash)["listenerUid"], "u");
    let own = normalize_account_proxy(&json("{\"host\":\" h \",\"port\":\"80\",\"protocol\":\"SOCKS5\",\"username\":\"u\"}"))
        .expect("ok")
        .expect("some");
    let own = value(&own);
    assert_eq!(own["source"], "custom");
    assert_eq!(own["protocol"], "socks5");
    assert_eq!(own["host"], "h");
    assert_eq!(own["port"], 80);
    assert_eq!(own["username"], "u");
    assert_eq!(own["password"], "");
    assert_eq!(own["label"], "socks5://h:80");
    let whole = normalize_account_proxy(&json("{\"host\":\"h\",\"port\":8080.0}")).expect("ok").expect("some");
    assert_eq!(value(&whole)["port"], 8080);
}

#[test]
fn formed_settings_resolve_to_what_was_asked() {
    let formed = normalize_account_proxy(&json("{\"host\":\"h\",\"port\":80,\"label\":\"L\"}"))
        .expect("ok")
        .expect("some");
    match resolve_account_proxy(Some(&formed), &clash()) {
        Some(ProxyResolution::Resolved(proxy)) => {
            assert_eq!(proxy.host, "h");
            assert_eq!(proxy.port, Some(80));
            assert_eq!(proxy.label, "L");
        },
        other => panic!("{other:?}"),
    }
}

#[test]
fn formed_settings_stay_as_they_are() {
    let again = |input: &str| {
        let form = normalize_account_proxy(&json(input)).expect("ok").expect("some");
        let same = normalize_account_proxy(&form).expect("ok").expect("some");
        assert_eq!(value(&form), value(&same));
    };
    again("{\"listenerUid\":\" u \"}");
    again("{\"source\":\" CUSTOM\",\"protocol\":\"SOCKS5\",\"host\":\" h \",\"port\":\"80\"}");
    again("{\"host\":\"h\",\"port\":1.0,\"username\":\" u\",\"password\":\"p \",\"label\":\" L \"}");
}

#[test]
fn listeners_are_looked_up() {
    let on = resolved("{\"source\":\"clash\",\"listenerUid\":\"on\"}", &clash());
    assert_eq!((on.host.as_str(), on.port, on.label.as_str()), ("127.0.0.1", Some(1), "A（:1）"));
    let mixed = resolved("{\"source\":\"clash\",\"listenerUid\":\"__mixed__\"}", &clash());
    assert_eq!(mixed.label, "Clash 混合端口 7890");
    assert_eq!(
        failed("{\"source\":\"clash\",\"listenerUid\":\"off\"}", &clash()),
        "Clash Verge 监听器「B」已禁用"
    );
    assert_eq!(
        failed("{\"source\":\"clash\",\"listenerUid\":\"x\"}", &clash()),
        "Clash Verge 中找不到监听器「x」（可能已在 Clash 中删除）"
    );
    let mut none = clash();
    none.mixed_port = None;
    assert_eq!(
        failed("{\"source\":\"clash\",\"listenerUid\":\"__mixed__\"}", &none),
        "Clash Verge 未启用混合端口"
    );
    none.available = false;
    assert_eq!(failed("{\"source\":\"clash\"}", &none), "Clash Verge 配置不可用");
    none.error = Some("gone".to_string());
    assert_eq!(failed("{\"source\":\"clash\"}", &none), "Clash Verge 配置不可用（gone）");
    assert!(matches!(resolve_clash("on", &clash()), ProxyResolution::Resolved(_)));
}

#[test]
fn broken_settings_show_as_they_are() {
    assert!(resolve_account_proxy(None, &clash()).is_none());
    assert!(resolve_account_proxy(Some(&Json::Null), &clash()).is_none());
    assert_eq!(failed("3", &clash()), "不支持的代理来源: undefined");
    assert_eq!(failed("{}", &clash()), "不支持的代理来源: undefined");
    assert_eq!(failed("{\"source\":[1,null,\"a\"]}", &clash()), "不支持的代理来源: 1,,a");
    let bad = resolved("{\"source\":\"custom\",\"host\":\"bad\",\"port\":\"abc\"}", &clash());
    assert_eq!(bad.port, None);
    assert_eq!(bad.protocol, "http");
    assert_eq!(bad.label, "undefined://bad:abc");
    assert_eq!(value(&bad.port_json()), Value::Null);
    let shown = value(&describe_account_proxy(Some(&json("{\"source\":\"x\"}")), &clash()));
    assert_eq!(shown["label"], "解析失败");
    assert_eq!(shown["error"], "不支持的代理来源: x");
    assert_eq!(shown["config"]["source"], "x");
    assert_eq!(value(&describe_account_proxy(None, &clash())), Value::Null);
    let resolution = resolve_account_proxy(Some(&json("{}")), &clash()).expect("resolution");
    assert_eq!(resolution.error(), Some("不支持的代理来源: undefined"));
    assert!(resolution.resolved().is_none());
    assert_eq!(value(&resolution.to_json())["error"], "不支持的代理来源: undefined");
}

#[test]
fn sessions_name_their_proxy() {
    let (proxy, reason) = session_proxy(&json("{\"proxy\":{\"host\":\"h\",\"port\":9}}"));
    assert_eq!(proxy.map(|p| (p.host, p.protocol)), Some(("h".to_string(), "http".to_string())));
    assert_eq!(reason, None);
    let (proxy, reason) = session_proxy(&json("{\"proxy\":{\"host\":\"h\",\"port\":\"abc\"}}"));
    assert!(proxy.is_none());
    assert!(reason.expect("reason").contains("代理端口必须是 1-65535 的整数"));
    let (proxy, reason) = session_proxy(&json("{\"proxy\":null}"));
    assert!(proxy.is_none() && reason.is_none());
    assert_eq!(
        ResolvedProxy::from_json(&json("{\"port\":1}")).err(),
        Some("代理配置缺少主机地址".to_string())
    );
}

#[test]
fn proxies_survive_being_written() {
    let proxy = resolved("{\"source\":\"clash\",\"listenerUid\":\"on\"}", &clash());
    let written = ProxyResolution::Resolved(resolved(
        "{\"source\":\"clash\",\"listenerUid\":\"on\"}",
        &clash(),
    ))
    .to_json();
    let again = ResolvedProxy::from_json(&written).expect("read").expect("proxy");
    assert_eq!(
        (again.source, again.protocol, again.host, again.port, again.label),
        (proxy.source, proxy.protocol, proxy.host, proxy.port, proxy.label)
    );
    assert_eq!((again.username, again.password), (proxy.username, proxy.password));
}

#[test]
fn updates_are_looked_for_by_every_way() {
    let ways = resolve_egress_candidates(&clash());
    assert_eq!(ways.len(), 2);
    assert_eq!(ways[0].label, "直连");
    assert!(ways[0].proxy.is_none());
    assert_eq!(ways[1].label, "Clash 混合端口 7890");
    let mut none = clash();
    none.mixed_port = None;
    assert_eq!(resolve_egress_candidates(&none).len(), 1);
    let mut run = EgressRun::new();
    assert!(matches!(run.next(&ways), EgressStep::Try(0)));
    assert!(run.has_untried(&ways));
    run.failed(&ways, "first");
    assert!(matches!(run.next(&ways), EgressStep::Try(1)));
    run.failed(&ways, "second");
    assert!(!run.has_untried(&ways));
    match run.next(&ways) {
        EgressStep::GiveUp(message) => assert_eq!(message, "无法连接 GitHub：second"),
        other => panic!("{other:?}"),
    }
    match EgressRun::new().next(&Vec::new()) {
        EgressStep::GiveUp(message) => assert_eq!(message, "无法连接 GitHub：未知错误"),
        other => panic!("{other:?}"),
    }
    let shown = value(&describe_candidates(&ways, &vec![Json::Null, json("\"p\"")]));
    assert_eq!(shown[0]["label"], "直连");
    assert_eq!(shown[1]["proxy"], "p");
}

#[test]
fn tokens_for_updates_are_the_first_set() {
    let names = |headers: Vec<(String, String)>| {
        headers.into_iter().find(|h| h.0.eq_ignore_ascii_case("authorization")).map(|h| h.1)
    };
    assert_eq!(names(github_headers(None, None)), None);
    assert_eq!(names(github_headers(Some(" "), Some("b"))), Some("Bearer b".to_string()));
    assert_eq!(names(github_headers(Some("a"), Some("b"))), Some("Bearer a".to_string()));
}

#[test]
fn batches_leave_out_what_is_switched_off() {
    let accounts = json(
        "{\"accounts\":[{\"id\":\"1\"},{\"id\":\"2\",\"enabled\":false},{\"id\":\"3\",\"available\":false},{\"id\":\"4\",\"provider\":\"p\"}]}",
    );
    let ids = |provider: Option<&str>, id: Option<&str>| {
        let (targets, skipped) = resolve_batch_targets(&accounts, provider, id, "d").expect("targets");
        let ids: Vec<String> = targets.iter().map(|a| a.text_at("id").unwrap_or("").to_string()).collect();
        (ids, skipped)
    };
    assert_eq!(ids(None, None), (vec!["1".to_string(), "4".to_string()], 1));
    assert_eq!(ids(Some("d"), None), (vec!["1".to_string()], 1));
    assert_eq!(ids(Some("p"), Some("")), (vec!["4".to_string()], 0));
    assert_eq!(ids(None, Some("3")), (vec!["3".to_string()], 0));
    let missing = resolve_batch_targets(&accounts, None, Some("9"), "d");
    match missing {
        Err(error) => assert_eq!((error.message.as_str(), error.status_code), ("账号不存在", 404)),
        Ok(_) => panic!("an error was expected"),
    }
    let (targets, _) = resolve_batch_targets(&accounts, None, None, "d").expect("targets");
    let telling = vec!["p".to_string()];
    assert_eq!(supports_usage(&targets, false, &telling, "d").len(), 1);
    assert_eq!(supports_usage(&targets, true, &telling, "d").len(), 2);
    assert_eq!(supports_usage(&targets, false, &telling, "p").len(), 2);
}

#[test]
fn refused_logins_are_renewed_once() {
    let error = |status: i32| GatewayError::with_status(status, "no").with_code("c");
    assert!(matches!(
        query_usage_inner(UsageStage::First, Err(error(401)), true),
        (UsageStage::Renewing, UsageStep::Renew)
    ));
    assert!(matches!(
        query_usage_inner(UsageStage::Renewing, Ok(Json::Null), true),
        (UsageStage::Second, UsageStep::Again)
    ));
    for (stage, status, supports, code) in [
        (UsageStage::First, 401, false, Some("c".to_string())),
        (UsageStage::First, 500, true, Some("c".to_string())),
        (UsageStage::Renewing, 401, true, None),
        (UsageStage::Second, 401, true, Some("c".to_string())),
    ] {
        match query_usage_inner(stage, Err(error(status)), supports).1 {
            UsageStep::Done(UsageOutcome::Failed { message, code: own }) => {
                assert_eq!(message, "no");
                assert_eq!(own, code);
            },
            other => panic!("{other:?}"),
        }
    }
    assert!(matches!(
        query_usage_inner(UsageStage::First, Ok(json("3")), true).1,
        UsageStep::Done(UsageOutcome::Usage(_))
    ));
}

#[test]
fn failures_are_rows_too() {
    let account = json("{\"id\":\"1\",\"name\":\"n\"}");
    assert!(has_credentials(&account));
    assert!(!has_credentials(&json("{\"hasCredentials\":false}")));
    let good = usage_row(&account, &UsageOutcome::Usage(json("{\"left\":3}")));
    let bare = usage_row(&account, &UsageOutcome::NoCredentials);
    let bad = usage_row(&account, &unknown_provider("x"));
    assert_eq!(value(&good)["usage"]["left"], 3);
    assert_eq!(value(&good)["error"], Value::Null);
    assert_eq!(value(&bare)["error"], "没有可用凭证");
    assert!(value(&bare).get("name").is_none());
    assert_eq!(value(&bad)["error"], "未知的提供商 x，无法查询余额");
    assert_eq!(value(&bad)["code"], Value::Null);
    let report = query_all(vec![good, bare, bad], 2);
    let (kept, ok, failed) = store_snapshot(&report, 77);
    assert_eq!((ok, failed), (1, 2));
    let kept_value = value(&kept);
    assert_eq!(kept_value["at"], 77);
    assert_eq!(kept_value["skipped"], 2);
    assert_eq!(kept_value["results"].as_array().map(|r| r.len()), Some(3));
    assert_eq!(value(&snapshot(Some(&kept))), kept_value);
    assert_eq!(value(&snapshot(None))["at"], 0);
}
