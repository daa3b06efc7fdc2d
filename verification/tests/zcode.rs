use model_gateway::errors::GatewayError;
use model_gateway::http::ApiResponse;
use model_gateway::json::{parse_json, write_json, Json};
use model_gateway::providers::adapter::{ModelRefreshOutcome, UpstreamErrorClass};
use model_gateway::providers::kind::ProviderKind;
use model_gateway::providers::zcode::adapter::ZcodeAdapter;
use model_gateway::providers::zcode::claim::{
    app_version, captcha_config, captcha_config_request, captcha_hint, claim, claim_request,
    outcome_hold, pick_target, platform, preview, preview_request, transport_error, urlencode,
    CaptchaConfig, ClaimFailure, ClaimOutcome, ClaimStart, ClaimablePlan, NextAttempt,
    PreviewOutcome,
};
use model_gateway::providers::zcode::credentials::{expires_at_ms, new_device_mid, ZcodeCredentials};
use model_gateway::providers::zcode::models;
use model_gateway::providers::zcode::oauth::{
    apply_interstitial, new_poll_token, poll_token_from, start_error, start_request, CliLogin,
};
use model_gateway::providers::zcode::region::Region;
use model_gateway::time::Millis;
use serde_json::Value;

fn millis(time: f64) -> Millis {
    Millis { bits: time.to_bits() }
}

fn value(json: &Json) -> Value {
    serde_json::from_str(&write_json(json)).expect("written JSON can be read")
}

fn json(text: &str) -> Json {
    parse_json(text).expect("JSON")
}

fn answer(status: u16, text: &str) -> ApiResponse {
    ApiResponse { ok: (200..300).contains(&status), status, payload: parse_json(text) }
}

fn error_of<T>(outcome: Result<T, GatewayError>) -> (i32, String) {
    match outcome {
        Ok(_) => panic!("an error was expected"),
        Err(error) => (error.status_code, error.message),
    }
}

fn pair(name: &str, value: &str) -> (String, String) {
    (name.to_string(), value.to_string())
}

fn account(region: Region, user: &str) -> ZcodeCredentials {
    ZcodeCredentials {
        region,
        access_token: "token".to_string(),
        jwt: String::new(),
        user_id: user.to_string(),
        device_mid: String::new(),
    }
}

fn token_with(payload: &str) -> String {
    let encoded = base64::Engine::encode(
        &base64::engine::general_purpose::URL_SAFE_NO_PAD,
        payload.as_bytes(),
    );
    format!("head.{encoded}.tail")
}

#[test]
fn zcode_regions_are_providers() {
    assert_eq!(Region::from_provider_id("zcode"), Some(Region::Cn));
    assert_eq!(Region::from_provider_id("zcode-intl"), Some(Region::Intl));
    assert_eq!(Region::from_provider_id("zcode-"), None);
    assert_eq!(Region::from_kind(ProviderKind::ZcodeIntl), Some(Region::Intl));
    assert_eq!(Region::from_kind(ProviderKind::Qoder), None);
    assert_eq!(Region::default(), Region::Cn);
    assert_eq!(Region::Cn.kind(), ProviderKind::Zcode);
    assert_eq!(Region::Intl.provider_id(), "zcode-intl");
    assert_eq!(Region::Intl.label(), "国际版");
    assert_eq!(Region::Cn.upstream_provider(), "bigmodel");
    assert_eq!(Region::Cn.openai_base_url(), "https://open.bigmodel.cn/api/coding/paas/v4");
    assert_eq!(Region::Intl.anthropic_base_url(), "https://api.z.ai/api/anthropic");
    assert_eq!(Region::Intl.biz_host(), "https://api.z.ai");
    assert_eq!(Region::Intl.env_name("OPENAI_BASE_URL"), "ZCODE_INTL_OPENAI_BASE_URL");
    assert_eq!(Region::Cn.env_override(Some(" https://x// ")), Some("https://x".to_string()));
    assert_eq!(Region::Cn.env_override(Some(" / ")), None);
    assert_eq!(Region::Cn.env_override(None), None);
}

#[test]
fn zcode_accounts_of_both_regions_differ() {
    let cn = account(Region::Cn, " 7 ");
    let intl = account(Region::Intl, "7");
    assert_eq!(cn.account_id(), "zcode-user-7");
    assert_eq!(intl.account_id(), "zcode-intl-user-7");
    assert_eq!(account(Region::Cn, " ").account_id(), "zcode-user-unknown");
    assert_eq!(cn.display_name(), "ZCode 国内版 · 7");
    assert_eq!(account(Region::Intl, "").display_name(), "ZCode 国际版");
    assert!(cn.can_forward());
    assert!(!cn.can_claim());
}

#[test]
fn zcode_tokens_say_when_they_end() {
    let mut own = account(Region::Cn, "u");
    assert_eq!(expires_at_ms(&own), None);
    own.jwt = token_with("{\"exp\":1700000000}");
    assert_eq!(expires_at_ms(&own), Some(millis(1_700_000_000_000.0)));
    own.access_token = token_with("{\"exp\":1700000000123}");
    assert_eq!(expires_at_ms(&own), Some(millis(1_700_000_000_123.0)));
    own.access_token = token_with("{\"exp\":1.5}");
    assert_eq!(expires_at_ms(&own), Some(millis(1_500.0)));
    own.access_token = token_with("{\"exp\":-1}");
    assert_eq!(expires_at_ms(&own), Some(millis(-1_000.0)));
    own.access_token = token_with("{\"exp\":1700000000.0005}");
    assert_eq!(expires_at_ms(&own), Some(millis(1_700_000_000_000.5)));
    own.access_token = format!("{}==.x", token_with("{\"exp\":\"1\"}").trim_end_matches(".tail"));
    assert_eq!(expires_at_ms(&own), Some(millis(1_700_000_000_000.0)));
}

#[test]
fn zcode_devices_are_named_by_uuids() {
    let mid = new_device_mid().expect("random bytes");
    assert_eq!(mid.len(), 36);
    assert_eq!(mid.as_bytes()[14], b'4');
    assert_ne!(Some(mid), new_device_mid());
}

#[test]
fn zcode_models_are_listed_and_known() {
    let list = models::list(Region::Cn);
    assert_eq!(list.len(), 11);
    let first = value(&list[0]);
    assert_eq!(first["id"], "glm-5.3");
    assert_eq!(first["maxInputTokens"], 1_000_000);
    assert_eq!(first["maxOutputTokens"], 128_000);
    assert_eq!(first["supportsToolCall"], true);
    assert_eq!(first["supportsImages"], false);
    assert_eq!(first["supportsReasoning"], true);
    let last = value(&list[10]);
    assert_eq!(last["id"], "glm-5v-turbo");
    assert_eq!(last["supportsImages"], true);
    assert_eq!(last["supportsReasoning"], false);
    for item in &list {
        assert!(models::is_known(item.text_at("id").expect("id")));
    }
    assert!(models::is_known(" GLM-5.3 "));
    assert!(!models::is_known("glm-9"));
}

#[test]
fn query_values_are_encoded() {
    assert_eq!(urlencode("a-Z_0.~"), "a-Z_0.~");
    assert_eq!(urlencode("a b&c=d/é"), "a%20b%26c%3Dd%2F%C3%A9");
    assert_eq!(app_version(None), "3.14.0");
    assert_eq!(app_version(Some("  ")), "3.14.0");
    assert_eq!(app_version(Some(" 4.0 ")), "4.0");
    assert_eq!(platform("macos", "aarch64"), "darwin-arm64");
    assert_eq!(platform("macos", "x86_64"), "darwin-x64");
    assert_eq!(platform("linux", "aarch64"), "linux-arm64");
    assert_eq!(platform("linux", "x86_64"), "linux-x64");
    assert_eq!(platform("windows", "x86_64"), "win32-x64");
    assert_eq!(platform("beos", "m68k"), "win32-x64");
}

#[test]
fn puzzles_are_set_up_only_whole() {
    let request = captcha_config_request(Region::Cn, "3&4", "linux-x64");
    assert_eq!(
        request.url,
        "https://zcode.z.ai/api/v1/client/configs?app_version=3%264&platform=linux-x64"
    );
    assert!(request.headers.is_empty());
    let read = captcha_config(answer(
        200,
        "{\"data\":{\"configs\":{\"captcha\":{\"prefix\":\" p \",\"sceneId\":\"s\"}}}}",
    ))
    .expect("setup");
    assert!(read.enabled);
    assert_eq!((read.prefix.as_str(), read.scene_id.as_str(), read.region.as_str()), ("p", "s", "ga"));
    assert!(captcha_config(answer(200, "{\"data\":{\"configs\":{\"captcha\":{\"prefix\":\"p\"}}}}")).is_none());
    assert!(captcha_config(answer(200, "{\"data\":{\"configs\":{}}}")).is_none());
    assert!(captcha_config(answer(502, "<html>")).is_none());
    let off = CaptchaConfig {
        enabled: false,
        prefix: "p".to_string(),
        scene_id: "s".to_string(),
        region: "r".to_string(),
    };
    assert_eq!(captcha_hint(&off), "上游当前未要求验证码，请直接重试一次领取");
    assert_eq!(captcha_hint(&read), "请重新完成验证码后再试");
    assert_eq!(transport_error("套餐领取", true, "x").message, "套餐领取超时");
    assert_eq!(transport_error("套餐领取", true, "x").status_code, 504);
    assert_eq!(transport_error("套餐领取", false, "x").message, "套餐领取失败: x");
}

#[test]
fn strangers_ask_for_plans_without_headers() {
    let request = preview_request(Region::Cn, " ", None, "3.14.0", "linux-x64");
    assert!(request.headers.is_empty());
    assert_eq!(request.method, "GET");
    assert_eq!(
        request.url,
        "https://zcode.z.ai/api/v1/zcode-plan/billing/preview?app_version=3.14.0&platform=linux-x64"
    );
    let known = preview_request(Region::Cn, " j ", Some(" m "), "3.14.0", "linux-x64");
    assert_eq!(
        known.headers,
        vec![pair("Authorization", "Bearer j"), pair("X-Device-Mid", "m")]
    );
}

#[test]
fn plans_are_read_and_picked() {
    assert!(matches!(preview(answer(404, "")), Ok(PreviewOutcome::NotDeployed)));
    assert_eq!(
        error_of(preview(answer(401, "{}"))),
        (401, "登录态已失效，无法探测套餐".to_string())
    );
    assert_eq!(
        error_of(preview(answer(200, "<html>"))),
        (502, "套餐探测：上游响应不是 JSON".to_string())
    );
    assert_eq!(
        error_of(preview(answer(200, "{\"code\":7,\"msg\":\" no \"}"))),
        (502, "套餐探测失败（7）：no".to_string())
    );
    assert_eq!(
        error_of(preview(answer(500, "{\"data\":{}}"))),
        (502, "套餐探测失败（0）：HTTP 500".to_string())
    );
    let text = "{\"code\":0,\"data\":{\"plans\":[\
        {\"name\":\"nameless\"},\
        {\"plan_id\":\" a \",\"priority\":1,\"ends_at\":9,\"entitlements\":[\
            {\"show_name\":\" t \",\"unit_type\":\"tokens\",\"grant_units\":5,\"effective_at\":3},\
            {\"id\":\"fallback\"},{\"unit_type\":\"x\"}]},\
        {\"plan_id\":\"b\",\"name\":\"B\",\"priority\":3},\
        {\"plan_id\":\"c\",\"priority\":3}]}}";
    let plans = match preview(answer(200, text)) {
        Ok(PreviewOutcome::Plans(plans)) => plans,
        other => panic!("{other:?}"),
    };
    let ids: Vec<&str> = plans.iter().map(|plan| plan.plan_id.as_str()).collect();
    assert_eq!(ids, vec!["a", "b", "c"]);
    assert_eq!(plans[0].name, "a");
    assert_eq!(plans[0].ends_at, Some(9));
    assert_eq!(plans[0].starts_at, None);
    assert_eq!(plans[0].entitlements.len(), 2);
    assert_eq!(plans[0].entitlements[0].show_name, "t");
    assert_eq!(plans[0].entitlements[0].unit_type, "tokens");
    assert_eq!(plans[0].entitlements[0].grant_units, 5);
    assert_eq!(plans[0].entitlements[0].effective_at, Some(3));
    assert_eq!(plans[0].entitlements[1].show_name, "fallback");
    assert_eq!(plans[1].name, "B");
    let target = |wanted: &str| pick_target(&plans, wanted).map(|p: &ClaimablePlan| p.plan_id.clone());
    assert_eq!(target(""), Some("b".to_string()));
    assert_eq!(target(" c "), Some("c".to_string()));
    assert_eq!(target("z"), None);
    assert!(pick_target(&[], "").is_none());
}

#[test]
fn claims_need_a_login() {
    match claim_request(Region::Cn, " ", "p", "", None, None, "3", "x") {
        ClaimStart::Refused(ClaimOutcome::Failed { failure, code, message, .. }) => {
            assert_eq!(failure, ClaimFailure::LoginRequired);
            assert_eq!(code, 401);
            assert_eq!(message, "领取需要登录态（本账号没有 ZCode JWT）");
        },
        other => panic!("{other:?}"),
    }
}

#[test]
fn claims_carry_what_is_there() {
    let headers = |solution: &str, region: Option<&str>, mid: Option<&str>| match claim_request(
        Region::Cn, "j", "p", solution, region, mid, "3", "x",
    ) {
        ClaimStart::Send(request) => {
            assert_eq!(request.url, "https://zcode.z.ai/api/v1/zcode-plan/billing/claim");
            assert_eq!(value(&request.body.expect("body"))["plan_id"], "p");
            request.headers
        },
        other => panic!("{other:?}"),
    };
    assert_eq!(
        headers(" ", None, None),
        vec![
            pair("Authorization", "Bearer j"),
            pair("Content-Type", "application/json"),
            pair("X-ZCode-App-Version", "3"),
            pair("X-Platform", "x"),
        ]
    );
    assert_eq!(
        headers(" s ", Some("r"), Some("m")),
        vec![
            pair("Authorization", "Bearer j"),
            pair("Content-Type", "application/json"),
            pair("X-Aliyun-Captcha-Verify-Param", "s"),
            pair("X-Aliyun-Captcha-Verify-Region", "r"),
            pair("X-ZCode-App-Version", "3"),
            pair("X-Platform", "x"),
            pair("X-Device-Mid", "m"),
        ]
    );
}

#[test]
fn claims_end_in_plans_or_refusals() {
    match claim("p", answer(200, "{\"code\":0,\"data\":{\"plan\":{\"starts_at\":1,\"ends_at\":2}}}")) {
        Ok(outcome) => {
            assert_eq!(outcome_hold(&outcome), NextAttempt::HoldUntil(2));
            assert!(matches!(outcome, ClaimOutcome::Claimed { starts_at: Some(1), ends_at: Some(2), .. }));
        },
        other => panic!("{other:?}"),
    }
    let failed = |status: u16, text: &str| match claim("p", answer(status, text)) {
        Ok(outcome) => {
            let next = outcome_hold(&outcome);
            match outcome {
                ClaimOutcome::Failed { failure, code, message, .. } => (failure, code, message, next),
                other => panic!("{other:?}"),
            }
        },
        other => panic!("{other:?}"),
    };
    assert_eq!(
        failed(200, "{\"code\":1003,\"msg\":\"had\",\"data\":{\"plan\":{\"ends_at\":8}}}"),
        (ClaimFailure::AlreadyClaimed, 1003, "had".to_string(), NextAttempt::HoldUntil(8))
    );
    assert_eq!(
        failed(200, "{\"code\":1005,\"data\":{\"plan\":{\"ends_at\":8}}}"),
        (ClaimFailure::QuotaExhausted, 1005, "HTTP 200".to_string(), NextAttempt::WaitWindow(8))
    );
    assert_eq!(failed(200, "{\"code\":1005}").3, NextAttempt::Cooldown);
    assert_eq!(failed(200, "{\"code\":0}").0, ClaimFailure::Unknown);
    assert_eq!(failed(401, "{}").0, ClaimFailure::LoginRequired);
    assert_eq!(failed(500, "{}"), (ClaimFailure::HttpError, 500, "HTTP 500".to_string(), NextAttempt::Cooldown));
    assert_eq!(
        error_of(claim("p", answer(502, "<html>"))),
        (502, "套餐领取：上游响应不是 JSON".to_string())
    );
    let codes = [
        (1001, "套餐不存在"),
        (1002, "活动已结束或尚未开始"),
        (1003, "该账号已领取过"),
        (1004, "账号或客户端版本不符合活动资格"),
        (1005, "当日领取额度已用尽"),
        (3001, "参数错误（常见成因：缺少设备标识）"),
        (3007, "验证码校验未通过"),
        (401, "登录态已失效，请重新登录"),
        (7, "未知失败"),
    ];
    for (code, label) in codes {
        assert_eq!(ClaimFailure::from_code(code).label(), label);
    }
    assert_eq!(ClaimFailure::HttpError.label(), "上游 HTTP 错误");
}

#[test]
fn browsers_end_on_the_right_page() {
    let page = "https%3A%2F%2Fzcode.z.ai%2Fapp%2Foauth%2Flogin%3Fredirect%3Dzcode%253A%252F%252Foauth%252Fcallback%26app_version%3D3.14.0";
    assert_eq!(
        apply_interstitial(Region::Cn, "https://a/b?x=1&redirect=old&&redirect=older&y=2#top", "3.14.0"),
        format!("https://a/b?x=1&redirect={page}&y=2#top")
    );
    assert_eq!(
        apply_interstitial(Region::Intl, "https://a/b?redirect=kept", "3.14.0"),
        format!("https://a/b?redirect=kept&redirect_uri={page}")
    );
    assert_eq!(
        apply_interstitial(Region::Intl, "https://a/b", "3.14.0"),
        format!("https://a/b?redirect_uri={page}")
    );
}

#[test]
fn zcode_flows_are_opened() {
    let token = new_poll_token(1, 2, 3);
    assert_eq!(token.len(), 64);
    assert!(token.chars().all(|c| c.is_ascii_hexdigit()));
    assert_eq!(poll_token_from(Some(vec![0xab; 32]), 1, 2, 3), "ab".repeat(32));
    assert_eq!(poll_token_from(None, 1, 20, 3), format!("{}11432", "0".repeat(59)));
    let request = start_request(Region::Intl, "tok");
    assert_eq!(request.url, "https://zcode.z.ai/api/v1/oauth/cli/init");
    assert_eq!(request.headers[0], pair("authorization", "Bearer tok"));
    assert_eq!(value(&request.body.expect("body"))["provider"], "zai");
    assert_eq!(start_error(true, "x").message, "ZCode 登录发起超时");
    assert_eq!(start_error(false, "x").message, "ZCode 登录发起失败: x");
    let opened = |text: &str| CliLogin::start(Region::Cn, "tok".to_string(), answer(200, text), "3.14.0");
    assert_eq!(
        error_of(opened("<html>")),
        (502, "ZCode 登录发起：上游响应不是 JSON".to_string())
    );
    assert_eq!(error_of(opened("{\"code\":5}")), (502, "ZCode 登录失败（5）：上游拒绝".to_string()));
    assert_eq!(
        error_of(opened("{\"code\":5,\"msg\":\" m \"}")),
        (502, "ZCode 登录失败（5）：m".to_string())
    );
    assert_eq!(error_of(opened("{\"code\":0}")), (502, "ZCode 登录发起：响应缺少 data".to_string()));
    assert_eq!(
        error_of(opened("{\"data\":{\"authorize_url\":\"https://a\"}}")),
        (502, "ZCode 登录响应缺少 flow_id".to_string())
    );
    assert_eq!(
        error_of(opened("{\"data\":{\"flow_id\":\"f\"}}")),
        (502, "ZCode 登录响应缺少 authorize_url".to_string())
    );
    let login = opened("{\"code\":0,\"data\":{\"flow_id\":\"f\",\"authorize_url\":\"https://a\",\"expires_at\":9,\"poll_interval_sec\":-1}}").expect("flow");
    assert_eq!(login.state(), "f");
    assert_eq!(login.region(), Region::Cn);
    assert_eq!(login.expires_at(), 9);
    assert_eq!(login.poll_interval(), 3);
    assert!(login.auth_url().starts_with("https://a?redirect="));
    let ask = login.poll_request();
    assert_eq!(ask.url, "https://zcode.z.ai/api/v1/oauth/cli/poll/f");
    assert_eq!(ask.headers, vec![pair("authorization", "Bearer tok")]);
}

#[test]
fn zcode_logins_wait_end_or_succeed() {
    let login = CliLogin::on_device(
        Region::Cn,
        "tok".to_string(),
        answer(200, "{\"data\":{\"flow_id\":\"f\",\"authorize_url\":\"https://a\",\"poll_interval_sec\":7}}"),
        "3.14.0",
        Some("mid".to_string()),
    )
    .expect("flow");
    assert_eq!(login.poll_interval(), 7);
    let waits = |response: Option<ApiResponse>| matches!(login.poll(response), Ok(None));
    assert!(waits(None));
    assert!(waits(Some(answer(500, "{\"code\":1}"))));
    assert!(waits(Some(answer(408, ""))));
    assert!(waits(Some(answer(429, ""))));
    assert!(waits(Some(answer(200, "<html>"))));
    assert!(waits(Some(answer(200, "{}"))));
    assert!(waits(Some(answer(200, "{\"data\":{\"status\":\"pending\"}}"))));
    assert!(waits(Some(answer(200, "{\"data\":{\"status\":\"other\"}}"))));
    assert_eq!(
        error_of(login.poll(Some(answer(404, "<html>")))),
        (502, "ZCode 登录轮询被拒（HTTP 404）".to_string())
    );
    assert_eq!(
        error_of(login.poll(Some(answer(400, "{\"code\":9,\"message\":\"m\"}")))),
        (502, "ZCode 登录失败（9）：m".to_string())
    );
    assert_eq!(
        error_of(login.poll(Some(answer(200, "{\"data\":{\"status\":\"failed\"}}")))),
        (401, "ZCode 授权被拒绝或已失效，请重新发起登录".to_string())
    );
    assert_eq!(
        error_of(login.poll(Some(answer(200, "{\"data\":{\"status\":\"ready\",\"zai\":{\"access_token\":\"a\"}}}")))),
        (502, "ZCode 登录响应缺少 bigmodel.access_token".to_string())
    );
    let own = login
        .poll(Some(answer(200, "{\"data\":{\"status\":\"ready\",\"token\":\" j \",\"user\":{\"user_id\":\"u\"},\"bigmodel\":{\"access_token\":\" a \"}}}")))
        .expect("answer")
        .expect("credentials");
    assert_eq!(own.access_token, "a");
    assert_eq!(own.jwt, "j");
    assert_eq!(own.user_id, "u");
    assert_eq!(own.device_mid, "mid");
    assert_eq!(own.region, Region::Cn);
}

#[test]
fn zcode_answers_are_asked_for() {
    let adapter = ZcodeAdapter::new(Region::Intl);
    assert_eq!(adapter.region(), Region::Intl);
    assert_eq!(adapter.kind(), ProviderKind::ZcodeIntl);
    assert_eq!(adapter.list_models().len(), 11);
    let body = json("{\"model\":\"glm-5\"}");
    let plan = adapter
        .build_chat_request(&json("{\"auth\":{\"accessToken\":\" t \"}}"), &body, None)
        .expect("plan");
    assert_eq!(plan.url, "https://api.z.ai/api/coding/paas/v4/chat/completions");
    assert_eq!(
        plan.headers,
        vec![
            pair("Content-Type", "application/json"),
            pair("Accept", "*/*"),
            pair("Authorization", "Bearer t"),
        ]
    );
    assert_eq!(value(&plan.body), value(&body));
    let moved = adapter
        .build_chat_request(&json("{\"auth\":{\"accessToken\":\"t\"}}"), &body, Some("https://x/"))
        .expect("plan");
    assert_eq!(moved.url, "https://x/chat/completions");
    assert_eq!(
        error_of(adapter.build_chat_request(&json("{}"), &body, None)),
        (401, "ZCode 账号缺少 accessToken，无法转发".to_string())
    );
    let own = json("{\"auth\":{\"accessToken\":\"t\"}}");
    let blank = json("{\"auth\":{\"accessToken\":\" \"}}");
    assert_eq!(
        error_of(adapter.ensure_access_token("gone", None, Some(&own))),
        (401, "没有可用的 ZCode 账号，请先在「账号」页添加".to_string())
    );
    assert_eq!(
        error_of(adapter.ensure_access_token("a", Some(&blank), Some(&own))),
        (401, "ZCode 账号缺少 accessToken，请重新登录".to_string())
    );
    assert_eq!(adapter.ensure_access_token("a", Some(&own), None).expect("token"), "t");
    assert_eq!(adapter.ensure_access_token(" ", None, Some(&own)).expect("token"), "t");
    assert_eq!(
        error_of(adapter.refresh_access_token()),
        (401, "ZCode 的登录态无法自动续期，请在「账号」页重新登录该账号".to_string())
    );
    assert!(matches!(adapter.refresh_models(), ModelRefreshOutcome::Unchanged));
    assert!(adapter.sse_model_rewrite());
}

#[test]
fn zcode_errors_are_told_apart() {
    let adapter = ZcodeAdapter::new(Region::Cn);
    assert!(matches!(
        adapter.classify_error(401, &json("{}"), None),
        UpstreamErrorClass::TokenExpired { .. }
    ));
    match adapter.classify_error(429, &json("{\"code\":5,\"msg\":\"slow\"}"), None) {
        UpstreamErrorClass::QuotaLimited { message, upstream_code, status, reset_at } => {
            assert_eq!(message, "上游返回 429: slow");
            assert_eq!((upstream_code, status, reset_at), (None, 429, None));
        },
        other => panic!("{other:?}"),
    }
    match adapter.classify_error(400, &json("{\"code\":5}"), Some("；提示")) {
        UpstreamErrorClass::ContentBlocked { status, message, upstream_code } => {
            assert_eq!(message, "上游返回 400: 上游错误；提示");
            assert_eq!((status, upstream_code), (400, Some(5)));
        },
        other => panic!("{other:?}"),
    }
    assert!(matches!(
        adapter.classify_error(400, &json("{}"), None),
        UpstreamErrorClass::Fatal { .. }
    ));
}
