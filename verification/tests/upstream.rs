use model_gateway::json::{parse_json, write_json, Json};
use model_gateway::providers::adapter::ChatRequestPlan;
use model_gateway::proxies::ResolvedProxy;
use model_gateway::upstream::cancellation::{
    cancelled_error, CancelToken, CancellableStep, CancellableStream, Registry,
};
use model_gateway::upstream::request::{
    describe_failure, detail_of, new_request_id, read_upstream_error, TransportRequest,
    UpstreamRequestError,
};
use model_gateway::upstream::sse::{sse_frame, ModelRewrite, ReasoningCoalescer};
use model_gateway::upstream::stall::{describe_broken, GuardStep, IdleGuard, InnerPoll};
use serde_json::Value;

fn json(text: &str) -> Json {
    parse_json(text).expect("JSON")
}

fn value(json: &Json) -> Value {
    serde_json::from_str(&write_json(json)).expect("written JSON can be read")
}

fn proxy(label: &str) -> ResolvedProxy {
    ResolvedProxy {
        source: "custom".to_string(),
        protocol: "http".to_string(),
        host: "10.0.0.1".to_string(),
        port: Some(8080),
        username: String::new(),
        password: String::new(),
        label: label.to_string(),
    }
}

fn thought(text: &str) -> String {
    format!("data: {{\"id\":\"i\",\"model\":\"m\",\"created\":5,\"choices\":[{{\"delta\":{{\"reasoning_content\":\"{text}\"}}}}]}}\n\n")
}

#[test]
fn silent_streams_are_given_up() {
    let mut guard = IdleGuard::idle_guard(90);
    assert!(matches!(guard.poll(InnerPoll::Item, true), GuardStep::Pass));
    assert!(matches!(guard.poll(InnerPoll::Pending, false), GuardStep::Wait));
    match guard.poll(InnerPoll::Pending, true) {
        GuardStep::TimedOut(message) => {
            assert_eq!(message, "流式响应空闲超时(90秒)");
            assert_eq!(describe_broken("中断：", &message), message);
        },
        other => panic!("{other:?}"),
    }
    assert!(matches!(guard.poll(InnerPoll::Item, false), GuardStep::End));
    assert!(matches!(guard.poll(InnerPoll::Pending, true), GuardStep::End));
    assert_eq!(describe_broken("中断：", "reset"), "中断：reset");
    let mut ended = IdleGuard::idle_guard(1);
    assert!(matches!(ended.poll(InnerPoll::End, true), GuardStep::End));
    assert!(matches!(ended.poll(InnerPoll::Pending, true), GuardStep::End));
}

#[test]
fn requests_can_be_ended_by_hand() {
    let mut token = CancelToken::new();
    assert!(!token.is_cancelled());
    token.cancel();
    token.cancel();
    assert!(token.is_cancelled());
    assert_eq!(cancelled_error().message, "请求已被手动终止");
    let mut stream = CancellableStream::cancellable();
    assert_eq!(stream.poll(false, InnerPoll::Item), CancellableStep::Pass);
    assert_eq!(stream.poll(false, InnerPoll::Pending), CancellableStep::Wait);
    assert_eq!(stream.poll(true, InnerPoll::Item), CancellableStep::Cancelled);
    assert_eq!(stream.poll(false, InnerPoll::Item), CancellableStep::End);
    assert_eq!(stream.poll(true, InnerPoll::Item), CancellableStep::End);
    let mut registry: Registry<u8> = Registry::new();
    assert!(registry.register(" a ", 1));
    assert!(!registry.register(" ", 2));
    assert_eq!(registry.cancel("a"), Some(&1));
    assert!(registry.register("a", 3));
    assert_eq!(registry.cancel(" a"), Some(&3));
    assert_eq!(registry.cancel(""), None);
    registry.unregister("b");
    registry.unregister("a");
    assert_eq!(registry.cancel("a"), None);
}

#[test]
fn upstream_errors_are_read() {
    let read = |text: &str| {
        let detail = read_upstream_error(text);
        (detail.code, detail.message)
    };
    assert_eq!(read("{\"code\":7,\"message\":\"m\",\"msg\":\"n\"}"), (Some(7), "m".to_string()));
    assert_eq!(read("{\"message\":\"\",\"msg\":\"n\"}"), (None, "n".to_string()));
    assert_eq!(read("{\"error\":{\"message\":\"e\"}}"), (None, "e".to_string()));
    assert_eq!(read("{\"code\":\"7\"}"), (None, "{\"code\":\"7\"}".to_string()));
    assert_eq!(read(&"字".repeat(501)), (None, "字".repeat(500)));
    let detail = detail_of("t", Some(&json("{\"code\":7}")));
    assert_eq!(detail.code, Some(7));
    let shown = value(&detail.to_value());
    assert_eq!(shown["code"], 7);
    assert_eq!(shown["message"], "t");
    assert_eq!(value(&detail_of("t", None).to_value())["code"], Value::Null);
}

#[test]
fn requests_that_fail_name_their_way() {
    assert_eq!(describe_failure("失败", None, "r"), "失败（直连）: r");
    assert_eq!(describe_failure("失败", Some(("", "h")), "r"), "失败（经代理 h）: r");
    let plan = ChatRequestPlan {
        url: "https://u".to_string(),
        headers: vec![("A".to_string(), "b".to_string())],
        body: json("{\"a\":[1,\"x\"]}"),
    };
    let request = TransportRequest::of_plan(plan, Some(proxy("home")));
    assert_eq!(request.payload, "{\"a\":[1,\"x\"]}");
    assert_eq!(request.headers, vec![("A".to_string(), "b".to_string())]);
    assert_eq!(request.send_error("r").message, "上游请求失败（经代理 home）: r");
    let error = UpstreamRequestError { message: "m".to_string() }.to_gateway_error();
    assert_eq!((error.status_code, error.message.as_str()), (502, "m"));
}

#[test]
fn request_ids_are_uuids_of_two_numbers() {
    assert_eq!(
        new_request_id(0x0123_4567_89ab_cdef, 0xfedc_ba98_7654_3210),
        "01234567-89ab-4def-bedc-ba9876543210"
    );
}

#[test]
fn thoughts_are_joined_up_to_a_length() {
    let mut joiner = ReasoningCoalescer::new();
    let part = "一".repeat(30);
    assert!(joiner.push(thought(&part).as_bytes(), 1_000).is_empty());
    let frames = joiner.push(thought(&part).as_bytes(), 1_000);
    assert_eq!(
        frames,
        vec![format!(
            "data: {{\"id\":\"i\",\"object\":\"chat.completion.chunk\",\"created\":5,\"model\":\"m\",\"choices\":[{{\"index\":0,\"delta\":{{\"reasoning_content\":\"{}\"}},\"finish_reason\":null}}]}}\n\n",
            "一".repeat(60)
        )]
    );
    assert!(joiner.finish(1_000).is_empty());
}

#[test]
fn thoughts_come_before_what_follows_them() {
    let mut joiner = ReasoningCoalescer::new();
    let text = format!(
        "{}data: {{\"choices\":[{{\"delta\":{{\"content\":\"c\"}}}}]}}\n\ndata: [DONE]\n\n: note\n\ndata: broken\n\n",
        thought("t")
    );
    let frames = joiner.push(text.as_bytes(), 1_000);
    assert_eq!(frames.len(), 5);
    assert!(frames[0].contains("\"reasoning_content\":\"t\""));
    assert_eq!(frames[1], "data: {\"choices\":[{\"delta\":{\"content\":\"c\"}}]}\n\n");
    assert_eq!(frames[2], "data: [DONE]\n\n");
    assert_eq!(frames[3], ": note\n\n");
    assert_eq!(frames[4], "data: broken\n\n");
}

#[test]
fn joined_thoughts_carry_fallbacks() {
    let mut joiner = ReasoningCoalescer::new();
    joiner.push(b"data: {\"choices\":[{\"delta\":{\"reasoning_content\":\"t\"}}]}\n", 12_345);
    let frames = joiner.finish(12_345);
    assert_eq!(
        frames,
        vec!["data: {\"id\":\"wb-coalesce-12345\",\"object\":\"chat.completion.chunk\",\"created\":12,\"model\":\"\",\"choices\":[{\"index\":0,\"delta\":{\"reasoning_content\":\"t\"},\"finish_reason\":null}]}\n\n".to_string()]
    );
}

#[test]
fn events_survive_any_cut() {
    let text = format!("{}data: {{\"choices\":[{{\"delta\":{{\"content\":\"你\"}}}}]}}\r\n\r\n", thought("好"));
    let mut whole = ReasoningCoalescer::new();
    let expected = whole.push(text.as_bytes(), 1_000);
    let mut cut = ReasoningCoalescer::new();
    let mut frames = Vec::new();
    for byte in text.as_bytes() {
        frames.extend(cut.push(&[*byte], 1_000));
    }
    assert_eq!(frames, expected);
    assert_eq!(frames.len(), 2);
}

#[test]
fn frames_do_not_depend_on_cuts_or_times() {
    let text = format!(
        "{}: note\r\n{}data: {{\"id\":\"i\",\"created\":5,\"choices\":[]}}\n{}",
        thought("你"),
        thought("好"),
        thought("吗")
    );
    let mut whole = ReasoningCoalescer::new();
    let mut expected = whole.push(text.as_bytes(), 1_000);
    expected.extend(whole.finish(2_000));
    let mut cut = ReasoningCoalescer::new();
    let mut frames = Vec::new();
    for (i, byte) in text.as_bytes().iter().enumerate() {
        frames.extend(cut.push(&[*byte], i as i64));
    }
    frames.extend(cut.finish(0));
    assert_eq!(frames, expected);
    assert_eq!(frames[0], ": note\n\n");
    assert_eq!(frames[2], "data: {\"id\":\"i\",\"created\":5,\"choices\":[]}\n\n");
    let said = |frame: &str| {
        let event: Value = serde_json::from_str(frame.trim_start_matches("data: ")).expect("JSON");
        event["choices"][0]["delta"]["reasoning_content"].as_str().expect("text").to_string()
    };
    assert_eq!(format!("{}{}", said(&frames[1]), said(&frames[3])), "你好吗");
    assert_eq!(frames.len(), 4);
}

#[test]
fn models_are_set_back() {
    let mut joiner = ReasoningCoalescer::new()
        .with_model_rewrite(Some(ModelRewrite { requested: "asked".to_string() }));
    let frames = joiner.push(
        format!("{}data: {{\"model\":\"m\",\"choices\":[]}}\ndata: {{\"model\":\"asked\" }}\ndata: {{\"choices\":[]}}\n", thought("t")).as_bytes(),
        1_000,
    );
    assert!(frames[0].contains("\"model\":\"asked\""));
    assert_eq!(
        serde_json::from_str::<Value>(frames[1].trim_start_matches("data: ")).expect("JSON")["model"],
        "asked"
    );
    assert_eq!(frames[2], "data: {\"model\":\"asked\" }\n\n");
    assert_eq!(frames[3], "data: {\"choices\":[]}\n\n");
}

#[test]
fn usage_is_taken_aside() {
    let mut joiner = ReasoningCoalescer::default();
    joiner.push(b"data: {\"usage\":{\"total_tokens\":3},\"choices\":[]}\n", 0);
    let usage = joiner.take_usage().expect("usage");
    assert_eq!(value(&usage)["total_tokens"], 3);
    assert!(joiner.take_usage().is_none());
    assert_eq!(sse_frame(&json("{\"a\":1}")), "data: {\"a\":1}\n\n");
}
