//! Requests, streams and retries.
use edocrs::api::Message;
use edocrs::config::Model;
use edocrs::errors::ApiError;
use edocrs::json::Json;
use edocrs::sampler::actor::{is_retryable, with_idle_timeout, Retry, Waited};
use edocrs::sampler::client::{EventStream, Reply, SseSplitter};
use edocrs::sampler::dialect::chat_completions::{events_of, ChatCompletionsDialect};
use edocrs::sampler::dialect::{AnthropicMessagesDialect, Dialect, ResponsesDialect};
use edocrs::sampler::{
    build, for_model, ModelDialect, SamplerConfig, SamplingClient, SamplingEvent, SamplingRequest,
    StopReason, Usage,
};

fn d() -> ChatCompletionsDialect {
    ChatCompletionsDialect
}

fn ping() -> SamplingRequest {
    SamplingRequest {
        model: Model::deepseek_v4_flash(),
        messages: vec![Message::User { content: "ping".into() }],
        tools_schema: vec![],
    }
}

#[test]
fn sse_split_single_event() {
    let mut s = SseSplitter::new();
    assert_eq!(s.feed(b"data: hello\n\n"), vec!["hello".to_string()]);
}

#[test]
fn sse_split_across_chunks() {
    let mut s = SseSplitter::new();
    assert!(s.feed(b"data: hel").is_empty());
    assert!(s.feed(b"lo\n").is_empty());
    assert_eq!(s.feed(b"\n"), vec!["hello".to_string()]);
}

#[test]
fn sse_split_done_marker() {
    let mut s = SseSplitter::new();
    assert_eq!(s.feed(b"data: [DONE]\n\n"), vec!["[DONE]".to_string()]);
}

#[test]
fn sse_takes_the_first_data_line_and_skips_the_rest() {
    let mut s = SseSplitter::default();
    let got = s.feed("event: x\r\ndata: 一\ndata: 二\n\n: comment\n\ndata:none\n\ndata: z".as_bytes());
    assert_eq!(got, vec!["一".to_string()]);
    assert_eq!(s.feed(b"\n\n"), vec!["z".to_string()]);
}

#[test]
fn sse_drops_events_that_are_not_text() {
    let mut s = SseSplitter::new();
    assert_eq!(s.feed(b"data: \xff\n\ndata: ok\n\n"), vec!["ok".to_string()]);
}

#[test]
fn sse_does_not_depend_on_chunks() {
    let bytes = "data: 你好\n\ndata: b\n\n\n\ndata: c\n\n".as_bytes();
    let mut whole = SseSplitter::new();
    let expected = whole.feed(bytes);
    for cut in 0..bytes.len() {
        let mut s = SseSplitter::new();
        let mut got = s.feed(&bytes[..cut]);
        got.extend(s.feed(&bytes[cut..]));
        assert_eq!(got, expected);
    }
}

#[test]
fn parse_text_delta() {
    let json = r#"{"choices":[{"delta":{"content":"hello"},"index":0}]}"#;
    let evs = d().parse_chunk(json).unwrap();
    assert!(matches!(evs.as_slice(), [SamplingEvent::TextDelta(s)] if s == "hello"));
}

#[test]
fn parse_reasoning_delta() {
    let json = r#"{"choices":[{"delta":{"reasoning_content":"先看系统信息"},"index":0}]}"#;
    let evs = d().parse_chunk(json).unwrap();
    assert!(matches!(evs.as_slice(), [SamplingEvent::ReasoningDelta(s)] if s == "先看系统信息"));
}

#[test]
fn parse_tool_call_open() {
    let json = r#"{"choices":[{"delta":{"tool_calls":[{"index":0,"id":"call_1","type":"function","function":{"name":"read_file","arguments":"{\"pa"}}]}}]}"#;
    let evs = d().parse_chunk(json).unwrap();
    match evs.as_slice() {
        [SamplingEvent::ToolCallDelta { index, id, name, arguments_fragment }] => {
            assert_eq!(*index, 0);
            assert_eq!(id.as_deref(), Some("call_1"));
            assert_eq!(name.as_deref(), Some("read_file"));
            assert_eq!(arguments_fragment, "{\"pa");
        }
        _ => panic!("wrong: {evs:?}"),
    }
}

#[test]
fn parse_done_event() {
    let json = r#"{"choices":[{"delta":{},"finish_reason":"stop"}]}"#;
    let evs = d().parse_chunk(json).unwrap();
    assert!(matches!(
        evs.as_slice(),
        [SamplingEvent::Done { reason: StopReason::EndTurn, .. }]
    ));
}

#[test]
fn parse_trailing_usage_chunk() {
    let json = r#"{"choices":[],"usage":{"prompt_tokens":10,"completion_tokens":5,"total_tokens":15}}"#;
    let evs = d().parse_chunk(json).unwrap();
    match evs.as_slice() {
        [SamplingEvent::Done { usage: Some(u), .. }] => {
            assert_eq!(u.total_tokens, 15);
            assert_eq!(u.prompt_tokens, 10);
        }
        _ => panic!("expected Done+usage: {evs:?}"),
    }
}

#[test]
fn tool_calls_finish_reason_maps_to_tool_use() {
    let json = r#"{"choices":[{"delta":{},"finish_reason":"tool_calls"}]}"#;
    let evs = d().parse_chunk(json).unwrap();
    assert!(matches!(
        evs.as_slice(),
        [SamplingEvent::Done { reason: StopReason::ToolUse, .. }]
    ));
}

#[test]
fn stop_reasons_are_normalised() {
    assert_eq!(StopReason::from_chat_completions("stop"), StopReason::EndTurn);
    assert_eq!(StopReason::from_chat_completions("tool_calls"), StopReason::ToolUse);
    assert_eq!(StopReason::from_chat_completions("length"), StopReason::MaxTokens);
    assert_eq!(StopReason::from_chat_completions("content_filter"), StopReason::Other);
}

#[test]
fn chunks_without_anything_give_nothing() {
    for text in [
        "{}",
        r#"{"choices":[]}"#,
        r#"{"choices":[{"index":0}]}"#,
        r#"{"choices":[{"delta":{"content":"","tool_calls":[]}}]}"#,
        r#"{"usage":null,"choices":[]}"#,
        "3",
    ] {
        assert!(events_of(&Json::parse(text).unwrap()).is_empty(), "{text}");
    }
}

#[test]
fn finish_with_content_is_content() {
    let json = r#"{"choices":[{"delta":{"content":"x"},"finish_reason":"stop"}]}"#;
    assert!(matches!(d().parse_chunk(json).unwrap().as_slice(), [SamplingEvent::TextDelta(_)]));
    let empty = r#"{"choices":[{"delta":{"content":null},"finish_reason":"stop"}]}"#;
    assert!(d().parse_chunk(empty).unwrap().is_empty());
}

#[test]
fn token_counts_keep_their_low_bits() {
    let json = r#"{"usage":{"prompt_tokens":4294967297,"total_tokens":"many"}}"#;
    let evs = d().parse_chunk(json).unwrap();
    match evs.as_slice() {
        [SamplingEvent::Done { reason: StopReason::Other, usage: Some(u) }] => {
            assert_eq!(*u, Usage { prompt_tokens: 1, completion_tokens: 0, total_tokens: 0 });
        }
        _ => panic!("wrong: {evs:?}"),
    }
    assert_eq!(Usage::default().total_tokens, 0);
}

#[test]
fn payload_that_is_no_json_is_an_error() {
    assert!(matches!(d().parse_chunk("{"), Err(ApiError::BadJson(_))));
}

#[test]
fn request_body_is_shaped() {
    let body = d().build_body(&ping()).unwrap().to_text().unwrap();
    assert_eq!(
        body,
        r#"{"model":"deepseek-v4-flash","messages":[{"role":"user","content":"ping"}],"stream":true,"stream_options":{"include_usage":true},"tools":[]}"#
    );
}

#[test]
fn unfinished_dialects_fail() {
    assert!(matches!(
        ResponsesDialect.build_body(&ping()),
        Err(ApiError::BadStream(e)) if e == "responses 方言尚未实现 (多方言 task 待填)"
    ));
    assert!(matches!(ResponsesDialect.parse_chunk("x"), Err(ApiError::BadStream(_))));
    assert_eq!(ResponsesDialect.endpoint_path(), "/v1/responses");
    assert_eq!(ResponsesDialect.done_sentinel(), None);
    assert!(matches!(AnthropicMessagesDialect.build_body(&ping()), Err(ApiError::BadStream(_))));
    assert!(matches!(AnthropicMessagesDialect.parse_chunk("x"), Err(ApiError::BadStream(_))));
    assert_eq!(AnthropicMessagesDialect.endpoint_path(), "/v1/messages");
    assert_eq!(AnthropicMessagesDialect.done_sentinel(), None);
    let other = Model::parse("anthropic/sonnet-3").unwrap();
    assert!(matches!(for_model(&other), ModelDialect::AnthropicMessages(_)));
}

#[test]
fn sample_aggregates_events_through_three_layers() {
    let body = "data: {\"choices\":[{\"delta\":{\"content\":\"hi\"},\"index\":0}]}\n\n\
                data: {\"choices\":[{\"delta\":{\"content\":\" world\"},\"index\":0}]}\n\n\
                data: {\"choices\":[{\"delta\":{},\"finish_reason\":\"stop\"}]}\n\n\
                data: [DONE]\n\n";
    let model = Model::deepseek_v4_flash();
    let handle = build("sk-test".into(), "http://host/".into(), &model, SamplerConfig::default());
    let request = handle.client.stream(&ping()).unwrap();
    assert_eq!(request.url, "http://host/v1/chat/completions");
    assert_eq!(request.bearer, "sk-test");

    let mut stream = EventStream::new(for_model(&model));
    let mut events = Vec::new();
    for item in stream.step(Ok(body.as_bytes().to_vec())) {
        events.push(item.unwrap());
    }
    assert!(stream.finished);
    assert!(matches!(&events[0], SamplingEvent::TextDelta(s) if s == "hi"));
    assert!(matches!(&events[1], SamplingEvent::TextDelta(s) if s == " world"));
    assert!(matches!(events.last().unwrap(), SamplingEvent::Done { .. }));
}

#[test]
fn retries_on_rate_limit() {
    let cfg = SamplerConfig { max_retries: 2, idle_timeout: 5_000 };
    let model = Model::deepseek_v4_flash();
    let handle = build("sk-test".into(), "http://host".into(), &model, cfg);
    let e = SamplingClient::<ModelDialect>::reply_error(429, None).unwrap();
    assert!(matches!(e, ApiError::RateLimit));
    assert!(matches!(handle.sample(0, e), Retry::After(100)));
    assert!(SamplingClient::<ModelDialect>::reply_error(200, None).is_none());
    let mut stream = EventStream::new(for_model(&model));
    let items = stream.step(Ok(
        b"data: {\"choices\":[{\"delta\":{\"content\":\"ok\"},\"index\":0}]}\n\n".to_vec(),
    ));
    assert!(matches!(&items[0], Ok(SamplingEvent::TextDelta(s)) if s == "ok"));
}

#[test]
fn retries_double_and_end() {
    let cfg = SamplerConfig { max_retries: 58, idle_timeout: 1 };
    let handle = build("k".into(), "u".into(), &Model::default(), cfg);
    assert!(matches!(handle.sample(0, ApiError::RateLimit), Retry::After(100)));
    assert!(matches!(handle.sample(1, ApiError::Network("x".into())), Retry::After(200)));
    assert!(matches!(handle.sample(2, ApiError::RateLimit), Retry::After(400)));
    assert!(matches!(
        handle.sample(57, ApiError::RateLimit),
        Retry::After(14_411_518_807_585_587_200)
    ));
    assert!(matches!(handle.sample(58, ApiError::RateLimit), Retry::Fail(ApiError::RateLimit)));
    assert!(matches!(handle.sample(0, ApiError::Cancelled), Retry::Fail(ApiError::Cancelled)));
    let many = SamplerConfig { max_retries: u32::MAX, idle_timeout: 1 };
    let handle = build("k".into(), "u".into(), &Model::default(), many);
    assert!(matches!(handle.sample(3, ApiError::RateLimit), Retry::After(800)));
    assert!(!is_retryable(&ApiError::BadStream("x".into())));
    assert_eq!(SamplerConfig::default().max_retries, 2);
    assert_eq!(SamplerConfig::default().idle_timeout, 300_000);
}

#[test]
fn statuses_are_told_apart() {
    type Client = SamplingClient<ModelDialect>;
    assert_eq!(Client::reply(200), Reply::Accepted);
    assert_eq!(Client::reply(299), Reply::Accepted);
    assert_eq!(Client::reply(429), Reply::RateLimited);
    assert_eq!(Client::reply(302), Reply::Refused);
    assert!(matches!(
        Client::reply_error(500, Some("boom".into())),
        Some(ApiError::Http { status: 500, body }) if body == "boom"
    ));
    assert!(matches!(
        Client::reply_error(404, None),
        Some(ApiError::Http { status: 404, body }) if body.is_empty()
    ));
}

#[test]
fn stream_goes_on_after_bad_data_and_ends_with_the_sentinel() {
    let mut s = EventStream::new(for_model(&Model::default()));
    let items = s.step(Ok(
        b"data: {\n\ndata: {\"choices\":[{\"delta\":{\"content\":\"a\"}}]}\n\ndata: [DONE]\n\ndata: {\n\n"
            .to_vec(),
    ));
    assert_eq!(items.len(), 2);
    assert!(matches!(&items[0], Err(ApiError::BadJson(_))));
    assert!(matches!(&items[1], Ok(SamplingEvent::TextDelta(t)) if t == "a"));
    assert!(s.finished);
}

#[test]
fn broken_connection_ends_the_stream() {
    let mut s = EventStream::new(for_model(&Model::default()));
    assert!(s.step(Ok(b"data: {\"cho".to_vec())).is_empty());
    assert!(!s.finished);
    let items = s.step(Err("reset".into()));
    assert!(matches!(items.as_slice(), [Err(ApiError::Network(e))] if e == "reset"));
    assert!(s.finished);
}

#[test]
fn idle_stream_is_given_up() {
    let (item, goes_on) = with_idle_timeout(Waited::TimedOut, 300_000);
    assert!(matches!(item, Some(Err(ApiError::IdleTimeout(300_000)))));
    assert!(!goes_on);
    assert!(matches!(with_idle_timeout(Waited::Ended, 1), (None, false)));
    let next = Waited::Item(Ok(SamplingEvent::TextDelta("x".into())));
    assert!(matches!(with_idle_timeout(next, 1), (Some(Ok(_)), true)));
}

#[test]
fn schema_that_cannot_be_written_fails_the_request() {
    let handle = build("k".into(), "u".into(), &Model::default(), SamplerConfig::default());
    let twice = Json::Object(vec![("a".into(), Json::Null), ("a".into(), Json::Null)]);
    let req = SamplingRequest { tools_schema: vec![twice], ..ping() };
    assert!(matches!(handle.client.stream(&req), Err(ApiError::BadJson(_))));
    let model = Model::parse("anthropic/sonnet-3").unwrap();
    let other = build("k".into(), "u".into(), &model, SamplerConfig::default());
    assert!(matches!(other.client.stream(&ping()), Err(ApiError::BadStream(_))));
}

#[test]
fn schemas_with_any_number_are_sent() {
    let handle = build("k".into(), "u".into(), &Model::default(), SamplerConfig::default());
    let text = r#"{"minimum":-1,"step":0.25,"most":36893488147419103232}"#;
    let schema: serde_json::Value = serde_json::from_str(text).unwrap();
    let shown = format!("\"tools\":[{schema}]");
    let req = SamplingRequest { tools_schema: vec![Json::from_value(schema)], ..ping() };
    let body = handle.client.stream(&req).unwrap().body;
    assert!(body.contains(&shown));
}

#[test]
fn events_do_not_depend_on_chunks() {
    let body = "data: {\"choices\":[{\"delta\":{\"content\":\"你\"}}]}\n\ndata: {\n\n\
                data: {\"choices\":[{\"delta\":{\"content\":\"b\"}}]}\n\ndata: [DONE]\n\n"
        .as_bytes();
    let mut whole = EventStream::new(for_model(&Model::default()));
    let expected = format!("{:?}", whole.step(Ok(body.to_vec())));
    for cut in 0..body.len() {
        let mut s = EventStream::new(for_model(&Model::default()));
        let mut got = s.step(Ok(body[..cut].to_vec()));
        if !s.finished {
            got.extend(s.step(Ok(body[cut..].to_vec())));
        }
        assert!(s.finished);
        assert_eq!(format!("{got:?}"), expected);
    }
}

#[test]
fn answers_are_read_in_the_dialect_of_the_request() {
    let handle = build("k".into(), "u".into(), &Model::default(), SamplerConfig::default());
    let mut events = handle.client.events();
    assert!(matches!(events.dialect, ModelDialect::ChatCompletions(_)));
    let items = events.step(Ok(b"data: {\"choices\":[{\"delta\":{\"content\":\"x\"}}]}\n\n".to_vec()));
    assert!(matches!(&items[0], Ok(SamplingEvent::TextDelta(t)) if t == "x"));
}
