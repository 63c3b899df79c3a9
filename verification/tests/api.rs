//! Messages on the wire.
use edocrs::api::{FunctionCall, Message, ToolCall};
use edocrs::json::Json;

fn value(m: &Message) -> serde_json::Value {
    let text = m.to_json().to_text().unwrap();
    serde_json::from_str(&text).unwrap()
}

fn call(name: &str, arguments: &str) -> ToolCall {
    ToolCall {
        id: "call_1".into(),
        kind: "function".into(),
        function: FunctionCall { name: name.into(), arguments: arguments.into() },
    }
}

#[test]
fn user_message_serializes_with_role() {
    let m = Message::User { content: "hello".into() };
    let v = value(&m);
    assert_eq!(v["role"], "user");
    assert_eq!(v["content"], "hello");
}

#[test]
fn assistant_message_with_tool_calls() {
    let m = Message::Assistant {
        content: Some("我来调用工具".into()),
        reasoning_content: None,
        tool_calls: vec![call("read_file", "{\"path\":\"a.txt\"}")],
    };
    let v = value(&m);
    assert_eq!(v["role"], "assistant");
    assert_eq!(v["tool_calls"][0]["id"], "call_1");
    assert_eq!(v["tool_calls"][0]["function"]["name"], "read_file");
}

#[test]
fn assistant_message_preserves_reasoning_content() {
    let m = Message::Assistant {
        content: None,
        reasoning_content: Some("需要查看系统信息".into()),
        tool_calls: vec![call("bash", "{\"command\":\"fastfetch\"}")],
    };
    let v = value(&m);
    assert_eq!(v["role"], "assistant");
    assert_eq!(v["reasoning_content"], "需要查看系统信息");
    assert_eq!(v["tool_calls"][0]["id"], "call_1");
}

#[test]
fn tool_message_has_tool_call_id() {
    let m = Message::Tool { tool_call_id: "call_1".into(), content: "file content".into() };
    let v = value(&m);
    assert_eq!(v["role"], "tool");
    assert_eq!(v["tool_call_id"], "call_1");
}

#[test]
fn absent_parts_of_a_message_are_left_out() {
    let m = Message::Assistant {
        content: Some("hi".into()),
        reasoning_content: None,
        tool_calls: vec![],
    };
    assert_eq!(m.to_json().to_text().unwrap(), r#"{"role":"assistant","content":"hi"}"#);
    let s = Message::System { content: "be kind".into() };
    assert_eq!(s.to_json().to_text().unwrap(), r#"{"role":"system","content":"be kind"}"#);
}

#[test]
fn tool_call_is_read_back() {
    let c = call("bash", "{\"command\":\"ls\"}");
    let text = c.to_json().to_text().unwrap();
    let back = ToolCall::from_json(&Json::parse(&text).unwrap()).unwrap();
    assert_eq!(back.id, "call_1");
    assert_eq!(back.kind, "function");
    assert_eq!(back.function.name, "bash");
    assert_eq!(back.function.arguments, "{\"command\":\"ls\"}");
}

#[test]
fn broken_tool_calls_are_refused() {
    let missing = Json::parse(r#"{"id":"x","type":"function"}"#).unwrap();
    assert_eq!(ToolCall::from_json(&missing).unwrap_err(), "missing field `function`");
    let typed = Json::parse(r#"{"id":1}"#).unwrap();
    assert_eq!(ToolCall::from_json(&typed).unwrap_err(), "invalid type for field `id`");
}

#[test]
fn messages_are_read_back() {
    let all = vec![
        Message::System { content: "s".into() },
        Message::User { content: "u".into() },
        Message::Assistant { content: None, reasoning_content: None, tool_calls: vec![] },
        Message::Assistant {
            content: Some("c".into()),
            reasoning_content: Some("r".into()),
            tool_calls: vec![call("bash", "{}")],
        },
        Message::Tool { tool_call_id: "call_1".into(), content: "t".into() },
    ];
    for m in &all {
        let text = m.to_json().to_text().unwrap();
        let back = Message::from_json(&Json::parse(&text).unwrap()).unwrap();
        assert_eq!(format!("{back:?}"), format!("{m:?}"));
    }
    let odd = Json::parse(r#"{"role":"judge"}"#).unwrap();
    assert_eq!(Message::from_json(&odd).unwrap_err(), "unknown variant `judge`");
    let none = Json::parse(r#"{"role":"assistant","tool_calls":null}"#).unwrap();
    assert_eq!(Message::from_json(&none).unwrap_err(), "invalid type for field `tool_calls`");
}

#[test]
fn arrays_may_stand_for_messages() {
    let read = |text: &str| Message::from_json(&Json::parse(text).unwrap());
    assert!(matches!(read(r#"["user","hi"]"#), Ok(Message::User { content }) if content == "hi"));
    let text = r#"["assistant",null,"why",[["c","function",["bash","{}"]]]]"#;
    match read(text).unwrap() {
        Message::Assistant { content: None, reasoning_content: Some(why), tool_calls } => {
            assert_eq!(why, "why");
            assert_eq!(tool_calls[0].id, "c");
            assert_eq!(tool_calls[0].function.name, "bash");
        }
        m => panic!("{m:?}"),
    }
    assert!(matches!(
        read(r#"["assistant","a",null]"#),
        Ok(Message::Assistant { tool_calls, .. }) if tool_calls.is_empty()
    ));
    for bad in ["[]", r#"["user"]"#, r#"["user","a","b"]"#, r#"["nobody","a"]"#, "[1]"] {
        assert!(read(bad).is_err());
    }
}
