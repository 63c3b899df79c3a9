//! Turns, with the outside played by the test.
use edocrs::agent::{git_head, Action, Agent, Answer, TurnEvent};
use edocrs::api::Message;
use edocrs::config::Model;
use edocrs::errors::{ApiError, AppError, SessionError};
use edocrs::event::SessionEvent;
use edocrs::permission::{Decision, PermissionGate};
use edocrs::sampler::client::EventStream;
use edocrs::sampler::{build, for_model, SamplerConfig, SamplingEvent};
use edocrs::session::checkpoint::{FileRestore, Found, HunkTracker};
use edocrs::session::log::{append, UpdateRecord};
use edocrs::session::Session;
use edocrs::session_actor::{
    replace, rewind_begin, rewind_next, start_over, turn_outcome, ActorStep, RewindAction,
    RewindEvent, SessionActor, SessionCommand, TurnOutcome,
};
use edocrs::system_prompt;
use edocrs::tools::bash::Bash;
use edocrs::tools::read_file::ReadFile;
use edocrs::tools::write_file::WriteFile;
use edocrs::tools::{BuiltinTool, Operation, Outcome, Registry};
use std::collections::HashMap;

const HI: &str = "data: {\"choices\":[{\"delta\":{\"content\":\"hi\"},\"index\":0}]}\n\n\
                  data: {\"choices\":[{\"delta\":{},\"finish_reason\":\"stop\"}]}\n\n\
                  data: [DONE]\n\n";

const OK: &str = "data: {\"choices\":[{\"delta\":{\"content\":\"ok\"},\"index\":0}]}\n\n\
                  data: {\"choices\":[{\"delta\":{},\"finish_reason\":\"stop\"}]}\n\n\
                  data: [DONE]\n\n";

const BASH: &str = "data: {\"choices\":[{\"delta\":{\"tool_calls\":[{\"index\":0,\"id\":\"call_1\",\"type\":\"function\",\"function\":{\"name\":\"bash\",\"arguments\":\"{\\\"command\\\":\\\"echo x\\\"}\"}}]},\"index\":0}]}\n\n\
                    data: {\"choices\":[{\"delta\":{},\"finish_reason\":\"tool_calls\"}]}\n\n\
                    data: [DONE]\n\n";

/// What is outside of the agent.
struct World {
    files: HashMap<String, String>,
    log: String,
    bodies: Vec<String>,
    requests: Vec<String>,
    answer: Option<Decision>,
    events: Vec<SessionEvent>,
    disk_full: bool,
    head: Option<String>,
}

fn world(bodies: Vec<String>) -> World {
    World {
        files: HashMap::new(),
        log: String::new(),
        bodies,
        requests: Vec::new(),
        answer: None,
        events: Vec::new(),
        disk_full: false,
        head: None,
    }
}

fn agent(tools: Vec<BuiltinTool>, gate: PermissionGate) -> Agent<BuiltinTool> {
    let mut registry = Registry::new();
    for t in tools {
        registry.register(t);
    }
    Agent {
        registry,
        gate,
        working_dir: "/work".into(),
        hunk_tracker: HunkTracker::new(),
        git_head: None,
    }
}

fn session(w: &mut World) -> Session {
    let s = Session::new(Model::deepseek_v4_flash(), "/sessions");
    w.log.push_str(&append(&s.meta_record()).unwrap());
    s
}

fn perform(w: &mut World, op: Operation) -> Outcome {
    match op {
        Operation::Run { command, .. } => Outcome::Ran {
            stdout: command.replace("echo ", "").into_bytes(),
            stderr: vec![],
            success: true,
            code: Some(0),
        },
        Operation::Read { path } => match w.files.get(&path) {
            Some(s) => Outcome::Bytes(s.clone().into_bytes()),
            None => Outcome::ReadFailed("No such file or directory".into()),
        },
        Operation::FindParent { .. } => Outcome::Parent { dir: Some(String::new()), exists: true },
        Operation::Write { path, content } => {
            w.files.insert(path, content);
            w.head = w.head.take().map(|h| h + "'");
            Outcome::Written
        }
    }
}

fn run_turn(
    a: &mut Agent<BuiltinTool>,
    s: &mut Session,
    w: &mut World,
    input: &str,
) -> Result<(), AppError> {
    let handle = build(
        "sk-test".into(),
        "http://host".into(),
        &Model::deepseek_v4_flash(),
        SamplerConfig::default(),
    );
    let mut items: Vec<Result<SamplingEvent, ApiError>> = Vec::new();
    let mut step = a.run_turn(s, input.into());
    loop {
        w.events.extend(step.emitted);
        let event = match step.action {
            Action::Store(r) => {
                if w.disk_full {
                    TurnEvent::Stored(Err(SessionError::Io("disk full".into())))
                } else {
                    w.log.push_str(&append(&r).unwrap());
                    TurnEvent::Stored(Ok(()))
                }
            }
            Action::ReadHead => TurnEvent::Head(w.head.clone()),
            Action::LookAround => {
                TurnEvent::Surroundings { date: system_prompt::today(), agents_md: None }
            }
            Action::Sample(req) => {
                w.requests.push(handle.client.stream(&req).unwrap().body);
                let body = w.bodies.remove(0);
                let mut stream = EventStream::new(for_model(&req.model));
                items = stream.step(Ok(body.into_bytes()));
                items.reverse();
                TurnEvent::Opened(Ok(()))
            }
            Action::NextEvent => TurnEvent::Sampled(items.pop()),
            Action::AwaitPermission => TurnEvent::Answered(w.answer),
            Action::ReadBefore(path) => TurnEvent::Before(match w.files.get(&path) {
                Some(s) => Found::Text(s.clone()),
                None => Found::Absent,
            }),
            Action::Perform(op) => TurnEvent::Performed(perform(w, op)),
            Action::ReadAfter(paths) => {
                TurnEvent::After(paths.iter().map(|p| w.files.get(p).cloned()).collect())
            }
            Action::Finish(r) => return r,
        };
        step = a.advance(s, step.phase, event);
    }
}

fn kind(e: &SessionEvent) -> &'static str {
    match e {
        SessionEvent::StreamText(_) => "text",
        SessionEvent::ReasoningDelta(_) => "reasoning",
        SessionEvent::StreamEnd => "stream_end",
        SessionEvent::ToolStarted { .. } => "tool_started",
        SessionEvent::ToolFinished { .. } => "tool_finished",
        SessionEvent::PermissionRequest { .. } => "permission",
    }
}

fn kinds(w: &World) -> Vec<&'static str> {
    w.events.iter().map(kind).collect()
}

fn tool_message(s: &Session) -> String {
    s.messages
        .iter()
        .find_map(|m| match m {
            Message::Tool { content, .. } => Some(content.clone()),
            _ => None,
        })
        .expect("missing tool message")
}

fn write_call(path: &str, content: &str) -> String {
    let call = format!(
        "{{\\\"path\\\":\\\"{path}\\\",\\\"content\\\":\\\"{content}\\\"}}"
    );
    format!(
        "data: {{\"choices\":[{{\"delta\":{{\"tool_calls\":[{{\"index\":0,\"id\":\"w\",\"function\":{{\"name\":\"write_file\",\"arguments\":\"{call}\"}}}}]}}}}]}}\n\ndata: [DONE]\n\n"
    )
}

#[test]
fn emits_text_then_stream_end() {
    let mut w = world(vec![HI.into()]);
    let mut a = agent(vec![], PermissionGate::new(false));
    let mut s = session(&mut w);
    run_turn(&mut a, &mut s, &mut w, "ping").unwrap();
    let seq = kinds(&w);
    assert!(seq.contains(&"text"), "应含 text 事件: {seq:?}");
    assert_eq!(seq.last(), Some(&"stream_end"), "末事件应是 stream_end: {seq:?}");
}

#[test]
fn run_turn_no_tool_calls() {
    let mut w = world(vec![HI.into()]);
    let mut a = agent(vec![], PermissionGate::new(false));
    let mut s = session(&mut w);
    run_turn(&mut a, &mut s, &mut w, "ping").unwrap();
    assert_eq!(s.messages.len(), 2);
    match &s.messages[1] {
        Message::Assistant { content, tool_calls, .. } => {
            assert_eq!(content.as_deref(), Some("hi"));
            assert!(tool_calls.is_empty());
        }
        _ => panic!("expected assistant"),
    }
}

#[test]
fn run_turn_executes_tool_then_completes() {
    let first = "data: {\"choices\":[{\"delta\":{\"tool_calls\":[{\"index\":0,\"id\":\"call_1\",\"type\":\"function\",\"function\":{\"name\":\"read_file\",\"arguments\":\"{\\\"path\\\":\\\"/tmp/f\\\"}\"}}]},\"index\":0}]}\n\n\
                 data: {\"choices\":[{\"delta\":{},\"finish_reason\":\"tool_calls\"}]}\n\n\
                 data: [DONE]\n\n";
    let second = "data: {\"choices\":[{\"delta\":{\"content\":\"done\"},\"index\":0}]}\n\n\
                  data: {\"choices\":[{\"delta\":{},\"finish_reason\":\"stop\"}]}\n\n\
                  data: [DONE]\n\n";
    let mut w = world(vec![first.into(), second.into()]);
    w.files.insert("/tmp/f".into(), "FILE-CONTENT".into());
    let tools = vec![BuiltinTool::ReadFile(ReadFile { max_bytes: 10_000 })];
    let mut a = agent(tools, PermissionGate::new(true));
    let mut s = session(&mut w);
    run_turn(&mut a, &mut s, &mut w, "请读这个文件").unwrap();
    assert_eq!(s.messages.len(), 4);
    assert!(matches!(&s.messages[2], Message::Tool { content, .. } if content.contains("FILE-CONTENT")));
    assert!(matches!(&s.messages[3], Message::Assistant { content, .. } if content.as_deref() == Some("done")));
}

#[test]
fn run_turn_preserves_reasoning_content_after_tool_call() {
    let first = format!(
        "data: {{\"choices\":[{{\"delta\":{{\"reasoning_content\":\"需要执行命令\"}},\"index\":0}}]}}\n\n{BASH}"
    );
    let mut w = world(vec![first, OK.into()]);
    let tools = vec![BuiltinTool::Bash(Bash { max_bytes: 1000 })];
    let mut a = agent(tools, PermissionGate::new(true));
    let mut s = session(&mut w);
    run_turn(&mut a, &mut s, &mut w, "跑 echo x").unwrap();
    assert_eq!(w.requests.len(), 2, "工具调用应产生两次请求");
    let req: serde_json::Value = serde_json::from_str(&w.requests[1]).expect("请求体应是合法 JSON");
    let messages = req["messages"].as_array().expect("messages 应是数组");
    let assistant_with_tool = messages
        .iter()
        .find(|m| m["role"] == "assistant" && m.get("tool_calls").is_some())
        .expect("第二次请求应包含带 tool_calls 的 assistant 历史");
    assert_eq!(
        assistant_with_tool["reasoning_content"],
        "需要执行命令",
        "第二次请求必须回传 reasoning_content: {messages:?}"
    );
}

#[test]
fn permission_denial_feeds_back_user_denied() {
    let mut w = world(vec![BASH.into(), OK.into()]);
    let tools = vec![BuiltinTool::Bash(Bash { max_bytes: 1000 })];
    let gate = PermissionGate::with_test_answers(vec![Decision::Deny]);
    let mut a = agent(tools, gate);
    let mut s = session(&mut w);
    run_turn(&mut a, &mut s, &mut w, "跑 echo x").unwrap();
    assert_eq!(tool_message(&s), "user denied");
}

#[test]
fn tool_error_feeds_back_error_string() {
    let first = "data: {\"choices\":[{\"delta\":{\"tool_calls\":[{\"index\":0,\"id\":\"call_1\",\"type\":\"function\",\"function\":{\"name\":\"read_file\",\"arguments\":\"{\\\"path\\\":\\\"/no/such/file/edocrs/probe\\\"}\"}}]},\"index\":0}]}\n\n\
                 data: {\"choices\":[{\"delta\":{},\"finish_reason\":\"tool_calls\"}]}\n\n\
                 data: [DONE]\n\n";
    let second = "data: {\"choices\":[{\"delta\":{\"content\":\"sad\"},\"index\":0}]}\n\n\
                  data: {\"choices\":[{\"delta\":{},\"finish_reason\":\"stop\"}]}\n\n\
                  data: [DONE]\n\n";
    let mut w = world(vec![first.into(), second.into()]);
    let tools = vec![BuiltinTool::ReadFile(ReadFile { max_bytes: 1000 })];
    let mut a = agent(tools, PermissionGate::new(true));
    let mut s = session(&mut w);
    run_turn(&mut a, &mut s, &mut w, "读不存在的文件").unwrap();
    let tool_msg = tool_message(&s);
    assert!(tool_msg.starts_with("error:"), "expected error prefix, got: {tool_msg}");
}

#[test]
fn run_turn_prepends_system_message_to_request_body() {
    let mut w = world(vec![OK.into()]);
    let mut a = agent(vec![], PermissionGate::new(false));
    let mut s = session(&mut w);
    run_turn(&mut a, &mut s, &mut w, "ping").unwrap();
    assert_eq!(w.requests.len(), 1, "应只发 1 次请求 (无工具调用)");
    let req: serde_json::Value = serde_json::from_str(&w.requests[0]).expect("请求体应是合法 JSON");
    let messages = req.get("messages").and_then(|m| m.as_array()).expect("messages 字段缺失");
    assert!(messages.len() >= 2, "至少含 system + user 两条: {messages:?}");
    assert_eq!(messages[0]["role"], "system", "首条不是 system: {messages:?}");
    let sys_content = messages[0]["content"].as_str().expect("content 应是字符串");
    assert!(sys_content.contains("edoCRS"), "system content 缺 BASE 特征: {sys_content}");
    assert_eq!(s.messages.len(), 2);
    assert!(
        !s.messages.iter().any(|m| matches!(m, Message::System { .. })),
        "session 不应保存 System: {:?}",
        s.messages
    );
}

#[test]
fn asked_user_decides() {
    for (answer, expected) in [
        (None, "user denied"),
        (Some(Decision::Deny), "user denied"),
        (Some(Decision::Allow), "x"),
        (Some(Decision::AllowAll), "x"),
    ] {
        let mut w = world(vec![BASH.into(), OK.into()]);
        w.answer = answer;
        let tools = vec![BuiltinTool::Bash(Bash { max_bytes: 1000 })];
        let mut a = agent(tools, PermissionGate::new(false));
        let mut s = session(&mut w);
        run_turn(&mut a, &mut s, &mut w, "go").unwrap();
        assert_eq!(tool_message(&s), expected);
        assert_eq!(
            kinds(&w),
            vec!["stream_end", "tool_started", "permission", "tool_finished", "text", "stream_end"]
        );
    }
}

#[test]
fn unknown_tools_are_reported_to_the_model() {
    let mut w = world(vec![BASH.into(), OK.into()]);
    let mut a = agent(vec![], PermissionGate::new(true));
    let mut s = session(&mut w);
    run_turn(&mut a, &mut s, &mut w, "go").unwrap();
    assert_eq!(tool_message(&s), "error: 未知工具 bash");
}

#[test]
fn written_files_end_in_a_checkpoint() {
    let bodies = vec![write_call("a.txt", "one"), write_call("a.txt", "two"), OK.into()];
    let mut w = world(bodies);
    w.files.insert("a.txt".into(), "zero".into());
    let mut a = agent(vec![BuiltinTool::WriteFile(WriteFile)], PermissionGate::new(true));
    let mut s = session(&mut w);
    run_turn(&mut a, &mut s, &mut w, "write").unwrap();
    assert_eq!(w.files["a.txt"], "two");
    assert_eq!(s.checkpoints.len(), 1);
    let cp = &s.checkpoints[0];
    assert_eq!(cp.prompt_index, 1);
    assert_eq!(cp.file_snapshots.len(), 1);
    assert_eq!(cp.file_snapshots[0].before.as_deref(), Some("zero"));
    assert_eq!(cp.hunks.len(), 1);
    assert!(!a.hunk_tracker.has_pending());
    let back = Session::load("/sessions", &s.id.to_text(), Some(&w.log)).unwrap();
    assert_eq!(format!("{:?}", back.messages), format!("{:?}", s.messages));
    assert_eq!(format!("{:?}", back.checkpoints), format!("{:?}", s.checkpoints));
    assert_eq!(back.prompt_index, s.prompt_index);
}

#[test]
fn pieces_of_tool_calls_are_merged_by_index() {
    let mut a = Answer::new();
    let delta = |index: usize, id: Option<&str>, name: Option<&str>, f: &str| {
        SamplingEvent::ToolCallDelta {
            index,
            id: id.map(String::from),
            name: name.map(String::from),
            arguments_fragment: f.into(),
        }
    };
    a.extend(delta(5, Some("b"), Some("write_file"), "{\"x"));
    a.extend(delta(2, Some("a"), None, "{"));
    a.extend(delta(5, None, None, "\":1}"));
    a.extend(delta(2, None, Some("bash"), "}"));
    let calls = a.calls();
    assert_eq!(calls.len(), 2);
    assert_eq!(calls[0].id, "a");
    assert_eq!(calls[0].kind, "function");
    assert_eq!(calls[0].function.name, "bash");
    assert_eq!(calls[0].function.arguments, "{}");
    assert_eq!(calls[1].id, "b");
    assert_eq!(calls[1].function.arguments, "{\"x\":1}");
}

#[test]
fn failures_end_the_turn() {
    let mut w = world(vec!["data: {\n\n".into()]);
    let mut a = agent(vec![], PermissionGate::new(true));
    let mut s = session(&mut w);
    let r = run_turn(&mut a, &mut s, &mut w, "go");
    assert!(matches!(r, Err(AppError::Api(ApiError::BadJson(_)))));
    assert_eq!(s.messages.len(), 1);

    let mut full = world(vec![]);
    full.disk_full = true;
    let mut s2 = Session::new(Model::default(), "/sessions");
    let r = run_turn(&mut a, &mut s2, &mut full, "go");
    assert!(matches!(r, Err(AppError::Session(SessionError::Io(_)))));
    assert!(s2.messages.is_empty());
    assert_eq!(s2.prompt_index, 0);
}

#[test]
fn refused_requests_end_the_turn() {
    let mut a = agent(vec![], PermissionGate::new(true));
    let mut s = Session::new(Model::default(), "/sessions");
    let step = a.run_turn(&s, "hi".into());
    assert!(matches!(
        &step.action,
        Action::Store(UpdateRecord::UserMessage { prompt_index: 1, content }) if content == "hi"
    ));
    let step = a.advance(&mut s, step.phase, TurnEvent::Stored(Ok(())));
    assert!(matches!(step.action, Action::ReadHead));
    let step = a.advance(&mut s, step.phase, TurnEvent::Head(None));
    let around = TurnEvent::Surroundings { date: "2001-02-03".into(), agents_md: Some("be kind".into()) };
    let step = a.advance(&mut s, step.phase, around);
    let expected = system_prompt::build_on(&s.model, "/work", "2001-02-03", Some("be kind"));
    assert!(matches!(
        &step.action,
        Action::Sample(r) if r.messages.len() == 2
            && matches!(&r.messages[0], Message::System { content } if *content == expected)
    ));
    let step = a.advance(&mut s, step.phase, TurnEvent::Opened(Err(ApiError::RateLimit)));
    assert!(matches!(step.action, Action::Finish(Err(AppError::Api(ApiError::RateLimit)))));
}

#[test]
fn previews_are_cut() {
    let long = "y".repeat(500);
    let body = format!(
        "data: {{\"choices\":[{{\"delta\":{{\"tool_calls\":[{{\"index\":0,\"id\":\"c\",\"function\":{{\"name\":\"bash\",\"arguments\":\"{long}\"}}}}]}}}}]}}\n\ndata: [DONE]\n\n"
    );
    let mut w = world(vec![body, OK.into()]);
    let tools = vec![BuiltinTool::Bash(Bash { max_bytes: 10 })];
    let mut a = agent(tools, PermissionGate::new(false));
    let mut s = session(&mut w);
    run_turn(&mut a, &mut s, &mut w, "go").unwrap();
    for e in &w.events {
        match e {
            SessionEvent::ToolStarted { args_preview, .. } => assert_eq!(args_preview.len(), 160),
            SessionEvent::PermissionRequest { args_preview, .. } => {
                assert_eq!(args_preview.len(), 200)
            }
            _ => {}
        }
    }
}

#[test]
fn git_heads_are_read() {
    assert_eq!(git_head(true, b"abc\n".to_vec()).as_deref(), Some("abc"));
    assert_eq!(git_head(false, b"abc\n".to_vec()), None);
    assert_eq!(git_head(true, b" \n".to_vec()), None);
    assert_eq!(git_head(true, vec![0xff]), None);
}

#[test]
fn actor_runs_a_turn_to_completion() {
    let mut w = world(vec![HI.into()]);
    let mut a = agent(vec![], PermissionGate::new(false));
    let mut s = session(&mut w);
    let mut actor = SessionActor::new();
    let text = match actor.handle(SessionCommand::SubmitUserInput("ping".into())) {
        ActorStep::RunTurn { turn: 1, text } => text,
        other => panic!("{other:?}"),
    };
    let outcome = turn_outcome(Some(run_turn(&mut a, &mut s, &mut w, &text)));
    assert!(matches!(outcome, TurnOutcome::Completed), "got {outcome:?}");
    assert!(matches!(actor.handle(SessionCommand::Snapshot), ActorStep::HandOut));
    let snap = s.clone();
    assert_eq!(snap.messages.len(), 2);
    assert!(matches!(&snap.messages[0], Message::User { content } if content == "ping"));
    assert!(matches!(actor.handle(SessionCommand::Shutdown), ActorStep::Stop));
}

#[test]
fn actor_clear_starts_fresh_session() {
    let mut w = world(vec![HI.into()]);
    let mut a = agent(vec![], PermissionGate::new(false));
    let mut s = session(&mut w);
    let old_id = s.id;
    let mut actor = SessionActor::new();
    run_turn(&mut a, &mut s, &mut w, "ping").unwrap();
    assert!(matches!(actor.handle(SessionCommand::Clear), ActorStep::StartOver));
    let fresh = start_over(&s, "/sessions");
    let new_id = replace(&mut s, fresh, Ok(())).expect("clear");
    assert_ne!(new_id, old_id, "clear 应换新 id");
    assert!(s.messages.is_empty(), "新会话应为空");
}

#[test]
fn actor_cancels_the_latest_turn() {
    let mut actor = SessionActor::new();
    assert!(matches!(actor.handle(SessionCommand::Cancel), ActorStep::Nothing));
    actor.handle(SessionCommand::SubmitUserInput("a".into()));
    actor.handle(SessionCommand::SubmitUserInput("b".into()));
    assert!(matches!(actor.handle(SessionCommand::Cancel), ActorStep::CancelTurn(2)));
    assert!(matches!(actor.handle(SessionCommand::Rewind(3)), ActorStep::Rewind(3)));
    assert!(matches!(actor.handle(SessionCommand::Fork), ActorStep::Fork));
    assert!(matches!(turn_outcome(None), TurnOutcome::Cancelled));
    let failed = turn_outcome(Some(Err(AppError::Config("x".into()))));
    assert!(matches!(failed, TurnOutcome::Failed(e) if e.contains("x")));
}

#[test]
fn calls_run_one_after_the_other() {
    let piece = |index: usize, id: &str, command: &str| {
        format!(
            "data: {{\"choices\":[{{\"delta\":{{\"tool_calls\":[{{\"index\":{index},\"id\":\"{id}\",\"function\":{{\"name\":\"bash\",\"arguments\":\"{{\\\"command\\\":\\\"echo {command}\\\"}}\"}}}}]}}}}]}}\n\n"
        )
    };
    let body = format!("{}{}data: [DONE]\n\n", piece(1, "second", "b"), piece(0, "first", "a"));
    let mut w = world(vec![body, OK.into()]);
    let tools = vec![BuiltinTool::Bash(Bash { max_bytes: 100 })];
    let mut a = agent(tools, PermissionGate::new(true));
    let mut s = session(&mut w);
    run_turn(&mut a, &mut s, &mut w, "go").unwrap();
    assert_eq!(s.messages.len(), 5);
    assert!(matches!(&s.messages[2], Message::Tool { tool_call_id, content } if tool_call_id == "first" && content == "a"));
    assert!(matches!(&s.messages[3], Message::Tool { tool_call_id, content } if tool_call_id == "second" && content == "b"));
    assert_eq!(w.requests.len(), 2);
}

#[test]
fn rewinding_undoes_what_turns_have_written() {
    let bodies = vec![
        write_call("a.txt", "one"),
        OK.into(),
        write_call("a.txt", "two"),
        write_call("b.txt", "new"),
        OK.into(),
    ];
    let mut w = world(bodies);
    w.files.insert("a.txt".into(), "zero".into());
    let mut a = agent(vec![BuiltinTool::WriteFile(WriteFile)], PermissionGate::new(true));
    let mut s = session(&mut w);
    run_turn(&mut a, &mut s, &mut w, "first").unwrap();
    run_turn(&mut a, &mut s, &mut w, "second").unwrap();
    assert_eq!(w.files["a.txt"], "two");
    assert_eq!(w.files["b.txt"], "new");
    let (mut phase, mut action) = rewind_begin(&s, 1);
    loop {
        let event = match action {
            RewindAction::Restore(FileRestore::Write { path, content }) => {
                w.files.insert(path, content);
                RewindEvent::Restored(Ok(()))
            }
            RewindAction::Restore(FileRestore::Remove { path }) => {
                w.files.remove(&path);
                RewindEvent::Restored(Ok(()))
            }
            RewindAction::Restore(FileRestore::Keep { .. }) => RewindEvent::Restored(Ok(())),
            RewindAction::Store(r) => {
                w.log.push_str(&append(&r).unwrap());
                RewindEvent::Stored(Ok(()))
            }
            RewindAction::ReadLog => RewindEvent::Log(Ok(w.log.clone())),
            RewindAction::Finish(r) => {
                r.unwrap();
                break;
            }
        };
        let next = rewind_next(&mut s, phase, event);
        phase = next.0;
        action = next.1;
    }
    assert_eq!(w.files["a.txt"], "one");
    assert!(!w.files.contains_key("b.txt"));
    assert_eq!(s.prompt_index, 1);
    assert_eq!(s.checkpoints.len(), 1);
    let back = Session::load("/sessions", &s.id.to_text(), Some(&w.log)).unwrap();
    assert_eq!(format!("{:?}", back.messages), format!("{:?}", s.messages));
}

#[test]
fn checkpoint_holds_the_commit_from_before_the_turn() {
    let mut w = world(vec![write_call("a.txt", "one"), OK.into()]);
    w.head = Some("c0".into());
    let mut a = agent(vec![BuiltinTool::WriteFile(WriteFile)], PermissionGate::new(true));
    let mut s = session(&mut w);
    run_turn(&mut a, &mut s, &mut w, "write").unwrap();
    assert_eq!(w.head.as_deref(), Some("c0'"));
    assert_eq!(s.checkpoints[0].git_head.as_deref(), Some("c0"));
}
