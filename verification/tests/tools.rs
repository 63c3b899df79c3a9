//! Tools.
use edocrs::errors::ToolError;
use edocrs::json::Json;
use edocrs::tools::bash::Bash;
use edocrs::tools::read_file::ReadFile;
use edocrs::tools::write_file::WriteFile;
use edocrs::tools::{builtin_tools, BuiltinTool, Operation, Outcome, Registry, Step, Tool};

/// Gives its arguments back.
struct Echo;

impl Tool for Echo {
    fn name(&self) -> &'static str {
        "echo"
    }

    fn schema(&self) -> Json {
        Json::parse(r#"{"type":"function","function":{"name":"echo"}}"#).unwrap()
    }

    fn requires_permission(&self) -> bool {
        false
    }

    fn writes_path(&self, _arguments: &str) -> Option<String> {
        None
    }

    fn execute(&self, arguments: &str) -> Step {
        Step::Done(Ok(arguments.to_string()))
    }

    fn resume(&self, arguments: &str, _outcome: Outcome) -> Step {
        self.execute(arguments)
    }
}

fn done(step: Step) -> Result<String, ToolError> {
    match step {
        Step::Done(r) => r,
        Step::Do(op) => panic!("not done: {op:?}"),
    }
}

fn ran(stdout: &[u8], stderr: &[u8], code: Option<i32>) -> Outcome {
    Outcome::Ran {
        stdout: stdout.to_vec(),
        stderr: stderr.to_vec(),
        success: code == Some(0),
        code,
    }
}

#[test]
fn register_and_dispatch() {
    let mut r = Registry::new();
    r.register(Echo);
    let t = r.get("echo").expect("missing");
    let out = done(t.execute("hi")).unwrap();
    assert_eq!(out, "hi");
}

#[test]
fn schemas_collects_all() {
    let mut r = Registry::new();
    r.register(Echo);
    let s = r.schemas();
    assert_eq!(s.len(), 1);
    let name = s[0].get("function").unwrap().get("name").unwrap().as_text().unwrap();
    assert_eq!(name, "echo");
}

#[test]
fn executes_simple_command() {
    let tool = Bash { max_bytes: 10_000 };
    let args = r#"{"command":"echo hello world"}"#;
    assert!(matches!(
        tool.execute(args),
        Step::Do(Operation::Run { command, timeout_secs: 30 }) if command == "echo hello world"
    ));
    let out = done(tool.resume(args, ran(b"hello world\n", b"", Some(0)))).unwrap();
    assert!(out.contains("hello world"));
}

#[test]
fn captures_stderr() {
    let tool = Bash { max_bytes: 10_000 };
    let args = r#"{"command":"echo to-err 1>&2; echo to-out"}"#;
    let out = done(tool.resume(args, ran(b"to-out\n", b"to-err\n", Some(0)))).unwrap();
    assert!(out.contains("to-err"));
    assert!(out.contains("to-out"));
    assert_eq!(out, "to-out\nto-err\n");
}

#[test]
fn enforces_timeout() {
    let tool = Bash { max_bytes: 10_000 };
    let args = r#"{"command":"sleep 5", "timeout_secs":1}"#;
    assert!(matches!(tool.execute(args), Step::Do(Operation::Run { timeout_secs: 1, .. })));
    let res = done(tool.resume(args, Outcome::TimedOut));
    assert!(matches!(res, Err(ToolError::Timeout(1))));
}

#[test]
fn exit_codes_are_shown() {
    let tool = Bash { max_bytes: 10_000 };
    let args = r#"{"command":"x"}"#;
    assert_eq!(done(tool.resume(args, ran(b"a", b"b", Some(2)))).unwrap(), "ab\n[exit code: 2]");
    assert_eq!(done(tool.resume(args, ran(b"", b"", None))).unwrap(), "\n[exit code: -1]");
    assert_eq!(done(tool.resume(args, ran(b"\xff", b"", Some(0)))).unwrap(), "\u{fffd}");
    assert!(matches!(
        done(tool.resume(args, Outcome::StartFailed("no bash".into()))),
        Err(ToolError::Failed(e)) if e == "启动失败: no bash"
    ));
}

#[test]
fn long_output_is_cut() {
    let tool = Bash { max_bytes: 4 };
    let args = r#"{"command":"x"}"#;
    let out = done(tool.resume(args, ran(b"abcdef", b"gh", Some(1)))).unwrap();
    assert_eq!(out, "abcd\n... [截断, 还有 4 字节未显示]\n\n[exit code: 1]");
    let wide = done(tool.resume(args, ran("中文字".as_bytes(), b"", Some(0)))).unwrap();
    assert_eq!(wide, "中\n... [截断, 还有 6 字节未显示]\n");
    let exact = done(tool.resume(args, ran(b"abcd", b"", Some(0)))).unwrap();
    assert_eq!(exact, "abcd");
}

#[test]
fn bad_arguments_are_refused() {
    let bash = Bash { max_bytes: 1 };
    assert!(matches!(
        done(bash.execute("{}")),
        Err(ToolError::BadArgs(e)) if e == "missing field `command`"
    ));
    assert!(matches!(
        done(bash.execute(r#"{"command":"x","timeout_secs":"soon"}"#)),
        Err(ToolError::BadArgs(e)) if e == "invalid type for field `timeout_secs`"
    ));
    assert!(matches!(done(bash.execute("nope")), Err(ToolError::BadArgs(_))));
    assert!(matches!(done(ReadFile { max_bytes: 1 }.execute("{}")), Err(ToolError::BadArgs(_))));
    assert!(matches!(done(WriteFile.execute(r#"{"path":"x"}"#)), Err(ToolError::BadArgs(_))));
    assert_eq!(WriteFile.writes_path(r#"{"path":"x"}"#), None);
}

#[test]
fn reads_existing_file() {
    let tool = ReadFile { max_bytes: 1000 };
    let args = r#"{"path":"/tmp/f"}"#;
    assert!(matches!(tool.execute(args), Step::Do(Operation::Read { path }) if path == "/tmp/f"));
    let out = done(tool.resume(args, Outcome::Bytes(b"hello\n".to_vec()))).unwrap();
    assert!(out.contains("hello"));
}

#[test]
fn missing_file_returns_error() {
    let tool = ReadFile { max_bytes: 1000 };
    let args = r#"{"path":"/nonexistent/edocrs/probe"}"#;
    let res = done(tool.resume(args, Outcome::ReadFailed("not found".into())));
    assert!(res.is_err());
    assert!(matches!(
        res,
        Err(ToolError::Failed(e)) if e == "读文件失败 /nonexistent/edocrs/probe: not found"
    ));
}

#[test]
fn truncates_long_file() {
    let tool = ReadFile { max_bytes: 100 };
    let args = r#"{"path":"f"}"#;
    let bytes = "0123456789\n".repeat(1000).into_bytes();
    let out = done(tool.resume(args, Outcome::Bytes(bytes))).unwrap();
    assert!(out.contains("[截断"));
    assert!(out.contains("还有 10900 字节未显示"));
}

#[test]
fn binary_files_are_refused() {
    let tool = ReadFile { max_bytes: 100 };
    let args = r#"{"path":"f"}"#;
    assert!(matches!(
        done(tool.resume(args, Outcome::Bytes(vec![b'a', 0]))),
        Err(ToolError::Failed(e)) if e == "f 看起来是二进制, 拒绝读取"
    ));
    assert!(matches!(
        done(tool.resume(args, Outcome::Bytes(vec![0xff]))),
        Err(ToolError::Failed(e)) if e.starts_with("非 UTF-8: ")
    ));
    assert!(done(tool.resume(args, Outcome::Written)).is_err());
}

#[test]
fn writes_to_existing_dir() {
    let args = r#"{"path":"/tmp/hello.txt","content":"hi"}"#;
    let tool = WriteFile;
    assert_eq!(tool.writes_path(args).as_deref(), Some("/tmp/hello.txt"));
    assert!(matches!(tool.execute(args), Step::Do(Operation::FindParent { .. })));
    let parent = Outcome::Parent { dir: Some("/tmp".into()), exists: true };
    assert!(matches!(
        tool.resume(args, parent),
        Step::Do(Operation::Write { path, content }) if path == "/tmp/hello.txt" && content == "hi"
    ));
    let out = done(tool.resume(args, Outcome::Written)).unwrap();
    assert!(out.contains("wrote 2 bytes"));
    assert_eq!(out, "wrote 2 bytes to /tmp/hello.txt");
}

#[test]
fn fails_when_parent_missing() {
    let args = r#"{"path":"/nonexistent/edocrs/x.txt", "content":"hi"}"#;
    let parent = Outcome::Parent { dir: Some("/nonexistent/edocrs".into()), exists: false };
    let res = done(WriteFile.resume(args, parent));
    assert!(res.is_err());
    assert!(matches!(
        res,
        Err(ToolError::Failed(e)) if e == "父目录不存在: /nonexistent/edocrs"
    ));
}

#[test]
fn bare_names_need_no_directory() {
    let args = r#"{"path":"x.txt","content":"中"}"#;
    let bare = Outcome::Parent { dir: Some(String::new()), exists: false };
    assert!(matches!(WriteFile.resume(args, bare), Step::Do(Operation::Write { .. })));
    let root = Outcome::Parent { dir: None, exists: false };
    assert!(matches!(WriteFile.resume(args, root), Step::Do(Operation::Write { .. })));
    assert_eq!(done(WriteFile.resume(args, Outcome::Written)).unwrap(), "wrote 3 bytes to x.txt");
    assert!(matches!(
        done(WriteFile.resume(args, Outcome::WriteFailed("full".into()))),
        Err(ToolError::Failed(e)) if e == "写文件失败: full"
    ));
}

#[test]
fn builtin_tools_are_registered() {
    let r = builtin_tools(10);
    assert_eq!(r.tools.len(), 3);
    assert!(!r.get("read_file").unwrap().requires_permission());
    assert!(r.get("write_file").unwrap().requires_permission());
    assert!(r.get("bash").unwrap().requires_permission());
    assert!(r.get("rm").is_none());
    let text = r.get("bash").unwrap().schema().to_text().unwrap();
    assert_eq!(
        text,
        r#"{"type":"function","function":{"name":"bash","description":"用 bash -c 执行命令. stdout 与 stderr 合并返回. 默认 30s 超时.","parameters":{"type":"object","properties":{"command":{"type":"string"},"timeout_secs":{"type":"integer","default":30}},"required":["command"]}}}"#
    );
    let read = r.get("read_file").unwrap().schema().to_text().unwrap();
    assert!(read.contains(r#""required":["path"]"#));
    let write = r.get("write_file").unwrap().schema().to_text().unwrap();
    assert!(write.contains(r#""required":["path","content"]"#));
}

#[test]
fn later_tool_takes_the_place_of_the_earlier() {
    let mut r: Registry<BuiltinTool> = Registry::default();
    r.register(BuiltinTool::Bash(Bash { max_bytes: 1 }));
    r.register(BuiltinTool::Bash(Bash { max_bytes: 2 }));
    assert_eq!(r.tools.len(), 1);
    assert!(matches!(r.get("bash"), Some(BuiltinTool::Bash(Bash { max_bytes: 2 }))));
}

#[test]
fn arguments_may_stand_in_an_array() {
    let run = Bash { max_bytes: 100 };
    assert!(matches!(
        run.execute(r#"["ls"]"#),
        Step::Do(Operation::Run { command, timeout_secs: 30 }) if command == "ls"
    ));
    assert!(matches!(
        run.execute(r#"["ls",5]"#),
        Step::Do(Operation::Run { timeout_secs: 5, .. })
    ));
    for bad in ["[]", r#"["ls",5,6]"#, r#"["ls","5"]"#, "[5]"] {
        assert!(matches!(run.execute(bad), Step::Done(Err(ToolError::BadArgs(_)))));
    }
    assert_eq!(WriteFile.writes_path(r#"["p","c"]"#).as_deref(), Some("p"));
    assert_eq!(WriteFile.writes_path(r#"["p"]"#), None);
    let read = ReadFile { max_bytes: 100 };
    assert!(matches!(
        read.execute(r#"["p"]"#),
        Step::Do(Operation::Read { path }) if path == "p"
    ));
}
