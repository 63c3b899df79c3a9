//! What the user types, and what is shown.
use edocrs::event::SessionEvent;
use edocrs::json::Json;
use edocrs::repl::{
    classify, clear_answer, dispatch_slash, first_user_message_summary, fork_answer, help, recent,
    rewind_answer, rewind_usage, save_answer, save_failure, save_plan, session_row, tool_texts,
    unknown_answer, AnswerLine, Entered, Input, Read, SavePlan, Slash,
};
use edocrs::session_actor::TurnOutcome;
use edocrs::stamp::SessionId;
use edocrs::ui;

fn id() -> SessionId {
    SessionId { value: 0x0123_4567_89ab_4def_8123_4567_89ab_cdef }
}

const ID: &str = "01234567-89ab-4def-8123-456789abcdef";

fn line(a: AnswerLine) -> String {
    match a {
        AnswerLine::Line(s) => s,
        AnswerLine::Error(s) => panic!("error: {s}"),
    }
}

fn error(a: AnswerLine) -> String {
    match a {
        AnswerLine::Error(s) => s,
        AnswerLine::Line(s) => panic!("line: {s}"),
    }
}

fn plain(line: &Vec<ui::Span>) -> String {
    line.iter().map(|s| s.text.clone()).collect()
}

#[test]
fn banner_does_not_panic() {
    let lines = ui::banner("0.1.0", "deepseek-v4-flash", "abc12345-aaaa-bbbb-cccc-dddddddddddd");
    assert_eq!(
        plain(&lines[0]),
        "edoCRS v0.1.0  ·  model: deepseek-v4-flash  ·  session: abc12345"
    );
    assert_eq!(lines[0][0].tone, ui::Tone::Title);
    assert_eq!(plain(&lines[1]), "输入 /help 看命令, Ctrl+D 退出.");
}

#[test]
fn commands_are_recognised() {
    assert!(matches!(dispatch_slash("/help"), Slash::Help));
    assert!(matches!(dispatch_slash(" /exit "), Slash::Exit));
    assert!(matches!(dispatch_slash("/quit now"), Slash::Exit));
    assert!(matches!(dispatch_slash("/clear"), Slash::Clear));
    assert!(matches!(dispatch_slash("/rewind  7 "), Slash::Rewind(Some(7))));
    assert!(matches!(dispatch_slash("/rewind +7"), Slash::Rewind(Some(7))));
    assert!(matches!(dispatch_slash("/rewind"), Slash::Rewind(None)));
    assert!(matches!(dispatch_slash("/rewind -1"), Slash::Rewind(None)));
    assert!(matches!(dispatch_slash("/rewind 4294967296"), Slash::Rewind(None)));
    assert!(matches!(dispatch_slash("/fork"), Slash::Fork));
    assert!(matches!(dispatch_slash("/save my name"), Slash::Save(n) if n == "my name"));
    assert!(matches!(dispatch_slash("/sessions"), Slash::Sessions));
    assert!(matches!(dispatch_slash("/tools"), Slash::Tools));
    assert!(matches!(dispatch_slash("/nope x"), Slash::Unknown(c) if c == "/nope"));
}

#[test]
fn entries_are_told_apart() {
    assert!(matches!(classify(Read::Line(" \t".into())), Entered::Nothing));
    assert!(matches!(classify(Read::Line("/help".into())), Entered::Slash(Slash::Help)));
    assert!(matches!(classify(Read::Line(" /help".into())), Entered::Message(s) if s == " /help"));
    assert!(matches!(classify(Read::Interrupted), Entered::NewLine));
    assert!(matches!(classify(Read::Eof), Entered::Quit));
    assert!(matches!(classify(Read::Failed("e".into())), Entered::Broken(m) if m == "readline: e"));
}

#[test]
fn lines_go_on_after_a_backslash() {
    let mut i = Input::new();
    assert!(!i.goes_on());
    assert_eq!(i.take_line("one"), Some("one".into()));
    assert_eq!(i.take_line("a\\"), None);
    assert!(i.goes_on());
    assert_eq!(i.take_line("b\\"), None);
    assert_eq!(i.take_line("c"), Some("a\nb\nc".into()));
    assert!(!i.goes_on());
    assert_eq!(i.take_line("x\\"), None);
    assert_eq!(i.take_line(""), Some("x\n".into()));
}

#[test]
fn commands_answer() {
    assert_eq!(help().len(), 9);
    assert_eq!(help()[0], "可用命令:");
    assert_eq!(line(clear_answer(Some(id()))), format!("已开新会话: {ID}"));
    assert_eq!(error(clear_answer(None)), "清空失败: 会话 actor 无响应");
    assert_eq!(line(rewind_answer(3, Ok(()))), "已回滚到回合 3 (文件与历史一起回退)");
    assert_eq!(error(rewind_answer(3, Err("x".into()))), "回滚失败: x");
    assert_eq!(error(rewind_usage()), "用法: /rewind <回合号, 非负整数>");
    assert_eq!(line(fork_answer(Some(id()))), format!("已分叉出新会话: {ID}"));
    assert_eq!(error(fork_answer(None)), "分叉失败: 会话 actor 无响应");
    assert_eq!(error(unknown_answer("/x")), "未知命令 /x, 试 /help");
}

#[test]
fn saving_links_the_session() {
    assert!(matches!(save_plan("/d", Some(id()), ""), SavePlan::Refuse(e) if e == "用法: /save <name>"));
    assert!(matches!(save_plan("/d", None, "n"), SavePlan::Refuse(e) if e == "保存失败: 会话 actor 无响应"));
    match save_plan("/d", Some(id()), "n") {
        SavePlan::Link { target, link } => {
            assert_eq!(target, format!("/d/{ID}"));
            assert_eq!(link, "/d/n");
        }
        SavePlan::Refuse(e) => panic!("{e}"),
    }
    assert_eq!(error(save_answer("n", true)), "已存在 n, 拒绝覆盖");
    assert_eq!(line(save_answer("n", false)), "已保存别名: n");
    assert_eq!(save_failure("denied").message(), "配置错误: symlink 失败: denied");
}

#[test]
fn recent_sessions_come_first() {
    assert_eq!(recent(&vec![Some(1), None, Some(3), Some(2), Some(3)]), vec![2, 4, 3, 0, 1]);
    let many: Vec<Option<i128>> = (0..25).map(Some).collect();
    let expected: Vec<usize> = (15..25).rev().collect();
    assert_eq!(recent(&many), expected);
    assert!(recent(&vec![]).is_empty());
}

#[test]
fn sessions_are_summarised() {
    let long = "字".repeat(40);
    let log = format!(
        "garbage\n{{\"kind\":\"meta\"}}\n{{\"kind\":\"user_message\",\"prompt_index\":1,\"content\":\"{long}\"}}\n"
    );
    assert_eq!(first_user_message_summary(&log), Some("字".repeat(30)));
    assert_eq!(first_user_message_summary("{\"kind\":\"meta\"}"), None);
    let broken = "{\"kind\":\"user_message\"}\n{\"kind\":\"user_message\",\"content\":\"x\"}";
    assert_eq!(first_user_message_summary(broken), None);
    assert_eq!(session_row("abc", Some("hi".into())), "  abc  hi");
    assert_eq!(session_row("abc", None), "  abc  ");
}

#[test]
fn tools_are_shown_indented() {
    let j = Json::parse("{\"a\":[1]}").unwrap();
    assert_eq!(tool_texts(&vec![j]), vec!["{\n  \"a\": [\n    1\n  ]\n}".to_string()]);
    let j = Json::parse("{\"a\":-1.5}").unwrap();
    assert_eq!(tool_texts(&vec![j]), vec!["{\n  \"a\": -1.5\n}".to_string()]);
}

#[test]
fn tool_lines_are_shown() {
    assert_eq!(plain(&ui::show_tool_call("bash", "{}")), "⚙ [bash]  args: {}");
    let short = ui::show_tool_result("a\nb\n");
    assert_eq!(short.len(), 2);
    assert_eq!(plain(&short[1]), "  b");
    let long = ui::show_tool_result(&"x\n".repeat(13));
    assert_eq!(long.len(), 11);
    assert_eq!(plain(&long[10]), "  ... (3 more lines)");
    assert_eq!(long[10][1].tone, ui::Tone::Faint);
    assert_eq!(ui::show_tool_result(&"x\n".repeat(10)).len(), 10);
    assert_eq!(plain(&ui::show_error("no")), "✗ no");
    assert_eq!(ui::prompt().text, "▶ ");
}

#[test]
fn permission_is_asked_for() {
    let q = ui::show_permission_question("bash", "ls");
    assert_eq!(plain(&q[0]), "? [tool_call] bash");
    assert_eq!(plain(&q[1]), "  args: ls");
    assert_eq!(plain(&q[2]), "? 允许执行? [y]es / [n]o / [a]llow-all-bash: ");
}

#[test]
fn events_are_rendered() {
    let text = ui::render_event(SessionEvent::StreamText("hi".into()));
    assert!(matches!(text, ui::Shown::Stream(s) if s == "hi"));
    let thought = ui::render_event(SessionEvent::ReasoningDelta("hm".into()));
    assert!(matches!(thought, ui::Shown::Nothing));
    assert!(matches!(ui::render_event(SessionEvent::StreamEnd), ui::Shown::NewLine));
    let started = SessionEvent::ToolStarted { name: "bash".into(), args_preview: "{}".into() };
    assert!(matches!(ui::render_event(started), ui::Shown::Lines(l) if plain(&l[0]) == "⚙ [bash]  args: {}"));
    let finished = SessionEvent::ToolFinished { name: "bash".into(), result: "a\nb".into() };
    assert!(matches!(ui::render_event(finished), ui::Shown::Lines(l) if l.len() == 2));
    let ask = SessionEvent::PermissionRequest { name: "bash".into(), args_preview: "{}".into() };
    assert!(matches!(ui::render_event(ask), ui::Shown::Question(l) if l.len() == 3));
    assert_eq!(ui::turn_report(Some(TurnOutcome::Failed("why".into()))), Some("why".into()));
    assert_eq!(ui::turn_report(Some(TurnOutcome::Completed)), None);
    assert_eq!(ui::turn_report(Some(TurnOutcome::Cancelled)), None);
    assert_eq!(ui::turn_report(None), None);
}
