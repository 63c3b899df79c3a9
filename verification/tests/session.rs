//! Sessions, their logs and their checkpoints.
use edocrs::api::{FunctionCall, Message, ToolCall};
use edocrs::config::Model;
use edocrs::errors::SessionError;
use edocrs::session::checkpoint::{
    restore_files, Checkpoint, FileRestore, FileSnapshot, Found, HunkPatch, HunkTracker,
};
use edocrs::session::log::{append, read_all, replay, UpdateRecord};
use edocrs::session::{LogEntry, Session};
use edocrs::session_actor::{
    replace, rewind_begin, rewind_next, start_over, RewindAction, RewindEvent,
};
use edocrs::stamp::{SessionId, Timestamp};
use std::collections::HashMap;

type Files = HashMap<String, String>;

fn meta() -> UpdateRecord {
    UpdateRecord::Meta {
        id: SessionId::fresh(),
        created_at: Timestamp::now(),
        model: Model::deepseek_v4_flash(),
    }
}

fn begin() -> (Session, String) {
    let s = Session::new(Model::deepseek_v4_flash(), "/sessions");
    let log = append(&s.meta_record()).unwrap();
    (s, log)
}

fn say(s: &mut Session, log: &mut String, text: &str) {
    log.push_str(&append(&s.user_record(text)).unwrap());
    s.push_user(text.into(), Ok(())).unwrap();
}

fn hear(s: &mut Session, log: &mut String, text: &str) {
    let content = Some(text.to_string());
    log.push_str(&append(&Session::assistant_record(&content, &None, &vec![])).unwrap());
    s.push_assistant(content, None, vec![], Ok(())).unwrap();
}

fn look(files: &Files, path: &str) -> Found {
    Found::of(files.contains_key(path), files.get(path).map(|s| s.clone().into_bytes()))
}

fn apply(files: &mut Files, step: &FileRestore) {
    match step {
        FileRestore::Write { path, content } => {
            files.insert(path.clone(), content.clone());
        }
        FileRestore::Remove { path } => {
            files.remove(path);
        }
        FileRestore::Keep { .. } => {}
    }
}

fn rewind(s: &mut Session, log: &mut String, files: &mut Files, to: u32) -> Result<(), SessionError> {
    let (mut phase, mut action) = rewind_begin(s, to);
    loop {
        let event = match action {
            RewindAction::Restore(step) => {
                apply(files, &step);
                RewindEvent::Restored(Ok(()))
            }
            RewindAction::Store(r) => {
                log.push_str(&append(&r).unwrap());
                RewindEvent::Stored(Ok(()))
            }
            RewindAction::ReadLog => RewindEvent::Log(Ok(log.clone())),
            RewindAction::Finish(r) => return r,
        };
        let next = rewind_next(s, phase, event);
        phase = next.0;
        action = next.1;
    }
}

#[test]
fn append_then_replay_roundtrip() {
    let mut log = append(&meta()).unwrap();
    log.push_str(
        &append(&UpdateRecord::UserMessage { prompt_index: 1, content: "hi".into() }).unwrap(),
    );
    log.push_str(
        &append(&UpdateRecord::AssistantMessage {
            content: Some("hello".into()),
            reasoning_content: None,
            tool_calls: vec![],
        })
        .unwrap(),
    );
    let recs = read_all(&log).unwrap();
    let state = replay(&recs).unwrap();
    assert_eq!(state.messages.len(), 2);
    assert_eq!(state.prompt_index, 1);
    assert!(matches!(&state.messages[0], Message::User { content } if content == "hi"));
}

#[test]
fn rewind_truncates_later_turns() {
    let mut log = append(&meta()).unwrap();
    for pi in 1..=3 {
        log.push_str(
            &append(&UpdateRecord::UserMessage {
                prompt_index: pi,
                content: format!("turn {pi}"),
            })
            .unwrap(),
        );
        log.push_str(
            &append(&UpdateRecord::AssistantMessage {
                content: Some(format!("reply {pi}")),
                reasoning_content: None,
                tool_calls: vec![],
            })
            .unwrap(),
        );
    }
    log.push_str(&append(&UpdateRecord::Rewind { to_prompt_index: 1 }).unwrap());
    let state = replay(&read_all(&log).unwrap()).unwrap();
    assert_eq!(state.messages.len(), 2);
    assert_eq!(state.prompt_index, 1);
}

#[test]
fn missing_meta_errors() {
    let recs = vec![UpdateRecord::UserMessage { prompt_index: 1, content: "x".into() }];
    assert!(matches!(replay(&recs), Err(SessionError::Replay(_))));
}

#[test]
fn new_then_load_roundtrip() {
    let (s, log) = begin();
    let back = Session::load("/sessions", &s.id.to_text(), Some(&log)).unwrap();
    assert_eq!(back.id, s.id);
    assert!(back.model == Model::deepseek_v4_flash());
    assert!(back.messages.is_empty());
    assert_eq!(back.created_at, s.created_at);
    assert_eq!(back.log_path, s.log_path);
}

#[test]
fn push_then_reload_preserves_messages() {
    let (mut s, mut log) = begin();
    say(&mut s, &mut log, "hi");
    hear(&mut s, &mut log, "hello");
    let back = Session::load("/sessions", &s.id.to_text(), Some(&log)).unwrap();
    assert_eq!(back.messages.len(), 2);
    assert_eq!(back.prompt_index, 1);
    assert!(matches!(&back.messages[0], Message::User { content } if content == "hi"));
}

#[test]
fn load_missing_returns_not_found() {
    let res = Session::load("/sessions", &SessionId::fresh().to_text(), None);
    assert!(matches!(res, Err(SessionError::NotFound(_))));
    let bad = Session::load("/sessions", "no-id", Some(""));
    assert!(matches!(bad, Err(SessionError::NotFound(id)) if id == "no-id"));
}

#[test]
fn prompt_index_counts_turns() {
    let (mut s, mut log) = begin();
    say(&mut s, &mut log, "t1");
    hear(&mut s, &mut log, "r1");
    say(&mut s, &mut log, "t2");
    hear(&mut s, &mut log, "r2");
    assert_eq!(s.prompt_index, 2);
    let back = Session::load("/sessions", &s.id.to_text(), Some(&log)).unwrap();
    assert_eq!(back.prompt_index, 2);
    assert_eq!(back.messages.len(), 4);
}

#[test]
fn rewind_restores_files_and_truncates() {
    let mut files = Files::new();
    files.insert("work.txt".into(), "v1\n".into());
    let (mut s, mut log) = begin();
    say(&mut s, &mut log, "改文件");
    let mut ht = HunkTracker::new();
    ht.on_before_write("work.txt", look(&files, "work.txt"));
    files.insert("work.txt".into(), "v2\n".into());
    let cp = ht.seal(1, None, &vec![files.get("work.txt").cloned()]);
    log.push_str(&append(&UpdateRecord::Checkpoint(cp.clone())).unwrap());
    s.push_checkpoint(cp, Ok(())).unwrap();
    hear(&mut s, &mut log, "改好了");
    say(&mut s, &mut log, "再改");

    rewind(&mut s, &mut log, &mut files, 0).unwrap();
    assert_eq!(files["work.txt"], "v1\n", "文件应还原");
    assert!(s.messages.is_empty(), "messages 应截断到回合 0");
    assert_eq!(s.prompt_index, 0);
}

#[test]
fn fork_copies_history_with_new_id() {
    let (mut s, mut log) = begin();
    say(&mut s, &mut log, "hi");
    hear(&mut s, &mut log, "hello");
    let (id, records) = Session::fork(&log).unwrap();
    let mut copy = String::new();
    for r in &records {
        copy.push_str(&append(r).unwrap());
    }
    let forked = Session::load("/sessions", &id.to_text(), Some(&copy)).unwrap();
    assert_ne!(forked.id, s.id);
    assert_eq!(forked.id, id);
    assert_eq!(forked.messages.len(), 2);
    assert!(matches!(&forked.messages[0], Message::User { content } if content == "hi"));
}

#[test]
fn most_recent_id_picks_latest_mtime() {
    let s1 = Session::new(Model::deepseek_v4_flash(), "/sessions");
    let s2 = Session::new(Model::deepseek_v4_flash(), "/sessions");
    let entries = vec![
        LogEntry { id: s1.id.to_text(), modified: 1_000 },
        LogEntry { id: s2.id.to_text(), modified: 2_100 },
    ];
    let id = Session::most_recent_id(&entries).unwrap();
    assert_eq!(id, s2.id.to_text());
    assert_ne!(id, s1.id.to_text());
    assert!(Session::most_recent_id(&vec![]).is_none());
    let tie = vec![
        LogEntry { id: "a".into(), modified: 5 },
        LogEntry { id: "b".into(), modified: 5 },
    ];
    assert_eq!(Session::most_recent_id(&tie).unwrap(), "a");
}

#[test]
fn seal_captures_before_and_diff() {
    let mut ht = HunkTracker::new();
    ht.on_before_write("a.txt", Found::Text("line1\n".into()));
    let cp = ht.seal(1, None, &vec![Some("line1\nline2\n".into())]);
    assert_eq!(cp.file_snapshots.len(), 1);
    assert_eq!(cp.file_snapshots[0].before.as_deref(), Some("line1\n"));
    assert_eq!(cp.hunks.len(), 1);
    assert!(cp.hunks[0].unified_diff.contains("line2"));
}

#[test]
fn diff_is_the_unified_one() {
    let mut ht = HunkTracker::new();
    ht.on_before_write("a.txt", Found::Text("line1\n".into()));
    let cp = ht.seal(1, Some("abc".into()), &vec![Some("line1\nline2\n".into())]);
    assert_eq!(cp.hunks[0].unified_diff, "--- a/a.txt\n+++ b/a.txt\n@@ -1 +1,2 @@\n line1\n+line2\n");
    assert_eq!(cp.git_head.as_deref(), Some("abc"));
    assert!(!ht.has_pending());
}

#[test]
fn unchanged_files_have_no_diff() {
    let mut ht = HunkTracker::new();
    ht.on_before_write("a", Found::Text("x".into()));
    ht.on_before_write("b", Found::Absent);
    assert!(ht.has_pending());
    assert_eq!(ht.pending_paths(), vec!["a".to_string(), "b".to_string()]);
    let cp = ht.seal(3, None, &vec![Some("x".into()), None]);
    assert_eq!(cp.prompt_index, 3);
    assert_eq!(cp.file_snapshots.len(), 2);
    assert!(cp.hunks.is_empty());
}

#[test]
fn restore_reverts_file_content() {
    let mut files = Files::new();
    files.insert("a.txt".into(), "orig\n".into());
    let mut ht = HunkTracker::new();
    ht.on_before_write("a.txt", look(&files, "a.txt"));
    files.insert("a.txt".into(), "changed\n".into());
    let cp = ht.seal(1, None, &vec![files.get("a.txt").cloned()]);
    for step in restore_files(&vec![cp]) {
        apply(&mut files, &step);
    }
    assert_eq!(files["a.txt"], "orig\n");
}

#[test]
fn restore_deletes_newly_created_file() {
    let mut files = Files::new();
    let mut ht = HunkTracker::new();
    ht.on_before_write("new.txt", look(&files, "new.txt"));
    files.insert("new.txt".into(), "created by tool\n".into());
    let cp = ht.seal(1, None, &vec![files.get("new.txt").cloned()]);
    assert_eq!(cp.file_snapshots[0].before, None);
    for step in restore_files(&vec![cp]) {
        apply(&mut files, &step);
    }
    assert!(!files.contains_key("new.txt"), "回滚应删除工具新建的文件");
}

#[test]
fn on_before_write_is_idempotent_per_turn() {
    let mut ht = HunkTracker::new();
    assert!(ht.needs_snapshot("a.txt"));
    ht.on_before_write("a.txt", Found::Text("v0\n".into()));
    assert!(!ht.needs_snapshot("a.txt"));
    ht.on_before_write("a.txt", Found::Text("v1\n".into()));
    let cp = ht.seal(1, None, &vec![Some("v2\n".into())]);
    assert_eq!(cp.file_snapshots.len(), 1);
    assert_eq!(cp.file_snapshots[0].before.as_deref(), Some("v0\n"));
}

#[test]
fn restoring_several_turns_gives_the_first_state() {
    let cp = |n: u32, before: &str| Checkpoint {
        prompt_index: n,
        file_snapshots: vec![FileSnapshot { path: "f".into(), before: Some(before.into()), opaque: false }],
        hunks: vec![],
        git_head: None,
    };
    let mut files = Files::new();
    files.insert("f".into(), "v3".into());
    for step in restore_files(&vec![cp(1, "v1"), cp(2, "v2")]) {
        apply(&mut files, &step);
    }
    assert_eq!(files["f"], "v1");
}

#[test]
fn every_record_is_read_back() {
    let records = vec![
        meta(),
        UpdateRecord::UserMessage { prompt_index: 1, content: "一\n\"二\"".into() },
        UpdateRecord::AssistantMessage {
            content: None,
            reasoning_content: Some("想".into()),
            tool_calls: vec![ToolCall {
                id: "c".into(),
                kind: "function".into(),
                function: FunctionCall { name: "bash".into(), arguments: "{}".into() },
            }],
        },
        UpdateRecord::ToolResult { tool_call_id: "c".into(), content: "out".into() },
        UpdateRecord::Checkpoint(Checkpoint {
            prompt_index: 1,
            file_snapshots: vec![
                FileSnapshot { path: "p".into(), before: None, opaque: false },
                FileSnapshot { path: "q".into(), before: Some("t".into()), opaque: false },
                FileSnapshot { path: "r".into(), before: None, opaque: true },
            ],
            hunks: vec![HunkPatch { path: "p".into(), unified_diff: "d".into() }],
            git_head: Some("h".into()),
        }),
        UpdateRecord::Rewind { to_prompt_index: 7 },
    ];
    let mut log = String::new();
    for r in &records {
        log.push_str(&append(r).unwrap());
    }
    let back = read_all(&log).unwrap();
    assert_eq!(format!("{back:?}"), format!("{records:?}"));
}

#[test]
fn records_have_their_form() {
    let user = UpdateRecord::UserMessage { prompt_index: 2, content: "hi".into() };
    assert_eq!(
        append(&user).unwrap(),
        "{\"kind\":\"user_message\",\"prompt_index\":2,\"content\":\"hi\"}\n"
    );
    let answer = UpdateRecord::AssistantMessage {
        content: None,
        reasoning_content: None,
        tool_calls: vec![],
    };
    assert_eq!(
        append(&answer).unwrap(),
        "{\"kind\":\"assistant_message\",\"content\":null,\"reasoning_content\":null,\"tool_calls\":[]}\n"
    );
    let head = UpdateRecord::Meta {
        id: SessionId { value: 0x0123_4567_89ab_4def_8123_4567_89ab_cdef },
        created_at: Timestamp { secs: 0, nanos: 500_000_000 },
        model: Model::deepseek_v4_pro(),
    };
    assert_eq!(
        append(&head).unwrap(),
        "{\"kind\":\"meta\",\"id\":\"01234567-89ab-4def-8123-456789abcdef\",\"created_at\":\"1970-01-01T00:00:00.500Z\",\"model\":\"deepseek-v4-pro\"}\n"
    );
}

#[test]
fn time_beyond_the_calendar_is_not_stored() {
    let head = UpdateRecord::Meta {
        id: SessionId::fresh(),
        created_at: Timestamp { secs: i64::MAX, nanos: 0 },
        model: Model::default(),
    };
    assert!(matches!(append(&head), Err(SessionError::BadJson(_))));
}

#[test]
fn broken_lines_are_named() {
    let mut log = append(&meta()).unwrap();
    log.push_str("\n   \n{\"kind\":\"nonsense\"}\n");
    assert!(matches!(
        read_all(&log),
        Err(SessionError::Replay(e)) if e == "第 4 行损坏: unknown variant `nonsense`"
    ));
    assert!(matches!(
        read_all("{\"kind\":\"rewind\"}"),
        Err(SessionError::Replay(e)) if e == "第 1 行损坏: missing field `to_prompt_index`"
    ));
    assert!(matches!(
        read_all("{\"kind\":\"user_message\",\"prompt_index\":-1,\"content\":\"\"}"),
        Err(SessionError::Replay(e)) if e == "第 1 行损坏: invalid type for field `prompt_index`"
    ));
    assert!(matches!(read_all("not json"), Err(SessionError::Replay(e)) if e.starts_with("第 1 行损坏: ")));
    let bad_model = "{\"kind\":\"meta\",\"id\":\"01234567-89ab-4def-8123-456789abcdef\",\"created_at\":\"1970-01-01T00:00:00Z\",\"model\":\"gpt-4\"}";
    assert!(matches!(read_all(bad_model), Err(SessionError::Replay(e)) if e.contains("非法 model")));
    let bad_id = "{\"kind\":\"meta\",\"id\":\"x\"}";
    assert!(matches!(read_all(bad_id), Err(SessionError::Replay(e)) if e.contains("invalid UUID")));
    let bad_time = "{\"kind\":\"meta\",\"id\":\"01234567-89ab-4def-8123-456789abcdef\",\"created_at\":\"soon\"}";
    assert!(matches!(read_all(bad_time), Err(SessionError::Replay(e)) if e.contains("invalid time")));
}

#[test]
fn several_rewinds_keep_the_lowest() {
    let mut recs = vec![meta()];
    for pi in 1..=4 {
        recs.push(UpdateRecord::UserMessage { prompt_index: pi, content: "x".into() });
    }
    recs.push(UpdateRecord::Rewind { to_prompt_index: 2 });
    recs.push(UpdateRecord::Rewind { to_prompt_index: 3 });
    let state = replay(&recs).unwrap();
    assert_eq!(state.messages.len(), 2);
    assert_eq!(state.prompt_index, 2);
}

#[test]
fn unstored_messages_are_not_taken_over() {
    let (mut s, _) = begin();
    let e = || Err(SessionError::Io("disk full".into()));
    assert!(s.push_user("x".into(), e()).is_err());
    assert_eq!(s.prompt_index, 0);
    assert!(s.push_assistant(None, None, vec![], e()).is_err());
    assert!(s.push_tool_result("c".into(), "r".into(), e()).is_err());
    assert!(s.messages.is_empty());
}

#[test]
fn failed_restore_ends_a_rewind_unless_it_removes() {
    let (mut s, _) = begin();
    let cp = Checkpoint {
        prompt_index: 1,
        file_snapshots: vec![
            FileSnapshot { path: "gone".into(), before: None, opaque: false },
            FileSnapshot { path: "f".into(), before: Some("old".into()), opaque: false },
        ],
        hunks: vec![],
        git_head: None,
    };
    s.push_checkpoint(cp, Ok(())).unwrap();
    let io = || Err(SessionError::Io("denied".into()));
    let (phase, action) = rewind_begin(&s, 0);
    assert!(matches!(action, RewindAction::Restore(FileRestore::Remove { .. })));
    let (phase, action) = rewind_next(&mut s, phase, RewindEvent::Restored(io()));
    assert!(matches!(&action, RewindAction::Restore(FileRestore::Write { path, .. }) if path == "f"));
    let (_, action) = rewind_next(&mut s, phase, RewindEvent::Restored(io()));
    assert!(matches!(action, RewindAction::Finish(Err(SessionError::Io(_)))));
    assert_eq!(s.checkpoints.len(), 1);
}

#[test]
fn rewind_skips_what_it_keeps() {
    let (s, _) = begin();
    let (_, action) = rewind_begin(&s, 3);
    assert!(matches!(action, RewindAction::Store(UpdateRecord::Rewind { to_prompt_index: 3 })));
}

#[test]
fn logs_are_kept_by_id() {
    let s = Session::new(Model::default(), "/d");
    assert_eq!(s.log_path, format!("/d/{}/updates.jsonl", s.id.to_text()));
    assert_eq!(Session::locate("/d", &s.id.to_text()).unwrap(), s.log_path);
    assert!(Session::locate("/d", "x").is_none());
}

#[test]
fn a_new_session_takes_the_place_of_the_old() {
    let (mut s, _) = begin();
    let old = s.id;
    let fresh = start_over(&s, "/d");
    let id = fresh.id;
    assert!(fresh.messages.is_empty());
    let spare = start_over(&s, "/d");
    assert_eq!(replace(&mut s, spare, Err(SessionError::Io("x".into()))), None);
    assert_eq!(s.id, old);
    assert_eq!(replace(&mut s, fresh, Ok(())), Some(id));
    assert_ne!(s.id, old);
}

#[test]
fn files_are_told_apart() {
    assert!(matches!(Found::of(false, None), Found::Absent));
    assert!(matches!(Found::of(true, None), Found::Opaque));
    assert!(matches!(Found::of(true, Some(vec![0xff, 0xfe])), Found::Opaque));
    assert!(matches!(Found::of(true, Some(b"a".to_vec())), Found::Text(s) if s == "a"));
}

#[test]
fn restoring_keeps_a_file_that_was_not_text() {
    let mut ht = HunkTracker::new();
    ht.on_before_write("p", Found::of(true, Some(vec![0xff])));
    let cp = ht.seal(1, None, &vec![Some("new\n".into())]);
    assert_eq!(cp.file_snapshots[0].before, None);
    assert!(cp.file_snapshots[0].opaque);
    let line = append(&UpdateRecord::Checkpoint(cp.clone())).unwrap();
    assert!(line.contains("{\"path\":\"p\",\"before\":null,\"opaque\":true}"));
    let mut files = Files::new();
    files.insert("p".into(), "new\n".into());
    for step in restore_files(&vec![cp]) {
        assert!(matches!(&step, FileRestore::Keep { path } if path == "p"));
        apply(&mut files, &step);
    }
    assert!(files.contains_key("p"));
}

#[test]
fn times_outside_four_digit_years_are_read_back() {
    let times = [(253_402_300_800, 0), (-62_167_219_201, 999_999_999), (59, 1_500_000_000), (7, 1)];
    for (secs, nanos) in times {
        let created_at = Timestamp { secs, nanos };
        let text = created_at.to_text().unwrap();
        assert_eq!(Timestamp::parse(&text), Some(created_at));
        let head = UpdateRecord::Meta {
            id: SessionId::fresh(),
            created_at,
            model: Model::default(),
        };
        let back = read_all(&append(&head).unwrap()).unwrap();
        assert_eq!(format!("{back:?}"), format!("{:?}", vec![head]));
    }
    let late = Timestamp { secs: 253_402_300_800, nanos: 0 };
    assert_eq!(late.to_text().unwrap(), "+10000-01-01T00:00:00Z");
}

#[test]
fn arrays_may_stand_for_records() {
    let recs = read_all(
        "[\"meta\",\"01234567-89ab-4def-8123-456789abcdef\",\"1970-01-01T00:00:00Z\",\"deepseek-v4-pro\"]\n\
         [\"user_message\",1,\"hi\"]\n\
         [\"checkpoint\",1,[[\"p\",\"old\"]],[[\"p\",\"d\"]],null]\n\
         [\"rewind\",4]\n",
    )
    .unwrap();
    assert!(matches!(&recs[0], UpdateRecord::Meta { model, .. } if *model == Model::deepseek_v4_pro()));
    assert!(matches!(&recs[1], UpdateRecord::UserMessage { prompt_index: 1, content } if content == "hi"));
    assert!(matches!(
        &recs[2],
        UpdateRecord::Checkpoint(cp) if cp.file_snapshots[0].before.as_deref() == Some("old")
            && cp.hunks[0].unified_diff == "d" && cp.git_head.is_none()
    ));
    assert!(matches!(&recs[3], UpdateRecord::Rewind { to_prompt_index: 4 }));
    for bad in ["[]", "[\"rewind\"]", "[\"rewind\",1,2]", "[3]", "[\"nothing\"]"] {
        assert!(matches!(read_all(bad), Err(SessionError::Replay(_))));
    }
}

#[test]
fn a_copy_and_its_original_stay_independent() {
    let (mut s, mut log) = begin();
    say(&mut s, &mut log, "hi");
    let (id, records) = Session::fork(&log).unwrap();
    let path = Session::log_path_for("/sessions", &id);
    assert_ne!(path, s.log_path);
    let mut disk = HashMap::new();
    disk.insert(s.log_path.clone(), log);
    for r in &records {
        disk.entry(path.clone()).or_insert_with(String::new).push_str(&append(r).unwrap());
    }
    let mut copy = Session::load("/sessions", &id.to_text(), disk.get(&path).map(|t| t.as_str())).unwrap();
    let line = append(&copy.user_record("only here")).unwrap();
    disk.get_mut(&copy.log_path).unwrap().push_str(&line);
    copy.push_user("only here".into(), Ok(())).unwrap();
    let back = Session::load("/sessions", &s.id.to_text(), disk.get(&s.log_path).map(|t| t.as_str())).unwrap();
    assert_eq!(back.messages.len(), 1);
    let again = Session::load("/sessions", &id.to_text(), disk.get(&path).map(|t| t.as_str())).unwrap();
    assert_eq!(again.messages.len(), 2);
}

#[test]
fn turns_after_a_rewind_are_kept() {
    let mut files = Files::new();
    let (mut s, mut log) = begin();
    say(&mut s, &mut log, "a");
    rewind(&mut s, &mut log, &mut files, 0).unwrap();
    say(&mut s, &mut log, "b");
    assert_eq!(s.prompt_index, 1);
    let back = Session::load("/sessions", &s.id.to_text(), Some(&log)).unwrap();
    assert_eq!(back.prompt_index, 1);
    assert_eq!(back.messages.len(), 1);
    assert!(matches!(&back.messages[0], Message::User { content } if content == "b"));
    assert_eq!(format!("{:?}", back.messages), format!("{:?}", s.messages));

    hear(&mut s, &mut log, "c");
    say(&mut s, &mut log, "d");
    rewind(&mut s, &mut log, &mut files, 1).unwrap();
    assert_eq!(s.messages.len(), 2);
    assert_eq!(s.prompt_index, 1);
    say(&mut s, &mut log, "e");
    let back = Session::load("/sessions", &s.id.to_text(), Some(&log)).unwrap();
    assert_eq!(back.prompt_index, 2);
    assert_eq!(format!("{:?}", back.messages), format!("{:?}", s.messages));
}

#[test]
fn rewinds_bound_what_stands_before_them_only() {
    let user = |n: u32, c: &str| UpdateRecord::UserMessage { prompt_index: n, content: c.into() };
    let cp = |n: u32| UpdateRecord::Checkpoint(Checkpoint {
        prompt_index: n,
        file_snapshots: vec![],
        hunks: vec![],
        git_head: None,
    });
    let recs = vec![
        meta(),
        user(1, "a"),
        cp(1),
        user(2, "b"),
        cp(2),
        UpdateRecord::Rewind { to_prompt_index: 1 },
        user(2, "c"),
        cp(2),
        user(3, "d"),
        UpdateRecord::Rewind { to_prompt_index: 2 },
        UpdateRecord::ToolResult { tool_call_id: "t".into(), content: "r".into() },
    ];
    let state = replay(&recs).unwrap();
    assert_eq!(state.prompt_index, 2);
    assert_eq!(state.messages.len(), 3);
    assert!(matches!(&state.messages[1], Message::User { content } if content == "c"));
    assert!(matches!(&state.messages[2], Message::Tool { .. }));
    assert_eq!(state.checkpoints.len(), 2);
}

#[test]
fn a_file_is_noted_once_however_its_path_is_written() {
    let mut ht = HunkTracker::new();
    ht.on_before_write("a/b", Found::Text("v0".into()));
    for again in ["a//b", "a/./b", "a/b/", "a/b/."] {
        assert!(!ht.needs_snapshot(again));
        ht.on_before_write(again, Found::Text("v1".into()));
    }
    for other in ["/a/b", "./a/b", "a/../b", "a/b/c", "b", ""] {
        assert!(ht.needs_snapshot(other));
    }
    let cp = ht.seal(1, None, &vec![Some("v2".into())]);
    assert_eq!(cp.file_snapshots.len(), 1);
    assert_eq!(cp.file_snapshots[0].path, "a/b");
    assert_eq!(cp.file_snapshots[0].before.as_deref(), Some("v0"));
}
