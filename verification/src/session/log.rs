//! The log of a session: one JSON record per line, only ever appended to, and
//! the session that a log stands for.
use crate::api::{
    call_json, calls_json, calls_to_json, clone_calls, json_calls, law_calls_read_back, lemma_calls_plain,
    read_calls, Message, MessageV, ToolCall, ToolCallV,
};
use crate::config::{
    json_model, law_model_read_back, model_name, nameable, named_model, Model, ModelV,
};
use crate::errors::{SessionError, SessionErrorV};
use crate::json::{
    entry_trees, is_single_line, json_parse, json_text, lemma_array_plain, lemma_entry,
    lemma_exact_writable, lemma_lookup_in_sum, lemma_object_plain, lemma_plain_more, lookup, plain, Json, JsonV,
};
use crate::session::checkpoint::{
    checkpoint_entries, checkpoint_keys, hunk_json, json_checkpoint, lemma_hunks_read_back,
    lemma_snapshots_read_back, snapshot_json, Checkpoint, CheckpointV, HunkV, SnapshotV,
};
use crate::stamp::{rfc3339_parse, rfc3339_text, uuid_parse, uuid_text, SessionId, Timestamp};
use crate::text::{
    clone_opt, decimal, decimal_text, join3, lemma_lines_concat, lemma_lines_of_framed, lines, same,
    split_lines, trim, trimmed, view_opt, view_res, views,
};
use crate::wire::{
    array_field, is_blank, lemma_stands, no_entries, object, opt_json, opt_text_field,
    opt_text_json, put, read_array, read_opt_text, read_tag, read_text, read_u32, shape, shaped,
    stands, tag_field, text_field, text_json, u32_field, unknown_variant, unknown_variant_text,
};
use vstd::prelude::*;

verus! {

// ---------------------------------------------------------------------------
// Records
// ---------------------------------------------------------------------------
#[allow(inconsistent_fields)]
pub ghost enum RecordV {
    Meta { id: SessionId, created_at: Timestamp, model: ModelV },
    UserMessage { prompt_index: u32, content: Seq<char> },
    AssistantMessage {
        content: Option<Seq<char>>,
        reasoning_content: Option<Seq<char>>,
        tool_calls: Seq<ToolCallV>,
    },
    ToolResult { tool_call_id: Seq<char>, content: Seq<char> },
    Checkpoint(CheckpointV),
    Rewind { to_prompt_index: u32 },
}

/// A record of the log: something that happened in the session.
#[derive(Debug)]
#[allow(inconsistent_fields)]
pub enum UpdateRecord {
    /// The head of the session, which stands in the first line.
    Meta { id: SessionId, created_at: Timestamp, model: Model },
    /// A message of the user, which begins a turn.
    UserMessage { prompt_index: u32, content: String },
    /// An answer of the model.
    AssistantMessage {
        content: Option<String>,
        reasoning_content: Option<String>,
        tool_calls: Vec<ToolCall>,
    },
    /// The result of a tool call.
    ToolResult { tool_call_id: String, content: String },
    /// What a turn changed.
    Checkpoint(Checkpoint),
    /// Every turn after the given one is undone. The records of those turns
    /// stay in the log.
    Rewind { to_prompt_index: u32 },
}

impl View for UpdateRecord {
    type V = RecordV;

    open spec fn view(&self) -> RecordV {
        match self {
            UpdateRecord::Meta { id, created_at, model } => RecordV::Meta {
                id: *id,
                created_at: *created_at,
                model: model@,
            },
            UpdateRecord::UserMessage { prompt_index, content } => RecordV::UserMessage {
                prompt_index: *prompt_index,
                content: content@,
            },
            UpdateRecord::AssistantMessage {
                content,
                reasoning_content,
                tool_calls,
            } => RecordV::AssistantMessage {
                content: view_opt(*content),
                reasoning_content: view_opt(*reasoning_content),
                tool_calls: views(tool_calls@),
            },
            UpdateRecord::ToolResult { tool_call_id, content } => RecordV::ToolResult {
                tool_call_id: tool_call_id@,
                content: content@,
            },
            UpdateRecord::Checkpoint(cp) => RecordV::Checkpoint(cp@),
            UpdateRecord::Rewind { to_prompt_index } => RecordV::Rewind {
                to_prompt_index: *to_prompt_index,
            },
        }
    }
}

impl Clone for UpdateRecord {
    fn clone(&self) -> (r: UpdateRecord)
        ensures
            r@ == self@,
    {
        match self {
            UpdateRecord::Meta { id, created_at, model } => UpdateRecord::Meta {
                id: *id,
                created_at: *created_at,
                model: model.clone(),
            },
            UpdateRecord::UserMessage { prompt_index, content } => UpdateRecord::UserMessage {
                prompt_index: *prompt_index,
                content: content.clone(),
            },
            UpdateRecord::AssistantMessage {
                content,
                reasoning_content,
                tool_calls,
            } => UpdateRecord::AssistantMessage {
                content: clone_opt(content),
                reasoning_content: clone_opt(reasoning_content),
                tool_calls: clone_calls(tool_calls),
            },
            UpdateRecord::ToolResult { tool_call_id, content } => UpdateRecord::ToolResult {
                tool_call_id: tool_call_id.clone(),
                content: content.clone(),
            },
            UpdateRecord::Checkpoint(cp) => UpdateRecord::Checkpoint(cp.clone()),
            UpdateRecord::Rewind { to_prompt_index } => UpdateRecord::Rewind {
                to_prompt_index: *to_prompt_index,
            },
        }
    }
}

// ---------------------------------------------------------------------------
// The form of a record
// ---------------------------------------------------------------------------
/// The entries of a record as JSON, after the one that tells its kind. A time
/// that has no text stands as the empty text.
pub open spec fn record_entries(r: RecordV) -> Seq<(Seq<char>, JsonV)> {
    match r {
        RecordV::Meta { id, created_at, model } => seq![
            ("kind"@, JsonV::Text("meta"@)),
            ("id"@, JsonV::Text(uuid_text(id.value))),
            ("created_at"@, JsonV::Text(time_text(created_at))),
            ("model"@, JsonV::Text(model_name(model))),
        ],
        RecordV::UserMessage { prompt_index, content } => seq![
            ("kind"@, JsonV::Text("user_message"@)),
            ("prompt_index"@, JsonV::Number(prompt_index as u64)),
            ("content"@, JsonV::Text(content)),
        ],
        RecordV::AssistantMessage { content, reasoning_content, tool_calls } => seq![
            ("kind"@, JsonV::Text("assistant_message"@)),
            ("content"@, opt_text_json(content)),
            ("reasoning_content"@, opt_text_json(reasoning_content)),
            ("tool_calls"@, calls_json(tool_calls)),
        ],
        RecordV::ToolResult { tool_call_id, content } => seq![
            ("kind"@, JsonV::Text("tool_result"@)),
            ("tool_call_id"@, JsonV::Text(tool_call_id)),
            ("content"@, JsonV::Text(content)),
        ],
        RecordV::Checkpoint(cp) => seq![("kind"@, JsonV::Text("checkpoint"@))]
            + checkpoint_entries(cp),
        RecordV::Rewind { to_prompt_index } => seq![
            ("kind"@, JsonV::Text("rewind"@)),
            ("to_prompt_index"@, JsonV::Number(to_prompt_index as u64)),
        ],
    }
}

/// The text of a time; empty where it has none.
pub open spec fn time_text(t: Timestamp) -> Seq<char> {
    match rfc3339_text(t.secs, t.nanos) {
        Some(s) => s,
        None => seq![],
    }
}

/// A record as JSON.
pub open spec fn record_json(r: RecordV) -> JsonV {
    JsonV::Object(record_entries(r))
}

/// The record has a form in the log: its time has a text.
pub open spec fn writable_record(r: RecordV) -> bool {
    r matches RecordV::Meta { created_at, .. } ==> created_at.has_text()
}

/// The record is read back from the log as it was written: its time has a
/// text, and its model is one that can be named.
pub open spec fn storable(r: RecordV) -> bool {
    r matches RecordV::Meta { created_at, model, .. } ==> created_at.has_text() && nameable(model)
}

/// The head of a session that JSON stands for.
pub open spec fn json_meta(j: JsonV) -> Result<RecordV, Seq<char>> {
    match text_field(j, "id"@) {
        Err(e) => Err(e),
        Ok(id) => match uuid_parse(id) {
            None => Err("invalid UUID"@),
            Some(value) => match text_field(j, "created_at"@) {
                Err(e) => Err(e),
                Ok(time) => match rfc3339_parse(time) {
                    None => Err("invalid time"@),
                    Some(t) => match text_field(j, "model"@) {
                        Err(e) => Err(e),
                        Ok(name) => match json_model(JsonV::Text(name)) {
                            Err(e) => Err(e),
                            Ok(model) => Ok(
                                RecordV::Meta {
                                    id: SessionId { value },
                                    created_at: Timestamp { secs: t.0, nanos: t.1 },
                                    model,
                                },
                            ),
                        },
                    },
                },
            },
        },
    }
}

/// The message of the user that JSON stands for.
pub open spec fn json_user(j: JsonV) -> Result<RecordV, Seq<char>> {
    match u32_field(j, "prompt_index"@) {
        Err(e) => Err(e),
        Ok(prompt_index) => match text_field(j, "content"@) {
            Err(e) => Err(e),
            Ok(content) => Ok(RecordV::UserMessage { prompt_index, content }),
        },
    }
}

/// The answer of the model that JSON stands for.
pub open spec fn json_assistant(j: JsonV) -> Result<RecordV, Seq<char>> {
    match opt_text_field(j, "content"@) {
        Err(e) => Err(e),
        Ok(content) => match opt_text_field(j, "reasoning_content"@) {
            Err(e) => Err(e),
            Ok(reasoning_content) => match array_field(j, "tool_calls"@) {
                Err(e) => Err(e),
                Ok(items) => match json_calls(items) {
                    Err(e) => Err(e),
                    Ok(tool_calls) => Ok(
                        RecordV::AssistantMessage { content, reasoning_content, tool_calls },
                    ),
                },
            },
        },
    }
}

/// The result of a tool call that JSON stands for.
pub open spec fn json_result(j: JsonV) -> Result<RecordV, Seq<char>> {
    match text_field(j, "tool_call_id"@) {
        Err(e) => Err(e),
        Ok(tool_call_id) => match text_field(j, "content"@) {
            Err(e) => Err(e),
            Ok(content) => Ok(RecordV::ToolResult { tool_call_id, content }),
        },
    }
}

/// The fields of a record of the given kind.
pub open spec fn record_keys(kind: Seq<char>) -> Option<Seq<Seq<char>>> {
    if kind == "meta"@ {
        Some(seq!["kind"@, "id"@, "created_at"@, "model"@])
    } else if kind == "user_message"@ {
        Some(seq!["kind"@, "prompt_index"@, "content"@])
    } else if kind == "assistant_message"@ {
        Some(seq!["kind"@, "content"@, "reasoning_content"@, "tool_calls"@])
    } else if kind == "tool_result"@ {
        Some(seq!["kind"@, "tool_call_id"@, "content"@])
    } else if kind == "checkpoint"@ {
        Some(seq!["kind"@] + checkpoint_keys())
    } else if kind == "rewind"@ {
        Some(seq!["kind"@, "to_prompt_index"@])
    } else {
        None
    }
}

/// The record of the given kind that a JSON object stands for.
pub open spec fn record_of(kind: Seq<char>, j: JsonV) -> Result<RecordV, Seq<char>> {
    if kind == "meta"@ {
        json_meta(j)
    } else if kind == "user_message"@ {
        json_user(j)
    } else if kind == "assistant_message"@ {
        json_assistant(j)
    } else if kind == "tool_result"@ {
        json_result(j)
    } else if kind == "checkpoint"@ {
        match json_checkpoint(j) {
            Err(e) => Err(e),
            Ok(cp) => Ok(RecordV::Checkpoint(cp)),
        }
    } else {
        match u32_field(j, "to_prompt_index"@) {
            Err(e) => Err(e),
            Ok(to_prompt_index) => Ok(RecordV::Rewind { to_prompt_index }),
        }
    }
}

/// The record that JSON stands for, or what is wrong with it.
pub open spec fn json_record(j: JsonV) -> Result<RecordV, Seq<char>> {
    match tag_field(j, "kind"@) {
        Err(e) => Err(e),
        Ok(kind) => match record_keys(kind) {
            None => Err(unknown_variant(kind)),
            Some(keys) => match shaped(j, keys, keys.len()) {
                Err(e) => Err(e),
                Ok(j) => record_of(kind, j),
            },
        },
    }
}

fn keys_of_record(kind: &str) -> (r: Option<Vec<&'static str>>)
    ensures
        match r {
            Some(keys) => record_keys(kind@) == Some(views(keys@)),
            None => record_keys(kind@) is None,
        },
{
    if same(kind, "meta") {
        let keys = vec!["kind", "id", "created_at", "model"];
        assert(views(keys@) =~= seq!["kind"@, "id"@, "created_at"@, "model"@]);
        Some(keys)
    } else if same(kind, "user_message") {
        let keys = vec!["kind", "prompt_index", "content"];
        assert(views(keys@) =~= seq!["kind"@, "prompt_index"@, "content"@]);
        Some(keys)
    } else if same(kind, "assistant_message") {
        let keys = vec!["kind", "content", "reasoning_content", "tool_calls"];
        assert(views(keys@) =~= seq!["kind"@, "content"@, "reasoning_content"@, "tool_calls"@]);
        Some(keys)
    } else if same(kind, "tool_result") {
        let keys = vec!["kind", "tool_call_id", "content"];
        assert(views(keys@) =~= seq!["kind"@, "tool_call_id"@, "content"@]);
        Some(keys)
    } else if same(kind, "checkpoint") {
        let keys = vec!["kind", "prompt_index", "file_snapshots", "hunks", "git_head"];
        assert(views(keys@) =~= seq!["kind"@] + checkpoint_keys());
        Some(keys)
    } else if same(kind, "rewind") {
        let keys = vec!["kind", "to_prompt_index"];
        assert(views(keys@) =~= seq!["kind"@, "to_prompt_index"@]);
        Some(keys)
    } else {
        None
    }
}

/// The JSON of a record can be written.
proof fn lemma_record_plain(r: RecordV)
    ensures
        plain(record_json(r), 100),
{
    reveal_strlit("kind");
    reveal_strlit("id");
    reveal_strlit("created_at");
    reveal_strlit("model");
    reveal_strlit("prompt_index");
    reveal_strlit("content");
    reveal_strlit("reasoning_content");
    reveal_strlit("tool_calls");
    reveal_strlit("tool_call_id");
    reveal_strlit("to_prompt_index");
    reveal_strlit("file_snapshots");
    reveal_strlit("hunks");
    reveal_strlit("git_head");
    reveal_strlit("path");
    reveal_strlit("before");
    reveal_strlit("unified_diff");
    reveal_strlit("opaque");
    let entries = record_entries(r);
    match r {
        RecordV::Meta { .. } => {
            assert("kind"@.len() == 4 && "id"@.len() == 2 && "created_at"@.len() == 10
                && "model"@.len() == 5);
            lemma_object_plain(entries, 0);
            lemma_plain_more(record_json(r), 1, 100);
        },
        RecordV::UserMessage { .. } => {
            assert("kind"@.len() == 4 && "prompt_index"@.len() == 12 && "content"@.len() == 7);
            lemma_object_plain(entries, 0);
            lemma_plain_more(record_json(r), 1, 100);
        },
        RecordV::AssistantMessage { tool_calls, .. } => {
            assert("kind"@.len() == 4 && "reasoning_content"@.len() == 17 && "content"@.len() == 7
                && "tool_calls"@.len() == 10);
            lemma_calls_plain(tool_calls);
            lemma_object_plain(entries, 3);
            lemma_plain_more(record_json(r), 4, 100);
        },
        RecordV::ToolResult { .. } => {
            assert("kind"@.len() == 4 && "tool_call_id"@.len() == 12 && "content"@.len() == 7);
            lemma_object_plain(entries, 0);
            lemma_plain_more(record_json(r), 1, 100);
        },
        RecordV::Checkpoint(cp) => {
            assert("kind"@.len() == 4 && "prompt_index"@.len() == 12 && "file_snapshots"@.len()
                == 14 && "hunks"@.len() == 5 && "git_head"@.len() == 8);
            assert("path"@.len() == 4 && "before"@.len() == 6 && "unified_diff"@.len() == 12);
            assert("opaque"@.len() == 6 && "opaque"@[0] == 'o' && "before"@[0] == 'b');
            let snaps = cp.file_snapshots.map_values(|s: SnapshotV| snapshot_json(s));
            assert forall|i: int| 0 <= i < snaps.len() implies plain(#[trigger] snaps[i], 1) by {
                lemma_object_plain(snapshot_json(cp.file_snapshots[i])->Object_0, 0);
            }
            lemma_array_plain(snaps, 1);
            let hunks = cp.hunks.map_values(|h: HunkV| hunk_json(h));
            assert forall|i: int| 0 <= i < hunks.len() implies plain(#[trigger] hunks[i], 1) by {
                lemma_object_plain(hunk_json(cp.hunks[i])->Object_0, 0);
            }
            lemma_array_plain(hunks, 1);
            lemma_object_plain(entries, 2);
            lemma_plain_more(record_json(r), 3, 100);
        },
        RecordV::Rewind { .. } => {
            assert("kind"@.len() == 4 && "to_prompt_index"@.len() == 15);
            lemma_object_plain(entries, 0);
            lemma_plain_more(record_json(r), 1, 100);
        },
    }
}

/// A record that is written as JSON is read back, where the texts of its
/// identifier and of its time are.
proof fn lemma_record_read_back(r: RecordV)
    requires
        storable(r),
        r matches RecordV::Meta { id, created_at, .. } ==> uuid_parse(uuid_text(id.value)) == Some(
            id.value,
        ) && rfc3339_parse(time_text(created_at)) == Some((created_at.secs, created_at.nanos)),
    ensures
        json_record(record_json(r)) == Ok::<RecordV, Seq<char>>(r),
{
    reveal_with_fuel(lookup, 6);
    reveal_strlit("kind");
    reveal_strlit("meta");
    reveal_strlit("user_message");
    reveal_strlit("assistant_message");
    reveal_strlit("tool_result");
    reveal_strlit("checkpoint");
    reveal_strlit("rewind");
    assert("meta"@.len() == 4 && "user_message"@.len() == 12 && "assistant_message"@.len() == 17
        && "tool_result"@.len() == 11 && "checkpoint"@.len() == 10 && "rewind"@.len() == 6);
    let j = record_json(r);
    assert(record_entries(r)[0].0 == "kind"@);
    match r {
        RecordV::Meta { id, created_at, model } => {
            reveal_strlit("id");
            reveal_strlit("created_at");
            reveal_strlit("model");
            assert("kind"@.len() == 4 && "id"@.len() == 2 && "created_at"@.len() == 10
                && "model"@.len() == 5);
            law_model_read_back(model);
            assert(j.get("id"@) == Some(JsonV::Text(uuid_text(id.value))));
            assert(j.get("created_at"@) == Some(JsonV::Text(time_text(created_at))));
            assert(j.get("model"@) == Some(JsonV::Text(model_name(model))));
        },
        RecordV::UserMessage { .. } => {
            reveal_strlit("prompt_index");
            reveal_strlit("content");
            assert("kind"@.len() == 4 && "prompt_index"@.len() == 12 && "content"@.len() == 7);
        },
        RecordV::AssistantMessage { tool_calls, .. } => {
            reveal_strlit("content");
            reveal_strlit("reasoning_content");
            reveal_strlit("tool_calls");
            assert("kind"@.len() == 4 && "reasoning_content"@.len() == 17 && "content"@.len() == 7
                && "tool_calls"@.len() == 10);
            law_calls_read_back(tool_calls);
        },
        RecordV::ToolResult { .. } => {
            reveal_strlit("tool_call_id");
            reveal_strlit("content");
            assert("kind"@.len() == 4 && "tool_call_id"@.len() == 12 && "content"@.len() == 7);
        },
        RecordV::Checkpoint(cp) => {
            reveal_strlit("prompt_index");
            reveal_strlit("file_snapshots");
            reveal_strlit("hunks");
            reveal_strlit("git_head");
            assert("kind"@.len() == 4 && "prompt_index"@.len() == 12 && "file_snapshots"@.len()
                == 14 && "hunks"@.len() == 5 && "git_head"@.len() == 8);
            lemma_snapshots_read_back(cp.file_snapshots);
            lemma_hunks_read_back(cp.hunks);
            let e = record_entries(r);
            let c = checkpoint_entries(cp);
            assert(e.len() == 5);
            assert(e[1] == c[0] && e[2] == c[1] && e[3] == c[2] && e[4] == c[3]);
        },
        RecordV::Rewind { .. } => {
            reveal_strlit("to_prompt_index");
            assert("kind"@.len() == 4 && "to_prompt_index"@.len() == 15);
        },
    }
}

impl UpdateRecord {
    /// The record as JSON, where its time has a text.
    pub fn to_json(&self) -> (r: Option<Json>)
        ensures
            match r {
                Some(j) => {
                    &&& writable_record(self@)
                    &&& j@ == record_json(self@)
                    &&& storable(self@) ==> json_record(j@) == Ok::<RecordV, Seq<char>>(self@)
                },
                None => !writable_record(self@),
            },
            storable(self@) ==> writable_record(self@),
    {
        let mut v = no_entries();
        match self {
            UpdateRecord::Meta { id, created_at, model } => {
                let id_text = id.to_text();
                let time = match created_at.to_text() {
                    Some(s) => s,
                    None => {
                        return None;
                    },
                };
                put(&mut v, "kind", text_json("meta"));
                put(&mut v, "id", text_json(id_text.as_str()));
                put(&mut v, "created_at", text_json(time.as_str()));
                put(&mut v, "model", model.to_json());
            },
            UpdateRecord::UserMessage { prompt_index, content } => {
                put(&mut v, "kind", text_json("user_message"));
                put(&mut v, "prompt_index", Json::Number(*prompt_index as u64));
                put(&mut v, "content", text_json(content.as_str()));
            },
            UpdateRecord::AssistantMessage { content, reasoning_content, tool_calls } => {
                put(&mut v, "kind", text_json("assistant_message"));
                put(&mut v, "content", opt_json(content));
                put(&mut v, "reasoning_content", opt_json(reasoning_content));
                put(&mut v, "tool_calls", calls_to_json(tool_calls));
            },
            UpdateRecord::ToolResult { tool_call_id, content } => {
                put(&mut v, "kind", text_json("tool_result"));
                put(&mut v, "tool_call_id", text_json(tool_call_id.as_str()));
                put(&mut v, "content", text_json(content.as_str()));
            },
            UpdateRecord::Checkpoint(cp) => {
                put(&mut v, "kind", text_json("checkpoint"));
                cp.put_into(&mut v);
            },
            UpdateRecord::Rewind { to_prompt_index } => {
                put(&mut v, "kind", text_json("rewind"));
                put(&mut v, "to_prompt_index", Json::Number(*to_prompt_index as u64));
            },
        }
        proof {
            assert(entry_trees(v@) =~= record_entries(self@));
            if storable(self@) {
                lemma_record_read_back(self@);
            }
        }
        Some(object(v))
    }

    /// Reads a record from JSON.
    pub fn from_json(j: &Json) -> (r: Result<UpdateRecord, String>)
        ensures
            view_res(r) == json_record(j@),
    {
        let kind = match read_tag(j, "kind") {
            Ok(s) => s,
            Err(e) => {
                return Err(e);
            },
        };
        let kind = kind.as_str();
        let keys = match keys_of_record(kind) {
            Some(keys) => keys,
            None => {
                return Err(unknown_variant_text(kind));
            },
        };
        let from_array = match shape(j, &keys, keys.len()) {
            Ok(o) => o,
            Err(e) => {
                return Err(e);
            },
        };
        let j = match &from_array {
            Some(o) => o,
            None => j,
        };
        if same(kind, "meta") {
            read_meta(j)
        } else if same(kind, "user_message") {
            match read_u32(j, "prompt_index") {
                Ok(prompt_index) => match read_text(j, "content") {
                    Ok(content) => Ok(UpdateRecord::UserMessage { prompt_index, content }),
                    Err(e) => Err(e),
                },
                Err(e) => Err(e),
            }
        } else if same(kind, "assistant_message") {
            read_assistant(j)
        } else if same(kind, "tool_result") {
            match read_text(j, "tool_call_id") {
                Ok(tool_call_id) => match read_text(j, "content") {
                    Ok(content) => Ok(UpdateRecord::ToolResult { tool_call_id, content }),
                    Err(e) => Err(e),
                },
                Err(e) => Err(e),
            }
        } else if same(kind, "checkpoint") {
            match Checkpoint::from_json(j) {
                Ok(cp) => Ok(UpdateRecord::Checkpoint(cp)),
                Err(e) => Err(e),
            }
        } else {
            match read_u32(j, "to_prompt_index") {
                Ok(to_prompt_index) => Ok(UpdateRecord::Rewind { to_prompt_index }),
                Err(e) => Err(e),
            }
        }
    }
}

fn read_meta(j: &Json) -> (r: Result<UpdateRecord, String>)
    ensures
        view_res(r) == json_meta(j@),
{
    let id = match read_text(j, "id") {
        Ok(s) => match SessionId::parse(s.as_str()) {
            Some(id) => id,
            None => {
                return Err("invalid UUID".to_owned());
            },
        },
        Err(e) => {
            return Err(e);
        },
    };
    let created_at = match read_text(j, "created_at") {
        Ok(s) => match Timestamp::parse(s.as_str()) {
            Some(t) => t,
            None => {
                return Err("invalid time".to_owned());
            },
        },
        Err(e) => {
            return Err(e);
        },
    };
    match read_text(j, "model") {
        Ok(s) => match Model::from_json(&Json::Text(s)) {
            Ok(model) => Ok(UpdateRecord::Meta { id, created_at, model }),
            Err(e) => Err(e),
        },
        Err(e) => Err(e),
    }
}

fn read_assistant(j: &Json) -> (r: Result<UpdateRecord, String>)
    ensures
        view_res(r) == json_assistant(j@),
{
    let content = match read_opt_text(j, "content") {
        Ok(o) => o,
        Err(e) => {
            return Err(e);
        },
    };
    let reasoning_content = match read_opt_text(j, "reasoning_content") {
        Ok(o) => o,
        Err(e) => {
            return Err(e);
        },
    };
    match read_array(j, "tool_calls") {
        Ok(items) => match read_calls(items) {
            Ok(tool_calls) => Ok(
                UpdateRecord::AssistantMessage { content, reasoning_content, tool_calls },
            ),
            Err(e) => Err(e),
        },
        Err(e) => Err(e),
    }
}

// ---------------------------------------------------------------------------
// Lines
// ---------------------------------------------------------------------------
/// The record that a line of the log stands for.
pub open spec fn line_record(line: Seq<char>) -> Result<RecordV, Seq<char>> {
    match json_parse(line) {
        Err(e) => Err(e),
        Ok(j) => json_record(j),
    }
}

/// The line stands for the record, and for nothing but it when a newline
/// follows.
pub open spec fn holds(line: Seq<char>, r: RecordV) -> bool {
    is_single_line(line) && line_record(line) == Ok::<RecordV, Seq<char>>(r)
}

/// The message for a line of the log that stands for no record.
pub open spec fn bad_line(number: nat, e: Seq<char>) -> Seq<char> {
    "第 "@ + decimal(number) + " 行损坏: "@ + e
}

/// The records that lines stand for. Blank lines are skipped; the first line
/// that stands for no record decides the error.
pub open spec fn read_lines(s: Seq<Seq<char>>) -> Result<Seq<RecordV>, SessionErrorV>
    decreases s.len(),
{
    if s.len() == 0 {
        Ok(seq![])
    } else {
        match read_lines(s.drop_last()) {
            Err(e) => Err(e),
            Ok(done) => if trimmed(s.last()).len() == 0 {
                Ok(done)
            } else {
                match line_record(trimmed(s.last())) {
                    Err(e) => Err(SessionErrorV::Replay(bad_line(s.len(), e))),
                    Ok(r) => Ok(done.push(r)),
                }
            },
        }
    }
}

/// The records of a log.
pub open spec fn read_log(text: Seq<char>) -> Result<Seq<RecordV>, SessionErrorV> {
    read_lines(lines(text))
}

/// Appended to a log of whole lines, the text adds the record: what was read
/// before is read again, and then the record.
pub open spec fn adds(line: Seq<char>, r: RecordV) -> bool {
    forall|text: Seq<char>|
        (text.len() > 0 ==> text.last() == '\n') && read_log(text) is Ok ==> #[trigger] read_log(
            text + line,
        ) == Ok::<Seq<RecordV>, SessionErrorV>(read_log(text)->Ok_0.push(r))
}

/// The line, ended by a newline, that is appended to the log for a record;
/// there is none for a time without a text. A storable record is read back
/// from its line.
pub fn append(rec: &UpdateRecord) -> (r: Result<String, SessionError>)
    ensures
        match r {
            Ok(s) => {
                &&& writable_record(rec@)
                &&& s@ == json_text(record_json(rec@)).push('\n')
                &&& is_single_line(s@.drop_last())
                &&& storable(rec@) ==> holds(s@.drop_last(), rec@) && adds(s@, rec@)
            },
            Err(e) => !writable_record(rec@) && e@ == SessionErrorV::BadJson("invalid time"@),
        },
        storable(rec@) ==> r is Ok,
{
    match rec.to_json() {
        Some(j) => {
            proof {
                lemma_record_plain(rec@);
                lemma_exact_writable(record_json(rec@));
            }
            match j.to_text() {
                Some(text) => {
                    let mut line = text;
                    let ghost known = line@;
                    line.push('\n');
                    proof {
                        assert(line@.drop_last() =~= known);
                        if storable(rec@) {
                            assert forall|text: Seq<char>|
                                (text.len() > 0 ==> text.last() == '\n') && read_log(
                                    text,
                                ) is Ok implies #[trigger] read_log(text + line@) == Ok::<
                                Seq<RecordV>,
                                SessionErrorV,
                            >(read_log(text)->Ok_0.push(rec@)) by {
                                law_append_adds_record(text, read_log(text)->Ok_0, known, rec@);
                            }
                        }
                    }
                    Ok(line)
                },
                None => Err(SessionError::BadJson("invalid time".to_owned())),
            }
        },
        None => Err(SessionError::BadJson("invalid time".to_owned())),
    }
}

/// Once a line stands for no record, the error stays.
proof fn lemma_lines_error(s: Seq<Seq<char>>, k: int)
    requires
        0 <= k <= s.len(),
        read_lines(s.subrange(0, k)) is Err,
    ensures
        read_lines(s) == read_lines(s.subrange(0, k)),
    decreases s.len(),
{
    if k == s.len() {
        assert(s.subrange(0, k) =~= s);
    } else {
        assert(s.drop_last().subrange(0, k) =~= s.subrange(0, k));
        lemma_lines_error(s.drop_last(), k);
    }
}

/// Reads the records of a log.
pub fn read_all(text: &str) -> (r: Result<Vec<UpdateRecord>, SessionError>)
    ensures
        match r {
            Ok(v) => read_log(text@) == Ok::<Seq<RecordV>, SessionErrorV>(views(v@)),
            Err(e) => read_log(text@) == Err::<Seq<RecordV>, SessionErrorV>(e@),
        },
{
    let rows = split_lines(text);
    let ghost all = views(rows@);
    let mut out: Vec<UpdateRecord> = Vec::new();
    let mut i: usize = 0;
    assert(all.subrange(0, 0) =~= Seq::<Seq<char>>::empty());
    assert(views(out@) =~= Seq::<RecordV>::empty());
    while i < rows.len()
        invariant
            i <= rows@.len(),
            all == views(rows@),
            all == lines(text@),
            read_lines(all.subrange(0, i as int)) == Ok::<Seq<RecordV>, SessionErrorV>(views(out@)),
        decreases rows@.len() - i,
    {
        let line = trim(rows[i].as_str());
        proof {
            let pre = all.subrange(0, i + 1);
            assert(pre.drop_last() =~= all.subrange(0, i as int));
            assert(pre.last() == rows@[i as int]@);
        }
        if !line.as_str().is_empty() {
            let parsed = match Json::parse(line.as_str()) {
                Ok(j) => UpdateRecord::from_json(&j),
                Err(e) => Err(e),
            };
            match parsed {
                Ok(rec) => {
                    let ghost known = views(out@);
                    out.push(rec);
                    assert(views(out@) =~= known.push(rec@));
                },
                Err(e) => {
                    let number = decimal_text((i + 1) as u64);
                    let mut message = join3("第 ", number.as_str(), " 行损坏: ");
                    message.append(e.as_str());
                    proof {
                        lemma_lines_error(all, i + 1);
                    }
                    return Err(SessionError::Replay(message));
                },
            }
        }
        i = i + 1;
    }
    assert(all.subrange(0, i as int) =~= all);
    Ok(out)
}

/// A line appended to a log of complete lines adds the record that it stands
/// for to the records of the log, and changes no other.
pub proof fn law_append_adds_record(
    text: Seq<char>,
    records: Seq<RecordV>,
    line: Seq<char>,
    r: RecordV,
)
    requires
        text.len() > 0 ==> text.last() == '\n',
        read_log(text) == Ok::<Seq<RecordV>, SessionErrorV>(records),
        holds(line, r),
    ensures
        read_log(text + line.push('\n')) == Ok::<Seq<RecordV>, SessionErrorV>(records.push(r)),
{
    lemma_lines_concat(text, line.push('\n'));
    lemma_lines_of_framed(line, seq![]);
    assert(line.push('\n') + Seq::<char>::empty() =~= line.push('\n'));
    assert(seq![line] + lines(Seq::<char>::empty()) =~= seq![line]);
    let all = lines(text) + seq![line];
    assert(all.drop_last() =~= lines(text));
    assert(all.last() == line);
    assert(trimmed(line) == line);
}

/// The text of a log with the lines, each ended by a newline.
pub open spec fn log_text(s: Seq<Seq<char>>) -> Seq<char>
    decreases s.len(),
{
    if s.len() == 0 {
        seq![]
    } else {
        log_text(s.drop_last()) + s.last().push('\n')
    }
}

/// A log gives back exactly the records whose lines were appended to it, in
/// order.
pub proof fn law_log_gives_records_back(s: Seq<Seq<char>>, records: Seq<RecordV>)
    requires
        s.len() == records.len(),
        forall|i: int| 0 <= i < s.len() ==> holds(#[trigger] s[i], records[i]),
    ensures
        read_log(log_text(s)) == Ok::<Seq<RecordV>, SessionErrorV>(records),
        s.len() > 0 ==> log_text(s).len() > 0 && log_text(s).last() == '\n',
    decreases s.len(),
{
    if s.len() == 0 {
        assert(records =~= Seq::<RecordV>::empty());
    } else {
        let t = s.drop_last();
        let earlier = records.drop_last();
        assert forall|i: int| 0 <= i < t.len() implies holds(#[trigger] t[i], earlier[i]) by {
            assert(holds(s[i], records[i]));
        }
        law_log_gives_records_back(t, earlier);
        assert(holds(s[s.len() - 1], records[s.len() - 1]));
        law_append_adds_record(log_text(t), earlier, s.last(), records.last());
        assert(earlier.push(records.last()) =~= records);
    }
}

// ---------------------------------------------------------------------------
// Replay
// ---------------------------------------------------------------------------
#[verifier::ext_equal]
pub ghost struct SessionV {
    pub id: SessionId,
    pub created_at: Timestamp,
    pub model: ModelV,
    pub messages: Seq<MessageV>,
    pub prompt_index: u32,
    pub checkpoints: Seq<CheckpointV>,
}

/// The session that a log stands for.
#[derive(Debug)]
pub struct ReplayState {
    pub id: SessionId,
    pub created_at: Timestamp,
    pub model: Model,
    pub messages: Vec<Message>,
    pub prompt_index: u32,
    pub checkpoints: Vec<Checkpoint>,
}

impl View for ReplayState {
    type V = SessionV;

    open spec fn view(&self) -> SessionV {
        SessionV {
            id: self.id,
            created_at: self.created_at,
            model: self.model@,
            messages: views(self.messages@),
            prompt_index: self.prompt_index,
            checkpoints: views(self.checkpoints@),
        }
    }
}

/// The lower of two turns.
pub open spec fn low(a: u32, b: u32) -> u32 {
    if a < b {
        a
    } else {
        b
    }
}

/// The last turn that counts among what stands before a record, given the last
/// one that counts up to it: a rewind undoes what stands before it, and nothing
/// that comes later.
pub open spec fn lowered(r: RecordV, limit: u32) -> u32 {
    match r {
        RecordV::Rewind { to_prompt_index } => low(limit, to_prompt_index),
        _ => limit,
    }
}

/// The turn that a log has reached: that of the last message of the user, or a
/// lower one that the log was rewound to since.
pub open spec fn turn(s: Seq<RecordV>) -> u32
    decreases s.len(),
{
    if s.len() == 0 {
        0
    } else {
        match s.last() {
            RecordV::UserMessage { prompt_index, .. } => prompt_index,
            _ => lowered(s.last(), turn(s.drop_last())),
        }
    }
}

/// The message that a record adds to the conversation.
pub open spec fn message_of(r: RecordV) -> Option<MessageV> {
    match r {
        RecordV::UserMessage { content, .. } => Some(MessageV::User { content }),
        RecordV::AssistantMessage { content, reasoning_content, tool_calls } => Some(
            MessageV::Assistant { content, reasoning_content, tool_calls },
        ),
        RecordV::ToolResult { tool_call_id, content } => Some(
            MessageV::Tool { tool_call_id, content },
        ),
        _ => None,
    }
}

/// The messages of the turns up to `limit` that were not undone, in order.
pub open spec fn messages_of(s: Seq<RecordV>, limit: u32) -> Seq<MessageV>
    decreases s.len(),
{
    if s.len() == 0 {
        seq![]
    } else {
        let rest = messages_of(s.drop_last(), lowered(s.last(), limit));
        match message_of(s.last()) {
            Some(m) => if turn(s) <= limit {
                rest.push(m)
            } else {
                rest
            },
            None => rest,
        }
    }
}

/// The last turn up to `limit` that a message of the user began and that was
/// not undone.
pub open spec fn last_turn(s: Seq<RecordV>, limit: u32) -> u32
    decreases s.len(),
{
    if s.len() == 0 {
        0
    } else {
        match s.last() {
            RecordV::UserMessage { prompt_index, .. } => if prompt_index <= limit {
                prompt_index
            } else {
                last_turn(s.drop_last(), limit)
            },
            _ => last_turn(s.drop_last(), lowered(s.last(), limit)),
        }
    }
}

/// The checkpoints of the turns up to `limit` that were not undone, in order.
pub open spec fn checkpoints_of(s: Seq<RecordV>, limit: u32) -> Seq<CheckpointV>
    decreases s.len(),
{
    if s.len() == 0 {
        seq![]
    } else {
        let rest = checkpoints_of(s.drop_last(), lowered(s.last(), limit));
        match s.last() {
            RecordV::Checkpoint(cp) => if cp.prompt_index <= limit {
                rest.push(cp)
            } else {
                rest
            },
            _ => rest,
        }
    }
}

/// The last head of a session in the log.
pub open spec fn head(s: Seq<RecordV>) -> Option<(SessionId, Timestamp, ModelV)>
    decreases s.len(),
{
    if s.len() == 0 {
        None
    } else {
        match s.last() {
            RecordV::Meta { id, created_at, model } => Some((id, created_at, model)),
            _ => head(s.drop_last()),
        }
    }
}

/// The session that records stand for: its head, and what belongs to the turns
/// that were not undone. There is none without a head.
pub open spec fn replayed(s: Seq<RecordV>) -> Result<SessionV, SessionErrorV> {
    match head(s) {
        None => Err(SessionErrorV::Replay("日志缺少 Meta 首行"@)),
        Some(h) => Ok(
            SessionV {
                id: h.0,
                created_at: h.1,
                model: h.2,
                messages: messages_of(s, u32::MAX),
                prompt_index: last_turn(s, u32::MAX),
                checkpoints: checkpoints_of(s, u32::MAX),
            },
        ),
    }
}

/// The limits of a log, from the back: the first holds for the whole log, and
/// each further one for the log without one more record at its end.
spec fn are_limits(s: Seq<RecordV>, v: Seq<u32>) -> bool {
    &&& 0 < v.len() <= s.len() + 1
    &&& v[0] == u32::MAX
    &&& forall|k: int|
        0 <= k < v.len() - 1 ==> #[trigger] v[k + 1] == lowered(s[s.len() - 1 - k], v[k])
}

fn find_limits(records: &Vec<UpdateRecord>) -> (r: Vec<u32>)
    ensures
        r@.len() == records@.len() + 1,
        are_limits(views(records@), r@),
{
    let ghost all = views(records@);
    let mut limits: Vec<u32> = Vec::new();
    let mut limit: u32 = u32::MAX;
    limits.push(limit);
    let n: usize = records.len();
    let mut k: usize = 0;
    while k < n
        invariant
            k <= n == records@.len(),
            all == views(records@),
            limits@.len() == k + 1,
            limit == limits@[k as int],
            are_limits(all, limits@),
        decreases n - k,
    {
        assert(all[n - 1 - k] == records@[n - 1 - k]@);
        match &records[n - 1 - k] {
            UpdateRecord::Rewind { to_prompt_index } => {
                if *to_prompt_index < limit {
                    limit = *to_prompt_index;
                }
            },
            _ => {},
        }
        let ghost known = limits@;
        limits.push(limit);
        proof {
            assert forall|j: int| 0 <= j < limits@.len() - 1 implies #[trigger] limits@[j + 1]
                == lowered(all[all.len() - 1 - j], limits@[j]) by {
                if j < k {
                    assert(limits@[j + 1] == known[j + 1]);
                    assert(limits@[j] == known[j]);
                }
            }
        }
        k = k + 1;
    }
    limits
}

/// The session that records stand for.
pub fn replay(records: &Vec<UpdateRecord>) -> (r: Result<ReplayState, SessionError>)
    ensures
        view_res(r) == replayed(views(records@)),
{
    let ghost all = views(records@);
    let limits = find_limits(records);
    let n: usize = records.len();
    let mut meta: Option<(SessionId, Timestamp, Model)> = None;
    let mut messages: Vec<Message> = Vec::new();
    let mut checkpoints: Vec<Checkpoint> = Vec::new();
    let mut prompt_index: u32 = 0;
    let mut current: u32 = 0;
    let mut i: usize = 0;
    proof {
        assert(all.subrange(0, 0) =~= Seq::<RecordV>::empty());
        assert(views(messages@) =~= Seq::<MessageV>::empty());
        assert(views(checkpoints@) =~= Seq::<CheckpointV>::empty());
    }
    while i < records.len()
        invariant
            i <= n == records@.len(),
            all == views(records@),
            limits@.len() == n + 1,
            are_limits(all, limits@),
            views(messages@) == messages_of(all.subrange(0, i as int), limits@[n - i]),
            views(checkpoints@) == checkpoints_of(all.subrange(0, i as int), limits@[n - i]),
            prompt_index == last_turn(all.subrange(0, i as int), limits@[n - i]),
            current == turn(all.subrange(0, i as int)),
            match meta {
                None => head(all.subrange(0, i as int)) is None,
                Some(h) => head(all.subrange(0, i as int)) == Some((h.0, h.1, h.2@)),
            },
        decreases records@.len() - i,
    {
        let ghost known = views(messages@);
        let ghost known_cps = views(checkpoints@);
        let limit: u32 = limits[n - 1 - i];
        proof {
            assert(limits@[(n - 1 - i) + 1] == lowered(all[i as int], limit));
            let pre = all.subrange(0, i + 1);
            assert(pre.drop_last() =~= all.subrange(0, i as int));
            assert(pre.last() == records@[i as int]@);
        }
        match &records[i] {
            UpdateRecord::Meta { id, created_at, model } => {
                meta = Some((*id, *created_at, model.clone()));
            },
            UpdateRecord::UserMessage { prompt_index: index, content } => {
                current = *index;
                if current <= limit {
                    prompt_index = current;
                    let m = Message::User { content: content.clone() };
                    messages.push(m);
                    assert(views(messages@) =~= known.push(m@));
                }
            },
            UpdateRecord::AssistantMessage { content, reasoning_content, tool_calls } => {
                if current <= limit {
                    let m = Message::Assistant {
                        content: clone_opt(content),
                        reasoning_content: clone_opt(reasoning_content),
                        tool_calls: clone_calls(tool_calls),
                    };
                    messages.push(m);
                    assert(views(messages@) =~= known.push(m@));
                }
            },
            UpdateRecord::ToolResult { tool_call_id, content } => {
                if current <= limit {
                    let m = Message::Tool {
                        tool_call_id: tool_call_id.clone(),
                        content: content.clone(),
                    };
                    messages.push(m);
                    assert(views(messages@) =~= known.push(m@));
                }
            },
            UpdateRecord::Checkpoint(cp) => {
                if cp.prompt_index <= limit {
                    let copy = cp.clone();
                    checkpoints.push(copy);
                    assert(views(checkpoints@) =~= known_cps.push(copy@));
                }
            },
            UpdateRecord::Rewind { to_prompt_index } => {
                if *to_prompt_index < current {
                    current = *to_prompt_index;
                }
            },
        }
        i = i + 1;
    }
    assert(all.subrange(0, i as int) =~= all);
    match meta {
        None => Err(SessionError::Replay("日志缺少 Meta 首行".to_owned())),
        Some((id, created_at, model)) => Ok(
            ReplayState { id, created_at, model, messages, prompt_index, checkpoints },
        ),
    }
}

// ---------------------------------------------------------------------------
// What rewinding does
// ---------------------------------------------------------------------------
/// A log that is rewound keeps its head, and of its turns exactly those up to
/// the given one that were not undone before.
pub proof fn law_rewind_keeps_earlier_turns(s: Seq<RecordV>, to: u32)
    ensures
        ({
            let after = s.push(RecordV::Rewind { to_prompt_index: to });
            &&& head(after) == head(s)
            &&& messages_of(after, u32::MAX) == messages_of(s, to)
            &&& last_turn(after, u32::MAX) == last_turn(s, to)
            &&& checkpoints_of(after, u32::MAX) == checkpoints_of(s, to)
        }),
{
    let after = s.push(RecordV::Rewind { to_prompt_index: to });
    assert(after.drop_last() =~= s);
}

/// Nothing beyond the limit is kept.
proof fn lemma_within_limit(s: Seq<RecordV>, limit: u32)
    ensures
        last_turn(s, limit) <= limit,
        forall|i: int|
            0 <= i < checkpoints_of(s, limit).len() ==> (#[trigger] checkpoints_of(
                s,
                limit,
            )[i]).prompt_index <= limit,
    decreases s.len(),
{
    if s.len() > 0 {
        lemma_within_limit(s.drop_last(), lowered(s.last(), limit));
    }
}

/// After a rewind neither the turn of the session nor any checkpoint lies
/// beyond the turn that it was rewound to, and rewinding to the same turn again
/// changes nothing.
pub proof fn law_rewind_bounds_session(s: Seq<RecordV>, to: u32)
    ensures
        replayed(s.push(RecordV::Rewind { to_prompt_index: to })) matches Ok(v)
            ==> v.prompt_index <= to && forall|i: int|
            0 <= i < v.checkpoints.len() ==> (#[trigger] v.checkpoints[i]).prompt_index <= to,
        replayed(
            s.push(RecordV::Rewind { to_prompt_index: to }).push(
                RecordV::Rewind { to_prompt_index: to },
            ),
        ) == replayed(s.push(RecordV::Rewind { to_prompt_index: to })),
{
    let once = s.push(RecordV::Rewind { to_prompt_index: to });
    assert(once.drop_last() =~= s);
    law_rewind_keeps_earlier_turns(s, to);
    law_rewind_keeps_earlier_turns(once, to);
    lemma_within_limit(s, to);
}

/// The turns of the log follow each other in order: each message of the user
/// begins a turn no lower than the one that the log has reached.
pub open spec fn turns_in_order(s: Seq<RecordV>) -> bool
    decreases s.len(),
{
    s.len() == 0 || (turns_in_order(s.drop_last()) && (s.last() matches RecordV::UserMessage {
        prompt_index,
        ..
    } ==> turn(s.drop_last()) <= prompt_index))
}

proof fn lemma_messages_prefix(s: Seq<RecordV>, less: u32, more: u32)
    requires
        turns_in_order(s),
        less <= more,
    ensures
        messages_of(s, less).is_prefix_of(messages_of(s, more)),
        turn(s) <= less ==> messages_of(s, less) == messages_of(s, more),
    decreases s.len(),
{
    if s.len() > 0 {
        lemma_messages_prefix(
            s.drop_last(),
            lowered(s.last(), less),
            lowered(s.last(), more),
        );
    }
}

/// Where the turns of a log follow each other in order, rewinding it cuts off
/// the end of the conversation: what is left is how it began.
pub proof fn law_rewind_truncates(s: Seq<RecordV>, to: u32)
    requires
        turns_in_order(s),
    ensures
        replayed(s) matches Ok(before) ==> (replayed(
            s.push(RecordV::Rewind { to_prompt_index: to }),
        ) matches Ok(after) && after.messages.is_prefix_of(before.messages)),
{
    law_rewind_keeps_earlier_turns(s, to);
    lemma_messages_prefix(s, to, u32::MAX);
}

/// The turns of the log are numbered without a gap: each message of the user
/// begins the turn after the one that the log has reached.
pub open spec fn numbered(s: Seq<RecordV>) -> bool
    decreases s.len(),
{
    s.len() == 0 || (numbered(s.drop_last()) && (s.last() matches RecordV::UserMessage {
        prompt_index,
        ..
    } ==> prompt_index == turn(s.drop_last()) + 1))
}

/// Where the turns of a log are numbered without a gap, they follow each other
/// in order, the turn of the session is the one that the log has reached, and a
/// rewind to a lower one is a rewind to exactly that turn.
pub proof fn law_turn_is_reached(s: Seq<RecordV>, limit: u32)
    requires
        numbered(s),
    ensures
        turns_in_order(s),
        last_turn(s, limit) == low(turn(s), limit),
        last_turn(s, u32::MAX) == turn(s),
    decreases s.len(),
{
    if s.len() > 0 {
        law_turn_is_reached(s.drop_last(), lowered(s.last(), limit));
        law_turn_is_reached(s.drop_last(), lowered(s.last(), u32::MAX));
    }
}

/// The last turn that counts among what stands before some records, given the
/// last one that counts up to their end.
pub open spec fn cutoff(later: Seq<RecordV>, limit: u32) -> u32
    decreases later.len(),
{
    if later.len() == 0 {
        limit
    } else {
        cutoff(later.drop_last(), lowered(later.last(), limit))
    }
}

/// What some records add to the conversation when they stand behind others.
pub open spec fn later_messages(s: Seq<RecordV>, later: Seq<RecordV>, limit: u32) -> Seq<MessageV>
    decreases later.len(),
{
    if later.len() == 0 {
        seq![]
    } else {
        let rest = later_messages(s, later.drop_last(), lowered(later.last(), limit));
        match message_of(later.last()) {
            Some(m) => if turn(s + later) <= limit {
                rest.push(m)
            } else {
                rest
            },
            None => rest,
        }
    }
}

proof fn lemma_cutoff(later: Seq<RecordV>, limit: u32)
    ensures
        cutoff(later, limit) <= limit,
        later.len() > 0 ==> cutoff(later, limit) <= lowered(later[0], limit),
    decreases later.len(),
{
    if later.len() > 0 {
        lemma_cutoff(later.drop_last(), lowered(later.last(), limit));
        if later.len() > 1 {
            assert(later.drop_last()[0] == later[0]);
        }
    }
}

proof fn lemma_split(s: Seq<RecordV>, later: Seq<RecordV>, limit: u32)
    ensures
        messages_of(s + later, limit) == messages_of(s, cutoff(later, limit)) + later_messages(
            s,
            later,
            limit,
        ),
        checkpoints_of(s + later, limit) == checkpoints_of(s, cutoff(later, limit))
            + checkpoints_of(later, limit),
    decreases later.len(),
{
    if later.len() == 0 {
        assert(s + later =~= s);
        assert(messages_of(s, limit) + Seq::<MessageV>::empty() =~= messages_of(s, limit));
        assert(checkpoints_of(s, limit) + Seq::<CheckpointV>::empty() =~= checkpoints_of(s, limit));
    } else {
        let r = later.last();
        let less = later.drop_last();
        assert((s + later).drop_last() =~= s + less);
        assert((s + later).last() == r);
        lemma_split(s, less, lowered(r, limit));
        assert(messages_of(s + later, limit) =~= messages_of(s, cutoff(later, limit))
            + later_messages(s, later, limit));
        assert(checkpoints_of(s + later, limit) =~= checkpoints_of(s, cutoff(later, limit))
            + checkpoints_of(later, limit));
    }
}

/// What was undone does not come back, and what comes after a rewind is not
/// undone by it: whatever stands behind a rewind, the conversation begins with
/// turns of what stood before it, none of them beyond the turn that it was
/// rewound to, and goes on with what stands behind it. So it is with the
/// checkpoints.
pub proof fn law_undone_turns_stay_undone(s: Seq<RecordV>, to: u32, later: Seq<RecordV>)
    ensures
        ({
            let tail = seq![RecordV::Rewind { to_prompt_index: to }] + later;
            let kept = cutoff(tail, u32::MAX);
            &&& kept <= to
            &&& messages_of(s + tail, u32::MAX) == messages_of(s, kept) + later_messages(
                s,
                tail,
                u32::MAX,
            )
            &&& checkpoints_of(s + tail, u32::MAX) == checkpoints_of(s, kept) + checkpoints_of(
                tail,
                u32::MAX,
            )
            &&& (forall|i: int| 0 <= i < later.len() ==> !((#[trigger] later[i]) is Rewind))
                ==> kept == to
        }),
{
    let tail = seq![RecordV::Rewind { to_prompt_index: to }] + later;
    lemma_cutoff(tail, u32::MAX);
    lemma_split(s, tail, u32::MAX);
    if forall|i: int| 0 <= i < later.len() ==> !((#[trigger] later[i]) is Rewind) {
        lemma_cutoff_of_one(to, later);
    }
}

proof fn lemma_cutoff_of_one(to: u32, later: Seq<RecordV>)
    requires
        forall|i: int| 0 <= i < later.len() ==> !((#[trigger] later[i]) is Rewind),
    ensures
        cutoff(seq![RecordV::Rewind { to_prompt_index: to }] + later, u32::MAX) == to,
    decreases later.len(),
{
    let first = seq![RecordV::Rewind { to_prompt_index: to }];
    if later.len() == 0 {
        assert(first + later =~= first);
        assert(first.drop_last() =~= Seq::<RecordV>::empty());
        reveal_with_fuel(cutoff, 2);
    } else {
        assert((first + later).drop_last() =~= first + later.drop_last());
        assert((first + later).last() == later[later.len() - 1]);
        assert forall|i: int| 0 <= i < later.drop_last().len() implies !((
        #[trigger] later.drop_last()[i]) is Rewind) by {
            assert(later.drop_last()[i] == later[i]);
        }
        lemma_cutoff_of_one(to, later.drop_last());
    }
}

// ---------------------------------------------------------------------------
// What a log stands for
// ---------------------------------------------------------------------------
/// No record undoes anything.
pub open spec fn straight(s: Seq<RecordV>) -> bool {
    forall|i: int| 0 <= i < s.len() ==> !((#[trigger] s[i]) is Rewind)
}

/// Every message in the records, in order.
pub open spec fn spoken(s: Seq<RecordV>) -> Seq<MessageV>
    decreases s.len(),
{
    if s.len() == 0 {
        seq![]
    } else {
        let rest = spoken(s.drop_last());
        match s.last() {
            RecordV::UserMessage { content, .. } => rest.push(MessageV::User { content }),
            RecordV::AssistantMessage { content, reasoning_content, tool_calls } => rest.push(
                MessageV::Assistant { content, reasoning_content, tool_calls },
            ),
            RecordV::ToolResult { tool_call_id, content } => rest.push(
                MessageV::Tool { tool_call_id, content },
            ),
            _ => rest,
        }
    }
}

/// Every checkpoint in the records, in order.
pub open spec fn sealed(s: Seq<RecordV>) -> Seq<CheckpointV>
    decreases s.len(),
{
    if s.len() == 0 {
        seq![]
    } else {
        let rest = sealed(s.drop_last());
        match s.last() {
            RecordV::Checkpoint(cp) => rest.push(cp),
            _ => rest,
        }
    }
}

/// The number of the last message of the user, and zero without one.
pub open spec fn last_number(s: Seq<RecordV>) -> u32
    decreases s.len(),
{
    if s.len() == 0 {
        0
    } else {
        match s.last() {
            RecordV::UserMessage { prompt_index, .. } => prompt_index,
            _ => last_number(s.drop_last()),
        }
    }
}

/// No turn or checkpoint in the records is later than the given one.
pub open spec fn up_to(s: Seq<RecordV>, to: u32) -> bool {
    forall|i: int|
        0 <= i < s.len() ==> match (#[trigger] s[i]) {
            RecordV::UserMessage { prompt_index, .. } => prompt_index <= to,
            RecordV::Checkpoint(cp) => cp.prompt_index <= to,
            _ => true,
        }
}

/// The records begin with a message of the user, and every turn and checkpoint in
/// them is later than the given one.
pub open spec fn later_than(s: Seq<RecordV>, to: u32) -> bool {
    &&& s.len() > 0 ==> s[0] is UserMessage
    &&& forall|i: int|
        0 <= i < s.len() ==> match (#[trigger] s[i]) {
            RecordV::UserMessage { prompt_index, .. } => prompt_index > to,
            RecordV::Checkpoint(cp) => cp.prompt_index > to,
            _ => true,
        }
}

proof fn lemma_kept_whole(s: Seq<RecordV>, to: u32)
    requires
        straight(s),
        up_to(s, to),
    ensures
        messages_of(s, to) == spoken(s),
        checkpoints_of(s, to) == sealed(s),
        last_turn(s, to) == last_number(s),
        turn(s) == last_number(s),
        turn(s) <= to,
    decreases s.len(),
{
    if s.len() > 0 {
        let old = s.drop_last();
        assert forall|i: int| 0 <= i < old.len() implies !((#[trigger] old[i]) is Rewind) by {
            assert(old[i] == s[i]);
        }
        assert forall|i: int| 0 <= i < old.len() implies match (#[trigger] old[i]) {
            RecordV::UserMessage { prompt_index, .. } => prompt_index <= to,
            RecordV::Checkpoint(cp) => cp.prompt_index <= to,
            _ => true,
        } by {
            assert(old[i] == s[i]);
        }
        lemma_kept_whole(old, to);
        assert(s.last() == s[s.len() - 1]);
        assert(lowered(s.last(), to) == to);
    }
}

proof fn lemma_left_out(a: Seq<RecordV>, b: Seq<RecordV>, to: u32)
    requires
        straight(a),
        straight(b),
        up_to(a, to),
        later_than(b, to),
    ensures
        messages_of(a + b, to) == messages_of(a, to),
        checkpoints_of(a + b, to) == checkpoints_of(a, to),
        last_turn(a + b, to) == last_turn(a, to),
        b.len() > 0 ==> turn(a + b) > to,
    decreases b.len(),
{
    if b.len() == 0 {
        assert(a + b =~= a);
    } else {
        let old = b.drop_last();
        assert forall|i: int| 0 <= i < old.len() implies !((#[trigger] old[i]) is Rewind) by {
            assert(old[i] == b[i]);
        }
        assert forall|i: int| 0 <= i < old.len() implies match (#[trigger] old[i]) {
            RecordV::UserMessage { prompt_index, .. } => prompt_index > to,
            RecordV::Checkpoint(cp) => cp.prompt_index > to,
            _ => true,
        } by {
            assert(old[i] == b[i]);
        }
        if old.len() > 0 {
            assert(old[0] == b[0]);
        }
        lemma_left_out(a, old, to);
        assert((a + b).drop_last() =~= a + old);
        assert((a + b).last() == b.last());
        assert(b.last() == b[b.len() - 1]);
        assert(lowered(b.last(), to) == to);
        assert(lowered(b.last(), turn(a + old)) == turn(a + old));
    }
}

/// A log that undoes nothing stands for all its messages and all its checkpoints,
/// in order, and for the turn of its last message of the user.
pub proof fn law_straight_logs_are_kept_whole(s: Seq<RecordV>)
    requires
        straight(s),
    ensures
        replayed(s) matches Ok(session) ==> {
            &&& session.messages == spoken(s)
            &&& session.checkpoints == sealed(s)
            &&& session.prompt_index == last_number(s)
        },
{
    lemma_kept_whole(s, u32::MAX);
}

/// Going back to a turn leaves exactly what was there at its end: the messages
/// and checkpoints up to it, in order, and nothing of the later turns.
pub proof fn law_going_back_leaves_what_came_before(
    a: Seq<RecordV>,
    b: Seq<RecordV>,
    to: u32,
)
    requires
        straight(a),
        straight(b),
        up_to(a, to),
        later_than(b, to),
    ensures
        replayed((a + b).push(RecordV::Rewind { to_prompt_index: to })) matches Ok(session) ==> {
            &&& session.messages == spoken(a)
            &&& session.checkpoints == sealed(a)
            &&& session.prompt_index == last_number(a)
        },
{
    law_rewind_keeps_earlier_turns(a + b, to);
    lemma_left_out(a, b, to);
    lemma_kept_whole(a, to);
}

/// The session has the identifier, the time and the model of the last record
/// that gives them; a log without one stands for no session.
pub proof fn law_sessions_are_of_their_meta_record(s: Seq<RecordV>, r: RecordV)
    ensures
        r matches RecordV::Meta { id, created_at, model } ==> (replayed(s.push(r)) matches Ok(v)
            && v.id == id && v.created_at == created_at && v.model == model),
        !(r is Meta) ==> match (replayed(s), replayed(s.push(r))) {
            (Ok(a), Ok(b)) => a.id == b.id && a.created_at == b.created_at && a.model == b.model,
            (Err(a), Err(b)) => a == b,
            _ => false,
        },
        replayed(seq![]) == Err::<SessionV, SessionErrorV>(
            SessionErrorV::Replay("日志缺少 Meta 首行"@),
        ),
{
    assert(s.push(r).drop_last() =~= s);
}

/// The lines are read one after the other: a line of white space is passed over,
/// any other gives one record, and the first that cannot be read is an error with
/// its number.
pub proof fn law_lines_are_read_in_order(s: Seq<Seq<char>>, line: Seq<char>)
    ensures
        read_lines(seq![]) == Ok::<Seq<RecordV>, SessionErrorV>(seq![]),
        match read_lines(s) {
            Err(e) => read_lines(s.push(line)) == Err::<Seq<RecordV>, SessionErrorV>(e),
            Ok(done) => if trimmed(line).len() == 0 {
                read_lines(s.push(line)) == Ok::<Seq<RecordV>, SessionErrorV>(done)
            } else {
                match line_record(trimmed(line)) {
                    Ok(r) => read_lines(s.push(line)) == Ok::<Seq<RecordV>, SessionErrorV>(
                        done.push(r),
                    ),
                    Err(e) => read_lines(s.push(line)) == Err::<Seq<RecordV>, SessionErrorV>(
                        SessionErrorV::Replay(
                            "第 "@ + decimal((s.len() + 1) as nat) + " 行损坏: "@ + e,
                        ),
                    ),
                }
            },
        },
{
    assert(s.push(line).drop_last() =~= s);
}

/// A record is written with its kind and all that it holds.
pub proof fn law_records_are_written(
    id: SessionId,
    created_at: Timestamp,
    model: ModelV,
    n: u32,
    text: Seq<char>,
    call: Seq<char>,
)
    ensures
        ({
            let j = record_json(RecordV::Meta { id, created_at, model });
            &&& j.get("kind"@) == Some(JsonV::Text("meta"@))
            &&& j.get("id"@) == Some(JsonV::Text(uuid_text(id.value)))
            &&& rfc3339_text(created_at.secs, created_at.nanos) matches Some(t) ==> j.get(
                "created_at"@,
            ) == Some(JsonV::Text(t))
            &&& j.get("model"@) == Some(JsonV::Text(model_name(model)))
        }),
        ({
            let j = record_json(RecordV::UserMessage { prompt_index: n, content: text });
            &&& j.get("kind"@) == Some(JsonV::Text("user_message"@))
            &&& j.get("prompt_index"@) == Some(JsonV::Number(n as u64))
            &&& j.get("content"@) == Some(JsonV::Text(text))
        }),
        ({
            let j = record_json(RecordV::ToolResult { tool_call_id: call, content: text });
            &&& j.get("kind"@) == Some(JsonV::Text("tool_result"@))
            &&& j.get("tool_call_id"@) == Some(JsonV::Text(call))
            &&& j.get("content"@) == Some(JsonV::Text(text))
        }),
        ({
            let j = record_json(RecordV::Rewind { to_prompt_index: n });
            &&& j.get("kind"@) == Some(JsonV::Text("rewind"@))
            &&& j.get("to_prompt_index"@) == Some(JsonV::Number(n as u64))
        }),
{
    reveal_strlit("kind");
    reveal_strlit("id");
    reveal_strlit("created_at");
    reveal_strlit("model");
    reveal_strlit("prompt_index");
    reveal_strlit("content");
    reveal_strlit("tool_call_id");
    reveal_strlit("to_prompt_index");
    assert("kind"@.len() == 4 && "id"@.len() == 2 && "created_at"@.len() == 10 && "model"@.len()
        == 5);
    assert("prompt_index"@.len() == 12 && "content"@.len() == 7 && "tool_call_id"@.len() == 12
        && "to_prompt_index"@.len() == 15);
    let meta = record_entries(RecordV::Meta { id, created_at, model });
    lemma_entry(meta, 0);
    lemma_entry(meta, 1);
    lemma_entry(meta, 2);
    lemma_entry(meta, 3);
    let user = record_entries(RecordV::UserMessage { prompt_index: n, content: text });
    lemma_entry(user, 0);
    lemma_entry(user, 1);
    lemma_entry(user, 2);
    let tool = record_entries(RecordV::ToolResult { tool_call_id: call, content: text });
    lemma_entry(tool, 0);
    lemma_entry(tool, 1);
    lemma_entry(tool, 2);
    let rewind = record_entries(RecordV::Rewind { to_prompt_index: n });
    lemma_entry(rewind, 0);
    lemma_entry(rewind, 1);
}

/// The record of an answer is written with its text and its reasoning, `null`
/// where there is none, and with all its tool calls; that of a checkpoint with all
/// that the checkpoint holds.
pub proof fn law_answers_and_checkpoints_are_written(
    content: Option<Seq<char>>,
    reasoning_content: Option<Seq<char>>,
    tool_calls: Seq<ToolCallV>,
    cp: CheckpointV,
    key: Seq<char>,
)
    ensures
        ({
            let j = record_json(
                RecordV::AssistantMessage { content, reasoning_content, tool_calls },
            );
            &&& j.get("kind"@) == Some(JsonV::Text("assistant_message"@))
            &&& j.get("content"@) == Some(
                match content {
                    Some(s) => JsonV::Text(s),
                    None => JsonV::Null,
                },
            )
            &&& j.get("reasoning_content"@) == Some(
                match reasoning_content {
                    Some(s) => JsonV::Text(s),
                    None => JsonV::Null,
                },
            )
            &&& j.get("tool_calls"@) matches Some(JsonV::Array(items)) && items.len()
                == tool_calls.len() && forall|i: int|
                0 <= i < items.len() ==> #[trigger] items[i] == call_json(tool_calls[i])
        }),
        ({
            let j = record_json(RecordV::Checkpoint(cp));
            &&& j.get("kind"@) == Some(JsonV::Text("checkpoint"@))
            &&& key != "kind"@ ==> j.get(key) == JsonV::Object(checkpoint_entries(cp)).get(key)
        }),
{
    reveal_strlit("kind");
    reveal_strlit("content");
    reveal_strlit("reasoning_content");
    reveal_strlit("tool_calls");
    assert("kind"@.len() == 4 && "content"@.len() == 7 && "reasoning_content"@.len() == 17
        && "tool_calls"@.len() == 10);
    let answer = record_entries(
        RecordV::AssistantMessage { content, reasoning_content, tool_calls },
    );
    lemma_entry(answer, 0);
    lemma_entry(answer, 1);
    lemma_entry(answer, 2);
    lemma_entry(answer, 3);
    reveal_with_fuel(lookup, 2);
    let kind = seq![("kind"@, JsonV::Text("checkpoint"@))];
    lemma_lookup_in_sum(kind, checkpoint_entries(cp), "kind"@);
    lemma_lookup_in_sum(kind, checkpoint_entries(cp), key);
}

/// A record of a message of the user, of a result or of a rewind is read from its
/// kind and its fields, whatever else stands there.
pub proof fn law_records_are_read(j: JsonV, n: u32, text: Seq<char>, call: Seq<char>)
    ensures
        ({
            let keys = seq!["kind"@, "prompt_index"@, "content"@];
            stands(j, keys, 3, 0, JsonV::Text("user_message"@)) && stands(
                j,
                keys,
                3,
                1,
                JsonV::Number(n as u64),
            ) && stands(j, keys, 3, 2, JsonV::Text(text)) ==> json_record(j) == Ok::<
                RecordV,
                Seq<char>,
            >(RecordV::UserMessage { prompt_index: n, content: text })
        }),
        ({
            let keys = seq!["kind"@, "tool_call_id"@, "content"@];
            stands(j, keys, 3, 0, JsonV::Text("tool_result"@)) && stands(
                j,
                keys,
                3,
                1,
                JsonV::Text(call),
            ) && stands(j, keys, 3, 2, JsonV::Text(text)) ==> json_record(j) == Ok::<
                RecordV,
                Seq<char>,
            >(RecordV::ToolResult { tool_call_id: call, content: text })
        }),
        ({
            let keys = seq!["kind"@, "to_prompt_index"@];
            stands(j, keys, 2, 0, JsonV::Text("rewind"@)) && stands(
                j,
                keys,
                2,
                1,
                JsonV::Number(n as u64),
            ) ==> json_record(j) == Ok::<RecordV, Seq<char>>(
                RecordV::Rewind { to_prompt_index: n },
            )
        }),
{
    reveal_strlit("meta");
    reveal_strlit("user_message");
    reveal_strlit("assistant_message");
    reveal_strlit("tool_result");
    reveal_strlit("checkpoint");
    reveal_strlit("rewind");
    assert("meta"@.len() == 4 && "user_message"@.len() == 12 && "assistant_message"@.len() == 17
        && "tool_result"@.len() == 11 && "checkpoint"@.len() == 10 && "rewind"@.len() == 6);
    reveal_strlit("kind");
    reveal_strlit("prompt_index");
    reveal_strlit("content");
    reveal_strlit("tool_call_id");
    reveal_strlit("to_prompt_index");
    assert("kind"@.len() == 4 && "prompt_index"@.len() == 12 && "content"@.len() == 7
        && "tool_call_id"@.len() == 12 && "to_prompt_index"@.len() == 15);
    let user = seq!["kind"@, "prompt_index"@, "content"@];
    lemma_stands(j, user, 3, 0, JsonV::Text("user_message"@));
    lemma_stands(j, user, 3, 1, JsonV::Number(n as u64));
    lemma_stands(j, user, 3, 2, JsonV::Text(text));
    let tool = seq!["kind"@, "tool_call_id"@, "content"@];
    lemma_stands(j, tool, 3, 0, JsonV::Text("tool_result"@));
    lemma_stands(j, tool, 3, 1, JsonV::Text(call));
    lemma_stands(j, tool, 3, 2, JsonV::Text(text));
    let rewind = seq!["kind"@, "to_prompt_index"@];
    lemma_stands(j, rewind, 2, 0, JsonV::Text("rewind"@));
    lemma_stands(j, rewind, 2, 1, JsonV::Number(n as u64));
}

/// The record that begins a log is read from the identifier, the time and the
/// model.
pub proof fn law_meta_records_are_read(
    j: JsonV,
    id: Seq<char>,
    time: Seq<char>,
    name: Seq<char>,
    v: u128,
    t: Timestamp,
    model: ModelV,
)
    requires
        ({
            let keys = seq!["kind"@, "id"@, "created_at"@, "model"@];
            &&& stands(j, keys, 4, 0, JsonV::Text("meta"@))
            &&& stands(j, keys, 4, 1, JsonV::Text(id)) && uuid_parse(id) == Some(v)
            &&& stands(j, keys, 4, 2, JsonV::Text(time)) && rfc3339_parse(time) == Some(
                (t.secs, t.nanos),
            )
            &&& stands(j, keys, 4, 3, JsonV::Text(name)) && named_model(name) == Some(model)
        }),
    ensures
        json_record(j) == Ok::<RecordV, Seq<char>>(
            RecordV::Meta { id: SessionId { value: v }, created_at: t, model },
        ),
{
    reveal_strlit("meta");
    reveal_strlit("user_message");
    reveal_strlit("assistant_message");
    reveal_strlit("tool_result");
    reveal_strlit("checkpoint");
    reveal_strlit("rewind");
    assert("meta"@.len() == 4 && "user_message"@.len() == 12 && "assistant_message"@.len() == 17
        && "tool_result"@.len() == 11 && "checkpoint"@.len() == 10 && "rewind"@.len() == 6);
    reveal_strlit("kind");
    reveal_strlit("id");
    reveal_strlit("created_at");
    reveal_strlit("model");
    assert("kind"@.len() == 4 && "id"@.len() == 2 && "created_at"@.len() == 10 && "model"@.len()
        == 5);
    let keys = seq!["kind"@, "id"@, "created_at"@, "model"@];
    lemma_stands(j, keys, 4, 0, JsonV::Text("meta"@));
    lemma_stands(j, keys, 4, 1, JsonV::Text(id));
    lemma_stands(j, keys, 4, 2, JsonV::Text(time));
    lemma_stands(j, keys, 4, 3, JsonV::Text(name));
}

/// The record of an answer is read from its text, its reasoning and its tool
/// calls; the first two may be missing.
pub proof fn law_answer_records_are_read(
    j: JsonV,
    content: Option<Seq<char>>,
    reasoning_content: Option<Seq<char>>,
    items: Seq<JsonV>,
    calls: Seq<ToolCallV>,
)
    requires
        ({
            let keys = seq!["kind"@, "content"@, "reasoning_content"@, "tool_calls"@];
            &&& stands(j, keys, 4, 0, JsonV::Text("assistant_message"@))
            &&& match content {
                Some(s) => stands(j, keys, 4, 1, JsonV::Text(s)),
                None => is_blank(j, keys, 4, 1),
            }
            &&& match reasoning_content {
                Some(s) => stands(j, keys, 4, 2, JsonV::Text(s)),
                None => is_blank(j, keys, 4, 2),
            }
            &&& stands(j, keys, 4, 3, JsonV::Array(items)) && json_calls(items) == Ok::<
                Seq<ToolCallV>,
                Seq<char>,
            >(calls)
        }),
    ensures
        json_record(j) == Ok::<RecordV, Seq<char>>(
            RecordV::AssistantMessage { content, reasoning_content, tool_calls: calls },
        ),
{
    reveal_strlit("meta");
    reveal_strlit("user_message");
    reveal_strlit("assistant_message");
    reveal_strlit("tool_result");
    reveal_strlit("checkpoint");
    reveal_strlit("rewind");
    assert("meta"@.len() == 4 && "user_message"@.len() == 12 && "assistant_message"@.len() == 17
        && "tool_result"@.len() == 11 && "checkpoint"@.len() == 10 && "rewind"@.len() == 6);
    reveal_strlit("kind");
    reveal_strlit("content");
    reveal_strlit("reasoning_content");
    reveal_strlit("tool_calls");
    assert("kind"@.len() == 4 && "content"@.len() == 7 && "reasoning_content"@.len() == 17
        && "tool_calls"@.len() == 10);
    let keys = seq!["kind"@, "content"@, "reasoning_content"@, "tool_calls"@];
    lemma_stands(j, keys, 4, 0, JsonV::Text("assistant_message"@));
    lemma_stands(j, keys, 4, 1, opt_text_json(content));
    lemma_stands(j, keys, 4, 2, opt_text_json(reasoning_content));
    lemma_stands(j, keys, 4, 3, JsonV::Array(items));
}

/// The record of a checkpoint is read as the checkpoint is, and a kind that is
/// none is an error.
pub proof fn law_checkpoint_records_are_read(j: JsonV, kind: Seq<char>)
    ensures
        j is Object && j.get("kind"@) == Some(JsonV::Text("checkpoint"@)) ==> match json_checkpoint(
            j,
        ) {
            Ok(cp) => json_record(j) == Ok::<RecordV, Seq<char>>(RecordV::Checkpoint(cp)),
            Err(e) => json_record(j) == Err::<RecordV, Seq<char>>(e),
        },
        j is Object && j.get("kind"@) == Some(JsonV::Text(kind)) && kind != "meta"@ && kind
            != "user_message"@ && kind != "assistant_message"@ && kind != "tool_result"@ && kind
            != "checkpoint"@ && kind != "rewind"@ ==> json_record(j) == Err::<RecordV, Seq<char>>(
            "unknown variant `"@ + kind + "`"@,
        ),
{
    reveal_strlit("meta");
    reveal_strlit("user_message");
    reveal_strlit("assistant_message");
    reveal_strlit("tool_result");
    reveal_strlit("checkpoint");
    reveal_strlit("rewind");
    assert("meta"@.len() == 4 && "user_message"@.len() == 12 && "assistant_message"@.len() == 17
        && "tool_result"@.len() == 11 && "checkpoint"@.len() == 10 && "rewind"@.len() == 6);
}

} // verus!
