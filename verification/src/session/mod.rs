//! Sessions: the conversation in memory, and how it keeps in step with its log.
use crate::api::{clone_calls, Message, MessageV, ToolCall};
use crate::config::{below, join_path, Model, ModelV, PlaceV};
use crate::errors::{SessionError, SessionErrorV};
use crate::stamp::{
    hex_char, law_uuid_texts_differ, nibble, uuid_parse, uuid_text, SessionId, Timestamp,
};
use crate::text::{clone_opt, view_opt, view_res, views};
use vstd::prelude::*;

pub mod checkpoint;
pub mod log;

use checkpoint::{restore_files, restore_plan, Checkpoint, CheckpointV, FileRestore};
use log::{
    checkpoints_of, head, last_turn, law_turn_is_reached, low, lowered, message_of, messages_of,
    numbered, read_all, read_log, replay, replayed, turn, RecordV, ReplayState, SessionV,
    UpdateRecord,
};

verus! {

/// A session: what its log stands for, and where the log is kept.
#[derive(Debug)]
pub struct Session {
    pub id: SessionId,
    pub created_at: Timestamp,
    pub model: Model,
    pub messages: Vec<Message>,
    /// The number of the present turn.
    pub prompt_index: u32,
    pub checkpoints: Vec<Checkpoint>,
    /// The file that holds the log.
    pub log_path: String,
}

/// A copy of some messages.
fn clone_messages(v: &Vec<Message>) -> (r: Vec<Message>)
    ensures
        views(r@) == views(v@),
{
    let mut out: Vec<Message> = Vec::new();
    let mut i: usize = 0;
    while i < v.len()
        invariant
            i <= v@.len(),
            out@.len() == i,
            forall|j: int| 0 <= j < i ==> (#[trigger] out@[j])@ == v@[j]@,
        decreases v@.len() - i,
    {
        out.push(v[i].clone());
        i = i + 1;
    }
    assert(views(out@) =~= views(v@));
    out
}

/// A copy of some checkpoints.
fn clone_checkpoints(v: &Vec<Checkpoint>) -> (r: Vec<Checkpoint>)
    ensures
        views(r@) == views(v@),
{
    let mut out: Vec<Checkpoint> = Vec::new();
    let mut i: usize = 0;
    while i < v.len()
        invariant
            i <= v@.len(),
            out@.len() == i,
            forall|j: int| 0 <= j < i ==> (#[trigger] out@[j])@ == v@[j]@,
        decreases v@.len() - i,
    {
        out.push(v[i].clone());
        i = i + 1;
    }
    assert(views(out@) =~= views(v@));
    out
}

impl Clone for Session {
    fn clone(&self) -> (r: Session)
        ensures
            r@ == self@,
            r.log_path@ == self.log_path@,
    {
        Session {
            id: self.id,
            created_at: self.created_at,
            model: self.model.clone(),
            messages: clone_messages(&self.messages),
            prompt_index: self.prompt_index,
            checkpoints: clone_checkpoints(&self.checkpoints),
            log_path: self.log_path.clone(),
        }
    }
}

impl View for Session {
    type V = SessionV;

    open spec fn view(&self) -> SessionV {
        SessionV {
            id: self.id,
            created_at: self.created_at,
            model: self.model@,
            messages: views(self.messages@),
            prompt_index: self.prompt_index,
            checkpoints: views(self.checkpoints@),
        }
    }
}

/// The log of a session: `updates.jsonl` in a directory of its own, which is
/// named by the identifier.
pub open spec fn log_file(dir: Seq<char>, id: SessionId) -> Seq<char> {
    below(below(dir, uuid_text(id.value)), "updates.jsonl"@)
}

/// The session that has just begun.
pub open spec fn started(id: SessionId, created_at: Timestamp, model: ModelV) -> SessionV {
    SessionV {
        id,
        created_at,
        model,
        messages: seq![],
        prompt_index: 0,
        checkpoints: seq![],
    }
}

/// The session with one more message.
pub open spec fn with_message(s: SessionV, m: MessageV) -> SessionV {
    SessionV { messages: s.messages.push(m), ..s }
}

/// The session with one more message of the user, which begins a turn.
pub open spec fn with_user(s: SessionV, content: Seq<char>) -> SessionV {
    SessionV {
        messages: s.messages.push(MessageV::User { content }),
        prompt_index: (s.prompt_index + 1) as u32,
        ..s
    }
}

/// The session with one more checkpoint.
pub open spec fn with_checkpoint(s: SessionV, cp: CheckpointV) -> SessionV {
    SessionV { checkpoints: s.checkpoints.push(cp), ..s }
}

/// The checkpoints of the turns after the given one, in order.
pub open spec fn later_checkpoints(s: Seq<CheckpointV>, to: u32) -> Seq<CheckpointV>
    decreases s.len(),
{
    if s.len() == 0 {
        seq![]
    } else {
        let rest = later_checkpoints(s.drop_last(), to);
        if s.last().prompt_index > to {
            rest.push(s.last())
        } else {
            rest
        }
    }
}

/// The session that a log stands for.
pub open spec fn restored(log: Seq<char>) -> Result<SessionV, SessionErrorV> {
    match read_log(log) {
        Err(e) => Err(e),
        Ok(records) => replayed(records),
    }
}

/// The session with an identifier, given its log where there is one.
pub open spec fn loaded(id: Seq<char>, log: Option<Seq<char>>) -> Result<SessionV, SessionErrorV> {
    match (uuid_parse(id), log) {
        (Some(_), Some(text)) => restored(text),
        _ => Err(SessionErrorV::NotFound(id)),
    }
}

/// A record under another session: the head has the new identifier, and all
/// else is as it was.
pub open spec fn moved(r: RecordV, id: SessionId) -> RecordV {
    match r {
        RecordV::Meta { created_at, model, .. } => RecordV::Meta { id, created_at, model },
        _ => r,
    }
}

/// Records under another session.
pub open spec fn forked(s: Seq<RecordV>, id: SessionId) -> Seq<RecordV> {
    s.map_values(|r: RecordV| moved(r, id))
}

/// A session on disk: its identifier and when its log was last written, in
/// nanoseconds since some fixed time.
#[derive(Debug)]
pub struct LogEntry {
    pub id: String,
    pub modified: i128,
}

fn replay_text(log: &str) -> (r: Result<ReplayState, SessionError>)
    ensures
        view_res(r) == restored(log@),
{
    match read_all(log) {
        Ok(records) => replay(&records),
        Err(e) => Err(e),
    }
}

impl Session {
    /// Where the log of a session is kept.
    pub fn log_path_for(dir: &str, id: &SessionId) -> (r: String)
        ensures
            r@ == log_file(dir@, *id),
    {
        let text = id.to_text();
        let own = join_path(dir, text.as_str());
        join_path(own.as_str(), "updates.jsonl")
    }

    /// The session with the given head that has just begun.
    pub fn start(id: SessionId, created_at: Timestamp, model: Model, dir: &str) -> (r: Session)
        ensures
            r@ == started(id, created_at, model@),
            r.log_path@ == log_file(dir@, id),
    {
        let log_path = Session::log_path_for(dir, &id);
        let r = Session {
            id,
            created_at,
            model,
            messages: Vec::new(),
            prompt_index: 0,
            checkpoints: Vec::new(),
            log_path,
        };
        assert(r@ =~= started(id, created_at, model@));
        r
    }

    /// A new session, with a random identifier and the present time. Its log
    /// begins with the record that `meta_record` gives.
    pub fn new(model: Model, dir: &str) -> (r: Session)
        ensures
            r@ == started(r@.id, r@.created_at, model@),
            r.log_path@ == log_file(dir@, r@.id),
            nibble(r@.id.value, 12) == 4,
            8 <= nibble(r@.id.value, 16) <= 11,
            r@.created_at.has_text(),
    {
        Session::start(SessionId::fresh(), Timestamp::now(), model, dir)
    }

    /// The head of the session.
    pub fn meta_record(&self) -> (r: UpdateRecord)
        ensures
            r@ == (RecordV::Meta { id: self@.id, created_at: self@.created_at, model: self@.model }),
    {
        UpdateRecord::Meta {
            id: self.id,
            created_at: self.created_at,
            model: self.model.clone(),
        }
    }

    /// Where the log of the session with an identifier is kept; there is none
    /// for a text that is no identifier.
    pub fn locate(dir: &str, id: &str) -> (r: Option<String>)
        ensures
            view_opt(r) == (match uuid_parse(id@) {
                Some(value) => Some(log_file(dir@, SessionId { value })),
                None => None,
            }),
    {
        match SessionId::parse(id) {
            Some(id) => Some(Session::log_path_for(dir, &id)),
            None => None,
        }
    }

    /// The session with an identifier. `log` is what the file holds that
    /// `locate` gives, where it exists.
    pub fn load(dir: &str, id: &str, log: Option<&str>) -> (r: Result<Session, SessionError>)
        ensures
            view_res(r) == loaded(id@, view_opt(log)),
            r matches Ok(s) ==> uuid_parse(id@) is Some && s.log_path@ == log_file(
                dir@,
                SessionId { value: uuid_parse(id@)->0 },
            ),
    {
        match (Session::locate(dir, id), log) {
            (Some(log_path), Some(text)) => match replay_text(text) {
                Ok(state) => Ok(
                    Session {
                        id: state.id,
                        created_at: state.created_at,
                        model: state.model,
                        messages: state.messages,
                        prompt_index: state.prompt_index,
                        checkpoints: state.checkpoints,
                        log_path,
                    },
                ),
                Err(e) => Err(e),
            },
            _ => Err(SessionError::NotFound(id.to_owned())),
        }
    }

    /// The record of the next message of the user.
    pub fn user_record(&self, content: &str) -> (r: UpdateRecord)
        requires
            self@.prompt_index < u32::MAX,
        ensures
            r@ == (RecordV::UserMessage {
                prompt_index: (self@.prompt_index + 1) as u32,
                content: content@,
            }),
    {
        UpdateRecord::UserMessage {
            prompt_index: self.prompt_index + 1,
            content: content.to_owned(),
        }
    }

    /// Adds a message of the user, given how writing its record to the log
    /// went. Where that failed, no turn begins.
    pub fn push_user(&mut self, content: String, stored: Result<(), SessionError>) -> (r: Result<
        (),
        SessionError,
    >)
        requires
            old(self)@.prompt_index < u32::MAX,
        ensures
            r == stored,
            final(self)@ == (match stored {
                Ok(_) => with_user(old(self)@, content@),
                Err(_) => old(self)@,
            }),
            final(self).log_path == old(self).log_path,
    {
        match &stored {
            Ok(_) => {
                self.prompt_index = self.prompt_index + 1;
                let ghost known = views(self.messages@);
                let m = Message::User { content };
                self.messages.push(m);
                assert(views(self.messages@) =~= known.push(m@));
            },
            Err(_) => {},
        }
        stored
    }

    /// The record of an answer of the model.
    pub fn assistant_record(
        content: &Option<String>,
        reasoning_content: &Option<String>,
        tool_calls: &Vec<ToolCall>,
    ) -> (r: UpdateRecord)
        ensures
            r@ == (RecordV::AssistantMessage {
                content: view_opt(*content),
                reasoning_content: view_opt(*reasoning_content),
                tool_calls: views(tool_calls@),
            }),
    {
        UpdateRecord::AssistantMessage {
            content: clone_opt(content),
            reasoning_content: clone_opt(reasoning_content),
            tool_calls: clone_calls(tool_calls),
        }
    }

    /// Adds an answer of the model, given how writing its record to the log
    /// went.
    pub fn push_assistant(
        &mut self,
        content: Option<String>,
        reasoning_content: Option<String>,
        tool_calls: Vec<ToolCall>,
        stored: Result<(), SessionError>,
    ) -> (r: Result<(), SessionError>)
        ensures
            r == stored,
            final(self)@ == (match stored {
                Ok(_) => with_message(
                    old(self)@,
                    MessageV::Assistant {
                        content: view_opt(content),
                        reasoning_content: view_opt(reasoning_content),
                        tool_calls: views(tool_calls@),
                    },
                ),
                Err(_) => old(self)@,
            }),
            final(self).log_path == old(self).log_path,
    {
        match &stored {
            Ok(_) => {
                let ghost known = views(self.messages@);
                let m = Message::Assistant { content, reasoning_content, tool_calls };
                self.messages.push(m);
                assert(views(self.messages@) =~= known.push(m@));
            },
            Err(_) => {},
        }
        stored
    }

    /// The record of the result of a tool call.
    pub fn tool_record(tool_call_id: &str, content: &str) -> (r: UpdateRecord)
        ensures
            r@ == (RecordV::ToolResult { tool_call_id: tool_call_id@, content: content@ }),
    {
        UpdateRecord::ToolResult {
            tool_call_id: tool_call_id.to_owned(),
            content: content.to_owned(),
        }
    }

    /// Adds the result of a tool call, given how writing its record to the log
    /// went.
    pub fn push_tool_result(
        &mut self,
        tool_call_id: String,
        content: String,
        stored: Result<(), SessionError>,
    ) -> (r: Result<(), SessionError>)
        ensures
            r == stored,
            final(self)@ == (match stored {
                Ok(_) => with_message(
                    old(self)@,
                    MessageV::Tool { tool_call_id: tool_call_id@, content: content@ },
                ),
                Err(_) => old(self)@,
            }),
            final(self).log_path == old(self).log_path,
    {
        match &stored {
            Ok(_) => {
                let ghost known = views(self.messages@);
                let m = Message::Tool { tool_call_id, content };
                self.messages.push(m);
                assert(views(self.messages@) =~= known.push(m@));
            },
            Err(_) => {},
        }
        stored
    }

    /// Adds a checkpoint, given how writing its record to the log went.
    pub fn push_checkpoint(&mut self, cp: Checkpoint, stored: Result<(), SessionError>) -> (r:
        Result<(), SessionError>)
        ensures
            r == stored,
            final(self)@ == (match stored {
                Ok(_) => with_checkpoint(old(self)@, cp@),
                Err(_) => old(self)@,
            }),
            final(self).log_path == old(self).log_path,
    {
        match &stored {
            Ok(_) => {
                let ghost known = views(self.checkpoints@);
                self.checkpoints.push(cp);
                assert(views(self.checkpoints@) =~= known.push(cp@));
            },
            Err(_) => {},
        }
        stored
    }

    /// The steps that bring the files back to what they were at the end of the
    /// given turn.
    pub fn rewind_plan(&self, to_prompt_index: u32) -> (r: Vec<FileRestore>)
        ensures
            views(r@) == restore_plan(later_checkpoints(self@.checkpoints, to_prompt_index)),
    {
        let mut undo: Vec<Checkpoint> = Vec::new();
        let ghost all = self@.checkpoints;
        let mut i: usize = 0;
        assert(all.subrange(0, 0) =~= Seq::<CheckpointV>::empty());
        assert(views(undo@) =~= Seq::<CheckpointV>::empty());
        while i < self.checkpoints.len()
            invariant
                i <= self.checkpoints@.len(),
                all == views(self.checkpoints@),
                views(undo@) == later_checkpoints(all.subrange(0, i as int), to_prompt_index),
            decreases self.checkpoints@.len() - i,
        {
            proof {
                let pre = all.subrange(0, i + 1);
                assert(pre.drop_last() =~= all.subrange(0, i as int));
                assert(pre.last() == self.checkpoints@[i as int]@);
            }
            if self.checkpoints[i].prompt_index > to_prompt_index {
                let ghost known = views(undo@);
                let cp = self.checkpoints[i].clone();
                undo.push(cp);
                assert(views(undo@) =~= known.push(cp@));
            }
            i = i + 1;
        }
        assert(all.subrange(0, i as int) =~= all);
        restore_files(&undo)
    }

    /// Takes over what the log stands for once the record of a rewind has been
    /// added to it; `log` is what the file holds then.
    pub fn rewind(&mut self, log: &str) -> (r: Result<(), SessionError>)
        ensures
            match (r, restored(log@)) {
                (Ok(_), Ok(s)) => final(self)@ == (SessionV {
                    messages: s.messages,
                    prompt_index: s.prompt_index,
                    checkpoints: s.checkpoints,
                    ..old(self)@
                }),
                (Err(e), Err(x)) => e@ == x && final(self)@ == old(self)@,
                _ => false,
            },
            final(self).log_path == old(self).log_path,
    {
        match replay_text(log) {
            Ok(state) => {
                self.messages = state.messages;
                self.prompt_index = state.prompt_index;
                self.checkpoints = state.checkpoints;
                Ok(())
            },
            Err(e) => Err(e),
        }
    }

    /// The records of a log under another session.
    pub fn fork_records(records: &Vec<UpdateRecord>, id: SessionId) -> (r: Vec<UpdateRecord>)
        ensures
            views(r@) == forked(views(records@), id),
    {
        let mut out: Vec<UpdateRecord> = Vec::new();
        let ghost all = forked(views(records@), id);
        let mut i: usize = 0;
        while i < records.len()
            invariant
                i <= records@.len(),
                out@.len() == i,
                all == forked(views(records@), id),
                forall|j: int| 0 <= j < i ==> (#[trigger] out@[j])@ == all[j],
            decreases records@.len() - i,
        {
            assert(all[i as int] == moved(records@[i as int]@, id));
            let rec = match &records[i] {
                UpdateRecord::Meta { created_at, model, .. } => UpdateRecord::Meta {
                    id,
                    created_at: *created_at,
                    model: model.clone(),
                },
                other => other.clone(),
            };
            out.push(rec);
            i = i + 1;
        }
        assert(views(out@) =~= all);
        out
    }

    /// A random identifier for a copy of the session, and the records that the
    /// log of the copy is to hold; `log` is what the log of the session holds.
    pub fn fork(log: &str) -> (r: Result<(SessionId, Vec<UpdateRecord>), SessionError>)
        ensures
            match (r, read_log(log@)) {
                (Ok(f), Ok(records)) => {
                    &&& views(f.1@) == forked(records, f.0)
                    &&& nibble(f.0.value, 12) == 4
                    &&& 8 <= nibble(f.0.value, 16) <= 11
                },
                (Err(e), Err(x)) => e@ == x,
                _ => false,
            },
    {
        match read_all(log) {
            Ok(records) => {
                let id = SessionId::fresh();
                Ok((id, Session::fork_records(&records, id)))
            },
            Err(e) => Err(e),
        }
    }

    /// The session whose log was written last; the first of them where several
    /// were written at the same time.
    pub fn most_recent_id(entries: &Vec<LogEntry>) -> (r: Option<String>)
        ensures
            match r {
                None => entries@.len() == 0,
                Some(id) => exists|k: int|
                    {
                        &&& 0 <= k < entries@.len()
                        &&& id@ == (#[trigger] entries@[k]).id@
                        &&& forall|j: int|
                            0 <= j < entries@.len() ==> (#[trigger] entries@[j]).modified
                                <= entries@[k].modified
                        &&& forall|j: int|
                            0 <= j < k ==> (#[trigger] entries@[j]).modified
                                < entries@[k].modified
                    },
            },
    {
        if entries.len() == 0 {
            return None;
        }
        let mut best: usize = 0;
        let mut i: usize = 1;
        while i < entries.len()
            invariant
                best < i <= entries@.len(),
                forall|j: int|
                    0 <= j < i ==> (#[trigger] entries@[j]).modified
                        <= entries@[best as int].modified,
                forall|j: int|
                    0 <= j < best ==> (#[trigger] entries@[j]).modified
                        < entries@[best as int].modified,
            decreases entries@.len() - i,
        {
            if entries[i].modified > entries[best].modified {
                best = i;
            }
            i = i + 1;
        }
        Some(entries[best].id.clone())
    }
}

// ---------------------------------------------------------------------------
// A session and its log
// ---------------------------------------------------------------------------
/// The session is what its records stand for.
pub open spec fn in_step(s: SessionV, records: Seq<RecordV>) -> bool {
    replayed(records) == Ok::<SessionV, SessionErrorV>(s)
}

/// A session that has just begun is what its head alone stands for.
pub proof fn law_new_session_in_step(id: SessionId, created_at: Timestamp, model: ModelV)
    ensures
        in_step(
            started(id, created_at, model),
            seq![RecordV::Meta { id, created_at, model }],
        ),
{
    let records = seq![RecordV::Meta { id, created_at, model }];
    assert(records.drop_last() =~= Seq::<RecordV>::empty());
    reveal_with_fuel(messages_of, 2);
    reveal_with_fuel(last_turn, 2);
    reveal_with_fuel(checkpoints_of, 2);
    let s = replayed(records)->Ok_0;
    assert(s =~= started(id, created_at, model));
}

/// A message of the user keeps the session in step with its log.
pub proof fn law_push_user_in_step(s: SessionV, records: Seq<RecordV>, content: Seq<char>)
    requires
        in_step(s, records),
        s.prompt_index < u32::MAX,
    ensures
        in_step(
            with_user(s, content),
            records.push(
                RecordV::UserMessage { prompt_index: (s.prompt_index + 1) as u32, content },
            ),
        ),
{
    let after = records.push(
        RecordV::UserMessage { prompt_index: (s.prompt_index + 1) as u32, content },
    );
    assert(after.drop_last() =~= records);
    assert(replayed(after)->Ok_0 =~= with_user(s, content));
}

/// An answer of the model or the result of a tool call keeps the session in
/// step with its log.
pub proof fn law_push_message_in_step(s: SessionV, records: Seq<RecordV>, r: RecordV)
    requires
        in_step(s, records),
        r is AssistantMessage || r is ToolResult,
    ensures
        message_of(r) is Some,
        in_step(with_message(s, message_of(r)->0), records.push(r)),
{
    let after = records.push(r);
    assert(after.drop_last() =~= records);
    assert(replayed(after)->Ok_0 =~= with_message(s, message_of(r)->0));
}

/// A checkpoint keeps the session in step with its log.
pub proof fn law_push_checkpoint_in_step(s: SessionV, records: Seq<RecordV>, cp: CheckpointV)
    requires
        in_step(s, records),
    ensures
        in_step(with_checkpoint(s, cp), records.push(RecordV::Checkpoint(cp))),
{
    let after = records.push(RecordV::Checkpoint(cp));
    assert(after.drop_last() =~= records);
    assert(replayed(after)->Ok_0 =~= with_checkpoint(s, cp));
}

/// A session numbers its turns without a gap, also after a rewind: the record
/// of the next message of the user keeps them so, and so does every other
/// record.
pub proof fn law_turns_stay_numbered(s: SessionV, records: Seq<RecordV>, content: Seq<char>)
    requires
        in_step(s, records),
        numbered(records),
        s.prompt_index < u32::MAX,
    ensures
        s.prompt_index == turn(records),
        numbered(
            records.push(
                RecordV::UserMessage { prompt_index: (s.prompt_index + 1) as u32, content },
            ),
        ),
        forall|r: RecordV| !(r is UserMessage) ==> numbered(#[trigger] records.push(r)),
{
    law_turn_is_reached(records, u32::MAX);
    let after = records.push(
        RecordV::UserMessage { prompt_index: (s.prompt_index + 1) as u32, content },
    );
    assert(after.drop_last() =~= records);
    assert forall|r: RecordV| !(r is UserMessage) implies numbered(#[trigger] records.push(r)) by {
        assert(records.push(r).drop_last() =~= records);
    }
}

/// The checkpoints of the turns up to the given one, in order.
pub open spec fn earlier_checkpoints(s: Seq<CheckpointV>, to: u32) -> Seq<CheckpointV>
    decreases s.len(),
{
    if s.len() == 0 {
        seq![]
    } else {
        let rest = earlier_checkpoints(s.drop_last(), to);
        if s.last().prompt_index <= to {
            rest.push(s.last())
        } else {
            rest
        }
    }
}

proof fn lemma_lower_limit(records: Seq<RecordV>, to: u32, high: u32)
    ensures
        checkpoints_of(records, low(to, high)) == earlier_checkpoints(
            checkpoints_of(records, high),
            to,
        ),
    decreases records.len(),
{
    if records.len() > 0 {
        lemma_lower_limit(records.drop_last(), to, lowered(records.last(), high));
        match records.last() {
            RecordV::Checkpoint(cp) => {
                let rest = checkpoints_of(records.drop_last(), high);
                if cp.prompt_index <= high {
                    assert(rest.push(cp).drop_last() =~= rest);
                }
            },
            _ => {},
        }
    }
}

/// A rewind keeps exactly the checkpoints of the turns that it does not undo:
/// those whose files `rewind_plan` does not bring back.
pub proof fn law_rewind_drops_later_checkpoints(s: SessionV, records: Seq<RecordV>, to: u32)
    requires
        in_step(s, records),
    ensures
        replayed(records.push(RecordV::Rewind { to_prompt_index: to })) matches Ok(after)
            && after.checkpoints == earlier_checkpoints(s.checkpoints, to),
{
    log::law_rewind_keeps_earlier_turns(records, to);
    lemma_lower_limit(records, to, u32::MAX);
}

/// The checkpoints stand in the order of their turns.
pub open spec fn checkpoints_in_order(s: Seq<CheckpointV>) -> bool {
    forall|i: int, j: int|
        0 <= i <= j < s.len() ==> (#[trigger] s[i]).prompt_index <= (
        #[trigger] s[j]).prompt_index
}

proof fn lemma_later_is_end(s: Seq<CheckpointV>, to: u32)
    requires
        checkpoints_in_order(s),
    ensures
        earlier_checkpoints(s, to).len() <= s.len(),
        earlier_checkpoints(s, to) == s.subrange(0, earlier_checkpoints(s, to).len() as int),
        later_checkpoints(s, to) == s.subrange(
            earlier_checkpoints(s, to).len() as int,
            s.len() as int,
        ),
    decreases s.len(),
{
    if s.len() > 0 {
        let t = s.drop_last();
        lemma_later_is_end(t, to);
        let k = earlier_checkpoints(t, to).len() as int;
        if s.last().prompt_index > to {
            assert(earlier_checkpoints(s, to) =~= s.subrange(0, k));
            assert(later_checkpoints(s, to) =~= s.subrange(k, s.len() as int));
        } else {
            if k < t.len() {
                let late = later_checkpoints(t, to);
                assert(late.len() > 0);
                lemma_later_are_later(t, to);
                assert(late[0] == s[k]);
                assert(s[k].prompt_index <= s[s.len() - 1].prompt_index);
            }
            assert(k == t.len());
            assert(earlier_checkpoints(s, to) =~= s.subrange(0, k + 1));
            assert(later_checkpoints(s, to) =~= s.subrange(k + 1, s.len() as int));
        }
    }
}

/// The checkpoints of the turns up to the given one keep their order.
pub proof fn lemma_earlier_in_order(s: Seq<CheckpointV>, to: u32)
    requires
        checkpoints_in_order(s),
    ensures
        earlier_checkpoints(s, to).len() <= s.len(),
        checkpoints_in_order(earlier_checkpoints(s, to)),
        forall|i: int|
            0 <= i < earlier_checkpoints(s, to).len() ==> (#[trigger] earlier_checkpoints(
                s,
                to,
            )[i]).prompt_index <= to && earlier_checkpoints(s, to)[i] == s[i],
    decreases s.len(),
{
    lemma_later_is_end(s, to);
    if s.len() > 0 {
        let t = s.drop_last();
        lemma_earlier_in_order(t, to);
    }
}

proof fn lemma_later_are_later(s: Seq<CheckpointV>, to: u32)
    ensures
        forall|i: int|
            0 <= i < later_checkpoints(s, to).len() ==> (#[trigger] later_checkpoints(
                s,
                to,
            )[i]).prompt_index > to,
    decreases s.len(),
{
    if s.len() > 0 {
        lemma_later_are_later(s.drop_last(), to);
    }
}

/// A rewind brings every file back to what it was when the last turn that it
/// keeps had ended, but for one that was not text when a later turn was about to
/// write it, where each checkpoint records in full what happened between one
/// state of the files and the next.
pub proof fn law_rewind_restores_files(
    states: Seq<Map<PlaceV, checkpoint::FileV>>,
    cps: Seq<CheckpointV>,
    to: u32,
    path: Seq<char>,
)
    requires
        checkpoints_in_order(cps),
        states.len() == cps.len() + 1,
        forall|k: int|
            0 <= k < cps.len() ==> #[trigger] checkpoint::recorded(
                states[k],
                states[k + 1],
                cps[k],
            ),
        !checkpoint::opaque_to(later_checkpoints(cps, to), path),
    ensures
        checkpoint::same_file(
            states[earlier_checkpoints(cps, to).len() as int],
            checkpoint::apply_restores(states.last(), restore_plan(later_checkpoints(cps, to))),
            path,
        ),
{
    lemma_later_is_end(cps, to);
    let k = earlier_checkpoints(cps, to).len() as int;
    let tail = cps.subrange(k, cps.len() as int);
    let rest = states.subrange(k, states.len() as int);
    assert forall|i: int| 0 <= i < tail.len() implies #[trigger] checkpoint::recorded(
        rest[i],
        rest[i + 1],
        tail[i],
    ) by {
        assert(checkpoint::recorded(states[k + i], states[k + i + 1], cps[k + i]));
    }
    checkpoint::law_restore_undoes_turns(rest, tail, path);
    assert(rest.last() == states.last());
}

proof fn lemma_forked(s: Seq<RecordV>, id: SessionId, limit: u32)
    ensures
        turn(forked(s, id)) == turn(s),
        messages_of(forked(s, id), limit) == messages_of(s, limit),
        last_turn(forked(s, id), limit) == last_turn(s, limit),
        checkpoints_of(forked(s, id), limit) == checkpoints_of(s, limit),
        head(forked(s, id)) == (match head(s) {
            Some(h) => Some((id, h.1, h.2)),
            None => None,
        }),
    decreases s.len(),
{
    if s.len() > 0 {
        lemma_forked(s.drop_last(), id, lowered(s.last(), limit));
        assert(forked(s, id).drop_last() =~= forked(s.drop_last(), id));
        assert(forked(s, id).last() == moved(s.last(), id));
    }
}

/// A copy of a session has the same history under its own identifier.
pub proof fn law_fork_copies_history(s: SessionV, records: Seq<RecordV>, id: SessionId)
    requires
        in_step(s, records),
    ensures
        in_step(SessionV { id, ..s }, forked(records, id)),
{
    lemma_forked(records, id, u32::MAX);
}

/// A session is taken up again as it was: its log, with the lines of the records
/// that it is in step with, gives the session back.
pub proof fn law_log_gives_session_back(s: SessionV, records: Seq<RecordV>, rows: Seq<Seq<char>>)
    requires
        in_step(s, records),
        rows.len() == records.len(),
        forall|i: int| 0 <= i < rows.len() ==> log::holds(#[trigger] rows[i], records[i]),
    ensures
        restored(log::log_text(rows)) == Ok::<SessionV, SessionErrorV>(s),
{
    log::law_log_gives_records_back(rows, records);
}

/// The log of a copy gives the history of the session back under the identifier
/// of the copy.
pub proof fn law_log_of_copy_gives_history_back(
    s: SessionV,
    records: Seq<RecordV>,
    id: SessionId,
    rows: Seq<Seq<char>>,
)
    requires
        in_step(s, records),
        rows.len() == records.len(),
        forall|i: int|
            0 <= i < rows.len() ==> log::holds(#[trigger] rows[i], forked(records, id)[i]),
    ensures
        restored(log::log_text(rows)) == Ok::<SessionV, SessionErrorV>(SessionV { id, ..s }),
{
    law_fork_copies_history(s, records, id);
    law_log_gives_session_back(SessionV { id, ..s }, forked(records, id), rows);
}

/// A text with a hexadecimal digit at its ends.
spec fn plain_ends(s: Seq<char>) -> bool {
    s.len() == 36 && s[0] != '/' && s[35] != '/'
}

proof fn lemma_uuid_ends(v: u128)
    ensures
        plain_ends(uuid_text(v)),
{
    let first = (v >> 124u128) & 0xf;
    let last = (v >> 0u128) & 0xf;
    assert((v >> 124u128) & 0xf < 16) by (bit_vector);
    assert((v >> 0u128) & 0xf < 16) by (bit_vector);
    assert(uuid_text(v)[0] == hex_char(first));
    assert(uuid_text(v)[35] == hex_char(last));
}

/// Two sessions keep their logs in two files.
pub proof fn law_logs_are_apart(dir: Seq<char>, a: SessionId, b: SessionId)
    requires
        a != b,
    ensures
        log_file(dir, a) != log_file(dir, b),
{
    let x = uuid_text(a.value);
    let y = uuid_text(b.value);
    law_uuid_texts_differ(a.value, b.value);
    lemma_uuid_ends(a.value);
    lemma_uuid_ends(b.value);
    reveal_strlit("/");
    reveal_strlit("updates.jsonl");
    let name = "updates.jsonl"@;
    assert(name.len() == 13 && name[0] == 'u');
    let p = below(dir, x);
    let q = below(dir, y);
    let n = p.len() - 36;
    assert(p.subrange(n, n + 36) =~= x);
    assert(q.subrange(n, n + 36) =~= y);
    assert(p.last() == x[35] && q.last() == y[35]);
    assert(log_file(dir, a).subrange(0, n + 36) =~= p);
    assert(log_file(dir, b).subrange(0, n + 36) =~= q);
}

/// The logs once a line has been appended to one of them.
pub open spec fn appended(
    logs: Map<Seq<char>, Seq<char>>,
    path: Seq<char>,
    line: Seq<char>,
) -> Map<Seq<char>, Seq<char>> {
    logs.insert(
        path,
        if logs.dom().contains(path) {
            logs[path] + line
        } else {
            line
        },
    )
}

/// The logs once several lines have been appended to one of them.
pub open spec fn extended(
    logs: Map<Seq<char>, Seq<char>>,
    path: Seq<char>,
    rows: Seq<Seq<char>>,
) -> Map<Seq<char>, Seq<char>>
    decreases rows.len(),
{
    if rows.len() == 0 {
        logs
    } else {
        appended(extended(logs, path, rows.drop_last()), path, rows.last())
    }
}

/// The log of a session, where there is one.
pub open spec fn log_in(
    logs: Map<Seq<char>, Seq<char>>,
    dir: Seq<char>,
    id: SessionId,
) -> Option<Seq<char>> {
    if logs.dom().contains(log_file(dir, id)) {
        Some(logs[log_file(dir, id)])
    } else {
        None
    }
}

/// Sessions stay independent, a copy and what it was copied from among them:
/// whatever is appended to the log of one, the other is taken up again as
/// before.
pub proof fn law_sessions_stay_independent(
    logs: Map<Seq<char>, Seq<char>>,
    dir: Seq<char>,
    a: SessionId,
    b: SessionId,
    rows: Seq<Seq<char>>,
    name: Seq<char>,
)
    requires
        a != b,
        uuid_parse(name) == Some(a.value),
    ensures
        log_in(extended(logs, log_file(dir, b), rows), dir, a) == log_in(logs, dir, a),
        loaded(name, log_in(extended(logs, log_file(dir, b), rows), dir, a)) == loaded(
            name,
            log_in(logs, dir, a),
        ),
    decreases rows.len(),
{
    law_logs_are_apart(dir, a, b);
    if rows.len() > 0 {
        law_sessions_stay_independent(logs, dir, a, b, rows.drop_last(), name);
    }
}

// ---------------------------------------------------------------------------
// What holds of sessions and their logs
// ---------------------------------------------------------------------------
/// The checkpoints of later turns and those of earlier ones are told apart by the
/// number of their turn, keep their order, and together are all of them.
pub proof fn law_checkpoints_are_parted_by_turn(s: Seq<CheckpointV>, cp: CheckpointV, to: u32)
    ensures
        later_checkpoints(seq![], to) == Seq::<CheckpointV>::empty(),
        earlier_checkpoints(seq![], to) == Seq::<CheckpointV>::empty(),
        cp.prompt_index > to ==> later_checkpoints(s.push(cp), to) == later_checkpoints(
            s,
            to,
        ).push(cp) && earlier_checkpoints(s.push(cp), to) == earlier_checkpoints(s, to),
        cp.prompt_index <= to ==> later_checkpoints(s.push(cp), to) == later_checkpoints(s, to)
            && earlier_checkpoints(s.push(cp), to) == earlier_checkpoints(s, to).push(cp),
        later_checkpoints(s, to).len() + earlier_checkpoints(s, to).len() == s.len(),
    decreases s.len(),
{
    assert(s.push(cp).drop_last() =~= s);
    if s.len() > 0 {
        law_checkpoints_are_parted_by_turn(s.drop_last(), cp, to);
    }
}

/// A copy of a log differs from it only in the identifier of the session.
pub proof fn law_copies_differ_only_in_their_id(s: Seq<RecordV>, id: SessionId, i: int)
    ensures
        forked(s, id).len() == s.len(),
        0 <= i < s.len() ==> match s[i] {
            RecordV::Meta { created_at, model, .. } => forked(s, id)[i] == (RecordV::Meta {
                id,
                created_at,
                model,
            }),
            _ => forked(s, id)[i] == s[i],
        },
{
}

/// The log of a session is kept in a directory named after the session.
pub proof fn law_logs_have_a_place(dir: Seq<char>, id: SessionId)
    ensures
        log_file(dir, id) == below(below(dir, uuid_text(id.value)), "updates.jsonl"@),
{
}

/// A session is loaded from its log. An identifier that is none, and a session
/// without a log, is not found; a log that cannot be read or stands for no session
/// says why.
pub proof fn law_sessions_are_loaded_from_logs(id: Seq<char>, text: Seq<char>)
    ensures
        uuid_parse(id) is None ==> loaded(id, Some(text)) == Err::<SessionV, SessionErrorV>(
            SessionErrorV::NotFound(id),
        ),
        loaded(id, None) == Err::<SessionV, SessionErrorV>(SessionErrorV::NotFound(id)),
        uuid_parse(id) is Some ==> match read_log(text) {
            Err(e) => loaded(id, Some(text)) == Err::<SessionV, SessionErrorV>(e),
            Ok(records) => loaded(id, Some(text)) == replayed(records),
        },
{
}

/// A new session is empty; a message, a message of the user and a checkpoint go to
/// the end, a message of the user begins the next turn, and nothing else changes.
pub proof fn law_sessions_only_grow(
    id: SessionId,
    created_at: Timestamp,
    model: ModelV,
    s: SessionV,
    m: MessageV,
    content: Seq<char>,
    cp: CheckpointV,
)
    requires
        s.prompt_index < u32::MAX,
    ensures
        ({
            let fresh = started(id, created_at, model);
            &&& fresh.id == id && fresh.created_at == created_at && fresh.model == model
            &&& fresh.messages.len() == 0 && fresh.checkpoints.len() == 0 && fresh.prompt_index == 0
        }),
        with_message(s, m) == (SessionV { messages: s.messages.push(m), ..s }),
        with_user(s, content).messages == s.messages.push(MessageV::User { content }),
        with_user(s, content).prompt_index == s.prompt_index + 1,
        with_user(s, content).checkpoints == s.checkpoints,
        with_user(s, content).id == s.id && with_user(s, content).model == s.model,
        with_checkpoint(s, cp) == (SessionV { checkpoints: s.checkpoints.push(cp), ..s }),
{
}

} // verus!
