//! The agent: how a turn goes.
//!
//! A turn is a machine. It says what is to be done next, takes what came of
//! it, and goes on until the model asks for no more tools.
use crate::api::{clone_calls, FunctionCall, Message, MessageV, ToolCall, ToolCallV};
use crate::config::{target_of, PlaceV};
use crate::errors::{
    ApiError, ApiErrorV, AppError, AppErrorV, SessionError, SessionErrorV, ToolError, ToolErrorV,
};
use crate::event::{SessionEvent, SessionEventV};
use crate::json::writable;
use crate::permission::{
    checked, decided, decision_of, looked_up, settled, Check, CheckV, Decision, GateV,
    PermissionGate,
};
use crate::sampler::dialect::chat_completions::{law_request_can_be_written, request_json};
use crate::sampler::dialect::{SamplingEvent, SamplingEventV, SamplingRequest, SamplingRequestV};
use crate::session::checkpoint::{
    content, hunks_of, law_noted_write_is_tracked, noted, recorded, same_file, touched, tracked_in,
    Checkpoint, CheckpointV, FileV, Found, FoundV, HunkTracker, SnapshotV,
};
use crate::session::log::{
    law_rewind_keeps_earlier_turns, law_turn_is_reached, numbered, replayed, RecordV, SessionV,
    UpdateRecord,
};
use crate::session::{
    checkpoints_in_order, earlier_checkpoints, in_step, law_push_checkpoint_in_step,
    law_push_message_in_step, law_push_user_in_step, law_rewind_drops_later_checkpoints,
    lemma_earlier_in_order, with_checkpoint, with_message, with_user, Session,
};
use crate::system_prompt::{build_on, prompt};
use crate::text::{
    clone_opt, is_white_space, join, law_trimming_takes_white_space_only, take, take_chars, trim,
    trimmed, utf8_text, view_opt, view_res, views,
};
use crate::tools::{
    distinct_titles, law_builtin_schemas_can_be_written, law_tools_are_found_by_name, named,
    BuiltinTool, Operation, OperationV, Outcome, OutcomeV, Registry, Step, StepV, Tool,
};
use vstd::prelude::*;
use vstd::utf8::*;

verus! {

// ---------------------------------------------------------------------------
// The answer of the model, piece by piece
// ---------------------------------------------------------------------------
pub ghost struct PartV {
    pub index: usize,
    pub id: Seq<char>,
    pub name: Seq<char>,
    pub arguments: Seq<char>,
}

/// A tool call as far as it has come.
#[derive(Debug)]
pub struct Part {
    pub index: usize,
    pub id: String,
    pub name: String,
    pub arguments: String,
}

impl View for Part {
    type V = PartV;

    open spec fn view(&self) -> PartV {
        PartV {
            index: self.index,
            id: self.id@,
            name: self.name@,
            arguments: self.arguments@,
        }
    }
}

#[verifier::ext_equal]
pub ghost struct AnswerV {
    pub text: Seq<char>,
    pub reasoning: Seq<char>,
    pub parts: Seq<PartV>,
}

/// The answer of the model as far as it has come; the tool calls stand in the
/// order of their indexes.
#[derive(Debug)]
pub struct Answer {
    pub text: String,
    pub reasoning: String,
    pub parts: Vec<Part>,
}

impl View for Answer {
    type V = AnswerV;

    open spec fn view(&self) -> AnswerV {
        AnswerV {
            text: self.text@,
            reasoning: self.reasoning@,
            parts: views(self.parts@),
        }
    }
}

/// A tool call of which nothing has come.
pub open spec fn blank(index: usize) -> PartV {
    PartV { index, id: seq![], name: seq![], arguments: seq![] }
}

/// A tool call with one more piece: an identifier and a name take the place of
/// those before, and the arguments grow.
pub open spec fn patched(
    p: PartV,
    id: Option<Seq<char>>,
    name: Option<Seq<char>>,
    fragment: Seq<char>,
) -> PartV {
    PartV {
        index: p.index,
        id: match id {
            Some(s) => s,
            None => p.id,
        },
        name: match name {
            Some(s) => s,
            None => p.name,
        },
        arguments: p.arguments + fragment,
    }
}

/// The position of the first tool call whose index is not below the given one.
pub open spec fn place(s: Seq<PartV>, index: usize) -> int
    decreases s.len(),
{
    if s.len() == 0 || s[0].index >= index {
        0
    } else {
        1 + place(s.subrange(1, s.len() as int), index)
    }
}

/// The tool calls with one more piece of the one with the index.
pub open spec fn merged(
    s: Seq<PartV>,
    index: usize,
    id: Option<Seq<char>>,
    name: Option<Seq<char>>,
    fragment: Seq<char>,
) -> Seq<PartV> {
    let k = place(s, index);
    if k < s.len() && s[k].index == index {
        s.update(k, patched(s[k], id, name, fragment))
    } else {
        s.insert(k, patched(blank(index), id, name, fragment))
    }
}

/// The answer with one more piece.
pub open spec fn extended(a: AnswerV, e: SamplingEventV) -> AnswerV {
    match e {
        SamplingEventV::TextDelta(s) => AnswerV { text: a.text + s, ..a },
        SamplingEventV::ReasoningDelta(s) => AnswerV { reasoning: a.reasoning + s, ..a },
        SamplingEventV::ToolCallDelta { index, id, name, arguments_fragment } => AnswerV {
            parts: merged(a.parts, index, id, name, arguments_fragment),
            ..a
        },
        SamplingEventV::Done { .. } => a,
    }
}

/// What is shown of a piece.
pub open spec fn echoed(e: SamplingEventV) -> Seq<SessionEventV> {
    match e {
        SamplingEventV::TextDelta(s) => seq![SessionEventV::StreamText(s)],
        SamplingEventV::ReasoningDelta(s) => seq![SessionEventV::ReasoningDelta(s)],
        _ => seq![],
    }
}

/// The tool calls that an answer asks for.
pub open spec fn calls_of(s: Seq<PartV>) -> Seq<ToolCallV> {
    s.map_values(
        |p: PartV|
            ToolCallV { id: p.id, kind: "function"@, name: p.name, arguments: p.arguments },
    )
}

/// A text, where it is not empty.
pub open spec fn non_empty(s: Seq<char>) -> Option<Seq<char>> {
    if s.len() == 0 {
        None
    } else {
        Some(s)
    }
}

/// The tool calls stand in the order of their indexes, and no index occurs
/// twice.
pub open spec fn ordered(s: Seq<PartV>) -> bool {
    forall|i: int, j: int|
        0 <= i < j < s.len() ==> (#[trigger] s[i]).index < (#[trigger] s[j]).index
}

/// The tool call with an index.
pub open spec fn part(s: Seq<PartV>, index: usize) -> Option<PartV> {
    if exists|i: int| 0 <= i < s.len() && (#[trigger] s[i]).index == index {
        Some(s[choose|i: int| 0 <= i < s.len() && (#[trigger] s[i]).index == index])
    } else {
        None
    }
}

proof fn lemma_place(s: Seq<PartV>, index: usize)
    ensures
        0 <= place(s, index) <= s.len(),
        forall|i: int| 0 <= i < place(s, index) ==> (#[trigger] s[i]).index < index,
        place(s, index) < s.len() ==> s[place(s, index)].index >= index,
    decreases s.len(),
{
    if s.len() > 0 && s[0].index < index {
        let t = s.subrange(1, s.len() as int);
        lemma_place(t, index);
        assert forall|i: int| 0 <= i < place(s, index) implies (#[trigger] s[i]).index < index by {
            if i > 0 {
                assert(t[i - 1] == s[i]);
            }
        }
    }
}

proof fn lemma_place_is(s: Seq<PartV>, index: usize, k: int)
    requires
        0 <= k <= s.len(),
        forall|i: int| 0 <= i < k ==> (#[trigger] s[i]).index < index,
        k < s.len() ==> s[k].index >= index,
    ensures
        place(s, index) == k,
{
    lemma_place(s, index);
    let p = place(s, index);
    if p < k {
        assert(s[p].index < index);
    }
    if k < p {
        assert(s[k].index < index);
    }
}

proof fn lemma_part_is(s: Seq<PartV>, i: int)
    requires
        ordered(s),
        0 <= i < s.len(),
    ensures
        part(s, s[i].index) == Some(s[i]),
{
    let index = s[i].index;
    assert(exists|k: int| 0 <= k < s.len() && (#[trigger] s[k]).index == index);
    let j = choose|k: int| 0 <= k < s.len() && (#[trigger] s[k]).index == index;
    if i < j {
        assert(s[i].index < s[j].index);
    }
    if j < i {
        assert(s[j].index < s[i].index);
    }
}

/// The pieces of a tool call come together by its index, in whatever order the
/// tool calls come: the one with the index grows, and every other stays as it
/// was. The tool calls stay in the order of their indexes.
pub proof fn law_pieces_merge_by_index(
    s: Seq<PartV>,
    index: usize,
    id: Option<Seq<char>>,
    name: Option<Seq<char>>,
    fragment: Seq<char>,
    other: usize,
)
    requires
        ordered(s),
    ensures
        ordered(merged(s, index, id, name, fragment)),
        part(merged(s, index, id, name, fragment), index) == Some(
            patched(
                match part(s, index) {
                    Some(p) => p,
                    None => blank(index),
                },
                id,
                name,
                fragment,
            ),
        ),
        other != index ==> part(merged(s, index, id, name, fragment), other) == part(s, other),
{
    lemma_place(s, index);
    let k = place(s, index);
    let m = merged(s, index, id, name, fragment);
    let present = k < s.len() && s[k].index == index;
    assert(m[k].index == index);
    assert forall|i: int, j: int| 0 <= i < j < m.len() implies (#[trigger] m[i]).index < (
    #[trigger] m[j]).index by {
        if present {
            if i != k && j != k {
                assert(m[i] == s[i] && m[j] == s[j]);
            } else if i == k {
                assert(m[j] == s[j]);
                assert(s[k].index < s[j].index);
            } else {
                assert(m[i] == s[i]);
            }
        } else {
            if j < k {
                assert(m[i] == s[i] && m[j] == s[j]);
            } else if j == k {
                assert(m[i] == s[i]);
            } else if i < k {
                assert(m[i] == s[i] && m[j] == s[j - 1]);
            } else if i == k {
                assert(m[j] == s[j - 1]);
                if j - 1 > k {
                    assert(s[k].index < s[j - 1].index);
                }
            } else {
                assert(m[i] == s[i - 1] && m[j] == s[j - 1]);
            }
        }
    }
    lemma_part_is(m, k);
    if present {
        lemma_part_is(s, k);
    } else {
        assert(part(s, index) is None) by {
            if part(s, index) is Some {
                let i = choose|i: int| 0 <= i < s.len() && (#[trigger] s[i]).index == index;
                if i < k {
                    assert(s[i].index < index);
                } else if k < i {
                    assert(s[k].index < s[i].index);
                }
            }
        }
    }
    if other != index {
        if part(s, other) is Some {
            let i = choose|i: int| 0 <= i < s.len() && (#[trigger] s[i]).index == other;
            lemma_part_is(s, i);
            if present || i < k {
                assert(m[i] == s[i]);
                lemma_part_is(m, i);
            } else {
                assert(m[i + 1] == s[i]);
                lemma_part_is(m, i + 1);
            }
        } else if part(m, other) is Some {
            let i = choose|i: int| 0 <= i < m.len() && (#[trigger] m[i]).index == other;
            assert(i != k);
            if present || i < k {
                assert(s[i] == m[i]);
            } else {
                assert(s[i - 1] == m[i]);
            }
        }
    }
}

impl Answer {
    /// An answer of which nothing has come.
    pub fn new() -> (r: Answer)
        ensures
            r@ == (AnswerV { text: seq![], reasoning: seq![], parts: seq![] }),
    {
        let r = Answer { text: String::new(), reasoning: String::new(), parts: Vec::new() };
        assert(r@ =~= (AnswerV { text: seq![], reasoning: seq![], parts: seq![] }));
        r
    }

    fn merge(
        &mut self,
        index: usize,
        id: Option<String>,
        name: Option<String>,
        fragment: &str,
    )
        ensures
            final(self)@ == (AnswerV {
                parts: merged(
                    old(self)@.parts,
                    index,
                    view_opt(id),
                    view_opt(name),
                    fragment@,
                ),
                ..old(self)@
            }),
    {
        let ghost s = self@.parts;
        let mut k: usize = 0;
        while k < self.parts.len() && self.parts[k].index < index
            invariant
                k <= self.parts@.len(),
                s == views(self.parts@),
                forall|i: int| 0 <= i < k ==> (#[trigger] s[i]).index < index,
            decreases self.parts@.len() - k,
        {
            assert(s[k as int] == self.parts@[k as int]@);
            k = k + 1;
        }
        proof {
            if k < s.len() {
                assert(s[k as int] == self.parts@[k as int]@);
            }
            lemma_place_is(s, index, k as int);
        }
        let mut p = Part {
            index,
            id: String::new(),
            name: String::new(),
            arguments: String::new(),
        };
        let present = k < self.parts.len() && self.parts[k].index == index;
        if present {
            p = Part {
                index,
                id: self.parts[k].id.clone(),
                name: self.parts[k].name.clone(),
                arguments: self.parts[k].arguments.clone(),
            };
        }
        let ghost base = p@;
        proof {
            if present {
                assert(base == s[k as int]);
            } else {
                assert(base.id =~= Seq::<char>::empty());
                assert(base == blank(index));
            }
        }
        match id {
            Some(x) => {
                p.id = x;
            },
            None => {},
        }
        match name {
            Some(x) => {
                p.name = x;
            },
            None => {},
        }
        p.arguments.append(fragment);
        let ghost next = p@;
        if present {
            self.parts.set(k, p);
            assert(views(self.parts@) =~= s.update(k as int, next));
        } else {
            self.parts.insert(k, p);
            assert(views(self.parts@) =~= s.insert(k as int, next));
        }
        assert(next == patched(base, view_opt(id), view_opt(name), fragment@));
    }

    /// Takes one more piece, and gives what is shown of it.
    pub fn extend(&mut self, e: SamplingEvent) -> (r: Vec<SessionEvent>)
        ensures
            final(self)@ == extended(old(self)@, e@),
            views(r@) == echoed(e@),
    {
        let mut out: Vec<SessionEvent> = Vec::new();
        match e {
            SamplingEvent::TextDelta(s) => {
                self.text.append(s.as_str());
                out.push(SessionEvent::StreamText(s));
            },
            SamplingEvent::ReasoningDelta(s) => {
                self.reasoning.append(s.as_str());
                out.push(SessionEvent::ReasoningDelta(s));
            },
            SamplingEvent::ToolCallDelta { index, id, name, arguments_fragment } => {
                self.merge(index, id, name, arguments_fragment.as_str());
            },
            SamplingEvent::Done { .. } => {},
        }
        assert(views(out@) =~= echoed(e@));
        out
    }

    /// The tool calls that the answer asks for.
    pub fn calls(&self) -> (r: Vec<ToolCall>)
        ensures
            views(r@) == calls_of(self@.parts),
    {
        let mut out: Vec<ToolCall> = Vec::new();
        let ghost all = calls_of(self@.parts);
        let mut i: usize = 0;
        while i < self.parts.len()
            invariant
                i <= self.parts@.len(),
                out@.len() == i,
                all == calls_of(self@.parts),
                forall|j: int| 0 <= j < i ==> (#[trigger] out@[j])@ == all[j],
            decreases self.parts@.len() - i,
        {
            let p = &self.parts[i];
            assert(self@.parts[i as int] == p@);
            out.push(
                ToolCall {
                    id: p.id.clone(),
                    kind: "function".to_owned(),
                    function: FunctionCall {
                        name: p.name.clone(),
                        arguments: p.arguments.clone(),
                    },
                },
            );
            i = i + 1;
        }
        assert(views(out@) =~= all);
        out
    }
}

fn some_text(s: String) -> (r: Option<String>)
    ensures
        view_opt(r) == non_empty(s@),
{
    if s.as_str().is_empty() {
        None
    } else {
        Some(s)
    }
}

// ---------------------------------------------------------------------------
// What a turn is doing, and what it needs
// ---------------------------------------------------------------------------
pub ghost struct CallsV {
    pub calls: Seq<ToolCallV>,
    pub index: int,
}

/// The tool calls of an answer, and which of them is running.
#[derive(Debug)]
pub struct Calls {
    pub calls: Vec<ToolCall>,
    pub index: usize,
}

impl View for Calls {
    type V = CallsV;

    open spec fn view(&self) -> CallsV {
        CallsV { calls: views(self.calls@), index: self.index as int }
    }
}

impl CallsV {
    pub open spec fn wf(self) -> bool {
        0 <= self.index < self.calls.len()
    }

    /// The tool call that is running.
    pub open spec fn current(self) -> ToolCallV {
        self.calls[self.index]
    }
}

#[allow(inconsistent_fields)]
pub ghost enum PhaseV {
    StoringUser(Seq<char>),
    Anchoring,
    Preparing,
    Opening,
    Streaming(AnswerV),
    StoringAnswer {
        content: Option<Seq<char>>,
        reasoning_content: Option<Seq<char>>,
        calls: Seq<ToolCallV>,
    },
    Asking(CallsV),
    Noting { calls: CallsV, path: Seq<char> },
    Running(CallsV),
    StoringResult { calls: CallsV, result: Seq<char> },
    Sealing,
    StoringCheckpoint(CheckpointV),
    Finished,
}

/// What a turn is doing.
#[derive(Debug)]
#[allow(inconsistent_fields)]
pub enum Phase {
    /// The message of the user is being stored.
    StoringUser(String),
    /// It is being found out which commit is checked out.
    Anchoring,
    /// It is being found out what the system prompt is built from.
    Preparing,
    /// The model is being asked.
    Opening,
    /// The model is answering.
    Streaming(Answer),
    /// The answer is being stored.
    StoringAnswer {
        content: Option<String>,
        reasoning_content: Option<String>,
        calls: Vec<ToolCall>,
    },
    /// The user is being asked for permission.
    Asking(Calls),
    /// A file is being looked at that a tool is about to write.
    Noting { calls: Calls, path: String },
    /// A tool is running.
    Running(Calls),
    /// The result of a tool call is being stored.
    StoringResult { calls: Calls, result: String },
    /// The files that the turn has written are being looked at.
    Sealing,
    /// The checkpoint of the turn is being stored.
    StoringCheckpoint(Checkpoint),
    /// The turn is over.
    Finished,
}

impl View for Phase {
    type V = PhaseV;

    open spec fn view(&self) -> PhaseV {
        match self {
            Phase::StoringUser(s) => PhaseV::StoringUser(s@),
            Phase::Anchoring => PhaseV::Anchoring,
            Phase::Preparing => PhaseV::Preparing,
            Phase::Opening => PhaseV::Opening,
            Phase::Streaming(a) => PhaseV::Streaming(a@),
            Phase::StoringAnswer { content, reasoning_content, calls } => PhaseV::StoringAnswer {
                content: view_opt(*content),
                reasoning_content: view_opt(*reasoning_content),
                calls: views(calls@),
            },
            Phase::Asking(c) => PhaseV::Asking(c@),
            Phase::Noting { calls, path } => PhaseV::Noting { calls: calls@, path: path@ },
            Phase::Running(c) => PhaseV::Running(c@),
            Phase::StoringResult { calls, result } => PhaseV::StoringResult {
                calls: calls@,
                result: result@,
            },
            Phase::Sealing => PhaseV::Sealing,
            Phase::StoringCheckpoint(cp) => PhaseV::StoringCheckpoint(cp@),
            Phase::Finished => PhaseV::Finished,
        }
    }
}

#[allow(inconsistent_fields)]
pub ghost enum ActionV {
    Store(RecordV),
    ReadHead,
    LookAround,
    Sample(SamplingRequestV),
    NextEvent,
    AwaitPermission,
    ReadBefore(Seq<char>),
    Perform(OperationV),
    ReadAfter(Seq<Seq<char>>),
    Finish(Result<(), AppErrorV>),
}

/// What is to be done next.
#[derive(Debug)]
#[allow(inconsistent_fields)]
pub enum Action {
    /// Append the record to the log of the session.
    Store(UpdateRecord),
    /// Find out which commit is checked out.
    ReadHead,
    /// Find out the date, and what `AGENTS.md` in the working directory holds.
    LookAround,
    /// Ask the model.
    Sample(SamplingRequest),
    /// Wait for the next piece of the answer.
    NextEvent,
    /// Wait for what the user says to the request that was just made.
    AwaitPermission,
    /// Look whether the file is there, and read it.
    ReadBefore(String),
    /// Do what a tool needs done.
    Perform(Operation),
    /// Read the files, each if it is there and is text.
    ReadAfter(Vec<String>),
    /// The turn is over.
    Finish(Result<(), AppError>),
}

impl View for Action {
    type V = ActionV;

    open spec fn view(&self) -> ActionV {
        match self {
            Action::Store(r) => ActionV::Store(r@),
            Action::ReadHead => ActionV::ReadHead,
            Action::LookAround => ActionV::LookAround,
            Action::Sample(req) => ActionV::Sample(req@),
            Action::NextEvent => ActionV::NextEvent,
            Action::AwaitPermission => ActionV::AwaitPermission,
            Action::ReadBefore(p) => ActionV::ReadBefore(p@),
            Action::Perform(op) => ActionV::Perform(op@),
            Action::ReadAfter(v) => ActionV::ReadAfter(views(v@)),
            Action::Finish(r) => ActionV::Finish(
                match r {
                    Ok(_) => Ok(()),
                    Err(e) => Err(e@),
                },
            ),
        }
    }
}

#[allow(inconsistent_fields)]
pub ghost enum TurnEventV {
    Stored(Result<(), SessionErrorV>),
    Head(Option<Seq<char>>),
    Surroundings { date: Seq<char>, agents_md: Option<Seq<char>> },
    Opened(Result<(), ApiErrorV>),
    Sampled(Option<Result<SamplingEventV, ApiErrorV>>),
    Answered(Option<Decision>),
    Before(FoundV),
    Performed(OutcomeV),
    After(Seq<Option<Seq<char>>>),
}

/// What came of an action.
#[derive(Debug)]
#[allow(inconsistent_fields)]
pub enum TurnEvent {
    Stored(Result<(), SessionError>),
    /// The commit that is checked out, where there is one.
    Head(Option<String>),
    /// What the system prompt is built from: the date, and what `AGENTS.md` in
    /// the working directory holds, where it can be read.
    Surroundings { date: String, agents_md: Option<String> },
    Opened(Result<(), ApiError>),
    /// The next piece of the answer; there is none where it has ended.
    Sampled(Option<Result<SamplingEvent, ApiError>>),
    /// What the user said, where there was an answer.
    Answered(Option<Decision>),
    /// What was found in the file.
    Before(Found),
    Performed(Outcome),
    /// The texts of the files.
    After(Vec<Option<String>>),
}

impl View for TurnEvent {
    type V = TurnEventV;

    open spec fn view(&self) -> TurnEventV {
        match self {
            TurnEvent::Stored(r) => TurnEventV::Stored(
                match r {
                    Ok(_) => Ok(()),
                    Err(e) => Err(e@),
                },
            ),
            TurnEvent::Head(o) => TurnEventV::Head(view_opt(*o)),
            TurnEvent::Surroundings { date, agents_md } => TurnEventV::Surroundings {
                date: date@,
                agents_md: view_opt(*agents_md),
            },
            TurnEvent::Opened(r) => TurnEventV::Opened(
                match r {
                    Ok(_) => Ok(()),
                    Err(e) => Err(e@),
                },
            ),
            TurnEvent::Sampled(o) => TurnEventV::Sampled(
                match o {
                    Some(r) => Some(view_res(*r)),
                    None => None,
                },
            ),
            TurnEvent::Answered(d) => TurnEventV::Answered(*d),
            TurnEvent::Before(f) => TurnEventV::Before(f@),
            TurnEvent::Performed(o) => TurnEventV::Performed(o@),
            TurnEvent::After(contents) => TurnEventV::After(
                contents@.map_values(|o: Option<String>| view_opt(o)),
            ),
        }
    }
}

/// What a turn works on.
pub ghost struct WorldV {
    pub session: SessionV,
    pub gate: GateV,
    pub snapshots: Seq<SnapshotV>,
    pub git_head: Option<Seq<char>>,
    pub working_dir: Seq<char>,
}

/// Where a step leads: what the turn has worked on, what it does now, what is
/// shown, and what is to be done.
pub ghost struct TurnStepV {
    pub world: WorldV,
    pub phase: PhaseV,
    pub emitted: Seq<SessionEventV>,
    pub action: ActionV,
}

/// Where a step leads: what the turn does now, what is shown, and what is to
/// be done.
#[derive(Debug)]
pub struct TurnStep {
    pub phase: Phase,
    pub emitted: Vec<SessionEvent>,
    pub action: Action,
}

/// The step, with what the turn has worked on.
pub open spec fn step_in(w: WorldV, s: TurnStep) -> TurnStepV {
    TurnStepV { world: w, phase: s.phase@, emitted: views(s.emitted@), action: s.action@ }
}

// ---------------------------------------------------------------------------
// Tool calls
// ---------------------------------------------------------------------------
/// The result of a call to a tool that does not exist.
pub open spec fn unknown_tool(name: Seq<char>) -> Seq<char> {
    "error: 未知工具 "@ + name
}

/// What the model gets of what a tool gave.
pub open spec fn result_text(r: Result<Seq<char>, ToolErrorV>) -> Seq<char> {
    match r {
        Ok(s) => s,
        Err(e) => "error: "@ + e.message(),
    }
}

/// A tool call has its result.
pub open spec fn call_done(
    w: WorldV,
    c: CallsV,
    emitted: Seq<SessionEventV>,
    result: Seq<char>,
) -> TurnStepV {
    TurnStepV {
        world: w,
        phase: PhaseV::StoringResult { calls: c, result },
        emitted: emitted.push(SessionEventV::ToolFinished { name: c.current().name, result }),
        action: ActionV::Store(
            RecordV::ToolResult { tool_call_id: c.current().id, content: result },
        ),
    }
}

/// A tool has made a step.
pub open spec fn call_step(
    w: WorldV,
    c: CallsV,
    emitted: Seq<SessionEventV>,
    step: StepV,
) -> TurnStepV {
    match step {
        StepV::Done(r) => call_done(w, c, emitted, result_text(r)),
        StepV::Do(op) => TurnStepV {
            world: w,
            phase: PhaseV::Running(c),
            emitted,
            action: ActionV::Perform(op),
        },
    }
}

/// A tool makes its first step.
pub open spec fn call_start<T: Tool>(
    tools: Seq<T>,
    w: WorldV,
    c: CallsV,
    emitted: Seq<SessionEventV>,
) -> TurnStepV {
    match named(tools, c.current().name) {
        None => call_done(w, c, emitted, unknown_tool(c.current().name)),
        Some(t) => call_step(w, c, emitted, t.first_step(c.current().arguments)),
    }
}

/// A tool may run: the file that it writes is looked at first, unless the turn
/// has written it before.
pub open spec fn call_allowed<T: Tool>(
    tools: Seq<T>,
    w: WorldV,
    c: CallsV,
    emitted: Seq<SessionEventV>,
) -> TurnStepV {
    match named(tools, c.current().name) {
        None => call_done(w, c, emitted, unknown_tool(c.current().name)),
        Some(t) => match t.target(c.current().arguments) {
            Some(path) => if touched(w.snapshots, path) {
                call_start(tools, w, c, emitted)
            } else {
                TurnStepV {
                    world: w,
                    phase: PhaseV::Noting { calls: c, path },
                    emitted,
                    action: ActionV::ReadBefore(path),
                }
            },
            None => call_start(tools, w, c, emitted),
        },
    }
}

/// It is decided whether a tool may run.
pub open spec fn call_decided<T: Tool>(
    tools: Seq<T>,
    w: WorldV,
    c: CallsV,
    emitted: Seq<SessionEventV>,
    d: Decision,
) -> TurnStepV {
    if d == Decision::Deny {
        call_done(w, c, emitted, "user denied"@)
    } else {
        call_allowed(tools, w, c, emitted)
    }
}

/// A tool call begins: it is shown, and where the tool needs permission, that
/// is looked up or asked for.
pub open spec fn call_begin<T: Tool>(tools: Seq<T>, w: WorldV, c: CallsV) -> TurnStepV {
    let name = c.current().name;
    let arguments = c.current().arguments;
    let shown = seq![
        SessionEventV::ToolStarted { name, args_preview: take(arguments, 160) },
    ];
    match named(tools, name) {
        None => call_done(w, c, shown, unknown_tool(name)),
        Some(t) => if t.guarded() {
            let after = WorldV { gate: looked_up(w.gate, name), ..w };
            match checked(w.gate, name, arguments) {
                CheckV::Settled(d) => call_decided(tools, after, c, shown, d),
                CheckV::Ask { name, args_preview } => TurnStepV {
                    world: after,
                    phase: PhaseV::Asking(c),
                    emitted: shown.push(SessionEventV::PermissionRequest { name, args_preview }),
                    action: ActionV::AwaitPermission,
                },
            }
        } else {
            call_allowed(tools, w, c, shown)
        },
    }
}

fn result_of(r: Result<String, ToolError>) -> (s: String)
    ensures
        s@ == result_text(view_res(r)),
{
    match r {
        Ok(s) => s,
        Err(e) => {
            let message = e.message();
            join("error: ", message.as_str())
        },
    }
}

fn unknown(name: &str) -> (r: String)
    ensures
        r@ == unknown_tool(name@),
{
    join("error: 未知工具 ", name)
}

fn finish_call(
    Ghost(w): Ghost<WorldV>,
    calls: Calls,
    emitted: Vec<SessionEvent>,
    result: String,
) -> (r: TurnStep)
    requires
        calls@.wf(),
    ensures
        step_in(w, r) == call_done(w, calls@, views(emitted@), result@),
{
    let mut emitted = emitted;
    let ghost known = views(emitted@);
    let ghost c = calls@;
    let tc = &calls.calls[calls.index];
    assert(c.current() == tc@);
    let shown = SessionEvent::ToolFinished {
        name: tc.function.name.clone(),
        result: result.clone(),
    };
    let record = Session::tool_record(tc.id.as_str(), result.as_str());
    emitted.push(shown);
    assert(views(emitted@) =~= known.push(shown@));
    TurnStep {
        phase: Phase::StoringResult { calls, result },
        emitted,
        action: Action::Store(record),
    }
}

fn step_call(
    Ghost(w): Ghost<WorldV>,
    calls: Calls,
    emitted: Vec<SessionEvent>,
    step: Step,
) -> (r: TurnStep)
    requires
        calls@.wf(),
    ensures
        step_in(w, r) == call_step(w, calls@, views(emitted@), step@),
{
    match step {
        Step::Done(r) => finish_call(Ghost(w), calls, emitted, result_of(r)),
        Step::Do(op) => TurnStep {
            phase: Phase::Running(calls),
            emitted,
            action: Action::Perform(op),
        },
    }
}

fn start_call<T: Tool>(
    Ghost(w): Ghost<WorldV>,
    registry: &Registry<T>,
    calls: Calls,
    emitted: Vec<SessionEvent>,
) -> (r: TurnStep)
    requires
        registry.wf(),
        calls@.wf(),
    ensures
        step_in(w, r) == call_start(registry.tools@, w, calls@, views(emitted@)),
{
    let tc = calls.calls[calls.index].clone();
    assert(calls@.current() == tc@);
    match registry.get(tc.function.name.as_str()) {
        None => {
            let result = unknown(tc.function.name.as_str());
            finish_call(Ghost(w), calls, emitted, result)
        },
        Some(t) => {
            let step = t.execute(tc.function.arguments.as_str());
            step_call(Ghost(w), calls, emitted, step)
        },
    }
}

fn allow_call<T: Tool>(
    Ghost(w): Ghost<WorldV>,
    registry: &Registry<T>,
    tracker: &HunkTracker,
    calls: Calls,
    emitted: Vec<SessionEvent>,
) -> (r: TurnStep)
    requires
        registry.wf(),
        calls@.wf(),
        w.snapshots == tracker@,
    ensures
        step_in(w, r) == call_allowed(registry.tools@, w, calls@, views(emitted@)),
{
    let tc = calls.calls[calls.index].clone();
    assert(calls@.current() == tc@);
    match registry.get(tc.function.name.as_str()) {
        None => {
            let result = unknown(tc.function.name.as_str());
            finish_call(Ghost(w), calls, emitted, result)
        },
        Some(t) => match t.writes_path(tc.function.arguments.as_str()) {
            Some(path) => if tracker.needs_snapshot(path.as_str()) {
                let wanted = path.clone();
                TurnStep {
                    phase: Phase::Noting { calls, path },
                    emitted,
                    action: Action::ReadBefore(wanted),
                }
            } else {
                start_call(Ghost(w), registry, calls, emitted)
            },
            None => start_call(Ghost(w), registry, calls, emitted),
        },
    }
}

fn decide_call<T: Tool>(
    Ghost(w): Ghost<WorldV>,
    registry: &Registry<T>,
    tracker: &HunkTracker,
    calls: Calls,
    emitted: Vec<SessionEvent>,
    d: Decision,
) -> (r: TurnStep)
    requires
        registry.wf(),
        calls@.wf(),
        w.snapshots == tracker@,
    ensures
        step_in(w, r) == call_decided(registry.tools@, w, calls@, views(emitted@), d),
{
    if d == Decision::Deny {
        finish_call(Ghost(w), calls, emitted, "user denied".to_owned())
    } else {
        allow_call(Ghost(w), registry, tracker, calls, emitted)
    }
}

fn begin_call<T: Tool>(
    Ghost(w): Ghost<WorldV>,
    registry: &Registry<T>,
    gate: &mut PermissionGate,
    tracker: &HunkTracker,
    calls: Calls,
) -> (r: TurnStep)
    requires
        registry.wf(),
        calls@.wf(),
        w.snapshots == tracker@,
        w.gate == old(gate)@,
    ensures
        step_in(WorldV { gate: final(gate)@, ..w }, r) == call_begin(registry.tools@, w, calls@),
{
    let tc = calls.calls[calls.index].clone();
    assert(calls@.current() == tc@);
    let name = tc.function.name.as_str();
    let arguments = tc.function.arguments.as_str();
    let mut emitted: Vec<SessionEvent> = Vec::new();
    let shown = SessionEvent::ToolStarted {
        name: tc.function.name.clone(),
        args_preview: take_chars(arguments, 160),
    };
    emitted.push(shown);
    assert(views(emitted@) =~= seq![shown@]);
    match registry.get(name) {
        None => {
            let result = unknown(name);
            finish_call(Ghost(w), calls, emitted, result)
        },
        Some(t) => {
            if t.requires_permission() {
                let check = gate.check(name, arguments);
                let ghost after = WorldV { gate: gate@, ..w };
                match check {
                    Check::Settled(d) => {
                        decide_call(Ghost(after), registry, tracker, calls, emitted, d)
                    },
                    Check::Ask { name, args_preview } => {
                        let ghost known = views(emitted@);
                        let request = SessionEvent::PermissionRequest { name, args_preview };
                        emitted.push(request);
                        assert(views(emitted@) =~= known.push(request@));
                        TurnStep {
                            phase: Phase::Asking(calls),
                            emitted,
                            action: Action::AwaitPermission,
                        }
                    },
                }
            } else {
                allow_call(Ghost(w), registry, tracker, calls, emitted)
            }
        },
    }
}

// ---------------------------------------------------------------------------
// Turns
// ---------------------------------------------------------------------------
/// A step that shows nothing.
pub open spec fn quiet(w: WorldV, phase: PhaseV, action: ActionV) -> TurnStepV {
    TurnStepV { world: w, phase, emitted: seq![], action }
}

/// The turn is over.
pub open spec fn turn_over(w: WorldV, r: Result<(), AppErrorV>) -> TurnStepV {
    quiet(w, PhaseV::Finished, ActionV::Finish(r))
}

/// A turn begins: the message of the user is to be stored.
pub open spec fn turn_begun(w: WorldV, content: Seq<char>) -> TurnStepV {
    quiet(
        w,
        PhaseV::StoringUser(content),
        ActionV::Store(
            RecordV::UserMessage { prompt_index: (w.session.prompt_index + 1) as u32, content },
        ),
    )
}

/// The message of the user is stored: it is found out which commit is checked
/// out before anything else is done.
pub open spec fn turn_anchor(w: WorldV) -> TurnStepV {
    quiet(w, PhaseV::Anchoring, ActionV::ReadHead)
}

/// The model is to be asked.
pub open spec fn turn_prepare(w: WorldV) -> TurnStepV {
    quiet(w, PhaseV::Preparing, ActionV::LookAround)
}

/// What the model is asked: the system prompt in front of the history, and the
/// tools that it may call.
pub open spec fn request_of<T: Tool>(
    tools: Seq<T>,
    s: SessionV,
    prompt: Seq<char>,
) -> SamplingRequestV {
    SamplingRequestV {
        model: s.model,
        messages: seq![MessageV::System { content: prompt }] + s.messages,
        tools_schema: tools.map_values(|t: T| t.description()),
    }
}

/// The answer has ended.
pub open spec fn answer_done(w: WorldV, a: AnswerV) -> TurnStepV {
    let content = non_empty(a.text);
    let reasoning_content = non_empty(a.reasoning);
    let calls = calls_of(a.parts);
    TurnStepV {
        world: w,
        phase: PhaseV::StoringAnswer { content, reasoning_content, calls },
        emitted: seq![SessionEventV::StreamEnd],
        action: ActionV::Store(
            RecordV::AssistantMessage { content, reasoning_content, tool_calls: calls },
        ),
    }
}

/// The model asks for no more tools: where the turn has written files, they
/// are looked at.
pub open spec fn turn_end(w: WorldV) -> TurnStepV {
    if w.snapshots.len() > 0 {
        quiet(
            w,
            PhaseV::Sealing,
            ActionV::ReadAfter(w.snapshots.map_values(|s: SnapshotV| s.path)),
        )
    } else {
        turn_over(w, Ok(()))
    }
}

/// The checkpoint of a turn, with the commit that was checked out when it began.
pub open spec fn checkpoint_of(w: WorldV, contents: Seq<Option<Seq<char>>>) -> CheckpointV {
    CheckpointV {
        prompt_index: w.session.prompt_index,
        file_snapshots: w.snapshots,
        hunks: hunks_of(w.snapshots, contents),
        git_head: w.git_head,
    }
}

/// The event tells what came of what the turn is doing.
pub open spec fn answers(w: WorldV, phase: PhaseV, e: TurnEventV) -> bool {
    match phase {
        PhaseV::StoringUser(_) => e is Stored && w.session.prompt_index < u32::MAX,
        PhaseV::Anchoring => e is Head,
        PhaseV::Preparing => e is Surroundings,
        PhaseV::Opening => e is Opened,
        PhaseV::Streaming(_) => e is Sampled,
        PhaseV::StoringAnswer { .. } => e is Stored,
        PhaseV::Asking(c) => e is Answered && c.wf(),
        PhaseV::Noting { calls, .. } => e is Before && calls.wf(),
        PhaseV::Running(c) => e is Performed && c.wf(),
        PhaseV::StoringResult { calls, .. } => e is Stored && calls.wf(),
        PhaseV::Sealing => e matches TurnEventV::After(contents) && contents.len()
            == w.snapshots.len(),
        PhaseV::StoringCheckpoint(_) => e is Stored,
        PhaseV::Finished => false,
    }
}

/// What a turn does once its record is stored.
pub open spec fn stored_step<T: Tool>(tools: Seq<T>, w: WorldV, phase: PhaseV) -> TurnStepV {
    match phase {
        PhaseV::StoringUser(content) => turn_anchor(
            WorldV { session: with_user(w.session, content), ..w },
        ),
        PhaseV::StoringAnswer { content, reasoning_content, calls } => {
            let after = WorldV {
                session: with_message(
                    w.session,
                    MessageV::Assistant { content, reasoning_content, tool_calls: calls },
                ),
                ..w
            };
            if calls.len() == 0 {
                turn_end(after)
            } else {
                call_begin(tools, after, CallsV { calls, index: 0 })
            }
        },
        PhaseV::StoringResult { calls, result } => {
            let after = WorldV {
                session: with_message(
                    w.session,
                    MessageV::Tool { tool_call_id: calls.current().id, content: result },
                ),
                ..w
            };
            if calls.calls.len() - calls.index > 1 {
                call_begin(tools, after, CallsV { index: calls.index + 1, ..calls })
            } else {
                turn_prepare(after)
            }
        },
        PhaseV::StoringCheckpoint(cp) => turn_over(
            WorldV { session: with_checkpoint(w.session, cp), ..w },
            Ok(()),
        ),
        _ => turn_over(w, Ok(())),
    }
}

/// Where an event leads.
pub open spec fn advanced<T: Tool>(
    tools: Seq<T>,
    w: WorldV,
    phase: PhaseV,
    e: TurnEventV,
) -> TurnStepV {
    match e {
        TurnEventV::Stored(Ok(_)) => stored_step(tools, w, phase),
        TurnEventV::Stored(Err(x)) => turn_over(w, Err(AppErrorV::Session(x))),
        TurnEventV::Head(git_head) => turn_prepare(WorldV { git_head, ..w }),
        TurnEventV::Surroundings { date, agents_md } => quiet(
            w,
            PhaseV::Opening,
            ActionV::Sample(
                request_of(
                    tools,
                    w.session,
                    prompt(w.session.model, w.working_dir, date, agents_md),
                ),
            ),
        ),
        TurnEventV::Opened(Ok(_)) => quiet(
            w,
            PhaseV::Streaming(AnswerV { text: seq![], reasoning: seq![], parts: seq![] }),
            ActionV::NextEvent,
        ),
        TurnEventV::Opened(Err(x)) => turn_over(w, Err(AppErrorV::Api(x))),
        TurnEventV::Sampled(o) => match phase {
            PhaseV::Streaming(a) => match o {
                None => answer_done(w, a),
                Some(Err(x)) => turn_over(w, Err(AppErrorV::Api(x))),
                Some(Ok(SamplingEventV::Done { .. })) => answer_done(w, a),
                Some(Ok(ev)) => TurnStepV {
                    world: w,
                    phase: PhaseV::Streaming(extended(a, ev)),
                    emitted: echoed(ev),
                    action: ActionV::NextEvent,
                },
            },
            _ => turn_over(w, Ok(())),
        },
        TurnEventV::Answered(reply) => match phase {
            PhaseV::Asking(c) => call_decided(
                tools,
                WorldV {
                    gate: decided(w.gate, c.current().name, decision_of(reply)),
                    ..w
                },
                c,
                seq![],
                decision_of(reply),
            ),
            _ => turn_over(w, Ok(())),
        },
        TurnEventV::Before(found) => match phase {
            PhaseV::Noting { calls, path } => call_start(
                tools,
                WorldV { snapshots: noted(w.snapshots, path, found), ..w },
                calls,
                seq![],
            ),
            _ => turn_over(w, Ok(())),
        },
        TurnEventV::Performed(outcome) => match phase {
            PhaseV::Running(c) => match named(tools, c.current().name) {
                None => call_done(w, c, seq![], unknown_tool(c.current().name)),
                Some(t) => call_step(
                    w,
                    c,
                    seq![],
                    t.next_step(c.current().arguments, outcome),
                ),
            },
            _ => turn_over(w, Ok(())),
        },
        TurnEventV::After(contents) => {
            let cp = checkpoint_of(w, contents);
            quiet(
                WorldV { snapshots: seq![], ..w },
                PhaseV::StoringCheckpoint(cp),
                ActionV::Store(RecordV::Checkpoint(cp)),
            )
        },
    }
}

/// The agent: the tools that the model may call, which of them may run, the
/// files that the present turn has written, and the commit that was checked out
/// when it began.
pub struct Agent<T: Tool> {
    pub registry: Registry<T>,
    pub gate: PermissionGate,
    /// The directory that the agent works in.
    pub working_dir: String,
    pub hunk_tracker: HunkTracker,
    pub git_head: Option<String>,
}

fn silent(phase: Phase, action: Action) -> (r: TurnStep)
    ensures
        r.phase@ == phase@,
        views(r.emitted@) == Seq::<SessionEventV>::empty(),
        r.action@ == action@,
{
    let emitted: Vec<SessionEvent> = Vec::new();
    assert(views(emitted@) =~= Seq::<SessionEventV>::empty());
    TurnStep { phase, emitted, action }
}

fn over(r: Result<(), AppError>) -> (s: TurnStep)
    ensures
        s.phase@ == PhaseV::Finished,
        views(s.emitted@) == Seq::<SessionEventV>::empty(),
        s.action@ == Action::Finish(r)@,
{
    silent(Phase::Finished, Action::Finish(r))
}

fn finish_answer(Ghost(w): Ghost<WorldV>, answer: Answer) -> (r: TurnStep)
    ensures
        step_in(w, r) == answer_done(w, answer@),
{
    let calls = answer.calls();
    let content = some_text(answer.text);
    let reasoning_content = some_text(answer.reasoning);
    let record = Session::assistant_record(&content, &reasoning_content, &calls);
    let mut emitted: Vec<SessionEvent> = Vec::new();
    emitted.push(SessionEvent::StreamEnd);
    assert(views(emitted@) =~= seq![SessionEventV::StreamEnd]);
    TurnStep {
        phase: Phase::StoringAnswer { content, reasoning_content, calls },
        emitted,
        action: Action::Store(record),
    }
}

fn clone_messages(system: Message, v: &Vec<Message>) -> (r: Vec<Message>)
    ensures
        views(r@) == seq![system@] + views(v@),
{
    let mut out: Vec<Message> = Vec::new();
    let ghost all = seq![system@] + views(v@);
    out.push(system);
    let mut i: usize = 0;
    while i < v.len()
        invariant
            i <= v@.len(),
            out@.len() == i + 1,
            all == seq![system@] + views(v@),
            forall|j: int| 0 <= j <= i ==> (#[trigger] out@[j])@ == all[j],
        decreases v@.len() - i,
    {
        let m = v[i].clone();
        assert(all[i + 1] == v@[i as int]@);
        out.push(m);
        i = i + 1;
    }
    assert(views(out@) =~= all);
    out
}

impl<T: Tool> Agent<T> {
    /// The names of the tools are distinct, and so are the files of the turn.
    pub open spec fn wf(&self) -> bool {
        self.registry.wf() && self.hunk_tracker.wf()
    }

    /// What a turn works on.
    pub open spec fn world(&self, session: &Session) -> WorldV {
        WorldV {
            session: session@,
            gate: self.gate@,
            snapshots: self.hunk_tracker@,
            git_head: view_opt(self.git_head),
            working_dir: self.working_dir@,
        }
    }

    /// A turn begins: the message of the user is to be stored.
    pub fn run_turn(&self, session: &Session, user_input: String) -> (r: TurnStep)
        requires
            session@.prompt_index < u32::MAX,
        ensures
            step_in(self.world(session), r) == turn_begun(self.world(session), user_input@),
    {
        let record = session.user_record(user_input.as_str());
        silent(Phase::StoringUser(user_input), Action::Store(record))
    }

    /// What the model is asked.
    pub fn request(&self, session: &Session, prompt: String) -> (r: SamplingRequest)
        ensures
            r@ == request_of(self.registry.tools@, session@, prompt@),
    {
        SamplingRequest {
            model: session.model.clone(),
            messages: clone_messages(Message::System { content: prompt }, &session.messages),
            tools_schema: self.registry.schemas(),
        }
    }

    fn end_turn(&self, Ghost(w): Ghost<WorldV>) -> (r: TurnStep)
        requires
            w.snapshots == self.hunk_tracker@,
        ensures
            step_in(w, r) == turn_end(w),
    {
        if self.hunk_tracker.has_pending() {
            silent(Phase::Sealing, Action::ReadAfter(self.hunk_tracker.pending_paths()))
        } else {
            over(Ok(()))
        }
    }

    fn begin(&mut self, session: &Session, calls: Calls) -> (r: TurnStep)
        requires
            old(self).wf(),
            calls@.wf(),
        ensures
            final(self).wf(),
            final(self).registry == old(self).registry,
            final(self).working_dir == old(self).working_dir,
            step_in(final(self).world(session), r) == call_begin(
                old(self).registry.tools@,
                old(self).world(session),
                calls@,
            ),
    {
        let ghost w = self.world(session);
        begin_call(Ghost(w), &self.registry, &mut self.gate, &self.hunk_tracker, calls)
    }

    fn on_stored(&mut self, session: &mut Session, phase: Phase, stored: Result<
        (),
        SessionError,
    >) -> (r: TurnStep)
        requires
            old(self).wf(),
            answers(old(self).world(old(session)), phase@, TurnEvent::Stored(stored)@),
        ensures
            final(self).wf(),
            final(self).registry == old(self).registry,
            final(self).working_dir == old(self).working_dir,
            final(session).log_path == old(session).log_path,
            step_in(final(self).world(final(session)), r) == advanced(
                old(self).registry.tools@,
                old(self).world(old(session)),
                phase@,
                TurnEvent::Stored(stored)@,
            ),
    {
        match phase {
            Phase::StoringUser(content) => match session.push_user(content, stored) {
                Ok(_) => silent(Phase::Anchoring, Action::ReadHead),
                Err(e) => over(Err(AppError::Session(e))),
            },
            Phase::StoringAnswer { content, reasoning_content, calls } => {
                let copies = clone_calls(&calls);
                match session.push_assistant(content, reasoning_content, copies, stored) {
                    Ok(_) => {
                        if calls.len() == 0 {
                            let ghost w = self.world(session);
                            self.end_turn(Ghost(w))
                        } else {
                            self.begin(session, Calls { calls, index: 0 })
                        }
                    },
                    Err(e) => over(Err(AppError::Session(e))),
                }
            },
            Phase::StoringResult { calls, result } => {
                let id = calls.calls[calls.index].id.clone();
                assert(calls@.current() == calls.calls@[calls.index as int]@);
                match session.push_tool_result(id, result, stored) {
                    Ok(_) => {
                        if calls.calls.len() - calls.index > 1 {
                            let index: usize = calls.index + 1;
                            self.begin(session, Calls { calls: calls.calls, index })
                        } else {
                            silent(Phase::Preparing, Action::LookAround)
                        }
                    },
                    Err(e) => over(Err(AppError::Session(e))),
                }
            },
            Phase::StoringCheckpoint(cp) => match session.push_checkpoint(cp, stored) {
                Ok(_) => over(Ok(())),
                Err(e) => over(Err(AppError::Session(e))),
            },
            _ => over(Ok(())),
        }
    }

    fn on_sampled(&self, session: &Session, answer: Answer, sampled: Option<
        Result<SamplingEvent, ApiError>,
    >) -> (r: TurnStep)
        ensures
            step_in(self.world(session), r) == advanced(
                self.registry.tools@,
                self.world(session),
                PhaseV::Streaming(answer@),
                TurnEvent::Sampled(sampled)@,
            ),
    {
        let ghost w = self.world(session);
        match sampled {
            None => finish_answer(Ghost(w), answer),
            Some(Err(e)) => over(Err(AppError::Api(e))),
            Some(Ok(SamplingEvent::Done { .. })) => finish_answer(Ghost(w), answer),
            Some(Ok(ev)) => {
                let mut answer = answer;
                let emitted = answer.extend(ev);
                TurnStep { phase: Phase::Streaming(answer), emitted, action: Action::NextEvent }
            },
        }
    }

    fn on_performed(&self, session: &Session, calls: Calls, outcome: Outcome) -> (r: TurnStep)
        requires
            self.wf(),
            calls@.wf(),
        ensures
            step_in(self.world(session), r) == advanced(
                self.registry.tools@,
                self.world(session),
                PhaseV::Running(calls@),
                TurnEventV::Performed(outcome@),
            ),
    {
        let ghost w = self.world(session);
        let emitted: Vec<SessionEvent> = Vec::new();
        assert(views(emitted@) =~= Seq::<SessionEventV>::empty());
        let tc = calls.calls[calls.index].clone();
        assert(calls@.current() == tc@);
        match self.registry.get(tc.function.name.as_str()) {
            None => {
                let result = unknown(tc.function.name.as_str());
                finish_call(Ghost(w), calls, emitted, result)
            },
            Some(t) => {
                let step = t.resume(tc.function.arguments.as_str(), outcome);
                step_call(Ghost(w), calls, emitted, step)
            },
        }
    }

    fn on_answered(&mut self, session: &Session, calls: Calls, reply: Option<Decision>) -> (r:
        TurnStep)
        requires
            old(self).wf(),
            calls@.wf(),
        ensures
            final(self).wf(),
            final(self).registry == old(self).registry,
            final(self).working_dir == old(self).working_dir,
            step_in(final(self).world(session), r) == advanced(
                old(self).registry.tools@,
                old(self).world(session),
                PhaseV::Asking(calls@),
                TurnEventV::Answered(reply),
            ),
    {
        let name = calls.calls[calls.index].function.name.clone();
        assert(calls@.current() == calls.calls@[calls.index as int]@);
        let d = self.gate.answer(name.as_str(), reply);
        let ghost w = self.world(session);
        let emitted: Vec<SessionEvent> = Vec::new();
        assert(views(emitted@) =~= Seq::<SessionEventV>::empty());
        decide_call(Ghost(w), &self.registry, &self.hunk_tracker, calls, emitted, d)
    }

    fn on_noted(&mut self, session: &Session, calls: Calls, path: String, found: Found) -> (r:
        TurnStep)
        requires
            old(self).wf(),
            calls@.wf(),
        ensures
            final(self).wf(),
            final(self).registry == old(self).registry,
            final(self).working_dir == old(self).working_dir,
            step_in(final(self).world(session), r) == advanced(
                old(self).registry.tools@,
                old(self).world(session),
                PhaseV::Noting { calls: calls@, path: path@ },
                TurnEventV::Before(found@),
            ),
    {
        self.hunk_tracker.on_before_write(path.as_str(), found);
        let ghost w = self.world(session);
        let emitted: Vec<SessionEvent> = Vec::new();
        assert(views(emitted@) =~= Seq::<SessionEventV>::empty());
        start_call(Ghost(w), &self.registry, calls, emitted)
    }

    fn seal_checkpoint(&mut self, session: &Session, contents: Vec<Option<String>>) -> (r:
        TurnStep)
        requires
            old(self).wf(),
            contents@.len() == old(self).hunk_tracker@.len(),
        ensures
            final(self).wf(),
            final(self).registry == old(self).registry,
            final(self).working_dir == old(self).working_dir,
            step_in(final(self).world(session), r) == advanced(
                old(self).registry.tools@,
                old(self).world(session),
                PhaseV::Sealing,
                TurnEvent::After(contents)@,
            ),
    {
        let git_head = clone_opt(&self.git_head);
        let cp = self.hunk_tracker.seal(session.prompt_index, git_head, &contents);
        let record = UpdateRecord::Checkpoint(cp.clone());
        silent(Phase::StoringCheckpoint(cp), Action::Store(record))
    }

    /// Takes what came of the last action, and gives what is to be done next.
    pub fn advance(&mut self, session: &mut Session, phase: Phase, event: TurnEvent) -> (r:
        TurnStep)
        requires
            old(self).wf(),
            answers(old(self).world(old(session)), phase@, event@),
        ensures
            final(self).wf(),
            final(self).registry == old(self).registry,
            final(self).working_dir == old(self).working_dir,
            final(session).log_path == old(session).log_path,
            step_in(final(self).world(final(session)), r) == advanced(
                old(self).registry.tools@,
                old(self).world(old(session)),
                phase@,
                event@,
            ),
    {
        match event {
            TurnEvent::Stored(stored) => self.on_stored(session, phase, stored),
            TurnEvent::Head(git_head) => {
                self.git_head = git_head;
                silent(Phase::Preparing, Action::LookAround)
            },
            TurnEvent::Surroundings { date, agents_md } => {
                let agents_md = match &agents_md {
                    Some(s) => Some(s.as_str()),
                    None => None,
                };
                let prompt = build_on(
                    &session.model,
                    self.working_dir.as_str(),
                    date.as_str(),
                    agents_md,
                );
                let request = self.request(session, prompt);
                silent(Phase::Opening, Action::Sample(request))
            },
            TurnEvent::Opened(Ok(_)) => silent(Phase::Streaming(Answer::new()), Action::NextEvent),
            TurnEvent::Opened(Err(e)) => over(Err(AppError::Api(e))),
            TurnEvent::Sampled(sampled) => match phase {
                Phase::Streaming(answer) => self.on_sampled(session, answer, sampled),
                _ => over(Ok(())),
            },
            TurnEvent::Answered(reply) => match phase {
                Phase::Asking(calls) => self.on_answered(session, calls, reply),
                _ => over(Ok(())),
            },
            TurnEvent::Before(found) => match phase {
                Phase::Noting { calls, path } => self.on_noted(session, calls, path, found),
                _ => over(Ok(())),
            },
            TurnEvent::Performed(outcome) => match phase {
                Phase::Running(calls) => self.on_performed(session, calls, outcome),
                _ => over(Ok(())),
            },
            TurnEvent::After(contents) => self.seal_checkpoint(session, contents),
        }
    }
}

/// The commit that `git rev-parse HEAD` names, given whether it succeeded and
/// what it wrote.
pub open spec fn head_commit(success: bool, stdout: Seq<u8>) -> Option<Seq<char>> {
    if success && valid_utf8(stdout) {
        non_empty(trimmed(decode_utf8(stdout)))
    } else {
        None
    }
}

/// The commit that `git rev-parse HEAD` names.
pub fn git_head(success: bool, stdout: Vec<u8>) -> (r: Option<String>)
    ensures
        view_opt(r) == head_commit(success, stdout@),
{
    if !success {
        return None;
    }
    match utf8_text(stdout) {
        Ok(text) => some_text(trim(text.as_str())),
        Err(_) => None,
    }
}

// ---------------------------------------------------------------------------
// What holds of every turn
// ---------------------------------------------------------------------------
/// The event tells what came of the action.
pub open spec fn outcome_of(a: ActionV, e: TurnEventV) -> bool {
    match a {
        ActionV::Store(_) => e is Stored,
        ActionV::ReadHead => e is Head,
        ActionV::LookAround => e is Surroundings,
        ActionV::Sample(_) => e is Opened,
        ActionV::NextEvent => e is Sampled,
        ActionV::AwaitPermission => e is Answered,
        ActionV::ReadBefore(_) => e is Before,
        ActionV::Perform(_) => e is Performed,
        ActionV::ReadAfter(paths) => e matches TurnEventV::After(contents) && contents.len()
            == paths.len(),
        ActionV::Finish(_) => false,
    }
}

/// Whoever does what a step asks for, and tells what came of it, can go on: a
/// turn gets stuck nowhere.
pub proof fn law_turn_never_gets_stuck<T: Tool>(
    tools: Seq<T>,
    w: WorldV,
    phase: PhaseV,
    e: TurnEventV,
    next: TurnEventV,
)
    requires
        answers(w, phase, e),
        outcome_of(advanced(tools, w, phase, e).action, next),
    ensures
        answers(advanced(tools, w, phase, e).world, advanced(tools, w, phase, e).phase, next),
{
}

/// A turn is over exactly when it says so.
pub proof fn law_finish_is_last<T: Tool>(
    tools: Seq<T>,
    w: WorldV,
    phase: PhaseV,
    e: TurnEventV,
)
    requires
        answers(w, phase, e),
    ensures
        (advanced(tools, w, phase, e).action is Finish) == (advanced(
            tools,
            w,
            phase,
            e,
        ).phase is Finished),
{
}

/// A turn succeeds only once the model has asked for no more tools, and then
/// only with all that it has written accounted for.
pub proof fn law_success_needs_final_answer<T: Tool>(
    tools: Seq<T>,
    w: WorldV,
    phase: PhaseV,
    e: TurnEventV,
)
    requires
        answers(w, phase, e),
        advanced(tools, w, phase, e).action == ActionV::Finish(Ok(())),
    ensures
        e matches TurnEventV::Stored(Ok(_)),
        phase is StoringCheckpoint || (phase matches PhaseV::StoringAnswer { calls, .. }
            && calls.len() == 0 && w.snapshots.len() == 0),
{
}

/// Every request is the system prompt for the model of the session and the
/// working directory of the agent, followed by the history as it is, and names
/// the tools of the agent.
pub proof fn law_request_is_prompt_and_history<T: Tool>(
    tools: Seq<T>,
    w: WorldV,
    phase: PhaseV,
    e: TurnEventV,
)
    requires
        answers(w, phase, e),
    ensures
        advanced(tools, w, phase, e).action matches ActionV::Sample(req) ==> {
            &&& e matches TurnEventV::Surroundings { date, agents_md }
            &&& req.model == w.session.model
            &&& req.messages.len() == w.session.messages.len() + 1
            &&& req.messages[0] == (MessageV::System {
                content: prompt(w.session.model, w.working_dir, date, agents_md),
            })
            &&& req.tools_schema == tools.map_values(|t: T| t.description())
            &&& advanced(tools, w, phase, e).world == w
            &&& req.messages.subrange(1, req.messages.len() as int) == w.session.messages
        },
{
    match advanced(tools, w, phase, e).action {
        ActionV::Sample(req) => {
            assert(req.messages.subrange(1, req.messages.len() as int) =~= w.session.messages);
        },
        _ => {},
    }
}

/// The history holds no system prompt.
pub open spec fn no_system(s: Seq<MessageV>) -> bool {
    forall|i: int| 0 <= i < s.len() ==> !((#[trigger] s[i]) is System)
}

/// No step puts a system prompt into the history.
pub proof fn law_history_holds_no_system_prompt<T: Tool>(
    tools: Seq<T>,
    w: WorldV,
    phase: PhaseV,
    e: TurnEventV,
)
    requires
        answers(w, phase, e),
        no_system(w.session.messages),
    ensures
        no_system(advanced(tools, w, phase, e).world.session.messages),
{
}

/// The tool call that a turn has let run, where it has.
pub open spec fn cleared(phase: PhaseV) -> Option<CallsV> {
    match phase {
        PhaseV::Noting { calls, .. } => Some(calls),
        PhaseV::Running(calls) => Some(calls),
        _ => None,
    }
}

/// A tool that needs permission runs only with it: a call is let run only
/// where the permissions or the user have just allowed it, or where it was running
/// before; and nothing is done for a tool whose call was not let run.
pub proof fn law_guarded_tools_need_permission<T: Tool>(
    tools: Seq<T>,
    w: WorldV,
    phase: PhaseV,
    e: TurnEventV,
)
    requires
        answers(w, phase, e),
    ensures
        ({
            let after = advanced(tools, w, phase, e);
            &&& after.action is Perform ==> after.phase is Running
            &&& cleared(after.phase) matches Some(c) ==> {
                &&& named(tools, c.current().name) matches Some(t)
                &&& t.guarded() ==> {
                    ||| cleared(phase) == Some(c)
                    ||| settled(w.gate, c.current().name) matches Some(d) && d != Decision::Deny
                    ||| phase == PhaseV::Asking(c) && (e matches TurnEventV::Answered(Some(d))
                        && d != Decision::Deny)
                }
            }
        }),
{
}

/// A refused call does nothing, and the model is told that it was refused; no
/// answer is a refusal.
pub proof fn law_refused_call_does_nothing<T: Tool>(
    tools: Seq<T>,
    w: WorldV,
    c: CallsV,
    reply: Option<Decision>,
)
    requires
        c.wf(),
        reply is None || reply == Some(Decision::Deny),
    ensures
        ({
            let after = advanced(tools, w, PhaseV::Asking(c), TurnEventV::Answered(reply));
            &&& after.world == w
            &&& after.action == ActionV::Store(
                RecordV::ToolResult { tool_call_id: c.current().id, content: "user denied"@ },
            )
        }),
{
}

/// The file that the running tool writes, where it writes one, has been noted.
pub open spec fn target_noted<T: Tool>(tools: Seq<T>, w: WorldV, phase: PhaseV) -> bool {
    phase matches PhaseV::Running(c) ==> (named(tools, c.current().name) matches Some(t)
        && (t.target(c.current().arguments) matches Some(path) ==> touched(w.snapshots, path)))
}

/// What the turn is looking at is what the tool is about to write.
pub open spec fn notes_target<T: Tool>(tools: Seq<T>, phase: PhaseV) -> bool {
    phase matches PhaseV::Noting { calls, path } ==> (named(tools, calls.current().name) matches
        Some(t) && t.target(calls.current().arguments) == Some(path))
}

/// No tool does anything before the file that it writes has been noted.
pub proof fn law_files_are_noted_before_tools_run<T: Tool>(
    tools: Seq<T>,
    w: WorldV,
    phase: PhaseV,
    e: TurnEventV,
)
    requires
        answers(w, phase, e),
        target_noted(tools, w, phase),
        notes_target(tools, phase),
    ensures
        target_noted(tools, advanced(tools, w, phase, e).world, advanced(tools, w, phase, e).phase),
        notes_target(tools, advanced(tools, w, phase, e).phase),
{
    match (phase, e) {
        (PhaseV::Noting { calls, path }, TurnEventV::Before(found)) => {
            let s = noted(w.snapshots, path, found);
            if !touched(w.snapshots, path) {
                assert(s[s.len() - 1].path == path);
            }
        },
        _ => {},
    }
}

/// A step either leaves the snapshots of the turn as they are, adds the one of
/// the file that was looked at, or packs all of them into the checkpoint that
/// is to be stored.
pub proof fn law_snapshots_end_in_checkpoint<T: Tool>(
    tools: Seq<T>,
    w: WorldV,
    phase: PhaseV,
    e: TurnEventV,
)
    requires
        answers(w, phase, e),
    ensures
        ({
            let after = advanced(tools, w, phase, e);
            ||| after.world.snapshots == w.snapshots
            ||| phase matches PhaseV::Noting { path, .. } && (e matches TurnEventV::Before(found)
                && after.world.snapshots == noted(w.snapshots, path, found))
            ||| after.world.snapshots.len() == 0 && (after.phase matches PhaseV::StoringCheckpoint(
                cp,
            ) && cp.file_snapshots == w.snapshots && cp.prompt_index == w.session.prompt_index)
        }),
{
}

/// The record that a turn is storing.
pub open spec fn stored_record(w: WorldV, phase: PhaseV) -> Option<RecordV> {
    match phase {
        PhaseV::StoringUser(content) => Some(
            RecordV::UserMessage { prompt_index: (w.session.prompt_index + 1) as u32, content },
        ),
        PhaseV::StoringAnswer { content, reasoning_content, calls } => Some(
            RecordV::AssistantMessage { content, reasoning_content, tool_calls: calls },
        ),
        PhaseV::StoringResult { calls, result } => Some(
            RecordV::ToolResult { tool_call_id: calls.current().id, content: result },
        ),
        PhaseV::StoringCheckpoint(cp) => Some(RecordV::Checkpoint(cp)),
        _ => None,
    }
}

/// A step asks to store a record exactly when the turn is storing that record.
pub proof fn law_stored_record_is_asked_for<T: Tool>(
    tools: Seq<T>,
    w: WorldV,
    phase: PhaseV,
    e: TurnEventV,
)
    requires
        answers(w, phase, e),
    ensures
        match advanced(tools, w, phase, e).action {
            ActionV::Store(r) => stored_record(
                advanced(tools, w, phase, e).world,
                advanced(tools, w, phase, e).phase,
            ) == Some(r),
            _ => stored_record(
                advanced(tools, w, phase, e).world,
                advanced(tools, w, phase, e).phase,
            ) is None,
        },
{
}

/// The session and its log keep in step: where a record was stored, the
/// session is what the log with that record stands for; where it could not be
/// stored, the session is as it was; and no other step changes the session.
pub proof fn law_session_keeps_in_step<T: Tool>(
    tools: Seq<T>,
    w: WorldV,
    phase: PhaseV,
    e: TurnEventV,
    records: Seq<RecordV>,
)
    requires
        answers(w, phase, e),
        in_step(w.session, records),
    ensures
        match stored_record(w, phase) {
            Some(r) => if e matches TurnEventV::Stored(Ok(_)) {
                in_step(advanced(tools, w, phase, e).world.session, records.push(r))
            } else {
                advanced(tools, w, phase, e).world.session == w.session
            },
            None => advanced(tools, w, phase, e).world.session == w.session,
        },
{
    match phase {
        PhaseV::StoringUser(content) => {
            law_push_user_in_step(w.session, records, content);
        },
        PhaseV::StoringAnswer { .. } => {
            law_push_message_in_step(w.session, records, stored_record(w, phase)->0);
        },
        PhaseV::StoringResult { .. } => {
            law_push_message_in_step(w.session, records, stored_record(w, phase)->0);
        },
        PhaseV::StoringCheckpoint(cp) => {
            law_push_checkpoint_in_step(w.session, records, cp);
        },
        _ => {},
    }
}

/// Every tool call of an answer gets a result, one after the other and under
/// its own identifier: after the result of one call is stored the next call
/// begins, and the model is asked again only after the last.
pub proof fn law_calls_run_in_order<T: Tool>(
    tools: Seq<T>,
    w: WorldV,
    c: CallsV,
    result: Seq<char>,
)
    requires
        c.wf(),
    ensures
        ({
            let phase = PhaseV::StoringResult { calls: c, result };
            let after = advanced(tools, w, phase, TurnEventV::Stored(Ok(())));
            &&& after.world.session.messages == w.session.messages.push(
                MessageV::Tool { tool_call_id: c.current().id, content: result },
            )
            &&& if c.index + 1 < c.calls.len() {
                calls_in(after.phase) == Some(CallsV { calls: c.calls, index: c.index + 1 })
            } else {
                after.phase is Preparing
            }
        }),
{
}

/// The tool calls that a turn is busy with.
pub open spec fn calls_in(phase: PhaseV) -> Option<CallsV> {
    match phase {
        PhaseV::Asking(c) => Some(c),
        PhaseV::Noting { calls, .. } => Some(calls),
        PhaseV::Running(c) => Some(c),
        PhaseV::StoringResult { calls, .. } => Some(calls),
        _ => None,
    }
}

/// A tool call is left only with its result stored: as long as it is not, a
/// step stays with the call or gives the turn up.
pub proof fn law_call_is_left_only_with_result<T: Tool>(
    tools: Seq<T>,
    w: WorldV,
    phase: PhaseV,
    e: TurnEventV,
)
    requires
        answers(w, phase, e),
        calls_in(phase) is Some,
        !(phase is StoringResult),
    ensures
        calls_in(advanced(tools, w, phase, e).phase) == calls_in(phase),
{
}

/// The files stay accounted for from the beginning of a turn to its end: a step
/// that looks at a file keeps them so, and the checkpoint that ends the turn
/// records in full what became of them.
pub proof fn law_files_stay_accounted_for<T: Tool>(
    tools: Seq<T>,
    w: WorldV,
    phase: PhaseV,
    e: TurnEventV,
    start: Map<PlaceV, FileV>,
    files: Map<PlaceV, FileV>,
)
    requires
        answers(w, phase, e),
        tracked_in(start, files, w.snapshots),
        phase matches PhaseV::Noting { path, .. } ==> e == TurnEventV::Before(content(files, path)),
    ensures
        ({
            let after = advanced(tools, w, phase, e);
            if phase is Sealing {
                after.phase matches PhaseV::StoringCheckpoint(cp) && recorded(start, files, cp)
            } else {
                tracked_in(start, files, after.world.snapshots)
            }
        }),
{
    match phase {
        PhaseV::Noting { path, .. } => {
            law_noted_write_is_tracked(start, files, w.snapshots, path, files);
        },
        _ => {},
    }
}

/// What a running tool writes to the file that it has named is accounted for.
pub proof fn law_named_write_is_accounted_for<T: Tool>(
    tools: Seq<T>,
    w: WorldV,
    c: CallsV,
    path: Seq<char>,
    start: Map<PlaceV, FileV>,
    files: Map<PlaceV, FileV>,
    later: Map<PlaceV, FileV>,
)
    requires
        target_noted(tools, w, PhaseV::Running(c)),
        named(tools, c.current().name) matches Some(t) && t.target(c.current().arguments) == Some(
            path,
        ),
        tracked_in(start, files, w.snapshots),
        forall|p: Seq<char>|
            target_of(p) != target_of(path) ==> #[trigger] same_file(files, later, p),
    ensures
        tracked_in(start, later, w.snapshots),
{
    law_noted_write_is_tracked(start, files, w.snapshots, path, later);
}

/// The checkpoint of a turn holds the commit that was checked out when the turn
/// began: that is asked for once, before the model is, and no later step changes
/// what was found.
pub proof fn law_checkpoint_holds_first_commit<T: Tool>(
    tools: Seq<T>,
    w: WorldV,
    phase: PhaseV,
    e: TurnEventV,
)
    requires
        answers(w, phase, e),
    ensures
        ({
            let after = advanced(tools, w, phase, e);
            &&& (after.action is ReadHead) == (phase is StoringUser && (e matches
                TurnEventV::Stored(Ok(_))))
            &&& after.world.git_head == (match e {
                TurnEventV::Head(git_head) => git_head,
                _ => w.git_head,
            })
            &&& !(phase is StoringCheckpoint) ==> (after.phase matches PhaseV::StoringCheckpoint(
                cp,
            ) ==> cp.git_head == w.git_head)
        }),
{
}

/// The checkpoints of a session stand in the order of their turns, and none
/// belongs to a turn that is still to come.
pub open spec fn orderly(s: SessionV) -> bool {
    &&& checkpoints_in_order(s.checkpoints)
    &&& forall|i: int|
        0 <= i < s.checkpoints.len() ==> (#[trigger] s.checkpoints[i]).prompt_index
            <= s.prompt_index
}

/// A checkpoint that is being stored belongs to the present turn.
pub open spec fn of_present_turn(w: WorldV, phase: PhaseV) -> bool {
    phase matches PhaseV::StoringCheckpoint(cp) ==> cp.prompt_index == w.session.prompt_index
}

/// A turn keeps the checkpoints of the session in the order of their turns.
pub proof fn law_checkpoints_stay_in_order<T: Tool>(
    tools: Seq<T>,
    w: WorldV,
    phase: PhaseV,
    e: TurnEventV,
)
    requires
        answers(w, phase, e),
        orderly(w.session),
        of_present_turn(w, phase),
    ensures
        orderly(advanced(tools, w, phase, e).world.session),
        of_present_turn(advanced(tools, w, phase, e).world, advanced(tools, w, phase, e).phase),
{
}

/// A rewind keeps the checkpoints of the session in the order of their turns.
pub proof fn law_rewind_keeps_checkpoints_in_order(s: SessionV, records: Seq<RecordV>, to: u32)
    requires
        in_step(s, records),
        numbered(records),
        orderly(s),
    ensures
        replayed(records.push(RecordV::Rewind { to_prompt_index: to })) matches Ok(after)
            && orderly(after),
{
    law_rewind_drops_later_checkpoints(s, records, to);
    law_rewind_keeps_earlier_turns(records, to);
    law_turn_is_reached(records, to);
    lemma_earlier_in_order(s.checkpoints, to);
    let kept = earlier_checkpoints(s.checkpoints, to);
    let after = replayed(records.push(RecordV::Rewind { to_prompt_index: to }))->Ok_0;
    assert(after.checkpoints == kept);
    assert forall|i: int| 0 <= i < kept.len() implies (#[trigger] kept[i]).prompt_index
        <= after.prompt_index by {
        assert(kept[i] == s.checkpoints[i]);
    }
}

/// What the model is asked can always be written where the tools are those that
/// come with the agent.
pub proof fn law_builtin_request_can_be_written(
    tools: Seq<BuiltinTool>,
    s: SessionV,
    prompt: Seq<char>,
)
    ensures
        writable(request_json(request_of(tools, s, prompt))),
{
    let req = request_of(tools, s, prompt);
    assert forall|i: int| 0 <= i < req.tools_schema.len() implies writable(
        #[trigger] req.tools_schema[i],
    ) by {
        law_builtin_schemas_can_be_written(tools[i]);
    }
    law_request_can_be_written(req);
}

// ---------------------------------------------------------------------------
// What an answer is made of
// ---------------------------------------------------------------------------
/// The texts of the pieces, one behind the other.
pub open spec fn all_text(events: Seq<SamplingEventV>) -> Seq<char>
    decreases events.len(),
{
    if events.len() == 0 {
        seq![]
    } else {
        all_text(events.drop_last()) + (match events.last() {
            SamplingEventV::TextDelta(s) => s,
            _ => seq![],
        })
    }
}

/// The reasoning of the pieces, one behind the other.
pub open spec fn all_reasoning(events: Seq<SamplingEventV>) -> Seq<char>
    decreases events.len(),
{
    if events.len() == 0 {
        seq![]
    } else {
        all_reasoning(events.drop_last()) + (match events.last() {
            SamplingEventV::ReasoningDelta(s) => s,
            _ => seq![],
        })
    }
}

/// The arguments that the pieces give the tool call with the index, one behind
/// the other.
pub open spec fn all_arguments(events: Seq<SamplingEventV>, index: usize) -> Seq<char>
    decreases events.len(),
{
    if events.len() == 0 {
        seq![]
    } else {
        all_arguments(events.drop_last(), index) + (match events.last() {
            SamplingEventV::ToolCallDelta { index: i, arguments_fragment, .. } => if i == index {
                arguments_fragment
            } else {
                seq![]
            },
            _ => seq![],
        })
    }
}

/// The identifier that the pieces last give the tool call with the index.
pub open spec fn last_id(events: Seq<SamplingEventV>, index: usize) -> Seq<char>
    decreases events.len(),
{
    if events.len() == 0 {
        seq![]
    } else {
        match events.last() {
            SamplingEventV::ToolCallDelta { index: i, id: Some(s), .. } => if i == index {
                s
            } else {
                last_id(events.drop_last(), index)
            },
            _ => last_id(events.drop_last(), index),
        }
    }
}

/// The name that the pieces last give the tool call with the index.
pub open spec fn last_name(events: Seq<SamplingEventV>, index: usize) -> Seq<char>
    decreases events.len(),
{
    if events.len() == 0 {
        seq![]
    } else {
        match events.last() {
            SamplingEventV::ToolCallDelta { index: i, name: Some(s), .. } => if i == index {
                s
            } else {
                last_name(events.drop_last(), index)
            },
            _ => last_name(events.drop_last(), index),
        }
    }
}

/// The indexes of the tool calls of which a piece has come.
pub open spec fn indexes(events: Seq<SamplingEventV>) -> Set<usize>
    decreases events.len(),
{
    if events.len() == 0 {
        Set::empty()
    } else {
        match events.last() {
            SamplingEventV::ToolCallDelta { index, .. } => indexes(events.drop_last()).insert(
                index,
            ),
            _ => indexes(events.drop_last()),
        }
    }
}

/// The text that is shown, one piece behind the other.
pub open spec fn text_shown(emitted: Seq<SessionEventV>) -> Seq<char>
    decreases emitted.len(),
{
    if emitted.len() == 0 {
        seq![]
    } else {
        text_shown(emitted.drop_last()) + (match emitted.last() {
            SessionEventV::StreamText(s) => s,
            _ => seq![],
        })
    }
}

/// The reasoning that is shown, one piece behind the other.
pub open spec fn reasoning_shown(emitted: Seq<SessionEventV>) -> Seq<char>
    decreases emitted.len(),
{
    if emitted.len() == 0 {
        seq![]
    } else {
        reasoning_shown(emitted.drop_last()) + (match emitted.last() {
            SessionEventV::ReasoningDelta(s) => s,
            _ => seq![],
        })
    }
}

/// Where an event leads after a step, with all that was shown.
#[verifier::opaque]
pub open spec fn after_step<T: Tool>(tools: Seq<T>, s: TurnStepV, e: TurnEventV) -> TurnStepV {
    let next = advanced(tools, s.world, s.phase, e);
    TurnStepV { emitted: s.emitted + next.emitted, ..next }
}

/// The turn once the model has been reached and the pieces have come one by one,
/// with all that was shown meanwhile.
pub open spec fn streamed<T: Tool>(
    tools: Seq<T>,
    w: WorldV,
    events: Seq<SamplingEventV>,
) -> TurnStepV
    decreases events.len(),
{
    if events.len() == 0 {
        after_step(
            tools,
            quiet(w, PhaseV::Opening, ActionV::NextEvent),
            TurnEventV::Opened(Ok(())),
        )
    } else {
        after_step(
            tools,
            streamed(tools, w, events.drop_last()),
            TurnEventV::Sampled(Some(Ok(events.last()))),
        )
    }
}

/// None of the pieces ends the answer.
pub open spec fn open_ended(events: Seq<SamplingEventV>) -> bool {
    forall|i: int| 0 <= i < events.len() ==> !((#[trigger] events[i]) is Done)
}

/// The tool calls stand for the indexes in the given order, which are those of
/// which a piece has come, each once and the smallest first; each call has the
/// identifier and the name that were given last, and all its arguments.
pub open spec fn made_in_order(
    calls: Seq<ToolCallV>,
    events: Seq<SamplingEventV>,
    order: Seq<usize>,
) -> bool {
    &&& order.len() == calls.len()
    &&& forall|i: int, j: int| 0 <= i < j < order.len() ==> #[trigger] order[i] < #[trigger] order[j]
    &&& forall|k: usize| #[trigger] order.contains(k) <==> indexes(events).contains(k)
    &&& forall|i: int|
        0 <= i < order.len() ==> (#[trigger] calls[i]) == (ToolCallV {
            id: last_id(events, order[i]),
            kind: "function"@,
            name: last_name(events, order[i]),
            arguments: all_arguments(events, order[i]),
        })
}

/// The tool calls are those that the pieces make up.
pub open spec fn made_of(calls: Seq<ToolCallV>, events: Seq<SamplingEventV>) -> bool {
    exists|order: Seq<usize>| #[trigger] made_in_order(calls, events, order)
}

/// The parts hold what the pieces give them.
spec fn gathered(parts: Seq<PartV>, events: Seq<SamplingEventV>) -> bool {
    &&& ordered(parts)
    &&& forall|i: int|
        0 <= i < parts.len() ==> {
            &&& indexes(events).contains((#[trigger] parts[i]).index)
            &&& parts[i].id == last_id(events, parts[i].index)
            &&& parts[i].name == last_name(events, parts[i].index)
            &&& parts[i].arguments == all_arguments(events, parts[i].index)
        }
    &&& forall|k: usize| #[trigger]
        indexes(events).contains(k) ==> exists|i: int|
            0 <= i < parts.len() && (#[trigger] parts[i]).index == k
}

proof fn lemma_untouched(events: Seq<SamplingEventV>, index: usize)
    requires
        !indexes(events).contains(index),
    ensures
        last_id(events, index).len() == 0,
        last_name(events, index).len() == 0,
        all_arguments(events, index).len() == 0,
    decreases events.len(),
{
    if events.len() > 0 {
        lemma_untouched(events.drop_last(), index);
    }
}

proof fn lemma_gathered(parts: Seq<PartV>, events: Seq<SamplingEventV>)
    requires
        events.len() > 0,
        gathered(parts, events.drop_last()),
    ensures
        gathered(
            match events.last() {
                SamplingEventV::ToolCallDelta { index, id, name, arguments_fragment } => merged(
                    parts,
                    index,
                    id,
                    name,
                    arguments_fragment,
                ),
                _ => parts,
            },
            events,
        ),
{
    let old = events.drop_last();
    match events.last() {
        SamplingEventV::ToolCallDelta { index, id, name, arguments_fragment } => {
            let m = merged(parts, index, id, name, arguments_fragment);
            law_pieces_merge_by_index(parts, index, id, name, arguments_fragment, index);
            lemma_place(parts, index);
            let k = place(parts, index);
            let present = k < parts.len() && parts[k].index == index;
            assert(m[k].index == index);
            if !present {
                assert forall|i: int| 0 <= i < parts.len() implies (#[trigger] parts[i]).index
                    != index by {
                    if i > k {
                        assert(parts[k].index < parts[i].index);
                    }
                }
                assert(!indexes(old).contains(index));
                lemma_untouched(old, index);
            }
            assert forall|i: int| 0 <= i < m.len() implies {
                &&& indexes(events).contains((#[trigger] m[i]).index)
                &&& m[i].id == last_id(events, m[i].index)
                &&& m[i].name == last_name(events, m[i].index)
                &&& m[i].arguments == all_arguments(events, m[i].index)
            } by {
                if i == k {
                } else if present {
                    assert(m[i] == parts[i]);
                    if i < k {
                        assert(parts[i].index < parts[k].index);
                    } else {
                        assert(parts[k].index < parts[i].index);
                    }
                } else if i < k {
                    assert(m[i] == parts[i]);
                } else {
                    assert(m[i] == parts[i - 1]);
                }
            }
            assert forall|n: usize| #[trigger] indexes(events).contains(n) implies exists|i: int|
                0 <= i < m.len() && (#[trigger] m[i]).index == n by {
                if n != index {
                    assert(indexes(old).contains(n));
                    let i = choose|i: int| 0 <= i < parts.len() && (#[trigger] parts[i]).index == n;
                    if present || i < k {
                        assert(m[i] == parts[i]);
                    } else {
                        assert(m[i + 1] == parts[i]);
                    }
                }
            }
        },
        _ => {
            assert forall|i: int| 0 <= i < parts.len() implies {
                &&& indexes(events).contains((#[trigger] parts[i]).index)
                &&& parts[i].id == last_id(events, parts[i].index)
                &&& parts[i].name == last_name(events, parts[i].index)
                &&& parts[i].arguments == all_arguments(events, parts[i].index)
            } by {
                assert(indexes(old).contains(parts[i].index));
            }
            assert forall|n: usize| #[trigger] indexes(events).contains(n) implies exists|i: int|
                0 <= i < parts.len() && (#[trigger] parts[i]).index == n by {
                assert(indexes(old).contains(n));
            }
        },
    }
}

proof fn lemma_calls_made_of(parts: Seq<PartV>, events: Seq<SamplingEventV>)
    requires
        gathered(parts, events),
    ensures
        made_of(calls_of(parts), events),
{
    let order = parts.map_values(|p: PartV| p.index);
    let calls = calls_of(parts);
    assert forall|i: int, j: int| 0 <= i < j < order.len() implies order[i] < order[j] by {
        assert(parts[i].index < parts[j].index);
    }
    assert forall|k: usize| #[trigger] order.contains(k) <==> indexes(events).contains(k) by {
        if order.contains(k) {
            let i = choose|i: int| 0 <= i < order.len() && order[i] == k;
            assert(parts[i].index == k);
        }
        if indexes(events).contains(k) {
            let i = choose|i: int| 0 <= i < parts.len() && (#[trigger] parts[i]).index == k;
            assert(order[i] == k);
        }
    }
    assert forall|i: int| 0 <= i < order.len() implies (#[trigger] calls[i]) == (ToolCallV {
        id: last_id(events, order[i]),
        kind: "function"@,
        name: last_name(events, order[i]),
        arguments: all_arguments(events, order[i]),
    }) by {
        assert(parts[i].index == order[i]);
    }
    assert(made_in_order(calls, events, order));
}

proof fn lemma_shown(a: Seq<SessionEventV>, b: Seq<SessionEventV>)
    ensures
        text_shown(a + b) == text_shown(a) + text_shown(b),
        reasoning_shown(a + b) == reasoning_shown(a) + reasoning_shown(b),
    decreases b.len(),
{
    if b.len() == 0 {
        assert(a + b =~= a);
    } else {
        lemma_shown(a, b.drop_last());
        assert((a + b).drop_last() =~= a + b.drop_last());
        assert((a + b).last() == b.last());
        assert(text_shown(a + b) =~= text_shown(a) + text_shown(b));
        assert(reasoning_shown(a + b) =~= reasoning_shown(a) + reasoning_shown(b));
    }
}

proof fn lemma_stream_opens<T: Tool>(tools: Seq<T>, w: WorldV)
    ensures
        after_step(
            tools,
            quiet(w, PhaseV::Opening, ActionV::NextEvent),
            TurnEventV::Opened(Ok(())),
        ) == quiet(
            w,
            PhaseV::Streaming(AnswerV { text: seq![], reasoning: seq![], parts: seq![] }),
            ActionV::NextEvent,
        ),
{
    reveal(after_step);
    assert(Seq::<SessionEventV>::empty() + Seq::<SessionEventV>::empty() =~= Seq::<
        SessionEventV,
    >::empty());
}

proof fn lemma_stream_goes_on<T: Tool>(
    tools: Seq<T>,
    s: TurnStepV,
    a: AnswerV,
    ev: SamplingEventV,
)
    requires
        s.phase == PhaseV::Streaming(a),
        !(ev is Done),
    ensures
        after_step(tools, s, TurnEventV::Sampled(Some(Ok(ev)))) == (TurnStepV {
            world: s.world,
            phase: PhaseV::Streaming(extended(a, ev)),
            emitted: s.emitted + echoed(ev),
            action: ActionV::NextEvent,
        }),
{
    reveal(after_step);
}

proof fn lemma_streamed<T: Tool>(tools: Seq<T>, w: WorldV, events: Seq<SamplingEventV>)
    requires
        open_ended(events),
    ensures
        ({
            let s = streamed(tools, w, events);
            &&& s.world == w
            &&& s.action == ActionV::NextEvent
            &&& text_shown(s.emitted) == all_text(events)
            &&& reasoning_shown(s.emitted) == all_reasoning(events)
            &&& s.phase matches PhaseV::Streaming(a) && a.text == all_text(events) && a.reasoning
                == all_reasoning(events) && gathered(a.parts, events)
        }),
    decreases events.len(),
{
    if events.len() == 0 {
        lemma_stream_opens(tools, w);
    } else {
        let old = events.drop_last();
        assert forall|i: int| 0 <= i < old.len() implies !((#[trigger] old[i]) is Done) by {
            assert(old[i] == events[i]);
        }
        lemma_streamed(tools, w, old);
        let before = streamed(tools, w, old);
        let ev = events.last();
        assert(ev == events[events.len() - 1]);
        let a = before.phase->Streaming_0;
        lemma_stream_goes_on(tools, before, a, ev);
        lemma_shown(before.emitted, echoed(ev));
        lemma_gathered(a.parts, events);
        lemma_echoed(ev);
    }
}

proof fn lemma_echoed(ev: SamplingEventV)
    ensures
        text_shown(echoed(ev)) == (match ev {
            SamplingEventV::TextDelta(s) => s,
            _ => seq![],
        }),
        reasoning_shown(echoed(ev)) == (match ev {
            SamplingEventV::ReasoningDelta(s) => s,
            _ => seq![],
        }),
{
    reveal_with_fuel(text_shown, 2);
    reveal_with_fuel(reasoning_shown, 2);
    let shown = echoed(ev);
    if shown.len() > 0 {
        assert(shown.drop_last() =~= Seq::<SessionEventV>::empty());
    }
    match ev {
        SamplingEventV::TextDelta(s) => {
            assert(text_shown(shown) =~= s);
            assert(reasoning_shown(shown) =~= seq![]);
        },
        SamplingEventV::ReasoningDelta(s) => {
            assert(text_shown(shown) =~= seq![]);
            assert(reasoning_shown(shown) =~= s);
        },
        _ => {},
    }
}

proof fn lemma_stream_ends<T: Tool>(tools: Seq<T>, w: WorldV, a: AnswerV, end: TurnEventV)
    requires
        end == TurnEventV::Sampled(None) || (end matches TurnEventV::Sampled(Some(Ok(last)))
            && last is Done),
    ensures
        advanced(tools, w, PhaseV::Streaming(a), end) == answer_done(w, a),
{
}

/// The answer that is stored is made up of all its pieces, whether the stream
/// ends by itself or with a last piece: its text is the texts of all pieces, one
/// behind the other, and the same that was shown; so is its reasoning; a text
/// that is empty is left out; and its tool calls are those that the pieces make
/// up. What the turn works on stays as it is.
pub proof fn law_answer_is_all_its_pieces<T: Tool>(
    tools: Seq<T>,
    w: WorldV,
    events: Seq<SamplingEventV>,
    end: TurnEventV,
)
    requires
        open_ended(events),
        end == TurnEventV::Sampled(None) || (end matches TurnEventV::Sampled(Some(Ok(last)))
            && last is Done),
    ensures
        ({
            let open = streamed(tools, w, events);
            let s = advanced(tools, open.world, open.phase, end);
            &&& open.action == ActionV::NextEvent
            &&& s.world == w
            &&& s.emitted == seq![SessionEventV::StreamEnd]
            &&& text_shown(open.emitted) == all_text(events)
            &&& reasoning_shown(open.emitted) == all_reasoning(events)
            &&& s.action matches ActionV::Store(
                RecordV::AssistantMessage { content, reasoning_content, tool_calls },
            ) && {
                &&& content == (if all_text(events).len() == 0 {
                    None
                } else {
                    Some(all_text(events))
                })
                &&& reasoning_content == (if all_reasoning(events).len() == 0 {
                    None
                } else {
                    Some(all_reasoning(events))
                })
                &&& made_of(tool_calls, events)
                &&& s.phase == (PhaseV::StoringAnswer {
                    content,
                    reasoning_content,
                    calls: tool_calls,
                })
            }
        }),
{
    lemma_streamed(tools, w, events);
    let open = streamed(tools, w, events);
    let a = open.phase->Streaming_0;
    lemma_stream_ends(tools, w, a, end);
    lemma_calls_made_of(a.parts, events);
}

/// Each piece of text or reasoning is shown as it comes, by itself and unchanged;
/// a piece of a tool call is not shown.
pub proof fn law_pieces_are_shown_as_they_come<T: Tool>(
    tools: Seq<T>,
    w: WorldV,
    a: AnswerV,
    s: Seq<char>,
    ev: SamplingEventV,
)
    ensures
        advanced(
            tools,
            w,
            PhaseV::Streaming(a),
            TurnEventV::Sampled(Some(Ok(SamplingEventV::TextDelta(s)))),
        ).emitted == seq![SessionEventV::StreamText(s)],
        advanced(
            tools,
            w,
            PhaseV::Streaming(a),
            TurnEventV::Sampled(Some(Ok(SamplingEventV::ReasoningDelta(s)))),
        ).emitted == seq![SessionEventV::ReasoningDelta(s)],
        ev is ToolCallDelta ==> advanced(
            tools,
            w,
            PhaseV::Streaming(a),
            TurnEventV::Sampled(Some(Ok(ev))),
        ).emitted == Seq::<SessionEventV>::empty(),
{
}

// ---------------------------------------------------------------------------
// What becomes of a tool call
// ---------------------------------------------------------------------------
/// The step hands the text back as the result of the running call.
pub open spec fn hands_back(s: TurnStepV, c: CallsV, text: Seq<char>) -> bool {
    &&& s.phase == PhaseV::StoringResult { calls: c, result: text }
    &&& s.action == ActionV::Store(
        RecordV::ToolResult { tool_call_id: c.calls[c.index].id, content: text },
    )
    &&& s.emitted.len() > 0
    &&& s.emitted.last() == (SessionEventV::ToolFinished {
        name: c.calls[c.index].name,
        result: text,
    })
}

/// The step does for the running call what its tool asks for.
pub open spec fn follows(s: TurnStepV, c: CallsV, step: StepV) -> bool {
    match step {
        StepV::Do(op) => s.phase == PhaseV::Running(c) && s.action == ActionV::Perform(op),
        StepV::Done(Ok(text)) => hands_back(s, c, text),
        StepV::Done(Err(e)) => hands_back(s, c, "error: "@ + e.message()),
    }
}

/// The step lets the running call run: the file that the tool writes is looked at
/// first, where it writes one that the turn has not looked at yet.
pub open spec fn lets_run<T: Tool>(s: TurnStepV, w: WorldV, c: CallsV, t: T) -> bool {
    match t.target(c.calls[c.index].arguments) {
        Some(path) if !touched(w.snapshots, path) => {
            &&& s.phase == (PhaseV::Noting { calls: c, path })
            &&& s.action == ActionV::ReadBefore(path)
        },
        _ => follows(s, c, t.first_step(c.calls[c.index].arguments)),
    }
}

/// After the answer is stored it is part of the history, and its first tool call
/// begins; after a result is stored it is part of the history, under the
/// identifier of its call, and the next call begins.
pub proof fn law_calls_begin_one_by_one<T: Tool>(
    tools: Seq<T>,
    w: WorldV,
    content: Option<Seq<char>>,
    reasoning_content: Option<Seq<char>>,
    c: CallsV,
    result: Seq<char>,
)
    requires
        c.wf(),
    ensures
        advanced(
            tools,
            w,
            PhaseV::StoringAnswer { content, reasoning_content, calls: c.calls },
            TurnEventV::Stored(Ok(())),
        ) == call_begin(
            tools,
            WorldV {
                session: SessionV {
                    messages: w.session.messages.push(
                        MessageV::Assistant { content, reasoning_content, tool_calls: c.calls },
                    ),
                    ..w.session
                },
                ..w
            },
            CallsV { calls: c.calls, index: 0 },
        ),
        c.index + 1 < c.calls.len() ==> advanced(
            tools,
            w,
            PhaseV::StoringResult { calls: c, result },
            TurnEventV::Stored(Ok(())),
        ) == call_begin(
            tools,
            WorldV {
                session: SessionV {
                    messages: w.session.messages.push(
                        MessageV::Tool { tool_call_id: c.calls[c.index].id, content: result },
                    ),
                    ..w.session
                },
                ..w
            },
            CallsV { calls: c.calls, index: c.index + 1 },
        ),
        c.index + 1 == c.calls.len() ==> ({
            let s = advanced(
                tools,
                w,
                PhaseV::StoringResult { calls: c, result },
                TurnEventV::Stored(Ok(())),
            );
            &&& s.action == ActionV::LookAround
            &&& s.world.session.messages == w.session.messages.push(
                MessageV::Tool { tool_call_id: c.calls[c.index].id, content: result },
            )
            &&& s.world.snapshots == w.snapshots
            &&& s.world.gate == w.gate
        }),
{
}

/// A tool call is shown when it begins: the name of the tool, and the arguments
/// up to 160 characters. Where there is no such tool the model is told so.
/// Where the tool needs no permission, or the tool or every tool is allowed, it
/// runs. Else an answer that was given beforehand is used up and decides; without
/// one the user is asked, and shown the name and the arguments up to 200
/// characters.
pub proof fn law_calls_are_shown_and_checked<T: Tool>(
    tools: Seq<T>,
    w: WorldV,
    c: CallsV,
    i: int,
)
    requires
        c.wf(),
        distinct_titles(tools),
    ensures
        ({
            let s = call_begin(tools, w, c);
            let name = c.calls[c.index].name;
            let arguments = c.calls[c.index].arguments;
            let free = w.gate.yolo || w.gate.allowed.contains(name);
            &&& s.emitted.len() > 0
            &&& s.emitted[0] matches SessionEventV::ToolStarted { name: n, args_preview } && n
                == name && args_preview.is_prefix_of(arguments) && args_preview.len() == (
            if arguments.len() < 160 {
                arguments.len()
            } else {
                160
            })
            &&& s.emitted.len() == (if s.phase is StoringResult || s.phase is Asking {
                2nat
            } else {
                1
            })
            &&& s.world.session == w.session && s.world.snapshots == w.snapshots && s.world.git_head
                == w.git_head && s.world.working_dir == w.working_dir
            &&& (forall|k: int| 0 <= k < tools.len() ==> (#[trigger] tools[k]).title() != name)
                ==> hands_back(s, c, "error: 未知工具 "@ + name) && s.world == w
            &&& 0 <= i < tools.len() && tools[i].title() == name ==> {
                &&& !tools[i].guarded() || free ==> lets_run(s, w, c, tools[i]) && s.world == w
                &&& tools[i].guarded() && !free && w.gate.answers.len() == 0 ==> {
                    &&& s.world == w
                    &&& s.phase == PhaseV::Asking(c)
                    &&& s.action == ActionV::AwaitPermission
                    &&& s.emitted[1] matches SessionEventV::PermissionRequest {
                        name: n,
                        args_preview,
                    } && n == name && args_preview.is_prefix_of(arguments) && args_preview.len()
                        == (if arguments.len() < 200 {
                        arguments.len()
                    } else {
                        200
                    })
                }
                &&& tools[i].guarded() && !free && w.gate.answers.len() > 0 ==> {
                    &&& s.world.gate.answers == w.gate.answers.drop_first()
                    &&& s.world.gate.yolo == w.gate.yolo
                    &&& s.world.gate.allowed == (if w.gate.answers[0] == Decision::AllowAll {
                        w.gate.allowed.insert(name)
                    } else {
                        w.gate.allowed
                    })
                    &&& if w.gate.answers[0] == Decision::Deny {
                        hands_back(s, c, "user denied"@)
                    } else {
                        lets_run(s, w, c, tools[i])
                    }
                }
            }
        }),
{
    law_tools_are_found_by_name(tools, c.calls[c.index].name, i);
}

/// What the user says to a request decides: a refusal, or no answer, is told to
/// the model; else the call runs, and where the user allows all, the tool is
/// allowed from then on.
pub proof fn law_the_user_decides<T: Tool>(
    tools: Seq<T>,
    w: WorldV,
    c: CallsV,
    i: int,
    reply: Option<Decision>,
)
    requires
        c.wf(),
        distinct_titles(tools),
        0 <= i < tools.len(),
        tools[i].title() == c.calls[c.index].name,
    ensures
        ({
            let s = advanced(tools, w, PhaseV::Asking(c), TurnEventV::Answered(reply));
            &&& match reply {
                Some(Decision::Allow) => s.world == w && lets_run(s, w, c, tools[i]),
                Some(Decision::AllowAll) => {
                    &&& s.world.gate.allowed == w.gate.allowed.insert(c.calls[c.index].name)
                    &&& s.world.gate.yolo == w.gate.yolo
                    &&& s.world.gate.answers == w.gate.answers
                    &&& s.world.session == w.session
                    &&& s.world.snapshots == w.snapshots
                    &&& lets_run(s, w, c, tools[i])
                },
                Some(Decision::Deny) => s.world == w && hands_back(s, c, "user denied"@),
                None => s.world == w && hands_back(s, c, "user denied"@),
            }
            &&& s.emitted.len() == (if s.phase is StoringResult {
                1nat
            } else {
                0
            })
        }),
{
    law_tools_are_found_by_name(tools, c.calls[c.index].name, i);
}

/// A tool gets to know what came of what it asked for, and what it says then is
/// done; looking at the file that it writes comes before its first step.
pub proof fn law_tools_are_followed<T: Tool>(
    tools: Seq<T>,
    w: WorldV,
    c: CallsV,
    i: int,
    path: Seq<char>,
    found: FoundV,
    outcome: OutcomeV,
)
    requires
        c.wf(),
        distinct_titles(tools),
        0 <= i < tools.len(),
        tools[i].title() == c.calls[c.index].name,
    ensures
        ({
            let s = advanced(
                tools,
                w,
                PhaseV::Noting { calls: c, path },
                TurnEventV::Before(found),
            );
            &&& follows(s, c, tools[i].first_step(c.calls[c.index].arguments))
            &&& s.world.session == w.session
            &&& s.world.gate == w.gate
            &&& s.emitted.len() <= 1
            &&& s.phase is Running ==> s.emitted.len() == 0
        }),
        ({
            let s = advanced(tools, w, PhaseV::Running(c), TurnEventV::Performed(outcome));
            &&& follows(s, c, tools[i].next_step(c.calls[c.index].arguments, outcome))
            &&& s.world == w
            &&& s.emitted.len() <= 1
            &&& s.phase is Running ==> s.emitted.len() == 0
        }),
{
    law_tools_are_found_by_name(tools, c.calls[c.index].name, i);
}

// ---------------------------------------------------------------------------
// How a turn begins and ends
// ---------------------------------------------------------------------------
/// A turn begins with storing the message of the user under the next number. Once
/// that is done the history is as it was with the message at its end, the turn has
/// that number, and the commit is looked up.
pub proof fn law_turn_begins_with_the_message<T: Tool>(
    tools: Seq<T>,
    w: WorldV,
    content: Seq<char>,
)
    requires
        w.session.prompt_index < u32::MAX,
    ensures
        ({
            let first = turn_begun(w, content);
            let s = advanced(tools, first.world, first.phase, TurnEventV::Stored(Ok(())));
            &&& first.world == w
            &&& first.emitted.len() == 0
            &&& first.action matches ActionV::Store(
                RecordV::UserMessage { prompt_index, content: c },
            ) && prompt_index == w.session.prompt_index + 1 && c == content
            &&& s.world.session.messages == w.session.messages.push(MessageV::User { content })
            &&& s.world.session.prompt_index == w.session.prompt_index + 1
            &&& s.world.session.checkpoints == w.session.checkpoints
            &&& s.world.session.id == w.session.id
            &&& s.world.session.model == w.session.model
            &&& s.action == ActionV::ReadHead
        }),
{
}

/// What cannot be stored ends the turn with that very error, and what the turn
/// works on stays as it was.
pub proof fn law_failed_storing_ends_the_turn<T: Tool>(
    tools: Seq<T>,
    w: WorldV,
    phase: PhaseV,
    x: SessionErrorV,
)
    ensures
        advanced(tools, w, phase, TurnEventV::Stored(Err(x))) == (TurnStepV {
            world: w,
            phase: PhaseV::Finished,
            emitted: seq![],
            action: ActionV::Finish(Err(AppErrorV::Session(x))),
        }),
{
}

/// Where the model cannot be asked, or its answer breaks off, the turn ends with
/// that very error, and what the turn works on stays as it was.
pub proof fn law_failed_answer_ends_the_turn<T: Tool>(
    tools: Seq<T>,
    w: WorldV,
    a: AnswerV,
    x: ApiErrorV,
)
    ensures
        advanced(tools, w, PhaseV::Opening, TurnEventV::Opened(Err(x))) == (TurnStepV {
            world: w,
            phase: PhaseV::Finished,
            emitted: seq![],
            action: ActionV::Finish(Err(AppErrorV::Api(x))),
        }),
        advanced(tools, w, PhaseV::Streaming(a), TurnEventV::Sampled(Some(Err(x)))) == (TurnStepV {
            world: w,
            phase: PhaseV::Finished,
            emitted: seq![],
            action: ActionV::Finish(Err(AppErrorV::Api(x))),
        }),
{
}

/// An answer without tool calls ends the turn: where the turn has looked at files
/// before they were written, each of them is read again, in the same order; else
/// the turn is over at once.
pub proof fn law_last_answer_ends_the_turn<T: Tool>(
    tools: Seq<T>,
    w: WorldV,
    content: Option<Seq<char>>,
    reasoning_content: Option<Seq<char>>,
)
    ensures
        ({
            let s = advanced(
                tools,
                w,
                PhaseV::StoringAnswer { content, reasoning_content, calls: seq![] },
                TurnEventV::Stored(Ok(())),
            );
            &&& s.world.session.messages == w.session.messages.push(
                MessageV::Assistant { content, reasoning_content, tool_calls: seq![] },
            )
            &&& s.world.snapshots == w.snapshots
            &&& w.snapshots.len() == 0 ==> s.action == ActionV::Finish(Ok(()))
            &&& w.snapshots.len() > 0 ==> (s.action matches ActionV::ReadAfter(paths) && paths.len()
                == w.snapshots.len() && forall|i: int|
                0 <= i < paths.len() ==> #[trigger] paths[i] == w.snapshots[i].path)
        }),
{
}

/// What is found in the files that a turn has written goes into the checkpoint of
/// the turn, with the number of the turn, what was found in the files before, and
/// the commit that was checked out.
pub proof fn law_checkpoint_is_of_the_turn<T: Tool>(
    tools: Seq<T>,
    w: WorldV,
    contents: Seq<Option<Seq<char>>>,
)
    requires
        contents.len() == w.snapshots.len(),
    ensures
        ({
            let s = advanced(tools, w, PhaseV::Sealing, TurnEventV::After(contents));
            &&& s.world.session == w.session
            &&& s.world.snapshots.len() == 0
            &&& s.action matches ActionV::Store(RecordV::Checkpoint(made)) && {
                &&& made.prompt_index == w.session.prompt_index
                &&& made.file_snapshots == w.snapshots
                &&& made.git_head == w.git_head
                &&& made.hunks == hunks_of(w.snapshots, contents)
                &&& s.phase == PhaseV::StoringCheckpoint(made)
            }
        }),
{
}

/// A stored checkpoint is the last of the session, whose history stays as it is,
/// and the turn is over.
pub proof fn law_checkpoint_is_kept<T: Tool>(tools: Seq<T>, w: WorldV, cp: CheckpointV)
    ensures
        ({
            let s = advanced(
                tools,
                w,
                PhaseV::StoringCheckpoint(cp),
                TurnEventV::Stored(Ok(())),
            );
            &&& s.world.session.checkpoints == w.session.checkpoints.push(cp)
            &&& s.world.session.messages == w.session.messages
            &&& s.world.session.prompt_index == w.session.prompt_index
            &&& s.action == ActionV::Finish(Ok(()))
        }),
{
}

/// The commit is what `git rev-parse HEAD` wrote, without white space around it;
/// there is none where it failed, wrote no text or wrote only white space.
pub proof fn law_commit_is_what_git_wrote(success: bool, stdout: Seq<u8>)
    ensures
        head_commit(success, stdout) matches Some(commit) ==> {
            &&& success
            &&& valid_utf8(stdout)
            &&& commit.len() > 0
            &&& !is_white_space(commit[0])
            &&& !is_white_space(commit.last())
            &&& exists|a: int, b: int|
                {
                    &&& 0 <= a <= b <= decode_utf8(stdout).len()
                    &&& commit == #[trigger] decode_utf8(stdout).subrange(a, b)
                    &&& forall|i: int|
                        0 <= i < a || b <= i < decode_utf8(stdout).len() ==> is_white_space(
                            #[trigger] decode_utf8(stdout)[i],
                        )
                }
        },
        success && valid_utf8(stdout) && (exists|i: int|
            0 <= i < decode_utf8(stdout).len() && !is_white_space(
                #[trigger] decode_utf8(stdout)[i],
            )) ==> head_commit(success, stdout) is Some,
{
    law_trimming_takes_white_space_only(decode_utf8(stdout));
}



} // verus!
