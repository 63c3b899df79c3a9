//! The session while it is running: what each command does.
use crate::config::PlaceV;
use crate::errors::{AppError, AppErrorV, SessionError, SessionErrorV};
use crate::session::checkpoint::{
    apply_restores, opaque_to, recorded, restore_plan, same_file, FileRestore, FileV, RestoreV,
};
use crate::session::log::{
    law_rewind_keeps_earlier_turns, read_log, RecordV, SessionV, UpdateRecord,
};
use crate::session::{
    checkpoints_in_order, earlier_checkpoints, in_step, later_checkpoints,
    law_rewind_restores_files, log_file, restored, started, Session,
};
use crate::stamp::{nibble, SessionId};
use crate::text::views;
use vstd::prelude::*;

verus! {

// ---------------------------------------------------------------------------
// Turns
// ---------------------------------------------------------------------------
pub ghost enum TurnOutcomeV {
    Completed,
    Cancelled,
    Failed(Seq<char>),
}

/// How a turn ended.
#[derive(Debug)]
pub enum TurnOutcome {
    Completed,
    Cancelled,
    /// The turn failed; the message says why.
    Failed(String),
}

impl View for TurnOutcome {
    type V = TurnOutcomeV;

    open spec fn view(&self) -> TurnOutcomeV {
        match self {
            TurnOutcome::Completed => TurnOutcomeV::Completed,
            TurnOutcome::Cancelled => TurnOutcomeV::Cancelled,
            TurnOutcome::Failed(e) => TurnOutcomeV::Failed(e@),
        }
    }
}

/// How a turn ended, given its result; there is none where it was cancelled
/// before.
pub open spec fn outcome(result: Option<Result<(), AppErrorV>>) -> TurnOutcomeV {
    match result {
        None => TurnOutcomeV::Cancelled,
        Some(Ok(_)) => TurnOutcomeV::Completed,
        Some(Err(e)) => TurnOutcomeV::Failed(e.message()),
    }
}

/// How a turn ended, given its result; there is none where it was cancelled
/// before.
pub fn turn_outcome(result: Option<Result<(), AppError>>) -> (r: TurnOutcome)
    ensures
        r@ == outcome(
            match result {
                None => None,
                Some(Ok(_)) => Some(Ok(())),
                Some(Err(e)) => Some(Err(e@)),
            },
        ),
{
    match result {
        None => TurnOutcome::Cancelled,
        Some(Ok(_)) => TurnOutcome::Completed,
        Some(Err(e)) => TurnOutcome::Failed(e.message()),
    }
}

// ---------------------------------------------------------------------------
// Commands
// ---------------------------------------------------------------------------
pub ghost enum SessionCommandV {
    SubmitUserInput(Seq<char>),
    Cancel,
    Snapshot,
    Clear,
    Rewind(u32),
    Fork,
    Shutdown,
}

/// What a client asks of the session.
#[derive(Debug)]
pub enum SessionCommand {
    /// Run a turn on what the user has said.
    SubmitUserInput(String),
    /// Cancel the turn that was started last.
    Cancel,
    /// Hand out the session as it is.
    Snapshot,
    /// Begin a new session.
    Clear,
    /// Rewind to the turn.
    Rewind(u32),
    /// Copy the session.
    Fork,
    /// Stop.
    Shutdown,
}

impl View for SessionCommand {
    type V = SessionCommandV;

    open spec fn view(&self) -> SessionCommandV {
        match self {
            SessionCommand::SubmitUserInput(s) => SessionCommandV::SubmitUserInput(s@),
            SessionCommand::Cancel => SessionCommandV::Cancel,
            SessionCommand::Snapshot => SessionCommandV::Snapshot,
            SessionCommand::Clear => SessionCommandV::Clear,
            SessionCommand::Rewind(n) => SessionCommandV::Rewind(*n),
            SessionCommand::Fork => SessionCommandV::Fork,
            SessionCommand::Shutdown => SessionCommandV::Shutdown,
        }
    }
}

pub ghost enum ActorStepV {
    RunTurn { turn: u64, text: Seq<char> },
    CancelTurn(u64),
    Nothing,
    HandOut,
    StartOver,
    Rewind(u32),
    Fork,
    Stop,
}

/// What is to be done for a command.
#[derive(Debug)]
pub enum ActorStep {
    /// Start a turn beside whatever else runs; it goes by the number.
    RunTurn { turn: u64, text: String },
    /// Cancel the turn with the number, if it still runs.
    CancelTurn(u64),
    Nothing,
    HandOut,
    StartOver,
    Rewind(u32),
    Fork,
    Stop,
}

impl View for ActorStep {
    type V = ActorStepV;

    open spec fn view(&self) -> ActorStepV {
        match self {
            ActorStep::RunTurn { turn, text } => ActorStepV::RunTurn { turn: *turn, text: text@ },
            ActorStep::CancelTurn(n) => ActorStepV::CancelTurn(*n),
            ActorStep::Nothing => ActorStepV::Nothing,
            ActorStep::HandOut => ActorStepV::HandOut,
            ActorStep::StartOver => ActorStepV::StartOver,
            ActorStep::Rewind(n) => ActorStepV::Rewind(*n),
            ActorStep::Fork => ActorStepV::Fork,
            ActorStep::Stop => ActorStepV::Stop,
        }
    }
}

/// The turns that were started: they are numbered from one on.
pub struct SessionActor {
    pub turns: u64,
}

/// What is to be done for a command, after so many turns were started.
pub open spec fn handled(turns: u64, cmd: SessionCommandV) -> ActorStepV {
    match cmd {
        SessionCommandV::SubmitUserInput(text) => ActorStepV::RunTurn {
            turn: (turns + 1) as u64,
            text,
        },
        SessionCommandV::Cancel => if turns == 0 {
            ActorStepV::Nothing
        } else {
            ActorStepV::CancelTurn(turns)
        },
        SessionCommandV::Snapshot => ActorStepV::HandOut,
        SessionCommandV::Clear => ActorStepV::StartOver,
        SessionCommandV::Rewind(n) => ActorStepV::Rewind(n),
        SessionCommandV::Fork => ActorStepV::Fork,
        SessionCommandV::Shutdown => ActorStepV::Stop,
    }
}

impl SessionActor {
    /// No turn was started.
    pub fn new() -> (r: SessionActor)
        ensures
            r.turns == 0,
    {
        SessionActor { turns: 0 }
    }

    /// What is to be done for a command.
    pub fn handle(&mut self, cmd: SessionCommand) -> (r: ActorStep)
        requires
            old(self).turns < u64::MAX,
        ensures
            r@ == handled(old(self).turns, cmd@),
            final(self).turns == old(self).turns + (if cmd is SubmitUserInput {
                1int
            } else {
                0int
            }),
    {
        match cmd {
            SessionCommand::SubmitUserInput(text) => {
                self.turns = self.turns + 1;
                ActorStep::RunTurn { turn: self.turns, text }
            },
            SessionCommand::Cancel => if self.turns == 0 {
                ActorStep::Nothing
            } else {
                ActorStep::CancelTurn(self.turns)
            },
            SessionCommand::Snapshot => ActorStep::HandOut,
            SessionCommand::Clear => ActorStep::StartOver,
            SessionCommand::Rewind(n) => ActorStep::Rewind(n),
            SessionCommand::Fork => ActorStep::Fork,
            SessionCommand::Shutdown => ActorStep::Stop,
        }
    }
}

// ---------------------------------------------------------------------------
// A new session in place of the old
// ---------------------------------------------------------------------------
/// The session that is to take the place of another: a new one on the same
/// model.
pub fn start_over(session: &Session, dir: &str) -> (r: Session)
    ensures
        r@ == started(r@.id, r@.created_at, session@.model),
        r.log_path@ == log_file(dir@, r@.id),
        nibble(r@.id.value, 12) == 4,
        8 <= nibble(r@.id.value, 16) <= 11,
        r@.created_at.has_text(),
{
    Session::new(session.model.clone(), dir)
}

/// Puts a new session in the place of another, given how writing its head to
/// its log went; gives its identifier where it took the place.
pub fn replace(session: &mut Session, fresh: Session, stored: Result<(), SessionError>) -> (r:
    Option<SessionId>)
    ensures
        match stored {
            Ok(_) => *final(session) == fresh && r == Some(fresh.id),
            Err(_) => *final(session) == *old(session) && r is None,
        },
{
    match stored {
        Ok(_) => {
            let id = fresh.id;
            *session = fresh;
            Some(id)
        },
        Err(_) => None,
    }
}

// ---------------------------------------------------------------------------
// Rewinding
// ---------------------------------------------------------------------------
pub ghost enum RewindPhaseV {
    Restoring { steps: Seq<RestoreV>, next: int, to: u32 },
    Storing,
    Reading,
    Finished,
}

/// How far a rewind has come.
#[derive(Debug)]
pub enum RewindPhase {
    /// The files are being brought back; the step with the number is under way.
    Restoring { steps: Vec<FileRestore>, next: usize, to: u32 },
    /// The record of the rewind is being stored.
    Storing,
    /// The log is being read.
    Reading,
    Finished,
}

impl View for RewindPhase {
    type V = RewindPhaseV;

    open spec fn view(&self) -> RewindPhaseV {
        match self {
            RewindPhase::Restoring { steps, next, to } => RewindPhaseV::Restoring {
                steps: views(steps@),
                next: *next as int,
                to: *to,
            },
            RewindPhase::Storing => RewindPhaseV::Storing,
            RewindPhase::Reading => RewindPhaseV::Reading,
            RewindPhase::Finished => RewindPhaseV::Finished,
        }
    }
}

pub ghost enum RewindActionV {
    Restore(RestoreV),
    Store(RecordV),
    ReadLog,
    Finish(Result<(), SessionErrorV>),
}

/// What a rewind needs done.
#[derive(Debug)]
pub enum RewindAction {
    Restore(FileRestore),
    Store(UpdateRecord),
    ReadLog,
    Finish(Result<(), SessionError>),
}

impl View for RewindAction {
    type V = RewindActionV;

    open spec fn view(&self) -> RewindActionV {
        match self {
            RewindAction::Restore(f) => RewindActionV::Restore(f@),
            RewindAction::Store(r) => RewindActionV::Store(r@),
            RewindAction::ReadLog => RewindActionV::ReadLog,
            RewindAction::Finish(r) => RewindActionV::Finish(unit_view(*r)),
        }
    }
}

/// The view of how something went.
pub open spec fn unit_view(r: Result<(), SessionError>) -> Result<(), SessionErrorV> {
    match r {
        Ok(_) => Ok(()),
        Err(e) => Err(e@),
    }
}

pub ghost enum RewindEventV {
    Restored(Result<(), SessionErrorV>),
    Stored(Result<(), SessionErrorV>),
    Log(Result<Seq<char>, SessionErrorV>),
}

/// What came of what a rewind needed done.
#[derive(Debug)]
pub enum RewindEvent {
    Restored(Result<(), SessionError>),
    Stored(Result<(), SessionError>),
    Log(Result<String, SessionError>),
}

impl View for RewindEvent {
    type V = RewindEventV;

    open spec fn view(&self) -> RewindEventV {
        match self {
            RewindEvent::Restored(r) => RewindEventV::Restored(unit_view(*r)),
            RewindEvent::Stored(r) => RewindEventV::Stored(unit_view(*r)),
            RewindEvent::Log(r) => RewindEventV::Log(crate::text::view_res(*r)),
        }
    }
}

/// The next file is brought back; after the last one the rewind is stored.
pub open spec fn restoring(steps: Seq<RestoreV>, next: int, to: u32) -> (
    RewindPhaseV,
    RewindActionV,
) {
    if next < steps.len() {
        (RewindPhaseV::Restoring { steps, next, to }, RewindActionV::Restore(steps[next]))
    } else {
        (
            RewindPhaseV::Storing,
            RewindActionV::Store(RecordV::Rewind { to_prompt_index: to }),
        )
    }
}

/// How a rewind begins: with the first file of the plan.
pub open spec fn rewind_start(s: SessionV, to: u32) -> (SessionV, RewindPhaseV, RewindActionV) {
    let first = restoring(restore_plan(later_checkpoints(s.checkpoints, to)), 0, to);
    (s, first.0, first.1)
}

/// The event tells what came of what the rewind is doing.
pub open spec fn rewind_answers(phase: RewindPhaseV, e: RewindEventV) -> bool {
    match phase {
        RewindPhaseV::Restoring { steps, next, .. } => e is Restored && 0 <= next < steps.len(),
        RewindPhaseV::Storing => e is Stored,
        RewindPhaseV::Reading => e is Log,
        RewindPhaseV::Finished => false,
    }
}

/// The rewind is over.
pub open spec fn rewind_over(s: SessionV, r: Result<(), SessionErrorV>) -> (
    SessionV,
    RewindPhaseV,
    RewindActionV,
) {
    (s, RewindPhaseV::Finished, RewindActionV::Finish(r))
}

/// Where an event leads. A file that cannot be written ends the rewind; one
/// that cannot be removed does not.
pub open spec fn rewound(s: SessionV, phase: RewindPhaseV, e: RewindEventV) -> (
    SessionV,
    RewindPhaseV,
    RewindActionV,
) {
    match (phase, e) {
        (RewindPhaseV::Restoring { steps, next, to }, RewindEventV::Restored(r)) => match r {
            Err(x) => if steps[next] is Write {
                rewind_over(s, Err(x))
            } else {
                let after = restoring(steps, next + 1, to);
                (s, after.0, after.1)
            },
            Ok(_) => {
                let after = restoring(steps, next + 1, to);
                (s, after.0, after.1)
            },
        },
        (RewindPhaseV::Storing, RewindEventV::Stored(r)) => match r {
            Err(x) => rewind_over(s, Err(x)),
            Ok(_) => (s, RewindPhaseV::Reading, RewindActionV::ReadLog),
        },
        (RewindPhaseV::Reading, RewindEventV::Log(r)) => match r {
            Err(x) => rewind_over(s, Err(x)),
            Ok(text) => match restored(text) {
                Err(x) => rewind_over(s, Err(x)),
                Ok(found) => rewind_over(
                    SessionV {
                        messages: found.messages,
                        prompt_index: found.prompt_index,
                        checkpoints: found.checkpoints,
                        ..s
                    },
                    Ok(()),
                ),
            },
        },
        _ => rewind_over(s, Ok(())),
    }
}

fn restore_next(steps: Vec<FileRestore>, next: usize, to: u32) -> (r: (RewindPhase, RewindAction))
    ensures
        (r.0@, r.1@) == restoring(views(steps@), next as int, to),
{
    if next < steps.len() {
        let step = steps[next].clone();
        assert(views(steps@)[next as int] == step@);
        (RewindPhase::Restoring { steps, next, to }, RewindAction::Restore(step))
    } else {
        (
            RewindPhase::Storing,
            RewindAction::Store(UpdateRecord::Rewind { to_prompt_index: to }),
        )
    }
}

/// A rewind begins.
pub fn rewind_begin(session: &Session, to: u32) -> (r: (RewindPhase, RewindAction))
    ensures
        (session@, r.0@, r.1@) == rewind_start(session@, to),
{
    restore_next(session.rewind_plan(to), 0, to)
}

/// Takes what came of what a rewind needed done, and gives what it needs next.
pub fn rewind_next(session: &mut Session, phase: RewindPhase, event: RewindEvent) -> (r: (
    RewindPhase,
    RewindAction,
))
    requires
        rewind_answers(phase@, event@),
    ensures
        (final(session)@, r.0@, r.1@) == rewound(old(session)@, phase@, event@),
        final(session).log_path == old(session).log_path,
{
    match phase {
        RewindPhase::Restoring { steps, next, to } => {
            let writes = matches!(&steps[next], FileRestore::Write { .. });
            assert(views(steps@)[next as int] == steps@[next as int]@);
            match event {
                RewindEvent::Restored(Err(e)) => {
                    if writes {
                        return (RewindPhase::Finished, RewindAction::Finish(Err(e)));
                    }
                },
                _ => {},
            }
            let count: usize = steps.len();
            assert(next < count);
            restore_next(steps, next + 1, to)
        },
        RewindPhase::Storing => match event {
            RewindEvent::Stored(Err(e)) => (
                RewindPhase::Finished,
                RewindAction::Finish(Err(e)),
            ),
            _ => (RewindPhase::Reading, RewindAction::ReadLog),
        },
        RewindPhase::Reading => match event {
            RewindEvent::Log(Ok(text)) => {
                let went = session.rewind(text.as_str());
                (RewindPhase::Finished, RewindAction::Finish(went))
            },
            RewindEvent::Log(Err(e)) => (RewindPhase::Finished, RewindAction::Finish(Err(e))),
            _ => (RewindPhase::Finished, RewindAction::Finish(Ok(()))),
        },
        RewindPhase::Finished => (RewindPhase::Finished, RewindAction::Finish(Ok(()))),
    }
}

/// A rewind leaves the session in step with its log: where the log was read
/// back with the record of the rewind at its end, the session is what that log
/// stands for.
pub proof fn law_rewind_keeps_in_step(s: SessionV, records: Seq<RecordV>, to: u32, text: Seq<char>)
    requires
        in_step(s, records),
        read_log(text) == Ok::<Seq<RecordV>, SessionErrorV>(
            records.push(RecordV::Rewind { to_prompt_index: to }),
        ),
    ensures
        rewound(s, RewindPhaseV::Reading, RewindEventV::Log(Ok(text))).2 == RewindActionV::Finish(
            Ok(()),
        ),
        in_step(
            rewound(s, RewindPhaseV::Reading, RewindEventV::Log(Ok(text))).0,
            records.push(RecordV::Rewind { to_prompt_index: to }),
        ),
{
    law_rewind_keeps_earlier_turns(records, to);
}

/// Until the log has been read back, a rewind does not touch the session.
pub proof fn law_failed_rewind_keeps_session(s: SessionV, phase: RewindPhaseV, e: RewindEventV)
    requires
        rewind_answers(phase, e),
        !(rewound(s, phase, e).2 matches RewindActionV::Finish(Ok(_))),
    ensures
        rewound(s, phase, e).0 == s,
{
}

// ---------------------------------------------------------------------------
// What a rewind asks for
// ---------------------------------------------------------------------------
/// The rewind once the events have come one by one.
pub open spec fn rewind_run(s: SessionV, to: u32, events: Seq<RewindEventV>) -> (
    SessionV,
    RewindPhaseV,
    RewindActionV,
)
    decreases events.len(),
{
    if events.len() == 0 {
        rewind_start(s, to)
    } else {
        let before = rewind_run(s, to, events.drop_last());
        rewound(before.0, before.1, events.last())
    }
}

/// Every action that the rewind asks for, the first one first.
pub open spec fn rewind_asks(s: SessionV, to: u32, events: Seq<RewindEventV>) -> Seq<RewindActionV>
    decreases events.len(),
{
    if events.len() == 0 {
        seq![rewind_start(s, to).2]
    } else {
        rewind_asks(s, to, events.drop_last()).push(rewind_run(s, to, events).2)
    }
}

/// The files that the actions restore, in order.
pub open spec fn restores_in(actions: Seq<RewindActionV>) -> Seq<RestoreV>
    decreases actions.len(),
{
    if actions.len() == 0 {
        seq![]
    } else {
        match actions.last() {
            RewindActionV::Restore(step) => restores_in(actions.drop_last()).push(step),
            _ => restores_in(actions.drop_last()),
        }
    }
}

/// Each event tells what came of the step at its place; only what writes no file
/// may have failed.
pub open spec fn steps_succeed(steps: Seq<RestoreV>, events: Seq<RewindEventV>) -> bool {
    &&& events.len() <= steps.len()
    &&& forall|i: int|
        0 <= i < events.len() ==> ((#[trigger] events[i]) is Restored && (steps[i] is Write
            ==> events[i] == RewindEventV::Restored(Ok(()))))
}

proof fn lemma_rewind_run(
    s: SessionV,
    to: u32,
    steps: Seq<RestoreV>,
    events: Seq<RewindEventV>,
)
    requires
        steps == restore_plan(later_checkpoints(s.checkpoints, to)),
        steps_succeed(steps, events),
    ensures
        rewind_run(s, to, events).0 == s,
        events.len() < steps.len() ==> rewind_run(s, to, events).1 == (RewindPhaseV::Restoring {
            steps,
            next: events.len() as int,
            to,
        }) && rewind_run(s, to, events).2 == RewindActionV::Restore(steps[events.len() as int]),
        events.len() == steps.len() ==> rewind_run(s, to, events).1 == RewindPhaseV::Storing
            && rewind_run(s, to, events).2 == RewindActionV::Store(
            RecordV::Rewind { to_prompt_index: to },
        ),
        restores_in(rewind_asks(s, to, events)) == steps.subrange(
            0,
            if events.len() < steps.len() {
                (events.len() + 1) as int
            } else {
                steps.len() as int
            },
        ),
        rewind_asks(s, to, events).len() == events.len() + 1,
    decreases events.len(),
{
    let asks = rewind_asks(s, to, events);
    if events.len() == 0 {
        assert(asks.drop_last() =~= Seq::<RewindActionV>::empty());
        assert(restores_in(asks.drop_last()) =~= Seq::<RestoreV>::empty());
        if steps.len() > 0 {
            assert(restores_in(asks) =~= steps.subrange(0, 1));
        } else {
            assert(restores_in(asks) =~= steps.subrange(0, 0));
        }
    } else {
        let old = events.drop_last();
        assert forall|i: int| 0 <= i < old.len() implies ((#[trigger] old[i]) is Restored && (
        steps[i] is Write ==> old[i] == RewindEventV::Restored(Ok(())))) by {
            assert(old[i] == events[i]);
        }
        lemma_rewind_run(s, to, steps, old);
        assert(events.last() == events[events.len() - 1]);
        assert(asks.drop_last() =~= rewind_asks(s, to, old));
        if events.len() < steps.len() {
            assert(steps.subrange(0, events.len() as int).push(steps[events.len() as int])
                =~= steps.subrange(0, (events.len() + 1) as int));
        }
    }
}

/// A rewind asks to restore every file that the undone turns have written, each
/// once and in the order of the plan, and only then to store that it happened. A
/// failure to remove a file does not stop it.
pub proof fn law_rewind_asks_for_the_whole_plan(s: SessionV, to: u32, events: Seq<RewindEventV>)
    requires
        steps_succeed(restore_plan(later_checkpoints(s.checkpoints, to)), events),
    ensures
        ({
            let plan = restore_plan(later_checkpoints(s.checkpoints, to));
            let asks = rewind_asks(s, to, events);
            &&& rewind_run(s, to, events).0 == s
            &&& asks.len() == events.len() + 1
            &&& forall|i: int|
                0 <= i <= events.len() && i < plan.len() ==> #[trigger] asks[i]
                    == RewindActionV::Restore(plan[i])
            &&& events.len() == plan.len() ==> asks.last() == RewindActionV::Store(
                RecordV::Rewind { to_prompt_index: to },
            ) && restores_in(asks) == plan
        }),
    decreases events.len(),
{
    let plan = restore_plan(later_checkpoints(s.checkpoints, to));
    let asks = rewind_asks(s, to, events);
    lemma_rewind_run(s, to, plan, events);
    assert(plan.subrange(0, plan.len() as int) =~= plan);
    if events.len() > 0 {
        let old = events.drop_last();
        assert forall|i: int| 0 <= i < old.len() implies ((#[trigger] old[i]) is Restored && (
        plan[i] is Write ==> old[i] == RewindEventV::Restored(Ok(())))) by {
            assert(old[i] == events[i]);
        }
        law_rewind_asks_for_the_whole_plan(s, to, old);
        lemma_rewind_run(s, to, plan, old);
        assert forall|i: int| 0 <= i <= events.len() && i < plan.len() implies #[trigger] asks[i]
            == RewindActionV::Restore(plan[i]) by {
            if i < events.len() {
                assert(asks[i] == rewind_asks(s, to, old)[i]);
            }
        }
    }
}

/// What a rewind has asked for by the time it stores that it happened leaves each
/// file as it was at the end of the turn that is gone back to.
pub proof fn law_what_a_rewind_asks_for_restores_files(
    s: SessionV,
    to: u32,
    events: Seq<RewindEventV>,
    states: Seq<Map<PlaceV, FileV>>,
    path: Seq<char>,
)
    requires
        steps_succeed(restore_plan(later_checkpoints(s.checkpoints, to)), events),
        rewind_run(s, to, events).2 is Store,
        checkpoints_in_order(s.checkpoints),
        states.len() == s.checkpoints.len() + 1,
        forall|k: int|
            0 <= k < s.checkpoints.len() ==> #[trigger] recorded(
                states[k],
                states[k + 1],
                s.checkpoints[k],
            ),
        !opaque_to(later_checkpoints(s.checkpoints, to), path),
    ensures
        same_file(
            states[earlier_checkpoints(s.checkpoints, to).len() as int],
            apply_restores(states.last(), restores_in(rewind_asks(s, to, events))),
            path,
        ),
{
    let plan = restore_plan(later_checkpoints(s.checkpoints, to));
    lemma_rewind_run(s, to, plan, events);
    law_rewind_asks_for_the_whole_plan(s, to, events);
    law_rewind_restores_files(states, s.checkpoints, to, path);
}

/// Once the files are restored the rewind is stored, then the log is read, and
/// the session is what the log stands for. What cannot be written, stored or read
/// ends the rewind with that very error, and the session stays as it is.
pub proof fn law_rewind_goes_on_to_its_end(
    s: SessionV,
    steps: Seq<RestoreV>,
    next: int,
    to: u32,
    text: Seq<char>,
    x: SessionErrorV,
)
    requires
        0 <= next < steps.len(),
    ensures
        rewound(s, RewindPhaseV::Storing, RewindEventV::Stored(Ok(()))) == (
            s,
            RewindPhaseV::Reading,
            RewindActionV::ReadLog,
        ),
        steps[next] is Write ==> rewound(
            s,
            RewindPhaseV::Restoring { steps, next, to },
            RewindEventV::Restored(Err(x)),
        ) == (s, RewindPhaseV::Finished, RewindActionV::Finish(Err(x))),
        rewound(s, RewindPhaseV::Storing, RewindEventV::Stored(Err(x))) == (
            s,
            RewindPhaseV::Finished,
            RewindActionV::Finish(Err(x)),
        ),
        rewound(s, RewindPhaseV::Reading, RewindEventV::Log(Err(x))) == (
            s,
            RewindPhaseV::Finished,
            RewindActionV::Finish(Err(x)),
        ),
        match restored(text) {
            Ok(found) => {
                let after = rewound(s, RewindPhaseV::Reading, RewindEventV::Log(Ok(text)));
                &&& after.2 == RewindActionV::Finish(Ok(()))
                &&& after.0.messages == found.messages
                &&& after.0.prompt_index == found.prompt_index
                &&& after.0.checkpoints == found.checkpoints
                &&& after.0.id == s.id
                &&& after.0.model == s.model
                &&& after.0.created_at == s.created_at
            },
            Err(y) => rewound(s, RewindPhaseV::Reading, RewindEventV::Log(Ok(text))) == (
                s,
                RewindPhaseV::Finished,
                RewindActionV::Finish(Err(y)),
            ),
        },
{
}

/// Each message of the user runs a turn of its own, numbered one after the other;
/// a cancellation is for the last turn, where there has been one; and every other
/// command does what it says.
pub proof fn law_commands_do_what_they_say(turns: u64, text: Seq<char>, n: u32)
    requires
        turns < u64::MAX,
    ensures
        handled(turns, SessionCommandV::SubmitUserInput(text)) matches ActorStepV::RunTurn {
            turn,
            text: t,
        } && turn == turns + 1 && t == text,
        turns > 0 ==> handled(turns, SessionCommandV::Cancel) == ActorStepV::CancelTurn(turns),
        turns == 0 ==> handled(turns, SessionCommandV::Cancel) == ActorStepV::Nothing,
        handled(turns, SessionCommandV::Snapshot) == ActorStepV::HandOut,
        handled(turns, SessionCommandV::Clear) == ActorStepV::StartOver,
        handled(turns, SessionCommandV::Rewind(n)) == ActorStepV::Rewind(n),
        handled(turns, SessionCommandV::Fork) == ActorStepV::Fork,
        handled(turns, SessionCommandV::Shutdown) == ActorStepV::Stop,
{
}

/// A turn without a result was cancelled, one that went well is completed, and
/// one that failed says why.
pub proof fn law_outcomes_tell_how_turns_ended(e: AppErrorV)
    ensures
        outcome(None) == TurnOutcomeV::Cancelled,
        outcome(Some(Ok(()))) == TurnOutcomeV::Completed,
        outcome(Some(Err(e))) == TurnOutcomeV::Failed(e.message()),
{
}

} // verus!
