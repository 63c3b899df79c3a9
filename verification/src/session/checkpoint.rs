//! Checkpoints: what the files that a turn changed held before it, and how to
//! bring that back.
use crate::config::{same_path, target_of, PlaceV};
use crate::json::{
    entry_trees, law_entries_are_found_by_key, lemma_entry, trees, Json, JsonV,
};
use crate::text::{clone_opt, join, utf8_text, view_opt, view_res, views};
use crate::wire::{
    array, array_field, is_blank, lemma_stands, no_entries, no_items, object, opt_json,
    opt_text_field, opt_text_json, put, put_item, read_array, read_opt_text, read_text, read_u32,
    shape, shaped, stands, text_field, text_json, u32_field,
};
use vstd::prelude::*;
use vstd::utf8::*;

verus! {

// ---------------------------------------------------------------------------
// What checkpoints hold
// ---------------------------------------------------------------------------
/// What a look at a file finds.
pub ghost enum FoundV {
    /// There is no such file.
    Absent,
    Text(Seq<char>),
    /// The file is there, but is not text.
    Opaque,
}

impl FoundV {
    /// The text of the file, where it is there and is text.
    pub open spec fn text(self) -> Option<Seq<char>> {
        match self {
            FoundV::Text(s) => Some(s),
            _ => None,
        }
    }
}

pub ghost struct SnapshotV {
    pub path: Seq<char>,
    pub before: FoundV,
}

pub ghost struct HunkV {
    pub path: Seq<char>,
    pub unified_diff: Seq<char>,
}

pub ghost struct CheckpointV {
    pub prompt_index: u32,
    pub file_snapshots: Seq<SnapshotV>,
    pub hunks: Seq<HunkV>,
    pub git_head: Option<Seq<char>>,
}

/// What a look at a file finds.
#[derive(Debug)]
pub enum Found {
    /// There is no such file.
    Absent,
    Text(String),
    /// The file is there, but is not text.
    Opaque,
}

impl View for Found {
    type V = FoundV;

    open spec fn view(&self) -> FoundV {
        match self {
            Found::Absent => FoundV::Absent,
            Found::Text(s) => FoundV::Text(s@),
            Found::Opaque => FoundV::Opaque,
        }
    }
}

/// What a look at a file finds, given whether it is there and the bytes that
/// could be read from it.
pub open spec fn found_of(there: bool, bytes: Option<Seq<u8>>) -> FoundV {
    if !there {
        FoundV::Absent
    } else {
        match bytes {
            Some(b) => if valid_utf8(b) {
                FoundV::Text(decode_utf8(b))
            } else {
                FoundV::Opaque
            },
            None => FoundV::Opaque,
        }
    }
}

impl Found {
    /// What a look at a file finds, given whether it is there and the bytes that
    /// could be read from it. A file that is there counts as such even where
    /// nothing can be read from it.
    pub fn of(there: bool, bytes: Option<Vec<u8>>) -> (r: Found)
        ensures
            r@ == found_of(there, view_opt(bytes)),
    {
        if !there {
            return Found::Absent;
        }
        match bytes {
            Some(b) => match utf8_text(b) {
                Ok(s) => Found::Text(s),
                Err(_) => Found::Opaque,
            },
            None => Found::Opaque,
        }
    }
}

/// What a file held before a turn: `before` is its text, and absent where the
/// file did not exist; a file that was there but was not text is `opaque`.
#[derive(Debug)]
pub struct FileSnapshot {
    pub path: String,
    pub before: Option<String>,
    pub opaque: bool,
}

/// How a turn changed a file, as a unified diff.
#[derive(Debug)]
pub struct HunkPatch {
    pub path: String,
    pub unified_diff: String,
}

/// What a turn changed: the files before it, the differences, and the commit
/// that was checked out when it began.
#[derive(Debug)]
pub struct Checkpoint {
    pub prompt_index: u32,
    pub file_snapshots: Vec<FileSnapshot>,
    pub hunks: Vec<HunkPatch>,
    pub git_head: Option<String>,
}

impl View for FileSnapshot {
    type V = SnapshotV;

    open spec fn view(&self) -> SnapshotV {
        SnapshotV {
            path: self.path@,
            before: match self.before {
                Some(s) => FoundV::Text(s@),
                None => if self.opaque {
                    FoundV::Opaque
                } else {
                    FoundV::Absent
                },
            },
        }
    }
}

impl View for HunkPatch {
    type V = HunkV;

    open spec fn view(&self) -> HunkV {
        HunkV { path: self.path@, unified_diff: self.unified_diff@ }
    }
}

impl View for Checkpoint {
    type V = CheckpointV;

    open spec fn view(&self) -> CheckpointV {
        CheckpointV {
            prompt_index: self.prompt_index,
            file_snapshots: views(self.file_snapshots@),
            hunks: views(self.hunks@),
            git_head: view_opt(self.git_head),
        }
    }
}

impl Clone for FileSnapshot {
    fn clone(&self) -> (r: FileSnapshot)
        ensures
            r@ == self@,
    {
        FileSnapshot {
            path: self.path.clone(),
            before: clone_opt(&self.before),
            opaque: self.opaque,
        }
    }
}

impl Clone for HunkPatch {
    fn clone(&self) -> (r: HunkPatch)
        ensures
            r@ == self@,
    {
        HunkPatch { path: self.path.clone(), unified_diff: self.unified_diff.clone() }
    }
}

fn clone_snapshots(v: &Vec<FileSnapshot>) -> (r: Vec<FileSnapshot>)
    ensures
        views(r@) == views(v@),
{
    let mut out: Vec<FileSnapshot> = Vec::new();
    let mut i: usize = 0;
    while i < v.len()
        invariant
            i <= v@.len(),
            out@.len() == i,
            forall|j: int| 0 <= j < i ==> (#[trigger] out@[j])@ == v@[j]@,
        decreases v@.len() - i,
    {
        out.push(v[i].clone());
        i = i + 1;
    }
    assert(views(out@) =~= views(v@));
    out
}

fn clone_hunks(v: &Vec<HunkPatch>) -> (r: Vec<HunkPatch>)
    ensures
        views(r@) == views(v@),
{
    let mut out: Vec<HunkPatch> = Vec::new();
    let mut i: usize = 0;
    while i < v.len()
        invariant
            i <= v@.len(),
            out@.len() == i,
            forall|j: int| 0 <= j < i ==> (#[trigger] out@[j])@ == v@[j]@,
        decreases v@.len() - i,
    {
        out.push(v[i].clone());
        i = i + 1;
    }
    assert(views(out@) =~= views(v@));
    out
}

impl Clone for Checkpoint {
    fn clone(&self) -> (r: Checkpoint)
        ensures
            r@ == self@,
    {
        Checkpoint {
            prompt_index: self.prompt_index,
            file_snapshots: clone_snapshots(&self.file_snapshots),
            hunks: clone_hunks(&self.hunks),
            git_head: clone_opt(&self.git_head),
        }
    }
}

// ---------------------------------------------------------------------------
// Tracking the changes of a turn
// ---------------------------------------------------------------------------
/// One of the snapshots is of the file that the path names.
pub open spec fn touched(s: Seq<SnapshotV>, path: Seq<char>) -> bool {
    exists|i: int| 0 <= i < s.len() && target_of((#[trigger] s[i]).path) == target_of(path)
}

/// No two snapshots are of the same file.
pub open spec fn distinct_paths(s: Seq<SnapshotV>) -> bool {
    forall|i: int, j: int|
        0 <= i < j < s.len() ==> target_of((#[trigger] s[i]).path) != target_of(
            (#[trigger] s[j]).path,
        )
}

/// The snapshots once a file is about to be written: a file that has none yet
/// gets one of what it holds now.
pub open spec fn noted(s: Seq<SnapshotV>, path: Seq<char>, now: FoundV) -> Seq<SnapshotV> {
    if touched(s, path) {
        s
    } else {
        s.push(SnapshotV { path, before: now })
    }
}

/// The unified diff of two texts that `similar` writes, line by line and with
/// three lines of context, under the names of the old and the new file.
pub uninterp spec fn diff_text(
    before: Seq<char>,
    after: Seq<char>,
    old_name: Seq<char>,
    new_name: Seq<char>,
) -> Seq<char>;

/// `similar::TextDiff::from_lines` and its unified diff with a header.
#[verifier::external_body]
fn unified_diff(before: &str, after: &str, old_name: &str, new_name: &str) -> (r: String)
    ensures
        r@ == diff_text(before@, after@, old_name@, new_name@),
{
    similar::TextDiff::from_lines(before, after).unified_diff().header(
        old_name,
        new_name,
    ).to_string()
}

/// The text of a file, which is empty where it has none.
pub open spec fn or_empty(o: Option<Seq<char>>) -> Seq<char> {
    match o {
        Some(s) => s,
        None => Seq::<char>::empty(),
    }
}

/// The diff of a file: under its path with `a/` and with `b/` in front.
pub open spec fn hunk(snap: SnapshotV, after: Option<Seq<char>>) -> HunkV {
    HunkV {
        path: snap.path,
        unified_diff: diff_text(
            or_empty(snap.before.text()),
            or_empty(after),
            "a/"@ + snap.path,
            "b/"@ + snap.path,
        ),
    }
}

/// The diffs of the files that differ from their snapshots.
pub open spec fn hunks_of(s: Seq<SnapshotV>, after: Seq<Option<Seq<char>>>) -> Seq<HunkV>
    decreases s.len(),
{
    if s.len() == 0 {
        seq![]
    } else {
        let rest = hunks_of(s.drop_last(), after);
        let k = s.len() - 1;
        if or_empty(s[k].before.text()) != or_empty(after[k]) {
            rest.push(hunk(s[k], after[k]))
        } else {
            rest
        }
    }
}

/// The snapshots of the files that the present turn has touched, in the order
/// in which it touched them first.
pub struct HunkTracker {
    pending: Vec<FileSnapshot>,
}

impl View for HunkTracker {
    type V = Seq<SnapshotV>;

    closed spec fn view(&self) -> Seq<SnapshotV> {
        views(self.pending@)
    }
}

impl HunkTracker {
    /// No file has two snapshots.
    pub open spec fn wf(&self) -> bool {
        distinct_paths(self@)
    }

    /// A tracker without snapshots.
    pub fn new() -> (r: HunkTracker)
        ensures
            r.wf(),
            r@ == Seq::<SnapshotV>::empty(),
    {
        let r = HunkTracker { pending: Vec::new() };
        assert(r@ =~= Seq::<SnapshotV>::empty());
        r
    }

    /// Whether a file has no snapshot yet.
    pub fn needs_snapshot(&self, path: &str) -> (r: bool)
        ensures
            r == !touched(self@, path@),
    {
        let mut i: usize = 0;
        while i < self.pending.len()
            invariant
                i <= self.pending@.len(),
                forall|j: int|
                    0 <= j < i ==> target_of((#[trigger] self@[j]).path) != target_of(path@),
            decreases self.pending@.len() - i,
        {
            assert(self@[i as int] == self.pending@[i as int]@);
            if same_path(self.pending[i].path.as_str(), path) {
                return false;
            }
            i = i + 1;
        }
        true
    }

    /// Records what was found in a file that is about to be written. Only the
    /// first record of a turn counts: it is the one from before the turn.
    pub fn on_before_write(&mut self, path: &str, found: Found)
        requires
            old(self).wf(),
        ensures
            final(self).wf(),
            final(self)@ == noted(old(self)@, path@, found@),
    {
        if self.needs_snapshot(path) {
            let ghost before = self@;
            let (content, opaque) = match found {
                Found::Absent => (None, false),
                Found::Text(s) => (Some(s), false),
                Found::Opaque => (None, true),
            };
            let snap = FileSnapshot { path: path.to_owned(), before: content, opaque };
            self.pending.push(snap);
            assert(self@ =~= before.push(snap@));
        }
    }

    /// The paths of the files with a snapshot.
    pub fn pending_paths(&self) -> (r: Vec<String>)
        ensures
            views(r@) == self@.map_values(|s: SnapshotV| s.path),
    {
        let mut out: Vec<String> = Vec::new();
        let mut i: usize = 0;
        while i < self.pending.len()
            invariant
                i <= self.pending@.len(),
                out@.len() == i,
                forall|j: int| 0 <= j < i ==> (#[trigger] out@[j])@ == self.pending@[j].path@,
            decreases self.pending@.len() - i,
        {
            out.push(self.pending[i].path.clone());
            i = i + 1;
        }
        assert(views(out@) =~= self@.map_values(|s: SnapshotV| s.path));
        out
    }

    /// Ends the turn: packs its snapshots into a checkpoint, with the diffs to
    /// what the files hold now, and forgets them.
    pub fn seal(
        &mut self,
        prompt_index: u32,
        git_head: Option<String>,
        after: &Vec<Option<String>>,
    ) -> (r: Checkpoint)
        requires
            old(self).wf(),
            after@.len() == old(self)@.len(),
        ensures
            r@ == (CheckpointV {
                prompt_index,
                file_snapshots: old(self)@,
                hunks: hunks_of(old(self)@, after@.map_values(|o: Option<String>| view_opt(o))),
                git_head: view_opt(git_head),
            }),
            final(self).wf(),
            final(self)@ == Seq::<SnapshotV>::empty(),
    {
        let mut hunks: Vec<HunkPatch> = Vec::new();
        let ghost all = self@;
        let ghost afters = after@.map_values(|o: Option<String>| view_opt(o));
        let mut i: usize = 0;
        assert(views(hunks@) =~= Seq::<HunkV>::empty());
        assert(all.subrange(0, 0) =~= Seq::<SnapshotV>::empty());
        while i < self.pending.len()
            invariant
                i <= self.pending@.len(),
                all == views(self.pending@),
                afters == after@.map_values(|o: Option<String>| view_opt(o)),
                after@.len() == self.pending@.len(),
                views(hunks@) == hunks_of(all.subrange(0, i as int), afters),
            decreases self.pending@.len() - i,
        {
            let snap = &self.pending[i];
            let before = match &snap.before {
                Some(s) => s.clone(),
                None => String::new(),
            };
            let now = match &after[i] {
                Some(s) => s.clone(),
                None => String::new(),
            };
            proof {
                assert(all[i as int] == snap@);
                assert(afters[i as int] == view_opt(after@[i as int]));
                assert(all.subrange(0, i + 1).drop_last() =~= all.subrange(0, i as int));
                assert(before@ =~= or_empty(snap@.before.text()));
                assert(now@ =~= or_empty(afters[i as int]));
            }
            if before != now {
                let old_name = join("a/", snap.path.as_str());
                let new_name = join("b/", snap.path.as_str());
                let diff = unified_diff(
                    before.as_str(),
                    now.as_str(),
                    old_name.as_str(),
                    new_name.as_str(),
                );
                let patch = HunkPatch { path: snap.path.clone(), unified_diff: diff };
                let ghost known = views(hunks@);
                hunks.push(patch);
                proof {
                    assert(views(hunks@) =~= known.push(patch@));
                    assert(patch@ == hunk(all[i as int], afters[i as int]));
                }
            }
            i = i + 1;
        }
        assert(all.subrange(0, i as int) =~= all);
        let mut pending: Vec<FileSnapshot> = Vec::new();
        std::mem::swap(&mut pending, &mut self.pending);
        assert(self@ =~= Seq::<SnapshotV>::empty());
        Checkpoint { prompt_index, file_snapshots: pending, hunks, git_head }
    }

    /// Whether the turn has touched any file.
    pub fn has_pending(&self) -> (r: bool)
        ensures
            r == (self@.len() > 0),
    {
        self.pending.len() > 0
    }
}

// ---------------------------------------------------------------------------
// Bringing files back
// ---------------------------------------------------------------------------
pub ghost enum RestoreV {
    Write { path: Seq<char>, content: Seq<char> },
    Remove { path: Seq<char> },
    Keep { path: Seq<char> },
}

/// A step that brings a file back.
#[derive(Debug)]
pub enum FileRestore {
    /// Write the content to the file, and create its directory if need be.
    Write { path: String, content: String },
    /// Remove the file, if it is there.
    Remove { path: String },
    /// Leave the file as it is: what it held is not known.
    Keep { path: String },
}

impl View for FileRestore {
    type V = RestoreV;

    open spec fn view(&self) -> RestoreV {
        match self {
            FileRestore::Write { path, content } => RestoreV::Write {
                path: path@,
                content: content@,
            },
            FileRestore::Remove { path } => RestoreV::Remove { path: path@ },
            FileRestore::Keep { path } => RestoreV::Keep { path: path@ },
        }
    }
}

impl Clone for FileRestore {
    fn clone(&self) -> (r: FileRestore)
        ensures
            r@ == self@,
    {
        match self {
            FileRestore::Write { path, content } => FileRestore::Write {
                path: path.clone(),
                content: content.clone(),
            },
            FileRestore::Remove { path } => FileRestore::Remove { path: path.clone() },
            FileRestore::Keep { path } => FileRestore::Keep { path: path.clone() },
        }
    }
}

/// The step that brings the file of a snapshot back: only one that was not
/// there is removed, and one that was not text is left as it is.
pub open spec fn restore_of(s: SnapshotV) -> RestoreV {
    match s.before {
        FoundV::Text(content) => RestoreV::Write { path: s.path, content },
        FoundV::Absent => RestoreV::Remove { path: s.path },
        FoundV::Opaque => RestoreV::Keep { path: s.path },
    }
}

/// The steps that bring the files of some snapshots back.
pub open spec fn restores(s: Seq<SnapshotV>) -> Seq<RestoreV> {
    s.map_values(|x: SnapshotV| restore_of(x))
}

/// The steps that bring the files of several checkpoints back: those of the
/// last checkpoint come first.
pub open spec fn restore_plan(cps: Seq<CheckpointV>) -> Seq<RestoreV>
    decreases cps.len(),
{
    if cps.len() == 0 {
        seq![]
    } else {
        restores(cps.last().file_snapshots) + restore_plan(cps.drop_last())
    }
}

/// The steps that bring back the files of some checkpoints, in order.
pub fn restore_files(checkpoints: &Vec<Checkpoint>) -> (r: Vec<FileRestore>)
    ensures
        views(r@) == restore_plan(views(checkpoints@)),
{
    let mut out: Vec<FileRestore> = Vec::new();
    let ghost all = views(checkpoints@);
    let mut i: usize = checkpoints.len();
    assert(all.subrange(0, i as int) =~= all);
    assert(views(out@) + restore_plan(all) =~= restore_plan(all));
    while i > 0
        invariant
            i <= checkpoints@.len(),
            all == views(checkpoints@),
            views(out@) + restore_plan(all.subrange(0, i as int)) == restore_plan(all),
        decreases i,
    {
        let cp = &checkpoints[i - 1];
        let ghost done = views(out@);
        let ghost snaps = cp@.file_snapshots;
        let ghost rest = restore_plan(all.subrange(0, i - 1));
        proof {
            let t = all.subrange(0, i as int);
            assert(t.drop_last() =~= all.subrange(0, i - 1));
            assert(t.last() == cp@);
            assert(done + (restores(snaps) + rest) =~= (done + restores(snaps)) + rest);
        }
        let mut k: usize = 0;
        assert(done + restores(snaps).subrange(0, 0) =~= done);
        while k < cp.file_snapshots.len()
            invariant
                k <= cp.file_snapshots@.len(),
                snaps == views(cp.file_snapshots@),
                views(out@) == done + restores(snaps).subrange(0, k as int),
            decreases cp.file_snapshots@.len() - k,
        {
            let snap = &cp.file_snapshots[k];
            let step = match &snap.before {
                Some(content) => FileRestore::Write {
                    path: snap.path.clone(),
                    content: content.clone(),
                },
                None => if snap.opaque {
                    FileRestore::Keep { path: snap.path.clone() }
                } else {
                    FileRestore::Remove { path: snap.path.clone() }
                },
            };
            let ghost known = views(out@);
            out.push(step);
            proof {
                assert(snaps[k as int] == snap@);
                assert(restores(snaps)[k as int] == step@);
                assert(views(out@) =~= known.push(step@));
                assert(known.push(step@) =~= done + restores(snaps).subrange(0, k + 1));
            }
            k = k + 1;
        }
        assert(restores(snaps).subrange(0, k as int) =~= restores(snaps));
        i = i - 1;
    }
    assert(all.subrange(0, 0) =~= Seq::<CheckpointV>::empty());
    assert(views(out@) + restore_plan(Seq::<CheckpointV>::empty()) =~= views(out@));
    out
}

// ---------------------------------------------------------------------------
// What restoring means for the files
// ---------------------------------------------------------------------------
/// What a file holds: text, or bytes that are no text.
pub ghost enum FileV {
    Text(Seq<char>),
    Bytes(Seq<u8>),
}

/// The files after a step.
pub open spec fn apply_restore(files: Map<PlaceV, FileV>, step: RestoreV) -> Map<
    PlaceV,
    FileV,
> {
    match step {
        RestoreV::Write { path, content } => files.insert(target_of(path), FileV::Text(content)),
        RestoreV::Remove { path } => files.remove(target_of(path)),
        RestoreV::Keep { .. } => files,
    }
}

/// The files after several steps.
pub open spec fn apply_restores(
    files: Map<PlaceV, FileV>,
    steps: Seq<RestoreV>,
) -> Map<PlaceV, FileV>
    decreases steps.len(),
{
    if steps.len() == 0 {
        files
    } else {
        apply_restore(apply_restores(files, steps.drop_last()), steps.last())
    }
}

/// What a look at a file finds.
pub open spec fn content(files: Map<PlaceV, FileV>, path: Seq<char>) -> FoundV {
    if files.dom().contains(target_of(path)) {
        match files[target_of(path)] {
            FileV::Text(s) => FoundV::Text(s),
            FileV::Bytes(_) => FoundV::Opaque,
        }
    } else {
        FoundV::Absent
    }
}

/// A file is the same in two states.
pub open spec fn same_file(
    a: Map<PlaceV, FileV>,
    b: Map<PlaceV, FileV>,
    path: Seq<char>,
) -> bool {
    let t = target_of(path);
    a.dom().contains(t) == b.dom().contains(t) && (a.dom().contains(t) ==> a[t] == b[t])
}

/// The snapshots account for what happened to the files between one state and
/// another: each holds what its file held at first, and every file without a
/// snapshot is as it was.
pub open spec fn tracked_in(
    before: Map<PlaceV, FileV>,
    after: Map<PlaceV, FileV>,
    s: Seq<SnapshotV>,
) -> bool {
    &&& forall|i: int|
        0 <= i < s.len() ==> (#[trigger] s[i]).before == content(before, s[i].path)
    &&& forall|path: Seq<char>|
        !touched(s, path) ==> #[trigger] same_file(before, after, path)
}

/// A turn that took the files from one state to another is recorded in full.
pub open spec fn recorded(
    before: Map<PlaceV, FileV>,
    after: Map<PlaceV, FileV>,
    cp: CheckpointV,
) -> bool {
    tracked_in(before, after, cp.file_snapshots)
}

/// One of the snapshots is of the file, which was there but was not text.
pub open spec fn opaque_in(s: Seq<SnapshotV>, path: Seq<char>) -> bool {
    exists|i: int|
        0 <= i < s.len() && target_of((#[trigger] s[i]).path) == target_of(path)
            && s[i].before is Opaque
}

/// One of the checkpoints has a snapshot of the file, which was there but was
/// not text.
pub open spec fn opaque_to(cps: Seq<CheckpointV>, path: Seq<char>) -> bool {
    exists|k: int| 0 <= k < cps.len() && opaque_in((#[trigger] cps[k]).file_snapshots, path)
}

/// At the beginning of a turn there is nothing to account for.
pub proof fn law_turn_begins_tracked(files: Map<PlaceV, FileV>)
    ensures
        tracked_in(files, files, seq![]),
{
}

/// Files stay accounted for when one of them is written after it has been
/// noted, whatever is written and however often.
pub proof fn law_noted_write_is_tracked(
    before: Map<PlaceV, FileV>,
    now: Map<PlaceV, FileV>,
    s: Seq<SnapshotV>,
    path: Seq<char>,
    later: Map<PlaceV, FileV>,
)
    requires
        tracked_in(before, now, s),
        forall|p: Seq<char>|
            target_of(p) != target_of(path) ==> #[trigger] same_file(now, later, p),
    ensures
        tracked_in(before, later, noted(s, path, content(now, path))),
{
    let t = noted(s, path, content(now, path));
    assert(touched(t, path)) by {
        if !touched(s, path) {
            assert(target_of(t[t.len() - 1].path) == target_of(path));
        }
    }
    assert forall|p: Seq<char>| !touched(t, p) implies #[trigger] same_file(before, later, p) by {
        if touched(s, p) {
            let i = choose|i: int|
                0 <= i < s.len() && target_of((#[trigger] s[i]).path) == target_of(p);
            assert(target_of(t[i].path) == target_of(p));
        }
        assert(target_of(p) != target_of(path));
        assert(same_file(before, now, p));
        assert(same_file(now, later, p));
    }
    assert forall|i: int| 0 <= i < t.len() implies (#[trigger] t[i]).before == content(
        before,
        t[i].path,
    ) by {
        if i < s.len() {
            assert(t[i] == s[i]);
        } else {
            assert(same_file(before, now, path));
        }
    }
}

proof fn lemma_apply_concat(
    files: Map<PlaceV, FileV>,
    a: Seq<RestoreV>,
    b: Seq<RestoreV>,
)
    ensures
        apply_restores(files, a + b) == apply_restores(apply_restores(files, a), b),
    decreases b.len(),
{
    if b.len() == 0 {
        assert(a + b =~= a);
    } else {
        assert((a + b).drop_last() =~= a + b.drop_last());
        lemma_apply_concat(files, a, b.drop_last());
    }
}

/// The steps of a few snapshots set the files that they name, as far as those
/// were text or were not there, and no others.
proof fn lemma_apply_snapshots(
    before: Map<PlaceV, FileV>,
    files: Map<PlaceV, FileV>,
    s: Seq<SnapshotV>,
    path: Seq<char>,
)
    requires
        forall|i: int|
            0 <= i < s.len() ==> (#[trigger] s[i]).before == content(before, s[i].path),
    ensures
        if touched(s, path) && !(content(before, path) is Opaque) {
            same_file(before, apply_restores(files, restores(s)), path)
        } else {
            same_file(files, apply_restores(files, restores(s)), path)
        },
    decreases s.len(),
{
    if s.len() > 0 {
        let t = s.drop_last();
        assert forall|i: int| 0 <= i < t.len() implies (#[trigger] t[i]).before == content(
            before,
            t[i].path,
        ) by {
            assert(t[i] == s[i]);
        }
        lemma_apply_snapshots(before, files, t, path);
        assert(restores(s).drop_last() =~= restores(t));
        assert(restores(s).last() == restore_of(s.last()));
        assert(s[s.len() - 1].before == content(before, s.last().path));
        if touched(t, path) {
            let i = choose|i: int|
                0 <= i < t.len() && target_of((#[trigger] t[i]).path) == target_of(path);
            assert(target_of(s[i].path) == target_of(path));
        }
        if touched(s, path) && target_of(s.last().path) != target_of(path) {
            let i = choose|i: int|
                0 <= i < s.len() && target_of((#[trigger] s[i]).path) == target_of(path);
            assert(target_of(t[i].path) == target_of(path));
        }
        if target_of(s.last().path) == target_of(path) {
            assert(target_of(s[s.len() - 1].path) == target_of(path));
        }
    }
}

/// What bringing back the files of consecutive turns does to one file.
proof fn lemma_restore_path(
    states: Seq<Map<PlaceV, FileV>>,
    cps: Seq<CheckpointV>,
    files: Map<PlaceV, FileV>,
    path: Seq<char>,
)
    requires
        states.len() == cps.len() + 1,
        forall|k: int|
            0 <= k < cps.len() ==> #[trigger] recorded(states[k], states[k + 1], cps[k]),
    ensures
        same_file(states.last(), files, path) && !opaque_to(cps, path) ==> same_file(
            states[0],
            apply_restores(files, restore_plan(cps)),
            path,
        ),
        files.dom().contains(target_of(path)) && (forall|k: int|
            0 <= k < states.len() ==> (#[trigger] states[k]).dom().contains(target_of(path)))
            ==> apply_restores(files, restore_plan(cps)).dom().contains(target_of(path)),
    decreases cps.len(),
{
    if cps.len() > 0 {
        let n = cps.len() - 1;
        let snaps = cps[n].file_snapshots;
        assert(recorded(states[n], states[n + 1], cps[n]));
        let undone = apply_restores(files, restores(snaps));
        lemma_apply_snapshots(states[n], files, snaps, path);
        if !touched(snaps, path) {
            assert(same_file(states[n], states[n + 1], path));
        } else if content(states[n], path) is Opaque {
            let i = choose|i: int|
                0 <= i < snaps.len() && target_of((#[trigger] snaps[i]).path) == target_of(path);
            assert(snaps[i].before is Opaque);
            assert(opaque_in(cps[n].file_snapshots, path));
        }
        let less = cps.drop_last();
        let earlier = states.drop_last();
        assert forall|k: int| 0 <= k < less.len() implies #[trigger] recorded(
            earlier[k],
            earlier[k + 1],
            less[k],
        ) by {
            assert(recorded(states[k], states[k + 1], cps[k]));
        }
        if opaque_to(less, path) {
            let k = choose|k: int|
                0 <= k < less.len() && opaque_in((#[trigger] less[k]).file_snapshots, path);
            assert(opaque_in(cps[k].file_snapshots, path));
        }
        lemma_restore_path(earlier, less, undone, path);
        lemma_apply_concat(files, restores(snaps), restore_plan(less));
        assert(earlier.last() == states[n]);
        if files.dom().contains(target_of(path)) && (forall|k: int|
            0 <= k < states.len() ==> (#[trigger] states[k]).dom().contains(target_of(path))) {
            assert(states[n].dom().contains(target_of(path)));
            assert(undone.dom().contains(target_of(path)));
            assert forall|k: int| 0 <= k < earlier.len() implies (
            #[trigger] earlier[k]).dom().contains(target_of(path)) by {
                assert(states[k].dom().contains(target_of(path)));
            }
        }
    }
}

/// Bringing back the files of the checkpoints of consecutive turns, each of
/// them recorded in full, gives every file as it was before the first of those
/// turns, but for one that was not text when a turn was about to write it.
pub proof fn law_restore_undoes_turns(
    states: Seq<Map<PlaceV, FileV>>,
    cps: Seq<CheckpointV>,
    path: Seq<char>,
)
    requires
        states.len() == cps.len() + 1,
        forall|k: int|
            0 <= k < cps.len() ==> #[trigger] recorded(states[k], states[k + 1], cps[k]),
        !opaque_to(cps, path),
    ensures
        same_file(states[0], apply_restores(states.last(), restore_plan(cps)), path),
{
    lemma_restore_path(states, cps, states.last(), path);
}

/// Bringing files back removes no file that was there before each of the turns
/// and is there after the last of them, be it text or not.
pub proof fn law_restore_removes_no_old_file(
    states: Seq<Map<PlaceV, FileV>>,
    cps: Seq<CheckpointV>,
    path: Seq<char>,
)
    requires
        states.len() == cps.len() + 1,
        forall|k: int|
            0 <= k < cps.len() ==> #[trigger] recorded(states[k], states[k + 1], cps[k]),
        forall|k: int|
            0 <= k < states.len() ==> (#[trigger] states[k]).dom().contains(target_of(path)),
    ensures
        apply_restores(states.last(), restore_plan(cps)).dom().contains(target_of(path)),
{
    assert(states[states.len() - 1].dom().contains(target_of(path)));
    lemma_restore_path(states, cps, states.last(), path);
}

/// Bringing files back removes only files of which a checkpoint says that they
/// were not there.
pub proof fn law_only_new_files_are_removed(cps: Seq<CheckpointV>, step: RestoreV)
    requires
        restore_plan(cps).contains(step),
        step is Remove,
    ensures
        exists|k: int, i: int|
            0 <= k < cps.len() && 0 <= i < cps[k].file_snapshots.len() && (
            #[trigger] cps[k].file_snapshots[i]) == (SnapshotV {
                path: step->Remove_path,
                before: FoundV::Absent,
            }),
    decreases cps.len(),
{
    if cps.len() > 0 {
        let n = cps.len() - 1;
        let first = restores(cps.last().file_snapshots);
        let less = cps.drop_last();
        let j = restore_plan(cps).index_of(step);
        if j < first.len() {
            assert(first[j] == restore_of(cps[n].file_snapshots[j]));
            assert(cps[n].file_snapshots[j] == (SnapshotV {
                path: step->Remove_path,
                before: FoundV::Absent,
            }));
        } else {
            assert(restore_plan(less)[j - first.len()] == step);
            law_only_new_files_are_removed(less, step);
            let (k, i) = choose|k: int, i: int|
                0 <= k < less.len() && 0 <= i < less[k].file_snapshots.len() && (
                #[trigger] less[k].file_snapshots[i]) == (SnapshotV {
                    path: step->Remove_path,
                    before: FoundV::Absent,
                });
            assert(cps[k].file_snapshots[i] == less[k].file_snapshots[i]);
        }
    }
}

// ---------------------------------------------------------------------------
// The form in the log
// ---------------------------------------------------------------------------
/// A snapshot as JSON. That a file was there but was not text is said in an
/// entry of its own.
pub open spec fn snapshot_json(s: SnapshotV) -> JsonV {
    if s.before is Opaque {
        JsonV::Object(
            seq![
                ("path"@, JsonV::Text(s.path)),
                ("before"@, JsonV::Null),
                ("opaque"@, JsonV::Bool(true)),
            ],
        )
    } else {
        JsonV::Object(
            seq![("path"@, JsonV::Text(s.path)), ("before"@, opt_text_json(s.before.text()))],
        )
    }
}

/// A diff as JSON.
pub open spec fn hunk_json(h: HunkV) -> JsonV {
    JsonV::Object(
        seq![("path"@, JsonV::Text(h.path)), ("unified_diff"@, JsonV::Text(h.unified_diff))],
    )
}

/// The entries of a checkpoint.
pub open spec fn checkpoint_entries(cp: CheckpointV) -> Seq<(Seq<char>, JsonV)> {
    seq![
        ("prompt_index"@, JsonV::Number(cp.prompt_index as u64)),
        (
            "file_snapshots"@,
            JsonV::Array(cp.file_snapshots.map_values(|s: SnapshotV| snapshot_json(s))),
        ),
        ("hunks"@, JsonV::Array(cp.hunks.map_values(|h: HunkV| hunk_json(h)))),
        ("git_head"@, opt_text_json(cp.git_head)),
    ]
}

/// The snapshot that JSON stands for.
pub open spec fn json_snapshot(j: JsonV) -> Result<SnapshotV, Seq<char>> {
    match shaped(j, seq!["path"@, "before"@], 2) {
        Err(e) => Err(e),
        Ok(j) => match text_field(j, "path"@) {
            Err(e) => Err(e),
            Ok(path) => match opt_text_field(j, "before"@) {
                Err(e) => Err(e),
                Ok(Some(text)) => Ok(SnapshotV { path, before: FoundV::Text(text) }),
                Ok(None) => if j.get("opaque"@) == Some(JsonV::Bool(true)) {
                    Ok(SnapshotV { path, before: FoundV::Opaque })
                } else {
                    Ok(SnapshotV { path, before: FoundV::Absent })
                },
            },
        },
    }
}

/// The diff that JSON stands for.
pub open spec fn json_hunk(j: JsonV) -> Result<HunkV, Seq<char>> {
    match shaped(j, seq!["path"@, "unified_diff"@], 2) {
        Err(e) => Err(e),
        Ok(j) => match text_field(j, "path"@) {
            Err(e) => Err(e),
            Ok(path) => match text_field(j, "unified_diff"@) {
                Err(e) => Err(e),
                Ok(unified_diff) => Ok(HunkV { path, unified_diff }),
            },
        },
    }
}

/// The snapshots that a JSON array stands for: the first item that is none
/// decides the error.
pub open spec fn json_snapshots(s: Seq<JsonV>) -> Result<Seq<SnapshotV>, Seq<char>>
    decreases s.len(),
{
    if s.len() == 0 {
        Ok(seq![])
    } else {
        match json_snapshots(s.drop_last()) {
            Err(e) => Err(e),
            Ok(done) => match json_snapshot(s.last()) {
                Err(e) => Err(e),
                Ok(x) => Ok(done.push(x)),
            },
        }
    }
}

/// The diffs that a JSON array stands for.
pub open spec fn json_hunks(s: Seq<JsonV>) -> Result<Seq<HunkV>, Seq<char>>
    decreases s.len(),
{
    if s.len() == 0 {
        Ok(seq![])
    } else {
        match json_hunks(s.drop_last()) {
            Err(e) => Err(e),
            Ok(done) => match json_hunk(s.last()) {
                Err(e) => Err(e),
                Ok(x) => Ok(done.push(x)),
            },
        }
    }
}

/// The fields of a checkpoint.
pub open spec fn checkpoint_keys() -> Seq<Seq<char>> {
    seq!["prompt_index"@, "file_snapshots"@, "hunks"@, "git_head"@]
}

/// The checkpoint that JSON stands for.
pub open spec fn json_checkpoint(j: JsonV) -> Result<CheckpointV, Seq<char>> {
    match shaped(j, checkpoint_keys(), 4) {
        Err(e) => Err(e),
        Ok(j) => checkpoint_in(j),
    }
}

/// The checkpoint that a JSON object stands for.
pub open spec fn checkpoint_in(j: JsonV) -> Result<CheckpointV, Seq<char>> {
    match u32_field(j, "prompt_index"@) {
        Err(e) => Err(e),
        Ok(prompt_index) => match array_field(j, "file_snapshots"@) {
            Err(e) => Err(e),
            Ok(snapshots) => match json_snapshots(snapshots) {
                Err(e) => Err(e),
                Ok(file_snapshots) => match array_field(j, "hunks"@) {
                    Err(e) => Err(e),
                    Ok(patches) => match json_hunks(patches) {
                        Err(e) => Err(e),
                        Ok(hunks) => match opt_text_field(j, "git_head"@) {
                            Err(e) => Err(e),
                            Ok(git_head) => Ok(
                                CheckpointV { prompt_index, file_snapshots, hunks, git_head },
                            ),
                        },
                    },
                },
            },
        },
    }
}

/// Once an item is no snapshot, no longer array is one of snapshots only, and
/// the error stays.
proof fn lemma_snapshots_error(s: Seq<JsonV>, k: int)
    requires
        0 <= k <= s.len(),
        json_snapshots(s.subrange(0, k)) is Err,
    ensures
        json_snapshots(s) == json_snapshots(s.subrange(0, k)),
    decreases s.len(),
{
    if k == s.len() {
        assert(s.subrange(0, k) =~= s);
    } else {
        assert(s.drop_last().subrange(0, k) =~= s.subrange(0, k));
        lemma_snapshots_error(s.drop_last(), k);
    }
}

proof fn lemma_hunks_error(s: Seq<JsonV>, k: int)
    requires
        0 <= k <= s.len(),
        json_hunks(s.subrange(0, k)) is Err,
    ensures
        json_hunks(s) == json_hunks(s.subrange(0, k)),
    decreases s.len(),
{
    if k == s.len() {
        assert(s.subrange(0, k) =~= s);
    } else {
        assert(s.drop_last().subrange(0, k) =~= s.subrange(0, k));
        lemma_hunks_error(s.drop_last(), k);
    }
}

impl FileSnapshot {
    fn to_json(&self) -> (r: Json)
        ensures
            r@ == snapshot_json(self@),
    {
        let mut v = no_entries();
        put(&mut v, "path", text_json(self.path.as_str()));
        put(&mut v, "before", opt_json(&self.before));
        if self.opaque && self.before.is_none() {
            put(&mut v, "opaque", Json::Bool(true));
        }
        assert(entry_trees(v@) =~= snapshot_json(self@)->Object_0);
        object(v)
    }

    fn from_json(j: &Json) -> (r: Result<FileSnapshot, String>)
        ensures
            view_res(r) == json_snapshot(j@),
    {
        let keys = vec!["path", "before"];
        assert(views(keys@) =~= seq!["path"@, "before"@]);
        let from_array = match shape(j, &keys, 2) {
            Ok(o) => o,
            Err(e) => {
                return Err(e);
            },
        };
        let j = match &from_array {
            Some(o) => o,
            None => j,
        };
        let path = match read_text(j, "path") {
            Ok(s) => s,
            Err(e) => {
                return Err(e);
            },
        };
        match read_opt_text(j, "before") {
            Ok(before) => {
                let opaque = match j.get("opaque") {
                    Some(Json::Bool(b)) => *b,
                    _ => false,
                };
                Ok(FileSnapshot { path, before, opaque })
            },
            Err(e) => Err(e),
        }
    }
}

impl HunkPatch {
    fn to_json(&self) -> (r: Json)
        ensures
            r@ == hunk_json(self@),
    {
        let mut v = no_entries();
        put(&mut v, "path", text_json(self.path.as_str()));
        put(&mut v, "unified_diff", text_json(self.unified_diff.as_str()));
        assert(entry_trees(v@) =~= hunk_json(self@)->Object_0);
        object(v)
    }

    fn from_json(j: &Json) -> (r: Result<HunkPatch, String>)
        ensures
            view_res(r) == json_hunk(j@),
    {
        let keys = vec!["path", "unified_diff"];
        assert(views(keys@) =~= seq!["path"@, "unified_diff"@]);
        let from_array = match shape(j, &keys, 2) {
            Ok(o) => o,
            Err(e) => {
                return Err(e);
            },
        };
        let j = match &from_array {
            Some(o) => o,
            None => j,
        };
        let path = match read_text(j, "path") {
            Ok(s) => s,
            Err(e) => {
                return Err(e);
            },
        };
        match read_text(j, "unified_diff") {
            Ok(unified_diff) => Ok(HunkPatch { path, unified_diff }),
            Err(e) => Err(e),
        }
    }
}

fn read_snapshots(items: &Vec<Json>) -> (r: Result<Vec<FileSnapshot>, String>)
    ensures
        match r {
            Ok(v) => json_snapshots(trees(items@)) == Ok::<Seq<SnapshotV>, Seq<char>>(views(v@)),
            Err(e) => json_snapshots(trees(items@)) == Err::<Seq<SnapshotV>, Seq<char>>(e@),
        },
{
    let mut out: Vec<FileSnapshot> = Vec::new();
    let ghost all = trees(items@);
    let mut i: usize = 0;
    assert(all.subrange(0, 0) =~= Seq::<JsonV>::empty());
    assert(views(out@) =~= Seq::<SnapshotV>::empty());
    while i < items.len()
        invariant
            i <= items@.len(),
            all == trees(items@),
            json_snapshots(all.subrange(0, i as int)) == Ok::<Seq<SnapshotV>, Seq<char>>(
                views(out@),
            ),
        decreases items@.len() - i,
    {
        proof {
            let pre = all.subrange(0, i + 1);
            assert(pre.drop_last() =~= all.subrange(0, i as int));
            assert(pre.last() == items@[i as int]@);
        }
        match FileSnapshot::from_json(&items[i]) {
            Ok(x) => {
                let ghost known = views(out@);
                out.push(x);
                assert(views(out@) =~= known.push(x@));
            },
            Err(e) => {
                proof {
                    lemma_snapshots_error(all, i + 1);
                }
                return Err(e);
            },
        }
        i = i + 1;
    }
    assert(all.subrange(0, i as int) =~= all);
    Ok(out)
}

fn read_hunks(items: &Vec<Json>) -> (r: Result<Vec<HunkPatch>, String>)
    ensures
        match r {
            Ok(v) => json_hunks(trees(items@)) == Ok::<Seq<HunkV>, Seq<char>>(views(v@)),
            Err(e) => json_hunks(trees(items@)) == Err::<Seq<HunkV>, Seq<char>>(e@),
        },
{
    let mut out: Vec<HunkPatch> = Vec::new();
    let ghost all = trees(items@);
    let mut i: usize = 0;
    assert(all.subrange(0, 0) =~= Seq::<JsonV>::empty());
    assert(views(out@) =~= Seq::<HunkV>::empty());
    while i < items.len()
        invariant
            i <= items@.len(),
            all == trees(items@),
            json_hunks(all.subrange(0, i as int)) == Ok::<Seq<HunkV>, Seq<char>>(views(out@)),
        decreases items@.len() - i,
    {
        proof {
            let pre = all.subrange(0, i + 1);
            assert(pre.drop_last() =~= all.subrange(0, i as int));
            assert(pre.last() == items@[i as int]@);
        }
        match HunkPatch::from_json(&items[i]) {
            Ok(x) => {
                let ghost known = views(out@);
                out.push(x);
                assert(views(out@) =~= known.push(x@));
            },
            Err(e) => {
                proof {
                    lemma_hunks_error(all, i + 1);
                }
                return Err(e);
            },
        }
        i = i + 1;
    }
    assert(all.subrange(0, i as int) =~= all);
    Ok(out)
}

impl Checkpoint {
    /// Adds the entries of the checkpoint to an object.
    pub fn put_into(&self, v: &mut Vec<(String, Json)>)
        ensures
            entry_trees(final(v)@) == entry_trees(old(v)@) + checkpoint_entries(self@),
    {
        let ghost start = entry_trees(v@);
        let mut snapshots = no_items();
        let ghost s_all = self@.file_snapshots.map_values(|s: SnapshotV| snapshot_json(s));
        let mut i: usize = 0;
        assert(s_all.subrange(0, 0) =~= Seq::<JsonV>::empty());
        while i < self.file_snapshots.len()
            invariant
                i <= self.file_snapshots@.len(),
                s_all == self@.file_snapshots.map_values(|s: SnapshotV| snapshot_json(s)),
                trees(snapshots@) == s_all.subrange(0, i as int),
            decreases self.file_snapshots@.len() - i,
        {
            put_item(&mut snapshots, self.file_snapshots[i].to_json());
            assert(s_all.subrange(0, i + 1) =~= s_all.subrange(0, i as int).push(s_all[i as int]));
            i = i + 1;
        }
        assert(s_all.subrange(0, i as int) =~= s_all);
        let mut patches = no_items();
        let ghost h_all = self@.hunks.map_values(|h: HunkV| hunk_json(h));
        let mut k: usize = 0;
        assert(h_all.subrange(0, 0) =~= Seq::<JsonV>::empty());
        while k < self.hunks.len()
            invariant
                k <= self.hunks@.len(),
                h_all == self@.hunks.map_values(|h: HunkV| hunk_json(h)),
                trees(patches@) == h_all.subrange(0, k as int),
            decreases self.hunks@.len() - k,
        {
            put_item(&mut patches, self.hunks[k].to_json());
            assert(h_all.subrange(0, k + 1) =~= h_all.subrange(0, k as int).push(h_all[k as int]));
            k = k + 1;
        }
        assert(h_all.subrange(0, k as int) =~= h_all);
        put(v, "prompt_index", Json::Number(self.prompt_index as u64));
        put(v, "file_snapshots", array(snapshots));
        put(v, "hunks", array(patches));
        put(v, "git_head", opt_json(&self.git_head));
        assert(entry_trees(v@) =~= start + checkpoint_entries(self@));
    }

    /// Reads a checkpoint from JSON.
    pub fn from_json(j: &Json) -> (r: Result<Checkpoint, String>)
        ensures
            view_res(r) == json_checkpoint(j@),
    {
        let keys = vec!["prompt_index", "file_snapshots", "hunks", "git_head"];
        assert(views(keys@) =~= seq!["prompt_index"@, "file_snapshots"@, "hunks"@, "git_head"@]);
        let from_array = match shape(j, &keys, 4) {
            Ok(o) => o,
            Err(e) => {
                return Err(e);
            },
        };
        let j = match &from_array {
            Some(o) => o,
            None => j,
        };
        let prompt_index: u32 = match read_u32(j, "prompt_index") {
            Ok(n) => n,
            Err(e) => {
                return Err(e);
            },
        };
        let file_snapshots = match read_array(j, "file_snapshots") {
            Ok(items) => match read_snapshots(items) {
                Ok(v) => v,
                Err(e) => {
                    return Err(e);
                },
            },
            Err(e) => {
                return Err(e);
            },
        };
        let hunks = match read_array(j, "hunks") {
            Ok(items) => match read_hunks(items) {
                Ok(v) => v,
                Err(e) => {
                    return Err(e);
                },
            },
            Err(e) => {
                return Err(e);
            },
        };
        match read_opt_text(j, "git_head") {
            Ok(git_head) => Ok(Checkpoint { prompt_index, file_snapshots, hunks, git_head }),
            Err(e) => Err(e),
        }
    }
}

/// Snapshots that are written as JSON are read back.
pub proof fn lemma_snapshots_read_back(s: Seq<SnapshotV>)
    ensures
        json_snapshots(s.map_values(|x: SnapshotV| snapshot_json(x))) == Ok::<
            Seq<SnapshotV>,
            Seq<char>,
        >(s),
    decreases s.len(),
{
    let all = s.map_values(|x: SnapshotV| snapshot_json(x));
    if s.len() > 0 {
        lemma_snapshots_read_back(s.drop_last());
        assert(all.drop_last() =~= s.drop_last().map_values(|x: SnapshotV| snapshot_json(x)));
        reveal_with_fuel(crate::json::lookup, 4);
        reveal_strlit("path");
        reveal_strlit("before");
        reveal_strlit("opaque");
        assert("path"@.len() == 4 && "before"@.len() == 6 && "opaque"@.len() == 6);
        assert("opaque"@[0] == 'o' && "before"@[0] == 'b');
        assert(all.last() == snapshot_json(s.last()));
        assert(s.drop_last().push(s.last()) =~= s);
    } else {
        assert(s =~= Seq::<SnapshotV>::empty());
    }
}

/// Diffs that are written as JSON are read back.
pub proof fn lemma_hunks_read_back(s: Seq<HunkV>)
    ensures
        json_hunks(s.map_values(|x: HunkV| hunk_json(x))) == Ok::<Seq<HunkV>, Seq<char>>(s),
    decreases s.len(),
{
    let all = s.map_values(|x: HunkV| hunk_json(x));
    if s.len() > 0 {
        lemma_hunks_read_back(s.drop_last());
        assert(all.drop_last() =~= s.drop_last().map_values(|x: HunkV| hunk_json(x)));
        reveal_with_fuel(crate::json::lookup, 3);
        reveal_strlit("path");
        reveal_strlit("unified_diff");
        assert("path"@.len() == 4 && "unified_diff"@.len() == 12);
        assert(all.last() == hunk_json(s.last()));
        assert(s.drop_last().push(s.last()) =~= s);
    } else {
        assert(s =~= Seq::<HunkV>::empty());
    }
}

// ---------------------------------------------------------------------------
// What holds of looks, changes and plans
// ---------------------------------------------------------------------------
/// A look at a file finds nothing where the file is not there, its text where it
/// can be read as text, and else only that it is there.
pub proof fn law_looks_find_what_is_there(bytes: Seq<u8>)
    ensures
        found_of(false, None) == FoundV::Absent,
        found_of(false, Some(bytes)) == FoundV::Absent,
        valid_utf8(bytes) ==> found_of(true, Some(bytes)) == FoundV::Text(decode_utf8(bytes)),
        !valid_utf8(bytes) ==> found_of(true, Some(bytes)) == FoundV::Opaque,
        found_of(true, None) == FoundV::Opaque,
{
}

/// The first look at a file in a turn is noted, with what it found; later looks
/// at the same place change nothing.
pub proof fn law_first_looks_are_noted(
    s: Seq<SnapshotV>,
    path: Seq<char>,
    found: FoundV,
    later: FoundV,
)
    ensures
        (forall|i: int| 0 <= i < s.len() ==> target_of((#[trigger] s[i]).path) != target_of(path))
            ==> noted(s, path, found) == s.push(SnapshotV { path, before: found }),
        noted(noted(s, path, found), path, later) == noted(s, path, found),
        s.is_prefix_of(noted(s, path, found)),
        touched(noted(s, path, found), path),
{
    let n = noted(s, path, found);
    if !touched(s, path) {
        assert(n[n.len() - 1].path == path);
    }
}

proof fn lemma_hunks_of_first(
    s: Seq<SnapshotV>,
    after: Seq<Option<Seq<char>>>,
    more: Option<Seq<char>>,
)
    requires
        s.len() <= after.len(),
    ensures
        hunks_of(s, after.push(more)) == hunks_of(s, after),
    decreases s.len(),
{
    if s.len() > 0 {
        lemma_hunks_of_first(s.drop_last(), after, more);
        assert(after.push(more)[s.len() - 1] == after[s.len() - 1]);
    }
}

/// A file whose text has changed gives a hunk: its path, and the difference from
/// the text before to the text after, between the path below `a/` and the path
/// below `b/`. A file that is not there, or is no text, counts as empty, and a file
/// that has not changed gives none. The hunks stand in the order of the files.
pub proof fn law_changed_files_give_hunks(
    s: Seq<SnapshotV>,
    after: Seq<Option<Seq<char>>>,
    path: Seq<char>,
    before: FoundV,
    now: Option<Seq<char>>,
)
    requires
        s.len() == after.len(),
    ensures
        ({
            let was = match before {
                FoundV::Text(t) => t,
                _ => Seq::<char>::empty(),
            };
            let is = match now {
                Some(t) => t,
                None => Seq::<char>::empty(),
            };
            let all = hunks_of(s.push(SnapshotV { path, before }), after.push(now));
            &&& was == is ==> all == hunks_of(s, after)
            &&& was != is ==> all == hunks_of(s, after).push(
                HunkV {
                    path,
                    unified_diff: diff_text(was, is, "a/"@ + path, "b/"@ + path),
                },
            )
        }),
        hunks_of(seq![], seq![]) == Seq::<HunkV>::empty(),
{
    let x = SnapshotV { path, before };
    assert(s.push(x).drop_last() =~= s);
    lemma_hunks_of_first(s, after, now);
    assert(s.push(x)[s.len() as int] == x);
    assert(after.push(now)[s.len() as int] == now);
}

/// The plan undoes the last turn first, and then the turns before it. For each
/// file of a turn, in order: a file that held text is written with that text, a
/// file that was not there is removed, and one that was no text is left alone.
pub proof fn law_plan_undoes_each_file(cps: Seq<CheckpointV>, cp: CheckpointV)
    ensures
        ({
            let plan = restore_plan(cps.push(cp));
            let n = cp.file_snapshots.len() as int;
            &&& plan.len() == n + restore_plan(cps).len()
            &&& plan.subrange(n, plan.len() as int) == restore_plan(cps)
            &&& forall|i: int|
                0 <= i < n ==> (#[trigger] plan[i]) == (match cp.file_snapshots[i].before {
                    FoundV::Text(t) => RestoreV::Write {
                        path: cp.file_snapshots[i].path,
                        content: t,
                    },
                    FoundV::Absent => RestoreV::Remove { path: cp.file_snapshots[i].path },
                    FoundV::Opaque => RestoreV::Keep { path: cp.file_snapshots[i].path },
                })
        }),
        restore_plan(seq![]) == Seq::<RestoreV>::empty(),
{
    assert(cps.push(cp).drop_last() =~= cps);
    let plan = restore_plan(cps.push(cp));
    let n = cp.file_snapshots.len() as int;
    assert(plan.subrange(n, plan.len() as int) =~= restore_plan(cps));
}

/// A checkpoint is written with the number of its turn, all its snapshots and
/// hunks in order, and the commit, where there is one. A snapshot is written with
/// its path and the text from before, and with a mark where it was no text.
pub proof fn law_checkpoints_are_written(cp: CheckpointV, s: SnapshotV, h: HunkV)
    ensures
        ({
            let j = JsonV::Object(checkpoint_entries(cp));
            &&& j.get("prompt_index"@) == Some(JsonV::Number(cp.prompt_index as u64))
            &&& j.get("file_snapshots"@) matches Some(JsonV::Array(items)) && items.len()
                == cp.file_snapshots.len() && forall|i: int|
                0 <= i < items.len() ==> #[trigger] items[i] == snapshot_json(cp.file_snapshots[i])
            &&& j.get("hunks"@) matches Some(JsonV::Array(items)) && items.len() == cp.hunks.len()
                && forall|i: int|
                0 <= i < items.len() ==> #[trigger] items[i] == hunk_json(cp.hunks[i])
            &&& j.get("git_head"@) == Some(
                match cp.git_head {
                    Some(t) => JsonV::Text(t),
                    None => JsonV::Null,
                },
            )
        }),
        snapshot_json(s).get("path"@) == Some(JsonV::Text(s.path)),
        snapshot_json(s).get("before"@) == Some(
            match s.before {
                FoundV::Text(t) => JsonV::Text(t),
                _ => JsonV::Null,
            },
        ),
        s.before is Opaque ==> snapshot_json(s).get("opaque"@) == Some(JsonV::Bool(true)),
        !(s.before is Opaque) ==> snapshot_json(s).get("opaque"@) is None,
        hunk_json(h).get("path"@) == Some(JsonV::Text(h.path)),
        hunk_json(h).get("unified_diff"@) == Some(JsonV::Text(h.unified_diff)),
{
    reveal_strlit("prompt_index");
    reveal_strlit("file_snapshots");
    reveal_strlit("hunks");
    reveal_strlit("git_head");
    reveal_strlit("path");
    reveal_strlit("before");
    reveal_strlit("opaque");
    reveal_strlit("unified_diff");
    assert("prompt_index"@.len() == 12 && "file_snapshots"@.len() == 14 && "hunks"@.len() == 5
        && "git_head"@.len() == 8);
    assert("path"@.len() == 4 && "before"@.len() == 6 && "opaque"@.len() == 6
        && "unified_diff"@.len() == 12);
    assert("before"@[0] != "opaque"@[0]);
    let entries = checkpoint_entries(cp);
    lemma_entry(entries, 0);
    lemma_entry(entries, 1);
    lemma_entry(entries, 2);
    lemma_entry(entries, 3);
    let look = snapshot_json(s)->Object_0;
    lemma_entry(look, 0);
    lemma_entry(look, 1);
    if s.before is Opaque {
        lemma_entry(look, 2);
    } else {
        law_entries_are_found_by_key(snapshot_json(s), "opaque"@, 0);
    }
    let patch = hunk_json(h)->Object_0;
    lemma_entry(patch, 0);
    lemma_entry(patch, 1);
}

/// A snapshot is read from its path and the text from before; without a text the
/// mark tells whether there was a file. A hunk is read from its path and its
/// difference.
pub proof fn law_snapshots_are_read(j: JsonV, path: Seq<char>, text: Seq<char>)
    ensures
        stands(j, seq!["path"@, "before"@], 2, 0, JsonV::Text(path)) ==> {
            &&& stands(j, seq!["path"@, "before"@], 2, 1, JsonV::Text(text)) ==> json_snapshot(j)
                == Ok::<SnapshotV, Seq<char>>(SnapshotV { path, before: FoundV::Text(text) })
            &&& is_blank(j, seq!["path"@, "before"@], 2, 1) && j is Object && j.get("opaque"@)
                == Some(JsonV::Bool(true)) ==> json_snapshot(j) == Ok::<SnapshotV, Seq<char>>(
                SnapshotV { path, before: FoundV::Opaque },
            )
            &&& is_blank(j, seq!["path"@, "before"@], 2, 1) && !(j is Object && j.get("opaque"@)
                == Some(JsonV::Bool(true))) ==> json_snapshot(j) == Ok::<SnapshotV, Seq<char>>(
                SnapshotV { path, before: FoundV::Absent },
            )
        },
        stands(j, seq!["path"@, "unified_diff"@], 2, 0, JsonV::Text(path)) && stands(
            j,
            seq!["path"@, "unified_diff"@],
            2,
            1,
            JsonV::Text(text),
        ) ==> json_hunk(j) == Ok::<HunkV, Seq<char>>(HunkV { path, unified_diff: text }),
{
    reveal_strlit("path");
    reveal_strlit("before");
    reveal_strlit("opaque");
    reveal_strlit("unified_diff");
    assert("path"@.len() == 4 && "before"@.len() == 6 && "opaque"@.len() == 6
        && "unified_diff"@.len() == 12);
    assert("before"@[0] != "opaque"@[0]);
    let keys = seq!["path"@, "before"@];
    lemma_stands(j, keys, 2, 0, JsonV::Text(path));
    lemma_stands(j, keys, 2, 1, JsonV::Text(text));
    let others = seq!["path"@, "unified_diff"@];
    lemma_stands(j, others, 2, 0, JsonV::Text(path));
    lemma_stands(j, others, 2, 1, JsonV::Text(text));
    match j {
        JsonV::Array(items) => {
            if items.len() == 2 {
                law_entries_are_found_by_key(shaped(j, keys, 2)->Ok_0, "opaque"@, 0);
            }
        },
        _ => {},
    }
}

/// Snapshots and hunks are read one after the other, and one that cannot be read
/// is an error.
pub proof fn law_snapshots_are_read_in_order(s: Seq<JsonV>, j: JsonV)
    ensures
        json_snapshots(seq![]) == Ok::<Seq<SnapshotV>, Seq<char>>(seq![]),
        json_hunks(seq![]) == Ok::<Seq<HunkV>, Seq<char>>(seq![]),
        match (json_snapshots(s), json_snapshot(j)) {
            (Ok(done), Ok(x)) => json_snapshots(s.push(j)) == Ok::<Seq<SnapshotV>, Seq<char>>(
                done.push(x),
            ),
            (Ok(_), Err(e)) => json_snapshots(s.push(j)) == Err::<Seq<SnapshotV>, Seq<char>>(e),
            (Err(e), _) => json_snapshots(s.push(j)) == Err::<Seq<SnapshotV>, Seq<char>>(e),
        },
        match (json_hunks(s), json_hunk(j)) {
            (Ok(done), Ok(x)) => json_hunks(s.push(j)) == Ok::<Seq<HunkV>, Seq<char>>(done.push(x)),
            (Ok(_), Err(e)) => json_hunks(s.push(j)) == Err::<Seq<HunkV>, Seq<char>>(e),
            (Err(e), _) => json_hunks(s.push(j)) == Err::<Seq<HunkV>, Seq<char>>(e),
        },
{
    assert(s.push(j).drop_last() =~= s);
}

/// A checkpoint is read from its turn, its snapshots, its hunks and the commit,
/// which may be missing.
pub proof fn law_checkpoints_are_read(
    j: JsonV,
    cp: CheckpointV,
    snapshots: Seq<JsonV>,
    hunks: Seq<JsonV>,
)
    requires
        ({
            let keys = seq!["prompt_index"@, "file_snapshots"@, "hunks"@, "git_head"@];
            &&& stands(j, keys, 4, 0, JsonV::Number(cp.prompt_index as u64))
            &&& stands(j, keys, 4, 1, JsonV::Array(snapshots))
            &&& json_snapshots(snapshots) == Ok::<Seq<SnapshotV>, Seq<char>>(cp.file_snapshots)
            &&& stands(j, keys, 4, 2, JsonV::Array(hunks))
            &&& json_hunks(hunks) == Ok::<Seq<HunkV>, Seq<char>>(cp.hunks)
            &&& match cp.git_head {
                Some(s) => stands(j, keys, 4, 3, JsonV::Text(s)),
                None => is_blank(j, keys, 4, 3),
            }
        }),
    ensures
        json_checkpoint(j) == Ok::<CheckpointV, Seq<char>>(cp),
{
    reveal_strlit("prompt_index");
    reveal_strlit("file_snapshots");
    reveal_strlit("hunks");
    reveal_strlit("git_head");
    assert("prompt_index"@.len() == 12 && "file_snapshots"@.len() == 14 && "hunks"@.len() == 5
        && "git_head"@.len() == 8);
    let keys = seq!["prompt_index"@, "file_snapshots"@, "hunks"@, "git_head"@];
    lemma_stands(j, keys, 4, 0, JsonV::Number(cp.prompt_index as u64));
    lemma_stands(j, keys, 4, 1, JsonV::Array(snapshots));
    lemma_stands(j, keys, 4, 2, JsonV::Array(hunks));
    lemma_stands(j, keys, 4, 3, JsonV::Text(or_empty(cp.git_head)));
}

} // verus!
