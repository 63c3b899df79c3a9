//! Tools: what the model can call.
//!
//! A tool works in steps. Where it needs something done outside, it says so,
//! and goes on from what came of it.
use crate::errors::{ToolError, ToolErrorV};
use crate::json::{entry_trees, lemma_entry, trees, writable, Json, JsonV};
use crate::text::{same, view_opt, view_res};
use crate::wire::{array, no_entries, no_items, object, put, put_item, text_json};
use vstd::prelude::*;

pub mod bash;
pub mod read_file;
pub mod write_file;

use bash::Bash;
use read_file::ReadFile;
use write_file::WriteFile;

verus! {

// ---------------------------------------------------------------------------
// Steps
// ---------------------------------------------------------------------------
#[allow(inconsistent_fields)]
pub ghost enum OperationV {
    Run { command: Seq<char>, timeout_secs: u64 },
    Read { path: Seq<char> },
    FindParent { path: Seq<char> },
    Write { path: Seq<char>, content: Seq<char> },
}

/// Something that a tool needs done.
#[derive(Debug)]
#[allow(inconsistent_fields)]
pub enum Operation {
    /// Run `bash -c` with the command, for at most so many seconds.
    Run { command: String, timeout_secs: u64 },
    /// Read the file.
    Read { path: String },
    /// Find the directory that the file stands in.
    FindParent { path: String },
    /// Write the content to the file.
    Write { path: String, content: String },
}

impl View for Operation {
    type V = OperationV;

    open spec fn view(&self) -> OperationV {
        match self {
            Operation::Run { command, timeout_secs } => OperationV::Run {
                command: command@,
                timeout_secs: *timeout_secs,
            },
            Operation::Read { path } => OperationV::Read { path: path@ },
            Operation::FindParent { path } => OperationV::FindParent { path: path@ },
            Operation::Write { path, content } => OperationV::Write {
                path: path@,
                content: content@,
            },
        }
    }
}

pub ghost enum OutcomeV {
    Ran { stdout: Seq<u8>, stderr: Seq<u8>, success: bool, code: Option<i32> },
    TimedOut,
    StartFailed(Seq<char>),
    Bytes(Seq<u8>),
    ReadFailed(Seq<char>),
    Parent { dir: Option<Seq<char>>, exists: bool },
    Written,
    WriteFailed(Seq<char>),
}

/// What came of an operation; a failure is given by its message.
#[derive(Debug)]
pub enum Outcome {
    /// The command ended: what it wrote, whether it succeeded, and its exit
    /// code where it has one.
    Ran { stdout: Vec<u8>, stderr: Vec<u8>, success: bool, code: Option<i32> },
    /// The command did not end in time.
    TimedOut,
    /// The command could not be started.
    StartFailed(String),
    /// What the file holds.
    Bytes(Vec<u8>),
    ReadFailed(String),
    /// The directory, which is empty for a bare file name, and whether it
    /// exists; a root stands in none.
    Parent { dir: Option<String>, exists: bool },
    Written,
    WriteFailed(String),
}

impl View for Outcome {
    type V = OutcomeV;

    open spec fn view(&self) -> OutcomeV {
        match self {
            Outcome::Ran { stdout, stderr, success, code } => OutcomeV::Ran {
                stdout: stdout@,
                stderr: stderr@,
                success: *success,
                code: *code,
            },
            Outcome::TimedOut => OutcomeV::TimedOut,
            Outcome::StartFailed(e) => OutcomeV::StartFailed(e@),
            Outcome::Bytes(b) => OutcomeV::Bytes(b@),
            Outcome::ReadFailed(e) => OutcomeV::ReadFailed(e@),
            Outcome::Parent { dir, exists } => OutcomeV::Parent {
                dir: view_opt(*dir),
                exists: *exists,
            },
            Outcome::Written => OutcomeV::Written,
            Outcome::WriteFailed(e) => OutcomeV::WriteFailed(e@),
        }
    }
}

pub ghost enum StepV {
    Done(Result<Seq<char>, ToolErrorV>),
    Do(OperationV),
}

/// How far a tool has come.
#[derive(Debug)]
pub enum Step {
    /// The tool is done.
    Done(Result<String, ToolError>),
    /// The tool needs something done.
    Do(Operation),
}

impl View for Step {
    type V = StepV;

    open spec fn view(&self) -> StepV {
        match self {
            Step::Done(r) => StepV::Done(view_res(*r)),
            Step::Do(op) => StepV::Do(op@),
        }
    }
}

/// The tool failed with a message.
pub open spec fn failed(message: Seq<char>) -> StepV {
    StepV::Done(Err(ToolErrorV::Failed(message)))
}

/// The tool could not make sense of its arguments.
pub open spec fn bad_args(message: Seq<char>) -> StepV {
    StepV::Done(Err(ToolErrorV::BadArgs(message)))
}

/// The tool got the outcome of an operation that it did not ask for.
pub open spec fn misplaced() -> StepV {
    failed("unexpected outcome"@)
}

/// The step of a tool that failed with a message.
pub fn fail(message: String) -> (r: Step)
    ensures
        r@ == failed(message@),
{
    Step::Done(Err(ToolError::Failed(message)))
}

/// The step of a tool that could not make sense of its arguments.
pub fn refuse(message: String) -> (r: Step)
    ensures
        r@ == bad_args(message@),
{
    Step::Done(Err(ToolError::BadArgs(message)))
}

/// The step of a tool that got the outcome of another operation.
pub fn misplace() -> (r: Step)
    ensures
        r@ == misplaced(),
{
    fail("unexpected outcome".to_owned())
}

// ---------------------------------------------------------------------------
// Tools
// ---------------------------------------------------------------------------
/// A tool. Its arguments are the JSON text that the model wrote. An
/// implementation says in the spec functions what its methods give. Their bodies
/// here stand in where an implementation says nothing: some value, not known
/// which, that is the same for all tools of that type.
pub trait Tool {
    /// The name that the model calls the tool by.
    open spec fn title(&self) -> Seq<char> {
        arbitrary()
    }

    /// What the model is told of the tool.
    open spec fn description(&self) -> JsonV {
        arbitrary()
    }

    /// The tool may only run with the permission of the user.
    open spec fn guarded(&self) -> bool {
        arbitrary()
    }

    /// The file that a call writes, where it writes one.
    open spec fn target(&self, arguments: Seq<char>) -> Option<Seq<char>> {
        arbitrary()
    }

    /// The first step of a call.
    open spec fn first_step(&self, arguments: Seq<char>) -> StepV {
        arbitrary()
    }

    /// The step after an operation of a call.
    open spec fn next_step(&self, arguments: Seq<char>, outcome: OutcomeV) -> StepV {
        arbitrary()
    }

    /// The name that the model calls the tool by.
    fn name(&self) -> (r: &'static str)
        ensures
            r@ == self.title(),
    ;

    /// What the model is told of the tool.
    fn schema(&self) -> (r: Json)
        ensures
            r@ == self.description(),
    ;

    /// Whether the tool may only run with the permission of the user.
    fn requires_permission(&self) -> (r: bool)
        ensures
            r == self.guarded(),
    ;

    /// The file that a call writes, where it writes one.
    fn writes_path(&self, arguments: &str) -> (r: Option<String>)
        ensures
            view_opt(r) == self.target(arguments@),
    ;

    /// The first step of a call.
    fn execute(&self, arguments: &str) -> (r: Step)
        ensures
            r@ == self.first_step(arguments@),
    ;

    /// The step after an operation of a call, given what came of it.
    fn resume(&self, arguments: &str, outcome: Outcome) -> (r: Step)
        ensures
            r@ == self.next_step(arguments@, outcome@),
    ;
}

// ---------------------------------------------------------------------------
// Schemas
// ---------------------------------------------------------------------------
/// What the model is told of a tool: its name, what it does, and its
/// arguments.
pub open spec fn function_json(
    name: Seq<char>,
    description: Seq<char>,
    properties: JsonV,
    required: Seq<JsonV>,
) -> JsonV {
    JsonV::Object(
        seq![
            ("type"@, JsonV::Text("function"@)),
            (
                "function"@,
                JsonV::Object(
                    seq![
                        ("name"@, JsonV::Text(name)),
                        ("description"@, JsonV::Text(description)),
                        (
                            "parameters"@,
                            JsonV::Object(
                                seq![
                                    ("type"@, JsonV::Text("object"@)),
                                    ("properties"@, properties),
                                    ("required"@, JsonV::Array(required)),
                                ],
                            ),
                        ),
                    ],
                ),
            ),
        ],
    )
}

/// An argument that is a string.
pub open spec fn string_json() -> JsonV {
    JsonV::Object(seq![("type"@, JsonV::Text("string"@))])
}

/// What the model is told of a tool.
pub fn function_schema(
    name: &str,
    description: &str,
    properties: Json,
    required: Vec<Json>,
) -> (r: Json)
    ensures
        r@ == function_json(name@, description@, properties@, trees(required@)),
{
    let ghost all = function_json(name@, description@, properties@, trees(required@))->Object_0;
    let ghost f_all = all[1].1->Object_0;
    let ghost p_all = f_all[2].1->Object_0;
    let mut p = no_entries();
    put(&mut p, "type", text_json("object"));
    put(&mut p, "properties", properties);
    put(&mut p, "required", array(required));
    assert(entry_trees(p@) =~= p_all);
    let mut f = no_entries();
    put(&mut f, "name", text_json(name));
    put(&mut f, "description", text_json(description));
    put(&mut f, "parameters", object(p));
    assert(entry_trees(f@) =~= f_all);
    let mut v = no_entries();
    put(&mut v, "type", text_json("function"));
    put(&mut v, "function", object(f));
    assert(entry_trees(v@) =~= all);
    object(v)
}

/// An argument that is a string.
pub fn string_schema() -> (r: Json)
    ensures
        r@ == string_json(),
{
    let mut v = no_entries();
    put(&mut v, "type", text_json("string"));
    assert(entry_trees(v@) =~= string_json()->Object_0);
    object(v)
}

/// What the model is told of a tool can be written where what it is told of
/// the arguments can.
pub proof fn lemma_function_writable(
    name: Seq<char>,
    description: Seq<char>,
    properties: JsonV,
    required: Seq<JsonV>,
)
    requires
        writable(properties),
        forall|i: int| 0 <= i < required.len() ==> writable(#[trigger] required[i]),
    ensures
        writable(function_json(name, description, properties, required)),
{
    reveal_strlit("type");
    reveal_strlit("function");
    reveal_strlit("name");
    reveal_strlit("description");
    reveal_strlit("parameters");
    reveal_strlit("properties");
    reveal_strlit("required");
    assert("type"@.len() == 4 && "function"@.len() == 8 && "name"@.len() == 4
        && "description"@.len() == 11 && "parameters"@.len() == 10 && "properties"@.len() == 10
        && "required"@.len() == 8);
    let all = function_json(name, description, properties, required)->Object_0;
    let f = all[1].1->Object_0;
    let p = f[2].1->Object_0;
    crate::json::lemma_writable_array(required);
    crate::json::lemma_writable_object(p);
    crate::json::lemma_writable_object(f);
    crate::json::lemma_writable_object(all);
}

// ---------------------------------------------------------------------------
// The registry
// ---------------------------------------------------------------------------
/// The tools that the model can call, by their names.
pub struct Registry<T: Tool> {
    pub tools: Vec<T>,
}

/// No two tools have the same name.
pub open spec fn distinct_titles<T: Tool>(s: Seq<T>) -> bool {
    forall|i: int, j: int|
        0 <= i < j < s.len() ==> (#[trigger] s[i]).title() != (#[trigger] s[j]).title()
}

/// The position of the tool with a name.
pub open spec fn position<T: Tool>(s: Seq<T>, name: Seq<char>) -> Option<int> {
    if exists|i: int| 0 <= i < s.len() && (#[trigger] s[i]).title() == name {
        Some(choose|i: int| 0 <= i < s.len() && (#[trigger] s[i]).title() == name)
    } else {
        None
    }
}

/// The tool with a name.
pub open spec fn named<T: Tool>(s: Seq<T>, name: Seq<char>) -> Option<T> {
    match position(s, name) {
        Some(i) => Some(s[i]),
        None => None,
    }
}

/// The tools with one more, which takes the place of the one with its name.
pub open spec fn registered<T: Tool>(s: Seq<T>, tool: T) -> Seq<T> {
    match position(s, tool.title()) {
        Some(i) => s.update(i, tool),
        None => s.push(tool),
    }
}

proof fn lemma_position<T: Tool>(s: Seq<T>, i: int)
    requires
        distinct_titles(s),
        0 <= i < s.len(),
    ensures
        position(s, s[i].title()) == Some(i),
{
    let name = s[i].title();
    assert(exists|k: int| 0 <= k < s.len() && (#[trigger] s[k]).title() == name);
    let j = position(s, name)->0;
    assert(0 <= j < s.len() && s[j].title() == name);
    if i < j {
        assert(s[i].title() != s[j].title());
    }
    if j < i {
        assert(s[j].title() != s[i].title());
    }
}

impl<T: Tool> Registry<T> {
    /// No two tools have the same name.
    pub open spec fn wf(&self) -> bool {
        distinct_titles(self.tools@)
    }

    /// A registry without tools.
    pub fn new() -> (r: Registry<T>)
        ensures
            r.wf(),
            r.tools@ == Seq::<T>::empty(),
    {
        Registry { tools: Vec::new() }
    }

    fn find(&self, name: &str) -> (r: Option<usize>)
        requires
            self.wf(),
        ensures
            match r {
                Some(i) => i < self.tools@.len() && position(self.tools@, name@) == Some(i as int),
                None => position(self.tools@, name@) is None,
            },
    {
        let mut i: usize = 0;
        while i < self.tools.len()
            invariant
                self.wf(),
                i <= self.tools@.len(),
                forall|j: int| 0 <= j < i ==> (#[trigger] self.tools@[j]).title() != name@,
            decreases self.tools@.len() - i,
        {
            if same(self.tools[i].name(), name) {
                proof {
                    lemma_position(self.tools@, i as int);
                }
                return Some(i);
            }
            i = i + 1;
        }
        None
    }

    /// Adds a tool, which takes the place of the one with its name.
    pub fn register(&mut self, tool: T)
        requires
            old(self).wf(),
        ensures
            final(self).wf(),
            final(self).tools@ == registered(old(self).tools@, tool),
    {
        match self.find(tool.name()) {
            Some(i) => {
                self.tools.set(i, tool);
            },
            None => {
                self.tools.push(tool);
            },
        }
    }

    /// The tool with a name.
    pub fn get(&self, name: &str) -> (r: Option<&T>)
        requires
            self.wf(),
        ensures
            match r {
                Some(t) => named(self.tools@, name@) == Some(*t),
                None => named(self.tools@, name@) is None,
            },
    {
        match self.find(name) {
            Some(i) => Some(&self.tools[i]),
            None => None,
        }
    }

    /// What the model is told of the tools, in the order of the registry.
    pub fn schemas(&self) -> (r: Vec<Json>)
        ensures
            trees(r@) == self.tools@.map_values(|t: T| t.description()),
    {
        let mut out = no_items();
        let ghost all = self.tools@.map_values(|t: T| t.description());
        let mut i: usize = 0;
        assert(all.subrange(0, 0) =~= Seq::<JsonV>::empty());
        while i < self.tools.len()
            invariant
                i <= self.tools@.len(),
                all == self.tools@.map_values(|t: T| t.description()),
                trees(out@) == all.subrange(0, i as int),
            decreases self.tools@.len() - i,
        {
            put_item(&mut out, self.tools[i].schema());
            assert(all.subrange(0, i + 1) =~= all.subrange(0, i as int).push(all[i as int]));
            i = i + 1;
        }
        assert(all.subrange(0, i as int) =~= all);
        out
    }
}

impl<T: Tool> Default for Registry<T> {
    fn default() -> (r: Registry<T>)
        ensures
            r.wf(),
            r.tools@ == Seq::<T>::empty(),
    {
        Registry::new()
    }
}

/// A tool is found by its own name, and by no other; where no tool has the name,
/// none is found.
pub proof fn law_tools_are_found_by_name<T: Tool>(s: Seq<T>, name: Seq<char>, i: int)
    requires
        distinct_titles(s),
    ensures
        0 <= i < s.len() && s[i].title() == name ==> named(s, name) == Some(s[i]),
        (forall|k: int| 0 <= k < s.len() ==> (#[trigger] s[k]).title() != name) ==> named(
            s,
            name,
        ) is None,
        named(s, name) matches Some(t) ==> s.contains(t) && t.title() == name,
{
    if 0 <= i < s.len() && s[i].title() == name {
        let k = choose|k: int| 0 <= k < s.len() && (#[trigger] s[k]).title() == name;
        assert(k == i);
    }
}

/// Registering a tool under a new name puts it behind the others; under a name
/// that is taken it takes the place of the tool with that name. Every other tool
/// stays where it was.
pub proof fn law_registering_keeps_the_others<T: Tool>(s: Seq<T>, tool: T)
    requires
        distinct_titles(s),
    ensures
        distinct_titles(registered(s, tool)),
        (forall|k: int| 0 <= k < s.len() ==> (#[trigger] s[k]).title() != tool.title())
            ==> registered(s, tool) == s.push(tool),
        forall|i: int|
            0 <= i < s.len() ==> (#[trigger] registered(s, tool)[i]) == (if s[i].title()
                == tool.title() {
                tool
            } else {
                s[i]
            }),
        (exists|k: int| 0 <= k < s.len() && (#[trigger] s[k]).title() == tool.title())
            ==> registered(s, tool).len() == s.len(),
{
    let r = registered(s, tool);
    assert forall|i: int, j: int| 0 <= i < j < r.len() implies (#[trigger] r[i]).title() != (
    #[trigger] r[j]).title() by {
        if j < s.len() {
            assert(s[i].title() != s[j].title());
        }
    }
}

/// A tool that has been registered is found under its name, and every tool
/// under another name is found as before.
pub proof fn law_registered_tool_is_found<T: Tool>(s: Seq<T>, tool: T, name: Seq<char>)
    requires
        distinct_titles(s),
    ensures
        named(registered(s, tool), tool.title()) == Some(tool),
        name != tool.title() ==> named(registered(s, tool), name) == named(s, name),
{
    let after = registered(s, tool);
    let i = match position(s, tool.title()) {
        Some(i) => i,
        None => s.len() as int,
    };
    assert(after[i] == tool);
    assert(distinct_titles(after)) by {
        assert forall|a: int, b: int| 0 <= a < b < after.len() implies (
        #[trigger] after[a]).title() != (#[trigger] after[b]).title() by {
            if a != i && b != i {
                assert(after[a] == s[a] && after[b] == s[b]);
            } else if a == i && b < s.len() {
                assert(after[b] == s[b]);
            } else if b == i {
                assert(after[a] == s[a]);
            }
        }
    }
    lemma_position(after, i);
    if name != tool.title() {
        if position(s, name) is Some {
            let k = position(s, name)->0;
            assert(s[k].title() == name);
            assert(after[k] == s[k]);
            lemma_position(after, k);
        } else if position(after, name) is Some {
            let k = position(after, name)->0;
            assert(after[k].title() == name);
            assert(k != i);
            assert(s[k] == after[k]);
        }
    }
}

// ---------------------------------------------------------------------------
// The tools of the agent
// ---------------------------------------------------------------------------
/// A tool that comes with the agent.
#[derive(Debug)]
pub enum BuiltinTool {
    Bash(Bash),
    ReadFile(ReadFile),
    WriteFile(WriteFile),
}

impl Tool for BuiltinTool {
    open spec fn title(&self) -> Seq<char> {
        match self {
            BuiltinTool::Bash(t) => t.title(),
            BuiltinTool::ReadFile(t) => t.title(),
            BuiltinTool::WriteFile(t) => t.title(),
        }
    }

    open spec fn description(&self) -> JsonV {
        match self {
            BuiltinTool::Bash(t) => t.description(),
            BuiltinTool::ReadFile(t) => t.description(),
            BuiltinTool::WriteFile(t) => t.description(),
        }
    }

    open spec fn guarded(&self) -> bool {
        match self {
            BuiltinTool::Bash(t) => t.guarded(),
            BuiltinTool::ReadFile(t) => t.guarded(),
            BuiltinTool::WriteFile(t) => t.guarded(),
        }
    }

    open spec fn target(&self, arguments: Seq<char>) -> Option<Seq<char>> {
        match self {
            BuiltinTool::Bash(t) => t.target(arguments),
            BuiltinTool::ReadFile(t) => t.target(arguments),
            BuiltinTool::WriteFile(t) => t.target(arguments),
        }
    }

    open spec fn first_step(&self, arguments: Seq<char>) -> StepV {
        match self {
            BuiltinTool::Bash(t) => t.first_step(arguments),
            BuiltinTool::ReadFile(t) => t.first_step(arguments),
            BuiltinTool::WriteFile(t) => t.first_step(arguments),
        }
    }

    open spec fn next_step(&self, arguments: Seq<char>, outcome: OutcomeV) -> StepV {
        match self {
            BuiltinTool::Bash(t) => t.next_step(arguments, outcome),
            BuiltinTool::ReadFile(t) => t.next_step(arguments, outcome),
            BuiltinTool::WriteFile(t) => t.next_step(arguments, outcome),
        }
    }

    fn name(&self) -> (r: &'static str) {
        match self {
            BuiltinTool::Bash(t) => t.name(),
            BuiltinTool::ReadFile(t) => t.name(),
            BuiltinTool::WriteFile(t) => t.name(),
        }
    }

    fn schema(&self) -> (r: Json) {
        match self {
            BuiltinTool::Bash(t) => t.schema(),
            BuiltinTool::ReadFile(t) => t.schema(),
            BuiltinTool::WriteFile(t) => t.schema(),
        }
    }

    fn requires_permission(&self) -> (r: bool) {
        match self {
            BuiltinTool::Bash(t) => t.requires_permission(),
            BuiltinTool::ReadFile(t) => t.requires_permission(),
            BuiltinTool::WriteFile(t) => t.requires_permission(),
        }
    }

    fn writes_path(&self, arguments: &str) -> (r: Option<String>) {
        match self {
            BuiltinTool::Bash(t) => t.writes_path(arguments),
            BuiltinTool::ReadFile(t) => t.writes_path(arguments),
            BuiltinTool::WriteFile(t) => t.writes_path(arguments),
        }
    }

    fn execute(&self, arguments: &str) -> (r: Step) {
        match self {
            BuiltinTool::Bash(t) => t.execute(arguments),
            BuiltinTool::ReadFile(t) => t.execute(arguments),
            BuiltinTool::WriteFile(t) => t.execute(arguments),
        }
    }

    fn resume(&self, arguments: &str, outcome: Outcome) -> (r: Step) {
        match self {
            BuiltinTool::Bash(t) => t.resume(arguments, outcome),
            BuiltinTool::ReadFile(t) => t.resume(arguments, outcome),
            BuiltinTool::WriteFile(t) => t.resume(arguments, outcome),
        }
    }
}

/// The operation is one that changes something outside, or may.
pub open spec fn changes_something(s: StepV) -> bool {
    s matches StepV::Do(op) && (op is Run || op is Write)
}

/// Every tool that comes with the agent asks for permission before it changes
/// anything, and writes no file but the one that it names beforehand.
pub proof fn law_builtin_tools_are_open(
    t: BuiltinTool,
    arguments: Seq<char>,
    outcome: OutcomeV,
)
    ensures
        changes_something(t.first_step(arguments)) ==> t.guarded(),
        changes_something(t.next_step(arguments, outcome)) ==> t.guarded(),
        t.first_step(arguments) matches StepV::Do(OperationV::Write { path, .. }) ==> t.target(
            arguments,
        ) == Some(path),
        t.next_step(arguments, outcome) matches StepV::Do(OperationV::Write { path, .. })
            ==> t.target(arguments) == Some(path),
{
}

/// What the model is told of the tools that come with the agent can be
/// written.
pub proof fn law_builtin_schemas_can_be_written(t: BuiltinTool)
    ensures
        writable(t.description()),
{
    match t {
        BuiltinTool::Bash(b) => {
            bash::lemma_bash_writable(b);
        },
        BuiltinTool::ReadFile(b) => {
            read_file::lemma_read_file_writable(b);
        },
        BuiltinTool::WriteFile(b) => {
            write_file::lemma_write_file_writable(b);
        },
    }
}

/// The tools that come with the agent; what they show is cut to so many bytes.
pub fn builtin_tools(max_bytes: usize) -> (r: Registry<BuiltinTool>)
    ensures
        r.wf(),
        r.tools@ == seq![
            BuiltinTool::ReadFile(ReadFile { max_bytes }),
            BuiltinTool::WriteFile(WriteFile),
            BuiltinTool::Bash(Bash { max_bytes }),
        ],
{
    proof {
        reveal_strlit("read_file");
        reveal_strlit("write_file");
        reveal_strlit("bash");
        assert("read_file"@.len() == 9 && "write_file"@.len() == 10 && "bash"@.len() == 4);
    }
    let mut r: Registry<BuiltinTool> = Registry::new();
    r.register(BuiltinTool::ReadFile(ReadFile { max_bytes }));
    r.register(BuiltinTool::WriteFile(WriteFile));
    r.register(BuiltinTool::Bash(Bash { max_bytes }));
    r
}

/// The description tells the model of a function: its name, what it does, and an
/// object of its parameters with those that are required.
pub open spec fn describes(
    j: JsonV,
    name: Seq<char>,
    description: Seq<char>,
    properties: JsonV,
    required: Seq<JsonV>,
) -> bool {
    &&& j.get("type"@) == Some(JsonV::Text("function"@))
    &&& j.get("function"@) matches Some(f) && {
        &&& f.get("name"@) == Some(JsonV::Text(name))
        &&& f.get("description"@) == Some(JsonV::Text(description))
        &&& f.get("parameters"@) matches Some(p) && {
            &&& p.get("type"@) == Some(JsonV::Text("object"@))
            &&& p.get("properties"@) == Some(properties)
            &&& p.get("required"@) == Some(JsonV::Array(required))
        }
    }
}

/// A description says of a function what it was made from.
pub proof fn law_functions_are_described(
    name: Seq<char>,
    description: Seq<char>,
    properties: JsonV,
    required: Seq<JsonV>,
)
    ensures
        describes(
            function_json(name, description, properties, required),
            name,
            description,
            properties,
            required,
        ),
        string_json().get("type"@) == Some(JsonV::Text("string"@)),
{
    reveal_strlit("type");
    reveal_strlit("function");
    reveal_strlit("name");
    reveal_strlit("description");
    reveal_strlit("parameters");
    reveal_strlit("properties");
    reveal_strlit("required");
    assert("type"@.len() == 4 && "properties"@.len() == 10 && "required"@.len() == 8);
    assert("name"@.len() == 4 && "description"@.len() == 11 && "parameters"@.len() == 10);
    assert("function"@.len() == 8);
    let inner = seq![
        ("type"@, JsonV::Text("object"@)),
        ("properties"@, properties),
        ("required"@, JsonV::Array(required)),
    ];
    lemma_entry(inner, 0);
    lemma_entry(inner, 1);
    lemma_entry(inner, 2);
    let function = seq![
        ("name"@, JsonV::Text(name)),
        ("description"@, JsonV::Text(description)),
        ("parameters"@, JsonV::Object(inner)),
    ];
    lemma_entry(function, 0);
    lemma_entry(function, 1);
    lemma_entry(function, 2);
    let outer = seq![
        ("type"@, JsonV::Text("function"@)),
        ("function"@, JsonV::Object(function)),
    ];
    lemma_entry(outer, 0);
    lemma_entry(outer, 1);
    lemma_entry(seq![("type"@, JsonV::Text("string"@))], 0);
}

/// A tool that comes with the agent is, does and needs what the tool of its kind
/// is, does and needs.
pub proof fn law_builtin_tools_are_themselves(
    bash: Bash,
    read: ReadFile,
    arguments: Seq<char>,
    outcome: OutcomeV,
)
    ensures
        ({
            let t = BuiltinTool::Bash(bash);
            &&& t.title() == "bash"@
            &&& t.guarded()
            &&& t.description() == bash.description()
            &&& t.target(arguments) is None
            &&& t.first_step(arguments) == bash.first_step(arguments)
            &&& t.next_step(arguments, outcome) == bash.next_step(arguments, outcome)
        }),
        ({
            let t = BuiltinTool::ReadFile(read);
            &&& t.title() == "read_file"@
            &&& !t.guarded()
            &&& t.description() == read.description()
            &&& t.target(arguments) is None
            &&& t.first_step(arguments) == read.first_step(arguments)
            &&& t.next_step(arguments, outcome) == read.next_step(arguments, outcome)
        }),
        ({
            let t = BuiltinTool::WriteFile(WriteFile);
            &&& t.title() == "write_file"@
            &&& t.guarded()
            &&& t.description() == WriteFile.description()
            &&& t.target(arguments) == WriteFile.target(arguments)
            &&& t.first_step(arguments) == WriteFile.first_step(arguments)
            &&& t.next_step(arguments, outcome) == WriteFile.next_step(
                arguments,
                outcome,
            )
        }),
{
}

} // verus!
