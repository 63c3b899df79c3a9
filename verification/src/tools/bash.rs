//! The `bash` tool: runs a command.
use super::{
    bad_args, describes, fail, failed, function_json, function_schema,
    law_functions_are_described, misplace, misplaced, refuse, string_json, string_schema, Operation, OperationV, Outcome, OutcomeV, Step, StepV, Tool,
};
use crate::errors::{ToolError, ToolErrorV};
use crate::json::{entry_trees, json_parse, trees, writable, Json, JsonV};
use crate::text::{
    join, lossy_text, lossy_utf8, signed_decimal, signed_text, truncate, truncated, view_res, views,
};
use crate::wire::{
    law_arrays_stand_for_objects, mistyped, mistyped_text, no_entries, no_items, object, put, put_item, read_text, shape, shaped,
    text_field, text_json,
};
use vstd::prelude::*;

verus! {

/// Runs a command with `bash -c`; of its output at most so many bytes are
/// shown.
#[derive(Debug)]
pub struct Bash {
    pub max_bytes: usize,
}

pub ghost struct BashArgsV {
    pub command: Seq<char>,
    pub timeout_secs: u64,
}

struct Args {
    command: String,
    timeout_secs: u64,
}

impl View for Args {
    type V = BashArgsV;

    closed spec fn view(&self) -> BashArgsV {
        BashArgsV { command: self.command@, timeout_secs: self.timeout_secs }
    }
}

/// The arguments of a call: the command, and how many seconds it may take,
/// which are 30 where nothing is said.
pub open spec fn bash_args(arguments: Seq<char>) -> Result<BashArgsV, Seq<char>> {
    match json_parse(arguments) {
        Err(e) => Err(e),
        Ok(j) => match shaped(j, seq!["command"@, "timeout_secs"@], 1) {
            Err(e) => Err(e),
            Ok(j) => match text_field(j, "command"@) {
                Err(e) => Err(e),
                Ok(command) => match j.get("timeout_secs"@) {
                    None => Ok(BashArgsV { command, timeout_secs: 30 }),
                    Some(JsonV::Number(n)) => Ok(BashArgsV { command, timeout_secs: n }),
                    Some(_) => Err(mistyped("timeout_secs"@)),
                },
            },
        },
    }
}

fn parse_args(arguments: &str) -> (r: Result<Args, String>)
    ensures
        view_res(r) == bash_args(arguments@),
{
    let parsed = match Json::parse(arguments) {
        Ok(j) => j,
        Err(e) => {
            return Err(e);
        },
    };
    let keys = vec!["command", "timeout_secs"];
    assert(views(keys@) =~= seq!["command"@, "timeout_secs"@]);
    let j = match shape(&parsed, &keys, 1) {
        Ok(Some(o)) => o,
        Ok(None) => parsed,
        Err(e) => {
            return Err(e);
        },
    };
    let command = match read_text(&j, "command") {
        Ok(s) => s,
        Err(e) => {
            return Err(e);
        },
    };
    match j.get("timeout_secs") {
        None => Ok(Args { command, timeout_secs: 30 }),
        Some(Json::Number(n)) => Ok(Args { command, timeout_secs: *n }),
        Some(_) => Err(mistyped_text("timeout_secs")),
    }
}

/// What the model is shown of a command that has ended: what it wrote to its
/// standard output and then to its standard error, shortened, and its exit
/// code where it did not succeed.
pub open spec fn shown(
    stdout: Seq<u8>,
    stderr: Seq<u8>,
    success: bool,
    code: Option<i32>,
    max_bytes: nat,
) -> Seq<char> {
    truncated(lossy_utf8(stdout) + lossy_utf8(stderr), max_bytes) + (if success {
        seq![]
    } else {
        "\n[exit code: "@ + signed_decimal(
            match code {
                Some(n) => n as int,
                None => -1,
            },
        ) + "]"@
    })
}

/// What the model is shown of a command that has ended.
pub fn show(
    stdout: &[u8],
    stderr: &[u8],
    success: bool,
    code: Option<i32>,
    max_bytes: usize,
) -> (r: String)
    ensures
        r@ == shown(stdout@, stderr@, success, code, max_bytes as nat),
{
    let out = lossy_text(stdout);
    let err = lossy_text(stderr);
    let mut text = truncate(join(out.as_str(), err.as_str()), max_bytes);
    let ghost known = text@;
    if !success {
        let n: i32 = match code {
            Some(n) => n,
            None => -1,
        };
        let digits = signed_text(n);
        text.append("\n[exit code: ");
        text.append(digits.as_str());
        text.append("]");
        assert(text@ =~= known + ("\n[exit code: "@ + signed_decimal(n as int) + "]"@));
    } else {
        assert(text@ =~= known + Seq::<char>::empty());
    }
    text
}

/// What the model is told of the arguments.
pub open spec fn properties() -> JsonV {
    JsonV::Object(
        seq![
            ("command"@, string_json()),
            (
                "timeout_secs"@,
                JsonV::Object(
                    seq![("type"@, JsonV::Text("integer"@)), ("default"@, JsonV::Number(30))],
                ),
            ),
        ],
    )
}

impl Tool for Bash {
    open spec fn title(&self) -> Seq<char> {
        "bash"@
    }

    open spec fn description(&self) -> JsonV {
        function_json(
            "bash"@,
            "用 bash -c 执行命令. stdout 与 stderr 合并返回. 默认 30s 超时."@,
            properties(),
            seq![JsonV::Text("command"@)],
        )
    }

    open spec fn guarded(&self) -> bool {
        true
    }

    open spec fn target(&self, arguments: Seq<char>) -> Option<Seq<char>> {
        None
    }

    open spec fn first_step(&self, arguments: Seq<char>) -> StepV {
        match bash_args(arguments) {
            Err(e) => bad_args(e),
            Ok(a) => StepV::Do(
                OperationV::Run { command: a.command, timeout_secs: a.timeout_secs },
            ),
        }
    }

    open spec fn next_step(&self, arguments: Seq<char>, outcome: OutcomeV) -> StepV {
        match bash_args(arguments) {
            Err(e) => bad_args(e),
            Ok(a) => match outcome {
                OutcomeV::Ran { stdout, stderr, success, code } => StepV::Done(
                    Ok(shown(stdout, stderr, success, code, self.max_bytes as nat)),
                ),
                OutcomeV::TimedOut => StepV::Done(Err(ToolErrorV::Timeout(a.timeout_secs))),
                OutcomeV::StartFailed(e) => failed("启动失败: "@ + e),
                _ => misplaced(),
            },
        }
    }

    fn name(&self) -> (r: &'static str) {
        "bash"
    }

    fn schema(&self) -> (r: Json) {
        let mut t = no_entries();
        put(&mut t, "type", text_json("integer"));
        put(&mut t, "default", Json::Number(30));
        let mut p = no_entries();
        put(&mut p, "command", string_schema());
        proof {
            assert(entry_trees(t@) =~= properties()->Object_0[1].1->Object_0);
        }
        put(&mut p, "timeout_secs", object(t));
        assert(entry_trees(p@) =~= properties()->Object_0);
        let mut required = no_items();
        put_item(&mut required, text_json("command"));
        assert(trees(required@) =~= seq![JsonV::Text("command"@)]);
        function_schema(
            "bash",
            "用 bash -c 执行命令. stdout 与 stderr 合并返回. 默认 30s 超时.",
            object(p),
            required,
        )
    }

    fn requires_permission(&self) -> (r: bool) {
        true
    }

    fn writes_path(&self, _arguments: &str) -> (r: Option<String>) {
        None
    }

    fn execute(&self, arguments: &str) -> (r: Step) {
        match parse_args(arguments) {
            Err(e) => refuse(e),
            Ok(a) => Step::Do(
                Operation::Run { command: a.command, timeout_secs: a.timeout_secs },
            ),
        }
    }

    fn resume(&self, arguments: &str, outcome: Outcome) -> (r: Step) {
        match parse_args(arguments) {
            Err(e) => refuse(e),
            Ok(a) => match outcome {
                Outcome::Ran { stdout, stderr, success, code } => Step::Done(
                    Ok(
                        show(
                            stdout.as_slice(),
                            stderr.as_slice(),
                            success,
                            code,
                            self.max_bytes,
                        ),
                    ),
                ),
                Outcome::TimedOut => Step::Done(Err(ToolError::Timeout(a.timeout_secs))),
                Outcome::StartFailed(e) => fail(join("启动失败: ", e.as_str())),
                _ => misplace(),
            },
        }
    }
}

/// What the model is told of the tool can be written.
pub proof fn lemma_bash_writable(t: Bash)
    ensures
        writable(t.description()),
{
    reveal_strlit("command");
    reveal_strlit("timeout_secs");
    reveal_strlit("type");
    reveal_strlit("default");
    assert("command"@.len() == 7 && "timeout_secs"@.len() == 12 && "type"@.len() == 4
        && "default"@.len() == 7);
    let p = properties()->Object_0;
    crate::json::lemma_writable_object(p[1].1->Object_0);
    crate::json::lemma_writable_object(string_json()->Object_0);
    crate::json::lemma_writable_object(p);
    super::lemma_function_writable(
        "bash"@,
        "用 bash -c 执行命令. stdout 与 stderr 合并返回. 默认 30s 超时."@,
        properties(),
        seq![JsonV::Text("command"@)],
    );
}

/// The arguments ask for the command with the time limit, which is 30 seconds
/// where they do not give one: under their names in an object, or one behind the
/// other in an array.
pub open spec fn asks_to_run(arguments: Seq<char>, command: Seq<char>, secs: u64) -> bool {
    json_parse(arguments) matches Ok(j) && {
        ||| j is Object && j.get("command"@) == Some(JsonV::Text(command)) && (match j.get(
            "timeout_secs"@,
        ) {
            Some(v) => v == JsonV::Number(secs),
            None => secs == 30,
        })
        ||| j == JsonV::Array(seq![JsonV::Text(command), JsonV::Number(secs)])
        ||| j == JsonV::Array(seq![JsonV::Text(command)]) && secs == 30
    }
}

proof fn lemma_asked(arguments: Seq<char>, command: Seq<char>, secs: u64)
    ensures
        asks_to_run(arguments, command, secs) <==> bash_args(arguments) == Ok::<
            BashArgsV,
            Seq<char>,
        >(BashArgsV { command, timeout_secs: secs }),
{
    reveal_strlit("command");
    reveal_strlit("timeout_secs");
    let keys = seq!["command"@, "timeout_secs"@];
    assert(keys[0].len() != keys[1].len());
    match json_parse(arguments) {
        Ok(j) => {
            law_arrays_stand_for_objects(j, keys, 1, 0);
            law_arrays_stand_for_objects(j, keys, 1, 1);
            match j {
                JsonV::Array(items) => {
                    if items.len() == 2 && items[0] == JsonV::Text(command) && items[1]
                        == JsonV::Number(secs) {
                        assert(items =~= seq![JsonV::Text(command), JsonV::Number(secs)]);
                    }
                    if items.len() == 1 && items[0] == JsonV::Text(command) {
                        assert(items =~= seq![JsonV::Text(command)]);
                    }
                },
                _ => {},
            }
        },
        _ => {},
    }
}

/// Whatever is run is the command that the arguments ask for, with their time
/// limit; and whatever they ask for is run.
pub proof fn law_what_is_asked_for_is_run(
    t: Bash,
    arguments: Seq<char>,
    command: Seq<char>,
    secs: u64,
)
    ensures
        t.first_step(arguments) matches StepV::Do(op) ==> (op matches OperationV::Run {
            command: c,
            timeout_secs,
        } && asks_to_run(arguments, c, timeout_secs)),
        asks_to_run(arguments, command, secs) ==> t.first_step(arguments) == StepV::Do(
            OperationV::Run { command, timeout_secs: secs },
        ),
        asks_to_run(arguments, command, secs) ==> t.next_step(arguments, OutcomeV::TimedOut)
            == StepV::Done(Err(ToolErrorV::Timeout(secs))),
        t.target(arguments) is None,
        json_parse(arguments) matches Err(e) ==> t.first_step(arguments) == StepV::Done(
            Err(ToolErrorV::BadArgs(e)),
        ),
        (forall|c: Seq<char>, n: u64| !asks_to_run(arguments, c, n)) ==> (t.first_step(
            arguments,
        ) matches StepV::Done(Err(e)) && e is BadArgs),
{
    lemma_asked(arguments, command, secs);
    match bash_args(arguments) {
        Ok(a) => {
            lemma_asked(arguments, a.command, a.timeout_secs);
        },
        _ => {},
    }
}

/// The result of a command is its output, the errors behind the rest, cut down to
/// what may be shown; where the command failed its exit code comes behind, and -1
/// stands for one that there is not.
pub proof fn law_output_is_shown(
    t: Bash,
    arguments: Seq<char>,
    command: Seq<char>,
    secs: u64,
    stdout: Seq<u8>,
    stderr: Seq<u8>,
    code: Option<i32>,
    e: Seq<char>,
)
    requires
        asks_to_run(arguments, command, secs),
    ensures
        ({
            let output = truncated(lossy_utf8(stdout) + lossy_utf8(stderr), t.max_bytes as nat);
            &&& t.next_step(
                arguments,
                OutcomeV::Ran { stdout, stderr, success: true, code },
            ) == StepV::Done(Ok(output))
            &&& t.next_step(
                arguments,
                OutcomeV::Ran { stdout, stderr, success: false, code },
            ) == StepV::Done(
                Ok(
                    output + "\n[exit code: "@ + signed_decimal(
                        if code is Some {
                            code->0 as int
                        } else {
                            -1
                        },
                    ) + "]"@,
                ),
            )
        }),
        t.next_step(arguments, OutcomeV::StartFailed(e)) == StepV::Done(
            Err(ToolErrorV::Failed("启动失败: "@ + e)),
        ),
{
    lemma_asked(arguments, command, secs);
    let output = truncated(lossy_utf8(stdout) + lossy_utf8(stderr), t.max_bytes as nat);
    assert(output + Seq::<char>::empty() =~= output);
    let n = if code is Some {
        code->0 as int
    } else {
        -1
    };
    assert(output + ("\n[exit code: "@ + signed_decimal(n) + "]"@) =~= output + "\n[exit code: "@
        + signed_decimal(n) + "]"@);
}

/// The tool is called `bash`, needs permission, and takes a string `command`,
/// which is required, and a number `timeout_secs`, which is 30 unless given.
pub proof fn law_bash_is_described(t: Bash)
    ensures
        t.title() == "bash"@,
        t.guarded(),
        describes(
            t.description(),
            "bash"@,
            "用 bash -c 执行命令. stdout 与 stderr 合并返回. 默认 30s 超时."@,
            JsonV::Object(
                seq![
                    ("command"@, JsonV::Object(seq![("type"@, JsonV::Text("string"@))])),
                    (
                        "timeout_secs"@,
                        JsonV::Object(
                            seq![
                                ("type"@, JsonV::Text("integer"@)),
                                ("default"@, JsonV::Number(30)),
                            ],
                        ),
                    ),
                ],
            ),
            seq![JsonV::Text("command"@)],
        ),
{
    law_functions_are_described(
        "bash"@,
        "用 bash -c 执行命令. stdout 与 stderr 合并返回. 默认 30s 超时."@,
        properties(),
        seq![JsonV::Text("command"@)],
    );
}

} // verus!
