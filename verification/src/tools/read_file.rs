//! The `read_file` tool: reads a text file.
use super::{
    bad_args, describes, fail, failed, function_json, function_schema,
    law_functions_are_described, misplace, misplaced, refuse, Operation,
    OperationV, Outcome, OutcomeV, Step, StepV, Tool,
};
use crate::errors::ToolErrorV;
use crate::json::{entry_trees, json_parse, trees, writable, Json, JsonV};
use crate::text::{join, join3, truncate, truncated, utf8_error_text, utf8_text, view_res, views};
use crate::wire::{
    law_arrays_stand_for_objects, no_entries, no_items, object, put, put_item, read_text, shape,
    shaped, text_field, text_json,
};
use vstd::prelude::*;
use vstd::utf8::*;

verus! {

/// Reads a text file; at most so many bytes of it are shown.
#[derive(Debug)]
pub struct ReadFile {
    pub max_bytes: usize,
}

/// The argument of a call: the path of the file.
pub open spec fn read_args(arguments: Seq<char>) -> Result<Seq<char>, Seq<char>> {
    match json_parse(arguments) {
        Err(e) => Err(e),
        Ok(j) => match shaped(j, seq!["path"@], 1) {
            Err(e) => Err(e),
            Ok(j) => text_field(j, "path"@),
        },
    }
}

fn parse_args(arguments: &str) -> (r: Result<String, String>)
    ensures
        view_res(r) == read_args(arguments@),
{
    let parsed = match Json::parse(arguments) {
        Ok(j) => j,
        Err(e) => {
            return Err(e);
        },
    };
    let keys = vec!["path"];
    assert(views(keys@) =~= seq!["path"@]);
    match shape(&parsed, &keys, 1) {
        Ok(Some(o)) => read_text(&o, "path"),
        Ok(None) => read_text(&parsed, "path"),
        Err(e) => Err(e),
    }
}

/// The bytes of a file, as far as they are text: a zero byte tells that they
/// are not, and so does what is not UTF-8.
pub open spec fn file_step(path: Seq<char>, bytes: Seq<u8>, max_bytes: nat) -> StepV {
    if bytes.contains(0u8) {
        failed(path + " 看起来是二进制, 拒绝读取"@)
    } else if !valid_utf8(bytes) {
        failed("非 UTF-8: "@ + utf8_error_text(bytes))
    } else {
        StepV::Done(Ok(truncated(decode_utf8(bytes), max_bytes)))
    }
}

fn has_zero(bytes: &Vec<u8>) -> (r: bool)
    ensures
        r == bytes@.contains(0u8),
{
    let mut i: usize = 0;
    while i < bytes.len()
        invariant
            i <= bytes@.len(),
            forall|j: int| 0 <= j < i ==> bytes@[j] != 0u8,
        decreases bytes@.len() - i,
    {
        if bytes[i] == 0 {
            return true;
        }
        i = i + 1;
    }
    false
}

/// What the model is told of the argument.
pub open spec fn properties() -> JsonV {
    JsonV::Object(
        seq![
            (
                "path"@,
                JsonV::Object(
                    seq![
                        ("type"@, JsonV::Text("string"@)),
                        ("description"@, JsonV::Text("绝对或相对路径"@)),
                    ],
                ),
            ),
        ],
    )
}

impl Tool for ReadFile {
    open spec fn title(&self) -> Seq<char> {
        "read_file"@
    }

    open spec fn description(&self) -> JsonV {
        function_json(
            "read_file"@,
            "读取本地文本文件. 二进制文件会失败. 输出长度受 max_tool_output_bytes 截断."@,
            properties(),
            seq![JsonV::Text("path"@)],
        )
    }

    open spec fn guarded(&self) -> bool {
        false
    }

    open spec fn target(&self, arguments: Seq<char>) -> Option<Seq<char>> {
        None
    }

    open spec fn first_step(&self, arguments: Seq<char>) -> StepV {
        match read_args(arguments) {
            Err(e) => bad_args(e),
            Ok(path) => StepV::Do(OperationV::Read { path }),
        }
    }

    open spec fn next_step(&self, arguments: Seq<char>, outcome: OutcomeV) -> StepV {
        match read_args(arguments) {
            Err(e) => bad_args(e),
            Ok(path) => match outcome {
                OutcomeV::Bytes(bytes) => file_step(path, bytes, self.max_bytes as nat),
                OutcomeV::ReadFailed(e) => failed("读文件失败 "@ + path + ": "@ + e),
                _ => misplaced(),
            },
        }
    }

    fn name(&self) -> (r: &'static str) {
        "read_file"
    }

    fn schema(&self) -> (r: Json) {
        let mut t = no_entries();
        put(&mut t, "type", text_json("string"));
        put(&mut t, "description", text_json("绝对或相对路径"));
        assert(entry_trees(t@) =~= properties()->Object_0[0].1->Object_0);
        let mut p = no_entries();
        put(&mut p, "path", object(t));
        assert(entry_trees(p@) =~= properties()->Object_0);
        let mut required = no_items();
        put_item(&mut required, text_json("path"));
        assert(trees(required@) =~= seq![JsonV::Text("path"@)]);
        function_schema(
            "read_file",
            "读取本地文本文件. 二进制文件会失败. 输出长度受 max_tool_output_bytes 截断.",
            object(p),
            required,
        )
    }

    fn requires_permission(&self) -> (r: bool) {
        false
    }

    fn writes_path(&self, _arguments: &str) -> (r: Option<String>) {
        None
    }

    fn execute(&self, arguments: &str) -> (r: Step) {
        match parse_args(arguments) {
            Err(e) => refuse(e),
            Ok(path) => Step::Do(Operation::Read { path }),
        }
    }

    fn resume(&self, arguments: &str, outcome: Outcome) -> (r: Step) {
        match parse_args(arguments) {
            Err(e) => refuse(e),
            Ok(path) => match outcome {
                Outcome::Bytes(bytes) => if has_zero(&bytes) {
                    fail(join(path.as_str(), " 看起来是二进制, 拒绝读取"))
                } else {
                    match utf8_text(bytes) {
                        Ok(text) => Step::Done(Ok(truncate(text, self.max_bytes))),
                        Err(e) => fail(join("非 UTF-8: ", e.as_str())),
                    }
                },
                Outcome::ReadFailed(e) => {
                    let mut message = join3("读文件失败 ", path.as_str(), ": ");
                    message.append(e.as_str());
                    fail(message)
                },
                _ => misplace(),
            },
        }
    }
}

/// What the model is told of the tool can be written.
pub proof fn lemma_read_file_writable(t: ReadFile)
    ensures
        writable(t.description()),
{
    reveal_strlit("type");
    reveal_strlit("description");
    assert("type"@.len() == 4 && "description"@.len() == 11);
    let p = properties()->Object_0;
    crate::json::lemma_writable_object(p[0].1->Object_0);
    crate::json::lemma_writable_object(p);
    super::lemma_function_writable(
        "read_file"@,
        "读取本地文本文件. 二进制文件会失败. 输出长度受 max_tool_output_bytes 截断."@,
        properties(),
        seq![JsonV::Text("path"@)],
    );
}

/// The arguments name the file, as a string: under its name in an object, or
/// alone in an array.
pub open spec fn asks_to_read(arguments: Seq<char>, path: Seq<char>) -> bool {
    json_parse(arguments) matches Ok(j) && {
        ||| j is Object && j.get("path"@) == Some(JsonV::Text(path))
        ||| j == JsonV::Array(seq![JsonV::Text(path)])
    }
}

proof fn lemma_asked(arguments: Seq<char>, path: Seq<char>)
    ensures
        asks_to_read(arguments, path) <==> read_args(arguments) == Ok::<Seq<char>, Seq<char>>(path),
{
    let keys = seq!["path"@];
    match json_parse(arguments) {
        Ok(j) => {
            law_arrays_stand_for_objects(j, keys, 1, 0);
            match j {
                JsonV::Array(items) => {
                    if items.len() == 1 && items[0] == JsonV::Text(path) {
                        assert(items =~= seq![JsonV::Text(path)]);
                    }
                },
                _ => {},
            }
        },
        _ => {},
    }
}

/// Whatever is read is the file that the arguments name, and that is read and
/// nothing else is done.
pub proof fn law_what_is_asked_for_is_read(t: ReadFile, arguments: Seq<char>, path: Seq<char>)
    ensures
        t.first_step(arguments) matches StepV::Do(op) ==> (op matches OperationV::Read { path: p }
            && asks_to_read(arguments, p)),
        asks_to_read(arguments, path) ==> t.first_step(arguments) == StepV::Do(
            OperationV::Read { path },
        ),
        t.target(arguments) is None,
        json_parse(arguments) matches Err(e) ==> t.first_step(arguments) == StepV::Done(
            Err(ToolErrorV::BadArgs(e)),
        ),
        (forall|p: Seq<char>| !asks_to_read(arguments, p)) ==> (t.first_step(
            arguments,
        ) matches StepV::Done(Err(e)) && e is BadArgs),
{
    lemma_asked(arguments, path);
    match read_args(arguments) {
        Ok(p) => {
            lemma_asked(arguments, p);
        },
        _ => {},
    }
}

/// The result is the text of the file, cut down to what may be shown. A file with
/// a zero byte is refused as binary, and so is one that is not text; where the file
/// cannot be read the message says why.
pub proof fn law_text_of_the_file_is_shown(
    t: ReadFile,
    arguments: Seq<char>,
    path: Seq<char>,
    bytes: Seq<u8>,
    e: Seq<char>,
)
    requires
        asks_to_read(arguments, path),
    ensures
        t.next_step(arguments, OutcomeV::Bytes(bytes)) == (if exists|i: int|
            0 <= i < bytes.len() && bytes[i] == 0 {
            StepV::Done(Err(ToolErrorV::Failed(path + " 看起来是二进制, 拒绝读取"@)))
        } else if !valid_utf8(bytes) {
            StepV::Done(Err(ToolErrorV::Failed("非 UTF-8: "@ + utf8_error_text(bytes))))
        } else {
            StepV::Done(Ok(truncated(decode_utf8(bytes), t.max_bytes as nat)))
        }),
        t.next_step(arguments, OutcomeV::ReadFailed(e)) == StepV::Done(
            Err(ToolErrorV::Failed("读文件失败 "@ + path + ": "@ + e)),
        ),
{
    lemma_asked(arguments, path);
}

/// The tool is called `read_file`, needs no permission, and takes a string
/// `path`, which is required.
pub proof fn law_read_file_is_described(t: ReadFile)
    ensures
        t.title() == "read_file"@,
        !t.guarded(),
        describes(
            t.description(),
            "read_file"@,
            "读取本地文本文件. 二进制文件会失败. 输出长度受 max_tool_output_bytes 截断."@,
            JsonV::Object(
                seq![
                    (
                        "path"@,
                        JsonV::Object(
                            seq![
                                ("type"@, JsonV::Text("string"@)),
                                ("description"@, JsonV::Text("绝对或相对路径"@)),
                            ],
                        ),
                    ),
                ],
            ),
            seq![JsonV::Text("path"@)],
        ),
{
    law_functions_are_described(
        "read_file"@,
        "读取本地文本文件. 二进制文件会失败. 输出长度受 max_tool_output_bytes 截断."@,
        properties(),
        seq![JsonV::Text("path"@)],
    );
}

} // verus!
