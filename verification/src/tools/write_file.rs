//! The `write_file` tool: writes a text file.
use super::{
    bad_args, describes, fail, failed, function_json, function_schema,
    law_functions_are_described, misplace, misplaced, refuse, string_json, string_schema, Operation, OperationV, Outcome, OutcomeV, Step, StepV, Tool,
};
use crate::errors::ToolErrorV;
use crate::json::{entry_trees, json_parse, trees, writable, Json, JsonV};
use crate::text::{byte_len, bytes_of, decimal, decimal_text, join, join3, view_res, views};
use crate::wire::{
    law_arrays_stand_for_objects, no_entries, no_items, object, put, put_item, read_text, shape,
    shaped, text_field, text_json,
};
use vstd::prelude::*;
use vstd::utf8::*;

verus! {

/// Writes a text file in a directory that exists.
#[derive(Debug)]
pub struct WriteFile;

pub ghost struct WriteArgsV {
    pub path: Seq<char>,
    pub content: Seq<char>,
}

struct Args {
    path: String,
    content: String,
}

impl View for Args {
    type V = WriteArgsV;

    closed spec fn view(&self) -> WriteArgsV {
        WriteArgsV { path: self.path@, content: self.content@ }
    }
}

/// The arguments of a call: the path of the file, and what to write.
pub open spec fn write_args(arguments: Seq<char>) -> Result<WriteArgsV, Seq<char>> {
    match json_parse(arguments) {
        Err(e) => Err(e),
        Ok(j) => match shaped(j, seq!["path"@, "content"@], 2) {
            Err(e) => Err(e),
            Ok(j) => match text_field(j, "path"@) {
                Err(e) => Err(e),
                Ok(path) => match text_field(j, "content"@) {
                    Err(e) => Err(e),
                    Ok(content) => Ok(WriteArgsV { path, content }),
                },
            },
        },
    }
}

fn parse_args(arguments: &str) -> (r: Result<Args, String>)
    ensures
        view_res(r) == write_args(arguments@),
{
    let parsed = match Json::parse(arguments) {
        Ok(j) => j,
        Err(e) => {
            return Err(e);
        },
    };
    let keys = vec!["path", "content"];
    assert(views(keys@) =~= seq!["path"@, "content"@]);
    let j = match shape(&parsed, &keys, 2) {
        Ok(Some(o)) => o,
        Ok(None) => parsed,
        Err(e) => {
            return Err(e);
        },
    };
    match read_text(&j, "path") {
        Ok(path) => match read_text(&j, "content") {
            Ok(content) => Ok(Args { path, content }),
            Err(e) => Err(e),
        },
        Err(e) => Err(e),
    }
}

/// The step once the directory is known: the file is written where it stands
/// in none, in the present one, or in one that exists.
pub open spec fn parent_step(a: WriteArgsV, dir: Option<Seq<char>>, exists: bool) -> StepV {
    match dir {
        Some(d) => if d.len() > 0 && !exists {
            failed("父目录不存在: "@ + d)
        } else {
            StepV::Do(OperationV::Write { path: a.path, content: a.content })
        },
        None => StepV::Do(OperationV::Write { path: a.path, content: a.content }),
    }
}

/// What the model is told of the arguments.
pub open spec fn properties() -> JsonV {
    JsonV::Object(seq![("path"@, string_json()), ("content"@, string_json())])
}

impl Tool for WriteFile {
    open spec fn title(&self) -> Seq<char> {
        "write_file"@
    }

    open spec fn description(&self) -> JsonV {
        function_json(
            "write_file"@,
            "把 content 写到 path. 父目录必须存在 (本工具不创建目录)."@,
            properties(),
            seq![JsonV::Text("path"@), JsonV::Text("content"@)],
        )
    }

    open spec fn guarded(&self) -> bool {
        true
    }

    open spec fn target(&self, arguments: Seq<char>) -> Option<Seq<char>> {
        match write_args(arguments) {
            Ok(a) => Some(a.path),
            Err(_) => None,
        }
    }

    open spec fn first_step(&self, arguments: Seq<char>) -> StepV {
        match write_args(arguments) {
            Err(e) => bad_args(e),
            Ok(a) => StepV::Do(OperationV::FindParent { path: a.path }),
        }
    }

    open spec fn next_step(&self, arguments: Seq<char>, outcome: OutcomeV) -> StepV {
        match write_args(arguments) {
            Err(e) => bad_args(e),
            Ok(a) => match outcome {
                OutcomeV::Parent { dir, exists } => parent_step(a, dir, exists),
                OutcomeV::Written => StepV::Done(
                    Ok("wrote "@ + decimal(byte_len(a.content)) + " bytes to "@ + a.path),
                ),
                OutcomeV::WriteFailed(e) => failed("写文件失败: "@ + e),
                _ => misplaced(),
            },
        }
    }

    fn name(&self) -> (r: &'static str) {
        "write_file"
    }

    fn schema(&self) -> (r: Json) {
        let mut p = no_entries();
        put(&mut p, "path", string_schema());
        put(&mut p, "content", string_schema());
        assert(entry_trees(p@) =~= properties()->Object_0);
        let mut required = no_items();
        put_item(&mut required, text_json("path"));
        put_item(&mut required, text_json("content"));
        assert(trees(required@) =~= seq![JsonV::Text("path"@), JsonV::Text("content"@)]);
        function_schema(
            "write_file",
            "把 content 写到 path. 父目录必须存在 (本工具不创建目录).",
            object(p),
            required,
        )
    }

    fn requires_permission(&self) -> (r: bool) {
        true
    }

    fn writes_path(&self, arguments: &str) -> (r: Option<String>) {
        match parse_args(arguments) {
            Ok(a) => Some(a.path),
            Err(_) => None,
        }
    }

    fn execute(&self, arguments: &str) -> (r: Step) {
        match parse_args(arguments) {
            Err(e) => refuse(e),
            Ok(a) => Step::Do(Operation::FindParent { path: a.path }),
        }
    }

    fn resume(&self, arguments: &str, outcome: Outcome) -> (r: Step) {
        match parse_args(arguments) {
            Err(e) => refuse(e),
            Ok(a) => match outcome {
                Outcome::Parent { dir, exists } => {
                    match dir {
                        Some(d) => {
                            if !d.as_str().is_empty() && !exists {
                                return fail(join("父目录不存在: ", d.as_str()));
                            }
                        },
                        None => {},
                    }
                    Step::Do(Operation::Write { path: a.path, content: a.content })
                },
                Outcome::Written => {
                    let n = decimal_text(bytes_of(a.content.as_str()) as u64);
                    let mut message = join3("wrote ", n.as_str(), " bytes to ");
                    message.append(a.path.as_str());
                    Step::Done(Ok(message))
                },
                Outcome::WriteFailed(e) => fail(join("写文件失败: ", e.as_str())),
                _ => misplace(),
            },
        }
    }
}

/// What the model is told of the tool can be written.
pub proof fn lemma_write_file_writable(t: WriteFile)
    ensures
        writable(t.description()),
{
    reveal_strlit("path");
    reveal_strlit("content");
    assert("path"@.len() == 4 && "content"@.len() == 7);
    crate::json::lemma_writable_object(string_json()->Object_0);
    crate::json::lemma_writable_object(properties()->Object_0);
    super::lemma_function_writable(
        "write_file"@,
        "把 content 写到 path. 父目录必须存在 (本工具不创建目录)."@,
        properties(),
        seq![JsonV::Text("path"@), JsonV::Text("content"@)],
    );
}

/// A call writes only the file that it names beforehand.
pub proof fn law_only_the_target_is_written(arguments: Seq<char>, outcome: OutcomeV)
    ensures
        WriteFile.next_step(arguments, outcome) matches StepV::Do(op) ==> (op matches
            OperationV::Write { path, .. } && WriteFile.target(arguments) == Some(path)),
        !(WriteFile.first_step(arguments) matches StepV::Do(OperationV::Write { .. })),
{
}

/// The arguments name the file and what it is to hold, each as a string: under
/// their names in an object, or one behind the other in an array.
pub open spec fn asks_to_write(arguments: Seq<char>, path: Seq<char>, content: Seq<char>) -> bool {
    json_parse(arguments) matches Ok(j) && {
        ||| j is Object && j.get("path"@) == Some(JsonV::Text(path)) && j.get("content"@) == Some(
            JsonV::Text(content),
        )
        ||| j == JsonV::Array(seq![JsonV::Text(path), JsonV::Text(content)])
    }
}

proof fn lemma_asked(arguments: Seq<char>, path: Seq<char>, content: Seq<char>)
    ensures
        asks_to_write(arguments, path, content) <==> write_args(arguments) == Ok::<
            WriteArgsV,
            Seq<char>,
        >(WriteArgsV { path, content }),
{
    reveal_strlit("path");
    reveal_strlit("content");
    let keys = seq!["path"@, "content"@];
    assert(keys[0].len() != keys[1].len());
    match json_parse(arguments) {
        Ok(j) => {
            law_arrays_stand_for_objects(j, keys, 2, 0);
            law_arrays_stand_for_objects(j, keys, 2, 1);
            match j {
                JsonV::Array(items) => {
                    if items.len() == 2 && items[0] == JsonV::Text(path) && items[1]
                        == JsonV::Text(content) {
                        assert(items =~= seq![JsonV::Text(path), JsonV::Text(content)]);
                    }
                },
                _ => {},
            }
        },
        _ => {},
    }
}

/// Whatever is written is what the arguments ask for, unchanged and in full, in
/// the file that they name; and the answer counts the bytes of exactly that.
pub proof fn law_what_is_asked_for_is_written(
    arguments: Seq<char>,
    outcome: OutcomeV,
    path: Seq<char>,
    content: Seq<char>,
)
    ensures
        WriteFile.next_step(arguments, outcome) matches StepV::Do(op) ==> (op matches
            OperationV::Write { path: p, content: c } && asks_to_write(arguments, p, c)),
        asks_to_write(arguments, path, content) ==> {
            &&& WriteFile.target(arguments) == Some(path)
            &&& WriteFile.first_step(arguments) == StepV::Do(OperationV::FindParent { path })
            &&& outcome matches OutcomeV::Parent { dir, exists } ==> WriteFile.next_step(
                arguments,
                outcome,
            ) == (if dir matches Some(d) && d.len() > 0 && !exists {
                StepV::Done(Err(ToolErrorV::Failed("父目录不存在: "@ + dir->0)))
            } else {
                StepV::Do(OperationV::Write { path, content })
            })
            &&& outcome is Written ==> WriteFile.next_step(arguments, outcome) == StepV::Done(
                Ok(
                    "wrote "@ + decimal(encode_utf8(content).len()) + " bytes to "@ + path,
                ),
            )
            &&& outcome matches OutcomeV::WriteFailed(e) ==> WriteFile.next_step(arguments, outcome)
                == StepV::Done(Err(ToolErrorV::Failed("写文件失败: "@ + e)))
        },
{
    lemma_asked(arguments, path, content);
    match write_args(arguments) {
        Ok(a) => {
            lemma_asked(arguments, a.path, a.content);
        },
        _ => {},
    }
}

/// Arguments that do not name a file and what it is to hold are refused, and
/// nothing is done.
pub proof fn law_bad_arguments_write_nothing(arguments: Seq<char>, outcome: OutcomeV)
    requires
        forall|path: Seq<char>, content: Seq<char>| !asks_to_write(arguments, path, content),
    ensures
        WriteFile.first_step(arguments) matches StepV::Done(Err(e)) && e is BadArgs,
        WriteFile.next_step(arguments, outcome) matches StepV::Done(Err(e)) && e is BadArgs,
        WriteFile.target(arguments) is None,
        json_parse(arguments) matches Err(e) ==> WriteFile.first_step(arguments) == StepV::Done(
            Err(ToolErrorV::BadArgs(e)),
        ),
{
    match write_args(arguments) {
        Ok(a) => {
            lemma_asked(arguments, a.path, a.content);
        },
        _ => {},
    }
}

/// The tool is called `write_file`, needs permission, and takes two strings, both
/// required: `path` and `content`.
pub proof fn law_write_file_is_described()
    ensures
        WriteFile.title() == "write_file"@,
        WriteFile.guarded(),
        describes(
            WriteFile.description(),
            "write_file"@,
            "把 content 写到 path. 父目录必须存在 (本工具不创建目录)."@,
            JsonV::Object(
                seq![
                    ("path"@, JsonV::Object(seq![("type"@, JsonV::Text("string"@))])),
                    ("content"@, JsonV::Object(seq![("type"@, JsonV::Text("string"@))])),
                ],
            ),
            seq![JsonV::Text("path"@), JsonV::Text("content"@)],
        ),
{
    law_functions_are_described(
        "write_file"@,
        "把 content 写到 path. 父目录必须存在 (本工具不创建目录)."@,
        properties(),
        seq![JsonV::Text("path"@), JsonV::Text("content"@)],
    );
}

} // verus!
