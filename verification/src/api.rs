//! The messages of a conversation, and their form in a request to the model.
use crate::json::{
    distinct_keys, entry_trees, lemma_array_plain, lemma_entry, lemma_exact_writable,
    lemma_lookup_in_sum, lemma_object_plain, lemma_writable_object, lookup, plain, trees, writable, Json, JsonV,
};
use crate::text::{clone_opt, same, view_opt, view_res, views};
use crate::wire::{
    array, field, is_blank, lemma_stands, mistyped, mistyped_text, no_entries, no_items, object,
    opt_text_field, put, put_item, read_field, read_opt_text, read_tag, read_text, shape, shaped,
    stands, tag_field, text_field, text_json, unknown_variant, unknown_variant_text,
};
use vstd::prelude::*;

verus! {

// ---------------------------------------------------------------------------
// What the messages hold
// ---------------------------------------------------------------------------
pub ghost struct ToolCallV {
    pub id: Seq<char>,
    pub kind: Seq<char>,
    pub name: Seq<char>,
    pub arguments: Seq<char>,
}

#[allow(inconsistent_fields)]
pub ghost enum MessageV {
    System { content: Seq<char> },
    User { content: Seq<char> },
    Assistant {
        content: Option<Seq<char>>,
        reasoning_content: Option<Seq<char>>,
        tool_calls: Seq<ToolCallV>,
    },
    Tool { tool_call_id: Seq<char>, content: Seq<char> },
}

/// The function that a tool call names, with its arguments as the text that
/// the model wrote.
#[derive(Debug)]
pub struct FunctionCall {
    pub name: String,
    pub arguments: String,
}

/// A tool call that the model asks for.
#[derive(Debug)]
pub struct ToolCall {
    pub id: String,
    /// Always `function`.
    pub kind: String,
    pub function: FunctionCall,
}

/// A message of a conversation.
#[derive(Debug)]
#[allow(inconsistent_fields)]
pub enum Message {
    System { content: String },
    User { content: String },
    Assistant {
        /// What the model says; absent where it only calls tools.
        content: Option<String>,
        /// What the model thinks. The service insists on getting it back with
        /// the tool calls that it led to.
        reasoning_content: Option<String>,
        tool_calls: Vec<ToolCall>,
    },
    Tool { tool_call_id: String, content: String },
}

impl View for ToolCall {
    type V = ToolCallV;

    open spec fn view(&self) -> ToolCallV {
        ToolCallV {
            id: self.id@,
            kind: self.kind@,
            name: self.function.name@,
            arguments: self.function.arguments@,
        }
    }
}

impl View for Message {
    type V = MessageV;

    open spec fn view(&self) -> MessageV {
        match self {
            Message::System { content } => MessageV::System { content: content@ },
            Message::User { content } => MessageV::User { content: content@ },
            Message::Assistant { content, reasoning_content, tool_calls } => MessageV::Assistant {
                content: view_opt(*content),
                reasoning_content: view_opt(*reasoning_content),
                tool_calls: views(tool_calls@),
            },
            Message::Tool { tool_call_id, content } => MessageV::Tool {
                tool_call_id: tool_call_id@,
                content: content@,
            },
        }
    }
}

impl Clone for ToolCall {
    fn clone(&self) -> (r: ToolCall)
        ensures
            r@ == self@,
    {
        ToolCall {
            id: self.id.clone(),
            kind: self.kind.clone(),
            function: FunctionCall {
                name: self.function.name.clone(),
                arguments: self.function.arguments.clone(),
            },
        }
    }
}

/// A copy of a list of tool calls.
pub fn clone_calls(v: &Vec<ToolCall>) -> (r: Vec<ToolCall>)
    ensures
        views(r@) == views(v@),
{
    let mut out: Vec<ToolCall> = Vec::new();
    let mut i: usize = 0;
    while i < v.len()
        invariant
            i <= v@.len(),
            out@.len() == i,
            forall|j: int| 0 <= j < i ==> (#[trigger] out@[j])@ == v@[j]@,
        decreases v@.len() - i,
    {
        out.push(v[i].clone());
        i = i + 1;
    }
    assert(views(out@) =~= views(v@));
    out
}

impl Clone for Message {
    fn clone(&self) -> (r: Message)
        ensures
            r@ == self@,
    {
        match self {
            Message::System { content } => Message::System { content: content.clone() },
            Message::User { content } => Message::User { content: content.clone() },
            Message::Assistant { content, reasoning_content, tool_calls } => Message::Assistant {
                content: clone_opt(content),
                reasoning_content: clone_opt(reasoning_content),
                tool_calls: clone_calls(tool_calls),
            },
            Message::Tool { tool_call_id, content } => Message::Tool {
                tool_call_id: tool_call_id.clone(),
                content: content.clone(),
            },
        }
    }
}

// ---------------------------------------------------------------------------
// The form on the wire
// ---------------------------------------------------------------------------
/// A tool call as JSON.
pub open spec fn call_json(c: ToolCallV) -> JsonV {
    JsonV::Object(
        seq![
            ("id"@, JsonV::Text(c.id)),
            ("type"@, JsonV::Text(c.kind)),
            (
                "function"@,
                JsonV::Object(
                    seq![
                        ("name"@, JsonV::Text(c.name)),
                        ("arguments"@, JsonV::Text(c.arguments)),
                    ],
                ),
            ),
        ],
    )
}

/// Tool calls as JSON.
pub open spec fn calls_json(s: Seq<ToolCallV>) -> JsonV {
    JsonV::Array(s.map_values(|c: ToolCallV| call_json(c)))
}

/// The entry of an optional string, which is left out where there is none.
pub open spec fn opt_entry(key: Seq<char>, o: Option<Seq<char>>) -> Seq<(Seq<char>, JsonV)> {
    match o {
        Some(s) => seq![(key, JsonV::Text(s))],
        None => seq![],
    }
}

/// A message as JSON: the role comes first, and what is absent is left out.
pub open spec fn message_json(m: MessageV) -> JsonV {
    match m {
        MessageV::System { content } => JsonV::Object(
            seq![("role"@, JsonV::Text("system"@)), ("content"@, JsonV::Text(content))],
        ),
        MessageV::User { content } => JsonV::Object(
            seq![("role"@, JsonV::Text("user"@)), ("content"@, JsonV::Text(content))],
        ),
        MessageV::Assistant { content, reasoning_content, tool_calls } => JsonV::Object(
            seq![("role"@, JsonV::Text("assistant"@))] + opt_entry("content"@, content)
                + opt_entry("reasoning_content"@, reasoning_content) + (if tool_calls.len() == 0 {
                seq![]
            } else {
                seq![("tool_calls"@, calls_json(tool_calls))]
            }),
        ),
        MessageV::Tool { tool_call_id, content } => JsonV::Object(
            seq![
                ("role"@, JsonV::Text("tool"@)),
                ("tool_call_id"@, JsonV::Text(tool_call_id)),
                ("content"@, JsonV::Text(content)),
            ],
        ),
    }
}

/// The name and the arguments of the function that JSON stands for.
pub open spec fn json_function(j: JsonV) -> Result<(Seq<char>, Seq<char>), Seq<char>> {
    match shaped(j, seq!["name"@, "arguments"@], 2) {
        Err(e) => Err(e),
        Ok(j) => match text_field(j, "name"@) {
            Err(e) => Err(e),
            Ok(name) => match text_field(j, "arguments"@) {
                Err(e) => Err(e),
                Ok(arguments) => Ok((name, arguments)),
            },
        },
    }
}

/// The tool call that JSON stands for, or what is wrong with it.
pub open spec fn json_call(j: JsonV) -> Result<ToolCallV, Seq<char>> {
    match shaped(j, seq!["id"@, "type"@, "function"@], 3) {
        Err(e) => Err(e),
        Ok(j) => match text_field(j, "id"@) {
            Err(e) => Err(e),
            Ok(id) => match text_field(j, "type"@) {
                Err(e) => Err(e),
                Ok(kind) => match field(j, "function"@) {
                    Err(e) => Err(e),
                    Ok(f) => match json_function(f) {
                        Err(e) => Err(e),
                        Ok(c) => Ok(ToolCallV { id, kind, name: c.0, arguments: c.1 }),
                    },
                },
            },
        },
    }
}

impl FunctionCall {
    fn from_json(j: &Json) -> (r: Result<FunctionCall, String>)
        ensures
            match r {
                Ok(f) => json_function(j@) == Ok::<(Seq<char>, Seq<char>), Seq<char>>(
                    (f.name@, f.arguments@),
                ),
                Err(e) => json_function(j@) == Err::<(Seq<char>, Seq<char>), Seq<char>>(e@),
            },
    {
        let keys = vec!["name", "arguments"];
        assert(views(keys@) =~= seq!["name"@, "arguments"@]);
        let from_array = match shape(j, &keys, 2) {
            Ok(o) => o,
            Err(e) => {
                return Err(e);
            },
        };
        let j = match &from_array {
            Some(o) => o,
            None => j,
        };
        match read_text(j, "name") {
            Ok(name) => match read_text(j, "arguments") {
                Ok(arguments) => Ok(FunctionCall { name, arguments }),
                Err(e) => Err(e),
            },
            Err(e) => Err(e),
        }
    }
}

impl ToolCall {
    /// The tool call as JSON.
    pub fn to_json(&self) -> (r: Json)
        ensures
            r@ == call_json(self@),
    {
        let mut f = no_entries();
        put(&mut f, "name", text_json(self.function.name.as_str()));
        put(&mut f, "arguments", text_json(self.function.arguments.as_str()));
        let ghost inner = entry_trees(f@);
        let mut v = no_entries();
        put(&mut v, "id", text_json(self.id.as_str()));
        put(&mut v, "type", text_json(self.kind.as_str()));
        put(&mut v, "function", object(f));
        proof {
            let tree = call_json(self@)->Object_0;
            assert(inner =~= tree[2].1->Object_0);
            assert(entry_trees(v@) =~= tree);
        }
        object(v)
    }

    /// Reads a tool call from JSON.
    pub fn from_json(j: &Json) -> (r: Result<ToolCall, String>)
        ensures
            view_res(r) == json_call(j@),
    {
        let keys = vec!["id", "type", "function"];
        assert(views(keys@) =~= seq!["id"@, "type"@, "function"@]);
        let from_array = match shape(j, &keys, 3) {
            Ok(o) => o,
            Err(e) => {
                return Err(e);
            },
        };
        let j = match &from_array {
            Some(o) => o,
            None => j,
        };
        let id = match read_text(j, "id") {
            Ok(s) => s,
            Err(e) => {
                return Err(e);
            },
        };
        let kind = match read_text(j, "type") {
            Ok(s) => s,
            Err(e) => {
                return Err(e);
            },
        };
        let f = match read_field(j, "function") {
            Ok(f) => f,
            Err(e) => {
                return Err(e);
            },
        };
        match FunctionCall::from_json(f) {
            Ok(function) => Ok(ToolCall { id, kind, function }),
            Err(e) => Err(e),
        }
    }
}

/// Tool calls as JSON.
pub fn calls_to_json(v: &Vec<ToolCall>) -> (r: Json)
    ensures
        r@ == calls_json(views(v@)),
{
    let mut items = no_items();
    let mut i: usize = 0;
    let ghost all = views(v@).map_values(|c: ToolCallV| call_json(c));
    assert(all.subrange(0, 0) =~= Seq::<JsonV>::empty());
    while i < v.len()
        invariant
            i <= v@.len(),
            all == views(v@).map_values(|c: ToolCallV| call_json(c)),
            trees(items@) == all.subrange(0, i as int),
        decreases v@.len() - i,
    {
        put_item(&mut items, v[i].to_json());
        assert(all.subrange(0, i + 1) =~= all.subrange(0, i as int).push(all[i as int]));
        i = i + 1;
    }
    assert(all.subrange(0, i as int) =~= all);
    array(items)
}

impl Message {
    /// The message as JSON.
    pub fn to_json(&self) -> (r: Json)
        ensures
            r@ == message_json(self@),
    {
        let mut v = no_entries();
        match self {
            Message::System { content } => {
                put(&mut v, "role", text_json("system"));
                put(&mut v, "content", text_json(content.as_str()));
            },
            Message::User { content } => {
                put(&mut v, "role", text_json("user"));
                put(&mut v, "content", text_json(content.as_str()));
            },
            Message::Assistant { content, reasoning_content, tool_calls } => {
                put(&mut v, "role", text_json("assistant"));
                let ghost e0 = entry_trees(v@);
                match content {
                    Some(s) => {
                        put(&mut v, "content", text_json(s.as_str()));
                    },
                    None => {},
                }
                let ghost e1 = entry_trees(v@);
                assert(e1 =~= e0 + opt_entry("content"@, view_opt(*content)));
                match reasoning_content {
                    Some(s) => {
                        put(&mut v, "reasoning_content", text_json(s.as_str()));
                    },
                    None => {},
                }
                let ghost e2 = entry_trees(v@);
                assert(e2 =~= e1 + opt_entry("reasoning_content"@, view_opt(*reasoning_content)));
                if tool_calls.len() > 0 {
                    put(&mut v, "tool_calls", calls_to_json(tool_calls));
                    assert(entry_trees(v@) =~= e2 + seq![
                        ("tool_calls"@, calls_json(views(tool_calls@))),
                    ]);
                } else {
                    assert(entry_trees(v@) =~= e2 + Seq::<
                        (Seq<char>, JsonV),
                    >::empty());
                }
            },
            Message::Tool { tool_call_id, content } => {
                put(&mut v, "role", text_json("tool"));
                put(&mut v, "tool_call_id", text_json(tool_call_id.as_str()));
                put(&mut v, "content", text_json(content.as_str()));
            },
        }
        assert(entry_trees(v@) =~= message_json(self@)->Object_0);
        object(v)
    }
}

/// A tool call that is written as JSON is read back.
pub proof fn law_call_read_back(c: ToolCallV)
    ensures
        json_call(call_json(c)) == Ok::<ToolCallV, Seq<char>>(c),
{
    reveal_with_fuel(crate::json::lookup, 4);
    reveal_strlit("id");
    reveal_strlit("type");
    reveal_strlit("function");
    reveal_strlit("name");
    reveal_strlit("arguments");
    assert("id"@.len() == 2 && "type"@.len() == 4 && "function"@.len() == 8);
    assert("name"@.len() == 4 && "arguments"@.len() == 9);
}

/// The tool calls that a JSON array stands for: the first item that is none
/// decides the error.
pub open spec fn json_calls(s: Seq<JsonV>) -> Result<Seq<ToolCallV>, Seq<char>>
    decreases s.len(),
{
    if s.len() == 0 {
        Ok(seq![])
    } else {
        match json_calls(s.drop_last()) {
            Err(e) => Err(e),
            Ok(done) => match json_call(s.last()) {
                Err(e) => Err(e),
                Ok(x) => Ok(done.push(x)),
            },
        }
    }
}

/// Once an item is no tool call, the error stays.
proof fn lemma_calls_error(s: Seq<JsonV>, k: int)
    requires
        0 <= k <= s.len(),
        json_calls(s.subrange(0, k)) is Err,
    ensures
        json_calls(s) == json_calls(s.subrange(0, k)),
    decreases s.len(),
{
    if k == s.len() {
        assert(s.subrange(0, k) =~= s);
    } else {
        assert(s.drop_last().subrange(0, k) =~= s.subrange(0, k));
        lemma_calls_error(s.drop_last(), k);
    }
}

/// Reads the tool calls of a JSON array.
pub fn read_calls(items: &Vec<Json>) -> (r: Result<Vec<ToolCall>, String>)
    ensures
        match r {
            Ok(v) => json_calls(trees(items@)) == Ok::<Seq<ToolCallV>, Seq<char>>(views(v@)),
            Err(e) => json_calls(trees(items@)) == Err::<Seq<ToolCallV>, Seq<char>>(e@),
        },
{
    let mut out: Vec<ToolCall> = Vec::new();
    let ghost all = trees(items@);
    let mut i: usize = 0;
    assert(all.subrange(0, 0) =~= Seq::<JsonV>::empty());
    assert(views(out@) =~= Seq::<ToolCallV>::empty());
    while i < items.len()
        invariant
            i <= items@.len(),
            all == trees(items@),
            json_calls(all.subrange(0, i as int)) == Ok::<Seq<ToolCallV>, Seq<char>>(views(out@)),
        decreases items@.len() - i,
    {
        proof {
            let pre = all.subrange(0, i + 1);
            assert(pre.drop_last() =~= all.subrange(0, i as int));
            assert(pre.last() == items@[i as int]@);
        }
        match ToolCall::from_json(&items[i]) {
            Ok(x) => {
                let ghost known = views(out@);
                out.push(x);
                assert(views(out@) =~= known.push(x@));
            },
            Err(e) => {
                proof {
                    lemma_calls_error(all, i + 1);
                }
                return Err(e);
            },
        }
        i = i + 1;
    }
    assert(all.subrange(0, i as int) =~= all);
    Ok(out)
}

/// Tool calls that are written as JSON are read back.
pub proof fn law_calls_read_back(s: Seq<ToolCallV>)
    ensures
        json_calls(s.map_values(|c: ToolCallV| call_json(c))) == Ok::<Seq<ToolCallV>, Seq<char>>(s),
    decreases s.len(),
{
    let all = s.map_values(|c: ToolCallV| call_json(c));
    if s.len() > 0 {
        law_calls_read_back(s.drop_last());
        assert(all.drop_last() =~= s.drop_last().map_values(|c: ToolCallV| call_json(c)));
        law_call_read_back(s.last());
        assert(all.last() == call_json(s.last()));
        assert(s.drop_last().push(s.last()) =~= s);
    } else {
        assert(s =~= Seq::<ToolCallV>::empty());
    }
}

/// The JSON of tool calls can be written.
pub proof fn lemma_calls_plain(s: Seq<ToolCallV>)
    ensures
        plain(calls_json(s), 3),
{
    let items = s.map_values(|c: ToolCallV| call_json(c));
    assert forall|i: int| 0 <= i < items.len() implies plain(#[trigger] items[i], 2) by {
        let c = s[i];
        reveal_strlit("id");
        reveal_strlit("type");
        reveal_strlit("function");
        reveal_strlit("name");
        reveal_strlit("arguments");
        assert("id"@.len() == 2 && "type"@.len() == 4 && "function"@.len() == 8);
        assert("name"@.len() == 4 && "arguments"@.len() == 9);
        let outer = call_json(c)->Object_0;
        let inner = outer[2].1->Object_0;
        lemma_object_plain(inner, 0);
        lemma_object_plain(outer, 1);
    }
    lemma_array_plain(items, 2);
}

/// The JSON of a message can be written.
pub proof fn lemma_message_writable(m: MessageV)
    ensures
        writable(message_json(m)),
{
    reveal_strlit("role");
    reveal_strlit("content");
    reveal_strlit("reasoning_content");
    reveal_strlit("tool_calls");
    reveal_strlit("tool_call_id");
    assert("role"@.len() == 4 && "content"@.len() == 7 && "reasoning_content"@.len() == 17
        && "tool_calls"@.len() == 10 && "tool_call_id"@.len() == 12);
    let entries = message_json(m)->Object_0;
    match m {
        MessageV::Assistant { tool_calls, .. } => {
            lemma_calls_plain(tool_calls);
            lemma_exact_writable(calls_json(tool_calls));
            assert(distinct_keys(entries));
            assert forall|i: int| 0 <= i < entries.len() implies writable(
                (#[trigger] entries[i]).1,
            ) by {}
        },
        _ => {
            assert(distinct_keys(entries));
        },
    }
    lemma_writable_object(entries);
}

/// The tool calls under a key, of which there are none where the key is absent.
pub open spec fn calls_field(j: JsonV, key: Seq<char>) -> Result<Seq<ToolCallV>, Seq<char>> {
    match j.get(key) {
        None => Ok(seq![]),
        Some(JsonV::Array(items)) => json_calls(items),
        Some(_) => Err(mistyped(key)),
    }
}

/// The answer of the model that JSON stands for.
pub open spec fn json_answer(j: JsonV) -> Result<MessageV, Seq<char>> {
    match opt_text_field(j, "content"@) {
        Err(e) => Err(e),
        Ok(content) => match opt_text_field(j, "reasoning_content"@) {
            Err(e) => Err(e),
            Ok(reasoning_content) => match calls_field(j, "tool_calls"@) {
                Err(e) => Err(e),
                Ok(tool_calls) => Ok(
                    MessageV::Assistant { content, reasoning_content, tool_calls },
                ),
            },
        },
    }
}

/// The fields of a message of the given role, and how many of the first of them
/// must be there.
pub open spec fn message_keys(role: Seq<char>) -> Option<(Seq<Seq<char>>, nat)> {
    if role == "system"@ || role == "user"@ {
        Some((seq!["role"@, "content"@], 2))
    } else if role == "assistant"@ {
        Some((seq!["role"@, "content"@, "reasoning_content"@, "tool_calls"@], 3))
    } else if role == "tool"@ {
        Some((seq!["role"@, "tool_call_id"@, "content"@], 3))
    } else {
        None
    }
}

/// The message of the given role that a JSON object stands for.
pub open spec fn message_of(role: Seq<char>, j: JsonV) -> Result<MessageV, Seq<char>> {
    if role == "system"@ {
        match text_field(j, "content"@) {
            Err(e) => Err(e),
            Ok(content) => Ok(MessageV::System { content }),
        }
    } else if role == "user"@ {
        match text_field(j, "content"@) {
            Err(e) => Err(e),
            Ok(content) => Ok(MessageV::User { content }),
        }
    } else if role == "assistant"@ {
        json_answer(j)
    } else {
        match text_field(j, "tool_call_id"@) {
            Err(e) => Err(e),
            Ok(tool_call_id) => match text_field(j, "content"@) {
                Err(e) => Err(e),
                Ok(content) => Ok(MessageV::Tool { tool_call_id, content }),
            },
        }
    }
}

/// The message that JSON stands for, or what is wrong with it.
pub open spec fn json_message(j: JsonV) -> Result<MessageV, Seq<char>> {
    match tag_field(j, "role"@) {
        Err(e) => Err(e),
        Ok(role) => match message_keys(role) {
            None => Err(unknown_variant(role)),
            Some((keys, least)) => match shaped(j, keys, least) {
                Err(e) => Err(e),
                Ok(j) => message_of(role, j),
            },
        },
    }
}

fn keys_of_message(role: &str) -> (r: Option<(Vec<&'static str>, usize)>)
    ensures
        match r {
            Some(k) => message_keys(role@) == Some((views(k.0@), k.1 as nat)),
            None => message_keys(role@) is None,
        },
{
    if same(role, "system") || same(role, "user") {
        let keys = vec!["role", "content"];
        assert(views(keys@) =~= seq!["role"@, "content"@]);
        Some((keys, 2))
    } else if same(role, "assistant") {
        let keys = vec!["role", "content", "reasoning_content", "tool_calls"];
        assert(views(keys@) =~= seq!["role"@, "content"@, "reasoning_content"@, "tool_calls"@]);
        Some((keys, 3))
    } else if same(role, "tool") {
        let keys = vec!["role", "tool_call_id", "content"];
        assert(views(keys@) =~= seq!["role"@, "tool_call_id"@, "content"@]);
        Some((keys, 3))
    } else {
        None
    }
}

fn read_answer(j: &Json) -> (r: Result<Message, String>)
    ensures
        view_res(r) == json_answer(j@),
{
    let content = match read_opt_text(j, "content") {
        Ok(o) => o,
        Err(e) => {
            return Err(e);
        },
    };
    let reasoning_content = match read_opt_text(j, "reasoning_content") {
        Ok(o) => o,
        Err(e) => {
            return Err(e);
        },
    };
    broadcast use crate::json::lemma_array_tree;

    match j.get("tool_calls") {
        None => {
            let tool_calls: Vec<ToolCall> = Vec::new();
            assert(views(tool_calls@) =~= Seq::<ToolCallV>::empty());
            Ok(Message::Assistant { content, reasoning_content, tool_calls })
        },
        Some(Json::Array(items)) => match read_calls(items) {
            Ok(tool_calls) => Ok(Message::Assistant { content, reasoning_content, tool_calls }),
            Err(e) => Err(e),
        },
        Some(_) => Err(mistyped_text("tool_calls")),
    }
}

impl Message {
    /// Reads a message from JSON.
    pub fn from_json(j: &Json) -> (r: Result<Message, String>)
        ensures
            view_res(r) == json_message(j@),
    {
        let role = match read_tag(j, "role") {
            Ok(s) => s,
            Err(e) => {
                return Err(e);
            },
        };
        let role = role.as_str();
        let (keys, least) = match keys_of_message(role) {
            Some(k) => k,
            None => {
                return Err(unknown_variant_text(role));
            },
        };
        let from_array = match shape(j, &keys, least) {
            Ok(o) => o,
            Err(e) => {
                return Err(e);
            },
        };
        let j = match &from_array {
            Some(o) => o,
            None => j,
        };
        if same(role, "system") {
            match read_text(j, "content") {
                Ok(content) => Ok(Message::System { content }),
                Err(e) => Err(e),
            }
        } else if same(role, "user") {
            match read_text(j, "content") {
                Ok(content) => Ok(Message::User { content }),
                Err(e) => Err(e),
            }
        } else if same(role, "assistant") {
            read_answer(j)
        } else {
            match read_text(j, "tool_call_id") {
                Ok(tool_call_id) => match read_text(j, "content") {
                    Ok(content) => Ok(Message::Tool { tool_call_id, content }),
                    Err(e) => Err(e),
                },
                Err(e) => Err(e),
            }
        }
    }
}

/// A message that is written as JSON is read back.
pub proof fn law_message_read_back(m: MessageV)
    ensures
        json_message(message_json(m)) == Ok::<MessageV, Seq<char>>(m),
{
    reveal_with_fuel(crate::json::lookup, 5);
    reveal_strlit("role");
    reveal_strlit("content");
    reveal_strlit("reasoning_content");
    reveal_strlit("tool_calls");
    reveal_strlit("tool_call_id");
    reveal_strlit("system");
    reveal_strlit("user");
    reveal_strlit("assistant");
    reveal_strlit("tool");
    assert("role"@.len() == 4 && "content"@.len() == 7 && "reasoning_content"@.len() == 17
        && "tool_calls"@.len() == 10 && "tool_call_id"@.len() == 12);
    assert("system"@.len() == 6 && "user"@.len() == 4 && "assistant"@.len() == 9
        && "tool"@.len() == 4);
    assert("user"@[0] == 'u' && "tool"@[0] == 't');
    let j = message_json(m);
    let entries = j->Object_0;
    assert(entries[0].0 == "role"@);
    match m {
        MessageV::Assistant { content, reasoning_content, tool_calls } => {
            law_calls_read_back(tool_calls);
            assert(entries.subrange(1, entries.len() as int) =~= opt_entry("content"@, content)
                + opt_entry("reasoning_content"@, reasoning_content) + (if tool_calls.len() == 0 {
                seq![]
            } else {
                seq![("tool_calls"@, calls_json(tool_calls))]
            }));
            if tool_calls.len() == 0 {
                assert(tool_calls =~= Seq::<ToolCallV>::empty());
            }
        },
        _ => {},
    }
}

/// The key stands in the object with the text, or not at all where there is none.
spec fn holds_opt(j: JsonV, key: Seq<char>, o: Option<Seq<char>>) -> bool {
    match o {
        Some(s) => j.get(key) == Some(JsonV::Text(s)),
        None => j.get(key) is None,
    }
}

/// A tool call is written with its identifier, its type, and the name and the
/// arguments of the function.
pub proof fn law_calls_are_written(c: ToolCallV)
    ensures
        call_json(c).get("id"@) == Some(JsonV::Text(c.id)),
        call_json(c).get("type"@) == Some(JsonV::Text(c.kind)),
        call_json(c).get("function"@) matches Some(f) && f.get("name"@) == Some(
            JsonV::Text(c.name),
        ) && f.get("arguments"@) == Some(JsonV::Text(c.arguments)),
{
    reveal_strlit("id");
    reveal_strlit("type");
    reveal_strlit("function");
    reveal_strlit("name");
    reveal_strlit("arguments");
    assert("id"@.len() == 2 && "type"@.len() == 4 && "function"@.len() == 8);
    assert("name"@.len() == 4 && "arguments"@.len() == 9);
    let entries = call_json(c)->Object_0;
    lemma_entry(entries, 0);
    lemma_entry(entries, 1);
    lemma_entry(entries, 2);
    let inner = entries[2].1->Object_0;
    lemma_entry(inner, 0);
    lemma_entry(inner, 1);
}

/// A message is written with its role and all that it holds, under the names that
/// the service knows; what an answer does not hold is left out.
pub proof fn law_messages_are_written(
    text: Seq<char>,
    id: Seq<char>,
    content: Option<Seq<char>>,
    reasoning_content: Option<Seq<char>>,
    tool_calls: Seq<ToolCallV>,
)
    ensures
        ({
            let j = message_json(MessageV::System { content: text });
            j.get("role"@) == Some(JsonV::Text("system"@)) && j.get("content"@) == Some(
                JsonV::Text(text),
            )
        }),
        ({
            let j = message_json(MessageV::User { content: text });
            j.get("role"@) == Some(JsonV::Text("user"@)) && j.get("content"@) == Some(
                JsonV::Text(text),
            )
        }),
        ({
            let j = message_json(MessageV::Tool { tool_call_id: id, content: text });
            j.get("role"@) == Some(JsonV::Text("tool"@)) && j.get("tool_call_id"@) == Some(
                JsonV::Text(id),
            ) && j.get("content"@) == Some(JsonV::Text(text))
        }),
        ({
            let j = message_json(
                MessageV::Assistant { content, reasoning_content, tool_calls },
            );
            &&& j.get("role"@) == Some(JsonV::Text("assistant"@))
            &&& match content {
                Some(s) => j.get("content"@) == Some(JsonV::Text(s)),
                None => j.get("content"@) is None,
            }
            &&& match reasoning_content {
                Some(s) => j.get("reasoning_content"@) == Some(JsonV::Text(s)),
                None => j.get("reasoning_content"@) is None,
            }
            &&& if tool_calls.len() == 0 {
                j.get("tool_calls"@) is None
            } else {
                j.get("tool_calls"@) matches Some(JsonV::Array(items)) && items.len()
                    == tool_calls.len() && forall|i: int|
                    0 <= i < items.len() ==> #[trigger] items[i] == call_json(tool_calls[i])
            }
        }),
{
    reveal_strlit("role");
    reveal_strlit("content");
    reveal_strlit("reasoning_content");
    reveal_strlit("tool_calls");
    reveal_strlit("tool_call_id");
    assert("role"@.len() == 4 && "content"@.len() == 7 && "reasoning_content"@.len() == 17
        && "tool_calls"@.len() == 10 && "tool_call_id"@.len() == 12);
    let system = message_json(MessageV::System { content: text })->Object_0;
    lemma_entry(system, 0);
    lemma_entry(system, 1);
    let user = message_json(MessageV::User { content: text })->Object_0;
    lemma_entry(user, 0);
    lemma_entry(user, 1);
    let tool = message_json(MessageV::Tool { tool_call_id: id, content: text })->Object_0;
    lemma_entry(tool, 0);
    lemma_entry(tool, 1);
    lemma_entry(tool, 2);
    lemma_answer_written(content, reasoning_content, tool_calls);
}

proof fn lemma_answer_written(
    content: Option<Seq<char>>,
    reasoning_content: Option<Seq<char>>,
    tool_calls: Seq<ToolCallV>,
)
    ensures
        ({
            let j = message_json(
                MessageV::Assistant { content, reasoning_content, tool_calls },
            );
            &&& j.get("role"@) == Some(JsonV::Text("assistant"@))
            &&& holds_opt(j, "content"@, content)
            &&& holds_opt(j, "reasoning_content"@, reasoning_content)
            &&& if tool_calls.len() == 0 {
                j.get("tool_calls"@) is None
            } else {
                j.get("tool_calls"@) == Some(calls_json(tool_calls))
            }
        }),
{
    reveal_strlit("role");
    reveal_strlit("content");
    reveal_strlit("reasoning_content");
    reveal_strlit("tool_calls");
    assert("role"@.len() == 4 && "content"@.len() == 7 && "reasoning_content"@.len() == 17
        && "tool_calls"@.len() == 10);
    reveal_with_fuel(lookup, 2);
    let a = seq![("role"@, JsonV::Text("assistant"@))];
    let b = opt_entry("content"@, content);
    let c = opt_entry("reasoning_content"@, reasoning_content);
    let d: Seq<(Seq<char>, JsonV)> = if tool_calls.len() == 0 {
        seq![]
    } else {
        seq![("tool_calls"@, calls_json(tool_calls))]
    };
    lemma_sum_of_four(a, b, c, d, "role"@);
    lemma_sum_of_four(a, b, c, d, "content"@);
    lemma_sum_of_four(a, b, c, d, "reasoning_content"@);
    lemma_sum_of_four(a, b, c, d, "tool_calls"@);
}

proof fn lemma_sum_of_four(
    a: Seq<(Seq<char>, JsonV)>,
    b: Seq<(Seq<char>, JsonV)>,
    c: Seq<(Seq<char>, JsonV)>,
    d: Seq<(Seq<char>, JsonV)>,
    key: Seq<char>,
)
    ensures
        lookup(a + b + c + d, key) == (match lookup(a, key) {
            Some(v) => Some(v),
            None => match lookup(b, key) {
                Some(v) => Some(v),
                None => match lookup(c, key) {
                    Some(v) => Some(v),
                    None => lookup(d, key),
                },
            },
        }),
{
    lemma_lookup_in_sum(a, b, key);
    lemma_lookup_in_sum(a + b, c, key);
    lemma_lookup_in_sum(a + b + c, d, key);
}

/// A tool call is read from its identifier, its type and its function, and that
/// from its name and its arguments, whatever else stands there.
pub proof fn law_calls_are_read(j: JsonV, f: JsonV, c: ToolCallV)
    requires
        stands(j, seq!["id"@, "type"@, "function"@], 3, 0, JsonV::Text(c.id)),
        stands(j, seq!["id"@, "type"@, "function"@], 3, 1, JsonV::Text(c.kind)),
        stands(j, seq!["id"@, "type"@, "function"@], 3, 2, f),
        stands(f, seq!["name"@, "arguments"@], 2, 0, JsonV::Text(c.name)),
        stands(f, seq!["name"@, "arguments"@], 2, 1, JsonV::Text(c.arguments)),
    ensures
        json_call(j) == Ok::<ToolCallV, Seq<char>>(c),
{
    reveal_strlit("id");
    reveal_strlit("type");
    reveal_strlit("function");
    reveal_strlit("name");
    reveal_strlit("arguments");
    assert("id"@.len() == 2 && "type"@.len() == 4 && "function"@.len() == 8);
    assert("name"@.len() == 4 && "arguments"@.len() == 9);
    let keys = seq!["id"@, "type"@, "function"@];
    let inner = seq!["name"@, "arguments"@];
    lemma_stands(j, keys, 3, 0, JsonV::Text(c.id));
    lemma_stands(j, keys, 3, 1, JsonV::Text(c.kind));
    lemma_stands(j, keys, 3, 2, f);
    lemma_stands(f, inner, 2, 0, JsonV::Text(c.name));
    lemma_stands(f, inner, 2, 1, JsonV::Text(c.arguments));
}

/// Tool calls are read one after the other, and one that cannot be read is an
/// error.
pub proof fn law_calls_are_read_in_order(s: Seq<JsonV>, j: JsonV)
    ensures
        json_calls(seq![]) == Ok::<Seq<ToolCallV>, Seq<char>>(seq![]),
        match (json_calls(s), json_call(j)) {
            (Ok(done), Ok(c)) => json_calls(s.push(j)) == Ok::<Seq<ToolCallV>, Seq<char>>(
                done.push(c),
            ),
            (Ok(_), Err(e)) => json_calls(s.push(j)) == Err::<Seq<ToolCallV>, Seq<char>>(e),
            (Err(e), _) => json_calls(s.push(j)) == Err::<Seq<ToolCallV>, Seq<char>>(e),
        },
{
    assert(s.push(j).drop_last() =~= s);
}

/// A message of the system, of the user or of a tool is read from its role and
/// its fields, whatever else stands there.
pub proof fn law_messages_are_read(j: JsonV, text: Seq<char>, id: Seq<char>)
    ensures
        stands(j, seq!["role"@, "content"@], 2, 1, JsonV::Text(text)) ==> {
            &&& stands(j, seq!["role"@, "content"@], 2, 0, JsonV::Text("system"@)) ==> json_message(
                j,
            ) == Ok::<MessageV, Seq<char>>(MessageV::System { content: text })
            &&& stands(j, seq!["role"@, "content"@], 2, 0, JsonV::Text("user"@)) ==> json_message(j)
                == Ok::<MessageV, Seq<char>>(MessageV::User { content: text })
        },
        ({
            let keys = seq!["role"@, "tool_call_id"@, "content"@];
            stands(j, keys, 3, 0, JsonV::Text("tool"@)) && stands(j, keys, 3, 1, JsonV::Text(id))
                && stands(j, keys, 3, 2, JsonV::Text(text)) ==> json_message(j) == Ok::<
                MessageV,
                Seq<char>,
            >(MessageV::Tool { tool_call_id: id, content: text })
        }),
{
    reveal_strlit("role");
    reveal_strlit("content");
    reveal_strlit("tool_call_id");
    reveal_strlit("system");
    reveal_strlit("user");
    reveal_strlit("assistant");
    reveal_strlit("tool");
    assert("role"@.len() == 4 && "content"@.len() == 7 && "tool_call_id"@.len() == 12);
    assert("system"@.len() == 6 && "user"@.len() == 4 && "assistant"@.len() == 9 && "tool"@.len()
        == 4);
    assert("user"@[0] != "tool"@[0]);
    let two = seq!["role"@, "content"@];
    lemma_stands(j, two, 2, 0, JsonV::Text("system"@));
    lemma_stands(j, two, 2, 1, JsonV::Text(text));
    let three = seq!["role"@, "tool_call_id"@, "content"@];
    lemma_stands(j, three, 3, 0, JsonV::Text("tool"@));
    lemma_stands(j, three, 3, 1, JsonV::Text(id));
    lemma_stands(j, three, 3, 2, JsonV::Text(text));
}

/// An answer is read from its text, its reasoning and its tool calls, of which any
/// may be missing.
pub proof fn law_answers_are_read(
    j: JsonV,
    content: Option<Seq<char>>,
    reasoning_content: Option<Seq<char>>,
    items: Seq<JsonV>,
    calls: Seq<ToolCallV>,
)
    requires
        ({
            let keys = seq!["role"@, "content"@, "reasoning_content"@, "tool_calls"@];
            &&& stands(j, keys, 3, 0, JsonV::Text("assistant"@))
            &&& match content {
                Some(s) => stands(j, keys, 3, 1, JsonV::Text(s)),
                None => is_blank(j, keys, 3, 1),
            }
            &&& match reasoning_content {
                Some(s) => stands(j, keys, 3, 2, JsonV::Text(s)),
                None => is_blank(j, keys, 3, 2),
            }
            &&& stands(j, keys, 3, 3, JsonV::Array(items)) && json_calls(items) == Ok::<
                Seq<ToolCallV>,
                Seq<char>,
            >(calls)
        }),
    ensures
        json_message(j) == Ok::<MessageV, Seq<char>>(
            MessageV::Assistant { content, reasoning_content, tool_calls: calls },
        ),
{
    reveal_strlit("role");
    reveal_strlit("content");
    reveal_strlit("reasoning_content");
    reveal_strlit("tool_calls");
    reveal_strlit("system");
    reveal_strlit("user");
    reveal_strlit("assistant");
    assert("role"@.len() == 4 && "content"@.len() == 7 && "reasoning_content"@.len() == 17
        && "tool_calls"@.len() == 10);
    assert("system"@.len() == 6 && "user"@.len() == 4 && "assistant"@.len() == 9);
    let keys = seq!["role"@, "content"@, "reasoning_content"@, "tool_calls"@];
    lemma_stands(j, keys, 3, 0, JsonV::Text("assistant"@));
    lemma_stands(j, keys, 3, 1, JsonV::Text(or_nothing(content)));
    lemma_stands(j, keys, 3, 2, JsonV::Text(or_nothing(reasoning_content)));
    lemma_stands(j, keys, 3, 3, JsonV::Array(items));
}

spec fn or_nothing(o: Option<Seq<char>>) -> Seq<char> {
    match o {
        Some(s) => s,
        None => seq![],
    }
}

} // verus!
