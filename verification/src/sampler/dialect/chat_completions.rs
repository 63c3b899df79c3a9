//! The chat completions protocol of DeepSeek and OpenAI.
use super::{
    stop_reason, Dialect, SamplingEvent, SamplingEventV, SamplingRequest, SamplingRequestV,
    StopReason, Usage,
};
use crate::api::{lemma_message_writable, message_json, MessageV};
use crate::errors::{ApiError, ApiErrorV};
use crate::json::{
    distinct_keys, entry_trees, json_parse, lemma_entry, lemma_writable_array, lemma_writable_object, trees,
    writable, Json, JsonV,
};
use crate::text::{view_opt, views};
use crate::wire::{array, no_entries, no_items, object, put, put_item, text_json};
use vstd::prelude::*;

verus! {

#[derive(Copy, Clone, Debug)]
pub struct ChatCompletionsDialect;

// ---------------------------------------------------------------------------
// Requests
// ---------------------------------------------------------------------------
/// The body of a request: the model, the conversation, that the answer is to
/// be streamed and to end with a count of its tokens, and the tools.
pub open spec fn request_json(req: SamplingRequestV) -> JsonV {
    JsonV::Object(
        seq![
            ("model"@, JsonV::Text(req.model.api_id)),
            ("messages"@, JsonV::Array(req.messages.map_values(|m: MessageV| message_json(m)))),
            ("stream"@, JsonV::Bool(true)),
            ("stream_options"@, JsonV::Object(seq![("include_usage"@, JsonV::Bool(true))])),
            ("tools"@, JsonV::Array(req.tools_schema)),
        ],
    )
}

// ---------------------------------------------------------------------------
// Answers
// ---------------------------------------------------------------------------
/// The value below two keys.
pub open spec fn get2(v: JsonV, a: Seq<char>, b: Seq<char>) -> Option<JsonV> {
    match v.get(a) {
        Some(x) => x.get(b),
        None => None,
    }
}

/// The text under a key.
pub open spec fn text_at(v: JsonV, key: Seq<char>) -> Option<Seq<char>> {
    match v.get(key) {
        Some(x) => x.text(),
        None => None,
    }
}

/// The number under a key; zero where there is none.
pub open spec fn number_at(v: JsonV, key: Seq<char>) -> u64 {
    match v.get(key) {
        Some(x) => match x.number() {
            Some(n) => n,
            None => 0,
        },
        None => 0,
    }
}

/// The low 32 bits of a number.
pub open spec fn low_bits(n: u64) -> u32 {
    (n % 0x1_0000_0000) as u32
}

fn narrow(n: u64) -> (r: u32)
    ensures
        r == low_bits(n),
{
    (n % 0x1_0000_0000) as u32
}

/// The count of tokens that a chunk carries. A count beyond 32 bits keeps its
/// low 32 bits.
pub open spec fn usage_of(v: JsonV) -> Option<Usage> {
    match v.get("usage"@) {
        Some(u) => if u == JsonV::Null {
            None
        } else {
            Some(
                Usage {
                    prompt_tokens: low_bits(number_at(u, "prompt_tokens"@)),
                    completion_tokens: low_bits(number_at(u, "completion_tokens"@)),
                    total_tokens: low_bits(number_at(u, "total_tokens"@)),
                },
            )
        },
        None => None,
    }
}

/// The text under a key, where it is not empty.
pub open spec fn filled(v: JsonV, key: Seq<char>) -> Option<Seq<char>> {
    match text_at(v, key) {
        Some(s) => if s.len() > 0 {
            Some(s)
        } else {
            None
        },
        None => None,
    }
}

/// The piece of a tool call that a chunk carries.
pub open spec fn call_delta(tc: JsonV) -> SamplingEventV {
    SamplingEventV::ToolCallDelta {
        index: number_at(tc, "index"@) as usize,
        id: text_at(tc, "id"@),
        name: match tc.get("function"@) {
            Some(f) => text_at(f, "name"@),
            None => None,
        },
        arguments_fragment: match tc.get("function"@) {
            Some(f) => match text_at(f, "arguments"@) {
                Some(s) => s,
                None => seq![],
            },
            None => seq![],
        },
    }
}

/// The first tool call of a delta.
pub open spec fn first_call(delta: JsonV) -> Option<JsonV> {
    match delta.get("tool_calls"@) {
        Some(calls) => calls.first(),
        None => None,
    }
}

/// What a delta adds: text comes before reasoning, and reasoning before the
/// first of the tool calls.
pub open spec fn delta_events(delta: JsonV) -> Seq<SamplingEventV> {
    match filled(delta, "content"@) {
        Some(s) => seq![SamplingEventV::TextDelta(s)],
        None => match filled(delta, "reasoning_content"@) {
            Some(s) => seq![SamplingEventV::ReasoningDelta(s)],
            None => match first_call(delta) {
                Some(tc) => seq![call_delta(tc)],
                None => seq![],
            },
        },
    }
}

/// The answer ends with this choice: it names a reason, and carries neither
/// content nor tool calls any more.
pub open spec fn finish(choice: JsonV) -> Option<Seq<char>> {
    match text_at(choice, "finish_reason"@) {
        Some(reason) => if get2(choice, "delta"@, "content"@) is None && get2(
            choice,
            "delta"@,
            "tool_calls"@,
        ) is None {
            Some(reason)
        } else {
            None
        },
        None => None,
    }
}

/// The events of a chunk: none or one. Without a choice only a count of tokens
/// counts, which ends the answer.
pub open spec fn chunk_events(v: JsonV) -> Seq<SamplingEventV> {
    let choice = match v.get("choices"@) {
        Some(c) => c.first(),
        None => None,
    };
    match choice {
        None => match usage_of(v) {
            Some(u) => seq![SamplingEventV::Done { reason: StopReason::Other, usage: Some(u) }],
            None => seq![],
        },
        Some(choice) => match finish(choice) {
            Some(reason) => seq![
                SamplingEventV::Done { reason: stop_reason(reason), usage: usage_of(v) },
            ],
            None => match choice.get("delta"@) {
                Some(delta) => delta_events(delta),
                None => seq![],
            },
        },
    }
}

fn read_text_at<'a>(v: &'a Json, key: &str) -> (r: Option<&'a String>)
    ensures
        view_opt(r) == text_at(v@, key@),
{
    match v.get(key) {
        Some(x) => x.as_text(),
        None => None,
    }
}

fn read_number_at(v: &Json, key: &str) -> (r: u64)
    ensures
        r == number_at(v@, key@),
{
    match v.get(key) {
        Some(x) => match x.as_number() {
            Some(n) => n,
            None => 0,
        },
        None => 0,
    }
}

fn owned(o: Option<&String>) -> (r: Option<String>)
    ensures
        view_opt(r) == view_opt(o),
{
    match o {
        Some(s) => Some(s.clone()),
        None => None,
    }
}

fn parse_usage(v: &Json) -> (r: Option<Usage>)
    ensures
        r == usage_of(v@),
{
    match v.get("usage") {
        Some(u) => if u.is_null() {
            None
        } else {
            Some(
                Usage {
                    prompt_tokens: narrow(read_number_at(u, "prompt_tokens")),
                    completion_tokens: narrow(read_number_at(u, "completion_tokens")),
                    total_tokens: narrow(read_number_at(u, "total_tokens")),
                },
            )
        },
        None => None,
    }
}

fn read_filled(v: &Json, key: &str) -> (r: Option<String>)
    ensures
        view_opt(r) == filled(v@, key@),
{
    match read_text_at(v, key) {
        Some(s) => if s.as_str().is_empty() {
            None
        } else {
            Some(s.clone())
        },
        None => None,
    }
}

fn read_call_delta(tc: &Json) -> (r: SamplingEvent)
    ensures
        r@ == call_delta(tc@),
{
    let index: usize = read_number_at(tc, "index") as usize;
    let id = owned(read_text_at(tc, "id"));
    let (name, arguments_fragment) = match tc.get("function") {
        Some(f) => {
            let name = owned(read_text_at(f, "name"));
            let arguments = match read_text_at(f, "arguments") {
                Some(s) => s.clone(),
                None => String::new(),
            };
            (name, arguments)
        },
        None => (None, String::new()),
    };
    SamplingEvent::ToolCallDelta { index, id, name, arguments_fragment }
}

fn one(ev: SamplingEvent) -> (r: Vec<SamplingEvent>)
    ensures
        views(r@) == seq![ev@],
{
    let mut v: Vec<SamplingEvent> = Vec::new();
    v.push(ev);
    assert(views(v@) =~= seq![ev@]);
    v
}

fn none() -> (r: Vec<SamplingEvent>)
    ensures
        views(r@) == Seq::<SamplingEventV>::empty(),
{
    let v: Vec<SamplingEvent> = Vec::new();
    assert(views(v@) =~= Seq::<SamplingEventV>::empty());
    v
}

fn read_delta(delta: &Json) -> (r: Vec<SamplingEvent>)
    ensures
        views(r@) == delta_events(delta@),
{
    match read_filled(delta, "content") {
        Some(s) => {
            return one(SamplingEvent::TextDelta(s));
        },
        None => {},
    }
    match read_filled(delta, "reasoning_content") {
        Some(s) => {
            return one(SamplingEvent::ReasoningDelta(s));
        },
        None => {},
    }
    match delta.get("tool_calls") {
        Some(calls) => match calls.first() {
            Some(tc) => one(read_call_delta(tc)),
            None => none(),
        },
        None => none(),
    }
}

fn delta_has(choice: &Json, key: &str) -> (r: bool)
    ensures
        r == (get2(choice@, "delta"@, key@) is Some),
{
    match choice.get("delta") {
        Some(delta) => delta.get(key).is_some(),
        None => false,
    }
}

/// The events of a chunk.
pub fn events_of(v: &Json) -> (r: Vec<SamplingEvent>)
    ensures
        views(r@) == chunk_events(v@),
{
    let usage = parse_usage(v);
    let choice = match v.get("choices") {
        Some(c) => c.first(),
        None => None,
    };
    match choice {
        None => match usage {
            Some(u) => one(SamplingEvent::Done { reason: StopReason::Other, usage: Some(u) }),
            None => none(),
        },
        Some(choice) => {
            match read_text_at(choice, "finish_reason") {
                Some(reason) => {
                    if !delta_has(choice, "content") && !delta_has(choice, "tool_calls") {
                        let reason = StopReason::from_chat_completions(reason.as_str());
                        return one(SamplingEvent::Done { reason, usage });
                    }
                },
                None => {},
            }
            match choice.get("delta") {
                Some(delta) => read_delta(delta),
                None => none(),
            }
        },
    }
}

impl Dialect for ChatCompletionsDialect {
    open spec fn endpoint(&self) -> Seq<char> {
        "/v1/chat/completions"@
    }

    open spec fn body(&self, req: SamplingRequestV) -> Result<JsonV, ApiErrorV> {
        Ok(request_json(req))
    }

    open spec fn events(&self, payload: Seq<char>) -> Result<Seq<SamplingEventV>, ApiErrorV> {
        match json_parse(payload) {
            Ok(v) => Ok(chunk_events(v)),
            Err(e) => Err(ApiErrorV::BadJson(e)),
        }
    }

    open spec fn sentinel(&self) -> Option<Seq<char>> {
        Some("[DONE]"@)
    }

    fn endpoint_path(&self) -> (r: &'static str) {
        "/v1/chat/completions"
    }

    fn build_body(&self, req: &SamplingRequest) -> (r: Result<Json, ApiError>) {
        let mut messages = no_items();
        let ghost all = req@.messages.map_values(|m: MessageV| message_json(m));
        let mut i: usize = 0;
        assert(all.subrange(0, 0) =~= Seq::<JsonV>::empty());
        while i < req.messages.len()
            invariant
                i <= req.messages@.len(),
                all == req@.messages.map_values(|m: MessageV| message_json(m)),
                trees(messages@) == all.subrange(0, i as int),
            decreases req.messages@.len() - i,
        {
            put_item(&mut messages, req.messages[i].to_json());
            assert(all.subrange(0, i + 1) =~= all.subrange(0, i as int).push(all[i as int]));
            i = i + 1;
        }
        assert(all.subrange(0, i as int) =~= all);
        let mut tools = no_items();
        let mut k: usize = 0;
        assert(req@.tools_schema.subrange(0, 0) =~= Seq::<JsonV>::empty());
        while k < req.tools_schema.len()
            invariant
                k <= req.tools_schema@.len(),
                trees(tools@) == req@.tools_schema.subrange(0, k as int),
            decreases req.tools_schema@.len() - k,
        {
            put_item(&mut tools, req.tools_schema[k].clone());
            assert(req@.tools_schema.subrange(0, k + 1) =~= req@.tools_schema.subrange(
                0,
                k as int,
            ).push(req@.tools_schema[k as int]));
            k = k + 1;
        }
        assert(req@.tools_schema.subrange(0, k as int) =~= req@.tools_schema);
        let mut options = no_entries();
        put(&mut options, "include_usage", Json::Bool(true));
        let ghost inner = entry_trees(options@);
        let mut v = no_entries();
        put(&mut v, "model", text_json(req.model.api_id()));
        put(&mut v, "messages", array(messages));
        put(&mut v, "stream", Json::Bool(true));
        put(&mut v, "stream_options", object(options));
        put(&mut v, "tools", array(tools));
        proof {
            let tree = request_json(req@)->Object_0;
            assert(inner =~= tree[3].1->Object_0);
            assert(entry_trees(v@) =~= tree);
        }
        Ok(object(v))
    }

    fn parse_chunk(&self, payload: &str) -> (r: Result<Vec<SamplingEvent>, ApiError>) {
        match Json::parse(payload) {
            Ok(v) => Ok(events_of(&v)),
            Err(e) => Err(ApiError::BadJson(e)),
        }
    }

    fn done_sentinel(&self) -> (r: Option<&'static str>) {
        Some("[DONE]")
    }
}

/// A chunk stands for at most one event.
pub proof fn law_chunk_gives_at_most_one_event(v: JsonV)
    ensures
        chunk_events(v).len() <= 1,
{
}

/// The body of a request can be written where the schemas of the tools can.
pub proof fn law_request_can_be_written(req: SamplingRequestV)
    requires
        forall|i: int| 0 <= i < req.tools_schema.len() ==> writable(#[trigger] req.tools_schema[i]),
    ensures
        writable(request_json(req)),
{
    let messages = req.messages.map_values(|m: MessageV| message_json(m));
    assert forall|i: int| 0 <= i < messages.len() implies writable(#[trigger] messages[i]) by {
        lemma_message_writable(req.messages[i]);
    }
    lemma_writable_array(messages);
    lemma_writable_array(req.tools_schema);
    reveal_strlit("model");
    reveal_strlit("messages");
    reveal_strlit("stream");
    reveal_strlit("stream_options");
    reveal_strlit("tools");
    assert("model"@.len() == 5 && "messages"@.len() == 8 && "stream"@.len() == 6
        && "stream_options"@.len() == 14 && "tools"@.len() == 5);
    assert("model"@[0] == 'm' && "tools"@[0] == 't');
    let entries = request_json(req)->Object_0;
    let options = entries[3].1->Object_0;
    assert(distinct_keys(options));
    assert(writable(options[0].1));
    assert(writable(entries[3].1));
    assert(writable(entries[1].1));
    assert(writable(entries[4].1));
    assert(distinct_keys(entries));
    lemma_writable_object(entries);
}

// ---------------------------------------------------------------------------
// What holds of chunks and requests
// ---------------------------------------------------------------------------
/// The chunk carries the delta: it stands in the first of the choices.
pub open spec fn carries(v: JsonV, choice: JsonV, delta: JsonV) -> bool {
    &&& v.get("choices"@) matches Some(JsonV::Array(choices)) && choices.len() > 0 && choices[0]
        == choice
    &&& choice.get("delta"@) == Some(delta)
}

/// The text that stands under a key, where a string stands there.
pub open spec fn string_under(v: JsonV, key: Seq<char>) -> Option<Seq<char>> {
    match v.get(key) {
        Some(JsonV::Text(s)) => Some(s),
        _ => None,
    }
}

/// A text that is not empty stands under the key.
pub open spec fn says(v: JsonV, key: Seq<char>) -> bool {
    v.get(key) matches Some(JsonV::Text(s)) && s.len() > 0
}

/// A chunk with a text gives that text, whatever else it holds.
pub proof fn law_content_is_text(v: JsonV, choice: JsonV, delta: JsonV, s: Seq<char>)
    requires
        carries(v, choice, delta),
        delta.get("content"@) == Some(JsonV::Text(s)),
        s.len() > 0,
    ensures
        chunk_events(v) == seq![SamplingEventV::TextDelta(s)],
{
}

/// A chunk without a text but with reasoning gives that reasoning, unless it ends
/// the answer.
pub proof fn law_reasoning_is_reasoning(v: JsonV, choice: JsonV, delta: JsonV, s: Seq<char>)
    requires
        carries(v, choice, delta),
        !says(delta, "content"@),
        delta.get("reasoning_content"@) == Some(JsonV::Text(s)),
        s.len() > 0,
        string_under(choice, "finish_reason"@) is None || delta.get("content"@) is Some
            || delta.get("tool_calls"@) is Some,
    ensures
        chunk_events(v) == seq![SamplingEventV::ReasoningDelta(s)],
{
}

/// A chunk with neither text nor reasoning but with tool calls gives a piece of
/// the first of them: its arguments, its name and its identifier, each as it
/// stands there whatever else the call holds or lacks, and its index.
pub proof fn law_tool_call_pieces_are_read(
    v: JsonV,
    choice: JsonV,
    delta: JsonV,
    calls: Seq<JsonV>,
)
    requires
        carries(v, choice, delta),
        !says(delta, "content"@),
        !says(delta, "reasoning_content"@),
        delta.get("tool_calls"@) == Some(JsonV::Array(calls)),
        calls.len() > 0,
    ensures
        chunk_events(v).len() == 1,
        chunk_events(v)[0] matches SamplingEventV::ToolCallDelta {
            index,
            id,
            name,
            arguments_fragment,
        } && {
            &&& id == string_under(calls[0], "id"@)
            &&& match calls[0].get("function"@) {
                Some(f) => {
                    &&& name == string_under(f, "name"@)
                    &&& match f.get("arguments"@) {
                        Some(JsonV::Text(s)) => arguments_fragment == s,
                        _ => arguments_fragment.len() == 0,
                    }
                },
                None => name is None && arguments_fragment.len() == 0,
            }
            &&& match calls[0].get("index"@) {
                Some(JsonV::Number(n)) => index == n as usize,
                _ => index == 0,
            }
        },
{
}

/// The usage is what the chunk counts: each number by its low 32 bits, and zero
/// where there is none. A chunk that counts nothing has no usage.
pub proof fn law_usage_is_counted(v: JsonV, u: JsonV)
    ensures
        v.get("usage"@) is None || v.get("usage"@) == Some(JsonV::Null) ==> usage_of(v) is None,
        v.get("usage"@) == Some(u) && u != JsonV::Null ==> (usage_of(v) matches Some(usage) && {
            &&& match u.get("prompt_tokens"@) {
                Some(JsonV::Number(n)) => usage.prompt_tokens == n % 0x1_0000_0000,
                _ => usage.prompt_tokens == 0,
            }
            &&& match u.get("completion_tokens"@) {
                Some(JsonV::Number(n)) => usage.completion_tokens == n % 0x1_0000_0000,
                _ => usage.completion_tokens == 0,
            }
            &&& match u.get("total_tokens"@) {
                Some(JsonV::Number(n)) => usage.total_tokens == n % 0x1_0000_0000,
                _ => usage.total_tokens == 0,
            }
        }),
{
}

/// A chunk with a reason to finish, and with neither content nor tool calls, ends
/// the answer for that reason and with the usage of the chunk.
pub proof fn law_finish_reason_ends_the_answer(
    v: JsonV,
    choice: JsonV,
    choices: Seq<JsonV>,
    reason: Seq<char>,
)
    requires
        v.get("choices"@) == Some(JsonV::Array(choices)),
        choices.len() > 0,
        choices[0] == choice,
        choice.get("finish_reason"@) == Some(JsonV::Text(reason)),
        choice.get("delta"@) matches Some(delta) ==> delta.get("content"@) is None && delta.get(
            "tool_calls"@,
        ) is None,
    ensures
        chunk_events(v) == seq![
            SamplingEventV::Done {
                reason: if reason == "stop"@ {
                    StopReason::EndTurn
                } else if reason == "tool_calls"@ {
                    StopReason::ToolUse
                } else if reason == "length"@ {
                    StopReason::MaxTokens
                } else {
                    StopReason::Other
                },
                usage: usage_of(v),
            },
        ],
{
}

/// A chunk without choices ends the answer where it counts the usage, and else
/// gives nothing; so does a choice that says nothing.
pub proof fn law_other_chunks_give_nothing(v: JsonV, choice: JsonV)
    ensures
        !(v.get("choices"@) matches Some(JsonV::Array(choices)) && choices.len() > 0) ==> (
        match usage_of(v) {
            Some(u) => chunk_events(v) == seq![
                SamplingEventV::Done { reason: StopReason::Other, usage: Some(u) },
            ],
            None => chunk_events(v).len() == 0,
        }),
        (v.get("choices"@) matches Some(JsonV::Array(choices)) && choices.len() > 0 && choices[0]
            == choice) && string_under(choice, "finish_reason"@) is None && (choice.get(
            "delta"@,
        ) matches Some(delta) ==> !says(delta, "content"@) && !says(delta, "reasoning_content"@)
            && !(delta.get("tool_calls"@) matches Some(JsonV::Array(calls)) && calls.len() > 0))
            ==> chunk_events(v).len() == 0,
{
}

/// Data that is no JSON is an error that says why; the stream ends with `[DONE]`.
pub proof fn law_data_is_json(payload: Seq<char>)
    ensures
        match json_parse(payload) {
            Ok(v) => ChatCompletionsDialect.events(payload) == Ok::<
                Seq<SamplingEventV>,
                ApiErrorV,
            >(chunk_events(v)),
            Err(e) => ChatCompletionsDialect.events(payload) == Err::<
                Seq<SamplingEventV>,
                ApiErrorV,
            >(ApiErrorV::BadJson(e)),
        },
        ChatCompletionsDialect.sentinel() == Some("[DONE]"@),
        ChatCompletionsDialect.endpoint() == "/v1/chat/completions"@,
{
}

/// A request names the model as its provider does, holds every message in order,
/// asks for a stream that ends with the usage, and holds every tool in order.
pub proof fn law_request_holds_everything(req: SamplingRequestV)
    ensures
        ChatCompletionsDialect.body(req) matches Ok(j) && {
            &&& j.get("model"@) == Some(JsonV::Text(req.model.api_id))
            &&& j.get("messages"@) matches Some(JsonV::Array(items)) && items.len()
                == req.messages.len() && forall|i: int|
                0 <= i < items.len() ==> #[trigger] items[i] == message_json(req.messages[i])
            &&& j.get("stream"@) == Some(JsonV::Bool(true))
            &&& j.get("stream_options"@) matches Some(options) && options.get("include_usage"@)
                == Some(JsonV::Bool(true))
            &&& j.get("tools"@) == Some(JsonV::Array(req.tools_schema))
        },
{
    reveal_strlit("model");
    reveal_strlit("messages");
    reveal_strlit("stream");
    reveal_strlit("stream_options");
    reveal_strlit("tools");
    assert("model"@.len() == 5 && "messages"@.len() == 8 && "stream"@.len() == 6
        && "stream_options"@.len() == 14 && "tools"@.len() == 5);
    assert("model"@[0] != "tools"@[0]);
    let entries = request_json(req)->Object_0;
    lemma_entry(entries, 0);
    lemma_entry(entries, 1);
    lemma_entry(entries, 2);
    lemma_entry(entries, 3);
    lemma_entry(entries, 4);
    lemma_entry(seq![("include_usage"@, JsonV::Bool(true))], 0);
}

} // verus!
