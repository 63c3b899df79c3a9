//! Dialects: the protocols of the providers, brought to one set of events.
use crate::api::{Message, MessageV};
use crate::config::{Model, ModelV};
use crate::errors::{ApiError, ApiErrorV};
use crate::json::{trees, Json, JsonV};
use crate::text::{same, view_opt, view_res, views};
use vstd::prelude::*;

pub mod chat_completions;

use chat_completions::ChatCompletionsDialect;

verus! {

/// Why an answer ended.
#[derive(Copy, Clone, Debug, PartialEq, Eq, Structural)]
pub enum StopReason {
    EndTurn,
    ToolUse,
    MaxTokens,
    Other,
}

/// The reason that the `finish_reason` of chat completions stands for.
pub open spec fn stop_reason(s: Seq<char>) -> StopReason {
    if s == "stop"@ {
        StopReason::EndTurn
    } else if s == "tool_calls"@ {
        StopReason::ToolUse
    } else if s == "length"@ {
        StopReason::MaxTokens
    } else {
        StopReason::Other
    }
}

impl StopReason {
    /// The reason that the `finish_reason` of chat completions stands for.
    pub fn from_chat_completions(s: &str) -> (r: StopReason)
        ensures
            r == stop_reason(s@),
    {
        if same(s, "stop") {
            StopReason::EndTurn
        } else if same(s, "tool_calls") {
            StopReason::ToolUse
        } else if same(s, "length") {
            StopReason::MaxTokens
        } else {
            StopReason::Other
        }
    }
}

/// How many tokens an answer took.
#[derive(Copy, Clone, Debug, PartialEq, Eq, Structural)]
pub struct Usage {
    pub prompt_tokens: u32,
    pub completion_tokens: u32,
    pub total_tokens: u32,
}

impl Default for Usage {
    fn default() -> (r: Usage)
        ensures
            r == (Usage { prompt_tokens: 0, completion_tokens: 0, total_tokens: 0 }),
    {
        Usage { prompt_tokens: 0, completion_tokens: 0, total_tokens: 0 }
    }
}

pub ghost enum SamplingEventV {
    TextDelta(Seq<char>),
    ReasoningDelta(Seq<char>),
    ToolCallDelta {
        index: usize,
        id: Option<Seq<char>>,
        name: Option<Seq<char>>,
        arguments_fragment: Seq<char>,
    },
    Done { reason: StopReason, usage: Option<Usage> },
}

/// A piece of an answer, whatever the protocol that it came in.
#[derive(Debug)]
pub enum SamplingEvent {
    /// More of the text.
    TextDelta(String),
    /// More of the reasoning.
    ReasoningDelta(String),
    /// More of the tool call with the index.
    ToolCallDelta {
        index: usize,
        id: Option<String>,
        name: Option<String>,
        arguments_fragment: String,
    },
    /// The answer has ended.
    Done { reason: StopReason, usage: Option<Usage> },
}

impl View for SamplingEvent {
    type V = SamplingEventV;

    open spec fn view(&self) -> SamplingEventV {
        match self {
            SamplingEvent::TextDelta(s) => SamplingEventV::TextDelta(s@),
            SamplingEvent::ReasoningDelta(s) => SamplingEventV::ReasoningDelta(s@),
            SamplingEvent::ToolCallDelta {
                index,
                id,
                name,
                arguments_fragment,
            } => SamplingEventV::ToolCallDelta {
                index: *index,
                id: view_opt(*id),
                name: view_opt(*name),
                arguments_fragment: arguments_fragment@,
            },
            SamplingEvent::Done { reason, usage } => SamplingEventV::Done {
                reason: *reason,
                usage: *usage,
            },
        }
    }
}

pub ghost struct SamplingRequestV {
    pub model: ModelV,
    pub messages: Seq<MessageV>,
    pub tools_schema: Seq<JsonV>,
}

/// What a model is asked: the conversation, and the tools that it may call.
#[derive(Debug)]
pub struct SamplingRequest {
    pub model: Model,
    pub messages: Vec<Message>,
    pub tools_schema: Vec<Json>,
}

impl View for SamplingRequest {
    type V = SamplingRequestV;

    open spec fn view(&self) -> SamplingRequestV {
        SamplingRequestV {
            model: self.model@,
            messages: views(self.messages@),
            tools_schema: trees(self.tools_schema@),
        }
    }
}

/// A protocol: how to shape a request in it, and how to read an answer.
pub trait Dialect {
    /// The path of the service below its base address.
    spec fn endpoint(&self) -> Seq<char>;

    /// The body of a request.
    spec fn body(&self, req: SamplingRequestV) -> Result<JsonV, ApiErrorV>;

    /// The events that the data of a server-sent event stands for.
    spec fn events(&self, payload: Seq<char>) -> Result<Seq<SamplingEventV>, ApiErrorV>;

    /// The data that ends the stream, where the protocol has such.
    spec fn sentinel(&self) -> Option<Seq<char>>;

    /// The path of the service below its base address.
    fn endpoint_path(&self) -> (r: &'static str)
        ensures
            r@ == self.endpoint(),
    ;

    /// The body of a request.
    fn build_body(&self, req: &SamplingRequest) -> (r: Result<Json, ApiError>)
        ensures
            view_res(r) == self.body(req@),
    ;

    /// The events that the data of a server-sent event stands for.
    fn parse_chunk(&self, payload: &str) -> (r: Result<Vec<SamplingEvent>, ApiError>)
        ensures
            view_events(r) == self.events(payload@),
    ;

    /// The data that ends the stream, where the protocol has such.
    fn done_sentinel(&self) -> (r: Option<&'static str>)
        ensures
            view_opt(r) == self.sentinel(),
    ;
}

/// The view of what a parser gives.
pub open spec fn view_events(r: Result<Vec<SamplingEvent>, ApiError>) -> Result<
    Seq<SamplingEventV>,
    ApiErrorV,
> {
    match r {
        Ok(v) => Ok(views(v@)),
        Err(e) => Err(e@),
    }
}

/// The responses protocol of OpenAI, which is not there yet: every request in
/// it fails.
#[derive(Copy, Clone, Debug)]
pub struct ResponsesDialect;

impl Dialect for ResponsesDialect {
    open spec fn endpoint(&self) -> Seq<char> {
        "/v1/responses"@
    }

    open spec fn body(&self, req: SamplingRequestV) -> Result<JsonV, ApiErrorV> {
        Err(ApiErrorV::BadStream("responses 方言尚未实现 (多方言 task 待填)"@))
    }

    open spec fn events(&self, payload: Seq<char>) -> Result<Seq<SamplingEventV>, ApiErrorV> {
        Err(ApiErrorV::BadStream("responses 方言尚未实现"@))
    }

    open spec fn sentinel(&self) -> Option<Seq<char>> {
        None
    }

    fn endpoint_path(&self) -> (r: &'static str) {
        "/v1/responses"
    }

    fn build_body(&self, _req: &SamplingRequest) -> (r: Result<Json, ApiError>) {
        Err(ApiError::BadStream("responses 方言尚未实现 (多方言 task 待填)".to_owned()))
    }

    fn parse_chunk(&self, _payload: &str) -> (r: Result<Vec<SamplingEvent>, ApiError>) {
        Err(ApiError::BadStream("responses 方言尚未实现".to_owned()))
    }

    fn done_sentinel(&self) -> (r: Option<&'static str>) {
        None
    }
}

/// The messages protocol of Anthropic, which is not there yet: every request in
/// it fails.
#[derive(Copy, Clone, Debug)]
pub struct AnthropicMessagesDialect;

impl Dialect for AnthropicMessagesDialect {
    open spec fn endpoint(&self) -> Seq<char> {
        "/v1/messages"@
    }

    open spec fn body(&self, req: SamplingRequestV) -> Result<JsonV, ApiErrorV> {
        Err(
            ApiErrorV::BadStream(
                "anthropic messages 方言尚未实现 (多方言 task 待填: system 提顶层 + thinking signature)"@,
            ),
        )
    }

    open spec fn events(&self, payload: Seq<char>) -> Result<Seq<SamplingEventV>, ApiErrorV> {
        Err(ApiErrorV::BadStream("anthropic messages 方言尚未实现"@))
    }

    open spec fn sentinel(&self) -> Option<Seq<char>> {
        None
    }

    fn endpoint_path(&self) -> (r: &'static str) {
        "/v1/messages"
    }

    fn build_body(&self, _req: &SamplingRequest) -> (r: Result<Json, ApiError>) {
        Err(
            ApiError::BadStream(
                "anthropic messages 方言尚未实现 (多方言 task 待填: system 提顶层 + thinking signature)".to_owned(),
            ),
        )
    }

    fn parse_chunk(&self, _payload: &str) -> (r: Result<Vec<SamplingEvent>, ApiError>) {
        Err(ApiError::BadStream("anthropic messages 方言尚未实现".to_owned()))
    }

    fn done_sentinel(&self) -> (r: Option<&'static str>) {
        None
    }
}

/// The dialect of a model.
#[derive(Copy, Clone, Debug)]
pub enum ModelDialect {
    ChatCompletions(ChatCompletionsDialect),
    Responses(ResponsesDialect),
    AnthropicMessages(AnthropicMessagesDialect),
}

impl Dialect for ModelDialect {
    open spec fn endpoint(&self) -> Seq<char> {
        match self {
            ModelDialect::ChatCompletions(d) => d.endpoint(),
            ModelDialect::Responses(d) => d.endpoint(),
            ModelDialect::AnthropicMessages(d) => d.endpoint(),
        }
    }

    open spec fn body(&self, req: SamplingRequestV) -> Result<JsonV, ApiErrorV> {
        match self {
            ModelDialect::ChatCompletions(d) => d.body(req),
            ModelDialect::Responses(d) => d.body(req),
            ModelDialect::AnthropicMessages(d) => d.body(req),
        }
    }

    open spec fn events(&self, payload: Seq<char>) -> Result<Seq<SamplingEventV>, ApiErrorV> {
        match self {
            ModelDialect::ChatCompletions(d) => d.events(payload),
            ModelDialect::Responses(d) => d.events(payload),
            ModelDialect::AnthropicMessages(d) => d.events(payload),
        }
    }

    open spec fn sentinel(&self) -> Option<Seq<char>> {
        match self {
            ModelDialect::ChatCompletions(d) => d.sentinel(),
            ModelDialect::Responses(d) => d.sentinel(),
            ModelDialect::AnthropicMessages(d) => d.sentinel(),
        }
    }

    fn endpoint_path(&self) -> (r: &'static str) {
        match self {
            ModelDialect::ChatCompletions(d) => d.endpoint_path(),
            ModelDialect::Responses(d) => d.endpoint_path(),
            ModelDialect::AnthropicMessages(d) => d.endpoint_path(),
        }
    }

    fn build_body(&self, req: &SamplingRequest) -> (r: Result<Json, ApiError>) {
        match self {
            ModelDialect::ChatCompletions(d) => d.build_body(req),
            ModelDialect::Responses(d) => d.build_body(req),
            ModelDialect::AnthropicMessages(d) => d.build_body(req),
        }
    }

    fn parse_chunk(&self, payload: &str) -> (r: Result<Vec<SamplingEvent>, ApiError>) {
        match self {
            ModelDialect::ChatCompletions(d) => d.parse_chunk(payload),
            ModelDialect::Responses(d) => d.parse_chunk(payload),
            ModelDialect::AnthropicMessages(d) => d.parse_chunk(payload),
        }
    }

    fn done_sentinel(&self) -> (r: Option<&'static str>) {
        match self {
            ModelDialect::ChatCompletions(d) => d.done_sentinel(),
            ModelDialect::Responses(d) => d.done_sentinel(),
            ModelDialect::AnthropicMessages(d) => d.done_sentinel(),
        }
    }
}

/// The dialect that a model speaks.
pub fn for_model(model: &Model) -> (r: ModelDialect)
    ensures
        match model@.dialect {
            crate::config::Dialect::ChatCompletions => r is ChatCompletions,
            crate::config::Dialect::Responses => r is Responses,
            crate::config::Dialect::AnthropicMessages => r is AnthropicMessages,
        },
{
    match model.dialect {
        crate::config::Dialect::ChatCompletions => ModelDialect::ChatCompletions(
            ChatCompletionsDialect,
        ),
        crate::config::Dialect::Responses => ModelDialect::Responses(ResponsesDialect),
        crate::config::Dialect::AnthropicMessages => ModelDialect::AnthropicMessages(
            AnthropicMessagesDialect,
        ),
    }
}

/// Each dialect has its own path at the service; only that of chat completions
/// marks the end of the stream, and the other two cannot be used yet.
pub proof fn law_dialects_are_apart(req: SamplingRequestV, payload: Seq<char>)
    ensures
        ({
            let d = ModelDialect::ChatCompletions(ChatCompletionsDialect);
            &&& d.endpoint() == "/v1/chat/completions"@
            &&& d.sentinel() == Some("[DONE]"@)
            &&& d.body(req) == ChatCompletionsDialect.body(req)
            &&& d.events(payload) == ChatCompletionsDialect.events(payload)
        }),
        ({
            let d = ModelDialect::Responses(ResponsesDialect);
            &&& d.endpoint() == "/v1/responses"@
            &&& d.sentinel() is None
            &&& d.body(req) matches Err(e) && e is BadStream
            &&& d.events(payload) matches Err(e) && e is BadStream
        }),
        ({
            let d = ModelDialect::AnthropicMessages(AnthropicMessagesDialect);
            &&& d.endpoint() == "/v1/messages"@
            &&& d.sentinel() is None
            &&& d.body(req) matches Err(e) && e is BadStream
            &&& d.events(payload) matches Err(e) && e is BadStream
        }),
{
}

/// The reasons to stop are told apart by their names, and any other name is
/// another reason.
pub proof fn law_stop_reasons_have_names(s: Seq<char>)
    ensures
        stop_reason("stop"@) == StopReason::EndTurn,
        stop_reason("tool_calls"@) == StopReason::ToolUse,
        stop_reason("length"@) == StopReason::MaxTokens,
        s != "stop"@ && s != "tool_calls"@ && s != "length"@ ==> stop_reason(s)
            == StopReason::Other,
{
    reveal_strlit("stop");
    reveal_strlit("tool_calls");
    reveal_strlit("length");
    assert("stop"@.len() == 4 && "tool_calls"@.len() == 10 && "length"@.len() == 6);
}

} // verus!
