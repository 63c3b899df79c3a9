//! What a turn tells the outside while it runs.
use vstd::prelude::*;

verus! {

#[allow(inconsistent_fields)]
pub ghost enum SessionEventV {
    StreamText(Seq<char>),
    ReasoningDelta(Seq<char>),
    StreamEnd,
    ToolStarted { name: Seq<char>, args_preview: Seq<char> },
    ToolFinished { name: Seq<char>, result: Seq<char> },
    PermissionRequest { name: Seq<char>, args_preview: Seq<char> },
}

/// Something that happens in a turn. How it is shown is up to the receiver.
#[derive(Debug)]
#[allow(inconsistent_fields)]
pub enum SessionEvent {
    /// More of the text of the model.
    StreamText(String),
    /// More of the reasoning of the model.
    ReasoningDelta(String),
    /// The answer of the model has ended.
    StreamEnd,
    /// A tool is about to run.
    ToolStarted { name: String, args_preview: String },
    /// A tool has run; the result is what the model gets.
    ToolFinished { name: String, result: String },
    /// A tool may only run with the permission of the user, who is asked now.
    PermissionRequest { name: String, args_preview: String },
}

impl View for SessionEvent {
    type V = SessionEventV;

    open spec fn view(&self) -> SessionEventV {
        match self {
            SessionEvent::StreamText(s) => SessionEventV::StreamText(s@),
            SessionEvent::ReasoningDelta(s) => SessionEventV::ReasoningDelta(s@),
            SessionEvent::StreamEnd => SessionEventV::StreamEnd,
            SessionEvent::ToolStarted { name, args_preview } => SessionEventV::ToolStarted {
                name: name@,
                args_preview: args_preview@,
            },
            SessionEvent::ToolFinished { name, result } => SessionEventV::ToolFinished {
                name: name@,
                result: result@,
            },
            SessionEvent::PermissionRequest {
                name,
                args_preview,
            } => SessionEventV::PermissionRequest { name: name@, args_preview: args_preview@ },
        }
    }
}

} // verus!
