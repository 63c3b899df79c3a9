//! Sampling: asking a model for an answer.
//!
//! A dialect shapes requests and reads answers in the protocol of a provider;
//! the client turns a stream of bytes into events; the handle decides when to
//! try again and when to give up.
use crate::config::Model;
use vstd::prelude::*;

pub mod actor;
pub mod client;
pub mod dialect;

pub use actor::{SamplerConfig, SamplerHandle};
pub use client::SamplingClient;
pub use dialect::{for_model, ModelDialect, SamplingEvent, SamplingRequest, StopReason, Usage};

verus! {

/// The handle for a model: a client that speaks its dialect, and when to give
/// up.
pub fn build(api_key: String, base_url: String, model: &Model, cfg: SamplerConfig) -> (r:
    SamplerHandle<ModelDialect>)
    ensures
        r.client.api_key@ == api_key@,
        r.client.base_url@ == base_url@,
        r.cfg == cfg,
        match model@.dialect {
            crate::config::Dialect::ChatCompletions => r.client.dialect is ChatCompletions,
            crate::config::Dialect::Responses => r.client.dialect is Responses,
            crate::config::Dialect::AnthropicMessages => r.client.dialect is AnthropicMessages,
        },
{
    let client = SamplingClient::new(api_key, base_url, for_model(model));
    SamplerHandle::new(client, cfg)
}

} // verus!
