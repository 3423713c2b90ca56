//! A chat request as the router's own logic reads and rewrites it.

use std::sync::Arc;

use vstd::prelude::*;

use crate::json::Json;
use crate::names::NameTable;

verus! {

/// Which ingress produced a request.
#[derive(Clone, Copy, Debug)]
pub enum RequestProvenance {
    /// Built in process, by a library caller.
    Library,
    /// An ingress speaking the named dialect.
    Ingress(&'static str),
}

/// What rides along a request inside the process and never on the wire as such.
pub struct RoutectlInternal {
    /// The reasoning dialect token of the target.
    pub reasoning_dialect: Option<String>,
    /// The history-reasoning policy token of the target.
    pub history_reasoning: Option<String>,
    /// Client headers captured for cost attribution.
    pub claude_code_headers: Vec<(String, String)>,
    /// Which ingress produced the request.
    pub provenance: RequestProvenance,
    /// The headers composed for the target, once they have been.
    pub header_extras: Option<NameTable<String>>,
    /// The client's own key for the conversation.
    pub inbound_session_key: Option<String>,
    /// The client's bearer, where it is to be forwarded.
    pub forwarded_bearer: Option<String>,
    /// The client's SDK fingerprint headers, captured where it is forwarded.
    pub stainless_headers: Vec<(String, String)>,
    /// Input items that are replayed as they came.
    pub responses_input_passthrough: Vec<String>,
    /// Whether the target takes the adaptive thinking shape.
    pub supports_adaptive_thinking: bool,
    /// The effort levels that the target takes.
    pub effort_levels: Arc<Vec<String>>,
    /// The target's thinking budget ceiling.
    pub max_thinking_budget: u32,
    /// The target's output ceiling; zero means none.
    pub max_output_tokens: u32,
    /// The beta flags that the operator configured for the target.
    pub operator_betas: Vec<String>,
    /// The thinking display token of a probe body.
    pub anthropic_thinking_display: Option<String>,
    /// Whether the request came out of a coding-client session, where known.
    pub originating_claude_code_session: Option<bool>,
    /// Whether the router itself sends the request in the background.
    pub background_probe: bool,
}

impl RoutectlInternal {
    /// Whether nothing rides along that an ingress captured or a target set:
    /// neither headers, a key or a bearer of a client, nor a knob.
    pub open spec fn carries_nothing(self) -> bool {
        &&& self.reasoning_dialect is None
        &&& self.history_reasoning is None
        &&& self.claude_code_headers@.len() == 0
        &&& self.provenance == RequestProvenance::Library
        &&& self.header_extras is None
        &&& self.inbound_session_key is None
        &&& self.forwarded_bearer is None
        &&& self.stainless_headers@.len() == 0
        &&& self.responses_input_passthrough@.len() == 0
        &&& !self.supports_adaptive_thinking
        &&& self.effort_levels@.len() == 0
        &&& self.max_thinking_budget == 0
        &&& self.max_output_tokens == 0
    }
}

impl Default for RoutectlInternal {
    fn default() -> (out: Self)
        ensures
            out.carries_nothing(),
            out.operator_betas@.len() == 0,
            out.anthropic_thinking_display is None,
            out.originating_claude_code_session is None,
            !out.background_probe,
    {
        RoutectlInternal {
            reasoning_dialect: None,
            history_reasoning: None,
            claude_code_headers: Vec::new(),
            provenance: RequestProvenance::Library,
            header_extras: None,
            inbound_session_key: None,
            forwarded_bearer: None,
            stainless_headers: Vec::new(),
            responses_input_passthrough: Vec::new(),
            supports_adaptive_thinking: false,
            effort_levels: Arc::new(Vec::new()),
            max_thinking_budget: 0,
            max_output_tokens: 0,
            operator_betas: Vec::new(),
            anthropic_thinking_display: None,
            originating_claude_code_session: None,
            background_probe: false,
        }
    }
}

/// A chat request. The system prompt, the tools and each message are held as
/// their canonical texts.
pub struct ChatRequest {
    /// The requested model.
    pub model: String,
    /// The system prompt.
    pub system: Option<String>,
    /// The tool definitions.
    pub tools: Option<String>,
    /// The conversation, oldest turn first.
    pub messages: Vec<String>,
    /// The output allowance.
    pub max_tokens: Option<u32>,
    /// Whether a reasoning state is attached.
    pub reasoning: bool,
    /// The beta flags that the request carries.
    pub anthropic_beta: Vec<String>,
    /// Payload that the egress passes through.
    pub provider_extras: Option<Json>,
    /// What rides along inside the process.
    pub routectl_internal: RoutectlInternal,
}

impl ChatRequest {
    /// Whether two requests ask for the same completion: all that the overlays
    /// never touch.
    pub open spec fn same_body(self, other: ChatRequest) -> bool {
        &&& self.model == other.model
        &&& self.system == other.system
        &&& self.tools == other.tools
        &&& self.messages == other.messages
        &&& self.max_tokens == other.max_tokens
        &&& self.reasoning == other.reasoning
    }

    /// A request for `model` with nothing in it.
    pub fn for_model(model: &str) -> (out: ChatRequest)
        ensures
            out.model@ == model@,
            out.system is None,
            out.tools is None,
            out.messages@.len() == 0,
            out.max_tokens is None,
            !out.reasoning,
            out.anthropic_beta@.len() == 0,
            out.provider_extras is None,
            out.routectl_internal.carries_nothing(),
            out.routectl_internal.operator_betas@.len() == 0,
            out.routectl_internal.anthropic_thinking_display is None,
            out.routectl_internal.originating_claude_code_session is None,
            !out.routectl_internal.background_probe,
    {
        ChatRequest {
            model: model.to_owned(),
            system: None,
            tools: None,
            messages: Vec::new(),
            max_tokens: None,
            reasoning: false,
            anthropic_beta: Vec::new(),
            provider_extras: None,
            routectl_internal: RoutectlInternal::default(),
        }
    }
}

} // verus!
