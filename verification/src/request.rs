//! Caller-facing request and response records, and the internal request with
//! its retry state.

use crate::params::{ParamMap, ParamValue};
use vstd::prelude::*;

verus! {

/// A caller's request: the prompt, an optional task to route for, and
/// optional per-request parameter overrides.
#[derive(Debug, Clone)]
pub struct GenerationRequest {
    pub prompt: String,
    pub task: Option<String>,
    pub params: Option<ParamMap>,
}

impl GenerationRequest {
    /// Any carried override map keeps its invariant.
    pub open spec fn wf(&self) -> bool {
        self.params matches Some(p) ==> p.wf()
    }

    /// The request for one prompt, with no task and no overrides.
    pub fn new(prompt: String) -> (r: GenerationRequest)
        ensures
            r.wf(),
            r.prompt == prompt,
            r.task is None,
            r.params is None,
    {
        GenerationRequest { prompt, task: None, params: None }
    }

    /// Begin building a request for one prompt.
    pub fn builder(prompt: &str) -> (r: GenerationRequest)
        ensures
            r.wf(),
            r.prompt@ == prompt@,
            r.task is None,
            r.params is None,
    {
        GenerationRequest::new(prompt.to_owned())
    }

    /// Set the target task.
    pub fn task(self, name: &str) -> (r: GenerationRequest)
        ensures
            r.prompt == self.prompt,
            r.task matches Some(t) && t@ == name@,
            r.params == self.params,
    {
        GenerationRequest { task: Some(name.to_owned()), ..self }
    }

    /// Add or override one parameter for this request alone.
    pub fn param(self, key: &str, value: ParamValue) -> (r: GenerationRequest)
        requires
            self.wf(),
        ensures
            r.wf(),
            r.prompt == self.prompt,
            r.task == self.task,
            r.params matches Some(p) && p@ == match self.params {
                Some(q) => q@.insert(key@, value),
                None => Map::<Seq<char>, ParamValue>::empty().insert(key@, value),
            },
    {
        let mut map = match self.params {
            Some(p) => p,
            None => ParamMap::new(),
        };
        map.insert(key, value);
        GenerationRequest { params: Some(map), ..self }
    }

    /// Set the `max_tokens` override.
    pub fn max_tokens(self, tokens: u32) -> (r: GenerationRequest)
        requires
            self.wf(),
        ensures
            r.wf(),
            r.prompt == self.prompt,
            r.task == self.task,
            r.params matches Some(p) && p@ == match self.params {
                Some(q) => q@.insert("max_tokens"@, ParamValue::Integer(tokens as i64)),
                None => Map::<Seq<char>, ParamValue>::empty().insert(
                    "max_tokens"@,
                    ParamValue::Integer(tokens as i64),
                ),
            },
    {
        self.param("max_tokens", ParamValue::Integer(tokens as i64))
    }

    /// Finish building: the request is already complete.
    pub fn build(self) -> (r: GenerationRequest)
        ensures
            r == self,
    {
        self
    }
}

impl Default for GenerationRequest {
    /// An empty prompt with no task and no overrides.
    fn default() -> (r: GenerationRequest)
        ensures
            r.wf(),
            r.prompt@ == Seq::<char>::empty(),
            r.task is None,
            r.params is None,
    {
        GenerationRequest { prompt: String::new(), task: None, params: None }
    }
}

/// The dispatcher's internal view of a request: the caller's fields plus the
/// retry state it threads through the loop.
#[derive(Debug, Clone)]
pub struct LlmManagerRequest {
    pub prompt: String,
    pub task: Option<String>,
    pub params: Option<ParamMap>,
    pub attempts: usize,
    pub failed_instances: Vec<usize>,
}

impl LlmManagerRequest {
    /// Any carried override map keeps its invariant.
    pub open spec fn wf(&self) -> bool {
        self.params matches Some(p) ==> p.wf()
    }

    /// Wrap a caller's request with fresh retry state.
    pub fn from_generation_request(request: GenerationRequest) -> (r: LlmManagerRequest)
        ensures
            r.prompt == request.prompt,
            r.task == request.task,
            r.params == request.params,
            r.attempts == 0,
            r.failed_instances@ == Seq::<usize>::empty(),
    {
        LlmManagerRequest {
            prompt: request.prompt,
            task: request.task,
            params: request.params,
            attempts: 0,
            failed_instances: Vec::new(),
        }
    }
}

/// What a caller gets back for each request: the content on success, or the
/// rendered error with `success == false`.
#[derive(Debug, Clone)]
pub struct LlmManagerResponse {
    pub content: String,
    pub success: bool,
    pub error: Option<String>,
}

} // verus!
