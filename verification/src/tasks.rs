//! Task definitions: a routing key plus a snapshot of default parameters.

use crate::params::{ParamMap, ParamValue};
use vstd::prelude::*;

verus! {

/// A named parameter preset and routing key. A request that references it
/// goes to the instances that declared support for it, and its parameters
/// serve as defaults under the per-request overrides.
#[derive(Debug, Clone)]
pub struct TaskDefinition {
    pub name: String,
    pub parameters: ParamMap,
}

impl TaskDefinition {
    /// The parameter map keeps its key-uniqueness invariant.
    pub open spec fn wf(&self) -> bool {
        self.parameters.wf()
    }

    /// A task with the given name and no parameters.
    pub fn new(name: &str) -> (r: TaskDefinition)
        ensures
            r.wf(),
            r.name@ == name@,
            r.parameters@ == Map::<Seq<char>, ParamValue>::empty(),
    {
        TaskDefinition { name: name.to_owned(), parameters: ParamMap::new() }
    }

    /// Add or replace one default parameter.
    pub fn with_param(self, key: &str, value: ParamValue) -> (r: TaskDefinition)
        requires
            self.wf(),
        ensures
            r.wf(),
            r.name == self.name,
            r.parameters@ == self.parameters@.insert(key@, value),
    {
        let mut out = self;
        out.parameters.insert(key, value);
        out
    }

    /// A copy with the same name and the same parameters.
    pub fn duplicate(&self) -> (r: TaskDefinition)
        requires
            self.wf(),
        ensures
            r.wf(),
            r.name == self.name,
            r.parameters@ == self.parameters@,
    {
        TaskDefinition { name: self.name.clone(), parameters: self.parameters.duplicate() }
    }

    /// Set the `max_tokens` default.
    pub fn with_max_tokens(self, tokens: u32) -> (r: TaskDefinition)
        requires
            self.wf(),
        ensures
            r.wf(),
            r.name == self.name,
            r.parameters@ == self.parameters@.insert(
                "max_tokens"@,
                ParamValue::Integer(tokens as i64),
            ),
    {
        self.with_param("max_tokens", ParamValue::Integer(tokens as i64))
    }

    /// Set the `temperature` default, in thousandths (`700` stands for 0.7).
    pub fn with_temperature(self, milli: u32) -> (r: TaskDefinition)
        requires
            self.wf(),
        ensures
            r.wf(),
            r.name == self.name,
            r.parameters@ == self.parameters@.insert(
                "temperature"@,
                ParamValue::Thousandths(milli as i64),
            ),
    {
        self.with_param("temperature", ParamValue::Thousandths(milli as i64))
    }
}

/// A definition built by `new`, `with_max_tokens(m)` and `with_temperature(t)`
/// carries exactly those two parameters, with exactly those values.
pub proof fn lemma_task_builder_exact(m: u32, t: u32)
    ensures
        ({
            let params = Map::<Seq<char>, ParamValue>::empty().insert(
                "max_tokens"@,
                ParamValue::Integer(m as i64),
            ).insert("temperature"@, ParamValue::Thousandths(t as i64));
            params.dom() =~= set!["max_tokens"@, "temperature"@]
                && params["max_tokens"@] == ParamValue::Integer(m as i64)
                && params["temperature"@] == ParamValue::Thousandths(t as i64)
        }),
{
    reveal_strlit("max_tokens");
    reveal_strlit("temperature");
    assert("max_tokens"@.len() != "temperature"@.len());
}

} // verus!
