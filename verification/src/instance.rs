//! A configured provider instance: family, model, credential, endpoint,
//! enabled flag, and the tasks it declares support for. Immutable after
//! registration.

use crate::labels::{provider_label, spec_provider_label};
use crate::tasks::TaskDefinition;
use crate::text::str_eq;
use crate::types::ProviderType;
use vstd::prelude::*;

verus! {

/// A concrete addressable endpoint: one provider family, one model, one
/// credential, and a snapshot of the task definitions it serves. When two
/// declared tasks share a name, the later one wins, as it would under keyed
/// insertion.
#[derive(Debug, Clone)]
pub struct Instance {
    pub provider_type: ProviderType,
    pub api_key: String,
    pub model: String,
    pub supported_tasks: Vec<TaskDefinition>,
    pub enabled: bool,
    pub endpoint: Option<String>,
}

impl Instance {
    /// Each declared task keeps its own invariant.
    pub open spec fn wf(&self) -> bool {
        forall|i: int|
            0 <= i < self.supported_tasks@.len() ==> (#[trigger] self.supported_tasks@[i]).wf()
    }

    /// Does this instance declare support for the named task?
    pub open spec fn spec_supports(&self, name: Seq<char>) -> bool {
        exists|i: int|
            0 <= i < self.supported_tasks@.len() && (#[trigger] self.supported_tasks@[i]).name@
                == name
    }

    /// Decide support for one task name.
    pub fn supports_task(&self, name: &str) -> (r: bool)
        ensures
            r == self.spec_supports(name@),
    {
        let n = self.supported_tasks.len();
        let mut i: usize = 0;
        while i < n
            invariant
                n == self.supported_tasks@.len(),
                i <= n,
                forall|j: int|
                    0 <= j < i ==> (#[trigger] self.supported_tasks@[j]).name@ != name@,
            decreases n - i,
        {
            if str_eq(self.supported_tasks[i].name.as_str(), name) {
                return true;
            }
            i = i + 1;
        }
        false
    }

    /// The declared task under one name, if any: the latest declaration
    /// under that name.
    pub fn find_task(&self, name: &str) -> (r: Option<&TaskDefinition>)
        ensures
            match r {
                Some(t) => self.spec_supports(name@) && t.name@ == name@ && exists|i: int|
                    0 <= i < self.supported_tasks@.len() && self.supported_tasks@[i] == *t && (
                    forall|j: int|
                        i < j < self.supported_tasks@.len() ==> (
                        #[trigger] self.supported_tasks@[j]).name@ != name@),
                None => !self.spec_supports(name@),
            },
    {
        let n = self.supported_tasks.len();
        let mut i: usize = n;
        while i > 0
            invariant
                n == self.supported_tasks@.len(),
                i <= n,
                forall|j: int|
                    i <= j < n ==> (#[trigger] self.supported_tasks@[j]).name@ != name@,
            decreases i,
        {
            i = i - 1;
            if str_eq(self.supported_tasks[i].name.as_str(), name) {
                return Some(&self.supported_tasks[i]);
            }
        }
        None
    }

    /// The instance's short name: its provider family's label.
    pub fn get_name(&self) -> (r: &'static str)
        ensures
            r@ == spec_provider_label(self.provider_type),
    {
        provider_label(self.provider_type)
    }

    /// The configured model identifier.
    pub fn get_model(&self) -> (r: &String)
        ensures
            r == &self.model,
    {
        &self.model
    }

    /// The declared task list.
    pub fn get_supported_tasks(&self) -> (r: &Vec<TaskDefinition>)
        ensures
            r == &self.supported_tasks,
    {
        &self.supported_tasks
    }

    /// Whether the instance takes traffic.
    pub fn is_enabled(&self) -> (r: bool)
        ensures
            r == self.enabled,
    {
        self.enabled
    }
}

/// Build an instance from its parts.
pub fn create_instance(
    provider_type: ProviderType,
    api_key: String,
    model: String,
    supported_tasks: Vec<TaskDefinition>,
    enabled: bool,
    endpoint: Option<String>,
) -> (r: Instance)
    requires
        forall|i: int| 0 <= i < supported_tasks@.len() ==> (#[trigger] supported_tasks@[i]).wf(),
    ensures
        r.wf(),
        r.provider_type == provider_type,
        r.api_key == api_key,
        r.model == model,
        r.supported_tasks == supported_tasks,
        r.enabled == enabled,
        r.endpoint == endpoint,
{
    Instance { provider_type, api_key, model, supported_tasks, enabled, endpoint }
}

} // verus!
