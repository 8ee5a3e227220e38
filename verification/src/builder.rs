//! The manager builder: accumulate task definitions and provider
//! descriptors, then materialize the manager, failing when a provider
//! references a task that was never defined.

use crate::errors::LlmError;
use crate::manager::LlmManager;
use crate::tracker::spec_zeroed_tracker;
use crate::strategies::StrategyKind;
use crate::tasks::TaskDefinition;
use crate::text::str_eq;
use crate::types::ProviderType;
use vstd::prelude::*;

verus! {

/// One provider descriptor accumulated by the builder.
#[derive(Debug, Clone)]
pub struct ProviderSpec {
    pub provider_type: ProviderType,
    pub api_key: String,
    pub model: String,
    pub supported_task_names: Vec<String>,
    pub enabled: bool,
    pub custom_endpoint: Option<String>,
}

/// The named task is among the defined ones.
pub open spec fn spec_task_defined(tasks: Seq<TaskDefinition>, name: Seq<char>) -> bool {
    exists|i: int| 0 <= i < tasks.len() && (#[trigger] tasks[i]).name@ == name
}

/// The parameters of the task a name resolves to: the latest definition
/// under that name wins.
pub open spec fn spec_resolved_task_params(tasks: Seq<TaskDefinition>, name: Seq<char>) -> Map<
    Seq<char>,
    crate::params::ParamValue,
>
    decreases tasks.len(),
{
    if tasks.len() == 0 {
        Map::empty()
    } else if tasks.last().name@ == name {
        tasks.last().parameters@
    } else {
        spec_resolved_task_params(tasks.drop_last(), name)
    }
}

proof fn lemma_resolved_params_at(tasks: Seq<TaskDefinition>, name: Seq<char>, j: int)
    requires
        0 <= j < tasks.len(),
        tasks[j].name@ == name,
        forall|k: int| j < k < tasks.len() ==> (#[trigger] tasks[k]).name@ != name,
    ensures
        spec_resolved_task_params(tasks, name) == tasks[j].parameters@,
    decreases tasks.len(),
{
    if j < tasks.len() - 1 {
        assert(tasks.drop_last()[j] == tasks[j]);
        lemma_resolved_params_at(tasks.drop_last(), name, j);
    }
}

/// Every task name referenced by any provider is defined.
pub open spec fn spec_all_resolved(tasks: Seq<TaskDefinition>, providers: Seq<ProviderSpec>) -> bool {
    forall|p: int, j: int|
        0 <= p < providers.len() && 0 <= j < providers[p].supported_task_names@.len()
            ==> spec_task_defined(tasks, (#[trigger] providers[p].supported_task_names@[j])@)
}

/// Builds an [`LlmManager`] from task definitions and provider descriptors.
#[derive(Debug)]
pub struct LlmManagerBuilder {
    pub defined_tasks: Vec<TaskDefinition>,
    pub providers_to_build: Vec<ProviderSpec>,
    pub strategy: StrategyKind,
    pub max_retries: usize,
    pub debug_folder: Option<String>,
}

impl LlmManagerBuilder {
    /// Every defined task keeps its own invariant.
    pub open spec fn wf(&self) -> bool {
        forall|i: int|
            0 <= i < self.defined_tasks@.len() ==> (#[trigger] self.defined_tasks@[i]).wf()
    }

    /// An empty builder with the default policy and retry budget.
    pub fn new() -> (r: LlmManagerBuilder)
        ensures
            r.wf(),
            r.defined_tasks@.len() == 0,
            r.providers_to_build@.len() == 0,
            r.strategy == StrategyKind::LeastRecentlyUsed,
            r.max_retries == crate::constants::DEFAULT_MAX_TRIES,
            r.debug_folder is None,
    {
        LlmManagerBuilder {
            defined_tasks: Vec::new(),
            providers_to_build: Vec::new(),
            strategy: StrategyKind::LeastRecentlyUsed,
            max_retries: crate::constants::DEFAULT_MAX_TRIES,
            debug_folder: None,
        }
    }

    /// Define a task that providers can later reference by name. A later
    /// definition under the same name wins.
    pub fn define_task(self, task_def: TaskDefinition) -> (r: LlmManagerBuilder)
        requires
            self.wf(),
            task_def.wf(),
        ensures
            r.wf(),
            r.defined_tasks@ == self.defined_tasks@.push(task_def),
            r.providers_to_build == self.providers_to_build,
            r.strategy == self.strategy,
            r.max_retries == self.max_retries,
            r.debug_folder == self.debug_folder,
    {
        let mut out = self;
        out.defined_tasks.push(task_def);
        out
    }

    /// Set the selection policy.
    pub fn strategy(self, strategy: StrategyKind) -> (r: LlmManagerBuilder)
        ensures
            r == (LlmManagerBuilder { strategy, ..self }),
    {
        LlmManagerBuilder { strategy, ..self }
    }

    /// Set the retry budget.
    pub fn max_retries(self, retries: usize) -> (r: LlmManagerBuilder)
        ensures
            r == (LlmManagerBuilder { max_retries: retries, ..self }),
    {
        LlmManagerBuilder { max_retries: retries, ..self }
    }

    /// Set the folder where the hosting process writes call transcripts.
    pub fn debug_folder(self, path: &str) -> (r: LlmManagerBuilder)
        ensures
            r.debug_folder matches Some(p) && p@ == path@,
            r.defined_tasks == self.defined_tasks,
            r.providers_to_build == self.providers_to_build,
            r.strategy == self.strategy,
            r.max_retries == self.max_retries,
    {
        LlmManagerBuilder { debug_folder: Some(path.to_owned()), ..self }
    }

    /// Begin configuring one provider instance; the calls that follow —
    /// `supports`, `enabled`, `custom_endpoint` — apply to it.
    pub fn add_instance(self, provider_type: ProviderType, model: &str, api_key: &str) -> (r:
        LlmManagerBuilder)
        ensures
            r.providers_to_build@.len() == self.providers_to_build@.len() + 1,
            forall|i: int|
                0 <= i < self.providers_to_build@.len() ==> #[trigger] r.providers_to_build@[i]
                    == self.providers_to_build@[i],
            ({
                let added = r.providers_to_build@.last();
                &&& added.provider_type == provider_type
                &&& added.model@ == model@
                &&& added.api_key@ == api_key@
                &&& added.supported_task_names@.len() == 0
                &&& added.enabled
                &&& added.custom_endpoint is None
            }),
            r.defined_tasks == self.defined_tasks,
            r.strategy == self.strategy,
            r.max_retries == self.max_retries,
            r.debug_folder == self.debug_folder,
    {
        let mut out = self;
        out.providers_to_build.push(
            ProviderSpec {
                provider_type,
                api_key: api_key.to_owned(),
                model: model.to_owned(),
                supported_task_names: Vec::new(),
                enabled: true,
                custom_endpoint: None,
            },
        );
        out
    }

    /// Declare that the last added provider supports the named task.
    pub fn supports(self, task_name: &str) -> (r: LlmManagerBuilder)
        requires
            self.providers_to_build@.len() > 0,
        ensures
            r.providers_to_build@.len() == self.providers_to_build@.len(),
            forall|i: int|
                0 <= i < self.providers_to_build@.len() - 1 ==> #[trigger] r.providers_to_build@[i]
                    == self.providers_to_build@[i],
            ({
                let was = self.providers_to_build@.last();
                let now = r.providers_to_build@.last();
                &&& now.provider_type == was.provider_type
                &&& now.api_key == was.api_key
                &&& now.model == was.model
                &&& now.enabled == was.enabled
                &&& now.custom_endpoint == was.custom_endpoint
                &&& now.supported_task_names@.len() == was.supported_task_names@.len() + 1
                &&& forall|j: int|
                    0 <= j < was.supported_task_names@.len()
                        ==> #[trigger] now.supported_task_names@[j] == was.supported_task_names@[j]
                &&& now.supported_task_names@.last()@ == task_name@
            }),
            r.defined_tasks == self.defined_tasks,
            r.strategy == self.strategy,
            r.max_retries == self.max_retries,
            r.debug_folder == self.debug_folder,
    {
        let mut out = self;
        let idx = out.providers_to_build.len() - 1;
        let last = &mut out.providers_to_build[idx];
        last.supported_task_names.push(task_name.to_owned());
        out
    }

    /// Declare that the last added provider supports each named task.
    pub fn supports_many(self, task_names: &[&str]) -> (r: LlmManagerBuilder)
        requires
            self.providers_to_build@.len() > 0,
        ensures
            r.providers_to_build@.len() == self.providers_to_build@.len(),
            forall|i: int|
                0 <= i < self.providers_to_build@.len() - 1 ==> #[trigger] r.providers_to_build@[i]
                    == self.providers_to_build@[i],
            ({
                let was = self.providers_to_build@.last();
                let now = r.providers_to_build@.last();
                &&& now.provider_type == was.provider_type
                &&& now.api_key == was.api_key
                &&& now.model == was.model
                &&& now.enabled == was.enabled
                &&& now.custom_endpoint == was.custom_endpoint
                &&& now.supported_task_names@.len() == was.supported_task_names@.len()
                    + task_names@.len()
                &&& forall|j: int|
                    0 <= j < was.supported_task_names@.len()
                        ==> #[trigger] now.supported_task_names@[j] == was.supported_task_names@[j]
                &&& forall|j: int|
                    0 <= j < task_names@.len()
                        ==> (#[trigger] now.supported_task_names@[was.supported_task_names@.len()
                        + j])@ == task_names@[j]@
            }),
            r.defined_tasks == self.defined_tasks,
            r.strategy == self.strategy,
            r.max_retries == self.max_retries,
            r.debug_folder == self.debug_folder,
    {
        let mut out = self;
        let n = task_names.len();
        let ghost was = out.providers_to_build@.last().supported_task_names@;
        let mut i: usize = 0;
        while i < n
            invariant
                n == task_names@.len(),
                i <= n,
                out.providers_to_build@.len() > 0,
                out.providers_to_build@.last().supported_task_names@.len() == was.len() + i,
                forall|j: int|
                    0 <= j < was.len()
                        ==> #[trigger] out.providers_to_build@.last().supported_task_names@[j]
                        == was[j],
                forall|j: int|
                    0 <= j < i ==> (#[trigger] out.providers_to_build@.last().supported_task_names@[
                    was.len() + j])@ == task_names@[j]@,
                forall|k: int|
                    0 <= k < out.providers_to_build@.len() - 1
                        ==> #[trigger] out.providers_to_build@[k]
                        == self.providers_to_build@[k],
                ({
                    let w = self.providers_to_build@.last();
                    let c = out.providers_to_build@.last();
                    &&& c.provider_type == w.provider_type
                    &&& c.api_key == w.api_key
                    &&& c.model == w.model
                    &&& c.enabled == w.enabled
                    &&& c.custom_endpoint == w.custom_endpoint
                }),
                was == self.providers_to_build@.last().supported_task_names@,
                out.providers_to_build@.len() == self.providers_to_build@.len(),
                out.defined_tasks == self.defined_tasks,
                out.strategy == self.strategy,
                out.max_retries == self.max_retries,
                out.debug_folder == self.debug_folder,
            decreases n - i,
        {
            let idx = out.providers_to_build.len() - 1;
            let last = &mut out.providers_to_build[idx];
            last.supported_task_names.push(task_names[i].to_owned());
            i = i + 1;
        }
        out
    }

    /// Set the enabled flag of the last added provider.
    pub fn enabled(self, enabled: bool) -> (r: LlmManagerBuilder)
        requires
            self.providers_to_build@.len() > 0,
        ensures
            r.providers_to_build@.len() == self.providers_to_build@.len(),
            forall|i: int|
                0 <= i < self.providers_to_build@.len() - 1 ==> #[trigger] r.providers_to_build@[i]
                    == self.providers_to_build@[i],
            r.providers_to_build@.last() == (ProviderSpec {
                enabled,
                ..self.providers_to_build@.last()
            }),
            r.defined_tasks == self.defined_tasks,
            r.strategy == self.strategy,
            r.max_retries == self.max_retries,
            r.debug_folder == self.debug_folder,
    {
        let mut out = self;
        let idx = out.providers_to_build.len() - 1;
        let last = &mut out.providers_to_build[idx];
        last.enabled = enabled;
        out
    }

    /// Set a custom endpoint for the last added provider.
    pub fn custom_endpoint(self, endpoint: &str) -> (r: LlmManagerBuilder)
        requires
            self.providers_to_build@.len() > 0,
        ensures
            r.providers_to_build@.len() == self.providers_to_build@.len(),
            forall|i: int|
                0 <= i < self.providers_to_build@.len() - 1 ==> #[trigger] r.providers_to_build@[i]
                    == self.providers_to_build@[i],
            ({
                let was = self.providers_to_build@.last();
                let now = r.providers_to_build@.last();
                &&& now.provider_type == was.provider_type
                &&& now.api_key == was.api_key
                &&& now.model == was.model
                &&& now.enabled == was.enabled
                &&& now.supported_task_names == was.supported_task_names
                &&& now.custom_endpoint matches Some(e) && e@ == endpoint@
            }),
            r.defined_tasks == self.defined_tasks,
            r.strategy == self.strategy,
            r.max_retries == self.max_retries,
            r.debug_folder == self.debug_folder,
    {
        let mut out = self;
        let idx = out.providers_to_build.len() - 1;
        let last = &mut out.providers_to_build[idx];
        last.custom_endpoint = Some(endpoint.to_owned());
        out
    }

    /// Materialize the manager: every provider's task references are
    /// resolved against the defined tasks — the latest definition under each
    /// name — and the call fails with a configuration error exactly when
    /// some reference is undefined.
    pub fn build(self) -> (r: Result<LlmManager, LlmError>)
        requires
            self.wf(),
        ensures
            r is Ok <==> spec_all_resolved(self.defined_tasks@, self.providers_to_build@),
            r matches Ok(m) ==> {
                &&& m.wf()
                &&& m.strategy == self.strategy
                &&& m.max_retries == self.max_retries
                &&& m.debug_folder == self.debug_folder
                &&& m.instances@.len() == self.providers_to_build@.len()
                &&& m.trackers@.len() == self.providers_to_build@.len()
                &&& forall|q: int|
                    0 <= q < m.trackers@.len() ==> spec_zeroed_tracker(#[trigger] m.trackers@[q])
                &&& forall|p: int|
                    #![trigger m.instances@[p]]
                    0 <= p < self.providers_to_build@.len() ==> {
                        let spec = self.providers_to_build@[p];
                        &&& m.instances@[p].provider_type == spec.provider_type
                        &&& m.instances@[p].model == spec.model
                        &&& m.instances@[p].api_key == spec.api_key
                        &&& m.instances@[p].enabled == spec.enabled
                        &&& m.instances@[p].endpoint == spec.custom_endpoint
                        &&& m.instances@[p].supported_tasks@.len()
                            == spec.supported_task_names@.len()
                        &&& forall|j: int|
                            0 <= j < spec.supported_task_names@.len()
                                ==> (#[trigger] m.instances@[p].supported_tasks@[j]).name@
                                == spec.supported_task_names@[j]@
                        &&& forall|j: int|
                            0 <= j < spec.supported_task_names@.len()
                                ==> (#[trigger] m.instances@[p].supported_tasks@[j]).parameters@
                                == spec_resolved_task_params(
                                self.defined_tasks@,
                                spec.supported_task_names@[j]@,
                            )
                        &&& forall|j: int|
                            0 <= j < spec.supported_task_names@.len() ==> m.instances@[
                            p].spec_supports((#[trigger] spec.supported_task_names@[j])@)
                    }
            },
            r matches Err(e) ==> e is ConfigError,
    {
        let LlmManagerBuilder {
            defined_tasks,
            providers_to_build,
            strategy,
            max_retries,
            debug_folder,
        } = self;
        let mut manager = LlmManager::new_with_strategy_and_retries(strategy, max_retries);
        manager.debug_folder = debug_folder;
        let np = providers_to_build.len();
        let mut p: usize = 0;
        let mut remaining = providers_to_build;
        while p < np
            invariant
                np == remaining@.len() + p,
                np == self.providers_to_build@.len(),
                manager.wf(),
                manager.strategy == self.strategy,
                manager.max_retries == self.max_retries,
                manager.debug_folder == self.debug_folder,
                manager.instances@.len() == p,
                manager.trackers@.len() == p,
                forall|q: int|
                    0 <= q < manager.trackers@.len() ==> spec_zeroed_tracker(
                        #[trigger] manager.trackers@[q],
                    ),
                defined_tasks@ == self.defined_tasks@,
                forall|j: int|
                    0 <= j < remaining@.len() ==> #[trigger] remaining@[j]
                        == self.providers_to_build@[p + j],
                forall|i: int|
                    0 <= i < defined_tasks@.len() ==> (#[trigger] defined_tasks@[i]).wf(),
                forall|q: int|
                    #![trigger manager.instances@[q]]
                    0 <= q < p ==> {
                        let spec = self.providers_to_build@[q];
                        &&& manager.instances@[q].provider_type == spec.provider_type
                        &&& manager.instances@[q].model == spec.model
                        &&& manager.instances@[q].api_key == spec.api_key
                        &&& manager.instances@[q].enabled == spec.enabled
                        &&& manager.instances@[q].endpoint == spec.custom_endpoint
                        &&& manager.instances@[q].supported_tasks@.len()
                            == spec.supported_task_names@.len()
                        &&& forall|j: int|
                            0 <= j < spec.supported_task_names@.len()
                                ==> (#[trigger] manager.instances@[q].supported_tasks@[j]).name@
                                == spec.supported_task_names@[j]@
                        &&& forall|j: int|
                            0 <= j < spec.supported_task_names@.len()
                                ==> (#[trigger] manager.instances@[q].supported_tasks@[
                            j]).parameters@ == spec_resolved_task_params(
                                self.defined_tasks@,
                                spec.supported_task_names@[j]@,
                            )
                        &&& forall|j: int|
                            0 <= j < spec.supported_task_names@.len() ==> manager.instances@[
                            q].spec_supports((#[trigger] spec.supported_task_names@[j])@)
                    },
                forall|q: int, j: int|
                    0 <= q < p && 0 <= j < self.providers_to_build@[q].supported_task_names@.len()
                        ==> spec_task_defined(
                        self.defined_tasks@,
                        (#[trigger] self.providers_to_build@[q].supported_task_names@[j])@,
                    ),
            decreases np - p,
        {
            let ghost remaining_pre = remaining@;
            let spec = remaining.remove(0);
            proof {
                assert(remaining_pre[0] == self.providers_to_build@[p + 0]);
                assert(spec == self.providers_to_build@[p as int]);
                assert forall|j: int| 0 <= j < remaining@.len() implies #[trigger] remaining@[j]
                    == self.providers_to_build@[p + 1 + j] by {
                    assert(remaining@[j] == remaining_pre[j + 1]);
                    assert(remaining_pre[j + 1] == self.providers_to_build@[p + (j + 1)]);
                }
            }
            let nn = spec.supported_task_names.len();
            let mut provider_tasks: Vec<TaskDefinition> = Vec::new();
            let mut j: usize = 0;
            while j < nn
                invariant
                    nn == spec.supported_task_names@.len(),
                    j <= nn,
                    p < self.providers_to_build@.len(),
                    spec == self.providers_to_build@[p as int],
                    defined_tasks@ == self.defined_tasks@,
                    forall|i: int|
                        0 <= i < defined_tasks@.len() ==> (#[trigger] defined_tasks@[i]).wf(),
                    provider_tasks@.len() == j,
                    forall|i: int|
                        0 <= i < provider_tasks@.len() ==> (#[trigger] provider_tasks@[i]).wf(),
                    forall|i: int|
                        0 <= i < j ==> (#[trigger] provider_tasks@[i]).name@
                            == spec.supported_task_names@[i]@,
                    forall|i: int|
                        0 <= i < j ==> (#[trigger] provider_tasks@[i]).parameters@
                            == spec_resolved_task_params(
                            self.defined_tasks@,
                            spec.supported_task_names@[i]@,
                        ),
                    forall|i: int|
                        0 <= i < j ==> spec_task_defined(
                            self.defined_tasks@,
                            (#[trigger] spec.supported_task_names@[i])@,
                        ),
                decreases nn - j,
            {
                let name = &spec.supported_task_names[j];
                let mut found: Option<usize> = None;
                let nd = defined_tasks.len();
                let mut d: usize = nd;
                while d > 0 && found.is_none()
                    invariant
                        nd == defined_tasks@.len(),
                        d <= nd,
                        found is None ==> forall|k: int|
                            d <= k < nd ==> (#[trigger] defined_tasks@[k]).name@ != name@,
                        found matches Some(fi) ==> fi < nd && defined_tasks@[fi as int].name@
                            == name@ && (forall|k: int|
                            fi < k < nd ==> (#[trigger] defined_tasks@[k]).name@ != name@),
                    decreases d,
                {
                    d = d - 1;
                    if str_eq(defined_tasks[d].name.as_str(), name.as_str()) {
                        found = Some(d);
                    }
                }
                match found {
                    Some(fi) => {
                        proof {
                            lemma_resolved_params_at(self.defined_tasks@, name@, fi as int);
                        }
                        provider_tasks.push(defined_tasks[fi].duplicate());
                    },
                    None => {
                        proof {
                            assert(!spec_task_defined(self.defined_tasks@, name@));
                            assert(spec.supported_task_names@[j as int] == *name);
                            if spec_all_resolved(self.defined_tasks@, self.providers_to_build@) {
                                assert(spec_task_defined(
                                    self.defined_tasks@,
                                    (self.providers_to_build@[p as int].supported_task_names@[
                                    j as int])@,
                                ));
                            }
                        }
                        let msg = String::from_str("Build failed: Task '").concat(
                            name.as_str(),
                        ).concat("' referenced by provider '").concat(
                            spec.provider_type.display_name(),
                        ).concat("' (").concat(spec.model.as_str()).concat(
                            ") was not defined using define_task()",
                        );
                        return Err(LlmError::ConfigError(msg));
                    },
                }
                j = j + 1;
            }
            manager.add_instance(
                spec.provider_type,
                spec.api_key,
                spec.model,
                provider_tasks,
                spec.enabled,
                spec.custom_endpoint,
            );
            proof {
                assert(self.providers_to_build@[p as int].provider_type == spec.provider_type);
                assert forall|j2: int|
                    0 <= j2 < spec.supported_task_names@.len() implies manager.instances@[
                p as int].spec_supports((#[trigger] spec.supported_task_names@[j2])@) by {
                    assert(manager.instances@[p as int].supported_tasks@[j2].name@
                        == spec.supported_task_names@[j2]@);
                }
            }
            p = p + 1;
        }
        proof {
            assert(spec_all_resolved(self.defined_tasks@, self.providers_to_build@));
        }
        Ok(manager)
    }
}

} // verus!
