//! The manager: it owns the instances and their trackers, and runs the
//! retry/selection loop for each request through the hosting process's
//! adapter port.

use crate::constants::DEFAULT_MAX_TRIES;
use crate::dispatcher::{
    backoff_secs, build_llm_request, eligible_candidates, spec_eligible, spec_eligible_ids,
    spec_task_view,
};
use crate::errors::LlmError;
use crate::instance::{create_instance, Instance};
use crate::port::AdapterPort;
use crate::request::{GenerationRequest, LlmManagerRequest, LlmManagerResponse};
use crate::strategies::{select_index, spec_selected, StrategyKind};
use crate::tasks::TaskDefinition;
use crate::tracker::{spec_zeroed_tracker, InstanceTracker};
use crate::types::{spec_sat_add_u32, ProviderType, TokenUsage};
use vstd::prelude::*;

verus! {

/// The sum of all request counts, in unbounded arithmetic.
pub open spec fn spec_total_requests(ts: Seq<InstanceTracker>) -> int
    decreases ts.len(),
{
    if ts.len() == 0 {
        0
    } else {
        spec_total_requests(ts.drop_last()) + ts.last().request_count
    }
}

/// The accumulated usage over all trackers, saturating per field.
pub open spec fn spec_usage_sum(ts: Seq<InstanceTracker>) -> TokenUsage
    decreases ts.len(),
{
    if ts.len() == 0 {
        TokenUsage { prompt_tokens: 0, completion_tokens: 0, total_tokens: 0 }
    } else {
        TokenUsage {
            prompt_tokens: spec_sat_add_u32(
                spec_usage_sum(ts.drop_last()).prompt_tokens,
                ts.last().usage.prompt_tokens,
            ),
            completion_tokens: spec_sat_add_u32(
                spec_usage_sum(ts.drop_last()).completion_tokens,
                ts.last().usage.completion_tokens,
            ),
            total_tokens: spec_sat_add_u32(
                spec_usage_sum(ts.drop_last()).total_tokens,
                ts.last().usage.total_tokens,
            ),
        }
    }
}

/// Replacing one tracker moves the total request count by exactly the
/// difference at that index.
pub proof fn lemma_total_requests_update(s: Seq<InstanceTracker>, i: int, t: InstanceTracker)
    requires
        0 <= i < s.len(),
    ensures
        spec_total_requests(s.update(i, t)) == spec_total_requests(s) - s[i].request_count
            + t.request_count,
    decreases s.len(),
{
    if i == s.len() - 1 {
        assert(s.update(i, t).drop_last() =~= s.drop_last());
        assert(s.update(i, t).last() == t);
    } else {
        assert(s.update(i, t).drop_last() =~= s.drop_last().update(i, t));
        lemma_total_requests_update(s.drop_last(), i, t);
        assert(s.update(i, t).last() == s.last());
    }
}

/// The per-field unbounded sums of the accumulated usage.
pub open spec fn spec_prompt_sum(ts: Seq<InstanceTracker>) -> int
    decreases ts.len(),
{
    if ts.len() == 0 {
        0
    } else {
        spec_prompt_sum(ts.drop_last()) + ts.last().usage.prompt_tokens
    }
}

pub open spec fn spec_completion_sum(ts: Seq<InstanceTracker>) -> int
    decreases ts.len(),
{
    if ts.len() == 0 {
        0
    } else {
        spec_completion_sum(ts.drop_last()) + ts.last().usage.completion_tokens
    }
}

pub open spec fn spec_total_tokens_sum(ts: Seq<InstanceTracker>) -> int
    decreases ts.len(),
{
    if ts.len() == 0 {
        0
    } else {
        spec_total_tokens_sum(ts.drop_last()) + ts.last().usage.total_tokens
    }
}

/// While the unbounded sums fit the field type, the saturating accumulation
/// equals them exactly.
pub proof fn lemma_usage_sum_exact(ts: Seq<InstanceTracker>)
    requires
        spec_prompt_sum(ts) <= u32::MAX,
        spec_completion_sum(ts) <= u32::MAX,
        spec_total_tokens_sum(ts) <= u32::MAX,
    ensures
        spec_usage_sum(ts).prompt_tokens == spec_prompt_sum(ts),
        spec_usage_sum(ts).completion_tokens == spec_completion_sum(ts),
        spec_usage_sum(ts).total_tokens == spec_total_tokens_sum(ts),
    decreases ts.len(),
{
    if ts.len() > 0 {
        lemma_usage_sum_exact(ts.drop_last());
    }
}

/// Replacing one tracker moves each per-field usage sum by exactly the
/// difference at that index.
pub proof fn lemma_usage_sums_update(s: Seq<InstanceTracker>, i: int, t: InstanceTracker)
    requires
        0 <= i < s.len(),
    ensures
        spec_prompt_sum(s.update(i, t)) == spec_prompt_sum(s) - s[i].usage.prompt_tokens
            + t.usage.prompt_tokens,
        spec_completion_sum(s.update(i, t)) == spec_completion_sum(s)
            - s[i].usage.completion_tokens + t.usage.completion_tokens,
        spec_total_tokens_sum(s.update(i, t)) == spec_total_tokens_sum(s)
            - s[i].usage.total_tokens + t.usage.total_tokens,
    decreases s.len(),
{
    if i == s.len() - 1 {
        assert(s.update(i, t).drop_last() =~= s.drop_last());
        assert(s.update(i, t).last() == t);
    } else {
        assert(s.update(i, t).drop_last() =~= s.drop_last().update(i, t));
        lemma_usage_sums_update(s.drop_last(), i, t);
        assert(s.update(i, t).last() == s.last());
    }
}

/// After one success with usage `u` at instance `i` — its tracker's usage
/// grew by exactly `u` — the grand total grew by exactly `u` too, as long as
/// the sums fit the counter type.
pub proof fn lemma_total_usage_after_success(
    s: Seq<InstanceTracker>,
    i: int,
    t: InstanceTracker,
    u: TokenUsage,
)
    requires
        0 <= i < s.len(),
        t.usage.prompt_tokens == s[i].usage.prompt_tokens + u.prompt_tokens,
        t.usage.completion_tokens == s[i].usage.completion_tokens + u.completion_tokens,
        t.usage.total_tokens == s[i].usage.total_tokens + u.total_tokens,
        spec_prompt_sum(s.update(i, t)) <= u32::MAX,
        spec_completion_sum(s.update(i, t)) <= u32::MAX,
        spec_total_tokens_sum(s.update(i, t)) <= u32::MAX,
    ensures
        spec_usage_sum(s.update(i, t)).prompt_tokens == spec_usage_sum(s).prompt_tokens
            + u.prompt_tokens,
        spec_usage_sum(s.update(i, t)).completion_tokens == spec_usage_sum(s).completion_tokens
            + u.completion_tokens,
        spec_usage_sum(s.update(i, t)).total_tokens == spec_usage_sum(s).total_tokens
            + u.total_tokens,
{
    lemma_usage_sums_update(s, i, t);
    lemma_usage_sum_exact(s.update(i, t));
    lemma_usage_sum_exact(s);
}

/// How many adapter invocations one request may still make: the retry budget
/// plus the first attempt, less the attempts already consumed.
pub open spec fn spec_attempt_budget(eff_retries: int, start_attempts: int) -> int {
    if start_attempts <= eff_retries {
        eff_retries + 1 - start_attempts
    } else {
        0
    }
}

/// The dispatch engine: the instance registry, one tracker per instance, the
/// selection policy and the retry budget. The hosting process supplies the
/// network through an [`AdapterPort`].
#[derive(Debug)]
pub struct LlmManager {
    pub instances: Vec<Instance>,
    pub trackers: Vec<InstanceTracker>,
    pub strategy: StrategyKind,
    pub max_retries: usize,
    pub debug_folder: Option<String>,
}

impl LlmManager {
    /// One tracker per instance, every tracker and instance well-formed.
    pub open spec fn wf(&self) -> bool {
        &&& self.trackers@.len() == self.instances@.len()
        &&& forall|i: int| 0 <= i < self.trackers@.len() ==> (#[trigger] self.trackers@[i]).wf()
        &&& forall|i: int| 0 <= i < self.instances@.len() ==> (#[trigger] self.instances@[i]).wf()
    }

    /// An empty manager with the default policy and retry budget.
    pub fn new() -> (r: LlmManager)
        ensures
            r.wf(),
            r.instances@.len() == 0,
            r.strategy == StrategyKind::LeastRecentlyUsed,
            r.max_retries == DEFAULT_MAX_TRIES,
            r.debug_folder is None,
    {
        LlmManager {
            instances: Vec::new(),
            trackers: Vec::new(),
            strategy: StrategyKind::LeastRecentlyUsed,
            max_retries: DEFAULT_MAX_TRIES,
            debug_folder: None,
        }
    }

    /// Begin building a manager: tasks first, then providers.
    pub fn builder() -> (r: crate::builder::LlmManagerBuilder)
        ensures
            r.wf(),
            r.defined_tasks@.len() == 0,
            r.providers_to_build@.len() == 0,
            r.strategy == StrategyKind::LeastRecentlyUsed,
            r.max_retries == DEFAULT_MAX_TRIES,
    {
        crate::builder::LlmManagerBuilder::new()
    }

    /// An empty manager with a chosen policy.
    pub fn new_with_strategy(strategy: StrategyKind) -> (r: LlmManager)
        ensures
            r.wf(),
            r.instances@.len() == 0,
            r.strategy == strategy,
            r.max_retries == DEFAULT_MAX_TRIES,
    {
        LlmManager {
            instances: Vec::new(),
            trackers: Vec::new(),
            strategy,
            max_retries: DEFAULT_MAX_TRIES,
            debug_folder: None,
        }
    }

    /// An empty manager with a chosen policy and retry budget.
    pub fn new_with_strategy_and_retries(strategy: StrategyKind, max_retries: usize) -> (r:
        LlmManager)
        ensures
            r.wf(),
            r.instances@.len() == 0,
            r.strategy == strategy,
            r.max_retries == max_retries,
    {
        LlmManager {
            instances: Vec::new(),
            trackers: Vec::new(),
            strategy,
            max_retries,
            debug_folder: None,
        }
    }

    /// Register a pre-built instance: it takes the next ID — its position —
    /// and a zeroed tracker.
    pub fn add_instance_to_manager(&mut self, instance: Instance)
        requires
            old(self).wf(),
            instance.wf(),
        ensures
            final(self).wf(),
            final(self).instances@ == old(self).instances@.push(instance),
            final(self).trackers@.len() == old(self).instances@.len() + 1,
            forall|i: int|
                0 <= i < old(self).trackers@.len() ==> #[trigger] final(self).trackers@[i] == old(self).trackers@[i],
            spec_zeroed_tracker(final(self).trackers@.last()),
            final(self).strategy == old(self).strategy,
            final(self).max_retries == old(self).max_retries,
            final(self).debug_folder == old(self).debug_folder,
    {
        self.instances.push(instance);
        self.trackers.push(InstanceTracker::new(0));
    }

    /// Create and register an instance from its parts.
    pub fn add_instance(
        &mut self,
        provider_type: ProviderType,
        api_key: String,
        model: String,
        tasks: Vec<TaskDefinition>,
        enabled: bool,
        custom_endpoint: Option<String>,
    )
        requires
            old(self).wf(),
            forall|i: int| 0 <= i < tasks@.len() ==> (#[trigger] tasks@[i]).wf(),
        ensures
            final(self).wf(),
            final(self).instances@.len() == old(self).instances@.len() + 1,
            final(self).trackers@.len() == old(self).instances@.len() + 1,
            ({
                let added = final(self).instances@.last();
                &&& added.provider_type == provider_type
                &&& added.model == model
                &&& added.api_key == api_key
                &&& added.enabled == enabled
                &&& added.endpoint == custom_endpoint
                &&& added.supported_tasks == tasks
            }),
            forall|i: int|
                0 <= i < old(self).instances@.len() ==> final(self).instances@[i] == old(self).instances@[i],
            forall|i: int|
                0 <= i < old(self).trackers@.len() ==> #[trigger] final(self).trackers@[i] == old(
                    self,
                ).trackers@[i],
            spec_zeroed_tracker(final(self).trackers@.last()),
            final(self).strategy == old(self).strategy,
            final(self).max_retries == old(self).max_retries,
            final(self).debug_folder == old(self).debug_folder,
    {
        let instance = create_instance(provider_type, api_key, model, tasks, enabled,
            custom_endpoint);
        self.add_instance_to_manager(instance);
    }

    /// Switch the selection policy.
    pub fn set_strategy(&mut self, strategy: StrategyKind)
        requires
            old(self).wf(),
        ensures
            final(self).wf(),
            final(self).strategy == strategy,
            final(self).instances == old(self).instances,
            final(self).trackers == old(self).trackers,
            final(self).max_retries == old(self).max_retries,
    {
        self.strategy = strategy;
    }

    /// The number of registered instances.
    pub fn get_provider_count(&self) -> (r: usize)
        ensures
            r == self.instances@.len(),
    {
        self.instances.len()
    }

    /// The accumulated usage of one instance, `None` for an unknown ID.
    pub fn get_instance_usage(&self, instance_id: usize) -> (r: Option<TokenUsage>)
        requires
            self.wf(),
        ensures
            r == if instance_id < self.instances@.len() {
                Some(self.trackers@[instance_id as int].usage)
            } else {
                None::<TokenUsage>
            },
    {
        if instance_id < self.trackers.len() {
            Some(self.trackers[instance_id].usage)
        } else {
            None
        }
    }

    /// The accumulated usage over all instances.
    pub fn get_total_usage(&self) -> (r: TokenUsage)
        ensures
            r == spec_usage_sum(self.trackers@),
    {
        let n = self.trackers.len();
        let mut acc = TokenUsage::new();
        let mut i: usize = 0;
        while i < n
            invariant
                n == self.trackers@.len(),
                i <= n,
                acc == spec_usage_sum(self.trackers@.take(i as int)),
            decreases n - i,
        {
            proof {
                assert(self.trackers@.take(i as int + 1).drop_last() =~= self.trackers@.take(
                    i as int,
                ));
            }
            acc.add(&self.trackers[i].usage);
            i = i + 1;
        }
        proof {
            assert(self.trackers@.take(n as int) =~= self.trackers@);
        }
        acc
    }

    /// The selection pass of a streamed request: one candidate derivation
    /// filtered by the enabled flag and task support only — streams carry no
    /// failover — and one pick under the current policy, so the
    /// least-recently-used and lowest-latency policies pick the first
    /// minimum of their key over the eligible candidates. Fails with a
    /// configuration error exactly when no instance is eligible.
    pub fn select_instance_for_stream(&self, task: Option<&String>) -> (r: Result<usize, LlmError>)
        requires
            self.wf(),
        ensures
            match r {
                Ok(id) => {
                    &&& spec_eligible(
                        self.instances@,
                        spec_task_view(task),
                        Seq::<usize>::empty(),
                        id as int,
                    )
                    &&& ({
                        let cands = spec_eligible_ids(
                            self.instances@,
                            spec_task_view(task),
                            Seq::<usize>::empty(),
                            self.instances@.len() as int,
                        );
                        exists|k: int|
                            #[trigger] spec_selected(self.strategy, self.trackers@, cands, k)
                                && id == cands[k]
                    })
                },
                Err(e) => {
                    &&& e is ConfigError
                    &&& forall|i: int|
                        #![trigger self.instances@[i]]
                        !spec_eligible(
                            self.instances@,
                            spec_task_view(task),
                            Seq::<usize>::empty(),
                            i,
                        )
                },
            },
    {
        let no_failures: Vec<usize> = Vec::new();
        match eligible_candidates(&self.instances, task, &no_failures) {
            Ok(candidates) => {
                let sel = select_index(self.strategy, &self.trackers, &candidates);
                proof {
                    assert(spec_selected(
                        self.strategy,
                        self.trackers@,
                        candidates@,
                        sel as int,
                    ));
                }
                Ok(candidates[sel])
            },
            Err(e) => Err(e),
        }
    }

    /// The routing index read back: the IDs of the instances that declare
    /// support for the named task, in registration order.
    pub fn task_instances(&self, task: &str) -> (r: Vec<usize>)
        ensures
            forall|k1: int, k2: int| 0 <= k1 < k2 < r@.len() ==> r@[k1] < r@[k2],
            forall|k: int|
                0 <= k < r@.len() ==> #[trigger] r@[k] < self.instances@.len()
                    && self.instances@[r@[k] as int].spec_supports(task@),
            forall|i: int|
                #![trigger self.instances@[i]]
                0 <= i < self.instances@.len() && self.instances@[i].spec_supports(task@)
                    ==> r@.contains(i as usize),
    {
        let n = self.instances.len();
        let mut v: Vec<usize> = Vec::new();
        let mut i: usize = 0;
        while i < n
            invariant
                n == self.instances@.len(),
                i <= n,
                forall|k: int| 0 <= k < v@.len() ==> #[trigger] v@[k] < i,
                forall|k1: int, k2: int| 0 <= k1 < k2 < v@.len() ==> v@[k1] < v@[k2],
                forall|k: int|
                    0 <= k < v@.len() ==> #[trigger] v@[k] < n && self.instances@[
                    v@[k] as int].spec_supports(task@),
                forall|j: int|
                    #![trigger self.instances@[j]]
                    0 <= j < i && self.instances@[j].spec_supports(task@) ==> v@.contains(
                        j as usize,
                    ),
            decreases n - i,
        {
            if self.instances[i].supports_task(task) {
                let ghost v0 = v@;
                v.push(i);
                proof {
                    assert(v@[v@.len() - 1] == i);
                    assert forall|j: int|
                        0 <= j < i + 1 && self.instances@[j].spec_supports(
                            task@,
                        ) implies v@.contains(j as usize) by {
                        if j < i {
                            let k = choose|k: int| 0 <= k < v0.len() && v0[k] == j as usize;
                            assert(v@[k] == j as usize);
                        } else {
                            assert(v@[v@.len() - 1] == j as usize);
                        }
                    }
                }
            }
            i = i + 1;
        }
        v
    }

    /// The retry/selection loop for one request. Every tracker change stays
    /// within the attempt budget, and only instances that support the
    /// requested task are ever invoked; with no registered instance, or no
    /// eligible one, the call fails with a configuration error and no
    /// invocation at all. A non-rate-limit failure excludes its instance for
    /// the rest of the request, so a lone failing instance ends with the
    /// no-eligible configuration error after a single invocation rather
    /// than being retried against the same empty candidate set.
    pub fn generate_response<A: AdapterPort>(
        &mut self,
        port: &mut A,
        request: LlmManagerRequest,
        max_attempts: Option<usize>,
    ) -> (r: Result<String, LlmError>)
        requires
            old(self).wf(),
            request.wf(),
        ensures
            final(self).wf(),
            final(self).instances == old(self).instances,
            final(self).strategy == old(self).strategy,
            final(self).max_retries == old(self).max_retries,
            final(self).debug_folder == old(self).debug_folder,
            final(self).trackers@.len() == old(self).trackers@.len(),
            forall|i: int|
                0 <= i < old(self).trackers@.len()
                    ==> (#[trigger] final(self).trackers@[i]).request_count
                    >= old(self).trackers@[i].request_count,
            spec_total_requests(final(self).trackers@) <= spec_total_requests(
                old(self).trackers@,
            ) + spec_attempt_budget(
                match max_attempts {
                    Some(m) => m as int,
                    None => old(self).max_retries as int,
                },
                request.attempts as int,
            ),
            forall|i: int|
                0 <= i < old(self).trackers@.len()
                    && (#[trigger] final(self).trackers@[i]).request_count
                    > old(self).trackers@[i].request_count ==> match request.task {
                    Some(t) => old(self).instances@[i].spec_supports(t@),
                    None => true,
                },
            old(self).instances@.len() == 0 ==> (r matches Err(e) && e is ConfigError),
            ({
                let entry_task = match request.task {
                    Some(t) => Some(t@),
                    None => None,
                };
                (forall|i: int|
                    #![trigger old(self).instances@[i]]
                    !spec_eligible(
                        old(self).instances@,
                        entry_task,
                        request.failed_instances@,
                        i,
                    )) ==> ((r matches Err(e) && e is ConfigError) && final(self).trackers@ == old(
                    self,
                ).trackers@)
            }),
    {
        let configured = match max_attempts {
            Some(m) => m,
            None => self.max_retries,
        };
        // the attempt counter must stay within its type
        let eff_retries = if configured == usize::MAX {
            usize::MAX - 1
        } else {
            configured
        };
        let LlmManagerRequest { prompt, task, params, attempts: start_attempts, failed_instances } =
            request;
        let mut attempts = start_attempts;
        let mut failed = failed_instances;
        let ghost trackers0 = self.trackers@;
        while attempts <= eff_retries
            invariant
                self.wf(),
                self.instances == old(self).instances,
                self.strategy == old(self).strategy,
                self.max_retries == old(self).max_retries,
                self.debug_folder == old(self).debug_folder,
                self.trackers@.len() == trackers0.len(),
                trackers0 == old(self).trackers@,
                task == request.task,
                start_attempts == request.attempts,
                request.attempts <= attempts,
                params matches Some(p) ==> p.wf(),
                eff_retries <= (match max_attempts {
                    Some(m) => m,
                    None => old(self).max_retries,
                }),
                eff_retries < usize::MAX,
                (match max_attempts {
                    Some(m) => m as int,
                    None => old(self).max_retries as int,
                }) <= eff_retries + 1,
                attempts == start_attempts || attempts <= eff_retries + 1,
                attempts == start_attempts || start_attempts <= eff_retries,
                forall|i: int|
                    0 <= i < trackers0.len() ==> (#[trigger] self.trackers@[i]).request_count
                        >= trackers0[i].request_count,
                spec_total_requests(self.trackers@) <= spec_total_requests(trackers0) + (
                attempts - request.attempts),
                forall|i: int|
                    0 <= i < trackers0.len() && (#[trigger] self.trackers@[i]).request_count
                        > trackers0[i].request_count ==> match request.task {
                        Some(t) => self.instances@[i].spec_supports(t@),
                        None => true,
                    },
                ({
                    let entry_task = match request.task {
                        Some(t) => Some(t@),
                        None => None,
                    };
                    (forall|i: int|
                        #![trigger old(self).instances@[i]]
                        !spec_eligible(
                            old(self).instances@,
                            entry_task,
                            request.failed_instances@,
                            i,
                        )) ==> (self.trackers@ == trackers0 && forall|i: int|
                        #![trigger self.instances@[i]]
                        !spec_eligible(self.instances@, entry_task, failed@, i))
                }),
            decreases eff_retries + 1 - attempts,
        {
            let outcome_err: LlmError;
            let task_ref = task.as_ref();
            match eligible_candidates(&self.instances, task_ref, &failed) {
                Err(e) => {
                    return Err(e);
                },
                Ok(candidates) => {
                    proof {
                        let entry_task = match &task {
                            Some(t) => Some(t@),
                            None => None,
                        };
                        if forall|i: int|
                            #![trigger old(self).instances@[i]]
                            !spec_eligible(
                                old(self).instances@,
                                entry_task,
                                request.failed_instances@,
                                i,
                            ) {
                            assert(spec_task_view(task_ref) == entry_task);
                            assert(spec_eligible(
                                self.instances@,
                                spec_task_view(task_ref),
                                failed@,
                                candidates@[0] as int,
                            ));
                            assert(!spec_eligible(
                                self.instances@,
                                entry_task,
                                failed@,
                                candidates@[0] as int,
                            ));
                            assert(false);
                        }
                    }
                    let sel = select_index(self.strategy, &self.trackers, &candidates);
                    let id = candidates[sel];
                    let task_def = match &task {
                        Some(t) => self.instances[id].find_task(t.as_str()),
                        None => None,
                    };
                    let llm_req = build_llm_request(prompt.as_str(), task_def, params.as_ref());
                    let started = port.now_millis();
                    let outcome = port.generate(&self.instances[id], &llm_req);
                    let ended = port.now_millis();
                    let duration = ended.saturating_sub(started);
                    let ghost pre = self.trackers@;
                    let success = outcome.is_ok();
                    let tracker = &mut self.trackers[id];
                    tracker.record_result(ended, duration, success);
                    proof {
                        lemma_total_requests_update(pre, id as int, self.trackers@[id as int]);
                    }
                    match outcome {
                        Ok(response) => {
                            if let Some(u) = &response.usage {
                                let ghost pre2 = self.trackers@;
                                let tracker2 = &mut self.trackers[id];
                                tracker2.add_usage(u);
                                proof {
                                    lemma_total_requests_update(
                                        pre2,
                                        id as int,
                                        self.trackers@[id as int],
                                    );
                                }
                            }
                            return Ok(response.content);
                        },
                        Err(e) => {
                            if e.is_rate_limit() {
                                attempts = attempts + 1;
                                port.sleep_secs(backoff_secs(attempts));
                            } else {
                                failed.push(id);
                                attempts = attempts + 1;
                            }
                            outcome_err = e;
                        },
                    }
                },
            }
            if attempts > eff_retries {
                return Err(outcome_err);
            }
        }
        Err(
            LlmError::ConfigError(
                String::from_str("No available providers after all retry attempts"),
            ),
        )
    }

    /// Process a batch one request at a time, in order: one response per
    /// request, in the same order, and no wholesale failure.
    pub fn generate_sequentially<A: AdapterPort>(
        &mut self,
        port: &mut A,
        requests: Vec<GenerationRequest>,
    ) -> (r: Vec<LlmManagerResponse>)
        requires
            old(self).wf(),
            forall|i: int| 0 <= i < requests@.len() ==> (#[trigger] requests@[i]).wf(),
        ensures
            final(self).wf(),
            final(self).instances == old(self).instances,
            final(self).strategy == old(self).strategy,
            final(self).max_retries == old(self).max_retries,
            final(self).trackers@.len() == old(self).trackers@.len(),
            r@.len() == requests@.len(),
            forall|i: int|
                0 <= i < r@.len() ==> ((#[trigger] r@[i]).success <==> r@[i].error is None),
            old(self).instances@.len() == 0 ==> forall|i: int|
                0 <= i < r@.len() ==> !(#[trigger] r@[i]).success && r@[i].error is Some,
    {
        let n = requests.len();
        let mut responses: Vec<LlmManagerResponse> = Vec::new();
        let mut remaining = requests;
        let mut i: usize = 0;
        while i < n
            invariant
                self.wf(),
                self.instances == old(self).instances,
                self.strategy == old(self).strategy,
                self.max_retries == old(self).max_retries,
                self.trackers@.len() == old(self).trackers@.len(),
                n == remaining@.len() + i,
                responses@.len() == i,
                i <= n,
                forall|j: int| 0 <= j < remaining@.len() ==> (#[trigger] remaining@[j]).wf(),
                forall|j: int|
                    0 <= j < responses@.len() ==> ((#[trigger] responses@[j]).success
                        <==> responses@[j].error is None),
                old(self).instances@.len() == 0 ==> forall|j: int|
                    0 <= j < responses@.len() ==> !(#[trigger] responses@[j]).success
                        && responses@[j].error is Some,
            decreases n - i,
        {
            let request = remaining.remove(0);
            let internal = LlmManagerRequest::from_generation_request(request);
            let outcome = self.generate_response(port, internal, None);
            let response = match outcome {
                Ok(content) => LlmManagerResponse { content, success: true, error: None },
                Err(e) => LlmManagerResponse {
                    content: String::new(),
                    success: false,
                    error: Some(e.display_message()),
                },
            };
            responses.push(response);
            i = i + 1;
        }
        responses
    }

    /// Process a batch with positional assignment: the i-th response answers
    /// the i-th request. Under this crate's exclusive-borrow API the
    /// elements run in order; the positional guarantee is what callers may
    /// rely on either way.
    pub fn batch_generate<A: AdapterPort>(
        &mut self,
        port: &mut A,
        requests: Vec<GenerationRequest>,
    ) -> (r: Vec<LlmManagerResponse>)
        requires
            old(self).wf(),
            forall|i: int| 0 <= i < requests@.len() ==> (#[trigger] requests@[i]).wf(),
        ensures
            final(self).wf(),
            final(self).instances == old(self).instances,
            final(self).strategy == old(self).strategy,
            final(self).max_retries == old(self).max_retries,
            final(self).trackers@.len() == old(self).trackers@.len(),
            r@.len() == requests@.len(),
            forall|i: int|
                0 <= i < r@.len() ==> ((#[trigger] r@[i]).success <==> r@[i].error is None),
            old(self).instances@.len() == 0 ==> forall|i: int|
                0 <= i < r@.len() ==> !(#[trigger] r@[i]).success && r@[i].error is Some,
    {
        self.generate_sequentially(port, requests)
    }
}

} // verus!
