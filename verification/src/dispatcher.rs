//! The pure decisions of the retry loop: exponential backoff, candidate
//! derivation and filtering, and assembly of the adapter request from the
//! merged parameters.

use crate::constants::MAX_RATE_LIMIT_WAIT_SECS;
use crate::errors::LlmError;
use crate::instance::Instance;
use crate::params::{spec_max_tokens, spec_temperature, ParamMap, ParamValue};
use crate::tasks::TaskDefinition;
use crate::text::u64_to_string;
use crate::types::{LlmRequest, Message};
use vstd::prelude::*;

verus! {

/// Two to the power `n`.
pub open spec fn spec_pow2(n: nat) -> int
    decreases n,
{
    if n == 0 {
        1
    } else {
        2 * spec_pow2((n - 1) as nat)
    }
}

/// The backoff before retrying attempt `attempts`: `2^attempts` seconds,
/// capped at sixty.
pub open spec fn spec_backoff_secs(attempts: nat) -> u64 {
    if spec_pow2(attempts) >= MAX_RATE_LIMIT_WAIT_SECS {
        MAX_RATE_LIMIT_WAIT_SECS
    } else {
        spec_pow2(attempts) as u64
    }
}

proof fn lemma_pow2_ge_64(n: nat)
    requires
        n >= 6,
    ensures
        spec_pow2(n) >= 64,
    decreases n,
{
    if n == 6 {
        reveal_with_fuel(spec_pow2, 8);
        assert(spec_pow2(6) == 64);
    } else {
        lemma_pow2_ge_64((n - 1) as nat);
    }
}

/// The sleep the dispatcher takes after the n-th attempt was rate-limited:
/// 2, 4, 8, 16, 32 seconds, then 60 from the sixth attempt on.
pub fn backoff_secs(attempts: usize) -> (r: u64)
    ensures
        r == spec_backoff_secs(attempts as nat),
{
    proof {
        reveal_with_fuel(spec_pow2, 8);
        assert(spec_pow2(0) == 1 && spec_pow2(1) == 2 && spec_pow2(2) == 4 && spec_pow2(3) == 8
            && spec_pow2(4) == 16 && spec_pow2(5) == 32);
        if attempts >= 6 {
            lemma_pow2_ge_64(attempts as nat);
        }
    }
    if attempts == 0 {
        1
    } else if attempts == 1 {
        2
    } else if attempts == 2 {
        4
    } else if attempts == 3 {
        8
    } else if attempts == 4 {
        16
    } else if attempts == 5 {
        32
    } else {
        60
    }
}

/// From the sixth attempt on, the backoff is exactly the sixty-second cap.
pub proof fn lemma_backoff_cap(attempts: nat)
    requires
        attempts >= 6,
    ensures
        spec_backoff_secs(attempts) == 60,
{
    lemma_pow2_ge_64(attempts);
}

/// The successive sleeps of a repeatedly rate-limited request: 2, 4, 8, 16
/// and 32 seconds after the first five attempts, and the cap thereafter.
pub proof fn lemma_backoff_sequence()
    ensures
        spec_backoff_secs(1) == 2,
        spec_backoff_secs(2) == 4,
        spec_backoff_secs(3) == 8,
        spec_backoff_secs(4) == 16,
        spec_backoff_secs(5) == 32,
        spec_backoff_secs(6) == 60,
{
    reveal_with_fuel(spec_pow2, 8);
    assert(spec_pow2(1) == 2 && spec_pow2(2) == 4 && spec_pow2(3) == 8 && spec_pow2(4) == 16
        && spec_pow2(5) == 32 && spec_pow2(6) == 64);
}

/// Instance `i` may serve the request: it exists, it is enabled, it has not
/// failed this request, and it supports the requested task if one is named.
pub open spec fn spec_eligible(
    instances: Seq<Instance>,
    task: Option<Seq<char>>,
    failed: Seq<usize>,
    i: int,
) -> bool {
    &&& 0 <= i < instances.len()
    &&& instances[i].enabled
    &&& !failed.contains(i as usize)
    &&& match task {
        Some(t) => instances[i].spec_supports(t),
        None => true,
    }
}

/// Some instance declares support for the named task.
pub open spec fn spec_any_supports(instances: Seq<Instance>, t: Seq<char>) -> bool {
    exists|i: int| 0 <= i < instances.len() && (#[trigger] instances[i]).spec_supports(t)
}

/// The view of an optional task name.
pub open spec fn spec_task_view(task: Option<&String>) -> Option<Seq<char>> {
    match task {
        Some(t) => Some(t@),
        None => None,
    }
}

/// The eligible instance IDs among the first `n`, in ascending (that is,
/// registration) order.
pub open spec fn spec_eligible_ids(
    instances: Seq<Instance>,
    task: Option<Seq<char>>,
    failed: Seq<usize>,
    n: int,
) -> Seq<usize>
    decreases n,
{
    if n <= 0 {
        Seq::empty()
    } else {
        let rest = spec_eligible_ids(instances, task, failed, n - 1);
        if spec_eligible(instances, task, failed, n - 1) {
            rest.push((n - 1) as usize)
        } else {
            rest
        }
    }
}

/// Does the vector hold this index?
fn contains_usize(v: &Vec<usize>, x: usize) -> (r: bool)
    ensures
        r == v@.contains(x),
{
    let n = v.len();
    let mut i: usize = 0;
    while i < n
        invariant
            n == v@.len(),
            i <= n,
            forall|j: int| 0 <= j < i ==> v@[j] != x,
        decreases n - i,
    {
        if v[i] == x {
            return true;
        }
        i = i + 1;
    }
    false
}

/// Derive and filter the candidates for one attempt: the instances that are
/// enabled, have not failed this request, and support the requested task.
/// The list comes back in registration order; when nothing qualifies, the
/// call fails with a configuration error, naming the unmapped task, the
/// empty registry, or the exhausted candidate set.
pub fn eligible_candidates(
    instances: &Vec<Instance>,
    task: Option<&String>,
    failed: &Vec<usize>,
) -> (r: Result<Vec<usize>, LlmError>)
    ensures
        match r {
            Ok(v) => {
                &&& v@.len() > 0
                &&& v@ == spec_eligible_ids(
                    instances@,
                    spec_task_view(task),
                    failed@,
                    instances@.len() as int,
                )
                &&& forall|k: int|
                    0 <= k < v@.len() ==> spec_eligible(
                        instances@,
                        spec_task_view(task),
                        failed@,
                        #[trigger] v@[k] as int,
                    )
                &&& forall|k1: int, k2: int| 0 <= k1 < k2 < v@.len() ==> v@[k1] < v@[k2]
                &&& forall|i: int|
                    #![trigger instances@[i]]
                    spec_eligible(instances@, spec_task_view(task), failed@, i) ==> v@.contains(
                        i as usize,
                    )
            },
            Err(e) => {
                &&& e is ConfigError
                &&& forall|i: int|
                    #![trigger instances@[i]]
                    !spec_eligible(instances@, spec_task_view(task), failed@, i)
            },
        },
{
    let n = instances.len();
    if let Some(t) = task {
        let mut any = false;
        let mut i: usize = 0;
        while i < n
            invariant
                n == instances@.len(),
                i <= n,
                !any ==> forall|j: int|
                    0 <= j < i ==> !(#[trigger] instances@[j]).spec_supports(t@),
                any ==> spec_any_supports(instances@, t@),
            decreases n - i,
        {
            if instances[i].supports_task(t.as_str()) {
                any = true;
                i = n;
            } else {
                i = i + 1;
            }
        }
        if !any {
            let msg = String::from_str("No providers available for task: ").concat(t.as_str());
            return Err(LlmError::ConfigError(msg));
        }
    }
    if n == 0 {
        return Err(LlmError::ConfigError(String::from_str("No LLM providers available")));
    }
    let mut v: Vec<usize> = Vec::new();
    let mut i: usize = 0;
    while i < n
        invariant
            n == instances@.len(),
            i <= n,
            v@ == spec_eligible_ids(instances@, spec_task_view(task), failed@, i as int),
            forall|k: int|
                0 <= k < v@.len() ==> spec_eligible(
                    instances@,
                    spec_task_view(task),
                    failed@,
                    #[trigger] v@[k] as int,
                ),
            forall|k: int| 0 <= k < v@.len() ==> #[trigger] v@[k] < i,
            forall|k1: int, k2: int| 0 <= k1 < k2 < v@.len() ==> v@[k1] < v@[k2],
            forall|j: int|
                #![trigger instances@[j]]
                0 <= j < i && spec_eligible(instances@, spec_task_view(task), failed@, j)
                    ==> v@.contains(j as usize),
        decreases n - i,
    {
        let keep = instances[i].is_enabled() && !contains_usize(failed, i) && match task {
            Some(t) => instances[i].supports_task(t.as_str()),
            None => true,
        };
        if keep {
            let ghost v0 = v@;
            v.push(i);
            proof {
                assert(v@[v@.len() - 1] == i);
                assert forall|j: int|
                    0 <= j < i + 1 && spec_eligible(
                        instances@,
                        spec_task_view(task),
                        failed@,
                        j,
                    ) implies v@.contains(j as usize) by {
                    if j < i {
                        let k = choose|k: int| 0 <= k < v0.len() && v0[k] == j as usize;
                        assert(v@[k] == j as usize);
                    } else {
                        assert(v@[v@.len() - 1] == j as usize);
                    }
                }
            }
        }
        i = i + 1;
    }
    if v.len() == 0 {
        let mut msg = String::from_str("No enabled providers available");
        if let Some(t) = task {
            msg = msg.concat(" for task: '").concat(t.as_str()).concat("'");
        }
        if failed.len() > 0 {
            let count = u64_to_string(failed.len() as u64);
            msg = msg.concat(" (excluded ").concat(count.as_str()).concat(" failed instances)");
        }
        proof {
            assert forall|i2: int|
                #![trigger instances@[i2]]
                !spec_eligible(instances@, spec_task_view(task), failed@, i2) by {
                if 0 <= i2 < instances@.len() && spec_eligible(
                    instances@,
                    spec_task_view(task),
                    failed@,
                    i2,
                ) {
                    assert(v@.contains(i2 as usize));
                }
            }
        }
        return Err(LlmError::ConfigError(msg));
    }
    Ok(v)
}

/// What failure handling does to eligibility. A rate-limited attempt
/// leaves the failed set alone, so the offending instance is a candidate
/// again at the very next derivation; any other failure adds it to the
/// failed set, which excludes it from every later derivation of the same
/// request.
pub proof fn lemma_failover_eligibility(
    instances: Seq<Instance>,
    task: Option<Seq<char>>,
    failed: Seq<usize>,
    id: usize,
    rate_limited: bool,
)
    requires
        spec_eligible(instances, task, failed, id as int),
    ensures
        rate_limited ==> spec_eligible(instances, task, failed, id as int),
        !rate_limited ==> !spec_eligible(instances, task, failed.push(id), id as int),
{
    assert(failed.push(id)[failed.len() as int] == id);
    assert(failed.push(id).contains(id));
}

/// The merged parameter view: task defaults under request overrides.
pub open spec fn spec_merged_params(
    defaults: Option<Map<Seq<char>, ParamValue>>,
    overrides: Option<Map<Seq<char>, ParamValue>>,
) -> Map<Seq<char>, ParamValue> {
    let d = match defaults {
        Some(m) => m,
        None => Map::empty(),
    };
    let o = match overrides {
        Some(m) => m,
        None => Map::empty(),
    };
    d.union_prefer_right(o)
}

/// The view of an optional task definition's parameters.
pub open spec fn spec_task_params(task_def: Option<&TaskDefinition>) -> Option<
    Map<Seq<char>, ParamValue>,
> {
    match task_def {
        Some(t) => Some(t.parameters@),
        None => None,
    }
}

/// The view of optional request overrides.
pub open spec fn spec_override_params(params: Option<&ParamMap>) -> Option<
    Map<Seq<char>, ParamValue>,
> {
    match params {
        Some(p) => Some(p@),
        None => None,
    }
}

/// Assemble the adapter request for one attempt: a single user message with
/// the prompt — empty or not — passed through unchanged, no model override,
/// and the typed limits read from the merged parameters.
pub fn build_llm_request(
    prompt: &str,
    task_def: Option<&TaskDefinition>,
    params: Option<&ParamMap>,
) -> (r: LlmRequest)
    requires
        task_def matches Some(t) ==> t.wf(),
        params matches Some(p) ==> p.wf(),
    ensures
        r.messages@.len() == 1,
        r.messages@[0].role@ == "user"@,
        r.messages@[0].content@ == prompt@,
        r.model is None,
        r.max_tokens == spec_max_tokens(
            spec_merged_params(spec_task_params(task_def), spec_override_params(params)),
        ),
        r.temperature == spec_temperature(
            spec_merged_params(spec_task_params(task_def), spec_override_params(params)),
        ),
{
    let empty = ParamMap::new();
    let defaults = match task_def {
        Some(t) => &t.parameters,
        None => &empty,
    };
    let overrides = match params {
        Some(p) => p,
        None => &empty,
    };
    let merged = ParamMap::merged(defaults, overrides);
    proof {
        assert(merged@ =~= spec_merged_params(
            spec_task_params(task_def),
            spec_override_params(params),
        ));
    }
    let max_tokens = merged.max_tokens();
    let temperature = merged.temperature();
    let mut messages: Vec<Message> = Vec::new();
    messages.push(Message { role: String::from_str("user"), content: prompt.to_owned() });
    LlmRequest { messages, model: None, max_tokens, temperature }
}

} // verus!
