//! The validated configuration record and its materialization into a
//! manager. The hosting process parses the TOML text and resolves
//! environment references; the record it hands over is checked and
//! materialized here.

use crate::errors::LlmError;
use crate::manager::LlmManager;
use crate::strategies::StrategyKind;
use crate::tasks::TaskDefinition;
use crate::text::{eq_ignore_case, str_eq, str_eq_ignore_case};
use crate::types::{parse_provider_type, spec_parse_provider, ProviderType};
use vstd::prelude::*;

verus! {

/// Global settings: the selection policy by name, the retry budget, and an
/// optional transcript folder.
#[derive(Debug, Clone)]
pub struct Settings {
    pub strategy: String,
    pub max_retries: usize,
    pub debug_folder: Option<String>,
}

/// The default policy name.
pub fn default_strategy() -> (r: String)
    ensures
        r@ == "lru"@,
{
    String::from_str("lru")
}

/// The default retry budget.
pub fn default_max_retries() -> (r: usize)
    ensures
        r == crate::constants::DEFAULT_MAX_TRIES,
{
    crate::constants::DEFAULT_MAX_TRIES
}

/// The default enabled flag of a provider entry.
pub fn default_true() -> (r: bool)
    ensures
        r,
{
    true
}

impl Default for Settings {
    /// The `lru` policy with the default retry budget and no transcripts.
    fn default() -> (r: Settings)
        ensures
            r.strategy@ == "lru"@,
            r.max_retries == crate::constants::DEFAULT_MAX_TRIES,
            r.debug_folder is None,
    {
        Settings {
            strategy: default_strategy(),
            max_retries: default_max_retries(),
            debug_folder: None,
        }
    }
}

/// One task entry: the routing key and its default limits, the temperature
/// in thousandths.
#[derive(Debug, Clone)]
pub struct TaskConfig {
    pub name: String,
    pub max_tokens: Option<u32>,
    pub temperature: Option<u32>,
}

/// One provider entry, all fields as the file carries them.
#[derive(Debug, Clone)]
pub struct ProviderConfig {
    pub provider_type: String,
    pub model: String,
    pub api_key: String,
    pub tasks: Vec<String>,
    pub enabled: bool,
    pub endpoint: Option<String>,
    pub name: Option<String>,
}

/// The whole configuration record.
#[derive(Debug, Clone)]
pub struct Config {
    pub settings: Settings,
    pub tasks: Vec<TaskConfig>,
    pub providers: Vec<ProviderConfig>,
}

/// Which policy a name selects, with its aliases, compared without regard
/// to ASCII case; `None` for an unknown name.
pub open spec fn spec_parse_strategy(s: Seq<char>) -> Option<StrategyKind> {
    if eq_ignore_case(s, "lru"@) || eq_ignore_case(s, "least_recently_used"@) {
        Some(StrategyKind::LeastRecentlyUsed)
    } else if eq_ignore_case(s, "lowest_latency"@) || eq_ignore_case(s, "latency"@) {
        Some(StrategyKind::LowestLatency)
    } else if eq_ignore_case(s, "random"@) {
        Some(StrategyKind::Random)
    } else {
        None
    }
}

/// Parse a policy name, accepting its aliases.
pub fn parse_strategy(s: &str) -> (r: Option<StrategyKind>)
    ensures
        r == spec_parse_strategy(s@),
{
    if str_eq_ignore_case(s, "lru") || str_eq_ignore_case(s, "least_recently_used") {
        Some(StrategyKind::LeastRecentlyUsed)
    } else if str_eq_ignore_case(s, "lowest_latency") || str_eq_ignore_case(s, "latency") {
        Some(StrategyKind::LowestLatency)
    } else if str_eq_ignore_case(s, "random") {
        Some(StrategyKind::Random)
    } else {
        None
    }
}

/// A task of this name is declared in the record.
pub open spec fn spec_task_name_defined(tasks: Seq<TaskConfig>, name: Seq<char>) -> bool {
    exists|i: int| 0 <= i < tasks.len() && (#[trigger] tasks[i]).name@ == name
}

/// The record is consistent: every provider tag names a known family, every
/// task reference is declared, and the policy name is known.
pub open spec fn spec_config_valid(config: Config) -> bool {
    &&& forall|p: int|
        0 <= p < config.providers@.len() ==> spec_parse_provider(
            (#[trigger] config.providers@[p]).provider_type@,
        ) is Some
    &&& forall|p: int, t: int|
        0 <= p < config.providers@.len() && 0 <= t < config.providers@[p].tasks@.len()
            ==> spec_task_name_defined(
            config.tasks@,
            (#[trigger] config.providers@[p].tasks@[t])@,
        )
    &&& spec_parse_strategy(config.settings.strategy@) is Some
}

/// The display name of a provider entry: its `name` field, or the family
/// tag and model joined by a slash.
pub fn get_provider_display_name(provider: &ProviderConfig) -> (r: String)
    ensures
        r@ == match provider.name {
            Some(n) => n@,
            None => provider.provider_type@ + "/"@ + provider.model@,
        },
{
    match &provider.name {
        Some(n) => n.clone(),
        None => provider.provider_type.clone().concat("/").concat(provider.model.as_str()),
    }
}

/// Check the record for consistency, reporting the first problem: an
/// unknown provider tag, an undeclared task reference, or an unknown policy
/// name. Passes exactly the consistent records.
pub fn validate_config(config: &Config) -> (r: Result<(), LlmError>)
    ensures
        r is Ok <==> spec_config_valid(*config),
        r matches Err(e) ==> e is ConfigError,
{
    let np = config.providers.len();
    let mut p: usize = 0;
    while p < np
        invariant
            np == config.providers@.len(),
            p <= np,
            forall|q: int|
                0 <= q < p ==> spec_parse_provider(
                    (#[trigger] config.providers@[q]).provider_type@,
                ) is Some,
            forall|q: int, t: int|
                0 <= q < p && 0 <= t < config.providers@[q].tasks@.len()
                    ==> spec_task_name_defined(
                    config.tasks@,
                    (#[trigger] config.providers@[q].tasks@[t])@,
                ),
        decreases np - p,
    {
        let provider = &config.providers[p];
        if parse_provider_type(provider.provider_type.as_str()).is_none() {
            let msg = String::from_str("Unknown provider type '").concat(
                provider.provider_type.as_str(),
            ).concat("'");
            return Err(LlmError::ConfigError(msg));
        }
        let nt = provider.tasks.len();
        let mut t: usize = 0;
        while t < nt
            invariant
                np == config.providers@.len(),
                p < np,
                provider == &config.providers@[p as int],
                nt == provider.tasks@.len(),
                t <= nt,
                forall|t2: int|
                    0 <= t2 < t ==> spec_task_name_defined(
                        config.tasks@,
                        (#[trigger] provider.tasks@[t2])@,
                    ),
            decreases nt - t,
        {
            let task_name = &provider.tasks[t];
            let nd = config.tasks.len();
            let mut defined = false;
            let mut d: usize = 0;
            while d < nd
                invariant
                    nd == config.tasks@.len(),
                    d <= nd,
                    defined ==> spec_task_name_defined(config.tasks@, task_name@),
                    !defined ==> forall|k: int|
                        0 <= k < d ==> (#[trigger] config.tasks@[k]).name@ != task_name@,
                decreases nd - d,
            {
                if str_eq(config.tasks[d].name.as_str(), task_name.as_str()) {
                    defined = true;
                    d = nd;
                } else {
                    d = d + 1;
                }
            }
            if !defined {
                proof {
                    assert(!spec_task_name_defined(config.tasks@, task_name@));
                    if spec_config_valid(*config) {
                        assert(spec_task_name_defined(
                            config.tasks@,
                            (config.providers@[p as int].tasks@[t as int])@,
                        ));
                    }
                }
                let display = get_provider_display_name(provider);
                let msg = String::from_str("Task '").concat(task_name.as_str()).concat(
                    "' referenced by provider '",
                ).concat(display.as_str()).concat("' is not defined");
                return Err(LlmError::ConfigError(msg));
            }
            t = t + 1;
        }
        p = p + 1;
    }
    match parse_strategy(config.settings.strategy.as_str()) {
        Some(_) => Ok(()),
        None => {
            let msg = String::from_str("Unknown strategy '").concat(
                config.settings.strategy.as_str(),
            ).concat("'");
            Err(LlmError::ConfigError(msg))
        },
    }
}

/// The parameter map a task entry induces: its optional token budget and
/// its optional temperature, in thousandths.
pub open spec fn spec_params_of_task_config(tc: TaskConfig) -> Map<
    Seq<char>,
    crate::params::ParamValue,
> {
    let with_tokens = match tc.max_tokens {
        Some(m) => Map::<Seq<char>, crate::params::ParamValue>::empty().insert(
            "max_tokens"@,
            crate::params::ParamValue::Integer(m as i64),
        ),
        None => Map::empty(),
    };
    match tc.temperature {
        Some(t) => with_tokens.insert(
            "temperature"@,
            crate::params::ParamValue::Thousandths(t as i64),
        ),
        None => with_tokens,
    }
}

/// The first task entry declared under a name, if any.
pub open spec fn spec_first_task_config(tasks: Seq<TaskConfig>, name: Seq<char>) -> Option<
    TaskConfig,
>
    decreases tasks.len(),
{
    if tasks.len() == 0 {
        None
    } else if tasks[0].name@ == name {
        Some(tasks[0])
    } else {
        spec_first_task_config(tasks.drop_first(), name)
    }
}

proof fn lemma_first_task_config_at(tasks: Seq<TaskConfig>, name: Seq<char>, j: int)
    requires
        0 <= j < tasks.len(),
        tasks[j].name@ == name,
        forall|k: int| 0 <= k < j ==> (#[trigger] tasks[k]).name@ != name,
    ensures
        spec_first_task_config(tasks, name) == Some(tasks[j]),
    decreases j,
{
    if j > 0 {
        lemma_first_task_config_at(tasks.drop_first(), name, j - 1);
    }
}

/// Materialize a manager from a record: exactly the consistent records
/// succeed, and the manager reproduces the record's structure — one
/// instance per provider entry with its family, model, credential, endpoint
/// and enabled flag, the declared task names in order, the named policy and
/// the configured retry budget.
pub fn manager_from_config(config: &Config) -> (r: Result<LlmManager, LlmError>)
    ensures
        r is Ok <==> spec_config_valid(*config),
        r matches Err(e) ==> e is ConfigError,
        r matches Ok(m) ==> {
            &&& m.wf()
            &&& Some(m.strategy) == spec_parse_strategy(config.settings.strategy@)
            &&& m.max_retries == config.settings.max_retries
            &&& m.instances@.len() == config.providers@.len()
            &&& m.trackers@.len() == config.providers@.len()
            &&& forall|q: int|
                0 <= q < m.trackers@.len() ==> crate::tracker::spec_zeroed_tracker(
                    #[trigger] m.trackers@[q],
                )
            &&& forall|p: int|
                #![trigger m.instances@[p]]
                0 <= p < config.providers@.len() ==> {
                    let entry = config.providers@[p];
                    &&& Some(m.instances@[p].provider_type) == spec_parse_provider(
                        entry.provider_type@,
                    )
                    &&& m.instances@[p].model@ == entry.model@
                    &&& m.instances@[p].api_key@ == entry.api_key@
                    &&& m.instances@[p].enabled == entry.enabled
                    &&& m.instances@[p].supported_tasks@.len() == entry.tasks@.len()
                    &&& forall|t: int|
                        0 <= t < entry.tasks@.len()
                            ==> (#[trigger] m.instances@[p].supported_tasks@[t]).name@
                            == entry.tasks@[t]@
                    &&& forall|t: int|
                        0 <= t < entry.tasks@.len()
                            ==> (#[trigger] m.instances@[p].supported_tasks@[t]).parameters@
                            == (match spec_first_task_config(config.tasks@, entry.tasks@[t]@) {
                            Some(tc) => spec_params_of_task_config(tc),
                            None => Map::empty(),
                        })
                }
        },
{
    if let Err(e) = validate_config(config) {
        return Err(e);
    }
    let strategy = match parse_strategy(config.settings.strategy.as_str()) {
        Some(k) => k,
        None => vstd::pervasive::unreached(),
    };
    let mut manager = LlmManager::new_with_strategy_and_retries(
        strategy,
        config.settings.max_retries,
    );
    manager.debug_folder = match &config.settings.debug_folder {
        Some(f) => Some(f.clone()),
        None => None,
    };
    let np = config.providers.len();
    let mut p: usize = 0;
    while p < np
        invariant
            np == config.providers@.len(),
            p <= np,
            spec_config_valid(*config),
            manager.wf(),
            manager.strategy == strategy,
            Some(strategy) == spec_parse_strategy(config.settings.strategy@),
            manager.max_retries == config.settings.max_retries,
            manager.instances@.len() == p,
            manager.trackers@.len() == p,
            forall|q: int|
                0 <= q < manager.trackers@.len() ==> crate::tracker::spec_zeroed_tracker(
                    #[trigger] manager.trackers@[q],
                ),
            forall|q: int|
                #![trigger manager.instances@[q]]
                0 <= q < p ==> {
                    let entry = config.providers@[q];
                    &&& Some(manager.instances@[q].provider_type) == spec_parse_provider(
                        entry.provider_type@,
                    )
                    &&& manager.instances@[q].model@ == entry.model@
                    &&& manager.instances@[q].api_key@ == entry.api_key@
                    &&& manager.instances@[q].enabled == entry.enabled
                    &&& manager.instances@[q].supported_tasks@.len() == entry.tasks@.len()
                    &&& forall|t: int|
                        0 <= t < entry.tasks@.len()
                            ==> (#[trigger] manager.instances@[q].supported_tasks@[t]).name@
                            == entry.tasks@[t]@
                    &&& forall|t: int|
                        0 <= t < entry.tasks@.len()
                            ==> (#[trigger] manager.instances@[q].supported_tasks@[t]).parameters@
                            == (match spec_first_task_config(config.tasks@, entry.tasks@[t]@) {
                            Some(tc) => spec_params_of_task_config(tc),
                            None => Map::empty(),
                        })
                },
        decreases np - p,
    {
        let entry = &config.providers[p];
        let provider_type = match parse_provider_type(entry.provider_type.as_str()) {
            Some(k) => k,
            None => vstd::pervasive::unreached(),
        };
        let nt = entry.tasks.len();
        let mut tasks: Vec<TaskDefinition> = Vec::new();
        let mut t: usize = 0;
        while t < nt
            invariant
                np == config.providers@.len(),
                p < np,
                entry == &config.providers@[p as int],
                nt == entry.tasks@.len(),
                t <= nt,
                spec_config_valid(*config),
                tasks@.len() == t,
                forall|i: int| 0 <= i < tasks@.len() ==> (#[trigger] tasks@[i]).wf(),
                forall|i: int|
                    0 <= i < t ==> (#[trigger] tasks@[i]).name@ == entry.tasks@[i]@,
                forall|i: int|
                    0 <= i < t ==> (#[trigger] tasks@[i]).parameters@ == (match
                    spec_first_task_config(config.tasks@, entry.tasks@[i]@) {
                        Some(tc) => spec_params_of_task_config(tc),
                        None => Map::empty(),
                    }),
            decreases nt - t,
        {
            let task_name = &entry.tasks[t];
            let nd = config.tasks.len();
            let mut found: Option<usize> = None;
            let mut d: usize = 0;
            while d < nd
                invariant
                    nd == config.tasks@.len(),
                    d <= nd,
                    found is None ==> forall|k: int|
                        0 <= k < d ==> (#[trigger] config.tasks@[k]).name@ != task_name@,
                    found is Some ==> d == nd,
                    found matches Some(f) ==> f < nd && config.tasks@[f as int].name@
                        == task_name@ && (forall|k: int|
                        0 <= k < f ==> (#[trigger] config.tasks@[k]).name@ != task_name@),
                decreases nd - d,
            {
                if str_eq(config.tasks[d].name.as_str(), task_name.as_str()) {
                    found = Some(d);
                    d = nd;
                } else {
                    d = d + 1;
                }
            }
            let fi = match found {
                Some(f) => f,
                None => {
                    proof {
                        assert(spec_task_name_defined(
                            config.tasks@,
                            (config.providers@[p as int].tasks@[t as int])@,
                        ));
                    }
                    vstd::pervasive::unreached()
                },
            };
            proof {
                lemma_first_task_config_at(config.tasks@, task_name@, fi as int);
            }
            let tc = &config.tasks[fi];
            let mut td = TaskDefinition::new(task_name.as_str());
            if let Some(m) = tc.max_tokens {
                td = td.with_max_tokens(m);
            }
            if let Some(temp) = tc.temperature {
                td = td.with_temperature(temp);
            }
            proof {
                assert(td.parameters@ =~= spec_params_of_task_config(
                    config.tasks@[fi as int],
                ));
            }
            tasks.push(td);
            t = t + 1;
        }
        let endpoint = match &entry.endpoint {
            Some(e) => Some(e.clone()),
            None => None,
        };
        manager.add_instance(
            provider_type,
            entry.api_key.clone(),
            entry.model.clone(),
            tasks,
            entry.enabled,
            endpoint,
        );
        p = p + 1;
    }
    Ok(manager)
}


/// The position of the first closing brace, if any.
pub open spec fn spec_first_close(s: Seq<char>) -> Option<int>
    decreases s.len(),
{
    if s.len() == 0 {
        None
    } else if s[0] == '}' {
        Some(0)
    } else {
        match spec_first_close(s.drop_first()) {
            Some(i) => Some(i + 1),
            None => None,
        }
    }
}

/// The value bound to a name, first binding wins.
pub open spec fn spec_lookup(vars: Seq<(String, String)>, name: Seq<char>) -> Option<Seq<char>>
    decreases vars.len(),
{
    if vars.len() == 0 {
        None
    } else if vars[0].0@ == name {
        Some(vars[0].1@)
    } else {
        spec_lookup(vars.drop_first(), name)
    }
}

/// One left-to-right pass of `${NAME}` substitution: each placeholder is
/// replaced by its binding, text without a complete non-empty placeholder
/// is copied through, and a placeholder whose name has no binding fails.
pub open spec fn spec_substitute(s: Seq<char>, vars: Seq<(String, String)>) -> Option<Seq<char>>
    decreases s.len(),
{
    if s.len() == 0 {
        Some(Seq::empty())
    } else if s.len() >= 2 && s[0] == '$' && s[1] == '{' && (spec_first_close(s.skip(2)) matches
        Some(c) && 0 < c < s.len() - 2) {
        let c = spec_first_close(s.skip(2)).unwrap();
        let name = s.subrange(2, 2 + c);
        match spec_lookup(vars, name) {
            Some(value) => match spec_substitute(s.skip(2 + c + 1), vars) {
                Some(rest) => Some(value + rest),
                None => None,
            },
            None => None,
        }
    } else {
        match spec_substitute(s.drop_first(), vars) {
            Some(rest) => Some(seq![s[0]] + rest),
            None => None,
        }
    }
}

proof fn lemma_first_close_at(s: Seq<char>, j: int)
    requires
        0 <= j < s.len(),
        s[j] == '}',
        forall|i: int| 0 <= i < j ==> s[i] != '}',
    ensures
        spec_first_close(s) == Some(j),
    decreases j,
{
    if j > 0 {
        lemma_first_close_at(s.drop_first(), j - 1);
    }
}

proof fn lemma_first_close_none(s: Seq<char>)
    requires
        forall|i: int| 0 <= i < s.len() ==> s[i] != '}',
    ensures
        spec_first_close(s) is None,
    decreases s.len(),
{
    if s.len() > 0 {
        lemma_first_close_none(s.drop_first());
    }
}

proof fn lemma_lookup_at(vars: Seq<(String, String)>, name: Seq<char>, j: int)
    requires
        0 <= j < vars.len(),
        vars[j].0@ == name,
        forall|i: int| 0 <= i < j ==> vars[i].0@ != name,
    ensures
        spec_lookup(vars, name) == Some(vars[j].1@),
    decreases j,
{
    if j > 0 {
        lemma_lookup_at(vars.drop_first(), name, j - 1);
    }
}

proof fn lemma_lookup_none(vars: Seq<(String, String)>, name: Seq<char>)
    requires
        forall|i: int| 0 <= i < vars.len() ==> vars[i].0@ != name,
    ensures
        spec_lookup(vars, name) is None,
    decreases vars.len(),
{
    if vars.len() > 0 {
        lemma_lookup_none(vars.drop_first(), name);
    }
}

/// The first closing brace at or after `from`.
fn find_close(s: &str, from: usize) -> (r: Option<usize>)
    requires
        from <= s@.len(),
    ensures
        match r {
            Some(k) => from <= k < s@.len() && s@[k as int] == '}' && forall|i: int|
                from <= i < k ==> s@[i] != '}',
            None => forall|i: int| from <= i < s@.len() ==> s@[i] != '}',
        },
{
    let n = s.unicode_len();
    let mut k = from;
    while k < n
        invariant
            n == s@.len(),
            from <= k <= n,
            forall|i: int| from <= i < k ==> s@[i] != '}',
        decreases n - k,
    {
        if s.get_char(k) == '}' {
            return Some(k);
        }
        k = k + 1;
    }
    None
}

/// The binding of a name, first binding wins.
fn lookup_binding<'a>(vars: &'a Vec<(String, String)>, name: &str) -> (r: Option<&'a String>)
    ensures
        match r {
            Some(v) => spec_lookup(vars@, name@) == Some(v@),
            None => spec_lookup(vars@, name@) is None,
        },
{
    let n = vars.len();
    let mut i: usize = 0;
    while i < n
        invariant
            n == vars@.len(),
            i <= n,
            forall|j: int| 0 <= j < i ==> vars@[j].0@ != name@,
        decreases n - i,
    {
        if str_eq(vars[i].0.as_str(), name) {
            proof {
                lemma_lookup_at(vars@, name@, i as int);
            }
            return Some(&vars[i].1);
        }
        i = i + 1;
    }
    proof {
        lemma_lookup_none(vars@, name@);
    }
    None
}

/// Substitute `${NAME}` references against the given bindings, left to
/// right in one pass; an unresolved reference fails with a configuration
/// error naming the variable.
pub fn resolve_env_var_string(s: &str, vars: &Vec<(String, String)>) -> (r: Result<
    String,
    LlmError,
>)
    ensures
        match r {
            Ok(out) => spec_substitute(s@, vars@) == Some(out@),
            Err(e) => e is ConfigError && spec_substitute(s@, vars@) is None,
        },
    decreases s@.len(),
{
    let n = s.unicode_len();
    if n == 0 {
        let empty_out = String::new();
        return Ok(empty_out);
    }
    let placeholder = n >= 2 && s.get_char(0) == '$' && s.get_char(1) == '{';
    if placeholder {
        match find_close(s, 2) {
            Some(k) if k > 2 => {
                proof {
                    let tail = s@.skip(2);
                    assert(tail[k - 2] == '}');
                    assert(forall|i: int| 0 <= i < k - 2 ==> tail[i] != '}');
                    lemma_first_close_at(tail, k - 2);
                    assert(s@.subrange(2, 2 + (k - 2)) =~= s@.subrange(2, k as int));
                }
                let name = s.substring_char(2, k);
                match lookup_binding(vars, name) {
                    Some(value) => {
                        let tail_str = s.substring_char(k + 1, n);
                        proof {
                            assert(tail_str@ =~= s@.skip(2 + (k - 2) + 1));
                        }
                        match resolve_env_var_string(tail_str, vars) {
                            Ok(rest) => {
                                let out = String::from_str(value.as_str()).concat(rest.as_str());
                                Ok(out)
                            },
                            Err(e) => Err(e),
                        }
                    },
                    None => {
                        let msg = String::from_str("Environment variable '").concat(name).concat(
                            "' not found",
                        );
                        Err(LlmError::ConfigError(msg))
                    },
                }
            },
            other => {
                proof {
                    match other {
                        Some(k) => {
                            let tail = s@.skip(2);
                            assert(k == 2);
                            assert(tail[0] == '}');
                            lemma_first_close_at(tail, 0);
                        },
                        None => {
                            lemma_first_close_none(s@.skip(2));
                        },
                    }
                }
                let head = s.substring_char(0, 1);
                let tail_str = s.substring_char(1, n);
                proof {
                    assert(tail_str@ =~= s@.drop_first());
                }
                match resolve_env_var_string(tail_str, vars) {
                    Ok(rest) => {
                        let out = String::from_str(head).concat(rest.as_str());
                        proof {
                            assert(head@ =~= seq![s@[0]]);
                        }
                        Ok(out)
                    },
                    Err(e) => Err(e),
                }
            },
        }
    } else {
        let head = s.substring_char(0, 1);
        let tail_str = s.substring_char(1, n);
        proof {
            assert(tail_str@ =~= s@.drop_first());
        }
        match resolve_env_var_string(tail_str, vars) {
            Ok(rest) => {
                let out = String::from_str(head).concat(rest.as_str());
                proof {
                    assert(head@ =~= seq![s@[0]]);
                }
                Ok(out)
            },
            Err(e) => Err(e),
        }
    }
}

/// Every `${NAME}` reference in the record's credential, endpoint and
/// transcript-folder fields resolves against the bindings.
pub open spec fn spec_all_resolvable(config: Config, vars: Seq<(String, String)>) -> bool {
    &&& forall|p: int|
        0 <= p < config.providers@.len() ==> spec_substitute(
            (#[trigger] config.providers@[p]).api_key@,
            vars,
        ) is Some
    &&& forall|p: int|
        0 <= p < config.providers@.len() ==> match (#[trigger] config.providers@[p]).endpoint {
            Some(ep) => spec_substitute(ep@, vars) is Some,
            None => true,
        }
    &&& match config.settings.debug_folder {
        Some(f) => spec_substitute(f@, vars) is Some,
        None => true,
    }
}

/// Resolve every `${NAME}` reference in a record's credential, endpoint and
/// transcript-folder fields against the given bindings. The call succeeds
/// exactly when every reference resolves; the first unresolved reference
/// fails the whole record.
pub fn resolve_env_vars(config: &mut Config, vars: &Vec<(String, String)>) -> (r: Result<
    (),
    LlmError,
>)
    ensures
        final(config).tasks == old(config).tasks,
        final(config).settings.strategy == old(config).settings.strategy,
        final(config).settings.max_retries == old(config).settings.max_retries,
        final(config).providers@.len() == old(config).providers@.len(),
        r matches Err(e) ==> e is ConfigError,
        spec_all_resolvable(*old(config), vars@) ==> r is Ok,
        r is Ok ==> forall|p: int|
            0 <= p < old(config).providers@.len()
                ==> Some((#[trigger] final(config).providers@[p]).api_key@) == spec_substitute(
                old(config).providers@[p].api_key@,
                vars@,
            ) && (match old(config).providers@[p].endpoint {
                Some(ep) => final(config).providers@[p].endpoint matches Some(e2) && Some(e2@)
                    == spec_substitute(ep@, vars@),
                None => final(config).providers@[p].endpoint is None,
            }) && final(config).providers@[p].provider_type == old(config).providers@[
            p].provider_type && final(config).providers@[p].model == old(config).providers@[
            p].model && final(config).providers@[p].tasks == old(config).providers@[p].tasks
                && final(config).providers@[p].enabled == old(config).providers@[p].enabled
                && final(config).providers@[p].name == old(config).providers@[p].name,
        r is Ok ==> match old(config).settings.debug_folder {
            Some(f) => final(config).settings.debug_folder matches Some(f2) && Some(f2@)
                == spec_substitute(f@, vars@),
            None => final(config).settings.debug_folder is None,
        },
{
    let np = config.providers.len();
    let mut p: usize = 0;
    while p < np
        invariant
            np == config.providers@.len(),
            np == old(config).providers@.len(),
            p <= np,
            config.tasks == old(config).tasks,
            config.settings == old(config).settings,
            forall|q: int|
                p <= q < np ==> #[trigger] config.providers@[q] == old(config).providers@[q],
            forall|q: int|
                0 <= q < p ==> Some((#[trigger] config.providers@[q]).api_key@)
                    == spec_substitute(old(config).providers@[q].api_key@, vars@)
                    && (match old(config).providers@[q].endpoint {
                    Some(ep) => config.providers@[q].endpoint matches Some(e2) && Some(e2@)
                        == spec_substitute(ep@, vars@),
                    None => config.providers@[q].endpoint is None,
                }) && config.providers@[q].provider_type == old(config).providers@[
                q].provider_type && config.providers@[q].model == old(config).providers@[q].model
                    && config.providers@[q].tasks == old(config).providers@[q].tasks
                    && config.providers@[q].enabled == old(config).providers@[q].enabled
                    && config.providers@[q].name == old(config).providers@[q].name,
        decreases np - p,
    {
        proof {
            assert(config.providers@[p as int] == old(config).providers@[p as int]);
        }
        let resolved = match resolve_env_var_string(config.providers[p].api_key.as_str(), vars) {
            Ok(v) => v,
            Err(e) => {
                proof {
                    assert(spec_substitute(
                        old(config).providers@[p as int].api_key@,
                        vars@,
                    ) is None);
                }
                return Err(e);
            },
        };
        let entry = &mut config.providers[p];
        entry.api_key = resolved;
        let ghost endpoint_pre = old(config).providers@[p as int].endpoint;
        let endpoint_resolved = match &entry.endpoint {
            Some(ep) => {
                match resolve_env_var_string(ep.as_str(), vars) {
                    Ok(v) => Some(v),
                    Err(e) => {
                        proof {
                            assert(endpoint_pre matches Some(ep0) && spec_substitute(
                                ep0@,
                                vars@,
                            ) is None);
                        }
                        return Err(e);
                    },
                }
            },
            None => None,
        };
        let entry2 = &mut config.providers[p];
        entry2.endpoint = endpoint_resolved;
        p = p + 1;
    }
    let folder_resolved = match &config.settings.debug_folder {
        Some(f) => {
            match resolve_env_var_string(f.as_str(), vars) {
                Ok(v) => Some(v),
                Err(e) => {
                    proof {
                        assert(old(config).settings.debug_folder matches Some(f0)
                            && spec_substitute(f0@, vars@) is None);
                    }
                    return Err(e);
                },
            }
        },
        None => None,
    };
    config.settings.debug_folder = folder_resolved;
    Ok(())
}

} // verus!
