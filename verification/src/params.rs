//! Request and task parameters: scalar values and a small string-keyed map
//! with last-write-wins insertion, viewed as a `Map<Seq<char>, ParamValue>`.

use crate::text::str_eq;
use vstd::map_lib::lemma_union_insert_right;
use vstd::prelude::*;

verus! {

/// One scalar parameter value. Fractional numbers are carried in
/// thousandths: `Thousandths(700)` stands for 0.7.
#[derive(Debug, Clone, PartialEq, Eq)]
pub enum ParamValue {
    Integer(i64),
    Thousandths(i64),
    Text(String),
    Flag(bool),
}

/// Copy a parameter value; the copy equals the original.
pub fn clone_param_value(v: &ParamValue) -> (r: ParamValue)
    ensures
        r == *v,
{
    match v {
        ParamValue::Integer(i) => ParamValue::Integer(*i),
        ParamValue::Thousandths(t) => ParamValue::Thousandths(*t),
        ParamValue::Text(s) => ParamValue::Text(s.clone()),
        ParamValue::Flag(b) => ParamValue::Flag(*b),
    }
}

/// The map described by an entry list: later entries win.
pub open spec fn entries_map(s: Seq<(String, ParamValue)>) -> Map<Seq<char>, ParamValue>
    decreases s.len(),
{
    if s.len() == 0 {
        Map::empty()
    } else {
        entries_map(s.drop_last()).insert(s.last().0@, s.last().1)
    }
}

/// No two entries share a key.
pub open spec fn entries_unique(s: Seq<(String, ParamValue)>) -> bool {
    forall|i: int, j: int| 0 <= i < j < s.len() ==> s[i].0@ != s[j].0@
}

/// A parameter map: insertion-ordered entries with unique keys.
#[derive(Debug, Clone)]
pub struct ParamMap {
    entries: Vec<(String, ParamValue)>,
}

impl View for ParamMap {
    type V = Map<Seq<char>, ParamValue>;

    closed spec fn view(&self) -> Map<Seq<char>, ParamValue> {
        entries_map(self.entries@)
    }
}

proof fn lemma_entries_map_contains(s: Seq<(String, ParamValue)>, k: Seq<char>)
    ensures
        entries_map(s).contains_key(k) <==> exists|i: int| 0 <= i < s.len() && s[i].0@ == k,
    decreases s.len(),
{
    if s.len() > 0 {
        lemma_entries_map_contains(s.drop_last(), k);
        if s.last().0@ == k {
            assert(s[s.len() - 1].0@ == k);
        } else {
            if entries_map(s).contains_key(k) {
                let i = choose|i: int| 0 <= i < s.drop_last().len() && s.drop_last()[i].0@ == k;
                assert(s[i].0@ == k);
            }
            if exists|i: int| 0 <= i < s.len() && s[i].0@ == k {
                let i = choose|i: int| 0 <= i < s.len() && s[i].0@ == k;
                assert(i < s.len() - 1);
                assert(s.drop_last()[i].0@ == k);
            }
        }
    }
}

proof fn lemma_entries_map_index(s: Seq<(String, ParamValue)>, i: int)
    requires
        entries_unique(s),
        0 <= i < s.len(),
    ensures
        entries_map(s).contains_key(s[i].0@),
        entries_map(s)[s[i].0@] == s[i].1,
    decreases s.len(),
{
    if i == s.len() - 1 {
    } else {
        assert(entries_unique(s.drop_last()));
        assert(s.drop_last()[i] == s[i]);
        lemma_entries_map_index(s.drop_last(), i);
        assert(s[i].0@ != s.last().0@);
    }
}

proof fn lemma_entries_map_remove(s: Seq<(String, ParamValue)>, i: int)
    requires
        entries_unique(s),
        0 <= i < s.len(),
    ensures
        entries_map(s.remove(i)) == entries_map(s).remove(s[i].0@),
    decreases s.len(),
{
    let k = s[i].0@;
    if i == s.len() - 1 {
        assert(s.remove(i) =~= s.drop_last());
        lemma_entries_map_contains(s.drop_last(), k);
        assert(forall|j: int|
            0 <= j < s.drop_last().len() ==> #[trigger] s.drop_last()[j].0@ != k);
        assert(!entries_map(s.drop_last()).contains_key(k));
        assert(entries_map(s).remove(k) =~= entries_map(s.drop_last()));
    } else {
        let dl = s.drop_last();
        assert(entries_unique(dl));
        assert(dl[i] == s[i]);
        lemma_entries_map_remove(dl, i);
        assert(s.remove(i).drop_last() =~= dl.remove(i));
        assert(s.remove(i).last() == s.last());
        assert(s.remove(i).len() == s.len() - 1 > 0);
        assert(entries_map(s.remove(i)) == entries_map(dl.remove(i)).insert(
            s.last().0@,
            s.last().1,
        ));
        assert(s.last().0@ != k);
        assert(entries_map(dl).remove(k).insert(s.last().0@, s.last().1) =~= entries_map(
            dl,
        ).insert(s.last().0@, s.last().1).remove(k));
    }
}

impl ParamMap {
    /// Uniqueness of the stored keys; constructors establish it and every
    /// operation preserves it.
    pub closed spec fn wf(&self) -> bool {
        entries_unique(self.entries@)
    }

    /// The empty parameter map.
    pub fn new() -> (r: ParamMap)
        ensures
            r.wf(),
            r@ == Map::<Seq<char>, ParamValue>::empty(),
    {
        ParamMap { entries: Vec::new() }
    }

    /// How many parameters are set.
    pub fn len(&self) -> (r: usize)
        requires
            self.wf(),
        ensures
            r == self@.dom().len(),
    {
        proof {
            lemma_entries_map_len(self.entries@);
        }
        self.entries.len()
    }

    /// Is no parameter set?
    pub fn is_empty(&self) -> (r: bool)
        requires
            self.wf(),
        ensures
            r <==> self@ == Map::<Seq<char>, ParamValue>::empty(),
    {
        proof {
            if self.entries@.len() > 0 {
                lemma_entries_map_index(self.entries@, 0);
            } else {
                assert(self@ =~= Map::<Seq<char>, ParamValue>::empty());
            }
        }
        self.entries.len() == 0
    }

    /// Look a parameter up by key.
    pub fn get(&self, key: &str) -> (r: Option<&ParamValue>)
        requires
            self.wf(),
        ensures
            match r {
                Some(v) => self@.contains_key(key@) && *v == self@[key@],
                None => !self@.contains_key(key@),
            },
    {
        let n = self.entries.len();
        let mut i: usize = 0;
        while i < n
            invariant
                n == self.entries@.len(),
                i <= n,
                entries_unique(self.entries@),
                self@ == entries_map(self.entries@),
                forall|j: int| 0 <= j < i ==> self.entries@[j].0@ != key@,
            decreases n - i,
        {
            if str_eq(self.entries[i].0.as_str(), key) {
                proof {
                    lemma_entries_map_index(self.entries@, i as int);
                }
                return Some(&self.entries[i].1);
            }
            i = i + 1;
        }
        proof {
            lemma_entries_map_contains(self.entries@, key@);
        }
        None
    }

    /// Set a parameter, replacing any earlier value under the same key.
    pub fn insert(&mut self, key: &str, value: ParamValue)
        requires
            old(self).wf(),
        ensures
            final(self).wf(),
            final(self)@ == old(self)@.insert(key@, value),
    {
        let n = self.entries.len();
        let mut i: usize = 0;
        let mut found: Option<usize> = None;
        while i < n
            invariant
                n == self.entries@.len(),
                i <= n,
                match found {
                    Some(f) => f < i && self.entries@[f as int].0@ == key@,
                    None => forall|j: int| 0 <= j < i ==> self.entries@[j].0@ != key@,
                },
            decreases n - i,
        {
            if found.is_none() && str_eq(self.entries[i].0.as_str(), key) {
                found = Some(i);
            }
            i = i + 1;
        }
        let ghost s0 = self.entries@;
        match found {
            Some(f) => {
                proof {
                    lemma_entries_map_remove(s0, f as int);
                }
                self.entries.remove(f);
                let ghost s1 = self.entries@;
                self.entries.push((key.to_owned(), value));
                proof {
                    assert(self.entries@.drop_last() =~= s1);
                    assert(entries_map(self.entries@) == entries_map(s1).insert(key@, value));
                    assert(entries_map(s0).remove(key@).insert(key@, value) =~= entries_map(
                        s0,
                    ).insert(key@, value));
                    assert forall|a: int, b: int|
                        0 <= a < b < self.entries@.len() implies self.entries@[a].0@
                        != self.entries@[b].0@ by {
                        if b < self.entries@.len() - 1 {
                            assert(s1[a] == self.entries@[a]);
                            assert(s1[b] == self.entries@[b]);
                            if a < f && b < f {
                                assert(s0[a] == s1[a] && s0[b] == s1[b]);
                            } else if a < f {
                                assert(s0[a] == s1[a] && s0[b + 1] == s1[b]);
                            } else {
                                assert(s0[a + 1] == s1[a] && s0[b + 1] == s1[b]);
                            }
                        } else {
                            let a0 = if a < f {
                                a
                            } else {
                                a + 1
                            };
                            assert(s0[a0] == s1[a]);
                            assert(s0[a0].0@ != key@);
                        }
                    }
                }
            },
            None => {
                self.entries.push((key.to_owned(), value));
                proof {
                    assert(self.entries@.drop_last() =~= s0);
                    lemma_entries_map_contains(s0, key@);
                    assert forall|a: int, b: int|
                        0 <= a < b < self.entries@.len() implies self.entries@[a].0@
                        != self.entries@[b].0@ by {
                        if b < self.entries@.len() - 1 {
                            assert(s0[a] == self.entries@[a]);
                            assert(s0[b] == self.entries@[b]);
                        } else {
                            assert(s0[a] == self.entries@[a]);
                        }
                    }
                }
            },
        }
    }

    /// A copy of this map with the same contents.
    pub fn duplicate(&self) -> (r: ParamMap)
        requires
            self.wf(),
        ensures
            r.wf(),
            r@ == self@,
    {
        let n = self.entries.len();
        let mut out: Vec<(String, ParamValue)> = Vec::new();
        let mut i: usize = 0;
        while i < n
            invariant
                n == self.entries@.len(),
                i <= n,
                out@ =~= self.entries@.take(i as int),
            decreases n - i,
        {
            let k = self.entries[i].0.clone();
            let v = clone_param_value(&self.entries[i].1);
            out.push((k, v));
            proof {
                assert(out@ =~= self.entries@.take(i as int).push(self.entries@[i as int]));
                assert(self.entries@.take(i as int).push(self.entries@[i as int]) =~= self.entries@
                    .take(i as int + 1));
            }
            i = i + 1;
        }
        proof {
            assert(self.entries@.take(n as int) =~= self.entries@);
        }
        ParamMap { entries: out }
    }

    /// The union of two maps, the right side winning on shared keys.
    pub fn merged(defaults: &ParamMap, overrides: &ParamMap) -> (r: ParamMap)
        requires
            defaults.wf(),
            overrides.wf(),
        ensures
            r.wf(),
            r@ == defaults@.union_prefer_right(overrides@),
    {
        let mut out = defaults.duplicate();
        let n = overrides.entries.len();
        let mut i: usize = 0;
        while i < n
            invariant
                n == overrides.entries@.len(),
                i <= n,
                out.wf(),
                entries_unique(overrides.entries@),
                out@ == defaults@.union_prefer_right(entries_map(overrides.entries@.take(i as int))),
            decreases n - i,
        {
            let k = overrides.entries[i].0.clone();
            let v = clone_param_value(&overrides.entries[i].1);
            proof {
                let pre = overrides.entries@.take(i as int);
                let post = overrides.entries@.take(i as int + 1);
                assert(post.drop_last() =~= pre);
                assert(post.last() == overrides.entries@[i as int]);
                lemma_union_insert_right(
                    defaults@,
                    entries_map(pre),
                    overrides.entries@[i as int].0@,
                    overrides.entries@[i as int].1,
                );
            }
            out.insert(k.as_str(), v);
            i = i + 1;
        }
        proof {
            assert(overrides.entries@.take(n as int) =~= overrides.entries@);
        }
        out
    }
}

/// The unsigned reading of a parameter: non-negative integers only, as the
/// merge step reads `max_tokens`.
pub open spec fn spec_as_u64(v: ParamValue) -> Option<u64> {
    match v {
        ParamValue::Integer(i) => if i >= 0 {
            Some(i as u64)
        } else {
            None
        },
        _ => None,
    }
}

/// The `max_tokens` entry of a merged parameter map, truncated to `u32`.
pub open spec fn spec_max_tokens(m: Map<Seq<char>, ParamValue>) -> Option<u32> {
    if m.contains_key("max_tokens"@) {
        match spec_as_u64(m["max_tokens"@]) {
            Some(u) => Some((u % 0x1_0000_0000u64) as u32),
            None => None,
        }
    } else {
        None
    }
}

/// The `temperature` entry of a merged parameter map, in thousandths. A
/// whole-number entry is scaled up; an out-of-range entry reads as absent.
pub open spec fn spec_temperature(m: Map<Seq<char>, ParamValue>) -> Option<u32> {
    if m.contains_key("temperature"@) {
        match m["temperature"@] {
            ParamValue::Thousandths(t) => if 0 <= t <= u32::MAX {
                Some(t as u32)
            } else {
                None
            },
            ParamValue::Integer(i) => if 0 <= i && i * 1000 <= u32::MAX {
                Some((i * 1000) as u32)
            } else {
                None
            },
            _ => None,
        }
    } else {
        None
    }
}

impl ParamMap {
    /// Read the `max_tokens` parameter, truncating to `u32`.
    pub fn max_tokens(&self) -> (r: Option<u32>)
        requires
            self.wf(),
        ensures
            r == spec_max_tokens(self@),
    {
        match self.get("max_tokens") {
            Some(ParamValue::Integer(i)) => {
                if *i >= 0 {
                    let u = (*i as u64) % 0x1_0000_0000u64;
                    Some(u as u32)
                } else {
                    None
                }
            },
            _ => None,
        }
    }

    /// Read the `temperature` parameter in thousandths.
    pub fn temperature(&self) -> (r: Option<u32>)
        requires
            self.wf(),
        ensures
            r == spec_temperature(self@),
    {
        match self.get("temperature") {
            Some(ParamValue::Thousandths(t)) => {
                if *t >= 0 && *t <= u32::MAX as i64 {
                    Some(*t as u32)
                } else {
                    None
                }
            },
            Some(ParamValue::Integer(i)) => {
                if *i >= 0 && *i <= (u32::MAX as i64) / 1000 {
                    Some((*i as u32) * 1000)
                } else {
                    None
                }
            },
            _ => None,
        }
    }
}

proof fn lemma_entries_map_len(s: Seq<(String, ParamValue)>)
    requires
        entries_unique(s),
    ensures
        entries_map(s).dom().len() == s.len(),
        entries_map(s).dom().finite(),
    decreases s.len(),
{
    if s.len() > 0 {
        let dl = s.drop_last();
        assert(entries_unique(dl));
        lemma_entries_map_len(dl);
        lemma_entries_map_contains(dl, s.last().0@);
        assert(forall|j: int| 0 <= j < dl.len() ==> #[trigger] dl[j].0@ != s.last().0@);
        assert(!entries_map(dl).contains_key(s.last().0@));
        assert(entries_map(s).dom() =~= entries_map(dl).dom().insert(s.last().0@));
        vstd::set::axiom_set_insert_len(entries_map(dl).dom(), s.last().0@);
    }
}

} // verus!
