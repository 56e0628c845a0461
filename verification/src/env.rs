use vstd::prelude::*;

use vstd::string::StrSliceExecFns;

verus! {

/// Index of the first `'='` in `e`, or `e.len()` when there is none.
pub open spec fn eq_index(e: Seq<char>) -> int
    decreases e.len(),
{
    if e.len() == 0 {
        0
    } else if e[0] == '=' {
        0
    } else {
        1 + eq_index(e.skip(1))
    }
}

/// The key of a `KEY=VALUE` entry: everything before the first `'='`, or the
/// whole entry when it holds none.
pub open spec fn env_entry_key(e: Seq<char>) -> Seq<char> {
    e.take(eq_index(e))
}

/// The value of a `KEY=VALUE` entry: everything after the first `'='` (later
/// `'='` characters belong to the value), or empty when it holds none.
pub open spec fn env_entry_value(e: Seq<char>) -> Seq<char> {
    if eq_index(e) == e.len() {
        Seq::empty()
    } else {
        e.skip(eq_index(e) + 1)
    }
}

/// The mapping described by a sequence of `KEY=VALUE` entries; a later entry
/// overrides an earlier one with the same key.
pub open spec fn env_map(envs: Seq<Seq<char>>) -> Map<Seq<char>, Seq<char>>
    decreases envs.len(),
{
    if envs.len() == 0 {
        Map::empty()
    } else {
        env_map(envs.drop_last()).insert(
            env_entry_key(envs.last()),
            env_entry_value(envs.last()),
        )
    }
}

/// A position that carries no `'='` before it, and an `'='` (or the end of
/// the entry) at it, is the first `'='` position.
proof fn lemma_eq_index_is(e: Seq<char>, i: int)
    requires
        0 <= i <= e.len(),
        forall|j: int| 0 <= j < i ==> e[j] != '=',
        i < e.len() ==> e[i] == '=',
    ensures
        eq_index(e) == i,
    decreases e.len(),
{
    if i > 0 {
        assert(e[0] != '=');
        assert forall|j: int| 0 <= j < i - 1 implies e.skip(1)[j] != '=' by {
            assert(e.skip(1)[j] == e[j + 1]);
        }
        if i - 1 < e.len() - 1 {
            assert(e.skip(1)[i - 1] == e[i]);
        }
        lemma_eq_index_is(e.skip(1), i - 1);
    }
}

/// Split one environment entry at its first `'='`.
fn split_env_entry(e: &str) -> (r: (String, String))
    ensures
        r.0@ == env_entry_key(e@),
        r.1@ == env_entry_value(e@),
{
    let n = e.unicode_len();
    let mut i: usize = 0;
    while i < n && e.get_char(i) != '='
        invariant
            n == e@.len(),
            0 <= i <= n,
            forall|j: int| 0 <= j < i ==> e@[j] != '=',
        decreases n - i,
    {
        i = i + 1;
    }
    proof {
        lemma_eq_index_is(e@, i as int);
    }
    let key = e.substring_char(0, i).to_owned();
    let value = if i == n {
        String::new()
    } else {
        e.substring_char(i + 1, n).to_owned()
    };
    proof {
        assert(key@ =~= env_entry_key(e@));
        assert(value@ =~= env_entry_value(e@));
    }
    (key, value)
}

/// A key-to-value mapping with `String` keys and values, stored as entries
/// with pairwise-distinct keys.
pub struct EnvMap {
    entries: Vec<(String, String)>,
}

spec fn entry_keys_distinct(s: Seq<(String, String)>) -> bool {
    forall|i: int, j: int| 0 <= i < j < s.len() ==> s[i].0@ != s[j].0@
}

spec fn entries_map(s: Seq<(String, String)>) -> Map<Seq<char>, Seq<char>>
    decreases s.len(),
{
    if s.len() == 0 {
        Map::empty()
    } else {
        entries_map(s.drop_last()).insert(s.last().0@, s.last().1@)
    }
}

/// The keys of `entries_map(s)` are exactly the keys of the entries of `s`.
proof fn lemma_entries_map_dom(s: Seq<(String, String)>)
    ensures
        entries_map(s).dom().finite(),
        forall|k: Seq<char>|
            #[trigger] entries_map(s).dom().contains(k) <==> exists|i: int|
                0 <= i < s.len() && s[i].0@ == k,
    decreases s.len(),
{
    if s.len() > 0 {
        lemma_entries_map_dom(s.drop_last());
        assert forall|k: Seq<char>| #[trigger]
            entries_map(s).dom().contains(k) implies exists|i: int|
            0 <= i < s.len() && s[i].0@ == k by {
            if k == s.last().0@ {
                assert(s[s.len() - 1].0@ == k);
            } else {
                let i = choose|i: int| 0 <= i < s.drop_last().len() && s.drop_last()[i].0@ == k;
                assert(s[i].0@ == k);
            }
        }
        assert forall|k: Seq<char>|
            (exists|i: int| 0 <= i < s.len() && s[i].0@ == k) implies #[trigger]
            entries_map(s).dom().contains(k) by {
            let i = choose|i: int| 0 <= i < s.len() && s[i].0@ == k;
            if i < s.len() - 1 {
                assert(s.drop_last()[i].0@ == k);
            }
        }
    }
}

/// With pairwise-distinct keys, the mapping holds one key per entry.
proof fn lemma_entries_map_len(s: Seq<(String, String)>)
    requires
        entry_keys_distinct(s),
    ensures
        entries_map(s).len() == s.len(),
    decreases s.len(),
{
    if s.len() > 0 {
        assert(entry_keys_distinct(s.drop_last()));
        lemma_entries_map_len(s.drop_last());
        lemma_entries_map_dom(s.drop_last());
        if entries_map(s.drop_last()).dom().contains(s.last().0@) {
            let i = choose|i: int|
                0 <= i < s.drop_last().len() && s.drop_last()[i].0@ == s.last().0@;
            assert(s[i].0@ == s[s.len() - 1].0@);
            assert(false);
        }
    }
}

/// With pairwise-distinct keys, each entry is looked up at its own value.
proof fn lemma_entries_map_index(s: Seq<(String, String)>, i: int)
    requires
        entry_keys_distinct(s),
        0 <= i < s.len(),
    ensures
        entries_map(s).dom().contains(s[i].0@),
        entries_map(s)[s[i].0@] == s[i].1@,
    decreases s.len(),
{
    if i < s.len() - 1 {
        assert(entry_keys_distinct(s.drop_last()));
        lemma_entries_map_index(s.drop_last(), i);
        assert(s.drop_last()[i] == s[i]);
        assert(s[i].0@ != s.last().0@);
    }
}

/// Replacing the value of the entry that holds `key` updates the mapping at
/// `key` alone.
proof fn lemma_entries_map_update(s: Seq<(String, String)>, i: int, key: String, value: String)
    requires
        entry_keys_distinct(s),
        0 <= i < s.len(),
        s[i].0@ == key@,
    ensures
        entries_map(s.update(i, (key, value))) =~= entries_map(s).insert(key@, value@),
    decreases s.len(),
{
    let t = s.update(i, (key, value));
    if i == s.len() - 1 {
        assert(t.drop_last() =~= s.drop_last());
        assert(t.last() == (key, value));
        assert(entries_map(t) =~= entries_map(s).insert(key@, value@));
    } else {
        assert(t.drop_last() =~= s.drop_last().update(i, (key, value)));
        assert(entry_keys_distinct(s.drop_last()));
        assert(s.drop_last()[i] == s[i]);
        lemma_entries_map_update(s.drop_last(), i, key, value);
        assert(t.last() == s.last());
        assert(s[i].0@ != s.last().0@);
        assert(entries_map(t) =~= entries_map(s).insert(key@, value@));
    }
}

impl View for EnvMap {
    type V = Map<Seq<char>, Seq<char>>;

    closed spec fn view(&self) -> Map<Seq<char>, Seq<char>> {
        entries_map(self.entries@)
    }
}

impl EnvMap {
    /// Well-formedness: the stored entries carry pairwise-distinct keys.
    pub closed spec fn wf(&self) -> bool {
        entry_keys_distinct(self.entries@)
    }

    /// An empty mapping.
    pub fn new() -> (r: EnvMap)
        ensures
            r.wf(),
            r@ == Map::<Seq<char>, Seq<char>>::empty(),
    {
        let r = EnvMap { entries: Vec::new() };
        proof {
            assert(r@ =~= Map::<Seq<char>, Seq<char>>::empty());
        }
        r
    }

    /// The number of keys in the mapping.
    pub fn len(&self) -> (r: usize)
        requires
            self.wf(),
        ensures
            r == self@.len(),
    {
        proof {
            lemma_entries_map_len(self.entries@);
        }
        self.entries.len()
    }

    /// The stored key and value whose key equals `key`, if any.
    pub fn get_key_value<'a>(&'a self, key: &String) -> (r: Option<(&'a String, &'a String)>)
        requires
            self.wf(),
        ensures
            self@.contains_key(key@) ==> (r matches Some(p) && p.0@ == key@ && p.1@
                == self@[key@]),
            !self@.contains_key(key@) ==> r is None,
    {
        proof {
            lemma_entries_map_dom(self.entries@);
        }
        let n = self.entries.len();
        let mut i: usize = 0;
        while i < n
            invariant
                n == self.entries@.len(),
                0 <= i <= n,
                entry_keys_distinct(self.entries@),
                self@ == entries_map(self.entries@),
                forall|j: int| 0 <= j < i ==> self.entries@[j].0@ != key@,
                entries_map(self.entries@).dom().finite(),
                forall|k: Seq<char>|
                    #[trigger] entries_map(self.entries@).dom().contains(k) <==> exists|m: int|
                        0 <= m < self.entries@.len() && self.entries@[m].0@ == k,
            decreases n - i,
        {
            let entry = &self.entries[i];
            if entry.0.eq(key) {
                proof {
                    lemma_entries_map_index(self.entries@, i as int);
                }
                return Some((&entry.0, &entry.1));
            }
            i = i + 1;
        }
        proof {
            if self@.contains_key(key@) {
                let m = choose|m: int|
                    0 <= m < self.entries@.len() && self.entries@[m].0@ == key@;
                assert(false);
            }
        }
        None
    }

    /// Bind `key` to `value`, replacing any existing binding of the same key.
    pub fn insert(&mut self, key: String, value: String)
        requires
            old(self).wf(),
        ensures
            final(self).wf(),
            final(self)@ == old(self)@.insert(key@, value@),
    {
        let ghost s0 = old(self).entries@;
        let n = self.entries.len();
        let mut i: usize = 0;
        while i < n
            invariant
                n == self.entries@.len(),
                0 <= i <= n,
                self.entries@ == s0,
                s0 == old(self).entries@,
                entry_keys_distinct(s0),
                forall|j: int| 0 <= j < i ==> s0[j].0@ != key@,
            decreases n - i,
        {
            let found = self.entries[i].0.eq(&key);
            if found {
                proof {
                    lemma_entries_map_update(s0, i as int, key, value);
                }
                self.entries.set(i, (key, value));
                proof {
                    assert(entry_keys_distinct(self.entries@)) by {
                        assert forall|p: int, q: int|
                            0 <= p < q < self.entries@.len() implies self.entries@[p].0@
                            != self.entries@[q].0@ by {
                            assert(s0[p].0@ != s0[q].0@);
                        }
                    }
                }
                return;
            }
            i = i + 1;
        }
        proof {
            lemma_entries_map_dom(s0);
            if entries_map(s0).dom().contains(key@) {
                let m = choose|m: int| 0 <= m < s0.len() && s0[m].0@ == key@;
                assert(false);
            }
        }
        self.entries.push((key, value));
        proof {
            assert(self.entries@.drop_last() =~= s0);
            assert(entry_keys_distinct(self.entries@)) by {
                assert forall|p: int, q: int|
                    0 <= p < q < self.entries@.len() implies self.entries@[p].0@
                    != self.entries@[q].0@ by {
                    if q < self.entries@.len() - 1 {
                        assert(s0[p].0@ != s0[q].0@);
                    } else {
                        assert(s0[p].0@ != key@);
                    }
                }
            }
        }
    }
}

/// Parse `KEY=VALUE` environment entries into a key-to-value mapping.
///
/// Each entry is split at its first `'='`; an entry without `'='` maps its
/// whole text to the empty value; a later entry overrides an earlier one
/// with the same key.
pub fn parse_env(envs: &[String]) -> (r: EnvMap)
    ensures
        r.wf(),
        r@ == env_map(envs.deep_view()),
{
    let ghost es = envs.deep_view();
    let mut map = EnvMap::new();
    let n = envs.len();
    let mut i: usize = 0;
    proof {
        assert(es.take(0) =~= Seq::<Seq<char>>::empty());
    }
    while i < n
        invariant
            n == envs@.len(),
            es == envs.deep_view(),
            es.len() == n,
            0 <= i <= n,
            map.wf(),
            map@ == env_map(es.take(i as int)),
        decreases n - i,
    {
        let entry = &envs[i];
        let (key, value) = split_env_entry(entry.as_str());
        proof {
            assert(es[i as int] == envs@[i as int]@);
        }
        map.insert(key, value);
        proof {
            assert(es.take(i as int + 1).drop_last() =~= es.take(i as int));
            assert(es.take(i as int + 1).last() == es[i as int]);
        }
        i = i + 1;
    }
    proof {
        assert(es.take(n as int) =~= es);
    }
    map
}

} // verus!
