use vstd::prelude::*;

verus! {

/// The key/value pairs of an association list, as sequences of characters.
pub open spec fn pairs_view(entries: Seq<(String, String)>) -> Seq<(Seq<char>, Seq<char>)> {
    entries.map_values(|p: (String, String)| (p.0@, p.1@))
}

/// The map that an association list describes; a later binding for a key
/// overrides an earlier one.
pub open spec fn map_of(s: Seq<(Seq<char>, Seq<char>)>) -> Map<Seq<char>, Seq<char>>
    decreases s.len(),
{
    if s.len() == 0 {
        Map::empty()
    } else {
        map_of(s.drop_last()).insert(s.last().0, s.last().1)
    }
}

/// What a configuration map shows for a key: the stored value, or the
/// sentinel "null" when the key was never set.
pub open spec fn display_of(m: Map<Seq<char>, Seq<char>>, k: Seq<char>) -> Seq<char> {
    if m.contains_key(k) {
        m[k]
    } else {
        "null"@
    }
}

/// A string-keyed configuration store with set and read-back: the model of a
/// module's dynamic options. Unknown keys are accepted and stored; a missing
/// key reads back as the sentinel "null".
pub struct OptionStore {
    entries: Vec<(String, String)>,
}

impl View for OptionStore {
    type V = Map<Seq<char>, Seq<char>>;

    closed spec fn view(&self) -> Map<Seq<char>, Seq<char>> {
        map_of(pairs_view(self.entries@))
    }
}

impl OptionStore {
    /// An empty store: no key has been set.
    pub fn new() -> (r: OptionStore)
        ensures
            r@ == Map::<Seq<char>, Seq<char>>::empty(),
    {
        let r = OptionStore { entries: Vec::new() };
        proof {
            assert(pairs_view(r.entries@) =~= Seq::<(Seq<char>, Seq<char>)>::empty());
        }
        r
    }

    /// The index of the last entry holding `k`, if one does.
    fn find_last(&self, k: &String) -> (r: Option<usize>)
        ensures
            match r {
                Some(i) => i < self.entries@.len() && self.entries@[i as int].0@ == k@
                    && forall|j: int|
                    i < j < self.entries@.len() ==> (#[trigger] self.entries@[j]).0@ != k@,
                None => forall|i: int|
                    0 <= i < self.entries@.len() ==> (#[trigger] self.entries@[i]).0@ != k@,
            },
    {
        let n = self.entries.len();
        let mut i: usize = n;
        while i > 0
            invariant
                i <= n,
                n == self.entries@.len(),
                forall|j: int| i <= j < n ==> (#[trigger] self.entries@[j]).0@ != k@,
            decreases i,
        {
            i = i - 1;
            if self.entries[i].0 == *k {
                return Some(i);
            }
        }
        None
    }

    /// Store `v` under `k`, replacing any earlier value for `k`.
    pub fn set(&mut self, k: String, v: String)
        ensures
            final(self)@ == old(self)@.insert(k@, v@),
    {
        let ghost s0 = pairs_view(self.entries@);
        match self.find_last(&k) {
            Some(i) => {
                proof {
                    assert forall|j: int|
                        (i as int) < j < s0.len() implies (#[trigger] s0[j]).0 != k@ by {
                        assert(s0[j] == (self.entries@[j].0@, self.entries@[j].1@));
                    }
                    assert(s0[i as int] == (self.entries@[i as int].0@, self.entries@[i as int].1@));
                    lemma_map_of_update(s0, i as int, k@, v@);
                }
                self.entries[i] = (k, v);
                proof {
                    assert(pairs_view(self.entries@) =~= s0.update(i as int, (k@, v@)));
                }
            },
            None => {
                self.entries.push((k, v));
                proof {
                    assert(pairs_view(self.entries@).drop_last() =~= s0);
                    assert(pairs_view(self.entries@).last() == (k@, v@));
                }
            },
        }
    }

    /// Whether some value is stored under `k`.
    pub fn contains(&self, k: &String) -> (r: bool)
        ensures
            r == self@.contains_key(k@),
    {
        let ghost s0 = pairs_view(self.entries@);
        match self.find_last(k) {
            Some(i) => {
                proof {
                    lemma_map_of_contains(s0, k@);
                    assert(s0[i as int] == (self.entries@[i as int].0@, self.entries@[i as int].1@));
                    assert((#[trigger] s0[i as int]).0 == k@);
                }
                true
            },
            None => {
                proof {
                    lemma_map_of_contains(s0, k@);
                    assert forall|i: int| 0 <= i < s0.len() implies (#[trigger] s0[i]).0 != k@ by {
                        assert(s0[i] == (self.entries@[i].0@, self.entries@[i].1@));
                    }
                }
                false
            },
        }
    }

    /// The value stored under `k`, if one is.
    pub fn lookup(&self, k: &String) -> (r: Option<String>)
        ensures
            match r {
                Some(v) => self@.contains_key(k@) && v@ == self@[k@],
                None => !self@.contains_key(k@),
            },
    {
        let ghost s0 = pairs_view(self.entries@);
        match self.find_last(k) {
            Some(i) => {
                proof {
                    assert forall|j: int|
                        (i as int) < j < s0.len() implies (#[trigger] s0[j]).0 != k@ by {
                        assert(s0[j] == (self.entries@[j].0@, self.entries@[j].1@));
                    }
                    assert(s0[i as int] == (self.entries@[i as int].0@, self.entries@[i as int].1@));
                    lemma_map_of_at(s0, i as int, k@);
                }
                Some(self.entries[i].1.clone())
            },
            None => {
                proof {
                    lemma_map_of_contains(s0, k@);
                    assert forall|i: int| 0 <= i < s0.len() implies (#[trigger] s0[i]).0 != k@ by {
                        assert(s0[i] == (self.entries@[i].0@, self.entries@[i].1@));
                    }
                }
                None
            },
        }
    }

    /// The value shown for `k`: what was stored, or "null" when nothing was.
    /// The sentinel appears only here, at the display boundary.
    pub fn display(&self, k: &String) -> (r: String)
        ensures
            r@ == display_of(self@, k@),
    {
        match self.lookup(k) {
            Some(v) => v,
            None => String::from_str("null"),
        }
    }
}

/// The configuration reached from `cfg` by a sequence of `set` steps, each a
/// key/value pair, applied in order.
pub open spec fn apply_sets(
    cfg: Map<Seq<char>, Seq<char>>,
    ps: Seq<(Seq<char>, Seq<char>)>,
) -> Map<Seq<char>, Seq<char>>
    decreases ps.len(),
{
    if ps.len() == 0 {
        cfg
    } else {
        apply_sets(cfg, ps.drop_last()).insert(ps.last().0, ps.last().1)
    }
}

/// The value the last `set` for `k` among `ps` gave, if any.
pub open spec fn last_set(ps: Seq<(Seq<char>, Seq<char>)>, k: Seq<char>) -> Option<Seq<char>>
    decreases ps.len(),
{
    if ps.len() == 0 {
        None
    } else if ps.last().0 == k {
        Some(ps.last().1)
    } else {
        last_set(ps.drop_last(), k)
    }
}

/// Law: after any sequence of `set key value` steps, the value displayed for
/// a key — what `get` and the options table show — is the last value set for
/// it, or what the starting configuration showed when the sequence never set
/// it (on a fresh store, the sentinel "null").
pub proof fn lemma_last_set_wins(
    cfg: Map<Seq<char>, Seq<char>>,
    ps: Seq<(Seq<char>, Seq<char>)>,
    k: Seq<char>,
)
    ensures
        display_of(apply_sets(cfg, ps), k) == match last_set(ps, k) {
            Some(v) => v,
            None => display_of(cfg, k),
        },
    decreases ps.len(),
{
    if ps.len() == 0 {
    } else if ps.last().0 == k {
    } else {
        lemma_last_set_wins(cfg, ps.drop_last(), k);
    }
}

/// Law: setting a key to one value and then to another reads back the second,
/// never the first.
pub proof fn lemma_set_twice_reads_last(
    cfg: Map<Seq<char>, Seq<char>>,
    k: Seq<char>,
    v1: Seq<char>,
    v2: Seq<char>,
)
    ensures
        display_of(cfg.insert(k, v1).insert(k, v2), k) == v2,
{
}

/// A key is in the map of an association list exactly when some entry holds it.
proof fn lemma_map_of_contains(s: Seq<(Seq<char>, Seq<char>)>, k: Seq<char>)
    ensures
        map_of(s).contains_key(k) <==> exists|i: int| 0 <= i < s.len() && (#[trigger] s[i]).0 == k,
    decreases s.len(),
{
    if s.len() == 0 {
    } else {
        lemma_map_of_contains(s.drop_last(), k);
        if s.last().0 == k {
            assert(s[s.len() - 1].0 == k);
            assert(exists|i: int| 0 <= i < s.len() && (#[trigger] s[i]).0 == k);
        } else {
            if exists|i: int| 0 <= i < s.len() && (#[trigger] s[i]).0 == k {
                let i = choose|i: int| 0 <= i < s.len() && (#[trigger] s[i]).0 == k;
                assert(i < s.len() - 1);
                assert((#[trigger] s.drop_last()[i]).0 == k);
            }
            if exists|i: int| 0 <= i < s.drop_last().len() && (#[trigger] s.drop_last()[i]).0 == k {
                let i = choose|i: int|
                    0 <= i < s.drop_last().len() && (#[trigger] s.drop_last()[i]).0 == k;
                assert((#[trigger] s[i]).0 == k);
            }
        }
    }
}

/// The map of an association list holds, for a key, the value of its last
/// entry with that key.
proof fn lemma_map_of_at(s: Seq<(Seq<char>, Seq<char>)>, i: int, k: Seq<char>)
    requires
        0 <= i < s.len(),
        s[i].0 == k,
        forall|j: int| i < j < s.len() ==> (#[trigger] s[j]).0 != k,
    ensures
        map_of(s).contains_key(k),
        map_of(s)[k] == s[i].1,
    decreases s.len(),
{
    if i == s.len() - 1 {
    } else {
        assert(s.last().0 != k);
        assert forall|j: int|
            i < j < s.drop_last().len() implies (#[trigger] s.drop_last()[j]).0 != k by {
            assert(s.drop_last()[j] == s[j]);
        }
        assert(s.drop_last()[i] == s[i]);
        lemma_map_of_at(s.drop_last(), i, k);
    }
}

/// Overwriting the last entry that holds a key changes the described map as
/// an insert for that key does.
proof fn lemma_map_of_update(s: Seq<(Seq<char>, Seq<char>)>, i: int, k: Seq<char>, v: Seq<char>)
    requires
        0 <= i < s.len(),
        s[i].0 == k,
        forall|j: int| i < j < s.len() ==> (#[trigger] s[j]).0 != k,
    ensures
        map_of(s.update(i, (k, v))) == map_of(s).insert(k, v),
    decreases s.len(),
{
    let t = s.update(i, (k, v));
    if i == s.len() - 1 {
        assert(t.drop_last() =~= s.drop_last());
        assert(t.last() == (k, v));
        assert(map_of(t) =~= map_of(s).insert(k, v));
    } else {
        assert forall|j: int|
            i < j < s.drop_last().len() implies (#[trigger] s.drop_last()[j]).0 != k by {
            assert(s.drop_last()[j] == s[j]);
        }
        assert(s.drop_last()[i] == s[i]);
        lemma_map_of_update(s.drop_last(), i, k, v);
        assert(t.drop_last() =~= s.drop_last().update(i, (k, v)));
        assert(t.last() == s.last());
        assert(s.last().0 != k);
        assert(map_of(t) =~= map_of(s).insert(k, v));
    }
}

} // verus!
