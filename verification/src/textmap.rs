//! A small string-keyed map with insertion order, viewed as a `Map`.
//!
//! Tool arguments, tool-result metadata and translation catalogs are all
//! string-to-string tables; this type keeps them as an ordered list of
//! entries where a key is looked up by its first entry. A std `HashMap`
//! keyed by `String` would give these contracts nothing to stand on: vstd
//! specifies `HashMap` operations only for key types known to obey its
//! key model (`obeys_key_model`, granted to primitive integers, `bool`
//! and boxes of them), and `String` is not among them.
use vstd::prelude::*;

verus! {

/// Views of the entries, in order.
pub open spec fn entries_view(e: Seq<(String, String)>) -> Seq<(Seq<char>, Seq<char>)> {
    e.map_values(|p: (String, String)| (p.0@, p.1@))
}

/// Value bound to `k`: the one of the first entry with that key.
pub open spec fn lookup(s: Seq<(Seq<char>, Seq<char>)>, k: Seq<char>) -> Option<Seq<char>>
    decreases s.len(),
{
    if s.len() == 0 {
        None
    } else if s[0].0 == k {
        Some(s[0].1)
    } else {
        lookup(s.drop_first(), k)
    }
}

/// The finite map a list of entries stands for.
pub open spec fn as_map(s: Seq<(Seq<char>, Seq<char>)>) -> Map<Seq<char>, Seq<char>> {
    Map::new(|k: Seq<char>| lookup(s, k) is Some, |k: Seq<char>| lookup(s, k)->0)
}

proof fn lemma_lookup_skip(s: Seq<(Seq<char>, Seq<char>)>, k: Seq<char>, i: int)
    requires
        0 <= i <= s.len(),
        forall|j: int| 0 <= j < i ==> (#[trigger] s[j]).0 != k,
    ensures
        lookup(s, k) == lookup(s.skip(i), k),
    decreases i,
{
    if i > 0 {
        lemma_lookup_skip(s.drop_first(), k, i - 1);
        assert(s.drop_first().skip(i - 1) == s.skip(i));
    } else {
        assert(s.skip(0) == s);
    }
}

proof fn lemma_lookup_push(s: Seq<(Seq<char>, Seq<char>)>, x: (Seq<char>, Seq<char>), k: Seq<char>)
    ensures
        lookup(s.push(x), k) == (if lookup(s, k) is Some {
            lookup(s, k)
        } else if x.0 == k {
            Some(x.1)
        } else {
            None
        }),
    decreases s.len(),
{
    if s.len() > 0 {
        assert(s.push(x).drop_first() == s.drop_first().push(x));
        lemma_lookup_push(s.drop_first(), x, k);
    } else {
        assert(s.push(x).drop_first() == s);
        reveal_with_fuel(lookup, 2);
    }
}

proof fn lemma_lookup_update(s: Seq<(Seq<char>, Seq<char>)>, i: int, v: Seq<char>, k: Seq<char>)
    requires
        0 <= i < s.len(),
        forall|j: int| 0 <= j < i ==> (#[trigger] s[j]).0 != s[i].0,
    ensures
        lookup(s.update(i, (s[i].0, v)), k) == (if k == s[i].0 {
            Some(v)
        } else {
            lookup(s, k)
        }),
    decreases i,
{
    if i > 0 {
        assert(s.update(i, (s[i].0, v)).drop_first() == s.drop_first().update(i - 1, (s[i].0, v)));
        lemma_lookup_update(s.drop_first(), i - 1, v, k);
    } else {
        assert(s.update(0, (s[0].0, v)).drop_first() == s.drop_first());
    }
}

proof fn lemma_lookup_none(s: Seq<(Seq<char>, Seq<char>)>, k: Seq<char>)
    requires
        forall|j: int| 0 <= j < s.len() ==> (#[trigger] s[j]).0 != k,
    ensures
        lookup(s, k) is None,
    decreases s.len(),
{
    if s.len() > 0 {
        lemma_lookup_none(s.drop_first(), k);
    }
}

/// Keys of the entries, in order.
pub open spec fn keys_of(s: Seq<(Seq<char>, Seq<char>)>) -> Seq<Seq<char>> {
    s.map_values(|p: (Seq<char>, Seq<char>)| p.0)
}

/// A key is bound exactly when some entry has it.
proof fn lemma_lookup_some(s: Seq<(Seq<char>, Seq<char>)>, k: Seq<char>)
    ensures
        lookup(s, k) is Some <==> keys_of(s).contains(k),
    decreases s.len(),
{
    if s.len() > 0 {
        lemma_lookup_some(s.drop_first(), k);
        if keys_of(s.drop_first()).contains(k) {
            let j = choose|j: int| 0 <= j < keys_of(s.drop_first()).len() && keys_of(s.drop_first())[j] == k;
            assert(keys_of(s)[j + 1] == k);
        }
        if keys_of(s).contains(k) && s[0].0 != k {
            let j = choose|j: int| 0 <= j < keys_of(s).len() && keys_of(s)[j] == k;
            assert(j > 0);
            assert(keys_of(s.drop_first())[j - 1] == k);
        }
        if s[0].0 == k {
            assert(keys_of(s)[0] == k);
        }
    }
}

/// The map's keys are the entries' keys.
proof fn lemma_dom_is_keys(s: Seq<(Seq<char>, Seq<char>)>)
    ensures
        as_map(s).dom() == keys_of(s).to_set(),
{
    assert forall|k: Seq<char>| as_map(s).dom().contains(k) == keys_of(s).to_set().contains(k) by {
        lemma_lookup_some(s, k);
    }
    assert(as_map(s).dom() =~= keys_of(s).to_set());
}

/// String-to-string table; a key maps to the value of its first entry.
#[derive(Clone, Debug, Default)]
pub struct TextMap {
    pub entries: Vec<(String, String)>,
}

impl View for TextMap {
    type V = Map<Seq<char>, Seq<char>>;

    open spec fn view(&self) -> Map<Seq<char>, Seq<char>> {
        as_map(entries_view(self.entries@))
    }
}

impl TextMap {
    /// Entry views, in order.
    pub open spec fn seq(&self) -> Seq<(Seq<char>, Seq<char>)> {
        entries_view(self.entries@)
    }

    /// No key occurs in two entries, as in a hash map.
    pub open spec fn wf(&self) -> bool {
        keys_of(self.seq()).no_duplicates()
    }

    /// An empty table.
    pub fn new() -> (m: Self)
        ensures
            m@ == Map::<Seq<char>, Seq<char>>::empty(),
            m.entries@.len() == 0,
            m.wf(),
    {
        let m = TextMap { entries: Vec::new() };
        proof {
            assert(m@ =~= Map::<Seq<char>, Seq<char>>::empty());
        }
        m
    }

    /// Position of the first entry with key `k`.
    fn position(&self, k: &str) -> (r: Option<usize>)
        ensures
            match r {
                Some(i) => i < self.entries@.len() && self.seq()[i as int].0 == k@ && forall|j: int|
                    0 <= j < i ==> (#[trigger] self.seq()[j]).0 != k@,
                None => forall|j: int|
                    0 <= j < self.entries@.len() ==> (#[trigger] self.seq()[j]).0 != k@,
            },
    {
        let mut i: usize = 0;
        while i < self.entries.len()
            invariant
                i <= self.entries@.len(),
                forall|j: int| 0 <= j < i ==> (#[trigger] self.seq()[j]).0 != k@,
            decreases self.entries.len() - i,
        {
            if crate::text::str_eq(self.entries[i].0.as_str(), k) {
                return Some(i);
            }
            i = i + 1;
        }
        None
    }

    /// Value bound to `k`, if any (`HashMap::get`).
    pub fn get(&self, k: &str) -> (r: Option<&String>)
        ensures
            match r {
                Some(v) => self@.contains_key(k@) && self@[k@] == v@,
                None => !self@.contains_key(k@),
            },
    {
        match self.position(k) {
            Some(i) => {
                proof {
                    lemma_lookup_skip(self.seq(), k@, i as int);
                }
                Some(&self.entries[i].1)
            },
            None => {
                proof {
                    lemma_lookup_none(self.seq(), k@);
                }
                None
            },
        }
    }

    /// Whether `k` is bound.
    pub fn contains_key(&self, k: &str) -> (r: bool)
        ensures
            r == self@.contains_key(k@),
    {
        self.get(k).is_some()
    }

    /// Bind `k` to `v`, replacing any earlier value (`HashMap::insert`).
    pub fn insert(&mut self, k: String, v: String)
        ensures
            final(self)@ == old(self)@.insert(k@, v@),
            old(self).wf() ==> final(self).wf(),
    {
        let ghost s0 = self.seq();
        match self.position(k.as_str()) {
            Some(i) => {
                let ghost kv = k@;
                let ghost vv = v@;
                self.entries.set(i, (k, v));
                proof {
                    assert(self.seq() == s0.update(i as int, (s0[i as int].0, vv)));
                    assert forall|q: Seq<char>| #[trigger] lookup(self.seq(), q) == (if q == kv {
                        Some(vv)
                    } else {
                        lookup(s0, q)
                    }) by {
                        lemma_lookup_update(s0, i as int, vv, q);
                    }
                    assert(self@ =~= as_map(s0).insert(kv, vv));
                    assert(keys_of(self.seq()) =~= keys_of(s0));
                }
            },
            None => {
                let ghost kv = k@;
                let ghost vv = v@;
                self.entries.push((k, v));
                proof {
                    assert(self.seq() == s0.push((kv, vv)));
                    lemma_lookup_none(s0, kv);
                    assert forall|q: Seq<char>| #[trigger] lookup(self.seq(), q) == (if q == kv {
                        Some(vv)
                    } else {
                        lookup(s0, q)
                    }) by {
                        lemma_lookup_push(s0, (kv, vv), q);
                    }
                    assert(self@ =~= as_map(s0).insert(kv, vv));
                    assert(keys_of(self.seq()) =~= keys_of(s0).push(kv));
                    assert(!keys_of(s0).contains(kv));
                }
            },
        }
    }

    /// An entry-for-entry copy.
    pub fn duplicate(&self) -> (r: Self)
        ensures
            r.entries@ == self.entries@,
            r@ == self@,
    {
        let mut entries: Vec<(String, String)> = Vec::new();
        let mut i: usize = 0;
        while i < self.entries.len()
            invariant
                i <= self.entries@.len(),
                entries@ == self.entries@.take(i as int),
            decreases self.entries.len() - i,
        {
            let e = &self.entries[i];
            entries.push((e.0.clone(), e.1.clone()));
            proof {
                assert(self.entries@.take(i + 1) == self.entries@.take(i as int).push(self.entries@[i as int]));
            }
            i = i + 1;
        }
        proof {
            assert(self.entries@.take(self.entries@.len() as int) == self.entries@);
        }
        TextMap { entries }
    }

    /// Number of entries.
    pub fn len(&self) -> (n: usize)
        ensures
            n == self.entries@.len(),
            self.wf() ==> n == self@.len(),
    {
        proof {
            if self.wf() {
                lemma_dom_is_keys(self.seq());
                keys_of(self.seq()).unique_seq_to_set();
            }
        }
        self.entries.len()
    }
}

} // verus!
