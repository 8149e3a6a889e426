//! A string-to-string table with unique keys, seen as a `Map`.
use vstd::prelude::*;

use crate::text::str_eq;

verus! {

/// The keys of `s` are pairwise different.
pub open spec fn keys_unique(s: Seq<(String, String)>) -> bool {
    forall|i: int, j: int| 0 <= i < j < s.len() ==> #[trigger] s[i].0@ != #[trigger] s[j].0@
}

/// The map that a list of pairs stands for; a later pair wins over an
/// earlier one with the same key.
pub open spec fn pairs_map(s: Seq<(String, String)>) -> Map<Seq<char>, Seq<char>>
    decreases s.len(),
{
    if s.len() == 0 {
        Map::empty()
    } else {
        pairs_map(s.drop_last()).insert(s.last().0@, s.last().1@)
    }
}

/// With unique keys, the map holds exactly the keys of the list, each with
/// the value it has there.
pub proof fn lemma_pairs_map(s: Seq<(String, String)>)
    requires
        keys_unique(s),
    ensures
        forall|k: Seq<char>|
            #[trigger] pairs_map(s).contains_key(k) <==> exists|j: int|
                0 <= j < s.len() && s[j].0@ == k,
        forall|j: int| 0 <= j < s.len() ==> #[trigger] pairs_map(s)[s[j].0@] == s[j].1@,
    decreases s.len(),
{
    if s.len() > 0 {
        let t = s.drop_last();
        assert(keys_unique(t));
        lemma_pairs_map(t);
        assert forall|k: Seq<char>|
            #[trigger] pairs_map(s).contains_key(k) <==> exists|j: int|
                0 <= j < s.len() && s[j].0@ == k by {
            if pairs_map(s).contains_key(k) {
                if k == s.last().0@ {
                    assert(s[s.len() - 1].0@ == k);
                } else {
                    assert(pairs_map(t).contains_key(k));
                    let j = choose|j: int| 0 <= j < t.len() && t[j].0@ == k;
                    assert(s[j].0@ == k);
                }
            }
            if exists|j: int| 0 <= j < s.len() && s[j].0@ == k {
                let j = choose|j: int| 0 <= j < s.len() && s[j].0@ == k;
                if j < s.len() - 1 {
                    assert(t[j].0@ == k);
                    assert(pairs_map(t).contains_key(k));
                }
            }
        }
        assert forall|j: int| 0 <= j < s.len() implies #[trigger] pairs_map(s)[s[j].0@] == s[j].1@ by {
            if j < s.len() - 1 {
                assert(t[j] == s[j]);
                assert(s[j].0@ != s[s.len() - 1].0@);
                assert(pairs_map(t)[t[j].0@] == t[j].1@);
            }
        }
    }
}

/// The value a name ends up with when the pairs are set one after the
/// other: that of its last setting, where there is one.
pub open spec fn last_setting(vars: Seq<(Seq<char>, Seq<char>)>, name: Seq<char>) -> Option<
    Seq<char>,
>
    decreases vars.len(),
{
    if vars.len() == 0 {
        None
    } else if vars.last().0 == name {
        Some(vars.last().1)
    } else {
        last_setting(vars.drop_last(), name)
    }
}

/// Setting `a` and then `b` leaves a name with its last setting in `b`, and
/// only where `b` does not set it with its last setting in `a`.
pub proof fn lemma_last_setting_concat(
    a: Seq<(Seq<char>, Seq<char>)>,
    b: Seq<(Seq<char>, Seq<char>)>,
    name: Seq<char>,
)
    ensures
        last_setting(a + b, name) == (match last_setting(b, name) {
            Some(v) => Some(v),
            None => last_setting(a, name),
        }),
    decreases b.len(),
{
    if b.len() == 0 {
        assert(a + b =~= a);
    } else {
        assert((a + b).drop_last() =~= a + b.drop_last());
        assert((a + b).last() == b.last());
        lemma_last_setting_concat(a, b.drop_last(), name);
    }
}

/// A name that no pair sets has no setting.
pub proof fn lemma_last_setting_absent(vars: Seq<(Seq<char>, Seq<char>)>, name: Seq<char>)
    requires
        forall|i: int| 0 <= i < vars.len() ==> #[trigger] vars[i].0 != name,
    ensures
        last_setting(vars, name) is None,
    decreases vars.len(),
{
    if vars.len() > 0 {
        assert(vars.last() == vars[vars.len() - 1]);
        lemma_last_setting_absent(vars.drop_last(), name);
    }
}

/// Where the names are pairwise different, each name's setting is its own.
pub proof fn lemma_last_setting_distinct(vars: Seq<(Seq<char>, Seq<char>)>, k: int)
    requires
        0 <= k < vars.len(),
        forall|i: int, j: int| 0 <= i < j < vars.len() ==> #[trigger] vars[i].0 != #[trigger] vars[j].0,
    ensures
        last_setting(vars, vars[k].0) == Some(vars[k].1),
    decreases vars.len(),
{
    if k < vars.len() - 1 {
        assert(vars[k].0 != vars[vars.len() - 1].0);
        assert(vars.drop_last()[k] == vars[k]);
        lemma_last_setting_distinct(vars.drop_last(), k);
    }
}

/// The views of a list of string pairs.
pub open spec fn pairs_view(s: Seq<(String, String)>) -> Seq<(Seq<char>, Seq<char>)> {
    s.map_values(|p: (String, String)| (p.0@, p.1@))
}

/// The map of a list of pairs gives each key the value of its last setting.
pub proof fn lemma_pairs_map_last_setting(s: Seq<(String, String)>, name: Seq<char>)
    ensures
        last_setting(pairs_view(s), name) == (if pairs_map(s).contains_key(name) {
            Some(pairs_map(s)[name])
        } else {
            None
        }),
    decreases s.len(),
{
    if s.len() > 0 {
        assert(pairs_view(s).drop_last() =~= pairs_view(s.drop_last()));
        lemma_pairs_map_last_setting(s.drop_last(), name);
    }
}

/// A table of string keys and string values (what a TOML table of strings
/// holds), with no key twice.
#[derive(Debug)]
pub struct Table {
    pairs: Vec<(String, String)>,
}

impl View for Table {
    type V = Map<Seq<char>, Seq<char>>;

    closed spec fn view(&self) -> Map<Seq<char>, Seq<char>> {
        pairs_map(self.pairs@)
    }
}

impl Table {
    #[verifier::type_invariant]
    closed spec fn inv(&self) -> bool {
        keys_unique(self.pairs@)
    }

    /// The entries in their order of insertion, as views.
    pub closed spec fn entries_view(&self) -> Seq<(Seq<char>, Seq<char>)> {
        pairs_view(self.pairs@)
    }

    /// Setting the entries in order gives every key of the table its value,
    /// and no other name any.
    pub proof fn lemma_entries_settings(&self, name: Seq<char>)
        ensures
            last_setting(self.entries_view(), name) == (if self@.contains_key(name) {
                Some(self@[name])
            } else {
                None
            }),
    {
        lemma_pairs_map_last_setting(self.pairs@, name);
    }

    /// An empty table.
    pub fn new() -> (r: Table)
        ensures
            r@ == Map::<Seq<char>, Seq<char>>::empty(),
    {
        Table { pairs: Vec::new() }
    }

    /// The position of `key` in the list of pairs.
    fn position(&self, key: &str) -> (r: Option<usize>)
        ensures
            r matches Some(i) ==> i < self.pairs@.len() && self.pairs@[i as int].0@ == key@,
            r is None ==> forall|j: int| 0 <= j < self.pairs@.len() ==> self.pairs@[j].0@ != key@,
    {
        let n = self.pairs.len();
        let mut i: usize = 0;
        while i < n
            invariant
                n == self.pairs@.len(),
                i <= n,
                forall|j: int| 0 <= j < i ==> self.pairs@[j].0@ != key@,
            decreases n - i,
        {
            if str_eq(self.pairs[i].0.as_str(), key) {
                return Some(i);
            }
            i += 1;
        }
        None
    }

    /// The value of `key`, where the table has it.
    pub fn get(&self, key: &str) -> (r: Option<String>)
        ensures
            r matches Some(v) ==> self@.contains_key(key@) && self@[key@] == v@,
            r is None ==> !self@.contains_key(key@),
    {
        proof {
            use_type_invariant(self);
            lemma_pairs_map(self.pairs@);
        }
        match self.position(key) {
            Some(i) => Some(self.pairs[i].1.clone()),
            None => None,
        }
    }

    /// Set `key` to `value`, in place of any value it had.
    pub fn insert(&mut self, key: String, value: String)
        ensures
            final(self)@ == old(self)@.insert(key@, value@),
    {
        proof {
            use_type_invariant(&*self);
            lemma_pairs_map(self.pairs@);
        }
        let ghost old_pairs = self.pairs@;
        match self.position(key.as_str()) {
            Some(i) => {
                let ghost k = key@;
                let ghost v = value@;
                let mut pairs: Vec<(String, String)> = Vec::new();
                std::mem::swap(&mut pairs, &mut self.pairs);
                pairs.set(i, (key, value));
                assert(keys_unique(pairs@)) by {
                    assert forall|a: int, b: int| 0 <= a < b < pairs@.len() implies #[trigger] pairs@[a].0@
                        != #[trigger] pairs@[b].0@ by {
                        assert(old_pairs[a].0@ != old_pairs[b].0@);
                    }
                }
                proof {
                    lemma_pairs_map(pairs@);
                    assert(pairs_map(pairs@) =~= pairs_map(old_pairs).insert(k, v)) by {
                        assert forall|x: Seq<char>| #[trigger] pairs_map(pairs@).contains_key(x)
                            <==> pairs_map(old_pairs).insert(k, v).contains_key(x) by {
                            if pairs_map(old_pairs).contains_key(x) {
                                let j = choose|j: int| 0 <= j < old_pairs.len() && old_pairs[j].0@ == x;
                                assert(pairs@[j].0@ == x);
                            }
                            if pairs_map(pairs@).contains_key(x) {
                                let j = choose|j: int| 0 <= j < pairs@.len() && pairs@[j].0@ == x;
                                assert(old_pairs[j].0@ == x);
                            }
                        }
                        assert forall|x: Seq<char>| #[trigger] pairs_map(pairs@).contains_key(x)
                            implies pairs_map(pairs@)[x] == pairs_map(old_pairs).insert(k, v)[x] by {
                            let j = choose|j: int| 0 <= j < pairs@.len() && pairs@[j].0@ == x;
                            assert(pairs_map(pairs@)[pairs@[j].0@] == pairs@[j].1@);
                            if j != i {
                                assert(old_pairs[j] == pairs@[j]);
                            }
                        }
                    }
                }
                self.pairs = pairs;
            },
            None => {
                let mut pairs: Vec<(String, String)> = Vec::new();
                std::mem::swap(&mut pairs, &mut self.pairs);
                pairs.push((key, value));
                assert(pairs@.drop_last() =~= old_pairs);
                assert(keys_unique(pairs@));
                self.pairs = pairs;
            },
        }
    }

    /// The number of keys.
    pub fn len(&self) -> (r: usize)
        ensures
            r == self@.len(),
    {
        proof {
            use_type_invariant(self);
            lemma_pairs_map(self.pairs@);
            lemma_pairs_len(self.pairs@);
        }
        self.pairs.len()
    }

    /// The table has no keys.
    pub fn is_empty(&self) -> (r: bool)
        ensures
            r == (self@.len() == 0),
    {
        self.len() == 0
    }

    /// The key/value pairs, in the order in which they were first set.
    pub fn entries(&self) -> (r: Vec<(String, String)>)
        ensures
            pairs_view(r@) == self.entries_view(),
            forall|i: int| 0 <= i < r@.len() ==> self@.contains_key(#[trigger] r@[i].0@) && self@[r@[i].0@] == r@[i].1@,
            forall|k: Seq<char>| #[trigger] self@.contains_key(k) ==> exists|i: int| 0 <= i < r@.len() && r@[i].0@ == k,
    {
        proof {
            use_type_invariant(self);
            lemma_pairs_map(self.pairs@);
        }
        let n = self.pairs.len();
        let mut out: Vec<(String, String)> = Vec::new();
        let mut i: usize = 0;
        while i < n
            invariant
                n == self.pairs@.len(),
                i <= n,
                out@ == self.pairs@.take(i as int),
            decreases n - i,
        {
            out.push((self.pairs[i].0.clone(), self.pairs[i].1.clone()));
            assert(out@ =~= self.pairs@.take(i + 1));
            i += 1;
        }
        assert(out@ =~= self.pairs@);
        out
    }
}

/// With unique keys, the map has as many keys as the list has pairs.
pub proof fn lemma_pairs_len(s: Seq<(String, String)>)
    requires
        keys_unique(s),
    ensures
        pairs_map(s).dom().finite(),
        pairs_map(s).len() == s.len(),
    decreases s.len(),
{
    if s.len() > 0 {
        let t = s.drop_last();
        assert(keys_unique(t));
        lemma_pairs_len(t);
        lemma_pairs_map(t);
        assert(!pairs_map(t).contains_key(s.last().0@)) by {
            if pairs_map(t).contains_key(s.last().0@) {
                let j = choose|j: int| 0 <= j < t.len() && t[j].0@ == s.last().0@;
                assert(s[j].0@ == s[s.len() - 1].0@);
            }
        }
    }
}

} // verus!
