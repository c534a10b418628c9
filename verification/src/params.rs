//! The flat string-keyed parameter mapping submitted to the remote API.
//!
//! Keys are unique and inserting an existing key overwrites its value (last
//! write wins).  The model of a [`Params`] value is a
//! `Map<Seq<char>, Seq<char>>`.

use vstd::prelude::*;

verus! {

/// The map described by a sequence of key/value pairs, later pairs
/// overwriting earlier ones.
pub open spec fn pairs_map(s: Seq<(String, String)>) -> Map<Seq<char>, Seq<char>>
    decreases s.len(),
{
    if s.len() == 0 {
        Map::empty()
    } else {
        pairs_map(s.drop_last()).insert(s.last().0@, s.last().1@)
    }
}

/// A parameter mapping for one API call.
pub struct Params {
    pairs: Vec<(String, String)>,
}

impl View for Params {
    type V = Map<Seq<char>, Seq<char>>;

    closed spec fn view(&self) -> Map<Seq<char>, Seq<char>> {
        pairs_map(self.pairs@)
    }
}

proof fn lemma_pairs_map_last_match(s: Seq<(String, String)>, k: Seq<char>, i: int)
    requires
        0 <= i < s.len(),
        s[i].0@ == k,
        forall|j: int| i < j < s.len() ==> s[j].0@ != k,
    ensures
        pairs_map(s).contains_key(k),
        pairs_map(s)[k] == s[i].1@,
    decreases s.len(),
{
    if i < s.len() - 1 {
        lemma_pairs_map_last_match(s.drop_last(), k, i);
    }
}

proof fn lemma_pairs_map_no_match(s: Seq<(String, String)>, k: Seq<char>)
    requires
        forall|j: int| 0 <= j < s.len() ==> s[j].0@ != k,
    ensures
        !pairs_map(s).contains_key(k),
    decreases s.len(),
{
    if s.len() > 0 {
        lemma_pairs_map_no_match(s.drop_last(), k);
    }
}

proof fn lemma_pairs_map_key_exists(s: Seq<(String, String)>, k: Seq<char>)
    requires
        pairs_map(s).contains_key(k),
    ensures
        exists|i: int| 0 <= i < s.len() && #[trigger] s[i].0@ == k,
    decreases s.len(),
{
    if s.len() == 0 {
    } else if s.last().0@ == k {
        assert(s[s.len() - 1].0@ == k);
    } else {
        lemma_pairs_map_key_exists(s.drop_last(), k);
        let i = choose|i: int| 0 <= i < s.drop_last().len() && #[trigger] s.drop_last()[i].0@ == k;
        assert(s[i].0@ == k);
    }
}

proof fn lemma_pairs_map_remove(s: Seq<(String, String)>, i: int, k: Seq<char>)
    requires
        0 <= i < s.len(),
        s[i].0@ != k,
    ensures
        pairs_map(s.remove(i)).contains_key(k) == pairs_map(s).contains_key(k),
        pairs_map(s).contains_key(k) ==> pairs_map(s.remove(i))[k] == pairs_map(s)[k],
    decreases s.len(),
{
    if i == s.len() - 1 {
        assert(s.remove(i) =~= s.drop_last());
    } else {
        assert(s.remove(i).drop_last() =~= s.drop_last().remove(i));
        assert(s.remove(i).last() == s.last());
        lemma_pairs_map_remove(s.drop_last(), i, k);
    }
}

impl Params {
    #[verifier::type_invariant]
    closed spec fn keys_unique(self) -> bool {
        forall|i: int, j: int|
            0 <= i < j < self.pairs@.len() ==> self.pairs@[i].0@ != self.pairs@[j].0@
    }

    /// An empty mapping.
    pub fn new() -> (r: Self)
        ensures
            r@ == Map::<Seq<char>, Seq<char>>::empty(),
    {
        Params { pairs: Vec::new() }
    }

    /// Stores `value` under `key`; an earlier value under the same key is
    /// superseded.
    pub fn insert(&mut self, key: String, value: String)
        ensures
            final(self)@ == old(self)@.insert(key@, value@),
    {
        let mut taken = Params { pairs: Vec::new() };
        core::mem::swap(self, &mut taken);
        proof {
            use_type_invariant(&taken);
        }
        let mut pairs = taken.pairs;
        let ghost s0 = pairs@;
        proof {
            assert(forall|x: int, y: int|
                #![trigger s0[x].0@, s0[y].0@]
                0 <= x < y < s0.len() ==> s0[x].0@ != s0[y].0@);
        }
        let mut i: usize = 0;
        let n = pairs.len();
        while i < n
            invariant
                n == pairs@.len(),
                i <= n,
                pairs@ == s0,
                old(self)@ == pairs_map(s0),
                forall|x: int, y: int|
                    #![trigger s0[x].0@, s0[y].0@]
                    0 <= x < y < s0.len() ==> s0[x].0@ != s0[y].0@,
                forall|j: int| 0 <= j < i ==> s0[j].0@ != key@,
            decreases n - i,
        {
            if pairs[i].0 == key {
                pairs.remove(i);
                pairs.push((key, value));
                proof {
                    s0.remove_ensures(i as int);
                    let removed = s0.remove(i as int);
                    assert(pairs@ == removed.push((key, value)));
                    assert(pairs@.last() == (key, value));
                    assert(pairs@.drop_last() =~= removed);
                    assert(s0[i as int].0@ == key@);
                    let m1 = pairs_map(removed).insert(key@, value@);
                    let m2 = pairs_map(s0).insert(key@, value@);
                    assert forall|k: Seq<char>|
                        #[trigger] m1.contains_key(k) == m2.contains_key(k) && (m1.contains_key(k)
                            ==> m1[k] == m2[k]) by {
                        if k != key@ {
                            lemma_pairs_map_remove(s0, i as int, k);
                        }
                    }
                    assert(m1 =~= m2);
                    assert(pairs_map(pairs@) == m1);
                    assert forall|a: int| 0 <= a < removed.len() implies #[trigger] removed[a].0@
                        != key@ by {
                        if a < i {
                            assert(removed[a] == s0[a]);
                            assert(s0[a].0@ != s0[i as int].0@);
                        } else {
                            assert(removed[a] == s0[a + 1]);
                            assert(s0[i as int].0@ != s0[a + 1].0@);
                        }
                    }
                    assert forall|a: int, b: int|
                        0 <= a < b < removed.len() implies removed[a].0@ != removed[b].0@ by {
                        if b < i {
                            assert(removed[a] == s0[a]);
                            assert(removed[b] == s0[b]);
                            assert(s0[a].0@ != s0[b].0@);
                        } else if a < i {
                            assert(removed[a] == s0[a]);
                            assert(removed[b] == s0[b + 1]);
                            assert(s0[a].0@ != s0[b + 1].0@);
                        } else {
                            assert(removed[a] == s0[a + 1]);
                            assert(removed[b] == s0[b + 1]);
                            assert(s0[a + 1].0@ != s0[b + 1].0@);
                        }
                    }
                    assert forall|a: int, b: int|
                        0 <= a < b < pairs@.len() implies pairs@[a].0@ != pairs@[b].0@ by {
                        if b == pairs@.len() - 1 {
                            assert(pairs@[a] == removed[a]);
                            assert(pairs@[b] == (key, value));
                        } else {
                            assert(pairs@[a] == removed[a]);
                            assert(pairs@[b] == removed[b]);
                        }
                    }
                }
                *self = Params { pairs };
                return ;
            }
            i = i + 1;
        }
        pairs.push((key, value));
        proof {
            assert(pairs@.drop_last() =~= s0);
        }
        *self = Params { pairs };
    }

    /// Looks the key up; `None` when the key was never stored.
    pub fn get(&self, key: &str) -> (r: Option<&String>)
        ensures
            match r {
                Some(v) => self@.contains_key(key@) && v@ == self@[key@],
                None => !self@.contains_key(key@),
            },
    {
        let wanted = key.to_owned();
        let mut i: usize = self.pairs.len();
        while i > 0
            invariant
                i <= self.pairs@.len(),
                wanted@ == key@,
                forall|j: int| i <= j < self.pairs@.len() ==> self.pairs@[j].0@ != key@,
            decreases i,
        {
            i = i - 1;
            let pair = &self.pairs[i];
            if pair.0 == wanted {
                proof {
                    lemma_pairs_map_last_match(self.pairs@, key@, i as int);
                }
                return Some(&self.pairs[i].1);
            }
        }
        proof {
            lemma_pairs_map_no_match(self.pairs@, key@);
        }
        None
    }

    /// The key/value pairs of the mapping: each key exactly once, carrying
    /// the value that the mapping holds for it, and every key of the mapping
    /// among them.
    pub fn entries(&self) -> (r: &Vec<(String, String)>)
        ensures
            forall|i: int, j: int| 0 <= i < j < r@.len() ==> r@[i].0@ != r@[j].0@,
            forall|i: int|
                0 <= i < r@.len() ==> self@.contains_key(#[trigger] r@[i].0@) && self@[r@[i].0@]
                    == r@[i].1@,
            forall|k: Seq<char>| #[trigger] self@.contains_key(k) ==> exists|i: int|
                0 <= i < r@.len() && #[trigger] r@[i].0@ == k,
    {
        proof {
            use_type_invariant(self);
            assert forall|i: int| 0 <= i < self.pairs@.len() implies pairs_map(
                self.pairs@,
            ).contains_key(#[trigger] self.pairs@[i].0@) && pairs_map(self.pairs@)[self.pairs@[i].0@]
                == self.pairs@[i].1@ by {
                lemma_pairs_map_last_match(self.pairs@, self.pairs@[i].0@, i);
            }
            assert forall|k: Seq<char>| #[trigger] pairs_map(self.pairs@).contains_key(
                k,
            ) implies exists|i: int| 0 <= i < self.pairs@.len() && #[trigger] self.pairs@[i].0@
                == k by {
                lemma_pairs_map_key_exists(self.pairs@, k);
            }
        }
        &self.pairs
    }
}

} // verus!
