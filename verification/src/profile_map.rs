//! The named profiles of the global configuration: a map from profile name
//! to its settings, kept in name order (the order of `BTreeMap<String, _>`).
use vstd::prelude::*;

use crate::config::ProfileConfig;
use crate::ordered;
use crate::text;

verus! {

/// Profile settings by profile name, in ascending name order.
#[derive(Debug)]
pub struct ProfileMap {
    keys: Vec<String>,
    values: Vec<ProfileConfig>,
}

impl ProfileMap {
    /// One value per key, and the keys strictly ascending (so no name twice).
    #[verifier::type_invariant]
    spec fn well_formed(self) -> bool {
        &&& self.keys.len() == self.values.len()
        &&& ordered::strictly_sorted(text::views(self.keys@))
    }

    /// The profile names, in ascending order.
    pub closed spec fn key_seq(self) -> Seq<Seq<char>> {
        text::views(self.keys@)
    }

    /// The settings of the profile named `k`, if there is one.
    pub closed spec fn lookup(self, k: Seq<char>) -> Option<ProfileConfig> {
        if self.key_seq().contains(k) {
            Some(self.values@[self.key_seq().index_of(k)])
        } else {
            None
        }
    }

    /// A name has settings exactly when it is one of the keys.
    pub proof fn lemma_lookup_domain(self, k: Seq<char>)
        ensures
            self.lookup(k) is Some <==> self.key_seq().contains(k),
    {
    }

    proof fn lemma_index(self, i: int)
        requires
            self.well_formed(),
            0 <= i < self.keys.len(),
        ensures
            self.key_seq().contains(self.keys@[i]@),
            self.key_seq().index_of(self.keys@[i]@) == i,
            self.lookup(self.keys@[i]@) == Some(self.values@[i]),
    {
        let s = self.key_seq();
        assert(s[i] == self.keys@[i]@);
        let j = s.index_of(s[i]);
        if j != i {
            if j < i {
                assert(ordered::lex_lt(s[j], s[i]));
            } else {
                assert(ordered::lex_lt(s[i], s[j]));
            }
            ordered::lemma_lex_irreflexive(s[i]);
        }
    }

    /// An empty map.
    pub fn new() -> (m: Self)
        ensures
            m.key_seq() == Seq::<Seq<char>>::empty(),
            forall|k: Seq<char>| m.lookup(k) is None,
    {
        let m = ProfileMap { keys: Vec::new(), values: Vec::new() };
        assert(m.key_seq() =~= Seq::<Seq<char>>::empty());
        m
    }

    /// The number of profiles.
    pub fn len(&self) -> (n: usize)
        ensures
            n == self.key_seq().len(),
    {
        self.keys.len()
    }

    /// Whether there are no profiles.
    pub fn is_empty(&self) -> (b: bool)
        ensures
            b == (self.key_seq().len() == 0),
    {
        self.keys.len() == 0
    }

    /// The profile names, in ascending order.
    pub fn keys(&self) -> (r: Vec<String>)
        ensures
            text::views(r@) == self.key_seq(),
            ordered::strictly_sorted(self.key_seq()),
    {
        proof {
            use_type_invariant(self);
        }
        text::clone_strings(self.keys.as_slice())
    }

    /// The settings of the profile named `k`.
    pub fn get(&self, k: &str) -> (r: Option<&ProfileConfig>)
        ensures
            r matches Some(v) ==> self.lookup(k@) == Some(*v),
            r is None ==> self.lookup(k@) is None,
    {
        proof {
            use_type_invariant(self);
        }
        let kc = text::chars_of(k);
        let (i, found) = ordered::locate(&self.keys, &kc);
        if found {
            proof {
                self.lemma_index(i as int);
            }
            Some(&self.values[i])
        } else {
            proof {
                if self.key_seq().contains(k@) {
                    let j = choose|j: int| 0 <= j < self.key_seq().len() && self.key_seq()[j] == k@;
                    assert(self.key_seq()[j] == self.keys@[j]@);
                    ordered::lemma_lex_irreflexive(k@);
                }
            }
            None
        }
    }

    /// Whether a profile named `k` exists.
    pub fn contains_key(&self, k: &str) -> (b: bool)
        ensures
            b == (self.lookup(k@) is Some),
    {
        self.get(k).is_some()
    }

    /// Sets the settings of profile `k`, adding the name if it is new.
    pub fn insert(&mut self, k: String, v: ProfileConfig)
        ensures
            final(self).lookup(k@) == Some(v),
            forall|x: Seq<char>| x != k@ ==> final(self).lookup(x) == old(self).lookup(x),
            final(self).key_seq().to_set() == old(self).key_seq().to_set().insert(k@),
    {
        proof {
            use_type_invariant(&*self);
        }
        let ghost old_map = *self;
        let mut taken = ProfileMap::new();
        std::mem::swap(self, &mut taken);
        assert(taken == old_map);
        let ProfileMap { mut keys, mut values } = taken;
        let kc = text::chars_of(k.as_str());
        let ghost s = text::views(keys@);
        assert(keys.len() == values.len());
        let (i, found) = ordered::locate(&keys, &kc);
        if found {
            values.set(i, v);
            let m = ProfileMap { keys, values };
            proof {
                old_map.lemma_index(i as int);
                assert(m.key_seq() == s);
                m.lemma_index(i as int);
                assert forall|x: Seq<char>| x != k@ implies m.lookup(x) == old_map.lookup(x) by {
                    if s.contains(x) {
                        let j = s.index_of(x);
                        assert(s[j] == x);
                        assert(keys@[j]@ == x);
                        old_map.lemma_index(j);
                        m.lemma_index(j);
                    }
                }
            }
            *self = m;
        } else {
            proof {
                assert forall|j: int| 0 <= j < i implies ordered::lex_lt(#[trigger] s[j], k@) by {
                    assert(s[j] == keys@[j]@);
                }
                assert forall|j: int| i <= j < s.len() implies ordered::lex_lt(k@, #[trigger] s[j]) by {
                    assert(s[j] == keys@[j]@);
                }
                ordered::lemma_insert_keeps_sorted(s, i as int, k@);
            }
            keys.insert(i, k);
            values.insert(i, v);
            assert(text::views(keys@) =~= s.insert(i as int, kc@));
            let m = ProfileMap { keys, values };
            proof {
                m.lemma_index(i as int);
                assert forall|x: Seq<char>| x != k@ implies m.lookup(x) == old_map.lookup(x) by {
                    if s.contains(x) {
                        let j = s.index_of(x);
                        assert(s[j] == x);
                        old_map.lemma_index(j);
                        if j < i {
                            assert(m.keys@[j]@ == x);
                            m.lemma_index(j);
                        } else {
                            assert(m.keys@[j + 1]@ == x);
                            m.lemma_index(j + 1);
                        }
                    } else {
                        if m.key_seq().contains(x) {
                            let w = choose|w: int|
                                0 <= w < m.key_seq().len() && m.key_seq()[w] == x;
                            if w < i {
                                assert(s[w] == x);
                            } else if w > i {
                                assert(s[w - 1] == x);
                            }
                        }
                    }
                }
                assert(m.key_seq().to_set() =~= s.to_set().insert(k@)) by {
                    let t = m.key_seq();
                    assert forall|x| t.to_set().contains(x) implies s.to_set().insert(k@).contains(
                        x,
                    ) by {
                        let w = choose|w: int| 0 <= w < t.len() && t[w] == x;
                        if w < i {
                            assert(s[w] == x);
                        } else if w > i {
                            assert(s[w - 1] == x);
                        }
                    }
                    assert forall|x| s.to_set().insert(k@).contains(x) implies t.to_set().contains(
                        x,
                    ) by {
                        if x == k@ {
                            assert(t[i as int] == x);
                        } else {
                            let w = choose|w: int| 0 <= w < s.len() && s[w] == x;
                            if w < i {
                                assert(t[w] == x);
                            } else {
                                assert(t[w + 1] == x);
                            }
                        }
                    }
                }
            }
            *self = m;
        }
    }
}

impl Clone for ProfileMap {
    fn clone(&self) -> (r: Self)
        ensures
            r.key_seq() == self.key_seq(),
            forall|k: Seq<char>| r.lookup(k) == self.lookup(k),
    {
        proof {
            use_type_invariant(self);
        }
        let keys = text::clone_strings(self.keys.as_slice());
        let mut values: Vec<ProfileConfig> = Vec::new();
        let mut i: usize = 0;
        while i < self.values.len()
            invariant
                i <= self.values.len(),
                values@ =~= self.values@.take(i as int),
            decreases self.values.len() - i,
        {
            values.push(self.values[i].duplicate());
            i = i + 1;
        }
        assert(self.values@.take(self.values.len() as int) =~= self.values@);
        ProfileMap { keys, values }
    }
}

} // verus!
