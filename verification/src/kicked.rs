//! The names that were kicked while a server's process lives.

use vstd::prelude::*;
use vstd::string::StringExecFns;
use crate::text::{text_is, texts};

verus! {

/// A set of player names. No name is held twice.
#[derive(Debug)]
pub struct KickedNames {
    names: Vec<String>,
}

/// The names that a list of strings holds.
pub open spec fn name_set(names: Seq<Seq<char>>) -> Set<Seq<char>> {
    Set::new(|n: Seq<char>| names.contains(n))
}

/// Whether no text stands twice in a list.
pub open spec fn all_distinct(names: Seq<Seq<char>>) -> bool {
    forall|i: int, j: int| 0 <= i < j < names.len() ==> names[i] != names[j]
}

impl View for KickedNames {
    type V = Set<Seq<char>>;

    closed spec fn view(&self) -> Set<Seq<char>> {
        name_set(texts(self.names@))
    }
}

impl KickedNames {
    #[verifier::type_invariant]
    spec fn distinct(&self) -> bool {
        all_distinct(texts(self.names@))
    }

    /// The empty set.
    pub fn new() -> (r: Self)
        ensures
            r@ == Set::<Seq<char>>::empty(),
    {
        let r = KickedNames { names: Vec::new() };
        assert(r@ =~= Set::<Seq<char>>::empty());
        r
    }

    /// Whether `name` is in the set.
    pub fn contains(&self, name: &str) -> (r: bool)
        ensures
            r == self@.contains(name@),
    {
        let mut i: usize = 0;
        while i < self.names.len()
            invariant
                i <= self.names.len(),
                forall|j: int| 0 <= j < i ==> texts(self.names@)[j] != name@,
            decreases self.names.len() - i,
        {
            if text_is(self.names[i].as_str(), name) {
                assert(texts(self.names@)[i as int] == name@);
                return true;
            }
            i += 1;
        }
        false
    }

    /// Adds `name` to the set.
    pub fn insert(&mut self, name: &str)
        ensures
            final(self)@ == old(self)@.insert(name@),
    {
        proof {
            use_type_invariant(&*self);
        }
        if !self.contains(name) {
            let ghost before = texts(self.names@);
            let mut all = self.copied();
            all.push(String::from_str(name));
            proof {
                let after = texts(all@);
                assert(after =~= before.push(name@));
                assert forall|n: Seq<char>| after.contains(n) <==> before.contains(n) || n
                    == name@ by {
                    if before.contains(n) {
                        let k = choose|k: int| 0 <= k < before.len() && before[k] == n;
                        assert(after[k] == n);
                    }
                    if n == name@ {
                        assert(after[before.len() as int] == n);
                    }
                }
                assert(name_set(after) =~= old(self)@.insert(name@));
            }
            self.names = all;
        } else {
            assert(self@ =~= old(self)@.insert(name@));
        }
    }

    /// Keeps the names that are among `present`, and drops the others.
    pub fn retain_among(&mut self, present: &Vec<String>)
        ensures
            final(self)@ == old(self)@.intersect(name_set(texts(present@))),
    {
        proof {
            use_type_invariant(&*self);
        }
        let mut kept: Vec<String> = Vec::new();
        let mut i: usize = 0;
        while i < self.names.len()
            invariant
                i <= self.names.len(),
                all_distinct(texts(self.names@)),
                all_distinct(texts(kept@)),
                forall|n: Seq<char>|
                    texts(kept@).contains(n) <==> texts(self.names@).take(i as int).contains(n)
                        && texts(present@).contains(n),
            decreases self.names.len() - i,
        {
            let ghost all = texts(self.names@);
            let ghost before = texts(kept@);
            let name = &self.names[i];
            let here = listed(present, name.as_str());
            if here {
                kept.push(name.clone());
            }
            proof {
                let after = texts(kept@);
                let n0 = all[i as int];
                let prev = all.take(i as int);
                let upto = all.take(i + 1);
                assert(n0 == self.names@[i as int]@);
                assert(upto =~= prev.push(n0));
                if here {
                    assert(after =~= before.push(n0));
                } else {
                    assert(after =~= before);
                }
                assert forall|n: Seq<char>|
                    after.contains(n) <==> upto.contains(n) && texts(present@).contains(n) by {
                    if after.contains(n) {
                        let k = choose|k: int| 0 <= k < after.len() && after[k] == n;
                        if k < before.len() {
                            assert(before[k] == n);
                            assert(before.contains(n));
                            let q = choose|q: int| 0 <= q < prev.len() && prev[q] == n;
                            assert(upto[q] == n);
                        } else {
                            assert(upto[i as int] == n);
                        }
                    }
                    if upto.contains(n) && texts(present@).contains(n) {
                        let q = choose|q: int| 0 <= q < upto.len() && upto[q] == n;
                        if q < i {
                            assert(prev[q] == n);
                            assert(before.contains(n));
                            let k = choose|k: int| 0 <= k < before.len() && before[k] == n;
                            assert(after[k] == n);
                        } else {
                            assert(after[before.len() as int] == n);
                        }
                    }
                }
                assert forall|a: int, b: int| 0 <= a < b < after.len() implies after[a]
                    != after[b] by {
                    if b == before.len() {
                        assert(before[a] == after[a]);
                        assert(before.contains(after[a]));
                        let q = choose|q: int| 0 <= q < prev.len() && prev[q] == after[a];
                        assert(all[q] != all[i as int]);
                    }
                }
            }
            i += 1;
        }
        proof {
            assert(texts(self.names@).take(self.names.len() as int) =~= texts(self.names@));
            assert(name_set(texts(kept@)) =~= old(self)@.intersect(name_set(texts(present@))));
        }
        self.names = kept;
    }

    /// A set with the same names.
    pub fn copy(&self) -> (r: Self)
        ensures
            r@ == self@,
    {
        proof {
            use_type_invariant(self);
        }
        KickedNames { names: self.copied() }
    }

    /// Drops every name.
    pub fn clear(&mut self)
        ensures
            final(self)@ == Set::<Seq<char>>::empty(),
    {
        self.names = Vec::new();
        assert(self@ =~= Set::<Seq<char>>::empty());
    }

    /// The names, each once.
    pub fn names(&self) -> (r: Vec<String>)
        ensures
            name_set(texts(r@)) == self@,
            all_distinct(texts(r@)),
    {
        proof {
            use_type_invariant(self);
        }
        self.copied()
    }

    fn copied(&self) -> (r: Vec<String>)
        ensures
            texts(r@) == texts(self.names@),
    {
        let mut r: Vec<String> = Vec::new();
        let mut i: usize = 0;
        while i < self.names.len()
            invariant
                i <= self.names.len(),
                texts(r@) == texts(self.names@).take(i as int),
            decreases self.names.len() - i,
        {
            let ghost before = texts(r@);
            r.push(self.names[i].clone());
            assert(texts(r@) =~= before.push(self.names@[i as int]@));
            assert(texts(self.names@).take(i + 1) =~= before.push(self.names@[i as int]@));
            i += 1;
        }
        assert(texts(self.names@).take(self.names.len() as int) =~= texts(self.names@));
        r
    }

    /// How many names the set holds.
    pub fn len(&self) -> (r: usize)
        ensures
            r == self@.len(),
            self@.finite(),
    {
        proof {
            use_type_invariant(self);
            lemma_distinct_count(texts(self.names@));
        }
        self.names.len()
    }
}

/// Whether `name` is among `list`.
pub fn listed(list: &Vec<String>, name: &str) -> (r: bool)
    ensures
        r == texts(list@).contains(name@),
{
    let mut i: usize = 0;
    while i < list.len()
        invariant
            i <= list.len(),
            forall|j: int| 0 <= j < i ==> texts(list@)[j] != name@,
        decreases list.len() - i,
    {
        if text_is(list[i].as_str(), name) {
            assert(texts(list@)[i as int] == name@);
            return true;
        }
        i += 1;
    }
    false
}

/// A list without repetition holds as many names as it is long.
pub proof fn lemma_distinct_count(names: Seq<Seq<char>>)
    requires
        all_distinct(names),
    ensures
        name_set(names).finite(),
        name_set(names).len() == names.len(),
    decreases names.len(),
{
    if names.len() == 0 {
        assert(name_set(names) =~= Set::<Seq<char>>::empty());
    } else {
        let before = names.drop_last();
        lemma_distinct_count(before);
        assert forall|n: Seq<char>| name_set(names).contains(n) <==> name_set(before).insert(
            names.last(),
        ).contains(n) by {
            if names.contains(n) {
                let k = choose|k: int| 0 <= k < names.len() && names[k] == n;
                if k < before.len() {
                    assert(before[k] == n);
                }
            }
            if before.contains(n) {
                let k = choose|k: int| 0 <= k < before.len() && before[k] == n;
                assert(names[k] == n);
            }
            if n == names.last() {
                assert(names[names.len() - 1] == n);
            }
        }
        assert(name_set(names) =~= name_set(before).insert(names.last()));
        if before.contains(names.last()) {
            let k = choose|k: int| 0 <= k < before.len() && before[k] == names.last();
            assert(names[k] == names[names.len() - 1]);
        }
    }
}

} // verus!
