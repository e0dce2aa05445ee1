//! Sets of names, kept in ascending order.

use crate::text::{
    ascending, compare, lemma_ascending_distinct, lemma_rank_chain, lemma_rank_flip,
    lemma_rank_same, rank, texts, Rank,
};
use vstd::prelude::*;

verus! {

/// A finite set of names.
///
/// The names are kept in ascending order, each once, so that two sets with
/// the same members list them alike.
#[derive(Debug)]
pub struct NameSet {
    names: Vec<String>,
}

impl View for NameSet {
    type V = Set<Seq<char>>;

    closed spec fn view(&self) -> Set<Seq<char>> {
        texts(self.names@).to_set()
    }
}

impl Clone for NameSet {
    fn clone(&self) -> (r: NameSet)
        ensures
            r@ == self@,
            r.order() == self.order(),
    {
        proof {
            use_type_invariant(self);
        }
        let mut names: Vec<String> = Vec::new();
        let mut i: usize = 0;
        while i < self.names.len()
            invariant
                i <= self.names.len(),
                texts(names@) == texts(self.names@).take(i as int),
            decreases self.names.len() - i,
        {
            let ghost before = texts(names@);
            let name = self.names[i].clone();
            names.push(name);
            proof {
                assert(texts(names@) =~= before.push(name@));
                assert(texts(self.names@).take(i + 1) =~= texts(self.names@).take(i as int).push(
                    texts(self.names@)[i as int],
                ));
            }
            i += 1;
        }
        proof {
            assert(texts(self.names@).take(i as int) =~= texts(self.names@));
        }
        NameSet { names }
    }
}

impl NameSet {
    #[verifier::type_invariant]
    spec fn sorted(self) -> bool {
        ascending(texts(self.names@))
    }

    /// The names in ascending order.
    pub closed spec fn order(&self) -> Seq<Seq<char>> {
        texts(self.names@)
    }

    /// The empty set.
    pub fn new() -> (r: NameSet)
        ensures
            r@ == Set::<Seq<char>>::empty(),
            r.order() == Seq::<Seq<char>>::empty(),
    {
        let names: Vec<String> = Vec::new();
        assert(texts(names@) =~= Seq::<Seq<char>>::empty());
        assert(texts(names@).to_set() =~= Set::<Seq<char>>::empty());
        NameSet { names }
    }

    /// Whether `name` is a member.
    pub fn contains(&self, name: &str) -> (r: bool)
        ensures
            r == self@.contains(name@),
    {
        let wanted = String::from_str(name);
        let mut i: usize = 0;
        while i < self.names.len()
            invariant
                i <= self.names.len(),
                wanted@ == name@,
                forall|k: int| 0 <= k < i ==> texts(self.names@)[k] != name@,
            decreases self.names.len() - i,
        {
            if self.names[i] == wanted {
                assert(texts(self.names@)[i as int] == name@);
                return true;
            }
            i += 1;
        }
        false
    }

    /// Adds `name`. Returns whether it was new.
    pub fn insert(&mut self, name: String) -> (r: bool)
        ensures
            final(self)@ == old(self)@.insert(name@),
            r == !old(self)@.contains(name@),
            !r ==> final(self).order() == old(self).order(),
            ascending(final(self).order()),
            final(self).order().to_set() == final(self)@,
    {
        proof {
            use_type_invariant(&*self);
        }
        let ghost before = texts(self.names@);
        let ghost text = name@;
        let mut i: usize = 0;
        while i < self.names.len()
            invariant
                i <= self.names.len(),
                before == texts(self.names@),
                ascending(before),
                text == name@,
                *self == *old(self),
                forall|k: int| 0 <= k < i ==> rank(before[k], text) == Rank::Before,
            ensures
                i < self.names.len() ==> rank(before[i as int], text) == Rank::After,
            decreases self.names.len() - i,
        {
            assert(before[i as int] == self.names@[i as int]@);
            match compare(self.names[i].as_str(), name.as_str()) {
                Rank::Before => {},
                Rank::Same => {
                    proof {
                        lemma_rank_same(before[i as int], text);
                        assert(before.to_set().contains(before[i as int]));
                        assert(self@.insert(text) =~= self@);
                    }
                    return false;
                },
                Rank::After => {
                    break ;
                },
            }
            i += 1;
        }
        proof {
            assert(i < before.len() ==> rank(before[i as int], text) == Rank::After);
            assert forall|k: int| i <= k < before.len() implies rank(text, before[k])
                == Rank::Before by {
                lemma_rank_flip(text, before[i as int]);
                if k > i {
                    lemma_rank_chain(text, before[i as int], before[k]);
                }
            }
            assert forall|k: int| 0 <= k < before.len() implies before[k] != text by {
                lemma_rank_same(before[k], text);
                lemma_rank_flip(before[k], text);
            }
            assert(!before.to_set().contains(text));
        }
        let mut taken = NameSet::new();
        std::mem::swap(self, &mut taken);
        let mut names = taken.names;
        names.insert(i, name);
        proof {
            let after = texts(names@);
            assert(after =~= before.insert(i as int, text));
            assert forall|a: int, b: int| 0 <= a < b < after.len() implies rank(after[a], after[b])
                == Rank::Before by {
                let x = if a < i {
                    a
                } else {
                    a - 1
                };
                let y = if b < i {
                    b
                } else {
                    b - 1
                };
                if a != i && b != i {
                    assert(after[a] == before[x] && after[b] == before[y]);
                    assert(rank(before[x], before[y]) == Rank::Before);
                } else if a == i {
                    assert(after[b] == before[y]);
                } else {
                    assert(after[a] == before[x]);
                }
            }
            assert(after.to_set() =~= before.to_set().insert(text)) by {
                assert forall|t: Seq<char>| after.to_set().contains(t) == before.to_set().insert(
                    text,
                ).contains(t) by {
                    if after.contains(t) {
                        let k = choose|k: int| 0 <= k < after.len() && after[k] == t;
                        if k < i {
                            assert(before[k] == t);
                        } else if k > i {
                            assert(before[k - 1] == t);
                        }
                    }
                    if before.contains(t) {
                        let k = choose|k: int| 0 <= k < before.len() && before[k] == t;
                        if k < i {
                            assert(after[k] == t);
                        } else {
                            assert(after[k + 1] == t);
                        }
                    }
                    if t == text {
                        assert(after[i as int] == t);
                    }
                }
            }
        }
        *self = NameSet { names };
        true
    }

    /// How many names the set holds.
    pub fn len(&self) -> (r: usize)
        ensures
            self@.finite(),
            r == self@.len(),
            r == self.order().len(),
            ascending(self.order()),
            self.order().no_duplicates(),
            self.order().to_set() == self@,
    {
        proof {
            use_type_invariant(self);
            lemma_ascending_distinct(self.order());
            self.order().unique_seq_to_set();
        }
        self.names.len()
    }

    /// The `i`-th name in ascending order.
    pub fn get(&self, i: usize) -> (r: &String)
        requires
            i < self.order().len(),
        ensures
            r@ == self.order()[i as int],
            self@.contains(r@),
    {
        assert(texts(self.names@)[i as int] == self.names@[i as int]@);
        &self.names[i]
    }
}

} // verus!
