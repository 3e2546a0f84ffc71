//! Items kept in the order of their keys, which are texts, with no key
//! twice.

use vstd::prelude::*;
use crate::text::{
    chars_less, chars_of, lemma_lex_irreflexive, lemma_lex_total, lemma_lex_transitive, lex_less,
    same_chars, strictly_ascending,
};

verus! {

/// Items under text keys, in the lexicographic order of the keys. A key is
/// held once: what comes first under a key stays.
pub struct SortedTexts<T> {
    keys: Vec<Vec<char>>,
    items: Vec<T>,
}

impl<T> SortedTexts<T> {
    /// The keys, in their order.
    pub closed spec fn keys(&self) -> Seq<Seq<char>> {
        Seq::new(self.keys@.len(), |i: int| self.keys@[i]@)
    }

    /// The items, each at the place of its key.
    pub closed spec fn items(&self) -> Seq<T> {
        self.items@
    }

    /// There is one item for each key, and the keys ascend strictly.
    pub open spec fn wf(&self) -> bool {
        &&& self.keys().len() == self.items().len()
        &&& strictly_ascending(self.keys())
    }

    /// Nothing yet.
    pub fn new() -> (sorted: Self)
        ensures
            sorted.wf(),
            sorted.keys().len() == 0,
            sorted.items().len() == 0,
    {
        SortedTexts { keys: Vec::new(), items: Vec::new() }
    }

    /// How many keys there are.
    pub fn len(&self) -> (n: usize)
        ensures
            n == self.keys().len(),
    {
        self.keys.len()
    }

    /// Puts `item` under `key`, at the key's place in the order, unless the
    /// key is there already: then nothing changes. Says whether the item
    /// went in.
    pub fn insert(&mut self, key: &str, item: T) -> (added: bool)
        requires
            old(self).wf(),
        ensures
            final(self).wf(),
            added == !old(self).keys().contains(key@),
            !added ==> final(self).keys() == old(self).keys() && final(self).items() == old(
                self,
            ).items(),
            added ==> exists|at: int|
                0 <= at <= old(self).keys().len() && final(self).keys() == #[trigger] old(
                    self,
                ).keys().insert(at, key@) && final(self).items() == old(self).items().insert(
                    at,
                    item,
                ),
    {
        let wanted = chars_of(key);
        let ghost before = self.keys();
        let mut at: usize = 0;
        while at < self.keys.len() && chars_less(&self.keys[at], &wanted)
            invariant
                at <= self.keys@.len(),
                self.keys() == before,
                forall|k: int| 0 <= k < at ==> lex_less(#[trigger] before[k], wanted@),
            decreases self.keys@.len() - at,
        {
            at += 1;
        }
        proof {
            lemma_lex_irreflexive(wanted@);
            assert forall|k: int| at < k < before.len() implies !lex_less(
                #[trigger] before[k],
                wanted@,
            ) && before[k] != wanted@ by {
                if lex_less(before[k], wanted@) || before[k] == wanted@ {
                    lemma_lex_transitive(before[at as int], before[k], wanted@);
                }
            }
        }
        if at < self.keys.len() && same_chars(&self.keys[at], &wanted) {
            proof {
                assert(before[at as int] == key@);
            }
            return false;
        }
        proof {
            assert(!before.contains(key@)) by {
                if before.contains(key@) {
                    let k = choose|k: int| 0 <= k < before.len() && before[k] == key@;
                    assert(lex_less(before[k], wanted@) || k >= at);
                }
            }
        }
        let ghost items_before = self.items@;
        self.keys.insert(at, wanted);
        self.items.insert(at, item);
        proof {
            let after = self.keys();
            assert(after =~= before.insert(at as int, key@));
            assert(self.items() == items_before.insert(at as int, item));
            assert forall|i: int, j: int| 0 <= i < j < after.len() implies lex_less(
                after[i],
                after[j],
            ) by {
                let before_i = if i < at { i } else { i - 1 };
                let before_j = if j < at { j } else { j - 1 };
                if i == at {
                    lemma_lex_total(key@, before[at as int]);
                    if before_j > at {
                        lemma_lex_transitive(key@, before[at as int], before[before_j]);
                    }
                } else if j == at {
                    assert(lex_less(before[i], wanted@));
                } else {
                    assert(lex_less(before[before_i], before[before_j]));
                }
            }
        }
        true
    }

    /// The items alone, in the order of their keys.
    pub fn into_items(self) -> (items: Vec<T>)
        ensures
            items@ == self.items(),
    {
        self.items
    }
}

} // verus!
