//! Sets of texts.

use vstd::prelude::*;
use crate::text;

verus! {

/// A set of texts.
#[derive(Debug)]
pub struct TextSet {
    items: Vec<String>,
}

impl View for TextSet {
    type V = Set<Seq<char>>;

    closed spec fn view(&self) -> Set<Seq<char>> {
        text::texts(self.items@).to_set()
    }
}

impl TextSet {
    /// The empty set.
    pub fn new() -> (set: TextSet)
        ensures
            set@ == Set::<Seq<char>>::empty(),
    {
        let set = TextSet { items: Vec::new() };
        assert(set@ =~= Set::empty());
        set
    }

    /// Whether a text is in the set.
    pub fn contains(&self, item: &str) -> (found: bool)
        ensures
            found == self@.contains(item@),
    {
        text::list_holds(&self.items, item)
    }

    /// Whether nothing is in the set.
    pub fn is_empty(&self) -> (empty: bool)
        ensures
            empty == (self@ == Set::<Seq<char>>::empty()),
    {
        proof {
            if self.items@.len() > 0 {
                assert(text::texts(self.items@)[0] == self.items@[0]@);
                assert(self@.contains(self.items@[0]@));
            } else {
                assert(self@ =~= Set::empty());
            }
        }
        self.items.len() == 0
    }

    /// One of the texts in the set; nothing where there is none.
    pub fn any(&self) -> (item: Option<&String>)
        ensures
            match item {
                Some(s) => self@.contains(s@),
                None => self@ == Set::<Seq<char>>::empty(),
            },
    {
        if self.is_empty() {
            return None;
        }
        assert(text::texts(self.items@)[0] == self.items@[0]@) by {
            if self.items@.len() == 0 {
                assert(self@ =~= Set::empty());
            }
        }
        Some(&self.items[0])
    }

    /// Puts a text into the set; tells whether it is new there.
    pub fn insert(&mut self, item: String) -> (new: bool)
        ensures
            final(self)@ == old(self)@.insert(item@),
            new == !old(self)@.contains(item@),
    {
        let ghost before = text::texts(self.items@);
        if self.contains(item.as_str()) {
            assert(self@ =~= old(self)@.insert(item@));
            return false;
        }
        self.items.push(item);
        proof {
            let after = text::texts(self.items@);
            assert(after =~= before.push(item@));
            before.lemma_push_to_set_commute(item@);
        }
        true
    }

    /// Takes a text out of the set; tells whether it was there.
    pub fn remove(&mut self, item: &str) -> (found: bool)
        ensures
            final(self)@ == old(self)@.remove(item@),
            found == old(self)@.contains(item@),
    {
        let found: bool = self.contains(item);
        let mut kept: Vec<String> = Vec::new();
        let mut i: usize = 0;
        assert(text::texts(kept@).to_set() =~= text::texts(self.items@).take(0).to_set().remove(item@));
        while i < self.items.len()
            invariant
                i <= self.items@.len(),
                text::texts(kept@).to_set() == text::texts(self.items@).take(i as int).to_set().remove(item@),
            decreases self.items.len() - i,
        {
            let ghost all = text::texts(self.items@);
            let ghost before = text::texts(kept@);
            proof {
                assert(all.take(i + 1) =~= all.take(i as int).push(all[i as int]));
                all.take(i as int).lemma_push_to_set_commute(all[i as int]);
            }
            if !text::same_text(self.items[i].as_str(), item) {
                kept.push(self.items[i].clone());
                proof {
                    assert(text::texts(kept@) =~= before.push(all[i as int]));
                    before.lemma_push_to_set_commute(all[i as int]);
                }
            }
            proof {
                assert(text::texts(kept@).to_set() =~= all.take(i + 1).to_set().remove(item@));
            }
            i += 1;
        }
        proof {
            let all = text::texts(self.items@);
            assert(all.take(i as int) =~= all);
        }
        self.items = kept;
        found
    }
}

} // verus!
