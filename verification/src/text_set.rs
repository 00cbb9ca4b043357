use vstd::prelude::*;

verus! {

/// The texts that a list of strings holds, in order.
pub open spec fn texts(items: Seq<String>) -> Seq<Seq<char>> {
    items.map_values(|s: String| s@)
}

/// A finite set of texts, kept as a list in which no text occurs twice.
#[derive(Debug)]
pub struct TextSet {
    items: Vec<String>,
}

impl View for TextSet {
    type V = Set<Seq<char>>;

    closed spec fn view(&self) -> Set<Seq<char>> {
        texts(self.items@).to_set()
    }
}

impl Clone for TextSet {
    fn clone(&self) -> (r: Self)
        ensures
            r@ == self@,
    {
        proof {
            use_type_invariant(self);
        }
        let items = self.items.clone();
        assert(texts(items@) =~= texts(self.items@));
        TextSet { items }
    }
}

impl TextSet {
    #[verifier::type_invariant]
    spec fn distinct(&self) -> bool {
        texts(self.items@).no_duplicates()
    }

    /// The empty set.
    pub fn new() -> (r: Self)
        ensures
            r@ == Set::<Seq<char>>::empty(),
    {
        let r = TextSet { items: Vec::new() };
        assert(texts(r.items@).to_set() =~= Set::<Seq<char>>::empty());
        r
    }

    /// Whether `text` is a member.
    pub fn contains(&self, text: &String) -> (r: bool)
        ensures
            r == self@.contains(text@),
    {
        let mut i: usize = 0;
        while i < self.items.len()
            invariant
                0 <= i <= self.items.len(),
                forall|j: int| 0 <= j < i ==> texts(self.items@)[j] != text@,
            decreases self.items.len() - i,
        {
            if self.items[i] == *text {
                assert(texts(self.items@)[i as int] == text@);
                return true;
            }
            i += 1;
        }
        false
    }

    /// The set with `text` added.
    pub fn with(self, text: String) -> (r: Self)
        ensures
            r@ == self@.insert(text@),
    {
        proof {
            use_type_invariant(&self);
        }
        if self.contains(&text) {
            assert(self@.insert(text@) =~= self@);
            self
        } else {
            let mut items = self.items;
            let ghost before = texts(items@);
            items.push(text);
            proof {
                assert(texts(items@) =~= before.push(text@));
                before.lemma_push_to_set_commute(text@);
            }
            TextSet { items }
        }
    }

    /// The set that holds `text` and nothing else.
    pub fn singleton(text: String) -> (r: Self)
        ensures
            r@ == set![text@],
    {
        let r = TextSet::new().with(text);
        assert(r@ =~= set![text@]);
        r
    }

    /// How many texts the set holds.
    pub fn len(&self) -> (r: usize)
        ensures
            r == self@.len(),
    {
        proof {
            use_type_invariant(self);
            texts(self.items@).unique_seq_to_set();
        }
        self.items.len()
    }

    /// The texts of `self` and of `other` together.
    pub fn union(&self, other: &Self) -> (r: Self)
        ensures
            r@ == self@.union(other@),
    {
        let mut r = TextSet::new();
        let mut i: usize = 0;
        while i < self.items.len()
            invariant
                0 <= i <= self.items.len(),
                r@ == texts(self.items@).take(i as int).to_set(),
            decreases self.items.len() - i,
        {
            r = r.with(self.items[i].clone());
            proof {
                let all = texts(self.items@);
                assert(all.take(i + 1) =~= all.take(i as int).push(all[i as int]));
                all.take(i as int).lemma_push_to_set_commute(all[i as int]);
            }
            i += 1;
        }
        assert(texts(self.items@).take(i as int) =~= texts(self.items@));
        let mut k: usize = 0;
        while k < other.items.len()
            invariant
                0 <= k <= other.items.len(),
                r@ == self@.union(texts(other.items@).take(k as int).to_set()),
            decreases other.items.len() - k,
        {
            r = r.with(other.items[k].clone());
            proof {
                let all = texts(other.items@);
                assert(all.take(k + 1) =~= all.take(k as int).push(all[k as int]));
                all.take(k as int).lemma_push_to_set_commute(all[k as int]);
                assert(self@.union(all.take(k as int).to_set()).insert(all[k as int])
                    =~= self@.union(all.take(k + 1).to_set()));
            }
            k += 1;
        }
        assert(texts(other.items@).take(k as int) =~= texts(other.items@));
        r
    }
}

} // verus!
