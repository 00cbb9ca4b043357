use std::collections::HashSet;
use vstd::prelude::*;

verus! {

/// A set with the same identifiers as `ids`.
pub fn copy_of(ids: &HashSet<i64>) -> (r: HashSet<i64>)
    ensures
        r@ == ids@,
{
    let mut r: HashSet<i64> = HashSet::new();
    for id in it: ids.iter()
        invariant
            r@ == it.seq().unref().take(it.index()).to_set(),
            it.seq().unref().take(it.seq().len() as int) == it.seq().unref(),
            it.seq().unref().to_set() == ids@,
    {
        proof {
            let all = it.seq().unref();
            assert(all.take(it.index() + 1) =~= all.take(it.index()).push(*id));
            all.take(it.index()).lemma_push_to_set_commute(*id);
        }
        r.insert(*id);
    }
    r
}

/// The identifiers of `a` and of `b` together.
pub fn union_of(a: &HashSet<i64>, b: &HashSet<i64>) -> (r: HashSet<i64>)
    ensures
        r@ == a@.union(b@),
{
    let mut r = copy_of(a);
    for id in it: b.iter()
        invariant
            r@ == a@.union(it.seq().unref().take(it.index()).to_set()),
            it.seq().unref().take(it.seq().len() as int) == it.seq().unref(),
            it.seq().unref().to_set() == b@,
    {
        proof {
            let all = it.seq().unref();
            assert(all.take(it.index() + 1) =~= all.take(it.index()).push(*id));
            all.take(it.index()).lemma_push_to_set_commute(*id);
            assert(a@.union(all.take(it.index()).to_set()).insert(*id) =~= a@.union(
                all.take(it.index() + 1).to_set(),
            ));
        }
        r.insert(*id);
    }
    r
}

} // verus!
