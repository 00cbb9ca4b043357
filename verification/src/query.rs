use crate::date::Date;
use std::collections::BTreeMap;
use std::collections::HashMap;
use std::rc::Rc;
use vstd::prelude::*;

verus! {

/// A record that the index can file: it names the entity and the date it
/// belongs to, and two records of one entity and period can be summed.
///
/// The four `spec` functions are the record's model; the contracts of the
/// index are stated over them. An implementation that is not verified
/// writes them as ordinary functions.
pub trait ById: Sized {
    /// The entity the record is about.
    spec fn spec_id(&self) -> i64;

    /// The date the record is filed under.
    spec fn spec_date(&self) -> Date;

    /// The sum of `self` and `other` can be represented.
    spec fn can_sum(&self, other: &Self) -> bool;

    /// `sum` is what `self` and `other` add up to.
    spec fn is_sum(&self, other: &Self, sum: &Self) -> bool;

    fn id(&self) -> (r: i64)
        ensures
            r == self.spec_id(),
    ;

    fn date(&self) -> (r: &Date)
        ensures
            *r == self.spec_date(),
    ;

    /// A new record for `self` and `other` together, filed where `self`
    /// is; neither operand changes.
    fn sum(&self, other: &Self) -> (r: Rc<Self>)
        requires
            self.can_sum(other),
        ensures
            self.is_sum(other, &*r),
            r.spec_id() == self.spec_id(),
            r.spec_date() == self.spec_date(),
    ;
}

/// The index: year, then twelve month slots, then entity id.
pub type BucketYearMap<T> = BTreeMap<i32, [HashMap<i64, Rc<T>>; 12]>;

/// One month of the index, as contracts see it: entity id to record.
pub type SlotView<T> = Map<i64, Rc<T>>;

/// The index as contracts see it: year to twelve slots.
pub type IndexView<T> = Map<i32, Seq<SlotView<T>>>;

/// The sparse report: year to the record lists of its months that have any.
pub type BucketYearMapFlattned<T> = BTreeMap<i32, Vec<Vec<Rc<T>>>>;

/// The twelve slots of one year.
pub open spec fn months_view<T>(months: [HashMap<i64, Rc<T>>; 12]) -> Seq<SlotView<T>> {
    Seq::new(12, |m: int| months@[m]@)
}

/// The whole index.
pub open spec fn index_view<T>(map: BucketYearMap<T>) -> IndexView<T> {
    Map::new(|y: i32| map@.contains_key(y), |y: i32| months_view(map@[y]))
}

/// Twelve slots with nothing in them.
pub open spec fn empty_year<T>() -> Seq<SlotView<T>> {
    Seq::new(12, |m: int| Map::<i64, Rc<T>>::empty())
}

/// The slots of `year`, which are empty where the index has not seen the year.
pub open spec fn year_slots<T>(idx: IndexView<T>, year: i32) -> Seq<SlotView<T>> {
    if idx.contains_key(year) {
        idx[year]
    } else {
        empty_year()
    }
}

/// The slot that `date` belongs to.
pub open spec fn slot_of<T>(idx: IndexView<T>, date: Date) -> SlotView<T> {
    year_slots(idx, date.year)[date.month_slot()]
}

/// The record that already stands where `detail` would be filed.
pub open spec fn colliding<T: ById>(idx: IndexView<T>, detail: &T) -> Option<Rc<T>> {
    let slot = slot_of(idx, detail.spec_date());
    if slot.contains_key(detail.spec_id()) {
        Some(slot[detail.spec_id()])
    } else {
        None
    }
}

/// `idx` with `rec` put under (`date`'s year, `date`'s month slot, `id`), the
/// year getting its twelve slots if it had none.
pub open spec fn with_record<T>(idx: IndexView<T>, date: Date, id: i64, rec: Rc<T>) -> IndexView<
    T,
> {
    let slots = year_slots(idx, date.year);
    idx.insert(date.year, slots.update(date.month_slot(), slots[date.month_slot()].insert(id, rec)))
}

/// `rec` is what filing `detail` leaves under its id in a slot that held
/// `slot` before: `detail` itself where the id was free, else the sum of the
/// record that was there and `detail`.
pub open spec fn filed<T: ById>(slot: SlotView<T>, detail: &T, rec: &T) -> bool {
    if slot.contains_key(detail.spec_id()) {
        let existing = slot[detail.spec_id()];
        &&& existing.is_sum(detail, rec)
        &&& rec.spec_id() == existing.spec_id()
        &&& rec.spec_date() == existing.spec_date()
    } else {
        rec == detail
    }
}

/// `after` is `before` with `detail` added: one record, under `detail`'s
/// key, is new or replaced, and it is what [`filed`] says.
pub open spec fn added<T: ById>(before: IndexView<T>, detail: &T, after: IndexView<T>) -> bool {
    let date = detail.spec_date();
    let rec = slot_of(after, date)[detail.spec_id()];
    &&& after == with_record(before, date, detail.spec_id(), rec)
    &&& filed(slot_of(before, date), detail, &*rec)
}

/// Every record stands under its own id, year and month slot.
pub open spec fn filed_by_key<T: ById>(idx: IndexView<T>) -> bool {
    forall|y: i32, m: int, id: i64|
        idx.contains_key(y) && 0 <= m < 12 && #[trigger] idx[y][m].contains_key(id) ==> {
            &&& idx[y][m][id].spec_id() == id
            &&& idx[y][m][id].spec_date().year == y
            &&& idx[y][m][id].spec_date().month_slot() == m
        }
}

/// Every year has its twelve slots.
pub open spec fn twelve_slots<T>(idx: IndexView<T>) -> bool {
    forall|y: i32| idx.contains_key(y) ==> (#[trigger] idx[y]).len() == 12
}

/// `Rc::clone`: a second handle to the same record.
#[verifier::external_body]
fn share<T>(detail: &Rc<T>) -> (r: Rc<T>)
    ensures
        r == *detail,
{
    Rc::clone(detail)
}

fn upsert_details<T: ById + Clone>(map: &mut HashMap<i64, Rc<T>>, detail: &Rc<T>)
    requires
        old(map)@.contains_key(detail.spec_id()) ==> old(map)@[detail.spec_id()].can_sum(
            &**detail,
        ),
    ensures
        final(map)@ == old(map)@.insert(detail.spec_id(), final(map)@[detail.spec_id()]),
        filed(old(map)@, &**detail, &*final(map)@[detail.spec_id()]),
{
    let id: i64 = detail.id();
    let merged = match map.get(&id) {
        Some(existing) => existing.sum(detail),
        None => share(detail),
    };
    map.insert(id, merged);
}

fn empty_months<T>() -> (r: [HashMap<i64, Rc<T>>; 12])
    ensures
        months_view(r) == empty_year::<T>(),
{
    let r = [
        HashMap::new(),
        HashMap::new(),
        HashMap::new(),
        HashMap::new(),
        HashMap::new(),
        HashMap::new(),
        HashMap::new(),
        HashMap::new(),
        HashMap::new(),
        HashMap::new(),
        HashMap::new(),
        HashMap::new(),
    ];
    assert(months_view(r) =~= empty_year::<T>());
    r
}

/// Looks up the record that `detail` would be merged into.
pub fn find_colliding<'a, T: ById>(map: &'a BucketYearMap<T>, detail: &T) -> (r: Option<
    &'a Rc<T>,
>)
    ensures
        match r {
            Some(existing) => colliding(index_view(*map), detail) == Some(*existing),
            None => colliding(index_view(*map), detail) is None,
        },
{
    let date = detail.date();
    match map.get(&date.year) {
        Some(months) => months[date.month_index()].get(&detail.id()),
        None => None,
    }
}

/// Files `detail` in the index: under its year (which gets its twelve month
/// slots if it is new), its month slot and its id. Where that place is
/// taken, the record there is replaced by its sum with `detail`.
pub fn add_detail<'a, T: ById + Clone>(map: &'a mut BucketYearMap<T>, detail: &Rc<T>) -> (r:
    &'a mut BucketYearMap<T>)
    requires
        colliding(index_view(*old(map)), &**detail) matches Some(existing) ==> existing.can_sum(
            &**detail,
        ),
    ensures
        added(index_view(*old(map)), &**detail, index_view(*r)),
        filed_by_key(index_view(*old(map))) ==> filed_by_key(index_view(*r)),
        *final(map) == *final(r),
{
    let year: i32 = detail.date().year;
    let month: usize = detail.date().month_index();
    let mut months = match map.remove(&year) {
        Some(months) => months,
        None => empty_months(),
    };
    upsert_details(&mut months[month], detail);
    map.insert(year, months);
    proof {
        let before = index_view(*old(map));
        let after = index_view(*map);
        let date = detail.spec_date();
        let rec = slot_of(after, date)[detail.spec_id()];
        assert(after =~~= with_record(before, date, detail.spec_id(), rec));
    }
    map
}

/// The test that a month slot holds at least one record.
pub open spec fn is_occupied<T>() -> spec_fn(SlotView<T>) -> bool {
    |slot: SlotView<T>| !slot.is_empty()
}

/// The slots of a year that hold records, in month order.
pub open spec fn occupied_slots<T>(slots: Seq<SlotView<T>>) -> Seq<SlotView<T>> {
    slots.filter(is_occupied())
}

/// `list` holds the records of `slot`, each exactly once, in some order.
pub open spec fn lists_slot<T>(list: Seq<Rc<T>>, slot: SlotView<T>) -> bool {
    exists|ids: Seq<i64>|
        {
            &&& #[trigger] ids.no_duplicates()
            &&& ids.to_set() == slot.dom()
            &&& list == ids.map_values(|id: i64| slot[id])
        }
}

/// The lists of a year's report, as sequences.
pub open spec fn nested<T>(lists: Vec<Vec<Rc<T>>>) -> Seq<Seq<Rc<T>>> {
    lists@.map_values(|list: Vec<Rc<T>>| list@)
}

/// `lists` reports `slots`: one list for each occupied slot, in month order.
pub open spec fn lists_year<T>(lists: Seq<Seq<Rc<T>>>, slots: Seq<SlotView<T>>) -> bool {
    &&& lists.len() == occupied_slots(slots).len()
    &&& forall|j: int|
        0 <= j < lists.len() ==> lists_slot(#[trigger] lists[j], occupied_slots(slots)[j])
}

/// Some slot of the year holds a record.
pub open spec fn has_records<T>(slots: Seq<SlotView<T>>) -> bool {
    exists|m: int| 0 <= m < slots.len() && !(#[trigger] slots[m]).is_empty()
}

/// `flat` is the sparse report of `idx`: it has the years of `idx` in which
/// some slot is occupied, and for each of them the lists of its occupied slots.
pub open spec fn flattened<T>(idx: IndexView<T>, flat: Map<i32, Vec<Vec<Rc<T>>>>) -> bool {
    &&& forall|y: i32| #[trigger]
        flat.contains_key(y) <==> idx.contains_key(y) && has_records(idx[y])
    &&& forall|y: i32| #[trigger]
        flat.contains_key(y) ==> lists_year(nested(flat[y]), idx[y])
}

/// A year has occupied slots exactly if one of its slots holds a record.
pub proof fn lemma_occupied_slots<T>(slots: Seq<SlotView<T>>)
    ensures
        occupied_slots(slots).len() > 0 <==> has_records(slots),
{
    if occupied_slots(slots).len() > 0 {
        let first = occupied_slots(slots)[0];
        slots.lemma_filter_pred(is_occupied(), 0);
        assert(occupied_slots(slots).contains(first));
        slots.lemma_filter_contains_rev(is_occupied(), first);
        let m = choose|m: int| 0 <= m < slots.len() && slots[m] == first;
        assert(!slots[m].is_empty());
    }
    if has_records(slots) {
        let m = choose|m: int| 0 <= m < slots.len() && !(#[trigger] slots[m]).is_empty();
        slots.lemma_filter_contains(is_occupied(), m);
    }
}

/// The records of one month, in the order in which the hash map hands them out.
fn slot_records<T>(slot: &HashMap<i64, Rc<T>>) -> (r: Vec<Rc<T>>)
    ensures
        lists_slot(r@, slot@),
        r@.len() == slot@.dom().len(),
{
    let mut out: Vec<Rc<T>> = Vec::new();
    let ghost mut ids: Seq<i64> = Seq::empty();
    for kv in it: slot.iter()
        invariant
            it.seq().no_duplicates(),
            it.seq().len() == slot@.dom().len(),
            forall|i: int|
                0 <= i < it.seq().len() ==> slot@.contains_key(*(#[trigger] it.seq()[i]).0)
                    && slot@[*it.seq()[i].0] == *it.seq()[i].1,
            ids.len() == it.index(),
            out@.len() == it.index(),
            forall|i: int| 0 <= i < ids.len() ==> #[trigger] ids[i] == *it.seq()[i].0,
            forall|i: int|
                0 <= i < ids.len() ==> slot@.contains_key(#[trigger] ids[i]) && out@[i]
                    == slot@[ids[i]],
            ids.no_duplicates(),
    {
        proof {
            let n = it.index();
            assert forall|i: int| 0 <= i < n implies ids[i] != *kv.0 by {
                if ids[i] == *kv.0 {
                    assert(it.seq()[i] == it.seq()[n]);
                }
            }
            ids = ids.push(*kv.0);
        }
        out.push(share(kv.1));
    }
    proof {
        ids.unique_seq_to_set();
        assert(ids.to_set().subset_of(slot@.dom())) by {
            assert forall|k: i64| ids.to_set().contains(k) implies slot@.dom().contains(k) by {
                let i = choose|i: int| 0 <= i < ids.len() && ids[i] == k;
                assert(slot@.contains_key(ids[i]));
            }
        }
        vstd::set_lib::lemma_subset_equality(ids.to_set(), slot@.dom());
        assert(out@ =~= ids.map_values(|id: i64| slot@[id]));
    }
    out
}

/// The record lists of one year's occupied months.
fn month_lists<T>(months: &[HashMap<i64, Rc<T>>; 12]) -> (r: Vec<Vec<Rc<T>>>)
    ensures
        lists_year(nested(r), months_view(*months)),
        forall|j: int| 0 <= j < r@.len() ==> (#[trigger] r@[j])@.len() > 0,
{
    let mut out: Vec<Vec<Rc<T>>> = Vec::new();
    let ghost slots = months_view(*months);
    let mut m: usize = 0;
    while m < 12
        invariant
            0 <= m <= 12,
            slots == months_view(*months),
            lists_year(nested(out), slots.take(m as int)),
            forall|j: int| 0 <= j < out@.len() ==> (#[trigger] out@[j])@.len() > 0,
        decreases 12 - m,
    {
        proof {
            assert(slots.take(m + 1) =~= slots.take(m as int).push(slots[m as int]));
            slots.take(m as int).lemma_filter_push(slots[m as int], is_occupied());
        }
        if !months[m].is_empty() {
            let list = slot_records(&months[m]);
            proof {
                vstd::set_lib::lemma_set_empty_equivalency_len(slots[m as int].dom());
            }
            let ghost before = nested(out);
            out.push(list);
            assert(nested(out) =~= before.push(list@));
        }
        m += 1;
    }
    assert(slots.take(12) =~= slots);
    out
}

/// The sparse report of the index: the years that hold any record, in
/// increasing order, each with the record lists of its occupied months in
/// month order. Within a month the records come in the order in which the
/// hash map hands them out. The index is only read.
pub fn flatten_bucket_year_map<T>(map: &BucketYearMap<T>) -> (r: BucketYearMapFlattned<T>)
    ensures
        flattened(index_view(*map), r@),
        forall|y: i32| #[trigger] r@.contains_key(y) ==> r@[y]@.len() > 0,
        forall|y: i32, j: int|
            r@.contains_key(y) && 0 <= j < r@[y]@.len() ==> (#[trigger] r@[y]@[j])@.len() > 0,
{
    let mut out: BucketYearMapFlattned<T> = BTreeMap::new();
    let ghost mut years: Seq<i32> = Seq::empty();
    for entry in it: map.iter()
        invariant
            it.seq().len() == map@.dom().len(),
            forall|i: int|
                0 <= i < it.seq().len() ==> map@.contains_key(*(#[trigger] it.seq()[i]).0)
                    && map@[*it.seq()[i].0] == *it.seq()[i].1,
            years.len() == it.index(),
            forall|i: int| 0 <= i < years.len() ==> #[trigger] years[i] == *it.seq()[i].0,
            forall|i: int| 0 <= i < years.len() ==> map@.contains_key(#[trigger] years[i]),
            years.no_duplicates(),
            it.seq().no_duplicates(),
            forall|y: i32| #[trigger]
                out@.contains_key(y) <==> years.contains(y) && has_records(index_view(*map)[y]),
            forall|y: i32| #[trigger]
                out@.contains_key(y) ==> lists_year(nested(out@[y]), index_view(*map)[y]),
            forall|y: i32| #[trigger] out@.contains_key(y) ==> out@[y]@.len() > 0,
            forall|y: i32, j: int|
                out@.contains_key(y) && 0 <= j < out@[y]@.len() ==> (#[trigger] out@[y]@[j])@.len()
                    > 0,
    {
        let year: i32 = *entry.0;
        let lists = month_lists(entry.1);
        proof {
            lemma_occupied_slots(index_view(*map)[year]);
            let n = it.index();
            assert forall|i: int| 0 <= i < n implies years[i] != year by {
                if years[i] == year {
                    assert(it.seq()[i] == it.seq()[n]);
                }
            }
            assert(years.push(year).contains(year)) by {
                assert(years.push(year)[n] == year);
            }
            assert forall|y: i32| years.push(year).contains(y) <==> years.contains(y) || y
                == year by {
                if years.contains(y) {
                    let i = choose|i: int| 0 <= i < years.len() && years[i] == y;
                    assert(years.push(year)[i] == y);
                }
            }
            years = years.push(year);
        }
        if lists.len() > 0 {
            out.insert(year, lists);
        }
    }
    proof {
        years.unique_seq_to_set();
        assert(years.to_set().subset_of(map@.dom())) by {
            assert forall|y: i32| years.to_set().contains(y) implies map@.dom().contains(y) by {
                let i = choose|i: int| 0 <= i < years.len() && years[i] == y;
                assert(map@.contains_key(years[i]));
            }
        }
        vstd::set_lib::lemma_subset_equality(years.to_set(), map@.dom());
        assert forall|y: i32| map@.contains_key(y) implies years.contains(y) by {
            assert(years.to_set().contains(y));
        }
    }
    out
}

/// A record added to an empty index stands alone: the index has one year,
/// that year has twelve slots, and exactly one of them is occupied, by the
/// record itself.
pub proof fn lemma_first_record<T: ById>(detail: &T, after: IndexView<T>)
    requires
        added(Map::empty(), detail, after),
    ensures
        after.dom() == set![detail.spec_date().year],
        after[detail.spec_date().year].len() == 12,
        slot_of(after, detail.spec_date()) == map![detail.spec_id() => Rc::new(*detail)],
        forall|m: int|
            0 <= m < 12 ==> ((#[trigger] after[detail.spec_date().year][m]).is_empty() <==> m
                != detail.spec_date().month_slot()),
{
    let date = detail.spec_date();
    let slot = after[date.year][date.month_slot()];
    assert(after.dom() =~= set![date.year]);
    assert(slot =~= map![detail.spec_id() => Rc::new(*detail)]);
    assert(slot.dom().contains(detail.spec_id()));
    assert forall|m: int| 0 <= m < 12 && m != date.month_slot() implies (
    #[trigger] after[date.year][m]).is_empty() by {
        assert(after[date.year][m] =~= Map::<i64, Rc<T>>::empty());
    }
}

/// Two records of one id that go to the same year and month of an empty
/// index leave one record, not two, and the second does not overwrite the
/// first: the index has one year, eleven of its slots are empty, and the
/// twelfth holds one key, under which stands the sum of the first record
/// and the second.
pub proof fn lemma_same_key_one_record<T: ById>(
    a: &T,
    mid: IndexView<T>,
    b: &T,
    after: IndexView<T>,
)
    requires
        added(Map::empty(), a, mid),
        added(mid, b, after),
        a.spec_id() == b.spec_id(),
        a.spec_date().year == b.spec_date().year,
        a.spec_date().month_slot() == b.spec_date().month_slot(),
    ensures
        after.dom() == set![a.spec_date().year],
        after[a.spec_date().year].len() == 12,
        slot_of(after, a.spec_date()).dom() == set![a.spec_id()],
        a.is_sum(b, &*slot_of(after, a.spec_date())[a.spec_id()]),
        forall|m: int|
            0 <= m < 12 ==> ((#[trigger] after[a.spec_date().year][m]).is_empty() <==> m
                != a.spec_date().month_slot()),
{
    let date = a.spec_date();
    lemma_first_record(a, mid);
    assert(after.dom() =~= set![date.year]);
    assert(slot_of(after, date).dom() =~= set![a.spec_id()]);
    assert(slot_of(after, date).dom().contains(a.spec_id()));
    assert forall|m: int| 0 <= m < 12 && m != date.month_slot() implies (
    #[trigger] after[date.year][m]).is_empty() by {
        assert(mid[date.year][m].is_empty());
        assert(after[date.year][m] =~= mid[date.year][m]);
    }
}

/// Adding a record removes nothing: every year stays, and every place that
/// held a record still holds one.
pub proof fn lemma_index_grows<T: ById>(before: IndexView<T>, detail: &T, after: IndexView<T>)
    requires
        twelve_slots(before),
        added(before, detail, after),
    ensures
        twelve_slots(after),
        before.dom().subset_of(after.dom()),
        forall|y: i32, m: int, id: i64|
            before.contains_key(y) && 0 <= m < 12 && #[trigger] before[y][m].contains_key(id)
                ==> after[y][m].contains_key(id),
        forall|y: i32, m: int, id: i64|
            before.contains_key(y) && 0 <= m < 12 && #[trigger] before[y][m].contains_key(id) && (y
                != detail.spec_date().year || m != detail.spec_date().month_slot() || id
                != detail.spec_id()) ==> after[y][m][id] == before[y][m][id],
{
}

/// Two records with different ids that go to the same year and month do not
/// touch each other: adding the second leaves the first's record as it was,
/// and the second is filed as it would have been without the first.
pub proof fn lemma_other_id_untouched<T: ById>(
    before: IndexView<T>,
    a: &T,
    mid: IndexView<T>,
    b: &T,
    after: IndexView<T>,
)
    requires
        twelve_slots(before),
        added(before, a, mid),
        added(mid, b, after),
        a.spec_id() != b.spec_id(),
        a.spec_date().year == b.spec_date().year,
        a.spec_date().month_slot() == b.spec_date().month_slot(),
    ensures
        slot_of(after, a.spec_date()).dom() == slot_of(before, a.spec_date()).dom().insert(
            a.spec_id(),
        ).insert(b.spec_id()),
        slot_of(after, a.spec_date())[a.spec_id()] == slot_of(mid, a.spec_date())[a.spec_id()],
        filed(slot_of(before, a.spec_date()), a, &*slot_of(after, a.spec_date())[a.spec_id()]),
        filed(slot_of(before, b.spec_date()), b, &*slot_of(after, b.spec_date())[b.spec_id()]),
        !before.contains_key(a.spec_date().year) ==> slot_of(after, a.spec_date()) == map![
            a.spec_id() => Rc::new(*a),
            b.spec_id() => Rc::new(*b)
        ],
{
    let date = a.spec_date();
    assert(slot_of(after, date).dom() =~= slot_of(before, date).dom().insert(a.spec_id()).insert(
        b.spec_id(),
    ));
    if !before.contains_key(date.year) {
        assert(slot_of(after, date) =~= map![
            a.spec_id() => Rc::new(*a),
            b.spec_id() => Rc::new(*b)
        ]);
    }
}

} // verus!

pub mod by_production_companies;
