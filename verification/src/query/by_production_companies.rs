use crate::data::Movie;
use crate::data::MovieView;
use crate::date::Date;
use crate::id_set::copy_of;
use crate::id_set::union_of;
use crate::query::added;
use crate::query::slot_of;
use crate::query::twelve_slots;
use crate::query::ById;
use crate::query::IndexView;
use crate::text_set::TextSet;
use std::collections::HashSet;
use std::rc::Rc;
use vstd::prelude::*;

verus! {

/// Which movies and genres stand behind a company's figures.
#[allow(non_snake_case)]
#[derive(Debug)]
pub struct ProdCompanyMetadata {
    movieIds: TextSet,
    genreIds: HashSet<i64>,
}

/// One production company's figures for one period.
#[derive(Debug)]
pub struct ProdCompanyDetails {
    id: i64,
    date: Date,
    budget: i64,
    profit: i64,
    revenue: i64,
    metadata: ProdCompanyMetadata,
}

/// What a [`ProdCompanyMetadata`] holds, as mathematical sets.
#[verifier::ext_equal]
pub struct MetadataView {
    pub movie_ids: Set<Seq<char>>,
    pub genre_ids: Set<i64>,
}

/// What a [`ProdCompanyDetails`] holds, as mathematical values.
#[verifier::ext_equal]
pub struct DetailsView {
    pub id: i64,
    pub date: Date,
    pub budget: int,
    pub profit: int,
    pub revenue: int,
    pub metadata: MetadataView,
}

impl MetadataView {
    /// Both sides' movies and genres together.
    pub open spec fn merged(self, other: MetadataView) -> MetadataView {
        MetadataView {
            movie_ids: self.movie_ids.union(other.movie_ids),
            genre_ids: self.genre_ids.union(other.genre_ids),
        }
    }
}

impl DetailsView {
    /// The record that stands for `self` and `other` together: the key of
    /// `self`, the figures added up, the metadata united.
    pub open spec fn merged(self, other: DetailsView) -> DetailsView {
        DetailsView {
            id: self.id,
            date: self.date,
            budget: self.budget + other.budget,
            profit: self.profit + other.profit,
            revenue: self.revenue + other.revenue,
            metadata: self.metadata.merged(other.metadata),
        }
    }

    /// Every figure fits the machine integer that stores it.
    pub open spec fn representable(self) -> bool {
        &&& i64::MIN <= self.budget <= i64::MAX
        &&& i64::MIN <= self.profit <= i64::MAX
        &&& i64::MIN <= self.revenue <= i64::MAX
    }
}

/// Merging does not depend on the order of its operands: the figures and
/// the metadata of `a` merged with `b` are those of `b` merged with `a`, and
/// where the two agree on id and date, as records of one key do, the whole
/// results are equal.
pub proof fn lemma_merge_commutes(a: DetailsView, b: DetailsView)
    ensures
        a.merged(b).budget == b.merged(a).budget,
        a.merged(b).profit == b.merged(a).profit,
        a.merged(b).revenue == b.merged(a).revenue,
        a.merged(b).metadata == b.merged(a).metadata,
        a.id == b.id && a.date == b.date ==> a.merged(b) == b.merged(a),
{
    assert(a.merged(b).metadata =~~= b.merged(a).metadata);
    if a.id == b.id && a.date == b.date {
        assert(a.merged(b) =~~= b.merged(a));
    }
}

/// Merging does not depend on how its operands are grouped.
pub proof fn lemma_merge_associates(a: DetailsView, b: DetailsView, c: DetailsView)
    ensures
        a.merged(b).merged(c) == a.merged(b.merged(c)),
{
    assert(a.merged(b).merged(c) =~~= a.merged(b.merged(c)));
}

/// What has been merged into a record may arrive in either order.
pub proof fn lemma_merge_order(e: DetailsView, a: DetailsView, b: DetailsView)
    ensures
        e.merged(a).merged(b) == e.merged(b).merged(a),
{
    assert(e.merged(a).merged(b) =~~= e.merged(b).merged(a));
}

impl View for ProdCompanyMetadata {
    type V = MetadataView;

    closed spec fn view(&self) -> MetadataView {
        MetadataView { movie_ids: self.movieIds@, genre_ids: self.genreIds@ }
    }
}

impl View for ProdCompanyDetails {
    type V = DetailsView;

    closed spec fn view(&self) -> DetailsView {
        DetailsView {
            id: self.id,
            date: self.date,
            budget: self.budget as int,
            profit: self.profit as int,
            revenue: self.revenue as int,
            metadata: self.metadata@,
        }
    }
}

/// The record that a movie contributes to one of its companies: the
/// movie's date and figures, with the movie itself as the only contributor.
pub open spec fn detail_for(movie: MovieView, company: i64) -> DetailsView {
    DetailsView {
        id: company,
        date: movie.release_date,
        budget: movie.budget,
        profit: movie.profit,
        revenue: movie.revenue,
        metadata: MetadataView { movie_ids: set![movie.id], genre_ids: movie.genres },
    }
}

/// The views of a list of records.
pub open spec fn views(details: Seq<Rc<ProdCompanyDetails>>) -> Seq<DetailsView> {
    details.map_values(|d: Rc<ProdCompanyDetails>| d@)
}

/// `details` is the fan-out of `movie`: one record for each of its
/// companies, each company once, in some order.
pub open spec fn fans_out(movie: MovieView, details: Seq<DetailsView>) -> bool {
    exists|companies: Seq<i64>|
        {
            &&& #[trigger] companies.no_duplicates()
            &&& companies.to_set() == movie.production_companies
            &&& details == companies.map_values(|c: i64| detail_for(movie, c))
        }
}

/// Expands a movie into one record per production company. A movie without
/// companies gives no record.
pub fn movie_to_details(value: &Movie) -> (r: Vec<Rc<ProdCompanyDetails>>)
    ensures
        fans_out(value@, views(r@)),
        r@.len() == value@.production_companies.len(),
{
    let mut out: Vec<Rc<ProdCompanyDetails>> = Vec::new();
    let ghost mut companies: Seq<i64> = Seq::empty();
    for prod in it: value.production_companies.iter()
        invariant
            it.seq().no_duplicates(),
            it.seq().unref().to_set() == value.production_companies@,
            it.seq().len() == value.production_companies@.len(),
            it.seq().unref().take(it.seq().len() as int) == it.seq().unref(),
            companies == it.seq().unref().take(it.index()),
            views(out@) == companies.map_values(|c: i64| detail_for(value@, c)),
    {
        let detail = ProdCompanyDetails {
            id: *prod,
            date: value.release_date,
            budget: value.budget,
            profit: value.profit,
            revenue: value.revenue,
            metadata: ProdCompanyMetadata {
                movieIds: TextSet::singleton(value.id.clone()),
                genreIds: copy_of(&value.genres),
            },
        };
        proof {
            assert(detail@ =~~= detail_for(value@, *prod));
            let all = it.seq().unref();
            assert(all.take(it.index() + 1) =~= companies.push(*prod));
        }
        let ghost before = views(out@);
        out.push(Rc::new(detail));
        proof {
            assert(views(out@) =~= before.push(detail@));
            assert(companies.push(*prod).map_values(|c: i64| detail_for(value@, c)) =~= before.push(
                detail_for(value@, *prod),
            ));
            companies = companies.push(*prod);
        }
    }
    assert(companies.no_duplicates());
    out
}

impl ProdCompanyMetadata {
    /// The movies behind the figures.
    pub fn movie_ids(&self) -> (r: &TextSet)
        ensures
            r@ == self@.movie_ids,
    {
        &self.movieIds
    }

    /// The genres of those movies.
    pub fn genre_ids(&self) -> (r: &HashSet<i64>)
        ensures
            r@ == self@.genre_ids,
    {
        &self.genreIds
    }
}

impl ProdCompanyDetails {
    pub fn budget(&self) -> (r: i64)
        ensures
            r == self@.budget,
    {
        self.budget
    }

    pub fn profit(&self) -> (r: i64)
        ensures
            r == self@.profit,
    {
        self.profit
    }

    pub fn revenue(&self) -> (r: i64)
        ensures
            r == self@.revenue,
    {
        self.revenue
    }

    pub fn metadata(&self) -> (r: &ProdCompanyMetadata)
        ensures
            r@ == self@.metadata,
    {
        &self.metadata
    }

    /// Whether `self` and `other` can be summed without leaving the range
    /// of the figures.
    pub fn sum_fits(&self, other: &Self) -> (r: bool)
        ensures
            r == self.can_sum(other),
    {
        fits(self.budget, other.budget) && fits(self.profit, other.profit) && fits(
            self.revenue,
            other.revenue,
        )
    }
}

fn fits(a: i64, b: i64) -> (r: bool)
    ensures
        r == (i64::MIN <= a + b <= i64::MAX),
{
    let wide: i128 = a as i128 + b as i128;
    i64::MIN as i128 <= wide && wide <= i64::MAX as i128
}

impl Clone for ProdCompanyMetadata {
    fn clone(&self) -> (r: Self)
        ensures
            r@ == self@,
    {
        ProdCompanyMetadata {
            movieIds: self.movieIds.clone(),
            genreIds: copy_of(&self.genreIds),
        }
    }
}

impl Clone for ProdCompanyDetails {
    fn clone(&self) -> (r: Self)
        ensures
            r@ == self@,
    {
        ProdCompanyDetails {
            id: self.id,
            date: self.date,
            budget: self.budget,
            profit: self.profit,
            revenue: self.revenue,
            metadata: self.metadata.clone(),
        }
    }
}

impl ById for ProdCompanyDetails {
    open spec fn spec_id(&self) -> i64 {
        self@.id
    }

    open spec fn spec_date(&self) -> Date {
        self@.date
    }

    open spec fn can_sum(&self, other: &Self) -> bool {
        self@.merged(other@).representable()
    }

    open spec fn is_sum(&self, other: &Self, sum: &Self) -> bool {
        sum@ == self@.merged(other@)
    }

    fn id(&self) -> i64 {
        self.id
    }

    fn date(&self) -> &Date {
        &self.date
    }

    fn sum(&self, other: &Self) -> Rc<Self> {
        let details = ProdCompanyDetails {
            id: self.id,
            date: self.date,
            budget: self.budget + other.budget,
            profit: self.profit + other.profit,
            revenue: self.revenue + other.revenue,
            metadata: ProdCompanyMetadata {
                movieIds: self.metadata.movieIds.union(&other.metadata.movieIds),
                genreIds: union_of(&self.metadata.genreIds, &other.metadata.genreIds),
            },
        };
        Rc::new(details)
    }
}

/// Two records of one company that go to the same year and month, added to
/// an index that has none for that company there, leave one record in its
/// place: the first merged with the second, so that budget, profit and
/// revenue are the sums of the two and the movie and genre ids the unions.
pub proof fn lemma_same_key_merges(
    before: IndexView<ProdCompanyDetails>,
    a: &ProdCompanyDetails,
    mid: IndexView<ProdCompanyDetails>,
    b: &ProdCompanyDetails,
    after: IndexView<ProdCompanyDetails>,
)
    requires
        twelve_slots(before),
        !slot_of(before, a.spec_date()).contains_key(a.spec_id()),
        added(before, a, mid),
        added(mid, b, after),
        a.spec_id() == b.spec_id(),
        a.spec_date().year == b.spec_date().year,
        a.spec_date().month_slot() == b.spec_date().month_slot(),
    ensures
        slot_of(after, a.spec_date()).dom() == slot_of(before, a.spec_date()).dom().insert(
            a.spec_id(),
        ),
        slot_of(after, a.spec_date())[a.spec_id()]@ == a@.merged(b@),
        slot_of(after, a.spec_date())[a.spec_id()]@.budget == a@.budget + b@.budget,
        slot_of(after, a.spec_date())[a.spec_id()]@.profit == a@.profit + b@.profit,
        slot_of(after, a.spec_date())[a.spec_id()]@.revenue == a@.revenue + b@.revenue,
        slot_of(after, a.spec_date())[a.spec_id()]@.metadata.movie_ids
            == a@.metadata.movie_ids.union(b@.metadata.movie_ids),
{
    let date = a.spec_date();
    assert(slot_of(after, date).dom() =~= slot_of(before, date).dom().insert(a.spec_id()));
}

/// The order in which two records of one company, year and month arrive does
/// not show in what the index then holds for them. Where the place was free
/// before, the merged record is filed under the date of the first arrival,
/// so the two must agree on the date, as records of one key do.
pub proof fn lemma_arrival_order(
    before: IndexView<ProdCompanyDetails>,
    a: &ProdCompanyDetails,
    b: &ProdCompanyDetails,
    after_a: IndexView<ProdCompanyDetails>,
    after_a_b: IndexView<ProdCompanyDetails>,
    after_b: IndexView<ProdCompanyDetails>,
    after_b_a: IndexView<ProdCompanyDetails>,
)
    requires
        twelve_slots(before),
        a.spec_id() == b.spec_id(),
        a.spec_date().year == b.spec_date().year,
        a.spec_date().month_slot() == b.spec_date().month_slot(),
        slot_of(before, a.spec_date()).contains_key(a.spec_id()) || a.spec_date() == b.spec_date(),
        added(before, a, after_a),
        added(after_a, b, after_a_b),
        added(before, b, after_b),
        added(after_b, a, after_b_a),
    ensures
        after_a_b.dom() == after_b_a.dom(),
        slot_of(after_a_b, a.spec_date()).dom() == slot_of(after_b_a, a.spec_date()).dom(),
        slot_of(after_a_b, a.spec_date())[a.spec_id()]@ == slot_of(after_b_a, a.spec_date())[
            a.spec_id()
        ]@,
{
    let date = a.spec_date();
    let id = a.spec_id();
    assert(after_a_b.dom() =~= after_b_a.dom());
    assert(slot_of(after_a_b, date).dom() =~= slot_of(after_b_a, date).dom());
    if slot_of(before, date).contains_key(id) {
        lemma_merge_order(slot_of(before, date)[id]@, a@, b@);
    } else {
        lemma_merge_commutes(a@, b@);
    }
}

} // verus!
