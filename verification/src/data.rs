use crate::config::Config;
use crate::date::Date;
use crate::parsing::MovieRowRaw;
use std::collections::HashSet;
use vstd::prelude::*;

verus! {

/// A title that passed validation, with its identifier sets decoded.
#[derive(Debug)]
pub struct Movie {
    pub id: String,
    pub genres: HashSet<i64>,
    pub production_companies: HashSet<i64>,
    pub release_date: Date,
    pub budget: i64,
    pub revenue: i64,
    pub profit: i64,
    pub status: Status,
}

/// What a [`Movie`] holds, as mathematical values.
#[verifier::ext_equal]
pub struct MovieView {
    pub id: Seq<char>,
    pub genres: Set<i64>,
    pub production_companies: Set<i64>,
    pub release_date: Date,
    pub budget: int,
    pub revenue: int,
    pub profit: int,
    pub status: Status,
}

impl View for Movie {
    type V = MovieView;

    open spec fn view(&self) -> MovieView {
        MovieView {
            id: self.id@,
            genres: self.genres@,
            production_companies: self.production_companies@,
            release_date: self.release_date,
            budget: self.budget as int,
            revenue: self.revenue as int,
            profit: self.profit as int,
            status: self.status,
        }
    }
}

impl MovieView {
    /// What validation guarantees of a movie: it is released, earned
    /// something, and its profit is revenue less budget.
    pub open spec fn admitted(self) -> bool {
        &&& self.status == Status::Released
        &&& self.revenue > 0
        &&& self.profit == self.revenue - self.budget
    }
}

/// Release status of a title, reduced to the one distinction the pipeline makes.
#[derive(PartialEq, Eq, Debug, Hash, Clone, Copy, Structural)]
pub enum Status {
    Released,
    Other,
}

/// `c` is the letter whose lower-case form is `lower` and upper-case form is `upper`.
pub open spec fn is_letter(c: char, lower: char, upper: char) -> bool {
    c == lower || c == upper
}

/// The text spells "released", each letter in either case.
pub open spec fn spells_released(s: Seq<char>) -> bool {
    &&& s.len() == 8
    &&& is_letter(s[0], 'r', 'R')
    &&& is_letter(s[1], 'e', 'E')
    &&& is_letter(s[2], 'l', 'L')
    &&& is_letter(s[3], 'e', 'E')
    &&& is_letter(s[4], 'a', 'A')
    &&& is_letter(s[5], 's', 'S')
    &&& is_letter(s[6], 'e', 'E')
    &&& is_letter(s[7], 'd', 'D')
}

fn letter_at(s: &str, i: usize, lower: char, upper: char) -> (r: bool)
    requires
        i < s@.len(),
    ensures
        r == is_letter(s@[i as int], lower, upper),
{
    let c = s.get_char(i);
    c == lower || c == upper
}

impl Status {
    /// The status that a text stands for.
    pub open spec fn spec_from_str(s: Seq<char>) -> Status {
        if spells_released(s) {
            Status::Released
        } else {
            Status::Other
        }
    }

    /// Reads a status from free text: "released" in any mix of cases is
    /// `Released`, everything else (the empty text included) is `Other`.
    pub fn from_str(enum_str: &str) -> (r: Status)
        ensures
            r == Status::spec_from_str(enum_str@),
    {
        if enum_str.unicode_len() != 8 {
            Status::Other
        } else if letter_at(enum_str, 0, 'r', 'R') && letter_at(enum_str, 1, 'e', 'E')
            && letter_at(enum_str, 2, 'l', 'L') && letter_at(enum_str, 3, 'e', 'E')
            && letter_at(enum_str, 4, 'a', 'A') && letter_at(enum_str, 5, 's', 'S')
            && letter_at(enum_str, 6, 'e', 'E') && letter_at(enum_str, 7, 'd', 'D') {
            Status::Released
        } else {
            Status::Other
        }
    }
}

/// The views of a list of movies.
pub open spec fn movie_views(movies: Seq<Movie>) -> Seq<MovieView> {
    movies.map_values(|m: Movie| m@)
}

/// The test that a row is admitted under a cutoff.
pub open spec fn admits(last_run: Option<Date>) -> spec_fn(MovieRowRaw) -> bool {
    |row: MovieRowRaw| row.spec_admitted(last_run)
}

/// The movies of the admitted rows, in the order of the rows.
pub open spec fn admitted_movies(rows: Seq<MovieRowRaw>, last_run: Option<Date>) -> Seq<
    MovieView,
> {
    rows.filter(admits(last_run)).map_values(|row: MovieRowRaw| row.spec_movie())
}

/// Validates the rows of a table against the run's cutoff and keeps the
/// movies of those that pass, in the order of the rows.
pub fn movies_from_rows(rows: &Vec<MovieRowRaw>, config: &Config) -> (r: Vec<Movie>)
    requires
        forall|i: int|
            0 <= i < rows@.len() && (#[trigger] rows@[i]).spec_admitted(config.last_run)
                ==> rows@[i].spec_representable(),
    ensures
        movie_views(r@) == admitted_movies(rows@, config.last_run),
        forall|i: int| 0 <= i < r@.len() ==> (#[trigger] r@[i])@.admitted(),
{
    let mut out: Vec<Movie> = Vec::new();
    let mut i: usize = 0;
    while i < rows.len()
        invariant
            0 <= i <= rows.len(),
            forall|k: int|
                0 <= k < rows@.len() && (#[trigger] rows@[k]).spec_admitted(config.last_run)
                    ==> rows@[k].spec_representable(),
            movie_views(out@) == admitted_movies(rows@.take(i as int), config.last_run),
            forall|k: int| 0 <= k < out@.len() ==> (#[trigger] out@[k])@.admitted(),
        decreases rows.len() - i,
    {
        proof {
            assert(rows@.take(i + 1) =~= rows@.take(i as int).push(rows@[i as int]));
            rows@.take(i as int).lemma_filter_push(rows@[i as int], admits(config.last_run));
        }
        let ghost before = movie_views(out@);
        match rows[i].validated_movie_row(&config.last_run) {
            Some(movie) => {
                out.push(movie);
                assert(movie_views(out@) =~= before.push(movie@));
                assert(admitted_movies(rows@.take(i + 1), config.last_run) =~= before.push(
                    rows@[i as int].spec_movie(),
                ));
            },
            None => {},
        }
        i += 1;
    }
    assert(rows@.take(i as int) =~= rows@);
    out
}

/// The statuses that the rows of a table carry, read as [`Status`].
pub open spec fn statuses_of(rows: Seq<MovieRowRaw>) -> Set<Status> {
    Set::new(
        |status: Status|
            exists|i: int|
                0 <= i < rows.len() && Status::spec_from_str((#[trigger] rows[i]).status@)
                    == status,
    )
}

/// The distinct statuses among all rows of a table, admitted or not, each
/// once.
pub fn distinct_statuses(rows: &Vec<MovieRowRaw>) -> (r: Vec<Status>)
    ensures
        r@.no_duplicates(),
        r@.to_set() == statuses_of(rows@),
{
    let mut released = false;
    let mut other = false;
    let mut i: usize = 0;
    while i < rows.len()
        invariant
            0 <= i <= rows.len(),
            released <==> statuses_of(rows@.take(i as int)).contains(Status::Released),
            other <==> statuses_of(rows@.take(i as int)).contains(Status::Other),
        decreases rows.len() - i,
    {
        let ghost seen = rows@.take(i as int);
        let ghost next = rows@.take(i + 1);
        let status = Status::from_str(rows[i].status.as_str());
        proof {
            assert(next[i as int] == rows@[i as int]);
            assert forall|st: Status| statuses_of(next).contains(st) <==> statuses_of(
                seen,
            ).contains(st) || st == status by {
                if statuses_of(seen).contains(st) {
                    let k = choose|k: int|
                        0 <= k < seen.len() && Status::spec_from_str((#[trigger] seen[k]).status@)
                            == st;
                    assert(next[k] == seen[k]);
                }
                if statuses_of(next).contains(st) {
                    let k = choose|k: int|
                        0 <= k < next.len() && Status::spec_from_str((#[trigger] next[k]).status@)
                            == st;
                    if k < i {
                        assert(seen[k] == next[k]);
                    }
                }
            }
        }
        match status {
            Status::Released => {
                released = true;
            },
            Status::Other => {
                other = true;
            },
        }
        i += 1;
    }
    assert(rows@.take(i as int) =~= rows@);
    let mut out: Vec<Status> = Vec::new();
    if released {
        out.push(Status::Released);
    }
    if other {
        out.push(Status::Other);
    }
    assert(out@.to_set() =~= statuses_of(rows@)) by {
        assert forall|st: Status| out@.to_set().contains(st) <==> statuses_of(rows@).contains(
            st,
        ) by {
            if released && st == Status::Released {
                assert(out@[0] == st);
            }
            if other && st == Status::Other {
                assert(out@[out@.len() - 1] == st);
            }
        }
    }
    out
}

} // verus!
