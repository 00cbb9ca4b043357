use crate::data::Movie;
use crate::data::MovieView;
use crate::data::Status;
use crate::date::Date;
use std::collections::HashSet;
use vstd::prelude::*;

verus! {

/// One row of the source table, its columns decoded but not yet judged.
#[derive(Debug)]
pub struct MovieRowRaw {
    pub id: String,
    pub genres: String,
    pub production_companies: String,
    pub release_date: Date,
    pub budget: i128,
    pub revenue: i128,
    pub status: String,
}

impl Clone for MovieRowRaw {
    fn clone(&self) -> (r: Self)
        ensures
            r == *self,
    {
        MovieRowRaw {
            id: self.id.clone(),
            genres: self.genres.clone(),
            production_companies: self.production_companies.clone(),
            release_date: self.release_date,
            budget: self.budget,
            revenue: self.revenue,
            status: self.status.clone(),
        }
    }
}

/// `String::push` appends one character.
pub assume_specification[ String::push ](s: &mut String, c: char)
    ensures
        final(s)@ == old(s)@.push(c),
;

/// A single quote becomes a double quote; every other character stays.
pub open spec fn straight_quote(c: char) -> char {
    if c == '\'' {
        '"'
    } else {
        c
    }
}

/// The text with every single quote turned into a double quote.
pub open spec fn spec_normalize_quotes(text: Seq<char>) -> Seq<char> {
    text.map_values(|c: char| straight_quote(c))
}

/// Turns every single quote of `text` into a double quote, so that
/// single-quoted pseudo-JSON reads as JSON.
pub fn normalize_quotes(text: &str) -> (r: String)
    ensures
        r@ == spec_normalize_quotes(text@),
{
    let mut out = String::new();
    for c in it: text.chars()
        invariant
            it.seq() == text@,
            out@ == spec_normalize_quotes(text@.take(it.index())),
    {
        proof {
            assert(text@.take(it.index() + 1) =~= text@.take(it.index()).push(c));
            assert(spec_normalize_quotes(text@.take(it.index() + 1)) =~= spec_normalize_quotes(
                text@.take(it.index()),
            ).push(straight_quote(c)));
        }
        if c == '\'' {
            out.push('"');
        } else {
            out.push(c);
        }
    }
    assert(text@.take(text@.len() as int) =~= text@);
    out
}

/// The longest run of digits that a text handed to the parser may hold. The
/// `json` crate counts the digits of a fraction in a 16-bit exponent, one
/// step down for each, and a fraction of zeros longer than that exponent can
/// count makes it overflow.
pub const MAX_DIGIT_RUN: usize = 32767;

/// `c` is one of the ten decimal digits.
pub open spec fn is_digit(c: char) -> bool {
    '0' <= c && c <= '9'
}

/// How many digits stand in a row directly before position `end`.
pub open spec fn digits_before(text: Seq<char>, end: int) -> nat
    decreases end,
{
    if 0 < end <= text.len() && is_digit(text[end - 1]) {
        1 + digits_before(text, end - 1)
    } else {
        0
    }
}

/// No run of digits in the text is longer than [`MAX_DIGIT_RUN`].
pub open spec fn digit_runs_fit(text: Seq<char>) -> bool {
    forall|end: int| 0 <= end <= text.len() ==> #[trigger] digits_before(text, end) <= MAX_DIGIT_RUN
}

/// Whether no run of digits in the text is longer than [`MAX_DIGIT_RUN`].
pub fn within_parser_reach(text: &str) -> (r: bool)
    ensures
        r == digit_runs_fit(text@),
{
    let mut run: usize = 0;
    for c in it: text.chars()
        invariant
            it.seq() == text@,
            run == digits_before(text@, it.index()),
            forall|end: int|
                0 <= end <= it.index() ==> #[trigger] digits_before(text@, end) <= MAX_DIGIT_RUN,
    {
        if '0' <= c && c <= '9' {
            run = run + 1;
        } else {
            run = 0;
        }
        if run > MAX_DIGIT_RUN {
            assert(digits_before(text@, it.index() + 1) > MAX_DIGIT_RUN);
            return false;
        }
    }
    true
}

/// A number as the `json` crate holds it: whether it is positive, its
/// decimal mantissa, and its decimal exponent.
pub type NumberParts = (bool, u64, i16);

/// What the `json` crate makes of `text`: nothing where `json::parse`
/// reports an error; else, for each member of the parsed value taken as an
/// array (a value that is no array has none), the parts of the number that
/// stands under `key`, or nothing where the member has no number there.
pub uninterp spec fn json_member_numbers(text: Seq<char>, key: Seq<char>) -> Option<
    Seq<Option<(bool, u64, i16)>>,
>;

/// Calls `json::parse`, walks the result with `JsonValue::members`, and reads
/// each member's entry under `key` through `JsonValue::as_number` and
/// `Number::as_parts`. The contract claims only that the outcome depends on
/// the text and the key alone. Texts with a longer run of digits than
/// [`MAX_DIGIT_RUN`] are left out: on a long enough fraction of zeros the
/// parser's exponent overflows. The parts are handed out as they are, and
/// [`number_id`] reads them: the crate's own conversion to an integer
/// negates the mantissa in 64 bits, which a mantissa of 2^63 does not allow.
#[verifier::external_body]
fn parse_member_numbers(text: &str, key: &str) -> (r: Option<Vec<Option<NumberParts>>>)
    requires
        digit_runs_fit(text@),
    ensures
        match r {
            Some(members) => json_member_numbers(text@, key@) == Some(members@),
            None => json_member_numbers(text@, key@) is None,
        },
{
    match json::parse(text) {
        Ok(value) => Some(
            value.members().map(|member| member[key].as_number().map(|n| n.as_parts())).collect(),
        ),
        Err(_) => None,
    }
}

/// The identifier that a number names: its value, where the number is
/// written without exponent and fits 32 bits.
pub open spec fn spec_number_id(parts: NumberParts) -> Option<i64> {
    let value: int = if parts.0 {
        parts.1 as int
    } else {
        -(parts.1 as int)
    };
    if parts.2 == 0 && i32::MIN <= value <= i32::MAX {
        Some(value as i64)
    } else {
        None
    }
}

/// Reads a number as an identifier. A number with an exponent, such as
/// `28.0` or `1e3`, and one outside 32 bits names none.
pub fn number_id(parts: &NumberParts) -> (r: Option<i64>)
    ensures
        r == spec_number_id(*parts),
{
    let positive: bool = parts.0;
    let mantissa: u64 = parts.1;
    let exponent: i16 = parts.2;
    if exponent != 0 {
        None
    } else if positive {
        if mantissa <= 0x7fff_ffff {
            Some(mantissa as i64)
        } else {
            None
        }
    } else {
        if mantissa <= 0x8000_0000 {
            Some(-(mantissa as i64))
        } else {
            None
        }
    }
}

/// The identifiers that a list of members names.
pub open spec fn member_ids(members: Seq<Option<NumberParts>>) -> Set<i64> {
    Set::new(
        |id: i64|
            exists|i: int|
                0 <= i < members.len() && (#[trigger] members[i]) is Some && spec_number_id(
                    members[i]->0,
                ) == Some(id),
    )
}

/// The identifiers of a decoded field: those of its members, or none where
/// the field did not parse.
pub open spec fn parsed_ids(parsed: Option<Seq<Option<NumberParts>>>) -> Set<i64> {
    match parsed {
        Some(members) => member_ids(members),
        None => Set::empty(),
    }
}

/// The identifiers that an embedded list field names: those that the parser
/// finds in the text with its quotes normalized, and none where that text is
/// out of the parser's reach.
pub open spec fn decoded_ids(text: Seq<char>) -> Set<i64> {
    let normalized = spec_normalize_quotes(text);
    if digit_runs_fit(normalized) {
        parsed_ids(json_member_numbers(normalized, "id"@))
    } else {
        Set::empty()
    }
}

/// One more member adds its id, if it has one, to the ids named so far.
pub proof fn lemma_member_ids_push(members: Seq<Option<NumberParts>>, next: Option<NumberParts>)
    ensures
        member_ids(members.push(next)) == match next {
            Some(parts) => match spec_number_id(parts) {
                Some(id) => member_ids(members).insert(id),
                None => member_ids(members),
            },
            None => member_ids(members),
        },
{
    let longer = members.push(next);
    let expected = match next {
        Some(parts) => match spec_number_id(parts) {
            Some(id) => member_ids(members).insert(id),
            None => member_ids(members),
        },
        None => member_ids(members),
    };
    assert forall|x: i64| member_ids(longer).contains(x) <==> expected.contains(x) by {
        if member_ids(members).contains(x) {
            let j = choose|j: int|
                0 <= j < members.len() && (#[trigger] members[j]) is Some && spec_number_id(
                    members[j]->0,
                ) == Some(x);
            assert(longer[j] == members[j]);
        }
        if member_ids(longer).contains(x) {
            let j = choose|j: int|
                0 <= j < longer.len() && (#[trigger] longer[j]) is Some && spec_number_id(
                    longer[j]->0,
                ) == Some(x);
            if j < members.len() {
                assert(members[j] == longer[j]);
            }
        }
        if next is Some && spec_number_id(next->0) == Some(x) {
            assert(longer[members.len() as int] == next);
        }
    }
    assert(member_ids(longer) =~= expected);
}

/// Collects the identifiers of a parsed field into a set. A field that did
/// not parse, and a member without an integer id, contribute nothing.
pub fn ids_of_members(parsed: &Option<Vec<Option<NumberParts>>>) -> (r: HashSet<i64>)
    ensures
        match parsed {
            Some(members) => r@ == member_ids(members@),
            None => r@ == Set::<i64>::empty(),
        },
{
    let mut ids: HashSet<i64> = HashSet::new();
    match parsed {
        Some(members) => {
            assert(member_ids(members@.take(0)) =~= Set::<i64>::empty());
            let mut i: usize = 0;
            while i < members.len()
                invariant
                    0 <= i <= members.len(),
                    ids@ == member_ids(members@.take(i as int)),
                decreases members.len() - i,
            {
                proof {
                    assert(members@.take(i + 1) =~= members@.take(i as int).push(
                        members@[i as int],
                    ));
                    lemma_member_ids_push(members@.take(i as int), members@[i as int]);
                }
                match &members[i] {
                    Some(parts) => match number_id(parts) {
                        Some(id) => {
                            ids.insert(id);
                        },
                        None => {},
                    },
                    None => {},
                }
                i += 1;
            }
            assert(members@.take(i as int) =~= members@);
        },
        None => {},
    }
    ids
}

/// Decodes an embedded list field such as
/// `[{'id': 28, 'name': 'Action'}]` into the set of its ids. Single quotes
/// are read as double quotes. A text that is no JSON, or no list of objects
/// with an integer `id`, gives the empty set, and so does a text with a run
/// of more than [`MAX_DIGIT_RUN`] digits, which is not handed to the parser.
pub fn convert_json_to_set(s: &str) -> (r: HashSet<i64>)
    ensures
        r@ == decoded_ids(s@),
{
    let normalized = normalize_quotes(s);
    if within_parser_reach(normalized.as_str()) {
        let parsed = parse_member_numbers(normalized.as_str(), "id");
        ids_of_members(&parsed)
    } else {
        HashSet::new()
    }
}

impl MovieRowRaw {
    /// The row passes the admission rules: it earned something, it was
    /// released no later than the cutoff where there is one, and its status
    /// reads "released".
    pub open spec fn spec_admitted(&self, last_run: Option<Date>) -> bool {
        &&& self.revenue > 0
        &&& (last_run matches Some(cutoff) ==> self.release_date.spec_on_or_before(cutoff))
        &&& Status::spec_from_str(self.status@) == Status::Released
    }

    /// Budget, revenue and their difference fit the integers of a [`Movie`].
    pub open spec fn spec_representable(&self) -> bool {
        &&& i64::MIN <= self.budget <= i64::MAX
        &&& i64::MIN <= self.revenue <= i64::MAX
        &&& i64::MIN <= self.revenue - self.budget <= i64::MAX
    }

    /// The movie that the row stands for, given the ids that its two
    /// embedded lists name.
    pub open spec fn spec_movie_with(
        &self,
        genres: Set<i64>,
        production_companies: Set<i64>,
    ) -> MovieView {
        MovieView {
            id: self.id@,
            genres,
            production_companies,
            release_date: self.release_date,
            budget: self.budget as int,
            revenue: self.revenue as int,
            profit: self.revenue - self.budget,
            status: Status::Released,
        }
    }

    /// The movie that the row stands for.
    pub open spec fn spec_movie(&self) -> MovieView {
        self.spec_movie_with(
            decoded_ids(self.genres@),
            decoded_ids(self.production_companies@),
        )
    }

    /// Whether budget, revenue and profit fit the integers of a [`Movie`].
    pub fn representable(&self) -> (r: bool)
        ensures
            r == self.spec_representable(),
    {
        let low: i128 = i64::MIN as i128;
        let high: i128 = i64::MAX as i128;
        low <= self.budget && self.budget <= high && low <= self.revenue && self.revenue <= high
            && low <= self.revenue - self.budget && self.revenue - self.budget <= high
    }

    /// Whether the row passes the admission rules under the cutoff.
    pub fn admitted(&self, last_run: &Option<Date>) -> (r: bool)
        ensures
            r == self.spec_admitted(*last_run),
    {
        let in_time = match last_run {
            Some(cutoff) => self.release_date.on_or_before(cutoff),
            None => true,
        };
        self.revenue > 0 && in_time && Status::from_str(self.status.as_str()) == Status::Released
    }

    /// Projects the row into a [`Movie`] with the given genre and company
    /// ids: the row's own columns are copied, the profit is revenue less
    /// budget, and the status is `Released`.
    pub fn movie_with(&self, genres: HashSet<i64>, production_companies: HashSet<i64>) -> (movie:
        Movie)
        requires
            self.spec_representable(),
        ensures
            movie@ == self.spec_movie_with(genres@, production_companies@),
    {
        Movie {
            id: self.id.clone(),
            genres,
            production_companies,
            release_date: self.release_date,
            budget: self.budget as i64,
            revenue: self.revenue as i64,
            status: Status::Released,
            profit: (self.revenue - self.budget) as i64,
        }
    }

    /// Admits or drops the row. An admitted row becomes a [`Movie`] with its
    /// profit worked out and its embedded lists decoded; a dropped row gives
    /// `None`, which is no error.
    pub fn validated_movie_row(&self, last_run: &Option<Date>) -> (r: Option<Movie>)
        requires
            self.spec_admitted(*last_run) ==> self.spec_representable(),
        ensures
            r is Some <==> self.spec_admitted(*last_run),
            r matches Some(movie) ==> movie@ == self.spec_movie() && movie@.admitted(),
    {
        if self.admitted(last_run) {
            let genres = convert_json_to_set(self.genres.as_str());
            let production_companies = convert_json_to_set(self.production_companies.as_str());
            Some(self.movie_with(genres, production_companies))
        } else {
            None
        }
    }
}

} // verus!
