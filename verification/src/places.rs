//! Named places from a gazetteer: which ones are kept, which country they
//! lie in, which one is nearest to a photograph, and how a photograph's
//! caption names it.

use vstd::prelude::*;
use crate::text::{same_text, split_on, split_text};

verus! {

/// A country of the gazetteer: its ISO code and its name.
pub struct CountryRow {
    pub iso: String,
    pub country: String,
}

impl View for CountryRow {
    type V = (Seq<char>, Seq<char>);

    open spec fn view(&self) -> (Seq<char>, Seq<char>) {
        (self.iso@, self.country@)
    }
}

/// A place of the gazetteer as read: its ASCII name, its country code, its
/// time zone, its population when known, and the position of its
/// coordinates in the caller's table.
pub struct PlaceRow {
    pub name: String,
    pub country_code: String,
    pub timezone: String,
    pub population: Option<i64>,
    pub position: usize,
}

/// A place row as plain values.
pub struct PlaceRowView {
    pub name: Seq<char>,
    pub country_code: Seq<char>,
    pub timezone: Seq<char>,
    pub population: Option<i64>,
    pub position: usize,
}

impl View for PlaceRow {
    type V = PlaceRowView;

    open spec fn view(&self) -> PlaceRowView {
        PlaceRowView {
            name: self.name@,
            country_code: self.country_code@,
            timezone: self.timezone@,
            population: self.population,
            position: self.position,
        }
    }
}

/// A place kept for naming where photographs were taken.
pub struct Place {
    pub location: String,
    pub country: String,
    pub timezone: String,
    pub position: usize,
}

/// A kept place as plain values.
#[verifier::ext_equal]
pub struct PlaceView {
    pub location: Seq<char>,
    pub country: Seq<char>,
    pub timezone: Seq<char>,
    pub position: usize,
}

impl View for Place {
    type V = PlaceView;

    open spec fn view(&self) -> PlaceView {
        PlaceView {
            location: self.location@,
            country: self.country@,
            timezone: self.timezone@,
            position: self.position,
        }
    }
}

/// The name of the country with ISO code `code`: that of the last row with
/// this code (a later row replaces an earlier one), empty when none has it.
pub open spec fn country_of(countries: Seq<(Seq<char>, Seq<char>)>, code: Seq<char>) -> Seq<char>
    decreases countries.len(),
{
    if countries.len() == 0 {
        Seq::<char>::empty()
    } else if countries.last().0 == code {
        countries.last().1
    } else {
        country_of(countries.drop_last(), code)
    }
}

/// The country name found for a code is that of a row whose ISO code is
/// exactly that code, the last such row; a code that no row holds gives the
/// empty name.
pub proof fn lemma_country_by_exact_code(countries: Seq<(Seq<char>, Seq<char>)>, code: Seq<char>)
    ensures
        (exists|i: int| 0 <= i < countries.len() && countries[i].0 == code) ==> exists|i: int|
            0 <= i < countries.len() && countries[i].0 == code && countries[i].1 == country_of(
                countries,
                code,
            ) && forall|j: int| i < j < countries.len() ==> countries[j].0 != code,
        (forall|i: int| 0 <= i < countries.len() ==> countries[i].0 != code) ==> country_of(
            countries,
            code,
        ) == Seq::<char>::empty(),
        country_of(countries, code) != Seq::<char>::empty() ==> exists|i: int|
            0 <= i < countries.len() && countries[i].0 == code && countries[i].1 == country_of(
                countries,
                code,
            ),
    decreases countries.len(),
{
    if countries.len() > 0 {
        let prev = countries.drop_last();
        lemma_country_by_exact_code(prev, code);
        let n = countries.len() - 1;
        if countries[n].0 == code {
            assert(countries.last() == countries[n]);
        } else {
            assert forall|i: int| 0 <= i < prev.len() implies prev[i] == countries[i] by {}
            if exists|i: int| 0 <= i < countries.len() && countries[i].0 == code {
                let i0 = choose|i: int| 0 <= i < countries.len() && countries[i].0 == code;
                assert(prev[i0].0 == code);
                let i1 = choose|i: int|
                    0 <= i < prev.len() && prev[i].0 == code && prev[i].1 == country_of(prev, code)
                        && forall|j: int| i < j < prev.len() ==> prev[j].0 != code;
                assert(countries[i1].0 == code);
                assert forall|j: int| i1 < j < countries.len() implies countries[j].0 != code by {
                    if j < n {
                        assert(prev[j] == countries[j]);
                    }
                }
            }
            if forall|i: int| 0 <= i < countries.len() ==> countries[i].0 != code {
                assert forall|i: int| 0 <= i < prev.len() implies prev[i].0 != code by {
                    assert(prev[i] == countries[i]);
                }
            }
        }
    }
}

/// The views of a list of countries.
pub open spec fn countries_view(countries: Seq<CountryRow>) -> Seq<(Seq<char>, Seq<char>)> {
    countries.map_values(|c: CountryRow| c@)
}

/// Looks up the name of the country with ISO code `code` (see `country_of`).
pub fn country_name(countries: &Vec<CountryRow>, code: &str) -> (r: String)
    ensures
        r@ == country_of(countries_view(countries@), code@),
{
    let ghost cs = countries_view(countries@);
    let mut r = String::new();
    let mut i: usize = 0;
    assert(cs.take(0) =~= Seq::<(Seq<char>, Seq<char>)>::empty());
    while i < countries.len()
        invariant
            cs == countries_view(countries@),
            0 <= i <= countries.len(),
            r@ == country_of(cs.take(i as int), code@),
        decreases countries.len() - i,
    {
        let c = &countries[i];
        assert(cs[i as int] == c@);
        assert(cs.take(i + 1).drop_last() =~= cs.take(i as int));
        assert(cs.take(i + 1).last() == c@);
        if same_text(c.iso.as_str(), code) {
            r = c.country.clone();
        }
        i = i + 1;
    }
    assert(cs.take(i as int) =~= cs);
    r
}

/// The population of a place, counting an unknown one as zero.
pub open spec fn population_or_zero(row: PlaceRowView) -> i64 {
    match row.population {
        Some(n) => n,
        None => 0,
    }
}

/// The place that a kept row becomes: its name, the name of its country, its
/// time zone and the position of its coordinates.
pub open spec fn place_of(countries: Seq<(Seq<char>, Seq<char>)>, row: PlaceRowView) -> PlaceView {
    PlaceView {
        location: row.name,
        country: country_of(countries, row.country_code),
        timezone: row.timezone,
        position: row.position,
    }
}

/// The places of the rows whose population (zero when unknown) reaches
/// `min_population`, in the order of the rows.
pub open spec fn kept_places(
    countries: Seq<(Seq<char>, Seq<char>)>,
    rows: Seq<PlaceRowView>,
    min_population: i64,
) -> Seq<PlaceView>
    decreases rows.len(),
{
    if rows.len() == 0 {
        Seq::<PlaceView>::empty()
    } else if population_or_zero(rows.last()) >= min_population {
        kept_places(countries, rows.drop_last(), min_population).push(
            place_of(countries, rows.last()),
        )
    } else {
        kept_places(countries, rows.drop_last(), min_population)
    }
}

/// The views of a list of place rows.
pub open spec fn rows_view(rows: Seq<PlaceRow>) -> Seq<PlaceRowView> {
    rows.map_values(|r: PlaceRow| r@)
}

/// The views of a list of places.
pub open spec fn places_view(places: Seq<Place>) -> Seq<PlaceView> {
    places.map_values(|p: Place| p@)
}

/// Keeps the places whose population reaches `min_population`, each with the
/// name of its country (see `kept_places`).
pub fn select_places(countries: &Vec<CountryRow>, rows: &Vec<PlaceRow>, min_population: i64) -> (r:
    Vec<Place>)
    ensures
        places_view(r@) == kept_places(countries_view(countries@), rows_view(rows@), min_population),
{
    let ghost cs = countries_view(countries@);
    let ghost rs = rows_view(rows@);
    let mut r: Vec<Place> = Vec::new();
    let mut i: usize = 0;
    assert(rs.take(0) =~= Seq::<PlaceRowView>::empty());
    assert(places_view(r@) =~= Seq::<PlaceView>::empty());
    while i < rows.len()
        invariant
            cs == countries_view(countries@),
            rs == rows_view(rows@),
            0 <= i <= rows.len(),
            places_view(r@) == kept_places(cs, rs.take(i as int), min_population),
        decreases rows.len() - i,
    {
        let row = &rows[i];
        assert(rs[i as int] == row@);
        assert(rs.take(i + 1).drop_last() =~= rs.take(i as int));
        assert(rs.take(i + 1).last() == row@);
        let population: i64 = match row.population {
            Some(n) => n,
            None => 0,
        };
        if population >= min_population {
            let place = Place {
                location: row.name.clone(),
                country: country_name(countries, row.country_code.as_str()),
                timezone: row.timezone.clone(),
                position: row.position,
            };
            let ghost before = places_view(r@);
            r.push(place);
            assert(places_view(r@) =~= before.push(place@));
            assert(place@ =~= place_of(cs, row@));
        }
        i = i + 1;
    }
    assert(rs.take(i as int) =~= rs);
    r
}

/// Every kept place comes from a row whose population reaches the minimum,
/// with the country that its code names, and no row that reaches the
/// minimum is left out: the kept places are exactly as many as such rows.
pub proof fn lemma_kept_places_by_population(
    countries: Seq<(Seq<char>, Seq<char>)>,
    rows: Seq<PlaceRowView>,
    min_population: i64,
)
    ensures
        kept_places(countries, rows, min_population).len() == rows.filter(
            |row: PlaceRowView| population_or_zero(row) >= min_population,
        ).len(),
        kept_places(countries, rows, min_population) == rows.filter(
            |row: PlaceRowView| population_or_zero(row) >= min_population,
        ).map_values(|row: PlaceRowView| place_of(countries, row)),
    decreases rows.len(),
{
    let keep = |row: PlaceRowView| population_or_zero(row) >= min_population;
    let to_place = |row: PlaceRowView| place_of(countries, row);
    if rows.len() == 0 {
        assert(rows.filter(keep) =~= Seq::<PlaceRowView>::empty());
        assert(rows.filter(keep).map_values(to_place) =~= Seq::<PlaceView>::empty());
    } else {
        lemma_kept_places_by_population(countries, rows.drop_last(), min_population);
        reveal_with_fuel(Seq::filter, 1);
        assert(rows.drop_last().push(rows.last()) =~= rows);
        let prev = rows.drop_last().filter(keep);
        if keep(rows.last()) {
            assert(rows.filter(keep) =~= prev.push(rows.last()));
            assert(prev.push(rows.last()).map_values(to_place) =~= prev.map_values(to_place).push(
                to_place(rows.last()),
            ));
        } else {
            assert(rows.filter(keep) =~= prev);
        }
    }
}

/// `k` is the first position of a smallest key.
pub open spec fn is_first_minimum(keys: Seq<i64>, k: int) -> bool {
    &&& 0 <= k < keys.len()
    &&& forall|j: int| 0 <= j < keys.len() ==> keys[k] <= keys[j]
    &&& forall|j: int| 0 <= j < k ==> keys[j] > keys[k]
}

/// The position of the first smallest key, as `Iterator::min_by_key` picks
/// it.
pub fn first_minimum(keys: &Vec<i64>) -> (k: usize)
    requires
        keys.len() > 0,
    ensures
        is_first_minimum(keys@, k as int),
{
    let mut k: usize = 0;
    let mut i: usize = 1;
    while i < keys.len()
        invariant
            0 <= k < i <= keys.len(),
            forall|j: int| 0 <= j < i ==> keys[k as int] <= keys[j],
            forall|j: int| 0 <= j < k ==> keys[j] > keys[k as int],
        decreases keys.len() - i,
    {
        if keys[i] < keys[k] {
            k = i;
        }
        i = i + 1;
    }
    k
}

/// How a caption names a place: `location, country`.
pub open spec fn place_label(p: PlaceView) -> Seq<char> {
    p.location + ", "@ + p.country
}

/// A place's label starts with its whole location name, then a comma and a
/// space, then its whole country name, and holds nothing else.
pub proof fn lemma_label_holds_whole_names(p: PlaceView)
    ensures
        place_label(p).len() == p.location.len() + 2 + p.country.len(),
        place_label(p).take(p.location.len() as int) == p.location,
        place_label(p)[p.location.len() as int] == ',',
        place_label(p)[p.location.len() as int + 1] == ' ',
        place_label(p).skip(p.location.len() as int + 2) == p.country,
{
    reveal_strlit(", ");
    let l = place_label(p);
    assert(l.take(p.location.len() as int) =~= p.location);
    assert(l.skip(p.location.len() as int + 2) =~= p.country);
}

/// Names a place as `location, country`.
pub fn label_of(p: &Place) -> (r: String)
    ensures
        r@ == place_label(p@),
{
    let mut r = p.location.clone();
    r.append(", ");
    r.append(p.country.as_str());
    r
}

/// Where a photograph was taken, as its caption says it: the location given
/// on the command line takes precedence; else, for a photograph with a
/// position, the place whose key (its distance to the photograph, in whole
/// kilometres) is the first smallest; else nothing.
pub fn location_text(location_option: &str, has_position: bool, places: &Vec<Place>, keys: &Vec<
    i64,
>) -> (r: String)
    requires
        location_option@.len() == 0 && has_position ==> places.len() > 0 && keys.len()
            == places.len(),
    ensures
        location_option@.len() > 0 ==> r@ == location_option@,
        location_option@.len() == 0 && !has_position ==> r@ == Seq::<char>::empty(),
        location_option@.len() == 0 && has_position ==> exists|k: int|
            is_first_minimum(keys@, k) && r@ == place_label(places[k]@),
{
    if location_option.unicode_len() > 0 {
        location_option.to_owned()
    } else if has_position {
        let k = first_minimum(keys);
        label_of(&places[k])
    } else {
        String::new()
    }
}

/// The caption of a photograph can be written: its date has at least two
/// words (day and time).
pub open spec fn caption_possible(date: Seq<char>) -> bool {
    split_on(date, ' ').len() >= 2
}

/// The caption of a photograph: the first two words of its date, then the
/// place, separated by `, `.
pub open spec fn caption_text(date: Seq<char>, location: Seq<char>) -> Seq<char> {
    let w = split_on(date, ' ');
    w[0] + ", "@ + w[1] + ", "@ + location
}

/// The caption starts with the day (first word of the date), then `, `, the
/// time (second word), `, `, and ends with the place; the place only adds
/// itself at the end: the caption with a place is the caption without one
/// followed by that place.
pub proof fn lemma_caption_parts(date: Seq<char>, location: Seq<char>)
    requires
        caption_possible(date),
    ensures
        caption_text(date, location) == caption_text(date, Seq::<char>::empty()) + location,
        ({
            let w = split_on(date, ' ');
            let c = caption_text(date, location);
            &&& c.len() == w[0].len() + 2 + w[1].len() + 2 + location.len()
            &&& c.take(w[0].len() as int) == w[0]
            &&& c.subrange(w[0].len() as int + 2, w[0].len() as int + 2 + w[1].len()) == w[1]
            &&& c.skip(w[0].len() as int + 2 + w[1].len() + 2) == location
        }),
{
    reveal_strlit(", ");
    let w = split_on(date, ' ');
    let c = caption_text(date, location);
    assert(c =~= caption_text(date, Seq::<char>::empty()) + location);
    assert(c.take(w[0].len() as int) =~= w[0]);
    assert(c.subrange(w[0].len() as int + 2, w[0].len() as int + 2 + w[1].len()) =~= w[1]);
    assert(c.skip(w[0].len() as int + 2 + w[1].len() + 2) =~= location);
}

/// Writes the caption of a photograph (see `caption_text`); `None` when its
/// date has fewer than two words.
pub fn caption(date: &str, location: &str) -> (r: Option<String>)
    ensures
        r is Some <==> caption_possible(date@),
        r matches Some(c) ==> c@ == caption_text(date@, location@),
{
    let w = split_text(date, ' ');
    if w.len() < 2 {
        return None;
    }
    assert(w@.map_values(|q: String| q@)[0] == w[0]@);
    assert(w@.map_values(|q: String| q@)[1] == w[1]@);
    let mut r = w[0].clone();
    r.append(", ");
    r.append(w[1].as_str());
    r.append(", ");
    r.append(location);
    Some(r)
}

} // verus!
