//! Which lens took a photograph: the one named on the command line, picked
//! among several by the focal length that the photograph records, else the
//! one that the photograph names itself.

use vstd::prelude::*;
use regex::Regex;
use crate::text::{is_digit, parsed_number, parse_number, split_on, split_text};

verus! {

/// The longest prefix of `s` made of ASCII digits.
pub open spec fn leading_digits(s: Seq<char>) -> Seq<char>
    decreases s.len(),
{
    if s.len() > 0 && is_digit(s[0]) {
        seq![s[0]] + leading_digits(s.drop_first())
    } else {
        Seq::<char>::empty()
    }
}

/// The longest suffix of `s` made of ASCII digits.
pub open spec fn trailing_digits(s: Seq<char>) -> Seq<char>
    decreases s.len(),
{
    if s.len() > 0 && is_digit(s.last()) {
        trailing_digits(s.drop_last()).push(s.last())
    } else {
        Seq::<char>::empty()
    }
}

/// `s` without the spaces at its end.
pub open spec fn without_trailing_spaces(s: Seq<char>) -> Seq<char>
    decreases s.len(),
{
    if s.len() > 0 && s.last() == ' ' {
        without_trailing_spaces(s.drop_last())
    } else {
        s
    }
}

/// `s` without the spaces at its start.
pub open spec fn without_leading_spaces(s: Seq<char>) -> Seq<char>
    decreases s.len(),
{
    if s.len() > 0 && s[0] == ' ' {
        without_leading_spaces(s.drop_first())
    } else {
        s
    }
}

/// `s` holds a dash.
pub open spec fn has_dash(s: Seq<char>) -> bool {
    exists|i: int| 0 <= i < s.len() && s[i] == '-'
}

/// The position of the first dash of `s`.
pub open spec fn first_dash(s: Seq<char>) -> int {
    choose|k: int| 0 <= k < s.len() && s[k] == '-' && forall|j: int| 0 <= j < k ==> s[j] != '-'
}

/// The two numbers of a focal range such as `18-55` or `70 - 200mm`: the
/// digits just before the first dash (spaces between them and the dash
/// allowed) and the digits just after it (spaces allowed); either may be
/// empty. `None` when `s` holds no dash.
pub open spec fn dash_range(s: Seq<char>) -> Option<(Seq<char>, Seq<char>)> {
    if has_dash(s) {
        let k = first_dash(s);
        Some(
            (
                trailing_digits(without_trailing_spaces(s.take(k))),
                leading_digits(without_leading_spaces(s.skip(k + 1))),
            ),
        )
    } else {
        None
    }
}

/// `Regex::captures` of the pattern `(?<fl>[0-9]*)` on `flen`, with the
/// group `fl` turned into a `String`. The pattern matches the empty text, so
/// under leftmost-first semantics the match starts at the first character
/// and the greedy star takes every digit there: the claim is that the call
/// always succeeds and gives the longest prefix of ASCII digits.
#[verifier::external_body]
fn capture_focal_digits(flen: &str) -> (r: Option<String>)
    ensures
        r is Some,
        r matches Some(d) ==> d@ == leading_digits(flen@),
{
    let re = Regex::new(r"(?<fl>[0-9]*)").unwrap();
    match re.captures(flen) {
        Some(caps) => Some(caps["fl"].to_string()),
        None => None,
    }
}

/// `Regex::captures` of the pattern
/// `(?<low>[0-9]*)[ ]*-[ ]*(?<high>[0-9]*)` on `hay`, with the groups `low`
/// and `high` turned into `String`s. The claim: there is a match exactly
/// when `hay` holds a dash; the leftmost match then ends its `low` group
/// right before the spaces before the first dash and starts its `high` group
/// right after the spaces after it, both greedy (see `dash_range`).
#[verifier::external_body]
fn capture_focal_range(hay: &str) -> (r: Option<(String, String)>)
    ensures
        (r is Some) == (dash_range(hay@) is Some),
        r matches Some((lo, hi)) ==> dash_range(hay@) == Some((lo@, hi@)),
{
    let re = Regex::new(r"(?<low>[0-9]*)[ ]*-[ ]*(?<high>[0-9]*)").unwrap();
    match re.captures(hay) {
        Some(caps) => Some((caps["low"].to_string(), caps["high"].to_string())),
        None => None,
    }
}

/// The focal range written in a lens name, once both numbers are read.
pub open spec fn range_value(h: Seq<char>) -> Option<(i32, i32)> {
    match dash_range(h) {
        Some((lo, hi)) => match (parsed_number(lo), parsed_number(hi)) {
            (Some(a), Some(b)) => Some((a, b)),
            _ => None,
        },
        None => None,
    }
}

/// A lens name with a dash whose numbers cannot be read as `i32` (an empty
/// one among them): reading its range fails.
pub open spec fn range_unreadable(h: Seq<char>) -> bool {
    dash_range(h) is Some && range_value(h) is None
}

/// The focal length `fl` lies in the range written in the lens name `h`.
pub open spec fn fits(h: Seq<char>, fl: i32) -> bool {
    range_value(h) matches Some((a, b)) && a <= fl && fl <= b
}

/// The first lens of `v` whose range holds `fl`.
pub open spec fn first_fit(v: Seq<Seq<char>>, fl: i32) -> Option<Seq<char>>
    decreases v.len(),
{
    if v.len() == 0 {
        None
    } else if fits(v[0], fl) {
        Some(v[0])
    } else {
        first_fit(v.drop_first(), fl)
    }
}

/// Reading the lenses of `v` in order until one holds `fl`, a range that
/// cannot be read comes first.
pub open spec fn unreadable_before_fit(v: Seq<Seq<char>>, fl: i32) -> bool
    decreases v.len(),
{
    if v.len() == 0 {
        false
    } else if range_unreadable(v[0]) {
        true
    } else if fits(v[0], fl) {
        false
    } else {
        unreadable_before_fit(v.drop_first(), fl)
    }
}

/// The lens that the command-line option names for a photograph whose focal
/// length reads `flen`: none (empty) when the option is empty; the option
/// itself when it names one lens; among several lenses separated by commas,
/// the first whose range holds the number that starts the focal length
/// (none when no range holds it, or when the photograph records no such
/// number).
pub open spec fn lens_from_option(option: Seq<char>, flen: Seq<char>) -> Seq<char> {
    let v = split_on(option, ',');
    if option.len() == 0 {
        Seq::<char>::empty()
    } else if v.len() == 1 {
        v[0]
    } else if flen.len() == 0 {
        Seq::<char>::empty()
    } else {
        match parsed_number(leading_digits(flen)) {
            None => Seq::<char>::empty(),
            Some(fl) => match first_fit(v, fl) {
                Some(h) => h,
                None => Seq::<char>::empty(),
            },
        }
    }
}

/// The inputs on which looking for the lens fails: the photograph names no
/// lens but records a focal length, and either that focal length does not
/// start with a number that fits in `i32`, or the option lists several lenses
/// and one read before the first that fits has a range that cannot be read.
pub open spec fn lens_choice_fails(exif_lens: Seq<char>, flen: Seq<char>, option: Seq<char>) -> bool {
    &&& exif_lens.len() == 0
    &&& flen.len() > 0
    &&& match parsed_number(leading_digits(flen)) {
        None => true,
        Some(fl) => split_on(option, ',').len() >= 2 && unreadable_before_fit(
            split_on(option, ','),
            fl,
        ),
    }
}

/// The lens of a photograph: the one the command line gives when it gives
/// one, else the one the photograph names (`exif_lens`); `None` where the
/// choice fails.
pub open spec fn chosen_lens(exif_lens: Seq<char>, flen: Seq<char>, option: Seq<char>) -> Option<
    Seq<char>,
> {
    if lens_choice_fails(exif_lens, flen, option) {
        None
    } else if lens_from_option(option, flen).len() > 0 {
        Some(lens_from_option(option, flen))
    } else {
        Some(exif_lens)
    }
}

fn find_fitting_lens(pieces: &Vec<String>, fl: i32) -> (r: (Option<String>, bool))
    ensures
        match r.0 {
            Some(h) => first_fit(pieces@.map_values(|p: String| p@), fl) == Some(h@),
            None => first_fit(pieces@.map_values(|p: String| p@), fl) is None,
        },
        r.1 == unreadable_before_fit(pieces@.map_values(|p: String| p@), fl),
{
    let ghost v = pieces@.map_values(|p: String| p@);
    let mut unreadable = false;
    let mut i: usize = 0;
    assert(v.skip(0) =~= v);
    while i < pieces.len()
        invariant
            v == pieces@.map_values(|p: String| p@),
            0 <= i <= pieces.len(),
            first_fit(v, fl) == first_fit(v.skip(i as int), fl),
            unreadable_before_fit(v, fl) == (unreadable || unreadable_before_fit(
                v.skip(i as int),
                fl,
            )),
        decreases pieces.len() - i,
    {
        let h = &pieces[i];
        assert(v.skip(i as int)[0] == h@);
        assert(v.skip(i as int).drop_first() =~= v.skip(i + 1));
        match capture_focal_range(h.as_str()) {
            None => {},
            Some((lo, hi)) => {
                let a = parse_number(lo.as_str());
                let b = parse_number(hi.as_str());
                match (a, b) {
                    (Some(a), Some(b)) => {
                        if a <= fl && fl <= b {
                            return (Some(h.clone()), unreadable);
                        }
                    },
                    _ => {
                        unreadable = true;
                    },
                }
            },
        }
        i = i + 1;
    }
    assert(v.skip(i as int) =~= Seq::<Seq<char>>::empty());
    (None, unreadable)
}

/// The lens of a photograph that names `exif_lens` and records the focal
/// length `flen`, given the command-line option `lens_option` (lens names
/// separated by commas): what the command line gives takes precedence over
/// what the photograph names. `None` exactly where the choice fails (see
/// `lens_choice_fails`).
pub fn choose_lens(exif_lens: &str, flen: &str, lens_option: &str) -> (r: Option<String>)
    ensures
        match r {
            Some(l) => chosen_lens(exif_lens@, flen@, lens_option@) == Some(l@),
            None => chosen_lens(exif_lens@, flen@, lens_option@) is None,
        },
        !lens_choice_fails(exif_lens@, flen@, lens_option@) && lens_from_option(
            lens_option@,
            flen@,
        ).len() > 0 ==> (r matches Some(x) && x@ == lens_from_option(lens_option@, flen@)),
{
    let pieces = split_text(lens_option, ',');
    let ghost v = pieces@.map_values(|p: String| p@);
    proof {
        crate::text::lemma_split_nonempty(lens_option@, ',');
    }
    let no_exif_lens = exif_lens.unicode_len() == 0;
    let has_flen = flen.unicode_len() > 0;
    let fl: Option<i32> = if has_flen {
        match capture_focal_digits(flen) {
            Some(d) => parse_number(d.as_str()),
            None => None,
        }
    } else {
        None
    };
    let from_option: String = if lens_option.unicode_len() == 0 {
        String::new()
    } else if pieces.len() == 1 {
        assert(v[0] == pieces[0]@);
        pieces[0].clone()
    } else if !has_flen {
        String::new()
    } else {
        match fl {
            None => {
                if no_exif_lens {
                    return None;
                }
                String::new()
            },
            Some(fl) => {
                let (fit, unreadable) = find_fitting_lens(&pieces, fl);
                if no_exif_lens && unreadable {
                    return None;
                }
                match fit {
                    Some(h) => h,
                    None => String::new(),
                }
            },
        }
    };
    if no_exif_lens && has_flen && fl.is_none() {
        return None;
    }
    if from_option.unicode_len() > 0 {
        Some(from_option)
    } else {
        Some(exif_lens.to_owned())
    }
}

} // verus!

verus! {

/// The lens picked among several is the first whose written range, bounds
/// included, holds the focal length: any lens whose range holds it, with no
/// earlier one holding it, is the one picked; and none is picked when no
/// range holds it.
pub proof fn lemma_first_fit_is_first_range_holding(v: Seq<Seq<char>>, fl: i32)
    ensures
        forall|i: int|
            #![trigger v[i]]
            0 <= i < v.len() && range_value(v[i]) is Some && range_value(v[i]).unwrap().0 <= fl
                && fl <= range_value(v[i]).unwrap().1 && (forall|j: int|
                0 <= j < i ==> !(range_value(v[j]) is Some && range_value(v[j]).unwrap().0 <= fl
                    && fl <= range_value(v[j]).unwrap().1)) ==> first_fit(v, fl) == Some(v[i]),
        (forall|i: int|
            0 <= i < v.len() ==> !(range_value(v[i]) is Some && range_value(v[i]).unwrap().0 <= fl
                && fl <= range_value(v[i]).unwrap().1)) ==> first_fit(v, fl) is None,
    decreases v.len(),
{
    if v.len() > 0 {
        lemma_first_fit_is_first_range_holding(v.drop_first(), fl);
        let w = v.drop_first();
        assert forall|i: int|
            #![trigger v[i]]
            0 <= i < v.len() && range_value(v[i]) is Some && range_value(v[i]).unwrap().0 <= fl
                && fl <= range_value(v[i]).unwrap().1 && (forall|j: int|
                0 <= j < i ==> !(range_value(v[j]) is Some && range_value(v[j]).unwrap().0 <= fl
                    && fl <= range_value(v[j]).unwrap().1)) implies first_fit(v, fl) == Some(v[i]) by {
            if i > 0 {
                assert(!(range_value(v[0]) is Some && range_value(v[0]).unwrap().0 <= fl && fl
                    <= range_value(v[0]).unwrap().1));
                assert(w[i - 1] == v[i]);
                assert forall|j: int| 0 <= j < i - 1 implies !(range_value(w[j]) is Some
                    && range_value(w[j]).unwrap().0 <= fl && fl <= range_value(w[j]).unwrap().1) by {
                    assert(w[j] == v[j + 1]);
                }
            }
        }
        if forall|i: int|
            0 <= i < v.len() ==> !(range_value(v[i]) is Some && range_value(v[i]).unwrap().0 <= fl
                && fl <= range_value(v[i]).unwrap().1) {
            assert(!(range_value(v[0]) is Some && range_value(v[0]).unwrap().0 <= fl && fl
                <= range_value(v[0]).unwrap().1));
            assert forall|i: int| 0 <= i < w.len() implies !(range_value(w[i]) is Some
                && range_value(w[i]).unwrap().0 <= fl && fl <= range_value(w[i]).unwrap().1) by {
                assert(w[i] == v[i + 1]);
            }
        }
    }
}

/// Bounds of a focal range are included: when several lenses are given and
/// the first one's range `a-b` holds the focal length that the photograph
/// records (for instance a focal length equal to `a`), that lens is the one
/// chosen, whatever lens the photograph names.
pub proof fn lemma_first_range_holding_focal_length_is_chosen(
    exif_lens: Seq<char>,
    flen: Seq<char>,
    option: Seq<char>,
    fl: i32,
    a: i32,
    b: i32,
)
    requires
        split_on(option, ',').len() >= 2,
        flen.len() > 0,
        parsed_number(leading_digits(flen)) == Some(fl),
        range_value(split_on(option, ',')[0]) == Some((a, b)),
        a <= fl && fl <= b,
    ensures
        lens_from_option(option, flen) == split_on(option, ',')[0],
        chosen_lens(exif_lens, flen, option) == Some(split_on(option, ',')[0]),
{
    let v = split_on(option, ',');
    lemma_first_fit_is_first_range_holding(v, fl);
    assert(range_value(v[0]) is Some);
    assert(first_fit(v, fl) == Some(v[0]));
    assert(option.len() > 0) by {
        if option.len() == 0 {
            assert(split_on(option, ',').len() == 1);
        }
    }
    assert(has_dash(v[0]));
    assert(v[0].len() > 0);
    assert(!range_unreadable(v[0]));
    assert(fits(v[0], fl));
    assert(!unreadable_before_fit(v, fl));
    assert(!lens_choice_fails(exif_lens, flen, option));
}

} // verus!
