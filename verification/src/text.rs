//! Text primitives: splitting on a separator, decimal digits, comparisons.

use vstd::prelude::*;

verus! {

/// The pieces of `s` between occurrences of `sep`, as `str::split` with a
/// one-character pattern gives them: never empty, and an empty text gives one
/// empty piece.
pub open spec fn split_on(s: Seq<char>, sep: char) -> Seq<Seq<char>>
    decreases s.len(),
{
    if s.len() == 0 {
        seq![Seq::<char>::empty()]
    } else {
        let prev = split_on(s.drop_last(), sep);
        if s.last() == sep {
            prev.push(Seq::<char>::empty())
        } else {
            prev.update(prev.len() - 1, prev.last().push(s.last()))
        }
    }
}

/// Splitting never yields an empty list of pieces.
pub proof fn lemma_split_nonempty(s: Seq<char>, sep: char)
    ensures
        split_on(s, sep).len() >= 1,
    decreases s.len(),
{
    if s.len() > 0 {
        lemma_split_nonempty(s.drop_last(), sep);
    }
}

/// The pieces put back together with `sep` between neighbours.
pub open spec fn join_with(parts: Seq<Seq<char>>, sep: char) -> Seq<char>
    decreases parts.len(),
{
    if parts.len() == 0 {
        Seq::<char>::empty()
    } else if parts.len() == 1 {
        parts[0]
    } else {
        join_with(parts.drop_last(), sep).push(sep) + parts.last()
    }
}

proof fn lemma_join_extend_last(parts: Seq<Seq<char>>, sep: char, c: char)
    requires
        parts.len() >= 1,
    ensures
        join_with(parts.update(parts.len() - 1, parts.last().push(c)), sep)
            == join_with(parts, sep).push(c),
{
    let q = parts.update(parts.len() - 1, parts.last().push(c));
    if parts.len() == 1 {
        assert(q[0] == parts[0].push(c));
    } else {
        assert(q.drop_last() =~= parts.drop_last());
        assert(q.last() == parts.last().push(c));
        assert(join_with(q, sep) =~= join_with(parts, sep).push(c));
    }
}

/// Joining the pieces of a split with the same separator gives the text back.
pub proof fn lemma_split_join(s: Seq<char>, sep: char)
    ensures
        join_with(split_on(s, sep), sep) == s,
    decreases s.len(),
{
    if s.len() == 0 {
        assert(join_with(split_on(s, sep), sep) =~= s);
    } else {
        let prev = split_on(s.drop_last(), sep);
        lemma_split_join(s.drop_last(), sep);
        lemma_split_nonempty(s.drop_last(), sep);
        if s.last() == sep {
            let q = prev.push(Seq::<char>::empty());
            assert(q.drop_last() =~= prev);
            assert(join_with(q, sep) =~= s.drop_last().push(sep));
        } else {
            lemma_join_extend_last(prev, sep, s.last());
        }
        assert(s.drop_last().push(s.last()) =~= s);
    }
}

/// No piece of a split holds the separator.
pub proof fn lemma_split_pieces_free_of_separator(s: Seq<char>, sep: char)
    ensures
        forall|i: int, j: int|
            0 <= i < split_on(s, sep).len() && 0 <= j < split_on(s, sep)[i].len()
                ==> split_on(s, sep)[i][j] != sep,
    decreases s.len(),
{
    if s.len() > 0 {
        lemma_split_pieces_free_of_separator(s.drop_last(), sep);
        lemma_split_nonempty(s.drop_last(), sep);
        let prev = split_on(s.drop_last(), sep);
        if s.last() != sep {
            let q = split_on(s, sep);
            assert forall|i: int, j: int| 0 <= i < q.len() && 0 <= j < q[i].len()
                implies q[i][j] != sep by {
                if i == q.len() - 1 && j == q[i].len() - 1 {
                } else {
                    assert(q[i][j] == prev[i][j]);
                }
            }
        }
    }
}

/// Splits `s` at every `sep`, keeping empty pieces.
pub fn split_text(s: &str, sep: char) -> (pieces: Vec<String>)
    ensures
        pieces@.map_values(|p: String| p@) == split_on(s@, sep),
{
    let n = s.unicode_len();
    let mut pieces: Vec<String> = Vec::new();
    let mut start: usize = 0;
    let mut i: usize = 0;
    assert(pieces@.map_values(|p: String| p@) =~= Seq::<Seq<char>>::empty());
    assert(s@.subrange(0, 0) =~= Seq::<char>::empty());
    assert(pieces@.map_values(|p: String| p@).push(s@.subrange(0, 0)) =~= seq![Seq::<char>::empty()]);
    assert(s@.take(0) =~= Seq::<char>::empty());
    while i < n
        invariant
            n == s@.len(),
            start <= i <= n,
            pieces@.map_values(|p: String| p@).push(s@.subrange(start as int, i as int))
                == split_on(s@.take(i as int), sep),
        decreases n - i,
    {
        let c = s.get_char(i);
        proof {
            lemma_split_nonempty(s@.take(i as int), sep);
            assert(s@.take(i + 1).drop_last() =~= s@.take(i as int));
            assert(s@.take(i + 1).last() == c);
        }
        if c == sep {
            let piece = s.substring_char(start, i).to_owned();
            let ghost before = pieces@.map_values(|p: String| p@);
            pieces.push(piece);
            assert(pieces@.map_values(|p: String| p@) =~= before.push(piece@));
            start = i + 1;
            i = i + 1;
            assert(s@.subrange(start as int, i as int) =~= Seq::<char>::empty());
        } else {
            let ghost prev = split_on(s@.take(i as int), sep);
            assert(s@.subrange(start as int, i + 1) =~= s@.subrange(start as int, i as int).push(c));
            i = i + 1;
            assert(pieces@.map_values(|p: String| p@).push(s@.subrange(start as int, i as int))
                =~= prev.update(prev.len() - 1, prev.last().push(c)));
        }
    }
    let last = s.substring_char(start, n).to_owned();
    let ghost before = pieces@.map_values(|p: String| p@);
    pieces.push(last);
    assert(pieces@.map_values(|p: String| p@) =~= before.push(last@));
    assert(s@.take(n as int) =~= s@);
    pieces
}

/// An ASCII decimal digit.
pub open spec fn is_digit(c: char) -> bool {
    '0' <= c && c <= '9'
}

/// The value of a decimal digit character.
pub open spec fn digit_value(c: char) -> int {
    (c as int) - ('0' as int)
}

/// Every character of `s` is a decimal digit.
pub open spec fn all_digits(s: Seq<char>) -> bool {
    forall|i: int| 0 <= i < s.len() ==> is_digit(#[trigger] s[i])
}

/// The number that a string of decimal digits writes, most significant first.
pub open spec fn digits_value(s: Seq<char>) -> int
    decreases s.len(),
{
    if s.len() == 0 {
        0
    } else {
        digits_value(s.drop_last()) * 10 + digit_value(s.last())
    }
}

/// What `str::parse::<i32>` gives for a string made of decimal digits only:
/// a value for a non-empty string whose number fits in `i32`, none otherwise.
pub open spec fn parsed_number(s: Seq<char>) -> Option<i32> {
    if s.len() > 0 && all_digits(s) && digits_value(s) <= i32::MAX {
        Some(digits_value(s) as i32)
    } else {
        None
    }
}

proof fn lemma_digits_value_prefix(s: Seq<char>, k: int)
    requires
        all_digits(s),
        0 <= k <= s.len(),
    ensures
        0 <= digits_value(s.take(k)) <= digits_value(s),
        digits_value(s) >= 0,
    decreases s.len(),
{
    if s.len() == 0 {
        assert(s.take(k) =~= s);
    } else {
        assert(all_digits(s.drop_last()));
        assert(is_digit(s[s.len() - 1]));
        if k == s.len() {
            assert(s.take(k) =~= s);
            lemma_digits_value_prefix(s.drop_last(), 0);
        } else {
            assert(s.take(k) =~= s.drop_last().take(k));
            lemma_digits_value_prefix(s.drop_last(), k);
        }
    }
}

/// Reads a string of decimal digits as an `i32`; `None` for an empty string,
/// for any other character, or for a number above `i32::MAX`.
pub fn parse_number(s: &str) -> (r: Option<i32>)
    ensures
        r == parsed_number(s@),
{
    let n = s.unicode_len();
    if n == 0 {
        return None;
    }
    let mut acc: i64 = 0;
    let mut i: usize = 0;
    assert(s@.take(0) =~= Seq::<char>::empty());
    while i < n
        invariant
            n == s@.len(),
            0 <= i <= n,
            all_digits(s@.take(i as int)),
            acc == digits_value(s@.take(i as int)),
            0 <= acc <= i32::MAX,
        decreases n - i,
    {
        let c = s.get_char(i);
        if !('0' <= c && c <= '9') {
            assert(!all_digits(s@)) by {
                assert(!is_digit(s@[i as int]));
            }
            return None;
        }
        let d: i64 = (c as u32 - '0' as u32) as i64;
        proof {
            assert(s@.take(i + 1).drop_last() =~= s@.take(i as int));
            assert(s@.take(i + 1).last() == c);
            assert(all_digits(s@.take(i + 1))) by {
                assert forall|j: int| 0 <= j < i + 1 implies is_digit(#[trigger] s@.take(i + 1)[j]) by {
                    if j < i {
                        assert(s@.take(i + 1)[j] == s@.take(i as int)[j]);
                    }
                }
            }
        }
        acc = acc * 10 + d;
        i = i + 1;
        if acc > i32::MAX as i64 {
            proof {
                if all_digits(s@) {
                    lemma_digits_value_prefix(s@, i as int);
                }
            }
            return None;
        }
    }
    assert(s@.take(n as int) =~= s@);
    Some(acc as i32)
}

/// The character that writes the digit `d`.
pub open spec fn digit_char(d: int) -> char {
    if d == 0 {
        '0'
    } else if d == 1 {
        '1'
    } else if d == 2 {
        '2'
    } else if d == 3 {
        '3'
    } else if d == 4 {
        '4'
    } else if d == 5 {
        '5'
    } else if d == 6 {
        '6'
    } else if d == 7 {
        '7'
    } else if d == 8 {
        '8'
    } else {
        '9'
    }
}

/// The decimal writing of `n`, without leading zeros, as `Display` gives it.
pub open spec fn decimal_text(n: nat) -> Seq<char>
    decreases n,
{
    if n < 10 {
        seq![digit_char(n as int)]
    } else {
        decimal_text(n / 10).push(digit_char((n % 10) as int))
    }
}

fn digit_text(d: u32) -> (r: &'static str)
    requires
        d < 10,
    ensures
        r@ == seq![digit_char(d as int)],
{
    let r = if d == 0 {
        "0"
    } else if d == 1 {
        "1"
    } else if d == 2 {
        "2"
    } else if d == 3 {
        "3"
    } else if d == 4 {
        "4"
    } else if d == 5 {
        "5"
    } else if d == 6 {
        "6"
    } else if d == 7 {
        "7"
    } else if d == 8 {
        "8"
    } else {
        "9"
    };
    proof {
        reveal_strlit("0");
        reveal_strlit("1");
        reveal_strlit("2");
        reveal_strlit("3");
        reveal_strlit("4");
        reveal_strlit("5");
        reveal_strlit("6");
        reveal_strlit("7");
        reveal_strlit("8");
        reveal_strlit("9");
    }
    assert(r@ =~= seq![digit_char(d as int)]);
    r
}

/// Writes `n` in decimal.
pub fn decimal(n: u32) -> (r: String)
    ensures
        r@ == decimal_text(n as nat),
    decreases n,
{
    if n < 10 {
        String::from_str(digit_text(n))
    } else {
        let mut r = decimal(n / 10);
        r.append(digit_text(n % 10));
        r
    }
}

/// Reading back the decimal writing of a number gives the number.
pub proof fn lemma_decimal_reads_back(n: nat)
    ensures
        decimal_text(n).len() > 0,
        all_digits(decimal_text(n)),
        digits_value(decimal_text(n)) == n,
        n <= i32::MAX ==> parsed_number(decimal_text(n)) == Some(n as i32),
    decreases n,
{
    let t = decimal_text(n);
    if n < 10 {
        assert(t.drop_last() =~= Seq::<char>::empty());
        assert(t.last() == digit_char(n as int));
        assert(digit_value(digit_char(n as int)) == n);
        assert(digits_value(t) == digits_value(t.drop_last()) * 10 + digit_value(t.last()));
        assert(digits_value(t) == n);
    } else {
        lemma_decimal_reads_back(n / 10);
        let d = (n % 10) as int;
        assert(t.drop_last() =~= decimal_text(n / 10));
        assert(digit_value(digit_char(d)) == d);
        assert(all_digits(t)) by {
            assert forall|j: int| 0 <= j < t.len() implies is_digit(#[trigger] t[j]) by {
                if j < t.len() - 1 {
                    assert(t[j] == decimal_text(n / 10)[j]);
                }
            }
        }
        assert(t.last() == digit_char(d));
        assert((n / 10) * 10 + n % 10 == n);
        assert(digits_value(t) == digits_value(t.drop_last()) * 10 + digit_value(t.last()));
        assert(digits_value(t) == n);
    }
}

/// Compares two texts character by character.
pub fn same_text(a: &str, b: &str) -> (r: bool)
    ensures
        r == (a@ == b@),
{
    let n = a.unicode_len();
    if n != b.unicode_len() {
        return false;
    }
    let mut i: usize = 0;
    while i < n
        invariant
            n == a@.len(),
            n == b@.len(),
            0 <= i <= n,
            forall|j: int| 0 <= j < i ==> a@[j] == b@[j],
        decreases n - i,
    {
        if a.get_char(i) != b.get_char(i) {
            return false;
        }
        i = i + 1;
    }
    assert(a@ =~= b@);
    true
}

/// The code of `c` once ASCII capitals are turned into small letters, as
/// `str::to_ascii_lowercase` does.
pub open spec fn lower_code(c: char) -> int {
    if 'A' <= c && c <= 'Z' {
        (c as int) + 32
    } else {
        c as int
    }
}

/// `a`, with ASCII capitals turned into small letters, equals `b`.
pub open spec fn lowercase_matches(a: Seq<char>, b: Seq<char>) -> bool {
    a.len() == b.len() && forall|i: int| 0 <= i < a.len() ==> lower_code(#[trigger] a[i]) == b[i] as int
}

/// Whether the ASCII lowercase form of `a` equals `b`.
pub fn lowercase_equals(a: &str, b: &str) -> (r: bool)
    ensures
        r == lowercase_matches(a@, b@),
{
    let n = a.unicode_len();
    if n != b.unicode_len() {
        return false;
    }
    let mut i: usize = 0;
    while i < n
        invariant
            n == a@.len(),
            n == b@.len(),
            0 <= i <= n,
            forall|j: int| 0 <= j < i ==> lower_code(#[trigger] a@[j]) == b@[j] as int,
        decreases n - i,
    {
        let c = a.get_char(i);
        let code: u32 = if 'A' <= c && c <= 'Z' {
            c as u32 + 32
        } else {
            c as u32
        };
        if code != b.get_char(i) as u32 {
            return false;
        }
        i = i + 1;
    }
    true
}

/// The length of the UTF-8 encoding of `s`, which `str::len` counts.
pub open spec fn byte_len(s: Seq<char>) -> int {
    vstd::utf8::encode_utf8(s).len() as int
}

fn char_byte_len(c: char) -> (w: usize)
    ensures
        w == vstd::utf8::encode_scalar(c as u32).len(),
{
    let code = c as u32;
    if code < 0x80 {
        1
    } else if code < 0x800 {
        2
    } else if code < 0x10000 {
        3
    } else {
        4
    }
}

/// Whether the UTF-8 encoding of `s` has at least `k` bytes.
pub fn has_bytes(s: &str, k: usize) -> (r: bool)
    ensures
        r == (byte_len(s@) >= k),
{
    if k == 0 {
        return true;
    }
    let n = s.unicode_len();
    let mut acc: usize = 0;
    let mut i: usize = 0;
    assert(s@.skip(0) =~= s@);
    while i < n
        invariant
            n == s@.len(),
            0 <= i <= n,
            acc < k,
            byte_len(s@) == acc + byte_len(s@.skip(i as int)),
        decreases n - i,
    {
        let w = char_byte_len(s.get_char(i));
        assert(s@.skip(i as int).drop_first() =~= s@.skip(i + 1));
        assert(s@.skip(i as int)[0] == s@[i as int]);
        i = i + 1;
        if w >= k - acc {
            assert(byte_len(s@.skip(i as int)) >= 0);
            return true;
        }
        acc = acc + w;
    }
    assert(s@.skip(n as int) =~= Seq::<char>::empty());
    false
}

/// Taking off the first and the last character of a text longer than two
/// bytes (the quotes around a displayed text value) does not fail.
pub open spec fn can_strip_ends(s: Seq<char>) -> bool {
    byte_len(s) > 2 ==> s.len() >= 2
}

/// `s` without its first and last character when it is longer than two bytes.
pub open spec fn stripped(s: Seq<char>) -> Seq<char> {
    if byte_len(s) > 2 {
        s.subrange(1, s.len() - 1)
    } else {
        s
    }
}

/// Takes off the first and the last character of a text longer than two
/// bytes, as `String::pop` followed by `String::remove(0)` do.
pub fn strip_ends(s: &str) -> (r: String)
    requires
        can_strip_ends(s@),
    ensures
        r@ == stripped(s@),
{
    if has_bytes(s, 3) {
        let n = s.unicode_len();
        s.substring_char(1, n - 1).to_owned()
    } else {
        s.to_owned()
    }
}

/// Cutting a text after its sixth byte does not fall inside a character.
pub open spec fn can_cut_six_bytes(s: Seq<char>) -> bool {
    byte_len(s) >= 6 ==> vstd::utf8::is_char_boundary(vstd::utf8::encode_utf8(s), 6)
}

/// The text of the first six bytes of `s` when it has that many, else `s`.
pub open spec fn six_byte_prefix(s: Seq<char>) -> Seq<char> {
    if byte_len(s) >= 6 {
        vstd::utf8::decode_utf8(vstd::utf8::encode_utf8(s).take(6))
    } else {
        s
    }
}

/// The first six bytes of `s` when it has that many, else `s` itself, as
/// `&s[..6]` behind a length test gives them.
pub fn first_six_bytes(s: &str) -> (r: String)
    requires
        can_cut_six_bytes(s@),
    ensures
        r@ == six_byte_prefix(s@),
        byte_len(s@) >= 6 ==> vstd::utf8::encode_utf8(r@) == vstd::utf8::encode_utf8(s@).take(6),
{
    if has_bytes(s, 6) {
        let (head, _tail) = s.split_at(6);
        let r = head.to_owned();
        proof {
            vstd::utf8::encode_utf8_decode_utf8(r@);
            assert(vstd::utf8::encode_utf8(r@) =~= vstd::utf8::encode_utf8(s@).take(6));
        }
        r
    } else {
        s.to_owned()
    }
}

} // verus!
