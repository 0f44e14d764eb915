//! Text primitives shared by the parsers and formatters of the library:
//! character sequences, Unicode whitespace, decimal rendering and parsing of
//! unsigned integers as `str::parse` accepts them.

use vstd::prelude::*;
use vstd::string::*;

verus! {

/// Unicode `White_Space`, the property that `char::is_whitespace` tests.
pub open spec fn is_ws(c: char) -> bool {
    ||| c == '\t' || c == '\n' || c == '\u{0B}' || c == '\u{0C}' || c == '\r' || c == ' '
    ||| c == '\u{85}' || c == '\u{A0}' || c == '\u{1680}'
    ||| ('\u{2000}' <= c && c <= '\u{200A}')
    ||| c == '\u{2028}' || c == '\u{2029}' || c == '\u{202F}' || c == '\u{205F}' || c == '\u{3000}'
}

/// Executable whitespace test.
pub fn char_is_ws(c: char) -> (b: bool)
    ensures
        b == is_ws(c),
{
    c == '\t' || c == '\n' || c == '\u{0B}' || c == '\u{0C}' || c == '\r' || c == ' '
        || c == '\u{85}' || c == '\u{A0}' || c == '\u{1680}'
        || ('\u{2000}' <= c && c <= '\u{200A}')
        || c == '\u{2028}' || c == '\u{2029}' || c == '\u{202F}' || c == '\u{205F}' || c == '\u{3000}'
}

/// The characters of a string slice, in order.
pub fn chars_of(s: &str) -> (v: Vec<char>)
    ensures
        v@ == s@,
{
    let n = s.unicode_len();
    let mut v: Vec<char> = Vec::new();
    let mut i: usize = 0;
    while i < n
        invariant
            n == s@.len(),
            i <= n,
            v@ == s@.subrange(0, i as int),
        decreases n - i,
    {
        let c = s.get_char(i);
        v.push(c);
        i = i + 1;
        assert(v@ =~= s@.subrange(0, i as int));
    }
    assert(v@ =~= s@);
    v
}

/// Character-wise equality of two strings.
pub fn same_text(a: &str, b: &str) -> (r: bool)
    ensures
        r == (a@ == b@),
{
    let x = chars_of(a);
    let y = chars_of(b);
    if x.len() != y.len() {
        return false;
    }
    let mut i: usize = 0;
    while i < x.len()
        invariant
            x@.len() == y@.len(),
            x@ == a@,
            y@ == b@,
            i <= x@.len(),
            forall|k: int| 0 <= k < i ==> x@[k] == y@[k],
        decreases x@.len() - i,
    {
        if x[i] != y[i] {
            proof {
                if a@ == b@ {
                    assert(x@ == y@);
                    assert(x@[i as int] == y@[i as int]);
                }
            }
            return false;
        }
        i = i + 1;
    }
    assert(x@ =~= y@);
    true
}

/// A copy of `s[from..to]`.
pub fn sub_chars(s: &[char], from: usize, to: usize) -> (v: Vec<char>)
    requires
        from <= to <= s@.len(),
    ensures
        v@ == s@.subrange(from as int, to as int),
{
    let mut v: Vec<char> = Vec::new();
    let mut i = from;
    while i < to
        invariant
            from <= i <= to <= s@.len(),
            v@ == s@.subrange(from as int, i as int),
        decreases to - i,
    {
        v.push(s[i]);
        i = i + 1;
        assert(v@ =~= s@.subrange(from as int, i as int));
    }
    v
}

/// `String::push`: appends one character.
#[verifier::external_body]
pub(crate) fn push_char(s: &mut String, c: char)
    ensures
        final(s)@ == old(s)@.push(c),
{
    s.push(c);
}

/// Appends every character of `cs` to `s`.
pub fn push_chars(s: &mut String, cs: &[char])
    ensures
        final(s)@ == old(s)@ + cs@,
{
    let mut i: usize = 0;
    while i < cs.len()
        invariant
            i <= cs@.len(),
            s@ == old(s)@ + cs@.subrange(0, i as int),
        decreases cs@.len() - i,
    {
        push_char(s, cs[i]);
        i = i + 1;
        assert(s@ =~= old(s)@ + cs@.subrange(0, i as int));
    }
    assert(cs@.subrange(0, cs@.len() as int) =~= cs@);
}

/// A `String` holding exactly the characters of `cs`.
pub fn string_of(cs: &[char]) -> (s: String)
    ensures
        s@ == cs@,
{
    let mut s = String::new();
    push_chars(&mut s, cs);
    assert(s@ =~= cs@);
    s
}

/// The digit character of a value below ten.
pub open spec fn digit_char(d: nat) -> char {
    (('0' as nat) + d) as char
}

/// The numeric value of a decimal digit character.
pub open spec fn digit_value(c: char) -> nat {
    ((c as int) - ('0' as int)) as nat
}

pub open spec fn is_digit(c: char) -> bool {
    '0' <= c && c <= '9'
}

/// Decimal rendering of a natural number, without leading zeros
/// (`"0"` for zero), as `Display` renders unsigned integers.
pub open spec fn decimal(n: nat) -> Seq<char>
    decreases n,
{
    if n < 10 {
        seq![digit_char(n)]
    } else {
        decimal(n / 10).push(digit_char(n % 10))
    }
}

/// Appends the decimal rendering of `n`.
pub fn push_decimal(s: &mut String, n: u128)
    ensures
        final(s)@ == old(s)@ + decimal(n as nat),
    decreases n,
{
    if n >= 10 {
        push_decimal(s, n / 10);
    }
    let d = (n % 10) as u32;
    let c = char_of_digit(d);
    push_char(s, c);
    assert(s@ =~= old(s)@ + decimal(n as nat));
}

/// The character of a decimal digit.
pub fn char_of_digit(d: u32) -> (c: char)
    requires
        d < 10,
    ensures
        c == digit_char(d as nat),
{
    if d == 0 { '0' }
    else if d == 1 { '1' }
    else if d == 2 { '2' }
    else if d == 3 { '3' }
    else if d == 4 { '4' }
    else if d == 5 { '5' }
    else if d == 6 { '6' }
    else if d == 7 { '7' }
    else if d == 8 { '8' }
    else { '9' }
}

/// Value of a sequence of decimal digits, most significant first.
pub open spec fn digits_value(s: Seq<char>) -> nat
    decreases s.len(),
{
    if s.len() == 0 {
        0
    } else {
        digits_value(s.drop_last()) * 10 + digit_value(s.last())
    }
}

pub open spec fn all_digits(s: Seq<char>) -> bool {
    forall|i: int| 0 <= i < s.len() ==> is_digit(#[trigger] s[i])
}

/// What `str::parse` gives for an unsigned integer type whose largest value
/// is `max`: an optional leading `+`, then one or more ASCII digits whose
/// value does not exceed `max`.
pub open spec fn parse_unsigned(s: Seq<char>, max: nat) -> Option<nat> {
    let body = if s.len() > 0 && s[0] == '+' { s.drop_first() } else { s };
    if body.len() > 0 && all_digits(body) && digits_value(body) <= max {
        Some(digits_value(body))
    } else {
        None
    }
}

proof fn lemma_digits_value_step(s: Seq<char>, i: int)
    requires
        0 <= i < s.len(),
    ensures
        digits_value(s.subrange(0, i + 1)) == digits_value(s.subrange(0, i)) * 10 + digit_value(s[i]),
{
    assert(s.subrange(0, i + 1).drop_last() =~= s.subrange(0, i));
}

proof fn lemma_digits_value_mono(s: Seq<char>, i: int, j: int)
    requires
        0 <= i <= j <= s.len(),
        all_digits(s),
    ensures
        digits_value(s.subrange(0, i)) <= digits_value(s.subrange(0, j)),
    decreases j - i,
{
    if i < j {
        lemma_digits_value_mono(s, i, j - 1);
        lemma_digits_value_step(s, j - 1);
    }
}

/// Parses an unsigned integer bounded by `max` from `s[start..end]`, as
/// `str::parse` does.
pub fn parse_unsigned_range(s: &[char], start: usize, end: usize, max: u64) -> (r: Option<u64>)
    requires
        start <= end <= s@.len(),
    ensures
        r matches Some(v) ==> parse_unsigned(s@.subrange(start as int, end as int), max as nat) == Some(v as nat),
        r is None ==> parse_unsigned(s@.subrange(start as int, end as int), max as nat) is None,
{
    let ghost w = s@.subrange(start as int, end as int);
    let mut i = start;
    if i < end && s[i] == '+' {
        i = i + 1;
    }
    let ghost body = s@.subrange(i as int, end as int);
    assert(body =~= (if w.len() > 0 && w[0] == '+' { w.drop_first() } else { w }));
    if i == end {
        return None;
    }
    let b = i;
    let mut acc: u64 = 0;
    while i < end
        invariant
            start <= b <= i <= end <= s@.len(),
            body == s@.subrange(b as int, end as int),
            w == s@.subrange(start as int, end as int),
            body == (if w.len() > 0 && w[0] == '+' { w.drop_first() } else { w }),
            body.len() > 0,
            all_digits(s@.subrange(b as int, i as int)),
            acc as nat == digits_value(s@.subrange(b as int, i as int)),
            acc <= max,
        decreases end - i,
    {
        let c = s[i];
        if !('0' <= c && c <= '9') {
            assert(body[i - b] == c);
            assert(!is_digit(body[i - b]));
            return None;
        }
        let d = (c as u32 - '0' as u32) as u64;
        proof {
            let t = s@.subrange(b as int, end as int);
            assert(s@.subrange(b as int, i as int) =~= t.subrange(0, i - b));
            assert(s@.subrange(b as int, i + 1) =~= t.subrange(0, i - b + 1));
            lemma_digits_value_step(t, i - b);
        }
        if d > max || acc > (max - d) / 10 {
            proof {
                let t = s@.subrange(b as int, end as int);
                assert(s@.subrange(b as int, i + 1) =~= t.subrange(0, i - b + 1));
                if d <= max {
                    assert(acc * 10 + d > max) by (nonlinear_arith)
                        requires acc > (max - d) / 10, d <= max;
                }
                if all_digits(t) {
                    lemma_digits_value_mono(t, i - b + 1, t.len() as int);
                    assert(t.subrange(0, t.len() as int) =~= t);
                }
            }
            return None;
        }
        proof {
            assert(acc * 10 + d <= max) by (nonlinear_arith)
                requires acc <= (max - d) / 10, d <= max;
        }
        acc = acc * 10 + d;
        i = i + 1;
        assert(all_digits(s@.subrange(b as int, i as int)));
    }
    assert(s@.subrange(b as int, i as int) =~= body);
    Some(acc)
}


/// The fields that `str::split_whitespace` yields: the maximal runs of
/// non-whitespace characters, in order. Defined by reading the text from
/// left to right: a non-whitespace character that follows whitespace (or
/// starts the text) opens a field, one that follows a non-whitespace
/// character extends the last field.
pub open spec fn ws_fields(s: Seq<char>) -> Seq<Seq<char>>
    decreases s.len(),
{
    if s.len() == 0 {
        Seq::empty()
    } else {
        let prev = ws_fields(s.drop_last());
        let c = s.last();
        if is_ws(c) {
            prev
        } else if s.len() >= 2 && !is_ws(s[s.len() - 2]) {
            prev.update(prev.len() - 1, prev.last().push(c))
        } else {
            prev.push(seq![c])
        }
    }
}

pub proof fn lemma_ws_fields_nonempty(s: Seq<char>)
    requires
        s.len() > 0,
        !is_ws(s.last()),
    ensures
        ws_fields(s).len() > 0,
    decreases s.len(),
{
    if s.len() >= 2 && !is_ws(s[s.len() - 2]) {
        let t = s.drop_last();
        assert(t.last() == s[s.len() - 2]);
        lemma_ws_fields_nonempty(t);
    }
}

/// A field of `s`, given by its character range `[start, end)`.
pub open spec fn range_text(s: Seq<char>, r: (usize, usize)) -> Seq<char> {
    s.subrange(r.0 as int, r.1 as int)
}

pub open spec fn ranges_match(s: Seq<char>, rs: Seq<(usize, usize)>, fields: Seq<Seq<char>>, n: int) -> bool {
    &&& 0 <= n <= rs.len()
    &&& n <= fields.len()
    &&& forall|k: int| 0 <= k < n ==> #[trigger] rs[k].0 <= rs[k].1 <= s.len()
    &&& forall|k: int| 0 <= k < n ==> range_text(s, #[trigger] rs[k]) == fields[k]
}

/// Character ranges of the whitespace-separated fields of `s`.
pub fn split_ws(s: &[char]) -> (rs: Vec<(usize, usize)>)
    ensures
        rs@.len() == ws_fields(s@).len(),
        ranges_match(s@, rs@, ws_fields(s@), rs@.len() as int),
{
    let mut rs: Vec<(usize, usize)> = Vec::new();
    let mut in_word = false;
    let mut start: usize = 0;
    let mut i: usize = 0;
    while i < s.len()
        invariant
            i <= s@.len(),
            in_word == (i > 0 && !is_ws(s@[i - 1])),
            in_word ==> start < i && rs@.len() + 1 == ws_fields(s@.subrange(0, i as int)).len(),
            in_word ==> ranges_match(s@, rs@, ws_fields(s@.subrange(0, i as int)), rs@.len() as int),
            in_word ==> ws_fields(s@.subrange(0, i as int)).last() == s@.subrange(start as int, i as int),
            !in_word ==> rs@.len() == ws_fields(s@.subrange(0, i as int)).len(),
            !in_word ==> ranges_match(s@, rs@, ws_fields(s@.subrange(0, i as int)), rs@.len() as int),
        decreases s@.len() - i,
    {
        let c = s[i];
        let ghost t = s@.subrange(0, i as int + 1);
        let ghost prev = ws_fields(s@.subrange(0, i as int));
        assert(t.drop_last() =~= s@.subrange(0, i as int));
        assert(t.last() == c);
        if char_is_ws(c) {
            if in_word {
                rs.push((start, i));
                proof {
                    assert(range_text(s@, rs@[rs@.len() - 1]) == prev.last());
                    assert(ws_fields(t) == prev);
                }
            }
            in_word = false;
        } else {
            if in_word {
                proof {
                    assert(t[t.len() - 2] == s@[i - 1]);
                    assert(s@.subrange(start as int, i as int + 1) =~= s@.subrange(start as int, i as int).push(c));
                }
            } else {
                start = i;
                proof {
                    if i > 0 {
                        assert(t[t.len() - 2] == s@[i - 1]);
                    }
                    assert(s@.subrange(start as int, i as int + 1) =~= seq![c]);
                }
            }
            in_word = true;
        }
        i = i + 1;
        proof {
            assert(t =~= s@.subrange(0, i as int));
        }
    }
    if in_word {
        rs.push((start, i));
        proof {
            assert(s@.subrange(0, i as int) =~= s@);
        }
    }
    proof {
        assert(s@.subrange(0, i as int) =~= s@);
    }
    rs
}


/// The pieces that `str::split` with a single-character separator yields:
/// one piece more than there are separators; separators are not kept.
pub open spec fn split_char(s: Seq<char>, d: char) -> Seq<Seq<char>>
    decreases s.len(),
{
    if s.len() == 0 {
        seq![Seq::empty()]
    } else {
        let prev = split_char(s.drop_last(), d);
        if s.last() == d {
            prev.push(Seq::empty())
        } else {
            prev.update(prev.len() - 1, prev.last().push(s.last()))
        }
    }
}

pub proof fn lemma_split_char_nonempty(s: Seq<char>, d: char)
    ensures
        split_char(s, d).len() > 0,
    decreases s.len(),
{
    if s.len() > 0 {
        lemma_split_char_nonempty(s.drop_last(), d);
    }
}

/// No piece holds the separator.
pub proof fn lemma_split_char_pieces(s: Seq<char>, d: char)
    ensures
        forall|i: int| 0 <= i < split_char(s, d).len() ==> !(#[trigger] split_char(s, d)[i]).contains(d),
    decreases s.len(),
{
    lemma_split_char_nonempty(s, d);
    if s.len() > 0 {
        let prev = split_char(s.drop_last(), d);
        lemma_split_char_pieces(s.drop_last(), d);
        lemma_split_char_nonempty(s.drop_last(), d);
        if s.last() != d {
            let p = prev.last().push(s.last());
            assert forall|k: int| 0 <= k < p.len() implies p[k] != d by {
                if k < p.len() - 1 {
                    assert(p[k] == prev.last()[k]);
                    assert(!prev[prev.len() - 1].contains(d));
                }
            }
        }
    }
}

/// Appending a piece without the separator extends the last piece.
pub proof fn lemma_split_char_extend(s: Seq<char>, p: Seq<char>, d: char)
    requires
        !p.contains(d),
    ensures
        split_char(s + p, d) == split_char(s, d).update(split_char(s, d).len() - 1, split_char(s, d).last() + p),
    decreases p.len(),
{
    lemma_split_char_nonempty(s, d);
    let prev = split_char(s, d);
    if p.len() == 0 {
        assert(s + p =~= s);
        assert(prev.last() + p =~= prev.last());
        assert(prev.update(prev.len() - 1, prev.last()) =~= prev);
    } else {
        let q = p.drop_last();
        assert(!q.contains(d)) by {
            assert forall|k: int| 0 <= k < q.len() implies q[k] != d by {
                assert(q[k] == p[k]);
            }
        }
        lemma_split_char_extend(s, q, d);
        assert((s + p).drop_last() =~= s + q);
        assert((s + p).last() == p.last());
        assert(p.last() != d) by {
            assert(p[p.len() - 1] == p.last());
        }
        assert(prev.last() + q + seq![p.last()] =~= prev.last() + p);
        assert((prev.last() + q).push(p.last()) =~= prev.last() + p);
    }
}

/// Appending the separator starts a new, empty piece.
pub proof fn lemma_split_char_sep(s: Seq<char>, d: char)
    ensures
        split_char(s.push(d), d) == split_char(s, d).push(Seq::<char>::empty()),
{
    assert(s.push(d).drop_last() =~= s);
}

/// Character ranges of the pieces of `s` separated by `d`.
pub fn split_on(s: &[char], d: char) -> (rs: Vec<(usize, usize)>)
    ensures
        rs@.len() == split_char(s@, d).len(),
        ranges_match(s@, rs@, split_char(s@, d), rs@.len() as int),
{
    let mut rs: Vec<(usize, usize)> = Vec::new();
    let mut start: usize = 0;
    let mut i: usize = 0;
    while i < s.len()
        invariant
            start <= i <= s@.len(),
            rs@.len() + 1 == split_char(s@.subrange(0, i as int), d).len(),
            ranges_match(s@, rs@, split_char(s@.subrange(0, i as int), d), rs@.len() as int),
            split_char(s@.subrange(0, i as int), d).last() == s@.subrange(start as int, i as int),
        decreases s@.len() - i,
    {
        let c = s[i];
        let ghost t = s@.subrange(0, i as int + 1);
        let ghost prev = split_char(s@.subrange(0, i as int), d);
        assert(t.drop_last() =~= s@.subrange(0, i as int));
        assert(t.last() == c);
        if c == d {
            rs.push((start, i));
            i = i + 1;
            start = i;
            proof {
                assert(range_text(s@, rs@[rs@.len() - 1]) == prev.last());
                assert(t =~= s@.subrange(0, i as int));
                assert(s@.subrange(start as int, i as int) =~= Seq::<char>::empty());
            }
        } else {
            i = i + 1;
            proof {
                assert(t =~= s@.subrange(0, i as int));
                assert(s@.subrange(start as int, i as int) =~= s@.subrange(start as int, i - 1).push(c));
            }
        }
    }
    rs.push((start, i));
    proof {
        assert(s@.subrange(0, i as int) =~= s@);
    }
    rs
}

/// Number of leading whitespace characters of `s`.
pub open spec fn lead_ws(s: Seq<char>) -> nat
    decreases s.len(),
{
    if s.len() > 0 && is_ws(s[0]) {
        1 + lead_ws(s.drop_first())
    } else {
        0
    }
}

/// Number of trailing whitespace characters of `s`.
pub open spec fn trail_ws(s: Seq<char>) -> nat
    decreases s.len(),
{
    if s.len() > 0 && is_ws(s.last()) {
        1 + trail_ws(s.drop_last())
    } else {
        0
    }
}

/// `str::trim`: `s` without its leading and trailing whitespace.
pub open spec fn trim(s: Seq<char>) -> Seq<char> {
    let t = s.skip(lead_ws(s) as int);
    t.take(t.len() - trail_ws(t))
}

proof fn lemma_lead_ws(s: Seq<char>, a: int)
    requires
        0 <= a <= s.len(),
        forall|k: int| 0 <= k < a ==> is_ws(#[trigger] s[k]),
        a == s.len() || !is_ws(s[a]),
    ensures
        lead_ws(s) == a,
    decreases a,
{
    if a > 0 {
        lemma_lead_ws(s.drop_first(), a - 1);
    }
}

proof fn lemma_trail_ws(s: Seq<char>, b: int)
    requires
        0 <= b <= s.len(),
        forall|k: int| b <= k < s.len() ==> is_ws(#[trigger] s[k]),
        b == 0 || !is_ws(s[b - 1]),
    ensures
        trail_ws(s) == s.len() - b,
    decreases s.len() - b,
{
    if b < s.len() {
        lemma_trail_ws(s.drop_last(), b);
    }
}

/// Bounds `[a, b)` of the trimmed text of `s`.
pub fn trim_range(s: &[char]) -> (r: (usize, usize))
    ensures
        r.0 <= r.1 <= s@.len(),
        s@.subrange(r.0 as int, r.1 as int) == trim(s@),
{
    let mut a: usize = 0;
    while a < s.len() && char_is_ws(s[a])
        invariant
            a <= s@.len(),
            forall|k: int| 0 <= k < a ==> is_ws(#[trigger] s@[k]),
        decreases s@.len() - a,
    {
        a = a + 1;
    }
    let mut b: usize = s.len();
    while b > a && char_is_ws(s[b - 1])
        invariant
            a <= b <= s@.len(),
            forall|k: int| b <= k < s@.len() ==> is_ws(#[trigger] s@[k]),
        decreases b,
    {
        b = b - 1;
    }
    proof {
        lemma_lead_ws(s@, a as int);
        let t = s@.skip(a as int);
        assert forall|k: int| b - a <= k < t.len() implies is_ws(#[trigger] t[k]) by {
            assert(t[k] == s@[a + k]);
        }
        if b > a {
            assert(t[b - a - 1] == s@[b - 1]);
        }
        lemma_trail_ws(t, b - a);
        assert(s@.subrange(a as int, b as int) =~= t.take(t.len() - trail_ws(t)));
    }
    (a, b)
}

/// `str::trim` as an owned string.
pub fn trimmed(s: &str) -> (r: String)
    ensures
        r@ == trim(s@),
{
    let cs = chars_of(s);
    let (a, b) = trim_range(cs.as_slice());
    let part = sub_chars(cs.as_slice(), a, b);
    string_of(part.as_slice())
}

/// Whether `s` is empty once trimmed.
pub fn is_blank(s: &str) -> (r: bool)
    ensures
        r == (trim(s@).len() == 0),
{
    let cs = chars_of(s);
    let (a, b) = trim_range(cs.as_slice());
    a == b
}

/// `i` is the position of the first occurrence of `c` in `s`.
pub open spec fn is_first_index(s: Seq<char>, c: char, i: int) -> bool {
    0 <= i < s.len() && s[i] == c && forall|j: int| 0 <= j < i ==> s[j] != c
}

/// `i` is the position of the last occurrence of `c` in `s`.
pub open spec fn is_last_index(s: Seq<char>, c: char, i: int) -> bool {
    0 <= i < s.len() && s[i] == c && forall|j: int| i < j < s.len() ==> s[j] != c
}

/// `str::find` with a character pattern, in character positions.
pub open spec fn find_char(s: Seq<char>, c: char) -> Option<int> {
    if s.contains(c) {
        Some(choose|i: int| is_first_index(s, c, i))
    } else {
        None
    }
}

/// `str::rfind` with a character pattern, in character positions.
pub open spec fn rfind_char(s: Seq<char>, c: char) -> Option<int> {
    if s.contains(c) {
        Some(choose|i: int| is_last_index(s, c, i))
    } else {
        None
    }
}

/// Position of the first `c` in `s[from..]`, counted from the start of `s`.
pub fn find_from(s: &[char], from: usize, c: char) -> (r: Option<usize>)
    requires
        from <= s@.len(),
    ensures
        r matches Some(i) ==> find_char(s@.skip(from as int), c) == Some(i - from),
        r matches Some(i) ==> from <= i < s@.len() && s@[i as int] == c,
        r is None ==> find_char(s@.skip(from as int), c) is None,
{
    let ghost t = s@.skip(from as int);
    let mut i = from;
    while i < s.len()
        invariant
            from <= i <= s@.len(),
            t == s@.skip(from as int),
            forall|j: int| 0 <= j < i - from ==> t[j] != c,
        decreases s@.len() - i,
    {
        if s[i] == c {
            proof {
                assert(is_first_index(t, c, i - from));
                assert(t.contains(c));
                let k = choose|k: int| is_first_index(t, c, k);
                assert(k == i - from);
            }
            return Some(i);
        }
        i = i + 1;
    }
    proof {
        if t.contains(c) {
            let k = choose|k: int| 0 <= k < t.len() && t[k] == c;
            assert(t[k] != c);
        }
    }
    None
}

/// Position of the last `c` in `s`.
pub fn rfind(s: &[char], c: char) -> (r: Option<usize>)
    ensures
        r matches Some(i) ==> rfind_char(s@, c) == Some(i as int),
        r matches Some(i) ==> i < s@.len() && s@[i as int] == c,
        r is None ==> rfind_char(s@, c) is None,
{
    let mut i = s.len();
    while i > 0
        invariant
            i <= s@.len(),
            forall|j: int| i <= j < s@.len() ==> s@[j] != c,
        decreases i,
    {
        if s[i - 1] == c {
            proof {
                assert(is_last_index(s@, c, i - 1));
                assert(s@.contains(c));
                let k = choose|k: int| is_last_index(s@, c, k);
                assert(k == i - 1);
            }
            return Some(i - 1);
        }
        i = i - 1;
    }
    proof {
        if s@.contains(c) {
            let k = choose|k: int| 0 <= k < s@.len() && s@[k] == c;
            assert(s@[k] != c);
        }
    }
    None
}

} // verus!
