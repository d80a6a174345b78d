//! Character-sequence operations used throughout the crate: decimal
//! formatting and parsing, trimming, searching, replacing and joining.
//! Every function works on the `Seq<char>` view of its strings.
use vstd::prelude::*;

verus! {

broadcast use vstd::string::group_string_axioms;

/// `String::push` appends one character at the end of the string.
pub assume_specification[ String::push ](s: &mut String, ch: char)
    ensures
        final(s)@ == old(s)@.push(ch),
;

// ---------------------------------------------------------------------------
// Specifications
// ---------------------------------------------------------------------------

pub open spec fn is_digit(c: char) -> bool {
    '0' <= c && c <= '9'
}

pub open spec fn digit_value(c: char) -> nat {
    (c as int - '0' as int) as nat
}

pub open spec fn digit_char(d: nat) -> char {
    ('0' as int + d) as char
}

/// The decimal representation of `n`, without sign or leading zeros.
pub open spec fn dec(n: nat) -> Seq<char>
    decreases n,
{
    if n < 10 {
        seq![digit_char(n)]
    } else {
        dec(n / 10).push(digit_char(n % 10))
    }
}

/// The decimal representation of an integer, with `-` before a negative one.
pub open spec fn signed_dec(i: int) -> Seq<char> {
    if i < 0 {
        seq!['-'] + dec((-i) as nat)
    } else {
        dec(i as nat)
    }
}

pub open spec fn all_digits(s: Seq<char>) -> bool {
    forall|i: int| 0 <= i < s.len() ==> #[trigger] is_digit(s[i])
}

/// The number written by a sequence of decimal digits.
pub open spec fn digits_value(s: Seq<char>) -> nat
    decreases s.len(),
{
    if s.len() == 0 {
        0
    } else {
        digits_value(s.drop_last()) * 10 + digit_value(s.last())
    }
}

/// What `str::parse` gives for an unsigned integer type whose largest value
/// is `max`: an optional `+` followed by at least one decimal digit, and
/// nothing else, denoting a number no larger than `max`.
pub open spec fn parse_unsigned(s: Seq<char>, max: nat) -> Option<nat> {
    let body = if s.len() > 0 && s[0] == '+' {
        s.drop_first()
    } else {
        s
    };
    if body.len() > 0 && all_digits(body) && digits_value(body) <= max {
        Some(digits_value(body))
    } else {
        None
    }
}

/// The characters that have the Unicode `White_Space` property, which is what
/// `char::is_whitespace` and `str::trim` go by.
pub open spec fn is_whitespace(c: char) -> bool {
    ||| ('\u{9}' <= c && c <= '\u{d}')
    ||| c == ' '
    ||| c == '\u{85}'
    ||| c == '\u{a0}'
    ||| c == '\u{1680}'
    ||| ('\u{2000}' <= c && c <= '\u{200a}')
    ||| c == '\u{2028}'
    ||| c == '\u{2029}'
    ||| c == '\u{202f}'
    ||| c == '\u{205f}'
    ||| c == '\u{3000}'
}

pub open spec fn trim_start(s: Seq<char>) -> Seq<char>
    decreases s.len(),
{
    if s.len() > 0 && is_whitespace(s[0]) {
        trim_start(s.drop_first())
    } else {
        s
    }
}

pub open spec fn trim_end(s: Seq<char>) -> Seq<char>
    decreases s.len(),
{
    if s.len() > 0 && is_whitespace(s.last()) {
        trim_end(s.drop_last())
    } else {
        s
    }
}

/// `str::trim`: whitespace removed at both ends.
pub open spec fn trim(s: Seq<char>) -> Seq<char> {
    trim_end(trim_start(s))
}

pub open spec fn starts_with(s: Seq<char>, p: Seq<char>) -> bool {
    p.len() <= s.len() && s.subrange(0, p.len() as int) == p
}

pub open spec fn ends_with(s: Seq<char>, p: Seq<char>) -> bool {
    p.len() <= s.len() && s.subrange(s.len() - p.len(), s.len() as int) == p
}

pub open spec fn occurs_at(s: Seq<char>, p: Seq<char>, k: int) -> bool {
    0 <= k && k + p.len() <= s.len() && s.subrange(k, k + p.len()) == p
}

/// `str::contains` for a string pattern.
pub open spec fn contains(s: Seq<char>, p: Seq<char>) -> bool {
    exists|k: int| occurs_at(s, p, k)
}

/// `str::replace`: every occurrence of the non-empty pattern `p`, found from
/// the left without overlap, replaced by `r`.
pub open spec fn replace_all(s: Seq<char>, p: Seq<char>, r: Seq<char>) -> Seq<char>
    decreases s.len(),
{
    if s.len() == 0 || p.len() == 0 {
        s
    } else if starts_with(s, p) {
        r + replace_all(s.skip(p.len() as int), p, r)
    } else {
        seq![s[0]] + replace_all(s.drop_first(), p, r)
    }
}

/// `str::trim_start_matches` for a non-empty string pattern: every leading
/// repetition of `p` removed.
pub open spec fn strip_all_prefixes(s: Seq<char>, p: Seq<char>) -> Seq<char>
    decreases s.len(),
{
    if p.len() > 0 && starts_with(s, p) {
        strip_all_prefixes(s.skip(p.len() as int), p)
    } else {
        s
    }
}

/// `str::trim_end_matches` for a single character: every trailing `c` removed.
pub open spec fn strip_all_suffix_char(s: Seq<char>, c: char) -> Seq<char>
    decreases s.len(),
{
    if s.len() > 0 && s.last() == c {
        strip_all_suffix_char(s.drop_last(), c)
    } else {
        s
    }
}

pub open spec fn ascii_lower(c: char) -> char {
    if 'A' <= c && c <= 'Z' {
        (c as int + 32) as char
    } else {
        c
    }
}

/// `str::to_ascii_lowercase`.
pub open spec fn ascii_lowercase(s: Seq<char>) -> Seq<char> {
    Seq::new(s.len(), |i: int| ascii_lower(s[i]))
}

/// The pieces written one after the other with `sep` between each two
/// (`[String]::join`).
pub open spec fn join(pieces: Seq<Seq<char>>, sep: Seq<char>) -> Seq<char>
    decreases pieces.len(),
{
    if pieces.len() == 0 {
        Seq::empty()
    } else if pieces.len() == 1 {
        pieces[0]
    } else {
        join(pieces.drop_last(), sep) + sep + pieces.last()
    }
}

/// Lexicographic order of strings, character by character (`str`'s `Ord`:
/// UTF-8 keeps the order of code points, so byte order and character order
/// agree).
pub open spec fn str_lt(a: Seq<char>, b: Seq<char>) -> bool
    decreases a.len(),
{
    if a.len() == 0 {
        b.len() > 0
    } else if b.len() == 0 {
        false
    } else if a[0] != b[0] {
        a[0] < b[0]
    } else {
        str_lt(a.drop_first(), b.drop_first())
    }
}

pub open spec fn str_le(a: Seq<char>, b: Seq<char>) -> bool {
    a == b || str_lt(a, b)
}

// ---------------------------------------------------------------------------
// Lemmas
// ---------------------------------------------------------------------------

proof fn lemma_ascii_lower_char(c: char)
    ensures
        is_whitespace(ascii_lower(c)) == is_whitespace(c),
        ascii_lower(ascii_lower(c)) == ascii_lower(c),
        !('A' <= c && c <= 'Z') ==> ascii_lower(c) == c,
        ('A' <= c && c <= 'Z') ==> 'a' <= ascii_lower(c) && ascii_lower(c) <= 'z',
{
}

/// Lowercasing keeps the length and works character by character.
pub proof fn lemma_ascii_lowercase_shape(s: Seq<char>)
    ensures
        ascii_lowercase(s).len() == s.len(),
        s.len() > 0 ==> ascii_lowercase(s).drop_first() == ascii_lowercase(s.drop_first()),
        s.len() > 0 ==> ascii_lowercase(s).drop_last() == ascii_lowercase(s.drop_last()),
        s.len() > 0 ==> ascii_lowercase(s)[0] == ascii_lower(s[0]),
        s.len() > 0 ==> ascii_lowercase(s).last() == ascii_lower(s.last()),
{
    if s.len() > 0 {
        assert(ascii_lowercase(s).drop_first() =~= ascii_lowercase(s.drop_first()));
        assert(ascii_lowercase(s).drop_last() =~= ascii_lowercase(s.drop_last()));
    }
}

/// Lowercasing twice is lowercasing once.
pub proof fn lemma_ascii_lowercase_idempotent(s: Seq<char>)
    ensures
        ascii_lowercase(ascii_lowercase(s)) == ascii_lowercase(s),
{
    assert forall|i: int| 0 <= i < s.len() implies ascii_lowercase(ascii_lowercase(s))[i] == ascii_lowercase(s)[i] by {
        lemma_ascii_lower_char(s[i]);
    }
    assert(ascii_lowercase(ascii_lowercase(s)) =~= ascii_lowercase(s));
}

/// Trimming and lowercasing can be done in either order (no whitespace
/// character is an ASCII letter).
pub proof fn lemma_trim_ascii_lowercase(s: Seq<char>)
    ensures
        trim(ascii_lowercase(s)) == ascii_lowercase(trim(s)),
{
    lemma_trim_start_lower(s);
    lemma_trim_end_lower(trim_start(s));
}

proof fn lemma_trim_start_lower(s: Seq<char>)
    ensures
        trim_start(ascii_lowercase(s)) == ascii_lowercase(trim_start(s)),
    decreases s.len(),
{
    lemma_ascii_lowercase_shape(s);
    if s.len() > 0 {
        lemma_ascii_lower_char(s[0]);
        lemma_trim_start_lower(s.drop_first());
    }
}

proof fn lemma_trim_end_lower(s: Seq<char>)
    ensures
        trim_end(ascii_lowercase(s)) == ascii_lowercase(trim_end(s)),
    decreases s.len(),
{
    lemma_ascii_lowercase_shape(s);
    if s.len() > 0 {
        lemma_ascii_lower_char(s.last());
        lemma_trim_end_lower(s.drop_last());
    }
}

/// A text found in a number written in decimal (with a sign) holds no ASCII
/// capital, so lowercasing leaves it as it is; and the same holds of a text
/// whose lowercase form is found there.
pub proof fn lemma_number_text_has_no_capitals(i: int, t: Seq<char>)
    ensures
        contains(signed_dec(i), t) ==> ascii_lowercase(t) == t,
        contains(signed_dec(i), ascii_lowercase(t)) ==> ascii_lowercase(t) == t,
{
    let sd = signed_dec(i);
    if i < 0 {
        lemma_dec((-i) as nat);
    } else {
        lemma_dec(i as nat);
    }
    assert forall|k: int| 0 <= k < sd.len() implies is_digit(#[trigger] sd[k]) || sd[k] == '-' by {
        if i < 0 {
            if k > 0 {
                assert(sd[k] == dec((-i) as nat)[k - 1]);
            }
        }
    }
    let lt = ascii_lowercase(t);
    if contains(sd, t) {
        let k = choose|k: int| occurs_at(sd, t, k);
        assert forall|j: int| 0 <= j < t.len() implies lt[j] == t[j] by {
            assert(t[j] == sd.subrange(k, k + t.len())[j]);
            assert(t[j] == sd[k + j]);
            lemma_ascii_lower_char(t[j]);
        }
        assert(lt =~= t);
    }
    if contains(sd, lt) {
        let k = choose|k: int| occurs_at(sd, lt, k);
        assert forall|j: int| 0 <= j < t.len() implies lt[j] == t[j] by {
            assert(lt[j] == sd.subrange(k, k + lt.len())[j]);
            assert(lt[j] == sd[k + j]);
            lemma_ascii_lower_char(t[j]);
        }
        assert(lt =~= t);
    }
}


/// For characters the deep view of a vector is its view.
pub broadcast proof fn lemma_chars_deep_view(v: Vec<char>)
    ensures
        #[trigger] v.deep_view() == v@,
{
    assert(v.deep_view() =~= v@);
}

pub proof fn lemma_digit_char(d: nat)
    requires
        d < 10,
    ensures
        is_digit(digit_char(d)),
        digit_value(digit_char(d)) == d,
{
}

pub proof fn lemma_dec(n: nat)
    ensures
        dec(n).len() >= 1,
        all_digits(dec(n)),
        digits_value(dec(n)) == n,
        is_digit(dec(n)[0]),
    decreases n,
{
    lemma_digit_char(n % 10);
    assert(n == (n / 10) * 10 + n % 10) by (nonlinear_arith);
    if n < 10 {
        let s = dec(n);
        assert(s.drop_last() =~= Seq::<char>::empty());
        assert(digits_value(Seq::<char>::empty()) == 0);
    } else {
        lemma_dec(n / 10);
        let s = dec(n);
        assert(s.drop_last() == dec(n / 10));
        assert(s.last() == digit_char(n % 10));
        assert forall|i: int| 0 <= i < s.len() implies #[trigger] is_digit(s[i]) by {
            if i < s.len() - 1 {
                assert(s[i] == dec(n / 10)[i]);
            }
        }
        assert(s[0] == dec(n / 10)[0]);
    }
}

/// Parsing the decimal representation of a number gives the number back.
pub proof fn lemma_parse_dec(n: nat, max: nat)
    requires
        n <= max,
    ensures
        parse_unsigned(dec(n), max) == Some(n),
{
    lemma_dec(n);
    assert(dec(n)[0] != '+');
}

pub proof fn lemma_digits_value_prefix_le(s: Seq<char>, j: int)
    requires
        0 <= j <= s.len(),
    ensures
        digits_value(s.take(j)) <= digits_value(s),
    decreases s.len(),
{
    if j < s.len() {
        assert(s.drop_last().take(j) == s.take(j));
        lemma_digits_value_prefix_le(s.drop_last(), j);
    } else {
        assert(s.take(j) == s);
    }
}

pub proof fn lemma_str_lt_irreflexive(a: Seq<char>)
    ensures
        !str_lt(a, a),
    decreases a.len(),
{
    if a.len() > 0 {
        lemma_str_lt_irreflexive(a.drop_first());
    }
}

pub proof fn lemma_str_lt_transitive(a: Seq<char>, b: Seq<char>, c: Seq<char>)
    requires
        str_lt(a, b),
        str_lt(b, c),
    ensures
        str_lt(a, c),
    decreases a.len(),
{
    if a.len() > 0 && b.len() > 0 && c.len() > 0 && a[0] == b[0] && b[0] == c[0] {
        lemma_str_lt_transitive(a.drop_first(), b.drop_first(), c.drop_first());
    }
}

pub proof fn lemma_str_lt_total(a: Seq<char>, b: Seq<char>)
    requires
        a != b,
    ensures
        str_lt(a, b) || str_lt(b, a),
    decreases a.len(),
{
    if a.len() > 0 && b.len() > 0 && a[0] == b[0] {
        if a.drop_first() == b.drop_first() {
            assert(a == seq![a[0]] + a.drop_first());
            assert(b == seq![b[0]] + b.drop_first());
        }
        lemma_str_lt_total(a.drop_first(), b.drop_first());
    }
    if a.len() == 0 && b.len() == 0 {
        assert(a == b);
    }
}

pub proof fn lemma_str_lt_asymmetric(a: Seq<char>, b: Seq<char>)
    requires
        str_lt(a, b),
    ensures
        !str_lt(b, a),
{
    if str_lt(b, a) {
        lemma_str_lt_transitive(a, b, a);
        lemma_str_lt_irreflexive(a);
    }
}

// ---------------------------------------------------------------------------
// Executable functions
// ---------------------------------------------------------------------------

/// The characters of a string slice, in order.
pub fn chars_of(s: &str) -> (r: Vec<char>)
    ensures
        r@ == s@,
{
    let mut r: Vec<char> = Vec::new();
    for c in it: s.chars()
        invariant
            it.seq() == s@,
            r@ == s@.take(it.index() as int),
    {
        r.push(c);
    }
    r
}

/// A string holding the given characters, in order.
pub fn string_of(v: &Vec<char>) -> (s: String)
    ensures
        s@ == v@,
{
    let mut s = String::new();
    let mut i: usize = 0;
    while i < v.len()
        invariant
            i <= v.len(),
            s@ == v@.take(i as int),
        decreases v.len() - i,
    {
        s.push(v[i]);
        i = i + 1;
        assert(v@.take(i as int) == v@.take((i - 1) as int).push(v@[i - 1]));
    }
    assert(v@.take(v.len() as int) == v@);
    s
}

/// An owned copy of a string slice.
pub fn str_to_string(s: &str) -> (r: String)
    ensures
        r@ == s@,
{
    string_of(&chars_of(s))
}

/// Appends the characters of `s` to `out`.
pub fn push_str(out: &mut Vec<char>, s: &str)
    ensures
        final(out)@ == old(out)@ + s@,
{
    let cs = chars_of(s);
    let mut i: usize = 0;
    while i < cs.len()
        invariant
            i <= cs.len(),
            cs@ == s@,
            out@ == old(out)@ + s@.take(i as int),
        decreases cs.len() - i,
    {
        out.push(cs[i]);
        i = i + 1;
        assert(s@.take(i as int) == s@.take((i - 1) as int).push(s@[i - 1]));
    }
    assert(s@.take(s@.len() as int) == s@);
}

/// Appends the characters of `s` to `out`.
pub fn push_chars(out: &mut Vec<char>, s: &Vec<char>)
    ensures
        final(out)@ == old(out)@ + s@,
{
    let mut i: usize = 0;
    while i < s.len()
        invariant
            i <= s.len(),
            out@ == old(out)@ + s@.take(i as int),
        decreases s.len() - i,
    {
        out.push(s[i]);
        i = i + 1;
        assert(s@.take(i as int) == s@.take((i - 1) as int).push(s@[i - 1]));
    }
    assert(s@.take(s@.len() as int) == s@);
}

fn digit_to_char(d: u64) -> (c: char)
    requires
        d < 10,
    ensures
        c == digit_char(d as nat),
{
    let b: u8 = 48u8 + (d as u8);
    b as char
}

/// The decimal digits of `n`.
pub fn decimal_chars(n: u64) -> (r: Vec<char>)
    ensures
        r@ == dec(n as nat),
    decreases n,
{
    if n < 10 {
        let mut r = Vec::new();
        r.push(digit_to_char(n));
        r
    } else {
        let mut r = decimal_chars(n / 10);
        r.push(digit_to_char(n % 10));
        r
    }
}

/// The characters of `i.to_string()`.
pub fn i64_decimal_chars(i: i64) -> (r: Vec<char>)
    ensures
        r@ == signed_dec(i as int),
{
    if i < 0 {
        let magnitude: u64 = (-(i as i128)) as u64;
        let mut r = vec!['-'];
        push_chars(&mut r, &decimal_chars(magnitude));
        assert(r@ == seq!['-'] + dec((-i) as nat));
        r
    } else {
        decimal_chars(i as u64)
    }
}

/// `n.to_string()` for an unsigned integer.
pub fn u64_to_string(n: u64) -> (s: String)
    ensures
        s@ == dec(n as nat),
{
    string_of(&decimal_chars(n))
}

/// `str::parse` into an unsigned integer whose largest value is `max`.
pub fn parse_unsigned_chars(s: &Vec<char>, max: u64) -> (r: Option<u64>)
    ensures
        match r {
            Some(v) => parse_unsigned(s@, max as nat) == Some(v as nat),
            None => parse_unsigned(s@, max as nat) is None,
        },
{
    let start: usize = if s.len() > 0 && s[0] == '+' {
        1
    } else {
        0
    };
    let ghost body = if s@.len() > 0 && s@[0] == '+' {
        s@.drop_first()
    } else {
        s@
    };
    assert(body == s@.skip(start as int));
    if start >= s.len() {
        return None;
    }
    let mut val: u128 = 0;
    let mut i: usize = start;
    while i < s.len()
        invariant
            start <= i <= s.len(),
            body == s@.skip(start as int),
            body == (if s@.len() > 0 && s@[0] == '+' {
                s@.drop_first()
            } else {
                s@
            }),
            val as nat == digits_value(body.take(i - start)),
            all_digits(body.take(i - start)),
            val <= max,
        decreases s.len() - i,
    {
        let c = s[i];
        let ghost k: int = i - start;
        assert(body[k] == c);
        assert(body.take(k + 1).drop_last() == body.take(k));
        assert(body.take(k + 1).last() == c);
        if !('0' <= c && c <= '9') {
            assert(!is_digit(body[k]));
            assert(!all_digits(body));
            return None;
        }
        assert('0' as int == 48);
        let d: u128 = ((c as u32) - 48u32) as u128;
        val = val * 10 + d;
        i = i + 1;
        assert forall|j: int| 0 <= j < body.take(k + 1).len() implies #[trigger] is_digit(body.take(k + 1)[j]) by {
            if j < k {
                assert(body.take(k + 1)[j] == body.take(k)[j]);
            }
        }
        assert(val as nat == digits_value(body.take(k + 1)));
        if val > max as u128 {
            proof {
                lemma_digits_value_prefix_le(body, k + 1);
            }
            return None;
        }
    }
    assert(body.take(s.len() - start) == body);
    Some(val as u64)
}

/// `str::parse::<u64>`.
pub fn parse_u64(s: &str) -> (r: Option<u64>)
    ensures
        match r {
            Some(v) => parse_unsigned(s@, u64::MAX as nat) == Some(v as nat),
            None => parse_unsigned(s@, u64::MAX as nat) is None,
        },
{
    parse_unsigned_chars(&chars_of(s), u64::MAX)
}

/// `str::parse::<u16>`.
pub fn parse_u16(s: &str) -> (r: Option<u16>)
    ensures
        match r {
            Some(v) => parse_unsigned(s@, u16::MAX as nat) == Some(v as nat),
            None => parse_unsigned(s@, u16::MAX as nat) is None,
        },
{
    match parse_unsigned_chars(&chars_of(s), 65535) {
        Some(v) => Some(v as u16),
        None => None,
    }
}

fn is_whitespace_char(c: char) -> (b: bool)
    ensures
        b == is_whitespace(c),
{
    ('\u{9}' <= c && c <= '\u{d}') || c == ' ' || c == '\u{85}' || c == '\u{a0}' || c == '\u{1680}'
        || ('\u{2000}' <= c && c <= '\u{200a}') || c == '\u{2028}' || c == '\u{2029}' || c
        == '\u{202f}' || c == '\u{205f}' || c == '\u{3000}'
}

proof fn lemma_trim_start_step(s: Seq<char>, i: int)
    requires
        0 <= i < s.len(),
        is_whitespace(s[i]),
    ensures
        trim_start(s.subrange(i, s.len() as int)) == trim_start(s.subrange(i + 1, s.len() as int)),
{
    assert(s.subrange(i, s.len() as int).drop_first() == s.subrange(i + 1, s.len() as int));
}

proof fn lemma_trim_end_step(s: Seq<char>, i: int, j: int)
    requires
        0 <= i < j <= s.len(),
        is_whitespace(s[j - 1]),
    ensures
        trim_end(s.subrange(i, j)) == trim_end(s.subrange(i, j - 1)),
{
    assert(s.subrange(i, j).drop_last() == s.subrange(i, j - 1));
}

/// `str::trim` on a sequence of characters.
pub fn trim_chars(s: &Vec<char>) -> (r: Vec<char>)
    ensures
        r@ == trim(s@),
{
    let mut i: usize = 0;
    assert(s@.subrange(0, s@.len() as int) == s@);
    while i < s.len() && is_whitespace_char(s[i])
        invariant
            i <= s.len(),
            trim_start(s@) == trim_start(s@.subrange(i as int, s@.len() as int)),
        decreases s.len() - i,
    {
        proof {
            lemma_trim_start_step(s@, i as int);
        }
        i = i + 1;
    }
    assert(s@.subrange(0, s@.len() as int) == s@);
    let ghost mid = s@.subrange(i as int, s@.len() as int);
    assert(trim_start(s@) == mid);
    let mut j: usize = s.len();
    while j > i && is_whitespace_char(s[j - 1])
        invariant
            i <= j <= s.len(),
            mid == s@.subrange(i as int, s@.len() as int),
            trim_end(mid) == trim_end(s@.subrange(i as int, j as int)),
        decreases j,
    {
        proof {
            lemma_trim_end_step(s@, i as int, j as int);
        }
        j = j - 1;
    }
    let mut r: Vec<char> = Vec::new();
    let mut k: usize = i;
    while k < j
        invariant
            i <= k <= j,
            j <= s.len(),
            r@ == s@.subrange(i as int, k as int),
        decreases j - k,
    {
        r.push(s[k]);
        k = k + 1;
        assert(r@ == s@.subrange(i as int, k as int));
    }
    assert(trim_end(s@.subrange(i as int, j as int)) == s@.subrange(i as int, j as int));
    r
}

/// `str::trim`.
pub fn trim_str(s: &str) -> (r: Vec<char>)
    ensures
        r@ == trim(s@),
{
    trim_chars(&chars_of(s))
}

/// Whether two character sequences are equal.
pub fn chars_eq(a: &Vec<char>, b: &Vec<char>) -> (r: bool)
    ensures
        r == (a@ == b@),
{
    if a.len() != b.len() {
        return false;
    }
    let mut i: usize = 0;
    while i < a.len()
        invariant
            i <= a.len(),
            a.len() == b.len(),
            a@.take(i as int) == b@.take(i as int),
        decreases a.len() - i,
    {
        if a[i] != b[i] {
            return false;
        }
        i = i + 1;
        assert(a@.take(i as int) == a@.take((i - 1) as int).push(a@[i - 1]));
        assert(b@.take(i as int) == b@.take((i - 1) as int).push(b@[i - 1]));
    }
    assert(a@.take(a.len() as int) == a@);
    assert(b@.take(b.len() as int) == b@);
    true
}

/// Whether `p` occurs in `s` at position `k`.
pub fn occurs_at_exec(s: &Vec<char>, p: &Vec<char>, k: usize) -> (b: bool)
    ensures
        b == occurs_at(s@, p@, k as int),
{
    if k > s.len() || p.len() > s.len() - k {
        return false;
    }
    let mut j: usize = 0;
    while j < p.len()
        invariant
            j <= p.len(),
            k + p.len() <= s.len(),
            s@.subrange(k as int, k + j) == p@.take(j as int),
        decreases p.len() - j,
    {
        if s[k + j] != p[j] {
            assert(s@.subrange(k as int, k + p.len())[j as int] == s@[k + j]);
            return false;
        }
        j = j + 1;
        assert(s@.subrange(k as int, k + j) == p@.take(j as int));
    }
    assert(p@.take(p.len() as int) == p@);
    true
}

/// `str::starts_with`.
pub fn starts_with_exec(s: &Vec<char>, p: &Vec<char>) -> (b: bool)
    ensures
        b == starts_with(s@, p@),
{
    occurs_at_exec(s, p, 0)
}

/// `str::ends_with`.
pub fn ends_with_exec(s: &Vec<char>, p: &Vec<char>) -> (b: bool)
    ensures
        b == ends_with(s@, p@),
{
    if p.len() > s.len() {
        false
    } else {
        occurs_at_exec(s, p, s.len() - p.len())
    }
}

/// `str::contains` with a string pattern.
pub fn contains_exec(s: &Vec<char>, p: &Vec<char>) -> (b: bool)
    ensures
        b == contains(s@, p@),
{
    if p.len() > s.len() {
        assert forall|k: int| !occurs_at(s@, p@, k) by {}
        return false;
    }
    let last: usize = s.len() - p.len();
    let mut k: usize = 0;
    loop
        invariant
            p.len() <= s.len(),
            last == s.len() - p.len(),
            k <= last,
            forall|m: int| 0 <= m < k ==> !occurs_at(s@, p@, m),
        ensures
            forall|m: int| 0 <= m <= last ==> !occurs_at(s@, p@, m),
        decreases last - k,
    {
        if occurs_at_exec(s, p, k) {
            return true;
        }
        if k == last {
            break;
        }
        k = k + 1;
    }
    assert forall|m: int| !occurs_at(s@, p@, m) by {
        if 0 <= m <= last {
        }
    }
    false
}

/// `str::replace` with a non-empty string pattern.
pub fn replace_chars(s: &Vec<char>, p: &Vec<char>, r: &Vec<char>) -> (out: Vec<char>)
    requires
        p.len() > 0,
    ensures
        out@ == replace_all(s@, p@, r@),
{
    let mut out: Vec<char> = Vec::new();
    let mut i: usize = 0;
    assert(s@.skip(0) == s@);
    assert(out@ + replace_all(s@, p@, r@) == replace_all(s@, p@, r@));
    while i < s.len()
        invariant
            i <= s.len(),
            p.len() > 0,
            out@ + replace_all(s@.skip(i as int), p@, r@) == replace_all(s@, p@, r@),
        decreases s.len() - i,
    {
        let ghost rest = s@.skip(i as int);
        if occurs_at_exec(s, p, i) {
            assert(rest.subrange(0, p@.len() as int) == s@.subrange(i as int, i + p.len()));
            assert(starts_with(rest, p@));
            assert(rest.skip(p@.len() as int) == s@.skip(i + p.len()));
            let ghost before = out@;
            push_chars(&mut out, r);
            i = i + p.len();
            assert(before + (r@ + replace_all(s@.skip(i as int), p@, r@)) == out@ + replace_all(
                s@.skip(i as int),
                p@,
                r@,
            ));
        } else {
            proof {
                if starts_with(rest, p@) {
                    assert(rest.subrange(0, p@.len() as int) == s@.subrange(i as int, i + p.len()));
                }
            }
            assert(rest.drop_first() == s@.skip(i + 1));
            let ghost before = out@;
            out.push(s[i]);
            i = i + 1;
            assert(before + (seq![rest[0]] + replace_all(s@.skip(i as int), p@, r@)) == out@
                + replace_all(s@.skip(i as int), p@, r@));
        }
    }
    assert(s@.skip(s@.len() as int) =~= Seq::<char>::empty());
    assert(out@ + Seq::<char>::empty() == out@);
    out
}

/// `str::trim_start_matches` with a non-empty string pattern.
pub fn strip_all_prefixes_chars(s: &Vec<char>, p: &Vec<char>) -> (out: Vec<char>)
    requires
        p.len() > 0,
    ensures
        out@ == strip_all_prefixes(s@, p@),
{
    let mut i: usize = 0;
    assert(s@.skip(0) == s@);
    while occurs_at_exec(s, p, i)
        invariant
            i <= s.len(),
            p.len() > 0,
            strip_all_prefixes(s@.skip(i as int), p@) == strip_all_prefixes(s@, p@),
        decreases s.len() - i,
    {
        let ghost rest = s@.skip(i as int);
        assert(rest.subrange(0, p@.len() as int) == s@.subrange(i as int, i + p.len()));
        assert(rest.skip(p@.len() as int) == s@.skip(i + p.len()));
        i = i + p.len();
    }
    let ghost rest = s@.skip(i as int);
    proof {
        if starts_with(rest, p@) {
            assert(rest.subrange(0, p@.len() as int) == s@.subrange(i as int, i + p.len()));
        }
    }
    assert(s@.skip(0) == s@);
    let mut out: Vec<char> = Vec::new();
    let mut k: usize = i;
    while k < s.len()
        invariant
            i <= k <= s.len(),
            out@ == s@.subrange(i as int, k as int),
        decreases s.len() - k,
    {
        out.push(s[k]);
        k = k + 1;
        assert(out@ == s@.subrange(i as int, k as int));
    }
    assert(out@ == rest);
    out
}

/// `str::trim_end_matches` with a single character.
pub fn strip_all_suffix_char_chars(s: &Vec<char>, c: char) -> (out: Vec<char>)
    ensures
        out@ == strip_all_suffix_char(s@, c),
{
    let mut j: usize = s.len();
    assert(s@.subrange(0, s@.len() as int) == s@);
    while j > 0 && s[j - 1] == c
        invariant
            j <= s.len(),
            strip_all_suffix_char(s@.subrange(0, j as int), c) == strip_all_suffix_char(s@, c),
        decreases j,
    {
        assert(s@.subrange(0, j as int).drop_last() == s@.subrange(0, j - 1));
        j = j - 1;
    }
    let mut out: Vec<char> = Vec::new();
    let mut k: usize = 0;
    while k < j
        invariant
            k <= j <= s.len(),
            out@ == s@.subrange(0, k as int),
        decreases j - k,
    {
        out.push(s[k]);
        k = k + 1;
        assert(out@ == s@.subrange(0, k as int));
    }
    out
}

fn ascii_lower_char(c: char) -> (r: char)
    ensures
        r == ascii_lower(c),
{
    if 'A' <= c && c <= 'Z' {
        let b: u8 = (c as u8) + 32u8;
        b as char
    } else {
        c
    }
}

/// `str::to_ascii_lowercase`.
pub fn ascii_lowercase_chars(s: &Vec<char>) -> (r: Vec<char>)
    ensures
        r@ == ascii_lowercase(s@),
{
    let mut r: Vec<char> = Vec::new();
    let mut i: usize = 0;
    while i < s.len()
        invariant
            i <= s.len(),
            r@ == ascii_lowercase(s@).take(i as int),
        decreases s.len() - i,
    {
        r.push(ascii_lower_char(s[i]));
        i = i + 1;
        assert(r@ == ascii_lowercase(s@).take(i as int));
    }
    assert(ascii_lowercase(s@).take(s@.len() as int) == ascii_lowercase(s@));
    r
}

/// `[String]::join`.
pub fn join_strings(pieces: &Vec<String>, sep: &str) -> (r: String)
    ensures
        r@ == join(pieces.deep_view(), sep@),
{
    let ghost views = pieces.deep_view();
    let mut out: Vec<char> = Vec::new();
    let mut i: usize = 0;
    while i < pieces.len()
        invariant
            i <= pieces.len(),
            views == pieces.deep_view(),
            out@ == join(views.take(i as int), sep@),
        decreases pieces.len() - i,
    {
        let ghost before = out@;
        assert(views.take(i + 1).drop_last() == views.take(i as int));
        assert(views.take(i + 1).last() == pieces@[i as int]@);
        if i > 0 {
            push_str(&mut out, sep);
        } else {
            assert(views.take(0) =~= Seq::<Seq<char>>::empty());
        }
        push_str(&mut out, pieces[i].as_str());
        i = i + 1;
        if i == 1 {
            assert(out@ == before + pieces@[0]@);
        }
    }
    assert(views.take(pieces.len() as int) == views);
    string_of(&out)
}

/// Whether `a` comes strictly before `b` in `str`'s order.
pub fn str_lt_exec(a: &Vec<char>, b: &Vec<char>) -> (r: bool)
    ensures
        r == str_lt(a@, b@),
{
    let mut i: usize = 0;
    assert(a@.skip(0) == a@);
    assert(b@.skip(0) == b@);
    while i < a.len() && i < b.len() && a[i] == b[i]
        invariant
            i <= a.len(),
            i <= b.len(),
            str_lt(a@, b@) == str_lt(a@.skip(i as int), b@.skip(i as int)),
        decreases a.len() - i,
    {
        assert(a@.skip(i as int).drop_first() == a@.skip(i + 1));
        assert(b@.skip(i as int).drop_first() == b@.skip(i + 1));
        i = i + 1;
    }
    assert(a@.skip(0) == a@);
    assert(b@.skip(0) == b@);
    if i == a.len() {
        i < b.len()
    } else if i == b.len() {
        false
    } else {
        a[i] < b[i]
    }
}

} // verus!
