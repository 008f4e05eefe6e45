//! Character-level text operations with their specifications.
//!
//! Strings are specified by their view, the sequence of their characters.

use vstd::prelude::*;

verus! {

/// The characters with the Unicode `White_Space` property.
pub open spec fn is_whitespace_char(c: char) -> bool {
    ||| ('\u{9}' <= c && c <= '\u{d}')
    ||| c == ' '
    ||| c == '\u{85}'
    ||| c == '\u{a0}'
    ||| c == '\u{1680}'
    ||| ('\u{2000}' <= c && c <= '\u{200a}')
    ||| c == '\u{2028}'
    ||| c == '\u{2029}'
    ||| c == '\u{202f}'
    ||| c == '\u{205f}'
    ||| c == '\u{3000}'
}

/// `s` with its leading white space removed.
pub open spec fn trim_start_seq(s: Seq<char>) -> Seq<char>
    decreases s.len(),
{
    if s.len() > 0 && is_whitespace_char(s[0]) {
        trim_start_seq(s.drop_first())
    } else {
        s
    }
}

/// `s` with its trailing white space removed.
pub open spec fn trim_end_seq(s: Seq<char>) -> Seq<char>
    decreases s.len(),
{
    if s.len() > 0 && is_whitespace_char(s.last()) {
        trim_end_seq(s.drop_last())
    } else {
        s
    }
}

/// `s` with white space removed at both ends.
pub open spec fn trim_seq(s: Seq<char>) -> Seq<char> {
    trim_end_seq(trim_start_seq(s))
}

/// `p` is a prefix of `s`.
pub open spec fn has_prefix(s: Seq<char>, p: Seq<char>) -> bool {
    p.len() <= s.len() && s.subrange(0, p.len() as int) == p
}

/// `p` is a suffix of `s`.
pub open spec fn has_suffix(s: Seq<char>, p: Seq<char>) -> bool {
    p.len() <= s.len() && s.subrange(s.len() - p.len(), s.len() as int) == p
}

/// `n` occurs in `h` at position `i`.
pub open spec fn occurs_at(h: Seq<char>, n: Seq<char>, i: int) -> bool {
    0 <= i && i + n.len() <= h.len() && h.subrange(i, i + n.len()) == n
}

/// `n` occurs somewhere in `h` (the empty sequence occurs in every sequence).
pub open spec fn seq_contains(h: Seq<char>, n: Seq<char>) -> bool {
    exists|i: int| occurs_at(h, n, i)
}

/// `s` with every trailing occurrence of the non-empty pattern `p` removed.
pub open spec fn trim_end_matches_seq(s: Seq<char>, p: Seq<char>) -> Seq<char>
    decreases s.len(),
{
    if p.len() > 0 && has_suffix(s, p) {
        trim_end_matches_seq(s.subrange(0, s.len() - p.len()), p)
    } else {
        s
    }
}

/// The index of the first line feed in `s`, or its length when there is none.
pub open spec fn newline_index(s: Seq<char>) -> nat
    decreases s.len(),
{
    if s.len() == 0 {
        0
    } else if s[0] == '\n' {
        0
    } else {
        1 + newline_index(s.drop_first())
    }
}

/// The first line of `s` as `str::lines` yields it: the text before the first
/// line feed, without a carriage return that stands right before that line feed;
/// no line at all for empty text.
pub open spec fn first_line_seq(s: Seq<char>) -> Option<Seq<char>> {
    let k = newline_index(s) as int;
    if s.len() == 0 {
        None
    } else if k < s.len() && k > 0 && s[k - 1] == '\r' {
        Some(s.subrange(0, k - 1))
    } else {
        Some(s.subrange(0, k))
    }
}

/// The character of a decimal digit.
pub open spec fn digit_char(d: nat) -> char {
    (d + 48) as char
}

/// `c` is one of the ASCII digits `0` to `9`.
pub open spec fn is_digit_char(c: char) -> bool {
    '0' <= c && c <= '9'
}

/// Every character of `s` is an ASCII digit.
pub open spec fn all_digits(s: Seq<char>) -> bool {
    forall|i: int| 0 <= i < s.len() ==> is_digit_char(#[trigger] s[i])
}

/// The number that the decimal digits `s` spell.
pub open spec fn digits_value(s: Seq<char>) -> nat
    decreases s.len(),
{
    if s.len() == 0 {
        0
    } else {
        digits_value(s.drop_last()) * 10 + ((s.last() as int) - 48) as nat
    }
}

/// The decimal representation of `n`, without leading zeros.
pub open spec fn decimal_seq(n: nat) -> Seq<char>
    decreases n,
{
    if n < 10 {
        seq![digit_char(n)]
    } else {
        decimal_seq(n / 10).push(digit_char(n % 10))
    }
}

/// What `str::parse::<u32>` gives: an optional `+` sign (not alone), then one or
/// more ASCII digits whose value fits in a `u32`.
pub open spec fn parse_u32_seq(s: Seq<char>) -> Option<u32> {
    let d = if s.len() > 1 && s[0] == '+' {
        s.drop_first()
    } else {
        s
    };
    if d.len() > 0 && all_digits(d) && digits_value(d) <= u32::MAX {
        Some(digits_value(d) as u32)
    } else {
        None
    }
}

/// What `str::to_lowercase` returns for a string with the given characters.
pub uninterp spec fn spec_to_lowercase(s: Seq<char>) -> Seq<char>;

/// Trusted: `str::to_lowercase` of std, whose result is the Unicode lower-case
/// mapping of every character; the contract only names that result as
/// `spec_to_lowercase` of the argument's characters.
#[verifier::external_body]
pub(crate) fn to_lowercase(s: &str) -> (r: String)
    ensures
        r@ == spec_to_lowercase(s@),
{
    s.to_lowercase()
}

/// Trusted: `String::push` of std, which appends one character.
#[verifier::external_body]
fn push_char(s: &mut String, c: char)
    ensures
        final(s)@ == old(s)@.push(c),
{
    s.push(c)
}

/// Decides whether `c` has the Unicode `White_Space` property.
pub fn is_whitespace(c: char) -> (r: bool)
    ensures
        r == is_whitespace_char(c),
{
    ('\u{9}' <= c && c <= '\u{d}') || c == ' ' || c == '\u{85}' || c == '\u{a0}' || c
        == '\u{1680}' || ('\u{2000}' <= c && c <= '\u{200a}') || c == '\u{2028}' || c
        == '\u{2029}' || c == '\u{202f}' || c == '\u{205f}' || c == '\u{3000}'
}

/// Collects the characters of a string slice.
pub fn chars_of(s: &str) -> (r: Vec<char>)
    ensures
        r@ == s@,
{
    let mut r: Vec<char> = Vec::new();
    for c in it: s.chars()
        invariant
            r@ == it.seq().take(it.index() as int),
    {
        r.push(c);
    }
    r
}

proof fn lemma_trim_start_at(s: Seq<char>, i: int)
    requires
        0 <= i <= s.len(),
        forall|k: int| 0 <= k < i ==> is_whitespace_char(#[trigger] s[k]),
        i == s.len() || !is_whitespace_char(s[i]),
    ensures
        trim_start_seq(s) == s.subrange(i, s.len() as int),
    decreases i,
{
    if i == 0 {
        assert(s.subrange(0, s.len() as int) =~= s);
    } else {
        let t = s.drop_first();
        assert forall|k: int| 0 <= k < i - 1 implies is_whitespace_char(#[trigger] t[k]) by {
            assert(t[k] == s[k + 1]);
        }
        assert(i - 1 == t.len() || t[i - 1] == s[i]);
        lemma_trim_start_at(t, i - 1);
        assert(t.subrange(i - 1, t.len() as int) =~= s.subrange(i, s.len() as int));
    }
}

proof fn lemma_trim_end_at(s: Seq<char>, j: int)
    requires
        0 <= j <= s.len(),
        forall|k: int| j <= k < s.len() ==> is_whitespace_char(#[trigger] s[k]),
        j == 0 || !is_whitespace_char(s[j - 1]),
    ensures
        trim_end_seq(s) == s.subrange(0, j),
    decreases s.len() - j,
{
    if j == s.len() {
        assert(s.subrange(0, j) =~= s);
    } else {
        let t = s.drop_last();
        assert forall|k: int| j <= k < t.len() implies is_whitespace_char(#[trigger] t[k]) by {
            assert(t[k] == s[k]);
        }
        lemma_trim_end_at(t, j);
        assert(t.subrange(0, j) =~= s.subrange(0, j));
    }
}

/// `str::trim`: removes white space at both ends.
pub fn trim(s: &str) -> (r: String)
    ensures
        r@ == trim_seq(s@),
{
    let v = chars_of(s);
    let n = v.len();
    let mut i: usize = 0;
    while i < n && is_whitespace(v[i])
        invariant
            i <= n,
            n == v@.len(),
            forall|k: int| 0 <= k < i ==> is_whitespace_char(#[trigger] v@[k]),
        decreases n - i,
    {
        i = i + 1;
    }
    let mut j: usize = n;
    while j > i && is_whitespace(v[j - 1])
        invariant
            i <= j <= n,
            n == v@.len(),
            forall|k: int| j <= k < n ==> is_whitespace_char(#[trigger] v@[k]),
        decreases j,
    {
        j = j - 1;
    }
    proof {
        lemma_trim_start_at(s@, i as int);
        let t = s@.subrange(i as int, n as int);
        assert forall|k: int| j - i <= k < t.len() implies is_whitespace_char(#[trigger] t[k]) by {
            assert(t[k] == s@[k + i]);
        }
        if j > i {
            assert(t[j - i - 1] == s@[j - 1]);
        }
        lemma_trim_end_at(t, j - i);
        assert(t.subrange(0, j - i) =~= s@.subrange(i as int, j as int));
    }
    s.substring_char(i, j).to_owned()
}

/// Decides whether `p` occurs in `v` at position `start`.
fn matches_at(v: &Vec<char>, start: usize, p: &Vec<char>) -> (r: bool)
    ensures
        r == occurs_at(v@, p@, start as int),
{
    if start > v.len() || p.len() > v.len() - start {
        return false;
    }
    let mut k: usize = 0;
    while k < p.len()
        invariant
            start + p.len() <= v.len(),
            k <= p.len(),
            forall|m: int| 0 <= m < k ==> v@[start + m] == #[trigger] p@[m],
        decreases p.len() - k,
    {
        if v[start + k] != p[k] {
            assert(v@.subrange(start as int, start + p.len())[k as int] != p@[k as int]);
            return false;
        }
        k = k + 1;
    }
    assert(v@.subrange(start as int, start + p.len()) =~= p@);
    true
}

/// `str::starts_with` for a string pattern.
pub fn starts_with(s: &str, p: &str) -> (r: bool)
    ensures
        r == has_prefix(s@, p@),
{
    let v = chars_of(s);
    let w = chars_of(p);
    matches_at(&v, 0, &w)
}

/// `str::strip_prefix` for a string pattern: the rest of `s` after `p`, when `s`
/// starts with `p`.
pub fn strip_prefix(s: &str, p: &str) -> (r: Option<String>)
    ensures
        r matches Some(t) ==> has_prefix(s@, p@) && t@ == s@.subrange(p@.len() as int, s@.len() as int),
        r is None ==> !has_prefix(s@, p@),
{
    let v = chars_of(s);
    let w = chars_of(p);
    if matches_at(&v, 0, &w) {
        Some(s.substring_char(w.len(), v.len()).to_owned())
    } else {
        None
    }
}

/// `str::ends_with` for a string pattern.
pub fn ends_with(s: &str, p: &str) -> (r: bool)
    ensures
        r == has_suffix(s@, p@),
{
    let v = chars_of(s);
    let w = chars_of(p);
    if w.len() > v.len() {
        false
    } else {
        matches_at(&v, v.len() - w.len(), &w)
    }
}

/// Equality of the characters of two string slices.
pub fn str_equal(a: &str, b: &str) -> (r: bool)
    ensures
        r == (a@ == b@),
{
    let v = chars_of(a);
    let w = chars_of(b);
    if v.len() != w.len() {
        return false;
    }
    assert(v@.subrange(0, w@.len() as int) =~= v@);
    matches_at(&v, 0, &w)
}

/// `str::contains` for a string pattern.
pub fn contains(h: &str, n: &str) -> (r: bool)
    ensures
        r == seq_contains(h@, n@),
{
    let v = chars_of(h);
    let w = chars_of(n);
    if w.len() > v.len() {
        assert forall|i: int| !occurs_at(h@, n@, i) by {}
        return false;
    }
    if w.len() == 0 {
        assert(occurs_at(h@, n@, 0)) by {
            assert(h@.subrange(0, 0) =~= n@);
        }
        return true;
    }
    let last = v.len() - w.len();
    let mut i: usize = 0;
    while i <= last
        invariant
            last + w.len() == v.len(),
            w.len() >= 1,
            v@ == h@,
            w@ == n@,
            forall|m: int| 0 <= m < i ==> !occurs_at(v@, w@, m),
        decreases last + 1 - i,
    {
        if matches_at(&v, i, &w) {
            assert(occurs_at(h@, n@, i as int));
            return true;
        }
        i = i + 1;
    }
    assert forall|m: int| !occurs_at(h@, n@, m) by {
        if 0 <= m < i {
        }
    }
    false
}

proof fn lemma_newline_index_at(s: Seq<char>, i: int)
    requires
        0 <= i <= s.len(),
        forall|m: int| 0 <= m < i ==> #[trigger] s[m] != '\n',
        i == s.len() || s[i] == '\n',
    ensures
        newline_index(s) == i,
    decreases i,
{
    if i > 0 {
        let t = s.drop_first();
        assert forall|m: int| 0 <= m < i - 1 implies #[trigger] t[m] != '\n' by {
            assert(t[m] == s[m + 1]);
        }
        assert(i - 1 == t.len() || t[i - 1] == s[i]);
        lemma_newline_index_at(t, i - 1);
    }
}

/// The first line of `s`, as `s.lines().next()` gives it.
pub fn first_line(s: &str) -> (r: Option<String>)
    ensures
        r matches Some(t) ==> first_line_seq(s@) == Some(t@),
        r is None ==> first_line_seq(s@) is None,
{
    let v = chars_of(s);
    let n = v.len();
    if n == 0 {
        return None;
    }
    let mut k: usize = 0;
    while k < n && v[k] != '\n'
        invariant
            k <= n,
            n == v@.len(),
            forall|m: int| 0 <= m < k ==> #[trigger] v@[m] != '\n',
        decreases n - k,
    {
        k = k + 1;
    }
    proof {
        lemma_newline_index_at(s@, k as int);
    }
    if k < n && k > 0 && v[k - 1] == '\r' {
        Some(s.substring_char(0, k - 1).to_owned())
    } else {
        Some(s.substring_char(0, k).to_owned())
    }
}

proof fn lemma_trim_end_matches_step(s: Seq<char>, p: Seq<char>, end: int)
    requires
        p.len() > 0,
        p.len() <= end <= s.len(),
        occurs_at(s, p, end - p.len()),
    ensures
        trim_end_matches_seq(s.subrange(0, end), p) == trim_end_matches_seq(
            s.subrange(0, end - p.len()),
            p,
        ),
{
    let t = s.subrange(0, end);
    assert(t.subrange(t.len() - p.len(), t.len() as int) =~= s.subrange(end - p.len(), end));
    assert(t.subrange(0, t.len() - p.len()) =~= s.subrange(0, end - p.len()));
}

/// `str::trim_end_matches` for a non-empty string pattern: removes the pattern
/// from the end as long as the text ends with it.
pub(crate) fn trim_end_matches(s: &str, p: &str) -> (r: String)
    requires
        p@.len() > 0,
    ensures
        r@ == trim_end_matches_seq(s@, p@),
{
    let v = chars_of(s);
    let w = chars_of(p);
    let mut end: usize = v.len();
    assert(s@.subrange(0, end as int) =~= s@);
    while end >= w.len() && matches_at(&v, end - w.len(), &w)
        invariant
            end <= v.len(),
            v@ == s@,
            w@ == p@,
            w.len() > 0,
            trim_end_matches_seq(s@, p@) == trim_end_matches_seq(s@.subrange(0, end as int), p@),
        decreases end,
    {
        proof {
            lemma_trim_end_matches_step(s@, p@, end as int);
        }
        end = end - w.len();
    }
    proof {
        let t = s@.subrange(0, end as int);
        if has_suffix(t, p@) {
            assert(t.subrange(t.len() - p@.len(), t.len() as int) =~= s@.subrange(
                end - p@.len(),
                end as int,
            ));
        }
    }
    s.substring_char(0, end).to_owned()
}

/// Appends the decimal representation of `n` to `s`.
fn push_decimal(s: &mut String, n: u64)
    ensures
        final(s)@ == old(s)@ + decimal_seq(n as nat),
    decreases n,
{
    if n >= 10 {
        push_decimal(s, n / 10);
    }
    let d = (n % 10) as u8;
    let c = (d + 48) as char;
    push_char(s, c);
    proof {
        assert(decimal_seq(n as nat) =~= if n < 10 {
            seq![digit_char(n as nat)]
        } else {
            decimal_seq((n / 10) as nat).push(digit_char((n % 10) as nat))
        });
    }
}

/// The decimal representation of `n`, as `format!("{}", n)` writes it.
pub fn u64_to_decimal(n: u64) -> (r: String)
    ensures
        r@ == decimal_seq(n as nat),
{
    let mut s = String::new();
    push_decimal(&mut s, n);
    assert(s@ =~= decimal_seq(n as nat));
    s
}

proof fn lemma_digits_value_prefix(s: Seq<char>, k: int)
    requires
        all_digits(s),
        0 <= k <= s.len(),
    ensures
        digits_value(s.take(k)) <= digits_value(s),
    decreases s.len(),
{
    if k < s.len() {
        let t = s.drop_last();
        assert forall|i: int| 0 <= i < t.len() implies is_digit_char(#[trigger] t[i]) by {
            assert(t[i] == s[i]);
        }
        lemma_digits_value_prefix(t, k);
        assert(t.take(k) =~= s.take(k));
        assert(is_digit_char(s[s.len() - 1]));
    } else {
        assert(s.take(k) =~= s);
    }
}

/// `str::parse::<u32>`: `None` where the standard parser reports an error.
pub fn parse_u32(s: &str) -> (r: Option<u32>)
    ensures
        r == parse_u32_seq(s@),
{
    let v = chars_of(s);
    let n = v.len();
    let start: usize = if n > 1 && v[0] == '+' {
        1
    } else {
        0
    };
    let ghost d = if s@.len() > 1 && s@[0] == '+' {
        s@.drop_first()
    } else {
        s@
    };
    assert(d =~= v@.subrange(start as int, n as int));
    if start == n {
        return None;
    }
    let mut acc: u64 = 0;
    let mut i: usize = start;
    assert(d.take(0) =~= Seq::<char>::empty());
    while i < n
        invariant
            start <= i <= n,
            n == v@.len(),
            d == v@.subrange(start as int, n as int),
            d.len() > 0,
            all_digits(d.take(i - start)),
            acc == digits_value(d.take(i - start)),
            acc <= u32::MAX,
            parse_u32_seq(s@) == (if all_digits(d) && digits_value(d) <= u32::MAX {
                Some(digits_value(d) as u32)
            } else {
                None
            }),
        decreases n - i,
    {
        let c = v[i];
        if c < '0' || c > '9' {
            assert(d[i - start] == c);
            assert(!is_digit_char(d[i - start]));
            return None;
        }
        let dig = (c as u32 as u64) - 48;
        acc = acc * 10 + dig;
        proof {
            let t = d.take(i - start + 1);
            assert(t.drop_last() =~= d.take(i - start));
            assert(t.last() == c);
            assert forall|m: int| 0 <= m < t.len() implies is_digit_char(#[trigger] t[m]) by {
                if m < t.len() - 1 {
                    assert(t[m] == d.take(i - start)[m]);
                }
            }
        }
        if acc > 0xffff_ffff {
            proof {
                if all_digits(d) {
                    lemma_digits_value_prefix(d, i - start + 1);
                }
            }
            return None;
        }
        i = i + 1;
    }
    assert(d.take(n - start) =~= d);
    Some(acc as u32)
}

/// `str::strip_suffix` for a string pattern: the text of `s` before `p`, when `s`
/// ends with `p`.
pub fn strip_suffix(s: &str, p: &str) -> (r: Option<String>)
    ensures
        r matches Some(t) ==> has_suffix(s@, p@) && t@ == s@.subrange(0, s@.len() - p@.len()),
        r is None ==> !has_suffix(s@, p@),
{
    let v = chars_of(s);
    let w = chars_of(p);
    if w.len() <= v.len() && matches_at(&v, v.len() - w.len(), &w) {
        Some(s.substring_char(0, v.len() - w.len()).to_owned())
    } else {
        None
    }
}

/// The decimal text of a number is a non-empty string of digits that spells
/// that number.
pub proof fn lemma_decimal_digits(n: nat)
    ensures
        decimal_seq(n).len() > 0,
        all_digits(decimal_seq(n)),
        digits_value(decimal_seq(n)) == n,
    decreases n,
{
    let s = decimal_seq(n);
    if n < 10 {
        assert(s.drop_last() =~= Seq::<char>::empty());
        assert((digit_char(n) as int) == n + 48);
        assert(digits_value(s.drop_last()) == 0);
        assert(s.last() == digit_char(n));
    } else {
        assert((digit_char(n % 10) as int) == n % 10 + 48);
        lemma_decimal_digits(n / 10);
        let p = decimal_seq(n / 10);
        assert(s.drop_last() =~= p);
        assert(s.last() == digit_char(n % 10));
        assert(digits_value(s) == digits_value(p) * 10 + (n % 10));
        assert forall|i: int| 0 <= i < s.len() implies is_digit_char(#[trigger] s[i]) by {
            if i < p.len() {
                assert(s[i] == p[i]);
            }
        }
    }
}

/// Parsing the decimal representation of a `u32` gives the number back.
pub proof fn lemma_parse_decimal_u32(n: u32)
    ensures
        parse_u32_seq(decimal_seq(n as nat)) == Some(n),
{
    lemma_decimal_digits(n as nat);
    let s = decimal_seq(n as nat);
    assert(is_digit_char(s[0]));
}

proof fn lemma_trim_start_shape(s: Seq<char>)
    ensures
        trim_start_seq(s).len() > 0 ==> !is_whitespace_char(trim_start_seq(s)[0]),
        trim_start_seq(s).len() <= s.len(),
        trim_start_seq(s) == s.subrange(s.len() - trim_start_seq(s).len(), s.len() as int),
    decreases s.len(),
{
    if s.len() > 0 && is_whitespace_char(s[0]) {
        lemma_trim_start_shape(s.drop_first());
        let t = trim_start_seq(s.drop_first());
        assert(s.drop_first().subrange(s.len() - 1 - t.len(), s.len() - 1) =~= s.subrange(
            s.len() - t.len(),
            s.len() as int,
        ));
    } else {
        assert(s.subrange(0, s.len() as int) =~= s);
    }
}

proof fn lemma_trim_end_shape(s: Seq<char>)
    ensures
        trim_end_seq(s).len() > 0 ==> !is_whitespace_char(trim_end_seq(s).last()),
        trim_end_seq(s).len() <= s.len(),
        trim_end_seq(s) == s.subrange(0, trim_end_seq(s).len() as int),
    decreases s.len(),
{
    if s.len() > 0 && is_whitespace_char(s.last()) {
        lemma_trim_end_shape(s.drop_last());
        let t = trim_end_seq(s.drop_last());
        assert(s.drop_last().subrange(0, t.len() as int) =~= s.subrange(0, t.len() as int));
    } else {
        assert(s.subrange(0, s.len() as int) =~= s);
    }
}

/// Trimmed text starts and ends with a character that is not white space.
pub proof fn lemma_trim_ends(s: Seq<char>)
    ensures
        trim_seq(s).len() > 0 ==> !is_whitespace_char(trim_seq(s)[0]) && !is_whitespace_char(
            trim_seq(s).last(),
        ),
{
    let t = trim_start_seq(s);
    lemma_trim_start_shape(s);
    lemma_trim_end_shape(t);
    let u = trim_end_seq(t);
    if u.len() > 0 {
        assert(u[0] == t[0]);
    }
}

/// Trimming trimmed text changes nothing.
pub proof fn lemma_trim_idempotent(s: Seq<char>)
    ensures
        trim_seq(trim_seq(s)) == trim_seq(s),
{
    let u = trim_seq(s);
    lemma_trim_ends(s);
    if u.len() == 0 {
        assert(trim_start_seq(u) == u);
        assert(trim_end_seq(u) == u);
    } else {
        assert(trim_start_seq(u) == u);
        assert(trim_end_seq(u) == u);
    }
}



/// Every text occurs in itself, and a text occurs in any text that holds it
/// between two others.
pub proof fn lemma_contains_embedded(a: Seq<char>, n: Seq<char>, b: Seq<char>)
    ensures
        seq_contains(n, n),
        seq_contains(a + n + b, n),
{
    assert(n.subrange(0, n.len() as int) =~= n);
    assert(occurs_at(n, n, 0));
    assert((a + n + b).subrange(a.len() as int, (a.len() + n.len()) as int) =~= n);
    assert(occurs_at(a + n + b, n, a.len() as int));
}

} // verus!
