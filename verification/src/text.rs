//! Character-sequence utilities on which the rest of the library is built:
//! searching, trimming, replacing, and decimal / hexadecimal rendering.
use vstd::prelude::*;
use vstd::string::{StrSliceExecFns, StringSliceAdditionalSpecFns};
use vstd::utf8::{
    decode_utf8, encode_utf8, encode_utf8_decode_utf8, encode_utf8_valid_utf8, is_char_boundary,
    is_char_boundary_iff_not_is_continuation_byte, is_char_boundary_start_end_of_seq,
    valid_utf8, valid_utf8_split,
};

verus! {

/// Appends one character to a string.
/// Trusted: `String::push` appends the character at the end (std documentation).
#[verifier::external_body]
pub(crate) fn push_char(s: &mut String, c: char)
    ensures
        final(s)@ == old(s)@.push(c),
{
    s.push(c);
}

/// The characters of `s`, in order.
pub fn chars_of(s: &str) -> (r: Vec<char>)
    ensures
        r@ == s@,
{
    let n = s.unicode_len();
    let mut v: Vec<char> = Vec::new();
    let mut i: usize = 0;
    while i < n
        invariant
            n == s@.len(),
            i <= n,
            v@ == s@.take(i as int),
        decreases n - i,
    {
        let c = s.get_char(i);
        v.push(c);
        i += 1;
        assert(v@ =~= s@.take(i as int));
    }
    assert(v@ =~= s@);
    v
}

/// Builds a string holding exactly the characters of `v`.
pub fn string_from_chars(v: &Vec<char>) -> (r: String)
    ensures
        r@ == v@,
{
    let mut s = String::new();
    let mut i: usize = 0;
    while i < v.len()
        invariant
            i <= v.len(),
            s@ == v@.take(i as int),
        decreases v.len() - i,
    {
        push_char(&mut s, v[i]);
        i += 1;
        assert(s@ =~= v@.take(i as int));
    }
    assert(s@ =~= v@);
    s
}

/// Appends all characters of `t` to `s`.
pub fn push_str(s: &mut String, t: &str)
    ensures
        final(s)@ == old(s)@ + t@,
{
    let cs = chars_of(t);
    let mut i: usize = 0;
    while i < cs.len()
        invariant
            i <= cs.len(),
            cs@ == t@,
            s@ == old(s)@ + t@.take(i as int),
        decreases cs.len() - i,
    {
        push_char(s, cs[i]);
        i += 1;
        assert(s@ =~= old(s)@ + t@.take(i as int));
    }
    assert(t@.take(cs.len() as int) =~= t@);
}

/// A copy of a vector of strings, element by element.
pub fn copy_strings(v: &Vec<String>) -> (r: Vec<String>)
    ensures
        r@ == v@,
{
    let mut out: Vec<String> = Vec::new();
    let mut i: usize = 0;
    while i < v.len()
        invariant
            i <= v.len(),
            out@ == v@.take(i as int),
        decreases v.len() - i,
    {
        out.push(v[i].clone());
        i += 1;
        assert(out@ =~= v@.take(i as int));
    }
    assert(out@ =~= v@);
    out
}

/// The characters of `v` from index `from` up to (not including) `to`.
pub fn sub_chars(v: &Vec<char>, from: usize, to: usize) -> (r: Vec<char>)
    requires
        from <= to <= v.len(),
    ensures
        r@ == v@.subrange(from as int, to as int),
{
    let mut out: Vec<char> = Vec::new();
    let mut i: usize = from;
    while i < to
        invariant
            from <= i <= to <= v.len(),
            out@ == v@.subrange(from as int, i as int),
        decreases to - i,
    {
        out.push(v[i]);
        i += 1;
        assert(out@ =~= v@.subrange(from as int, i as int));
    }
    out
}

/// Equality of two strings by their characters.
pub fn str_eq(a: &str, b: &str) -> (r: bool)
    ensures
        r == (a@ == b@),
{
    let x = chars_of(a);
    let y = chars_of(b);
    if x.len() != y.len() {
        return false;
    }
    let mut i: usize = 0;
    while i < x.len()
        invariant
            x@ == a@,
            y@ == b@,
            x.len() == y.len(),
            i <= x.len(),
            forall|k: int| 0 <= k < i ==> x@[k] == y@[k],
        decreases x.len() - i,
    {
        if x[i] != y[i] {
            return false;
        }
        i += 1;
    }
    assert(x@ =~= y@);
    true
}

// ---------------------------------------------------------------------------
// Substring search
// ---------------------------------------------------------------------------

/// `p` occurs in `s` starting at index `i`.
pub open spec fn occurs_at(s: Seq<char>, p: Seq<char>, i: int) -> bool {
    0 <= i && i + p.len() <= s.len() && s.subrange(i, i + p.len()) == p
}

/// `p` is a substring of `s`.
pub open spec fn contains_seq(s: Seq<char>, p: Seq<char>) -> bool {
    exists|i: int| #[trigger] occurs_at(s, p, i)
}

/// The characters of the string, if there is one.
pub open spec fn opt_chars(o: Option<String>) -> Option<Seq<char>> {
    match o {
        Some(s) => Some(s@),
        None => None,
    }
}

/// `s` begins with `p`.
pub open spec fn starts_with_seq(s: Seq<char>, p: Seq<char>) -> bool {
    occurs_at(s, p, 0)
}

/// `s` ends with `p`.
pub open spec fn ends_with_seq(s: Seq<char>, p: Seq<char>) -> bool {
    occurs_at(s, p, s.len() - p.len())
}

/// The first index at or after `i` where `p` occurs in `s`.
pub open spec fn find_from(s: Seq<char>, p: Seq<char>, i: int) -> Option<int>
    decreases s.len() + 1 - i,
{
    if i < 0 || i > s.len() {
        None
    } else if occurs_at(s, p, i) {
        Some(i)
    } else {
        find_from(s, p, i + 1)
    }
}

/// The first index where `p` occurs in `s` (as `str::find`, counted in characters).
pub open spec fn first_occurrence(s: Seq<char>, p: Seq<char>) -> Option<int> {
    find_from(s, p, 0)
}

proof fn lemma_find_from_hit(s: Seq<char>, p: Seq<char>, k: int, i: int)
    requires
        0 <= k <= i,
        occurs_at(s, p, i),
        forall|j: int| k <= j < i ==> !occurs_at(s, p, j),
    ensures
        find_from(s, p, k) == Some(i),
    decreases i - k,
{
    if k < i {
        lemma_find_from_hit(s, p, k + 1, i);
    }
}

proof fn lemma_find_from_miss(s: Seq<char>, p: Seq<char>, k: int)
    requires
        0 <= k,
        forall|j: int| k <= j ==> !occurs_at(s, p, j),
    ensures
        find_from(s, p, k) is None,
    decreases s.len() + 1 - k,
{
    if k <= s.len() {
        lemma_find_from_miss(s, p, k + 1);
    }
}

/// The first occurrence is the one at `i` when `p` occurs there and nowhere before.
pub proof fn lemma_find_from_first(s: Seq<char>, p: Seq<char>, i: int)
    requires
        0 <= i,
        occurs_at(s, p, i),
        forall|j: int| 0 <= j < i ==> !occurs_at(s, p, j),
    ensures
        first_occurrence(s, p) == Some(i),
{
    lemma_find_from_hit(s, p, 0, i);
}

/// Whether `p` occurs in `s` at index `i`.
pub fn occurs_at_exec(s: &Vec<char>, p: &Vec<char>, i: usize) -> (b: bool)
    ensures
        b == occurs_at(s@, p@, i as int),
{
    if i > s.len() || p.len() > s.len() - i {
        return false;
    }
    let mut j: usize = 0;
    while j < p.len()
        invariant
            i + p.len() <= s.len(),
            j <= p.len(),
            forall|k: int| 0 <= k < j ==> s@[i + k] == p@[k],
        decreases p.len() - j,
    {
        if s[i + j] != p[j] {
            assert(s@.subrange(i as int, i + p.len())[j as int] != p@[j as int]);
            return false;
        }
        j += 1;
    }
    assert(s@.subrange(i as int, i + p.len()) =~= p@);
    true
}

/// The first index at which `p` occurs in `s`, if any.
pub fn find_seq(s: &Vec<char>, p: &Vec<char>) -> (r: Option<usize>)
    ensures
        match r {
            Some(i) => occurs_at(s@, p@, i as int) && forall|j: int|
                0 <= j < i ==> !occurs_at(s@, p@, j),
            None => !contains_seq(s@, p@),
        },
        match r {
            Some(i) => first_occurrence(s@, p@) == Some(i as int),
            None => first_occurrence(s@, p@) is None,
        },
{
    let mut i: usize = 0;
    while i < s.len()
        invariant
            i <= s.len(),
            forall|j: int| 0 <= j < i ==> !occurs_at(s@, p@, j),
        decreases s.len() - i,
    {
        if occurs_at_exec(s, p, i) {
            proof {
                lemma_find_from_hit(s@, p@, 0, i as int);
            }
            return Some(i);
        }
        i += 1;
    }
    if occurs_at_exec(s, p, i) {
        proof {
            lemma_find_from_hit(s@, p@, 0, i as int);
        }
        return Some(i);
    }
    assert forall|j: int| !occurs_at(s@, p@, j) by {
        if 0 <= j && j <= i {
        }
    }
    proof {
        lemma_find_from_miss(s@, p@, 0);
    }
    None
}

/// Whether `p` is a substring of `s`.
pub fn contains_str(s: &str, p: &str) -> (r: bool)
    ensures
        r == contains_seq(s@, p@),
{
    let sv = chars_of(s);
    let pv = chars_of(p);
    match find_seq(&sv, &pv) {
        Some(_) => true,
        None => false,
    }
}

/// Whether any of `pats` is a substring of `s`.
pub open spec fn contains_any(s: Seq<char>, pats: Seq<Seq<char>>) -> bool {
    exists|k: int| 0 <= k < pats.len() && #[trigger] contains_seq(s, pats[k])
}

/// Whether any of the patterns `pats` is a substring of `s`.
pub fn contains_any_str(s: &str, pats: &Vec<&str>) -> (r: bool)
    ensures
        r == contains_any(s@, pats@.map_values(|p: &str| p@)),
{
    let ghost ps = pats@.map_values(|p: &str| p@);
    let mut k: usize = 0;
    while k < pats.len()
        invariant
            k <= pats.len(),
            ps == pats@.map_values(|p: &str| p@),
            forall|j: int| 0 <= j < k ==> !contains_seq(s@, #[trigger] ps[j]),
        decreases pats.len() - k,
    {
        if contains_str(s, pats[k]) {
            assert(contains_seq(s@, ps[k as int]));
            return true;
        }
        k += 1;
    }
    false
}

// ---------------------------------------------------------------------------
// Whitespace trimming
// ---------------------------------------------------------------------------

/// The characters that Rust's `char::is_whitespace` accepts: those with the
/// Unicode `White_Space` property.
pub open spec fn is_white(c: char) -> bool {
    ||| c == '\t'
    ||| c == '\n'
    ||| c == '\u{0B}'
    ||| c == '\u{0C}'
    ||| c == '\r'
    ||| c == ' '
    ||| c == '\u{85}'
    ||| c == '\u{A0}'
    ||| c == '\u{1680}'
    ||| ('\u{2000}' <= c && c <= '\u{200A}')
    ||| c == '\u{2028}'
    ||| c == '\u{2029}'
    ||| c == '\u{202F}'
    ||| c == '\u{205F}'
    ||| c == '\u{3000}'
}

/// Whether `c` is a whitespace character.
pub fn is_white_exec(c: char) -> (b: bool)
    ensures
        b == is_white(c),
{
    c == '\t' || c == '\n' || c == '\u{0B}' || c == '\u{0C}' || c == '\r' || c == ' ' || c
        == '\u{85}' || c == '\u{A0}' || c == '\u{1680}' || ('\u{2000}' <= c && c <= '\u{200A}')
        || c == '\u{2028}' || c == '\u{2029}' || c == '\u{202F}' || c == '\u{205F}' || c
        == '\u{3000}'
}

/// The first index at or after `i` that does not hold whitespace (or the length).
pub open spec fn first_non_white(s: Seq<char>, i: int) -> int
    decreases s.len() - i,
{
    if 0 <= i < s.len() && is_white(s[i]) {
        first_non_white(s, i + 1)
    } else {
        i
    }
}

/// The end of `s.take(j)` once trailing whitespace is dropped.
pub open spec fn end_non_white(s: Seq<char>, j: int) -> int
    decreases j,
{
    if 0 < j <= s.len() && is_white(s[j - 1]) {
        end_non_white(s, j - 1)
    } else {
        j
    }
}

/// `s` without its leading whitespace.
pub open spec fn trim_start_seq(s: Seq<char>) -> Seq<char> {
    s.skip(first_non_white(s, 0))
}

/// `s` without its leading and trailing whitespace (Rust's `str::trim`).
pub open spec fn trim_seq(s: Seq<char>) -> Seq<char> {
    let t = trim_start_seq(s);
    t.take(end_non_white(t, t.len() as int))
}

proof fn lemma_first_non_white_bounds(s: Seq<char>, i: int)
    requires
        0 <= i <= s.len(),
    ensures
        i <= first_non_white(s, i) <= s.len(),
    decreases s.len() - i,
{
    if i < s.len() && is_white(s[i]) {
        lemma_first_non_white_bounds(s, i + 1);
    }
}

pub proof fn lemma_end_non_white_bounds(s: Seq<char>, j: int)
    requires
        0 <= j <= s.len(),
    ensures
        0 <= end_non_white(s, j) <= j,
    decreases j,
{
    if 0 < j && is_white(s[j - 1]) {
        lemma_end_non_white_bounds(s, j - 1);
    }
}

/// `v` with leading and trailing whitespace removed.
pub fn trim_chars(v: &Vec<char>) -> (r: Vec<char>)
    ensures
        r@ == trim_seq(v@),
{
    let n = v.len();
    let mut a: usize = 0;
    while a < n && is_white_exec(v[a])
        invariant
            n == v.len(),
            a <= n,
            first_non_white(v@, a as int) == first_non_white(v@, 0),
        decreases n - a,
    {
        a += 1;
    }
    let ghost t = v@.skip(a as int);
    assert(t =~= trim_start_seq(v@));
    let mut b: usize = n;
    while b > a && is_white_exec(v[b - 1])
        invariant
            n == v.len(),
            a <= b <= n,
            t == v@.skip(a as int),
            end_non_white(t, (b - a) as int) == end_non_white(t, t.len() as int),
        decreases b,
    {
        assert(t[(b - a) - 1] == v@[b - 1]);
        b -= 1;
    }
    let mut out: Vec<char> = Vec::new();
    let mut i: usize = a;
    while i < b
        invariant
            a <= i <= b <= n,
            n == v.len(),
            out@ == v@.subrange(a as int, i as int),
        decreases b - i,
    {
        out.push(v[i]);
        i += 1;
        assert(out@ =~= v@.subrange(a as int, i as int));
    }
    assert(out@ =~= t.take((b - a) as int));
    out
}

/// Rust's `str::trim`: `s` without leading and trailing whitespace.
pub fn trim_str(s: &str) -> (r: Vec<char>)
    ensures
        r@ == trim_seq(s@),
{
    let v = chars_of(s);
    trim_chars(&v)
}

// ---------------------------------------------------------------------------
// Replacing and suffix stripping
// ---------------------------------------------------------------------------

/// Every occurrence of `from` in `s` replaced by `to`, scanning left to right
/// over non-overlapping occurrences (Rust's `str::replace` for a non-empty pattern).
pub open spec fn replace_seq(s: Seq<char>, from: Seq<char>, to: Seq<char>) -> Seq<char>
    recommends
        from.len() > 0,
    decreases s.len(),
{
    if s.len() == 0 || from.len() == 0 {
        s
    } else if occurs_at(s, from, 0) {
        to + replace_seq(s.skip(from.len() as int), from, to)
    } else {
        seq![s[0]] + replace_seq(s.skip(1), from, to)
    }
}

/// `s` with `from` replaced by `to` throughout.
pub fn replace_chars(s: &Vec<char>, from: &Vec<char>, to: &Vec<char>) -> (r: Vec<char>)
    requires
        from.len() > 0,
    ensures
        r@ == replace_seq(s@, from@, to@),
{
    let mut out: Vec<char> = Vec::new();
    let mut i: usize = 0;
    assert(s@.skip(0) =~= s@);
    assert(out@ + replace_seq(s@, from@, to@) =~= replace_seq(s@, from@, to@));
    while i < s.len()
        invariant
            i <= s.len(),
            from.len() > 0,
            out@ + replace_seq(s@.skip(i as int), from@, to@) == replace_seq(s@, from@, to@),
        decreases s.len() - i,
    {
        let ghost rest = s@.skip(i as int);
        if occurs_at_exec(s, from, i) {
            assert(occurs_at(rest, from@, 0)) by {
                assert(rest.subrange(0, from@.len() as int) =~= s@.subrange(
                    i as int,
                    i + from@.len(),
                ));
            }
            assert(rest.skip(from@.len() as int) =~= s@.skip(i + from@.len()));
            let mut k: usize = 0;
            let ghost out0 = out@;
            while k < to.len()
                invariant
                    k <= to.len(),
                    out@ == out0 + to@.take(k as int),
                decreases to.len() - k,
            {
                out.push(to[k]);
                k += 1;
                assert(out@ =~= out0 + to@.take(k as int));
            }
            assert(to@.take(to.len() as int) =~= to@);
            assert(out@ + replace_seq(s@.skip(i + from@.len()), from@, to@) =~= out0 + (to@
                + replace_seq(s@.skip(i + from@.len()), from@, to@)));
            i += from.len();
        } else {
            assert(!occurs_at(rest, from@, 0)) by {
                if occurs_at(rest, from@, 0) {
                    assert(rest.subrange(0, from@.len() as int) =~= s@.subrange(
                        i as int,
                        i + from@.len(),
                    ));
                }
            }
            assert(rest.skip(1) =~= s@.skip(i + 1));
            let ghost out0 = out@;
            out.push(s[i]);
            assert(out@ + replace_seq(s@.skip(i + 1), from@, to@) =~= out0 + (seq![s@[i as int]]
                + replace_seq(s@.skip(i + 1), from@, to@)));
            i += 1;
        }
    }
    assert(replace_seq(s@.skip(i as int), from@, to@) == Seq::<char>::empty());
    assert(out@ =~= out@ + Seq::<char>::empty());
    out
}

/// `s` with every trailing occurrence of `p` removed, one after another
/// (Rust's `str::trim_end_matches` for a non-empty string pattern).
pub open spec fn trim_end_matches_seq(s: Seq<char>, p: Seq<char>) -> Seq<char>
    decreases s.len(),
{
    if p.len() > 0 && p.len() <= s.len() && ends_with_seq(s, p) {
        trim_end_matches_seq(s.take(s.len() - p.len()), p)
    } else {
        s
    }
}

/// `s` with every trailing occurrence of `p` removed.
pub fn trim_end_matches_chars(s: &Vec<char>, p: &Vec<char>) -> (r: Vec<char>)
    ensures
        r@ == trim_end_matches_seq(s@, p@),
{
    let mut end: usize = s.len();
    assert(s@.take(end as int) =~= s@);
    while p.len() > 0 && p.len() <= end && occurs_at_exec(s, p, end - p.len())
        invariant
            end <= s.len(),
            trim_end_matches_seq(s@.take(end as int), p@) == trim_end_matches_seq(s@, p@),
        decreases end,
    {
        let ghost t = s@.take(end as int);
        assert(t.subrange(t.len() - p@.len(), t.len() as int) =~= s@.subrange(
            end - p@.len(),
            end as int,
        ));
        assert(t.take(t.len() - p@.len()) =~= s@.take(end - p@.len()));
        end -= p.len();
    }
    let ghost t = s@.take(end as int);
    assert(!(p@.len() > 0 && p@.len() <= t.len() && ends_with_seq(t, p@))) by {
        if p@.len() > 0 && p@.len() <= t.len() && ends_with_seq(t, p@) {
            assert(t.subrange(t.len() - p@.len(), t.len() as int) =~= s@.subrange(
                end - p@.len(),
                end as int,
            ));
        }
    }
    let mut out: Vec<char> = Vec::new();
    let mut i: usize = 0;
    while i < end
        invariant
            i <= end <= s.len(),
            out@ == s@.take(i as int),
        decreases end - i,
    {
        out.push(s[i]);
        i += 1;
        assert(out@ =~= s@.take(i as int));
    }
    out
}

// ---------------------------------------------------------------------------
// Number rendering
// ---------------------------------------------------------------------------

/// The ASCII digit for `d` (0 through 9).
pub open spec fn digit_char(d: nat) -> char {
    if d == 0 {
        '0'
    } else if d == 1 {
        '1'
    } else if d == 2 {
        '2'
    } else if d == 3 {
        '3'
    } else if d == 4 {
        '4'
    } else if d == 5 {
        '5'
    } else if d == 6 {
        '6'
    } else if d == 7 {
        '7'
    } else if d == 8 {
        '8'
    } else {
        '9'
    }
}

/// The decimal rendering of `n`, without leading zeros (as `format!("{}", n)`).
pub open spec fn decimal(n: nat) -> Seq<char>
    decreases n,
{
    if n < 10 {
        seq![digit_char(n)]
    } else {
        decimal(n / 10).push(digit_char(n % 10))
    }
}

fn digit_exec(d: u64) -> (c: char)
    requires
        d < 10,
    ensures
        c == digit_char(d as nat),
{
    if d == 0 {
        '0'
    } else if d == 1 {
        '1'
    } else if d == 2 {
        '2'
    } else if d == 3 {
        '3'
    } else if d == 4 {
        '4'
    } else if d == 5 {
        '5'
    } else if d == 6 {
        '6'
    } else if d == 7 {
        '7'
    } else if d == 8 {
        '8'
    } else {
        '9'
    }
}

/// The decimal digits of `n`.
pub fn decimal_chars(n: u64) -> (r: Vec<char>)
    ensures
        r@ == decimal(n as nat),
    decreases n,
{
    if n < 10 {
        let mut v: Vec<char> = Vec::new();
        v.push(digit_exec(n));
        assert(v@ =~= seq![digit_char(n as nat)]);
        v
    } else {
        let mut v = decimal_chars(n / 10);
        v.push(digit_exec(n % 10));
        v
    }
}

/// Appends the decimal rendering of `n` to `s`.
pub fn push_decimal(s: &mut String, n: u64)
    ensures
        final(s)@ == old(s)@ + decimal(n as nat),
{
    let d = decimal_chars(n);
    let mut i: usize = 0;
    while i < d.len()
        invariant
            i <= d.len(),
            s@ == old(s)@ + d@.take(i as int),
        decreases d.len() - i,
    {
        push_char(s, d[i]);
        i += 1;
        assert(s@ =~= old(s)@ + d@.take(i as int));
    }
    assert(d@.take(d.len() as int) =~= d@);
}

/// The lowercase hexadecimal digit for `d` (0 through 15).
pub open spec fn hex_digit(d: nat) -> char {
    if d < 10 {
        digit_char(d)
    } else if d == 10 {
        'a'
    } else if d == 11 {
        'b'
    } else if d == 12 {
        'c'
    } else if d == 13 {
        'd'
    } else if d == 14 {
        'e'
    } else {
        'f'
    }
}

/// Two lowercase hexadecimal digits per byte, most significant first
/// (as `format!("{b:02x}")` for each byte, concatenated).
pub open spec fn hex_of(bytes: Seq<u8>) -> Seq<char>
    decreases bytes.len(),
{
    if bytes.len() == 0 {
        Seq::empty()
    } else {
        hex_of(bytes.drop_last()) + seq![
            hex_digit((bytes.last() / 16) as nat),
            hex_digit((bytes.last() % 16) as nat),
        ]
    }
}

pub proof fn lemma_hex_len(bytes: Seq<u8>)
    ensures
        hex_of(bytes).len() == 2 * bytes.len(),
    decreases bytes.len(),
{
    if bytes.len() > 0 {
        lemma_hex_len(bytes.drop_last());
    }
}

/// Each byte is written as two lowercase hexadecimal digits, high half first:
/// the characters at `2k` and `2k + 1` are the digits of the byte at `k`,
/// taken from "0123456789abcdef".
pub proof fn hex_digits_per_byte(bytes: Seq<u8>, k: int)
    requires
        0 <= k < bytes.len(),
    ensures
        hex_of(bytes).len() == 2 * bytes.len(),
        hex_of(bytes)[2 * k] == "0123456789abcdef"@[(bytes[k] / 16) as int],
        hex_of(bytes)[2 * k + 1] == "0123456789abcdef"@[(bytes[k] % 16) as int],
    decreases bytes.len(),
{
    reveal_strlit("0123456789abcdef");
    lemma_hex_len(bytes);
    let t = bytes.drop_last();
    lemma_hex_len(t);
    if k < bytes.len() - 1 {
        hex_digits_per_byte(t, k);
        assert(t[k] == bytes[k]);
        assert(hex_of(bytes)[2 * k] == hex_of(t)[2 * k]);
        assert(hex_of(bytes)[2 * k + 1] == hex_of(t)[2 * k + 1]);
    } else {
        assert(bytes.last() == bytes[k]);
        let hi = (bytes[k] / 16) as nat;
        let lo = (bytes[k] % 16) as nat;
        assert(hex_of(bytes)[2 * k] == hex_digit(hi));
        assert(hex_of(bytes)[2 * k + 1] == hex_digit(lo));
        assert(hex_digit(hi) == "0123456789abcdef"@[hi as int]);
        assert(hex_digit(lo) == "0123456789abcdef"@[lo as int]);
    }
}

fn hex_digit_exec(d: u8) -> (c: char)
    requires
        d < 16,
    ensures
        c == hex_digit(d as nat),
{
    if d < 10 {
        digit_exec(d as u64)
    } else if d == 10 {
        'a'
    } else if d == 11 {
        'b'
    } else if d == 12 {
        'c'
    } else if d == 13 {
        'd'
    } else if d == 14 {
        'e'
    } else {
        'f'
    }
}

/// Lowercase hexadecimal encoding of `bytes`, two digits per byte.
pub fn hex_encode(bytes: &[u8]) -> (r: String)
    ensures
        r@ == hex_of(bytes@),
        r@.len() == 2 * bytes@.len(),
{
    let mut s = String::new();
    let mut i: usize = 0;
    while i < bytes.len()
        invariant
            i <= bytes.len(),
            s@ == hex_of(bytes@.take(i as int)),
        decreases bytes.len() - i,
    {
        let b = bytes[i];
        push_char(&mut s, hex_digit_exec(b / 16));
        push_char(&mut s, hex_digit_exec(b % 16));
        i += 1;
        assert(bytes@.take(i as int).drop_last() =~= bytes@.take(i - 1));
    }
    assert(bytes@.take(bytes.len() as int) =~= bytes@);
    proof {
        lemma_hex_len(bytes@);
    }
    s
}

// ---------------------------------------------------------------------------
// Case folding
// ---------------------------------------------------------------------------

/// What `str::to_lowercase` gives for a string: its Unicode lowercase mapping.
pub uninterp spec fn lowercase(s: Seq<char>) -> Seq<char>;

/// Lowercases a string.
/// Trusted: calls `str::to_lowercase`; the result is named `lowercase` of the
/// input's characters and is otherwise not described.
#[verifier::external_body]
pub(crate) fn to_lowercase(s: &str) -> (r: String)
    ensures
        r@ == lowercase(s@),
{
    s.to_lowercase()
}

// ---------------------------------------------------------------------------
// Paths
// ---------------------------------------------------------------------------

/// Appending a path component as `PathBuf::join` does on Unix: an absolute
/// component replaces the path, an empty base is replaced by the component, and
/// otherwise a "/" separates them unless the base already ends with one.
pub open spec fn path_join(base: Seq<char>, part: Seq<char>) -> Seq<char> {
    if part.len() > 0 && part[0] == '/' {
        part
    } else if base.len() == 0 {
        part
    } else if base[base.len() - 1] == '/' {
        base + part
    } else {
        base + "/"@ + part
    }
}

/// `base` joined with `part` as a path.
pub fn join_path(base: &str, part: &str) -> (r: String)
    ensures
        r@ == path_join(base@, part@),
{
    proof {
        reveal_strlit("/");
    }
    let b = chars_of(base);
    let p = chars_of(part);
    let mut s = String::new();
    if p.len() > 0 && p[0] == '/' {
        push_str(&mut s, part);
    } else if b.len() == 0 {
        push_str(&mut s, part);
    } else if b[b.len() - 1] == '/' {
        push_str(&mut s, base);
        push_str(&mut s, part);
    } else {
        push_str(&mut s, base);
        push_str(&mut s, "/");
        push_str(&mut s, part);
    }
    s
}

// ---------------------------------------------------------------------------
// Byte-indexed slices
// ---------------------------------------------------------------------------

/// The first `k` bytes of `s`, which must end on a character boundary.
pub fn str_prefix(s: &str, k: usize) -> (r: &str)
    requires
        k <= s.spec_bytes().len(),
        is_char_boundary(s.spec_bytes(), k as int),
    ensures
        r@ == decode_utf8(s.spec_bytes().take(k as int)),
        r.spec_bytes() == s.spec_bytes().take(k as int),
{
    let (a, _) = s.split_at(k);
    proof {
        encode_utf8_decode_utf8(a@);
        assert(a.spec_bytes() =~= s.spec_bytes().take(k as int));
    }
    a
}

/// `s` without its first `k` bytes, which must end on a character boundary.
pub fn str_suffix(s: &str, k: usize) -> (r: &str)
    requires
        k <= s.spec_bytes().len(),
        is_char_boundary(s.spec_bytes(), k as int),
    ensures
        r@ == decode_utf8(s.spec_bytes().skip(k as int)),
        r.spec_bytes() == s.spec_bytes().skip(k as int),
{
    let (_, b) = s.split_at(k);
    proof {
        encode_utf8_decode_utf8(b@);
        assert(b.spec_bytes() =~= s.spec_bytes().skip(k as int));
    }
    b
}

/// A character boundary of a UTF-8 text stays one in any prefix that ends on a
/// boundary and reaches it.
pub proof fn lemma_boundary_in_prefix(bytes: Seq<u8>, k: int, j: int)
    requires
        valid_utf8(bytes),
        0 <= j <= k <= bytes.len(),
        is_char_boundary(bytes, k),
        is_char_boundary(bytes, j),
    ensures
        valid_utf8(bytes.take(k)),
        is_char_boundary(bytes.take(k), j),
{
    valid_utf8_split(bytes, k);
    assert(bytes.subrange(0, k) =~= bytes.take(k));
    if j == k {
        is_char_boundary_start_end_of_seq(bytes.take(k));
    } else {
        is_char_boundary_iff_not_is_continuation_byte(bytes, j);
        is_char_boundary_iff_not_is_continuation_byte(bytes.take(k), j);
    }
}

/// The bytes of a string are valid UTF-8.
pub proof fn lemma_str_bytes_valid(s: &str)
    ensures
        valid_utf8(s.spec_bytes()),
{
    encode_utf8_valid_utf8(s@);
}

// ---------------------------------------------------------------------------
// Ordering
// ---------------------------------------------------------------------------

/// `a` comes strictly before `b` in lexicographic order of code points
/// (the order of `String`'s `Ord`, which compares the UTF-8 bytes).
pub open spec fn seq_lt(a: Seq<char>, b: Seq<char>) -> bool
    decreases a.len(),
{
    if b.len() == 0 {
        false
    } else if a.len() == 0 {
        true
    } else if a[0] != b[0] {
        a[0] < b[0]
    } else {
        seq_lt(a.drop_first(), b.drop_first())
    }
}

/// No string comes strictly before itself, and of two strings at most one
/// comes before the other.
pub proof fn lemma_seq_lt_asymmetric(a: Seq<char>, b: Seq<char>)
    ensures
        seq_lt(a, b) ==> !seq_lt(b, a),
    decreases a.len(),
{
    if a.len() > 0 && b.len() > 0 && a[0] == b[0] {
        lemma_seq_lt_asymmetric(a.drop_first(), b.drop_first());
    }
}

/// Of two different strings, one comes before the other.
pub proof fn lemma_seq_lt_total(a: Seq<char>, b: Seq<char>)
    ensures
        seq_lt(a, b) || a == b || seq_lt(b, a),
    decreases a.len(),
{
    if a.len() == 0 && b.len() == 0 {
        assert(a =~= b);
    } else if a.len() > 0 && b.len() > 0 && a[0] == b[0] {
        lemma_seq_lt_total(a.drop_first(), b.drop_first());
        if a.drop_first() == b.drop_first() {
            assert(a =~= seq![a[0]] + a.drop_first());
            assert(b =~= seq![b[0]] + b.drop_first());
        }
    }
}

/// The order is transitive.
pub proof fn lemma_seq_lt_transitive(a: Seq<char>, b: Seq<char>, c: Seq<char>)
    requires
        seq_lt(a, b),
        seq_lt(b, c),
    ensures
        seq_lt(a, c),
    decreases a.len(),
{
    if a.len() > 0 && a[0] == b[0] && b[0] == c[0] {
        lemma_seq_lt_transitive(a.drop_first(), b.drop_first(), c.drop_first());
    }
}

/// Whether `a` comes strictly before `b`.
pub fn str_lt(a: &str, b: &str) -> (r: bool)
    ensures
        r == seq_lt(a@, b@),
{
    let x = chars_of(a);
    let y = chars_of(b);
    let mut i: usize = 0;
    assert(a@.skip(0) =~= a@);
    assert(b@.skip(0) =~= b@);
    while i < x.len() && i < y.len() && x[i] == y[i]
        invariant
            x@ == a@,
            y@ == b@,
            i <= x.len(),
            i <= y.len(),
            seq_lt(a@, b@) == seq_lt(a@.skip(i as int), b@.skip(i as int)),
        decreases x.len() - i,
    {
        assert(a@.skip(i as int).drop_first() =~= a@.skip(i + 1));
        assert(b@.skip(i as int).drop_first() =~= b@.skip(i + 1));
        i += 1;
    }
    if i == y.len() {
        false
    } else if i == x.len() {
        true
    } else {
        x[i] < y[i]
    }
}

} // verus!
