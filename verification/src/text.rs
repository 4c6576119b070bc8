//! Character-level text helpers: whitespace trimming, ASCII case folding,
//! substring search and decimal digits, each with its model on `Seq<char>`.

use vstd::prelude::*;

verus! {

/// The characters of a string slice, in order.
pub fn str_chars(s: &str) -> (v: Vec<char>)
    ensures
        v@ == s@,
{
    let mut v: Vec<char> = Vec::new();
    for c in it: s.chars()
        invariant
            v@ == it.seq().take(it.index() as int),
    {
        v.push(c);
    }
    v
}

/// ASCII upper-case letters fold to lower case; every other character stays.
pub open spec fn ascii_lower(c: char) -> char {
    if 'A' <= c <= 'Z' {
        ((c as u32) + 32) as char
    } else {
        c
    }
}

pub fn to_ascii_lower(c: char) -> (r: char)
    ensures
        r == ascii_lower(c),
{
    if c >= 'A' && c <= 'Z' {
        (((c as u32) + 32) as u8) as char
    } else {
        c
    }
}

} // verus!

verus! {

/// Unicode `White_Space`, the set `char::is_whitespace` and `str::trim` use.
pub open spec fn is_ws(c: char) -> bool {
    let u = c as u32;
    ||| 0x09 <= u <= 0x0d
    ||| u == 0x20
    ||| u == 0x85
    ||| u == 0xa0
    ||| u == 0x1680
    ||| 0x2000 <= u <= 0x200a
    ||| u == 0x2028
    ||| u == 0x2029
    ||| u == 0x202f
    ||| u == 0x205f
    ||| u == 0x3000
}

pub fn is_whitespace(c: char) -> (r: bool)
    ensures
        r == is_ws(c),
{
    let u = c as u32;
    (0x09 <= u && u <= 0x0d) || u == 0x20 || u == 0x85 || u == 0xa0 || u == 0x1680 || (0x2000 <= u
        && u <= 0x200a) || u == 0x2028 || u == 0x2029 || u == 0x202f || u == 0x205f || u == 0x3000
}

/// Index of the first non-whitespace character at or after `i`.
pub open spec fn ws_prefix_end(s: Seq<char>, i: int) -> int
    decreases s.len() - i,
{
    if 0 <= i < s.len() && is_ws(s[i]) {
        ws_prefix_end(s, i + 1)
    } else {
        i
    }
}

/// Start of the whitespace run that ends at `j`, not going below `lo`.
pub open spec fn ws_suffix_start(s: Seq<char>, j: int, lo: int) -> int
    decreases j - lo,
{
    if lo < j <= s.len() && is_ws(s[j - 1]) {
        ws_suffix_start(s, j - 1, lo)
    } else {
        j
    }
}

/// `str::trim`: leading and trailing whitespace removed.
pub open spec fn trim(s: Seq<char>) -> Seq<char> {
    let lo = ws_prefix_end(s, 0);
    s.subrange(lo, ws_suffix_start(s, s.len() as int, lo))
}

pub proof fn lemma_ws_prefix_end(s: Seq<char>, i: int)
    requires
        0 <= i <= s.len(),
    ensures
        i <= ws_prefix_end(s, i) <= s.len(),
        ws_prefix_end(s, i) == s.len() || !is_ws(s[ws_prefix_end(s, i)]),
    decreases s.len() - i,
{
    if i < s.len() && is_ws(s[i]) {
        lemma_ws_prefix_end(s, i + 1);
    }
}

pub proof fn lemma_ws_suffix_start(s: Seq<char>, j: int, lo: int)
    requires
        0 <= lo <= j <= s.len(),
    ensures
        lo <= ws_suffix_start(s, j, lo) <= j,
        ws_suffix_start(s, j, lo) == lo || !is_ws(s[ws_suffix_start(s, j, lo) - 1]),
    decreases j - lo,
{
    if lo < j && is_ws(s[j - 1]) {
        lemma_ws_suffix_start(s, j - 1, lo);
    }
}

/// Text that neither starts nor ends with whitespace trims to itself.
pub proof fn lemma_trim_unpadded(s: Seq<char>)
    requires
        s.len() > 0,
        !is_ws(s[0]),
        !is_ws(s[s.len() - 1]),
    ensures
        trim(s) == s,
{
    assert(ws_prefix_end(s, 0) == 0);
    assert(ws_suffix_start(s, s.len() as int, 0) == s.len());
    assert(s.subrange(0, s.len() as int) =~= s);
}

/// Trimming twice is trimming once.
pub proof fn lemma_trim_idempotent(s: Seq<char>)
    ensures
        trim(trim(s)) == trim(s),
{
    let lo = ws_prefix_end(s, 0);
    lemma_ws_prefix_end(s, 0);
    let hi = ws_suffix_start(s, s.len() as int, lo);
    lemma_ws_suffix_start(s, s.len() as int, lo);
    let t = trim(s);
    if t.len() > 0 {
        assert(t[0] == s[lo]);
        assert(t[t.len() - 1] == s[hi - 1]);
        lemma_trim_unpadded(t);
    } else {
        assert(ws_prefix_end(t, 0) == 0);
        assert(trim(t) =~= t);
    }
}

/// `str::trim` on a character vector.
pub fn trim_chars(s: &Vec<char>) -> (r: Vec<char>)
    ensures
        r@ == trim(s@),
{
    let n = s.len();
    let mut lo: usize = 0;
    while lo < n && is_whitespace(s[lo])
        invariant
            lo <= n,
            n == s@.len(),
            ws_prefix_end(s@, lo as int) == ws_prefix_end(s@, 0),
        decreases n - lo,
    {
        lo = lo + 1;
    }
    let mut hi: usize = n;
    while hi > lo && is_whitespace(s[hi - 1])
        invariant
            lo <= hi <= n,
            n == s@.len(),
            lo == ws_prefix_end(s@, 0),
            ws_suffix_start(s@, hi as int, lo as int) == ws_suffix_start(s@, n as int, lo as int),
        decreases hi,
    {
        hi = hi - 1;
    }
    let mut r: Vec<char> = Vec::new();
    let mut i: usize = lo;
    while i < hi
        invariant
            lo <= i <= hi <= n,
            n == s@.len(),
            r@ == s@.subrange(lo as int, i as int),
        decreases hi - i,
    {
        r.push(s[i]);
        i = i + 1;
        proof {
            assert(r@ =~= s@.subrange(lo as int, i as int));
        }
    }
    r
}

/// The characters of `s` with surrounding whitespace removed.
pub fn trimmed_chars(s: &str) -> (r: Vec<char>)
    ensures
        r@ == trim(s@),
{
    let v = str_chars(s);
    trim_chars(&v)
}

/// `needle` occurs in `hay` at position `i`.
pub open spec fn occurs_at(hay: Seq<char>, needle: Seq<char>, i: int) -> bool {
    0 <= i && i + needle.len() <= hay.len() && hay.subrange(i, i + needle.len()) == needle
}

/// `str::contains` for a string needle.
pub open spec fn contains(hay: Seq<char>, needle: Seq<char>) -> bool {
    exists|i: int| #[trigger] occurs_at(hay, needle, i)
}

/// `str::starts_with`.
pub open spec fn starts_with(s: Seq<char>, prefix: Seq<char>) -> bool {
    occurs_at(s, prefix, 0)
}

/// `str::ends_with`.
pub open spec fn ends_with(s: Seq<char>, suffix: Seq<char>) -> bool {
    occurs_at(s, suffix, s.len() - suffix.len())
}

/// Whether `needle` occurs at position `i` of `hay`.
pub fn matches_at(hay: &Vec<char>, needle: &Vec<char>, i: usize) -> (r: bool)
    ensures
        r == occurs_at(hay@, needle@, i as int),
{
    let n = hay.len();
    let m = needle.len();
    if i > n || m > n - i {
        return false;
    }
    let mut k: usize = 0;
    while k < m
        invariant
            k <= m,
            m == needle@.len(),
            n == hay@.len(),
            i + m <= n,
            forall|j: int| 0 <= j < k ==> hay@[i + j] == needle@[j],
        decreases m - k,
    {
        if hay[i + k] != needle[k] {
            proof {
                assert(hay@.subrange(i as int, i + m)[k as int] != needle@[k as int]);
            }
            return false;
        }
        k = k + 1;
    }
    proof {
        assert(hay@.subrange(i as int, i + m) =~= needle@);
    }
    true
}

pub fn contains_chars(hay: &Vec<char>, needle: &Vec<char>) -> (r: bool)
    ensures
        r == contains(hay@, needle@),
{
    let n = hay.len();
    let m = needle.len();
    if m > n {
        proof {
            assert forall|i: int| !occurs_at(hay@, needle@, i) by {}
        }
        return false;
    }
    let mut i: usize = 0;
    while i < n - m
        invariant
            m <= n,
            i <= n - m,
            n == hay@.len(),
            m == needle@.len(),
            forall|j: int| 0 <= j < i ==> !occurs_at(hay@, needle@, j),
        decreases n - m - i,
    {
        if matches_at(hay, needle, i) {
            return true;
        }
        i = i + 1;
    }
    if matches_at(hay, needle, n - m) {
        return true;
    }
    proof {
        assert forall|j: int| !occurs_at(hay@, needle@, j) by {
            if 0 <= j < i {
            }
        }
    }
    false
}

/// Whether the literal `needle` occurs in `hay`.
pub fn contains_str(hay: &Vec<char>, needle: &str) -> (r: bool)
    ensures
        r == contains(hay@, needle@),
{
    let v = str_chars(needle);
    contains_chars(hay, &v)
}

pub fn starts_with_str(s: &Vec<char>, prefix: &str) -> (r: bool)
    ensures
        r == starts_with(s@, prefix@),
{
    let p = str_chars(prefix);
    matches_at(s, &p, 0)
}

pub fn ends_with_str(s: &Vec<char>, suffix: &str) -> (r: bool)
    ensures
        r == ends_with(s@, suffix@),
{
    let p = str_chars(suffix);
    if p.len() > s.len() {
        return false;
    }
    matches_at(s, &p, s.len() - p.len())
}

/// Whether two character sequences are equal.
pub fn chars_eq(a: &Vec<char>, b: &Vec<char>) -> (r: bool)
    ensures
        r == (a@ == b@),
{
    if a.len() != b.len() {
        return false;
    }
    let r = matches_at(a, b, 0);
    proof {
        if r {
            assert(a@.subrange(0, a@.len() as int) =~= a@);
        } else {
            if a@ == b@ {
                assert(a@.subrange(0, a@.len() as int) =~= a@);
            }
        }
    }
    r
}

/// Whether the characters equal the literal `s`.
pub fn chars_eq_str(a: &Vec<char>, s: &str) -> (r: bool)
    ensures
        r == (a@ == s@),
{
    let b = str_chars(s);
    chars_eq(a, &b)
}

/// ASCII lower case of every character.
pub open spec fn lower_all(s: Seq<char>) -> Seq<char> {
    s.map_values(|c: char| ascii_lower(c))
}

pub fn lower_chars(s: &Vec<char>) -> (r: Vec<char>)
    ensures
        r@ == lower_all(s@),
{
    let mut r: Vec<char> = Vec::new();
    let mut i: usize = 0;
    while i < s.len()
        invariant
            i <= s@.len(),
            r@ == lower_all(s@.subrange(0, i as int)),
        decreases s@.len() - i,
    {
        let c = to_ascii_lower(s[i]);
        r.push(c);
        i = i + 1;
        proof {
            assert(r@ =~= lower_all(s@.subrange(0, i as int)));
        }
    }
    proof {
        assert(s@.subrange(0, s@.len() as int) =~= s@);
    }
    r
}

/// Calls `String::from_iter` (std) on the characters: the string holds exactly
/// those characters, in order.
#[verifier::external_body]
pub(crate) fn string_from_chars(chars: &Vec<char>) -> (s: String)
    ensures
        s@ == chars@,
{
    String::from_iter(chars.iter())
}

} // verus!

verus! {

/// Index of the first `c` in `s` at or after `i`, or `s.len()`.
pub open spec fn char_index_from(s: Seq<char>, c: char, i: int) -> int
    decreases s.len() - i,
{
    if i < 0 || i >= s.len() {
        s.len() as int
    } else if s[i] == c {
        i
    } else {
        char_index_from(s, c, i + 1)
    }
}

/// Start of the first occurrence of `needle` in `hay` at or after `i`, or -1.
pub open spec fn first_match_from(hay: Seq<char>, needle: Seq<char>, i: int) -> int
    decreases hay.len() + 1 - i,
{
    if i < 0 || i + needle.len() > hay.len() {
        -1
    } else if occurs_at(hay, needle, i) {
        i
    } else {
        first_match_from(hay, needle, i + 1)
    }
}

pub proof fn lemma_char_index_from(s: Seq<char>, c: char, i: int)
    requires
        0 <= i <= s.len(),
    ensures
        i <= char_index_from(s, c, i) <= s.len(),
        forall|k: int| i <= k < char_index_from(s, c, i) ==> s[k] != c,
        char_index_from(s, c, i) < s.len() ==> s[char_index_from(s, c, i)] == c,
    decreases s.len() - i,
{
    if i < s.len() && s[i] != c {
        lemma_char_index_from(s, c, i + 1);
    }
}

pub proof fn lemma_first_match_from(hay: Seq<char>, needle: Seq<char>, i: int)
    requires
        0 <= i,
    ensures
        first_match_from(hay, needle, i) == -1 || (i <= first_match_from(hay, needle, i) && occurs_at(
            hay,
            needle,
            first_match_from(hay, needle, i),
        )),
    decreases hay.len() + 1 - i,
{
    if i + needle.len() <= hay.len() && !occurs_at(hay, needle, i) {
        lemma_first_match_from(hay, needle, i + 1);
    }
}

/// Index of the first `c` at or after `i` (the length when there is none).
pub fn find_char_from(s: &Vec<char>, c: char, i: usize) -> (r: usize)
    requires
        i <= s@.len(),
    ensures
        r == char_index_from(s@, c, i as int),
{
    let mut k = i;
    while k < s.len() && s[k] != c
        invariant
            i <= k <= s@.len(),
            char_index_from(s@, c, k as int) == char_index_from(s@, c, i as int),
        decreases s@.len() - k,
    {
        k = k + 1;
    }
    k
}

/// Start of the first occurrence of `needle` at or after `i`, if any.
pub fn find_from(hay: &Vec<char>, needle: &Vec<char>, i: usize) -> (r: Option<usize>)
    ensures
        r matches Some(k) ==> first_match_from(hay@, needle@, i as int) == k,
        r is None ==> first_match_from(hay@, needle@, i as int) == -1,
{
    let n = hay.len();
    let m = needle.len();
    if m > n || i > n - m {
        return None;
    }
    let mut k = i;
    while k <= n - m
        invariant
            m <= n,
            i <= k,
            n == hay@.len(),
            m == needle@.len(),
            k <= n - m + 1,
            first_match_from(hay@, needle@, k as int) == first_match_from(hay@, needle@, i as int),
        decreases n - m + 1 - k,
    {
        if matches_at(hay, needle, k) {
            return Some(k);
        }
        if k == n - m {
            proof {
                assert(first_match_from(hay@, needle@, k + 1) == -1);
            }
            return None;
        }
        k = k + 1;
    }
    None
}

/// `s[lo..hi]` as a new vector.
pub fn sub_chars(s: &Vec<char>, lo: usize, hi: usize) -> (r: Vec<char>)
    requires
        lo <= hi <= s@.len(),
    ensures
        r@ == s@.subrange(lo as int, hi as int),
{
    let mut r: Vec<char> = Vec::new();
    let mut i = lo;
    while i < hi
        invariant
            lo <= i <= hi <= s@.len(),
            r@ == s@.subrange(lo as int, i as int),
        decreases hi - i,
    {
        r.push(s[i]);
        i = i + 1;
        proof {
            assert(r@ =~= s@.subrange(lo as int, i as int));
        }
    }
    r
}

} // verus!

verus! {

/// The decimal digit `d` as a character.
pub open spec fn digit_char(d: int) -> char {
    (48 + d) as char
}

/// `n` in decimal, without leading zeros (`"0"` for zero).
pub open spec fn decimal(n: nat) -> Seq<char>
    decreases n,
{
    if n < 10 {
        seq![digit_char(n as int)]
    } else {
        decimal(n / 10).push(digit_char((n % 10) as int))
    }
}

/// The character of a decimal digit.
pub fn digit_to_char(d: u64) -> (c: char)
    requires
        d < 10,
    ensures
        c == digit_char(d as int),
{
    ((48 + d) as u8) as char
}

/// Append the decimal digits of `n`.
pub fn push_decimal(n: u64, out: &mut Vec<char>)
    ensures
        final(out)@ == old(out)@ + decimal(n as nat),
    decreases n,
{
    if n >= 10 {
        push_decimal(n / 10, out);
    }
    out.push(digit_to_char(n % 10));
    proof {
        if n < 10 {
            assert(out@ =~= old(out)@ + decimal(n as nat));
        }
    }
}

/// `n` in decimal, as `format!("{n}")` writes it.
pub fn decimal_string(n: u64) -> (s: String)
    ensures
        s@ == decimal(n as nat),
{
    let mut v: Vec<char> = Vec::new();
    push_decimal(n, &mut v);
    assert(v@ =~= decimal(n as nat));
    string_from_chars(&v)
}

} // verus!

