use vstd::prelude::*;

verus! {

// ---------------------------------------------------------------------------
// Character classes of the MIXAL source language.
// ---------------------------------------------------------------------------

/// An upper-case letter of the MIX alphabet.
pub open spec fn is_letter(c: char) -> bool {
    'A' <= c && c <= 'Z'
}

/// An ASCII decimal digit.
pub open spec fn is_digit_char(c: char) -> bool {
    '0' <= c && c <= '9'
}

/// A character allowed in a symbol: upper-case letter or digit.
pub open spec fn is_symbol_char(c: char) -> bool {
    is_letter(c) || is_digit_char(c)
}

/// Horizontal whitespace that separates the fields of a source line.
pub open spec fn is_space_char(c: char) -> bool {
    c == ' ' || c == '\t'
}

/// Every character of `s` is a decimal digit.
pub open spec fn all_digits(s: Seq<char>) -> bool {
    forall|i: int| 0 <= i < s.len() ==> is_digit_char(#[trigger] s[i])
}

/// The numeric value of a digit character.
pub open spec fn digit_val(c: char) -> int {
    c as int - '0' as int
}

/// The value of a string of decimal digits, most significant first.
pub open spec fn digits_value(s: Seq<char>) -> int
    decreases s.len(),
{
    if s.len() == 0 {
        0
    } else {
        10 * digits_value(s.drop_last()) + digit_val(s.last())
    }
}

/// A digit string's value is below 10^len.
pub proof fn lemma_digits_value_bound(s: Seq<char>)
    requires
        all_digits(s),
    ensures
        0 <= digits_value(s) < pow10(s.len() as int),
    decreases s.len(),
{
    if s.len() > 0 {
        assert(all_digits(s.drop_last())) by {
            assert(forall|i: int| 0 <= i < s.len() - 1 ==> s.drop_last()[i] == s[i]);
        }
        lemma_digits_value_bound(s.drop_last());
    }
}

/// Powers of ten, for bounding digit strings.
pub open spec fn pow10(k: int) -> int
    decreases k,
{
    if k <= 0 {
        1
    } else {
        10 * pow10(k - 1)
    }
}

pub proof fn lemma_pow10_pos(k: int)
    ensures
        pow10(k) >= 1,
    decreases k,
{
    if k > 0 {
        lemma_pow10_pos(k - 1);
    }
}

pub proof fn lemma_pow10_mono(a: int, b: int)
    requires
        a <= b,
    ensures
        pow10(a) <= pow10(b),
    decreases b - a,
{
    if a < b {
        lemma_pow10_mono(a, b - 1);
        lemma_pow10_pos(b - 1);
    }
}

// ---------------------------------------------------------------------------
// Executable helpers over `&str`, specified against the `Seq<char>` view.
// ---------------------------------------------------------------------------

/// Character-wise string equality.
pub fn str_eq(a: &str, b: &str) -> (r: bool)
    ensures
        r == (a@ == b@),
{
    let alen = a.unicode_len();
    let blen = b.unicode_len();
    if alen != blen {
        return false;
    }
    let mut i: usize = 0;
    while i < alen
        invariant
            0 <= i <= alen,
            alen == a@.len(),
            alen == b@.len(),
            forall|j: int| 0 <= j < i ==> a@[j] == b@[j],
        decreases alen - i,
    {
        if a.get_char(i) != b.get_char(i) {
            return false;
        }
        i += 1;
    }
    proof {
        assert(a@ =~= b@);
    }
    true
}

/// Leftmost index at or after `i` holding the character `c`.
pub open spec fn spec_find_char(s: Seq<char>, c: char, i: int) -> Option<int>
    decreases s.len() - i,
{
    if i < 0 || i >= s.len() {
        None
    } else if s[i] == c {
        Some(i)
    } else {
        spec_find_char(s, c, i + 1)
    }
}

pub proof fn lemma_find_char_props(s: Seq<char>, c: char, i: int)
    requires
        0 <= i <= s.len(),
    ensures
        spec_find_char(s, c, i) matches Some(p) ==> i <= p < s.len() && s[p] == c && (forall|j: int|
            i <= j < p ==> #[trigger] s[j] != c),
        spec_find_char(s, c, i) is None ==> forall|j: int| i <= j < s.len() ==> #[trigger] s[j] != c,
    decreases s.len() - i,
{
    if i < s.len() && s[i] != c {
        lemma_find_char_props(s, c, i + 1);
    }
}

/// Scan for the leftmost occurrence of `c` at or after `from`.
pub fn find_char_from(s: &str, c: char, from: usize) -> (r: Option<usize>)
    requires
        from <= s@.len(),
    ensures
        r matches Some(p) ==> Some(p as int) == spec_find_char(s@, c, from as int),
        r is None <==> spec_find_char(s@, c, from as int) is None,
{
    let n = s.unicode_len();
    let mut i: usize = from;
    while i < n
        invariant
            from <= i <= n,
            n == s@.len(),
            spec_find_char(s@, c, from as int) == spec_find_char(s@, c, i as int),
        decreases n - i,
    {
        if s.get_char(i) == c {
            return Some(i);
        }
        i += 1;
    }
    None
}

/// Leftmost index at or after `i` holding horizontal whitespace.
pub open spec fn spec_find_space(s: Seq<char>, i: int) -> Option<int>
    decreases s.len() - i,
{
    if i < 0 || i >= s.len() {
        None
    } else if is_space_char(s[i]) {
        Some(i)
    } else {
        spec_find_space(s, i + 1)
    }
}

pub proof fn lemma_find_space_props(s: Seq<char>, i: int)
    requires
        0 <= i <= s.len(),
    ensures
        spec_find_space(s, i) matches Some(p) ==> i <= p < s.len() && is_space_char(s[p]) && (
        forall|j: int| i <= j < p ==> !is_space_char(#[trigger] s[j])),
        spec_find_space(s, i) is None ==> forall|j: int|
            i <= j < s.len() ==> !is_space_char(#[trigger] s[j]),
    decreases s.len() - i,
{
    if i < s.len() && !is_space_char(s[i]) {
        lemma_find_space_props(s, i + 1);
    }
}

/// Scan for the leftmost whitespace character at or after `from`.
pub fn find_space_from(s: &str, from: usize) -> (r: Option<usize>)
    requires
        from <= s@.len(),
    ensures
        r matches Some(p) ==> Some(p as int) == spec_find_space(s@, from as int),
        r is None <==> spec_find_space(s@, from as int) is None,
{
    let n = s.unicode_len();
    let mut i: usize = from;
    while i < n
        invariant
            from <= i <= n,
            n == s@.len(),
            spec_find_space(s@, from as int) == spec_find_space(s@, i as int),
        decreases n - i,
    {
        if char_at_is_space(s, i) {
            return Some(i);
        }
        i += 1;
    }
    None
}

/// Index of the first non-space character at or after `i`; `s.len()` if all
/// spaces from `i` on.
pub open spec fn spec_skip_spaces(s: Seq<char>, i: int) -> int
    decreases s.len() - i,
{
    if i < 0 || i >= s.len() {
        i
    } else if is_space_char(s[i]) {
        spec_skip_spaces(s, i + 1)
    } else {
        i
    }
}

pub proof fn lemma_skip_spaces_bounds(s: Seq<char>, i: int)
    requires
        0 <= i <= s.len(),
    ensures
        i <= spec_skip_spaces(s, i) <= s.len(),
        forall|j: int| i <= j < spec_skip_spaces(s, i) ==> is_space_char(#[trigger] s[j]),
        spec_skip_spaces(s, i) < s.len() ==> !is_space_char(s[spec_skip_spaces(s, i)]),
    decreases s.len() - i,
{
    if i < s.len() && is_space_char(s[i]) {
        lemma_skip_spaces_bounds(s, i + 1);
    }
}

/// One past the last non-space character strictly before `j`; `0` if all
/// spaces before `j`.
pub open spec fn spec_rskip_spaces(s: Seq<char>, j: int) -> int
    decreases j,
{
    if j <= 0 || j > s.len() {
        0
    } else if is_space_char(s[j - 1]) {
        spec_rskip_spaces(s, j - 1)
    } else {
        j
    }
}

pub proof fn lemma_rskip_spaces_bounds(s: Seq<char>, j: int)
    requires
        0 <= j <= s.len(),
    ensures
        0 <= spec_rskip_spaces(s, j) <= j,
        forall|k: int| spec_rskip_spaces(s, j) <= k < j ==> is_space_char(#[trigger] s[k]),
        spec_rskip_spaces(s, j) > 0 ==> !is_space_char(s[spec_rskip_spaces(s, j) - 1]),
    decreases j,
{
    if j > 0 && is_space_char(s[j - 1]) {
        lemma_rskip_spaces_bounds(s, j - 1);
    }
}

/// `s` with leading spaces removed.
pub open spec fn spec_trim_start(s: Seq<char>) -> Seq<char> {
    s.subrange(spec_skip_spaces(s, 0), s.len() as int)
}

/// `s` with leading and trailing spaces removed.
pub open spec fn spec_trim(s: Seq<char>) -> Seq<char> {
    let a = spec_skip_spaces(s, 0);
    let b = spec_rskip_spaces(s, s.len() as int);
    if a <= b {
        s.subrange(a, b)
    } else {
        Seq::empty()
    }
}

/// Whether the character at index `i` is horizontal whitespace.
pub fn char_at_is_space(s: &str, i: usize) -> (r: bool)
    requires
        i < s@.len(),
    ensures
        r == is_space_char(s@[i as int]),
{
    let c = s.get_char(i);
    c == ' ' || c == '\t'
}

/// Remove leading spaces.
pub fn trim_start_str<'a>(s: &'a str) -> (r: &'a str)
    ensures
        r@ == spec_trim_start(s@),
{
    proof {
        lemma_skip_spaces_bounds(s@, 0);
    }
    let n = s.unicode_len();
    let mut i: usize = 0;
    while i < n && char_at_is_space(s, i)
        invariant
            0 <= i <= n,
            n == s@.len(),
            spec_skip_spaces(s@, 0) == spec_skip_spaces(s@, i as int),
        decreases n - i,
    {
        i += 1;
    }
    s.substring_char(i, n)
}

/// Remove leading and trailing spaces.
pub fn trim_str<'a>(s: &'a str) -> (r: &'a str)
    ensures
        r@ == spec_trim(s@),
{
    proof {
        lemma_skip_spaces_bounds(s@, 0);
        lemma_rskip_spaces_bounds(s@, s@.len() as int);
    }
    let n = s.unicode_len();
    let mut i: usize = 0;
    while i < n && char_at_is_space(s, i)
        invariant
            0 <= i <= n,
            n == s@.len(),
            spec_skip_spaces(s@, 0) == spec_skip_spaces(s@, i as int),
        decreases n - i,
    {
        i += 1;
    }
    let mut j: usize = n;
    while j > 0 && char_at_is_space(s, j - 1)
        invariant
            0 <= j <= n,
            n == s@.len(),
            spec_rskip_spaces(s@, n as int) == spec_rskip_spaces(s@, j as int),
        decreases j,
    {
        j -= 1;
    }
    if i <= j {
        s.substring_char(i, j)
    } else {
        let r = s.substring_char(0, 0);
        proof {
            assert(r@ =~= spec_trim(s@));
        }
        r
    }
}

} // verus!
