//! Verified text toolkit.
//!
//! Every function states its result over the characters of its arguments
//! (`Seq<char>`), so that the modules above can give exact contracts for the
//! messages they render.

use vstd::prelude::*;

verus! {

/// `String::push` appends the given character to the end of the string.
pub assume_specification[ String::push ](s: &mut String, c: char)
    ensures
        final(s)@ == old(s)@.push(c),
;

// ---------------------------------------------------------------------------
// Characters
// ---------------------------------------------------------------------------

/// The code points that carry the Unicode `White_Space` property.
pub open spec fn white_space(c: char) -> bool {
    let n = c as int;
    ||| 0x09 <= n <= 0x0d
    ||| n == 0x20
    ||| n == 0x85
    ||| n == 0xa0
    ||| n == 0x1680
    ||| 0x2000 <= n <= 0x200a
    ||| n == 0x2028
    ||| n == 0x2029
    ||| n == 0x202f
    ||| n == 0x205f
    ||| n == 0x3000
}

/// Tests a character for the `White_Space` property.
pub fn is_white_space(c: char) -> (r: bool)
    ensures
        r == white_space(c),
{
    let n: u32 = c as u32;
    (0x09 <= n && n <= 0x0d) || n == 0x20 || n == 0x85 || n == 0xa0 || n == 0x1680 || (0x2000 <= n
        && n <= 0x200a) || n == 0x2028 || n == 0x2029 || n == 0x202f || n == 0x205f || n == 0x3000
}

pub open spec fn ascii_digit(c: char) -> bool {
    '0' <= c <= '9'
}

pub open spec fn ascii_lower_letter(c: char) -> bool {
    'a' <= c <= 'z'
}

pub open spec fn ascii_upper_letter(c: char) -> bool {
    'A' <= c <= 'Z'
}

pub open spec fn ascii_alphanumeric(c: char) -> bool {
    ascii_digit(c) || ascii_lower_letter(c) || ascii_upper_letter(c)
}

pub fn is_ascii_alphanumeric(c: char) -> (r: bool)
    ensures
        r == ascii_alphanumeric(c),
{
    ('0' <= c && c <= '9') || ('a' <= c && c <= 'z') || ('A' <= c && c <= 'Z')
}

/// `A`..`Z` become `a`..`z`; every other character stays.
pub open spec fn ascii_lower(c: char) -> char {
    if ascii_upper_letter(c) {
        (c as int + 32) as char
    } else {
        c
    }
}

pub fn to_ascii_lower(c: char) -> (r: char)
    ensures
        r == ascii_lower(c),
{
    if 'A' <= c && c <= 'Z' {
        ((c as u8) + 32u8) as char
    } else {
        c
    }
}

// ---------------------------------------------------------------------------
// Strings and vectors of characters
// ---------------------------------------------------------------------------

/// The characters of `s`, in order.
pub fn chars_of(s: &str) -> (r: Vec<char>)
    ensures
        r@ == s@,
{
    let mut out: Vec<char> = Vec::new();
    for c in it: s.chars()
        invariant
            out@ == it.seq().take(it.index()),
            it.seq() == s@,
    {
        out.push(c);
        assert(it.seq().take(it.index() + 1) == it.seq().take(it.index()).push(c));
    }
    assert(s@.take(s@.len() as int) == s@);
    out
}

/// The string made of the given characters.
pub fn from_chars(v: &[char]) -> (r: String)
    ensures
        r@ == v@,
{
    let mut out = String::new();
    let mut i: usize = 0;
    while i < v.len()
        invariant
            i <= v.len(),
            out@ == v@.take(i as int),
        decreases v.len() - i,
    {
        out.push(v[i]);
        i += 1;
        assert(v@.take(i as int) == v@.take(i - 1).push(v@[i - 1]));
    }
    out
}

/// Whether two strings hold the same characters.
pub fn same(a: &str, b: &str) -> (r: bool)
    ensures
        r == (a@ == b@),
{
    a.to_owned() == b.to_owned()
}

/// Copies a string slice into a string of its own.
pub fn owned(s: &str) -> (r: String)
    ensures
        r@ == s@,
{
    s.to_owned()
}

// ---------------------------------------------------------------------------
// Trimming
// ---------------------------------------------------------------------------

/// `s` without its leading white space.
pub open spec fn trimmed_start(s: Seq<char>) -> Seq<char>
    decreases s.len(),
{
    if s.len() > 0 && white_space(s[0]) {
        trimmed_start(s.drop_first())
    } else {
        s
    }
}

/// `s` without its trailing white space.
pub open spec fn trimmed_end(s: Seq<char>) -> Seq<char>
    decreases s.len(),
{
    if s.len() > 0 && white_space(s.last()) {
        trimmed_end(s.drop_last())
    } else {
        s
    }
}

/// `s` without leading and trailing white space.
pub open spec fn trimmed(s: Seq<char>) -> Seq<char> {
    trimmed_end(trimmed_start(s))
}

/// Removes leading and trailing white space.
pub fn trim(s: &str) -> (r: &str)
    ensures
        r@ == trimmed(s@),
{
    let v = chars_of(s);
    let n: usize = v.len();
    let mut a: usize = 0;
    assert(s@.subrange(0, n as int) == s@);
    while a < n && is_white_space(v[a])
        invariant
            v@ == s@,
            a <= n == v@.len(),
            trimmed_start(s@) == trimmed_start(s@.subrange(a as int, n as int)),
        decreases n - a,
    {
        assert(s@.subrange(a as int, n as int).drop_first() == s@.subrange(a + 1, n as int));
        a += 1;
    }
    assert(trimmed_start(s@) == s@.subrange(a as int, n as int));
    let mut b: usize = n;
    while a < b && is_white_space(v[b - 1])
        invariant
            v@ == s@,
            a <= b <= n == v@.len(),
            trimmed(s@) == trimmed_end(s@.subrange(a as int, b as int)),
        decreases b,
    {
        assert(s@.subrange(a as int, b as int).drop_last() == s@.subrange(a as int, b - 1));
        b -= 1;
    }
    s.substring_char(a, b)
}

/// Removes trailing white space.
pub fn trim_end(s: &str) -> (r: &str)
    ensures
        r@ == trimmed_end(s@),
{
    let v = chars_of(s);
    let n: usize = v.len();
    let mut b: usize = n;
    assert(s@.subrange(0, n as int) == s@);
    while 0 < b && is_white_space(v[b - 1])
        invariant
            v@ == s@,
            b <= n == v@.len(),
            trimmed_end(s@) == trimmed_end(s@.subrange(0, b as int)),
        decreases b,
    {
        assert(s@.subrange(0, b as int).drop_last() == s@.subrange(0, b - 1));
        b -= 1;
    }
    s.substring_char(0, b)
}

/// Removes leading white space.
pub fn trim_start(s: &str) -> (r: &str)
    ensures
        r@ == trimmed_start(s@),
{
    let v = chars_of(s);
    let n: usize = v.len();
    let mut a: usize = 0;
    assert(s@.subrange(0, n as int) == s@);
    while a < n && is_white_space(v[a])
        invariant
            v@ == s@,
            a <= n == v@.len(),
            trimmed_start(s@) == trimmed_start(s@.subrange(a as int, n as int)),
        decreases n - a,
    {
        assert(s@.subrange(a as int, n as int).drop_first() == s@.subrange(a + 1, n as int));
        a += 1;
    }
    s.substring_char(a, n)
}

// ---------------------------------------------------------------------------
// Searching
// ---------------------------------------------------------------------------

/// Whether `p` stands in `s` at position `i`.
pub open spec fn occurs_at(s: Seq<char>, p: Seq<char>, i: int) -> bool {
    0 <= i && i + p.len() <= s.len() && s.subrange(i, i + p.len()) == p
}

/// Whether `p` stands somewhere in `s`.
pub open spec fn occurs(s: Seq<char>, p: Seq<char>) -> bool {
    exists|i: int| occurs_at(s, p, i)
}

/// The first position from `i` on at which `p` stands in `s`.
pub open spec fn find_from(s: Seq<char>, p: Seq<char>, i: int) -> Option<int>
    decreases s.len() - i + 1,
{
    if i < 0 || i + p.len() > s.len() {
        None
    } else if occurs_at(s, p, i) {
        Some(i)
    } else {
        find_from(s, p, i + 1)
    }
}

/// The first position at which `p` stands in `s`.
pub open spec fn first_occurrence(s: Seq<char>, p: Seq<char>) -> Option<int> {
    find_from(s, p, 0)
}

/// `find_from` is the least matching position, and `None` only where there is none.
pub proof fn lemma_find_from(s: Seq<char>, p: Seq<char>, i: int)
    requires
        0 <= i,
    ensures
        match find_from(s, p, i) {
            Some(k) => i <= k && occurs_at(s, p, k) && forall|j: int|
                i <= j < k ==> !occurs_at(s, p, j),
            None => forall|j: int| i <= j ==> !occurs_at(s, p, j),
        },
    decreases s.len() - i + 1,
{
    if i + p.len() <= s.len() && !occurs_at(s, p, i) {
        lemma_find_from(s, p, i + 1);
    }
}

/// A string occurs exactly when it has a first occurrence.
pub proof fn lemma_occurs_iff_first(s: Seq<char>, p: Seq<char>)
    ensures
        occurs(s, p) <==> first_occurrence(s, p) is Some,
{
    lemma_find_from(s, p, 0);
    if occurs(s, p) {
        let i = choose|i: int| occurs_at(s, p, i);
        assert(occurs_at(s, p, i));
    }
}

fn matches_at(v: &Vec<char>, p: &Vec<char>, i: usize) -> (r: bool)
    requires
        i + p@.len() <= v@.len(),
    ensures
        r == occurs_at(v@, p@, i as int),
{
    let n: usize = v.len();
    let mut k: usize = 0;
    while k < p.len()
        invariant
            k <= p@.len(),
            i + p@.len() <= v@.len() == n,
            forall|j: int| 0 <= j < k ==> v@[i + j] == p@[j],
        decreases p@.len() - k,
    {
        if v[i + k] != p[k] {
            assert(v@.subrange(i as int, i + p@.len())[k as int] != p@[k as int]);
            return false;
        }
        k += 1;
    }
    assert(v@.subrange(i as int, i + p@.len()) == p@);
    true
}

/// Finds the first position, counted in characters, at which `p` stands in `s`.
pub fn find(s: &str, p: &str) -> (r: Option<usize>)
    ensures
        match r {
            Some(i) => first_occurrence(s@, p@) == Some(i as int),
            None => first_occurrence(s@, p@) is None,
        },
{
    let v = chars_of(s);
    let q = chars_of(p);
    let n: usize = v.len();
    let m: usize = q.len();
    if m > n {
        return None;
    }
    let last: usize = n - m;
    let mut i: usize = 0;
    while i < last
        invariant
            v@ == s@,
            q@ == p@,
            last + q@.len() == v@.len(),
            i <= last,
            first_occurrence(s@, p@) == find_from(s@, p@, i as int),
        decreases last - i,
    {
        if matches_at(&v, &q, i) {
            return Some(i);
        }
        i += 1;
    }
    if matches_at(&v, &q, last) {
        Some(last)
    } else {
        assert(find_from(s@, p@, last + 1) is None);
        None
    }
}

/// Whether `p` stands somewhere in `s`.
pub fn contains(s: &str, p: &str) -> (r: bool)
    ensures
        r == occurs(s@, p@),
{
    proof {
        lemma_occurs_iff_first(s@, p@);
    }
    find(s, p).is_some()
}

/// Whether `s` begins with `p`.
pub fn starts_with(s: &str, p: &str) -> (r: bool)
    ensures
        r == p@.is_prefix_of(s@),
{
    let v = chars_of(s);
    let q = chars_of(p);
    if q.len() > v.len() {
        return false;
    }
    assert(occurs_at(s@, p@, 0) <==> p@.is_prefix_of(s@));
    matches_at(&v, &q, 0)
}

/// Whether `s` ends with `p`.
pub fn ends_with(s: &str, p: &str) -> (r: bool)
    ensures
        r == p@.is_suffix_of(s@),
{
    let v = chars_of(s);
    let q = chars_of(p);
    if q.len() > v.len() {
        return false;
    }
    assert(occurs_at(s@, p@, s@.len() - p@.len()) <==> p@.is_suffix_of(s@));
    matches_at(&v, &q, v.len() - q.len())
}

// ---------------------------------------------------------------------------
// Letter case
// ---------------------------------------------------------------------------

/// `s` with `A`..`Z` replaced by `a`..`z`.
pub open spec fn ascii_lowercase(s: Seq<char>) -> Seq<char> {
    s.map_values(|c: char| ascii_lower(c))
}

pub fn to_ascii_lowercase(s: &str) -> (r: String)
    ensures
        r@ == ascii_lowercase(s@),
{
    let v = chars_of(s);
    let mut out = String::new();
    let mut i: usize = 0;
    while i < v.len()
        invariant
            i <= v@.len(),
            out@ == ascii_lowercase(v@.take(i as int)),
        decreases v@.len() - i,
    {
        out.push(to_ascii_lower(v[i]));
        i += 1;
        assert(ascii_lowercase(v@.take(i as int)) == ascii_lowercase(v@.take(i - 1)).push(
            ascii_lower(v@[i - 1]),
        ));
    }
    assert(v@.take(v@.len() as int) == v@);
    out
}

/// The lower-case form of a text under the case mapping of Unicode, as
/// `str::to_lowercase` computes it.
pub uninterp spec fn unicode_lowercase(s: Seq<char>) -> Seq<char>;

/// Whether every character is an ASCII character.
pub open spec fn all_ascii(s: Seq<char>) -> bool {
    forall|i: int| 0 <= i < s.len() ==> ((#[trigger] s[i]) as int) < 128
}

/// `str::to_lowercase` returns the lower-case form of the text, which depends on
/// the text alone. In a text of ASCII characters it maps `A` to `Z` onto `a` to `z`
/// and keeps the others.
pub assume_specification[ str::to_lowercase ](s: &str) -> (r: String)
    ensures
        r@ == unicode_lowercase(s@),
        all_ascii(s@) ==> r@ == ascii_lowercase(s@),
;

// ---------------------------------------------------------------------------
// Numbers
// ---------------------------------------------------------------------------

/// The character of one digit: `0`..`9`, then `a`..`f`.
pub open spec fn digit_char(d: nat) -> char {
    if d < 10 {
        (48 + d) as char
    } else {
        (87 + d) as char
    }
}

/// `n` written in the given base, without leading zeros.
pub open spec fn digits(n: nat, base: nat) -> Seq<char>
    decreases n,
{
    if n < base || base < 2 {
        seq![digit_char(n)]
    } else {
        proof {
            assert(n / base < n) by (nonlinear_arith)
                requires
                    2 <= base <= n,
            ;
        }
        digits(n / base, base).push(digit_char(n % base))
    }
}

/// `n` written in decimal.
pub open spec fn decimal(n: nat) -> Seq<char> {
    digits(n, 10)
}

fn digit(d: u128) -> (r: char)
    requires
        d < 16,
    ensures
        r == digit_char(d as nat),
{
    if d < 10 {
        (48u8 + d as u8) as char
    } else {
        (87u8 + d as u8) as char
    }
}

fn render(n: u128, base: u128) -> (r: String)
    requires
        2 <= base <= 16,
    ensures
        r@ == digits(n as nat, base as nat),
    decreases n,
{
    if n < base {
        let mut s = String::new();
        s.push(digit(n));
        assert(s@ == seq![digit_char(n as nat)]);
        s
    } else {
        assert(n / base < n && (n as nat) / (base as nat) == n / base && (n as nat) % (base as nat)
            == n % base) by (nonlinear_arith)
            requires
                2 <= base <= n,
        ;
        assert(n % base < base) by (nonlinear_arith)
            requires
                base > 0,
        ;
        let mut s = render(n / base, base);
        s.push(digit(n % base));
        s
    }
}

/// Writes a number in decimal.
pub fn decimal_of(n: u64) -> (r: String)
    ensures
        r@ == decimal(n as nat),
{
    render(n as u128, 10)
}

/// Writes a long number in decimal.
pub fn decimal_of_long(n: u128) -> (r: String)
    ensures
        r@ == decimal(n as nat),
{
    render(n, 10)
}

/// Writes a number in lower-case hexadecimal.
pub fn hex_of(n: u64) -> (r: String)
    ensures
        r@ == digits(n as nat, 16),
{
    render(n as u128, 16)
}

/// `s` with copies of `c` put in front until it holds `width` characters.
pub open spec fn padded_left(s: Seq<char>, width: nat, c: char) -> Seq<char> {
    if s.len() >= width {
        s
    } else {
        Seq::new((width - s.len()) as nat, |i: int| c) + s
    }
}

/// `s` with blanks put behind it until it holds `width` characters.
pub open spec fn padded_right(s: Seq<char>, width: nat) -> Seq<char> {
    if s.len() >= width {
        s
    } else {
        s + Seq::new((width - s.len()) as nat, |i: int| ' ')
    }
}

pub fn pad_left(s: &str, width: usize, c: char) -> (r: String)
    ensures
        r@ == padded_left(s@, width as nat, c),
{
    let n: usize = s.unicode_len();
    let mut out = String::new();
    if n < width {
        let mut i: usize = 0;
        while i < width - n
            invariant
                n < width,
                i <= width - n,
                out@ == Seq::new(i as nat, |j: int| c),
            decreases width - n - i,
        {
            out.push(c);
            i += 1;
            assert(Seq::new(i as nat, |j: int| c) == Seq::new((i - 1) as nat, |j: int| c).push(c));
        }
    }
    out.append(s);
    out
}

pub fn pad_right(s: &str, width: usize) -> (r: String)
    ensures
        r@ == padded_right(s@, width as nat),
{
    let n: usize = s.unicode_len();
    let mut out = s.to_owned();
    if n < width {
        let mut i: usize = 0;
        while i < width - n
            invariant
                n < width,
                i <= width - n,
                out@ == s@ + Seq::new(i as nat, |j: int| ' '),
            decreases width - n - i,
        {
            out.push(' ');
            i += 1;
            assert(s@ + Seq::new(i as nat, |j: int| ' ') == (s@ + Seq::new(
                (i - 1) as nat,
                |j: int| ' ',
            )).push(' '));
        }
    }
    out
}

// ---------------------------------------------------------------------------
// Words and quotes
// ---------------------------------------------------------------------------

/// The number of characters before the first white space.
pub open spec fn word_len(s: Seq<char>) -> nat
    decreases s.len(),
{
    if s.len() == 0 || white_space(s[0]) {
        0
    } else {
        1 + word_len(s.drop_first())
    }
}

/// The words of a text: its runs of characters without white space.
pub open spec fn words(s: Seq<char>) -> Seq<Seq<char>>
    decreases s.len(),
{
    if s.len() == 0 {
        Seq::empty()
    } else if white_space(s[0]) {
        words(s.drop_first())
    } else {
        proof {
            lemma_word_len(s);
        }
        seq![s.take(word_len(s) as int)] + words(s.skip(word_len(s) as int))
    }
}

pub proof fn lemma_word_len(s: Seq<char>)
    ensures
        word_len(s) <= s.len(),
        s.len() > 0 && !white_space(s[0]) ==> word_len(s) > 0,
    decreases s.len(),
{
    if s.len() > 0 && !white_space(s[0]) {
        lemma_word_len(s.drop_first());
    }
}

/// Splits a text into its words.
pub fn split_whitespace(s: &str) -> (r: Vec<String>)
    ensures
        views(r@) == words(s@),
{
    let v = chars_of(s);
    let n: usize = v.len();
    let mut out: Vec<String> = Vec::new();
    let mut i: usize = 0;
    assert(s@.skip(0) == s@);
    assert(views(out@) + words(s@) == words(s@));
    while i < n
        invariant
            v@ == s@,
            i <= n == v@.len(),
            views(out@) + words(s@.skip(i as int)) == words(s@),
        decreases n - i,
    {
        if is_white_space(v[i]) {
            assert(s@.skip(i as int).drop_first() == s@.skip(i + 1));
            i += 1;
        } else {
            let start: usize = i;
            let ghost rest = s@.skip(start as int);
            assert(s@.skip(start as int).skip(0) == rest);
            while i < n && !is_white_space(v[i])
                invariant
                    v@ == s@,
                    start <= i <= n == v@.len(),
                    rest == s@.skip(start as int),
                    word_len(rest) == (i - start) + word_len(s@.skip(i as int)),
                decreases n - i,
            {
                assert(s@.skip(i as int).drop_first() == s@.skip(i + 1));
                i += 1;
            }
            assert(word_len(rest) == i - start);
            let word = from_chars(vstd::slice::slice_subrange(v.as_slice(), start, i));
            proof {
                assert(word@ == rest.take(i - start));
                assert(rest.skip(i - start) == s@.skip(i as int));
            }
            let ghost before = views(out@);
            let ghost shown = word@;
            out.push(word);
            proof {
                assert(views(out@) == before.push(shown));
                assert(before.push(shown) + words(s@.skip(i as int)) == before + (seq![shown]
                    + words(s@.skip(i as int))));
            }
        }
    }
    assert(s@.skip(n as int) == Seq::<char>::empty());
    out
}

/// Whether Unicode counts a character as a letter or a number, as
/// `char::is_alphanumeric` decides it.
pub uninterp spec fn unicode_alphanumeric(c: char) -> bool;

/// `char::is_alphanumeric` depends on the character alone. Of the ASCII characters
/// it holds of the letters and the digits.
pub assume_specification[ char::is_alphanumeric ](c: char) -> (r: bool)
    ensures
        r == unicode_alphanumeric(c),
        (c as int) < 128 ==> r == ascii_alphanumeric(c),
;

/// `s` without what is neither letter nor number at its start.
pub open spec fn bare_start(s: Seq<char>) -> Seq<char>
    decreases s.len(),
{
    if s.len() > 0 && !unicode_alphanumeric(s[0]) {
        bare_start(s.drop_first())
    } else {
        s
    }
}

/// `s` without what is neither letter nor number at its end.
pub open spec fn bare_end(s: Seq<char>) -> Seq<char>
    decreases s.len(),
{
    if s.len() > 0 && !unicode_alphanumeric(s.last()) {
        bare_end(s.drop_last())
    } else {
        s
    }
}

/// `s` without what is neither letter nor number at either end.
pub open spec fn bare(s: Seq<char>) -> Seq<char> {
    bare_end(bare_start(s))
}

/// Strips what is neither letter nor number from both ends of a word.
pub fn strip_word(s: &str) -> (r: &str)
    ensures
        r@ == bare(s@),
{
    let v = chars_of(s);
    let n: usize = v.len();
    let mut a: usize = 0;
    assert(s@.subrange(0, n as int) == s@);
    while a < n && !v[a].is_alphanumeric()
        invariant
            v@ == s@,
            a <= n == v@.len(),
            bare_start(s@) == bare_start(s@.subrange(a as int, n as int)),
        decreases n - a,
    {
        assert(s@.subrange(a as int, n as int).drop_first() == s@.subrange(a + 1, n as int));
        a += 1;
    }
    let mut b: usize = n;
    assert(bare_start(s@) == s@.subrange(a as int, n as int));
    while a < b && !v[b - 1].is_alphanumeric()
        invariant
            v@ == s@,
            a <= b <= n == v@.len(),
            bare(s@) == bare_end(s@.subrange(a as int, b as int)),
        decreases b,
    {
        assert(s@.subrange(a as int, b as int).drop_last() == s@.subrange(a as int, b - 1));
        b -= 1;
    }
    s.substring_char(a, b)
}

/// A text in double quotes with its special characters escaped, as the `Debug`
/// format of `str` writes it.
pub uninterp spec fn quoted(s: Seq<char>) -> Seq<char>;

/// The `Debug` format of `str`, which depends on the text alone.
#[verifier::external_body]
pub(crate) fn quote(s: &str) -> (r: String)
    ensures
        r@ == quoted(s@),
{
    format!("{:?}", s)
}

/// A list of texts, each in quotes: `["a", "b"]`.
pub open spec fn quoted_list(parts: Seq<Seq<char>>) -> Seq<char> {
    "["@ + joined(parts.map_values(|s: Seq<char>| quoted(s)), ", "@) + "]"@
}

pub fn quote_list(parts: &Vec<String>) -> (r: String)
    ensures
        r@ == quoted_list(views(parts@)),
{
    let ghost all = views(parts@).map_values(|s: Seq<char>| quoted(s));
    let mut out: Vec<String> = Vec::new();
    let mut i: usize = 0;
    while i < parts.len()
        invariant
            i <= parts@.len(),
            all == views(parts@).map_values(|s: Seq<char>| quoted(s)),
            views(out@) == all.take(i as int),
        decreases parts@.len() - i,
    {
        let ghost before = out@;
        out.push(quote(parts[i].as_str()));
        i += 1;
        assert(views(out@) == views(before).push(all[i - 1]));
        assert(all.take(i as int) == all.take(i - 1).push(all[i - 1]));
    }
    assert(all.take(all.len() as int) == all);
    let mut r = owned("[");
    r.append(join(&out, ", ").as_str());
    r.append("]");
    r
}

/// The first `n` characters.
pub open spec fn first_chars(s: Seq<char>, n: nat) -> Seq<char> {
    if s.len() <= n {
        s
    } else {
        s.take(n as int)
    }
}

pub fn take_chars(s: &str, n: usize) -> (r: &str)
    ensures
        r@ == first_chars(s@, n as nat),
{
    if s.unicode_len() <= n {
        s
    } else {
        s.substring_char(0, n)
    }
}

/// A text on one line: each line break becomes a bar.
pub open spec fn barred(s: Seq<char>) -> Seq<char>
    decreases s.len(),
{
    if s.len() == 0 {
        Seq::empty()
    } else if s.last() == '\n' {
        barred(s.drop_last()) + " | "@
    } else {
        barred(s.drop_last()).push(s.last())
    }
}

/// Puts a text on one line.
pub fn bar_lines(s: &str) -> (r: String)
    ensures
        r@ == barred(s@),
{
    let all = chars_of(s);
    let mut out = String::new();
    let mut i: usize = 0;
    while i < all.len()
        invariant
            i <= all@.len(),
            all@ == s@,
            out@ == barred(s@.take(i as int)),
        decreases all@.len() - i,
    {
        let c: char = all[i];
        if c == '\n' {
            out.append(" | ");
        } else {
            out.push(c);
        }
        i += 1;
        assert(s@.take(i as int).drop_last() == s@.take(i - 1));
        assert(s@.take(i as int).last() == c);
    }
    assert(s@.take(s@.len() as int) == s@);
    out
}

// ---------------------------------------------------------------------------
// Lists of strings
// ---------------------------------------------------------------------------

/// The contents of a list of strings.
pub open spec fn views(v: Seq<String>) -> Seq<Seq<char>> {
    v.map_values(|s: String| s@)
}

/// The pieces of `parts` with `sep` between each two of them.
pub open spec fn joined(parts: Seq<Seq<char>>, sep: Seq<char>) -> Seq<char>
    decreases parts.len(),
{
    if parts.len() == 0 {
        Seq::empty()
    } else if parts.len() == 1 {
        parts[0]
    } else {
        joined(parts.drop_last(), sep) + sep + parts.last()
    }
}

/// Joins strings with a separator.
pub fn join(parts: &Vec<String>, sep: &str) -> (r: String)
    ensures
        r@ == joined(views(parts@), sep@),
{
    let mut out = String::new();
    let mut i: usize = 0;
    while i < parts.len()
        invariant
            i <= parts@.len(),
            out@ == joined(views(parts@).take(i as int), sep@),
        decreases parts@.len() - i,
    {
        let ghost before = views(parts@).take(i as int);
        let ghost after = views(parts@).take(i + 1);
        assert(after.drop_last() == before);
        assert(after.last() == parts@[i as int]@);
        if i > 0 {
            out.append(sep);
        }
        out.append(parts[i].as_str());
        i += 1;
    }
    assert(views(parts@).take(parts@.len() as int) == views(parts@));
    out
}

/// The contents of an optional list of strings.
pub open spec fn opt_views(o: Option<Vec<String>>) -> Option<Seq<Seq<char>>> {
    match o {
        Some(v) => Some(views(v@)),
        None => None,
    }
}

/// The content of an optional string.
pub open spec fn opt_view(o: Option<String>) -> Option<Seq<char>> {
    match o {
        Some(s) => Some(s@),
        None => None,
    }
}

/// Copies an optional string.
pub fn opt_owned(o: &Option<String>) -> (r: Option<String>)
    ensures
        r == *o,
{
    match o {
        Some(s) => Some(s.clone()),
        None => None,
    }
}

/// Copies a list of strings.
pub fn copy_list(v: &Vec<String>) -> (r: Vec<String>)
    ensures
        r@ == v@,
{
    let mut out: Vec<String> = Vec::new();
    let mut i: usize = 0;
    while i < v.len()
        invariant
            i <= v@.len(),
            out@ == v@.take(i as int),
        decreases v@.len() - i,
    {
        out.push(v[i].clone());
        i += 1;
        assert(v@.take(i as int) == v@.take(i - 1).push(v@[i - 1]));
    }
    assert(v@.take(v@.len() as int) == v@);
    out
}

// ---------------------------------------------------------------------------
// Laws
// ---------------------------------------------------------------------------

/// White space is what Unicode says it is.
pub proof fn law_white_space_is_that_of_unicode(c: char)
    ensures
        white_space(c) <==> seq![
            0x09int,
            0x0a,
            0x0b,
            0x0c,
            0x0d,
            0x20,
            0x85,
            0xa0,
            0x1680,
            0x2000,
            0x2001,
            0x2002,
            0x2003,
            0x2004,
            0x2005,
            0x2006,
            0x2007,
            0x2008,
            0x2009,
            0x200a,
            0x2028,
            0x2029,
            0x202f,
            0x205f,
            0x3000,
        ].contains(c as int),
{
    let all = seq![
        0x09int,
        0x0a,
        0x0b,
        0x0c,
        0x0d,
        0x20,
        0x85,
        0xa0,
        0x1680,
        0x2000,
        0x2001,
        0x2002,
        0x2003,
        0x2004,
        0x2005,
        0x2006,
        0x2007,
        0x2008,
        0x2009,
        0x200a,
        0x2028,
        0x2029,
        0x202f,
        0x205f,
        0x3000,
    ];
    let n = c as int;
    if white_space(c) {
        let i = if n <= 0x0d {
            n - 0x09
        } else if n == 0x20 {
            5
        } else if n == 0x85 {
            6
        } else if n == 0xa0 {
            7
        } else if n == 0x1680 {
            8
        } else if n <= 0x200a {
            9 + n - 0x2000
        } else if n == 0x2028 {
            20
        } else if n == 0x2029 {
            21
        } else if n == 0x202f {
            22
        } else if n == 0x205f {
            23
        } else {
            24
        };
        assert(all[i] == n);
    }
}

proof fn lemma_trimmed_start_is_suffix(s: Seq<char>) -> (a: int)
    ensures
        0 <= a <= s.len(),
        trimmed_start(s) == s.subrange(a, s.len() as int),
        forall|i: int| 0 <= i < a ==> white_space(#[trigger] s[i]),
        a < s.len() ==> !white_space(s[a]),
    decreases s.len(),
{
    if s.len() > 0 && white_space(s[0]) {
        let t = s.drop_first();
        let b = lemma_trimmed_start_is_suffix(t);
        assert(t.subrange(b, t.len() as int) == s.subrange(b + 1, s.len() as int));
        assert forall|i: int| 0 <= i < b + 1 implies white_space(#[trigger] s[i]) by {
            if i > 0 {
                assert(t[i - 1] == s[i]);
            }
        }
        b + 1
    } else {
        assert(s.subrange(0, s.len() as int) == s);
        0
    }
}

proof fn lemma_trimmed_end_is_prefix(s: Seq<char>) -> (b: int)
    ensures
        0 <= b <= s.len(),
        trimmed_end(s) == s.subrange(0, b),
        forall|i: int| b <= i < s.len() ==> white_space(#[trigger] s[i]),
        b > 0 ==> !white_space(s[b - 1]),
    decreases s.len(),
{
    if s.len() > 0 && white_space(s.last()) {
        let t = s.drop_last();
        let b = lemma_trimmed_end_is_prefix(t);
        assert(t.subrange(0, b) == s.subrange(0, b));
        assert forall|i: int| b <= i < s.len() implies white_space(#[trigger] s[i]) by {
            if i < t.len() {
                assert(t[i] == s[i]);
            }
        }
        b
    } else {
        assert(s.subrange(0, s.len() as int) == s);
        s.len() as int
    }
}

/// Trimming takes white space from both ends and nothing else: what is left is a
/// stretch of the text that neither begins nor ends with white space, and round it
/// there was only white space.
pub proof fn law_trimming_takes_only_white_space(s: Seq<char>) -> (r: (int, int))
    ensures
        0 <= r.0 <= r.1 <= s.len(),
        trimmed(s) == s.subrange(r.0, r.1),
        forall|i: int| 0 <= i < r.0 || r.1 <= i < s.len() ==> white_space(#[trigger] s[i]),
        r.0 < r.1 ==> !white_space(s[r.0]) && !white_space(s[r.1 - 1]),
{
    let a = lemma_trimmed_start_is_suffix(s);
    let t = s.subrange(a, s.len() as int);
    let b = lemma_trimmed_end_is_prefix(t);
    assert(t.subrange(0, b) == s.subrange(a, a + b));
    assert forall|i: int| 0 <= i < a || a + b <= i < s.len() implies white_space(
        #[trigger] s[i],
    ) by {
        if i >= a + b {
            assert(t[i - a] == s[i]);
        }
    }
    if b > 0 {
        assert(t[b - 1] == s[a + b - 1]);
    }
    (a, a + b)
}

/// Trimming the end takes the white space there and nothing else.
pub proof fn law_trimming_the_end_takes_only_white_space(s: Seq<char>) -> (b: int)
    ensures
        0 <= b <= s.len(),
        trimmed_end(s) == s.take(b),
        forall|i: int| b <= i < s.len() ==> white_space(#[trigger] s[i]),
        b > 0 ==> !white_space(s[b - 1]),
{
    let b = lemma_trimmed_end_is_prefix(s);
    assert(s.subrange(0, b) == s.take(b));
    b
}

/// Trimming the start takes the white space there and nothing else.
pub proof fn law_trimming_the_start_takes_only_white_space(s: Seq<char>) -> (a: int)
    ensures
        0 <= a <= s.len(),
        trimmed_start(s) == s.skip(a),
        forall|i: int| 0 <= i < a ==> white_space(#[trigger] s[i]),
        a < s.len() ==> !white_space(s[a]),
{
    let a = lemma_trimmed_start_is_suffix(s);
    assert(s.subrange(a, s.len() as int) == s.skip(a));
    a
}

proof fn lemma_bare_start_is_suffix(s: Seq<char>) -> (a: int)
    ensures
        0 <= a <= s.len(),
        bare_start(s) == s.subrange(a, s.len() as int),
        forall|i: int| 0 <= i < a ==> !unicode_alphanumeric(#[trigger] s[i]),
        a < s.len() ==> unicode_alphanumeric(s[a]),
    decreases s.len(),
{
    if s.len() > 0 && !unicode_alphanumeric(s[0]) {
        let t = s.drop_first();
        let b = lemma_bare_start_is_suffix(t);
        assert(t.subrange(b, t.len() as int) == s.subrange(b + 1, s.len() as int));
        assert forall|i: int| 0 <= i < b + 1 implies !unicode_alphanumeric(#[trigger] s[i]) by {
            if i > 0 {
                assert(t[i - 1] == s[i]);
            }
        }
        b + 1
    } else {
        assert(s.subrange(0, s.len() as int) == s);
        0
    }
}

proof fn lemma_bare_end_is_prefix(s: Seq<char>) -> (b: int)
    ensures
        0 <= b <= s.len(),
        bare_end(s) == s.subrange(0, b),
        forall|i: int| b <= i < s.len() ==> !unicode_alphanumeric(#[trigger] s[i]),
        b > 0 ==> unicode_alphanumeric(s[b - 1]),
    decreases s.len(),
{
    if s.len() > 0 && !unicode_alphanumeric(s.last()) {
        let t = s.drop_last();
        let b = lemma_bare_end_is_prefix(t);
        assert(t.subrange(0, b) == s.subrange(0, b));
        assert forall|i: int| b <= i < s.len() implies !unicode_alphanumeric(#[trigger] s[i]) by {
            if i < t.len() {
                assert(t[i] == s[i]);
            }
        }
        b
    } else {
        assert(s.subrange(0, s.len() as int) == s);
        s.len() as int
    }
}

/// A stripped word is a stretch of the word that begins and ends with a letter or
/// number, and round it there was none.
pub proof fn law_stripping_takes_only_marks(s: Seq<char>) -> (r: (int, int))
    ensures
        0 <= r.0 <= r.1 <= s.len(),
        bare(s) == s.subrange(r.0, r.1),
        forall|i: int|
            0 <= i < r.0 || r.1 <= i < s.len() ==> !unicode_alphanumeric(#[trigger] s[i]),
        r.0 < r.1 ==> unicode_alphanumeric(s[r.0]) && unicode_alphanumeric(s[r.1 - 1]),
{
    let a = lemma_bare_start_is_suffix(s);
    let t = s.subrange(a, s.len() as int);
    let b = lemma_bare_end_is_prefix(t);
    assert(t.subrange(0, b) == s.subrange(a, a + b));
    assert forall|i: int| 0 <= i < a || a + b <= i < s.len() implies !unicode_alphanumeric(
        #[trigger] s[i],
    ) by {
        if i >= a + b {
            assert(t[i - a] == s[i]);
        }
    }
    if b > 0 {
        assert(t[b - 1] == s[a + b - 1]);
    }
    (a, a + b)
}

/// Where a part of a joined list begins.
pub open spec fn part_start(parts: Seq<Seq<char>>, sep: Seq<char>, i: int) -> int
    decreases i,
{
    if i <= 0 {
        0
    } else {
        part_start(parts, sep, i - 1) + parts[i - 1].len() + sep.len()
    }
}

proof fn lemma_part_start_prefix(a: Seq<Seq<char>>, b: Seq<Seq<char>>, sep: Seq<char>, i: int)
    requires
        0 <= i <= a.len(),
        i <= b.len(),
        forall|j: int| 0 <= j < i ==> #[trigger] a[j] == b[j],
    ensures
        part_start(a, sep, i) == part_start(b, sep, i),
        part_start(a, sep, i) >= 0,
    decreases i,
{
    if i > 0 {
        lemma_part_start_prefix(a, b, sep, i - 1);
        assert(a[i - 1] == b[i - 1]);
    }
}

/// A joined list holds each part whole, one after the other, with the separator
/// between each two, and nothing else.
pub proof fn law_joined_holds_each_part(parts: Seq<Seq<char>>, sep: Seq<char>, i: int)
    requires
        0 <= i < parts.len(),
    ensures
        occurs_at(joined(parts, sep), parts[i], part_start(parts, sep, i)),
        i + 1 < parts.len() ==> occurs_at(
            joined(parts, sep),
            sep,
            part_start(parts, sep, i) + parts[i].len(),
        ),
        joined(parts, sep).len() == part_start(parts, sep, parts.len() - 1) + parts.last().len(),
    decreases parts.len(),
{
    let n = parts.len() as int;
    let whole = joined(parts, sep);
    if n == 1 {
        assert(whole.subrange(0, whole.len() as int) == whole);
    } else {
        let head = parts.drop_last();
        let before = joined(head, sep);
        law_joined_holds_each_part(
            head,
            sep,
            if i < n - 1 {
                i
            } else {
                0
            },
        );
        lemma_part_start_prefix(parts, head, sep, n - 1);
        lemma_part_start_prefix(parts, head, sep, n - 2);
        assert(head.last() == parts[n - 2]);
        assert(part_start(parts, sep, n - 1) == before.len() + sep.len());
        if i < n - 1 {
            lemma_part_start_prefix(parts, head, sep, i);
            let at = part_start(parts, sep, i);
            assert(whole.subrange(at, at + parts[i].len()) == before.subrange(
                at,
                at + parts[i].len(),
            ));
            let end = at + parts[i].len();
            if i + 1 < n - 1 {
                assert(whole.subrange(end, end + sep.len()) == before.subrange(
                    end,
                    end + sep.len(),
                ));
            } else {
                assert(whole.subrange(end, end + sep.len()) == sep);
            }
        } else {
            let at = part_start(parts, sep, i);
            assert(whole.subrange(at, at + parts[i].len()) == parts[i]);
        }
    }
}

/// The value of a digit.
pub open spec fn digit_value(c: char) -> int {
    if '0' <= c <= '9' {
        c as int - '0' as int
    } else {
        c as int - 'a' as int + 10
    }
}

/// The number that a numeral stands for.
pub open spec fn numeral_value(s: Seq<char>, base: nat) -> int
    decreases s.len(),
{
    if s.len() == 0 {
        0
    } else {
        numeral_value(s.drop_last(), base) * base + digit_value(s.last())
    }
}

/// A numeral stands for the number that it was written for. It has no leading zero
/// but for the number zero, and every digit lies below the base.
pub proof fn law_numerals_stand_for_their_number(n: nat, base: nat)
    requires
        2 <= base <= 16,
    ensures
        numeral_value(digits(n, base), base) == n,
        digits(n, base).len() > 0,
        n > 0 ==> digits(n, base)[0] != '0',
        forall|i: int|
            0 <= i < digits(n, base).len() ==> {
                &&& 0 <= digit_value(#[trigger] digits(n, base)[i]) < base
                &&& '0' <= digits(n, base)[i] <= '9' || 'a' <= digits(n, base)[i] <= 'f'
            },
    decreases n,
{
    let s = digits(n, base);
    if n < base {
        assert(s.drop_last().len() == 0);
        assert(numeral_value(s.drop_last(), base) == 0);
        assert(0 * base == 0) by (nonlinear_arith);
    } else {
        assert(n / base < n && n / base > 0 && n % base < base && (n / base) * base + n % base == n)
            by (nonlinear_arith)
            requires
                2 <= base <= n,
        ;
        law_numerals_stand_for_their_number(n / base, base);
        assert(s.drop_last() == digits(n / base, base));
    }
}

/// Padding on the left keeps the text at the end, fills up to the width with the
/// given character, and changes nothing that is wide enough.
pub proof fn law_padding_on_the_left(s: Seq<char>, width: nat, c: char)
    ensures
        s.is_suffix_of(padded_left(s, width, c)),
        padded_left(s, width, c).len() == if s.len() < width {
            width
        } else {
            s.len()
        },
        forall|i: int|
            0 <= i < padded_left(s, width, c).len() - s.len() ==> #[trigger] padded_left(
                s,
                width,
                c,
            )[i] == c,
{
    let r = padded_left(s, width, c);
    assert(r.subrange(r.len() - s.len(), r.len() as int) == s);
}

/// Padding on the right keeps the text at the start, fills up to the width with
/// blanks, and changes nothing that is wide enough.
pub proof fn law_padding_on_the_right(s: Seq<char>, width: nat)
    ensures
        s.is_prefix_of(padded_right(s, width)),
        padded_right(s, width).len() == if s.len() < width {
            width
        } else {
            s.len()
        },
        forall|i: int|
            s.len() <= i < padded_right(s, width).len() ==> #[trigger] padded_right(s, width)[i]
                == ' ',
{
    let r = padded_right(s, width);
    assert(r.subrange(0, s.len() as int) == s);
}

/// Zeros in front of a numeral do not change what it stands for.
pub proof fn lemma_leading_zeros(s: Seq<char>, k: nat, base: nat)
    ensures
        numeral_value(Seq::new(k, |i: int| '0') + s, base) == numeral_value(s, base),
    decreases s.len(), k,
{
    let zeros = Seq::new(k, |i: int| '0');
    let whole = zeros + s;
    if s.len() > 0 {
        assert(whole.drop_last() == zeros + s.drop_last());
        lemma_leading_zeros(s.drop_last(), k, base);
    } else if k > 0 {
        let fewer = Seq::new((k - 1) as nat, |i: int| '0');
        assert(whole.drop_last() == fewer + s);
        assert(whole.last() == '0');
        lemma_leading_zeros(s, (k - 1) as nat, base);
        assert(0 * base == 0) by (nonlinear_arith);
    }
}

/// Two numbers with one padded numeral are equal.
pub proof fn lemma_padded_numerals_differ(a: nat, b: nat, base: nat, width: nat)
    requires
        2 <= base <= 16,
        padded_left(digits(a, base), width, '0') == padded_left(digits(b, base), width, '0'),
    ensures
        a == b,
{
    law_numerals_stand_for_their_number(a, base);
    law_numerals_stand_for_their_number(b, base);
    let da = digits(a, base);
    let db = digits(b, base);
    if da.len() < width {
        lemma_leading_zeros(da, (width - da.len()) as nat, base);
    }
    if db.len() < width {
        lemma_leading_zeros(db, (width - db.len()) as nat, base);
    }
}

/// The letters `A` to `Z` become those from `a` to `z`, at the same place of the
/// alphabet; every other character stays.
pub proof fn law_lower_case_keeps_the_letter(c: char)
    ensures
        'A' <= c <= 'Z' ==> 'a' <= ascii_lower(c) <= 'z' && ascii_lower(c) as int - 'a' as int
            == c as int - 'A' as int,
        !('A' <= c <= 'Z') ==> ascii_lower(c) == c,
{
}

/// Of the ASCII characters the letters and the digits are alphanumeric, and of the
/// others none is.
pub proof fn law_ascii_alphanumeric(c: char)
    ensures
        ascii_alphanumeric(c) <==> '0' <= ascii_lower(c) <= '9' || 'a' <= ascii_lower(c) <= 'z',
{
}

/// Lower-casing goes character by character.
pub proof fn law_lower_case_goes_by_characters(s: Seq<char>)
    ensures
        ascii_lowercase(s).len() == s.len(),
        forall|i: int| 0 <= i < s.len() ==> #[trigger] ascii_lowercase(s)[i] == ascii_lower(s[i]),
{
}

/// A text without white space is one word.
pub proof fn law_a_text_without_white_space_is_a_word(s: Seq<char>)
    requires
        s.len() > 0,
        forall|i: int| 0 <= i < s.len() ==> !white_space(#[trigger] s[i]),
    ensures
        words(s) == seq![s],
{
    lemma_word_len_of_word(s);
    assert(s.take(s.len() as int) == s);
    assert(words(s.skip(s.len() as int)) == Seq::<Seq<char>>::empty());
}

proof fn lemma_word_len_of_word(s: Seq<char>)
    requires
        forall|i: int| 0 <= i < s.len() ==> !white_space(#[trigger] s[i]),
    ensures
        word_len(s) == s.len(),
    decreases s.len(),
{
    if s.len() > 0 {
        let t = s.drop_first();
        assert forall|i: int| 0 <= i < t.len() implies !white_space(#[trigger] t[i]) by {
            assert(t[i] == s[i + 1]);
        }
        lemma_word_len_of_word(t);
    }
}

proof fn lemma_word_len_before(a: Seq<char>, b: Seq<char>)
    requires
        b.len() > 0,
        white_space(b[0]),
    ensures
        word_len(a + b) == word_len(a),
    decreases a.len(),
{
    if a.len() == 0 {
        assert(a + b == b);
    } else {
        assert((a + b)[0] == a[0]);
        assert((a + b).drop_first() == a.drop_first() + b);
        lemma_word_len_before(a.drop_first(), b);
    }
}

/// White space separates words: the words of two texts with white space between
/// them are the words of the one and then those of the other.
pub proof fn law_white_space_separates_words(a: Seq<char>, c: char, b: Seq<char>)
    requires
        white_space(c),
    ensures
        words(a.push(c) + b) == words(a) + words(b),
    decreases a.len(),
{
    let whole = a.push(c) + b;
    let tail = seq![c] + b;
    assert(whole == a + tail);
    if a.len() == 0 {
        assert(whole.drop_first() == b);
        assert(words(a) + words(b) == words(b));
    } else {
        assert(whole[0] == a[0]);
        if white_space(a[0]) {
            assert(whole.drop_first() == a.drop_first().push(c) + b);
            law_white_space_separates_words(a.drop_first(), c, b);
        } else {
            lemma_word_len_before(a, tail);
            lemma_word_len(a);
            let n = word_len(a) as int;
            assert(whole.take(n) == a.take(n));
            assert(whole.skip(n) == a.skip(n).push(c) + b);
            law_white_space_separates_words(a.skip(n), c, b);
            assert(words(whole) == seq![a.take(n)] + (words(a.skip(n)) + words(b)));
            assert(words(whole) == words(a) + words(b));
        }
    }
}

/// The first characters of a text are its start, and all of it where it is short.
pub proof fn law_first_chars_are_the_start(s: Seq<char>, n: nat)
    ensures
        first_chars(s, n).is_prefix_of(s),
        first_chars(s, n).len() == if s.len() < n {
            s.len()
        } else {
            n
        },
{
    assert(s.subrange(0, s.len() as int) == s);
    if s.len() > n {
        assert(s.subrange(0, n as int) == s.take(n as int));
    }
}

/// Putting a text on one line leaves no line break, keeps a text that has none, and
/// shows each break as a bar.
pub proof fn law_one_line_has_no_breaks(a: Seq<char>, b: Seq<char>)
    ensures
        !barred(a).contains('\n'),
        !a.contains('\n') ==> barred(a) == a,
        barred(a.push('\n') + b) == barred(a) + " | "@ + barred(b),
    decreases a.len(), b.len(),
{
    reveal_strlit(" | ");
    lemma_barred(a);
    lemma_barred_parts(a.push('\n'), b);
    assert(a.push('\n').drop_last() == a);
}

proof fn lemma_barred(s: Seq<char>)
    ensures
        !barred(s).contains('\n'),
        !s.contains('\n') ==> barred(s) == s,
    decreases s.len(),
{
    reveal_strlit(" | ");
    if s.len() > 0 {
        let t = s.drop_last();
        lemma_barred(t);
        assert(s == t.push(s.last()));
        assert(s[s.len() - 1] == s.last());
        if t.contains('\n') {
            let i = t.index_of('\n');
            assert(s[i] == '\n');
        }
        if barred(s).contains('\n') {
            let i = barred(s).index_of('\n');
            if i < barred(t).len() {
                assert(barred(t)[i] == '\n');
            }
        }
    }
}

proof fn lemma_barred_parts(a: Seq<char>, b: Seq<char>)
    ensures
        barred(a + b) == barred(a) + barred(b),
    decreases b.len(),
{
    if b.len() == 0 {
        assert(a + b == a);
        assert(barred(a) + barred(b) == barred(a));
    } else {
        assert((a + b).drop_last() == a + b.drop_last());
        lemma_barred_parts(a, b.drop_last());
        assert(barred(a + b) == barred(a) + barred(b));
    }
}

/// What stands between two texts occurs in the whole.
pub proof fn lemma_occurs_between(a: Seq<char>, b: Seq<char>, c: Seq<char>)
    ensures
        occurs_at(a + b + c, b, a.len() as int),
        occurs(a + b + c, b),
{
    let s = a + b + c;
    assert(s.subrange(a.len() as int, (a.len() + b.len()) as int) == b);
    assert(occurs_at(s, b, a.len() as int));
}

/// What stands at a place of a text occurs in it.
pub proof fn lemma_occurs_here(s: Seq<char>, p: Seq<char>, i: int)
    requires
        occurs_at(s, p, i),
    ensures
        occurs(s, p),
{
}

/// What occurs in a text occurs in every text that it occurs in, as far behind its
/// start as it stands there.
pub proof fn lemma_occurs_within(s: Seq<char>, m: Seq<char>, i: int, p: Seq<char>, k: int)
    requires
        occurs_at(s, m, i),
        occurs_at(m, p, k),
    ensures
        occurs_at(s, p, i + k),
        occurs(s, p),
{
    assert(s.subrange(i + k, i + k + p.len()) == m.subrange(k, k + p.len())) by {
        let a = s.subrange(i + k, i + k + p.len());
        let b = m.subrange(k, k + p.len());
        assert forall|j: int| 0 <= j < p.len() implies #[trigger] a[j] == b[j] by {
            assert(s.subrange(i, i + m.len())[k + j] == s[i + k + j]);
        }
        assert(a == b);
    }
    assert(occurs_at(s, p, i + k));
}

/// The start of a text occurs in it.
pub proof fn lemma_prefix_occurs(a: Seq<char>, b: Seq<char>)
    ensures
        occurs_at(a + b, a, 0),
        occurs(a + b, a),
        a.is_prefix_of(a + b),
{
    assert((a + b).subrange(0, a.len() as int) == a);
    assert(occurs_at(a + b, a, 0));
}

/// The end of a text occurs in it.
pub proof fn lemma_suffix_occurs(a: Seq<char>, b: Seq<char>)
    ensures
        occurs_at(a + b, b, a.len() as int),
        occurs(a + b, b),
        b.is_suffix_of(a + b),
{
    assert((a + b).subrange(a.len() as int, (a + b).len() as int) == b);
    assert(occurs_at(a + b, b, a.len() as int));
}

/// What occurs in a text that occurs in another occurs in the other too.
pub proof fn lemma_occurs_through(s: Seq<char>, m: Seq<char>, p: Seq<char>)
    requires
        occurs(s, m),
        occurs(m, p),
    ensures
        occurs(s, p),
{
    let i = choose|i: int| occurs_at(s, m, i);
    let k = choose|k: int| occurs_at(m, p, k);
    lemma_occurs_within(s, m, i, p, k);
}

/// Every text occurs in itself.
pub broadcast proof fn lemma_occurs_itself(s: Seq<char>)
    ensures
        #[trigger] occurs(s, s),
{
    assert(s.subrange(0, s.len() as int) == s);
    assert(occurs_at(s, s, 0));
}

/// What occurs in a text still does where something follows it.
pub broadcast proof fn lemma_occurs_left(a: Seq<char>, b: Seq<char>, p: Seq<char>)
    requires
        occurs(a, p),
    ensures
        #[trigger] occurs(a + b, p),
{
    lemma_prefix_occurs(a, b);
    lemma_occurs_through(a + b, a, p);
}

/// What occurs in a text still does where something stands before it.
pub broadcast proof fn lemma_occurs_right(a: Seq<char>, b: Seq<char>, p: Seq<char>)
    requires
        occurs(b, p),
    ensures
        #[trigger] occurs(a + b, p),
{
    lemma_suffix_occurs(a, b);
    lemma_occurs_through(a + b, b, p);
}

/// Two texts that follow one another behind a third occur there as one.
pub broadcast proof fn lemma_occurs_glued(a: Seq<char>, b: Seq<char>, c: Seq<char>)
    ensures
        #[trigger] occurs((a + b) + c, b + c),
{
    assert((a + b) + c =~= a + (b + c)) by {
        vstd::seq_lib::lemma_concat_associative(a, b, c);
    }
    lemma_suffix_occurs(a, b + c);
}

/// What occurs in a text made of parts: each part, and what occurs in it.
pub broadcast group group_occurs {
    lemma_occurs_itself,
    lemma_occurs_left,
    lemma_occurs_right,
    lemma_occurs_glued,
}

/// Ten to the power of `k`.
pub open spec fn power_of_ten(k: nat) -> nat
    decreases k,
{
    if k == 0 {
        1
    } else {
        10 * power_of_ten((k - 1) as nat)
    }
}

/// A number below ten to the power of `k` is written with at most `k` digits.
pub proof fn lemma_decimal_len(n: nat, k: nat)
    requires
        k > 0,
        n < power_of_ten(k),
    ensures
        decimal(n).len() <= k,
    decreases k,
{
    if n >= 10 {
        if k == 1 {
            assert(power_of_ten(0) == 1);
        } else {
            lemma_decimal_len(n / 10, (k - 1) as nat);
        }
    }
}

} // verus!
