//! Character-sequence model of the string operations the parser relies on.
//!
//! Every string is modelled by its view, a `Seq<char>`. The spec functions here
//! state what the usual `str` operations (trim, find, split, replace, ...) mean
//! on that model, and the executable functions compute them on `Vec<char>`
//! buffers with proofs against those statements.
use vstd::prelude::*;
use crate::parser::ast::queries::info::strs;

verus! {

// ---------------------------------------------------------------------------
// Character classes
// ---------------------------------------------------------------------------

/// Unicode `White_Space`, the class `char::is_whitespace` and `str::trim` use.
pub open spec fn is_ws(c: char) -> bool {
    let u = c as u32;
    (9 <= u && u <= 13) || u == 32 || u == 0x85 || u == 0xA0 || u == 0x1680 || (0x2000 <= u
        && u <= 0x200A) || u == 0x2028 || u == 0x2029 || u == 0x202F || u == 0x205F || u
        == 0x3000
}

/// ASCII decimal digit.
pub open spec fn is_digit(c: char) -> bool {
    '0' <= c && c <= '9'
}

/// ASCII hexadecimal digit.
pub open spec fn is_hex_digit(c: char) -> bool {
    ('0' <= c && c <= '9') || ('a' <= c && c <= 'f') || ('A' <= c && c <= 'F')
}

/// Unicode `Alphabetic` property, as `char::is_alphabetic` reports it.
pub uninterp spec fn unicode_alphabetic(c: char) -> bool;

/// Unicode numeric classes (Nd, Nl, No), as `char::is_numeric` reports them.
pub uninterp spec fn unicode_numeric(c: char) -> bool;

/// Unicode lowercase mapping of a whole string, as `str::to_lowercase` computes it.
pub uninterp spec fn unicode_lowercase(s: Seq<char>) -> Seq<char>;

/// Unicode uppercase mapping of a whole string, as `str::to_uppercase` computes it.
pub uninterp spec fn unicode_uppercase(s: Seq<char>) -> Seq<char>;

/// An ASCII character.
pub open spec fn is_ascii_char(c: char) -> bool {
    (c as u32) < 128
}

/// An ASCII letter.
pub open spec fn is_ascii_letter(c: char) -> bool {
    ('A' <= c && c <= 'Z') || ('a' <= c && c <= 'z')
}

/// Every character is ASCII.
pub open spec fn all_ascii(s: Seq<char>) -> bool {
    forall|i: int| 0 <= i < s.len() ==> is_ascii_char(#[trigger] s[i])
}

/// An ASCII uppercase letter as its lowercase one; other characters stay.
pub open spec fn ascii_lower(c: char) -> char {
    if 'A' <= c && c <= 'Z' {
        ((c as u32) + 32) as char
    } else {
        c
    }
}

/// The ASCII letters of `s` in lowercase.
pub open spec fn ascii_lowercase(s: Seq<char>) -> Seq<char> {
    s.map_values(|c: char| ascii_lower(c))
}

/// `char::is_alphabetic`: on ASCII, exactly the letters.
pub open spec fn is_alphabetic(c: char) -> bool {
    if is_ascii_char(c) {
        is_ascii_letter(c)
    } else {
        unicode_alphabetic(c)
    }
}

/// `char::is_numeric`: on ASCII, exactly the digits.
pub open spec fn is_numeric(c: char) -> bool {
    if is_ascii_char(c) {
        is_digit(c)
    } else {
        unicode_numeric(c)
    }
}

/// `str::to_lowercase`: on ASCII text, the ASCII letters lowered.
pub open spec fn lowercase(s: Seq<char>) -> Seq<char> {
    if all_ascii(s) {
        ascii_lowercase(s)
    } else {
        unicode_lowercase(s)
    }
}

/// `char::is_alphanumeric`: alphabetic or numeric.
pub open spec fn is_alnum(c: char) -> bool {
    is_alphabetic(c) || is_numeric(c)
}

/// Calls `char::is_alphabetic`, which holds of the characters with the
/// Unicode `Alphabetic` property; among ASCII characters those are the
/// letters `A`-`Z` and `a`-`z`.
#[verifier::external_body]
pub(crate) fn char_is_alphabetic(c: char) -> (r: bool)
    ensures
        r == unicode_alphabetic(c),
        is_ascii_char(c) ==> r == is_ascii_letter(c),
{
    c.is_alphabetic()
}

/// Calls `char::is_numeric`, which holds of the characters of the Unicode
/// numeric categories; among ASCII characters those are the digits `0`-`9`.
#[verifier::external_body]
pub(crate) fn char_is_numeric(c: char) -> (r: bool)
    ensures
        r == unicode_numeric(c),
        is_ascii_char(c) ==> r == is_digit(c),
{
    c.is_numeric()
}

/// `char::is_alphanumeric`, which std documents as alphabetic or numeric.
pub fn char_is_alphanumeric(c: char) -> (r: bool)
    ensures
        r == is_alnum(c),
{
    char_is_alphabetic(c) || char_is_numeric(c)
}

/// `char::is_whitespace`.
pub fn char_is_ws(c: char) -> (r: bool)
    ensures
        r == is_ws(c),
{
    let u = c as u32;
    (9 <= u && u <= 13) || u == 32 || u == 0x85 || u == 0xA0 || u == 0x1680 || (0x2000 <= u
        && u <= 0x200A) || u == 0x2028 || u == 0x2029 || u == 0x202F || u == 0x205F || u
        == 0x3000
}

/// `char::is_ascii_digit`.
pub fn char_is_digit(c: char) -> (r: bool)
    ensures
        r == is_digit(c),
{
    '0' <= c && c <= '9'
}

/// `char::is_ascii_hexdigit`.
pub fn char_is_hex_digit(c: char) -> (r: bool)
    ensures
        r == is_hex_digit(c),
{
    ('0' <= c && c <= '9') || ('a' <= c && c <= 'f') || ('A' <= c && c <= 'F')
}

/// Calls `str::to_lowercase`; on ASCII text the Unicode lowercase mapping
/// lowers the letters `A`-`Z` and leaves every other character.
#[verifier::external_body]
pub(crate) fn to_lowercase(s: &str) -> (r: String)
    ensures
        r@ == unicode_lowercase(s@),
        all_ascii(s@) ==> r@ == ascii_lowercase(s@),
{
    s.to_lowercase()
}

/// Calls `str::to_uppercase`.
#[verifier::external_body]
pub(crate) fn to_uppercase(s: &str) -> (r: String)
    ensures
        r@ == unicode_uppercase(s@),
{
    s.to_uppercase()
}

/// Calls `String::push`, which appends one character.
#[verifier::external_body]
pub(crate) fn push_char(s: &mut String, c: char)
    ensures
        final(s)@ == old(s)@.push(c),
{
    s.push(c);
}

// ---------------------------------------------------------------------------
// Spec model of the str operations
// ---------------------------------------------------------------------------

/// Every character of `s` is an ASCII digit.
pub open spec fn all_digits(s: Seq<char>) -> bool {
    forall|i: int| 0 <= i < s.len() ==> #[trigger] is_digit(s[i])
}

/// `s` begins with `p`.
pub open spec fn starts_with(s: Seq<char>, p: Seq<char>) -> bool {
    p.len() <= s.len() && s.subrange(0, p.len() as int) == p
}

/// `s` ends with `p`.
pub open spec fn ends_with(s: Seq<char>, p: Seq<char>) -> bool {
    p.len() <= s.len() && s.subrange(s.len() - p.len(), s.len() as int) == p
}

/// `p` occurs in `s` at index `i`.
pub open spec fn occurs_at(s: Seq<char>, p: Seq<char>, i: int) -> bool {
    0 <= i && i + p.len() <= s.len() && s.subrange(i, i + p.len()) == p
}

/// First index at or after `i` where `p` occurs in `s`.
pub open spec fn find_from(s: Seq<char>, p: Seq<char>, i: nat) -> Option<nat>
    decreases s.len() + 1 - i,
{
    if i + p.len() > s.len() {
        None
    } else if s.subrange(i as int, (i + p.len()) as int) == p {
        Some(i)
    } else {
        find_from(s, p, i + 1)
    }
}

/// `str::find`: first index of `p` in `s`.
pub open spec fn find(s: Seq<char>, p: Seq<char>) -> Option<nat> {
    find_from(s, p, 0)
}

/// `str::contains`.
pub open spec fn contains(s: Seq<char>, p: Seq<char>) -> bool {
    find(s, p) is Some
}

/// First index of character `c` at or after `i`.
pub open spec fn find_char_from(s: Seq<char>, c: char, i: nat) -> Option<nat>
    decreases s.len() - i,
{
    if i >= s.len() {
        None
    } else if s[i as int] == c {
        Some(i)
    } else {
        find_char_from(s, c, i + 1)
    }
}

/// `str::find` with a character pattern.
pub open spec fn find_char(s: Seq<char>, c: char) -> Option<nat> {
    find_char_from(s, c, 0)
}

/// Last index of character `c` before `n`.
pub open spec fn rfind_char_before(s: Seq<char>, c: char, n: nat) -> Option<nat>
    decreases n,
{
    if n == 0 {
        None
    } else if (n - 1) < s.len() && s[n - 1] == c {
        Some((n - 1) as nat)
    } else {
        rfind_char_before(s, c, (n - 1) as nat)
    }
}

/// `str::rfind` with a character pattern.
pub open spec fn rfind_char(s: Seq<char>, c: char) -> Option<nat> {
    rfind_char_before(s, c, s.len())
}

/// `str::trim_start`.
pub open spec fn trim_start(s: Seq<char>) -> Seq<char>
    decreases s.len(),
{
    if s.len() > 0 && is_ws(s[0]) {
        trim_start(s.drop_first())
    } else {
        s
    }
}

/// `str::trim_end`.
pub open spec fn trim_end(s: Seq<char>) -> Seq<char>
    decreases s.len(),
{
    if s.len() > 0 && is_ws(s.last()) {
        trim_end(s.drop_last())
    } else {
        s
    }
}

/// `str::trim`.
pub open spec fn trim(s: Seq<char>) -> Seq<char> {
    trim_end(trim_start(s))
}

/// Index just past the run of non-whitespace characters starting at `i`.
pub open spec fn word_end(s: Seq<char>, i: nat) -> nat
    decreases s.len() - i,
{
    if i >= s.len() || is_ws(s[i as int]) {
        i
    } else {
        word_end(s, i + 1)
    }
}

/// Words of `s` from index `i` on.
pub open spec fn words_from(s: Seq<char>, i: nat) -> Seq<Seq<char>>
    decreases s.len() - i, 1nat,
{
    if i >= s.len() {
        seq![]
    } else if is_ws(s[i as int]) {
        words_from(s, i + 1)
    } else {
        seq![s.subrange(i as int, word_end(s, i) as int)] + words_from_end(s, i)
    }
}

/// Words after the word that starts at `i`.
pub open spec fn words_from_end(s: Seq<char>, i: nat) -> Seq<Seq<char>>
    decreases s.len() - i, 0nat,
{
    if i < s.len() && !is_ws(s[i as int]) {
        proof { lemma_word_end_bounds(s, i); }
        words_from(s, word_end(s, i))
    } else {
        seq![]
    }
}

/// `str::split_whitespace`.
pub open spec fn words(s: Seq<char>) -> Seq<Seq<char>> {
    words_from(s, 0)
}

/// Pieces of `s` from index `i` on, split at every `c`.
pub open spec fn split_from(s: Seq<char>, c: char, i: nat) -> Seq<Seq<char>>
    decreases s.len() + 1 - i,
{
    match find_char_from(s, c, i) {
        None => seq![s.subrange(i as int, s.len() as int)],
        Some(k) => {
            if k < i || k >= s.len() {
                seq![]
            } else {
                seq![s.subrange(i as int, k as int)] + split_from(s, c, k + 1)
            }
        },
    }
}

/// `str::split` with a character pattern.
pub open spec fn split_char(s: Seq<char>, c: char) -> Seq<Seq<char>> {
    split_from(s, c, 0)
}

/// Replacement of every non-overlapping occurrence of a non-empty `p`, left to right.
pub open spec fn replace_nonempty(s: Seq<char>, p: Seq<char>, t: Seq<char>) -> Seq<char>
    decreases s.len(),
{
    if p.len() == 0 || s.len() < p.len() {
        s
    } else if s.subrange(0, p.len() as int) == p {
        t + replace_nonempty(s.subrange(p.len() as int, s.len() as int), p, t)
    } else {
        seq![s[0]] + replace_nonempty(s.drop_first(), p, t)
    }
}

/// `t` before every character of `s` and once more at the end.
pub open spec fn interleave(s: Seq<char>, t: Seq<char>) -> Seq<char>
    decreases s.len(),
{
    if s.len() == 0 {
        t
    } else {
        t + seq![s[0]] + interleave(s.drop_first(), t)
    }
}

/// `str::replace`.
pub open spec fn replace(s: Seq<char>, p: Seq<char>, t: Seq<char>) -> Seq<char> {
    if p.len() == 0 {
        interleave(s, t)
    } else {
        replace_nonempty(s, p, t)
    }
}

/// `[String]::join`.
pub open spec fn join(parts: Seq<Seq<char>>, sep: Seq<char>) -> Seq<char>
    decreases parts.len(),
{
    if parts.len() == 0 {
        seq![]
    } else if parts.len() == 1 {
        parts[0]
    } else {
        parts[0] + sep + join(parts.drop_first(), sep)
    }
}

/// Decimal digits of `n`, most significant first.
pub open spec fn decimal(n: nat) -> Seq<char>
    decreases n,
{
    if n < 10 {
        seq![digit_char(n)]
    } else {
        decimal(n / 10) + seq![digit_char(n % 10)]
    }
}

/// The ASCII digit for `d < 10`.
pub open spec fn digit_char(d: nat) -> char {
    if d == 0 {
        '0'
    } else if d == 1 {
        '1'
    } else if d == 2 {
        '2'
    } else if d == 3 {
        '3'
    } else if d == 4 {
        '4'
    } else if d == 5 {
        '5'
    } else if d == 6 {
        '6'
    } else if d == 7 {
        '7'
    } else if d == 8 {
        '8'
    } else {
        '9'
    }
}

// ---------------------------------------------------------------------------
// Lemmas
// ---------------------------------------------------------------------------

/// `word_end` lies between its start and the end of the sequence.
pub proof fn lemma_word_end_bounds(s: Seq<char>, i: nat)
    requires
        i <= s.len(),
    ensures
        i <= word_end(s, i) <= s.len(),
        i < s.len() && !is_ws(s[i as int]) ==> word_end(s, i) > i,
    decreases s.len() - i,
{
    if i < s.len() && !is_ws(s[i as int]) {
        lemma_word_end_bounds(s, i + 1);
    }
}

/// `trim_start` removes a prefix.
pub proof fn lemma_trim_start_suffix(s: Seq<char>)
    ensures
        trim_start(s).len() <= s.len(),
        trim_start(s) == s.subrange(s.len() - trim_start(s).len(), s.len() as int),
    decreases s.len(),
{
    if s.len() > 0 && is_ws(s[0]) {
        lemma_trim_start_suffix(s.drop_first());
        assert(s.drop_first().subrange(
            s.drop_first().len() - trim_start(s.drop_first()).len(),
            s.drop_first().len() as int,
        ) =~= s.subrange(s.len() - trim_start(s).len(), s.len() as int));
    } else {
        assert(s.subrange(0, s.len() as int) =~= s);
    }
}

/// `trim_end` keeps a prefix.
pub proof fn lemma_trim_end_prefix(s: Seq<char>)
    ensures
        trim_end(s).len() <= s.len(),
        trim_end(s) == s.subrange(0, trim_end(s).len() as int),
    decreases s.len(),
{
    if s.len() > 0 && is_ws(s.last()) {
        lemma_trim_end_prefix(s.drop_last());
        assert(s.drop_last().subrange(0, trim_end(s.drop_last()).len() as int) =~= s.subrange(
            0,
            trim_end(s).len() as int,
        ));
    } else {
        assert(s.subrange(0, s.len() as int) =~= s);
    }
}

/// A text equal to its trimmed form starts and ends with non-blank characters.
pub proof fn lemma_trimmed_ends(s: Seq<char>)
    requires
        s.len() > 0,
        trim(s) == s,
    ensures
        !is_ws(s[0]),
        !is_ws(s.last()),
{
    lemma_trim_start_suffix(s);
    lemma_trim_end_prefix(trim_start(s));
    if is_ws(s[0]) {
        lemma_trim_start_suffix(s.drop_first());
        assert(trim_start(s).len() < s.len());
    }
    if trim_start(s).len() == s.len() {
        assert(trim_start(s) =~= s);
        if is_ws(s.last()) {
            lemma_trim_end_prefix(s.drop_last());
            assert(trim_end(s).len() < s.len());
        }
    }
}

/// A text starting and ending with non-blank characters is its trimmed form.
pub proof fn lemma_trim_identity(s: Seq<char>)
    requires
        s.len() > 0,
        !is_ws(s[0]),
        !is_ws(s.last()),
    ensures
        trim(s) == s,
{
}

/// A match found by `find_from` is a real occurrence at or after `i`.
pub proof fn lemma_find_from_occurs(s: Seq<char>, p: Seq<char>, i: nat)
    ensures
        find_from(s, p, i) matches Some(k) ==> k >= i && occurs_at(s, p, k as int),
        find_from(s, p, i) is None ==> forall|k: int| i <= k ==> !occurs_at(s, p, k),
    decreases s.len() + 1 - i,
{
    if i + p.len() > s.len() {
    } else if s.subrange(i as int, (i + p.len()) as int) == p {
    } else {
        lemma_find_from_occurs(s, p, i + 1);
        assert forall|k: int| i <= k && find_from(s, p, i) is None implies !occurs_at(
            s,
            p,
            k,
        ) by {
            if k == i {
            }
        }
    }
}

/// The first occurrence at or after `i` is at `k` when `p` occurs at `k`
/// and nowhere between `i` and `k`.
pub proof fn lemma_find_from_first(s: Seq<char>, p: Seq<char>, i: nat, k: nat)
    requires
        i <= k,
        occurs_at(s, p, k as int),
        forall|j: int| i <= j < k ==> !occurs_at(s, p, j),
    ensures
        find_from(s, p, i) == Some(k),
    decreases k - i,
{
    if i < k {
        assert(!occurs_at(s, p, i as int));
        lemma_find_from_first(s, p, i + 1, k);
    }
}

/// A found character is at the reported index.
pub proof fn lemma_find_char_from(s: Seq<char>, c: char, i: nat)
    ensures
        find_char_from(s, c, i) matches Some(k) ==> i <= k < s.len() && s[k as int] == c && (
        forall|j: int| i <= j < k ==> s[j] != c),
        find_char_from(s, c, i) is None ==> forall|j: int| i <= j < s.len() ==> s[j] != c,
    decreases s.len() - i,
{
    if i < s.len() && s[i as int] != c {
        lemma_find_char_from(s, c, i + 1);
    }
}

// ---------------------------------------------------------------------------
// Executable operations
// ---------------------------------------------------------------------------

/// The characters of `s`.
pub fn chars_of(s: &str) -> (v: Vec<char>)
    ensures
        v@ == s@,
{
    let mut v: Vec<char> = Vec::new();
    for c in it: s.chars()
        invariant
            v@ == it.seq().take(it.index() as int),
    {
        v.push(c);
    }
    v
}

/// A string holding exactly the characters of `v`.
pub fn string_of(v: &Vec<char>) -> (s: String)
    ensures
        s@ == v@,
{
    let mut s = String::new();
    let mut i: usize = 0;
    while i < v.len()
        invariant
            i <= v.len(),
            s@ == v@.subrange(0, i as int),
        decreases v.len() - i,
    {
        push_char(&mut s, v[i]);
        i = i + 1;
        assert(s@ =~= v@.subrange(0, i as int));
    }
    assert(v@.subrange(0, v.len() as int) =~= v@);
    s
}

/// A copy of the string `s`.
pub fn owned(s: &str) -> (r: String)
    ensures
        r@ == s@,
{
    s.to_owned()
}

/// Appends the characters of `t` to `s`.
pub fn push_str(s: &mut String, t: &str)
    ensures
        final(s)@ == old(s)@ + t@,
{
    let v = chars_of(t);
    let ghost s0 = s@;
    let mut i: usize = 0;
    while i < v.len()
        invariant
            i <= v.len(),
            v@ == t@,
            s@ == s0 + v@.subrange(0, i as int),
        decreases v.len() - i,
    {
        push_char(s, v[i]);
        i = i + 1;
        assert(s@ =~= s0 + v@.subrange(0, i as int));
    }
    assert(v@.subrange(0, v.len() as int) =~= v@);
}

/// Concatenation of two strings.
pub fn concat(a: &str, b: &str) -> (r: String)
    ensures
        r@ == a@ + b@,
{
    let mut r = owned(a);
    push_str(&mut r, b);
    r
}

/// The characters `v[i..j]`.
pub fn sub_chars(v: &Vec<char>, i: usize, j: usize) -> (r: Vec<char>)
    requires
        i <= j <= v.len(),
    ensures
        r@ == v@.subrange(i as int, j as int),
{
    let mut r: Vec<char> = Vec::new();
    let mut k: usize = i;
    while k < j
        invariant
            i <= k <= j <= v.len(),
            r@ == v@.subrange(i as int, k as int),
        decreases j - k,
    {
        r.push(v[k]);
        k = k + 1;
        assert(r@ =~= v@.subrange(i as int, k as int));
    }
    r
}

/// The string `v[i..j]`.
pub fn substring(v: &Vec<char>, i: usize, j: usize) -> (r: String)
    requires
        i <= j <= v.len(),
    ensures
        r@ == v@.subrange(i as int, j as int),
{
    let c = sub_chars(v, i, j);
    string_of(&c)
}

/// Equality of two character sequences.
pub fn chars_eq(a: &Vec<char>, b: &Vec<char>) -> (r: bool)
    ensures
        r == (a@ == b@),
{
    if a.len() != b.len() {
        return false;
    }
    let mut i: usize = 0;
    while i < a.len()
        invariant
            a.len() == b.len(),
            i <= a.len(),
            a@.subrange(0, i as int) == b@.subrange(0, i as int),
        decreases a.len() - i,
    {
        if a[i] != b[i] {
            assert(a@[i as int] != b@[i as int]);
            return false;
        }
        i = i + 1;
        assert(a@.subrange(0, i as int) =~= b@.subrange(0, i as int));
    }
    assert(a@ =~= a@.subrange(0, i as int));
    assert(b@ =~= b@.subrange(0, i as int));
    true
}

/// Equality of two strings.
pub fn str_eq(a: &str, b: &str) -> (r: bool)
    ensures
        r == (a@ == b@),
{
    let va = chars_of(a);
    let vb = chars_of(b);
    chars_eq(&va, &vb)
}

/// Whether `p` occurs in `v` at index `i`.
pub fn occurs_at_exec(v: &Vec<char>, p: &Vec<char>, i: usize) -> (r: bool)
    ensures
        r == occurs_at(v@, p@, i as int),
{
    if i > v.len() || p.len() > v.len() - i {
        return false;
    }
    let mut k: usize = 0;
    while k < p.len()
        invariant
            i + p.len() <= v.len(),
            k <= p.len(),
            v@.subrange(i as int, i + k) == p@.subrange(0, k as int),
        decreases p.len() - k,
    {
        if v[i + k] != p[k] {
            assert(v@.subrange(i as int, i + p.len())[k as int] != p@[k as int]);
            return false;
        }
        k = k + 1;
        assert(v@.subrange(i as int, i + k) =~= p@.subrange(0, k as int));
    }
    assert(p@.subrange(0, k as int) =~= p@);
    true
}

/// `str::find` on character buffers.
pub fn find_chars(v: &Vec<char>, p: &Vec<char>) -> (r: Option<usize>)
    ensures
        r matches Some(k) ==> find(v@, p@) == Some(k as nat),
        r is None ==> find(v@, p@) is None,
{
    if p.len() > v.len() {
        return None;
    }
    if p.len() == 0 {
        assert(v@.subrange(0, 0) =~= p@);
        return Some(0);
    }
    let mut i: usize = 0;
    while i <= v.len() - p.len()
        invariant
            0 < p.len() <= v.len(),
            i <= v.len() - p.len() + 1,
            find(v@, p@) == find_from(v@, p@, i as nat),
        decreases v.len() - p.len() + 1 - i,
    {
        if occurs_at_exec(v, p, i) {
            return Some(i);
        }
        i = i + 1;
    }
    None
}

/// `str::contains` on character buffers.
pub fn contains_chars(v: &Vec<char>, p: &Vec<char>) -> (r: bool)
    ensures
        r == contains(v@, p@),
{
    find_chars(v, p).is_some()
}

/// `str::contains`.
pub fn str_contains(s: &str, p: &str) -> (r: bool)
    ensures
        r == contains(s@, p@),
{
    let v = chars_of(s);
    let q = chars_of(p);
    contains_chars(&v, &q)
}

/// `str::find`.
pub fn str_find(s: &str, p: &str) -> (r: Option<usize>)
    ensures
        r matches Some(k) ==> find(s@, p@) == Some(k as nat),
        r is None ==> find(s@, p@) is None,
{
    let v = chars_of(s);
    let q = chars_of(p);
    find_chars(&v, &q)
}

/// `str::starts_with` on character buffers.
pub fn starts_with_chars(v: &Vec<char>, p: &Vec<char>) -> (r: bool)
    ensures
        r == starts_with(v@, p@),
{
    occurs_at_exec(v, p, 0)
}

/// `str::ends_with` on character buffers.
pub fn ends_with_chars(v: &Vec<char>, p: &Vec<char>) -> (r: bool)
    ensures
        r == ends_with(v@, p@),
{
    if p.len() > v.len() {
        return false;
    }
    occurs_at_exec(v, p, v.len() - p.len())
}

/// `str::starts_with`.
pub fn str_starts_with(s: &str, p: &str) -> (r: bool)
    ensures
        r == starts_with(s@, p@),
{
    let v = chars_of(s);
    let q = chars_of(p);
    starts_with_chars(&v, &q)
}

/// `str::ends_with`.
pub fn str_ends_with(s: &str, p: &str) -> (r: bool)
    ensures
        r == ends_with(s@, p@),
{
    let v = chars_of(s);
    let q = chars_of(p);
    ends_with_chars(&v, &q)
}

/// First index of `c` in `v`.
pub fn find_char_exec(v: &Vec<char>, c: char) -> (r: Option<usize>)
    ensures
        r matches Some(k) ==> find_char(v@, c) == Some(k as nat) && k < v@.len() && v@[k as int] == c,
        r is None ==> find_char(v@, c) is None,
{
    proof {
        lemma_find_char_from(v@, c, 0);
    }
    find_char_from_exec(v, c, 0)
}

/// First index of `c` in `v` at or after `start`.
pub fn find_char_from_exec(v: &Vec<char>, c: char, start: usize) -> (r: Option<usize>)
    ensures
        r matches Some(k) ==> find_char_from(v@, c, start as nat) == Some(k as nat),
        r is None ==> find_char_from(v@, c, start as nat) is None,
{
    let mut i: usize = start;
    while i < v.len()
        invariant
            start <= i,
            find_char_from(v@, c, start as nat) == find_char_from(v@, c, i as nat),
        decreases v.len() - i,
    {
        if v[i] == c {
            return Some(i);
        }
        i = i + 1;
    }
    None
}

/// Last index of `c` in `v`.
pub fn rfind_char_exec(v: &Vec<char>, c: char) -> (r: Option<usize>)
    ensures
        r matches Some(k) ==> rfind_char(v@, c) == Some(k as nat) && k < v.len(),
        r is None ==> rfind_char(v@, c) is None,
{
    let mut n: usize = v.len();
    while n > 0
        invariant
            n <= v.len(),
            rfind_char(v@, c) == rfind_char_before(v@, c, n as nat),
        decreases n,
    {
        if v[n - 1] == c {
            return Some(n - 1);
        }
        n = n - 1;
    }
    None
}

/// Whether `c` occurs in `v`.
pub fn has_char(v: &Vec<char>, c: char) -> (r: bool)
    ensures
        r == v@.contains(c),
{
    let mut i: usize = 0;
    while i < v.len()
        invariant
            i <= v.len(),
            forall|j: int| 0 <= j < i ==> v@[j] != c,
        decreases v.len() - i,
    {
        if v[i] == c {
            assert(v@[i as int] == c);
            return true;
        }
        i = i + 1;
    }
    false
}

/// Bounds `(a, b)` with `v[a..b]` the trimmed text.
pub fn trim_bounds(v: &Vec<char>) -> (r: (usize, usize))
    ensures
        r.0 <= r.1 <= v.len(),
        v@.subrange(r.0 as int, r.1 as int) == trim(v@),
{
    let mut a: usize = 0;
    assert(v@.subrange(0, v.len() as int) =~= v@);
    while a < v.len() && char_is_ws(v[a])
        invariant
            a <= v.len(),
            trim_start(v@) == trim_start(v@.subrange(a as int, v.len() as int)),
        decreases v.len() - a,
    {
        assert(v@.subrange(a as int, v.len() as int).drop_first() =~= v@.subrange(
            a + 1,
            v.len() as int,
        ));
        a = a + 1;
    }
    let ghost ts = v@.subrange(a as int, v.len() as int);
    assert(trim_start(ts) == ts);
    let mut b: usize = v.len();
    while b > a && char_is_ws(v[b - 1])
        invariant
            a <= b <= v.len(),
            trim_end(ts) == trim_end(v@.subrange(a as int, b as int)),
        decreases b,
    {
        assert(v@.subrange(a as int, b as int).drop_last() =~= v@.subrange(a as int, b - 1));
        b = b - 1;
    }
    (a, b)
}

/// `str::trim` on character buffers.
pub fn trim_chars(v: &Vec<char>) -> (r: Vec<char>)
    ensures
        r@ == trim(v@),
{
    let (a, b) = trim_bounds(v);
    sub_chars(v, a, b)
}

/// `str::trim`.
pub fn str_trim(s: &str) -> (r: String)
    ensures
        r@ == trim(s@),
{
    let v = chars_of(s);
    let (a, b) = trim_bounds(&v);
    substring(&v, a, b)
}

/// Whether `str::trim` of `s` is empty.
pub fn is_blank(s: &str) -> (r: bool)
    ensures
        r == (trim(s@).len() == 0),
{
    let v = chars_of(s);
    let (a, b) = trim_bounds(&v);
    a == b
}

/// Decimal text of a number.
pub fn usize_to_string(n: usize) -> (s: String)
    ensures
        s@ == decimal(n as nat),
{
    u128_to_string(n as u128)
}

/// Decimal text of a 128-bit number.
pub fn u128_to_string(n: u128) -> (s: String)
    ensures
        s@ == decimal(n as nat),
{
    let mut digits: Vec<char> = Vec::new();
    let mut m: u128 = n;
    // digits holds the low digits of n, least significant first
    while m >= 10
        invariant
            decimal(n as nat) == decimal(m as nat) + digits@.reverse(),
        decreases m,
    {
        let d = m % 10;
        let c = digit_exec(d as usize);
        assert(decimal(m as nat) == decimal((m / 10) as nat) + seq![digit_char((m % 10) as nat)]);
        digits.push(c);
        assert(digits@.reverse() =~= seq![c] + digits@.drop_last().reverse());
        m = m / 10;
    }
    let c = digit_exec(m as usize);
    digits.push(c);
    assert(digits@.reverse() =~= seq![c] + digits@.drop_last().reverse());
    let mut s = String::new();
    let mut i: usize = digits.len();
    while i > 0
        invariant
            i <= digits.len(),
            s@ == digits@.subrange(i as int, digits.len() as int).reverse(),
        decreases i,
    {
        push_char(&mut s, digits[i - 1]);
        i = i - 1;
        assert(s@ =~= digits@.subrange(i as int, digits.len() as int).reverse());
    }
    assert(digits@.subrange(0, digits.len() as int) =~= digits@);
    s
}

/// The ASCII digit for `d < 10`.
pub fn digit_exec(d: usize) -> (c: char)
    requires
        d < 10,
    ensures
        c == digit_char(d as nat),
{
    if d == 0 {
        '0'
    } else if d == 1 {
        '1'
    } else if d == 2 {
        '2'
    } else if d == 3 {
        '3'
    } else if d == 4 {
        '4'
    } else if d == 5 {
        '5'
    } else if d == 6 {
        '6'
    } else if d == 7 {
        '7'
    } else if d == 8 {
        '8'
    } else {
        '9'
    }
}

/// `[String]::join`.
pub fn join_strings(parts: &Vec<String>, sep: &str) -> (r: String)
    ensures
        r@ == join(parts@.map_values(|p: String| p@), sep@),
{
    let ghost views = parts@.map_values(|p: String| p@);
    if parts.len() == 0 {
        return String::new();
    }
    let mut r = String::new();
    let mut i: usize = parts.len();
    // build from the back: r == join(views[i..])
    let last = parts.len() - 1;
    push_str(&mut r, parts[last].as_str());
    i = last;
    assert(views.subrange(i as int, views.len() as int) =~= seq![views[i as int]]);
    while i > 0
        invariant
            0 <= i < parts.len(),
            views == parts@.map_values(|p: String| p@),
            r@ == join(views.subrange(i as int, views.len() as int), sep@),
        decreases i,
    {
        let mut next = String::new();
        push_str(&mut next, parts[i - 1].as_str());
        push_str(&mut next, sep);
        push_str(&mut next, r.as_str());
        let ghost tail = views.subrange(i as int, views.len() as int);
        let ghost whole = views.subrange(i - 1, views.len() as int);
        assert(whole.drop_first() =~= tail);
        assert(whole[0] == parts@[i - 1]@);
        r = next;
        i = i - 1;
    }
    assert(views.subrange(0, views.len() as int) =~= views);
    r
}

// ---------------------------------------------------------------------------
// Numeric literals
// ---------------------------------------------------------------------------

/// `c` equals the lowercase ASCII letter or sign `lower`, ignoring ASCII case.
pub open spec fn char_ieq(c: char, lower: char) -> bool {
    c == lower || ('A' <= c && c <= 'Z' && (c as u32) + 32 == (lower as u32))
}

/// `s` equals the lowercase word `w`, ignoring ASCII case.
pub open spec fn eq_ignore_case(s: Seq<char>, w: Seq<char>) -> bool {
    s.len() == w.len() && forall|i: int| 0 <= i < s.len() ==> #[trigger] char_ieq(s[i], w[i])
}

/// `+` or `-`.
pub open spec fn is_sign(c: char) -> bool {
    c == '+' || c == '-'
}

/// Digits with at most one `.`, not the dot alone: `12`, `1.`, `.5`, `1.5`.
pub open spec fn mantissa_ok(m: Seq<char>) -> bool {
    match find_char(m, '.') {
        None => m.len() > 0 && all_digits(m),
        Some(d) => m.len() > 1 && all_digits(m.subrange(0, d as int)) && all_digits(
            m.subrange((d + 1) as int, m.len() as int),
        ),
    }
}

/// Exponent digits after the `e`: an optional sign and at least one digit.
pub open spec fn exponent_ok(x: Seq<char>) -> bool {
    (x.len() > 0 && all_digits(x)) || (x.len() > 1 && is_sign(x[0]) && all_digits(x.drop_first()))
}

/// First index at or after `i` holding `e` or `E`.
pub open spec fn find_exp_from(s: Seq<char>, i: nat) -> Option<nat>
    decreases s.len() - i,
{
    if i >= s.len() {
        None
    } else if s[i as int] == 'e' || s[i as int] == 'E' {
        Some(i)
    } else {
        find_exp_from(s, i + 1)
    }
}

/// Unsigned decimal number with optional exponent.
pub open spec fn number_ok(s: Seq<char>) -> bool {
    match find_exp_from(s, 0) {
        None => mantissa_ok(s),
        Some(k) => k < s.len() && mantissa_ok(s.subrange(0, k as int)) && exponent_ok(
            s.subrange((k + 1) as int, s.len() as int),
        ),
    }
}

/// The strings Rust's `f64` parser accepts: an optional sign, then `inf`,
/// `infinity`, `nan` (any ASCII case) or a decimal number with an optional
/// exponent. Every string the `i64` parser accepts is among them.
pub open spec fn is_number_literal(s: Seq<char>) -> bool {
    let body = if s.len() > 0 && is_sign(s[0]) {
        s.drop_first()
    } else {
        s
    };
    eq_ignore_case(body, "inf"@) || eq_ignore_case(body, "infinity"@) || eq_ignore_case(body, "nan"@)
        || number_ok(body)
}

/// Whether `v[a..b]` is all ASCII digits.
pub fn digits_between(v: &Vec<char>, a: usize, b: usize) -> (r: bool)
    requires
        a <= b <= v.len(),
    ensures
        r == all_digits(v@.subrange(a as int, b as int)),
{
    let mut i: usize = a;
    while i < b
        invariant
            a <= i <= b <= v.len(),
            all_digits(v@.subrange(a as int, i as int)),
        decreases b - i,
    {
        if !char_is_digit(v[i]) {
            assert(!is_digit(v@.subrange(a as int, b as int)[i - a]));
            return false;
        }
        i = i + 1;
        assert forall|j: int| 0 <= j < i - a implies #[trigger] is_digit(v@.subrange(a as int, i as int)[j]) by {
            if j < i - 1 - a {
                assert(v@.subrange(a as int, i as int)[j] == v@.subrange(a as int, i - 1)[j]);
            }
        }
    }
    true
}

/// Whether `v[a..b]` equals the lowercase word `w`, ignoring ASCII case.
pub fn ieq_between(v: &Vec<char>, a: usize, b: usize, w: &Vec<char>) -> (r: bool)
    requires
        a <= b <= v.len(),
    ensures
        r == eq_ignore_case(v@.subrange(a as int, b as int), w@),
{
    if b - a != w.len() {
        return false;
    }
    let mut i: usize = 0;
    while i < w.len()
        invariant
            a <= b <= v.len(),
            b - a == w.len(),
            i <= w.len(),
            forall|j: int| 0 <= j < i ==> #[trigger] char_ieq(v@.subrange(a as int, b as int)[j], w@[j]),
        decreases w.len() - i,
    {
        let c = v[a + i];
        let l = w[i];
        if !(c == l || ('A' <= c && c <= 'Z' && (c as u32) + 32 == (l as u32))) {
            assert(!char_ieq(v@.subrange(a as int, b as int)[i as int], w@[i as int]));
            return false;
        }
        i = i + 1;
    }
    true
}

/// Whether `v[a..b]` is a decimal mantissa.
fn mantissa_between(v: &Vec<char>, a: usize, b: usize) -> (r: bool)
    requires
        a <= b <= v.len(),
    ensures
        r == mantissa_ok(v@.subrange(a as int, b as int)),
{
    let ghost m = v@.subrange(a as int, b as int);
    let mut d: usize = a;
    while d < b && v[d] != '.'
        invariant
            a <= d <= b <= v.len(),
            find_char(m, '.') == find_char_from(m, '.', (d - a) as nat),
            m == v@.subrange(a as int, b as int),
        decreases b - d,
    {
        assert(m[(d - a) as int] == v@[d as int]);
        d = d + 1;
    }
    if d == b {
        assert(find_char_from(m, '.', (d - a) as nat) is None);
        assert(m =~= v@.subrange(a as int, b as int));
        b > a && digits_between(v, a, b)
    } else {
        assert(find_char(m, '.') == Some((d - a) as nat));
        assert(m.subrange(0, (d - a) as int) =~= v@.subrange(a as int, d as int));
        assert(m.subrange(d - a + 1, m.len() as int) =~= v@.subrange(d + 1, b as int));
        b - a > 1 && digits_between(v, a, d) && digits_between(v, d + 1, b)
    }
}

/// Whether `v[a..b]` is an exponent part.
fn exponent_between(v: &Vec<char>, a: usize, b: usize) -> (r: bool)
    requires
        a <= b <= v.len(),
    ensures
        r == exponent_ok(v@.subrange(a as int, b as int)),
{
    let ghost x = v@.subrange(a as int, b as int);
    if b > a && digits_between(v, a, b) {
        return true;
    }
    if b - a > 1 && (v[a] == '+' || v[a] == '-') {
        assert(x.drop_first() =~= v@.subrange(a + 1, b as int));
        digits_between(v, a + 1, b)
    } else {
        false
    }
}

/// Whether `v[a..b]` is an unsigned number with optional exponent.
fn number_between(v: &Vec<char>, a: usize, b: usize) -> (r: bool)
    requires
        a <= b <= v.len(),
    ensures
        r == number_ok(v@.subrange(a as int, b as int)),
{
    let ghost s = v@.subrange(a as int, b as int);
    let mut k: usize = a;
    while k < b && v[k] != 'e' && v[k] != 'E'
        invariant
            a <= k <= b <= v.len(),
            find_exp_from(s, 0) == find_exp_from(s, (k - a) as nat),
            s == v@.subrange(a as int, b as int),
        decreases b - k,
    {
        assert(s[(k - a) as int] == v@[k as int]);
        k = k + 1;
    }
    if k == b {
        mantissa_between(v, a, b)
    } else {
        assert(s.subrange(0, (k - a) as int) =~= v@.subrange(a as int, k as int));
        assert(s.subrange(k - a + 1, s.len() as int) =~= v@.subrange(k + 1, b as int));
        mantissa_between(v, a, k) && exponent_between(v, k + 1, b)
    }
}

/// Whether `s` parses as a Rust `f64` (and so also whether it parses as an integer or a float).
pub fn is_number_literal_exec(s: &str) -> (r: bool)
    ensures
        r == is_number_literal(s@),
{
    let v = chars_of(s);
    let a: usize = if v.len() > 0 && (v[0] == '+' || v[0] == '-') {
        1
    } else {
        0
    };
    let b = v.len();
    let ghost body = if v@.len() > 0 && is_sign(v@[0]) {
        v@.drop_first()
    } else {
        v@
    };
    assert(body =~= v@.subrange(a as int, b as int));
    let inf = chars_of("inf");
    let infinity = chars_of("infinity");
    let nan = chars_of("nan");
    ieq_between(&v, a, b, &inf) || ieq_between(&v, a, b, &infinity) || ieq_between(&v, a, b, &nan)
        || number_between(&v, a, b)
}

// ---------------------------------------------------------------------------
// Splitting, replacing, counting
// ---------------------------------------------------------------------------

/// `s` with every leading `c` removed (`str::trim_start_matches` with a character).
pub open spec fn drop_leading(s: Seq<char>, c: char) -> Seq<char>
    decreases s.len(),
{
    if s.len() > 0 && s[0] == c {
        drop_leading(s.drop_first(), c)
    } else {
        s
    }
}

/// Number of characters of `s` equal to `c`.
pub open spec fn count_char(s: Seq<char>, c: char) -> nat
    decreases s.len(),
{
    if s.len() == 0 {
        0
    } else {
        count_char(s.drop_last(), c) + if s.last() == c {
            1nat
        } else {
            0nat
        }
    }
}

/// Number of non-overlapping occurrences of a non-empty `p`, found left to right.
pub open spec fn count_matches(s: Seq<char>, p: Seq<char>) -> nat
    decreases s.len(),
{
    if p.len() == 0 || s.len() < p.len() {
        0
    } else if s.subrange(0, p.len() as int) == p {
        1 + count_matches(s.subrange(p.len() as int, s.len() as int), p)
    } else {
        count_matches(s.drop_first(), p)
    }
}

/// `str::trim_start_matches` with a character pattern.
pub fn drop_leading_exec(s: &str, c: char) -> (r: String)
    ensures
        r@ == drop_leading(s@, c),
{
    let v = chars_of(s);
    let mut i: usize = 0;
    assert(v@.subrange(0, v.len() as int) =~= v@);
    while i < v.len() && v[i] == c
        invariant
            i <= v.len(),
            drop_leading(v@, c) == drop_leading(v@.subrange(i as int, v.len() as int), c),
        decreases v.len() - i,
    {
        assert(v@.subrange(i as int, v.len() as int).drop_first() =~= v@.subrange(i + 1, v.len() as int));
        i = i + 1;
    }
    substring(&v, i, v.len())
}

/// Number of characters equal to `c`.
pub fn count_char_exec(v: &Vec<char>, c: char) -> (n: usize)
    ensures
        n == count_char(v@, c),
{
    let mut n: usize = 0;
    let mut i: usize = 0;
    while i < v.len()
        invariant
            i <= v.len(),
            n == count_char(v@.take(i as int), c),
            n <= i,
        decreases v.len() - i,
    {
        assert(v@.take(i + 1).drop_last() =~= v@.take(i as int));
        if v[i] == c {
            n = n + 1;
        }
        i = i + 1;
    }
    assert(v@.take(v.len() as int) =~= v@);
    n
}

/// Number of non-overlapping occurrences of `p`.
pub fn count_matches_exec(v: &Vec<char>, p: &Vec<char>) -> (n: usize)
    ensures
        n == count_matches(v@, p@),
{
    if p.len() == 0 {
        return 0;
    }
    let mut n: usize = 0;
    let mut i: usize = 0;
    assert(v@.subrange(0, v.len() as int) =~= v@);
    while i < v.len()
        invariant
            p.len() > 0,
            i <= v.len(),
            n <= i,
            count_matches(v@, p@) == n + count_matches(v@.subrange(i as int, v.len() as int), p@),
        decreases v.len() - i,
    {
        let ghost r = v@.subrange(i as int, v.len() as int);
        if occurs_at_exec(v, p, i) {
            assert(r.subrange(0, p.len() as int) =~= v@.subrange(i as int, i + p.len()));
            assert(r.subrange(p.len() as int, r.len() as int) =~= v@.subrange(i + p.len(), v.len() as int));
            n = n + 1;
            i = i + p.len();
        } else {
            proof {
                if r.len() >= p@.len() {
                    assert(r.subrange(0, p@.len() as int) =~= v@.subrange(i as int, i + p@.len()));
                }
            }
            assert(r.drop_first() =~= v@.subrange(i + 1, v.len() as int));
            i = i + 1;
        }
    }
    assert(v@.subrange(i as int, v.len() as int).len() == 0);
    n
}

/// `str::replace`.
pub fn str_replace(s: &str, p: &str, t: &str) -> (r: String)
    ensures
        r@ == replace(s@, p@, t@),
{
    let v = chars_of(s);
    let pv = chars_of(p);
    let mut out = String::new();
    let mut i: usize = 0;
    assert(v@.subrange(0, v.len() as int) =~= v@);
    if pv.len() == 0 {
        while i < v.len()
            invariant
                i <= v.len(),
                interleave(v@, t@) == out@ + interleave(v@.subrange(i as int, v.len() as int), t@),
            decreases v.len() - i,
        {
            let ghost r = v@.subrange(i as int, v.len() as int);
            assert(r.drop_first() =~= v@.subrange(i + 1, v.len() as int));
            push_str(&mut out, t);
            push_char(&mut out, v[i]);
            i = i + 1;
            assert(out@ + interleave(v@.subrange(i as int, v.len() as int), t@) =~= old_out_plus(out@, t@, v@, i));
        }
        push_str(&mut out, t);
        assert(v@.subrange(i as int, v.len() as int) =~= Seq::<char>::empty());
        return out;
    }
    while i < v.len()
        invariant
            pv.len() > 0,
            pv@ == p@,
            i <= v.len(),
            replace_nonempty(v@, p@, t@) == out@ + replace_nonempty(v@.subrange(i as int, v.len() as int), p@, t@),
        decreases v.len() - i,
    {
        let ghost r = v@.subrange(i as int, v.len() as int);
        if occurs_at_exec(&v, &pv, i) {
            assert(r.subrange(0, p@.len() as int) =~= v@.subrange(i as int, i + p@.len()));
            assert(r.subrange(p@.len() as int, r.len() as int) =~= v@.subrange(i + p@.len(), v.len() as int));
            push_str(&mut out, t);
            i = i + pv.len();
        } else {
            proof {
                if r.len() >= p@.len() {
                    assert(r.subrange(0, p@.len() as int) =~= v@.subrange(i as int, i + p@.len()));
                } else {
                    assert(r.drop_first().len() < p@.len());
                    assert(replace_nonempty(r.drop_first(), p@, t@) == r.drop_first());
                    assert(r =~= seq![r[0]] + r.drop_first());
                }
            }
            assert(r.drop_first() =~= v@.subrange(i + 1, v.len() as int));
            push_char(&mut out, v[i]);
            i = i + 1;
        }
    }
    assert(v@.subrange(i as int, v.len() as int) =~= Seq::<char>::empty());
    out
}

/// Helper view used while interleaving.
pub open spec fn old_out_plus(out: Seq<char>, t: Seq<char>, v: Seq<char>, i: usize) -> Seq<char> {
    out + interleave(v.subrange(i as int, v.len() as int), t)
}

/// `str::split_whitespace`.
pub fn split_whitespace(s: &str) -> (r: Vec<String>)
    ensures
        r@.map_values(|x: String| x@) == words(s@),
{
    let v = chars_of(s);
    let n = v.len();
    let mut out: Vec<String> = Vec::new();
    let mut i: usize = 0;
    assert(out@.map_values(|x: String| x@) =~= Seq::<Seq<char>>::empty());
    while i < n
        invariant
            n == v@.len(),
            v@ == s@,
            i <= n,
            words(v@) == out@.map_values(|x: String| x@) + words_from(v@, i as nat),
        decreases n - i,
    {
        if char_is_ws(v[i]) {
            i = i + 1;
        } else {
            let mut j: usize = i;
            proof {
                lemma_word_end_bounds(v@, i as nat);
            }
            while j < n && !char_is_ws(v[j])
                invariant
                    i <= j <= n,
                    n == v@.len(),
                    word_end(v@, i as nat) == word_end(v@, j as nat),
                decreases n - j,
            {
                j = j + 1;
            }
            let w = substring(&v, i, j);
            let ghost before = out@.map_values(|x: String| x@);
            out.push(w);
            assert(out@.map_values(|x: String| x@) =~= before.push(v@.subrange(i as int, j as int)));
            assert(word_end(v@, j as nat) == j);
            assert(!is_ws(v@[i as int]));
            assert(words_from_end(v@, i as nat) == words_from(v@, j as nat));
            assert(words_from(v@, i as nat) == seq![v@.subrange(i as int, j as int)] + words_from(v@, j as nat));
            i = j;
        }
    }
    out
}

/// `str::split` with a character pattern.
pub fn split_char_exec(s: &str, c: char) -> (r: Vec<String>)
    ensures
        r@.map_values(|x: String| x@) == split_char(s@, c),
{
    let v = chars_of(s);
    let n = v.len();
    let mut out: Vec<String> = Vec::new();
    let mut i: usize = 0;
    assert(out@.map_values(|x: String| x@) =~= Seq::<Seq<char>>::empty());
    loop
        invariant
            n == v@.len(),
            v@ == s@,
            i <= n,
            split_char(v@, c) == out@.map_values(|x: String| x@) + split_from(v@, c, i as nat),
        decreases n - i,
    {
        let ghost before = out@.map_values(|x: String| x@);
        match find_char_from_exec(&v, c, i) {
            None => {
                out.push(substring(&v, i, n));
                assert(out@.map_values(|x: String| x@) =~= before.push(v@.subrange(i as int, n as int)));
                assert(split_from(v@, c, i as nat) == seq![v@.subrange(i as int, n as int)]);
                assert(split_char(v@, c) =~= out@.map_values(|x: String| x@));
                return out;
            },
            Some(k) => {
                proof {
                    lemma_find_char_from(v@, c, i as nat);
                }
                out.push(substring(&v, i, k));
                assert(out@.map_values(|x: String| x@) =~= before.push(v@.subrange(i as int, k as int)));
                i = k + 1;
            },
        }
    }
}

/// A text starting with `if ` has `if` as its first word.
pub proof fn lemma_words_if_prefix(t: Seq<char>)
    requires
        starts_with(t, "if "@),
    ensures
        words(t).len() > 0,
        words(t)[0] == "if"@,
        words(t)[0] != "then"@,
        words(t)[0] != "else"@,
{
    reveal_strlit("if ");
    reveal_strlit("if");
    reveal_strlit("then");
    reveal_strlit("else");
    assert(t.subrange(0, 3)[0] == t[0]);
    assert(t.subrange(0, 3)[1] == t[1]);
    assert(t.subrange(0, 3)[2] == t[2]);
    assert(t[0] == 'i' && t[1] == 'f' && t[2] == ' ');
    assert(word_end(t, 2) == 2);
    assert(word_end(t, 1) == 2);
    assert(word_end(t, 0) == 2);
    assert(t.subrange(0, 2) =~= "if"@);
    assert(words_from(t, 0) == seq![t.subrange(0, 2)] + words_from_end(t, 0));
}

/// Whether some string of `v` equals `s`.
pub fn strings_contain(v: &[String], s: &str) -> (r: bool)
    ensures
        r == v@.map_values(|x: String| x@).contains(s@),
{
    let mut i: usize = 0;
    while i < v.len()
        invariant
            i <= v@.len(),
            forall|j: int| 0 <= j < i ==> v@[j]@ != s@,
        decreases v.len() - i,
    {
        if str_eq(v[i].as_str(), s) {
            assert(v@.map_values(|x: String| x@)[i as int] == s@);
            return true;
        }
        i = i + 1;
    }
    assert(!v@.map_values(|x: String| x@).contains(s@)) by {
        let views = v@.map_values(|x: String| x@);
        if views.contains(s@) {
            let k = choose|k: int| 0 <= k < views.len() && views[k] == s@;
            assert(v@[k]@ == s@);
        }
    }
    false
}

/// Index of the first string of `v` equal to `s`.
pub fn string_position(v: &Vec<String>, s: &str) -> (r: Option<usize>)
    ensures
        r matches Some(k) ==> k < v@.len() && v@[k as int]@ == s@,
        r is None ==> !v@.map_values(|x: String| x@).contains(s@),
{
    let mut i: usize = 0;
    while i < v.len()
        invariant
            i <= v@.len(),
            forall|j: int| 0 <= j < i ==> v@[j]@ != s@,
        decreases v.len() - i,
    {
        if str_eq(v[i].as_str(), s) {
            return Some(i);
        }
        i = i + 1;
    }
    assert(!v@.map_values(|x: String| x@).contains(s@)) by {
        let views = v@.map_values(|x: String| x@);
        if views.contains(s@) {
            let k = choose|k: int| 0 <= k < views.len() && views[k] == s@;
            assert(v@[k]@ == s@);
        }
    }
    None
}

// ---------------------------------------------------------------------------
// Lines
// ---------------------------------------------------------------------------

/// A line without the carriage return that ends it, if any.
pub open spec fn strip_cr(l: Seq<char>) -> Seq<char> {
    if l.len() > 0 && l.last() == '\r' {
        l.drop_last()
    } else {
        l
    }
}

/// `str::lines`: lines end at `\n` or `\r\n`, and a last empty line is dropped.
pub open spec fn text_lines(s: Seq<char>) -> Seq<Seq<char>>
    decreases s.len(),
{
    if s.len() == 0 {
        seq![]
    } else {
        match find_char(s, '\n') {
            Some(i) => {
                proof {
                    lemma_find_char_from(s, '\n', 0);
                }
                seq![strip_cr(s.subrange(0, i as int))] + text_lines(s.subrange((i + 1) as int, s.len() as int))
            },
            None => seq![s],
        }
    }
}

/// The lines of `s`.
pub fn lines_of(s: &str) -> (r: Vec<String>)
    ensures
        strs(r@) == text_lines(s@),
    decreases s@.len(),
{
    let v = chars_of(s);
    let mut out: Vec<String> = Vec::new();
    let mut rest = v;
    let ghost whole = s@;
    assert(strs(out@) + text_lines(rest@) == text_lines(whole));
    while rest.len() > 0
        invariant
            strs(out@) + text_lines(rest@) == text_lines(whole),
        decreases rest.len(),
    {
        let ghost r0 = rest@;
        match find_char_exec(&rest, '\n') {
            Some(i) => {
                proof {
                    lemma_find_char_from(rest@, '\n', 0);
                }
                let end = if i > 0 && rest[i - 1] == '\r' {
                    i - 1
                } else {
                    i
                };
                let line = sub_chars(&rest, 0, end);
                let ghost prev = strs(out@);
                out.push(string_of(&line));
                assert(line@ == strip_cr(r0.subrange(0, i as int)));
                let n = rest.len();
                rest = sub_chars(&rest, i + 1, n);
                assert(strs(out@) =~= prev.push(line@));
                assert(text_lines(r0) == seq![line@] + text_lines(rest@));
                assert(strs(out@) + text_lines(rest@) =~= prev + text_lines(r0));
            },
            None => {
                let ghost prev = strs(out@);
                out.push(string_of(&rest));
                assert(text_lines(r0) == seq![r0]);
                assert(strs(out@) =~= prev.push(r0));
                rest = Vec::new();
                assert(text_lines(rest@) =~= Seq::<Seq<char>>::empty());
                assert(strs(out@) + text_lines(rest@) =~= prev + text_lines(r0));
            },
        }
    }
    assert(text_lines(rest@) =~= Seq::<Seq<char>>::empty());
    assert(strs(out@) =~= strs(out@) + text_lines(rest@));
    out
}

} // verus!
