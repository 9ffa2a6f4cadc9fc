//! Characters classes and small scanning helpers over sequences of chars.
//!
//! All parsing in this crate works on the `Seq<char>` view of a line. The
//! classes below are the character sets that the grammars of the tool are
//! built from; the scanning functions compute the end of a maximal run of
//! characters of one class, which is how every repetition (`x*`, `x+`) in
//! those grammars is read.
use vstd::prelude::*;

verus! {

/// Whitespace as Unicode defines it (the `White_Space` property).
pub open spec fn is_ws(c: char) -> bool {
    ||| ('\u{9}' <= c && c <= '\u{d}')
    ||| c == ' '
    ||| c == '\u{85}'
    ||| c == '\u{a0}'
    ||| c == '\u{1680}'
    ||| ('\u{2000}' <= c && c <= '\u{200a}')
    ||| c == '\u{2028}'
    ||| c == '\u{2029}'
    ||| c == '\u{202f}'
    ||| c == '\u{205f}'
    ||| c == '\u{3000}'
}

pub open spec fn is_ascii_letter(c: char) -> bool {
    ('a' <= c && c <= 'z') || ('A' <= c && c <= 'Z')
}

pub open spec fn is_ascii_digit(c: char) -> bool {
    '0' <= c && c <= '9'
}

/// First character of a Rust identifier: `[a-zA-Z_]`.
pub open spec fn is_ident_start(c: char) -> bool {
    is_ascii_letter(c) || c == '_'
}

/// Following characters of a Rust identifier: `[a-zA-Z0-9_]`.
pub open spec fn is_ident_char(c: char) -> bool {
    is_ascii_letter(c) || is_ascii_digit(c) || c == '_'
}

/// Characters of an HTML section name: `[a-zA-Z0-9_\-\.]`.
pub open spec fn is_section_char(c: char) -> bool {
    is_ident_char(c) || c == '-' || c == '.'
}

/// Characters of a link target: `[a-zA-Z0-9_#/\-\.]`.
pub open spec fn is_link_char(c: char) -> bool {
    is_section_char(c) || c == '#' || c == '/'
}

/// Characters between the brackets of an inline link: anything but a
/// bracket or a line feed.
pub open spec fn is_name_char(c: char) -> bool {
    c != '[' && c != ']' && c != '\n'
}

/// Whether `c` is a word character, `\w`, of the regex crate: a character
/// of the `Alphabetic` or `Join_Control` properties, or of the
/// `Decimal_Number`, `Mark` or `Connector_Punctuation` categories.
pub uninterp spec fn unicode_word(c: char) -> bool;

/// Whether `c` is a digit, `\d`, of the regex crate: a character of the
/// `Decimal_Number` category.
pub uninterp spec fn unicode_digit(c: char) -> bool;

/// Whether `c` is a Unicode word character: calls
/// `regex_syntax::is_word_character` (with the `unicode-perl` tables that
/// the default features bring, so it does not panic). Trusted: the contract
/// claims only that the answer is a function of `c` alone, named
/// [`unicode_word`]; which characters are word characters is the crate's
/// table and is not restated here.
#[verifier::external_body]
pub(crate) fn is_word_character(c: char) -> (b: bool)
    ensures
        b == unicode_word(c),
{
    regex_syntax::is_word_character(c)
}

/// Whether `c` is a Unicode decimal digit: asks the regex crate whether the
/// one-character string `c` matches its class `\d`. Trusted: the contract
/// claims only that the answer is a function of `c` alone, named
/// [`unicode_digit`]; the crate's table is not restated here.
#[verifier::external_body]
pub(crate) fn is_decimal_digit(c: char) -> (b: bool)
    ensures
        b == unicode_digit(c),
{
    regex::Regex::new(r"\d").unwrap().is_match(&c.to_string())
}

/// The classes of characters that runs are scanned over.
#[derive(Clone, Copy, PartialEq, Eq, Debug)]
pub enum CharClass {
    Whitespace,
    IdentChar,
    SectionChar,
    LinkChar,
    Digit,
    NotWhitespace,
    NameChar,
    Word,
    DecimalDigit,
}

pub open spec fn in_class(k: CharClass, c: char) -> bool {
    match k {
        CharClass::Whitespace => is_ws(c),
        CharClass::IdentChar => is_ident_char(c),
        CharClass::SectionChar => is_section_char(c),
        CharClass::LinkChar => is_link_char(c),
        CharClass::Digit => is_ascii_digit(c),
        CharClass::NotWhitespace => !is_ws(c),
        CharClass::NameChar => is_name_char(c),
        CharClass::Word => unicode_word(c),
        CharClass::DecimalDigit => unicode_digit(c),
    }
}

/// A Rust identifier: `[a-zA-Z_][a-zA-Z0-9_]*`.
pub open spec fn is_ident(s: Seq<char>) -> bool {
    &&& s.len() > 0
    &&& is_ident_start(s[0])
    &&& forall|i: int| 1 <= i < s.len() ==> is_ident_char(#[trigger] s[i])
}

/// An HTML section: `#[a-zA-Z0-9_\-\.]+`.
pub open spec fn is_html_section(s: Seq<char>) -> bool {
    &&& s.len() >= 2
    &&& s[0] == '#'
    &&& forall|i: int| 1 <= i < s.len() ==> is_section_char(#[trigger] s[i])
}

/// End of the maximal run of characters of class `k` that starts at `i`.
pub open spec fn run_end(s: Seq<char>, i: int, k: CharClass) -> int
    decreases s.len() - i,
{
    if i < 0 || i >= s.len() || !in_class(k, s[i]) {
        i
    } else {
        run_end(s, i + 1, k)
    }
}

/// `lit` occurs in `s` at position `i`.
pub open spec fn occurs_at(s: Seq<char>, i: int, lit: Seq<char>) -> bool {
    &&& 0 <= i
    &&& i + lit.len() <= s.len()
    &&& s.subrange(i, i + lit.len()) == lit
}

/// Index of the first occurrence of `c` in `s` at or after `i`, or `s.len()`.
pub open spec fn find_from(s: Seq<char>, i: int, c: char) -> int
    decreases s.len() - i,
{
    if i < 0 || i >= s.len() || s[i] == c {
        i
    } else {
        find_from(s, i + 1, c)
    }
}

pub proof fn lemma_run_end_bounds(s: Seq<char>, i: int, k: CharClass)
    requires
        0 <= i <= s.len(),
    ensures
        i <= run_end(s, i, k) <= s.len(),
        forall|j: int| i <= j < run_end(s, i, k) ==> in_class(k, #[trigger] s[j]),
        run_end(s, i, k) < s.len() ==> !in_class(k, s[run_end(s, i, k)]),
    decreases s.len() - i,
{
    if i < s.len() && in_class(k, s[i]) {
        lemma_run_end_bounds(s, i + 1, k);
    }
}

pub proof fn lemma_find_from_bounds(s: Seq<char>, i: int, c: char)
    requires
        0 <= i <= s.len(),
    ensures
        i <= find_from(s, i, c) <= s.len(),
        forall|j: int| i <= j < find_from(s, i, c) ==> #[trigger] s[j] != c,
        find_from(s, i, c) < s.len() ==> s[find_from(s, i, c)] == c,
    decreases s.len() - i,
{
    if i < s.len() && s[i] != c {
        lemma_find_from_bounds(s, i + 1, c);
    }
}

pub fn is_ws_exec(c: char) -> (b: bool)
    ensures
        b == is_ws(c),
{
    ('\u{9}' <= c && c <= '\u{d}') || c == ' ' || c == '\u{85}' || c == '\u{a0}' || c
        == '\u{1680}' || ('\u{2000}' <= c && c <= '\u{200a}') || c == '\u{2028}' || c
        == '\u{2029}' || c == '\u{202f}' || c == '\u{205f}' || c == '\u{3000}'
}

pub fn is_ident_start_exec(c: char) -> (b: bool)
    ensures
        b == is_ident_start(c),
{
    ('a' <= c && c <= 'z') || ('A' <= c && c <= 'Z') || c == '_'
}

pub fn is_ident_char_exec(c: char) -> (b: bool)
    ensures
        b == is_ident_char(c),
{
    ('a' <= c && c <= 'z') || ('A' <= c && c <= 'Z') || ('0' <= c && c <= '9') || c == '_'
}

pub fn in_class_exec(k: CharClass, c: char) -> (b: bool)
    ensures
        b == in_class(k, c),
{
    match k {
        CharClass::Whitespace => is_ws_exec(c),
        CharClass::IdentChar => is_ident_char_exec(c),
        CharClass::SectionChar => is_ident_char_exec(c) || c == '-' || c == '.',
        CharClass::LinkChar => is_ident_char_exec(c) || c == '-' || c == '.' || c == '#' || c
            == '/',
        CharClass::Digit => '0' <= c && c <= '9',
        CharClass::NotWhitespace => !is_ws_exec(c),
        CharClass::NameChar => c != '[' && c != ']' && c != '\n',
        CharClass::Word => is_word_character(c),
        CharClass::DecimalDigit => is_decimal_digit(c),
    }
}

/// End of the maximal run of characters of class `k` starting at `i`.
pub fn run_end_exec(s: &[char], i: usize, k: CharClass) -> (r: usize)
    requires
        i <= s@.len(),
    ensures
        r == run_end(s@, i as int, k),
        i <= r <= s@.len(),
{
    proof {
        lemma_run_end_bounds(s@, i as int, k);
    }
    let mut j = i;
    while j < s.len() && in_class_exec(k, s[j])
        invariant
            i <= j <= s@.len(),
            run_end(s@, j as int, k) == run_end(s@, i as int, k),
        decreases s@.len() - j,
    {
        j = j + 1;
    }
    j
}

/// Index of the first `c` in `s` at or after `i`, or `s.len()`.
pub fn find_from_exec(s: &[char], i: usize, c: char) -> (r: usize)
    requires
        i <= s@.len(),
    ensures
        r == find_from(s@, i as int, c),
        i <= r <= s@.len(),
{
    proof {
        lemma_find_from_bounds(s@, i as int, c);
    }
    let mut j = i;
    while j < s.len() && s[j] != c
        invariant
            i <= j <= s@.len(),
            find_from(s@, j as int, c) == find_from(s@, i as int, c),
        decreases s@.len() - j,
    {
        j = j + 1;
    }
    j
}

/// `lit` occurs in `s` at position `i`.
pub fn occurs_at_exec(s: &[char], i: usize, lit: &[char]) -> (b: bool)
    ensures
        b == occurs_at(s@, i as int, lit@),
{
    if i > s.len() || lit.len() > s.len() - i {
        return false;
    }
    let mut j: usize = 0;
    while j < lit.len()
        invariant
            i + lit@.len() <= s@.len(),
            s@.len() == s.len(),
            0 <= j <= lit@.len(),
            forall|t: int| 0 <= t < j ==> s@[i + t] == lit@[t],
        decreases lit@.len() - j,
    {
        if s[i + j] != lit[j] {
            assert(s@.subrange(i as int, i + lit@.len())[j as int] != lit@[j as int]);
            return false;
        }
        j = j + 1;
    }
    assert(s@.subrange(i as int, i + lit@.len()) =~= lit@);
    true
}

/// Equality of two sequences of chars.
pub fn chars_eq(a: &[char], b: &[char]) -> (r: bool)
    ensures
        r == (a@ == b@),
{
    if a.len() != b.len() {
        return false;
    }
    let r = occurs_at_exec(a, 0, b);
    proof {
        if r {
            assert(a@ =~= a@.subrange(0, b@.len() as int));
        } else {
            assert(a@.subrange(0, b@.len() as int) =~= a@);
        }
    }
    r
}

/// The characters of `s[from..to]`.
pub fn sub_chars(s: &[char], from: usize, to: usize) -> (r: Vec<char>)
    requires
        from <= to <= s@.len(),
    ensures
        r@ == s@.subrange(from as int, to as int),
{
    let mut r: Vec<char> = Vec::new();
    let mut j = from;
    while j < to
        invariant
            from <= j <= to <= s@.len(),
            r@ == s@.subrange(from as int, j as int),
        decreases to - j,
    {
        r.push(s[j]);
        assert(r@ =~= s@.subrange(from as int, j + 1));
        j = j + 1;
    }
    r
}

/// Appends the characters of `b` to `a`.
pub fn extend_chars(a: &mut Vec<char>, b: &[char])
    ensures
        final(a)@ == old(a)@ + b@,
{
    let mut j: usize = 0;
    let ghost a0 = a@;
    while j < b.len()
        invariant
            0 <= j <= b@.len(),
            a@ == a0 + b@.subrange(0, j as int),
        decreases b@.len() - j,
    {
        a.push(b[j]);
        assert(a@ =~= a0 + b@.subrange(0, j + 1));
        j = j + 1;
    }
    assert(b@.subrange(0, b@.len() as int) =~= b@);
}

/// The characters of a string slice.
pub fn chars_of(s: &str) -> (r: Vec<char>)
    ensures
        r@ == s@,
{
    let n = s.unicode_len();
    let mut r: Vec<char> = Vec::new();
    let mut j: usize = 0;
    while j < n
        invariant
            n == s@.len(),
            0 <= j <= n,
            r@ == s@.subrange(0, j as int),
        decreases n - j,
    {
        r.push(s.get_char(j));
        assert(r@ =~= s@.subrange(0, j + 1));
        j = j + 1;
    }
    assert(s@.subrange(0, n as int) =~= s@);
    r
}

/// Appends `c` at the end of `s` by calling std's `String::push`. Trusted:
/// the contract claims, as std documents, that the characters of the string
/// afterwards are those before followed by `c`.
#[verifier::external_body]
fn push_char(s: &mut String, c: char)
    ensures
        final(s)@ == old(s)@.push(c),
{
    s.push(c);
}

/// The string made of the given characters.
pub fn string_of(v: &[char]) -> (r: String)
    ensures
        r@ == v@,
{
    let mut r = String::new();
    let mut j: usize = 0;
    while j < v.len()
        invariant
            0 <= j <= v@.len(),
            r@ == v@.subrange(0, j as int),
        decreases v@.len() - j,
    {
        push_char(&mut r, v[j]);
        assert(r@ =~= v@.subrange(0, j + 1));
        j = j + 1;
    }
    assert(v@.subrange(0, v@.len() as int) =~= v@);
    r
}

/// Whether the string `s` is a Rust identifier, see [`is_ident`].
pub fn is_rust_identifier(s: &str) -> (b: bool)
    ensures
        b == is_ident(s@),
{
    let c = chars_of(s);
    is_ident_exec(c.as_slice())
}

/// Whether `s` is a Rust identifier (`^[a-zA-Z_][a-zA-Z0-9_]*$`).
pub fn is_ident_exec(s: &[char]) -> (b: bool)
    ensures
        b == is_ident(s@),
{
    if s.len() == 0 || !is_ident_start_exec(s[0]) {
        return false;
    }
    let e = run_end_exec(s, 1, CharClass::IdentChar);
    proof {
        lemma_run_end_bounds(s@, 1, CharClass::IdentChar);
    }
    if e == s.len() {
        true
    } else {
        assert(!is_ident_char(s@[e as int]));
        false
    }
}

/// Whether `s` is an HTML section (`^#[a-zA-Z0-9_\-\.]+$`).
pub fn is_html_section_exec(s: &[char]) -> (b: bool)
    ensures
        b == is_html_section(s@),
{
    if s.len() < 2 || s[0] != '#' {
        return false;
    }
    let e = run_end_exec(s, 1, CharClass::SectionChar);
    proof {
        lemma_run_end_bounds(s@, 1, CharClass::SectionChar);
    }
    if e == s.len() {
        true
    } else {
        assert(!is_section_char(s@[e as int]));
        false
    }
}

} // verus!
