//! The names that rustdoc gives to the pages and anchors it produces.
//!
//! - `#method.name` is an anchor to an associated item,
//! - `struct.Name.html`, optionally followed by an associated item anchor or
//!   a section, is the page of an item,
//! - `name` or `index.html`, optionally followed by a section, is the page
//!   of a module.
use vstd::prelude::*;
use crate::text::{
    CharClass, chars_eq, chars_of, find_from, find_from_exec, is_ascii_digit, is_decimal_digit,
    is_html_section, unicode_digit,
    is_html_section_exec, is_ident, is_ident_exec, is_ident_start, is_ident_start_exec,
    lemma_find_from_bounds, lemma_run_end_bounds, occurs_at, occurs_at_exec, run_end,
    run_end_exec,
};

verus! {

/// The item kinds that rustdoc uses as prefix of its pages and anchors.
pub open spec fn is_item_type(s: Seq<char>) -> bool {
    ||| s == "associatedconstant"@
    ||| s == "associatedtype"@
    ||| s == "attr"@
    ||| s == "constant"@
    ||| s == "derive"@
    ||| s == "enum"@
    ||| s == "externcrate"@
    ||| s == "fn"@
    ||| s == "foreigntype"@
    ||| s == "impl"@
    ||| s == "import"@
    ||| s == "keyword"@
    ||| s == "macro"@
    ||| s == "method"@
    ||| s == "mod"@
    ||| s == "opaque"@
    ||| s == "primitive"@
    ||| s == "static"@
    ||| s == "struct"@
    ||| s == "structfield"@
    ||| s == "trait"@
    ||| s == "traitalias"@
    ||| s == "tymethod"@
    ||| s == "type"@
    ||| s == "union"@
    ||| s == "variant"@
}

pub(crate) fn is_lit(s: &[char], lit: &str) -> (b: bool)
    ensures
        b == (s@ == lit@),
{
    let l = chars_of(lit);
    chars_eq(s, l.as_slice())
}

/// Whether `s` is one of the item kinds of rustdoc.
pub fn is_item_type_exec(s: &[char]) -> (b: bool)
    ensures
        b == is_item_type(s@),
{
    is_lit(s, "associatedconstant") || is_lit(s, "associatedtype") || is_lit(s, "attr")
        || is_lit(s, "constant") || is_lit(s, "derive") || is_lit(s, "enum") || is_lit(
        s,
        "externcrate",
    ) || is_lit(s, "fn") || is_lit(s, "foreigntype") || is_lit(s, "impl") || is_lit(
        s,
        "import",
    ) || is_lit(s, "keyword") || is_lit(s, "macro") || is_lit(s, "method") || is_lit(s, "mod")
        || is_lit(s, "opaque") || is_lit(s, "primitive") || is_lit(s, "static") || is_lit(
        s,
        "struct",
    ) || is_lit(s, "structfield") || is_lit(s, "trait") || is_lit(s, "traitalias") || is_lit(
        s,
        "tymethod",
    ) || is_lit(s, "type") || is_lit(s, "union") || is_lit(s, "variant")
}

/// `#kind.name`, an anchor to an associated item: `^#(kind)\.(ident)$`.
/// Gives the kind and the name.
pub open spec fn assoc_item_split(s: Seq<char>) -> Option<(Seq<char>, Seq<char>)> {
    let d = find_from(s, 1, '.');
    if s.len() >= 1 && s[0] == '#' && d < s.len() && is_item_type(s.subrange(1, d))
        && is_ident(s.subrange(d + 1, s.len() as int)) {
        Some((s.subrange(1, d), s.subrange(d + 1, s.len() as int)))
    } else {
        None
    }
}

/// What follows `.html` in the name of an item page.
#[derive(Clone, PartialEq, Eq, Debug)]
pub enum ItemTail<T> {
    /// Nothing.
    Nothing,
    /// `#kind.name`: an associated item of the item.
    Assoc(T, T),
    /// `#name`: a section of the page.
    Section(T),
}

/// `kind.Name.html` followed by nothing, an associated item or a section:
/// `^(kind)\.(ident)\.html(?:#(kind)\.(ident)|(#section))?$`.
/// Gives the kind, the name and what follows.
pub open spec fn item_file_split(s: Seq<char>) -> Option<(Seq<char>, Seq<char>, ItemTail<Seq<char>>)> {
    let d1 = find_from(s, 0, '.');
    let d2 = find_from(s, d1 + 1, '.');
    let rest = s.subrange(d2 + 5, s.len() as int);
    if d1 < s.len() && is_item_type(s.subrange(0, d1)) && d2 < s.len() && is_ident(
        s.subrange(d1 + 1, d2),
    ) && occurs_at(s, d2 + 1, "html"@) {
        let ty = s.subrange(0, d1);
        let name = s.subrange(d1 + 1, d2);
        if rest.len() == 0 {
            Some((ty, name, ItemTail::Nothing))
        } else if assoc_item_split(rest) is Some {
            let (t, n) = assoc_item_split(rest)->Some_0;
            Some((ty, name, ItemTail::Assoc(t, n)))
        } else if is_html_section(rest) {
            Some((ty, name, ItemTail::Section(rest.drop_first())))
        } else {
            None
        }
    } else {
        None
    }
}

/// `index.html`, where the `.` stands for any character but a line feed.
pub open spec fn starts_with_index_html(s: Seq<char>) -> bool {
    &&& occurs_at(s, 0, "index"@)
    &&& s.len() >= 10
    &&& s[5] != '\n'
    &&& occurs_at(s, 6, "html"@)
}

/// The page of a module: `^(?:index.html|(ident))(#section)?$`.
/// Gives the name of the module when it is written and the section when
/// there is one (without its `#`).
pub open spec fn module_file_split(s: Seq<char>) -> Option<(Option<Seq<char>>, Option<Seq<char>>)> {
    let k = run_end(s, 0, CharClass::IdentChar);
    if starts_with_index_html(s) && (s.len() == 10 || is_html_section(
        s.subrange(10, s.len() as int),
    )) {
        if s.len() == 10 {
            Some((None, None))
        } else {
            Some((None, Some(s.subrange(11, s.len() as int))))
        }
    } else if s.len() > 0 && is_ident_start(s[0]) && (k == s.len() || is_html_section(
        s.subrange(k, s.len() as int),
    )) {
        if k == s.len() {
            Some((Some(s), None))
        } else {
            Some((Some(s.subrange(0, k)), Some(s.subrange(k + 1, s.len() as int))))
        }
    } else {
        None
    }
}

/// `1\.\d+\.\d+` starting at `i`, `\d` a Unicode decimal digit.
pub open spec fn rust_version_at(s: Seq<char>, i: int) -> bool {
    let j = run_end(s, i + 2, CharClass::DecimalDigit);
    &&& 0 <= i
    &&& i + 1 < s.len()
    &&& s[i] == '1'
    &&& s[i + 1] == '.'
    &&& j > i + 2
    &&& j + 1 < s.len()
    &&& s[j] == '.'
    &&& unicode_digit(s[j + 1])
}

/// `s` holds a Rust version `1\.\d+\.\d+` somewhere.
pub open spec fn holds_rust_version(s: Seq<char>) -> bool {
    exists|i: int| rust_version_at(s, i)
}

/// A version as docs.rs writes it in its paths: `latest`, or three dotted
/// numbers (what follows them, such as a pre-release, is not looked at).
pub open spec fn is_docs_rs_version(s: Seq<char>) -> bool {
    let d1 = run_end(s, 0, CharClass::Digit);
    let d2 = run_end(s, d1 + 1, CharClass::Digit);
    let d3 = run_end(s, d2 + 1, CharClass::Digit);
    ||| s == "latest"@
    ||| (d1 > 0 && d1 < s.len() && s[d1] == '.' && d2 > d1 + 1 && d2 < s.len() && s[d2] == '.'
        && d3 > d2 + 1)
}

/// A release channel of the Rust documentation.
pub open spec fn is_channel(s: Seq<char>) -> bool {
    s == "nightly"@ || s == "beta"@ || s == "stable"@
}

/// A crate documented on doc.rust-lang.org.
pub open spec fn is_std_crate(s: Seq<char>) -> bool {
    s == "std"@ || s == "alloc"@ || s == "core"@ || s == "test"@ || s == "proc_macro"@
}

/// Splits an associated item anchor, see [`assoc_item_split`].
pub fn assoc_item_split_exec(s: &[char]) -> (r: Option<(Vec<char>, Vec<char>)>)
    ensures
        match r {
            Some((t, n)) => assoc_item_split(s@) == Some((t@, n@)),
            None => assoc_item_split(s@) is None,
        },
{
    if s.len() < 1 || s[0] != '#' {
        return None;
    }
    let d = find_from_exec(s, 1, '.');
    if d >= s.len() {
        return None;
    }
    let t = crate::text::sub_chars(s, 1, d);
    let n = crate::text::sub_chars(s, d + 1, s.len());
    if is_item_type_exec(t.as_slice()) && is_ident_exec(n.as_slice()) {
        Some((t, n))
    } else {
        None
    }
}

/// Splits the name of an item page, see [`item_file_split`].
pub fn item_file_split_exec(s: &[char]) -> (r: Option<(Vec<char>, Vec<char>, ItemTail<Vec<char>>)>)
    ensures
        match r {
            Some((t, n, tail)) => item_file_split(s@) == Some(
                (
                    t@,
                    n@,
                    match tail {
                        ItemTail::Nothing => ItemTail::Nothing,
                        ItemTail::Assoc(a, b) => ItemTail::Assoc(a@, b@),
                        ItemTail::Section(x) => ItemTail::Section(x@),
                    },
                ),
            ),
            None => item_file_split(s@) is None,
        },
{
    let d1 = find_from_exec(s, 0, '.');
    if d1 >= s.len() {
        return None;
    }
    let d2 = find_from_exec(s, d1 + 1, '.');
    if d2 >= s.len() {
        return None;
    }
    let ty = crate::text::sub_chars(s, 0, d1);
    let name = crate::text::sub_chars(s, d1 + 1, d2);
    let html = chars_of("html");
    if !(is_item_type_exec(ty.as_slice()) && is_ident_exec(name.as_slice()) && occurs_at_exec(
        s,
        d2 + 1,
        html.as_slice(),
    )) {
        return None;
    }
    proof {
        reveal_strlit("html");
    }
    let rest = crate::text::sub_chars(s, d2 + 5, s.len());
    if rest.len() == 0 {
        return Some((ty, name, ItemTail::Nothing));
    }
    match assoc_item_split_exec(rest.as_slice()) {
        Some((t, n)) => Some((ty, name, ItemTail::Assoc(t, n))),
        None => {
            if is_html_section_exec(rest.as_slice()) {
                let sec = crate::text::sub_chars(rest.as_slice(), 1, rest.len());
                assert(sec@ =~= rest@.drop_first());
                Some((ty, name, ItemTail::Section(sec)))
            } else {
                None
            }
        },
    }
}

fn starts_with_index_html_exec(s: &[char]) -> (b: bool)
    ensures
        b == starts_with_index_html(s@),
{
    let index = chars_of("index");
    let html = chars_of("html");
    occurs_at_exec(s, 0, index.as_slice()) && s.len() >= 10 && s[5] != '\n' && occurs_at_exec(
        s,
        6,
        html.as_slice(),
    )
}

/// Splits the name of a module page, see [`module_file_split`].
pub fn module_file_split_exec(s: &[char]) -> (r: Option<(Option<Vec<char>>, Option<Vec<char>>)>)
    ensures
        match r {
            Some((n, sec)) => module_file_split(s@) == Some(
                (
                    match n {
                        Some(x) => Some(x@),
                        None => None,
                    },
                    match sec {
                        Some(x) => Some(x@),
                        None => None,
                    },
                ),
            ),
            None => module_file_split(s@) is None,
        },
{
    if starts_with_index_html_exec(s) {
        if s.len() == 10 {
            return Some((None, None));
        }
        let rest = crate::text::sub_chars(s, 10, s.len());
        if is_html_section_exec(rest.as_slice()) {
            return Some((None, Some(crate::text::sub_chars(s, 11, s.len()))));
        }
    }
    if s.len() == 0 || !is_ident_start_exec(s[0]) {
        return None;
    }
    let k = run_end_exec(s, 0, CharClass::IdentChar);
    if k == s.len() {
        assert(s@.subrange(0, s@.len() as int) =~= s@);
        return Some((Some(crate::text::sub_chars(s, 0, s.len())), None));
    }
    let rest = crate::text::sub_chars(s, k, s.len());
    if is_html_section_exec(rest.as_slice()) {
        Some((Some(crate::text::sub_chars(s, 0, k)), Some(crate::text::sub_chars(s, k + 1, s.len()))))
    } else {
        None
    }
}

fn rust_version_at_exec(s: &[char], i: usize) -> (b: bool)
    ensures
        b == rust_version_at(s@, i as int),
{
    if i >= s.len() || s.len() - i < 2 || s[i] != '1' || s[i + 1] != '.' {
        return false;
    }
    let j = run_end_exec(s, i + 2, CharClass::DecimalDigit);
    j > i + 2 && j < s.len() - 1 && s[j] == '.' && is_decimal_digit(s[j + 1])
}

/// Whether `s` holds a Rust version somewhere, see [`holds_rust_version`].
pub fn holds_rust_version_exec(s: &[char]) -> (b: bool)
    ensures
        b == holds_rust_version(s@),
{
    let mut i: usize = 0;
    while i < s.len()
        invariant
            0 <= i <= s@.len(),
            forall|j: int| 0 <= j < i ==> !rust_version_at(s@, j),
        decreases s@.len() - i,
    {
        if rust_version_at_exec(s, i) {
            return true;
        }
        i = i + 1;
    }
    assert forall|j: int| !rust_version_at(s@, j) by {
        if 0 <= j < i {
        }
    }
    false
}

/// Whether `s` is a docs.rs version, see [`is_docs_rs_version`].
pub fn is_docs_rs_version_exec(s: &[char]) -> (b: bool)
    ensures
        b == is_docs_rs_version(s@),
{
    if is_lit(s, "latest") {
        return true;
    }
    let d1 = run_end_exec(s, 0, CharClass::Digit);
    if d1 == 0 || d1 >= s.len() || s[d1] != '.' {
        return false;
    }
    let d2 = run_end_exec(s, d1 + 1, CharClass::Digit);
    if d2 <= d1 + 1 || d2 >= s.len() || s[d2] != '.' {
        return false;
    }
    let d3 = run_end_exec(s, d2 + 1, CharClass::Digit);
    d3 > d2 + 1
}

/// Whether `s` is a release channel, see [`is_channel`].
pub fn is_channel_exec(s: &[char]) -> (b: bool)
    ensures
        b == is_channel(s@),
{
    is_lit(s, "nightly") || is_lit(s, "beta") || is_lit(s, "stable")
}

/// Whether `s` is a crate of doc.rust-lang.org, see [`is_std_crate`].
pub fn is_std_crate_exec(s: &[char]) -> (b: bool)
    ensures
        b == is_std_crate(s@),
{
    is_lit(s, "std") || is_lit(s, "alloc") || is_lit(s, "core") || is_lit(s, "test") || is_lit(
        s,
        "proc_macro",
    )
}

} // verus!
