//! The grammars of whole lines of a Rust file that the tool looks for:
//!
//! - a Markdown link definition, `/// [name]: target` (the target made of
//!   link characters, optionally after `http:` or `https:`),
//! - a link definition whose name and target are the same (a local path,
//!   that rustdoc resolves without any target),
//! - the start of a block in which `Self` has a meaning: `struct`, `trait`,
//!   `impl`, `enum` or `union`, optionally public,
//! - empty doc comments and doc comment lines.
use vstd::prelude::*;
use crate::text::{
    CharClass, chars_of, find_from, find_from_exec, is_ws, lemma_find_from_bounds,
    lemma_run_end_bounds, occurs_at, occurs_at_exec, run_end, run_end_exec, sub_chars,
};

verus! {

/// A character of `\w`: a Unicode word character, see [`crate::text::unicode_word`].
pub open spec fn is_word(c: char) -> bool {
    crate::text::unicode_word(c)
}

/// Position after the leading whitespace and an optional doc comment
/// opener: `^\s*(?://[!/]\s*)?`.
pub open spec fn comment_open_end(s: Seq<char>) -> int {
    let w = run_end(s, 0, CharClass::Whitespace);
    if w + 3 <= s.len() && s[w] == '/' && s[w + 1] == '/' && (s[w + 2] == '!' || s[w + 2] == '/') {
        run_end(s, w + 3, CharClass::Whitespace)
    } else {
        w
    }
}

/// Start of the link characters of a target that starts at `l`, after an
/// optional `https:` or `http:`.
pub open spec fn target_chars_start(s: Seq<char>, l: int) -> int {
    if occurs_at(s, l, "https:"@) {
        l + 6
    } else if occurs_at(s, l, "http:"@) {
        l + 5
    } else {
        l
    }
}

/// End of a target that starts at `l`.
pub open spec fn target_end(s: Seq<char>, l: int) -> int {
    run_end(s, target_chars_start(s, l), CharClass::LinkChar)
}

/// A target starts at `l` and ends the line: `(?:https?:)?[a-zA-Z0-9_#/\-\.]+\n?$`.
pub open spec fn target_ends_line(s: Seq<char>, l: int) -> bool {
    let h = target_chars_start(s, l);
    let m = target_end(s, l);
    &&& m > h
    &&& (m == s.len() || (m + 1 == s.len() && s[m] == '\n'))
}

/// The first `]:` at or after `q`, without crossing a line feed, that is
/// followed by whitespace and a target ending the line.
pub open spec fn header_close(s: Seq<char>, q: int) -> Option<int>
    decreases s.len() - q,
{
    if q < 0 || q + 1 >= s.len() || s[q] == '\n' {
        None
    } else if s[q] == ']' && s[q + 1] == ':' && target_ends_line(
        s,
        run_end(s, q + 2, CharClass::Whitespace),
    ) {
        Some(q)
    } else {
        header_close(s, q + 1)
    }
}

/// A Markdown link definition: `^\s*(?://[!/]\s*)?\[.*?\]:\s*` (the
/// header), then a target ending the line. Gives the start and the end of
/// the name between the brackets, then the start and the end of the
/// target: the header is what comes before the target.
pub open spec fn link_to_treat_long(s: Seq<char>) -> Option<(int, int, int, int)> {
    let p0 = comment_open_end(s);
    if p0 < s.len() && s[p0] == '[' {
        match header_close(s, p0 + 1) {
            Some(q) => {
                let l = run_end(s, q + 2, CharClass::Whitespace);
                Some((p0 + 1, q, l, target_end(s, l)))
            },
            None => None,
        }
    } else {
        None
    }
}

pub proof fn lemma_header_close(s: Seq<char>, q: int)
    requires
        0 <= q,
    ensures
        header_close(s, q) matches Some(r) ==> q <= r && r + 1 < s.len() && s[r] == ']' && s[r
            + 1] == ':' && target_ends_line(s, run_end(s, r + 2, CharClass::Whitespace)),
    decreases s.len() - q,
{
    if q + 1 < s.len() && s[q] != '\n' && !(s[q] == ']' && s[q + 1] == ':' && target_ends_line(
        s,
        run_end(s, q + 2, CharClass::Whitespace),
    )) {
        lemma_header_close(s, q + 1);
    }
}

fn comment_open_end_exec(s: &[char]) -> (r: usize)
    ensures
        r == comment_open_end(s@),
        r <= s@.len(),
{
    let w = run_end_exec(s, 0, CharClass::Whitespace);
    if w < s.len() && s.len() - w >= 3 && s[w] == '/' && s[w + 1] == '/' && (s[w + 2] == '!'
        || s[w + 2] == '/') {
        run_end_exec(s, w + 3, CharClass::Whitespace)
    } else {
        w
    }
}

fn target_chars_start_exec(s: &[char], l: usize) -> (r: usize)
    requires
        l <= s@.len(),
    ensures
        r == target_chars_start(s@, l as int),
        l <= r <= s@.len(),
{
    let n = s.len();
    let https = chars_of("https:");
    let http = chars_of("http:");
    proof {
        reveal_strlit("https:");
        reveal_strlit("http:");
    }
    if occurs_at_exec(s, l, https.as_slice()) {
        l + 6
    } else if occurs_at_exec(s, l, http.as_slice()) {
        l + 5
    } else {
        l
    }
}

fn target_ends_line_exec(s: &[char], l: usize) -> (b: bool)
    requires
        l <= s@.len(),
    ensures
        b == target_ends_line(s@, l as int),
{
    let h = target_chars_start_exec(s, l);
    let m = run_end_exec(s, h, CharClass::LinkChar);
    m > h && (m == s.len() || (m < s.len() && m + 1 == s.len() && s[m] == '\n'))
}

fn header_close_exec(s: &[char], q0: usize) -> (r: Option<usize>)
    requires
        q0 <= s@.len(),
    ensures
        match r {
            Some(q) => header_close(s@, q0 as int) == Some(q as int),
            None => header_close(s@, q0 as int) is None,
        },
{
    let mut q = q0;
    while q < s.len()
        invariant
            q0 <= q <= s@.len(),
            header_close(s@, q as int) == header_close(s@, q0 as int),
        decreases s@.len() - q,
    {
        if q + 1 >= s.len() || s[q] == '\n' {
            return None;
        }
        if s[q] == ']' && s[q + 1] == ':' {
            let l = run_end_exec(s, q + 2, CharClass::Whitespace);
            if target_ends_line_exec(s, l) {
                return Some(q);
            }
        }
        q = q + 1;
    }
    None
}

/// The start and the end of the target of a link definition, see
/// [`link_to_treat_long`].
pub fn link_to_treat_long_exec(s: &[char]) -> (r: Option<(usize, usize, usize, usize)>)
    ensures
        match r {
            Some((a, b, l, m)) => link_to_treat_long(s@) == Some(
                (a as int, b as int, l as int, m as int),
            ) && a <= b <= l <= m <= s@.len(),
            None => link_to_treat_long(s@) is None,
        },
{
    let p0 = comment_open_end_exec(s);
    if p0 < s.len() && s[p0] == '[' {
        match header_close_exec(s, p0 + 1) {
            Some(q) => {
                proof {
                    lemma_header_close(s@, p0 + 1);
                }
                let l = run_end_exec(s, q + 2, CharClass::Whitespace);
                let h = target_chars_start_exec(s, l);
                let m = run_end_exec(s, h, CharClass::LinkChar);
                Some((p0 + 1, q, l, m))
            },
            None => None,
        }
    } else {
        None
    }
}

/// Whether `line` is a Markdown link definition whose target may become an
/// intra-doc link, see [`link_to_treat_long`].
pub fn is_link_to_treat_long(line: &str) -> (b: bool)
    ensures
        b == (link_to_treat_long(line@) is Some),
{
    let s = chars_of(line);
    link_to_treat_long_exec(s.as_slice()).is_some()
}

/// An inline Markdown link at `i`:
/// `\[(`?)(name)(`?)\]\((?:https?:)?[a-zA-Z0-9_#/\-\.]+\)`, the text
/// between the brackets a run of characters other than a bracket or a line
/// feed, whose first and last backticks, if any, surround a non-empty name.
/// Gives the start and the end of the name, the position of the `]`, and
/// the start and the end of the target.
pub open spec fn short_link_at(s: Seq<char>, i: int) -> Option<(int, int, int, int, int)> {
    if 0 <= i && i < s.len() && s[i] == '[' {
        let b = run_end(s, i + 1, CharClass::NameChar);
        let ns = if i + 1 < b && s[i + 1] == '`' {
            i + 2
        } else {
            i + 1
        };
        let ne = if ns < b && s[b - 1] == '`' {
            b - 1
        } else {
            b
        };
        let l = b + 2;
        let h = target_chars_start(s, l);
        let m = run_end(s, h, CharClass::LinkChar);
        if ne > ns && b + 1 < s.len() && s[b] == ']' && s[b + 1] == '(' && m > h && m < s.len()
            && s[m] == ')' {
            Some((ns, ne, b, l, m))
        } else {
            None
        }
    } else {
        None
    }
}

/// The bounds of an inline link found at `i`.
pub proof fn lemma_short_link_at(s: Seq<char>, i: int)
    ensures
        short_link_at(s, i) matches Some((ns, ne, b, l, m)) ==> {
            &&& 0 <= i < ns < ne <= b < l <= m < s.len()
            &&& s[i] == '['
            &&& s[b] == ']'
            &&& l == b + 2
            &&& s[m] == ')'
        },
{
}

/// The inline link at `i`, see [`short_link_at`].
pub fn short_link_at_exec(s: &[char], i: usize) -> (r: Option<(usize, usize, usize, usize, usize)>)
    ensures
        match r {
            Some((ns, ne, b, l, m)) => short_link_at(s@, i as int) == Some(
                (ns as int, ne as int, b as int, l as int, m as int),
            ),
            None => short_link_at(s@, i as int) is None,
        },
{
    let n = s.len();
    if !(i < n && s[i] == '[') {
        return None;
    }
    let b = run_end_exec(s, i + 1, CharClass::NameChar);
    let ns = if i + 1 < b && s[i + 1] == '`' {
        i + 2
    } else {
        i + 1
    };
    let ne = if ns < b && s[b - 1] == '`' {
        b - 1
    } else {
        b
    };
    if !(ne > ns && b < n && n - b > 1 && s[b] == ']' && s[b + 1] == '(') {
        return None;
    }
    let l = b + 2;
    let h = target_chars_start_exec(s, l);
    let m = run_end_exec(s, h, CharClass::LinkChar);
    if m > h && m < n && s[m] == ')' {
        Some((ns, ne, b, l, m))
    } else {
        None
    }
}

/// `s` has no line feed in `s[a..b]`.
pub open spec fn no_lf(s: Seq<char>, a: int, b: int) -> bool {
    forall|i: int| a <= i < b ==> #[trigger] s[i] != '\n'
}

/// The first `]:` or `` `]: `` at or after `q`, without crossing a line
/// feed: where the name of a link definition ends.
pub open spec fn name_close(s: Seq<char>, q: int) -> Option<int>
    decreases s.len() - q,
{
    if q < 0 || q >= s.len() || s[q] == '\n' {
        None
    } else if (s[q] == '`' && occurs_at(s, q + 1, "]:"@)) || occurs_at(s, q, "]:"@) {
        Some(q)
    } else {
        name_close(s, q + 1)
    }
}

/// A link definition seen as a name and a target, the backticks around the
/// name aside: `^\s*(?://[!/]\s*)?\[`?(.*?)`?\]:\s*(.*)\n?$`.
pub open spec fn local_path(s: Seq<char>) -> Option<(Seq<char>, Seq<char>)> {
    let p0 = comment_open_end(s);
    let b = if p0 + 1 < s.len() && s[p0 + 1] == '`' {
        p0 + 2
    } else {
        p0 + 1
    };
    if p0 < s.len() && s[p0] == '[' {
        match name_close(s, b) {
            Some(q) => {
                let after = if s[q] == '`' {
                    q + 3
                } else {
                    q + 2
                };
                let l = run_end(s, after, CharClass::Whitespace);
                let e = if s.len() > 0 && s.last() == '\n' {
                    s.len() - 1
                } else {
                    s.len() as int
                };
                if l <= e && no_lf(s, l, e) {
                    Some((s.subrange(b, q), s.subrange(l, e)))
                } else {
                    None
                }
            },
            None => None,
        }
    } else {
        None
    }
}

pub proof fn lemma_name_close(s: Seq<char>, q: int)
    requires
        0 <= q,
    ensures
        name_close(s, q) matches Some(r) ==> q <= r < s.len() && ((s[r] == '`' && occurs_at(
            s,
            r + 1,
            "]:"@,
        )) || occurs_at(s, r, "]:"@)),
    decreases s.len() - q,
{
    if q < s.len() && s[q] != '\n' && !((s[q] == '`' && occurs_at(s, q + 1, "]:"@)) || occurs_at(
        s,
        q,
        "]:"@,
    )) {
        lemma_name_close(s, q + 1);
    }
}

fn name_close_exec(s: &[char], q0: usize) -> (r: Option<usize>)
    requires
        q0 <= s@.len(),
    ensures
        match r {
            Some(q) => name_close(s@, q0 as int) == Some(q as int),
            None => name_close(s@, q0 as int) is None,
        },
{
    let close = chars_of("]:");
    let mut q = q0;
    while q < s.len()
        invariant
            q0 <= q <= s@.len(),
            close@ == "]:"@,
            name_close(s@, q as int) == name_close(s@, q0 as int),
        decreases s@.len() - q,
    {
        if s[q] == '\n' {
            return None;
        }
        if (s[q] == '`' && occurs_at_exec(s, q + 1, close.as_slice())) || occurs_at_exec(
            s,
            q,
            close.as_slice(),
        ) {
            return Some(q);
        }
        q = q + 1;
    }
    None
}

/// The name and the target of a link definition, see [`local_path`].
pub fn local_path_exec(s: &[char]) -> (r: Option<(Vec<char>, Vec<char>)>)
    ensures
        match r {
            Some((n, l)) => local_path(s@) == Some((n@, l@)),
            None => local_path(s@) is None,
        },
{
    let p0 = comment_open_end_exec(s);
    if !(p0 < s.len() && s[p0] == '[') {
        return None;
    }
    let b = if p0 + 1 < s.len() && s[p0 + 1] == '`' {
        p0 + 2
    } else {
        p0 + 1
    };
    let q = match name_close_exec(s, b) {
        Some(q) => q,
        None => {
            return None;
        },
    };
    proof {
        lemma_name_close(s@, b as int);
        reveal_strlit("]:");
        if occurs_at(s@, q as int, "]:"@) {
            assert(s@.subrange(q as int, q + 2)[0] == s@[q as int]);
        }
    }
    let after = if s[q] == '`' {
        q + 3
    } else {
        q + 2
    };
    let l = run_end_exec(s, after, CharClass::Whitespace);
    let e = if s.len() > 0 && s[s.len() - 1] == '\n' {
        s.len() - 1
    } else {
        s.len()
    };
    if l > e {
        return None;
    }
    let lf = find_from_exec(s, l, '\n');
    proof {
        lemma_find_from_bounds(s@, l as int, '\n');
    }
    if lf < e {
        assert(!no_lf(s@, l as int, e as int));
        return None;
    }
    Some((sub_chars(s, b, q), sub_chars(s, l, e)))
}

/// A `\w` character is at `p + 1` and a space at `p`: what must follow a
/// block keyword for the rest of a block start to match.
pub open spec fn cont_ok(s: Seq<char>, p: int) -> bool {
    &&& 0 <= p
    &&& p + 1 < s.len()
    &&& s[p] == ' '
    &&& is_word(s[p + 1])
}

/// ` .*? for` read from `g`: the first ` for` at or after `t` after which a
/// block may go on.
pub open spec fn for_search(s: Seq<char>, t: int) -> Option<int>
    decreases s.len() - t,
{
    if t < 0 || t + 4 > s.len() {
        None
    } else if occurs_at(s, t, " for"@) && cont_ok(s, t + 4) {
        Some(t + 4)
    } else {
        for_search(s, t + 1)
    }
}

pub open spec fn opt_or(a: Option<int>, b: Option<int>) -> Option<int> {
    if a is Some {
        a
    } else {
        b
    }
}

/// What may follow the generics of an `impl` ending at `g`: ` <trait> for`
/// first, nothing otherwise.
pub open spec fn after_generics(s: Seq<char>, g: int) -> Option<int> {
    opt_or(
        if 0 <= g < s.len() && s[g] == ' ' {
            for_search(s, g + 1)
        } else {
            None
        },
        if cont_ok(s, g) {
            Some(g)
        } else {
            None
        },
    )
}

/// `<.*?>` read from the `<`: the first `>` at or after `e` after which an
/// `impl` may go on.
pub open spec fn gen_search(s: Seq<char>, e: int) -> Option<int>
    decreases s.len() - e,
{
    if e < 0 || e >= s.len() {
        None
    } else if s[e] == '>' && after_generics(s, e + 1) is Some {
        after_generics(s, e + 1)
    } else {
        gen_search(s, e + 1)
    }
}

/// `impl(?:<.*?>)?(?: .*? for)?` at `k`, followed by ` \w`.
pub open spec fn impl_end(s: Seq<char>, k: int) -> Option<int> {
    let a = k + 4;
    opt_or(
        if 0 <= a < s.len() && s[a] == '<' {
            gen_search(s, a + 1)
        } else {
            None
        },
        after_generics(s, a),
    )
}

/// A block keyword at `k`, followed by ` \w`: gives the position of that
/// space.
pub open spec fn kw_end(s: Seq<char>, k: int) -> Option<int> {
    if occurs_at(s, k, "struct"@) && cont_ok(s, k + 6) {
        Some(k + 6)
    } else if occurs_at(s, k, "trait"@) && cont_ok(s, k + 5) {
        Some(k + 5)
    } else if occurs_at(s, k, "impl"@) {
        impl_end(s, k)
    } else if occurs_at(s, k, "enum"@) && cont_ok(s, k + 4) {
        Some(k + 4)
    } else if occurs_at(s, k, "union"@) && cont_ok(s, k + 5) {
        Some(k + 5)
    } else {
        None
    }
}

/// `pub(.+) ` at `w`, the `.+` as long as it can be: tries the `)` at `j`
/// and before.
pub open spec fn pub_paren_search(s: Seq<char>, w: int, j: int) -> Option<int>
    decreases j - w,
{
    if j < w + 5 {
        None
    } else if j + 1 < s.len() && s[j] == ')' && s[j + 1] == ' ' && kw_end(s, j + 2) is Some {
        kw_end(s, j + 2)
    } else {
        pub_paren_search(s, w, j - 1)
    }
}

/// `(?:pub(?:\(.+\))? )?` then a block keyword, at `w`.
pub open spec fn head_end(s: Seq<char>, w: int) -> Option<int> {
    opt_or(
        if occurs_at(s, w, "pub"@) && w + 3 < s.len() {
            opt_or(
                if s[w + 3] == '(' {
                    pub_paren_search(s, w, s.len() - 1)
                } else {
                    None
                },
                if s[w + 3] == ' ' {
                    kw_end(s, w + 4)
                } else {
                    None
                },
            )
        } else {
            None
        },
        kw_end(s, w),
    )
}

/// The start of a block where `Self` has a meaning:
/// `^(\s*)(?:pub(?:\(.+\))? )?(?:struct|trait|impl(?:<.*?>)?(?: .*? for)?|enum|union) (\w+)(?:<.*?>)?(\()?.*\n$`.
/// Gives the leading whitespace, the type and whether a `(` follows it.
pub open spec fn type_block_start(s: Seq<char>) -> Option<(Seq<char>, Seq<char>, bool)> {
    let w = run_end(s, 0, CharClass::Whitespace);
    if s.len() > 0 && s.last() == '\n' && w < s.len() && no_lf(s, w, s.len() - 1) && head_end(
        s,
        w,
    ) is Some {
        let p = head_end(s, w)->Some_0;
        let q = run_end(s, p + 1, CharClass::Word);
        let e = find_from(s, q + 1, '>');
        let paren = if q < s.len() && s[q] == '<' && e < s.len() {
            e + 1 < s.len() && s[e + 1] == '('
        } else {
            q < s.len() && s[q] == '('
        };
        Some((s.subrange(0, w), s.subrange(p + 1, q), paren))
    } else {
        None
    }
}

fn cont_ok_exec(s: &[char], p: usize) -> (b: bool)
    ensures
        b == cont_ok(s@, p as int),
{
    p < s.len() && s.len() - p > 1 && s[p] == ' ' && crate::text::is_word_character(s[p + 1])
}

fn for_search_exec(s: &[char], t0: usize) -> (r: Option<usize>)
    requires
        t0 <= s@.len(),
    ensures
        match r {
            Some(p) => for_search(s@, t0 as int) == Some(p as int),
            None => for_search(s@, t0 as int) is None,
        },
{
    let f = chars_of(" for");
    proof {
        reveal_strlit(" for");
    }
    let mut t = t0;
    while t < s.len() && s.len() - t >= 4
        invariant
            t0 <= t <= s@.len(),
            f@ == " for"@,
            for_search(s@, t as int) == for_search(s@, t0 as int),
        decreases s@.len() - t,
    {
        if occurs_at_exec(s, t, f.as_slice()) && cont_ok_exec(s, t + 4) {
            return Some(t + 4);
        }
        t = t + 1;
    }
    None
}

fn after_generics_exec(s: &[char], g: usize) -> (r: Option<usize>)
    requires
        g <= s@.len(),
    ensures
        match r {
            Some(p) => after_generics(s@, g as int) == Some(p as int),
            None => after_generics(s@, g as int) is None,
        },
{
    if g < s.len() && s[g] == ' ' {
        match for_search_exec(s, g + 1) {
            Some(p) => {
                return Some(p);
            },
            None => {},
        }
    }
    if cont_ok_exec(s, g) {
        Some(g)
    } else {
        None
    }
}

fn gen_search_exec(s: &[char], e0: usize) -> (r: Option<usize>)
    requires
        e0 <= s@.len(),
    ensures
        match r {
            Some(p) => gen_search(s@, e0 as int) == Some(p as int),
            None => gen_search(s@, e0 as int) is None,
        },
{
    let mut e = e0;
    while e < s.len()
        invariant
            e0 <= e <= s@.len(),
            gen_search(s@, e as int) == gen_search(s@, e0 as int),
        decreases s@.len() - e,
    {
        if s[e] == '>' {
            match after_generics_exec(s, e + 1) {
                Some(p) => {
                    return Some(p);
                },
                None => {},
            }
        }
        e = e + 1;
    }
    None
}

fn impl_end_exec(s: &[char], k: usize) -> (r: Option<usize>)
    requires
        k + 4 <= s@.len(),
    ensures
        match r {
            Some(p) => impl_end(s@, k as int) == Some(p as int),
            None => impl_end(s@, k as int) is None,
        },
{
    let n = s.len();
    let a = k + 4;
    if a < n && s[a] == '<' {
        match gen_search_exec(s, a + 1) {
            Some(p) => {
                return Some(p);
            },
            None => {},
        }
    }
    after_generics_exec(s, a)
}

fn kw_end_exec(s: &[char], k: usize) -> (r: Option<usize>)
    requires
        k <= s@.len(),
    ensures
        match r {
            Some(p) => kw_end(s@, k as int) == Some(p as int),
            None => kw_end(s@, k as int) is None,
        },
{
    proof {
        reveal_strlit("struct");
        reveal_strlit("trait");
        reveal_strlit("impl");
        reveal_strlit("enum");
        reveal_strlit("union");
    }
    let n = s.len();
    let st = chars_of("struct");
    let tr = chars_of("trait");
    let im = chars_of("impl");
    let en = chars_of("enum");
    let un = chars_of("union");
    if occurs_at_exec(s, k, st.as_slice()) && cont_ok_exec(s, k + 6) {
        Some(k + 6)
    } else if occurs_at_exec(s, k, tr.as_slice()) && cont_ok_exec(s, k + 5) {
        Some(k + 5)
    } else if occurs_at_exec(s, k, im.as_slice()) {
        impl_end_exec(s, k)
    } else if occurs_at_exec(s, k, en.as_slice()) && cont_ok_exec(s, k + 4) {
        Some(k + 4)
    } else if occurs_at_exec(s, k, un.as_slice()) && cont_ok_exec(s, k + 5) {
        Some(k + 5)
    } else {
        None
    }
}

fn pub_paren_search_exec(s: &[char], w: usize) -> (r: Option<usize>)
    requires
        w <= s@.len(),
        s@.len() > 0,
    ensures
        match r {
            Some(p) => pub_paren_search(s@, w as int, s@.len() - 1) == Some(p as int),
            None => pub_paren_search(s@, w as int, s@.len() - 1) is None,
        },
{
    let mut j: usize = s.len() - 1;
    while j >= w && j - w >= 5
        invariant
            w <= s@.len(),
            j < s@.len(),
            pub_paren_search(s@, w as int, j as int) == pub_paren_search(
                s@,
                w as int,
                s@.len() - 1,
            ),
        decreases j,
    {
        if s.len() - j > 1 && s[j] == ')' && s[j + 1] == ' ' {
            match kw_end_exec(s, j + 2) {
                Some(p) => {
                    return Some(p);
                },
                None => {},
            }
        }
        j = j - 1;
    }
    None
}

fn head_end_exec(s: &[char], w: usize) -> (r: Option<usize>)
    requires
        w <= s@.len(),
    ensures
        match r {
            Some(p) => head_end(s@, w as int) == Some(p as int),
            None => head_end(s@, w as int) is None,
        },
{
    let n = s.len();
    let pb = chars_of("pub");
    proof {
        reveal_strlit("pub");
    }
    if occurs_at_exec(s, w, pb.as_slice()) && w + 3 < s.len() {
        if s[w + 3] == '(' {
            match pub_paren_search_exec(s, w) {
                Some(p) => {
                    return Some(p);
                },
                None => {},
            }
        }
        if s[w + 3] == ' ' {
            match kw_end_exec(s, w + 4) {
                Some(p) => {
                    return Some(p);
                },
                None => {},
            }
        }
    }
    kw_end_exec(s, w)
}

pub proof fn lemma_kw_end_bounds(s: Seq<char>, k: int)
    requires
        0 <= k,
    ensures
        kw_end(s, k) matches Some(p) ==> cont_ok(s, p),
{
    if kw_end(s, k) is Some && !(occurs_at(s, k, "struct"@) && cont_ok(s, k + 6)) && !(occurs_at(
        s,
        k,
        "trait"@,
    ) && cont_ok(s, k + 5)) && occurs_at(s, k, "impl"@) {
        lemma_impl_end(s, k);
    }
}

pub proof fn lemma_for_search(s: Seq<char>, t: int)
    ensures
        for_search(s, t) matches Some(p) ==> cont_ok(s, p),
    decreases s.len() - t,
{
    if !(t < 0 || t + 4 > s.len()) && !(occurs_at(s, t, " for"@) && cont_ok(s, t + 4)) {
        lemma_for_search(s, t + 1);
    }
}

pub proof fn lemma_after_generics(s: Seq<char>, g: int)
    ensures
        after_generics(s, g) matches Some(p) ==> cont_ok(s, p),
{
    lemma_for_search(s, g + 1);
}

pub proof fn lemma_gen_search(s: Seq<char>, e: int)
    ensures
        gen_search(s, e) matches Some(p) ==> cont_ok(s, p),
    decreases s.len() - e,
{
    if !(e < 0 || e >= s.len()) {
        lemma_after_generics(s, e + 1);
        lemma_gen_search(s, e + 1);
    }
}

pub proof fn lemma_impl_end(s: Seq<char>, k: int)
    ensures
        impl_end(s, k) matches Some(p) ==> cont_ok(s, p),
{
    lemma_gen_search(s, k + 5);
    lemma_after_generics(s, k + 4);
}

pub proof fn lemma_pub_paren_search(s: Seq<char>, w: int, j: int)
    requires
        0 <= w,
    ensures
        pub_paren_search(s, w, j) matches Some(p) ==> cont_ok(s, p),
    decreases j - w,
{
    if j >= w + 5 {
        if s.len() - j > 1 && s[j] == ')' && s[j + 1] == ' ' {
            lemma_kw_end_bounds(s, j + 2);
        }
        lemma_pub_paren_search(s, w, j - 1);
    }
}

pub proof fn lemma_head_end(s: Seq<char>, w: int)
    requires
        0 <= w,
    ensures
        head_end(s, w) matches Some(p) ==> cont_ok(s, p),
{
    lemma_pub_paren_search(s, w, s.len() - 1);
    lemma_kw_end_bounds(s, w + 4);
    lemma_kw_end_bounds(s, w);
}

/// The leading whitespace, the type and whether a `(` follows it, of a line
/// that starts a type block, see [`type_block_start`].
pub fn type_block_start_exec(s: &[char]) -> (r: Option<(Vec<char>, Vec<char>, bool)>)
    ensures
        match r {
            Some((sp, ty, paren)) => type_block_start(s@) == Some((sp@, ty@, paren)),
            None => type_block_start(s@) is None,
        },
{
    if s.len() == 0 || s[s.len() - 1] != '\n' {
        return None;
    }
    let w = run_end_exec(s, 0, CharClass::Whitespace);
    if w >= s.len() {
        return None;
    }
    let lf = find_from_exec(s, w, '\n');
    proof {
        lemma_find_from_bounds(s@, w as int, '\n');
    }
    if lf < s.len() - 1 {
        assert(!no_lf(s@, w as int, s@.len() - 1));
        return None;
    }
    let p = match head_end_exec(s, w) {
        Some(p) => p,
        None => {
            return None;
        },
    };
    proof {
        lemma_head_end(s@, w as int);
    }
    let q = run_end_exec(s, p + 1, CharClass::Word);
    let paren = if q < s.len() && s[q] == '<' {
        let e = find_from_exec(s, q + 1, '>');
        if e < s.len() {
            e + 1 < s.len() && s[e + 1] == '('
        } else {
            false
        }
    } else {
        q < s.len() && s[q] == '('
    };
    Some((sub_chars(s, 0, w), sub_chars(s, p + 1, q), paren))
}

/// A doc comment line: `^\s*//[!/]`.
pub open spec fn is_doc_comment_line(s: Seq<char>) -> bool {
    let w = run_end(s, 0, CharClass::Whitespace);
    w + 3 <= s.len() && s[w] == '/' && s[w + 1] == '/' && (s[w + 2] == '!' || s[w + 2] == '/')
}

/// An empty doc comment line: `^\s*//[!/]\s*$`.
pub open spec fn is_empty_doc_comment(s: Seq<char>) -> bool {
    let w = run_end(s, 0, CharClass::Whitespace);
    is_doc_comment_line(s) && run_end(s, w + 3, CharClass::Whitespace) == s.len()
}

/// Inner (`//!`) and outer (`///`) doc comments are read alike: swapping
/// the one opener for the other, after any leading whitespace, changes
/// neither whether a line is a doc comment line nor whether it is an empty
/// one. Both openers make a doc comment line.
pub proof fn law_inner_and_outer_doc_comments_alike(ws: Seq<char>, rest: Seq<char>)
    requires
        forall|i: int| 0 <= i < ws.len() ==> crate::text::is_ws(#[trigger] ws[i]),
    ensures
        is_doc_comment_line(ws + seq!['/', '/', '/'] + rest),
        is_doc_comment_line(ws + seq!['/', '/', '!'] + rest),
        is_empty_doc_comment(ws + seq!['/', '/', '/'] + rest) == is_empty_doc_comment(
            ws + seq!['/', '/', '!'] + rest,
        ),
{
    let a = ws + seq!['/', '/', '/'] + rest;
    let b = ws + seq!['/', '/', '!'] + rest;
    lemma_ws_prefix_run(a, ws.len() as int);
    lemma_ws_prefix_run(b, ws.len() as int);
    lemma_same_run_after(a, b, ws.len() + 3int);
}

/// A run of whitespace that fills `s[..n]` and is followed by `/` ends at `n`.
proof fn lemma_ws_prefix_run(s: Seq<char>, n: int)
    requires
        0 <= n < s.len(),
        forall|i: int| 0 <= i < n ==> crate::text::is_ws(#[trigger] s[i]),
        s[n] == '/',
    ensures
        run_end(s, 0, CharClass::Whitespace) == n,
{
    lemma_run_end_bounds(s, 0, CharClass::Whitespace);
    let r = run_end(s, 0, CharClass::Whitespace);
    if r < n {
        assert(crate::text::is_ws(s[r]));
    }
    if r > n {
        assert(crate::text::in_class(CharClass::Whitespace, s[n]));
    }
}

/// Two sequences equal from `k` on, and as long, have the same whitespace
/// run from `k`.
proof fn lemma_same_run_after(a: Seq<char>, b: Seq<char>, k: int)
    requires
        0 <= k <= a.len(),
        a.len() == b.len(),
        forall|i: int| k <= i < a.len() ==> a[i] == b[i],
    ensures
        run_end(a, k, CharClass::Whitespace) == run_end(b, k, CharClass::Whitespace),
    decreases a.len() - k,
{
    if k < a.len() {
        lemma_same_run_after(a, b, k + 1);
    }
}

/// Whether `s` is a doc comment line, see [`is_doc_comment_line`].
pub fn is_doc_comment_line_exec(s: &[char]) -> (b: bool)
    ensures
        b == is_doc_comment_line(s@),
{
    let w = run_end_exec(s, 0, CharClass::Whitespace);
    w < s.len() && s.len() - w >= 3 && s[w] == '/' && s[w + 1] == '/' && (s[w + 2] == '!' || s[w
        + 2] == '/')
}

/// Whether `s` is an empty doc comment line, see [`is_empty_doc_comment`].
pub fn is_empty_doc_comment_exec(s: &[char]) -> (b: bool)
    ensures
        b == is_empty_doc_comment(s@),
{
    if !is_doc_comment_line_exec(s) {
        return false;
    }
    let n = s.len();
    let w = run_end_exec(s, 0, CharClass::Whitespace);
    run_end_exec(s, w + 3, CharClass::Whitespace) == s.len()
}

} // verus!
