//! A one-pass conversion of a line, driven by the crate name only: links to
//! item pages and to module index pages are rewritten in place, links to
//! associated items go through the type of the current block, and links
//! whose name and target agree are removed.
//!
//! Each grammar below is that of an anchored pattern over a whole line
//! ending with `\n`; where a pattern could be read in several ways, the
//! reading chosen is the one a backtracking matcher finds first: lazy parts
//! as short as possible, greedy parts as long as possible, earlier parts
//! deciding first.
use vstd::prelude::*;
use crate::grammar::{is_item_type, is_item_type_exec};
use crate::lines::{no_lf, type_block_start, type_block_start_exec};
use crate::link_parts::opt_string_view;
use crate::transform::{block_end, ends_with_exec, starts_with};
use crate::text::{
    CharClass, chars_eq, chars_of, extend_chars, find_from, find_from_exec, lemma_find_from_bounds,
    lemma_run_end_bounds, occurs_at, occurs_at_exec, run_end, run_end_exec, string_of, sub_chars,
};

verus! {

/// The start of a line: whitespace, then optionally `//!` or `///` and one
/// space: `^\s*(?://[!/] )?`. Gives where what follows starts.
pub open spec fn opener_end(s: Seq<char>) -> int {
    let w = run_end(s, 0, CharClass::Whitespace);
    if w + 4 <= s.len() && s[w] == '/' && s[w + 1] == '/' && (s[w + 2] == '!' || s[w + 2] == '/')
        && s[w + 3] == ' ' {
        w + 4
    } else {
        w
    }
}

/// What may follow `.html` at `t`: `(?:#kind\.(\S*))?\n$`. Gives the
/// associated item, if any.
pub open spec fn html_tail(s: Seq<char>, t: int) -> Option<Option<(int, int)>> {
    let d = find_from(s, t + 1, '.');
    let e = run_end(s, d + 1, CharClass::NotWhitespace);
    if 0 <= t && t < s.len() && s[t] == '#' && d < s.len() && is_item_type(s.subrange(t + 1, d))
        && e + 1 == s.len() && s[e] == '\n' {
        Some(Some((d + 1, e)))
    } else if 0 <= t && t + 1 == s.len() && s[t] == '\n' {
        Some(None)
    } else {
        None
    }
}

/// `(.*)\.html` then [`html_tail`], the name starting at `y`: the `.html`
/// at `k` and before are tried, the last one first.
pub open spec fn elem_search(s: Seq<char>, y: int, k: int) -> Option<(int, Option<(int, int)>)>
    decreases k - y + 1,
{
    if k < y {
        None
    } else if no_lf(s, y, k) && occurs_at(s, k, ".html"@) && html_tail(s, k + 5) is Some {
        Some((k, html_tail(s, k + 5)->Some_0))
    } else {
        elem_search(s, y, k - 1)
    }
}

/// An item page name at `x`: `kind\.(.*)\.html` and what follows. Gives the
/// start and the end of the name, and the associated item.
pub open spec fn item_at(s: Seq<char>, x: int) -> Option<(int, int, Option<(int, int)>)> {
    let d = find_from(s, x, '.');
    if 0 <= x <= s.len() && d < s.len() && is_item_type(s.subrange(x, d)) {
        match elem_search(s, d + 1, s.len() as int) {
            Some((k, tail)) => Some((d + 1, k, tail)),
            None => None,
        }
    } else {
        None
    }
}

/// A module index page at `m`: `index\.html(#.+)?\n$`. Gives the section,
/// `#` included, if any.
pub open spec fn index_tail(s: Seq<char>, m: int) -> Option<Option<(int, int)>> {
    let t = m + 10;
    if 0 <= m && occurs_at(s, m, "index.html"@) {
        if t + 3 <= s.len() && s[t] == '#' && no_lf(s, t + 1, s.len() - 1) && s[s.len() - 1]
            == '\n' {
            Some(Some((t, s.len() - 1)))
        } else if t + 1 == s.len() && s[t] == '\n' {
            Some(None)
        } else {
            None
        }
    } else {
        None
    }
}

/// The page a link points to: an item page or a module index page.
#[derive(Clone, Copy, PartialEq, Eq, Debug)]
pub enum Page {
    Item,
    Index,
}

/// The page name at `x`: for an item, the start and the end of its name
/// and its associated item; for an index, where it starts and ends and its
/// section.
pub open spec fn page_at(s: Seq<char>, x: int, kind: Page) -> Option<(int, int, Option<(int, int)>)> {
    match kind {
        Page::Item => item_at(s, x),
        Page::Index => match index_tail(s, x) {
            Some(sec) => Some((x, x + 10, sec)),
            None => None,
        },
    }
}

/// Modules ending with `/` from `c`, then the page name: `(?:.*/)?` before
/// an item, `(?:.*?/)*` before an index, both of which read here as the
/// longest run of modules after which the page reads. The `/` at `j` and
/// before are tried, the last one first, then no module at all. Gives the
/// end of the modules, if any, and the page.
pub open spec fn inter_search(s: Seq<char>, c: int, j: int, kind: Page) -> Option<
    (Option<int>, (int, int, Option<(int, int)>)),
>
    decreases j - c + 1,
{
    if j < c {
        match page_at(s, c, kind) {
            Some(it) => Some((None, it)),
            None => None,
        }
    } else if 0 <= j < s.len() && s[j] == '/' && no_lf(s, c, j) && page_at(s, j + 1, kind) is Some {
        Some((Some(j + 1), page_at(s, j + 1, kind)->Some_0))
    } else {
        inter_search(s, c, j - 1, kind)
    }
}

/// The crate name and a `/` at `a`, when what follows them reads.
pub open spec fn crate_at(s: Seq<char>, a: int, krate: Seq<char>, kind: Page) -> bool {
    let c = a + krate.len() + 1;
    occurs_at(s, a, krate) && c <= s.len() && s[c - 1] == '/' && inter_search(
        s,
        c,
        s.len() - 1,
        kind,
    ) is Some
}

/// `(?:(krate)/)?` at `a`, then the rest of an item link. Gives whether the
/// crate is there, where what follows it starts, and the rest.
pub open spec fn crate_try(s: Seq<char>, a: int, krate: Seq<char>, kind: Page) -> Option<
    (bool, int, Option<int>, (int, int, Option<(int, int)>)),
> {
    let c = a + krate.len() + 1;
    if crate_at(s, a, krate, kind) {
        let r = inter_search(s, c, s.len() - 1, kind)->Some_0;
        Some((true, c, r.0, r.1))
    } else {
        match inter_search(s, a, s.len() - 1, kind) {
            Some(r) => Some((false, a, r.0, r.1)),
            None => None,
        }
    }
}

/// The number of `../` in a row at `b`.
pub open spec fn dotdot_run(s: Seq<char>, b: int) -> int
    decreases s.len() - b,
{
    if 0 <= b && b + 3 <= s.len() && occurs_at(s, b, "../"@) {
        1 + dotdot_run(s, b + 3)
    } else {
        0
    }
}

/// `(?:\.\./)*` at `b`, `n` of them and fewer tried, the most first.
pub open spec fn supers_try(s: Seq<char>, b: int, n: int, krate: Seq<char>, kind: Page) -> Option<
    (int, (bool, int, Option<int>, (int, int, Option<(int, int)>))),
>
    decreases n + 1,
{
    if n < 0 {
        None
    } else if crate_try(s, b + 3 * n, krate, kind) is Some {
        Some((n, crate_try(s, b + 3 * n, krate, kind)->Some_0))
    } else {
        supers_try(s, b, n - 1, krate, kind)
    }
}

/// The reading of a link to a page, see [`page_link`].
pub type ItemLink = (int, (int, (bool, int, Option<int>, (int, int, Option<(int, int)>))));

/// The first `]: ` at or after `q`, without crossing a line feed, after
/// which an item link reads.
pub open spec fn link_from(s: Seq<char>, q: int, krate: Seq<char>, kind: Page) -> Option<ItemLink>
    decreases s.len() - q,
{
    if q < 0 || q + 3 > s.len() || s[q] == '\n' {
        None
    } else if occurs_at(s, q, "]: "@) && supers_try(s, q + 3, dotdot_run(s, q + 3), krate, kind)
        is Some {
        Some((q, supers_try(s, q + 3, dotdot_run(s, q + 3), krate, kind)->Some_0))
    } else {
        link_from(s, q + 1, krate, kind)
    }
}

/// A link to an item page,
/// `^(\s*(?://[!/] )?\[.*?\]: )((?:\.\./)*)(?:(krate)/)?((?:.*/))?(?:kind)\.(.*)\.html(?:#(?:kind)\.(\S*))?\n$`,
/// or to a module index page,
/// `^(\s*(?://[!/] )?\[.*?\]: )((?:\.\./)*)(?:(krate)/)?((?:.*?/)*)index\.html(#.+)?\n$`.
/// Gives the end of the name (the `]`), the number of `../`, whether the
/// crate is named, where the modules start and end, and the page.
pub open spec fn page_link(s: Seq<char>, krate: Seq<char>, kind: Page) -> Option<ItemLink> {
    let p0 = opener_end(s);
    if p0 < s.len() && s[p0] == '[' {
        link_from(s, p0 + 1, krate, kind)
    } else {
        None
    }
}

/// `/` written `::`.
pub open spec fn colons(t: Seq<char>) -> Seq<char>
    decreases t.len(),
{
    if t.len() == 0 {
        seq![]
    } else {
        colons(t.drop_last()) + if t.last() == '/' {
            seq![':', ':']
        } else {
            seq![t.last()]
        }
    }
}

/// `t` without its trailing `::`, as many as there are.
pub open spec fn trim_colons(t: Seq<char>) -> Seq<char>
    decreases t.len(),
{
    if t.len() >= 2 && t[t.len() - 2] == ':' && t[t.len() - 1] == ':' {
        trim_colons(t.subrange(0, t.len() - 2))
    } else {
        t
    }
}

/// `super::`, `n` times.
pub open spec fn supers_text(n: nat) -> Seq<char>
    decreases n,
{
    if n == 0 {
        seq![]
    } else {
        supers_text((n - 1) as nat) + "super::"@
    }
}

/// The start of a rewritten path: `crate::` when the crate is named, else
/// one `super::` per `../`.
pub open spec fn root_text(named: bool, n: int) -> Seq<char> {
    if named {
        "crate::"@
    } else {
        supers_text(n as nat)
    }
}

/// The line an item link becomes: its header, the start of the path, the
/// intermediate modules with `::` (none for `./`), the item, and its
/// associated item.
pub open spec fn item_text(s: Seq<char>, m: ItemLink) -> Seq<char> {
    let (q, (n, (named, c, ie, (y, e, tail)))) = m;
    let inter = match ie {
        Some(j) => if s.subrange(c, j) == "./"@ {
            seq![]
        } else {
            colons(s.subrange(c, j))
        },
        None => seq![],
    };
    let add = match tail {
        Some((a, b)) => "::"@ + s.subrange(a, b),
        None => seq![],
    };
    s.subrange(0, q + 3) + root_text(named, n) + inter + s.subrange(y, e) + add + seq!['\n']
}

/// The line a module index link becomes: its header, the start of the
/// path, the modules with `::` and its section; `None` when the link has
/// neither modules nor section (a link to the current module).
pub open spec fn index_text(s: Seq<char>, m: ItemLink) -> Option<Seq<char>> {
    let (q, (n, (named, c, ie, (x, e, sec)))) = m;
    let mods = match ie {
        Some(j) => s.subrange(c, j),
        None => seq![],
    };
    let section = match sec {
        Some((a, b)) => s.subrange(a, b),
        None => seq![],
    };
    if mods.len() == 0 && section.len() == 0 {
        None
    } else {
        Some(s.subrange(0, q + 3) + root_text(named, n) + trim_colons(colons(mods)) + section + seq!['\n'])
    }
}

/// An associated item anchor at `t`: `#(?:kind)\.([\w_]+)\n$`. Gives its
/// name.
pub open spec fn anchor_tail(s: Seq<char>, t: int) -> Option<(int, int)> {
    let d = find_from(s, t + 1, '.');
    let e = run_end(s, d + 1, CharClass::Word);
    if 0 <= t < s.len() && s[t] == '#' && d < s.len() && is_item_type(s.subrange(t + 1, d)) && e
        > d + 1 && e + 1 == s.len() && s[e] == '\n' {
        Some((d + 1, e))
    } else {
        None
    }
}

/// The first `]: ` at or after `q`, without crossing a line feed, followed
/// by an associated item anchor.
pub open spec fn anchor_from(s: Seq<char>, q: int) -> Option<(int, (int, int))>
    decreases s.len() - q,
{
    if q < 0 || q + 3 > s.len() || s[q] == '\n' {
        None
    } else if occurs_at(s, q, "]: "@) && anchor_tail(s, q + 3) is Some {
        Some((q, anchor_tail(s, q + 3)->Some_0))
    } else {
        anchor_from(s, q + 1)
    }
}

/// A link to an associated item of the current type:
/// `^(\s*(?://[!/] )?\[.*?\]: )#(?:kind)\.([\w_]+)\n$`. Gives the end of the
/// name and the associated item.
pub open spec fn method_anchor(s: Seq<char>) -> Option<(int, (int, int))> {
    let p0 = opener_end(s);
    if p0 < s.len() && s[p0] == '[' {
        anchor_from(s, p0 + 1)
    } else {
        None
    }
}

/// From `t`, the rest of the line: no line feed until the last character,
/// which is one.
pub open spec fn line_rest(s: Seq<char>, t: int) -> bool {
    0 <= t && t + 1 <= s.len() && no_lf(s, t, s.len() - 1) && s[s.len() - 1] == '\n'
}

/// The end of the name of a link at or after `i`, without crossing a line
/// feed, with an optional backtick: `` `?\]: (.*)\n$ ``. Gives the end of
/// the name and the start of the target.
pub open spec fn local_close(s: Seq<char>, i: int) -> Option<(int, int)>
    decreases s.len() - i,
{
    if i < 0 || i >= s.len() || s[i] == '\n' {
        None
    } else if s[i] == '`' && occurs_at(s, i + 1, "]: "@) && line_rest(s, i + 4) {
        Some((i, i + 4))
    } else if occurs_at(s, i, "]: "@) && line_rest(s, i + 3) {
        Some((i, i + 3))
    } else {
        local_close(s, i + 1)
    }
}

/// A link seen as its name and its target, the backticks around the name
/// aside: `` ^\s*(?://[!/] )?\[`?(.*?)`?\]: (.*)\n$ ``.
pub open spec fn check_local(s: Seq<char>) -> Option<(Seq<char>, Seq<char>)> {
    let p0 = opener_end(s);
    let b = if p0 + 1 < s.len() && s[p0 + 1] == '`' {
        p0 + 2
    } else {
        p0 + 1
    };
    if p0 < s.len() && s[p0] == '[' {
        match local_close(s, b) {
            Some((i, t)) => Some((s.subrange(b, i), s.subrange(t, s.len() - 1))),
            None => None,
        }
    } else {
        None
    }
}

/// Whitespace at `t` (at least one), then an `http://` or `https://` URL
/// ending the line.
pub open spec fn http_after(s: Seq<char>, t: int) -> bool {
    let r = run_end(s, t, CharClass::Whitespace);
    &&& r > t
    &&& ((occurs_at(s, r, "https://"@) && line_rest(s, r + 8)) || (occurs_at(s, r, "http://"@)
        && line_rest(s, r + 7)))
}

/// Some `]:` at or after `q`, without crossing a line feed, followed by an
/// URL.
pub open spec fn http_from(s: Seq<char>, q: int) -> bool
    decreases s.len() - q,
{
    if q < 0 || q + 2 > s.len() || s[q] == '\n' {
        false
    } else if occurs_at(s, q, "]:"@) && http_after(s, q + 2) {
        true
    } else {
        http_from(s, q + 1)
    }
}

/// A link to a web page: `^\s*(?://[!/] )?\[.*?\]:\s+https?://.*\n$`.
pub open spec fn is_http_link(s: Seq<char>) -> bool {
    let p0 = opener_end(s);
    p0 < s.len() && s[p0] == '[' && http_from(s, p0 + 1)
}

/// A line once its item link (if any) is rewritten.
pub open spec fn after_items(s: Seq<char>, krate: Seq<char>) -> Seq<char> {
    match page_link(s, krate, Page::Item) {
        Some(m) => item_text(s, m),
        None => s,
    }
}

/// A line once its module index link (if any) is rewritten; `None` when
/// the line is to be removed.
pub open spec fn after_indexes(s: Seq<char>, krate: Seq<char>) -> Option<Seq<char>> {
    match page_link(s, krate, Page::Index) {
        Some(m) => index_text(s, m),
        None => Some(s),
    }
}

/// A line once its associated item anchor (if any) goes through the type
/// `curr` (when there is one).
pub open spec fn after_anchor(s: Seq<char>, curr: Option<Seq<char>>) -> Seq<char> {
    match (method_anchor(s), curr) {
        (Some((q, (a, b))), Some(ty)) => s.subrange(0, q + 3) + ty + "::"@ + s.subrange(a, b) + seq![
            '\n',
        ],
        _ => s,
    }
}

/// What [`check`] makes of `line`: the new line, then the new type of the
/// current block and the start of the line that ends it. A web link is
/// kept; a line that starts a type block is kept and makes it current;
/// else item and index links are rewritten, an anchor goes through the
/// current type, the block ends on a line that starts with its end marker,
/// and a link whose name and target agree is removed (an empty line).
pub open spec fn spec_check(
    line: Seq<char>,
    krate: Seq<char>,
    curr: Option<Seq<char>>,
    end: Seq<char>,
) -> (Seq<char>, Option<Seq<char>>, Seq<char>) {
    if is_http_link(line) {
        (line, curr, end)
    } else if type_block_start(line) is Some {
        let (sp, ty, paren) = type_block_start(line)->Some_0;
        (line, Some(ty), block_end(line, sp, paren))
    } else {
        match after_indexes(after_items(line, krate), krate) {
            None => (seq![], curr, end),
            Some(new2) => {
                let new3 = after_anchor(new2, curr);
                let closes = curr is Some && starts_with(new3, end);
                let out = match check_local(new3) {
                    Some((x, y)) => if x == y {
                        seq![]
                    } else {
                        new3
                    },
                    None => new3,
                };
                if closes {
                    (out, None, seq![])
                } else {
                    (out, curr, end)
                }
            },
        }
    }
}

/// A pair of positions as integers.
pub open spec fn ipair(p: Option<(usize, usize)>) -> Option<(int, int)> {
    match p {
        Some((a, b)) => Some((a as int, b as int)),
        None => None,
    }
}

/// A position as an integer.
pub open spec fn ipos(p: Option<usize>) -> Option<int> {
    match p {
        Some(a) => Some(a as int),
        None => None,
    }
}

/// An item page reading with integer positions.
pub open spec fn iitem(it: (usize, usize, Option<(usize, usize)>)) -> (int, int, Option<(int, int)>) {
    (it.0 as int, it.1 as int, ipair(it.2))
}

proof fn lemma_elem_search(s: Seq<char>, y: int, k: int)
    requires
        0 <= y,
    ensures
        elem_search(s, y, k) matches Some((e, tail)) ==> y <= e && e + 5 <= s.len() && match tail {
            Some((a, b)) => e + 5 < a <= b < s.len(),
            None => true,
        },
    decreases k - y + 1,
{
    if k >= y {
        if !(no_lf(s, y, k) && occurs_at(s, k, ".html"@) && html_tail(s, k + 5) is Some) {
            lemma_elem_search(s, y, k - 1);
        } else {
            reveal_strlit(".html");
            let t = k + 5;
            if t < s.len() {
                lemma_find_from_bounds(s, t + 1, '.');
                let d = find_from(s, t + 1, '.');
                if d < s.len() {
                    lemma_run_end_bounds(s, d + 1, CharClass::NotWhitespace);
                }
            }
        }
    }
}

proof fn lemma_item_at(s: Seq<char>, x: int)
    requires
        0 <= x <= s.len(),
    ensures
        item_at(s, x) matches Some((y, e, tail)) ==> x < y <= e && e + 5 <= s.len() && match tail {
            Some((a, b)) => e + 5 < a <= b < s.len(),
            None => true,
        },
{
    lemma_find_from_bounds(s, x, '.');
    let d = find_from(s, x, '.');
    if d < s.len() {
        lemma_elem_search(s, d + 1, s.len() as int);
    }
}

proof fn lemma_page_at(s: Seq<char>, x: int, kind: Page)
    requires
        0 <= x <= s.len(),
    ensures
        page_at(s, x, kind) matches Some((y, e, tail)) ==> x <= y && y <= e && e <= s.len() && match tail {
            Some((a, b)) => e <= a <= b <= s.len(),
            None => true,
        },
{
    match kind {
        Page::Item => lemma_item_at(s, x),
        Page::Index => {
            reveal_strlit("index.html");
        },
    }
}

proof fn lemma_inter_search(s: Seq<char>, c: int, j: int, kind: Page)
    requires
        0 <= c <= s.len(),
    ensures
        inter_search(s, c, j, kind) matches Some((ie, (y, e, tail))) ==> c <= y && y <= e && e
            <= s.len() && match ie {
            Some(m) => c < m <= y,
            None => true,
        } && match tail {
            Some((a, b)) => e <= a <= b <= s.len(),
            None => true,
        },
    decreases j - c + 1,
{
    if j < c {
        lemma_page_at(s, c, kind);
    } else if 0 <= j < s.len() && s[j] == '/' && no_lf(s, c, j) && page_at(s, j + 1, kind) is Some {
        lemma_page_at(s, j + 1, kind);
    } else {
        lemma_inter_search(s, c, j - 1, kind);
    }
}

fn opener_end_exec(s: &[char]) -> (r: usize)
    ensures
        r == opener_end(s@),
        r <= s@.len(),
{
    let n = s.len();
    let w = run_end_exec(s, 0, CharClass::Whitespace);
    if n - w >= 4 && s[w] == '/' && s[w + 1] == '/' && (s[w + 2] == '!' || s[w + 2] == '/')
        && s[w + 3] == ' ' {
        w + 4
    } else {
        w
    }
}

fn html_tail_exec(s: &[char], t: usize) -> (r: Option<Option<(usize, usize)>>)
    requires
        t <= s@.len(),
    ensures
        match r {
            Some(a) => html_tail(s@, t as int) == Some(ipair(a)),
            None => html_tail(s@, t as int) is None,
        },
{
    let n = s.len();
    if t < n && s[t] == '#' {
        let d = find_from_exec(s, t + 1, '.');
        if d < n {
            let kind = crate::text::sub_chars(s, t + 1, d);
            if is_item_type_exec(kind.as_slice()) {
                let e = run_end_exec(s, d + 1, CharClass::NotWhitespace);
                if e < n && e + 1 == n && s[e] == '\n' {
                    return Some(Some((d + 1, e)));
                }
            }
        }
    }
    if t < n && t + 1 == n && s[t] == '\n' {
        Some(None)
    } else {
        None
    }
}

fn elem_search_exec(s: &[char], y: usize) -> (r: Option<(usize, Option<(usize, usize)>)>)
    requires
        y <= s@.len(),
    ensures
        match r {
            Some((k, tl)) => elem_search(s@, y as int, s@.len() as int) == Some((k as int, ipair(tl))),
            None => elem_search(s@, y as int, s@.len() as int) is None,
        },
{
    let n = s.len();
    let html = chars_of(".html");
    let lf = find_from_exec(s, y, '\n');
    proof {
        lemma_find_from_bounds(s@, y as int, '\n');
    }
    proof {
        reveal_strlit(".html");
        assert(!occurs_at(s@, n as int, ".html"@));
        assert(elem_search(s@, y as int, n - 1) == elem_search(s@, y as int, n as int));
    }
    let mut k: usize = n;
    while k > y
        invariant
            n == s@.len(),
            y <= n,
            html@ == ".html"@,
            lf == find_from(s@, y as int, '\n'),
            y <= lf <= n,
            forall|j: int| y <= j < lf ==> #[trigger] s@[j] != '\n',
            lf < n ==> s@[lf as int] == '\n',
            y <= k <= n,
            elem_search(s@, y as int, k - 1) == elem_search(s@, y as int, n as int),
        decreases k,
    {
        let c = k - 1;
        let nolf = c <= lf;
        proof {
            if c > lf {
                assert(s@[lf as int] == '\n');
                assert(!no_lf(s@, y as int, c as int));
            }
        }
        if nolf && occurs_at_exec(s, c, html.as_slice()) {
            proof {
                reveal_strlit(".html");
            }
            match html_tail_exec(s, c + 5) {
                Some(tl) => {
                    return Some((c, tl));
                },
                None => {},
            }
        }
        k = c;
    }
    None
}

fn item_at_exec(s: &[char], x: usize) -> (r: Option<(usize, usize, Option<(usize, usize)>)>)
    requires
        x <= s@.len(),
    ensures
        match r {
            Some(it) => item_at(s@, x as int) == Some(iitem(it)),
            None => item_at(s@, x as int) is None,
        },
{
    let n = s.len();
    let d = find_from_exec(s, x, '.');
    if d < n {
        let kind = crate::text::sub_chars(s, x, d);
        if is_item_type_exec(kind.as_slice()) {
            match elem_search_exec(s, d + 1) {
                Some((k, tl)) => {
                    return Some((d + 1, k, tl));
                },
                None => {},
            }
        }
    }
    None
}

fn index_tail_exec(s: &[char], m: usize) -> (r: Option<Option<(usize, usize)>>)
    requires
        m <= s@.len(),
    ensures
        match r {
            Some(a) => index_tail(s@, m as int) == Some(ipair(a)),
            None => index_tail(s@, m as int) is None,
        },
{
    let n = s.len();
    let ix = chars_of("index.html");
    proof {
        reveal_strlit("index.html");
    }
    if !occurs_at_exec(s, m, ix.as_slice()) {
        return None;
    }
    let t = m + 10;
    if n - t >= 3 && s[t] == '#' && s[n - 1] == '\n' {
        let lf = find_from_exec(s, t + 1, '\n');
        proof {
            lemma_find_from_bounds(s@, t + 1, '\n');
        }
        if lf == n - 1 {
            return Some(Some((t, n - 1)));
        }
        proof {
            assert(s@[lf as int] == '\n');
            assert(!no_lf(s@, t + 1, s@.len() - 1));
        }
    }
    if t < n && t + 1 == n && s[t] == '\n' {
        Some(None)
    } else {
        None
    }
}

fn page_at_exec(s: &[char], x: usize, kind: Page) -> (r: Option<(usize, usize, Option<(usize, usize)>)>)
    requires
        x <= s@.len(),
    ensures
        match r {
            Some(it) => page_at(s@, x as int, kind) == Some(iitem(it)),
            None => page_at(s@, x as int, kind) is None,
        },
{
    match kind {
        Page::Item => item_at_exec(s, x),
        Page::Index => {
            let n = s.len();
            proof {
                reveal_strlit("index.html");
            }
            match index_tail_exec(s, x) {
                Some(sec) => Some((x, x + 10, sec)),
                None => None,
            }
        },
    }
}

fn inter_search_exec(s: &[char], c: usize, kind: Page) -> (r: Option<(Option<usize>, (usize, usize, Option<(usize, usize)>))>)
    requires
        c <= s@.len(),
    ensures
        match r {
            Some((ie, it)) => inter_search(s@, c as int, s@.len() - 1, kind) == Some((ipos(ie), iitem(it))),
            None => inter_search(s@, c as int, s@.len() - 1, kind) is None,
        },
{
    let n = s.len();
    let lf = find_from_exec(s, c, '\n');
    proof {
        lemma_find_from_bounds(s@, c as int, '\n');
    }
    let mut j: usize = n;
    while j > c
        invariant
            n == s@.len(),
            c <= n,
            lf == find_from(s@, c as int, '\n'),
            c <= lf <= n,
            forall|i: int| c <= i < lf ==> #[trigger] s@[i] != '\n',
            lf < n ==> s@[lf as int] == '\n',
            c <= j <= n,
            inter_search(s@, c as int, j - 1, kind) == inter_search(s@, c as int, n - 1, kind),
        decreases j,
    {
        let p = j - 1;
        proof {
            if p > lf {
                assert(s@[lf as int] == '\n');
                assert(!no_lf(s@, c as int, p as int));
            }
        }
        if s[p] == '/' && p <= lf {
            match page_at_exec(s, p + 1, kind) {
                Some(it) => {
                    return Some((Some(p + 1), it));
                },
                None => {},
            }
        }
        j = p;
    }
    match page_at_exec(s, c, kind) {
        Some(it) => Some((None, it)),
        None => None,
    }
}

/// A crate reading with integer positions.
pub open spec fn icrate(r: (bool, usize, Option<usize>, (usize, usize, Option<(usize, usize)>))) -> (
    bool,
    int,
    Option<int>,
    (int, int, Option<(int, int)>),
) {
    (r.0, r.1 as int, ipos(r.2), iitem(r.3))
}

fn crate_try_exec(s: &[char], a: usize, krate: &[char], kind: Page) -> (r: Option<
    (bool, usize, Option<usize>, (usize, usize, Option<(usize, usize)>)),
>)
    requires
        a <= s@.len(),
    ensures
        match r {
            Some(x) => crate_try(s@, a as int, krate@, kind) == Some(icrate(x)),
            None => crate_try(s@, a as int, krate@, kind) is None,
        },
{
    let n = s.len();
    if occurs_at_exec(s, a, krate) && n - a > krate.len() && s[a + krate.len()] == '/' {
        let c = a + krate.len() + 1;
        match inter_search_exec(s, c, kind) {
            Some((ie, it)) => {
                return Some((true, c, ie, it));
            },
            None => {},
        }
    }
    match inter_search_exec(s, a, kind) {
        Some((ie, it)) => Some((false, a, ie, it)),
        None => None,
    }
}

proof fn lemma_dotdot_run(s: Seq<char>, b: int)
    requires
        0 <= b <= s.len(),
    ensures
        0 <= dotdot_run(s, b),
        b + 3 * dotdot_run(s, b) <= s.len(),
    decreases s.len() - b,
{
    if b + 3 <= s.len() && occurs_at(s, b, "../"@) {
        lemma_dotdot_run(s, b + 3);
    }
}

fn dotdot_run_exec(s: &[char], b: usize) -> (r: usize)
    requires
        b <= s@.len(),
    ensures
        r == dotdot_run(s@, b as int),
        b + 3 * r <= s@.len(),
{
    proof {
        lemma_dotdot_run(s@, b as int);
    }
    let n = s.len();
    let dd = chars_of("../");
    proof {
        reveal_strlit("../");
    }
    let mut p = b;
    let mut cnt: usize = 0;
    while n - p >= 3 && occurs_at_exec(s, p, dd.as_slice())
        invariant
            n == s@.len(),
            dd@ == "../"@,
            b <= p <= n,
            p == b + 3 * cnt,
            dotdot_run(s@, p as int) + cnt == dotdot_run(s@, b as int),
        decreases n - p,
    {
        p = p + 3;
        cnt = cnt + 1;
    }
    cnt
}

fn supers_try_exec(s: &[char], b: usize, krate: &[char], kind: Page) -> (r: Option<
    (usize, (bool, usize, Option<usize>, (usize, usize, Option<(usize, usize)>))),
>)
    requires
        b <= s@.len(),
    ensures
        match r {
            Some((m, x)) => supers_try(s@, b as int, dotdot_run(s@, b as int), krate@, kind) == Some(
                (m as int, icrate(x)),
            ),
            None => supers_try(s@, b as int, dotdot_run(s@, b as int), krate@, kind) is None,
        },
{
    let n = s.len();
    let nmax = dotdot_run_exec(s, b);
    let mut m: usize = nmax + 1;
    while m > 0
        invariant
            n == s@.len(),
            b <= s@.len(),
            b + 3 * nmax <= s@.len(),
            nmax == dotdot_run(s@, b as int),
            0 <= m <= nmax + 1,
            supers_try(s@, b as int, m - 1, krate@, kind) == supers_try(
                s@,
                b as int,
                nmax as int,
                krate@,
                kind,
            ),
        decreases m,
    {
        let k = m - 1;
        match crate_try_exec(s, b + 3 * k, krate, kind) {
            Some(x) => {
                return Some((k, x));
            },
            None => {},
        }
        m = k;
    }
    None
}

/// An item link reading with integer positions.
pub open spec fn ilink(r: (usize, (usize, (bool, usize, Option<usize>, (usize, usize, Option<(usize, usize)>))))) -> ItemLink {
    (r.0 as int, (r.1.0 as int, icrate(r.1.1)))
}

fn page_link_exec(s: &[char], krate: &[char], kind: Page) -> (r: Option<
    (usize, (usize, (bool, usize, Option<usize>, (usize, usize, Option<(usize, usize)>)))),
>)
    ensures
        match r {
            Some(x) => page_link(s@, krate@, kind) == Some(ilink(x)),
            None => page_link(s@, krate@, kind) is None,
        },
{
    let n = s.len();
    let p0 = opener_end_exec(s);
    if !(p0 < n && s[p0] == '[') {
        return None;
    }
    let close = chars_of("]: ");
    proof {
        reveal_strlit("]: ");
    }
    assert(page_link(s@, krate@, kind) == link_from(s@, p0 + 1, krate@, kind));
    let mut q = p0 + 1;
    while q < n && n - q >= 3 && s[q] != '\n'
        invariant
            n == s@.len(),
            p0 < n,
            close@ == "]: "@,
            p0 + 1 <= q <= n,
            link_from(s@, q as int, krate@, kind) == link_from(s@, p0 + 1, krate@, kind),
            page_link(s@, krate@, kind) == link_from(s@, p0 + 1, krate@, kind),
        decreases n - q,
    {
        if occurs_at_exec(s, q, close.as_slice()) {
            match supers_try_exec(s, q + 3, krate, kind) {
                Some(x) => {
                    assert(link_from(s@, q as int, krate@, kind) == Some(ilink((q, x))));
                    return Some((q, x));
                },
                None => {},
            }
        }
        q = q + 1;
    }
    None
}

/// The bounds of a page reading.
pub open spec fn link_bounds(s: Seq<char>, m: ItemLink) -> bool {
    let (q, (n, (named, c, ie, (y, e, tail)))) = m;
    &&& 0 <= q
    &&& q + 3 <= c <= y <= e <= s.len()
    &&& n >= 0
    &&& !named ==> c == q + 3 + 3 * n
    &&& match ie {
        Some(j) => c < j <= y,
        None => true,
    }
    &&& match tail {
        Some((a, b)) => e <= a <= b <= s.len(),
        None => true,
    }
}

proof fn lemma_crate_try(s: Seq<char>, a: int, krate: Seq<char>, kind: Page)
    requires
        0 <= a <= s.len(),
    ensures
        crate_try(s, a, krate, kind) matches Some((named, c, ie, (y, e, tail))) ==> a <= c && (
        !named ==> c == a) && c <= y <= e <= s.len() && match ie {
            Some(j) => c < j <= y,
            None => true,
        } && match tail {
            Some((x, z)) => e <= x <= z <= s.len(),
            None => true,
        },
{
    let c = a + krate.len() + 1;
    if crate_at(s, a, krate, kind) {
        lemma_inter_search(s, c, s.len() - 1, kind);
    } else {
        lemma_inter_search(s, a, s.len() - 1, kind);
    }
}

proof fn lemma_supers_try(s: Seq<char>, b: int, n: int, krate: Seq<char>, kind: Page)
    requires
        0 <= b,
        b + 3 * n <= s.len(),
    ensures
        supers_try(s, b, n, krate, kind) matches Some((k, (named, c, ie, (y, e, tail)))) ==> 0 <= k
            <= n && b + 3 * k <= c && (!named ==> c == b + 3 * k) && c <= y <= e <= s.len()
            && match ie {
            Some(j) => c < j <= y,
            None => true,
        } && match tail {
            Some((x, z)) => e <= x <= z <= s.len(),
            None => true,
        },
    decreases n + 1,
{
    if n >= 0 {
        if crate_try(s, b + 3 * n, krate, kind) is Some {
            lemma_crate_try(s, b + 3 * n, krate, kind);
        } else {
            lemma_supers_try(s, b, n - 1, krate, kind);
        }
    }
}

proof fn lemma_link_from(s: Seq<char>, q: int, krate: Seq<char>, kind: Page)
    requires
        0 <= q,
    ensures
        link_from(s, q, krate, kind) matches Some(m) ==> link_bounds(s, m),
    decreases s.len() - q,
{
    if !(q < 0 || q + 3 > s.len() || s[q] == '\n') {
        if occurs_at(s, q, "]: "@) && supers_try(s, q + 3, dotdot_run(s, q + 3), krate, kind)
            is Some {
            lemma_dotdot_run(s, q + 3);
            lemma_supers_try(s, q + 3, dotdot_run(s, q + 3), krate, kind);
        } else {
            lemma_link_from(s, q + 1, krate, kind);
        }
    }
}

proof fn lemma_page_link(s: Seq<char>, krate: Seq<char>, kind: Page)
    ensures
        page_link(s, krate, kind) matches Some(m) ==> link_bounds(s, m),
{
    let p0 = opener_end(s);
    lemma_run_end_bounds(s, 0, CharClass::Whitespace);
    if p0 < s.len() && s[p0] == '[' {
        lemma_link_from(s, p0 + 1, krate, kind);
    }
}

fn colons_exec(t: &[char]) -> (r: Vec<char>)
    ensures
        r@ == colons(t@),
{
    let mut r: Vec<char> = Vec::new();
    let mut i: usize = 0;
    while i < t.len()
        invariant
            0 <= i <= t@.len(),
            r@ == colons(t@.subrange(0, i as int)),
        decreases t@.len() - i,
    {
        let ghost pre = t@.subrange(0, i as int);
        let ghost nxt = t@.subrange(0, i + 1);
        assert(nxt.drop_last() =~= pre);
        if t[i] == '/' {
            r.push(':');
            r.push(':');
        } else {
            r.push(t[i]);
        }
        assert(r@ =~= colons(nxt));
        i = i + 1;
    }
    assert(t@.subrange(0, t@.len() as int) =~= t@);
    r
}

fn trim_colons_exec(v: Vec<char>) -> (r: Vec<char>)
    ensures
        r@ == trim_colons(v@),
{
    let ghost v0 = v@;
    let mut r = v;
    while r.len() >= 2 && r[r.len() - 2] == ':' && r[r.len() - 1] == ':'
        invariant
            trim_colons(r@) == trim_colons(v0),
        decreases r@.len(),
    {
        let ghost before = r@;
        r.pop();
        r.pop();
        assert(r@ =~= before.subrange(0, before.len() - 2));
    }
    r
}

pub(crate) fn supers_text_exec(n: usize) -> (r: Vec<char>)
    ensures
        r@ == supers_text(n as nat),
{
    let sup = chars_of("super::");
    let mut r: Vec<char> = Vec::new();
    let mut i: usize = 0;
    while i < n
        invariant
            0 <= i <= n,
            sup@ == "super::"@,
            r@ == supers_text(i as nat),
        decreases n - i,
    {
        extend_chars(&mut r, sup.as_slice());
        i = i + 1;
    }
    r
}

fn root_text_exec(named: bool, n: usize) -> (r: Vec<char>)
    ensures
        r@ == root_text(named, n as int),
{
    if named {
        chars_of("crate::")
    } else {
        supers_text_exec(n)
    }
}

fn item_text_exec(
    s: &[char],
    m: (usize, (usize, (bool, usize, Option<usize>, (usize, usize, Option<(usize, usize)>)))),
) -> (r: Vec<char>)
    requires
        link_bounds(s@, ilink(m)),
    ensures
        r@ == item_text(s@, ilink(m)),
{
    let (q, (n, (named, c, ie, (y, e, tail)))) = m;
    let mut r = sub_chars(s, 0, q + 3);
    let root = root_text_exec(named, n);
    extend_chars(&mut r, root.as_slice());
    match ie {
        Some(j) => {
            let it = sub_chars(s, c, j);
            let dot = chars_of("./");
            if !chars_eq(it.as_slice(), dot.as_slice()) {
                let cl = colons_exec(it.as_slice());
                extend_chars(&mut r, cl.as_slice());
            }
        },
        None => {},
    }
    let name = sub_chars(s, y, e);
    extend_chars(&mut r, name.as_slice());
    match tail {
        Some((a, b)) => {
            r.push(':');
            r.push(':');
            let add = sub_chars(s, a, b);
            extend_chars(&mut r, add.as_slice());
        },
        None => {},
    }
    r.push('\n');
    proof {
        reveal_strlit("::");
    }
    assert(r@ =~= item_text(s@, ilink(m)));
    r
}

fn index_text_exec(
    s: &[char],
    m: (usize, (usize, (bool, usize, Option<usize>, (usize, usize, Option<(usize, usize)>)))),
) -> (r: Option<Vec<char>>)
    requires
        link_bounds(s@, ilink(m)),
    ensures
        match r {
            Some(v) => index_text(s@, ilink(m)) == Some(v@),
            None => index_text(s@, ilink(m)) is None,
        },
{
    let (q, (n, (named, c, ie, (x, e, sec)))) = m;
    let mods = match ie {
        Some(j) => sub_chars(s, c, j),
        None => Vec::new(),
    };
    let section = match sec {
        Some((a, b)) => sub_chars(s, a, b),
        None => Vec::new(),
    };
    if mods.len() == 0 && section.len() == 0 {
        return None;
    }
    let mut r = sub_chars(s, 0, q + 3);
    let root = root_text_exec(named, n);
    extend_chars(&mut r, root.as_slice());
    let cl = trim_colons_exec(colons_exec(mods.as_slice()));
    extend_chars(&mut r, cl.as_slice());
    extend_chars(&mut r, section.as_slice());
    r.push('\n');
    assert(r@ =~= index_text(s@, ilink(m))->Some_0);
    Some(r)
}

fn anchor_tail_exec(s: &[char], t: usize) -> (r: Option<(usize, usize)>)
    requires
        t <= s@.len(),
    ensures
        ipair(r) == anchor_tail(s@, t as int),
{
    let n = s.len();
    if t < n && s[t] == '#' {
        let d = find_from_exec(s, t + 1, '.');
        if d < n {
            let kind = sub_chars(s, t + 1, d);
            if is_item_type_exec(kind.as_slice()) {
                let e = run_end_exec(s, d + 1, CharClass::Word);
                if e > d + 1 && e < n && e + 1 == n && s[e] == '\n' {
                    return Some((d + 1, e));
                }
            }
        }
    }
    None
}

fn method_anchor_exec(s: &[char]) -> (r: Option<(usize, (usize, usize))>)
    ensures
        match r {
            Some((q, (a, b))) => method_anchor(s@) == Some((q as int, (a as int, b as int))),
            None => method_anchor(s@) is None,
        },
{
    let n = s.len();
    let p0 = opener_end_exec(s);
    if !(p0 < n && s[p0] == '[') {
        return None;
    }
    let close = chars_of("]: ");
    proof {
        reveal_strlit("]: ");
    }
    let mut q = p0 + 1;
    while q < n && n - q >= 3 && s[q] != '\n'
        invariant
            n == s@.len(),
            p0 < n,
            close@ == "]: "@,
            p0 + 1 <= q <= n,
            anchor_from(s@, q as int) == anchor_from(s@, p0 + 1),
            method_anchor(s@) == anchor_from(s@, p0 + 1),
        decreases n - q,
    {
        if occurs_at_exec(s, q, close.as_slice()) {
            match anchor_tail_exec(s, q + 3) {
                Some(x) => {
                    return Some((q, x));
                },
                None => {},
            }
        }
        q = q + 1;
    }
    None
}

fn line_rest_exec(s: &[char], t: usize) -> (b: bool)
    ensures
        b == line_rest(s@, t as int),
{
    let n = s.len();
    if t >= n || s[n - 1] != '\n' {
        return false;
    }
    let lf = find_from_exec(s, t, '\n');
    proof {
        lemma_find_from_bounds(s@, t as int, '\n');
        if lf < n - 1 {
            assert(s@[lf as int] == '\n');
        }
    }
    lf == n - 1
}

fn local_close_exec(s: &[char], i0: usize) -> (r: Option<(usize, usize)>)
    requires
        i0 <= s@.len(),
    ensures
        ipair(r) == local_close(s@, i0 as int),
{
    let n = s.len();
    let close = chars_of("]: ");
    proof {
        reveal_strlit("]: ");
    }
    let mut i = i0;
    while i < n && s[i] != '\n'
        invariant
            n == s@.len(),
            close@ == "]: "@,
            i0 <= i <= n,
            local_close(s@, i as int) == local_close(s@, i0 as int),
        decreases n - i,
    {
        if s[i] == '`' && n - i >= 4 && occurs_at_exec(s, i + 1, close.as_slice())
            && line_rest_exec(s, i + 4) {
            return Some((i, i + 4));
        }
        if occurs_at_exec(s, i, close.as_slice()) && n - i >= 3 && line_rest_exec(s, i + 3) {
            return Some((i, i + 3));
        }
        i = i + 1;
    }
    None
}

proof fn lemma_local_close(s: Seq<char>, i: int)
    requires
        0 <= i,
    ensures
        local_close(s, i) matches Some((e, t)) ==> i <= e < t < s.len(),
    decreases s.len() - i,
{
    if !(i < 0 || i >= s.len() || s[i] == '\n') {
        if !(s[i] == '`' && occurs_at(s, i + 1, "]: "@) && line_rest(s, i + 4)) && !(occurs_at(
            s,
            i,
            "]: "@,
        ) && line_rest(s, i + 3)) {
            lemma_local_close(s, i + 1);
        }
    }
}

fn check_local_exec(s: &[char]) -> (r: Option<(Vec<char>, Vec<char>)>)
    ensures
        match r {
            Some((x, y)) => check_local(s@) == Some((x@, y@)),
            None => check_local(s@) is None,
        },
{
    let n = s.len();
    let p0 = opener_end_exec(s);
    if !(p0 < n && s[p0] == '[') {
        return None;
    }
    let b = if n - p0 > 1 && s[p0 + 1] == '`' {
        p0 + 2
    } else {
        p0 + 1
    };
    proof {
        lemma_local_close(s@, b as int);
    }
    match local_close_exec(s, b) {
        Some((i, t)) => Some((sub_chars(s, b, i), sub_chars(s, t, n - 1))),
        None => None,
    }
}

fn http_after_exec(s: &[char], t: usize) -> (b: bool)
    requires
        t <= s@.len(),
    ensures
        b == http_after(s@, t as int),
{
    let n = s.len();
    let r = run_end_exec(s, t, CharClass::Whitespace);
    if r <= t {
        return false;
    }
    let https = chars_of("https://");
    let http = chars_of("http://");
    proof {
        reveal_strlit("https://");
        reveal_strlit("http://");
    }
    (occurs_at_exec(s, r, https.as_slice()) && line_rest_exec(s, r + 8)) || (occurs_at_exec(
        s,
        r,
        http.as_slice(),
    ) && line_rest_exec(s, r + 7))
}

fn is_http_link_exec(s: &[char]) -> (b: bool)
    ensures
        b == is_http_link(s@),
{
    let n = s.len();
    let p0 = opener_end_exec(s);
    if !(p0 < n && s[p0] == '[') {
        return false;
    }
    let close = chars_of("]:");
    proof {
        reveal_strlit("]:");
    }
    let mut q = p0 + 1;
    while q < n && n - q >= 2 && s[q] != '\n'
        invariant
            n == s@.len(),
            p0 < n,
            close@ == "]:"@,
            p0 + 1 <= q <= n,
            http_from(s@, q as int) == http_from(s@, p0 + 1),
            is_http_link(s@) == http_from(s@, p0 + 1),
        decreases n - q,
    {
        if occurs_at_exec(s, q, close.as_slice()) && http_after_exec(s, q + 2) {
            return true;
        }
        q = q + 1;
    }
    false
}

proof fn lemma_anchor_from(s: Seq<char>, q: int)
    requires
        0 <= q,
    ensures
        anchor_from(s, q) matches Some((k, (a, b))) ==> 0 <= k && k + 3 <= a <= b <= s.len(),
    decreases s.len() - q,
{
    if !(q < 0 || q + 3 > s.len() || s[q] == '\n') {
        if occurs_at(s, q, "]: "@) && anchor_tail(s, q + 3) is Some {
            let t = q + 3;
            lemma_find_from_bounds(s, t + 1, '.');
            let d = find_from(s, t + 1, '.');
            lemma_run_end_bounds(s, d + 1, CharClass::Word);
        } else {
            lemma_anchor_from(s, q + 1);
        }
    }
}

/// The state carried from one line to the next by [`check`].
#[derive(Debug, Clone, PartialEq, Eq)]
pub struct Context {
    /// Name of the crate on which the tool is run.
    pub krate: String,
    /// Name of the type that is `Self` for the current block.
    pub curr_type_block: Option<String>,
    /// Start of the line that ends the current block.
    pub end_type_block: String,
}

/// Converts one line, `\n` included, and updates the context; see
/// [`spec_check`]. An empty line stands for a line to remove. The crate
/// name is matched as written, character for character.
pub fn check(line: String, ctx: &mut Context) -> (r: String)
    ensures
        (r@, opt_string_view(final(ctx).curr_type_block), final(ctx).end_type_block@) == spec_check(
            line@,
            old(ctx).krate@,
            opt_string_view(old(ctx).curr_type_block),
            old(ctx).end_type_block@,
        ),
        final(ctx).krate == old(ctx).krate,
{
    let s = chars_of(line.as_str());
    if is_http_link_exec(s.as_slice()) {
        return line;
    }
    match type_block_start_exec(s.as_slice()) {
        Some((sp, ty, paren)) => {
            let end = if ends_with_exec(s.as_slice(), &[';', '\n']) || ends_with_exec(
                s.as_slice(),
                &['}', '\n'],
            ) {
                let e: Vec<char> = vec!['\n'];
                e
            } else {
                let mut e = sp;
                if paren {
                    e.push(')');
                } else {
                    e.push('}');
                }
                e
            };
            assert(end@ == block_end(s@, sp@, paren));
            ctx.curr_type_block = Some(string_of(ty.as_slice()));
            ctx.end_type_block = string_of(end.as_slice());
            return line;
        },
        None => {},
    }
    let k = chars_of(ctx.krate.as_str());
    let new1: Vec<char> = match page_link_exec(s.as_slice(), k.as_slice(), Page::Item) {
        Some(m) => {
            proof {
                lemma_page_link(s@, k@, Page::Item);
            }
            item_text_exec(s.as_slice(), m)
        },
        None => s,
    };
    assert(new1@ == after_items(line@, ctx.krate@));
    let new2: Vec<char> = match page_link_exec(new1.as_slice(), k.as_slice(), Page::Index) {
        Some(m) => {
            proof {
                lemma_page_link(new1@, k@, Page::Index);
            }
            match index_text_exec(new1.as_slice(), m) {
                Some(v) => v,
                None => {
                    return String::new();
                },
            }
        },
        None => new1,
    };
    assert(after_indexes(new1@, ctx.krate@) == Some(new2@));
    let new3: Vec<char> = match method_anchor_exec(new2.as_slice()) {
        Some((q, (a, b))) => match &ctx.curr_type_block {
            Some(ty) => {
                proof {
                    lemma_run_end_bounds(new2@, 0, CharClass::Whitespace);
                    lemma_anchor_from(new2@, opener_end(new2@) + 1);
                }
                let mut r = sub_chars(new2.as_slice(), 0, q + 3);
                let tc = chars_of(ty.as_str());
                extend_chars(&mut r, tc.as_slice());
                r.push(':');
                r.push(':');
                let add = sub_chars(new2.as_slice(), a, b);
                extend_chars(&mut r, add.as_slice());
                r.push('\n');
                proof {
                    reveal_strlit("::");
                }
                assert(r@ =~= after_anchor(new2@, opt_string_view(ctx.curr_type_block)));
                r
            },
            None => new2,
        },
        None => new2,
    };
    assert(new3@ == after_anchor(new2@, opt_string_view(ctx.curr_type_block)));
    let ec = chars_of(ctx.end_type_block.as_str());
    if ctx.curr_type_block.is_some() && occurs_at_exec(new3.as_slice(), 0, ec.as_slice()) {
        ctx.curr_type_block = None;
        ctx.end_type_block = String::new();
    }
    match check_local_exec(new3.as_slice()) {
        Some((x, y)) => {
            if chars_eq(x.as_slice(), y.as_slice()) {
                return String::new();
            }
        },
        None => {},
    }
    string_of(new3.as_slice())
}

} // verus!
