//! The links that have the right form to become intra-doc links: a
//! Markdown link definition, `[name]: link`, and inline links,
//! `[name](link)`.
use vstd::prelude::*;
use crate::config_file::{FileConfig, raw_ignores};
use crate::link_parts::{link_parts, spec_link_parts, spec_transform};
use crate::lines::{
    lemma_short_link_at, link_to_treat_long, link_to_treat_long_exec, short_link_at,
    short_link_at_exec,
};
use crate::options::ConversionOptions;
use crate::path::components;
use crate::text::{chars_eq, chars_of, extend_chars, string_of, sub_chars};
use crate::transform::ConversionContext;
use crate::link_parts::opt_string_view;

verus! {

/// A line that has the right form to become an intra-doc link.
///
/// Rust only allows identifiers in the ASCII range: a link with other
/// characters fails its conversion in [`Candidate::transform`].
#[derive(Debug, Clone, PartialEq, Eq, Hash)]
pub struct Candidate {
    /// The form of the link and its parts.
    pub inner: CandidateInner,
}

/// The two forms of a link that can become an intra-doc link.
#[derive(Debug, Clone, PartialEq, Eq, Hash)]
pub enum CandidateInner {
    /// A link definition, `[name]: link`, on a line of its own.
    Long {
        /// Everything from the start of the line to the last whitespace
        /// before the link itself.
        header: String,
        /// The text between the brackets, which names the link.
        name: String,
        /// The target of the link, read as a path.
        link: String,
    },
    /// A line holding inline links, `[name](link)`: the whole line.
    Short { orig: String },
}

/// The header, the name and the link of a link definition. A link that
/// starts with `/` is an absolute path and cannot become an intra-doc link.
pub open spec fn spec_from_line(s: Seq<char>) -> Option<(Seq<char>, Seq<char>, Seq<char>)> {
    match link_to_treat_long(s) {
        Some((a, b, l, m)) => if l < s.len() && s[l] == '/' {
            None
        } else {
            Some((s.subrange(0, l), s.subrange(a, b), s.subrange(l, m)))
        },
        None => None,
    }
}

/// The line holds at least one inline link, see [`short_link_at`].
pub open spec fn spec_short_links(s: Seq<char>) -> bool {
    exists|i: int| 0 <= i < s.len() && #[trigger] short_link_at(s, i) is Some
}

/// A line is a candidate when it is a link definition to a relative path,
/// or, when it is no link definition at all, when it holds an inline link.
pub open spec fn is_candidate(s: Seq<char>) -> bool {
    spec_from_line(s) is Some || (link_to_treat_long(s) is None && spec_short_links(s))
}

/// The line a link definition becomes, with the options `opts`, the
/// configuration `cfg` of the file `path`, and `block` as the type that is
/// `Self`: nothing when the configuration ignores it or when its link cannot
/// be read, else the header followed by the intra-doc form of the link.
pub open spec fn spec_candidate_transform(
    header: Seq<char>,
    name: Seq<char>,
    link: Seq<char>,
    opts: ConversionOptions,
    cfg: FileConfig,
    path: Seq<char>,
    block: Option<Seq<char>>,
) -> Option<Seq<char>> {
    if raw_ignores(cfg.0, path, name, link) {
        None
    } else {
        match spec_link_parts(components(link), opts.krate.0@, opts.favored_links) {
            Some(lp) => Some(header + spec_transform(lp, opts.disambiguate, block)),
            None => None,
        }
    }
}

/// What the inline link found at `i` becomes: the link itself when the
/// configuration ignores it (the text between the brackets is its name),
/// when its target is absolute or cannot be read; else the text between
/// the brackets, followed by the intra-doc form of the target in
/// parentheses unless that form is the name itself.
pub open spec fn short_replacement(
    s: Seq<char>,
    i: int,
    opts: ConversionOptions,
    cfg: FileConfig,
    path: Seq<char>,
    block: Option<Seq<char>>,
) -> Seq<char> {
    let (ns, ne, b, l, m) = short_link_at(s, i)->Some_0;
    let header = s.subrange(i + 1, b);
    let name = s.subrange(ns, ne);
    let link = s.subrange(l, m);
    let whole = s.subrange(i, m + 1);
    if raw_ignores(cfg.0, path, header, link) || link[0] == '/' {
        whole
    } else {
        match spec_link_parts(components(link), opts.krate.0@, opts.favored_links) {
            Some(lp) => {
                let t = spec_transform(lp, opts.disambiguate, block);
                seq!['['] + header + seq![']'] + if t == name {
                    Seq::<char>::empty()
                } else {
                    seq!['('] + t + seq![')']
                }
            },
            None => whole,
        }
    }
}

/// `s[i..]` with each inline link replaced, the links searched from left
/// to right and the search going on after the end of each one.
pub open spec fn rewrite_from(
    s: Seq<char>,
    i: int,
    opts: ConversionOptions,
    cfg: FileConfig,
    path: Seq<char>,
    block: Option<Seq<char>>,
) -> Seq<char>
    decreases s.len() - i,
{
    if i < 0 || i >= s.len() {
        Seq::<char>::empty()
    } else {
        match short_link_at(s, i) {
            Some((ns, ne, b, l, m)) => short_replacement(s, i, opts, cfg, path, block) + rewrite_from(
                s,
                m + 1,
                opts,
                cfg,
                path,
                block,
            ),
            None => seq![s[i]] + rewrite_from(s, i + 1, opts, cfg, path, block),
        }
    }
}

/// The line `s` with each of its inline links replaced.
pub open spec fn spec_transform_short(
    s: Seq<char>,
    opts: ConversionOptions,
    cfg: FileConfig,
    path: Seq<char>,
    block: Option<Seq<char>>,
) -> Seq<char> {
    rewrite_from(s, 0, opts, cfg, path, block)
}

/// An inline link that the configuration ignores is kept as it is.
pub proof fn law_ignored_inline_links_are_kept(
    s: Seq<char>,
    i: int,
    opts: ConversionOptions,
    cfg: FileConfig,
    path: Seq<char>,
    block: Option<Seq<char>>,
)
    requires
        short_link_at(s, i) matches Some((ns, ne, b, l, m)) && raw_ignores(
            cfg.0,
            path,
            s.subrange(i + 1, b),
            s.subrange(l, m),
        ),
    ensures
        short_replacement(s, i, opts, cfg, path, block) == s.subrange(
            i,
            short_link_at(s, i)->Some_0.4 + 1,
        ),
{
}

/// An inline link whose intra-doc form is its own name loses its target:
/// `[name](link)` becomes `[name]`, the backticks around the name kept.
pub proof fn law_target_equal_to_the_name_is_dropped(
    s: Seq<char>,
    i: int,
    opts: ConversionOptions,
    cfg: FileConfig,
    path: Seq<char>,
    block: Option<Seq<char>>,
)
    requires
        short_link_at(s, i) matches Some((ns, ne, b, l, m)) && {
            &&& !raw_ignores(cfg.0, path, s.subrange(i + 1, b), s.subrange(l, m))
            &&& s[l] != '/'
            &&& spec_link_parts(components(s.subrange(l, m)), opts.krate.0@, opts.favored_links)
                matches Some(lp) && spec_transform(lp, opts.disambiguate, block) == s.subrange(
                ns,
                ne,
            )
        },
    ensures
        short_replacement(s, i, opts, cfg, path, block) == seq!['['] + s.subrange(
            i + 1,
            short_link_at(s, i)->Some_0.2,
        ) + seq![']'],
{
    lemma_short_link_at(s, i);
    let (ns, ne, b, l, m) = short_link_at(s, i)->Some_0;
    assert(s.subrange(l, m)[0] == s[l]);
    assert(seq!['['] + s.subrange(i + 1, b) + seq![']'] + Seq::<char>::empty() =~= seq!['[']
        + s.subrange(i + 1, b) + seq![']']);
}

proof fn lemma_rewrite_without_links(
    s: Seq<char>,
    i: int,
    opts: ConversionOptions,
    cfg: FileConfig,
    path: Seq<char>,
    block: Option<Seq<char>>,
)
    requires
        0 <= i <= s.len(),
        !spec_short_links(s),
    ensures
        rewrite_from(s, i, opts, cfg, path, block) == s.subrange(i, s.len() as int),
    decreases s.len() - i,
{
    if i < s.len() {
        assert(short_link_at(s, i) is None);
        lemma_rewrite_without_links(s, i + 1, opts, cfg, path, block);
        assert(seq![s[i]] + s.subrange(i + 1, s.len() as int) =~= s.subrange(i, s.len() as int));
    }
}

/// A line without inline links is left as it is by their replacement.
pub proof fn law_lines_without_inline_links_are_kept(
    s: Seq<char>,
    opts: ConversionOptions,
    cfg: FileConfig,
    path: Seq<char>,
    block: Option<Seq<char>>,
)
    requires
        !spec_short_links(s),
    ensures
        spec_transform_short(s, opts, cfg, path, block) == s,
{
    lemma_rewrite_without_links(s, 0, opts, cfg, path, block);
    assert(s.subrange(0, s.len() as int) =~= s);
}

/// What a candidate becomes in the given setting.
pub open spec fn spec_candidate_result(
    c: Candidate,
    opts: ConversionOptions,
    cfg: FileConfig,
    path: Seq<char>,
    block: Option<Seq<char>>,
) -> Option<Seq<char>> {
    match c.inner {
        CandidateInner::Long { header, name, link } => spec_candidate_transform(
            header@,
            name@,
            link@,
            opts,
            cfg,
            path,
            block,
        ),
        CandidateInner::Short { orig } => Some(spec_transform_short(orig@, opts, cfg, path, block)),
    }
}

/// What a line becomes when it is a candidate: a link definition is read
/// first; a line that is none is searched for inline links.
pub open spec fn spec_candidate_line(
    s: Seq<char>,
    opts: ConversionOptions,
    cfg: FileConfig,
    path: Seq<char>,
    block: Option<Seq<char>>,
) -> Option<Seq<char>> {
    match spec_from_line(s) {
        Some((h, n, l)) => spec_candidate_transform(h, n, l, opts, cfg, path, block),
        None => if link_to_treat_long(s) is None && spec_short_links(s) {
            Some(spec_transform_short(s, opts, cfg, path, block))
        } else {
            None
        },
    }
}

/// Whether `s` holds an inline link.
fn has_short_link(s: &[char]) -> (b: bool)
    ensures
        b == spec_short_links(s@),
{
    let mut i: usize = 0;
    while i < s.len()
        invariant
            0 <= i <= s@.len(),
            forall|j: int| 0 <= j < i ==> #[trigger] short_link_at(s@, j) is None,
        decreases s@.len() - i,
    {
        if short_link_at_exec(s, i).is_some() {
            assert(short_link_at(s@, i as int) is Some);
            return true;
        }
        i = i + 1;
    }
    false
}

/// What the inline link found at `i` becomes, see [`short_replacement`].
fn short_replacement_exec(
    s: &[char],
    i: usize,
    ns: usize,
    ne: usize,
    b: usize,
    l: usize,
    m: usize,
    ctx: &ConversionContext,
) -> (r: Vec<char>)
    requires
        short_link_at(s@, i as int) == Some((ns as int, ne as int, b as int, l as int, m as int)),
    ensures
        r@ == short_replacement(
            s@,
            i as int,
            ctx.options,
            ctx.ignored_links,
            ctx.current_path@,
            opt_string_view(ctx.curr_type_block),
        ),
{
    proof {
        lemma_short_link_at(s@, i as int);
    }
    let n = s.len();
    assert(m < n);
    let header_c = sub_chars(s, i + 1, b);
    let name_c = sub_chars(s, ns, ne);
    let link_c = sub_chars(s, l, m);
    let header = string_of(header_c.as_slice());
    let link = string_of(link_c.as_slice());
    if ctx.is_ignored(header.as_str(), link.as_str()) || link_c[0] == '/' {
        return sub_chars(s, i, m + 1);
    }
    match link_parts(link.as_str(), ctx.options()) {
        Ok(parts) => {
            let t = parts.transform(ctx);
            let tc = chars_of(t.as_str());
            let mut r: Vec<char> = vec!['['];
            extend_chars(&mut r, header_c.as_slice());
            r.push(']');
            if !chars_eq(tc.as_slice(), name_c.as_slice()) {
                r.push('(');
                extend_chars(&mut r, tc.as_slice());
                r.push(')');
            }
            r
        },
        Err(_) => sub_chars(s, i, m + 1),
    }
}

/// `s` with each of its inline links replaced, see [`rewrite_from`].
fn rewrite_short(s: &[char], ctx: &ConversionContext) -> (r: Vec<char>)
    ensures
        r@ == spec_transform_short(
            s@,
            ctx.options,
            ctx.ignored_links,
            ctx.current_path@,
            opt_string_view(ctx.curr_type_block),
        ),
{
    let ghost opts = ctx.options;
    let ghost cfg = ctx.ignored_links;
    let ghost path = ctx.current_path@;
    let ghost block = opt_string_view(ctx.curr_type_block);
    let ghost total = rewrite_from(s@, 0, opts, cfg, path, block);
    let mut out: Vec<char> = Vec::new();
    let mut i: usize = 0;
    while i < s.len()
        invariant
            0 <= i <= s@.len(),
            opts == ctx.options,
            cfg == ctx.ignored_links,
            path == ctx.current_path@,
            block == opt_string_view(ctx.curr_type_block),
            out@ + rewrite_from(s@, i as int, opts, cfg, path, block) == total,
        decreases s@.len() - i,
    {
        let ghost before = out@;
        match short_link_at_exec(s, i) {
            Some((ns, ne, b, l, m)) => {
                proof {
                    lemma_short_link_at(s@, i as int);
                }
                let rep = short_replacement_exec(s, i, ns, ne, b, l, m, ctx);
                extend_chars(&mut out, rep.as_slice());
                assert(out@ + rewrite_from(s@, m + 1, opts, cfg, path, block) =~= before
                    + rewrite_from(s@, i as int, opts, cfg, path, block));
                i = m + 1;
            },
            None => {
                out.push(s[i]);
                assert(out@ + rewrite_from(s@, i + 1, opts, cfg, path, block) =~= before
                    + rewrite_from(s@, i as int, opts, cfg, path, block));
                i = i + 1;
            },
        }
    }
    assert(out@ =~= total);
    out
}

/// Replaces each inline link of a line that holds at least one, in the
/// given context. Gives `None` for a line that holds none.
pub fn transform_short(line: &str, ctx: &ConversionContext) -> (r: Option<String>)
    ensures
        opt_string_view(r) == (if spec_short_links(line@) {
            Some(
                spec_transform_short(
                    line@,
                    ctx.options,
                    ctx.ignored_links,
                    ctx.current_path@,
                    opt_string_view(ctx.curr_type_block),
                ),
            )
        } else {
            None
        }),
{
    let s = chars_of(line);
    if !has_short_link(s.as_slice()) {
        return None;
    }
    let r = rewrite_short(s.as_slice(), ctx);
    Some(string_of(r.as_slice()))
}

impl Candidate {
    /// Finds the parts of a link in a line, ending with `\n` or not. When
    /// the line cannot be a candidate, it is handed back as the error.
    pub fn from_line(line: &str) -> (r: Result<Candidate, &str>)
        ensures
            r is Ok <==> is_candidate(line@),
            match r {
                Ok(c) => match c.inner {
                    CandidateInner::Long { header, name, link } => spec_from_line(line@) == Some(
                        (header@, name@, link@),
                    ),
                    CandidateInner::Short { orig } => spec_from_line(line@) is None
                        && link_to_treat_long(line@) is None && orig@ == line@,
                },
                Err(e) => e@ == line@,
            },
    {
        let s = chars_of(line);
        match link_to_treat_long_exec(s.as_slice()) {
            Some((a, b, l, m)) => {
                if l < s.len() && s[l] == '/' {
                    Err(line)
                } else {
                    let header = string_of(sub_chars(s.as_slice(), 0, l).as_slice());
                    let name = string_of(sub_chars(s.as_slice(), a, b).as_slice());
                    let link = string_of(sub_chars(s.as_slice(), l, m).as_slice());
                    Ok(Candidate { inner: CandidateInner::Long { header, name, link } })
                }
            },
            None => {
                if has_short_link(s.as_slice()) {
                    Ok(Candidate { inner: CandidateInner::Short { orig: string_of(s.as_slice()) } })
                } else {
                    Err(line)
                }
            },
        }
    }

    /// Applies the transformation in the given context, see
    /// [`spec_candidate_result`].
    pub fn transform(self, ctx: &ConversionContext) -> (r: Option<String>)
        ensures
            opt_string_view(r) == spec_candidate_result(
                self,
                ctx.options,
                ctx.ignored_links,
                ctx.current_path@,
                opt_string_view(ctx.curr_type_block),
            ),
    {
        match self.inner {
            CandidateInner::Long { header, name, link } => {
                if ctx.is_ignored(name.as_str(), link.as_str()) {
                    return None;
                }
                match link_parts(link.as_str(), ctx.options()) {
                    Ok(parts) => {
                        let t = parts.transform(ctx);
                        let mut r = chars_of(header.as_str());
                        let tc = chars_of(t.as_str());
                        extend_chars(&mut r, tc.as_slice());
                        Some(string_of(r.as_slice()))
                    },
                    Err(_) => None,
                }
            },
            CandidateInner::Short { orig } => {
                let s = chars_of(orig.as_str());
                let r = rewrite_short(s.as_slice(), ctx);
                Some(string_of(r.as_slice()))
            },
        }
    }
}

} // verus!
