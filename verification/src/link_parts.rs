//! The parts of a link: where its path starts, the modules it goes through
//! and the element it ends with.
//!
//! `../mod1/struct.Type.html#method.call` starts with one `super`, goes
//! through `mod1` and ends with the item `Type` and its associated item
//! `call`. Its intra-doc form is `super::mod1::Type::call()`.
use vstd::prelude::*;
use crate::grammar::{
    ItemTail, assoc_item_split, is_lit, assoc_item_split_exec, holds_rust_version,
    holds_rust_version_exec, is_channel, is_channel_exec, is_docs_rs_version,
    is_docs_rs_version_exec, is_std_crate, is_std_crate_exec, item_file_split,
    item_file_split_exec, module_file_split, module_file_split_exec,
};
use crate::options::{ConversionOptions, Krate};
use crate::path::{
    Comp, Component, SComp, comp_text, components, components_exec, comps_view, file_name,
    join_path, join_path_exec, parent_or_empty,
};
use crate::text::{
    chars_eq, chars_of, extend_chars, is_html_section, is_html_section_exec, is_ident,
    is_ident_exec, string_of, sub_chars,
};

verus! {

/// A rustdoc disambiguator: a prefix such as `type@` or a suffix such as
/// `()` that tells which kind of item a link points to.
#[derive(Debug, Copy, Clone, Eq, PartialEq, Ord, PartialOrd, Hash)]
pub enum Disambiguator {
    Empty,
    Prefix(&'static str),
    Suffix(&'static str),
}

/// The disambiguator of an item kind.
pub open spec fn dis_from(s: Seq<char>) -> Disambiguator {
    if s == "struct"@ || s == "enum"@ || s == "trait"@ || s == "union"@ || s == "type"@ {
        Disambiguator::Prefix("type@")
    } else if s == "const"@ || s == "static"@ || s == "value"@ {
        Disambiguator::Prefix("value@")
    } else if s == "derive"@ || s == "attr"@ {
        Disambiguator::Prefix("macro@")
    } else if s == "primitive"@ {
        Disambiguator::Prefix("prim@")
    } else if s == "mod"@ {
        Disambiguator::Prefix("mod@")
    } else if s == "fn"@ || s == "method"@ {
        Disambiguator::Suffix("()")
    } else if s == "macro"@ {
        Disambiguator::Suffix("!")
    } else {
        Disambiguator::Empty
    }
}

impl Disambiguator {
    /// The disambiguator of an item kind given as characters.
    pub fn from_kind(s: &[char]) -> (r: Disambiguator)
        ensures
            r == dis_from(s@),
    {
        if is_lit(s, "struct") || is_lit(s, "enum") || is_lit(s, "trait") || is_lit(s, "union")
            || is_lit(s, "type") {
            Disambiguator::Prefix("type@")
        } else if is_lit(s, "const") || is_lit(s, "static") || is_lit(s, "value") {
            Disambiguator::Prefix("value@")
        } else if is_lit(s, "derive") || is_lit(s, "attr") {
            Disambiguator::Prefix("macro@")
        } else if is_lit(s, "primitive") {
            Disambiguator::Prefix("prim@")
        } else if is_lit(s, "mod") {
            Disambiguator::Prefix("mod@")
        } else if is_lit(s, "fn") || is_lit(s, "method") {
            Disambiguator::Suffix("()")
        } else if is_lit(s, "macro") {
            Disambiguator::Suffix("!")
        } else {
            Disambiguator::Empty
        }
    }

    /// The disambiguator of an item kind (`struct` gives `type@`, `fn`
    /// gives `()`, an unknown kind gives none).
    pub fn from(s: &str) -> (r: Disambiguator)
        ensures
            r == dis_from(s@),
    {
        let cs = chars_of(s);
        Self::from_kind(cs.as_slice())
    }
}

/// A section of a page, written `#name` in a link.
#[derive(Debug, Clone, Eq, PartialEq, Ord, PartialOrd, Hash)]
pub struct SectionOf<T> {
    pub name: T,
}

/// An associated item of a type, written `#kind.name` in a link.
#[derive(Debug, Clone, Eq, PartialEq, Ord, PartialOrd, Hash)]
pub struct AssociatedItemOf<T> {
    pub dis: Disambiguator,
    pub name: T,
}

/// What can follow an item page in a link.
#[derive(Debug, Clone, Eq, PartialEq, Ord, PartialOrd, Hash)]
pub enum AssocOrSectionOf<T> {
    Assoc(AssociatedItemOf<T>),
    Section(SectionOf<T>),
}

/// Where the path of a link starts.
#[derive(Debug, Clone, Eq, PartialEq, Ord, PartialOrd, Hash)]
pub enum StartOf<T> {
    /// Nothing before the modules.
    Empty,
    /// `./`: the current module.
    Local,
    /// The crate being converted: `crate`.
    Crate,
    /// A first module.
    Mod(T),
    /// A number of `../`: `super::` as many times.
    Supers(usize),
}

/// The element a link ends with.
#[derive(Debug, Clone, Eq, PartialEq, Ord, PartialOrd, Hash)]
pub enum EndOf<T> {
    Section(SectionOf<T>),
    Assoc(AssociatedItemOf<T>),
    Item { dis: Disambiguator, name: T, added: Option<AssocOrSectionOf<T>> },
    Module { name: T, section: Option<SectionOf<T>> },
}

/// The parts of a link.
#[derive(Debug, Clone, Eq, PartialEq, Ord, PartialOrd, Hash)]
pub struct LinkPartsOf<T> {
    pub start: StartOf<T>,
    /// The modules between the start and the end, as a path.
    pub modules: Option<T>,
    pub end: EndOf<T>,
}

pub type Section = SectionOf<String>;

pub type AssociatedItem = AssociatedItemOf<String>;

pub type AssocOrSection = AssocOrSectionOf<String>;

pub type Start = StartOf<String>;

pub type End = EndOf<String>;

pub type LinkParts = LinkPartsOf<String>;

pub type SSection = SectionOf<Seq<char>>;

pub type SAssociatedItem = AssociatedItemOf<Seq<char>>;

pub type SAssocOrSection = AssocOrSectionOf<Seq<char>>;

pub type SStart = StartOf<Seq<char>>;

pub type SEnd = EndOf<Seq<char>>;

pub type SLinkParts = LinkPartsOf<Seq<char>>;

impl View for SectionOf<String> {
    type V = SSection;

    open spec fn view(&self) -> SSection {
        SectionOf { name: self.name@ }
    }
}

impl View for AssociatedItemOf<String> {
    type V = SAssociatedItem;

    open spec fn view(&self) -> SAssociatedItem {
        AssociatedItemOf { dis: self.dis, name: self.name@ }
    }
}

impl View for AssocOrSectionOf<String> {
    type V = SAssocOrSection;

    open spec fn view(&self) -> SAssocOrSection {
        match self {
            AssocOrSectionOf::Assoc(a) => AssocOrSectionOf::Assoc(a@),
            AssocOrSectionOf::Section(s) => AssocOrSectionOf::Section(s@),
        }
    }
}

impl View for StartOf<String> {
    type V = SStart;

    open spec fn view(&self) -> SStart {
        match self {
            StartOf::Empty => StartOf::Empty,
            StartOf::Local => StartOf::Local,
            StartOf::Crate => StartOf::Crate,
            StartOf::Mod(m) => StartOf::Mod(m@),
            StartOf::Supers(n) => StartOf::Supers(*n),
        }
    }
}

pub open spec fn opt_section_view(s: Option<Section>) -> Option<SSection> {
    match s {
        Some(x) => Some(x@),
        None => None,
    }
}

pub open spec fn opt_aos_view(s: Option<AssocOrSection>) -> Option<SAssocOrSection> {
    match s {
        Some(x) => Some(x@),
        None => None,
    }
}

pub open spec fn opt_string_view(s: Option<String>) -> Option<Seq<char>> {
    match s {
        Some(x) => Some(x@),
        None => None,
    }
}

impl View for EndOf<String> {
    type V = SEnd;

    open spec fn view(&self) -> SEnd {
        match self {
            EndOf::Section(s) => EndOf::Section(s@),
            EndOf::Assoc(a) => EndOf::Assoc(a@),
            EndOf::Item { dis, name, added } => EndOf::Item {
                dis: *dis,
                name: name@,
                added: opt_aos_view(*added),
            },
            EndOf::Module { name, section } => EndOf::Module {
                name: name@,
                section: opt_section_view(*section),
            },
        }
    }
}

impl View for LinkPartsOf<String> {
    type V = SLinkParts;

    open spec fn view(&self) -> SLinkParts {
        LinkPartsOf {
            start: self.start@,
            modules: opt_string_view(self.modules),
            end: self.end@,
        }
    }
}

pub open spec fn opt_parts_view(o: Option<LinkParts>) -> Option<SLinkParts> {
    match o {
        Some(x) => Some(x@),
        None => None,
    }
}

/// The disambiguator of what follows an item.
pub open spec fn aos_dis(a: SAssocOrSection) -> Disambiguator {
    match a {
        AssocOrSectionOf::Section(_) => Disambiguator::Prefix("mod@"),
        AssocOrSectionOf::Assoc(a) => a.dis,
    }
}

/// The disambiguator of a whole link: the one of its last element.
pub open spec fn parts_dis(lp: SLinkParts) -> Disambiguator {
    match lp.end {
        EndOf::Section(_) => Disambiguator::Empty,
        EndOf::Module { .. } => Disambiguator::Prefix("mod@"),
        EndOf::Assoc(a) => a.dis,
        EndOf::Item { dis, added, .. } => match added {
            Some(AssocOrSectionOf::Assoc(a)) => a.dis,
            _ => dis,
        },
    }
}


/// End of the run of `..` components that starts at `i`.
pub open spec fn parents_end(cs: Seq<SComp>, i: int) -> int
    decreases cs.len() - i,
{
    if i < 0 || i >= cs.len() || !(cs[i] is ParentDir) {
        i
    } else {
        parents_end(cs, i + 1)
    }
}

/// End of the run of `.` components that starts at `i`.
pub open spec fn curdirs_end(cs: Seq<SComp>, i: int) -> int
    decreases cs.len() - i,
{
    if i < 0 || i >= cs.len() || !(cs[i] is CurDir) {
        i
    } else {
        curdirs_end(cs, i + 1)
    }
}

/// A component that may stand between the start and the end of a link:
/// `.`, `..` or a module name.
pub open spec fn is_module_comp(c: SComp) -> bool {
    ||| c is CurDir
    ||| c is ParentDir
    ||| (c is Normal && is_ident(c->Normal_0))
}

pub open spec fn all_module_comps(cs: Seq<SComp>) -> bool {
    forall|i: int| 0 <= i < cs.len() ==> is_module_comp(#[trigger] cs[i])
}

/// The start of a non-empty path and the components that follow it.
pub open spec fn start_and_rest(u: Seq<SComp>, krate: Seq<char>) -> Option<(SStart, Seq<SComp>)> {
    let supers = parents_end(u, 0);
    let rest = u.subrange(supers, u.len() as int);
    if rest.len() == 0 {
        if supers == 0 {
            Some((StartOf::Empty, rest))
        } else {
            Some((StartOf::Supers(supers as usize), rest))
        }
    } else {
        match rest[0] {
            Comp::CurDir => Some((StartOf::Local, rest.drop_first())),
            Comp::Normal(os) => {
                if os == krate {
                    Some((StartOf::Crate, rest.drop_first()))
                } else if supers == 0 {
                    if is_ident(os) {
                        Some((StartOf::Mod(os), rest.drop_first()))
                    } else {
                        None
                    }
                } else {
                    Some((StartOf::Supers(supers as usize), rest))
                }
            },
            _ => None,
        }
    }
}

/// The parts of a link whose end is known and whose path up to that end is
/// `u`: `u` must be made of `..`s, then `.`, the crate, or a module, then
/// modules.
pub open spec fn spec_start_and_middle(u: Seq<SComp>, end: SEnd, krate: Seq<char>) -> Option<SLinkParts> {
    if u.len() == 0 {
        Some(LinkPartsOf { start: StartOf::Empty, modules: None, end })
    } else {
        match start_and_rest(u, krate) {
            Some((start, rest)) => {
                if all_module_comps(rest) {
                    Some(
                        LinkPartsOf {
                            start,
                            modules: if rest.len() > 0 {
                                Some(join_path(rest))
                            } else {
                                None
                            },
                            end,
                        },
                    )
                } else {
                    None
                }
            },
            None => None,
        }
    }
}

/// A link to an associated item of the current type: `#kind.name`,
/// possibly after some `./`.
pub open spec fn spec_associated_item_parts(cs: Seq<SComp>) -> Option<SLinkParts> {
    let k = curdirs_end(cs, 0);
    if k + 1 == cs.len() {
        match assoc_item_split(comp_text(cs[k])) {
            Some((t, n)) => Some(
                LinkPartsOf {
                    start: StartOf::Local,
                    modules: None,
                    end: EndOf::Assoc(AssociatedItemOf { dis: dis_from(t), name: n }),
                },
            ),
            None => None,
        }
    } else {
        None
    }
}

/// A link to a section of a module page: `path/#section`; a bare
/// `#section` is local to the current page.
pub open spec fn spec_section_parts(cs: Seq<SComp>, krate: Seq<char>) -> Option<SLinkParts> {
    if spec_associated_item_parts(cs) is Some {
        None
    } else {
        match file_name(cs) {
            Some(f) => {
                if is_html_section(f) {
                    if parent_or_empty(cs).len() == 0 {
                        Some(
                            LinkPartsOf {
                                start: StartOf::Local,
                                modules: None,
                                end: EndOf::Section(SectionOf { name: f.drop_first() }),
                            },
                        )
                    } else {
                        spec_start_and_middle(
                            parent_or_empty(cs),
                            EndOf::Section(SectionOf { name: f.drop_first() }),
                            krate,
                        )
                    }
                } else {
                    None
                }
            },
            None => None,
        }
    }
}

pub open spec fn tail_added(t: ItemTail<Seq<char>>) -> Option<SAssocOrSection> {
    match t {
        ItemTail::Nothing => None,
        ItemTail::Assoc(k, n) => Some(
            AssocOrSectionOf::Assoc(AssociatedItemOf { dis: dis_from(k), name: n }),
        ),
        ItemTail::Section(n) => Some(AssocOrSectionOf::Section(SectionOf { name: n })),
    }
}

/// A link to an item page: `path/kind.Name.html` and what may follow.
pub open spec fn spec_item_parts(cs: Seq<SComp>, krate: Seq<char>) -> Option<SLinkParts> {
    match file_name(cs) {
        Some(f) => match item_file_split(f) {
            Some((ty, name, tail)) => spec_start_and_middle(
                parent_or_empty(cs),
                EndOf::Item { dis: dis_from(ty), name, added: tail_added(tail) },
                krate,
            ),
            None => None,
        },
        None => None,
    }
}

/// The module that a bare `index.html` stands for, from the path before it.
pub open spec fn index_module_end(par: Seq<SComp>, krate: Seq<char>) -> Option<SEnd> {
    if par.len() == 0 || par.last() is CurDir {
        Some(EndOf::Module { name: "self"@, section: None })
    } else if par.last() is ParentDir {
        Some(EndOf::Module { name: "super"@, section: None })
    } else if par.last() is Normal {
        let s = par.last()->Normal_0;
        if is_ident(s) {
            Some(EndOf::Module { name: if s == krate { "crate"@ } else { s }, section: None })
        } else {
            None
        }
    } else {
        None
    }
}

/// A link to a module: `path/name`, `path/name/index.html`, each with an
/// optional section. A bare `index.html#section` (or `./index.html#section`)
/// is a section of the current module, `self`, not of the current page.
pub open spec fn spec_module_parts(cs: Seq<SComp>, krate: Seq<char>) -> Option<SLinkParts> {
    match file_name(cs) {
        Some(f) => match module_file_split(f) {
            Some((name, sec)) => {
                let par = parent_or_empty(cs);
                let here = par.len() == 0 || par.last() is CurDir;
                let end: Option<SEnd> = match (name, sec) {
                    (Some(n), Some(s)) => Some(
                        EndOf::Module { name: n, section: Some(SectionOf { name: s }) },
                    ),
                    (None, Some(s)) => if here {
                        Some(EndOf::Module { name: "self"@, section: Some(SectionOf { name: s }) })
                    } else {
                        Some(EndOf::Section(SectionOf { name: s }))
                    },
                    (Some(n), None) => Some(EndOf::Module { name: n, section: None }),
                    (None, None) => index_module_end(par, krate),
                };
                let untreated = if name is None && (sec is None || here) {
                    parent_or_empty(par)
                } else {
                    par
                };
                match end {
                    Some(e) => spec_start_and_middle(untreated, e, krate),
                    None => None,
                }
            },
            None => None,
        },
        None => None,
    }
}

/// A link in the current crate or in a relative one.
pub open spec fn spec_start_middle_end(cs: Seq<SComp>, krate: Seq<char>) -> Option<SLinkParts> {
    if spec_associated_item_parts(cs) is Some {
        spec_associated_item_parts(cs)
    } else if spec_section_parts(cs, krate) is Some {
        spec_section_parts(cs, krate)
    } else if spec_item_parts(cs, krate) is Some {
        spec_item_parts(cs, krate)
    } else {
        spec_module_parts(cs, krate)
    }
}

/// `http:` or `https:` then at least one more component.
pub open spec fn is_http(cs: Seq<SComp>) -> bool {
    &&& cs.len() >= 2
    &&& cs[0] is Normal
    &&& (cs[0]->Normal_0 == "http:"@ || cs[0]->Normal_0 == "https:"@)
}

pub open spec fn dash_to_underscore(s: Seq<char>) -> Seq<char> {
    s.map_values(|c: char| if c == '-' { '_' } else { c })
}

/// The module that a crate on docs.rs stands for.
pub open spec fn crate_module(kc: Seq<char>, krate: Seq<char>) -> Option<SLinkParts> {
    let name = if kc == krate {
        "crate"@
    } else if is_ident(kc) {
        kc
    } else {
        dash_to_underscore(kc)
    };
    if kc == krate || is_ident(kc) || is_ident(dash_to_underscore(kc)) {
        Some(
            LinkPartsOf {
                start: StartOf::Empty,
                modules: None,
                end: EndOf::Module { name, section: None },
            },
        )
    } else {
        None
    }
}

/// What follows `docs.rs/` in a link, after an optional `crate/`.
pub open spec fn docs_rs_rest(cs: Seq<SComp>) -> Seq<SComp> {
    let rest0 = cs.subrange(2, cs.len() as int);
    if rest0.len() > 0 && rest0[0] == Comp::Normal("crate"@) {
        rest0.drop_first()
    } else {
        rest0
    }
}

/// A link to docs.rs: `https://docs.rs/[crate/]name[/version[/path]]`.
/// The crate alone is a module; a path after the version is read like a
/// link inside the documentation.
pub open spec fn spec_favored_docs_rs(cs: Seq<SComp>, krate: Seq<char>) -> Option<SLinkParts> {
    let rest = docs_rs_rest(cs);
    if cs.len() < 2 || rest.len() == 0 || !(rest[0] is Normal) {
        None
    } else if rest.len() >= 2 && !(rest[1] is Normal && is_docs_rs_version(rest[1]->Normal_0)) {
        None
    } else if rest.len() <= 2 {
        crate_module(rest[0]->Normal_0, krate)
    } else {
        spec_start_middle_end(rest.subrange(2, rest.len() as int), krate)
    }
}

/// A link to doc.rust-lang.org: `https://doc.rust-lang.org/[channel/]crate/path`
/// where the channel is `nightly`, `beta`, `stable` or a version and the
/// crate one of the crates documented there.
pub open spec fn spec_favored_doc_rust_lang_org(cs: Seq<SComp>, krate: Seq<char>) -> Option<SLinkParts> {
    if cs.len() < 3 {
        None
    } else {
        let coc = comp_text(cs[2]);
        let channel = is_channel(coc) || holds_rust_version(coc);
        if channel && cs.len() < 4 {
            None
        } else {
            let linked = if channel {
                comp_text(cs[3])
            } else {
                coc
            };
            let untreated = if channel {
                cs.subrange(3, cs.len() as int)
            } else {
                cs.subrange(2, cs.len() as int)
            };
            if is_std_crate(linked) {
                spec_start_middle_end(untreated, krate)
            } else {
                None
            }
        }
    }
}

/// A favored link: an `http(s)` link to docs.rs or doc.rust-lang.org, when
/// favored links are on.
pub open spec fn spec_favored_parts(cs: Seq<SComp>, krate: Seq<char>, favored: bool) -> Option<SLinkParts> {
    if !is_http(cs) || !favored {
        None
    } else if cs[1] == Comp::Normal("docs.rs"@) {
        spec_favored_docs_rs(cs, krate)
    } else if cs[1] == Comp::Normal("doc.rust-lang.org"@) {
        spec_favored_doc_rust_lang_org(cs, krate)
    } else {
        None
    }
}

/// The parts of a link, if it can be made an intra-doc link.
pub open spec fn spec_link_parts(cs: Seq<SComp>, krate: Seq<char>, favored: bool) -> Option<SLinkParts> {
    if spec_favored_parts(cs, krate, favored) is Some {
        spec_favored_parts(cs, krate, favored)
    } else {
        spec_start_middle_end(cs, krate)
    }
}

pub proof fn lemma_parents_end_bounds(cs: Seq<SComp>, i: int)
    requires
        0 <= i <= cs.len(),
    ensures
        i <= parents_end(cs, i) <= cs.len(),
        forall|j: int| i <= j < parents_end(cs, i) ==> #[trigger] cs[j] is ParentDir,
        parents_end(cs, i) < cs.len() ==> !(cs[parents_end(cs, i)] is ParentDir),
    decreases cs.len() - i,
{
    if i < cs.len() && cs[i] is ParentDir {
        lemma_parents_end_bounds(cs, i + 1);
    }
}

pub proof fn lemma_curdirs_end_bounds(cs: Seq<SComp>, i: int)
    requires
        0 <= i <= cs.len(),
    ensures
        i <= curdirs_end(cs, i) <= cs.len(),
        forall|j: int| i <= j < curdirs_end(cs, i) ==> #[trigger] cs[j] is CurDir,
        curdirs_end(cs, i) < cs.len() ==> !(cs[curdirs_end(cs, i)] is CurDir),
    decreases cs.len() - i,
{
    if i < cs.len() && cs[i] is CurDir {
        lemma_curdirs_end_bounds(cs, i + 1);
    }
}

fn is_parent_dir(c: &Component) -> (b: bool)
    ensures
        b == (c@ is ParentDir),
{
    match c {
        Comp::ParentDir => true,
        _ => false,
    }
}

pub(crate) fn is_cur_dir(c: &Component) -> (b: bool)
    ensures
        b == (c@ is CurDir),
{
    match c {
        Comp::CurDir => true,
        _ => false,
    }
}

fn parents_end_exec(cs: &[Component], i: usize) -> (r: usize)
    requires
        i <= cs@.len(),
    ensures
        r == parents_end(comps_view(cs@), i as int),
        i <= r <= cs@.len(),
{
    proof {
        lemma_parents_end_bounds(comps_view(cs@), i as int);
    }
    let mut j = i;
    while j < cs.len() && is_parent_dir(&cs[j])
        invariant
            i <= j <= cs@.len(),
            parents_end(comps_view(cs@), j as int) == parents_end(comps_view(cs@), i as int),
        decreases cs@.len() - j,
    {
        j = j + 1;
    }
    j
}

pub(crate) fn curdirs_end_exec(cs: &[Component], i: usize) -> (r: usize)
    requires
        i <= cs@.len(),
    ensures
        r == curdirs_end(comps_view(cs@), i as int),
        i <= r <= cs@.len(),
{
    proof {
        lemma_curdirs_end_bounds(comps_view(cs@), i as int);
    }
    let mut j = i;
    while j < cs.len() && is_cur_dir(&cs[j])
        invariant
            i <= j <= cs@.len(),
            curdirs_end(comps_view(cs@), j as int) == curdirs_end(comps_view(cs@), i as int),
        decreases cs@.len() - j,
    {
        j = j + 1;
    }
    j
}

pub(crate) fn is_module_comp_exec(c: &Component) -> (b: bool)
    ensures
        b == is_module_comp(c@),
{
    match c {
        Comp::CurDir => true,
        Comp::ParentDir => true,
        Comp::Normal(n) => is_ident_exec(n.as_slice()),
        Comp::RootDir => false,
    }
}

/// The text of one component.
pub(crate) fn comp_text_exec(c: &Component) -> (r: Vec<char>)
    ensures
        r@ == comp_text(c@),
{
    match c {
        Comp::RootDir => {
            let mut r = Vec::new();
            r.push('/');
            assert(r@ =~= seq!['/']);
            r
        },
        Comp::CurDir => {
            let mut r = Vec::new();
            r.push('.');
            assert(r@ =~= seq!['.']);
            r
        },
        Comp::ParentDir => {
            let mut r = Vec::new();
            r.push('.');
            r.push('.');
            assert(r@ =~= seq!['.', '.']);
            r
        },
        Comp::Normal(n) => sub_chars(n.as_slice(), 0, n.len()),
    }
}

/// The parts of a link whose end is known and whose path up to that end
/// is `u[..]`, see [`spec_start_and_middle`].
fn start_and_middle_comps(u: &[Component], end: End, krate: &[char]) -> (r: Option<LinkParts>)
    ensures
        opt_parts_view(r) == spec_start_and_middle(comps_view(u@), end@, krate@),
{
    let ghost cv = comps_view(u@);
    if u.len() == 0 {
        return Some(LinkPartsOf { start: StartOf::Empty, modules: None, end });
    }
    let supers = parents_end_exec(u, 0);
    let ghost rest = cv.subrange(supers as int, cv.len() as int);
    let (start, first): (Start, usize) = if supers == u.len() {
        if supers == 0 {
            (StartOf::Empty, supers)
        } else {
            (StartOf::Supers(supers), supers)
        }
    } else {
        assert(rest[0] == u@[supers as int]@);
        match &u[supers] {
            Comp::CurDir => (StartOf::Local, supers + 1),
            Comp::Normal(os) => {
                if chars_eq(os.as_slice(), krate) {
                    (StartOf::Crate, supers + 1)
                } else if supers == 0 {
                    if is_ident_exec(os.as_slice()) {
                        (StartOf::Mod(string_of(os.as_slice())), supers + 1)
                    } else {
                        return None;
                    }
                } else {
                    (StartOf::Supers(supers), supers)
                }
            },
            _ => {
                return None;
            },
        }
    };
    let ghost rest2 = cv.subrange(first as int, cv.len() as int);
    assert(first == supers + 1 ==> rest.drop_first() =~= rest2);
    assert(first == supers ==> rest =~= rest2);
    assert(start_and_rest(cv, krate@) == Some((start@, rest2)));
    let mut j = first;
    while j < u.len()
        invariant
            first <= j <= u@.len(),
            u@.len() > 0,
            cv == comps_view(u@),
            cv.len() == u@.len(),
            rest2 == cv.subrange(first as int, cv.len() as int),
            start_and_rest(cv, krate@) == Some((start@, rest2)),
            forall|t: int| first <= t < j ==> is_module_comp(#[trigger] cv[t]),
        decreases u@.len() - j,
    {
        if !is_module_comp_exec(&u[j]) {
            assert(rest2[j - first] == cv[j as int]);
            assert(!all_module_comps(rest2));
            return None;
        }
        j = j + 1;
    }
    assert(all_module_comps(rest2)) by {
        assert forall|i: int| 0 <= i < rest2.len() implies is_module_comp(#[trigger] rest2[i]) by {
            assert(rest2[i] == cv[first + i]);
        }
    }
    assert(comps_view(u@.subrange(first as int, u@.len() as int)) =~= rest2);
    let modules = if first < u.len() {
        Some(string_of(join_path_exec(u, first).as_slice()))
    } else {
        None
    };
    Some(LinkPartsOf { start, modules, end })
}

/// The parts of a link whose end is known and whose path up to that end
/// is `untreated`: `..`s, then `.`, the crate or a module, then modules.
pub fn start_and_middle(untreated: &str, end: End, krate: &Krate) -> (r: Option<LinkParts>)
    ensures
        opt_parts_view(r) == spec_start_and_middle(components(untreated@), end@, krate.0@),
{
    let cs = chars_of(untreated);
    let comps = components_exec(cs.as_slice());
    let k = chars_of(krate.name());
    start_and_middle_comps(comps.as_slice(), end, k.as_slice())
}

fn associated_item_parts_comps(cs: &[Component]) -> (r: Option<LinkParts>)
    ensures
        opt_parts_view(r) == spec_associated_item_parts(comps_view(cs@)),
{
    let k = curdirs_end_exec(cs, 0);
    if k >= cs.len() || k + 1 != cs.len() {
        return None;
    }
    let text = comp_text_exec(&cs[k]);
    match assoc_item_split_exec(text.as_slice()) {
        Some((t, n)) => {
            let dis = Disambiguator::from_kind(t.as_slice());
            Some(
                LinkPartsOf {
                    start: StartOf::Local,
                    modules: None,
                    end: EndOf::Assoc(AssociatedItemOf { dis, name: string_of(n.as_slice()) }),
                },
            )
        },
        None => None,
    }
}

/// A link to an associated item of the current type, see
/// [`spec_associated_item_parts`].
pub fn associated_item_parts(path: &str) -> (r: Option<LinkParts>)
    ensures
        opt_parts_view(r) == spec_associated_item_parts(components(path@)),
{
    let cs = chars_of(path);
    let comps = components_exec(cs.as_slice());
    associated_item_parts_comps(comps.as_slice())
}

/// The last component when it is a normal one.
fn file_name_exec(cs: &[Component]) -> (r: Option<Vec<char>>)
    ensures
        match r {
            Some(f) => file_name(comps_view(cs@)) == Some(f@),
            None => file_name(comps_view(cs@)) is None,
        },
{
    if cs.len() == 0 {
        return None;
    }
    match &cs[cs.len() - 1] {
        Comp::Normal(n) => Some(sub_chars(n.as_slice(), 0, n.len())),
        _ => None,
    }
}

/// Length of the parent of `cs[..len]`, or 0 when it has none.
fn parent_len(cs: &[Component], len: usize) -> (r: usize)
    requires
        len <= cs@.len(),
    ensures
        comps_view(cs@).subrange(0, r as int) == parent_or_empty(comps_view(cs@).subrange(0, len as int)),
        r <= len,
{
    let ghost cv = comps_view(cs@).subrange(0, len as int);
    if len == 0 {
        assert(comps_view(cs@).subrange(0, 0) =~= cv);
        return 0;
    }
    match &cs[len - 1] {
        Comp::RootDir => {
            assert(comps_view(cs@).subrange(0, 0) =~= Seq::<SComp>::empty());
            0
        },
        _ => {
            assert(comps_view(cs@).subrange(0, len - 1) =~= cv.drop_last());
            len - 1
        },
    }
}

fn section_parts_comps(cs: &[Component], krate: &[char]) -> (r: Option<LinkParts>)
    ensures
        opt_parts_view(r) == spec_section_parts(comps_view(cs@), krate@),
{
    if associated_item_parts_comps(cs).is_some() {
        return None;
    }
    let f = match file_name_exec(cs) {
        Some(f) => f,
        None => {
            return None;
        },
    };
    if !is_html_section_exec(f.as_slice()) {
        return None;
    }
    let name = sub_chars(f.as_slice(), 1, f.len());
    assert(name@ =~= f@.drop_first());
    let p = parent_len(cs, cs.len());
    assert(comps_view(cs@).subrange(0, cs@.len() as int) =~= comps_view(cs@));
    let par = slice_comps(cs, 0, p);
    if par.len() == 0 {
        return Some(
            LinkPartsOf {
                start: StartOf::Local,
                modules: None,
                end: EndOf::Section(SectionOf { name: string_of(name.as_slice()) }),
            },
        );
    }
    start_and_middle_comps(
        par.as_slice(),
        EndOf::Section(SectionOf { name: string_of(name.as_slice()) }),
        krate,
    )
}

/// A copy of the components `cs[a..b]`.
fn slice_comps(cs: &[Component], a: usize, b: usize) -> (r: Vec<Component>)
    requires
        a <= b <= cs@.len(),
    ensures
        comps_view(r@) == comps_view(cs@).subrange(a as int, b as int),
{
    let mut r: Vec<Component> = Vec::new();
    let mut i: usize = a;
    while i < b
        invariant
            a <= i <= b <= cs@.len(),
            comps_view(r@) == comps_view(cs@).subrange(a as int, i as int),
        decreases b - i,
    {
        let c: Component = match &cs[i] {
            Comp::RootDir => Comp::RootDir,
            Comp::CurDir => Comp::CurDir,
            Comp::ParentDir => Comp::ParentDir,
            Comp::Normal(x) => Comp::Normal(sub_chars(x.as_slice(), 0, x.len())),
        };
        assert(c@ == cs@[i as int]@) by {
            match &cs@[i as int] {
                Comp::Normal(x) => {
                    assert(x@.subrange(0, x@.len() as int) =~= x@);
                },
                _ => {},
            }
        }
        let ghost old_r = r@;
        r.push(c);
        assert(comps_view(r@) == comps_view(old_r).push(c@)) by {
            assert(comps_view(r@) =~= comps_view(old_r).push(c@));
        }
        assert(comps_view(cs@)[i as int] == cs@[i as int]@);
        assert(comps_view(r@) =~= comps_view(cs@).subrange(a as int, i + 1));
        i = i + 1;
    }
    r
}

/// A link to a section of a module page, see [`spec_section_parts`].
pub fn section_parts(path: &str, krate: &Krate) -> (r: Option<LinkParts>)
    ensures
        opt_parts_view(r) == spec_section_parts(components(path@), krate.0@),
{
    let cs = chars_of(path);
    let comps = components_exec(cs.as_slice());
    let k = chars_of(krate.name());
    section_parts_comps(comps.as_slice(), k.as_slice())
}

fn item_parts_comps(cs: &[Component], krate: &[char]) -> (r: Option<LinkParts>)
    ensures
        opt_parts_view(r) == spec_item_parts(comps_view(cs@), krate@),
{
    let f = match file_name_exec(cs) {
        Some(f) => f,
        None => {
            return None;
        },
    };
    match item_file_split_exec(f.as_slice()) {
        Some((ty, name, tail)) => {
            let dis = Disambiguator::from_kind(ty.as_slice());
            let added: Option<AssocOrSection> = match tail {
                ItemTail::Nothing => None,
                ItemTail::Assoc(t, n) => Some(
                    AssocOrSectionOf::Assoc(
                        AssociatedItemOf {
                            dis: Disambiguator::from_kind(t.as_slice()),
                            name: string_of(n.as_slice()),
                        },
                    ),
                ),
                ItemTail::Section(x) => Some(
                    AssocOrSectionOf::Section(SectionOf { name: string_of(x.as_slice()) }),
                ),
            };
            let p = parent_len(cs, cs.len());
            assert(comps_view(cs@).subrange(0, cs@.len() as int) =~= comps_view(cs@));
            let par = slice_comps(cs, 0, p);
            start_and_middle_comps(
                par.as_slice(),
                EndOf::Item { dis, name: string_of(name.as_slice()), added },
                krate,
            )
        },
        None => None,
    }
}

/// A link to an item page, see [`spec_item_parts`].
pub fn item_parts(path: &str, krate: &Krate) -> (r: Option<LinkParts>)
    ensures
        opt_parts_view(r) == spec_item_parts(components(path@), krate.0@),
{
    let cs = chars_of(path);
    let comps = components_exec(cs.as_slice());
    let k = chars_of(krate.name());
    item_parts_comps(comps.as_slice(), k.as_slice())
}

fn index_module_end_exec(cs: &[Component], p: usize, krate: &[char]) -> (r: Option<End>)
    requires
        p <= cs@.len(),
    ensures
        match r {
            Some(e) => index_module_end(comps_view(cs@).subrange(0, p as int), krate@) == Some(e@),
            None => index_module_end(comps_view(cs@).subrange(0, p as int), krate@) is None,
        },
{
    let ghost par = comps_view(cs@).subrange(0, p as int);
    if p == 0 {
        return Some(EndOf::Module { name: "self".to_owned(), section: None });
    }
    assert(par.last() == cs@[p - 1]@);
    match &cs[p - 1] {
        Comp::CurDir => Some(EndOf::Module { name: "self".to_owned(), section: None }),
        Comp::ParentDir => Some(EndOf::Module { name: "super".to_owned(), section: None }),
        Comp::Normal(s) => {
            if !is_ident_exec(s.as_slice()) {
                return None;
            }
            let name = if chars_eq(s.as_slice(), krate) {
                "crate".to_owned()
            } else {
                string_of(s.as_slice())
            };
            Some(EndOf::Module { name, section: None })
        },
        Comp::RootDir => None,
    }
}

fn module_parts_comps(cs: &[Component], krate: &[char]) -> (r: Option<LinkParts>)
    ensures
        opt_parts_view(r) == spec_module_parts(comps_view(cs@), krate@),
{
    let f = match file_name_exec(cs) {
        Some(f) => f,
        None => {
            return None;
        },
    };
    let (name, sec) = match module_file_split_exec(f.as_slice()) {
        Some(x) => x,
        None => {
            return None;
        },
    };
    let p = parent_len(cs, cs.len());
    assert(comps_view(cs@).subrange(0, cs@.len() as int) =~= comps_view(cs@));
    let here = p == 0 || is_cur_dir(&cs[p - 1]);
    proof {
        if p > 0 {
            assert(comps_view(cs@).subrange(0, p as int).last() == cs@[p - 1]@);
        }
    }
    let both_none = name.is_none() && (sec.is_none() || here);
    let end: End = match (name, sec) {
        (Some(n), Some(s)) => EndOf::Module {
            name: string_of(n.as_slice()),
            section: Some(SectionOf { name: string_of(s.as_slice()) }),
        },
        (None, Some(s)) => if here {
            EndOf::Module {
                name: "self".to_owned(),
                section: Some(SectionOf { name: string_of(s.as_slice()) }),
            }
        } else {
            EndOf::Section(SectionOf { name: string_of(s.as_slice()) })
        },
        (Some(n), None) => EndOf::Module { name: string_of(n.as_slice()), section: None },
        (None, None) => match index_module_end_exec(cs, p, krate) {
            Some(e) => e,
            None => {
                return None;
            },
        },
    };
    let u = if both_none {
        let p2 = parent_len(cs, p);
        p2
    } else {
        p
    };
    let par = slice_comps(cs, 0, u);
    start_and_middle_comps(par.as_slice(), end, krate)
}

/// A link to a module page, see [`spec_module_parts`].
pub fn module_parts(path: &str, krate: &Krate) -> (r: Option<LinkParts>)
    ensures
        opt_parts_view(r) == spec_module_parts(components(path@), krate.0@),
{
    let cs = chars_of(path);
    let comps = components_exec(cs.as_slice());
    let k = chars_of(krate.name());
    module_parts_comps(comps.as_slice(), k.as_slice())
}

fn start_middle_end_comps(cs: &[Component], krate: &[char]) -> (r: Option<LinkParts>)
    ensures
        opt_parts_view(r) == spec_start_middle_end(comps_view(cs@), krate@),
{
    let a = associated_item_parts_comps(cs);
    if a.is_some() {
        return a;
    }
    let s = section_parts_comps(cs, krate);
    if s.is_some() {
        return s;
    }
    let i = item_parts_comps(cs, krate);
    if i.is_some() {
        return i;
    }
    module_parts_comps(cs, krate)
}

/// A link in the current crate or relative to it, see
/// [`spec_start_middle_end`].
pub fn start_middle_end(path: &str, krate: &Krate) -> (r: Option<LinkParts>)
    ensures
        opt_parts_view(r) == spec_start_middle_end(components(path@), krate.0@),
{
    let cs = chars_of(path);
    let comps = components_exec(cs.as_slice());
    let k = chars_of(krate.name());
    start_middle_end_comps(comps.as_slice(), k.as_slice())
}

fn dash_to_underscore_exec(s: &[char]) -> (r: Vec<char>)
    ensures
        r@ == dash_to_underscore(s@),
{
    let mut r: Vec<char> = Vec::new();
    let mut i: usize = 0;
    while i < s.len()
        invariant
            0 <= i <= s@.len(),
            r@ == dash_to_underscore(s@.subrange(0, i as int)),
        decreases s@.len() - i,
    {
        let c = if s[i] == '-' {
            '_'
        } else {
            s[i]
        };
        r.push(c);
        assert(r@ =~= dash_to_underscore(s@.subrange(0, i + 1)));
        i = i + 1;
    }
    assert(s@.subrange(0, s@.len() as int) =~= s@);
    r
}

fn crate_module_exec(kc: &[char], krate: &[char]) -> (r: Option<LinkParts>)
    ensures
        opt_parts_view(r) == crate_module(kc@, krate@),
{
    let name = if chars_eq(kc, krate) {
        "crate".to_owned()
    } else if is_ident_exec(kc) {
        string_of(kc)
    } else {
        let d = dash_to_underscore_exec(kc);
        if is_ident_exec(d.as_slice()) {
            string_of(d.as_slice())
        } else {
            return None;
        }
    };
    Some(
        LinkPartsOf {
            start: StartOf::Empty,
            modules: None,
            end: EndOf::Module { name, section: None },
        },
    )
}

pub(crate) fn normal_is(c: &Component, lit: &str) -> (b: bool)
    ensures
        b == (c@ == Comp::Normal(lit@)),
{
    match c {
        Comp::Normal(n) => is_lit(n.as_slice(), lit),
        _ => false,
    }
}

fn favored_docs_rs_comps(cs: &[Component], krate: &[char]) -> (r: Option<LinkParts>)
    ensures
        opt_parts_view(r) == spec_favored_docs_rs(comps_view(cs@), krate@),
{
    let ghost cv = comps_view(cs@);
    if cs.len() < 2 {
        return None;
    }
    let first: usize = if cs.len() > 2 && normal_is(&cs[2], "crate") {
        3
    } else {
        2
    };
    let ghost rest = docs_rs_rest(cv);
    assert(rest =~= cv.subrange(first as int, cv.len() as int));
    if first >= cs.len() {
        return None;
    }
    let kc = match &cs[first] {
        Comp::Normal(n) => n,
        _ => {
            return None;
        },
    };
    if cs.len() - first >= 2 {
        let ok = match &cs[first + 1] {
            Comp::Normal(v) => is_docs_rs_version_exec(v.as_slice()),
            _ => false,
        };
        if !ok {
            return None;
        }
    }
    if cs.len() - first <= 2 {
        crate_module_exec(kc.as_slice(), krate)
    } else {
        let tail = slice_comps(cs, first + 2, cs.len());
        assert(comps_view(tail@) =~= rest.subrange(2, rest.len() as int));
        start_middle_end_comps(tail.as_slice(), krate)
    }
}

/// A link to docs.rs, see [`spec_favored_docs_rs`].
pub fn favored_docs_rs(path: &str, krate: &Krate) -> (r: Option<LinkParts>)
    ensures
        opt_parts_view(r) == spec_favored_docs_rs(components(path@), krate.0@),
{
    let cs = chars_of(path);
    let comps = components_exec(cs.as_slice());
    let k = chars_of(krate.name());
    favored_docs_rs_comps(comps.as_slice(), k.as_slice())
}

fn favored_doc_rust_lang_org_comps(cs: &[Component], krate: &[char]) -> (r: Option<LinkParts>)
    ensures
        opt_parts_view(r) == spec_favored_doc_rust_lang_org(comps_view(cs@), krate@),
{
    let ghost cv = comps_view(cs@);
    if cs.len() < 3 {
        return None;
    }
    let coc = comp_text_exec(&cs[2]);
    let channel = is_channel_exec(coc.as_slice()) || holds_rust_version_exec(coc.as_slice());
    if channel && cs.len() < 4 {
        return None;
    }
    let (linked, from): (Vec<char>, usize) = if channel {
        (comp_text_exec(&cs[3]), 3)
    } else {
        (coc, 2)
    };
    if !is_std_crate_exec(linked.as_slice()) {
        return None;
    }
    let untreated = slice_comps(cs, from, cs.len());
    start_middle_end_comps(untreated.as_slice(), krate)
}

/// A link to doc.rust-lang.org, see [`spec_favored_doc_rust_lang_org`].
pub fn favored_doc_rust_lang_org(path: &str, krate: &Krate) -> (r: Option<LinkParts>)
    ensures
        opt_parts_view(r) == spec_favored_doc_rust_lang_org(components(path@), krate.0@),
{
    let cs = chars_of(path);
    let comps = components_exec(cs.as_slice());
    let k = chars_of(krate.name());
    favored_doc_rust_lang_org_comps(comps.as_slice(), k.as_slice())
}

fn favored_parts_comps(cs: &[Component], krate: &[char], favored: bool) -> (r: Option<LinkParts>)
    ensures
        opt_parts_view(r) == spec_favored_parts(comps_view(cs@), krate@, favored),
{
    if cs.len() < 2 || !(normal_is(&cs[0], "http:") || normal_is(&cs[0], "https:")) || !favored {
        return None;
    }
    if normal_is(&cs[1], "docs.rs") {
        favored_docs_rs_comps(cs, krate)
    } else if normal_is(&cs[1], "doc.rust-lang.org") {
        favored_doc_rust_lang_org_comps(cs, krate)
    } else {
        None
    }
}

/// A favored link, see [`spec_favored_parts`].
pub fn favored_parts(path: &str, opts: &ConversionOptions) -> (r: Option<LinkParts>)
    ensures
        opt_parts_view(r) == spec_favored_parts(
            components(path@),
            opts.krate.0@,
            opts.favored_links,
        ),
{
    let cs = chars_of(path);
    let comps = components_exec(cs.as_slice());
    let k = chars_of(opts.krate.name());
    favored_parts_comps(comps.as_slice(), k.as_slice(), opts.favored_links)
}

/// The parts of a link; the link itself, unchanged, when it cannot be made
/// an intra-doc link.
pub fn link_parts(path: &str, opts: &ConversionOptions) -> (r: Result<LinkParts, String>)
    ensures
        match r {
            Ok(lp) => spec_link_parts(components(path@), opts.krate.0@, opts.favored_links)
                == Some(lp@),
            Err(e) => spec_link_parts(components(path@), opts.krate.0@, opts.favored_links) is None
                && e@ == path@,
        },
{
    let cs = chars_of(path);
    let comps = components_exec(cs.as_slice());
    let k = chars_of(opts.krate.name());
    match favored_parts_comps(comps.as_slice(), k.as_slice(), opts.favored_links) {
        Some(lp) => Ok(lp),
        None => match start_middle_end_comps(comps.as_slice(), k.as_slice()) {
            Some(lp) => Ok(lp),
            None => Err(path.to_owned()),
        },
    }
}

/// The path segments that the start of a link stands for.
pub open spec fn start_segs(s: SStart) -> Seq<Seq<char>> {
    match s {
        StartOf::Empty => seq![],
        StartOf::Local => seq![],
        StartOf::Crate => seq!["crate"@],
        StartOf::Mod(m) => seq![m],
        StartOf::Supers(n) => Seq::new(n as nat, |i: int| "super"@),
    }
}

/// The path segment that a component between start and end stands for.
pub open spec fn seg_of(c: SComp) -> Seq<char> {
    match c {
        Comp::ParentDir => "super"@,
        Comp::Normal(n) => n,
        Comp::CurDir => "self"@,
        Comp::RootDir => "crate"@,
    }
}

/// The path segments of the modules of a link.
pub open spec fn module_segs(m: Option<Seq<char>>) -> Seq<Seq<char>> {
    match m {
        Some(t) => components(t).map_values(|c: SComp| seg_of(c)),
        None => seq![],
    }
}

/// The path segments of the end of a link. An associated item belongs to
/// the current type, or to `Self` when no type block is open.
pub open spec fn end_segs(e: SEnd, block: Option<Seq<char>>) -> Seq<Seq<char>> {
    match e {
        EndOf::Section(_) => seq![],
        EndOf::Assoc(a) => seq![
            match block {
                Some(b) => b,
                None => "Self"@,
            },
            a.name,
        ],
        EndOf::Item { name, added, .. } => match added {
            Some(AssocOrSectionOf::Assoc(a)) => seq![name, a.name],
            _ => seq![name],
        },
        EndOf::Module { name, .. } => seq![name],
    }
}

/// The section a link ends with, if any.
pub open spec fn end_section(e: SEnd) -> Option<Seq<char>> {
    match e {
        EndOf::Section(s) => Some(s.name),
        EndOf::Item { added, .. } => match added {
            Some(AssocOrSectionOf::Section(s)) => Some(s.name),
            _ => None,
        },
        EndOf::Module { section, .. } => match section {
            Some(s) => Some(s.name),
            None => None,
        },
        EndOf::Assoc(_) => None,
    }
}

/// Path segments joined with `::`.
pub open spec fn join_colons(segs: Seq<Seq<char>>) -> Seq<char>
    decreases segs.len(),
{
    if segs.len() == 0 {
        seq![]
    } else if segs.len() == 1 {
        segs[0]
    } else {
        join_colons(segs.drop_last()) + "::"@ + segs.last()
    }
}

/// The prefix a disambiguator adds, when prefixes are asked for.
pub open spec fn prefix_text(d: Disambiguator, on: bool) -> Seq<char> {
    match d {
        Disambiguator::Prefix(p) => if on {
            p@
        } else {
            seq![]
        },
        _ => seq![],
    }
}

/// The suffix a disambiguator adds; suffixes are always written.
pub open spec fn suffix_text(d: Disambiguator) -> Seq<char> {
    match d {
        Disambiguator::Suffix(p) => p@,
        _ => seq![],
    }
}

pub open spec fn section_text(s: Option<Seq<char>>) -> Seq<char> {
    match s {
        Some(n) => seq!['#'] + n,
        None => seq![],
    }
}

/// The path segments of a whole link.
pub open spec fn parts_segs(lp: SLinkParts, block: Option<Seq<char>>) -> Seq<Seq<char>> {
    start_segs(lp.start) + module_segs(lp.modules) + end_segs(lp.end, block)
}

/// The intra-doc form of a link: its disambiguating prefix (when asked
/// for), its path joined with `::`, its disambiguating suffix, and its
/// section.
pub open spec fn spec_transform(lp: SLinkParts, disambiguate: bool, block: Option<Seq<char>>) -> Seq<char> {
    prefix_text(parts_dis(lp), disambiguate) + join_colons(parts_segs(lp, block)) + suffix_text(
        parts_dis(lp),
    ) + section_text(end_section(lp.end))
}

pub open spec fn segs_view(v: Seq<Vec<char>>) -> Seq<Seq<char>> {
    v.map_values(|x: Vec<char>| x@)
}

fn push_seg(segs: &mut Vec<Vec<char>>, seg: Vec<char>)
    ensures
        segs_view(final(segs)@) == segs_view(old(segs)@).push(seg@),
{
    segs.push(seg);
    assert(segs_view(segs@) =~= segs_view(old(segs)@).push(seg@));
}

/// Path segments joined with `::`.
fn join_colons_exec(segs: &[Vec<char>]) -> (r: Vec<char>)
    ensures
        r@ == join_colons(segs_view(segs@)),
{
    let mut r: Vec<char> = Vec::new();
    let mut i: usize = 0;
    while i < segs.len()
        invariant
            0 <= i <= segs@.len(),
            r@ == join_colons(segs_view(segs@.subrange(0, i as int))),
        decreases segs@.len() - i,
    {
        let ghost prev = segs_view(segs@.subrange(0, i as int));
        let ghost next = segs_view(segs@.subrange(0, i + 1));
        assert(next.drop_last() =~= prev);
        assert(next.last() == segs@[i as int]@);
        if i > 0 {
            r.push(':');
            r.push(':');
        }
        extend_chars(&mut r, segs[i].as_slice());
        proof {
            reveal_strlit("::");
            if i == 0 {
                assert(prev =~= seq![]);
                assert(next.len() == 1);
            }
        }
        assert(r@ =~= join_colons(next));
        i = i + 1;
    }
    assert(segs@.subrange(0, segs@.len() as int) =~= segs@);
    r
}

impl AssocOrSectionOf<String> {
    /// The disambiguator of what follows an item: the one of the associated
    /// item, or `mod@` for a section.
    pub fn dis(&self) -> (r: Disambiguator)
        ensures
            r == aos_dis(self@),
    {
        match self {
            AssocOrSectionOf::Section(_) => Disambiguator::Prefix("mod@"),
            AssocOrSectionOf::Assoc(a) => a.dis,
        }
    }
}

impl LinkPartsOf<String> {
    /// The disambiguator of the link: the one of its last element.
    pub fn dis(&self) -> (r: Disambiguator)
        ensures
            r == parts_dis(self@),
    {
        match &self.end {
            EndOf::Section(_) => Disambiguator::Empty,
            EndOf::Module { .. } => Disambiguator::Prefix("mod@"),
            EndOf::Assoc(a) => a.dis,
            EndOf::Item { dis, added, .. } => match added {
                Some(AssocOrSectionOf::Assoc(a)) => a.dis,
                _ => *dis,
            },
        }
    }

    /// The intra-doc form of the link, see [`spec_transform`]: `block` is the
    /// type that associated items belong to, when there is one.
    #[verifier::spinoff_prover]
    #[verifier::rlimit(40)]
    pub fn transform_with(&self, disambiguate: bool, block: Option<&str>) -> (r: String)
        ensures
            r@ == spec_transform(
                self@,
                disambiguate,
                match block {
                    Some(b) => Some(b@),
                    None => None,
                },
            ),
    {
        let ghost sblock = match block {
            Some(b) => Some(b@),
            None => None,
        };
        let mut segs: Vec<Vec<char>> = Vec::new();
        match &self.start {
            StartOf::Empty => {},
            StartOf::Local => {},
            StartOf::Crate => {
                push_seg(&mut segs, chars_of("crate"));
            },
            StartOf::Mod(m) => {
                push_seg(&mut segs, chars_of(m.as_str()));
            },
            StartOf::Supers(n) => {
                let mut i: usize = 0;
                while i < *n
                    invariant
                        0 <= i <= *n,
                        segs_view(segs@) == Seq::new(i as nat, |j: int| "super"@),
                    decreases *n - i,
                {
                    push_seg(&mut segs, chars_of("super"));
                    assert(segs_view(segs@) =~= Seq::new((i + 1) as nat, |j: int| "super"@));
                    i = i + 1;
                }
            },
        }
        assert(segs_view(segs@) =~= start_segs(self@.start));
        let ghost after_start = segs_view(segs@);
        match &self.modules {
            Some(m) => {
                let mc = chars_of(m.as_str());
                let comps = components_exec(mc.as_slice());
                let mut i: usize = 0;
                while i < comps.len()
                    invariant
                        0 <= i <= comps@.len(),
                        comps_view(comps@) == components(m@),
                        segs_view(segs@) == after_start + comps_view(comps@).subrange(
                            0,
                            i as int,
                        ).map_values(|c: SComp| seg_of(c)),
                    decreases comps@.len() - i,
                {
                    let seg = match &comps[i] {
                        Comp::ParentDir => chars_of("super"),
                        Comp::Normal(n) => sub_chars(n.as_slice(), 0, n.len()),
                        Comp::CurDir => chars_of("self"),
                        Comp::RootDir => chars_of("crate"),
                    };
                    proof {
                        assert(comps_view(comps@)[i as int] == comps@[i as int]@);
                        match &comps@[i as int] {
                            Comp::Normal(n) => {
                                assert(n@.subrange(0, n@.len() as int) =~= n@);
                            },
                            _ => {},
                        }
                    }
                    push_seg(&mut segs, seg);
                    assert(segs_view(segs@) =~= after_start + comps_view(comps@).subrange(
                        0,
                        i + 1,
                    ).map_values(|c: SComp| seg_of(c)));
                    i = i + 1;
                }
                assert(comps_view(comps@).subrange(0, comps@.len() as int) =~= comps_view(
                    comps@,
                ));
            },
            None => {},
        }
        assert(segs_view(segs@) =~= start_segs(self@.start) + module_segs(self@.modules));
        let ghost after_modules = segs_view(segs@);
        let mut section: Option<&String> = None;
        match &self.end {
            EndOf::Section(s) => {
                section = Some(&s.name);
            },
            EndOf::Assoc(a) => {
                match block {
                    Some(b) => push_seg(&mut segs, chars_of(b)),
                    None => push_seg(&mut segs, chars_of("Self")),
                }
                push_seg(&mut segs, chars_of(a.name.as_str()));
            },
            EndOf::Item { name, added, .. } => {
                push_seg(&mut segs, chars_of(name.as_str()));
                match added {
                    Some(AssocOrSectionOf::Assoc(a)) => {
                        push_seg(&mut segs, chars_of(a.name.as_str()));
                    },
                    Some(AssocOrSectionOf::Section(s)) => {
                        section = Some(&s.name);
                    },
                    None => {},
                }
            },
            EndOf::Module { name, section: sec } => {
                push_seg(&mut segs, chars_of(name.as_str()));
                match sec {
                    Some(s) => {
                        section = Some(&s.name);
                    },
                    None => {},
                }
            },
        }
        assert(segs_view(segs@) =~= after_modules + end_segs(self@.end, sblock));
        assert(match section {
            Some(s) => end_section(self@.end) == Some(s@),
            None => end_section(self@.end) is None,
        });
        let dis = self.dis();
        let mut r: Vec<char> = Vec::new();
        match dis {
            Disambiguator::Prefix(p) => {
                if disambiguate {
                    r = chars_of(p);
                }
            },
            _ => {},
        }
        let path = join_colons_exec(segs.as_slice());
        extend_chars(&mut r, path.as_slice());
        match dis {
            Disambiguator::Suffix(p) => {
                let sc = chars_of(p);
                extend_chars(&mut r, sc.as_slice());
            },
            _ => {},
        }
        match section {
            Some(s) => {
                r.push('#');
                let sc = chars_of(s.as_str());
                extend_chars(&mut r, sc.as_slice());
            },
            None => {},
        }
        assert(r@ =~= spec_transform(self@, disambiguate, sblock));
        string_of(r.as_slice())
    }
}

/// Asking for disambiguators only adds a prefix (`type@`, `mod@`, ...) in
/// front of the link; without them no prefix is written, and the rest of
/// the link, suffixes (`()`, `!`) included, is the same either way.
pub proof fn law_disambiguate_only_prefixes(lp: SLinkParts, block: Option<Seq<char>>)
    ensures
        spec_transform(lp, true, block) == prefix_text(parts_dis(lp), true) + spec_transform(
            lp,
            false,
            block,
        ),
        prefix_text(parts_dis(lp), false) == Seq::<char>::empty(),
{
    let d = parts_dis(lp);
    assert(prefix_text(d, false) =~= Seq::<char>::empty());
    assert(spec_transform(lp, true, block) =~= prefix_text(d, true) + spec_transform(
        lp,
        false,
        block,
    ));
}

proof fn lemma_http_text_not_ident(os: Seq<char>)
    requires
        os == "http:"@ || os == "https:"@,
    ensures
        !is_ident(os),
{
    reveal_strlit("http:");
    reveal_strlit("https:");
    if os == "http:"@ {
        assert(!crate::text::is_ident_char(os[4]));
    } else {
        assert(!crate::text::is_ident_char(os[5]));
    }
}

/// A path that starts with `http:` or `https:` has no start.
proof fn lemma_http_start_fails(u: Seq<SComp>, end: SEnd, krate: Seq<char>)
    requires
        u.len() > 0,
        u[0] is Normal,
        u[0]->Normal_0 == "http:"@ || u[0]->Normal_0 == "https:"@,
        is_ident(krate),
    ensures
        spec_start_and_middle(u, end, krate) is None,
{
    lemma_http_text_not_ident(u[0]->Normal_0);
    assert(parents_end(u, 0) == 0);
    assert(u.subrange(0, u.len() as int) =~= u);
}

/// With favored links off, a link that starts with `http:` or `https:`
/// (and another component) is never read: it stays as it is.
pub proof fn law_no_favored_keeps_web_links(cs: Seq<SComp>, krate: Seq<char>)
    requires
        is_http(cs),
        is_ident(krate),
    ensures
        spec_link_parts(cs, krate, false) is None,
{
    assert(spec_favored_parts(cs, krate, false) is None);
    assert(curdirs_end(cs, 0) == 0);
    assert(spec_associated_item_parts(cs) is None);
    let par = parent_or_empty(cs);
    if file_name(cs) is Some {
        assert(par == cs.drop_last());
        assert(par[0] == cs[0]);
        if is_html_section(file_name(cs)->Some_0) {
            lemma_http_start_fails(
                par,
                EndOf::Section(SectionOf { name: file_name(cs)->Some_0.drop_first() }),
                krate,
            );
        }
        assert(spec_section_parts(cs, krate) is None);
        match item_file_split(file_name(cs)->Some_0) {
            Some((ty, name, tail)) => {
                lemma_http_start_fails(
                    par,
                    EndOf::Item { dis: dis_from(ty), name, added: tail_added(tail) },
                    krate,
                );
            },
            None => {},
        }
        assert(spec_item_parts(cs, krate) is None);
        match module_file_split(file_name(cs)->Some_0) {
            Some((name, sec)) => {
                match (name, sec) {
                    (None, None) => {
                        if par.len() == 1 {
                            lemma_http_text_not_ident(cs[0]->Normal_0);
                            assert(index_module_end(par, krate) is None);
                        } else {
                            let pp = parent_or_empty(par);
                            if index_module_end(par, krate) is Some {
                                assert(pp == par.drop_last());
                                assert(pp[0] == cs[0]);
                                lemma_http_start_fails(pp, index_module_end(par, krate)->Some_0, krate);
                            }
                        }
                    },
                    (Some(n), Some(s)) => {
                        lemma_http_start_fails(
                            par,
                            EndOf::Module { name: n, section: Some(SectionOf { name: s }) },
                            krate,
                        );
                    },
                    (None, Some(s)) => {
                        if par.len() == 0 || par.last() is CurDir {
                            let pp = parent_or_empty(par);
                            assert(pp == par.drop_last());
                            assert(pp[0] == cs[0]);
                            lemma_http_start_fails(
                                pp,
                                EndOf::Module { name: "self"@, section: Some(SectionOf { name: s }) },
                                krate,
                            );
                        } else {
                            lemma_http_start_fails(par, EndOf::Section(SectionOf { name: s }), krate);
                        }
                    },
                    (Some(n), None) => {
                        lemma_http_start_fails(par, EndOf::Module { name: n, section: None }, krate);
                    },
                }
            },
            None => {},
        }
        assert(spec_module_parts(cs, krate) is None);
    }
}

/// No crate documented on doc.rust-lang.org is a channel or holds a Rust
/// version.
proof fn lemma_std_crate_is_no_channel(k: Seq<char>)
    requires
        is_std_crate(k),
    ensures
        !is_channel(k),
        !holds_rust_version(k),
{
    reveal_strlit("std");
    reveal_strlit("alloc");
    reveal_strlit("core");
    reveal_strlit("test");
    reveal_strlit("proc_macro");
    reveal_strlit("nightly");
    reveal_strlit("beta");
    reveal_strlit("stable");
    assert(k.len() != 0);
    assert(k[0] != "beta"@[0] || k.len() != 4);
    assert forall|i: int| 0 <= i < k.len() implies k[i] != '1' by {
        if i == 0 {} else if i == 1 {} else if i == 2 {} else if i == 3 {} else if i == 4 {
        } else if i == 5 {} else if i == 6 {} else if i == 7 {} else if i == 8 {} else {}
    }
    if holds_rust_version(k) {
        let i = choose|i: int| crate::grammar::rust_version_at(k, i);
        assert(k[i] != '1');
    }
}

/// The web link to doc.rust-lang.org, `https://doc.rust-lang.org/` then `path`.
pub open spec fn doc_rust_lang_link(path: Seq<SComp>) -> Seq<SComp> {
    seq![Comp::Normal("https:"@), Comp::Normal("doc.rust-lang.org"@)] + path
}

/// A release channel in a link to doc.rust-lang.org changes nothing: with
/// favored links on, `https://doc.rust-lang.org/<channel>/<crate>/<path>`,
/// for each of the channels `nightly`, `beta` and `stable`, has the parts
/// of `https://doc.rust-lang.org/<crate>/<path>`, for every crate
/// documented there and every path.
pub proof fn law_channels_change_nothing(
    c: Seq<char>,
    k: Seq<char>,
    path: Seq<SComp>,
    krate: Seq<char>,
)
    requires
        c == "nightly"@ || c == "beta"@ || c == "stable"@,
        is_std_crate(k),
    ensures
        spec_favored_parts(
            doc_rust_lang_link(seq![Comp::Normal(c), Comp::Normal(k)] + path),
            krate,
            true,
        ) == spec_favored_parts(doc_rust_lang_link(seq![Comp::Normal(k)] + path), krate, true),
        spec_favored_parts(doc_rust_lang_link(seq![Comp::Normal(k)] + path), krate, true)
            is Some ==> spec_link_parts(
            doc_rust_lang_link(seq![Comp::Normal(c), Comp::Normal(k)] + path),
            krate,
            true,
        ) == spec_link_parts(doc_rust_lang_link(seq![Comp::Normal(k)] + path), krate, true),
{
    reveal_strlit("https:");
    reveal_strlit("docs.rs");
    reveal_strlit("doc.rust-lang.org");
    lemma_std_crate_is_no_channel(k);
    let a = doc_rust_lang_link(seq![Comp::Normal(c), Comp::Normal(k)] + path);
    let b = doc_rust_lang_link(seq![Comp::Normal(k)] + path);
    assert(a[0] == Comp::Normal("https:"@));
    assert(b[0] == Comp::Normal("https:"@));
    assert(a[1] == Comp::Normal("doc.rust-lang.org"@));
    assert(b[1] == Comp::Normal("doc.rust-lang.org"@));
    assert("doc.rust-lang.org"@.len() != "docs.rs"@.len());
    assert(a[2] == Comp::Normal(c));
    assert(a[3] == Comp::Normal(k));
    assert(b[2] == Comp::Normal(k));
    assert(a.subrange(3, a.len() as int) =~= seq![Comp::Normal(k)] + path);
    assert(b.subrange(2, b.len() as int) =~= seq![Comp::Normal(k)] + path);
}

/// A link to the index page of a parent directory, `../index.html` after
/// any path, names the parent module: its parts end with the module
/// `super`, and its intra-doc form ends with `super` (never `self`).
#[verifier::rlimit(40)]
pub proof fn law_parent_index_is_super(
    pre: Seq<SComp>,
    krate: Seq<char>,
    favored: bool,
    dis: bool,
    block: Option<Seq<char>>,
)
    requires
        !favored || !is_http(pre + seq![Comp::ParentDir, Comp::Normal("index.html"@)]),
        spec_link_parts(pre + seq![Comp::ParentDir, Comp::Normal("index.html"@)], krate, favored)
            is Some,
    ensures
        ({
            let lp = spec_link_parts(
                pre + seq![Comp::ParentDir, Comp::Normal("index.html"@)],
                krate,
                favored,
            )->Some_0;
            let t = spec_transform(lp, dis, block);
            &&& lp.end == EndOf::Module { name: "super"@, section: None }
            &&& t.len() >= 5
            &&& t.subrange(t.len() - 5, t.len() as int) == "super"@
        }),
{
    let ix = "index.html"@;
    let cs = pre + seq![Comp::ParentDir, Comp::Normal(ix)];
    reveal_strlit("index.html");
    reveal_strlit("index");
    reveal_strlit("html");
    reveal_strlit("super");
    assert(cs.last() == Comp::Normal(ix));
    assert(cs[cs.len() - 2] == Comp::<Seq<char>>::ParentDir);
    assert(ix[0] == 'i');
    // Not an associated item, nor a section.
    assert(spec_associated_item_parts(cs) is None);
    assert(file_name(cs) == Some(ix));
    assert(!is_html_section(ix));
    assert(spec_section_parts(cs, krate) is None);
    // Not an item page: `index.html` holds one dot.
    assert forall|i: int| 0 <= i < ix.len() && ix[i] == '.' implies i == 5 by {
        if i == 0 {} else if i == 1 {} else if i == 2 {} else if i == 3 {} else if i == 4 {
        } else if i == 5 {} else if i == 6 {} else if i == 7 {} else if i == 8 {} else {}
    }
    let d1 = crate::text::find_from(ix, 0, '.');
    crate::text::lemma_find_from_bounds(ix, 0, '.');
    if d1 < ix.len() {
        crate::text::lemma_find_from_bounds(ix, d1 + 1, '.');
    }
    assert(item_file_split(ix) is None);
    assert(spec_item_parts(cs, krate) is None);
    // A module page: the module of its directory, `..`.
    assert(ix.subrange(0, 5) =~= "index"@);
    assert(ix.subrange(6, 10) =~= "html"@);
    assert(module_file_split(ix) == Some((None::<Seq<char>>, None::<Seq<char>>)));
    let par = parent_or_empty(cs);
    assert(par =~= pre.push(Comp::ParentDir));
    assert(parent_or_empty(par) =~= pre);
    let e = EndOf::Module { name: "super"@, section: None };
    assert(index_module_end(par, krate) == Some(e));
    assert(spec_favored_parts(cs, krate, favored) is None);
    let lp = spec_link_parts(cs, krate, favored)->Some_0;
    assert(lp.end == e);
    let segs = parts_segs(lp, block);
    assert(segs.last() == "super"@);
    let j = join_colons(segs);
    assert(j.subrange(j.len() - 5, j.len() as int) =~= "super"@);
    let t = spec_transform(lp, dis, block);
    assert(t =~= prefix_text(parts_dis(lp), dis) + j);
    assert(t.subrange(t.len() - 5, t.len() as int) =~= j.subrange(j.len() - 5, j.len() as int));
}

} // verus!
