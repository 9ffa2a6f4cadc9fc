//! A link read as a path, and the kind of page it points to.
use vstd::prelude::*;
use crate::grammar::{
    assoc_item_split, assoc_item_split_exec, holds_rust_version, holds_rust_version_exec,
    is_channel, is_channel_exec, is_std_crate, is_std_crate_exec, item_file_split,
    item_file_split_exec, module_file_split, module_file_split_exec,
};
use crate::link_parts::{
    Disambiguator as Dis, all_module_comps, comp_text_exec, curdirs_end, curdirs_end_exec,
    dis_from, is_http as comps_are_http, is_module_comp, is_module_comp_exec,
    lemma_curdirs_end_bounds, normal_is,
};
use crate::path::{Comp, Component, SComp, comp_text, components, components_exec, comps_view};
use crate::text::{chars_of, is_html_section, is_html_section_exec, string_of, sub_chars};

verus! {

/// A candidate for a transformation to an intra-doc link: a path.
#[derive(Debug, Clone, PartialEq, Eq, Hash)]
pub struct Link(pub String);

/// A rustdoc disambiguator: none, one that starts the link (`type@`) or one
/// that ends it (`()`).
#[derive(Debug, Copy, Clone, PartialEq, Eq, Hash)]
pub enum Disambiguator {
    Empty,
    Start(&'static str),
    End(&'static str),
}

/// The disambiguator of an item kind.
pub open spec fn spec_dis_from(s: Seq<char>) -> Disambiguator {
    match dis_from(s) {
        Dis::Empty => Disambiguator::Empty,
        Dis::Prefix(p) => Disambiguator::Start(p),
        Dis::Suffix(p) => Disambiguator::End(p),
    }
}

impl Disambiguator {
    /// The disambiguator of an item kind (`struct` gives `type@`, `fn`
    /// gives `()`, an unknown kind gives none).
    pub fn from(s: &str) -> (r: Disambiguator)
        ensures
            r == spec_dis_from(s@),
    {
        match Dis::from(s) {
            Dis::Empty => Disambiguator::Empty,
            Dis::Prefix(p) => Disambiguator::Start(p),
            Dis::Suffix(p) => Disambiguator::End(p),
        }
    }
}

/// Where a link starts.
#[derive(Debug, Clone, PartialEq, Eq, Hash)]
pub enum LinkStart {
    Local,
    Mod(String),
    Crate(String),
    Supers(usize),
}

/// The modules a link goes through.
#[derive(Debug, Clone, PartialEq, Eq, Hash)]
pub struct Modules(pub String);

/// An associated item of a type.
#[derive(Debug, Clone, PartialEq, Eq, Hash)]
pub struct AssociatedItem {
    pub dis: Disambiguator,
    pub name: String,
}

/// What a link ends with.
#[derive(Debug, Clone, PartialEq, Eq, Hash)]
pub enum LinkEnd {
    Section { name: String },
    Assoc(AssociatedItem),
    Item { dis: Disambiguator, name: String, assoc: Option<AssociatedItem> },
    Module { name: String },
}

/// The parts of a link.
#[derive(Debug, Clone, PartialEq, Eq, Hash)]
pub struct LinkParts {
    pub start: LinkStart,
    pub modules: Option<Modules>,
    pub end: LinkEnd,
}

/// The disambiguator of a whole link: `mod@` for a section or a module,
/// else the one of its associated item, else the one of its item.
pub open spec fn spec_parts_dis(lp: LinkParts) -> Disambiguator {
    match lp.end {
        LinkEnd::Section { .. } => Disambiguator::Start("mod@"),
        LinkEnd::Module { .. } => Disambiguator::Start("mod@"),
        LinkEnd::Assoc(a) => a.dis,
        LinkEnd::Item { dis, assoc, .. } => match assoc {
            Some(a) => a.dis,
            None => dis,
        },
    }
}

impl LinkParts {
    /// The disambiguator of the link, see [`spec_parts_dis`].
    pub fn dis(&self) -> (r: Disambiguator)
        ensures
            r == spec_parts_dis(*self),
    {
        match &self.end {
            LinkEnd::Section { .. } => Disambiguator::Start("mod@"),
            LinkEnd::Module { .. } => Disambiguator::Start("mod@"),
            LinkEnd::Assoc(a) => a.dis,
            LinkEnd::Item { dis, assoc, .. } => match assoc {
                Some(a) => a.dis,
                None => *dis,
            },
        }
    }
}

/// An `http:` or `https:` link, to a docs.rs crate or to a crate of
/// doc.rust-lang.org (after a channel or a version).
pub open spec fn spec_is_favored(cs: Seq<SComp>) -> bool {
    &&& comps_are_http(cs)
    &&& cs.len() >= 3
    &&& {
        ||| cs[1] == Comp::Normal("docs.rs"@)
        ||| (cs[1] == Comp::Normal("doc.rust-lang.org"@) && (is_channel(comp_text(cs[2]))
            || holds_rust_version(comp_text(cs[2]))) && cs.len() >= 4 && is_std_crate(
            comp_text(cs[3]),
        ))
    }
}

/// The text of an associated item anchor: the component after some `.`s,
/// when it is the last one.
pub open spec fn assoc_text(cs: Seq<SComp>) -> Option<Seq<char>> {
    let k = curdirs_end(cs, 0);
    if k + 1 == cs.len() {
        Some(comp_text(cs[k]))
    } else {
        None
    }
}

/// The kind and the name of an associated item link: `#kind.name`,
/// possibly after some `./`.
pub open spec fn spec_assoc(cs: Seq<SComp>) -> Option<(Seq<char>, Seq<char>)> {
    match assoc_text(cs) {
        Some(t) => assoc_item_split(t),
        None => None,
    }
}

/// The name of a section link: `#section`, possibly after some `./`.
pub open spec fn spec_section(cs: Seq<SComp>) -> Option<Seq<char>> {
    if spec_assoc(cs) is Some {
        None
    } else {
        match assoc_text(cs) {
            Some(t) => if is_html_section(t) {
                Some(t.drop_first())
            } else {
                None
            },
            None => None,
        }
    }
}

/// A link to an item page, `kind.Name.html` after modules, `.` and `..`,
/// with an optional associated item or section.
pub open spec fn spec_is_item(cs: Seq<SComp>) -> bool {
    &&& !comps_are_http(cs)
    &&& !spec_is_favored(cs)
    &&& item_file_split(comp_text(cs.last())) is Some
    &&& all_module_comps(cs.drop_last())
}

/// A link to a module page, `name` or `index.html` after modules, `.` and
/// `..`, with an optional section.
pub open spec fn spec_is_module(cs: Seq<SComp>) -> bool {
    &&& !comps_are_http(cs)
    &&& !spec_is_favored(cs)
    &&& module_file_split(comp_text(cs.last())) is Some
    &&& all_module_comps(cs.drop_last())
}

fn is_http_comps(cs: &[Component]) -> (b: bool)
    ensures
        b == comps_are_http(comps_view(cs@)),
{
    cs.len() >= 2 && (normal_is(&cs[0], "http:") || normal_is(&cs[0], "https:"))
}

fn all_module_comps_upto(cs: &[Component], n: usize) -> (b: bool)
    requires
        n <= cs@.len(),
    ensures
        b == all_module_comps(comps_view(cs@).subrange(0, n as int)),
{
    let ghost v = comps_view(cs@).subrange(0, n as int);
    let mut i: usize = 0;
    while i < n
        invariant
            n <= cs@.len(),
            v == comps_view(cs@).subrange(0, n as int),
            0 <= i <= n,
            forall|j: int| 0 <= j < i ==> is_module_comp(#[trigger] v[j]),
        decreases n - i,
    {
        if !is_module_comp_exec(&cs[i]) {
            assert(!is_module_comp(v[i as int]));
            return false;
        }
        i = i + 1;
    }
    true
}

fn assoc_text_exec(cs: &[Component]) -> (r: Option<Vec<char>>)
    ensures
        match r {
            Some(t) => assoc_text(comps_view(cs@)) == Some(t@),
            None => assoc_text(comps_view(cs@)) is None,
        },
{
    let k = curdirs_end_exec(cs, 0);
    if k < cs.len() && k + 1 == cs.len() {
        Some(comp_text_exec(&cs[k]))
    } else {
        None
    }
}

impl Link {
    /// Wraps a path in a `Link`, to check whether it can be transformed.
    pub fn from(path: &str) -> (r: Link)
        ensures
            r.0@ == path@,
    {
        Link(path.to_owned())
    }

    /// Whether the link is an HTTP one, favored links included.
    pub fn is_http(&self) -> (b: bool)
        ensures
            b == comps_are_http(components(self.0@)),
    {
        let cs = components_exec(chars_of(self.0.as_str()).as_slice());
        is_http_comps(cs.as_slice())
    }

    /// Whether the link is a favored HTTP link, see [`spec_is_favored`].
    pub fn is_favored(&self) -> (b: bool)
        ensures
            b == spec_is_favored(components(self.0@)),
    {
        let cs = components_exec(chars_of(self.0.as_str()).as_slice());
        if !is_http_comps(cs.as_slice()) || cs.len() < 3 {
            return false;
        }
        if normal_is(&cs[1], "docs.rs") {
            return true;
        }
        if !normal_is(&cs[1], "doc.rust-lang.org") {
            return false;
        }
        let channel = comp_text_exec(&cs[2]);
        if !(is_channel_exec(channel.as_slice()) || holds_rust_version_exec(channel.as_slice())) {
            return false;
        }
        if cs.len() < 4 {
            return false;
        }
        let krate = comp_text_exec(&cs[3]);
        is_std_crate_exec(krate.as_slice())
    }

    /// The parts of an associated item link, `None` when the link is not
    /// one, see [`spec_assoc`].
    pub fn associated_item_parts(&self) -> (r: Option<LinkParts>)
        ensures
            match spec_assoc(components(self.0@)) {
                Some((t, n)) => {
                    &&& r matches Some(lp)
                    &&& r->Some_0.start is Local
                    &&& r->Some_0.modules is None
                    &&& r->Some_0.end matches LinkEnd::Assoc(a)
                    &&& r->Some_0.end->Assoc_0.dis == spec_dis_from(t)
                    &&& r->Some_0.end->Assoc_0.name@ == n
                },
                None => r is None,
            },
    {
        let cs = components_exec(chars_of(self.0.as_str()).as_slice());
        let t = match assoc_text_exec(cs.as_slice()) {
            Some(t) => t,
            None => {
                return None;
            },
        };
        match assoc_item_split_exec(t.as_slice()) {
            Some((k, n)) => {
                let kind = string_of(k.as_slice());
                let dis = Disambiguator::from(kind.as_str());
                Some(
                    LinkParts {
                        start: LinkStart::Local,
                        modules: None,
                        end: LinkEnd::Assoc(AssociatedItem { dis, name: string_of(n.as_slice()) }),
                    },
                )
            },
            None => None,
        }
    }

    /// The parts of a section link, `None` when the link is not one, see
    /// [`spec_section`].
    pub fn section_parts(&self) -> (r: Option<LinkParts>)
        ensures
            match spec_section(components(self.0@)) {
                Some(n) => {
                    &&& r matches Some(lp)
                    &&& r->Some_0.start is Local
                    &&& r->Some_0.modules is None
                    &&& r->Some_0.end matches LinkEnd::Section { name }
                    &&& r->Some_0.end->Section_name@ == n
                },
                None => r is None,
            },
    {
        if self.associated_item_parts().is_some() {
            return None;
        }
        let cs = components_exec(chars_of(self.0.as_str()).as_slice());
        let t = match assoc_text_exec(cs.as_slice()) {
            Some(t) => t,
            None => {
                return None;
            },
        };
        if is_html_section_exec(t.as_slice()) {
            let name = string_of(sub_chars(t.as_slice(), 1, t.len()).as_slice());
            assert(t@.subrange(1, t@.len() as int) =~= t@.drop_first());
            Some(LinkParts { start: LinkStart::Local, modules: None, end: LinkEnd::Section { name } })
        } else {
            None
        }
    }

    /// Whether the link ends with an item page, see [`spec_is_item`]. A
    /// link with no component at all is not accepted.
    pub fn is_item(&self) -> (b: bool)
        requires
            components(self.0@).len() > 0,
        ensures
            b == spec_is_item(components(self.0@)),
    {
        if self.is_http() || self.is_favored() {
            return false;
        }
        let cs = components_exec(chars_of(self.0.as_str()).as_slice());
        let n = cs.len();
        let last = comp_text_exec(&cs[n - 1]);
        if item_file_split_exec(last.as_slice()).is_none() {
            return false;
        }
        let r = all_module_comps_upto(cs.as_slice(), n - 1);
        assert(comps_view(cs@).subrange(0, n - 1) =~= comps_view(cs@).drop_last());
        r
    }

    /// Whether the link ends with a module page, see [`spec_is_module`].
    /// A link with no component at all is not accepted.
    pub fn is_module(&self) -> (b: bool)
        requires
            components(self.0@).len() > 0,
        ensures
            b == spec_is_module(components(self.0@)),
    {
        if self.is_http() || self.is_favored() {
            return false;
        }
        let cs = components_exec(chars_of(self.0.as_str()).as_slice());
        let n = cs.len();
        let last = comp_text_exec(&cs[n - 1]);
        if module_file_split_exec(last.as_slice()).is_none() {
            return false;
        }
        let r = all_module_comps_upto(cs.as_slice(), n - 1);
        assert(comps_view(cs@).subrange(0, n - 1) =~= comps_view(cs@).drop_last());
        r
    }
}

} // verus!
