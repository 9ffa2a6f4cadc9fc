//! A line-by-line pass over a file that removes the empty doc comment lines
//! that a conversion leaves behind: a second empty doc comment line in a
//! row, and an empty doc comment line that ends a comment; and the
//! conversion of a link to an item page, from the parts of the link.
use vstd::prelude::*;
use crate::lines::{
    is_doc_comment_line, is_doc_comment_line_exec, is_empty_doc_comment,
    is_empty_doc_comment_exec,
};
use crate::check::{supers_text, supers_text_exec};
use crate::lines::local_path_exec;
use crate::text::{chars_eq, chars_of, extend_chars, occurs_at_exec, string_of};
use crate::transform::is_local_link;

verus! {

/// The action taken for a line by this pass; a deletion says why.
#[derive(Debug, Clone, PartialEq, Eq)]
pub enum Action {
    Unchanged { line: String },
    Deleted { line: String, reason: &'static str, pos: usize },
    Replaced { line: String, new: String, pos: usize },
}

/// The state carried from one line to the next.
#[derive(Debug, Clone, PartialEq, Eq)]
pub struct Context {
    pub krate: String,
    pub prev_line: Option<String>,
    pub curr_impl: Option<String>,
    pub end_impl: String,
}

impl Context {
    /// The state at the start of a file of the crate `krate`.
    pub fn new(krate: String) -> (r: Self)
        ensures
            r.krate == krate,
            r.prev_line is None,
            r.curr_impl is None,
            r.end_impl@ == Seq::<char>::empty(),
    {
        Context { krate, prev_line: None, curr_impl: None, end_impl: String::new() }
    }
}

/// A line and whether its treatment is still to come.
#[derive(Debug, Clone, PartialEq, Eq)]
pub struct Line {
    pub action: Action,
    pub treatment_is_pending: bool,
}

impl Line {
    /// A line whose treatment is done.
    pub fn treated(action: Action) -> (r: Self)
        ensures
            r.action == action,
            !r.treatment_is_pending,
    {
        Line { action, treatment_is_pending: false }
    }

    /// A line whose treatment is still to come.
    pub fn pending(action: Action) -> (r: Self)
        ensures
            r.action == action,
            r.treatment_is_pending,
    {
        Line { action, treatment_is_pending: true }
    }
}

/// The pass over the lines of a file: `incoming` holds the lines still to
/// read, `read` counts those already read, `treated` the results.
#[derive(Debug, Clone, PartialEq, Eq)]
pub struct Process {
    pub treated: Vec<Line>,
    pub pending: Vec<usize>,
    pub incoming: Vec<String>,
    pub read: usize,
    pub ctx: Context,
}

/// `l` is a treated deletion of `line`, at `pos`, for `reason`.
pub open spec fn deleted_line(l: Line, line: Seq<char>, reason: Seq<char>, pos: usize) -> bool {
    &&& !l.treatment_is_pending
    &&& l.action matches Action::Deleted { line: x, reason: y, pos: p }
    &&& x@ == line
    &&& y@ == reason
    &&& p == pos
}

/// `l` keeps `line` as it is.
pub open spec fn unchanged_line(l: Line, line: Seq<char>) -> bool {
    &&& !l.treatment_is_pending
    &&& l.action matches Action::Unchanged { line: x }
    &&& x@ == line
}

impl Process {
    /// A pass over `lines`, in a file of the crate `krate`.
    pub fn new(lines: Vec<String>, krate: String) -> (r: Self)
        ensures
            r.treated@.len() == 0,
            r.pending@.len() == 0,
            r.incoming == lines,
            r.read == 0,
            r.ctx.krate == krate,
            r.ctx.prev_line is None,
            r.ctx.curr_impl is None,
            r.ctx.end_impl@ == Seq::<char>::empty(),
    {
        Process {
            treated: Vec::new(),
            pending: Vec::new(),
            incoming: lines,
            read: 0,
            ctx: Context::new(krate),
        }
    }

    /// Reads the next line and treats it; `None` when no line is left.
    ///
    /// A second empty doc comment line in a row is deleted. When the line
    /// after an empty doc comment line is not a doc comment line, the empty
    /// one is deleted in place of its treated line (the line that follows
    /// is then not recorded). Any other line is kept and remembered.
    pub fn process_next_line(&mut self) -> (r: Option<()>)
        requires
            old(self).ctx.prev_line is Some ==> old(self).treated@.len() > 0,
            old(self).read < usize::MAX,
        ensures
            old(self).incoming@.len() == 0 ==> r is None && *final(self) == *old(self),
            old(self).incoming@.len() > 0 ==> {
                let curr = old(self).incoming@[0]@;
                let pos = (old(self).read + 1) as usize;
                let t0 = old(self).treated@;
                let t1 = final(self).treated@;
                &&& r is Some
                &&& final(self).incoming@ == old(self).incoming@.drop_first()
                &&& final(self).read == pos
                &&& final(self).pending == old(self).pending
                &&& final(self).ctx.krate == old(self).ctx.krate
                &&& final(self).ctx.curr_impl == old(self).ctx.curr_impl
                &&& final(self).ctx.end_impl == old(self).ctx.end_impl
                &&& match old(self).ctx.prev_line {
                    Some(p) if is_empty_doc_comment(p@) && is_empty_doc_comment(curr) => {
                        &&& t1.len() == t0.len() + 1
                        &&& t1.drop_last() == t0
                        &&& deleted_line(t1.last(), curr, "Consecutives empty lines"@, pos)
                        &&& final(self).ctx.prev_line is None
                    },
                    Some(p) if is_empty_doc_comment(p@) && !is_doc_comment_line(curr) => {
                        &&& t1.len() == t0.len()
                        &&& t1.drop_last() == t0.drop_last()
                        &&& deleted_line(
                            t1.last(),
                            p@,
                            "Empty comment line at the end of a comment"@,
                            (pos - 1) as usize,
                        )
                        &&& final(self).ctx.prev_line is None
                    },
                    _ => {
                        &&& t1.len() == t0.len() + 1
                        &&& t1.drop_last() == t0
                        &&& unchanged_line(t1.last(), curr)
                        &&& final(self).ctx.prev_line matches Some(c) && c@ == curr
                    },
                }
            },
    {
        if self.incoming.len() == 0 {
            return None;
        }
        let curr_line = self.incoming.remove(0);
        self.read = self.read + 1;
        let pos = self.read;
        let curr = chars_of(curr_line.as_str());
        let prev = self.ctx.prev_line.take();
        match prev {
            Some(prev_line) => {
                let pc = chars_of(prev_line.as_str());
                let prev_is_empty = is_empty_doc_comment_exec(pc.as_slice());
                if prev_is_empty && is_empty_doc_comment_exec(curr.as_slice()) {
                    proof {
                        reveal_strlit("Consecutives empty lines");
                    }
                    self.treated.push(
                        Line::treated(
                            Action::Deleted {
                                line: curr_line,
                                reason: "Consecutives empty lines",
                                pos: pos,
                            },
                        ),
                    );
                    return Some(());
                } else if prev_is_empty && !is_doc_comment_line_exec(curr.as_slice()) {
                    proof {
                        reveal_strlit("Empty comment line at the end of a comment");
                    }
                    let last = self.treated.len() - 1;
                    self.treated.set(
                        last,
                        Line::treated(
                            Action::Deleted {
                                line: prev_line,
                                reason: "Empty comment line at the end of a comment",
                                pos: pos - 1,
                            },
                        ),
                    );
                    return Some(());
                }
                self.ctx.prev_line = Some(prev_line);
            },
            None => {},
        }
        self.treated.push(Line::treated(Action::Unchanged { line: curr_line.clone() }));
        self.ctx.prev_line = Some(curr_line);
        Some(())
    }
}

/// The parts of a link definition to an item page,
/// `[name]: ../../krate/mod1/kind.Name.html#kind.additional`: everything up
/// to the target (`link_name`), the leading `../` (`supers`), the crate,
/// the directories after it (`intermediates`), the name of the item
/// (`elem2`) and the associated item (`additional`).
#[derive(Debug, Clone, PartialEq, Eq)]
pub struct ItemCaptures {
    /// The whole line.
    pub whole: String,
    pub link_name: String,
    pub root: Option<String>,
    pub supers: Option<String>,
    pub intermediates: Option<String>,
    pub elem2: String,
    pub additional: Option<String>,
}

/// The number of `c` in `s`.
pub open spec fn count_char(s: Seq<char>, c: char) -> nat
    decreases s.len(),
{
    if s.len() == 0 {
        0
    } else {
        count_char(s.drop_last(), c) + if s.last() == c {
            1nat
        } else {
            0nat
        }
    }
}

/// `s` with each `/` replaced by `::`.
pub open spec fn slashes_to_colons(s: Seq<char>) -> Seq<char>
    decreases s.len(),
{
    if s.len() == 0 {
        Seq::<char>::empty()
    } else {
        slashes_to_colons(s.drop_last()) + if s.last() == '/' {
            seq![':', ':']
        } else {
            seq![s.last()]
        }
    }
}

/// The start of the new path: the crate (`crate` for the crate `krate`
/// itself), or one `super::` for each `/` of the leading `../`.
pub open spec fn captured_root_text(c: ItemCaptures, krate: Seq<char>) -> Seq<char> {
    match c.root {
        Some(r) => (if r@ == krate {
            seq!['c', 'r', 'a', 't', 'e']
        } else {
            r@
        }) + seq![':', ':'],
        None => match c.supers {
            Some(sp) => supers_text(count_char(sp@, '/')),
            None => Seq::<char>::empty(),
        },
    }
}

/// The directories of the path, `./` standing for none.
pub open spec fn intermediates_text(c: ItemCaptures) -> Seq<char> {
    match c.intermediates {
        Some(i) => if i@ == seq!['.', '/'] {
            Seq::<char>::empty()
        } else {
            slashes_to_colons(i@)
        },
        None => Seq::<char>::empty(),
    }
}

/// The line a link to an item page becomes.
pub open spec fn comment_link_text(c: ItemCaptures, krate: Seq<char>) -> Seq<char> {
    c.link_name@ + captured_root_text(c, krate) + intermediates_text(c) + c.elem2@ + match c.additional {
        Some(a) => seq![':', ':'] + a@,
        None => Seq::<char>::empty(),
    }
}

/// The directories of the link start with `http`: it is a web link.
pub open spec fn is_web_link(c: ItemCaptures) -> bool {
    c.intermediates matches Some(i) && i@.len() >= 4 && i@.subrange(0, 4) == seq![
        'h',
        't',
        't',
        'p',
    ]
}

/// The number of `/` in `s`.
fn count_slashes(s: &[char]) -> (r: usize)
    ensures
        r == count_char(s@, '/'),
{
    let mut k: usize = 0;
    let mut j: usize = 0;
    while j < s.len()
        invariant
            0 <= j <= s@.len(),
            k <= j,
            k == count_char(s@.subrange(0, j as int), '/'),
        decreases s@.len() - j,
    {
        assert(s@.subrange(0, j + 1).drop_last() =~= s@.subrange(0, j as int));
        if s[j] == '/' {
            k = k + 1;
        }
        j = j + 1;
    }
    assert(s@.subrange(0, s@.len() as int) =~= s@);
    k
}

/// `s` with each `/` replaced by `::`, after `out`.
fn push_colons_for_slashes(out: &mut Vec<char>, s: &[char])
    ensures
        final(out)@ == old(out)@ + slashes_to_colons(s@),
{
    let ghost o = out@;
    let mut j: usize = 0;
    while j < s.len()
        invariant
            0 <= j <= s@.len(),
            out@ == o + slashes_to_colons(s@.subrange(0, j as int)),
        decreases s@.len() - j,
    {
        assert(s@.subrange(0, j + 1).drop_last() =~= s@.subrange(0, j as int));
        let ghost before = out@;
        if s[j] == '/' {
            out.push(':');
            out.push(':');
        } else {
            out.push(s[j]);
        }
        assert(out@ =~= o + slashes_to_colons(s@.subrange(0, j + 1)));
        j = j + 1;
    }
    assert(s@.subrange(0, s@.len() as int) =~= s@);
}

/// Converts a link to an item page, given its parts, at line `pos` of a
/// file of the crate `krate`: a web link is kept, a link that becomes a
/// local path (its name and its target the same) is deleted, any other one
/// is replaced by its intra-doc form, see [`comment_link_text`].
pub fn comment_link(captures: ItemCaptures, pos: usize, krate: &str) -> (r: Line)
    ensures
        is_web_link(captures) ==> unchanged_line(r, captures.whole@),
        !is_web_link(captures) && is_local_link(comment_link_text(captures, krate@))
            ==> deleted_line(r, captures.whole@, "Local path"@, pos),
        !is_web_link(captures) && !is_local_link(comment_link_text(captures, krate@)) ==> {
            &&& !r.treatment_is_pending
            &&& r.action matches Action::Replaced { line, new, pos: p }
            &&& line@ == captures.whole@
            &&& new@ == comment_link_text(captures, krate@)
            &&& p == pos
        },
{
    let ghost c = captures;
    let mut new = chars_of(captures.link_name.as_str());
    let ghost n0 = new@;
    match &captures.root {
        Some(root) => {
            let rc = chars_of(root.as_str());
            let kc = chars_of(krate);
            if chars_eq(rc.as_slice(), kc.as_slice()) {
                extend_chars(&mut new, &['c', 'r', 'a', 't', 'e']);
            } else {
                extend_chars(&mut new, rc.as_slice());
            }
            extend_chars(&mut new, &[':', ':']);
        },
        None => match &captures.supers {
            Some(supers) => {
                let sc = chars_of(supers.as_str());
                let count = count_slashes(sc.as_slice());
                let sup = supers_text_exec(count);
                extend_chars(&mut new, sup.as_slice());
            },
            None => {},
        },
    }
    assert(new@ =~= n0 + captured_root_text(c, krate@));
    let ghost n1 = new@;
    match &captures.intermediates {
        Some(inter) => {
            let ic = chars_of(inter.as_str());
            if occurs_at_exec(ic.as_slice(), 0, &['h', 't', 't', 'p']) {
                assert(is_web_link(c));
                return Line::treated(Action::Unchanged { line: captures.whole });
            }
            if !chars_eq(ic.as_slice(), &['.', '/']) {
                push_colons_for_slashes(&mut new, ic.as_slice());
            }
        },
        None => {},
    }
    assert(!is_web_link(c));
    assert(new@ =~= n1 + intermediates_text(c));
    let ec = chars_of(captures.elem2.as_str());
    extend_chars(&mut new, ec.as_slice());
    match &captures.additional {
        Some(additional) => {
            extend_chars(&mut new, &[':', ':']);
            let ac = chars_of(additional.as_str());
            extend_chars(&mut new, ac.as_slice());
        },
        None => {},
    }
    assert(new@ =~= comment_link_text(c, krate@));
    match local_path_exec(new.as_slice()) {
        Some((name, target)) => {
            if chars_eq(name.as_slice(), target.as_slice()) {
                proof {
                    reveal_strlit("Local path");
                }
                return Line::treated(
                    Action::Deleted { line: captures.whole, reason: "Local path", pos },
                );
            }
        },
        None => {},
    }
    Line::treated(Action::Replaced { line: captures.whole, new: string_of(new.as_slice()), pos })
}

} // verus!
