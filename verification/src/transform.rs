//! The transformation of a whole file, line after line.
//!
//! Before the lines are transformed, the blocks in which `Self` has a
//! meaning (`struct`, `trait`, `impl`, `enum`, `union`) are found: a link to
//! an associated item (`#method.name`) inside such a block becomes a link
//! through the type of the block (`Type::name()`).
use vstd::prelude::*;
use crate::action::{Action, ActionOf, SAction};
use crate::candidate::{
    Candidate, is_candidate, spec_candidate_line, spec_candidate_transform, spec_from_line,
};
use crate::config_file::{FileConfig, raw_ignores};
use crate::link_parts::{LinkPartsOf, opt_string_view, spec_transform};
use crate::lines::{local_path, local_path_exec, type_block_start, type_block_start_exec};
use crate::options::ConversionOptions;
use crate::grammar::assoc_item_split;
use crate::link_parts::{
    curdirs_end, join_colons, parts_segs, spec_associated_item_parts, spec_link_parts,
};
use crate::lines::{
    comment_open_end, header_close, lemma_header_close, link_to_treat_long, name_close,
    target_chars_start, target_ends_line,
};
use crate::path::{Comp, SComp, comp_text, lemma_single_component, parent_or_empty};
use crate::text::{
    CharClass, find_from, is_html_section, is_link_char, is_section_char, lemma_find_from_bounds,
    lemma_run_end_bounds, run_end,
};
use crate::path::components;
use crate::text::{chars_eq, chars_of, occurs_at, occurs_at_exec, string_of};

verus! {

/// A block in which `Self` has a meaning: its type, the start of the line
/// that ends it, and the number of the line that starts it (from one).
pub type TypeBlock = (String, String, usize);

/// The view of a [`TypeBlock`].
pub type STypeBlock = (Seq<char>, Seq<char>, usize);

pub open spec fn blocks_view(v: Seq<TypeBlock>) -> Seq<STypeBlock> {
    v.map_values(|b: TypeBlock| (b.0@, b.1@, b.2))
}

/// Context of a conversion: the options, the file and the type that is
/// `Self` for the current line (for `#method.name` links).
#[derive(Debug, Clone, PartialEq, Eq)]
pub struct ConversionContext {
    /// Options to apply when transforming a single file.
    pub options: ConversionOptions,
    /// Current line number.
    pub pos: usize,
    /// Name of the type that is `Self` for the current block.
    pub curr_type_block: Option<String>,
    /// Start of the line that ends the current block.
    pub end_type_block: String,
    /// Line at which the current type block starts: the block cannot end
    /// before it. Numbered from one, `usize::MAX` when there is no block.
    pub type_block_line: usize,
    /// The type blocks still to come, the next one last.
    pub type_blocks: Vec<TypeBlock>,
    /// Links to leave alone.
    pub ignored_links: FileConfig,
    /// Path of the file being transformed.
    pub current_path: String,
}

/// The part of a context that changes from one line to the next.
pub struct CtxState {
    pub pos: usize,
    pub curr: Option<Seq<char>>,
    pub end: Seq<char>,
    pub line: usize,
    pub blocks: Seq<STypeBlock>,
}

impl View for ConversionContext {
    type V = CtxState;

    open spec fn view(&self) -> CtxState {
        CtxState {
            pos: self.pos,
            curr: opt_string_view(self.curr_type_block),
            end: self.end_type_block@,
            line: self.type_block_line,
            blocks: blocks_view(self.type_blocks@),
        }
    }
}

/// When no block is active, the next one becomes active.
pub open spec fn pop_block(s: CtxState) -> CtxState {
    if s.curr is None && s.blocks.len() > 0 {
        CtxState {
            pos: s.pos,
            curr: Some(s.blocks.last().0),
            end: s.blocks.last().1,
            line: s.blocks.last().2,
            blocks: s.blocks.drop_last(),
        }
    } else {
        s
    }
}

/// `p` starts `s`.
pub open spec fn starts_with(s: Seq<char>, p: Seq<char>) -> bool {
    occurs_at(s, 0, p)
}

/// The active block ends on a line that starts with its end marker, at or
/// after the line that started it.
pub open spec fn close_block(s: CtxState, line: Seq<char>) -> CtxState {
    if s.curr is Some && starts_with(line, s.end) && s.pos >= s.line {
        CtxState { pos: s.pos, curr: None, end: seq![], line: usize::MAX, blocks: s.blocks }
    } else {
        s
    }
}

/// The state in which `line` is transformed.
pub open spec fn line_state(s: CtxState, line: Seq<char>) -> CtxState {
    close_block(pop_block(s), line)
}

/// A transformed line is a local path when its name and its target are the
/// same: rustdoc then needs no target at all.
pub open spec fn is_local_link(t: Seq<char>) -> bool {
    match local_path(t) {
        Some((n, l)) => n == l,
        None => false,
    }
}

/// The action for `line`, given the line it becomes, if any.
pub open spec fn action_of(line: Seq<char>, transformed: Option<Seq<char>>, pos: usize) -> SAction {
    match transformed {
        None => ActionOf::Unchanged { line: line.push('\n') },
        Some(t) => if is_local_link(t) {
            ActionOf::Deleted { line, pos }
        } else if line == t {
            ActionOf::Unchanged { line: line.push('\n') }
        } else {
            ActionOf::Replaced { line, new: t.push('\n'), pos }
        },
    }
}

/// The action for `line` in the state `s`, with the options `opts` and the
/// configuration `cfg` of the file `path`.
pub open spec fn line_action(
    opts: ConversionOptions,
    cfg: FileConfig,
    path: Seq<char>,
    s: CtxState,
    line: Seq<char>,
) -> SAction {
    action_of(line, spec_candidate_line(line, opts, cfg, path, s.curr), s.pos)
}

/// Whether `line` ends with `end`.
pub open spec fn ends_with(line: Seq<char>, end: Seq<char>) -> bool {
    end.len() <= line.len() && line.subrange(line.len() - end.len(), line.len() as int) == end
}

/// The end marker of a block started by `line`: the end of the line itself
/// for a one-line item, else its indentation followed by `)` or `}`.
pub open spec fn block_end(line: Seq<char>, spaces: Seq<char>, paren: bool) -> Seq<char> {
    if ends_with(line, seq![';', '\n']) || ends_with(line, seq!['}', '\n']) {
        seq!['\n']
    } else if paren {
        spaces.push(')')
    } else {
        spaces.push('}')
    }
}

/// The type block that `line`, number `ln`, starts, if any.
pub open spec fn block_of(line: Seq<char>, ln: usize) -> Option<STypeBlock> {
    match type_block_start(line) {
        Some((sp, ty, paren)) => Some((ty, block_end(line, sp, paren), ln)),
        None => None,
    }
}

/// The type blocks of the first `n` lines, in order.
pub open spec fn blocks_upto(lines: Seq<Seq<char>>, n: int) -> Seq<STypeBlock>
    decreases n,
{
    if n <= 0 {
        seq![]
    } else {
        let r = blocks_upto(lines, n - 1);
        match block_of(lines[n - 1], n as usize) {
            Some(b) => r.push(b),
            None => r,
        }
    }
}

pub open spec fn strings_view(v: Seq<String>) -> Seq<Seq<char>> {
    v.map_values(|s: String| s@)
}

pub open spec fn actions_view(v: Seq<Action>) -> Seq<SAction> {
    v.map_values(|a: Action| a@)
}

/// The state before line `i` of a file, its number counted.
pub open spec fn next_line(s: CtxState) -> CtxState {
    CtxState { pos: (s.pos + 1) as usize, ..s }
}

/// The actions for `lines[i..]`, from the state `s` reached before line `i`.
pub open spec fn run_from(
    opts: ConversionOptions,
    cfg: FileConfig,
    path: Seq<char>,
    s: CtxState,
    lines: Seq<Seq<char>>,
    i: int,
) -> Seq<SAction>
    decreases lines.len() - i,
{
    if i < 0 || i >= lines.len() {
        seq![]
    } else {
        let s2 = line_state(next_line(s), lines[i]);
        seq![line_action(opts, cfg, path, s2, lines[i])] + run_from(opts, cfg, path, s2, lines, i + 1)
    }
}

/// The state after `lines[i..]`, from the state `s` reached before line `i`.
pub open spec fn state_after(s: CtxState, lines: Seq<Seq<char>>, i: int) -> CtxState
    decreases lines.len() - i,
{
    if i < 0 || i >= lines.len() {
        s
    } else {
        state_after(line_state(next_line(s), lines[i]), lines, i + 1)
    }
}

/// The state in which a file starts: no line read yet, no active block, and
/// the blocks of the file to come.
pub open spec fn start_state(lines: Seq<Seq<char>>) -> CtxState {
    CtxState {
        pos: 0,
        curr: None,
        end: seq![],
        line: usize::MAX,
        blocks: blocks_upto(lines, lines.len() as int).reverse(),
    }
}

/// The actions for the lines of a file.
pub open spec fn spec_transform_file(
    opts: ConversionOptions,
    cfg: FileConfig,
    path: Seq<char>,
    lines: Seq<Seq<char>>,
) -> Seq<SAction> {
    run_from(opts, cfg, path, start_state(lines), lines, 0)
}

/// The action `a` is the one of `line`, read as line number `pos`: an
/// unchanged line is kept with its `\n`, a deleted or replaced one is kept
/// with its position, and a replacement changes the line.
pub open spec fn action_for_line(a: SAction, line: Seq<char>, pos: usize) -> bool {
    match a {
        ActionOf::Unchanged { line: l } => l == line.push('\n'),
        ActionOf::Deleted { line: l, pos: p } => l == line && p == pos,
        ActionOf::Replaced { line: l, new, pos: p } => l == line && p == pos && new != line.push(
            '\n',
        ),
    }
}

/// Only a line with a link (a link definition, or inline links) can be
/// deleted or replaced.
pub open spec fn only_links_change(a: SAction, line: Seq<char>) -> bool {
    !(a is Unchanged) ==> is_candidate(line)
}

proof fn lemma_line_action(
    opts: ConversionOptions,
    cfg: FileConfig,
    path: Seq<char>,
    s: CtxState,
    line: Seq<char>,
)
    ensures
        action_for_line(line_action(opts, cfg, path, s, line), line, s.pos),
        only_links_change(line_action(opts, cfg, path, s, line), line),
{
    if let Some(t) = spec_candidate_line(line, opts, cfg, path, s.curr) {
        assert(t.push('\n').drop_last() =~= t);
        assert(line.push('\n').drop_last() =~= line);
    }
}

proof fn lemma_run_from(
    opts: ConversionOptions,
    cfg: FileConfig,
    path: Seq<char>,
    s: CtxState,
    lines: Seq<Seq<char>>,
    i: int,
)
    requires
        0 <= i <= lines.len(),
        s.pos + lines.len() - i <= usize::MAX,
    ensures
        run_from(opts, cfg, path, s, lines, i).len() == lines.len() - i,
        forall|k: int|
            0 <= k < lines.len() - i ==> action_for_line(
                #[trigger] run_from(opts, cfg, path, s, lines, i)[k],
                lines[i + k],
                (s.pos + k + 1) as usize,
            ) && only_links_change(run_from(opts, cfg, path, s, lines, i)[k], lines[i + k]),
    decreases lines.len() - i,
{
    if i < lines.len() {
        let s2 = line_state(next_line(s), lines[i]);
        lemma_line_action(opts, cfg, path, s2, lines[i]);
        lemma_run_from(opts, cfg, path, s2, lines, i + 1);
        let r = run_from(opts, cfg, path, s, lines, i);
        let tail = run_from(opts, cfg, path, s2, lines, i + 1);
        assert forall|k: int| 0 <= k < lines.len() - i implies action_for_line(
            #[trigger] r[k],
            lines[i + k],
            (s.pos + k + 1) as usize,
        ) && only_links_change(r[k], lines[i + k]) by {
            if k > 0 {
                assert(r[k] == tail[k - 1]);
            }
        }
    }
}

/// A file gives one action per line, in order: the action of line `i`
/// (counted from zero) refers to that line, as line number `i + 1`, and
/// only a link definition is deleted or replaced.
pub proof fn law_one_action_per_line(
    opts: ConversionOptions,
    cfg: FileConfig,
    path: Seq<char>,
    lines: Seq<Seq<char>>,
)
    requires
        lines.len() <= usize::MAX,
    ensures
        spec_transform_file(opts, cfg, path, lines).len() == lines.len(),
        forall|i: int|
            0 <= i < lines.len() ==> action_for_line(
                #[trigger] spec_transform_file(opts, cfg, path, lines)[i],
                lines[i],
                (i + 1) as usize,
            ) && only_links_change(spec_transform_file(opts, cfg, path, lines)[i], lines[i]),
{
    lemma_run_from(opts, cfg, path, start_state(lines), lines, 0);
}

/// The blocks of the first `n` lines are in the order of their lines, each
/// numbered by the line that starts it.
pub proof fn law_blocks_in_order(lines: Seq<Seq<char>>, n: int)
    requires
        0 <= n <= lines.len(),
        lines.len() <= usize::MAX,
    ensures
        forall|i: int, j: int|
            0 <= i < j < blocks_upto(lines, n).len() ==> (#[trigger] blocks_upto(lines, n)[i]).2
                < (#[trigger] blocks_upto(lines, n)[j]).2,
        forall|i: int|
            0 <= i < blocks_upto(lines, n).len() ==> 1 <= (#[trigger] blocks_upto(lines, n)[i]).2
                <= n && block_of(lines[blocks_upto(lines, n)[i].2 - 1], blocks_upto(lines, n)[i].2)
                == Some(blocks_upto(lines, n)[i]),
    decreases n,
{
    if n > 0 {
        law_blocks_in_order(lines, n - 1);
    }
}

/// A link definition that the configuration ignores, in the file being
/// transformed, is left unchanged.
pub proof fn law_ignored_links_are_kept(
    opts: ConversionOptions,
    cfg: FileConfig,
    path: Seq<char>,
    s: CtxState,
    line: Seq<char>,
)
    requires
        spec_from_line(line) matches Some((h, n, l)) && raw_ignores(cfg.0, path, n, l),
    ensures
        line_action(opts, cfg, path, s, line) == (ActionOf::Unchanged { line: line.push('\n') }),
{
}

/// A replaced link definition keeps everything before the link
/// (indentation, comment opener, name and separator): only the link itself
/// changes.
pub proof fn law_replacement_keeps_header(
    opts: ConversionOptions,
    cfg: FileConfig,
    path: Seq<char>,
    s: CtxState,
    line: Seq<char>,
)
    requires
        spec_from_line(line) is Some,
        line_action(opts, cfg, path, s, line) is Replaced,
    ensures
        ({
            let h = spec_from_line(line)->Some_0.0;
            let new = line_action(opts, cfg, path, s, line)->Replaced_new;
            h.len() <= new.len() && new.subrange(0, h.len() as int) == h
        }),
{
    let (h, n, l) = spec_from_line(line)->Some_0;
    let t = spec_candidate_transform(h, n, l, opts, cfg, path, s.curr)->Some_0;
    let lp = spec_link_parts(components(l), opts.krate.0@, opts.favored_links)->Some_0;
    assert(t == h + spec_transform(lp, opts.disambiguate, s.curr));
    assert(t.push('\n').subrange(0, h.len() as int) =~= h);
}

proof fn lemma_whole_line_link(line: Seq<char>)
    requires
        forall|j: int| 0 <= j < line.len() ==> line[j] != '\n',
        spec_from_line(line) is Some,
    ensures
        line == spec_from_line(line)->Some_0.0 + spec_from_line(line)->Some_0.2,
{
    let (a, b, lp0, m) = link_to_treat_long(line)->Some_0;
    let p0 = comment_open_end(line);
    lemma_header_close(line, p0 + 1);
    let q = header_close(line, p0 + 1)->Some_0;
    assert(lp0 == run_end(line, q + 2, CharClass::Whitespace));
    assert(target_ends_line(line, lp0));
    assert(m == line.len());
    assert(line =~= line.subrange(0, lp0) + line.subrange(lp0, m));
}

proof fn lemma_lone_section_parts(l: Seq<char>, krate: Seq<char>, favored: bool, dis: bool, block: Option<Seq<char>>)
    requires
        is_html_section(l),
        assoc_item_split(l) is None,
    ensures
        spec_link_parts(components(l), krate, favored) is Some,
        spec_transform(spec_link_parts(components(l), krate, favored)->Some_0, dis, block) == l,
{
    assert forall|j: int| 0 <= j < l.len() implies l[j] != '/' by {
        assert(crate::text::is_section_char(l[j]) || j == 0);
    }
    assert(l != seq!['.']);
    assert(l != seq!['.', '.']);
    lemma_single_component(l);
    let cs = components(l);
    assert(curdirs_end(cs, 0) == 0);
    assert(comp_text(cs[0]) == l);
    assert(spec_associated_item_parts(cs) is None);
    assert(parent_or_empty(cs) =~= Seq::<SComp>::empty());
    let lp = spec_link_parts(cs, krate, favored)->Some_0;
    assert(join_colons(parts_segs(lp, block)) =~= Seq::<char>::empty());
    assert(spec_transform(lp, dis, block) =~= l);
}

/// A lone section link, `#section`, never changes (when it does not name
/// itself, in which case rustdoc needs no target and it is removed): no
/// type block is put before it.
pub proof fn law_lone_sections_are_kept(
    opts: ConversionOptions,
    cfg: FileConfig,
    path: Seq<char>,
    s: CtxState,
    line: Seq<char>,
)
    requires
        forall|j: int| 0 <= j < line.len() ==> line[j] != '\n',
        spec_from_line(line) matches Some((h, n, l)) && is_html_section(l) && assoc_item_split(l)
            is None,
        !is_local_link(line),
    ensures
        line_action(opts, cfg, path, s, line) == (ActionOf::Unchanged { line: line.push('\n') }),
{
    let (h, n, l) = spec_from_line(line)->Some_0;
    lemma_whole_line_link(line);
    lemma_lone_section_parts(l, opts.krate.0@, opts.favored_links, opts.disambiguate, s.curr);
}

/// The line `[name]: #section` never changes, whatever the options, the
/// configuration, the file and the state: an instance of
/// [`law_lone_sections_are_kept`].
pub proof fn law_name_section_line_is_kept(
    opts: ConversionOptions,
    cfg: FileConfig,
    path: Seq<char>,
    s: CtxState,
)
    ensures
        ({
            let line = seq!['[', 'n', 'a', 'm', 'e', ']', ':', ' ', '#', 's', 'e', 'c', 't', 'i', 'o', 'n'];
            line_action(opts, cfg, path, s, line) == (ActionOf::Unchanged { line: line.push('\n') })
        }),
{
    let line = seq!['[', 'n', 'a', 'm', 'e', ']', ':', ' ', '#', 's', 'e', 'c', 't', 'i', 'o', 'n'];
    let sec = line.subrange(8, 16);
    reveal_strlit("https:");
    reveal_strlit("http:");
    reveal_strlit("]:");
    assert forall|j: int| 0 <= j < line.len() implies line[j] != '\n' && (8 <= j ==> is_link_char(
        line[j],
    ) && (9 <= j ==> is_section_char(line[j]) && line[j] != '.')) by {
        if j == 0 {} else if j == 1 {} else if j == 2 {} else if j == 3 {} else if j == 4 {
        } else if j == 5 {} else if j == 6 {} else if j == 7 {} else if j == 8 {} else if j == 9 {
        } else if j == 10 {} else if j == 11 {} else if j == 12 {} else if j == 13 {
        } else if j == 14 {} else {}
    }
    // The target: `#section`, from 8 to the end.
    assert(line.subrange(8, 14)[0] == '#');
    assert(line.subrange(8, 13)[0] == '#');
    assert(target_chars_start(line, 8) == 8);
    lemma_run_end_bounds(line, 8, CharClass::LinkChar);
    assert(run_end(line, 8, CharClass::LinkChar) == 16);
    assert(run_end(line, 8, CharClass::Whitespace) == 8);
    assert(run_end(line, 7, CharClass::Whitespace) == 8);
    assert(target_ends_line(line, 8));
    // The `]:` at 5.
    assert(header_close(line, 5) == Some(5int));
    assert(header_close(line, 4) == Some(5int));
    assert(header_close(line, 3) == Some(5int));
    assert(header_close(line, 2) == Some(5int));
    assert(header_close(line, 1) == Some(5int));
    assert(run_end(line, 0, CharClass::Whitespace) == 0);
    assert(comment_open_end(line) == 0);
    assert(link_to_treat_long(line) == Some((1int, 5int, 8int, 16int)));
    assert(spec_from_line(line) == Some((line.subrange(0, 8), line.subrange(1, 5), sec)));
    // A lone section, no associated item.
    assert forall|i: int| 1 <= i < sec.len() implies is_section_char(#[trigger] sec[i]) by {
        assert(sec[i] == line[i + 8]);
    }
    assert(is_html_section(sec));
    lemma_find_from_bounds(sec, 1, '.');
    assert forall|i: int| 1 <= i < sec.len() implies #[trigger] sec[i] != '.' by {
        assert(sec[i] == line[i + 8]);
    }
    assert(find_from(sec, 1, '.') == 8);
    assert(assoc_item_split(sec) is None);
    // Its name and its target differ.
    assert(line.subrange(6, 8)[0] == ':');
    assert(line.subrange(5, 7) =~= "]:"@);
    assert(name_close(line, 5) == Some(5int));
    assert(line.subrange(4, 6)[0] == 'e');
    assert(name_close(line, 4) == Some(5int));
    assert(line.subrange(3, 5)[0] == 'm');
    assert(name_close(line, 3) == Some(5int));
    assert(line.subrange(2, 4)[0] == 'a');
    assert(name_close(line, 2) == Some(5int));
    assert(line.subrange(1, 3)[0] == 'n');
    assert(name_close(line, 1) == Some(5int));
    assert(!is_local_link(line));
    law_lone_sections_are_kept(opts, cfg, path, s, line);
}

fn starts_with_exec(s: &str, p: &str) -> (b: bool)
    ensures
        b == starts_with(s@, p@),
{
    let sc = chars_of(s);
    let pc = chars_of(p);
    occurs_at_exec(sc.as_slice(), 0, pc.as_slice())
}

pub(crate) fn ends_with_exec(s: &[char], e: &[char]) -> (b: bool)
    ensures
        b == ends_with(s@, e@),
{
    if e.len() > s.len() {
        return false;
    }
    let r = occurs_at_exec(s, s.len() - e.len(), e);
    assert(r == ends_with(s@, e@));
    r
}

fn with_newline(s: String) -> (r: String)
    ensures
        r@ == s@.push('\n'),
{
    let mut c = chars_of(s.as_str());
    c.push('\n');
    string_of(c.as_slice())
}

/// The type blocks of `lines`, the last one first: each is the type, the
/// start of the line that ends the block, and the number of the line that
/// starts it, counted from one.
pub fn find_type_blocks(lines: &Vec<String>) -> (r: Vec<TypeBlock>)
    ensures
        blocks_view(r@) == blocks_upto(strings_view(lines@), lines@.len() as int).reverse(),
{
    let ghost ls = strings_view(lines@);
    let mut fwd: Vec<TypeBlock> = Vec::new();
    let mut i: usize = 0;
    while i < lines.len()
        invariant
            ls == strings_view(lines@),
            0 <= i <= lines@.len(),
            blocks_view(fwd@) == blocks_upto(ls, i as int),
        decreases lines@.len() - i,
    {
        let line = chars_of(lines[i].as_str());
        assert(line@ == ls[i as int]);
        match type_block_start_exec(line.as_slice()) {
            Some((sp, ty, paren)) => {
                let end = if ends_with_exec(line.as_slice(), &[';', '\n'])
                    || ends_with_exec(line.as_slice(), &['}', '\n']) {
                    let e: Vec<char> = vec!['\n'];
                    e
                } else {
                    let mut e = sp;
                    if paren {
                        e.push(')');
                    } else {
                        e.push('}');
                    }
                    e
                };
                assert(end@ == block_end(line@, sp@, paren));
                fwd.push((string_of(ty.as_slice()), string_of(end.as_slice()), i + 1));
                assert(blocks_view(fwd@) =~= blocks_upto(ls, i + 1));
            },
            None => {
                assert(blocks_view(fwd@) =~= blocks_upto(ls, i + 1));
            },
        }
        i = i + 1;
    }
    let ghost all = blocks_view(fwd@);
    let n = fwd.len();
    let mut out: Vec<TypeBlock> = Vec::new();
    let mut j: usize = 0;
    while fwd.len() > 0
        invariant
            n == all.len(),
            0 <= j <= n,
            fwd@.len() == n - j,
            blocks_view(fwd@) == all.subrange(0, n - j),
            blocks_view(out@) == all.reverse().subrange(0, j as int),
        decreases fwd@.len(),
    {
        let ghost before = fwd@;
        let b = fwd.pop().unwrap();
        assert(blocks_view(before)[n - j - 1] == (b.0@, b.1@, b.2));
        assert(all.reverse()[j as int] == all[n - 1 - j]);
        let ghost bv = (b.0@, b.1@, b.2);
        let ghost old_out = out@;
        out.push(b);
        assert(blocks_view(out@) =~= blocks_view(old_out).push(bv));
        assert(blocks_view(out@) =~= all.reverse().subrange(0, j + 1));
        j = j + 1;
        assert(blocks_view(fwd@) =~= all.subrange(0, n - j));
    }
    assert(all.reverse().subrange(0, n as int) =~= all.reverse());
    out
}

impl ConversionContext {
    /// A new context with the given options, for a file with no ignored
    /// links.
    pub fn with_options(options: ConversionOptions) -> (r: Self)
        ensures
            r.options == options,
            r.pos == 0,
            r.curr_type_block is None,
            r.end_type_block@ == Seq::<char>::empty(),
            r.type_block_line == usize::MAX,
            r.type_blocks@.len() == 0,
            r.ignored_links.0.globals@.len() == 0,
            r.ignored_links.0.per_file@.len() == 0,
            r.current_path@ == Seq::<char>::empty(),
    {
        ConversionContext {
            options,
            pos: 0,
            curr_type_block: None,
            end_type_block: String::new(),
            type_block_line: usize::MAX,
            type_blocks: Vec::new(),
            ignored_links: FileConfig::default(),
            current_path: String::new(),
        }
    }

    /// A new context with the given options, for the file `current_path`
    /// whose links listed in `ignored_links` are left alone.
    pub fn with_ignored_links(
        options: ConversionOptions,
        ignored_links: FileConfig,
        current_path: String,
    ) -> (r: Self)
        ensures
            r.options == options,
            r.pos == 0,
            r.curr_type_block is None,
            r.end_type_block@ == Seq::<char>::empty(),
            r.type_block_line == usize::MAX,
            r.type_blocks@.len() == 0,
            r.ignored_links == ignored_links,
            r.current_path == current_path,
    {
        ConversionContext {
            options,
            pos: 0,
            curr_type_block: None,
            end_type_block: String::new(),
            type_block_line: usize::MAX,
            type_blocks: Vec::new(),
            ignored_links,
            current_path,
        }
    }

    /// The type that is `Self` for the current line, or the empty string
    /// when no type block is active.
    pub fn current_type_block(&self) -> (r: Option<&str>)
        ensures
            r is Some,
            match self.curr_type_block {
                Some(c) => r->Some_0@ == c@,
                None => r->Some_0@ == Seq::<char>::empty(),
            },
    {
        match &self.curr_type_block {
            Some(s) => Some(s.as_str()),
            None => {
                proof {
                    reveal_strlit("");
                }
                Some("")
            },
        }
    }

    /// The options of the context.
    pub fn options(&self) -> (r: &ConversionOptions)
        ensures
            *r == self.options,
    {
        &self.options
    }

    /// Sets the type that is `Self` for the current line.
    pub fn set_current_type_block(&mut self, ctb: String)
        ensures
            final(self).curr_type_block == Some(ctb),
            final(self).options == old(self).options,
            final(self).pos == old(self).pos,
            final(self).end_type_block == old(self).end_type_block,
            final(self).type_block_line == old(self).type_block_line,
            final(self).type_blocks == old(self).type_blocks,
            final(self).ignored_links == old(self).ignored_links,
            final(self).current_path == old(self).current_path,
    {
        self.curr_type_block = Some(ctb);
    }

    /// Transforms a single line, `\n` excluded, and gives the action to
    /// take for it. The next type block becomes active when none is, and
    /// the active one ends on a line that starts with its end marker.
    pub fn transform_line(&mut self, line: String) -> (r: Action)
        ensures
            final(self)@ == line_state(old(self)@, line@),
            final(self).options == old(self).options,
            final(self).ignored_links == old(self).ignored_links,
            final(self).current_path == old(self).current_path,
            r@ == line_action(
                old(self).options,
                old(self).ignored_links,
                old(self).current_path@,
                line_state(old(self)@, line@),
                line@,
            ),
    {
        let ghost s0 = self@;
        if self.curr_type_block.is_none() {
            let ghost bs = self.type_blocks@;
            match self.type_blocks.pop() {
                Some((ty, end, ln)) => {
                    assert(blocks_view(self.type_blocks@) =~= blocks_view(bs).drop_last());
                    self.curr_type_block = Some(ty);
                    self.end_type_block = end;
                    self.type_block_line = ln;
                },
                None => {},
            }
        }
        assert(self@ == pop_block(s0));
        if self.curr_type_block.is_some() && starts_with_exec(
            line.as_str(),
            self.end_type_block.as_str(),
        ) && self.pos >= self.type_block_line {
            self.curr_type_block = None;
            self.end_type_block = String::new();
            self.type_block_line = usize::MAX;
        }
        assert(self@ == line_state(s0, line@));
        let found = match Candidate::from_line(line.as_str()) {
            Ok(c) => Some(c),
            Err(_) => None,
        };
        let candidate = match found {
            Some(c) => c,
            None => {
                return ActionOf::Unchanged { line: with_newline(line) };
            },
        };
        let transformed = match candidate.transform(self) {
            Some(t) => t,
            None => {
                return ActionOf::Unchanged { line: with_newline(line) };
            },
        };
        let tc = chars_of(transformed.as_str());
        match local_path_exec(tc.as_slice()) {
            Some((n, l)) => {
                if chars_eq(n.as_slice(), l.as_slice()) {
                    return ActionOf::Deleted { line, pos: self.pos };
                }
            },
            None => {},
        }
        if line == transformed {
            ActionOf::Unchanged { line: with_newline(line) }
        } else {
            ActionOf::Replaced { line, new: with_newline(transformed), pos: self.pos }
        }
    }

    /// Transforms the lines of a file, `\n` excluded, and gives the action
    /// to take for each, in order. The state of the context is reset first.
    pub fn transform_file(&mut self, lines: Vec<String>) -> (r: Vec<Action>)
        ensures
            final(self).options == old(self).options,
            final(self).ignored_links == old(self).ignored_links,
            final(self).current_path == old(self).current_path,
            actions_view(r@) == spec_transform_file(
                old(self).options,
                old(self).ignored_links,
                old(self).current_path@,
                strings_view(lines@),
            ),
            final(self)@ == state_after(start_state(strings_view(lines@)), strings_view(lines@), 0),
    {
        let ghost ls = strings_view(lines@);
        self.pos = 0;
        self.curr_type_block = None;
        self.end_type_block = String::new();
        self.type_block_line = usize::MAX;
        self.type_blocks = find_type_blocks(&lines);
        assert(self@ == start_state(ls));
        let ghost opts = self.options;
        let ghost cfg = self.ignored_links;
        let ghost path = self.current_path@;
        let ghost cp = self.current_path;
        let ghost total = run_from(opts, cfg, path, self@, ls, 0);
        let ghost fin = state_after(self@, ls, 0);
        let n = lines.len();
        let mut actions: Vec<Action> = Vec::new();
        let mut rest = lines;
        let mut i: usize = 0;
        while rest.len() > 0
            invariant
                n == ls.len(),
                0 <= i <= n,
                self.pos == i,
                strings_view(rest@) == ls.subrange(i as int, n as int),
                self.options == opts,
                self.ignored_links == cfg,
                self.current_path == cp,
                cp@ == path,
                actions_view(actions@) + run_from(opts, cfg, path, self@, ls, i as int) == total,
                state_after(self@, ls, i as int) == fin,
            decreases rest@.len(),
        {
            let ghost rb = rest@;
            assert(strings_view(rb).len() == rb.len());
            assert(strings_view(rb)[0] == rb[0]@);
            assert(ls.subrange(i as int, n as int)[0] == ls[i as int]);
            let line = rest.remove(0);
            assert(line@ == ls[i as int]);
            assert(rest@ =~= rb.subrange(1, rb.len() as int));
            assert(strings_view(rest@) =~= strings_view(rb).subrange(1, rb.len() as int));
            assert(strings_view(rest@) =~= ls.subrange(i + 1, n as int));
            let ghost before = self@;
            self.pos = self.pos + 1;
            assert(self@ == next_line(before));
            let a = self.transform_line(line);
            let ghost old_actions = actions_view(actions@);
            actions.push(a);
            assert(actions_view(actions@) =~= old_actions.push(a@));
            assert(actions_view(actions@) + run_from(opts, cfg, path, self@, ls, i + 1) =~= old_actions
                + run_from(opts, cfg, path, before, ls, i as int));
            i = i + 1;
        }
        actions
    }

    /// Whether the link `name` to `link` is to be left alone in the file of
    /// the context.
    pub fn is_ignored(&self, name: &str, link: &str) -> (r: bool)
        ensures
            r == raw_ignores(self.ignored_links.0, self.current_path@, name@, link@),
    {
        self.ignored_links.is_ignored(self.current_path.as_str(), name, link)
    }
}

impl LinkPartsOf<String> {
    /// The intra-doc form of the link in the context `ctx`: with a
    /// disambiguating prefix when its options ask for it, and through the
    /// type of the current block for an associated item.
    pub fn transform(&self, ctx: &ConversionContext) -> (r: String)
        ensures
            r@ == spec_transform(
                self@,
                ctx.options.disambiguate,
                opt_string_view(ctx.curr_type_block),
            ),
    {
        let block = match &ctx.curr_type_block {
            Some(s) => Some(s.as_str()),
            None => None,
        };
        self.transform_with(ctx.options.disambiguate, block)
    }
}

} // verus!
