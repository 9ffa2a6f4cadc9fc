//! The decisions of a run over several files: which paths to visit, the
//! crate name used for each crate found, whether a file has changes to
//! show, and the new content of a file.
use vstd::prelude::*;
use crate::action::{Action, ActionOf, new_line_of};
use crate::config_file::same_path;
use crate::path::components;
use crate::text::{chars_eq, chars_of, extend_chars, is_ident, is_rust_identifier, string_of};
use crate::candidate::is_candidate;
use crate::config_file::FileConfig;
use crate::options::ConversionOptions;
use crate::transform::{
    action_for_line, actions_view, law_one_action_per_line, only_links_change, spec_transform_file,
};

verus! {

/// The paths a run visits. With no path, or with the single path
/// `intraconv` (the name cargo passes to its subcommands), the current
/// directory is added; a first path written exactly `intraconv` is skipped.
pub open spec fn spec_paths_to_visit(paths: Seq<Seq<char>>) -> Seq<Seq<char>> {
    let ps = if paths.len() == 0 || (paths.len() == 1 && same_path(paths[0], "intraconv"@)) {
        paths.push("."@)
    } else {
        paths
    };
    if ps[0] == "intraconv"@ {
        ps.drop_first()
    } else {
        ps
    }
}

/// The crate name used for the files of a crate named `name`: its own name
/// when it is a Rust identifier, else `default`.
pub fn krate_or_default(name: String, default: &str) -> (r: String)
    ensures
        r@ == (if is_ident(name@) {
            name@
        } else {
            default@
        }),
{
    if is_rust_identifier(name.as_str()) {
        name
    } else {
        default.to_string()
    }
}

/// The crate name of a package: its name with each `-` replaced by `_`.
pub open spec fn spec_crate_name_of(package: Seq<char>) -> Seq<char> {
    Seq::new(package.len(), |i: int| if package[i] == '-' { '_' } else { package[i] })
}

/// The crate name of the package `package`, see [`spec_crate_name_of`].
pub fn crate_name_of(package: &str) -> (r: String)
    ensures
        r@ == spec_crate_name_of(package@),
{
    let p = chars_of(package);
    let mut r: Vec<char> = Vec::new();
    let mut j: usize = 0;
    while j < p.len()
        invariant
            0 <= j <= p@.len(),
            p@ == package@,
            r@ == spec_crate_name_of(p@.subrange(0, j as int)),
        decreases p@.len() - j,
    {
        if p[j] == '-' {
            r.push('_');
        } else {
            r.push(p[j]);
        }
        assert(r@ =~= spec_crate_name_of(p@.subrange(0, j + 1)));
        j = j + 1;
    }
    assert(p@.subrange(0, p@.len() as int) =~= p@);
    string_of(r.as_slice())
}

pub open spec fn strs_view(v: Seq<String>) -> Seq<Seq<char>> {
    v.map_values(|s: String| s@)
}

/// The paths to visit, see [`spec_paths_to_visit`].
pub fn paths_to_visit(paths: Vec<String>) -> (r: Vec<String>)
    ensures
        strs_view(r@) == spec_paths_to_visit(strs_view(paths@)),
{
    let ghost pv = strs_view(paths@);
    let mut ps = paths;
    let intraconv = chars_of("intraconv");
    let add = if ps.len() == 0 {
        true
    } else if ps.len() == 1 {
        assert(pv[0] == ps@[0]@);
        crate::config_file::same_path_exec(ps[0].as_str(), "intraconv")
    } else {
        false
    };
    if add {
        let ghost before = ps@;
        ps.push(".".to_owned());
        proof {
            reveal_strlit(".");
        }
        assert(strs_view(ps@) =~= strs_view(before).push("."@));
    }
    let ghost ps1 = strs_view(ps@);
    assert(ps1.len() > 0);
    let first = chars_of(ps[0].as_str());
    assert(first@ == ps1[0]);
    if chars_eq(first.as_slice(), intraconv.as_slice()) {
        let ghost before = ps@;
        ps.remove(0);
        assert(strs_view(ps@) =~= strs_view(before).drop_first());
    }
    ps
}

/// Some action of a file changes its line.
pub open spec fn spec_has_changes(actions: Seq<Action>) -> bool {
    exists|i: int| 0 <= i < actions.len() && !(#[trigger] actions[i]@ is Unchanged)
}

/// Whether some action changes its line: only then is a file shown.
pub fn has_changes(actions: &Vec<Action>) -> (b: bool)
    ensures
        b == spec_has_changes(actions@),
{
    let mut i: usize = 0;
    while i < actions.len()
        invariant
            0 <= i <= actions@.len(),
            forall|j: int| 0 <= j < i ==> (#[trigger] actions@[j])@ is Unchanged,
        decreases actions@.len() - i,
    {
        if !actions[i].is_unchanged() {
            return true;
        }
        i = i + 1;
    }
    false
}

/// The new lines of the first `n` actions, one after the other.
pub open spec fn content_upto(actions: Seq<SAct>, n: int) -> Seq<char>
    decreases n,
{
    if n <= 0 {
        seq![]
    } else {
        content_upto(actions, n - 1) + new_line_of(actions[n - 1])
    }
}

pub type SAct = crate::action::SAction;

/// The new content of a file: the new lines of its actions, in order.
pub fn new_content(actions: &Vec<Action>) -> (r: String)
    ensures
        r@ == content_upto(actions_view(actions@), actions@.len() as int),
{
    let ghost av = actions_view(actions@);
    let mut c: Vec<char> = Vec::new();
    let mut i: usize = 0;
    while i < actions.len()
        invariant
            av == actions_view(actions@),
            0 <= i <= actions@.len(),
            c@ == content_upto(av, i as int),
        decreases actions@.len() - i,
    {
        let l = chars_of(actions[i].as_new_line());
        assert(av[i as int] == actions@[i as int]@);
        extend_chars(&mut c, l.as_slice());
        i = i + 1;
    }
    string_of(c.as_slice())
}

/// The lines of a file, each followed by `\n`.
pub open spec fn lines_text(lines: Seq<Seq<char>>, n: int) -> Seq<char>
    decreases n,
{
    if n <= 0 {
        seq![]
    } else {
        lines_text(lines, n - 1) + lines[n - 1].push('\n')
    }
}

proof fn lemma_content_of_unchanged(actions: Seq<SAct>, lines: Seq<Seq<char>>, n: int)
    requires
        0 <= n <= actions.len(),
        n <= lines.len(),
        forall|i: int| 0 <= i < n ==> #[trigger] actions[i] == (ActionOf::Unchanged { line: lines[i].push('\n') }),
    ensures
        content_upto(actions, n) == lines_text(lines, n),
    decreases n,
{
    if n > 0 {
        lemma_content_of_unchanged(actions, lines, n - 1);
        assert(actions[n - 1] == (ActionOf::Unchanged { line: lines[n - 1].push('\n') }));
    }
}

/// A file with no link (no link definition to a relative path, no inline
/// link) is written back as it was read, each of its lines followed by
/// `\n`.
pub proof fn law_files_without_links_are_kept(
    opts: ConversionOptions,
    cfg: FileConfig,
    path: Seq<char>,
    lines: Seq<Seq<char>>,
)
    requires
        lines.len() <= usize::MAX,
        forall|i: int| 0 <= i < lines.len() ==> !#[trigger] is_candidate(lines[i]),
    ensures
        content_upto(spec_transform_file(opts, cfg, path, lines), lines.len() as int) == lines_text(
            lines,
            lines.len() as int,
        ),
{
    let actions = spec_transform_file(opts, cfg, path, lines);
    law_one_action_per_line(opts, cfg, path, lines);
    assert forall|i: int| 0 <= i < lines.len() implies #[trigger] actions[i] == (ActionOf::Unchanged {
        line: lines[i].push('\n'),
    }) by {
        assert(action_for_line(actions[i], lines[i], (i + 1) as usize));
        assert(only_links_change(actions[i], lines[i]));
        assert(!is_candidate(lines[i]));
    }
    lemma_content_of_unchanged(actions, lines, lines.len() as int);
}

} // verus!
