//! The configuration of links to leave alone.
//!
//! A link is named by the text between its brackets (`` `downcast_ref` ``
//! in ``/// [`downcast_ref`]: #method.downcast_ref``) and points to a path.
//! A configuration lists, for each name, the paths to ignore: once for
//! every file (`globals`), and once per file (`per_file`), a file being
//! matched when its path ends with the configured one, component by
//! component.
use vstd::prelude::*;
use crate::path::{Comp, Component, SComp, components, components_exec, comps_view};
use crate::text::{chars_eq, chars_of};

verus! {

/// Links to ignore, for each link name: the name, then the targets.
pub type IgnoreMap = Vec<(String, Vec<String>)>;

/// A configuration as read from its file: paths in `per_file` are written
/// as they were given.
#[derive(Debug, Clone, PartialEq, Eq)]
pub struct RawFileConfig {
    /// Ignored links, whatever the file.
    pub globals: IgnoreMap,
    /// Ignored links, for each file they apply to.
    pub per_file: Vec<(String, IgnoreMap)>,
}

/// A configuration whose per-file paths of more than one component have
/// been replaced by their canonical form.
#[derive(Debug, Clone, PartialEq, Eq)]
pub struct FileConfig(pub RawFileConfig);

impl Default for RawFileConfig {
    fn default() -> (r: Self)
        ensures
            r.globals@.len() == 0,
            r.per_file@.len() == 0,
    {
        RawFileConfig { globals: Vec::new(), per_file: Vec::new() }
    }
}

impl Default for FileConfig {
    fn default() -> (r: Self)
        ensures
            r.0.globals@.len() == 0,
            r.0.per_file@.len() == 0,
    {
        FileConfig(RawFileConfig::default())
    }
}

/// Two paths are the same when their components are.
pub open spec fn same_path(a: Seq<char>, b: Seq<char>) -> bool {
    components(a) == components(b)
}

/// One of the targets `vs` is the path `value`.
pub open spec fn targets_hold(vs: Seq<String>, value: Seq<char>) -> bool {
    exists|j: int| 0 <= j < vs.len() && same_path(#[trigger] vs[j]@, value)
}

/// The targets listed for `name` in `map`: those of the first entry with
/// that name. A configuration holds each name once in a map (the TOML
/// table it is read from has unique keys, see [`unique_names`]), so this is
/// the lookup of `name` in the map.
pub open spec fn lookup(map: Seq<(String, Vec<String>)>, name: Seq<char>) -> Option<Seq<String>>
    decreases map.len(),
{
    if map.len() == 0 {
        None
    } else if map[0].0@ == name {
        Some(map[0].1@)
    } else {
        lookup(map.drop_first(), name)
    }
}

/// The link `name` to `value` is listed in `map`.
pub open spec fn contains_ignored(map: Seq<(String, Vec<String>)>, name: Seq<char>, value: Seq<char>) -> bool {
    match lookup(map, name) {
        Some(vs) => targets_hold(vs, value),
        None => false,
    }
}

/// Each name occurs at most once in `map`.
pub open spec fn unique_names(map: Seq<(String, Vec<String>)>) -> bool {
    forall|i: int, j: int|
        0 <= i < j < map.len() ==> (#[trigger] map[i]).0@ != (#[trigger] map[j]).0@
}

/// The invariant of a configuration: each of its maps names a link once.
pub open spec fn config_wf(c: RawFileConfig) -> bool {
    &&& unique_names(c.globals@)
    &&& forall|k: int| 0 <= k < c.per_file@.len() ==> unique_names((#[trigger] c.per_file@[k]).1@)
}

proof fn lemma_lookup_unique(map: Seq<(String, Vec<String>)>, i: int)
    requires
        unique_names(map),
        0 <= i < map.len(),
    ensures
        lookup(map, map[i].0@) == Some(map[i].1@),
    decreases map.len(),
{
    if i > 0 {
        assert(map[0].0@ != map[i].0@);
        let rest = map.drop_first();
        assert(rest[i - 1] == map[i]);
        assert(unique_names(rest)) by {
            assert forall|a: int, b: int| 0 <= a < b < rest.len() implies (#[trigger] rest[a]).0@
                != (#[trigger] rest[b]).0@ by {
                assert(rest[a] == map[a + 1]);
                assert(rest[b] == map[b + 1]);
            }
        }
        lemma_lookup_unique(rest, i - 1);
    }
}

/// In a map that names each link once, looking a name up finds the targets
/// of any entry with that name.
pub proof fn law_lookup_finds_the_entry(map: Seq<(String, Vec<String>)>, i: int)
    requires
        unique_names(map),
        0 <= i < map.len(),
    ensures
        lookup(map, map[i].0@) == Some(map[i].1@),
{
    lemma_lookup_unique(map, i);
}

/// The path `file` ends with the path `tail`, component by component.
pub open spec fn path_ends_with(file: Seq<char>, tail: Seq<char>) -> bool {
    let a = components(file);
    let b = components(tail);
    b.len() <= a.len() && a.subrange(a.len() - b.len(), a.len() as int) == b
}

/// The link is ignored by a per-file entry that `file` ends with.
pub open spec fn locally_ignored(
    per_file: Seq<(String, IgnoreMap)>,
    file: Seq<char>,
    name: Seq<char>,
    value: Seq<char>,
) -> bool {
    exists|k: int|
        0 <= k < per_file.len() && path_ends_with(file, (#[trigger] per_file[k]).0@)
            && contains_ignored(per_file[k].1@, name, value)
}

/// The link `name` to `value`, in `file`, is ignored by `c`.
pub open spec fn raw_ignores(c: RawFileConfig, file: Seq<char>, name: Seq<char>, value: Seq<char>) -> bool {
    contains_ignored(c.globals@, name, value) || locally_ignored(c.per_file@, file, name, value)
}

/// Per-file paths with more than one component: those that are
/// canonicalized.
pub open spec fn needs_canonical(p: Seq<char>) -> bool {
    components(p).len() >= 2
}

/// The per-file paths of `pf` that are canonicalized, in order.
pub open spec fn canonical_keys(pf: Seq<(String, IgnoreMap)>) -> Seq<Seq<char>>
    decreases pf.len(),
{
    if pf.len() == 0 {
        seq![]
    } else {
        let rest = canonical_keys(pf.drop_last());
        if needs_canonical(pf.last().0@) {
            rest.push(pf.last().0@)
        } else {
            rest
        }
    }
}

/// The entries of `pf` kept as they are: those of exactly one component.
/// An entry whose path has no component at all is dropped.
pub open spec fn kept_entries(pf: Seq<(String, IgnoreMap)>) -> Seq<(String, IgnoreMap)>
    decreases pf.len(),
{
    if pf.len() == 0 {
        seq![]
    } else {
        let rest = kept_entries(pf.drop_last());
        if components(pf.last().0@).len() == 1 {
            rest.push(pf.last())
        } else {
            rest
        }
    }
}

/// The entries of `pf` that are canonicalized, with their maps.
pub open spec fn moved_maps(pf: Seq<(String, IgnoreMap)>) -> Seq<IgnoreMap>
    decreases pf.len(),
{
    if pf.len() == 0 {
        seq![]
    } else {
        let rest = moved_maps(pf.drop_last());
        if needs_canonical(pf.last().0@) {
            rest.push(pf.last().1)
        } else {
            rest
        }
    }
}

proof fn lemma_canonical_lens(pf: Seq<(String, IgnoreMap)>)
    ensures
        canonical_keys(pf).len() == moved_maps(pf).len(),
        kept_entries(pf).len() + moved_maps(pf).len() <= pf.len(),
    decreases pf.len(),
{
    if pf.len() > 0 {
        lemma_canonical_lens(pf.drop_last());
    }
}

/// The maps of `pf` all name each link once.
pub open spec fn maps_unique(pf: Seq<(String, IgnoreMap)>) -> bool {
    forall|k: int| 0 <= k < pf.len() ==> unique_names((#[trigger] pf[k]).1@)
}

proof fn lemma_finished_maps_unique(pf: Seq<(String, IgnoreMap)>)
    requires
        maps_unique(pf),
    ensures
        maps_unique(kept_entries(pf)),
        forall|k: int| 0 <= k < moved_maps(pf).len() ==> unique_names((#[trigger] moved_maps(pf)[k])@),
    decreases pf.len(),
{
    if pf.len() > 0 {
        let rest = pf.drop_last();
        assert forall|k: int| 0 <= k < rest.len() implies unique_names((#[trigger] rest[k]).1@) by {
            assert(rest[k] == pf[k]);
        }
        lemma_finished_maps_unique(rest);
        assert(unique_names(pf[pf.len() - 1].1@));
        let mr = moved_maps(rest);
        assert forall|k: int| 0 <= k < moved_maps(pf).len() implies unique_names(
            (#[trigger] moved_maps(pf)[k])@,
        ) by {
            if k < mr.len() {
                assert(moved_maps(pf)[k] == mr[k]);
            } else {
                assert(moved_maps(pf)[k] == pf.last().1);
            }
        }
    }
}

fn comp_eq(a: &Component, b: &Component) -> (r: bool)
    ensures
        r == (a@ == b@),
{
    match (a, b) {
        (Comp::RootDir, Comp::RootDir) => true,
        (Comp::CurDir, Comp::CurDir) => true,
        (Comp::ParentDir, Comp::ParentDir) => true,
        (Comp::Normal(x), Comp::Normal(y)) => chars_eq(x.as_slice(), y.as_slice()),
        _ => false,
    }
}

/// Whether `a[from..]` is `b`.
fn comps_tail_eq(a: &[Component], from: usize, b: &[Component]) -> (r: bool)
    requires
        from <= a@.len(),
    ensures
        r == (comps_view(a@).subrange(from as int, a@.len() as int) == comps_view(b@)),
{
    let ghost sa = comps_view(a@).subrange(from as int, a@.len() as int);
    if a.len() - from != b.len() {
        assert(sa.len() != comps_view(b@).len());
        return false;
    }
    let n = a.len();
    let mut i: usize = 0;
    while i < b.len()
        invariant
            n == a@.len(),
            from <= a@.len(),
            a@.len() - from == b@.len(),
            sa == comps_view(a@).subrange(from as int, a@.len() as int),
            0 <= i <= b@.len(),
            forall|j: int| 0 <= j < i ==> sa[j] == comps_view(b@)[j],
        decreases b@.len() - i,
    {
        if !comp_eq(&a[from + i], &b[i]) {
            assert(sa[i as int] != comps_view(b@)[i as int]);
            return false;
        }
        i = i + 1;
    }
    assert(sa =~= comps_view(b@));
    true
}

pub(crate) fn same_path_exec(a: &str, b: &str) -> (r: bool)
    ensures
        r == same_path(a@, b@),
{
    let ca = chars_of(a);
    let cb = chars_of(b);
    let pa = components_exec(ca.as_slice());
    let pb = components_exec(cb.as_slice());
    let r = comps_tail_eq(pa.as_slice(), 0, pb.as_slice());
    assert(comps_view(pa@).subrange(0, pa@.len() as int) =~= comps_view(pa@));
    r
}

fn path_ends_with_exec(file: &str, tail: &str) -> (r: bool)
    ensures
        r == path_ends_with(file@, tail@),
{
    let ca = chars_of(file);
    let cb = chars_of(tail);
    let pa = components_exec(ca.as_slice());
    let pb = components_exec(cb.as_slice());
    if pb.len() > pa.len() {
        return false;
    }
    comps_tail_eq(pa.as_slice(), pa.len() - pb.len(), pb.as_slice())
}

fn targets_hold_exec(vs: &Vec<String>, value: &str) -> (r: bool)
    ensures
        r == targets_hold(vs@, value@),
{
    let mut j: usize = 0;
    while j < vs.len()
        invariant
            0 <= j <= vs@.len(),
            forall|k: int| 0 <= k < j ==> !same_path(#[trigger] vs@[k]@, value@),
        decreases vs@.len() - j,
    {
        if same_path_exec(vs[j].as_str(), value) {
            return true;
        }
        j = j + 1;
    }
    false
}

/// Whether the link `name` to `value` is listed in `map`, see
/// [`contains_ignored`].
pub fn contains_ignored_exec(map: &IgnoreMap, name: &str, value: &str) -> (r: bool)
    ensures
        r == contains_ignored(map@, name@, value@),
{
    let n = chars_of(name);
    assert(map@.subrange(0, map@.len() as int) =~= map@);
    let mut i: usize = 0;
    while i < map.len()
        invariant
            0 <= i <= map@.len(),
            n@ == name@,
            lookup(map@.subrange(i as int, map@.len() as int), name@) == lookup(map@, name@),
        decreases map@.len() - i,
    {
        let ghost rest = map@.subrange(i as int, map@.len() as int);
        assert(rest[0] == map@[i as int]);
        assert(rest.drop_first() =~= map@.subrange(i + 1, map@.len() as int));
        let (nm, vs) = &map[i];
        let nc = chars_of(nm.as_str());
        if chars_eq(nc.as_slice(), n.as_slice()) {
            return targets_hold_exec(vs, value);
        }
        i = i + 1;
    }
    assert(map@.subrange(i as int, map@.len() as int) =~= Seq::<(String, Vec<String>)>::empty());
    false
}

impl RawFileConfig {
    /// Whether the link `name` to `value` is ignored everywhere.
    pub fn is_globally_ignored(&self, name: &str, value: &str) -> (r: bool)
        ensures
            r == contains_ignored(self.globals@, name@, value@),
    {
        contains_ignored_exec(&self.globals, name, value)
    }

    /// Whether some file of the configuration is a suffix of `file` and
    /// ignores the link `name` to `value`.
    pub fn is_locally_ignored(&self, file: &str, name: &str, value: &str) -> (r: bool)
        ensures
            r == locally_ignored(self.per_file@, file@, name@, value@),
    {
        let mut k: usize = 0;
        while k < self.per_file.len()
            invariant
                0 <= k <= self.per_file@.len(),
                forall|j: int|
                    0 <= j < k ==> !(path_ends_with(file@, (#[trigger] self.per_file@[j]).0@)
                        && contains_ignored(self.per_file@[j].1@, name@, value@)),
            decreases self.per_file@.len() - k,
        {
            let (f, names) = &self.per_file[k];
            if path_ends_with_exec(file, f.as_str()) && contains_ignored_exec(names, name, value) {
                return true;
            }
            k = k + 1;
        }
        false
    }

    /// The per-file paths of more than one component, in order: each of
    /// them is to be replaced by its canonical form before [`Self::finish`].
    pub fn paths_to_canonicalize(&self) -> (r: Vec<String>)
        ensures
            r@.len() == canonical_keys(self.per_file@).len(),
            forall|i: int| 0 <= i < r@.len() ==> #[trigger] r@[i]@ == canonical_keys(self.per_file@)[i],
    {
        let mut r: Vec<String> = Vec::new();
        let mut k: usize = 0;
        while k < self.per_file.len()
            invariant
                0 <= k <= self.per_file@.len(),
                r@.len() == canonical_keys(self.per_file@.subrange(0, k as int)).len(),
                forall|i: int|
                    0 <= i < r@.len() ==> #[trigger] r@[i]@ == canonical_keys(
                        self.per_file@.subrange(0, k as int),
                    )[i],
            decreases self.per_file@.len() - k,
        {
            let ghost pre = self.per_file@.subrange(0, k as int);
            let ghost next = self.per_file@.subrange(0, k + 1);
            assert(next.drop_last() =~= pre);
            let f = &self.per_file[k].0;
            let fc = chars_of(f.as_str());
            let comps = components_exec(fc.as_slice());
            if comps.len() >= 2 {
                r.push(f.clone());
            }
            k = k + 1;
        }
        assert(self.per_file@.subrange(0, self.per_file@.len() as int) =~= self.per_file@);
        r
    }

    /// The configuration to use: per-file paths of one component are kept
    /// as they are, those of more than one are replaced, in order, by
    /// `canonical`, their canonical forms, and those of none are dropped.
    pub fn finish(self, canonical: Vec<String>) -> (r: FileConfig)
        requires
            canonical@.len() == canonical_keys(self.per_file@).len(),
        ensures
            r.0.globals == self.globals,
            r.0.per_file@ == kept_entries(self.per_file@) + Seq::new(
                canonical@.len(),
                |i: int| (canonical@[i], moved_maps(self.per_file@)[i]),
            ),
            config_wf(self) ==> config_wf(r.0),
    {
        let ghost pf = self.per_file@;
        let ghost wf = config_wf(self);
        proof {
            lemma_canonical_lens(pf);
            if wf {
                assert(maps_unique(pf));
                lemma_finished_maps_unique(pf);
            }
        }
        let RawFileConfig { globals, per_file } = self;
        let mut rest = per_file;
        let n0 = rest.len();
        let mut kept: Vec<(String, IgnoreMap)> = Vec::new();
        let mut moved: Vec<IgnoreMap> = Vec::new();
        let mut k: usize = 0;
        while rest.len() > 0
            invariant
                n0 == pf.len(),
                0 <= k <= pf.len(),
                rest@ == pf.subrange(k as int, pf.len() as int),
                kept@ == kept_entries(pf.subrange(0, k as int)),
                moved@ == moved_maps(pf.subrange(0, k as int)),
            decreases rest@.len(),
        {
            let ghost pre = pf.subrange(0, k as int);
            let ghost next = pf.subrange(0, k + 1);
            assert(next.drop_last() =~= pre);
            let entry = rest.remove(0);
            assert(entry == pf[k as int]);
            let fc = chars_of(entry.0.as_str());
            let comps = components_exec(fc.as_slice());
            if comps.len() >= 2 {
                moved.push(entry.1);
            } else if comps.len() == 1 {
                kept.push(entry);
            }
            k = k + 1;
            assert(rest@ =~= pf.subrange(k as int, pf.len() as int));
        }
        assert(pf.subrange(0, pf.len() as int) =~= pf);
        let ghost nk = kept@.len();
        let ghost mm = moved@;
        let mut out = kept;
        let mut cs = canonical;
        let n1 = cs.len();
        let mut i: usize = 0;
        while cs.len() > 0
            invariant
                n1 == canonical@.len(),
                mm == moved_maps(pf),
                mm.len() == canonical@.len(),
                0 <= i <= canonical@.len(),
                cs@ == canonical@.subrange(i as int, canonical@.len() as int),
                moved@ == mm.subrange(i as int, mm.len() as int),
                out@ == kept_entries(pf) + Seq::new(i as nat, |j: int| (canonical@[j], mm[j])),
            decreases cs@.len(),
        {
            let c = cs.remove(0);
            let m = moved.remove(0);
            out.push((c, m));
            assert(out@ =~= kept_entries(pf) + Seq::new((i + 1) as nat, |j: int| (canonical@[j], mm[j])));
            i = i + 1;
            assert(cs@ =~= canonical@.subrange(i as int, canonical@.len() as int));
            assert(moved@ =~= mm.subrange(i as int, mm.len() as int));
        }
        let r = FileConfig(RawFileConfig { globals, per_file: out });
        proof {
            if wf {
                let kp = kept_entries(pf);
                assert forall|k: int| 0 <= k < r.0.per_file@.len() implies unique_names(
                    (#[trigger] r.0.per_file@[k]).1@,
                ) by {
                    if k < kp.len() {
                        assert(r.0.per_file@[k] == kp[k]);
                    } else {
                        assert(r.0.per_file@[k].1 == mm[k - kp.len()]);
                    }
                }
            }
        }
        r
    }
}

impl FileConfig {
    /// Whether the link `name` to `value`, found in `file`, is to be left
    /// alone.
    pub fn is_ignored(&self, file: &str, name: &str, value: &str) -> (r: bool)
        ensures
            r == raw_ignores(self.0, file@, name@, value@),
    {
        self.0.is_globally_ignored(name, value) || self.0.is_locally_ignored(file, name, value)
    }
}

/// A link ignored globally is ignored in every file.
pub proof fn law_global_ignores_apply_everywhere(
    c: RawFileConfig,
    file: Seq<char>,
    name: Seq<char>,
    value: Seq<char>,
)
    requires
        contains_ignored(c.globals@, name, value),
    ensures
        raw_ignores(c, file, name, value),
{
}

} // verus!
