//! Links seen as relative paths.
//!
//! A link such as `../mod1/struct.Type.html` is read as a path, split on `/`
//! into components the way a Unix path is: empty segments are dropped, `.`
//! is kept only as the first component of a relative path, `..` is a parent
//! component, and a leading `/` is a root component.
use vstd::prelude::*;
use crate::text::{chars_of, extend_chars, sub_chars};

verus! {

/// One component of a path.
#[derive(Clone, PartialEq, Eq, Debug)]
pub enum Comp<T> {
    RootDir,
    CurDir,
    ParentDir,
    Normal(T),
}

/// A component as the executable code holds it.
pub type Component = Comp<Vec<char>>;

/// A component as the specifications see it.
pub type SComp = Comp<Seq<char>>;

impl View for Comp<Vec<char>> {
    type V = Comp<Seq<char>>;

    open spec fn view(&self) -> Comp<Seq<char>> {
        match self {
            Comp::RootDir => Comp::RootDir,
            Comp::CurDir => Comp::CurDir,
            Comp::ParentDir => Comp::ParentDir,
            Comp::Normal(n) => Comp::Normal(n@),
        }
    }
}

pub open spec fn comps_view(v: Seq<Component>) -> Seq<SComp> {
    v.map_values(|c: Component| c@)
}

/// The component that one `/`-separated segment stands for, if any.
pub open spec fn classify(seg: Seq<char>, first: bool) -> Option<SComp> {
    if seg.len() == 0 {
        None
    } else if seg == seq!['.'] {
        if first {
            Some(Comp::CurDir)
        } else {
            None
        }
    } else if seg == seq!['.', '.'] {
        Some(Comp::ParentDir)
    } else {
        Some(Comp::Normal(seg))
    }
}

pub open spec fn push_opt(acc: Seq<SComp>, o: Option<SComp>) -> Seq<SComp> {
    match o {
        Some(c) => acc.push(c),
        None => acc,
    }
}

/// Splits `s[start..]` on `/`; the segment being read spans `s[start..i]`.
pub open spec fn comps_fold(s: Seq<char>, i: int, start: int, acc: Seq<SComp>) -> Seq<SComp>
    decreases s.len() - i,
{
    if i >= s.len() {
        push_opt(acc, classify(s.subrange(start, s.len() as int), start == 0))
    } else if s[i] == '/' {
        comps_fold(s, i + 1, i + 1, push_opt(acc, classify(s.subrange(start, i), start == 0)))
    } else {
        comps_fold(s, i + 1, start, acc)
    }
}

/// The components of the path written `s`.
pub open spec fn components(s: Seq<char>) -> Seq<SComp> {
    if s.len() > 0 && s[0] == '/' {
        comps_fold(s, 0, 0, seq![Comp::RootDir])
    } else {
        comps_fold(s, 0, 0, seq![])
    }
}

/// Last component when it is a normal one.
pub open spec fn file_name(cs: Seq<SComp>) -> Option<Seq<char>> {
    if cs.len() > 0 && cs.last() is Normal {
        Some(cs.last()->Normal_0)
    } else {
        None
    }
}

/// The parent of a path, or the empty path when it has none.
pub open spec fn parent_or_empty(cs: Seq<SComp>) -> Seq<SComp> {
    if cs.len() > 0 && !(cs.last() is RootDir) {
        cs.drop_last()
    } else {
        seq![]
    }
}

/// The text of one component.
pub open spec fn comp_text(c: SComp) -> Seq<char> {
    match c {
        Comp::RootDir => seq!['/'],
        Comp::CurDir => seq!['.'],
        Comp::ParentDir => seq!['.', '.'],
        Comp::Normal(n) => n,
    }
}

/// Components joined with `/`.
pub open spec fn join_path(cs: Seq<SComp>) -> Seq<char>
    decreases cs.len(),
{
    if cs.len() == 0 {
        seq![]
    } else if cs.len() == 1 {
        comp_text(cs[0])
    } else {
        join_path(cs.drop_last()) + seq!['/'] + comp_text(cs.last())
    }
}

fn classify_exec(s: &[char], start: usize, end: usize) -> (r: Option<Component>)
    requires
        start <= end <= s@.len(),
    ensures
        match r {
            Some(c) => classify(s@.subrange(start as int, end as int), start == 0) == Some(c@),
            None => classify(s@.subrange(start as int, end as int), start == 0) is None,
        },
{
    let ghost seg = s@.subrange(start as int, end as int);
    if start == end {
        None
    } else if end - start == 1 && s[start] == '.' {
        assert(seg =~= seq!['.']);
        if start == 0 {
            Some(Comp::CurDir)
        } else {
            None
        }
    } else if end - start == 2 && s[start] == '.' && s[start + 1] == '.' {
        assert(seg =~= seq!['.', '.']);
        Some(Comp::ParentDir)
    } else {
        assert(seg != seq!['.']) by {
            if seg == seq!['.'] {
                assert(seg.len() == 1 && seg[0] == '.');
            }
        }
        assert(seg != seq!['.', '.']) by {
            if seg == seq!['.', '.'] {
                assert(seg.len() == 2 && seg[0] == '.' && seg[1] == '.');
            }
        }
        let n = sub_chars(s, start, end);
        Some(Comp::Normal(n))
    }
}

fn push_comp(acc: &mut Vec<Component>, o: Option<Component>, Ghost(so): Ghost<Option<SComp>>)
    requires
        match o {
            Some(c) => so == Some(c@),
            None => so is None,
        },
    ensures
        comps_view(final(acc)@) == push_opt(comps_view(old(acc)@), so),
{
    match o {
        Some(c) => {
            acc.push(c);
            assert(comps_view(acc@) =~= push_opt(comps_view(old(acc)@), so));
        },
        None => {},
    }
}

/// The components of the path written with the characters `s`.
pub fn components_exec(s: &[char]) -> (r: Vec<Component>)
    ensures
        comps_view(r@) == components(s@),
{
    let mut acc: Vec<Component> = Vec::new();
    if s.len() > 0 && s[0] == '/' {
        acc.push(Comp::RootDir);
    }
    assert(comps_view(acc@) =~= (if s@.len() > 0 && s@[0] == '/' {
        seq![Comp::RootDir]
    } else {
        seq![]
    }));
    let mut i: usize = 0;
    let mut start: usize = 0;
    while i < s.len()
        invariant
            0 <= start <= i <= s@.len(),
            comps_fold(s@, i as int, start as int, comps_view(acc@)) == components(s@),
        decreases s@.len() - i,
    {
        if s[i] == '/' {
            let c = classify_exec(s, start, i);
            push_comp(&mut acc, c, Ghost(classify(s@.subrange(start as int, i as int), start == 0)));
            start = i + 1;
        }
        i = i + 1;
    }
    let c = classify_exec(s, start, s.len());
    push_comp(&mut acc, c, Ghost(classify(s@.subrange(start as int, s@.len() as int), start == 0)));
    acc
}

/// Components `cs[from..]` joined with `/`.
pub fn join_path_exec(cs: &[Component], from: usize) -> (r: Vec<char>)
    requires
        from <= cs@.len(),
    ensures
        r@ == join_path(comps_view(cs@.subrange(from as int, cs@.len() as int))),
{
    let mut r: Vec<char> = Vec::new();
    let mut i: usize = from;
    while i < cs.len()
        invariant
            from <= i <= cs@.len(),
            r@ == join_path(comps_view(cs@.subrange(from as int, i as int))),
        decreases cs@.len() - i,
    {
        let ghost prev = cs@.subrange(from as int, i as int);
        let ghost next = cs@.subrange(from as int, i + 1);
        assert(comps_view(next).drop_last() =~= comps_view(prev));
        if i > from {
            r.push('/');
        }
        match &cs[i] {
            Comp::RootDir => {
                r.push('/');
            },
            Comp::CurDir => {
                r.push('.');
            },
            Comp::ParentDir => {
                r.push('.');
                r.push('.');
            },
            Comp::Normal(n) => {
                extend_chars(&mut r, n.as_slice());
            },
        }
        proof {
            reveal_with_fuel(join_path, 2);
            assert(comps_view(next).last() == cs@[i as int]@);
            if i == from {
                assert(comps_view(prev) =~= seq![]);
            }
        }
        assert(r@ =~= join_path(comps_view(next)));
        i = i + 1;
    }
    r
}

/// Splitting a text with no `/` from `i` on ends with its last segment.
pub proof fn lemma_comps_fold_no_slash(s: Seq<char>, i: int, start: int, acc: Seq<SComp>)
    requires
        0 <= start <= i <= s.len(),
        forall|j: int| i <= j < s.len() ==> s[j] != '/',
    ensures
        comps_fold(s, i, start, acc) == push_opt(acc, classify(s.subrange(start, s.len() as int), start == 0)),
    decreases s.len() - i,
{
    if i < s.len() {
        lemma_comps_fold_no_slash(s, i + 1, start, acc);
    }
}

/// A text with no `/`, other than `.` and `..`, is a single normal
/// component.
pub proof fn lemma_single_component(s: Seq<char>)
    requires
        s.len() > 0,
        forall|j: int| 0 <= j < s.len() ==> s[j] != '/',
        s != seq!['.'],
        s != seq!['.', '.'],
    ensures
        components(s) == seq![Comp::Normal(s)],
{
    lemma_comps_fold_no_slash(s, 0, 0, seq![]);
    assert(s.subrange(0, s.len() as int) =~= s);
    assert(seq![].push(Comp::Normal(s)) =~= seq![Comp::Normal(s)]);
}

} // verus!
