//! Project map: the lightweight structural sketch of a project —
//! files with sizes and languages, never contents.
use vstd::prelude::*;

use crate::order::{chars_lt, lex_lt};
use crate::text::{chars_eq, chars_of, slice_to_vec, split_chars, string_of, CharClass};

verus! {

/// One file in the map. `path` is project-relative with `/` separators.
#[derive(Debug, Clone, PartialEq, Eq)]
pub struct ProjectFile {
    pub path: String,
    pub language: String,
    pub bytes: u64,
}

/// The scanned structure. `truncated` means caps cut the walk short.
#[derive(Debug, Clone, Default)]
pub struct ProjectMap {
    pub root: String,
    pub files: Vec<ProjectFile>,
    pub truncated: bool,
}

/// A file as (directories, name): its path split at `/`.
pub type Entry = (Seq<Seq<char>>, Seq<char>);

/// The directories and name of a path.
pub open spec fn entry_of(path: Seq<char>) -> Entry {
    let parts = crate::text::split_by(path, CharClass::Slash);
    (parts.drop_last(), parts.last())
}

/// First directories of the entries that have one, in order.
pub open spec fn heads(es: Seq<Entry>) -> Seq<Seq<char>>
    decreases es.len(),
{
    if es.len() == 0 {
        Seq::empty()
    } else if es.last().0.len() > 0 {
        heads(es.drop_last()).push(es.last().0[0])
    } else {
        heads(es.drop_last())
    }
}

/// The distinct elements, in order of first appearance.
pub open spec fn unique(s: Seq<Seq<char>>) -> Seq<Seq<char>>
    decreases s.len(),
{
    if s.len() == 0 {
        Seq::empty()
    } else if unique(s.drop_last()).contains(s.last()) {
        unique(s.drop_last())
    } else {
        unique(s.drop_last()).push(s.last())
    }
}

/// `x` inserted into a sorted sequence before the first larger element.
pub open spec fn insert_sorted(s: Seq<Seq<char>>, x: Seq<char>) -> Seq<Seq<char>>
    decreases s.len(),
{
    if s.len() == 0 {
        seq![x]
    } else if lex_lt(x, s[0]) {
        seq![x] + s
    } else {
        seq![s[0]] + insert_sorted(s.drop_first(), x)
    }
}

/// The elements in ascending text order.
pub open spec fn sorted(s: Seq<Seq<char>>) -> Seq<Seq<char>>
    decreases s.len(),
{
    if s.len() == 0 {
        Seq::empty()
    } else {
        insert_sorted(sorted(s.drop_last()), s.last())
    }
}

/// Entries under directory `d`, relative to it.
pub open spec fn children(es: Seq<Entry>, d: Seq<char>) -> Seq<Entry>
    decreases es.len(),
{
    if es.len() == 0 {
        Seq::empty()
    } else if es.last().0.len() > 0 && es.last().0[0] == d {
        children(es.drop_last(), d).push((es.last().0.drop_first(), es.last().1))
    } else {
        children(es.drop_last(), d)
    }
}

/// Names of the entries directly at this level.
pub open spec fn leaves(es: Seq<Entry>) -> Seq<Seq<char>>
    decreases es.len(),
{
    if es.len() == 0 {
        Seq::empty()
    } else if es.last().0.len() == 0 {
        leaves(es.drop_last()).push(es.last().1)
    } else {
        leaves(es.drop_last())
    }
}

/// Two spaces per level.
pub open spec fn pad(depth: nat) -> Seq<char>
    decreases depth,
{
    if depth == 0 {
        Seq::empty()
    } else {
        pad((depth - 1) as nat) + seq![' ', ' ']
    }
}

/// One indented line per name.
pub open spec fn name_lines(names: Seq<Seq<char>>, depth: nat) -> Seq<char>
    decreases names.len(),
{
    if names.len() == 0 {
        Seq::empty()
    } else {
        name_lines(names.drop_last(), depth) + pad(depth) + names.last() + seq!['\n']
    }
}

/// One level of the tree: its subdirectories in name order, each as
/// `name/` followed by its own level one step deeper, then its files in
/// name order. `fuel` bounds the nesting.
pub open spec fn level(es: Seq<Entry>, depth: nat, fuel: nat) -> Seq<char>
    decreases fuel, 0nat,
{
    if fuel == 0 {
        Seq::empty()
    } else {
        dir_blocks(es, sorted(unique(heads(es))), depth, (fuel - 1) as nat) + name_lines(
            sorted(leaves(es)),
            depth,
        )
    }
}

/// The blocks of the subdirectories `ds`, in order.
pub open spec fn dir_blocks(es: Seq<Entry>, ds: Seq<Seq<char>>, depth: nat, fuel: nat) -> Seq<char>
    decreases fuel, ds.len() + 1,
{
    if ds.len() == 0 {
        Seq::empty()
    } else {
        dir_blocks(es, ds.drop_last(), depth, fuel) + pad(depth) + ds.last() + seq!['/', '\n'] + level(
            children(es, ds.last()),
            depth + 1,
            fuel,
        )
    }
}

/// Deepest directory nesting among the entries.
pub open spec fn max_dirs(es: Seq<Entry>) -> nat
    decreases es.len(),
{
    if es.len() == 0 {
        0
    } else if es.last().0.len() > max_dirs(es.drop_last()) {
        es.last().0.len()
    } else {
        max_dirs(es.drop_last())
    }
}

/// The map as an indented tree of its file paths.
pub open spec fn tree_text(files: Seq<ProjectFile>) -> Seq<char> {
    let es = files.map_values(|f: ProjectFile| entry_of(f.path@));
    level(es, 0, max_dirs(es) + 1)
}

/// Views of pieces.
pub open spec fn pieces(v: Seq<Vec<char>>) -> Seq<Seq<char>> {
    v.map_values(|p: Vec<char>| p@)
}

/// Views of entries.
pub open spec fn entry_views(v: Seq<(Vec<Vec<char>>, Vec<char>)>) -> Seq<Entry> {
    v.map_values(|e: (Vec<Vec<char>>, Vec<char>)| (pieces(e.0@), e.1@))
}

fn copy(v: &Vec<char>) -> (r: Vec<char>)
    ensures
        r@ == v@,
{
    let r = slice_to_vec(v, 0, v.len());
    proof {
        assert(v@.subrange(0, v@.len() as int) == v@);
    }
    r
}

fn heads_of(es: &Vec<(Vec<Vec<char>>, Vec<char>)>) -> (r: Vec<Vec<char>>)
    ensures
        pieces(r@) == heads(entry_views(es@)),
{
    let mut r: Vec<Vec<char>> = Vec::new();
    let mut i: usize = 0;
    while i < es.len()
        invariant
            i <= es@.len(),
            pieces(r@) == heads(entry_views(es@).take(i as int)),
        decreases es.len() - i,
    {
        proof {
            let t = entry_views(es@).take(i + 1);
            assert(t.drop_last() == entry_views(es@).take(i as int));
            assert(t.last() == entry_views(es@)[i as int]);
        }
        if es[i].0.len() > 0 {
            let h = copy(&es[i].0[0]);
            proof {
                assert(pieces(r@.push(h)) == pieces(r@).push(h@));
            }
            r.push(h);
        }
        i = i + 1;
    }
    proof {
        assert(entry_views(es@).take(es@.len() as int) == entry_views(es@));
    }
    r
}

fn position_of(s: &Vec<Vec<char>>, x: &Vec<char>) -> (r: bool)
    ensures
        r == pieces(s@).contains(x@),
{
    let mut i: usize = 0;
    while i < s.len()
        invariant
            i <= s@.len(),
            forall|j: int| 0 <= j < i ==> s@[j]@ != x@,
        decreases s.len() - i,
    {
        if chars_eq(&s[i], x) {
            proof {
                assert(pieces(s@)[i as int] == x@);
            }
            return true;
        }
        i = i + 1;
    }
    proof {
        if pieces(s@).contains(x@) {
            let j = choose|j: int| 0 <= j < pieces(s@).len() && pieces(s@)[j] == x@;
            assert(s@[j]@ == x@);
        }
    }
    false
}

fn unique_of(s: &Vec<Vec<char>>) -> (r: Vec<Vec<char>>)
    ensures
        pieces(r@) == unique(pieces(s@)),
{
    let mut r: Vec<Vec<char>> = Vec::new();
    let mut i: usize = 0;
    while i < s.len()
        invariant
            i <= s@.len(),
            pieces(r@) == unique(pieces(s@).take(i as int)),
        decreases s.len() - i,
    {
        proof {
            let t = pieces(s@).take(i + 1);
            assert(t.drop_last() == pieces(s@).take(i as int));
            assert(t.last() == s@[i as int]@);
        }
        if !position_of(&r, &s[i]) {
            let x = copy(&s[i]);
            proof {
                assert(pieces(r@.push(x)) == pieces(r@).push(x@));
            }
            r.push(x);
        }
        i = i + 1;
    }
    proof {
        assert(pieces(s@).take(s@.len() as int) == pieces(s@));
    }
    r
}

proof fn lemma_insert_at(s: Seq<Seq<char>>, x: Seq<char>, i: int)
    requires
        0 <= i <= s.len(),
        forall|j: int| 0 <= j < i ==> !lex_lt(x, #[trigger] s[j]),
        i < s.len() ==> lex_lt(x, s[i]),
    ensures
        insert_sorted(s, x) == s.take(i) + seq![x] + s.skip(i),
    decreases i,
{
    if i == 0 {
        if s.len() == 0 {
            assert(s.take(0) + seq![x] + s.skip(0) =~= seq![x]);
        } else {
            assert(s.take(0) + seq![x] + s.skip(0) =~= seq![x] + s);
        }
    } else {
        let t = s.drop_first();
        assert forall|j: int| 0 <= j < i - 1 implies !lex_lt(x, #[trigger] t[j]) by {
            assert(t[j] == s[j + 1]);
        }
        lemma_insert_at(t, x, i - 1);
        assert(!lex_lt(x, s[0]));
        assert(seq![s[0]] + (t.take(i - 1) + seq![x] + t.skip(i - 1)) =~= s.take(i) + seq![x] + s.skip(i));
    }
}

fn insert_into(s: &mut Vec<Vec<char>>, x: Vec<char>)
    ensures
        pieces(final(s)@) == insert_sorted(pieces(old(s)@), x@),
{
    let mut i: usize = 0;
    while i < s.len() && !chars_lt(&x, &s[i])
        invariant
            i <= s@.len(),
            forall|j: int| 0 <= j < i ==> !lex_lt(x@, #[trigger] pieces(s@)[j]),
        decreases s.len() - i,
    {
        i = i + 1;
    }
    proof {
        lemma_insert_at(pieces(s@), x@, i as int);
    }
    let ghost before = s@;
    s.insert(i, x);
    proof {
        assert(pieces(s@) =~= pieces(before).take(i as int) + seq![x@] + pieces(before).skip(i as int));
    }
}

fn sorted_of(v: &Vec<Vec<char>>) -> (r: Vec<Vec<char>>)
    ensures
        pieces(r@) == sorted(pieces(v@)),
{
    let mut r: Vec<Vec<char>> = Vec::new();
    let mut i: usize = 0;
    while i < v.len()
        invariant
            i <= v@.len(),
            pieces(r@) == sorted(pieces(v@).take(i as int)),
        decreases v.len() - i,
    {
        proof {
            let t = pieces(v@).take(i + 1);
            assert(t.drop_last() == pieces(v@).take(i as int));
            assert(t.last() == v@[i as int]@);
        }
        insert_into(&mut r, copy(&v[i]));
        i = i + 1;
    }
    proof {
        assert(pieces(v@).take(v@.len() as int) == pieces(v@));
    }
    r
}

fn copy_pieces(v: &Vec<Vec<char>>, from: usize) -> (r: Vec<Vec<char>>)
    requires
        from <= v@.len(),
    ensures
        pieces(r@) == pieces(v@).skip(from as int),
{
    let mut r: Vec<Vec<char>> = Vec::new();
    let mut i = from;
    while i < v.len()
        invariant
            from <= i <= v@.len(),
            pieces(r@) == pieces(v@).subrange(from as int, i as int),
        decreases v.len() - i,
    {
        let x = copy(&v[i]);
        proof {
            assert(pieces(r@.push(x)) == pieces(r@).push(x@));
            assert(pieces(v@).subrange(from as int, i + 1) == pieces(v@).subrange(from as int, i as int).push(v@[i as int]@));
        }
        r.push(x);
        i = i + 1;
    }
    r
}

fn children_of(es: &Vec<(Vec<Vec<char>>, Vec<char>)>, d: &Vec<char>) -> (r: Vec<(Vec<Vec<char>>, Vec<char>)>)
    ensures
        entry_views(r@) == children(entry_views(es@), d@),
{
    let mut r: Vec<(Vec<Vec<char>>, Vec<char>)> = Vec::new();
    let mut i: usize = 0;
    while i < es.len()
        invariant
            i <= es@.len(),
            entry_views(r@) == children(entry_views(es@).take(i as int), d@),
        decreases es.len() - i,
    {
        proof {
            let t = entry_views(es@).take(i + 1);
            assert(t.drop_last() == entry_views(es@).take(i as int));
            assert(t.last() == entry_views(es@)[i as int]);
        }
        let e = &es[i];
        if e.0.len() > 0 && chars_eq(&e.0[0], d) {
            let rest = copy_pieces(&e.0, 1);
            let name = copy(&e.1);
            proof {
                assert(pieces(e.0@).skip(1) == pieces(e.0@).drop_first());
                assert(entry_views(r@.push((rest, name))) == entry_views(r@).push((pieces(rest@), name@)));
            }
            r.push((rest, name));
        }
        i = i + 1;
    }
    proof {
        assert(entry_views(es@).take(es@.len() as int) == entry_views(es@));
    }
    r
}

fn leaves_of(es: &Vec<(Vec<Vec<char>>, Vec<char>)>) -> (r: Vec<Vec<char>>)
    ensures
        pieces(r@) == leaves(entry_views(es@)),
{
    let mut r: Vec<Vec<char>> = Vec::new();
    let mut i: usize = 0;
    while i < es.len()
        invariant
            i <= es@.len(),
            pieces(r@) == leaves(entry_views(es@).take(i as int)),
        decreases es.len() - i,
    {
        proof {
            let t = entry_views(es@).take(i + 1);
            assert(t.drop_last() == entry_views(es@).take(i as int));
            assert(t.last() == entry_views(es@)[i as int]);
        }
        if es[i].0.len() == 0 {
            let x = copy(&es[i].1);
            proof {
                assert(pieces(r@.push(x)) == pieces(r@).push(x@));
            }
            r.push(x);
        }
        i = i + 1;
    }
    proof {
        assert(entry_views(es@).take(es@.len() as int) == entry_views(es@));
    }
    r
}

fn push_all(out: &mut Vec<char>, s: &Vec<char>)
    ensures
        final(out)@ == old(out)@ + s@,
{
    let mut k: usize = 0;
    let ghost start = out@;
    while k < s.len()
        invariant
            k <= s@.len(),
            out@ == start + s@.take(k as int),
        decreases s.len() - k,
    {
        out.push(s[k]);
        proof {
            assert(s@.take(k + 1) == s@.take(k as int).push(s@[k as int]));
        }
        k = k + 1;
    }
    proof {
        assert(s@.take(s@.len() as int) == s@);
    }
}

fn push_pad(out: &mut Vec<char>, depth: usize)
    ensures
        final(out)@ == old(out)@ + pad(depth as nat),
{
    let mut k: usize = 0;
    let ghost start = out@;
    while k < depth
        invariant
            k <= depth,
            out@ == start + pad(k as nat),
        decreases depth - k,
    {
        out.push(' ');
        out.push(' ');
        proof {
            assert(pad((k + 1) as nat) == pad(k as nat) + seq![' ', ' ']);
        }
        k = k + 1;
    }
}

fn name_lines_of(out: &mut Vec<char>, names: &Vec<Vec<char>>, depth: usize)
    ensures
        final(out)@ == old(out)@ + name_lines(pieces(names@), depth as nat),
{
    let ghost start = out@;
    let mut i: usize = 0;
    while i < names.len()
        invariant
            i <= names@.len(),
            out@ == start + name_lines(pieces(names@).take(i as int), depth as nat),
        decreases names.len() - i,
    {
        proof {
            let t = pieces(names@).take(i + 1);
            assert(t.drop_last() == pieces(names@).take(i as int));
            assert(t.last() == names@[i as int]@);
        }
        push_pad(out, depth);
        push_all(out, &names[i]);
        out.push('\n');
        i = i + 1;
    }
    proof {
        assert(pieces(names@).take(names@.len() as int) == pieces(names@));
    }
}

fn level_of(out: &mut Vec<char>, es: &Vec<(Vec<Vec<char>>, Vec<char>)>, depth: usize, fuel: usize)
    requires
        depth + fuel <= usize::MAX,
    ensures
        final(out)@ == old(out)@ + level(entry_views(es@), depth as nat, fuel as nat),
    decreases fuel, 0nat,
{
    if fuel == 0 {
        return;
    }
    let hs = heads_of(es);
    let us = unique_of(&hs);
    let ds = sorted_of(&us);
    dir_blocks_of(out, es, &ds, depth, fuel - 1);
    let ls = leaves_of(es);
    let names = sorted_of(&ls);
    name_lines_of(out, &names, depth);
}

fn dir_blocks_of(
    out: &mut Vec<char>,
    es: &Vec<(Vec<Vec<char>>, Vec<char>)>,
    ds: &Vec<Vec<char>>,
    depth: usize,
    fuel: usize,
)
    requires
        depth + fuel + 1 <= usize::MAX,
    ensures
        final(out)@ == old(out)@ + dir_blocks(entry_views(es@), pieces(ds@), depth as nat, fuel as nat),
    decreases fuel, ds@.len() + 1,
{
    let ghost start = out@;
    let mut i: usize = 0;
    while i < ds.len()
        invariant
            i <= ds@.len(),
            depth + fuel + 1 <= usize::MAX,
            out@ == start + dir_blocks(entry_views(es@), pieces(ds@).take(i as int), depth as nat, fuel as nat),
        decreases ds.len() - i,
    {
        proof {
            let t = pieces(ds@).take(i + 1);
            assert(t.drop_last() == pieces(ds@).take(i as int));
            assert(t.last() == ds@[i as int]@);
        }
        push_pad(out, depth);
        push_all(out, &ds[i]);
        out.push('/');
        out.push('\n');
        let kids = children_of(es, &ds[i]);
        level_of(out, &kids, depth + 1, fuel);
        i = i + 1;
    }
    proof {
        assert(pieces(ds@).take(ds@.len() as int) == pieces(ds@));
    }
}

impl ProjectMap {
    /// Number of files in the map.
    pub fn file_count(&self) -> (n: usize)
        ensures
            n == self.files@.len(),
    {
        self.files.len()
    }

    /// The map as an indented tree: each directory as `name/` with its
    /// contents two spaces deeper, subdirectories first, names in order.
    pub fn render(&self) -> (r: String)
        ensures
            r@ == tree_text(self.files@),
    {
        let mut es: Vec<(Vec<Vec<char>>, Vec<char>)> = Vec::new();
        let mut deepest: usize = 0;
        let ghost all = self.files@.map_values(|f: ProjectFile| entry_of(f.path@));
        let mut i: usize = 0;
        while i < self.files.len()
            invariant
                i <= self.files@.len(),
                all == self.files@.map_values(|f: ProjectFile| entry_of(f.path@)),
                entry_views(es@) == all.take(i as int),
                deepest == max_dirs(all.take(i as int)),
                deepest < usize::MAX,
            decreases self.files.len() - i,
        {
            let v = chars_of(self.files[i].path.as_str());
            let parts = split_chars(&v, CharClass::Slash);
            proof {
                crate::text::lemma_split_nonempty(v@, CharClass::Slash);
            }
            let n = parts.len() - 1;
            let dirs = {
                let mut d: Vec<Vec<char>> = Vec::new();
                let mut k: usize = 0;
                while k < n
                    invariant
                        k <= n,
                        n + 1 == parts@.len(),
                        pieces(d@) == pieces(parts@).take(k as int),
                    decreases n - k,
                {
                    let x = copy(&parts[k]);
                    proof {
                        assert(pieces(d@.push(x)) == pieces(d@).push(x@));
                        assert(pieces(parts@).take(k + 1) == pieces(parts@).take(k as int).push(parts@[k as int]@));
                    }
                    d.push(x);
                    k = k + 1;
                }
                d
            };
            let name = copy(&parts[n]);
            proof {
                assert(pieces(parts@) == crate::text::split_by(self.files@[i as int].path@, CharClass::Slash));
                assert(pieces(dirs@) == pieces(parts@).drop_last());
                let t = all.take(i + 1);
                assert(t.drop_last() == all.take(i as int));
                assert(t.last() == (pieces(dirs@), name@));
                assert(entry_views(es@.push((dirs, name))) == entry_views(es@).push((pieces(dirs@), name@)));
            }
            let count = dirs.len();
            es.push((dirs, name));
            if count > deepest {
                deepest = count;
            }
            i = i + 1;
        }
        proof {
            assert(all.take(all.len() as int) == all);
        }
        let mut out: Vec<char> = Vec::new();
        level_of(&mut out, &es, 0, deepest + 1);
        string_of(&out)
    }
}

} // verus!
