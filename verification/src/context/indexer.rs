//! Lazy project walk rules: what is skipped, what is listed, how files
//! are labelled. The walk itself reads the disk and lives with the
//! application; every decision it takes comes from here.
use vstd::prelude::*;

use crate::context::project_map::{ProjectFile, ProjectMap};
use crate::order::{is_permutation, key_view, sort_order, sorted_by_key};
use crate::text::{chars_of, ends_with_chars, lowercase_chars, split_chars, starts_with_chars, str_eq, CharClass};
use crate::tools::search::{forward_slashes, slashed, strip_root, stripped_path};

verus! {

/// Walk limits: cheap by construction on weak hardware.
pub const MAX_DEPTH: usize = 8;
pub const MAX_FILES: usize = 2000;
pub const MAX_FILE_BYTES: u64 = 512 * 1024;

/// Directories never descended into.
pub open spec fn excluded_dir(name: Seq<char>) -> bool {
    name == ".git"@ || name == "target"@ || name == "dist"@ || name == "build"@ || name
        == ".cache"@ || name == "coverage"@ || name == "node_modules"@ || name == ".darb"@
}

/// Whether a directory is never descended into.
pub fn is_excluded_dir(name: &str) -> (r: bool)
    ensures
        r == excluded_dir(name@),
{
    str_eq(name, ".git") || str_eq(name, "target") || str_eq(name, "dist") || str_eq(name, "build")
        || str_eq(name, ".cache") || str_eq(name, "coverage") || str_eq(name, "node_modules")
        || str_eq(name, ".darb")
}

/// Files never listed: nameless entries, `.env` files and key material.
pub open spec fn secret_or_unnamed(name: Seq<char>) -> bool {
    name.len() == 0 || name == ".env"@ || ".env."@.is_prefix_of(name) || ".pem"@.is_suffix_of(name)
        || ".key"@.is_suffix_of(name)
}

/// Whether a file is never listed.
pub fn is_excluded_file(name: &str) -> (r: bool)
    ensures
        r == secret_or_unnamed(name@),
{
    let v = chars_of(name);
    v.len() == 0 || str_eq(name, ".env") || starts_with_chars(&v, &chars_of(".env."))
        || ends_with_chars(&v, &chars_of(".pem")) || ends_with_chars(&v, &chars_of(".key"))
}

/// A file of `bytes` bytes named `name` is listed in the map.
pub open spec fn listed(name: Seq<char>, bytes: u64) -> bool {
    !secret_or_unnamed(name) && bytes <= MAX_FILE_BYTES
}

/// Whether the walk lists a file.
pub fn should_list(name: &str, bytes: u64) -> (r: bool)
    ensures
        r == listed(name@, bytes),
{
    !is_excluded_file(name) && bytes <= MAX_FILE_BYTES
}

/// Language for a lower-cased extension.
pub open spec fn language_for(ext: Seq<char>) -> Seq<char> {
    if ext == "rs"@ {
        "rust"@
    } else if ext == "ts"@ || ext == "tsx"@ {
        "typescript"@
    } else if ext == "js"@ || ext == "jsx"@ || ext == "mjs"@ {
        "javascript"@
    } else if ext == "py"@ {
        "python"@
    } else if ext == "go"@ {
        "go"@
    } else if ext == "java"@ {
        "java"@
    } else if ext == "c"@ || ext == "h"@ {
        "c"@
    } else if ext == "cpp"@ || ext == "hpp"@ {
        "cpp"@
    } else if ext == "toml"@ || ext == "yaml"@ || ext == "yml"@ || ext == "json"@ {
        "config"@
    } else if ext == "md"@ {
        "markdown"@
    } else if ext == "sh"@ {
        "shell"@
    } else {
        "text"@
    }
}

/// Extension of a file name: what follows its last `.`; `None` when the
/// name has no `.` at all.
pub open spec fn extension(name: Seq<char>) -> Option<Seq<char>> {
    let pieces = crate::text::split_by(name, CharClass::Dot);
    if pieces.len() <= 1 {
        None
    } else {
        Some(pieces.last())
    }
}

/// Language label of a file name, by lower-cased extension; a name
/// without extension is `"text"`.
pub open spec fn language_of(name: Seq<char>) -> Seq<char> {
    match extension(name) {
        Some(ext) => language_for(crate::text::lowercase_of(ext)),
        None => "text"@,
    }
}

/// Language by file extension; unknown extensions are `"text"`.
pub fn detect_language(file_name: &str) -> (r: String)
    ensures
        r@ == language_of(file_name@),
{
    let v = chars_of(file_name);
    let pieces = split_chars(&v, CharClass::Dot);
    proof {
        crate::text::lemma_split_nonempty(v@, CharClass::Dot);
        assert(pieces@.map_values(|p: Vec<char>| p@).last() == pieces@.last()@);
    }
    if pieces.len() <= 1 {
        return crate::text::owned("text");
    }
    let last = &pieces[pieces.len() - 1];
    let ext_v = lowercase_chars(last);
    let ext = crate::text::string_of(&ext_v);
    let e = ext.as_str();
    let label = if str_eq(e, "rs") {
        "rust"
    } else if str_eq(e, "ts") || str_eq(e, "tsx") {
        "typescript"
    } else if str_eq(e, "js") || str_eq(e, "jsx") || str_eq(e, "mjs") {
        "javascript"
    } else if str_eq(e, "py") {
        "python"
    } else if str_eq(e, "go") {
        "go"
    } else if str_eq(e, "java") {
        "java"
    } else if str_eq(e, "c") || str_eq(e, "h") {
        "c"
    } else if str_eq(e, "cpp") || str_eq(e, "hpp") {
        "cpp"
    } else if str_eq(e, "toml") || str_eq(e, "yaml") || str_eq(e, "yml") || str_eq(e, "json") {
        "config"
    } else if str_eq(e, "md") {
        "markdown"
    } else if str_eq(e, "sh") {
        "shell"
    } else {
        "text"
    };
    crate::text::owned(label)
}

/// Walk configuration: root and caps.
#[derive(Debug, Clone)]
pub struct Indexer {
    pub root: String,
    pub max_depth: usize,
    pub max_files: usize,
}


/// One entry of a listed directory: its full path, its name, whether it
/// is a directory, and its size in bytes (zero when unknown).
#[derive(Debug, Clone)]
pub struct Listed {
    pub path: String,
    pub name: String,
    pub is_dir: bool,
    pub bytes: u64,
}

/// An entry as (path, name, directory, bytes).
pub open spec fn listed_view(e: Listed) -> (Seq<char>, Seq<char>, bool, u64) {
    (e.path@, e.name@, e.is_dir, e.bytes)
}

/// A mapped file as (path, language, bytes).
pub open spec fn file_view(f: ProjectFile) -> (Seq<char>, Seq<char>, u64) {
    (f.path@, f.language@, f.bytes)
}

/// A walk as (directories left with their depth, files found, cut short,
/// over).
pub type WalkView = (Seq<(Seq<char>, usize)>, Seq<(Seq<char>, Seq<char>, u64)>, bool, bool);

/// Path of a mapped file: relative to the root with `/` separators, or
/// its bare name when it is not under the root.
pub open spec fn index_path(root: Seq<char>, path: Seq<char>, name: Seq<char>) -> Seq<char> {
    match stripped_path(root, path) {
        Some(rel) => slashed(rel),
        None => name,
    }
}

/// One entry of a directory at `depth` met by the walk. A directory not
/// excluded is queued one level deeper. A listable file joins the map when
/// its directory is within the depth cap and the map is not full;
/// otherwise the caps leave it out: the walk is marked truncated, and it
/// ends when the map is full, since nothing more can join.
pub open spec fn offer(
    w: WalkView,
    e: (Seq<char>, Seq<char>, bool, u64),
    depth: int,
    root: Seq<char>,
    max_depth: int,
    max_files: int,
) -> WalkView {
    if e.2 {
        if excluded_dir(e.1) {
            w
        } else {
            (w.0.push((e.0, (depth + 1) as usize)), w.1, w.2, w.3)
        }
    } else if !listed(e.1, e.3) {
        w
    } else if depth > max_depth || w.1.len() >= max_files {
        (w.0, w.1, true, w.3 || w.1.len() >= max_files)
    } else {
        (w.0, w.1.push((index_path(root, e.0, e.1), language_of(e.1), e.3)), w.2, w.3)
    }
}

/// The entries met in order, until the walk is over.
pub open spec fn offer_all(
    w: WalkView,
    es: Seq<(Seq<char>, Seq<char>, bool, u64)>,
    depth: int,
    root: Seq<char>,
    max_depth: int,
    max_files: int,
) -> WalkView
    decreases es.len(),
{
    if es.len() == 0 {
        w
    } else {
        let v = offer_all(w, es.drop_last(), depth, root, max_depth, max_files);
        if v.3 {
            v
        } else {
            offer(v, es.last(), depth, root, max_depth, max_files)
        }
    }
}

/// Taking the next directory: none when the walk is over or nothing is
/// left. A directory deeper than the cap is still listed, to learn
/// whether the cap leaves a file out, until the walk is known to be
/// truncated; from then on such directories are dropped.
pub open spec fn take_dir(w: WalkView, max_depth: int, max_files: int) -> (WalkView, Option<(Seq<char>, usize)>)
    decreases w.0.len(),
{
    if w.3 {
        (w, None)
    } else if w.0.len() == 0 {
        ((w.0, w.1, w.2, true), None)
    } else if w.0.last().1 > max_depth && w.2 {
        take_dir((w.0.drop_last(), w.1, w.2, w.3), max_depth, max_files)
    } else {
        ((w.0.drop_last(), w.1, w.2, w.3), Some(w.0.last()))
    }
}

/// Keys ordering entries by name.
pub open spec fn name_keys(es: Seq<Listed>) -> Seq<(u64, Seq<char>)> {
    es.map_values(|e: Listed| (0u64, e.name@))
}

/// Keys ordering files by path.
pub open spec fn path_keys(fs: Seq<ProjectFile>) -> Seq<(u64, Seq<char>)> {
    fs.map_values(|f: ProjectFile| (0u64, f.path@))
}

/// A walk of the project in progress.
pub struct Scan {
    pub root: String,
    pub max_depth: usize,
    pub max_files: usize,
    /// Directories left to list, with their depth; the last is next.
    pub stack: Vec<(String, usize)>,
    pub files: Vec<ProjectFile>,
    /// A cap cut the walk short.
    pub truncated: bool,
    /// The walk is over.
    pub finished: bool,
}

impl Scan {
    /// The walk as plain values.
    pub open spec fn walk(&self) -> WalkView {
        (
            self.stack@.map_values(|d: (String, usize)| (d.0@, d.1)),
            self.files@.map_values(|f: ProjectFile| file_view(f)),
            self.truncated,
            self.finished,
        )
    }

    /// The next directory to list, with its depth; none once the walk is
    /// over.
    pub fn next_dir(&mut self) -> (r: Option<(String, usize)>)
        ensures
            final(self).root == old(self).root,
            final(self).max_depth == old(self).max_depth,
            final(self).max_files == old(self).max_files,
            final(self).walk() == take_dir(old(self).walk(), old(self).max_depth as int, old(self).max_files as int).0,
            match r {
                Some(d) => take_dir(old(self).walk(), old(self).max_depth as int, old(self).max_files as int).1
                    == Some((d.0@, d.1)),
                None => take_dir(old(self).walk(), old(self).max_depth as int, old(self).max_files as int).1 is None,
            },
        decreases old(self).stack@.len(),
    {
        if self.finished {
            return None;
        }
        let ghost w0 = self.walk();
        match self.stack.pop() {
            None => {
                self.finished = true;
                proof {
                    assert(self.walk().0 =~= w0.0);
                    assert(self.walk().1 =~= w0.1);
                }
                None
            },
            Some(top) => {
                proof {
                    assert(self.walk().0 =~= w0.0.drop_last());
                    assert(self.walk().1 =~= w0.1);
                    assert(w0.0.last() == (top.0@, top.1));
                }
                if top.1 > self.max_depth && self.truncated {
                    return self.next_dir();
                }
                Some(top)
            },
        }
    }

    fn offer_entry(&mut self, e: &Listed, depth: usize)
        requires
            depth < usize::MAX,
        ensures
            final(self).root == old(self).root,
            final(self).max_depth == old(self).max_depth,
            final(self).max_files == old(self).max_files,
            final(self).walk() == offer(
                old(self).walk(),
                listed_view(*e),
                depth as int,
                old(self).root@,
                old(self).max_depth as int,
                old(self).max_files as int,
            ),
    {
        let ghost w0 = self.walk();
        if e.is_dir {
            if !is_excluded_dir(e.name.as_str()) {
                self.stack.push((e.path.clone(), depth + 1));
                proof {
                    assert(self.walk().0 =~= w0.0.push((e.path@, (depth + 1) as usize)));
                    assert(self.walk().1 =~= w0.1);
                }
            }
            return;
        }
        if !should_list(e.name.as_str(), e.bytes) {
            return;
        }
        if depth > self.max_depth || self.files.len() >= self.max_files {
            self.truncated = true;
            if self.files.len() >= self.max_files {
                self.finished = true;
            }
            proof {
                assert(self.walk().0 =~= w0.0);
                assert(self.walk().1 =~= w0.1);
            }
            return;
        }
        let path = match strip_root(self.root.as_str(), e.path.as_str()) {
            Some(rel) => forward_slashes(rel.as_str()),
            None => e.name.clone(),
        };
        let file = ProjectFile { path, language: detect_language(e.name.as_str()), bytes: e.bytes };
        self.files.push(file);
        proof {
            assert(self.walk().0 =~= w0.0);
            assert(self.walk().1 =~= w0.1.push(file_view(file)));
        }
    }

    /// Meet the entries of a listed directory at `depth`, in name order,
    /// until the walk is over.
    pub fn visit(&mut self, depth: usize, entries: &Vec<Listed>)
        requires
            depth < usize::MAX,
        ensures
            final(self).root == old(self).root,
            final(self).max_depth == old(self).max_depth,
            final(self).max_files == old(self).max_files,
            exists|order: Seq<usize>|
                is_permutation(order, entries@.len()) && sorted_by_key(name_keys(entries@), order)
                    && final(self).walk() == offer_all(
                    old(self).walk(),
                    order.map_values(|k: usize| listed_view(entries@[k as int])),
                    depth as int,
                    old(self).root@,
                    old(self).max_depth as int,
                    old(self).max_files as int,
                ),
    {
        let mut keys: Vec<(u64, Vec<char>)> = Vec::new();
        let mut k: usize = 0;
        while k < entries.len()
            invariant
                k <= entries@.len(),
                keys@.map_values(|x: (u64, Vec<char>)| key_view(x)) == name_keys(entries@).take(k as int),
            decreases entries.len() - k,
        {
            let key = (0u64, chars_of(entries[k].name.as_str()));
            proof {
                assert(keys@.push(key).map_values(|x: (u64, Vec<char>)| key_view(x)) == keys@.map_values(
                    |x: (u64, Vec<char>)| key_view(x),
                ).push(key_view(key)));
                assert(name_keys(entries@).take(k + 1) == name_keys(entries@).take(k as int).push(
                    name_keys(entries@)[k as int],
                ));
            }
            keys.push(key);
            k = k + 1;
        }
        proof {
            assert(name_keys(entries@).take(entries@.len() as int) == name_keys(entries@));
        }
        let order = sort_order(&keys);
        let ghost es = order@.map_values(|j: usize| listed_view(entries@[j as int]));
        let ghost w0 = self.walk();
        let ghost root0 = self.root@;
        let mut i: usize = 0;
        while i < order.len() && !self.finished
            invariant
                i <= order@.len(),
                is_permutation(order@, entries@.len()),
                es == order@.map_values(|j: usize| listed_view(entries@[j as int])),
                depth < usize::MAX,
                self.root@ == root0,
                self.max_depth == old(self).max_depth,
                self.max_files == old(self).max_files,
                self.root == old(self).root,
                self.walk() == offer_all(
                    w0,
                    es.take(i as int),
                    depth as int,
                    root0,
                    self.max_depth as int,
                    self.max_files as int,
                ),
            decreases order.len() - i,
        {
            let j = order[i];
            proof {
                let t = es.take(i + 1);
                assert(t.drop_last() == es.take(i as int));
                assert(t.last() == listed_view(entries@[j as int]));
            }
            self.offer_entry(&entries[j], depth);
            i = i + 1;
        }
        proof {
            lemma_offer_all_settles(w0, es, i as int, depth as int, root0, self.max_depth as int, self.max_files as int);
            assert(es.take(es.len() as int) == es);
        }
    }

    /// The map found: files in path order.
    pub fn finish(self) -> (m: ProjectMap)
        ensures
            m.root == self.root,
            m.truncated == self.truncated,
            exists|order: Seq<usize>|
                is_permutation(order, self.files@.len()) && sorted_by_key(path_keys(self.files@), order)
                    && m.files@ == order.map_values(|k: usize| self.files@[k as int]),
    {
        let mut keys: Vec<(u64, Vec<char>)> = Vec::new();
        let mut k: usize = 0;
        while k < self.files.len()
            invariant
                k <= self.files@.len(),
                keys@.map_values(|x: (u64, Vec<char>)| key_view(x)) == path_keys(self.files@).take(k as int),
            decreases self.files.len() - k,
        {
            let key = (0u64, chars_of(self.files[k].path.as_str()));
            proof {
                assert(keys@.push(key).map_values(|x: (u64, Vec<char>)| key_view(x)) == keys@.map_values(
                    |x: (u64, Vec<char>)| key_view(x),
                ).push(key_view(key)));
                assert(path_keys(self.files@).take(k + 1) == path_keys(self.files@).take(k as int).push(
                    path_keys(self.files@)[k as int],
                ));
            }
            keys.push(key);
            k = k + 1;
        }
        proof {
            assert(path_keys(self.files@).take(self.files@.len() as int) == path_keys(self.files@));
        }
        let order = sort_order(&keys);
        let mut files: Vec<ProjectFile> = Vec::new();
        let mut i: usize = 0;
        while i < order.len()
            invariant
                i <= order@.len(),
                is_permutation(order@, self.files@.len()),
                files@ == order@.take(i as int).map_values(|k: usize| self.files@[k as int]),
            decreases order.len() - i,
        {
            let f = &self.files[order[i]];
            let copy = ProjectFile { path: f.path.clone(), language: f.language.clone(), bytes: f.bytes };
            proof {
                assert(order@.take(i + 1) == order@.take(i as int).push(order@[i as int]));
            }
            files.push(copy);
            proof {
                assert(files@ =~= order@.take(i + 1).map_values(|k: usize| self.files@[k as int]));
            }
            i = i + 1;
        }
        proof {
            assert(order@.take(order@.len() as int) == order@);
        }
        ProjectMap { root: self.root, files, truncated: self.truncated }
    }
}

/// The map entry a listed file becomes.
pub open spec fn mapped_file(root: Seq<char>, e: (Seq<char>, Seq<char>, bool, u64)) -> (Seq<char>, Seq<char>, u64) {
    (index_path(root, e.0, e.1), language_of(e.1), e.3)
}

/// Whether a map entry comes from a file that may be listed: not a
/// secret, not unnamed, within the size cap.
pub open spec fn from_listed_file(root: Seq<char>, f: (Seq<char>, Seq<char>, u64)) -> bool {
    exists|e: (Seq<char>, Seq<char>, bool, u64)| !e.2 && listed(e.1, e.3) && #[trigger] mapped_file(root, e) == f
}

/// Law: the walk never maps a secret, an unnamed or an oversized file.
/// Whatever entries a directory offers, every file the map holds came
/// from a listed file.
pub proof fn law_walk_maps_only_listed_files(
    w: WalkView,
    es: Seq<(Seq<char>, Seq<char>, bool, u64)>,
    depth: int,
    root: Seq<char>,
    max_depth: int,
    max_files: int,
)
    requires
        forall|i: int| 0 <= i < w.1.len() ==> from_listed_file(root, #[trigger] w.1[i]),
    ensures
        forall|i: int|
            0 <= i < offer_all(w, es, depth, root, max_depth, max_files).1.len() ==> from_listed_file(
                root,
                #[trigger] offer_all(w, es, depth, root, max_depth, max_files).1[i],
            ),
    decreases es.len(),
{
    if es.len() > 0 {
        law_walk_maps_only_listed_files(w, es.drop_last(), depth, root, max_depth, max_files);
        let v = offer_all(w, es.drop_last(), depth, root, max_depth, max_files);
        if !v.3 {
            let e = es.last();
            let after = offer(v, e, depth, root, max_depth, max_files);
            assert forall|i: int| 0 <= i < after.1.len() implies from_listed_file(root, #[trigger] after.1[i]) by {
                if i < v.1.len() {
                    assert(after.1[i] == v.1[i]);
                } else {
                    assert(mapped_file(root, e) == after.1[i]);
                }
            }
        }
    }
}

/// Some entry among the first `k` is a listable file that a cap keeps out
/// of the walk at the point it is met.
pub open spec fn some_left_out(
    w: WalkView,
    es: Seq<(Seq<char>, Seq<char>, bool, u64)>,
    k: int,
    depth: int,
    root: Seq<char>,
    max_depth: int,
    max_files: int,
) -> bool {
    exists|i: int|
        0 <= i < k && left_out(
            offer_all(w, es.take(i), depth, root, max_depth, max_files),
            #[trigger] es[i],
            depth,
            max_depth,
            max_files,
        )
}

/// Law: the walk is marked truncated exactly where the caps leave a
/// listable file out, and the map never grows past its cap. On a walk not
/// yet marked, meeting entries turns the flag on exactly when one of them
/// is a listable file that a cap keeps out of the map; a walk already
/// marked stays marked.
pub proof fn law_truncated_only_when_a_file_is_left_out(
    w: WalkView,
    es: Seq<(Seq<char>, Seq<char>, bool, u64)>,
    depth: int,
    root: Seq<char>,
    max_depth: int,
    max_files: int,
)
    requires
        w.1.len() <= max_files,
    ensures
        offer_all(w, es, depth, root, max_depth, max_files).1.len() <= max_files,
        w.2 ==> offer_all(w, es, depth, root, max_depth, max_files).2,
        !w.2 ==> (offer_all(w, es, depth, root, max_depth, max_files).2 <==> some_left_out(
            w,
            es,
            es.len() as int,
            depth,
            root,
            max_depth,
            max_files,
        )),
    decreases es.len(),
{
    if es.len() > 0 {
        let n = es.len() - 1;
        let d = es.drop_last();
        law_truncated_only_when_a_file_is_left_out(w, d, depth, root, max_depth, max_files);
        let u = offer_all(w, d, depth, root, max_depth, max_files);
        assert(es.take(n) == d);
        assert forall|i: int| 0 <= i < n implies d[i] == es[i] && #[trigger] d.take(i) == es.take(i) by {
            assert(d.take(i) =~= es.take(i));
        }
        let e = es[n];
        assert(e == es.last());
        if !w.2 {
            if some_left_out(w, d, n, depth, root, max_depth, max_files) {
                let i = choose|i: int|
                    0 <= i < n && left_out(
                        offer_all(w, d.take(i), depth, root, max_depth, max_files),
                        #[trigger] d[i],
                        depth,
                        max_depth,
                        max_files,
                    );
                assert(d.take(i) == es.take(i));
                assert(left_out(offer_all(w, es.take(i), depth, root, max_depth, max_files), es[i], depth, max_depth, max_files));
                assert(some_left_out(w, es, es.len() as int, depth, root, max_depth, max_files));
            }
            if some_left_out(w, es, es.len() as int, depth, root, max_depth, max_files) {
                let i = choose|i: int|
                    0 <= i < es.len() && left_out(
                        offer_all(w, es.take(i), depth, root, max_depth, max_files),
                        #[trigger] es[i],
                        depth,
                        max_depth,
                        max_files,
                    );
                if i < n {
                    assert(d.take(i) == es.take(i));
                    assert(left_out(offer_all(w, d.take(i), depth, root, max_depth, max_files), d[i], depth, max_depth, max_files));
                    assert(some_left_out(w, d, n, depth, root, max_depth, max_files));
                } else {
                    assert(left_out(u, e, depth, max_depth, max_files));
                }
            }
            if !u.3 && left_out(u, e, depth, max_depth, max_files) {
                assert(some_left_out(w, es, es.len() as int, depth, root, max_depth, max_files)) by {
                    assert(left_out(offer_all(w, es.take(n), depth, root, max_depth, max_files), es[n], depth, max_depth, max_files));
                }
            }
        }
    }
}

/// The entry is a listable file that a cap keeps out of the walk `w`.
pub open spec fn left_out(w: WalkView, e: (Seq<char>, Seq<char>, bool, u64), depth: int, max_depth: int, max_files: int) -> bool {
    &&& !w.3
    &&& !e.2
    &&& listed(e.1, e.3)
    &&& (depth > max_depth || w.1.len() >= max_files)
}

proof fn lemma_offer_all_settles(
    w: WalkView,
    es: Seq<(Seq<char>, Seq<char>, bool, u64)>,
    i: int,
    depth: int,
    root: Seq<char>,
    max_depth: int,
    max_files: int,
)
    requires
        0 <= i <= es.len(),
        i < es.len() ==> offer_all(w, es.take(i), depth, root, max_depth, max_files).3,
    ensures
        offer_all(w, es.take(es.len() as int), depth, root, max_depth, max_files) == offer_all(
            w,
            es.take(i),
            depth,
            root,
            max_depth,
            max_files,
        ),
    decreases es.len() - i,
{
    if i < es.len() {
        let t = es.take(i + 1);
        assert(t.drop_last() == es.take(i));
        lemma_offer_all_settles(w, es, i + 1, depth, root, max_depth, max_files);
    }
}

impl Indexer {
    /// An indexer with the default caps.
    pub fn new(root: &str) -> (r: Self)
        ensures
            r.root@ == root@,
            r.max_depth == MAX_DEPTH,
            r.max_files == MAX_FILES,
    {
        Indexer { root: crate::text::owned(root), max_depth: MAX_DEPTH, max_files: MAX_FILES }
    }

    /// A walk starting at the root, at depth zero.
    pub fn start(&self) -> (s: Scan)
        ensures
            s.root == self.root,
            s.max_depth == self.max_depth,
            s.max_files == self.max_files,
            s.walk() == (seq![(self.root@, 0usize)], Seq::<(Seq<char>, Seq<char>, u64)>::empty(), false, false),
    {
        let s = Scan {
            root: self.root.clone(),
            max_depth: self.max_depth,
            max_files: self.max_files,
            stack: vec![(self.root.clone(), 0)],
            files: Vec::new(),
            truncated: false,
            finished: false,
        };
        proof {
            assert(s.walk().0 =~= seq![(self.root@, 0usize)]);
            assert(s.walk().1 =~= Seq::<(Seq<char>, Seq<char>, u64)>::empty());
        }
        s
    }
}

/// Law: the walk never descends into `.git`, `target`, `dist`, `build`,
/// `.cache`, `coverage`, `node_modules` or `.darb`: meeting a directory
/// of one of these names leaves the queue as it was, while any other
/// directory is queued one level deeper.
pub proof fn law_walk_skips_build_and_vendor_dirs(
    w: WalkView,
    e: (Seq<char>, Seq<char>, bool, u64),
    depth: int,
    root: Seq<char>,
    max_depth: int,
    max_files: int,
)
    requires
        e.2,
    ensures
        ({
            let named = e.1 == ".git"@ || e.1 == "target"@ || e.1 == "dist"@ || e.1 == "build"@ || e.1
                == ".cache"@ || e.1 == "coverage"@ || e.1 == "node_modules"@ || e.1 == ".darb"@;
            let after = offer(w, e, depth, root, max_depth, max_files);
            &&& named ==> after == w
            &&& !named ==> after == (w.0.push((e.0, (depth + 1) as usize)), w.1, w.2, w.3)
        }),
{
}

} // verus!
