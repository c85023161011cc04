//! Project-relative paths: every tool target is resolved inside the
//! project root, and nothing may climb out of it.
use vstd::prelude::*;

use crate::errors::DarbError;
use crate::order::{is_permutation, key_view, sort_order, sorted_by_key};
use crate::text::{chars_of, concat, decimal, decimal_string, split_chars, string_of, to_lowercase, CharClass};

verus! {

/// Largest file, in bytes, that tools read or write.
pub const MAX_READ_BYTES: u64 = 512 * 1024;

/// One directory entry.
#[derive(Debug, Clone, PartialEq, Eq)]
pub struct DirEntry {
    pub name: String,
    pub is_dir: bool,
}

/// The components kept after one more path piece: empty pieces and `.`
/// change nothing, `..` drops the last kept component (none left: the
/// path escapes), anything else is kept.
pub open spec fn step(kept: Option<Seq<Seq<char>>>, piece: Seq<char>) -> Option<Seq<Seq<char>>> {
    match kept {
        None => None,
        Some(st) => if piece.len() == 0 || piece == seq!['.'] {
            Some(st)
        } else if piece == seq!['.', '.'] {
            if st.len() == 0 {
                None
            } else {
                Some(st.drop_last())
            }
        } else {
            Some(st.push(piece))
        },
    }
}

/// Components kept after the first `n` pieces.
pub open spec fn kept_after(pieces: Seq<Seq<char>>, n: int) -> Option<Seq<Seq<char>>>
    decreases n,
{
    if n <= 0 {
        Some(Seq::empty())
    } else {
        step(kept_after(pieces, n - 1), pieces[n - 1])
    }
}

/// `base` with one component appended (`PathBuf::push` of a relative
/// component).
pub open spec fn path_join(base: Seq<char>, part: Seq<char>) -> Seq<char> {
    if base.len() == 0 {
        part
    } else if base.last() == '/' {
        base + part
    } else {
        base + seq!['/'] + part
    }
}

/// `base` with the components appended in order.
pub open spec fn join_all(base: Seq<char>, parts: Seq<Seq<char>>) -> Seq<char>
    decreases parts.len(),
{
    if parts.len() == 0 {
        base
    } else {
        path_join(join_all(base, parts.drop_last()), parts.last())
    }
}

/// Where a target lands under `root`: refused when absolute, refused when
/// it climbs above the root, otherwise the root joined with the kept
/// components.
pub open spec fn resolved(root: Seq<char>, target: Seq<char>) -> Result<Seq<char>, Seq<char>> {
    let pieces = crate::text::split_by(target, CharClass::Slash);
    if target.len() > 0 && target[0] == '/' {
        Err("refused '"@ + target + "': path must be relative to the project root"@)
    } else {
        match kept_after(pieces, pieces.len() as int) {
            None => Err("refused '"@ + target + "': path escapes the project root"@),
            Some(parts) => Ok(join_all(root, parts)),
        }
    }
}

fn join_string(base: &str, part: &Vec<char>) -> (r: String)
    ensures
        r@ == path_join(base@, part@),
{
    let b = chars_of(base);
    let p = string_of(part);
    if b.len() == 0 {
        p
    } else if b[b.len() - 1] == '/' {
        concat(base, p.as_str())
    } else {
        let with_sep = concat(base, "/");
        proof {
            reveal_strlit("/");
        }
        concat(with_sep.as_str(), p.as_str())
    }
}

/// `base` with one path component appended.
pub fn join_str(base: &str, part: &str) -> (r: String)
    ensures
        r@ == path_join(base@, part@),
{
    let p = chars_of(part);
    join_string(base, &p)
}

/// Resolve `target` inside `root`. A tool error refuses absolute targets
/// and targets that climb above the root.
pub fn resolve_within(root: &str, target: &str) -> (r: Result<String, DarbError>)
    ensures
        match resolved(root@, target@) {
            Ok(p) => r matches Ok(s) && s@ == p,
            Err(m) => r matches Err(e) && e is Tool && e.detail_view() == m,
        },
{
    let t = chars_of(target);
    if t.len() > 0 && t[0] == '/' {
        let a = concat("refused '", target);
        return Err(DarbError::Tool(concat(a.as_str(), "': path must be relative to the project root")));
    }
    let pieces = split_chars(&t, CharClass::Slash);
    let ghost pv = pieces@.map_values(|p: Vec<char>| p@);
    let mut kept: Vec<Vec<char>> = Vec::new();
    let mut i: usize = 0;
    while i < pieces.len()
        invariant
            i <= pieces@.len(),
            pv == pieces@.map_values(|p: Vec<char>| p@),
            pv == crate::text::split_by(target@, CharClass::Slash),
            !(target@.len() > 0 && target@[0] == '/'),
            kept_after(pv, i as int) == Some(kept@.map_values(|p: Vec<char>| p@)),
        decreases pieces.len() - i,
    {
        let p = &pieces[i];
        let ghost before = kept@.map_values(|p: Vec<char>| p@);
        let is_dot = p.len() == 1 && p[0] == '.';
        let is_up = p.len() == 2 && p[0] == '.' && p[1] == '.';
        proof {
            assert(pv[i as int] == p@);
            assert(is_dot == (pv[i as int] == seq!['.'])) by {
                if pv[i as int] == seq!['.'] {
                    assert(p@.len() == 1 && p@[0] == '.');
                }
                if is_dot {
                    assert(p@ =~= seq!['.']);
                }
            }
            assert(is_up == (pv[i as int] == seq!['.', '.'])) by {
                if pv[i as int] == seq!['.', '.'] {
                    assert(p@[0] == '.' && p@[1] == '.');
                }
                if is_up {
                    assert(p@ =~= seq!['.', '.']);
                }
            }
            if is_dot {
                assert(p@ =~= seq!['.']);
            }
        }
        if p.len() == 0 || is_dot {
        } else if is_up {
            if kept.len() == 0 {
                let a = concat("refused '", target);
                proof {
                    assert(kept@.map_values(|p: Vec<char>| p@).len() == 0);
                    assert(kept_after(pv, i as int + 1) == step(kept_after(pv, i as int), pv[i as int]));
                    assert(kept_after(pv, i as int + 1) is None);
                    lemma_escaped_stays(pv, i as int + 1);
                    assert(!(target@.len() > 0 && target@[0] == '/'));
                    assert(kept_after(pv, pv.len() as int) is None);
                    assert(resolved(root@, target@) == Err::<Seq<char>, Seq<char>>("refused '"@ + target@ + "': path escapes the project root"@));
                }
                return Err(DarbError::Tool(concat(a.as_str(), "': path escapes the project root")));
            }
            kept.pop();
            proof {
                assert(kept@.map_values(|p: Vec<char>| p@) =~= before.drop_last());
            }
        } else {
            let copy = crate::text::slice_to_vec(p, 0, p.len());
            proof {
                assert(copy@ =~= p@);
            }
            kept.push(copy);
            proof {
                assert(kept@.map_values(|p: Vec<char>| p@) =~= before.push(pv[i as int]));
            }
        }
        i = i + 1;
    }
    let mut out = crate::text::owned(root);
    let mut k: usize = 0;
    while k < kept.len()
        invariant
            k <= kept@.len(),
            out@ == join_all(root@, kept@.map_values(|p: Vec<char>| p@).take(k as int)),
        decreases kept.len() - k,
    {
        let next = join_string(out.as_str(), &kept[k]);
        proof {
            let m = kept@.map_values(|p: Vec<char>| p@);
            assert(m.take(k + 1).drop_last() == m.take(k as int));
        }
        out = next;
        k = k + 1;
    }
    proof {
        let m = kept@.map_values(|p: Vec<char>| p@);
        assert(m.take(m.len() as int) == m);
    }
    Ok(out)
}

/// A component kept in a resolved path: a plain name, never empty, `.`
/// or `..`, and without a `/`.
pub open spec fn plain_component(c: Seq<char>) -> bool {
    &&& c.len() > 0
    &&& c != seq!['.']
    &&& c != seq!['.', '.']
    &&& !c.contains('/')
}

/// Every component is plain.
pub open spec fn all_plain(parts: Seq<Seq<char>>) -> bool {
    forall|k: int| 0 <= k < parts.len() ==> plain_component(#[trigger] parts[k])
}

proof fn lemma_pieces_have_no_slash(s: Seq<char>)
    ensures
        forall|i: int| 0 <= i < crate::text::split_by(s, CharClass::Slash).len() ==> !(#[trigger] crate::text::split_by(s, CharClass::Slash)[i]).contains('/'),
    decreases s.len(),
{
    crate::text::lemma_split_nonempty(s, CharClass::Slash);
    if s.len() > 0 {
        let rest = crate::text::split_by(s.drop_last(), CharClass::Slash);
        lemma_pieces_have_no_slash(s.drop_last());
        crate::text::lemma_split_nonempty(s.drop_last(), CharClass::Slash);
        let all = crate::text::split_by(s, CharClass::Slash);
        if s.last() == '/' {
            assert forall|i: int| 0 <= i < all.len() implies !(#[trigger] all[i]).contains('/') by {
                if i < rest.len() {
                    assert(all[i] == rest[i]);
                } else {
                    assert(all[i] =~= Seq::<char>::empty());
                }
            }
        } else {
            assert forall|i: int| 0 <= i < all.len() implies !(#[trigger] all[i]).contains('/') by {
                if i < rest.len() - 1 {
                    assert(all[i] == rest[i]);
                } else {
                    let last = rest.last();
                    assert(all[i] == last.push(s.last()));
                    assert(!last.contains('/'));
                    if all[i].contains('/') {
                        let j = choose|j: int| 0 <= j < all[i].len() && all[i][j] == '/';
                        if j < last.len() {
                            assert(last[j] == '/');
                        }
                    }
                }
            }
        }
    }
}

proof fn lemma_kept_are_plain(pieces: Seq<Seq<char>>, n: int)
    requires
        0 <= n <= pieces.len(),
        forall|i: int| 0 <= i < pieces.len() ==> !(#[trigger] pieces[i]).contains('/'),
    ensures
        kept_after(pieces, n) matches Some(st) ==> all_plain(st),
    decreases n,
{
    if n > 0 {
        lemma_kept_are_plain(pieces, n - 1);
        let piece = pieces[n - 1];
        match kept_after(pieces, n - 1) {
            Some(st) => {
                if !(piece.len() == 0 || piece == seq!['.']) && piece != seq!['.', '.'] {
                    let next = st.push(piece);
                    assert forall|k: int| 0 <= k < next.len() implies plain_component(#[trigger] next[k]) by {
                        if k < st.len() {
                            assert(next[k] == st[k]);
                        }
                    }
                } else if piece == seq!['.', '.'] && st.len() > 0 {
                    let next = st.drop_last();
                    assert forall|k: int| 0 <= k < next.len() implies plain_component(#[trigger] next[k]) by {
                        assert(next[k] == st[k]);
                    }
                }
            },
            None => {},
        }
    }
}

proof fn lemma_join_keeps_base(base: Seq<char>, parts: Seq<Seq<char>>)
    ensures
        base.is_prefix_of(join_all(base, parts)),
    decreases parts.len(),
{
    if parts.len() > 0 {
        lemma_join_keeps_base(base, parts.drop_last());
        let inner = join_all(base, parts.drop_last());
        let outer = join_all(base, parts);
        if inner.len() > 0 {
            assert(inner.is_prefix_of(outer)) by {
                if inner.last() == '/' {
                    assert(outer == inner + parts.last());
                } else {
                    assert(outer == inner + seq!['/'] + parts.last());
                }
                assert(outer.subrange(0, inner.len() as int) =~= inner);
            }
        } else {
            assert(base.len() == 0);
        }
        assert(base.is_prefix_of(outer)) by {
            assert(outer.subrange(0, base.len() as int) =~= inner.subrange(0, base.len() as int));
        }
    }
}

/// Law: resolving never leaves the project. A resolved target is the
/// root followed by plain components only (no `..`, no `.`, no empty
/// piece), so it always starts with the root.
pub proof fn law_resolution_stays_under_root(root: Seq<char>, target: Seq<char>)
    ensures
        match resolved(root, target) {
            Ok(p) => root.is_prefix_of(p) && exists|parts: Seq<Seq<char>>| all_plain(parts) && #[trigger] join_all(root, parts) == p,
            Err(_) => true,
        },
{
    let pieces = crate::text::split_by(target, CharClass::Slash);
    lemma_pieces_have_no_slash(target);
    lemma_kept_are_plain(pieces, pieces.len() as int);
    match resolved(root, target) {
        Ok(p) => {
            let parts = kept_after(pieces, pieces.len() as int)->Some_0;
            lemma_join_keeps_base(root, parts);
            assert(join_all(root, parts) == p);
        },
        Err(_) => {},
    }
}

proof fn lemma_escaped_stays(pieces: Seq<Seq<char>>, n: int)
    requires
        0 <= n <= pieces.len(),
        kept_after(pieces, n) is None,
    ensures
        kept_after(pieces, pieces.len() as int) is None,
    decreases pieces.len() - n,
{
    if n < pieces.len() {
        lemma_escaped_stays(pieces, n + 1);
    }
}

/// Keys of a listing's order: directories first, then names compared
/// lower-cased.
pub open spec fn listing_keys(es: Seq<DirEntry>) -> Seq<(u64, Seq<char>)> {
    es.map_values(|e: DirEntry| ((if e.is_dir { 1u64 } else { 0u64 }), crate::text::lowercase_of(e.name@)))
}

/// A directory listing in display order: directories first, then by
/// lower-cased name; entries that compare equal keep their order.
pub fn sort_entries(entries: Vec<DirEntry>) -> (r: Vec<DirEntry>)
    ensures
        exists|order: Seq<usize>|
            #[trigger] is_permutation(order, entries@.len()) && sorted_by_key(listing_keys(entries@), order)
                && r@ == order.map_values(|k: usize| entries@[k as int]),
{
    let mut keys: Vec<(u64, Vec<char>)> = Vec::new();
    let mut k: usize = 0;
    while k < entries.len()
        invariant
            k <= entries@.len(),
            keys@.map_values(|x: (u64, Vec<char>)| key_view(x)) == listing_keys(entries@).take(k as int),
        decreases entries.len() - k,
    {
        let lower = to_lowercase(entries[k].name.as_str());
        let key = (if entries[k].is_dir {
            1u64
        } else {
            0u64
        }, chars_of(lower.as_str()));
        proof {
            assert(keys@.push(key).map_values(|x: (u64, Vec<char>)| key_view(x)) == keys@.map_values(
                |x: (u64, Vec<char>)| key_view(x),
            ).push(key_view(key)));
            assert(listing_keys(entries@).take(k + 1) == listing_keys(entries@).take(k as int).push(
                listing_keys(entries@)[k as int],
            ));
        }
        keys.push(key);
        k = k + 1;
    }
    proof {
        assert(listing_keys(entries@).take(entries@.len() as int) == listing_keys(entries@));
    }
    let order = sort_order(&keys);
    let mut r: Vec<DirEntry> = Vec::new();
    let mut i: usize = 0;
    while i < order.len()
        invariant
            i <= order@.len(),
            is_permutation(order@, entries@.len()),
            r@ == order@.take(i as int).map_values(|k: usize| entries@[k as int]),
        decreases order.len() - i,
    {
        let e = &entries[order[i]];
        let copy = DirEntry { name: e.name.clone(), is_dir: e.is_dir };
        proof {
            assert(order@.take(i + 1) == order@.take(i as int).push(order@[i as int]));
        }
        r.push(copy);
        proof {
            assert(r@ =~= order@.take(i + 1).map_values(|k: usize| entries@[k as int]));
        }
        i = i + 1;
    }
    proof {
        assert(order@.take(order@.len() as int) == order@);
    }
    r
}

/// Refusal of a file that a tool would `verb` (read or edit): none for a
/// file within the size limit; a directory or a larger file is refused,
/// naming the shown path.
pub open spec fn size_refusal(verb: Seq<char>, shown: Seq<char>, is_dir: bool, len: u64) -> Option<Seq<char>> {
    if is_dir {
        Some("could not "@ + verb + " '"@ + shown + "': is a directory"@)
    } else if len > MAX_READ_BYTES {
        Some("could not "@ + verb + " '"@ + shown + "': "@ + decimal(len as nat) + " bytes exceeds the "@
            + decimal(MAX_READ_BYTES as nat) + "-byte limit"@)
    } else {
        None
    }
}

/// Whether a tool may `verb` the file at `shown`, given what the disk
/// says of it.
pub fn check_size(verb: &str, shown: &str, is_dir: bool, len: u64) -> (r: Result<(), DarbError>)
    ensures
        match size_refusal(verb@, shown@, is_dir, len) {
            None => r is Ok,
            Some(m) => r matches Err(e) && e is Tool && e.detail_view() == m,
        },
{
    let head = concat("could not ", verb);
    let head = concat(head.as_str(), " '");
    let head = concat(head.as_str(), shown);
    proof {
        reveal_strlit("could not ");
        reveal_strlit(" '");
        reveal_strlit("': is a directory");
        reveal_strlit("': ");
        reveal_strlit(" bytes exceeds the ");
        reveal_strlit("-byte limit");
    }
    if is_dir {
        return Err(DarbError::Tool(concat(head.as_str(), "': is a directory")));
    }
    if len > MAX_READ_BYTES {
        let m = concat(head.as_str(), "': ");
        let m = concat(m.as_str(), decimal_string(len).as_str());
        let m = concat(m.as_str(), " bytes exceeds the ");
        let m = concat(m.as_str(), decimal_string(MAX_READ_BYTES).as_str());
        let m = concat(m.as_str(), "-byte limit");
        return Err(DarbError::Tool(m));
    }
    Ok(())
}

} // verus!
