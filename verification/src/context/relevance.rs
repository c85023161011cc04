//! Relevance: order files by likely usefulness for a task.
//!
//! Explicitly mentioned paths first, then filename word overlap with the
//! task. Ties break by path so prompts are deterministic.
use vstd::prelude::*;

use crate::context::project_map::ProjectFile;
use crate::order::{key_view, sort_order};
use crate::text::{chars_eq, chars_of, contains_chars, lowercase_chars, split_chars, CharClass};

verus! {

/// A file with its relevance score (higher first).
#[derive(Debug, Clone)]
pub struct ScoredFile<'a> {
    pub file: &'a ProjectFile,
    pub score: u32,
}

/// UTF-8 length of one character.
pub open spec fn utf8_char_len(c: char) -> nat {
    let u = c as u32;
    if u < 0x80 {
        1
    } else if u < 0x800 {
        2
    } else if u < 0x10000 {
        3
    } else {
        4
    }
}

/// UTF-8 length of a character sequence (what `str::len` returns).
pub open spec fn utf8_len(s: Seq<char>) -> nat
    decreases s.len(),
{
    if s.len() == 0 {
        0
    } else {
        utf8_len(s.drop_last()) + utf8_char_len(s.last())
    }
}

/// Task words: pieces of the lower-cased task between non-alphanumeric
/// characters, longer than two bytes.
pub open spec fn task_words(task_lower: Seq<char>) -> Seq<Seq<char>> {
    crate::text::split_by(task_lower, CharClass::NotAlphanumeric).filter(
        |w: Seq<char>| utf8_len(w) > 2,
    )
}

/// How many words equal `x`.
pub open spec fn count_eq(words: Seq<Seq<char>>, x: Seq<char>) -> nat
    decreases words.len(),
{
    if words.len() == 0 {
        0
    } else {
        count_eq(words.drop_last(), x) + if words.last() == x {
            1nat
        } else {
            0nat
        }
    }
}

/// Stem of a path segment: what precedes its first `.`.
pub open spec fn stem(segment: Seq<char>) -> Seq<char> {
    crate::text::split_by(segment, CharClass::Dot)[0]
}

/// Number of (segment, word) pairs where the segment's stem is the word.
pub open spec fn overlap(segments: Seq<Seq<char>>, words: Seq<Seq<char>>) -> nat
    decreases segments.len(),
{
    if segments.len() == 0 {
        0
    } else {
        overlap(segments.drop_last(), words) + count_eq(words, stem(segments.last()))
    }
}

/// Points of a file for a task (unbounded): 100 when the file's name is
/// mentioned, 50 when its whole path is, 10 per shared word.
pub open spec fn points(task: Seq<char>, path: Seq<char>) -> nat {
    let task_lower = crate::text::lowercase_of(task);
    let path_lower = crate::text::lowercase_of(path);
    let name = crate::text::split_by(path, CharClass::Slash).last();
    (if name.len() > 0 && crate::text::contains(task_lower, crate::text::lowercase_of(name)) {
        100nat
    } else {
        0nat
    }) + (if crate::text::contains(task_lower, path_lower) {
        50nat
    } else {
        0nat
    }) + 10 * overlap(crate::text::split_by(path_lower, CharClass::Slash), task_words(task_lower))
}

/// Score as a 32-bit counter (wrapping, like the unchecked sum it models).
pub open spec fn score_of(task: Seq<char>, path: Seq<char>) -> u32 {
    (points(task, path) % 0x1_0000_0000) as u32
}

/// Sort keys of the files for a task: (score, path).
pub open spec fn score_keys(task: Seq<char>, files: Seq<ProjectFile>) -> Seq<(u64, Seq<char>)> {
    Seq::new(files.len(), |i: int| (score_of(task, files[i].path@) as u64, files[i].path@))
}

/// UTF-8 length of a character sequence.
fn utf8_length(v: &[char]) -> (n: usize)
    requires
        v@.len() <= 0x1000_0000,
    ensures
        n == utf8_len(v@),
{
    let mut n: usize = 0;
    let mut i: usize = 0;
    while i < v.len()
        invariant
            i <= v.len(),
            v@.len() <= 0x1000_0000,
            n == utf8_len(v@.take(i as int)),
            n <= 4 * i,
        decreases v.len() - i,
    {
        proof {
            assert(v@.take(i + 1).drop_last() == v@.take(i as int));
        }
        let u = v[i] as u32;
        let c: usize = if u < 0x80 {
            1
        } else if u < 0x800 {
            2
        } else if u < 0x10000 {
            3
        } else {
            4
        };
        n = n + c;
        i = i + 1;
    }
    proof {
        assert(v@.take(v@.len() as int) == v@);
    }
    n
}

/// Whether a word is longer than two bytes (its byte length, saturated).
fn longer_than_two_bytes(v: &[char]) -> (r: bool)
    ensures
        r == (utf8_len(v@) > 2),
{
    if v.len() > 2 {
        proof {
            lemma_utf8_len_at_least_count(v@);
        }
        return true;
    }
    utf8_length(v) > 2
}

/// A prefix is never longer in UTF-8 than the whole text.
pub proof fn lemma_utf8_len_prefix(s: Seq<char>, i: int)
    requires
        0 <= i <= s.len(),
    ensures
        utf8_len(s.take(i)) <= utf8_len(s),
    decreases s.len() - i,
{
    if i < s.len() {
        lemma_utf8_len_prefix(s, i + 1);
        assert(s.take(i + 1).drop_last() == s.take(i));
    } else {
        assert(s.take(i) == s);
    }
}

proof fn lemma_utf8_len_at_least_count(s: Seq<char>)
    ensures
        utf8_len(s) >= s.len(),
    decreases s.len(),
{
    if s.len() > 0 {
        lemma_utf8_len_at_least_count(s.drop_last());
    }
}

/// Words of the lower-cased task longer than two bytes.
fn words_of(task_lower: &[char]) -> (r: Vec<Vec<char>>)
    ensures
        r@.map_values(|p: Vec<char>| p@) == task_words(task_lower@),
{
    let pieces = split_chars(task_lower, CharClass::NotAlphanumeric);
    let ghost all = pieces@.map_values(|p: Vec<char>| p@);
    let mut r: Vec<Vec<char>> = Vec::new();
    let mut i: usize = 0;
    while i < pieces.len()
        invariant
            i <= pieces.len(),
            all == pieces@.map_values(|p: Vec<char>| p@),
            all == crate::text::split_by(task_lower@, CharClass::NotAlphanumeric),
            r@.map_values(|p: Vec<char>| p@) == all.take(i as int).filter(
                |w: Seq<char>| utf8_len(w) > 2,
            ),
        decreases pieces.len() - i,
    {
        proof {
            assert(all.take(i + 1).drop_last() == all.take(i as int));
            reveal_with_fuel(Seq::filter, 1);
        }
        if longer_than_two_bytes(&pieces[i]) {
            let p = crate::text::slice_to_vec(&pieces[i], 0, pieces[i].len());
            proof {
                assert(pieces[i as int]@.subrange(0, pieces[i as int]@.len() as int)
                    == pieces[i as int]@);
                assert(r@.push(p).map_values(|p: Vec<char>| p@) == r@.map_values(
                    |p: Vec<char>| p@,
                ).push(p@));
            }
            r.push(p);
        }
        i = i + 1;
    }
    proof {
        assert(all.take(all.len() as int) == all);
    }
    r
}

/// `score_of` for one file.
fn file_score(task_lower: &Vec<char>, words: &Vec<Vec<char>>, path: &str) -> (s: u32)
    requires
        words@.map_values(|p: Vec<char>| p@) == task_words(task_lower@),
    ensures
        forall|task: Seq<char>|
            crate::text::lowercase_of(task) == task_lower@ ==> s == #[trigger] score_of(task, path@),
{
    let ghost wv = words@.map_values(|p: Vec<char>| p@);
    let path_v = chars_of(path);
    let path_lower = lowercase_chars(&path_v);
    let by_slash = split_chars(&path_v, CharClass::Slash);
    proof {
        crate::text::lemma_split_nonempty(path_v@, CharClass::Slash);
    }
    let name = &by_slash[by_slash.len() - 1];
    let mut points: u32 = 0;
    if name.len() > 0 {
        let name_lower = lowercase_chars(name);
        if contains_chars(task_lower, &name_lower) {
            points = 100;
        }
    }
    if contains_chars(task_lower, &path_lower) {
        points = points + 50;
    }
    let ghost base = points as nat;
    let segments = split_chars(&path_lower, CharClass::Slash);
    let ghost sv = segments@.map_values(|p: Vec<char>| p@);
    let ghost mut total: nat = 0;
    let mut i: usize = 0;
    while i < segments.len()
        invariant
            i <= segments.len(),
            sv == segments@.map_values(|p: Vec<char>| p@),
            wv == words@.map_values(|p: Vec<char>| p@),
            total == overlap(sv.take(i as int), wv),
            points as nat == (base + 10 * total) % 0x1_0000_0000,
        decreases segments.len() - i,
    {
        proof {
            assert(sv.take(i + 1).drop_last() == sv.take(i as int));
            crate::text::lemma_split_nonempty(sv[i as int], CharClass::Dot);
        }
        let parts = split_chars(&segments[i], CharClass::Dot);
        let stem_v = &parts[0];
        let mut j: usize = 0;
        let ghost mut cnt: nat = 0;
        while j < words.len()
            invariant
                j <= words.len(),
                wv == words@.map_values(|p: Vec<char>| p@),
                stem_v@ == stem(sv[i as int]),
                cnt == count_eq(wv.take(j as int), stem(sv[i as int])),
                points as nat == (base + 10 * (total + cnt)) % 0x1_0000_0000,
            decreases words.len() - j,
        {
            proof {
                assert(wv.take(j + 1).drop_last() == wv.take(j as int));
            }
            if chars_eq(&words[j], stem_v) {
                points = points.wrapping_add(10);
                proof {
                    cnt = cnt + 1;
                }
            }
            j = j + 1;
        }
        proof {
            assert(wv.take(wv.len() as int) == wv);
            total = total + cnt;
        }
        i = i + 1;
    }
    proof {
        assert(sv.take(sv.len() as int) == sv);
    }
    points
}

/// Score every file against `task`, highest first; ties break by path,
/// then by position.
pub fn score<'a>(task: &str, files: &'a [ProjectFile]) -> (r: Vec<ScoredFile<'a>>)
    ensures
        r@.len() == files@.len(),
        exists|order: Seq<usize>|
            {
                &&& crate::order::is_permutation(order, files@.len())
                &&& crate::order::sorted_by_key(score_keys(task@, files@), order)
                &&& forall|k: int|
                    0 <= k < r@.len() ==> *(#[trigger] r@[k]).file == files@[order[k] as int]
                        && r@[k].score == score_of(task@, files@[order[k] as int].path@)
            },
{
    let task_v = chars_of(task);
    let task_lower = lowercase_chars(&task_v);
    let words = words_of(&task_lower);
    let mut keys: Vec<(u64, Vec<char>)> = Vec::new();
    let mut scores: Vec<u32> = Vec::new();
    let mut i: usize = 0;
    while i < files.len()
        invariant
            i <= files@.len(),
            task_lower@ == crate::text::lowercase_of(task@),
            words@.map_values(|p: Vec<char>| p@) == task_words(task_lower@),
            keys@.len() == i,
            scores@.len() == i,
            forall|k: int| 0 <= k < i ==> #[trigger] scores@[k] == score_of(task@, files@[k].path@),
            forall|k: int| 0 <= k < i ==> key_view(#[trigger] keys@[k]) == score_keys(task@, files@)[k],
        decreases files.len() - i,
    {
        let s = file_score(&task_lower, &words, files[i].path.as_str());
        scores.push(s);
        keys.push((s as u64, chars_of(files[i].path.as_str())));
        i = i + 1;
    }
    proof {
        assert(keys@.map_values(|k: (u64, Vec<char>)| key_view(k)) =~= score_keys(task@, files@));
    }
    let order = sort_order(&keys);
    let mut r: Vec<ScoredFile<'a>> = Vec::new();
    let mut k: usize = 0;
    while k < order.len()
        invariant
            k <= order@.len(),
            crate::order::is_permutation(order@, files@.len()),
            scores@.len() == files@.len(),
            forall|q: int| 0 <= q < files@.len() ==> #[trigger] scores@[q] == score_of(task@, files@[q].path@),
            r@.len() == k,
            forall|q: int|
                0 <= q < k ==> *(#[trigger] r@[q]).file == files@[order@[q] as int] && r@[q].score
                    == score_of(task@, files@[order@[q] as int].path@),
        decreases order.len() - k,
    {
        let idx = order[k];
        r.push(ScoredFile { file: &files[idx], score: scores[idx] });
        k = k + 1;
    }
    r
}

/// The last piece of a split is what follows the last separator: a
/// suffix of the text.
proof fn lemma_last_piece_is_suffix(s: Seq<char>, cls: CharClass)
    ensures
        crate::text::split_by(s, cls).last().len() <= s.len(),
        crate::text::split_by(s, cls).last() == s.skip(s.len() - crate::text::split_by(s, cls).last().len()),
    decreases s.len(),
{
    crate::text::lemma_split_nonempty(s, cls);
    if s.len() == 0 {
        assert(s.skip(0) == s);
    } else {
        let d = s.drop_last();
        crate::text::lemma_split_nonempty(d, cls);
        lemma_last_piece_is_suffix(d, cls);
        let rest = crate::text::split_by(d, cls);
        if crate::text::in_class(cls, s.last()) {
            assert(s.skip(s.len() as int) =~= Seq::<char>::empty());
        } else {
            let piece = rest.last().push(s.last());
            assert(crate::text::split_by(s, cls).last() == piece);
            assert(piece =~= s.skip(s.len() - piece.len()));
        }
    }
}

/// Lower-casing an ASCII text commutes with taking a suffix.
proof fn lemma_lower_suffix(p: Seq<char>, k: int)
    requires
        crate::text::is_ascii_text(p),
        0 <= k <= p.len(),
    ensures
        crate::text::is_ascii_text(p.skip(k)),
        crate::text::lowercase_of(p.skip(k)) == crate::text::lowercase_of(p).skip(k),
{
    assert forall|i: int| 0 <= i < p.skip(k).len() implies (#[trigger] p.skip(k)[i] as u32) < 128 by {
        assert(p.skip(k)[i] == p[i + k]);
    }
    assert(crate::text::lowercase_of(p.skip(k)) =~= crate::text::lowercase_of(p).skip(k));
}

/// A text containing `p` contains every suffix of `p`.
proof fn lemma_contains_suffix(t: Seq<char>, p: Seq<char>, k: int)
    requires
        crate::text::contains(t, p),
        0 <= k <= p.len(),
    ensures
        crate::text::contains(t, p.skip(k)),
{
    let i = choose|i: int| crate::text::occurs_at(t, p, i);
    assert(t.subrange(i + k, i + k + p.skip(k).len()) =~= p.skip(k)) by {
        assert(t.subrange(i, i + p.len()) == p);
        assert forall|j: int| 0 <= j < p.skip(k).len() implies t.subrange(i + k, i + k + p.skip(k).len())[j]
            == p.skip(k)[j] by {
            assert(t.subrange(i, i + p.len())[j + k] == p[j + k]);
        }
    }
    assert(crate::text::occurs_at(t, p.skip(k), i + k));
}

/// Law: a task that names a file by its whole (ASCII) path names the
/// file itself too, so the file earns both the mention of its name (100)
/// and the mention of its path (50): at least 150 points.
pub proof fn law_full_path_mention_scores_name_and_path(task: Seq<char>, path: Seq<char>)
    requires
        crate::text::is_ascii_text(path),
        crate::text::split_by(path, CharClass::Slash).last().len() > 0,
        crate::text::contains(crate::text::lowercase_of(task), crate::text::lowercase_of(path)),
    ensures
        points(task, path) >= 150,
        points(task, path) < 0x1_0000_0000 ==> score_of(task, path) >= 150,
{
    let name = crate::text::split_by(path, CharClass::Slash).last();
    lemma_last_piece_is_suffix(path, CharClass::Slash);
    let k = path.len() - name.len();
    lemma_lower_suffix(path, k);
    lemma_contains_suffix(crate::text::lowercase_of(task), crate::text::lowercase_of(path), k);
    assert(crate::text::lowercase_of(path).skip(k) == crate::text::lowercase_of(name));
}

} // verus!
