//! Editing by exact replacement: the `old` text must occur exactly once,
//! so an edit never guesses which occurrence was meant.
use vstd::prelude::*;

use crate::context::relevance::utf8_len;
use crate::errors::DarbError;
use crate::text::{chars_of, concat, slice_to_vec, string_of};
use crate::tools::filesystem::MAX_READ_BYTES;

verus! {

/// Non-overlapping occurrences of `pat` in `s`, scanning left to right
/// (`str::matches(..).count()`).
pub open spec fn occurrences(s: Seq<char>, pat: Seq<char>) -> nat
    decreases s.len(),
{
    if pat.len() == 0 || s.len() < pat.len() {
        0
    } else if s.take(pat.len() as int) == pat {
        1 + occurrences(s.skip(pat.len() as int), pat)
    } else {
        occurrences(s.drop_first(), pat)
    }
}

/// `s` with its first occurrence of `pat` replaced (`replacen(.., 1)`).
pub open spec fn replace_first(s: Seq<char>, pat: Seq<char>, rep: Seq<char>) -> Seq<char>
    decreases s.len(),
{
    if pat.len() == 0 || s.len() < pat.len() {
        s
    } else if s.take(pat.len() as int) == pat {
        rep + s.skip(pat.len() as int)
    } else {
        seq![s[0]] + replace_first(s.drop_first(), pat, rep)
    }
}

/// What an edit of `content` yields: the edited text, or the refusal.
/// `old` must be non-empty and occur exactly once, and the result must
/// stay within the size limit; `shown` names the file in messages.
pub open spec fn edit_outcome(content: Seq<char>, old: Seq<char>, new: Seq<char>, shown: Seq<char>) -> Result<Seq<char>, Seq<char>> {
    let n = occurrences(content, old);
    let updated = replace_first(content, old, new);
    if old.len() == 0 {
        Err("edit requires non-empty 'old' text: read the file first, then match exactly"@)
    } else if n == 0 {
        Err("could not edit '"@ + shown + "': 'old' text not found; re-read the file, it may have changed"@)
    } else if n > 1 {
        Err("could not edit '"@ + shown + "': 'old' text matches "@ + crate::text::decimal(n)
            + " times; include more context to disambiguate"@)
    } else if utf8_len(updated) > MAX_READ_BYTES {
        Err("could not edit '"@ + shown + "': result would exceed the "@ + crate::text::decimal(
            MAX_READ_BYTES as nat,
        ) + "-byte limit"@)
    } else {
        Ok(updated)
    }
}

/// Count occurrences and find the first one.
fn scan(s: &Vec<char>, pat: &Vec<char>) -> (r: (u64, usize))
    requires
        pat@.len() > 0,
    ensures
        r.0 == occurrences(s@, pat@),
        r.0 >= 1 ==> r.1 + pat@.len() <= s@.len() && forall|rep: Seq<char>|
            #[trigger] replace_first(s@, pat@, rep) == s@.take(r.1 as int) + rep + s@.skip(r.1 + pat@.len()),
{
    let n = s.len();
    let p = pat.len();
    let mut count: u64 = 0;
    let mut first: usize = 0;
    let mut i: usize = 0;
    proof {
        assert(s@.skip(0) == s@);
        assert forall|rep: Seq<char>| #[trigger] replace_first(s@, pat@, rep) == s@.take(0) + replace_first(s@.skip(0), pat@, rep) by {
            assert(s@.take(0) + replace_first(s@, pat@, rep) == replace_first(s@, pat@, rep));
        }
    }
    while i < n && p <= n - i
        invariant
            n == s@.len(),
            p == pat@.len(),
            p > 0,
            i <= n,
            count <= i,
            count as nat + occurrences(s@.skip(i as int), pat@) == occurrences(s@, pat@),
            count >= 1 ==> first + p <= i && forall|rep: Seq<char>|
                #[trigger] replace_first(s@, pat@, rep) == s@.take(first as int) + rep + s@.skip(first + p),
            count == 0 ==> forall|rep: Seq<char>|
                #[trigger] replace_first(s@, pat@, rep) == s@.take(i as int) + replace_first(s@.skip(i as int), pat@, rep),
        decreases n - i,
    {
        let ghost rest = s@.skip(i as int);
        proof {
            assert(rest.take(p as int) == s@.subrange(i as int, i + p));
            assert(rest.skip(p as int) == s@.skip(i + p));
            assert(rest.drop_first() == s@.skip(i + 1));
        }
        if crate::text::matches_at(s, pat, i) {
            if count == 0 {
                first = i;
                proof {
                    assert forall|rep: Seq<char>| #[trigger] replace_first(s@, pat@, rep) == s@.take(first as int) + rep + s@.skip(first + p) by {
                        assert(replace_first(rest, pat@, rep) == rep + rest.skip(p as int));
                        assert(s@.take(i as int) + (rep + s@.skip(i + p)) == s@.take(i as int) + rep + s@.skip(i + p));
                    }
                }
            }
            count = count + 1;
            i = i + p;
        } else {
            proof {
                if count == 0 {
                    assert forall|rep: Seq<char>| #[trigger] replace_first(s@, pat@, rep) == s@.take(i + 1) + replace_first(s@.skip(i + 1), pat@, rep) by {
                        assert(replace_first(rest, pat@, rep) == seq![rest[0]] + replace_first(rest.drop_first(), pat@, rep));
                        assert(s@.take(i as int) + (seq![rest[0]] + replace_first(rest.drop_first(), pat@, rep))
                            =~= s@.take(i + 1) + replace_first(s@.skip(i + 1), pat@, rep));
                    }
                }
            }
            i = i + 1;
        }
    }
    proof {
        assert(occurrences(s@.skip(i as int), pat@) == 0);
    }
    (count, first)
}

/// Whether the UTF-8 length of `v` exceeds `limit`.
fn utf8_exceeds(v: &Vec<char>, limit: u64) -> (b: bool)
    requires
        limit < u64::MAX - 4,
    ensures
        b == (utf8_len(v@) > limit),
{
    let mut n: u64 = 0;
    let mut i: usize = 0;
    while i < v.len()
        invariant
            i <= v@.len(),
            limit < u64::MAX - 4,
            n == utf8_len(v@.take(i as int)),
            n <= limit,
        decreases v.len() - i,
    {
        proof {
            assert(v@.take(i + 1).drop_last() == v@.take(i as int));
        }
        let u = v[i] as u32;
        let c: u64 = if u < 0x80 {
            1
        } else if u < 0x800 {
            2
        } else if u < 0x10000 {
            3
        } else {
            4
        };
        n = n + c;
        i = i + 1;
        if n > limit {
            proof {
                crate::context::relevance::lemma_utf8_len_prefix(v@, i as int);
            }
            return true;
        }
    }
    proof {
        assert(v@.take(v@.len() as int) == v@);
    }
    false
}

/// An edit must name the text it replaces: refused before anything is
/// read when `old` is empty.
pub fn check_old_text(old: &str) -> (r: Result<(), DarbError>)
    ensures
        r is Ok <==> old@.len() > 0,
        r matches Err(e) ==> e is Tool && e.detail_view()
            == "edit requires non-empty 'old' text: read the file first, then match exactly"@,
{
    if chars_of(old).len() == 0 {
        return Err(DarbError::Tool(crate::text::owned(
            "edit requires non-empty 'old' text: read the file first, then match exactly",
        )));
    }
    Ok(())
}

/// Apply an edit to a file's content: replace the single occurrence of
/// `old` by `new`; `shown` names the file in the refusals.
pub fn apply_edit(content: &str, old: &str, new: &str, shown: &str) -> (r: Result<String, DarbError>)
    ensures
        match edit_outcome(content@, old@, new@, shown@) {
            Ok(t) => r matches Ok(s) && s@ == t,
            Err(m) => r matches Err(e) && e is Tool && e.detail_view() == m,
        },
{
    let c = chars_of(content);
    let o = chars_of(old);
    if o.len() == 0 {
        return Err(DarbError::Tool(crate::text::owned(
            "edit requires non-empty 'old' text: read the file first, then match exactly",
        )));
    }
    let (count, first) = scan(&c, &o);
    if count == 0 {
        let a = concat("could not edit '", shown);
        return Err(DarbError::Tool(concat(a.as_str(), "': 'old' text not found; re-read the file, it may have changed")));
    }
    if count > 1 {
        let a = concat("could not edit '", shown);
        let b = concat(a.as_str(), "': 'old' text matches ");
        let d = concat(b.as_str(), crate::text::decimal_string(count).as_str());
        return Err(DarbError::Tool(concat(d.as_str(), " times; include more context to disambiguate")));
    }
    let clen = c.len();
    assert(first + o@.len() <= clen);
    let end = first + o.len();
    let tail = slice_to_vec(&c, end, c.len());
    let mut updated = slice_to_vec(&c, 0, first);
    let nv = chars_of(new);
    let mut k: usize = 0;
    let ghost head = updated@;
    while k < nv.len()
        invariant
            k <= nv@.len(),
            updated@ == head + nv@.take(k as int),
        decreases nv.len() - k,
    {
        updated.push(nv[k]);
        proof {
            assert(nv@.take(k + 1) == nv@.take(k as int).push(nv@[k as int]));
        }
        k = k + 1;
    }
    let mut t = tail;
    updated.append(&mut t);
    proof {
        assert(nv@.take(nv@.len() as int) == nv@);
        assert(c@.subrange(first + o@.len(), c@.len() as int) == c@.skip(first + o@.len()));
        assert(replace_first(c@, o@, nv@) == c@.take(first as int) + nv@ + c@.skip(first + o@.len()));
        assert(updated@ =~= replace_first(c@, o@, nv@));
    }
    if utf8_exceeds(&updated, MAX_READ_BYTES) {
        let a = concat("could not edit '", shown);
        let b = concat(a.as_str(), "': result would exceed the ");
        let d = concat(b.as_str(), crate::text::decimal_string(MAX_READ_BYTES).as_str());
        return Err(DarbError::Tool(concat(d.as_str(), "-byte limit")));
    }
    Ok(string_of(&updated))
}

} // verus!
