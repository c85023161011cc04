//! Truncate long blobs keeping head and tail (signatures at the top,
//! errors at the bottom) instead of cutting the end off blindly.
use vstd::prelude::*;

use crate::text::{chars_of, owned, string_of};

verus! {

/// Marker that replaces the dropped middle.
pub const MARKER: &'static str = "\n…[truncated]…\n";

/// Characters kept before the marker for a budget of `keep` characters.
pub open spec fn head_len(keep: nat) -> nat {
    keep * 2 / 3
}

/// `text` capped at `max` characters: unchanged when it fits; otherwise
/// its first two thirds and last third of what the budget leaves after
/// the marker, around the marker; and when the budget cannot even hold
/// the marker, the first `max` characters of the text.
pub open spec fn truncate_middle_spec(text: Seq<char>, max: nat, marker: Seq<char>) -> Seq<char> {
    if text.len() <= max {
        text
    } else if max < marker.len() {
        text.take(max as int)
    } else {
        let keep: nat = (max - marker.len()) as nat;
        let head = head_len(keep);
        let tail = (keep - head) as nat;
        text.take(head as int) + marker + text.skip(text.len() - tail)
    }
}

/// Cap `text` at `max_chars` characters, keeping head and tail.
pub fn truncate_middle(text: &str, max_chars: usize) -> (r: String)
    ensures
        r@ == truncate_middle_spec(text@, max_chars as nat, MARKER@),
{
    let chars = chars_of(text);
    if chars.len() <= max_chars {
        return owned(text);
    }
    let marker_len = chars_of(MARKER).len();
    if max_chars < marker_len {
        return string_of(&crate::text::slice_to_vec(&chars, 0, max_chars));
    }
    let keep: usize = max_chars - marker_len;
    let head = keep / 3 * 2 + (keep % 3) * 2 / 3;
    proof {
        assert(head == keep * 2 / 3) by (nonlinear_arith)
            requires
                head == keep / 3 * 2 + (keep % 3) * 2 / 3,
        ;
    }
    let tail = keep - head;
    let mut out: Vec<char> = crate::text::slice_to_vec(&chars, 0, head);
    let marker = chars_of(MARKER);
    let mut i: usize = 0;
    while i < marker.len()
        invariant
            i <= marker.len(),
            out@ == chars@.take(head as int) + marker@.take(i as int),
        decreases marker.len() - i,
    {
        out.push(marker[i]);
        proof {
            assert(marker@.take(i + 1) == marker@.take(i as int).push(marker@[i as int]));
        }
        i = i + 1;
    }
    let mut j: usize = chars.len() - tail;
    proof {
        assert(marker@.take(marker@.len() as int) == marker@);
    }
    while j < chars.len()
        invariant
            tail <= chars.len(),
            chars.len() - tail <= j <= chars.len(),
            out@ == chars@.take(head as int) + marker@ + chars@.subrange(
                chars.len() - tail,
                j as int,
            ),
        decreases chars.len() - j,
    {
        out.push(chars[j]);
        proof {
            assert(chars@.subrange(chars.len() - tail, j + 1) == chars@.subrange(
                chars.len() - tail,
                j as int,
            ).push(chars@[j as int]));
        }
        j = j + 1;
    }
    proof {
        assert(chars@.subrange(chars.len() - tail, chars.len() as int) == chars@.skip(
            chars.len() - tail,
        ));
    }
    string_of(&out)
}

/// A text that fits is returned unchanged; the result never exceeds the
/// budget; with a budget of at least the marker's length, a cut text fills
/// the budget, starting with the text's head and ending with its tail.
pub proof fn law_truncation_fits_and_keeps_ends(text: Seq<char>, max: nat, marker: Seq<char>)
    ensures
        text.len() <= max ==> truncate_middle_spec(text, max, marker) == text,
        truncate_middle_spec(text, max, marker).len() <= max,
        text.len() > max && max >= marker.len() ==> {
            let r = truncate_middle_spec(text, max, marker);
            let keep = (max - marker.len()) as nat;
            &&& r.len() == max
            &&& r.take(head_len(keep) as int) == text.take(head_len(keep) as int)
            &&& r.skip(r.len() - (keep - head_len(keep))) == text.skip(
                text.len() - (keep - head_len(keep)),
            )
        },
{
    if text.len() > max && max >= marker.len() {
        let keep0 = (max - marker.len()) as nat;
        assert(head_len(keep0) <= keep0) by (nonlinear_arith)
            requires
                head_len(keep0) == keep0 * 2 / 3,
        ;
    }
    if text.len() > max && max >= marker.len() {
        let keep = (max - marker.len()) as nat;
        let head = head_len(keep);
        assert(head <= keep) by (nonlinear_arith)
            requires
                head == keep * 2 / 3,
        ;
        let r = truncate_middle_spec(text, max, marker);
        let tail = (keep - head) as nat;
        assert(r.take(head as int) =~= text.take(head as int));
        assert(r.skip(r.len() - tail) =~= text.skip(text.len() - tail));
    }
}

} // verus!
