//! Character-level text helpers shared by the whole library.
//!
//! Strings are reasoned about through their views (`Seq<char>`); the
//! helpers here mirror the std string operations the library needs
//! (trimming, splitting, searching) with exact specifications.
use vstd::prelude::*;

verus! {

/// Characters of a string slice, in order.
pub fn chars_of(s: &str) -> (v: Vec<char>)
    ensures
        v@ == s@,
{
    let mut v: Vec<char> = Vec::new();
    for c in it: s.chars()
        invariant
            v@ == it.seq().take(it.index() as int),
    {
        v.push(c);
    }
    v
}

/// Append one character to a string (`String::push`).
#[verifier::external_body]
pub fn push_char(s: &mut String, c: char)
    ensures
        final(s)@ == old(s)@.push(c),
{
    s.push(c);
}

/// Build a string from characters.
pub fn string_of(v: &[char]) -> (s: String)
    ensures
        s@ == v@,
{
    let mut s = String::new();
    let mut i: usize = 0;
    while i < v.len()
        invariant
            i <= v.len(),
            s@ == v@.take(i as int),
        decreases v.len() - i,
    {
        push_char(&mut s, v[i]);
        proof {
            assert(v@.take(i + 1) == v@.take(i as int).push(v@[i as int]));
        }
        i = i + 1;
    }
    proof {
        assert(v@.take(v@.len() as int) == v@);
    }
    s
}

/// Copy of a string slice as an owned string.
pub fn owned(s: &str) -> (r: String)
    ensures
        r@ == s@,
{
    let v = chars_of(s);
    string_of(&v)
}

/// Concatenation of two strings.
pub fn concat(a: &str, b: &str) -> (r: String)
    ensures
        r@ == a@ + b@,
{
    let mut r = owned(a);
    r.append(b);
    r
}

/// Unicode `White_Space` property (the set `char::is_whitespace` uses).
pub open spec fn is_ws(c: char) -> bool {
    let u = c as u32;
    ||| (0x09 <= u && u <= 0x0d)
    ||| u == 0x20
    ||| u == 0x85
    ||| u == 0xa0
    ||| u == 0x1680
    ||| (0x2000 <= u && u <= 0x200a)
    ||| u == 0x2028
    ||| u == 0x2029
    ||| u == 0x202f
    ||| u == 0x205f
    ||| u == 0x3000
}

/// Whitespace test, as `char::is_whitespace`.
pub fn is_whitespace(c: char) -> (b: bool)
    ensures
        b == is_ws(c),
{
    let u = c as u32;
    (0x09 <= u && u <= 0x0d) || u == 0x20 || u == 0x85 || u == 0xa0 || u == 0x1680 || (0x2000
        <= u && u <= 0x200a) || u == 0x2028 || u == 0x2029 || u == 0x202f || u == 0x205f || u
        == 0x3000
}

/// An ASCII letter or digit.
pub open spec fn ascii_alphanumeric(c: char) -> bool {
    ('a' <= c <= 'z') || ('A' <= c <= 'Z') || ('0' <= c <= '9')
}

/// Unicode alphanumeric property of a non-ASCII character, as computed
/// by `char::is_alphanumeric`.
pub uninterp spec fn unicode_alphanumeric(c: char) -> bool;

/// Whether `char::is_alphanumeric` holds: among ASCII characters exactly
/// the letters and digits; beyond ASCII, the Unicode property.
pub open spec fn char_alphanumeric(c: char) -> bool {
    if (c as u32) < 128 {
        ascii_alphanumeric(c)
    } else {
        unicode_alphanumeric(c)
    }
}

/// `char::is_alphanumeric` (Unicode `Alphabetic` or `Numeric`). Claimed:
/// among ASCII characters exactly the letters and digits are
/// alphanumeric, and beyond ASCII the answer is a fixed function of the
/// character.
#[verifier::external_body]
pub fn is_alphanumeric(c: char) -> (b: bool)
    ensures
        (c as u32) < 128 ==> b == ascii_alphanumeric(c),
        (c as u32) >= 128 ==> b == unicode_alphanumeric(c),
{
    c.is_alphanumeric()
}

/// ASCII lower-casing of one character: `A`-`Z` become `a`-`z`, every
/// other character stays.
pub open spec fn ascii_lower(c: char) -> char {
    if 'A' <= c <= 'Z' {
        ((c as u32) + 32) as char
    } else {
        c
    }
}

/// Every character is ASCII.
pub open spec fn is_ascii_text(s: Seq<char>) -> bool {
    forall|i: int| 0 <= i < s.len() ==> (#[trigger] s[i] as u32) < 128
}

/// Full Unicode lower-casing of a text that is not all ASCII, as
/// computed by `str::to_lowercase`.
pub uninterp spec fn unicode_lowercase_of(s: Seq<char>) -> Seq<char>;

/// What `str::to_lowercase` gives: on an ASCII text, `A`-`Z` lower-cased
/// one for one and every other character kept; otherwise the Unicode
/// lowercase mapping.
pub open spec fn lowercase_of(s: Seq<char>) -> Seq<char> {
    if is_ascii_text(s) {
        s.map_values(|c: char| ascii_lower(c))
    } else {
        unicode_lowercase_of(s)
    }
}

/// `str::to_lowercase`. Claimed: on an ASCII text it lower-cases `A`-`Z`
/// one for one and keeps every other character (the Unicode lowercase
/// mapping of an ASCII character); on any other text the result is a fixed
/// function of the input characters.
#[verifier::external_body]
pub fn to_lowercase(s: &str) -> (r: String)
    ensures
        is_ascii_text(s@) ==> r@ == s@.map_values(|c: char| ascii_lower(c)),
        !is_ascii_text(s@) ==> r@ == unicode_lowercase_of(s@),
{
    s.to_lowercase()
}

/// Lower-cased characters of a character sequence.
pub fn lowercase_chars(v: &[char]) -> (r: Vec<char>)
    ensures
        r@ == lowercase_of(v@),
        is_ascii_text(v@) ==> r@ == v@.map_values(|c: char| ascii_lower(c)),
        (forall|i: int| 0 <= i < v@.len() ==> 'a' <= #[trigger] v@[i] <= 'z') ==> r@ == v@,
{
    let s = string_of(v);
    let l = to_lowercase(s.as_str());
    let r = chars_of(l.as_str());
    proof {
        if forall|i: int| 0 <= i < v@.len() ==> 'a' <= #[trigger] v@[i] <= 'z' {
            assert(is_ascii_text(v@));
            assert(r@ =~= v@);
        }
    }
    r
}

/// Character classes used for trimming and splitting.
#[derive(Clone, Copy, PartialEq, Eq, Debug)]
pub enum CharClass {
    /// `char::is_whitespace`.
    Whitespace,
    /// Anything that is not alphanumeric.
    NotAlphanumeric,
    /// Anything that is neither alphanumeric nor `-`.
    NotAlphanumericOrDash,
    /// Shell command separators: `;`, `&`, `|`, newline.
    CommandSeparator,
    /// Path separator `/`.
    Slash,
    /// Extension separator `.`.
    Dot,
    /// Line feed `\n`.
    Newline,
}

/// Membership of a character in a class.
pub open spec fn in_class(cls: CharClass, c: char) -> bool {
    match cls {
        CharClass::Whitespace => is_ws(c),
        CharClass::NotAlphanumeric => !char_alphanumeric(c),
        CharClass::NotAlphanumericOrDash => !char_alphanumeric(c) && c != '-',
        CharClass::CommandSeparator => c == ';' || c == '&' || c == '|' || c == '\n',
        CharClass::Slash => c == '/',
        CharClass::Dot => c == '.',
        CharClass::Newline => c == '\n',
    }
}

/// Executable class membership.
pub fn class_contains(cls: CharClass, c: char) -> (b: bool)
    ensures
        b == in_class(cls, c),
{
    match cls {
        CharClass::Whitespace => is_whitespace(c),
        CharClass::NotAlphanumeric => !is_alphanumeric(c),
        CharClass::NotAlphanumericOrDash => !is_alphanumeric(c) && c != '-',
        CharClass::CommandSeparator => c == ';' || c == '&' || c == '|' || c == '\n',
        CharClass::Slash => c == '/',
        CharClass::Dot => c == '.',
        CharClass::Newline => c == '\n',
    }
}

/// Drop leading characters of the class.
pub open spec fn trim_start_by(s: Seq<char>, cls: CharClass) -> Seq<char>
    decreases s.len(),
{
    if s.len() > 0 && in_class(cls, s[0]) {
        trim_start_by(s.drop_first(), cls)
    } else {
        s
    }
}

/// Drop trailing characters of the class.
pub open spec fn trim_end_by(s: Seq<char>, cls: CharClass) -> Seq<char>
    decreases s.len(),
{
    if s.len() > 0 && in_class(cls, s.last()) {
        trim_end_by(s.drop_last(), cls)
    } else {
        s
    }
}

/// Drop leading and trailing characters of the class (`trim_matches`).
pub open spec fn trim_by(s: Seq<char>, cls: CharClass) -> Seq<char> {
    trim_end_by(trim_start_by(s, cls), cls)
}

/// `str::trim` on a character sequence.
pub open spec fn trim(s: Seq<char>) -> Seq<char> {
    trim_by(s, CharClass::Whitespace)
}

/// A text whose first and last characters are not whitespace is its own
/// trim.
pub proof fn lemma_trim_plain(s: Seq<char>)
    requires
        s.len() > 0 ==> !is_ws(s[0]) && !is_ws(s.last()),
    ensures
        trim(s) == s,
{
}

proof fn lemma_trim_start_skip(s: Seq<char>, cls: CharClass, i: int)
    requires
        0 <= i <= s.len(),
        forall|j: int| 0 <= j < i ==> in_class(cls, #[trigger] s[j]),
    ensures
        trim_start_by(s, cls) == trim_start_by(s.skip(i), cls),
    decreases i,
{
    if i > 0 {
        assert(s.skip(1) == s.drop_first());
        lemma_trim_start_skip(s.drop_first(), cls, i - 1);
        assert(s.drop_first().skip(i - 1) == s.skip(i));
    } else {
        assert(s.skip(0) == s);
    }
}

proof fn lemma_trim_end_take(s: Seq<char>, cls: CharClass, i: int)
    requires
        0 <= i <= s.len(),
        forall|j: int| i <= j < s.len() ==> in_class(cls, #[trigger] s[j]),
    ensures
        trim_end_by(s, cls) == trim_end_by(s.take(i), cls),
    decreases s.len() - i,
{
    if i < s.len() {
        assert(s.take(s.len() - 1) == s.drop_last());
        lemma_trim_end_take(s.drop_last(), cls, i);
        assert(s.drop_last().take(i) == s.take(i));
    } else {
        assert(s.take(s.len() as int) == s);
    }
}

/// Index of the first character outside the class (or the length).
pub fn start_of_trimmed(v: &[char], cls: CharClass) -> (i: usize)
    ensures
        i <= v.len(),
        v@.skip(i as int) == trim_start_by(v@, cls),
{
    let mut i: usize = 0;
    while i < v.len() && class_contains(cls, v[i])
        invariant
            i <= v.len(),
            forall|j: int| 0 <= j < i ==> in_class(cls, #[trigger] v@[j]),
        decreases v.len() - i,
    {
        i = i + 1;
    }
    proof {
        lemma_trim_start_skip(v@, cls, i as int);
    }
    i
}

/// Index just past the last character outside the class, at or after `lo`.
pub fn end_of_trimmed(v: &[char], lo: usize, cls: CharClass) -> (e: usize)
    requires
        lo <= v.len(),
    ensures
        lo <= e <= v.len(),
        v@.subrange(lo as int, e as int) == trim_end_by(v@.subrange(lo as int, v@.len() as int), cls),
{
    let mut e: usize = v.len();
    let ghost t = v@.subrange(lo as int, v@.len() as int);
    while e > lo && class_contains(cls, v[e - 1])
        invariant
            lo <= e <= v.len(),
            t == v@.subrange(lo as int, v@.len() as int),
            forall|j: int| e - lo <= j < t.len() ==> in_class(cls, #[trigger] t[j]),
        decreases e,
    {
        e = e - 1;
    }
    proof {
        lemma_trim_end_take(t, cls, e - lo);
        assert(t.take(e - lo) == v@.subrange(lo as int, e as int));
    }
    e
}

/// `trim_matches` for a character class.
pub fn trim_chars(v: &[char], cls: CharClass) -> (r: Vec<char>)
    ensures
        r@ == trim_by(v@, cls),
{
    let lo = start_of_trimmed(v, cls);
    let hi = end_of_trimmed(v, lo, cls);
    proof {
        assert(v@.skip(lo as int) == v@.subrange(lo as int, v@.len() as int));
    }
    slice_to_vec(v, lo, hi)
}

/// `trim_start_matches` for a character class.
pub fn trim_start_chars(v: &[char], cls: CharClass) -> (r: Vec<char>)
    ensures
        r@ == trim_start_by(v@, cls),
{
    let lo = start_of_trimmed(v, cls);
    proof {
        assert(v@.skip(lo as int) == v@.subrange(lo as int, v@.len() as int));
    }
    slice_to_vec(v, lo, v.len())
}

/// `trim_end_matches` for a character class.
pub fn trim_end_chars(v: &[char], cls: CharClass) -> (r: Vec<char>)
    ensures
        r@ == trim_end_by(v@, cls),
{
    let hi = end_of_trimmed(v, 0, cls);
    proof {
        assert(v@.subrange(0, v@.len() as int) == v@);
    }
    slice_to_vec(v, 0, hi)
}

/// Copy of `v[lo..hi]`.
pub fn slice_to_vec(v: &[char], lo: usize, hi: usize) -> (r: Vec<char>)
    requires
        lo <= hi <= v.len(),
    ensures
        r@ == v@.subrange(lo as int, hi as int),
{
    let mut r: Vec<char> = Vec::new();
    let mut i = lo;
    while i < hi
        invariant
            lo <= i <= hi,
            hi <= v.len(),
            r@ == v@.subrange(lo as int, i as int),
        decreases hi - i,
    {
        r.push(v[i]);
        proof {
            assert(v@.subrange(lo as int, i + 1) == v@.subrange(lo as int, i as int).push(v@[i as int]));
        }
        i = i + 1;
    }
    r
}

/// Equality of character sequences.
pub fn chars_eq(a: &[char], b: &[char]) -> (r: bool)
    ensures
        r == (a@ == b@),
{
    if a.len() != b.len() {
        return false;
    }
    let mut i: usize = 0;
    while i < a.len()
        invariant
            a.len() == b.len(),
            i <= a.len(),
            forall|j: int| 0 <= j < i ==> a@[j] == b@[j],
        decreases a.len() - i,
    {
        if a[i] != b[i] {
            return false;
        }
        i = i + 1;
    }
    proof {
        assert(a@ =~= b@);
    }
    true
}

/// Equality of two strings by content.
pub fn str_eq(a: &str, b: &str) -> (r: bool)
    ensures
        r == (a@ == b@),
{
    let x = chars_of(a);
    let y = chars_of(b);
    chars_eq(&x, &y)
}

/// `pat` occurs in `s` starting at index `i`.
pub open spec fn occurs_at(s: Seq<char>, pat: Seq<char>, i: int) -> bool {
    0 <= i && i + pat.len() <= s.len() && s.subrange(i, i + pat.len()) == pat
}

/// `s` contains `pat` as a contiguous piece.
pub open spec fn contains(s: Seq<char>, pat: Seq<char>) -> bool {
    exists|i: int| occurs_at(s, pat, i)
}

/// Whether `pat` occurs at index `i` of `s`.
pub fn matches_at(s: &[char], pat: &[char], i: usize) -> (r: bool)
    ensures
        r == occurs_at(s@, pat@, i as int),
{
    if i > s.len() || pat.len() > s.len() - i {
        return false;
    }
    let mut k: usize = 0;
    while k < pat.len()
        invariant
            k <= pat.len(),
            i + pat.len() <= s.len(),
            forall|j: int| 0 <= j < k ==> s@[i + j] == pat@[j],
        decreases pat.len() - k,
    {
        if s[i + k] != pat[k] {
            proof {
                assert(s@.subrange(i as int, i + pat.len())[k as int] != pat@[k as int]);
            }
            return false;
        }
        k = k + 1;
    }
    proof {
        assert(s@.subrange(i as int, i + pat.len()) =~= pat@);
    }
    true
}

/// First index at or after `from` where `pat` occurs in `s`.
pub open spec fn first_at_or_after(s: Seq<char>, pat: Seq<char>, from: int) -> Option<int>
    decreases s.len() + 1 - from,
{
    if from < 0 || from > s.len() {
        None
    } else if occurs_at(s, pat, from) {
        Some(from)
    } else {
        first_at_or_after(s, pat, from + 1)
    }
}

/// An index found at or after `from` is at or after `from` and holds `pat`.
pub proof fn lemma_first_at_or_after(s: Seq<char>, pat: Seq<char>, from: int)
    ensures
        first_at_or_after(s, pat, from) matches Some(i) ==> from <= i <= s.len() && occurs_at(
            s,
            pat,
            i,
        ),
    decreases s.len() + 1 - from,
{
    if 0 <= from <= s.len() && !occurs_at(s, pat, from) {
        lemma_first_at_or_after(s, pat, from + 1);
    }
}

proof fn lemma_first_found(s: Seq<char>, pat: Seq<char>, from: int, i: int)
    requires
        0 <= from <= i,
        occurs_at(s, pat, i),
        forall|j: int| from <= j < i ==> !#[trigger] occurs_at(s, pat, j),
    ensures
        first_at_or_after(s, pat, from) == Some(i),
    decreases i - from,
{
    if from < i {
        lemma_first_found(s, pat, from + 1, i);
    }
}

proof fn lemma_first_none(s: Seq<char>, pat: Seq<char>, from: int)
    requires
        0 <= from,
        forall|j: int| from <= j ==> !#[trigger] occurs_at(s, pat, j),
    ensures
        first_at_or_after(s, pat, from) is None,
    decreases s.len() + 1 - from,
{
    if from <= s.len() {
        lemma_first_none(s, pat, from + 1);
    }
}

/// First occurrence of `pat` in `s` at or after `from`.
pub fn find_from(s: &[char], pat: &[char], from: usize) -> (r: Option<usize>)
    ensures
        r matches Some(i) ==> first_at_or_after(s@, pat@, from as int) == Some(i as int),
        r is None ==> first_at_or_after(s@, pat@, from as int) is None,
        match r {
            Some(i) => from <= i && occurs_at(s@, pat@, i as int) && forall|j: int|
                from <= j < i ==> !#[trigger] occurs_at(s@, pat@, j),
            None => forall|j: int| from <= j ==> !#[trigger] occurs_at(s@, pat@, j),
        },
{
    if from > s.len() {
        proof {
            lemma_first_none(s@, pat@, from as int);
        }
        return None;
    }
    let mut i = from;
    while i < s.len()
        invariant
            from <= i <= s.len(),
            forall|j: int| from <= j < i ==> !#[trigger] occurs_at(s@, pat@, j),
        decreases s.len() - i,
    {
        if matches_at(s, pat, i) {
            proof {
                lemma_first_found(s@, pat@, from as int, i as int);
            }
            return Some(i);
        }
        i = i + 1;
    }
    if matches_at(s, pat, i) {
        proof {
            lemma_first_found(s@, pat@, from as int, i as int);
        }
        return Some(i);
    }
    proof {
        lemma_first_none(s@, pat@, from as int);
    }
    None
}

/// Whether `pat` occurs anywhere in `s`.
pub fn contains_chars(s: &[char], pat: &[char]) -> (r: bool)
    ensures
        r == contains(s@, pat@),
{
    match find_from(s, pat, 0) {
        Some(i) => true,
        None => {
            assert forall|j: int| !occurs_at(s@, pat@, j) by {
                if 0 <= j {
                    assert(!occurs_at(s@, pat@, j));
                }
            }
            false
        },
    }
}

/// Whether `pre` is a prefix of `s`.
pub fn starts_with_chars(s: &[char], pre: &[char]) -> (r: bool)
    ensures
        r == pre@.is_prefix_of(s@),
{
    let r = matches_at(s, pre, 0);
    proof {
        if r {
            assert(s@.subrange(0, pre@.len() as int) == pre@);
        }
        if pre@.is_prefix_of(s@) {
            assert(s@.subrange(0, pre@.len() as int) =~= pre@);
        }
    }
    r
}

/// Whether `suf` is a suffix of `s`.
pub fn ends_with_chars(s: &[char], suf: &[char]) -> (r: bool)
    ensures
        r == suf@.is_suffix_of(s@),
{
    if suf.len() > s.len() {
        return false;
    }
    let r = matches_at(s, suf, s.len() - suf.len());
    proof {
        if suf@.is_suffix_of(s@) {
            assert(s@.subrange(s@.len() - suf@.len(), s@.len() as int) =~= suf@);
        }
    }
    r
}

/// `str::split` by a character class: pieces between separators, empty
/// pieces included.
pub open spec fn split_by(s: Seq<char>, cls: CharClass) -> Seq<Seq<char>>
    decreases s.len(),
{
    if s.len() == 0 {
        seq![Seq::<char>::empty()]
    } else {
        let rest = split_by(s.drop_last(), cls);
        if in_class(cls, s.last()) {
            rest.push(Seq::<char>::empty())
        } else {
            rest.update(rest.len() - 1, rest.last().push(s.last()))
        }
    }
}

pub proof fn lemma_split_nonempty(s: Seq<char>, cls: CharClass)
    ensures
        split_by(s, cls).len() >= 1,
    decreases s.len(),
{
    if s.len() > 0 {
        lemma_split_nonempty(s.drop_last(), cls);
    }
}

/// Pieces of `v` between separators of the class.
pub fn split_chars(v: &[char], cls: CharClass) -> (r: Vec<Vec<char>>)
    ensures
        r@.map_values(|p: Vec<char>| p@) == split_by(v@, cls),
{
    let mut done: Vec<Vec<char>> = Vec::new();
    let mut cur: Vec<char> = Vec::new();
    let mut i: usize = 0;
    while i < v.len()
        invariant
            i <= v.len(),
            done@.map_values(|p: Vec<char>| p@).push(cur@) == split_by(v@.take(i as int), cls),
        decreases v.len() - i,
    {
        let c = v[i];
        proof {
            let t = v@.take(i + 1);
            assert(t.drop_last() == v@.take(i as int));
            assert(t.last() == c);
            lemma_split_nonempty(v@.take(i as int), cls);
        }
        if class_contains(cls, c) {
            let piece = cur;
            proof {
                assert(done@.push(piece).map_values(|p: Vec<char>| p@) == done@.map_values(
                    |p: Vec<char>| p@,
                ).push(piece@));
            }
            done.push(piece);
            cur = Vec::new();
            proof {
                assert(cur@ == Seq::<char>::empty());
            }
        } else {
            let ghost old_cur = cur@;
            cur.push(c);
            proof {
                let m = done@.map_values(|p: Vec<char>| p@);
                assert(m.push(old_cur).update(m.len() as int, old_cur.push(c)) == m.push(cur@));
            }
        }
        i = i + 1;
    }
    proof {
        assert(v@.take(v@.len() as int) == v@);
        assert(done@.push(cur).map_values(|p: Vec<char>| p@) == done@.map_values(
            |p: Vec<char>| p@,
        ).push(cur@));
    }
    done.push(cur);
    done
}

/// `str::split_whitespace`: the non-empty whitespace-separated pieces.
pub open spec fn split_ws(s: Seq<char>) -> Seq<Seq<char>> {
    split_by(s, CharClass::Whitespace).filter(|p: Seq<char>| p.len() > 0)
}

/// Pieces of `v` separated by runs of whitespace.
pub fn split_whitespace_chars(v: &[char]) -> (r: Vec<Vec<char>>)
    ensures
        r@.map_values(|p: Vec<char>| p@) == split_ws(v@),
{
    let pieces = split_chars(v, CharClass::Whitespace);
    let ghost all = pieces@.map_values(|p: Vec<char>| p@);
    let mut r: Vec<Vec<char>> = Vec::new();
    let mut i: usize = 0;
    while i < pieces.len()
        invariant
            i <= pieces.len(),
            all == pieces@.map_values(|p: Vec<char>| p@),
            r@.map_values(|p: Vec<char>| p@) == all.take(i as int).filter(
                |p: Seq<char>| p.len() > 0,
            ),
        decreases pieces.len() - i,
    {
        proof {
            let t = all.take(i + 1);
            assert(t.drop_last() == all.take(i as int));
            reveal_with_fuel(Seq::filter, 1);
        }
        if pieces[i].len() > 0 {
            let p = slice_to_vec(&pieces[i], 0, pieces[i].len());
            proof {
                assert(pieces[i as int]@.subrange(0, pieces[i as int]@.len() as int)
                    == pieces[i as int]@);
                assert(r@.push(p).map_values(|p: Vec<char>| p@) == r@.map_values(
                    |p: Vec<char>| p@,
                ).push(p@));
            }
            r.push(p);
        }
        i = i + 1;
    }
    proof {
        assert(all.take(all.len() as int) == all);
    }
    r
}

/// ASCII case folding of one character, as a code point.
pub open spec fn ascii_fold(c: char) -> u32 {
    if 'A' <= c && c <= 'Z' {
        (c as u32 + 32) as u32
    } else {
        c as u32
    }
}

/// `eq_ignore_ascii_case` on character sequences.
pub open spec fn eq_ignore_ascii_case(a: Seq<char>, b: Seq<char>) -> bool {
    a.len() == b.len() && forall|i: int| 0 <= i < a.len() ==> ascii_fold(a[i]) == ascii_fold(b[i])
}

/// Executable ASCII case folding.
pub fn fold_ascii(c: char) -> (r: u32)
    ensures
        r == ascii_fold(c),
{
    if 'A' <= c && c <= 'Z' {
        (c as u32) + 32
    } else {
        c as u32
    }
}

/// Case-insensitive (ASCII only) equality.
pub fn chars_eq_ignore_ascii_case(a: &[char], b: &[char]) -> (r: bool)
    ensures
        r == eq_ignore_ascii_case(a@, b@),
{
    if a.len() != b.len() {
        return false;
    }
    let mut i: usize = 0;
    while i < a.len()
        invariant
            a.len() == b.len(),
            i <= a.len(),
            forall|j: int| 0 <= j < i ==> ascii_fold(a@[j]) == ascii_fold(b@[j]),
        decreases a.len() - i,
    {
        if fold_ascii(a[i]) != fold_ascii(b[i]) {
            return false;
        }
        i = i + 1;
    }
    true
}

/// A line without the `\r` of a `\r\n` ending.
pub open spec fn strip_cr(p: Seq<char>) -> Seq<char> {
    if p.len() > 0 && p.last() == '\r' {
        p.drop_last()
    } else {
        p
    }
}

/// `str::lines`: pieces between `\n`s, without the empty piece after a
/// final `\n`; a `\r` is dropped only where it ends a `\r\n`.
pub open spec fn lines_of(s: Seq<char>) -> Seq<Seq<char>> {
    let parts = split_by(s, CharClass::Newline);
    let ended = parts.drop_last().map_values(|p: Seq<char>| strip_cr(p));
    if parts.last().len() == 0 {
        ended
    } else {
        ended.push(parts.last())
    }
}

/// Views of a list of strings.
pub open spec fn string_views(v: Seq<String>) -> Seq<Seq<char>> {
    v.map_values(|x: String| x@)
}

/// The lines of a text, as `str::lines` gives them.
pub fn lines(text: &str) -> (r: Vec<String>)
    ensures
        string_views(r@) == lines_of(text@),
{
    let v = chars_of(text);
    let parts = split_chars(&v, CharClass::Newline);
    let ghost pv = parts@.map_values(|p: Vec<char>| p@);
    proof {
        lemma_split_nonempty(v@, CharClass::Newline);
    }
    let mut out: Vec<String> = Vec::new();
    let last = parts.len() - 1;
    let mut i: usize = 0;
    while i < last
        invariant
            last + 1 == parts@.len(),
            i <= last,
            pv == parts@.map_values(|p: Vec<char>| p@),
            string_views(out@) == pv.take(i as int).map_values(|p: Seq<char>| strip_cr(p)),
        decreases last - i,
    {
        let p = &parts[i];
        let n = p.len();
        let piece = if n > 0 && p[n - 1] == '\r' {
            slice_to_vec(p, 0, n - 1)
        } else {
            slice_to_vec(p, 0, n)
        };
        proof {
            assert(p@.subrange(0, n as int) == p@);
            assert(p@.subrange(0, n - 1) == p@.drop_last());
            assert(piece@ == strip_cr(pv[i as int]));
        }
        let line = string_of(&piece);
        proof {
            assert(string_views(out@.push(line)) == string_views(out@).push(line@));
            assert(pv.take(i + 1).map_values(|p: Seq<char>| strip_cr(p)) == pv.take(
                i as int,
            ).map_values(|p: Seq<char>| strip_cr(p)).push(strip_cr(pv[i as int])));
        }
        out.push(line);
        i = i + 1;
    }
    proof {
        assert(pv.take(last as int) == pv.drop_last());
    }
    if parts[last].len() > 0 {
        let line = string_of(&parts[last]);
        proof {
            assert(string_views(out@.push(line)) == string_views(out@).push(line@));
        }
        out.push(line);
    }
    out
}

/// Decimal digit character of `d < 10`.
pub open spec fn digit_char(d: nat) -> char {
    if d == 0 { '0' } else if d == 1 { '1' } else if d == 2 { '2' } else if d == 3 { '3' }
    else if d == 4 { '4' } else if d == 5 { '5' } else if d == 6 { '6' } else if d == 7 { '7' }
    else if d == 8 { '8' } else { '9' }
}

/// Decimal text of a number (`to_string` of an unsigned integer).
pub open spec fn decimal(n: nat) -> Seq<char>
    decreases n,
{
    if n < 10 {
        seq![digit_char(n)]
    } else {
        decimal(n / 10).push(digit_char(n % 10))
    }
}

fn digit(d: u64) -> (c: char)
    requires
        d < 10,
    ensures
        c == digit_char(d as nat),
{
    if d == 0 { '0' } else if d == 1 { '1' } else if d == 2 { '2' } else if d == 3 { '3' }
    else if d == 4 { '4' } else if d == 5 { '5' } else if d == 6 { '6' } else if d == 7 { '7' }
    else if d == 8 { '8' } else { '9' }
}

fn decimal_chars(n: u64) -> (r: Vec<char>)
    ensures
        r@ == decimal(n as nat),
    decreases n,
{
    if n < 10 {
        vec![digit(n)]
    } else {
        let mut r = decimal_chars(n / 10);
        r.push(digit(n % 10));
        r
    }
}

/// Decimal text of `n`.
pub fn decimal_string(n: u64) -> (r: String)
    ensures
        r@ == decimal(n as nat),
{
    let v = decimal_chars(n);
    string_of(&v)
}

/// Pieces joined with `sep` between them (`join`).
pub open spec fn join_with(ls: Seq<Seq<char>>, sep: Seq<char>) -> Seq<char>
    decreases ls.len(),
{
    if ls.len() == 0 {
        Seq::empty()
    } else if ls.len() == 1 {
        ls[0]
    } else {
        join_with(ls.drop_last(), sep) + sep + ls.last()
    }
}

/// Strings joined with `sep` between them.
pub fn join_strings(parts: &[String], sep: &str) -> (r: String)
    ensures
        r@ == join_with(string_views(parts@), sep@),
{
    let mut out = String::new();
    let mut i: usize = 0;
    while i < parts.len()
        invariant
            i <= parts@.len(),
            out@ == join_with(string_views(parts@).take(i as int), sep@),
        decreases parts.len() - i,
    {
        if i > 0 {
            out.append(sep);
        }
        out.append(parts[i].as_str());
        proof {
            let t = string_views(parts@).take(i + 1);
            assert(t.drop_last() == string_views(parts@).take(i as int));
            assert(t.last() == parts@[i as int]@);
            if i == 0 {
                assert(t.len() == 1);
                assert(out@ == t[0]);
            }
        }
        i = i + 1;
    }
    proof {
        assert(string_views(parts@).take(parts@.len() as int) == string_views(parts@));
    }
    out
}

} // verus!
