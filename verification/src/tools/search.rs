//! Literal text search: the checks, the per-file matching of the
//! built-in scanner, and the reading of ripgrep's JSON report. Walking
//! the tree and running ripgrep belong to the application.
use vstd::prelude::*;

use crate::context::indexer::Listed;
use crate::errors::DarbError;
use crate::order::{is_permutation, key_view, sort_order, sorted_by_key};
use crate::json::{get_field, parse_json, JsonValue};
use crate::text::{chars_of, contains_chars, lines, owned, string_of, trim_end_chars, CharClass};

verus! {

/// Most matches one search reports.
pub const MAX_MATCHES: usize = 100;

/// Largest file, in bytes, the built-in scanner reads.
pub const MAX_SCAN_BYTES: u64 = 512 * 1024;

/// One matching line.
#[derive(Debug, Clone, PartialEq, Eq)]
pub struct SearchMatch {
    /// Project-relative path, `/`-separated.
    pub file: String,
    /// 1-based line number.
    pub line: u32,
    /// The line without trailing whitespace.
    pub text: String,
}

/// Matches of one search, and whether the match cap cut it short.
#[derive(Debug, Clone, PartialEq, Eq)]
pub struct SearchOutput {
    pub matches: Vec<SearchMatch>,
    pub truncated: bool,
}

/// A search is refused when its query is empty.
pub fn check_query(query: &str) -> (r: Result<(), DarbError>)
    ensures
        r is Ok <==> query@.len() > 0,
        r matches Err(e) ==> e is Tool && e.detail_view() == "search query must not be empty"@,
{
    if chars_of(query).len() == 0 {
        Err(DarbError::Tool(owned("search query must not be empty")))
    } else {
        Ok(())
    }
}

/// Directory names the built-in scanner never enters.
pub open spec fn skipped_dir(name: Seq<char>) -> bool {
    name == ".git"@ || name == "target"@ || name == "dist"@ || name == "build"@ || name == ".cache"@
        || name == "coverage"@ || name == "node_modules"@
}

/// Whether the built-in scanner skips a directory of that name.
pub fn is_skipped_dir(name: &str) -> (b: bool)
    ensures
        b == skipped_dir(name@),
{
    let names = [".git", "target", "dist", "build", ".cache", "coverage", "node_modules"];
    let mut i: usize = 0;
    while i < 7
        invariant
            i <= 7,
            names@ == seq![".git", "target", "dist", "build", ".cache", "coverage", "node_modules"],
            forall|j: int| 0 <= j < i ==> names@[j]@ != name@,
        decreases 7 - i,
    {
        if crate::text::str_eq(names[i], name) {
            return true;
        }
        i = i + 1;
    }
    false
}

/// The matches one file contributes: its lines containing the query, in
/// order, numbered from 1, at most `room` of them.
pub open spec fn file_matches(lines: Seq<Seq<char>>, query: Seq<char>, room: nat) -> Seq<(nat, Seq<char>)>
    decreases lines.len(),
{
    if lines.len() == 0 {
        Seq::empty()
    } else {
        let before = file_matches(lines.drop_last(), query, room);
        if before.len() < room && crate::text::contains(lines.last(), query) {
            before.push(((lines.len()) as nat, crate::text::trim_end_by(lines.last(), CharClass::Whitespace)))
        } else {
            before
        }
    }
}

/// Number of lines containing the query.
pub open spec fn match_count(lines: Seq<Seq<char>>, query: Seq<char>) -> nat
    decreases lines.len(),
{
    if lines.len() == 0 {
        0
    } else {
        match_count(lines.drop_last(), query) + if crate::text::contains(lines.last(), query) {
            1nat
        } else {
            0nat
        }
    }
}

/// Count the lines of a text that contain the query.
pub fn count_matching(content: &str, query: &str) -> (r: usize)
    ensures
        r == match_count(crate::text::lines_of(content@), query@),
{
    let ls = lines(content);
    let q = chars_of(query);
    let mut n: usize = 0;
    let mut i: usize = 0;
    while i < ls.len()
        invariant
            i <= ls@.len(),
            n <= i,
            crate::text::string_views(ls@) == crate::text::lines_of(content@),
            q@ == query@,
            n == match_count(crate::text::string_views(ls@).take(i as int), query@),
        decreases ls.len() - i,
    {
        let line = chars_of(ls[i].as_str());
        proof {
            let t = crate::text::string_views(ls@).take(i + 1);
            assert(t.drop_last() == crate::text::string_views(ls@).take(i as int));
            assert(t.last() == line@);
        }
        if contains_chars(&line, &q) {
            n = n + 1;
        }
        i = i + 1;
    }
    proof {
        assert(crate::text::string_views(ls@).take(ls@.len() as int) == crate::text::string_views(ls@));
    }
    n
}

/// Views of matches as `(line, text)` pairs.
pub open spec fn match_views(ms: Seq<SearchMatch>) -> Seq<(nat, Seq<char>)> {
    ms.map_values(|m: SearchMatch| (m.line as nat, m.text@))
}

/// Scan one file's text for the query, adding at most `room` matches
/// under the file's display path.
pub fn scan_file(file: &str, content: &str, query: &str, room: usize) -> (r: Vec<SearchMatch>)
    requires
        crate::text::lines_of(content@).len() < u32::MAX,
    ensures
        match_views(r@) == file_matches(crate::text::lines_of(content@), query@, room as nat),
        forall|i: int| 0 <= i < r@.len() ==> (#[trigger] r@[i]).file@ == file@,
{
    let ls = lines(content);
    let q = chars_of(query);
    let mut out: Vec<SearchMatch> = Vec::new();
    let mut i: usize = 0;
    while i < ls.len()
        invariant
            i <= ls@.len(),
            ls@.len() < u32::MAX,
            crate::text::string_views(ls@) == crate::text::lines_of(content@),
            q@ == query@,
            match_views(out@) == file_matches(crate::text::string_views(ls@).take(i as int), query@, room as nat),
            forall|j: int| 0 <= j < out@.len() ==> (#[trigger] out@[j]).file@ == file@,
        decreases ls.len() - i,
    {
        let line = chars_of(ls[i].as_str());
        proof {
            let t = crate::text::string_views(ls@).take(i + 1);
            assert(t.drop_last() == crate::text::string_views(ls@).take(i as int));
            assert(t.last() == line@);
            assert(t.len() == i + 1);
        }
        if out.len() < room && contains_chars(&line, &q) {
            let text = string_of(&trim_end_chars(&line, CharClass::Whitespace));
            let m = SearchMatch { file: owned(file), line: (i + 1) as u32, text };
            proof {
                assert(match_views(out@.push(m)) == match_views(out@).push(((i + 1) as nat, text@)));
            }
            out.push(m);
        }
        i = i + 1;
    }
    proof {
        assert(crate::text::string_views(ls@).take(ls@.len() as int) == crate::text::string_views(ls@));
    }
    out
}

/// Path of `path` relative to `root`, as `Path::strip_prefix` computes
/// it (component-wise) and `to_string_lossy` shows it; `None` when
/// `root` is not a prefix of it.
pub uninterp spec fn stripped_path(root: Seq<char>, path: Seq<char>) -> Option<Seq<char>>;

/// `Path::strip_prefix`, shown with `to_string_lossy`. Claimed: the
/// result depends on the two paths alone.
#[verifier::external_body]
pub(crate) fn strip_root(root: &str, path: &str) -> (r: Option<String>)
    ensures
        match r {
            Some(s) => stripped_path(root@, path@) == Some(s@),
            None => stripped_path(root@, path@) is None,
        },
{
    std::path::Path::new(path).strip_prefix(root).ok().map(|p| p.to_string_lossy().into_owned())
}

/// A path with its backslashes turned into slashes.
pub open spec fn slashed(p: Seq<char>) -> Seq<char> {
    p.map_values(|c: char| if c == '\\' { '/' } else { c })
}

/// A path as shown in results: relative to the root with `/` separators
/// (backslashes turned into slashes), or as given when outside the root.
pub open spec fn display_path(root: Seq<char>, path: Seq<char>) -> Seq<char> {
    match stripped_path(root, path) {
        Some(rel) => slashed(rel),
        None => path,
    }
}

/// A path with its backslashes turned into slashes.
pub fn forward_slashes(p: &str) -> (r: String)
    ensures
        r@ == slashed(p@),
{
    let v = chars_of(p);
    let mut out: Vec<char> = Vec::new();
    let mut i: usize = 0;
    while i < v.len()
        invariant
            i <= v@.len(),
            v@ == p@,
            out@ == slashed(v@.take(i as int)),
        decreases v.len() - i,
    {
        out.push(if v[i] == '\\' {
            '/'
        } else {
            v[i]
        });
        proof {
            assert(v@.take(i + 1) == v@.take(i as int).push(v@[i as int]));
            assert(slashed(v@.take(i + 1)) == slashed(v@.take(i as int)).push(
                if v@[i as int] == '\\' { '/' } else { v@[i as int] },
            ));
        }
        i = i + 1;
    }
    proof {
        assert(v@.take(v@.len() as int) == v@);
    }
    string_of(&out)
}

/// Display form of a reported path.
pub fn relative_display(root: &str, path: &str) -> (r: String)
    ensures
        r@ == display_path(root@, path@),
{
    match strip_root(root, path) {
        Some(rel) => forward_slashes(rel.as_str()),
        None => owned(path),
    }
}

/// Value reached from `v` through the object fields `keys`, if every
/// step is an object holding the field.
pub open spec fn at_path(v: JsonValue, keys: Seq<Seq<char>>) -> Option<JsonValue>
    decreases keys.len(),
{
    if keys.len() == 0 {
        Some(v)
    } else {
        match at_path(v, keys.drop_last()) {
            Some(JsonValue::Object(es)) => crate::json::field(es@, keys.last()),
            _ => None,
        }
    }
}

/// String at a field path, or empty (`as_str().unwrap_or("")`).
pub open spec fn str_at(v: JsonValue, keys: Seq<Seq<char>>) -> Seq<char> {
    match at_path(v, keys) {
        Some(JsonValue::Str(s)) => s@,
        _ => Seq::empty(),
    }
}

/// Value of a decimal digit string, when it fits 64 bits
/// (`Number::as_u64` on the number's text).
pub open spec fn digits_value(t: Seq<char>) -> Option<nat>
    decreases t.len(),
{
    if t.len() == 0 {
        None
    } else if !('0' <= t.last() <= '9') {
        None
    } else {
        let d = (t.last() as nat - '0' as nat) as nat;
        if t.len() == 1 {
            Some(d)
        } else {
            match digits_value(t.drop_last()) {
                Some(v) => if v * 10 + d <= u64::MAX { Some(v * 10 + d) } else { None },
                None => None,
            }
        }
    }
}

/// Unsigned integer at a field path, or zero.
pub open spec fn u64_at(v: JsonValue, keys: Seq<Seq<char>>) -> nat {
    match at_path(v, keys) {
        Some(JsonValue::Number(t)) => match digits_value(t@) {
            Some(n) => n,
            None => 0,
        },
        _ => 0,
    }
}

/// The match a report line describes: a JSON event whose `type` is
/// `match`, giving the path, line number and line text.
pub open spec fn rg_event(line: Seq<char>) -> Option<(Seq<char>, nat, Seq<char>)> {
    match crate::json::json_document(line) {
        Some(v) => rg_event_value(v),
        None => None,
    }
}

/// The match a decoded report event describes: an object whose `type` is
/// `match`, giving the path, line number and line text (empty or zero
/// where missing).
pub open spec fn rg_event_value(v: JsonValue) -> Option<(Seq<char>, nat, Seq<char>)> {
    if at_path(v, seq!["type"@]) matches Some(JsonValue::Str(t)) && t@ == "match"@ {
        Some((
            str_at(v, seq!["data"@, "path"@, "text"@]),
            u64_at(v, seq!["data"@, "line_number"@]),
            str_at(v, seq!["data"@, "lines"@, "text"@]),
        ))
    } else {
        None
    }
}

/// Matches read from the report lines, in order, up to [`MAX_MATCHES`]:
/// display path, line number cut to 32 bits, text without trailing
/// whitespace.
pub open spec fn rg_matches(root: Seq<char>, lines: Seq<Seq<char>>) -> Seq<(Seq<char>, nat, Seq<char>)>
    decreases lines.len(),
{
    if lines.len() == 0 {
        Seq::empty()
    } else {
        let before = rg_matches(root, lines.drop_last());
        if before.len() >= MAX_MATCHES {
            before
        } else {
            match rg_event(lines.last()) {
                Some((p, n, t)) => before.push((
                    display_path(root, p),
                    (n as u32) as nat,
                    crate::text::trim_end_by(t, CharClass::Whitespace),
                )),
                None => before,
            }
        }
    }
}

/// Views of matches as `(file, line, text)`.
pub open spec fn full_views(ms: Seq<SearchMatch>) -> Seq<(Seq<char>, nat, Seq<char>)> {
    ms.map_values(|m: SearchMatch| (m.file@, m.line as nat, m.text@))
}

/// Value of a decimal digit string that fits 64 bits.
pub fn digits_u64(t: &str) -> (r: Option<u64>)
    ensures
        match digits_value(t@) {
            Some(v) => r == Some(v as u64),
            None => r is None,
        },
{
    let v = chars_of(t);
    if v.len() == 0 {
        return None;
    }
    let mut acc: u64 = 0;
    let mut i: usize = 0;
    while i < v.len()
        invariant
            0 < v@.len(),
            v@ == t@,
            i <= v@.len(),
            i > 0 ==> digits_value(v@.take(i as int)) == Some(acc as nat),
            i == 0 ==> acc == 0,
        decreases v.len() - i,
    {
        let c = v[i];
        proof {
            let t = v@.take(i + 1);
            assert(t.drop_last() == v@.take(i as int));
            assert(t.last() == c);
        }
        if !('0' <= c && c <= '9') {
            proof {
                assert(digits_value(v@.take(i + 1)) is None);
                lemma_digits_none_extends(v@, i as int + 1);
            }
            return None;
        }
        let d = (c as u32 - '0' as u32) as u64;
        if i > 0 {
            if acc > (u64::MAX - d) / 10 {
                proof {
                    assert(acc * 10 + d > u64::MAX) by (nonlinear_arith)
                        requires
                            acc > (u64::MAX - d) / 10,
                            d <= 9,
                    ;
                    assert(digits_value(v@.take(i + 1)) is None);
                    lemma_digits_none_extends(v@, i as int + 1);
                }
                return None;
            }
            proof {
                assert(acc * 10 + d <= u64::MAX) by (nonlinear_arith)
                    requires
                        acc <= (u64::MAX - d) / 10,
                        d <= 9,
                ;
            }
            acc = acc * 10 + d;
        } else {
            acc = d;
        }
        i = i + 1;
    }
    proof {
        assert(v@.take(v@.len() as int) == v@);
    }
    Some(acc)
}

proof fn lemma_digits_none_extends(t: Seq<char>, n: int)
    requires
        1 <= n <= t.len(),
        digits_value(t.take(n)) is None,
    ensures
        digits_value(t) is None,
    decreases t.len() - n,
{
    if n < t.len() {
        assert(t.take(n + 1).drop_last() == t.take(n));
        lemma_digits_none_extends(t, n + 1);
    } else {
        assert(t.take(n) == t);
    }
}

fn object_field<'a>(v: &'a JsonValue, key: &str) -> (r: Option<&'a JsonValue>)
    ensures
        match v {
            JsonValue::Object(es) => match r {
                Some(x) => crate::json::field(es@, key@) == Some(*x),
                None => crate::json::field(es@, key@) is None,
            },
            _ => r is None,
        },
{
    match v {
        JsonValue::Object(es) => get_field(es, key),
        _ => None,
    }
}

fn path3<'a>(v: &'a JsonValue, a: &str, b: &str, c: &str) -> (r: Option<&'a JsonValue>)
    ensures
        match r {
            Some(x) => at_path(*v, seq![a@, b@, c@]) == Some(*x),
            None => at_path(*v, seq![a@, b@, c@]) is None,
        },
{
    proof {
        reveal_with_fuel(at_path, 4);
        assert(seq![a@, b@, c@].drop_last() == seq![a@, b@]);
        assert(seq![a@, b@].drop_last() == seq![a@]);
        assert(seq![a@].drop_last() == Seq::<Seq<char>>::empty());
    }
    match object_field(v, a) {
        Some(x) => match object_field(x, b) {
            Some(y) => object_field(y, c),
            None => None,
        },
        None => None,
    }
}

fn path2<'a>(v: &'a JsonValue, a: &str, b: &str) -> (r: Option<&'a JsonValue>)
    ensures
        match r {
            Some(x) => at_path(*v, seq![a@, b@]) == Some(*x),
            None => at_path(*v, seq![a@, b@]) is None,
        },
{
    proof {
        reveal_with_fuel(at_path, 3);
        assert(seq![a@, b@].drop_last() == seq![a@]);
        assert(seq![a@].drop_last() == Seq::<Seq<char>>::empty());
    }
    match object_field(v, a) {
        Some(x) => object_field(x, b),
        None => None,
    }
}

fn event_of(line: &str) -> (r: Option<(String, u64, String)>)
    ensures
        match rg_event(line@) {
            Some((p, n, t)) => r matches Some((rp, rn, rt)) && rp@ == p && rn == n && rt@ == t,
            None => r is None,
        },
{
    match parse_json(line) {
        Some(v) => rg_event_in(&v),
        None => None,
    }
}

/// The match a decoded ripgrep event describes, if it is a `match` event:
/// path, line number and line text.
pub fn rg_event_in(v: &JsonValue) -> (r: Option<(String, u64, String)>)
    ensures
        match rg_event_value(*v) {
            Some((p, n, t)) => r matches Some((rp, rn, rt)) && rp@ == p && rn == n && rt@ == t,
            None => r is None,
        },
{
    proof {
        reveal_with_fuel(at_path, 2);
        assert(seq!["type"@].drop_last() == Seq::<Seq<char>>::empty());
    }
    let is_match = match object_field(v, "type") {
        Some(JsonValue::Str(t)) => crate::text::str_eq(t.as_str(), "match"),
        _ => false,
    };
    if !is_match {
        return None;
    }
    let path = match path3(v, "data", "path", "text") {
        Some(JsonValue::Str(s)) => s.clone(),
        _ => String::new(),
    };
    let number: u64 = match path2(v, "data", "line_number") {
        Some(JsonValue::Number(t)) => match digits_u64(t.as_str()) {
            Some(n) => n,
            None => 0,
        },
        _ => 0,
    };
    let text = match path3(v, "data", "lines", "text") {
        Some(JsonValue::Str(s)) => s.clone(),
        _ => String::new(),
    };
    Some((path, number, text))
}

/// Number of report lines that describe a match.
pub open spec fn rg_event_count(lines: Seq<Seq<char>>) -> nat
    decreases lines.len(),
{
    if lines.len() == 0 {
        0
    } else {
        rg_event_count(lines.drop_last()) + if rg_event(lines.last()) is Some {
            1nat
        } else {
            0nat
        }
    }
}

/// Read ripgrep's JSON report (one event per line): the `match` events,
/// in order, at most [`MAX_MATCHES`] of them; marked truncated exactly
/// when the report holds more match events than that.
pub fn parse_rg_json(root: &str, stdout: &[u8]) -> (r: SearchOutput)
    ensures
        full_views(r.matches@) == rg_matches(
            root@,
            crate::text::lines_of(crate::tools::shell::lossy_text(stdout@)),
        ),
        r.truncated == (rg_event_count(crate::text::lines_of(crate::tools::shell::lossy_text(stdout@)))
            > MAX_MATCHES),
{
    let text = crate::tools::shell::from_utf8_lossy(stdout);
    let ls = lines(text.as_str());
    let ghost all = crate::text::string_views(ls@);
    let mut matches: Vec<SearchMatch> = Vec::new();
    let mut i: usize = 0;
    while i < ls.len() && matches.len() < MAX_MATCHES
        invariant
            i <= ls@.len(),
            all == crate::text::string_views(ls@),
            all == crate::text::lines_of(text@),
            full_views(matches@) == rg_matches(root@, all.take(i as int)),
            rg_event_count(all.take(i as int)) == matches@.len(),
            matches@.len() <= MAX_MATCHES,
        decreases ls.len() - i,
    {
        proof {
            let t = all.take(i + 1);
            assert(t.drop_last() == all.take(i as int));
            assert(t.last() == ls@[i as int]@);
        }
        match event_of(ls[i].as_str()) {
            Some((path, number, content)) => {
                let file = relative_display(root, path.as_str());
                let tv = chars_of(content.as_str());
                let text = string_of(&trim_end_chars(&tv, CharClass::Whitespace));
                let line = (#[verifier::truncate] (number as u32));
                let m = SearchMatch { file, line, text };
                proof {
                    assert(full_views(matches@.push(m)) == full_views(matches@).push((m.file@, m.line as nat, m.text@)));
                }
                matches.push(m);
            },
            None => {},
        }
        i = i + 1;
    }
    proof {
        lemma_rg_capped(root@, all, i as int);
        assert(all.take(ls@.len() as int) == all);
    }
    let mut truncated = false;
    if matches.len() >= MAX_MATCHES {
        let mut j: usize = i;
        while j < ls.len()
            invariant_except_break
                !truncated,
            invariant
                i <= j <= ls@.len(),
                all == crate::text::string_views(ls@),
                rg_event_count(all.take(j as int)) == MAX_MATCHES,
            ensures
                truncated ==> rg_event_count(all) > MAX_MATCHES,
                !truncated ==> j == ls@.len(),
            decreases ls.len() - j,
        {
            proof {
                let t = all.take(j + 1);
                assert(t.drop_last() == all.take(j as int));
                assert(t.last() == ls@[j as int]@);
            }
            if event_of(ls[j].as_str()).is_some() {
                proof {
                    lemma_rg_count_grows(all, j as int + 1);
                }
                truncated = true;
                break;
            }
            j = j + 1;
        }
        proof {
            if !truncated {
                assert(all.take(ls@.len() as int) == all);
            }
        }
    } else {
        proof {
            assert(all.take(i as int) == all);
        }
    }
    SearchOutput { matches, truncated }
}

/// Counting match events over a longer prefix never gives less.
proof fn lemma_rg_count_grows(lines: Seq<Seq<char>>, n: int)
    requires
        0 <= n <= lines.len(),
    ensures
        rg_event_count(lines) >= rg_event_count(lines.take(n)),
    decreases lines.len() - n,
{
    if n < lines.len() {
        assert(lines.take(n + 1).drop_last() == lines.take(n));
        lemma_rg_count_grows(lines, n + 1);
    } else {
        assert(lines.take(n) == lines);
    }
}

proof fn lemma_rg_capped(root: Seq<char>, lines: Seq<Seq<char>>, n: int)
    requires
        0 <= n <= lines.len(),
        rg_matches(root, lines.take(n)).len() >= MAX_MATCHES || n == lines.len(),
    ensures
        rg_matches(root, lines) == rg_matches(root, lines.take(n)),
    decreases lines.len() - n,
{
    if n < lines.len() {
        assert(lines.take(n + 1).drop_last() == lines.take(n));
        lemma_rg_capped(root, lines, n + 1);
    } else {
        assert(lines.take(n) == lines);
    }
}

/// Directories a listing queues: those not skipped, in order.
pub open spec fn queued_dirs(es: Seq<Listed>) -> Seq<Seq<char>>
    decreases es.len(),
{
    if es.len() == 0 {
        Seq::empty()
    } else if es.last().is_dir && !skipped_dir(es.last().name@) {
        queued_dirs(es.drop_last()).push(es.last().path@)
    } else {
        queued_dirs(es.drop_last())
    }
}

/// Files a listing offers for reading: those with a name, in order.
pub open spec fn offered_files(es: Seq<Listed>) -> Seq<Seq<char>>
    decreases es.len(),
{
    if es.len() == 0 {
        Seq::empty()
    } else if !es.last().is_dir && es.last().name@.len() > 0 {
        offered_files(es.drop_last()).push(es.last().path@)
    } else {
        offered_files(es.drop_last())
    }
}

/// Keys ordering entries by name.
pub open spec fn entry_keys(es: Seq<Listed>) -> Seq<(u64, Seq<char>)> {
    es.map_values(|e: Listed| (0u64, e.name@))
}

/// Whether the built-in scanner reads a file of that size.
pub fn scannable(bytes: u64) -> (b: bool)
    ensures
        b == (bytes <= MAX_SCAN_BYTES),
{
    bytes <= MAX_SCAN_BYTES
}

/// A built-in search in progress: directories left to list, matches so
/// far, whether the match cap cut it short, whether the walk is over.
pub struct TextSearch {
    pub root: String,
    pub query: String,
    pub stack: Vec<String>,
    pub matches: Vec<SearchMatch>,
    pub truncated: bool,
    pub finished: bool,
}

impl TextSearch {
    /// A search of the tree under `root`, starting at the root.
    pub fn new(root: &str, query: &str) -> (s: Self)
        ensures
            s.root@ == root@,
            s.query@ == query@,
            crate::text::string_views(s.stack@) == seq![root@],
            s.matches@.len() == 0,
            !s.truncated && !s.finished,
    {
        let s = TextSearch {
            root: owned(root),
            query: owned(query),
            stack: vec![owned(root)],
            matches: Vec::new(),
            truncated: false,
            finished: false,
        };
        proof {
            assert(crate::text::string_views(s.stack@) =~= seq![root@]);
        }
        s
    }

    /// The next directory to list; none once the walk is over or cut
    /// short.
    pub fn next_dir(&mut self) -> (r: Option<String>)
        ensures
            final(self).root == old(self).root && final(self).query == old(self).query,
            final(self).matches == old(self).matches && final(self).truncated == old(self).truncated,
            old(self).finished || old(self).truncated ==> r is None && final(self).stack == old(self).stack
                && final(self).finished == old(self).finished,
            !(old(self).finished || old(self).truncated) && old(self).stack@.len() == 0 ==> r is None
                && final(self).finished && final(self).stack == old(self).stack,
            !(old(self).finished || old(self).truncated) && old(self).stack@.len() > 0 ==> r == Some(
                old(self).stack@.last(),
            ) && final(self).stack@ == old(self).stack@.drop_last() && !final(self).finished,
    {
        if self.finished || self.truncated {
            return None;
        }
        if self.stack.len() == 0 {
            self.finished = true;
            return None;
        }
        self.stack.pop()
    }

    /// Take a listed directory in name order: queue its directories that
    /// are not skipped, and give back, in order, the files to read.
    pub fn visit(&mut self, entries: &Vec<Listed>) -> (files: Vec<String>)
        ensures
            final(self).root == old(self).root && final(self).query == old(self).query,
            final(self).matches == old(self).matches && final(self).truncated == old(self).truncated,
            final(self).finished == old(self).finished,
            exists|order: Seq<usize>| {
                let sorted = order.map_values(|k: usize| entries@[k as int]);
                &&& #[trigger] is_permutation(order, entries@.len())
                &&& sorted_by_key(entry_keys(entries@), order)
                &&& crate::text::string_views(final(self).stack@) == crate::text::string_views(
                    old(self).stack@,
                ) + queued_dirs(sorted)
                &&& crate::text::string_views(files@) == offered_files(sorted)
            },
    {
        let mut keys: Vec<(u64, Vec<char>)> = Vec::new();
        let mut k: usize = 0;
        while k < entries.len()
            invariant
                k <= entries@.len(),
                keys@.map_values(|x: (u64, Vec<char>)| key_view(x)) == entry_keys(entries@).take(k as int),
            decreases entries.len() - k,
        {
            let key = (0u64, chars_of(entries[k].name.as_str()));
            proof {
                assert(keys@.push(key).map_values(|x: (u64, Vec<char>)| key_view(x)) == keys@.map_values(
                    |x: (u64, Vec<char>)| key_view(x),
                ).push(key_view(key)));
                assert(entry_keys(entries@).take(k + 1) == entry_keys(entries@).take(k as int).push(
                    entry_keys(entries@)[k as int],
                ));
            }
            keys.push(key);
            k = k + 1;
        }
        proof {
            assert(entry_keys(entries@).take(entries@.len() as int) == entry_keys(entries@));
        }
        let order = sort_order(&keys);
        let ghost sorted = order@.map_values(|j: usize| entries@[j as int]);
        let ghost stack0 = crate::text::string_views(self.stack@);
        let mut files: Vec<String> = Vec::new();
        let mut i: usize = 0;
        while i < order.len()
            invariant
                i <= order@.len(),
                is_permutation(order@, entries@.len()),
                sorted == order@.map_values(|j: usize| entries@[j as int]),
                self.root == old(self).root && self.query == old(self).query,
                self.matches == old(self).matches && self.truncated == old(self).truncated,
                self.finished == old(self).finished,
                crate::text::string_views(self.stack@) == stack0 + queued_dirs(sorted.take(i as int)),
                crate::text::string_views(files@) == offered_files(sorted.take(i as int)),
            decreases order.len() - i,
        {
            let e = &entries[order[i]];
            proof {
                let t = sorted.take(i + 1);
                assert(t.drop_last() == sorted.take(i as int));
                assert(t.last() == *e);
            }
            if e.is_dir {
                if !is_skipped_dir(e.name.as_str()) {
                    let ghost before = self.stack@;
                    self.stack.push(e.path.clone());
                    proof {
                        assert(crate::text::string_views(self.stack@) =~= crate::text::string_views(before).push(
                            e.path@,
                        ));
                    }
                }
            } else if chars_of(e.name.as_str()).len() > 0 {
                let ghost before = files@;
                files.push(e.path.clone());
                proof {
                    assert(crate::text::string_views(files@) =~= crate::text::string_views(before).push(e.path@));
                }
            }
            i = i + 1;
        }
        proof {
            assert(sorted.take(sorted.len() as int) == sorted);
        }
        files
    }

    /// Scan the text of a file read at `path`: its matching lines join
    /// the results, under its display path, up to the match cap; a
    /// matching line beyond the cap marks the search truncated and cuts it
    /// short. A cut search takes nothing more.
    pub fn file_text(&mut self, path: &str, content: &str)
        requires
            old(self).matches@.len() <= MAX_MATCHES,
        ensures
            final(self).root == old(self).root && final(self).query == old(self).query,
            final(self).stack == old(self).stack && final(self).finished == old(self).finished,
            final(self).matches@.len() <= MAX_MATCHES,
            old(self).truncated || crate::text::lines_of(content@).len() >= u32::MAX ==> final(self).matches
                == old(self).matches && final(self).truncated == old(self).truncated,
            !old(self).truncated && crate::text::lines_of(content@).len() < u32::MAX ==> {
                let found = file_matches(
                    crate::text::lines_of(content@),
                    old(self).query@,
                    (MAX_MATCHES - old(self).matches@.len()) as nat,
                );
                &&& final(self).matches@.take(old(self).matches@.len() as int) == old(self).matches@
                &&& match_views(final(self).matches@.skip(old(self).matches@.len() as int)) == found
                &&& forall|i: int|
                    old(self).matches@.len() <= i < final(self).matches@.len() ==> (#[trigger] final(self).matches@[i]).file@
                        == display_path(old(self).root@, path@)
                &&& final(self).truncated == (match_count(crate::text::lines_of(content@), old(self).query@)
                    > MAX_MATCHES - old(self).matches@.len())
            },
    {
        if self.truncated {
            return;
        }
        let count = lines(content).len();
        if count >= u32::MAX as usize {
            return;
        }
        let shown = relative_display(self.root.as_str(), path);
        let room = MAX_MATCHES - self.matches.len();
        let mut found = scan_file(shown.as_str(), content, self.query.as_str(), room);
        proof {
            lemma_file_matches_len(crate::text::lines_of(content@), self.query@, room as nat);
        }
        let ghost start = self.matches@;
        let ghost added = found@;
        self.matches.append(&mut found);
        proof {
            assert(self.matches@.take(start.len() as int) =~= start);
            assert(self.matches@.skip(start.len() as int) =~= added);
        }
        if count_matching(content, self.query.as_str()) > room {
            self.truncated = true;
        }
    }

    /// The search's result.
    pub fn finish(self) -> (out: SearchOutput)
        ensures
            out.matches == self.matches,
            out.truncated == self.truncated,
    {
        SearchOutput { matches: self.matches, truncated: self.truncated }
    }
}

proof fn lemma_file_matches_len(ls: Seq<Seq<char>>, q: Seq<char>, room: nat)
    ensures
        file_matches(ls, q, room).len() <= room,
    decreases ls.len(),
{
    if ls.len() > 0 {
        lemma_file_matches_len(ls.drop_last(), q, room);
    }
}

/// Law: the built-in search never enters `.git`, `target`, `dist`,
/// `build`, `.cache`, `coverage` or `node_modules`: a listed directory of
/// one of these names adds nothing to the directories left to search,
/// while any other listed directory is queued after those before it.
pub proof fn law_search_skips_build_and_vendor_dirs(es: Seq<Listed>, e: Listed)
    requires
        e.is_dir,
    ensures
        ({
            let n = e.name@;
            let named = n == ".git"@ || n == "target"@ || n == "dist"@ || n == "build"@ || n == ".cache"@
                || n == "coverage"@ || n == "node_modules"@;
            &&& named ==> queued_dirs(es.push(e)) == queued_dirs(es)
            &&& !named ==> queued_dirs(es.push(e)) == queued_dirs(es).push(e.path@)
        }),
{
    assert(es.push(e).drop_last() == es);
}

} // verus!
