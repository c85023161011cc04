//! Tool calling: model text → structured tool calls.
//!
//! The model emits fenced json blocks — `{"tool": "...", "target": "...",
//! "arguments": {...}}`. Only `tool` is required; `target` defaults to
//! `""` and `arguments` to empty. Malformed blocks are skipped.
use vstd::prelude::*;

use crate::json::{get_field, parse_json, JsonValue};
use crate::permissions::ToolRequest;
use crate::text::{chars_of, find_from, slice_to_vec, string_of, trim_chars, CharClass};
use crate::textmap::TextMap;

verus! {

/// A parsed tool call, ready to become a [`ToolRequest`].
#[derive(Debug, Clone)]
pub struct ToolCallSpec {
    pub tool: String,
    pub target: String,
    pub arguments: TextMap,
}

/// A call as plain values: tool, target, arguments.
pub type CallView = (Seq<char>, Seq<char>, Map<Seq<char>, Seq<char>>);

impl ToolCallSpec {
    /// The call as plain values.
    pub open spec fn call_view(&self) -> CallView {
        (self.tool@, self.target@, self.arguments@)
    }

    /// The request this call stands for.
    pub fn into_request(self) -> (r: ToolRequest)
        ensures
            r.tool@ == self.tool@,
            r.target@ == self.target@,
            r.arguments@ == self.arguments@,
    {
        ToolRequest { tool: self.tool, target: self.target, arguments: self.arguments }
    }
}

/// String-valued entries of an arguments object, later keys winning.
pub open spec fn string_args(entries: Seq<(String, JsonValue)>) -> Map<Seq<char>, Seq<char>>
    decreases entries.len(),
{
    if entries.len() == 0 {
        Map::empty()
    } else {
        let prev = string_args(entries.drop_last());
        match entries.last().1 {
            JsonValue::Str(t) => prev.insert(entries.last().0@, t@),
            _ => prev,
        }
    }
}

/// The call a decoded block describes: an object whose `tool` is a
/// string that is not blank.
pub open spec fn call_of_json(v: JsonValue) -> Option<CallView> {
    match v {
        JsonValue::Object(entries) => match crate::json::field(entries@, "tool"@) {
            Some(JsonValue::Str(t)) => if crate::text::trim(t@).len() == 0 {
                None
            } else {
                let target = match crate::json::field(entries@, "target"@) {
                    Some(JsonValue::Str(x)) => x@,
                    _ => Seq::empty(),
                };
                let args = match crate::json::field(entries@, "arguments"@) {
                    Some(JsonValue::Object(m)) => string_args(m@),
                    _ => Map::empty(),
                };
                Some((t@, target, args))
            },
            _ => None,
        },
        _ => None,
    }
}

/// The call a block's text describes, if it decodes.
pub open spec fn call_of_block(block: Seq<char>) -> Option<CallView> {
    match crate::json::json_document(block) {
        Some(v) => call_of_json(v),
        None => None,
    }
}

/// Calls of the fenced blocks of `s` starting at `pos`: after an opening
/// fence and the rest of its line, up to the closing fence; the block
/// text is trimmed.
pub open spec fn calls_from(s: Seq<char>, pos: int) -> Seq<CallView>
    decreases s.len() + 1 - pos,
{
    if pos < 0 || pos > s.len() {
        Seq::empty()
    } else {
        match crate::text::first_at_or_after(s, "```"@, pos) {
            None => Seq::empty(),
            Some(a) => match crate::text::first_at_or_after(s, seq!['\n'], a + 3) {
                None => Seq::empty(),
                Some(nl) => match crate::text::first_at_or_after(s, "```"@, nl + 1) {
                    None => Seq::empty(),
                    Some(e) => {
                        proof {
                            reveal_strlit("```");
                            crate::text::lemma_first_at_or_after(s, "```"@, pos);
                            crate::text::lemma_first_at_or_after(s, seq!['\n'], a + 3);
                            crate::text::lemma_first_at_or_after(s, "```"@, nl + 1);
                        }
                        let rest = calls_from(s, e + 3);
                        match call_of_block(crate::text::trim(s.subrange(nl + 1, e))) {
                            Some(c) => seq![c] + rest,
                            None => rest,
                        }
                    },
                },
            },
        }
    }
}

/// Arguments of an arguments object: its string-valued entries.
fn string_arguments(entries: &Vec<(String, JsonValue)>) -> (m: TextMap)
    ensures
        m@ == string_args(entries@),
{
    let mut m = TextMap::new();
    let mut i: usize = 0;
    while i < entries.len()
        invariant
            i <= entries@.len(),
            m@ == string_args(entries@.take(i as int)),
        decreases entries.len() - i,
    {
        proof {
            assert(entries@.take(i + 1).drop_last() == entries@.take(i as int));
        }
        match &entries[i].1 {
            JsonValue::Str(t) => {
                m.insert(entries[i].0.clone(), t.clone());
            },
            _ => {},
        }
        i = i + 1;
    }
    proof {
        assert(entries@.take(entries@.len() as int) == entries@);
    }
    m
}

/// The call a decoded block describes, if any.
pub fn call_from_json(v: &JsonValue) -> (r: Option<ToolCallSpec>)
    ensures
        match r {
            Some(c) => call_of_json(*v) == Some(c.call_view()),
            None => call_of_json(*v) is None,
        },
{
    let entries = match v {
        JsonValue::Object(entries) => entries,
        _ => {
            return None;
        },
    };
    let tool = match get_field(entries, "tool") {
        Some(JsonValue::Str(t)) => t,
        _ => {
            return None;
        },
    };
    let tool_v = chars_of(tool.as_str());
    let trimmed = trim_chars(&tool_v, CharClass::Whitespace);
    if trimmed.len() == 0 {
        return None;
    }
    let target = match get_field(entries, "target") {
        Some(JsonValue::Str(x)) => x.clone(),
        _ => String::new(),
    };
    let arguments = match get_field(entries, "arguments") {
        Some(JsonValue::Object(m)) => string_arguments(m),
        _ => TextMap::new(),
    };
    Some(ToolCallSpec { tool: tool.clone(), target, arguments })
}

/// Decode one block into a call; malformed blocks yield `None`.
pub fn parse_call_block(block: &str) -> (r: Option<ToolCallSpec>)
    ensures
        match r {
            Some(c) => call_of_block(block@) == Some(c.call_view()),
            None => call_of_block(block@) is None,
        },
{
    match parse_json(block) {
        Some(v) => call_from_json(&v),
        None => None,
    }
}

/// Tool calls in model text, in order of appearance.
pub fn extract_tool_calls(text: &str) -> (calls: Vec<ToolCallSpec>)
    ensures
        calls@.map_values(|c: ToolCallSpec| c.call_view()) == calls_from(text@, 0),
{
    let s = chars_of(text);
    let fence = chars_of("```");
    let newline = chars_of("\n");
    proof {
        reveal_strlit("\n");
        assert(newline@ =~= seq!['\n']);
    }
    let mut calls: Vec<ToolCallSpec> = Vec::new();
    let mut pos: usize = 0;
    loop
        invariant
            pos <= s@.len(),
            s@ == text@,
            fence@ == "```"@,
            newline@ == seq!['\n'],
            calls@.map_values(|c: ToolCallSpec| c.call_view()) + calls_from(s@, pos as int)
                == calls_from(s@, 0),
        decreases s@.len() + 1 - pos,
    {
        let a = match find_from(&s, &fence, pos) {
            Some(a) => a,
            None => {
                proof {
                    assert(calls@.map_values(|c: ToolCallSpec| c.call_view()) + Seq::empty()
                        == calls@.map_values(|c: ToolCallSpec| c.call_view()));
                }
                return calls;
            },
        };
        proof {
            crate::text::lemma_first_at_or_after(s@, fence@, pos as int);
            reveal_strlit("```");
            assert(fence@.len() == 3);
            assert(a + 3 <= s@.len());
            assert(a + 3 <= s.len());
        }
        let nl = match find_from(&s, &newline, a + 3) {
            Some(nl) => nl,
            None => {
                proof {
                    assert(calls@.map_values(|c: ToolCallSpec| c.call_view()) + Seq::empty()
                        == calls@.map_values(|c: ToolCallSpec| c.call_view()));
                }
                return calls;
            },
        };
        proof {
            crate::text::lemma_first_at_or_after(s@, newline@, a + 3);
            assert(nl + 1 <= s@.len());
            assert(nl + 1 <= s.len());
        }
        let e = match find_from(&s, &fence, nl + 1) {
            Some(e) => e,
            None => {
                proof {
                    assert(calls@.map_values(|c: ToolCallSpec| c.call_view()) + Seq::empty()
                        == calls@.map_values(|c: ToolCallSpec| c.call_view()));
                }
                return calls;
            },
        };
        proof {
            crate::text::lemma_first_at_or_after(s@, fence@, nl + 1);
            assert(e + 3 <= s@.len());
        }
        let raw = slice_to_vec(&s, nl + 1, e);
        let block_v = trim_chars(&raw, CharClass::Whitespace);
        let block = string_of(&block_v);
        let ghost before = calls@.map_values(|c: ToolCallSpec| c.call_view());
        let ghost rest = calls_from(s@, e + 3);
        match parse_call_block(block.as_str()) {
            Some(c) => {
                proof {
                    assert(calls@.push(c).map_values(|c: ToolCallSpec| c.call_view()) == before.push(
                        c.call_view(),
                    ));
                    assert(before.push(c.call_view()) + rest == before + (seq![c.call_view()]
                        + rest));
                }
                calls.push(c);
            },
            None => {},
        }
        pos = e + 3;
    }
}

/// Law: every string-valued argument reaches the call unchanged, the
/// empty string included, and nothing else does. When an arguments object
/// holds key `k` once, with a JSON string as its value, the arguments map
/// `k` to exactly that string; a key the map holds comes from an entry of
/// the object whose value is that string.
pub proof fn law_string_arguments_are_kept_verbatim(es: Seq<(String, JsonValue)>, i: int)
    requires
        0 <= i < es.len(),
        es[i].1 is Str,
        forall|j: int| 0 <= j < es.len() && j != i ==> (#[trigger] es[j]).0@ != es[i].0@,
    ensures
        string_args(es).contains_key(es[i].0@),
        string_args(es)[es[i].0@] == es[i].1->Str_0@,
    decreases es.len(),
{
    if i < es.len() - 1 {
        let d = es.drop_last();
        assert forall|j: int| 0 <= j < d.len() && j != i implies (#[trigger] d[j]).0@ != d[i].0@ by {
            assert(d[j] == es[j]);
        }
        law_string_arguments_are_kept_verbatim(d, i);
        assert(es[es.len() - 1].0@ != es[i].0@);
    }
}

/// Law: the arguments hold only string values of the object: a key the
/// arguments map comes from some entry of the object with that key whose
/// value is exactly the mapped string.
pub proof fn law_arguments_come_from_string_entries(es: Seq<(String, JsonValue)>, k: Seq<char>)
    requires
        string_args(es).contains_key(k),
    ensures
        exists|i: int|
            0 <= i < es.len() && (#[trigger] es[i]).0@ == k && es[i].1 is Str && es[i].1->Str_0@
                == string_args(es)[k],
    decreases es.len(),
{
    let n = es.len() - 1;
    let d = es.drop_last();
    match es[n].1 {
        JsonValue::Str(t) => {
            if es[n].0@ == k {
                assert(es[n].0@ == k && es[n].1 is Str);
            } else {
                law_arguments_come_from_string_entries(d, k);
                let i = choose|i: int|
                    0 <= i < d.len() && (#[trigger] d[i]).0@ == k && d[i].1 is Str && d[i].1->Str_0@
                        == string_args(d)[k];
                assert(es[i] == d[i]);
            }
        },
        _ => {
            law_arguments_come_from_string_entries(d, k);
            let i = choose|i: int|
                0 <= i < d.len() && (#[trigger] d[i]).0@ == k && d[i].1 is Str && d[i].1->Str_0@
                    == string_args(d)[k];
            assert(es[i] == d[i]);
        },
    }
}

} // verus!
