//! Command palette: a filtered list of actions, matched on their
//! translated labels.
use vstd::prelude::*;

use crate::i18n::I18n;
use crate::text::{chars_of, contains_chars, lowercase_chars, string_of, trim_chars, CharClass};
use crate::tui::app::Tab;
use crate::tui::layout::{centered_rect, centered_spec, Rect};

verus! {

/// What the user asked for; the application performs it.
#[derive(Debug, Clone, Copy, PartialEq, Eq, Structural)]
pub enum Command {
    ToggleExplorer,
    RefreshFiles,
    RefreshGit,
    ShowDiff,
    NewChat,
    ToggleLanguage,
    OpenTab(Tab),
    Quit,
}

/// The catalog, in palette order: each command with its label key.
pub open spec fn catalog() -> Seq<(Command, Seq<char>)> {
    seq![
        (Command::OpenTab(Tab::Chat), "cmd.open_chat"@),
        (Command::OpenTab(Tab::Files), "cmd.open_files"@),
        (Command::OpenTab(Tab::Changes), "cmd.open_changes"@),
        (Command::OpenTab(Tab::Git), "cmd.open_git"@),
        (Command::OpenTab(Tab::Terminal), "cmd.open_terminal"@),
        (Command::OpenTab(Tab::Tasks), "cmd.open_tasks"@),
        (Command::RefreshFiles, "cmd.refresh_files"@),
        (Command::RefreshGit, "cmd.git_status"@),
        (Command::ShowDiff, "cmd.show_diff"@),
        (Command::NewChat, "cmd.new_chat"@),
        (Command::ToggleExplorer, "cmd.toggle_explorer"@),
        (Command::ToggleLanguage, "cmd.toggle_language"@),
        (Command::Quit, "cmd.quit"@),
    ]
}

/// Views of catalog entries.
pub open spec fn entry_views(v: Seq<(Command, &str)>) -> Seq<(Command, Seq<char>)> {
    v.map_values(|e: (Command, &str)| (e.0, e.1@))
}

/// The command catalog, in palette order.
pub fn commands() -> (r: Vec<(Command, &'static str)>)
    ensures
        entry_views(r@) == catalog(),
{
    let r = vec![
        (Command::OpenTab(Tab::Chat), "cmd.open_chat"),
        (Command::OpenTab(Tab::Files), "cmd.open_files"),
        (Command::OpenTab(Tab::Changes), "cmd.open_changes"),
        (Command::OpenTab(Tab::Git), "cmd.open_git"),
        (Command::OpenTab(Tab::Terminal), "cmd.open_terminal"),
        (Command::OpenTab(Tab::Tasks), "cmd.open_tasks"),
        (Command::RefreshFiles, "cmd.refresh_files"),
        (Command::RefreshGit, "cmd.git_status"),
        (Command::ShowDiff, "cmd.show_diff"),
        (Command::NewChat, "cmd.new_chat"),
        (Command::ToggleExplorer, "cmd.toggle_explorer"),
        (Command::ToggleLanguage, "cmd.toggle_language"),
        (Command::Quit, "cmd.quit"),
    ];
    proof {
        assert(entry_views(r@) =~= catalog());
    }
    r
}

/// The normalized query: trimmed and lower-cased.
pub open spec fn normalized(query: Seq<char>) -> Seq<char> {
    crate::text::lowercase_of(crate::text::trim(query))
}

/// Whether a label key matches a normalized query: the empty query
/// matches everything, otherwise the lower-cased translated label must
/// contain it.
pub open spec fn label_matches(i18n: I18n, q: Seq<char>, key: Seq<char>) -> bool {
    q.len() == 0 || crate::text::contains(crate::text::lowercase_of(i18n.resolve(key)), q)
}

/// The entries of `es` that match, in order.
pub open spec fn matching(es: Seq<(Command, Seq<char>)>, i18n: I18n, q: Seq<char>) -> Seq<(Command, Seq<char>)>
    decreases es.len(),
{
    if es.len() == 0 {
        Seq::empty()
    } else {
        let rest = matching(es.drop_last(), i18n, q);
        if label_matches(i18n, q, es.last().1) {
            rest.push(es.last())
        } else {
            rest
        }
    }
}

/// Filtering never adds entries.
pub proof fn lemma_matching_len(es: Seq<(Command, Seq<char>)>, i18n: I18n, q: Seq<char>)
    ensures
        matching(es, i18n, q).len() <= es.len(),
    decreases es.len(),
{
    if es.len() > 0 {
        lemma_matching_len(es.drop_last(), i18n, q);
    }
}

/// Popup geometry for `count` listed commands: a header, a blank row, the
/// commands and the borders, at least six rows, 64 columns, centered.
pub open spec fn popup_spec(area: Rect, count: int) -> Rect {
    let wanted = count + 5;
    let capped = if wanted < area.height { wanted } else { area.height as int };
    let height = if capped > 6 { capped } else { 6 };
    centered_spec(area, 64, height as u16)
}

/// Popup rectangle for `match_count` listed commands, shared by drawing
/// and by mouse hit-testing so that clicks hit the rows drawn. The count is
/// taken as a `u16`, as the row arithmetic is done in screen units.
pub fn popup_rect(area: Rect, match_count: usize) -> (r: Rect)
    requires
        area.wf(),
        (match_count as u16) <= 65530,
    ensures
        r == popup_spec(area, (match_count as u16) as int),
        r.wf(),
{
    let wanted = match_count as u16 + 5;
    let capped = if wanted < area.height {
        wanted
    } else {
        area.height
    };
    let height = if capped > 6 {
        capped
    } else {
        6
    };
    centered_rect(area, 64, height)
}

proof fn lemma_mod_of_negative(a: int, n: int)
    requires
        a > 0,
        n > 0,
    ensures
        (-a) % n == (if a % n == 0 { 0 } else { n - a % n }),
{
    let q = a / n;
    let r = a % n;
    vstd::arithmetic::div_mod::lemma_fundamental_div_mod(a, n);
    assert(0 <= r < n);
    assert(n * q == q * n) by (nonlinear_arith);
    if r == 0 {
        assert(-a == (-q) * n + 0) by (nonlinear_arith)
            requires
                a == q * n,
        ;
        vstd::arithmetic::div_mod::lemma_fundamental_div_mod_converse(-a, n, -q, 0);
    } else {
        assert(-a == (-q - 1) * n + (n - r)) by (nonlinear_arith)
            requires
                a == q * n + r,
        ;
        vstd::arithmetic::div_mod::lemma_fundamental_div_mod_converse(-a, n, -q - 1, n - r);
    }
}

/// Palette state: the query typed so far and the highlighted row.
#[derive(Debug, Clone)]
pub struct Palette {
    pub query: String,
    pub index: usize,
}

impl Default for Palette {
    /// Empty query, first row.
    fn default() -> (p: Self)
        ensures
            p.query@.len() == 0,
            p.index == 0,
    {
        Palette { query: String::new(), index: 0 }
    }
}

impl Palette {
    /// The commands shown for this palette's query.
    pub open spec fn shown(&self, i18n: I18n) -> Seq<(Command, Seq<char>)> {
        matching(catalog(), i18n, normalized(self.query@))
    }

    /// The command highlighted: the row at the index, clamped to the last
    /// match; none when nothing matches.
    pub open spec fn selected_spec(&self, i18n: I18n) -> Option<Command> {
        let m = self.shown(i18n);
        if m.len() == 0 {
            None
        } else if self.index < m.len() {
            Some(m[self.index as int].0)
        } else {
            Some(m[m.len() - 1].0)
        }
    }

    /// Empty query, first row.
    pub fn new() -> (p: Self)
        ensures
            p.query@.len() == 0,
            p.index == 0,
    {
        Self::default()
    }

    /// Commands matching the query, in catalog order. Matching happens on
    /// the translated label, so it works the same in every language.
    pub fn filtered(&self, i18n: &I18n) -> (r: Vec<(Command, &'static str)>)
        ensures
            entry_views(r@) == self.shown(*i18n),
    {
        let qv = chars_of(self.query.as_str());
        let qt = trim_chars(&qv, CharClass::Whitespace);
        let q = lowercase_chars(&qt);
        let all = commands();
        let mut out: Vec<(Command, &'static str)> = Vec::new();
        let mut i: usize = 0;
        while i < all.len()
            invariant
                i <= all@.len(),
                entry_views(all@) == catalog(),
                q@ == normalized(self.query@),
                entry_views(out@) == matching(catalog().take(i as int), *i18n, q@),
            decreases all.len() - i,
        {
            let (command, key) = all[i];
            let label = chars_of(i18n.text(key));
            let lower = lowercase_chars(&label);
            proof {
                let t = catalog().take(i + 1);
                assert(t.drop_last() == catalog().take(i as int));
                assert(t.last() == catalog()[i as int]);
                assert(catalog()[i as int] == entry_views(all@)[i as int]);
            }
            if q.len() == 0 || contains_chars(&lower, &q) {
                proof {
                    assert(entry_views(out@.push((command, key))) == entry_views(out@).push(
                        (command, key@),
                    ));
                }
                out.push((command, key));
            }
            i = i + 1;
        }
        proof {
            assert(catalog().take(catalog().len() as int) == catalog());
        }
        out
    }

    /// Currently highlighted command, or `None` when nothing matches.
    pub fn selected(&self, i18n: &I18n) -> (r: Option<Command>)
        ensures
            r == self.selected_spec(*i18n),
    {
        let matches = self.filtered(i18n);
        if matches.len() == 0 {
            return None;
        }
        let last = matches.len() - 1;
        let at = if self.index < last {
            self.index
        } else {
            last
        };
        proof {
            assert(entry_views(matches@)[at as int].0 == matches@[at as int].0);
        }
        Some(matches[at].0)
    }

    /// Move the highlight by `delta` rows, wrapping around the matches;
    /// with no match the highlight goes back to the first row.
    pub fn move_selection(&mut self, delta: i32, i18n: &I18n)
        requires
            old(self).index + delta <= i32::MAX,
        ensures
            final(self).query == old(self).query,
            final(self).index == (if old(self).shown(*i18n).len() == 0 {
                0
            } else {
                (old(self).index + delta) % (old(self).shown(*i18n).len() as int)
            }),
    {
        let len = self.filtered(i18n).len();
        if len == 0 {
            self.index = 0;
            return;
        }
        let n = len as u64;
        let idx = self.index as u64;
        if delta >= 0 {
            let next = idx + delta as u64;
            self.index = (next % n) as usize;
        } else {
            let back = (0 - (delta as i64)) as u64;
            if back <= idx {
                self.index = ((idx - back) % n) as usize;
            } else {
                let m = (back - idx) % n;
                proof {
                    lemma_mod_of_negative((back - idx) as int, n as int);
                }
                if m == 0 {
                    self.index = 0;
                } else {
                    self.index = (n - m) as usize;
                }
            }
        }
    }

    /// Type one character into the query; the highlight goes back to the
    /// first row.
    pub fn push_char(&mut self, c: char)
        ensures
            final(self).query@ == old(self).query@.push(c),
            final(self).index == 0,
    {
        crate::text::push_char(&mut self.query, c);
        self.index = 0;
    }

    /// Erase the last query character, if any; the highlight goes back to
    /// the first row.
    pub fn pop_char(&mut self)
        ensures
            final(self).query@ == (if old(self).query@.len() > 0 {
                old(self).query@.drop_last()
            } else {
                old(self).query@
            }),
            final(self).index == 0,
    {
        let v = chars_of(self.query.as_str());
        if v.len() > 0 {
            let kept = crate::text::slice_to_vec(&v, 0, v.len() - 1);
            self.query = string_of(&kept);
        }
        self.index = 0;
    }
}

} // verus!
