//! Edit buffer of the Files tab: a list of lines with a character cursor.
use vstd::prelude::*;

use crate::text::{chars_of, slice_to_vec, split_chars, string_of, string_views};
use crate::tui::app::{App, FilePreview};

verus! {

/// The pieces of a text between line feeds, kept byte for byte (a `\r`
/// stays with its line), without the empty piece after a final line feed.
pub open spec fn raw_lines(text: Seq<char>) -> Seq<Seq<char>> {
    let parts = crate::text::split_by(text, crate::text::CharClass::Newline);
    if parts.last().len() == 0 {
        parts.drop_last()
    } else {
        parts
    }
}

/// Lines a buffer opens with: the text's lines, or one empty line for a
/// text without any.
pub open spec fn loaded_lines(text: Seq<char>) -> Seq<Seq<char>> {
    let ls = raw_lines(text);
    if ls.len() == 0 {
        seq![Seq::<char>::empty()]
    } else {
        ls
    }
}

/// The text a buffer of lines saves to, with or without a final line
/// feed.
pub open spec fn saved_of(ls: Seq<Seq<char>>, trailing_newline: bool) -> Seq<char> {
    join_lines(ls) + if trailing_newline {
        seq!['\n']
    } else {
        Seq::empty()
    }
}

/// Whether a text ends with a line feed.
pub open spec fn ends_with_newline(text: Seq<char>) -> bool {
    text.len() > 0 && text.last() == '\n'
}

/// Lines joined with `\n` between them.
pub open spec fn join_lines(ls: Seq<Seq<char>>) -> Seq<char>
    decreases ls.len(),
{
    if ls.len() == 0 {
        Seq::empty()
    } else if ls.len() == 1 {
        ls[0]
    } else {
        join_lines(ls.drop_last()) + seq!['\n'] + ls.last()
    }
}

/// The buffer, or one empty line when it has none.
pub open spec fn with_a_line(b: Seq<Seq<char>>) -> Seq<Seq<char>> {
    if b.len() == 0 {
        seq![Seq::<char>::empty()]
    } else {
        b
    }
}

/// The pieces of a text between line feeds, byte for byte.
pub fn raw_line_strings(text: &str) -> (r: Vec<String>)
    ensures
        string_views(r@) == raw_lines(text@),
{
    let v = chars_of(text);
    let parts = split_chars(&v, crate::text::CharClass::Newline);
    let ghost pv = parts@.map_values(|p: Vec<char>| p@);
    proof {
        crate::text::lemma_split_nonempty(v@, crate::text::CharClass::Newline);
    }
    let keep = if parts[parts.len() - 1].len() == 0 {
        parts.len() - 1
    } else {
        parts.len()
    };
    let mut out: Vec<String> = Vec::new();
    let mut i: usize = 0;
    while i < keep
        invariant
            keep <= parts@.len(),
            i <= keep,
            pv == parts@.map_values(|p: Vec<char>| p@),
            string_views(out@) == pv.take(i as int),
        decreases keep - i,
    {
        let line = string_of(&parts[i]);
        proof {
            assert(string_views(out@.push(line)) == string_views(out@).push(line@));
            assert(pv.take(i + 1) == pv.take(i as int).push(pv[i as int]));
        }
        out.push(line);
        i = i + 1;
    }
    proof {
        if keep == parts@.len() {
            assert(pv.take(keep as int) == pv);
        } else {
            assert(pv.take(keep as int) == pv.drop_last());
        }
    }
    out
}

/// Joining the pieces between line feeds with line feeds gives the text
/// back.
proof fn lemma_join_split(t: Seq<char>)
    ensures
        join_lines(crate::text::split_by(t, crate::text::CharClass::Newline)) == t,
    decreases t.len(),
{
    let cls = crate::text::CharClass::Newline;
    if t.len() > 0 {
        let rest = crate::text::split_by(t.drop_last(), cls);
        crate::text::lemma_split_nonempty(t.drop_last(), cls);
        lemma_join_split(t.drop_last());
        if t.last() == '\n' {
            let parts = rest.push(Seq::<char>::empty());
            assert(parts.drop_last() == rest);
            assert(join_lines(parts) == join_lines(rest) + seq!['\n'] + Seq::<char>::empty());
            assert(t == t.drop_last().push(t.last()));
        } else {
            let parts = rest.update(rest.len() - 1, rest.last().push(t.last()));
            if rest.len() == 1 {
                assert(join_lines(rest) == rest[0]);
                assert(parts =~= seq![rest[0].push(t.last())]);
                assert(join_lines(parts) == parts[0]);
            } else {
                assert(parts.drop_last() == rest.drop_last());
                assert(join_lines(parts) == join_lines(rest.drop_last()) + seq!['\n'] + rest.last().push(t.last()));
                assert(join_lines(rest) == join_lines(rest.drop_last()) + seq!['\n'] + rest.last());
            }
            assert(join_lines(parts) =~= t.drop_last().push(t.last()));
            assert(t == t.drop_last().push(t.last()));
        }
    }
}

/// A buffer holding the lines a text was opened with saves to exactly
/// that text: line endings, `\r` included, and the final line feed are
/// kept byte for byte.
pub proof fn law_unchanged_buffer_saves_its_text(t: Seq<char>)
    ensures
        saved_of(loaded_lines(t), ends_with_newline(t)) == t,
{
    let cls = crate::text::CharClass::Newline;
    let parts = crate::text::split_by(t, cls);
    crate::text::lemma_split_nonempty(t, cls);
    lemma_join_split(t);
    if t.len() == 0 {
        assert(parts == seq![Seq::<char>::empty()]);
        assert(raw_lines(t).len() == 0);
        assert(join_lines(loaded_lines(t)) == Seq::<char>::empty());
        assert(saved_of(loaded_lines(t), false) =~= t);
    } else {
        let rest = crate::text::split_by(t.drop_last(), cls);
        crate::text::lemma_split_nonempty(t.drop_last(), cls);
        if t.last() == '\n' {
            assert(parts == rest.push(Seq::<char>::empty()));
            assert(parts.drop_last() == rest);
            assert(raw_lines(t) == rest);
            assert(join_lines(parts) == join_lines(rest) + seq!['\n'] + Seq::<char>::empty());
            assert(saved_of(loaded_lines(t), true) =~= join_lines(parts));
        } else {
            assert(parts.last().len() > 0);
            assert(raw_lines(t) == parts);
        }
    }
}

impl App {
    /// The cursor is on an existing line (on an empty buffer, the first
    /// row). Its column may lie past the line's end; edits clamp it.
    pub open spec fn cursor_row_ok(&self) -> bool {
        if self.edit_lines@.len() == 0 {
            self.edit_row == 0
        } else {
            self.edit_row < self.edit_lines@.len()
        }
    }

    /// The cursor is on an existing line, and at the origin of an empty
    /// buffer.
    pub open spec fn edit_wf(&self) -> bool {
        &&& self.cursor_row_ok()
        &&& self.edit_lines@.len() == 0 ==> self.edit_col == 0
    }

    /// The cursor column, clamped to the end of its line in `b`.
    pub open spec fn clamped_col(&self, b: Seq<Seq<char>>) -> int {
        let len = b[self.edit_row as int].len();
        if self.edit_col <= len {
            self.edit_col as int
        } else {
            len as int
        }
    }

    /// Effect of `edit_insert` on the model.
    pub open spec fn insert_effect(old: App, new: App, c: char) -> bool {
        let b = with_a_line(old.buffer());
        let col = old.clamped_col(b);
        &&& new == (App {
            edit_lines: new.edit_lines,
            edit_col: (col + 1) as usize,
            edit_dirty: true,
            ..old
        })
        &&& new.buffer() == ({
            let line = b[old.edit_row as int];
            b.update(old.edit_row as int, line.take(col) + seq![c] + line.skip(col))
        })
    }

    /// Effect of `edit_backspace` on the model.
    pub open spec fn backspace_effect(old: App, new: App) -> bool {
        &&& old.edit_col > 0 ==> {
            let b = old.buffer();
            let line = b[old.edit_row as int];
            &&& new == (App {
                edit_lines: new.edit_lines,
                edit_col: (old.edit_col - 1) as usize,
                edit_dirty: true,
                ..old
            })
            &&& new.buffer() == (if old.edit_col <= line.len() {
                b.update(old.edit_row as int, line.take(old.edit_col - 1) + line.skip(old.edit_col as int))
            } else {
                b
            })
        }
        &&& old.edit_col == 0 && old.edit_row > 0 ==> {
            let b = old.buffer();
            let r = old.edit_row as int;
            &&& new == (App {
                edit_lines: new.edit_lines,
                edit_row: (r - 1) as usize,
                edit_col: b[r - 1].len() as usize,
                edit_dirty: true,
                ..old
            })
            &&& new.buffer() == b.remove(r).update(r - 1, b[r - 1] + b[r])
        }
        &&& old.edit_col == 0 && old.edit_row == 0 ==> new == old
    }

    /// Effect of `edit_newline` on the model.
    pub open spec fn newline_effect(old: App, new: App) -> bool {
        &&& new == (App {
            edit_lines: new.edit_lines,
            edit_row: (old.edit_row + 1) as usize,
            edit_col: 0,
            edit_dirty: true,
            ..old
        })
        &&& new.buffer() == ({
            let b = with_a_line(old.buffer());
            let r = old.edit_row as int;
            let line = b[r];
            let col = old.clamped_col(b);
            b.update(r, line.take(col)).insert(r + 1, line.skip(col))
        })
    }

    /// Effect of `edit_left` on the model.
    pub open spec fn left_effect(old: App, new: App) -> bool {
        &&& new == (if old.edit_col > 0 {
            App { edit_col: (old.edit_col - 1) as usize, ..old }
        } else if old.edit_row > 0 {
            App {
                edit_row: (old.edit_row - 1) as usize,
                edit_col: old.line_len(old.edit_row - 1) as usize,
                ..old
            }
        } else {
            old
        })
    }

    /// Effect of `edit_right` on the model.
    pub open spec fn right_effect(old: App, new: App) -> bool {
        &&& new == (if old.edit_col < old.line_len(old.edit_row as int) {
            App { edit_col: (old.edit_col + 1) as usize, ..old }
        } else if old.edit_row + 1 < old.edit_lines@.len() {
            App { edit_row: (old.edit_row + 1) as usize, edit_col: 0, ..old }
        } else {
            old
        })
    }

    /// Effect of `edit_up` on the model.
    pub open spec fn up_effect(old: App, new: App) -> bool {
        &&& new.edit_row == (if old.edit_row > 0 {
            old.edit_row - 1
        } else {
            0
        })
        &&& new.edit_col == (if old.edit_col <= old.line_len(new.edit_row as int) {
            old.edit_col as int
        } else {
            old.line_len(new.edit_row as int) as int
        })
        &&& new == (App { edit_row: new.edit_row, edit_col: new.edit_col, ..old })
    }

    /// Effect of `edit_down` on the model.
    pub open spec fn down_effect(old: App, new: App) -> bool {
        &&& old.edit_row + 1 < old.edit_lines@.len() ==> {
            &&& new.edit_row == old.edit_row + 1
            &&& new.edit_col == (if old.edit_col <= old.line_len(old.edit_row + 1) {
                old.edit_col as int
            } else {
                old.line_len(old.edit_row + 1) as int
            })
            &&& new == (App { edit_row: new.edit_row, edit_col: new.edit_col, ..old })
        }
        &&& old.edit_row + 1 >= old.edit_lines@.len() ==> new == old
    }

    /// The buffer's lines.
    pub open spec fn buffer(&self) -> Seq<Seq<char>> {
        string_views(self.edit_lines@)
    }

    /// Length of line `row`, or zero past the end.
    pub open spec fn line_len(&self, row: int) -> nat {
        if 0 <= row < self.edit_lines@.len() {
            self.edit_lines@[row]@.len()
        } else {
            0
        }
    }

    /// The text a save writes: the lines joined, with the final line feed
    /// of the snapshot kept.
    pub open spec fn saved_text(&self) -> Seq<char> {
        saved_of(self.buffer(), self.edit_trailing_newline)
    }

    /// Take `text` as snapshot and buffer.
    fn load_buffer(&mut self, text: &String)
        ensures
            *final(self) == (App {
                edit_origin: *text,
                edit_trailing_newline: ends_with_newline(text@),
                edit_lines: final(self).edit_lines,
                ..*old(self)
            }),
            final(self).buffer() == loaded_lines(text@),
            final(self).edit_lines@.len() > 0,
    {
        self.edit_origin = text.clone();
        let tv = chars_of(text.as_str());
        self.edit_trailing_newline = tv.len() > 0 && tv[tv.len() - 1] == '\n';
        self.edit_lines = raw_line_strings(text.as_str());
        if self.edit_lines.len() == 0 {
            self.edit_lines.push(String::new());
            proof {
                assert(self.buffer() =~= seq![Seq::<char>::empty()]);
            }
        }
    }

    /// Open a file in the Files tab: the preview and a fresh, clean
    /// buffer with the cursor at the start.
    pub fn set_file_preview(&mut self, path: String, text: String)
        ensures
            *final(self) == (App {
                edit_origin: text,
                edit_trailing_newline: ends_with_newline(text@),
                edit_lines: final(self).edit_lines,
                edit_row: 0,
                edit_col: 0,
                edit_dirty: false,
                editing: false,
                file_preview: Some(FilePreview { path, text }),
                scroll: 0,
                ..*old(self)
            }),
            final(self).buffer() == loaded_lines(text@),
            final(self).edit_wf(),
    {
        self.load_buffer(&text);
        self.edit_row = 0;
        self.edit_col = 0;
        self.edit_dirty = false;
        self.editing = false;
        self.file_preview = Some(FilePreview { path, text });
        self.scroll = 0;
    }

    fn edit_text(&self) -> (r: String)
        ensures
            r@ == self.saved_text(),
    {
        let mut out: Vec<char> = Vec::new();
        let mut i: usize = 0;
        while i < self.edit_lines.len()
            invariant
                i <= self.edit_lines@.len(),
                out@ == join_lines(self.buffer().take(i as int)),
            decreases self.edit_lines.len() - i,
        {
            let ghost before = out@;
            if i > 0 {
                out.push('\n');
            }
            let line = chars_of(self.edit_lines[i].as_str());
            let mut k: usize = 0;
            let ghost mid = out@;
            while k < line.len()
                invariant
                    k <= line@.len(),
                    out@ == mid + line@.take(k as int),
                decreases line.len() - k,
            {
                out.push(line[k]);
                proof {
                    assert(line@.take(k + 1) == line@.take(k as int).push(line@[k as int]));
                }
                k = k + 1;
            }
            proof {
                assert(line@.take(line@.len() as int) == line@);
                let t = self.buffer().take(i + 1);
                assert(t.drop_last() == self.buffer().take(i as int));
                assert(t.last() == line@);
                if i == 0 {
                    assert(t.len() == 1);
                }
            }
            i = i + 1;
        }
        if self.edit_trailing_newline {
            out.push('\n');
        }
        proof {
            assert(self.buffer().take(self.edit_lines@.len() as int) == self.buffer());
        }
        string_of(&out)
    }

    /// The save to perform: file path, snapshot and buffer text; none
    /// unless a file is open in edit mode with unsaved changes.
    pub fn take_save(&self) -> (r: Option<(String, String, String)>)
        ensures
            match r {
                Some((path, original, content)) => {
                    &&& self.editing
                    &&& self.edit_dirty
                    &&& self.file_preview matches Some(p) && path == p.path
                    &&& original == self.edit_origin
                    &&& content@ == self.saved_text()
                    &&& self.buffer() == loaded_lines(self.edit_origin@) && self.edit_trailing_newline
                        == ends_with_newline(self.edit_origin@) ==> content@ == self.edit_origin@
                },
                None => !(self.editing && self.edit_dirty && self.file_preview is Some),
            },
    {
        if !self.editing || !self.edit_dirty {
            return None;
        }
        proof {
            law_unchanged_buffer_saves_its_text(self.edit_origin@);
        }
        match &self.file_preview {
            Some(p) => Some((p.path.clone(), self.edit_origin.clone(), self.edit_text())),
            None => None,
        }
    }

    fn edit_line_len(&self) -> (n: usize)
        ensures
            n == self.line_len(self.edit_row as int),
    {
        if self.edit_row < self.edit_lines.len() {
            chars_of(self.edit_lines[self.edit_row].as_str()).len()
        } else {
            0
        }
    }

    /// After a successful save: the saved text becomes the snapshot and
    /// the buffer, the cursor is kept inside it, and the buffer is clean.
    pub fn confirm_saved(&mut self, content: String)
        ensures
            *final(self) == (App {
                edit_origin: content,
                edit_trailing_newline: ends_with_newline(content@),
                edit_lines: final(self).edit_lines,
                edit_row: final(self).edit_row,
                edit_col: final(self).edit_col,
                edit_dirty: false,
                ..*old(self)
            }),
            final(self).buffer() == loaded_lines(content@),
            final(self).edit_row == (if old(self).edit_row < final(self).buffer().len() {
                old(self).edit_row as int
            } else {
                final(self).buffer().len() - 1
            }),
            final(self).edit_col == (if old(self).edit_col <= final(self).line_len(final(self).edit_row as int) {
                old(self).edit_col as int
            } else {
                final(self).line_len(final(self).edit_row as int) as int
            }),
            final(self).edit_wf(),
    {
        self.load_buffer(&content);
        if self.edit_row >= self.edit_lines.len() {
            self.edit_row = self.edit_lines.len() - 1;
        }
        let len = self.edit_line_len();
        if self.edit_col > len {
            self.edit_col = len;
        }
        self.edit_dirty = false;
    }

    /// Type a character at the cursor, the column first clamped to the
    /// line's end.
    #[verifier::rlimit(60)]
    pub fn edit_insert(&mut self, c: char)
        requires
            old(self).cursor_row_ok(),
        ensures
            Self::insert_effect(*old(self), *final(self), c),
            final(self).edit_wf(),
    {
        if self.edit_lines.len() == 0 {
            self.edit_lines.push(String::new());
            proof {
                assert(self.buffer() =~= seq![Seq::<char>::empty()]);
            }
        }
        let ghost b = with_a_line(old(self).buffer());
        proof {
            assert(self.buffer() == b);
        }
        let row = self.edit_row;
        let mut line = chars_of(self.edit_lines[row].as_str());
        proof {
            assert(line@ == b[row as int]);
        }
        let col = if self.edit_col <= line.len() {
            self.edit_col
        } else {
            line.len()
        };
        proof {
            assert(col as int == old(self).clamped_col(b));
        }
        let ghost before = line@;
        line.insert(col, c);
        proof {
            assert(line@ == before.take(col as int) + seq![c] + before.skip(col as int));
        }
        let n = line.len();
        proof {
            assert(n == before.len() + 1);
            assert(col < n);
        }
        let new_col = col + 1;
        self.edit_lines.set(row, string_of(&line));
        self.edit_col = new_col;
        self.edit_dirty = true;
        proof {
            let b = with_a_line(old(self).buffer());
            assert(self.buffer() =~= b.update(row as int, before.take(col as int) + seq![c] + before.skip(col as int)));
        }
    }

    /// Erase the character before the cursor, or join the line with the
    /// one above when the cursor is at its start.
    pub fn edit_backspace(&mut self)
        requires
            old(self).edit_wf(),
        ensures
            Self::backspace_effect(*old(self), *final(self)),
            final(self).edit_wf(),
    {
        if self.edit_col > 0 && self.edit_col > chars_of(self.edit_lines[self.edit_row].as_str()).len() {
            self.edit_col = self.edit_col - 1;
            self.edit_dirty = true;
        } else if self.edit_col > 0 {
            let row = self.edit_row;
            let col = self.edit_col;
            let line = chars_of(self.edit_lines[row].as_str());
            let mut kept = slice_to_vec(&line, 0, col - 1);
            let rest = slice_to_vec(&line, col, line.len());
            let ghost head = kept@;
            kept.append(&mut rest.clone());
            proof {
                assert(kept@ == line@.take(col - 1) + line@.skip(col as int));
            }
            self.edit_lines.set(row, string_of(&kept));
            self.edit_col = col - 1;
            self.edit_dirty = true;
            proof {
                let b = old(self).buffer();
                assert(self.buffer() =~= b.update(row as int, line@.take(col - 1) + line@.skip(col as int)));
            }
        } else if self.edit_row > 0 {
            let row = self.edit_row;
            let ghost b = self.buffer();
            let current = self.edit_lines.remove(row);
            proof {
                assert(self.buffer() == b.remove(row as int));
            }
            self.edit_row = row - 1;
            let prev = chars_of(self.edit_lines[row - 1].as_str());
            self.edit_col = prev.len();
            let joined = crate::text::concat(self.edit_lines[row - 1].as_str(), current.as_str());
            self.edit_lines.set(row - 1, joined);
            self.edit_dirty = true;
            proof {
                let r = row as int;
                assert(self.buffer() =~= b.remove(r).update(r - 1, b[r - 1] + b[r]));
            }
        }
    }

    /// Split the line at the cursor; the cursor moves to the start of the
    /// new line.
    #[verifier::rlimit(60)]
    pub fn edit_newline(&mut self)
        requires
            old(self).edit_wf(),
        ensures
            Self::newline_effect(*old(self), *final(self)),
            final(self).edit_wf(),
    {
        if self.edit_lines.len() == 0 {
            self.edit_lines.push(String::new());
            proof {
                assert(self.buffer() =~= seq![Seq::<char>::empty()]);
            }
        }
        let ghost b = with_a_line(old(self).buffer());
        proof {
            assert(self.buffer() == b);
        }
        let row = self.edit_row;
        let line = chars_of(self.edit_lines[row].as_str());
        proof {
            assert(line@ == b[row as int]);
        }
        let col = if self.edit_col <= line.len() {
            self.edit_col
        } else {
            line.len()
        };
        proof {
            assert(col as int == old(self).clamped_col(b));
        }
        let head = slice_to_vec(&line, 0, col);
        let tail = slice_to_vec(&line, col, line.len());
        proof {
            assert(head@ == line@.take(col as int));
            assert(tail@ == line@.skip(col as int));
        }
        self.edit_lines.set(row, string_of(&head));
        self.edit_lines.insert(row + 1, string_of(&tail));
        self.edit_row = row + 1;
        self.edit_col = 0;
        self.edit_dirty = true;
        proof {
            let b = with_a_line(old(self).buffer());
            assert(self.buffer() =~= b.update(row as int, line@.take(col as int)).insert(row + 1, line@.skip(col as int)));
        }
    }

    /// Cursor one character left, or to the end of the line above.
    pub fn edit_left(&mut self)
        requires
            old(self).edit_wf(),
        ensures
            Self::left_effect(*old(self), *final(self)),
            final(self).edit_wf(),
    {
        if self.edit_col > 0 {
            self.edit_col = self.edit_col - 1;
        } else if self.edit_row > 0 {
            self.edit_row = self.edit_row - 1;
            self.edit_col = self.edit_line_len();
        }
    }

    /// Cursor one character right, or to the start of the line below.
    pub fn edit_right(&mut self)
        requires
            old(self).edit_wf(),
        ensures
            Self::right_effect(*old(self), *final(self)),
            final(self).edit_wf(),
    {
        if self.edit_col < self.edit_line_len() {
            self.edit_col = self.edit_col + 1;
        } else if self.edit_lines.len() > 0 && self.edit_row < self.edit_lines.len() - 1 {
            self.edit_row = self.edit_row + 1;
            self.edit_col = 0;
        }
    }

    /// Cursor one line up (staying on the first line), kept inside the
    /// line it lands on.
    pub fn edit_up(&mut self)
        requires
            old(self).edit_wf(),
        ensures
            Self::up_effect(*old(self), *final(self)),
            final(self).edit_wf(),
    {
        if self.edit_row > 0 {
            self.edit_row = self.edit_row - 1;
        }
        let len = self.edit_line_len();
        if self.edit_col > len {
            self.edit_col = len;
        }
    }

    /// Cursor one line down when there is one, kept inside the line it
    /// lands on.
    pub fn edit_down(&mut self)
        requires
            old(self).edit_wf(),
        ensures
            Self::down_effect(*old(self), *final(self)),
            final(self).edit_wf(),
    {
        if self.edit_lines.len() > 0 && self.edit_row < self.edit_lines.len() - 1 {
            self.edit_row = self.edit_row + 1;
            let len = self.edit_line_len();
            if self.edit_col > len {
                self.edit_col = len;
            }
        }
    }
}

} // verus!
