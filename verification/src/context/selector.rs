//! Context selection: the most relevant files that fit the token budget.
//! The application reads each candidate (in relevance order) and offers
//! it here; this module decides what is taken and when to stop.
use vstd::prelude::*;

use crate::context::compression::{truncate_middle, MARKER};
use crate::context::tokenizer::estimate;
use crate::text::owned;

verus! {

/// Token cap of one file: longer files are cut around the middle.
pub const MAX_FILE_TOKENS: u32 = 2000;

/// One file chosen for the prompt.
#[derive(Debug, Clone)]
pub struct SelectedFile {
    pub path: String,
    pub content: String,
    pub tokens: u32,
}

/// A file's content as it enters the prompt: cut to the character
/// budget of [`MAX_FILE_TOKENS`] when its estimate is over the cap.
pub open spec fn fitted(content: Seq<char>) -> Seq<char> {
    if crate::context::tokenizer::estimate_spec(content.len()) > MAX_FILE_TOKENS {
        crate::context::compression::truncate_middle_spec(content, (MAX_FILE_TOKENS * 4) as nat, MARKER@)
    } else {
        content
    }
}

/// The files taken so far and the tokens they cost, under one budget.
pub struct Selection {
    pub budget: u32,
    pub spent: u32,
    pub files: Vec<SelectedFile>,
}

impl Selection {
    /// The selection's invariant: what was taken fits the budget.
    pub open spec fn wf(&self) -> bool {
        self.spent <= self.budget
    }

    /// An empty selection for `budget` tokens.
    pub fn new(budget: u32) -> (s: Self)
        ensures
            s.wf(),
            s.budget == budget,
            s.spent == 0,
            s.files@.len() == 0,
    {
        Selection { budget, spent: 0, files: Vec::new() }
    }

    /// Whether more files may be offered: the budget is not spent yet.
    pub fn wants_more(&self) -> (b: bool)
        ensures
            b == (self.spent < self.budget),
    {
        self.spent < self.budget
    }

    /// Offer the next candidate: its content is fitted to the per-file
    /// cap; it is taken when it still fits the budget. A candidate that
    /// does not fit ends the selection (`false`).
    pub fn offer(&mut self, path: &str, content: &str) -> (taken: bool)
        requires
            old(self).wf(),
        ensures
            final(self).wf(),
            final(self).budget == old(self).budget,
            ({
                let text = fitted(content@);
                let tokens = crate::context::tokenizer::estimate_spec(text.len());
                if old(self).spent + tokens > old(self).budget {
                    !taken && final(self).spent == old(self).spent && final(self).files@ == old(self).files@
                } else {
                    &&& taken
                    &&& final(self).spent == old(self).spent + tokens
                    &&& final(self).files@.len() == old(self).files@.len() + 1
                    &&& final(self).files@.take(old(self).files@.len() as int) == old(self).files@
                    &&& final(self).files@.last().path@ == path@
                    &&& final(self).files@.last().content@ == text
                    &&& final(self).files@.last().tokens == tokens
                }
            }),
    {
        let first = estimate(content);
        let text = if first > MAX_FILE_TOKENS {
            truncate_middle(content, (MAX_FILE_TOKENS * 4) as usize)
        } else {
            owned(content)
        };
        let tokens = estimate(text.as_str());
        if tokens as u64 + self.spent as u64 > self.budget as u64 {
            return false;
        }
        self.spent = self.spent + tokens;
        let ghost before = self.files@;
        self.files.push(SelectedFile { path: owned(path), content: text, tokens });
        proof {
            assert(self.files@.take(before.len() as int) == before);
        }
        true
    }
}

} // verus!
