//! The organ's last word: the final JSON line an organ wrote to its error
//! stream before it died, kept where the lifecycle can read it. The pipe and
//! the thread that reads it stand at the composition root and hand each line
//! here.

use vstd::prelude::*;
use vstd::rwlock::{RwLock, RwLockPredicate};
use vstd::string::*;
use std::sync::Arc;
use crate::json::{json_canonical, json_canonical_of, text_of};
use crate::text::{trim, trimmed};

verus! {

/// The word a line leaves: the line trimmed, where what remains is not
/// empty and parses as JSON; a line that is not such a word leaves none.
pub open spec fn word_of(line: Seq<char>) -> Option<Seq<char>> {
    let t = trimmed(line);
    if t.len() > 0 && json_canonical_of(t) is Some {
        Some(t)
    } else {
        None
    }
}

/// A word some line of the organ's error stream leaves.
pub open spec fn is_word(w: Seq<char>) -> bool {
    exists|line: Seq<char>| #[trigger] word_of(line) == Some(w)
}

/// What may stand in the cell: nothing yet, or a word some line left.
pub struct KeptWord;

impl RwLockPredicate<Option<String>> for KeptWord {
    open spec fn inv(self, v: Option<String>) -> bool {
        match v {
            Some(w) => is_word(w@),
            None => true,
        }
    }
}

/// The word a line leaves, if any.
pub fn retained(line: &str) -> (word: Option<String>)
    ensures
        match word {
            Some(w) => word_of(line@) == Some(w@),
            None => word_of(line@) is None,
        },
{
    let t = trim(line);
    if t.unicode_len() > 0 && json_canonical(t.as_str()).is_some() {
        Some(t)
    } else {
        None
    }
}

/// The word kept once `line` is heard: the line's word where it leaves one,
/// else the word kept before.
pub open spec fn kept_after_spec(kept: Option<Seq<char>>, line: Seq<char>) -> Option<Seq<char>> {
    match word_of(line) {
        Some(w) => Some(w),
        None => kept,
    }
}

/// The word kept once `line` is heard after `kept`.
pub fn kept_after(kept: Option<String>, line: &str) -> (next: Option<String>)
    ensures
        text_of(next) == kept_after_spec(text_of(kept), line@),
{
    match retained(line) {
        Some(word) => Some(word),
        None => kept,
    }
}

/// The word kept after hearing `lines` in order, starting from `kept`.
pub open spec fn heard(kept: Option<Seq<char>>, lines: Seq<Seq<char>>) -> Option<Seq<char>>
    decreases lines.len(),
{
    if lines.len() == 0 {
        kept
    } else {
        kept_after_spec(heard(kept, lines.drop_last()), lines.last())
    }
}

/// The word of the last of `lines` that leaves one, if any does.
pub open spec fn last_word(lines: Seq<Seq<char>>) -> Option<Seq<char>>
    decreases lines.len(),
{
    if lines.len() == 0 {
        None
    } else {
        match word_of(lines.last()) {
            Some(w) => Some(w),
            None => last_word(lines.drop_last()),
        }
    }
}

/// **The last word wins.** Whatever was kept before, hearing a run of lines
/// keeps the word of the last line that leaves one, trimmed, and where no
/// line does, what was kept stands; a quiet cell that heard only such lines
/// holds nothing.
pub proof fn lemma_the_last_word_wins(kept: Option<Seq<char>>, lines: Seq<Seq<char>>)
    ensures
        heard(kept, lines) == match last_word(lines) {
            Some(w) => Some(w),
            None => kept,
        },
    decreases lines.len(),
{
    if lines.len() > 0 {
        lemma_the_last_word_wins(kept, lines.drop_last());
    }
}

/// The last word an organ spoke, shared between the reader of its error
/// stream and the lifecycle.
pub struct LastWord {
    cell: Arc<RwLock<Option<String>, KeptWord>>,
}

impl LastWord {
    /// The cell this handle reads and writes: two handles on one cell hear
    /// each other.
    pub closed spec fn cell_of(&self) -> RwLock<Option<String>, KeptWord> {
        *self.cell
    }

    /// A cell no organ has spoken into.
    pub fn quiet() -> (word: LastWord) {
        LastWord { cell: Arc::new(RwLock::new(None, Ghost(KeptWord))) }
    }

    /// Another handle on the same cell, for the stream's reader.
    pub fn share(&self) -> (other: LastWord)
        ensures
            other.cell_of() == self.cell_of(),
    {
        LastWord { cell: self.cell.clone() }
    }

    /// Keeps `line`, a word some line of the stream left, as the last word.
    pub fn speak(&self, line: &str)
        requires
            is_word(line@),
    {
        let (_, handle) = self.cell.acquire_write();
        handle.release_write(Some(String::from_str(line)));
    }

    /// Hears one line of the organ's error stream: the cell then holds the
    /// word kept after it, the line's word where it leaves one.
    pub fn hear(&self, line: &str) {
        let (kept, handle) = self.cell.acquire_write();
        let next = kept_after(kept, line);
        proof {
            if word_of(line@) is Some {
                assert(word_of(line@) == Some(next->0@));
            }
        }
        handle.release_write(next);
    }

    /// The last word kept, if one was: a word some line of the stream left.
    /// The reader may keep another at any moment, so nothing is promised of
    /// which.
    pub fn take(&self) -> (word: Option<String>)
        ensures
            match word {
                Some(w) => is_word(w@),
                None => true,
            },
    {
        let handle = self.cell.acquire_read();
        let word = match handle.borrow() {
            Some(w) => Some(w.clone()),
            None => None,
        };
        handle.release_read();
        word
    }
}

} // verus!
