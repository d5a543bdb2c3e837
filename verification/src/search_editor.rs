//! The text editor that an open search-term overlay owns.
use vstd::prelude::*;
use crate::{EditorMode, Row};

verus! {

/// An in-progress edit of a search term: how it will resolve, and the
/// buffer as typed so far.
#[derive(Debug, Clone)]
pub struct SearchEditor {
    pub mode: EditorMode,
    pub state: String,
}

impl SearchEditor {
    /// A fresh editor that will add its buffer as a new term.
    pub fn new_add() -> (r: SearchEditor)
        ensures
            r.mode is Add,
            r.state@.len() == 0,
    {
        SearchEditor { mode: EditorMode::Add, state: String::new() }
    }

    /// A fresh editor over `original`, which it will replace on resolve.
    pub fn new_edit(original: String) -> (r: SearchEditor)
        ensures
            r.mode matches EditorMode::Edit(o) && o@ == original@,
            r.state@ == original@,
    {
        let o = original.clone();
        SearchEditor { mode: EditorMode::Edit(o), state: original }
    }

    /// Append one typed character to the buffer.
    pub fn add_char(&mut self, ch: char)
        ensures
            final(self).mode == old(self).mode,
            final(self).state@ == old(self).state@.push(ch),
    {
        self.state.push(ch);
    }

    /// Drop the last character of the buffer, if there is one.
    pub fn backspace(&mut self)
        ensures
            final(self).mode == old(self).mode,
            old(self).state@.len() == 0 ==> final(self).state@ == old(self).state@,
            old(self).state@.len() > 0 ==> final(self).state@ == old(self).state@.drop_last(),
    {
        let _ = self.state.pop();
    }

    /// Give up the editor, yielding its resolution and its buffer.
    pub fn resolve(self) -> (r: (EditorMode, String))
        ensures
            r.0 == self.mode,
            r.1 == self.state,
    {
        (self.mode, self.state)
    }

    /// The buffer as one renderable row.
    pub fn render(&self) -> (r: Row)
        ensures
            r.text@ == self.state@,
            !r.selected,
    {
        Row { text: self.state.clone(), selected: false }
    }
}

} // verus!
