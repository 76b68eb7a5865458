//! A word to type, with the definition shown while it is typed.
use vstd::prelude::*;

verus! {

/// A word to type and its definition (empty when there is none).
pub struct Word {
    word: String,
    definition: String,
}

impl View for Word {
    /// The word and its definition.
    type V = (Seq<char>, Seq<char>);

    closed spec fn view(&self) -> (Seq<char>, Seq<char>) {
        (self.word@, self.definition@)
    }
}

impl Word {
    /// A word with its definition.
    pub fn new(word: &str, definition: &str) -> (w: Word)
        ensures
            w@ == (word@, definition@),
    {
        Word { word: word.to_owned(), definition: definition.to_owned() }
    }

    /// The definition.
    pub fn get_definition(&self) -> (d: &String)
        ensures
            d@ == self@.1,
    {
        &self.definition
    }

    /// The word.
    pub fn get_word(&self) -> (w: &String)
        ensures
            w@ == self@.0,
    {
        &self.word
    }
}

} // verus!
