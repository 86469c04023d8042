//! A note, as the store keeps it.

use vstd::prelude::*;

verus! {

/// The mathematical content of a note.
pub struct NoteView {
    pub id: i32,
    pub title: Seq<char>,
    pub content: Seq<char>,
}

/// One row of the notes table.
#[derive(Debug)]
pub struct Note {
    id: i32,
    title: String,
    content: String,
}

impl View for Note {
    type V = NoteView;

    closed spec fn view(&self) -> NoteView {
        NoteView { id: self.id, title: self.title@, content: self.content@ }
    }
}

impl Note {
    /// The note with the given key, title and content.
    pub fn new(id: i32, title: String, content: String) -> (note: Note)
        ensures
            note@ == (NoteView { id, title: title@, content: content@ }),
    {
        Note { id, title, content }
    }

    /// The key under which the note is stored.
    pub fn id(&self) -> (id: i32)
        ensures
            id == self@.id,
    {
        self.id
    }

    /// The note's title.
    pub fn title(&self) -> (title: &str)
        ensures
            title@ == self@.title,
    {
        self.title.as_str()
    }

    /// The note's text.
    pub fn content(&self) -> (content: &str)
        ensures
            content@ == self@.content,
    {
        self.content.as_str()
    }

    /// Takes the note apart into key, title and content.
    pub fn into_parts(self) -> (parts: (i32, String, String))
        ensures
            parts.0 == self@.id,
            parts.1@ == self@.title,
            parts.2@ == self@.content,
    {
        (self.id, self.title, self.content)
    }
}

} // verus!
