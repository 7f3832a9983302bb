//! Progress notes that a command prints.
use vstd::prelude::*;

verus! {

/// The mark in front of a note.
#[derive(Debug, Clone, Copy, PartialEq, Eq, Structural)]
pub enum Mark {
    /// Something is being done.
    Busy,
    /// Something is done.
    Done,
    /// Nothing had to be done.
    Quiet,
    /// Something is worth knowing.
    Warning,
    /// Something went wrong; goes to standard error.
    Failed,
    /// What was waited for did not come about.
    Missed,
    /// A heading.
    Heading,
    /// A heading that warns.
    Alarm,
    /// A heading after success.
    Success,
    /// Nothing: the text alone.
    Bare,
}

/// A progress note.
#[derive(Debug)]
pub struct Note {
    pub mark: Mark,
    pub text: String,
}

/// A progress note.
pub struct NoteFacts {
    pub mark: Mark,
    pub text: Seq<char>,
}

impl View for Note {
    type V = NoteFacts;

    open spec fn view(&self) -> NoteFacts {
        NoteFacts { mark: self.mark, text: self.text@ }
    }
}

/// The notes as they are seen.
pub open spec fn notes_of(v: Seq<Note>) -> Seq<NoteFacts> {
    v.map_values(|n: Note| n@)
}

/// A note.
pub open spec fn note(mark: Mark, text: Seq<char>) -> NoteFacts {
    NoteFacts { mark, text }
}

/// No notes.
pub fn no_notes() -> (v: Vec<Note>)
    ensures
        notes_of(v@) == Seq::<NoteFacts>::empty(),
{
    let v: Vec<Note> = Vec::new();
    assert(notes_of(v@) =~= Seq::<NoteFacts>::empty());
    v
}

/// Adds a note.
pub fn say(v: &mut Vec<Note>, mark: Mark, text: String)
    ensures
        notes_of(final(v)@) == notes_of(old(v)@).push(note(mark, text@)),
{
    let ghost before = notes_of(v@);
    v.push(Note { mark, text });
    assert(notes_of(v@) =~= before.push(note(mark, text@)));
}

/// One note.
pub fn one_note(mark: Mark, text: String) -> (v: Vec<Note>)
    ensures
        notes_of(v@) == seq![note(mark, text@)],
{
    let mut v = no_notes();
    say(&mut v, mark, text);
    assert(notes_of(v@) =~= seq![note(mark, text@)]);
    v
}

} // verus!
