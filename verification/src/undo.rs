//! What can be undone.
use vstd::prelude::*;

use crate::text::opt_text;

verus! {

/// The number of actions that can be undone.
pub const MAX_UNDO_HISTORY: usize = 50;

/// An action that can be undone.
#[derive(Debug, Clone, Copy, PartialEq, Eq, Structural)]
pub enum UndoActionType {
    Archive,
    Delete,
}

/// What an action was done to.
#[derive(Debug, PartialEq)]
pub enum UndoContext {
    Group { sender: String },
    Thread { subject: String },
}

/// What an [`UndoContext`] holds.
#[verifier::ext_equal]
pub enum UndoContextV {
    Group { sender: Seq<char> },
    Thread { subject: Seq<char> },
}

impl View for UndoContext {
    type V = UndoContextV;

    open spec fn view(&self) -> UndoContextV {
        match self {
            UndoContext::Group { sender } => UndoContextV::Group { sender: sender@ },
            UndoContext::Thread { subject } => UndoContextV::Thread { subject: subject@ },
        }
    }
}

impl Clone for UndoContext {
    fn clone(&self) -> (r: Self)
        ensures
            r@ == self@,
    {
        match self {
            UndoContext::Group { sender } => UndoContext::Group { sender: sender.clone() },
            UndoContext::Thread { subject } => UndoContext::Thread { subject: subject.clone() },
        }
    }
}

/// One message of an undoable action: its Message-ID, its UID in the folder that it was
/// moved to, and the folder that it came from.
pub type Moved = (Option<String>, Option<u32>, String);

/// What a [`Moved`] holds.
pub type MovedV = (Option<Seq<char>>, Option<u32>, Seq<char>);

/// What a [`Moved`] holds.
pub open spec fn moved_view(m: Moved) -> MovedV {
    (opt_text(m.0), m.1, m.2@)
}

/// What a list of moved messages holds.
pub open spec fn moved_views(v: Seq<Moved>) -> Seq<MovedV> {
    v.map_values(|m: Moved| moved_view(m))
}

/// A copy of a list of moved messages.
pub fn clone_moved(v: &Vec<Moved>) -> (r: Vec<Moved>)
    ensures
        moved_views(r@) == moved_views(v@),
{
    let mut r: Vec<Moved> = Vec::new();
    for i in 0..v.len()
        invariant
            r@.len() == i,
            forall|k: int| 0 <= k < i ==> moved_view(#[trigger] r@[k]) == moved_view(v@[k]),
    {
        r.push((crate::email::clone_opt(&v[i].0), v[i].1, v[i].2.clone()));
    }
    assert(moved_views(r@) =~= moved_views(v@));
    r
}

/// An action that can be undone.
#[derive(Debug, PartialEq)]
pub struct UndoEntry {
    pub action_type: UndoActionType,
    pub context: UndoContext,
    pub emails: Vec<Moved>,
    /// Where the messages are now.
    pub current_folder: String,
}

/// What an [`UndoEntry`] holds.
#[verifier::ext_equal]
pub struct UndoEntryV {
    pub action_type: UndoActionType,
    pub context: UndoContextV,
    pub emails: Seq<MovedV>,
    pub current_folder: Seq<char>,
}

impl View for UndoEntry {
    type V = UndoEntryV;

    open spec fn view(&self) -> UndoEntryV {
        UndoEntryV {
            action_type: self.action_type,
            context: self.context@,
            emails: moved_views(self.emails@),
            current_folder: self.current_folder@,
        }
    }
}

impl Clone for UndoEntry {
    fn clone(&self) -> (r: Self)
        ensures
            r@ == self@,
    {
        UndoEntry {
            action_type: self.action_type,
            context: self.context.clone(),
            emails: clone_moved(&self.emails),
            current_folder: self.current_folder.clone(),
        }
    }
}

/// What a list of undoable actions holds.
pub open spec fn entries(v: Seq<UndoEntry>) -> Seq<UndoEntryV> {
    v.map_values(|e: UndoEntry| e@)
}

/// A history with one more action, newest first: the oldest is dropped once there are too
/// many.
pub open spec fn with_entry(history: Seq<UndoEntryV>, entry: UndoEntryV) -> Seq<UndoEntryV> {
    let longer = seq![entry] + history;
    if longer.len() > MAX_UNDO_HISTORY {
        longer.take(MAX_UNDO_HISTORY as int)
    } else {
        longer
    }
}

} // verus!
