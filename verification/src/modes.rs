//! The choices that shape what is on screen.
use vstd::prelude::*;

verus! {

/// How messages are grouped.
#[derive(Debug, Clone, Copy, PartialEq, Eq, Structural, Default)]
pub enum GroupMode {
    #[default]
    BySenderEmail,
    ByDomain,
}

/// What is on screen.
#[derive(Debug, Clone, Copy, PartialEq, Eq, Structural, Default)]
pub enum View {
    #[default]
    GroupList,
    EmailList,
    Thread,
    UndoHistory,
    EmailBody,
}

/// Which messages are shown.
#[derive(Debug, Clone, Copy, PartialEq, Eq, Structural, Default)]
pub enum ThreadFilter {
    /// Every message.
    #[default]
    All,
    /// Only messages of threads with several messages.
    OnlyThreads,
    /// Only messages that are alone in their thread.
    NoThreads,
}

/// What came of an attempt to select a message.
#[derive(Debug, Clone, Copy, PartialEq, Eq, Structural)]
pub enum SelectionResult {
    /// The selection was toggled.
    Toggled,
    /// There was nothing to select: another view, or no current message.
    NoEmail,
}

impl GroupMode {
    /// The other mode.
    pub open spec fn other(self) -> GroupMode {
        match self {
            GroupMode::BySenderEmail => GroupMode::ByDomain,
            GroupMode::ByDomain => GroupMode::BySenderEmail,
        }
    }

    /// The other mode.
    pub fn toggled(self) -> (r: GroupMode)
        ensures
            r == self.other(),
    {
        match self {
            GroupMode::BySenderEmail => GroupMode::ByDomain,
            GroupMode::ByDomain => GroupMode::BySenderEmail,
        }
    }
}

impl ThreadFilter {
    /// The filter that follows in the cycle.
    pub open spec fn following(self) -> ThreadFilter {
        match self {
            ThreadFilter::All => ThreadFilter::OnlyThreads,
            ThreadFilter::OnlyThreads => ThreadFilter::NoThreads,
            ThreadFilter::NoThreads => ThreadFilter::All,
        }
    }

    /// The filter that follows in the cycle.
    pub fn next_in_cycle(self) -> (r: ThreadFilter)
        ensures
            r == self.following(),
    {
        match self {
            ThreadFilter::All => ThreadFilter::OnlyThreads,
            ThreadFilter::OnlyThreads => ThreadFilter::NoThreads,
            ThreadFilter::NoThreads => ThreadFilter::All,
        }
    }
}

} // verus!
