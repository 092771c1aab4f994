//! Opening the database for writing.

use crate::action::{Action, ActionView, Event, EventView};
use crate::budget;
use vstd::prelude::*;

verus! {

/// What an opening waits for.
#[derive(Debug, Clone, Copy, PartialEq, Eq, Structural)]
pub enum OpenStep {
    /// The creation of the directory.
    CreateParent,
    /// A connection.
    Connect,
    /// The set-up script.
    Prepare,
    /// The end of the wait after a failure.
    Sleep,
}

/// An opening of the database, which is tried again until it succeeds, with
/// longer and longer waits.
#[derive(Debug, Clone, Copy, PartialEq, Eq, Structural)]
pub struct OpenJob {
    pub step: OpenStep,
    /// The wait after the next failure, or the one that is going on.
    pub backoff_ms: u64,
}

impl OpenJob {
    /// What is asked for.
    pub open spec fn asks(self) -> ActionView {
        match self.step {
            OpenStep::CreateParent => ActionView::CreateParent,
            OpenStep::Connect => ActionView::Connect,
            OpenStep::Prepare => ActionView::Prepare,
            OpenStep::Sleep => ActionView::Sleep { millis: self.backoff_ms },
        }
    }

    /// What follows a reply: the job as it goes on, or nothing where the
    /// database is open.
    pub open spec fn after(self, event: EventView) -> Option<OpenJob> {
        match self.step {
            OpenStep::CreateParent => Some(OpenJob { step: OpenStep::Connect, ..self }),
            OpenStep::Connect => if event.succeeded() {
                Some(OpenJob { step: OpenStep::Prepare, ..self })
            } else {
                Some(OpenJob { step: OpenStep::Sleep, ..self })
            },
            OpenStep::Prepare => if event.succeeded() {
                None
            } else {
                Some(OpenJob { step: OpenStep::Sleep, ..self })
            },
            OpenStep::Sleep => Some(
                OpenJob {
                    step: OpenStep::CreateParent,
                    backoff_ms: budget::doubled_wait(self.backoff_ms),
                },
            ),
        }
    }

    /// What is asked for.
    pub fn action(&self) -> (action: Action)
        ensures
            action@ == self.asks(),
    {
        match self.step {
            OpenStep::CreateParent => Action::CreateParent,
            OpenStep::Connect => Action::Connect,
            OpenStep::Prepare => Action::Prepare,
            OpenStep::Sleep => Action::Sleep { millis: self.backoff_ms },
        }
    }

    /// Takes the reply to what was asked for. The result is the job as it goes
    /// on, or `None` where the database is open.
    pub fn advance(self, event: &Event) -> (next: Option<OpenJob>)
        ensures
            next == self.after(event@),
    {
        match self.step {
            OpenStep::CreateParent => Some(OpenJob { step: OpenStep::Connect, ..self }),
            OpenStep::Connect => {
                if event.succeeded() {
                    Some(OpenJob { step: OpenStep::Prepare, ..self })
                } else {
                    Some(OpenJob { step: OpenStep::Sleep, ..self })
                }
            },
            OpenStep::Prepare => {
                if event.succeeded() {
                    None
                } else {
                    Some(OpenJob { step: OpenStep::Sleep, ..self })
                }
            },
            OpenStep::Sleep => Some(
                OpenJob {
                    step: OpenStep::CreateParent,
                    backoff_ms: budget::next_backoff(self.backoff_ms),
                },
            ),
        }
    }
}

/// Starts an opening of the database.
pub fn open_db() -> (job: OpenJob)
    ensures
        job == (OpenJob {
            step: OpenStep::CreateParent,
            backoff_ms: budget::OPEN_BACKOFF_START_MS,
        }),
{
    OpenJob { step: OpenStep::CreateParent, backoff_ms: budget::OPEN_BACKOFF_START_MS }
}

} // verus!
