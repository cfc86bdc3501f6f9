//! The bounded listener on a duplicate notice.
//!
//! After a notice is sent, the application waits for control activations on
//! it for a bounded window. The listener decides, for each event, whether
//! the activation is honored and which deletions follow; the application
//! performs the deletions and stops waiting once the listener closes. Only
//! the author of the triggering message may operate the controls; anyone
//! else's activation is ignored silently, and events arriving after the
//! listener closed cause nothing at all.

use vstd::prelude::*;

verus! {

/// Seconds the listener waits for activations on a notice: three minutes.
pub const LISTEN_WINDOW_SECS: u64 = 60 * 3;

/// The two controls a duplicate notice carries.
#[derive(PartialEq, Eq, Structural, Clone, Copy, Debug)]
pub enum ControlId {
    /// Dismiss the notice, leaving the triggering message alone.
    Ignore,
    /// Delete the triggering message, then dismiss the notice.
    Remove,
}

/// What the application must do after feeding one event to the listener.
/// The original post is deleted before the notice is.
#[derive(PartialEq, Eq, Structural, Clone, Copy, Debug)]
pub struct ListenerActions {
    pub delete_original: bool,
    pub delete_notice: bool,
}

/// No action at all.
pub open spec fn no_actions() -> ListenerActions {
    ListenerActions { delete_original: false, delete_notice: false }
}

/// The listener over one notice: whether it still waits, and who is allowed
/// to operate the controls.
pub struct Listener {
    /// Whether the listener still accepts activations.
    pub listening: bool,
    /// The author of the triggering message, the only user whose activations
    /// are honored.
    pub author: u64,
}

impl Listener {
    /// Open a listener over a freshly sent notice whose triggering message
    /// was written by `author`.
    pub fn open_for(author: u64) -> (l: Listener)
        ensures
            l.listening,
            l.author == author,
    {
        Listener { listening: true, author }
    }

    /// Feed one control activation to the listener. Honored activations
    /// (from the author, while the listener waits) retire the notice — and,
    /// for the remove control, the triggering message too — and close the
    /// listener. Activations by anyone else are ignored and leave it open;
    /// an activation against a closed listener does nothing.
    pub fn on_activation(&mut self, user: u64, control: ControlId) -> (r: ListenerActions)
        ensures
            final(self).author == old(self).author,
            !old(self).listening ==> r == no_actions() && !final(self).listening,
            old(self).listening && user != old(self).author ==> r == no_actions()
                && final(self).listening,
            old(self).listening && user == old(self).author && control == ControlId::Remove
                ==> r == (ListenerActions { delete_original: true, delete_notice: true })
                && !final(self).listening,
            old(self).listening && user == old(self).author && control == ControlId::Ignore
                ==> r == (ListenerActions { delete_original: false, delete_notice: true })
                && !final(self).listening,
    {
        if !self.listening {
            return no_actions_exec();
        }
        if user != self.author {
            return no_actions_exec();
        }
        self.listening = false;
        match control {
            ControlId::Remove => ListenerActions { delete_original: true, delete_notice: true },
            ControlId::Ignore => ListenerActions { delete_original: false, delete_notice: true },
        }
    }

    /// The waiting window elapsed with no honored activation: the listener
    /// closes; the notice is left in place.
    pub fn on_timeout(&mut self) -> (r: ListenerActions)
        ensures
            final(self).author == old(self).author,
            !final(self).listening,
            r == no_actions(),
    {
        self.listening = false;
        no_actions_exec()
    }
}

/// Build the empty action set.
fn no_actions_exec() -> (r: ListenerActions)
    ensures
        r == no_actions(),
{
    ListenerActions { delete_original: false, delete_notice: false }
}

} // verus!
