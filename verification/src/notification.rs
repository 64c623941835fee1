//! The events a producer can deliver to a consumer.

use vstd::prelude::*;

verus! {

/// One delivered event. `Next` carries a value, `Error` and `Complete` are
/// the two terminal events: at most one of them reaches any observer, and
/// nothing follows it.
#[derive(Debug, Clone, PartialEq, Eq)]
pub enum Notification<Item, E> {
    Next(Item),
    Error(E),
    Complete,
}

impl<Item, E> Notification<Item, E> {
    /// Whether this event ends the stream.
    pub open spec fn is_terminal(self) -> bool {
        match self {
            Notification::Next(_) => false,
            Notification::Error(_) => true,
            Notification::Complete => true,
        }
    }
}

/// A sequence of events in which a terminal event can only stand last:
/// nothing is ever observed after an `Error` or a `Complete`.
pub open spec fn terminal_once<Item, E>(s: Seq<Notification<Item, E>>) -> bool {
    forall|i: int| 0 <= i < s.len() && #[trigger] s[i].is_terminal() ==> i == s.len() - 1
}

/// Whether the sequence ends in a terminal event.
pub open spec fn ends_terminated<Item, E>(s: Seq<Notification<Item, E>>) -> bool {
    s.len() > 0 && s.last().is_terminal()
}

/// The values of `vals`, each wrapped as a `Next` delivery.
pub open spec fn nexts_of<Item, E>(vals: Seq<Item>) -> Seq<Notification<Item, E>> {
    vals.map(|i: int, v: Item| Notification::Next(v))
}

/// Appending a `Next` to a terminal-once sequence that is not yet terminated
/// keeps it terminal-once.
pub proof fn lemma_terminal_once_push<Item, E>(
    s: Seq<Notification<Item, E>>,
    e: Notification<Item, E>,
)
    requires
        terminal_once(s),
        !ends_terminated(s),
    ensures
        terminal_once(s.push(e)),
{
    let t = s.push(e);
    assert forall|i: int| 0 <= i < t.len() && #[trigger] t[i].is_terminal() implies i == t.len()
        - 1 by {
        if i < s.len() {
            assert(s[i].is_terminal());
            assert(i == s.len() - 1);
            assert(s.last().is_terminal());
        }
    }
}

} // verus!
