//! The one-shot steal channel: a single-slot, single-use handoff from a busy
//! worker (the victim) to a waiting worker (the thief).
//!
//! The victim can cheaply test [`SmallChannel::poll_waiting`] on every block
//! boundary of its work loop; only once a thief has registered does it pay
//! for a split.  [`SmallChannel::send`] is callable at most once — its
//! precondition forbids a second send — and [`SmallChannel::receive`]
//! consumes the channel, so a second receive is impossible by ownership.
//! `receive` returns exactly the value that was sent.

use vstd::prelude::*;

verus! {

/// A single-slot, single-use channel carrying `Option<T>`: `Some` transfers
/// ownership of a split-off piece of work, `None` cancels the handoff.
pub struct SmallChannel<T> {
    /// `None` until the one allowed `send`; then `Some` of the message.
    message: Option<Option<T>>,
    /// Whether the receiving side has registered its intent to receive.
    waiting: bool,
}

impl<T> SmallChannel<T> {
    /// Has the one allowed `send` already happened?
    pub closed spec fn sent(&self) -> bool {
        self.message is Some
    }

    /// The message passed to `send`, if any.
    pub closed spec fn spec_message(&self) -> Option<Option<T>> {
        self.message
    }

    /// Has the receiver registered its intent to receive?
    pub closed spec fn waiting(&self) -> bool {
        self.waiting
    }

    /// A fresh channel: nothing sent, nobody waiting.
    pub fn new() -> (r: SmallChannel<T>)
        ensures
            !r.sent(),
            !r.waiting(),
    {
        SmallChannel { message: None, waiting: false }
    }

    /// The receiver announces that it is about to receive.
    pub fn register_waiting(&mut self)
        ensures
            final(self).waiting(),
            final(self).sent() == old(self).sent(),
            final(self).spec_message() == old(self).spec_message(),
    {
        self.waiting = true;
    }

    /// Non-blocking probe by the sender: has a thief registered?  May be
    /// called arbitrarily often; it neither synchronizes with nor consumes
    /// the message slot.
    pub fn poll_waiting(&self) -> (r: bool)
        ensures
            r == self.waiting(),
    {
        self.waiting
    }

    /// Publish the message.  Callable exactly once per channel: a second
    /// send violates the precondition.
    pub fn send(&mut self, msg: Option<T>)
        requires
            !old(self).sent(),
        ensures
            final(self).sent(),
            final(self).spec_message() == Some(msg),
            final(self).waiting() == old(self).waiting(),
    {
        self.message = Some(msg);
    }

    /// Take the message out, consuming the channel: a second receive is
    /// impossible.  Calling this when no send has happened is a protocol
    /// violation, excluded by the precondition.
    pub fn receive(self) -> (r: Option<T>)
        requires
            self.sent(),
        ensures
            Some(r) == self.spec_message(),
    {
        let SmallChannel { message, waiting: _ } = self;
        message.unwrap()
    }
}

} // verus!
