//! A mailbox between a control task and a real-time reader.
//!
//! Only the newest value counts: a value that was not picked up before the next one came is
//! replaced. The two ends hold plain values; whoever owns both carries what the sender has put
//! out to the receiver.

use vstd::prelude::*;

verus! {

/// The sending end, with the value that waits to be carried over.
#[derive(Debug)]
pub struct RealTimeBoxSender<T> {
    pub outgoing: Option<T>,
}

/// The receiving end, with the value in use and the one that was carried over since.
#[derive(Debug)]
pub struct RealTimeBoxReceiver<T> {
    pub current: T,
    pub pending: Option<T>,
}

impl<T> RealTimeBoxSender<T> {
    /// Puts out `value` in place of whatever still waits.
    pub fn send(&mut self, value: T)
        ensures
            final(self).outgoing == Some(value),
    {
        self.outgoing = Some(value);
    }

    /// Hands over the value that waits, if there is one.
    pub fn take(&mut self) -> (value: Option<T>)
        ensures
            value == old(self).outgoing,
            final(self).outgoing is None,
    {
        self.outgoing.take()
    }
}

impl<T> RealTimeBoxReceiver<T> {
    /// The receiver after the newest value has been picked up.
    pub open spec fn updated(self) -> Self {
        match self.pending {
            Some(value) => RealTimeBoxReceiver { current: value, pending: None },
            None => self,
        }
    }

    /// Brings `value` to the receiver. It comes into use at the next `update`.
    pub fn deliver(&mut self, value: T)
        ensures
            final(self).pending == Some(value),
            final(self).current == old(self).current,
    {
        self.pending = Some(value);
    }

    /// Picks up the newest value and says whether there was one.
    pub fn update(&mut self) -> (changed: bool)
        ensures
            *final(self) == old(self).updated(),
            changed == (old(self).pending is Some),
    {
        match self.pending.take() {
            Some(value) => {
                self.current = value;
                true
            },
            None => false,
        }
    }

    /// The value in use.
    pub fn get(&self) -> (value: &T)
        ensures
            *value == self.current,
    {
        &self.current
    }

    /// The value in use, to be changed in place.
    pub fn get_mut(&mut self) -> (value: &mut T)
        ensures
            *value == old(self).current,
            final(self).current == *final(value),
            final(self).pending == old(self).pending,
    {
        &mut self.current
    }
}

/// A mailbox whose receiver has `initial` in use and in which nothing waits.
pub fn channel<T>(initial: T) -> (ends: (RealTimeBoxSender<T>, RealTimeBoxReceiver<T>))
    ensures
        ends.0.outgoing is None,
        ends.1.current == initial,
        ends.1.pending is None,
{
    (
        RealTimeBoxSender { outgoing: None },
        RealTimeBoxReceiver { current: initial, pending: None },
    )
}

/// A delivered value is in use after one update, and stays in use over further updates.
pub proof fn law_newest_value_comes_into_use<T>(receiver: RealTimeBoxReceiver<T>, value: T)
    requires
        receiver.pending == Some(value),
    ensures
        receiver.updated().current == value,
        receiver.updated().updated() == receiver.updated(),
{
}

/// Without a delivery an update changes nothing, and after an update nothing waits.
pub proof fn law_update_without_delivery<T>(receiver: RealTimeBoxReceiver<T>)
    ensures
        receiver.pending is None ==> receiver.updated() == receiver,
        receiver.updated().pending is None,
{
}

} // verus!
