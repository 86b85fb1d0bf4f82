//! What the loop receives and what it asks its driver to do.
//!
//! The acknowledgment handle of a delivery is a type parameter: the loop only
//! moves handles around and never looks inside one, so a broker client's
//! handle and a plain number in a scripted run serve equally.

use vstd::prelude::*;

verus! {

/// One message received from the broker.
#[derive(Debug, PartialEq, Eq)]
pub struct Delivery<A> {
    /// The message body.
    pub payload: Vec<u8>,
    /// The handle that acknowledges or rejects this delivery.
    pub acker: A,
}

/// The mathematical value of a [`Delivery`].
pub struct DeliveryView<A> {
    pub payload: Seq<u8>,
    pub acker: A,
}

impl<A> View for Delivery<A> {
    type V = DeliveryView<A>;

    open spec fn view(&self) -> DeliveryView<A> {
        DeliveryView { payload: self.payload@, acker: self.acker }
    }
}

/// What one bounded wait for the next delivery ended with.
#[derive(Debug, PartialEq, Eq)]
pub enum Event<A> {
    /// Nothing arrived within the idle timeout.
    Timeout,
    /// A delivery arrived.
    Delivery(Delivery<A>),
}

/// The mathematical value of an [`Event`].
pub enum EventView<A> {
    Timeout,
    Delivery(DeliveryView<A>),
}

impl<A> View for Event<A> {
    type V = EventView<A>;

    open spec fn view(&self) -> EventView<A> {
        match self {
            Event::Timeout => EventView::Timeout,
            Event::Delivery(delivery) => EventView::Delivery(delivery@),
        }
    }
}

/// One thing the driver of the loop must do, in the order given.
#[derive(Debug, PartialEq, Eq)]
pub enum Action<A> {
    /// Write the text as one line to the output stream.
    Print(String),
    /// Write the text as one line to the error stream.
    Diagnose(String),
    /// Reject the delivery of this handle, and only that delivery.
    Reject(A),
    /// Acknowledge the delivery of this handle and, cumulatively, every
    /// earlier delivery not yet settled.
    Ack(A),
}

/// The mathematical value of an [`Action`].
pub enum ActionView<A> {
    Print(Seq<char>),
    Diagnose(Seq<char>),
    Reject(A),
    Ack(A),
}

impl<A> View for Action<A> {
    type V = ActionView<A>;

    open spec fn view(&self) -> ActionView<A> {
        match self {
            Action::Print(text) => ActionView::Print(text@),
            Action::Diagnose(text) => ActionView::Diagnose(text@),
            Action::Reject(acker) => ActionView::Reject(*acker),
            Action::Ack(acker) => ActionView::Ack(*acker),
        }
    }
}

/// The values of a list of actions, in order.
pub open spec fn action_views<A>(actions: Seq<Action<A>>) -> Seq<ActionView<A>> {
    Seq::new(actions.len(), |i: int| actions[i]@)
}

/// The values of a list of events, in order.
pub open spec fn event_views<A>(events: Seq<Event<A>>) -> Seq<EventView<A>> {
    Seq::new(events.len(), |i: int| events[i]@)
}

} // verus!
