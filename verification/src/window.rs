//! The batched acknowledgment loop: the pending window and the decision
//! taken on each event.

use vstd::prelude::*;
use vstd::string::StringExecFns;
use crate::classify::{classify, classify_spec, Outcome, OutcomeView};
use crate::config::{Config, ConfigView};
use crate::protocol::{action_views, Action, ActionView, Delivery, DeliveryView, Event, EventView};

verus! {

/// The mathematical value of a [`PendingWindow`].
pub struct WindowView<A> {
    /// The number of deliveries accepted since the last flush.
    pub count: nat,
    /// The handle of the most recently accepted of them, if there is one.
    pub latest_acker: Option<A>,
}

impl<A> WindowView<A> {
    /// The window right after a flush, and at the start.
    pub open spec fn empty() -> WindowView<A> {
        WindowView { count: 0, latest_acker: None }
    }

    /// The window stays below the batch size, and holds a handle exactly
    /// when it has counted a delivery.
    pub open spec fn wf(self, config: ConfigView) -> bool {
        &&& self.count < config.batch_size
        &&& self.count > 0 <==> self.latest_acker is Some
    }
}

/// Whether a delivery with this outcome enters the window: accepted text
/// always, a rejected one only under its acknowledge-on-error flag.
pub open spec fn admitted(config: ConfigView, outcome: OutcomeView) -> bool {
    match outcome {
        OutcomeView::Accept(_) => true,
        OutcomeView::RejectNewline(_) => config.newline_error_ack,
        OutcomeView::RejectParseError(_) => config.parse_error_ack,
    }
}

/// The prefix of the diagnostic for a text that holds a newline.
pub open spec fn newline_prefix() -> Seq<char> {
    "message contains newlines: "@
}

/// The prefix of the diagnostic for a payload that is not valid UTF-8.
pub open spec fn parse_error_prefix() -> Seq<char> {
    "parse error: "@
}

/// What is written for an outcome: accepted text to the output stream, a
/// diagnostic for anything else to the error stream.
pub open spec fn report<A>(outcome: OutcomeView) -> ActionView<A> {
    match outcome {
        OutcomeView::Accept(text) => ActionView::Print(text),
        OutcomeView::RejectNewline(text) => ActionView::Diagnose(newline_prefix() + text),
        OutcomeView::RejectParseError(reason) => ActionView::Diagnose(
            parse_error_prefix() + reason,
        ),
    }
}

/// The window after an idle timeout, and the actions the timeout calls for:
/// a pending handle is flushed, an empty window is left alone.
pub open spec fn on_timeout_spec<A>(window: WindowView<A>) -> (WindowView<A>, Seq<ActionView<A>>) {
    match window.latest_acker {
        Some(acker) => (WindowView::empty(), seq![ActionView::Ack(acker)]),
        None => (window, seq![]),
    }
}

/// The window after a delivery, and the actions the delivery calls for.
///
/// The report comes first. A delivery that is not admitted is rejected at
/// once and leaves the window as it was. An admitted one becomes the latest
/// handle; when it fills the batch, its handle is flushed in the same step.
pub open spec fn on_delivery_spec<A>(
    config: ConfigView,
    window: WindowView<A>,
    delivery: DeliveryView<A>,
) -> (WindowView<A>, Seq<ActionView<A>>) {
    let outcome = classify_spec(delivery.payload);
    if !admitted(config, outcome) {
        (window, seq![report(outcome), ActionView::Reject(delivery.acker)])
    } else if window.count + 1 == config.batch_size {
        (WindowView::empty(), seq![report(outcome), ActionView::Ack(delivery.acker)])
    } else {
        (
            WindowView { count: window.count + 1, latest_acker: Some(delivery.acker) },
            seq![report(outcome)],
        )
    }
}

/// One iteration of the loop: the window after the event and the actions it
/// calls for.
pub open spec fn step_spec<A>(config: ConfigView, window: WindowView<A>, event: EventView<A>) -> (
    WindowView<A>,
    Seq<ActionView<A>>,
) {
    match event {
        EventView::Timeout => on_timeout_spec(window),
        EventView::Delivery(delivery) => on_delivery_spec(config, window, delivery),
    }
}

/// The accepted deliveries that await a cumulative acknowledgment: how many
/// there are, and the handle of the latest.
pub struct PendingWindow<A> {
    count: u16,
    latest_acker: Option<A>,
}

impl<A> View for PendingWindow<A> {
    type V = WindowView<A>;

    closed spec fn view(&self) -> WindowView<A> {
        WindowView { count: self.count as nat, latest_acker: self.latest_acker }
    }
}

impl<A> PendingWindow<A> {
    /// A window that holds nothing.
    pub fn new() -> (window: PendingWindow<A>)
        ensures
            window@ == WindowView::<A>::empty(),
    {
        PendingWindow { count: 0, latest_acker: None }
    }

    /// The number of deliveries accepted since the last flush.
    pub fn count(&self) -> (n: u16)
        ensures
            n == self@.count,
    {
        self.count
    }

    /// The handle that the next flush will acknowledge, if any.
    pub fn latest_acker(&self) -> (acker: Option<&A>)
        ensures
            acker is Some == self@.latest_acker is Some,
            acker matches Some(a) ==> self@.latest_acker == Some(*a),
    {
        self.latest_acker.as_ref()
    }
}

/// The loop's state: its settings and its pending window.
pub struct BatchedAckLoop<A> {
    config: Config,
    window: PendingWindow<A>,
}

impl<A> BatchedAckLoop<A> {
    /// Holds of every loop that exists at run time: the settings are well
    /// formed and the window is well formed for them.
    #[verifier::type_invariant]
    pub open spec fn well_formed(&self) -> bool {
        self.config().wf() && self.window().wf(self.config())
    }

    /// The settings the loop was built with.
    pub closed spec fn config(&self) -> ConfigView {
        self.config@
    }

    /// The pending window.
    pub closed spec fn window(&self) -> WindowView<A> {
        self.window@
    }

    /// A loop in its initial state: waiting, with an empty window.
    pub fn new(config: Config) -> (state: BatchedAckLoop<A>)
        ensures
            state.config() == config@,
            state.window() == WindowView::<A>::empty(),
    {
        proof {
            use_type_invariant(&config);
        }
        BatchedAckLoop { config, window: PendingWindow::new() }
    }

    /// The settings the loop was built with.
    pub fn settings(&self) -> (config: &Config)
        ensures
            config@ == self.config(),
    {
        &self.config
    }

    /// The pending window as it stands.
    pub fn pending(&self) -> (window: &PendingWindow<A>)
        ensures
            window@ == self.window(),
    {
        &self.window
    }

    /// Handles an idle timeout: flushes the pending handle, if there is one.
    pub fn on_timeout(&mut self) -> (actions: Vec<Action<A>>)
        ensures
            final(self).config() == old(self).config(),
            (final(self).window(), action_views(actions@)) == on_timeout_spec(old(self).window()),
            final(self).window().wf(final(self).config()),
    {
        proof {
            use_type_invariant(&*self);
        }
        let mut actions: Vec<Action<A>> = Vec::new();
        let mut taken = PendingWindow::new();
        core::mem::swap(&mut self.window, &mut taken);
        match taken.latest_acker {
            Some(acker) => {
                actions.push(Action::Ack(acker));
                assert(action_views(actions@) =~= seq![ActionView::Ack(acker)]);
            },
            None => {
                assert(action_views(actions@) =~= Seq::<ActionView<A>>::empty());
            },
        }
        actions
    }

    /// Handles one delivery: classifies its payload, reports the outcome, and
    /// either rejects the delivery at once or takes it into the window,
    /// flushing when it fills the batch.
    pub fn on_delivery(&mut self, delivery: Delivery<A>) -> (actions: Vec<Action<A>>)
        ensures
            final(self).config() == old(self).config(),
            (final(self).window(), action_views(actions@)) == on_delivery_spec(
                old(self).config(),
                old(self).window(),
                delivery@,
            ),
            final(self).window().wf(final(self).config()),
    {
        proof {
            use_type_invariant(&*self);
        }
        let Delivery { payload, acker } = delivery;
        let outcome = classify(payload.as_slice());
        let enters = admits(&self.config, &outcome);
        let mut actions: Vec<Action<A>> = Vec::new();
        actions.push(report_action(outcome));
        if !enters {
            actions.push(Action::Reject(acker));
            assert(action_views(actions@) =~= on_delivery_spec(
                old(self).config(),
                old(self).window(),
                delivery@,
            ).1);
        } else if self.window.count + 1 == self.config.batch_size() {
            self.window = PendingWindow::new();
            actions.push(Action::Ack(acker));
            assert(action_views(actions@) =~= on_delivery_spec(
                old(self).config(),
                old(self).window(),
                delivery@,
            ).1);
        } else {
            self.window = PendingWindow { count: self.window.count + 1, latest_acker: Some(acker) };
            assert(action_views(actions@) =~= on_delivery_spec(
                old(self).config(),
                old(self).window(),
                delivery@,
            ).1);
        }
        actions
    }

    /// Runs one iteration of the loop on the event that ended the wait.
    pub fn step(&mut self, event: Event<A>) -> (actions: Vec<Action<A>>)
        ensures
            final(self).config() == old(self).config(),
            (final(self).window(), action_views(actions@)) == step_spec(
                old(self).config(),
                old(self).window(),
                event@,
            ),
            final(self).window().wf(final(self).config()),
    {
        match event {
            Event::Timeout => self.on_timeout(),
            Event::Delivery(delivery) => self.on_delivery(delivery),
        }
    }
}

/// Whether a delivery with this outcome enters the window under `config`.
pub fn admits(config: &Config, outcome: &Outcome) -> (enters: bool)
    ensures
        enters == admitted(config@, outcome@),
{
    match outcome {
        Outcome::Accept(_) => true,
        Outcome::RejectNewline(_) => config.newline_error_ack(),
        Outcome::RejectParseError(_) => config.parse_error_ack(),
    }
}

/// The line to write for an outcome: accepted text for the output stream, a
/// diagnostic for the error stream otherwise.
pub fn report_action<A>(outcome: Outcome) -> (action: Action<A>)
    ensures
        action@ == report::<A>(outcome@),
{
    match outcome {
        Outcome::Accept(text) => Action::Print(text),
        Outcome::RejectNewline(text) => {
            let mut line = String::from_str("message contains newlines: ");
            line.append(text.as_str());
            Action::Diagnose(line)
        },
        Outcome::RejectParseError(reason) => {
            let mut line = String::from_str("parse error: ");
            line.append(reason.as_str());
            Action::Diagnose(line)
        },
    }
}

} // verus!
