//! Whole runs of the loop over a scripted sequence of events, and what holds
//! of every such run.

use vstd::prelude::*;
use crate::config::ConfigView;
use crate::protocol::{action_views, event_views, Action, ActionView, Event, EventView};
use crate::classify::{classify_spec, OutcomeView};
use crate::protocol::DeliveryView;
use crate::window::{
    admitted, on_delivery_spec, on_timeout_spec, report, step_spec, BatchedAckLoop, WindowView,
};

verus! {

/// The window after the loop has taken `events` in order, starting from
/// `window`, and all the actions it called for, in order.
pub open spec fn run_spec<A>(
    config: ConfigView,
    window: WindowView<A>,
    events: Seq<EventView<A>>,
) -> (WindowView<A>, Seq<ActionView<A>>)
    decreases events.len(),
{
    if events.len() == 0 {
        (window, seq![])
    } else {
        let (before, done) = run_spec(config, window, events.drop_last());
        let (after, called) = step_spec(config, before, events.last());
        (after, done + called)
    }
}

/// The handles that the actions acknowledge, in order.
pub open spec fn acked<A>(actions: Seq<ActionView<A>>) -> Seq<A>
    decreases actions.len(),
{
    if actions.len() == 0 {
        seq![]
    } else {
        match actions.last() {
            ActionView::Ack(acker) => acked(actions.drop_last()).push(acker),
            _ => acked(actions.drop_last()),
        }
    }
}

/// The handles that the actions reject, in order.
pub open spec fn rejected<A>(actions: Seq<ActionView<A>>) -> Seq<A>
    decreases actions.len(),
{
    if actions.len() == 0 {
        seq![]
    } else {
        match actions.last() {
            ActionView::Reject(acker) => rejected(actions.drop_last()).push(acker),
            _ => rejected(actions.drop_last()),
        }
    }
}

/// The lines that the actions write to the output stream, in order.
pub open spec fn printed<A>(actions: Seq<ActionView<A>>) -> Seq<Seq<char>>
    decreases actions.len(),
{
    if actions.len() == 0 {
        seq![]
    } else {
        match actions.last() {
            ActionView::Print(text) => printed(actions.drop_last()).push(text),
            _ => printed(actions.drop_last()),
        }
    }
}

/// Acknowledged handles of two action lists in a row are those of the first
/// followed by those of the second.
pub proof fn lemma_acked_concat<A>(first: Seq<ActionView<A>>, second: Seq<ActionView<A>>)
    ensures
        acked(first + second) == acked(first) + acked(second),
    decreases second.len(),
{
    if second.len() == 0 {
        assert(first + second =~= first);
        assert(acked(first) + acked(second) =~= acked(first));
    } else {
        assert((first + second).drop_last() =~= first + second.drop_last());
        assert((first + second).last() == second.last());
        lemma_acked_concat(first, second.drop_last());
        assert(acked(first + second) =~= acked(first) + acked(second));
    }
}

/// Rejected handles of two action lists in a row are those of the first
/// followed by those of the second.
pub proof fn lemma_rejected_concat<A>(first: Seq<ActionView<A>>, second: Seq<ActionView<A>>)
    ensures
        rejected(first + second) == rejected(first) + rejected(second),
    decreases second.len(),
{
    if second.len() == 0 {
        assert(first + second =~= first);
        assert(rejected(first) + rejected(second) =~= rejected(first));
    } else {
        assert((first + second).drop_last() =~= first + second.drop_last());
        assert((first + second).last() == second.last());
        lemma_rejected_concat(first, second.drop_last());
        assert(rejected(first + second) =~= rejected(first) + rejected(second));
    }
}

/// Printed lines of two action lists in a row are those of the first
/// followed by those of the second.
pub proof fn lemma_printed_concat<A>(first: Seq<ActionView<A>>, second: Seq<ActionView<A>>)
    ensures
        printed(first + second) == printed(first) + printed(second),
    decreases second.len(),
{
    if second.len() == 0 {
        assert(first + second =~= first);
        assert(printed(first) + printed(second) =~= printed(first));
    } else {
        assert((first + second).drop_last() =~= first + second.drop_last());
        assert((first + second).last() == second.last());
        lemma_printed_concat(first, second.drop_last());
        assert(printed(first + second) =~= printed(first) + printed(second));
    }
}

/// Running two scripts in a row is running the first, then the second from
/// the window the first left.
pub proof fn lemma_run_concat<A>(
    config: ConfigView,
    window: WindowView<A>,
    first: Seq<EventView<A>>,
    second: Seq<EventView<A>>,
)
    ensures
        run_spec(config, window, first + second).0 == run_spec(
            config,
            run_spec(config, window, first).0,
            second,
        ).0,
        run_spec(config, window, first + second).1 == run_spec(config, window, first).1 + run_spec(
            config,
            run_spec(config, window, first).0,
            second,
        ).1,
    decreases second.len(),
{
    let middle = run_spec(config, window, first).0;
    if second.len() == 0 {
        assert(first + second =~= first);
        assert(run_spec(config, window, first).1 + run_spec(config, middle, second).1
            =~= run_spec(config, window, first).1);
    } else {
        assert((first + second).drop_last() =~= first + second.drop_last());
        assert((first + second).last() == second.last());
        lemma_run_concat(config, window, first, second.drop_last());
        let before = run_spec(config, middle, second.drop_last());
        let called = step_spec(config, before.0, second.last()).1;
        assert(run_spec(config, window, first).1 + (before.1 + called) =~= (run_spec(
            config,
            window,
            first,
        ).1 + before.1) + called);
    }
}

/// A script of one event is one step.
pub proof fn lemma_run_single<A>(config: ConfigView, window: WindowView<A>, event: EventView<A>)
    ensures
        run_spec(config, window, seq![event]) == step_spec(config, window, event),
{
    let one = seq![event];
    assert(one.drop_last() =~= Seq::<EventView<A>>::empty());
    assert(one.last() == event);
    let nothing = run_spec(config, window, one.drop_last());
    assert(nothing.0 == window);
    let called = step_spec(config, window, event).1;
    assert(nothing.1 + called =~= called);
}

/// A single step keeps a well-formed window well formed.
pub proof fn lemma_step_keeps_wf<A>(config: ConfigView, window: WindowView<A>, event: EventView<A>)
    requires
        config.wf(),
        window.wf(config),
    ensures
        step_spec(config, window, event).0.wf(config),
{
}

/// Every run keeps a well-formed window well formed.
pub proof fn lemma_run_keeps_wf<A>(
    config: ConfigView,
    window: WindowView<A>,
    events: Seq<EventView<A>>,
)
    requires
        config.wf(),
        window.wf(config),
    ensures
        run_spec(config, window, events).0.wf(config),
    decreases events.len(),
{
    if events.len() > 0 {
        lemma_run_keeps_wf(config, window, events.drop_last());
        lemma_step_keeps_wf(
            config,
            run_spec(config, window, events.drop_last()).0,
            events.last(),
        );
    }
}

/// The effects of a single action.
pub proof fn lemma_single_action<A>(action: ActionView<A>)
    ensures
        acked(seq![action]) == match action {
            ActionView::Ack(acker) => seq![acker],
            _ => seq![],
        },
        rejected(seq![action]) == match action {
            ActionView::Reject(acker) => seq![acker],
            _ => seq![],
        },
        printed(seq![action]) == match action {
            ActionView::Print(text) => seq![text],
            _ => seq![],
        },
{
    let one = seq![action];
    let none = Seq::<ActionView<A>>::empty();
    assert(one.drop_last() =~= none);
    assert(one.last() == action);
    assert(acked(none) =~= Seq::<A>::empty());
    assert(rejected(none) =~= Seq::<A>::empty());
    assert(printed(none) =~= Seq::<Seq<char>>::empty());
    assert(acked(one) =~= match action {
        ActionView::Ack(acker) => seq![acker],
        _ => seq![],
    });
    assert(rejected(one) =~= match action {
        ActionView::Reject(acker) => seq![acker],
        _ => seq![],
    });
    assert(printed(one) =~= match action {
        ActionView::Print(text) => seq![text],
        _ => seq![],
    });
}

/// What one delivery contributes to a run: an acknowledgment exactly when it
/// is admitted and fills the batch, a rejection exactly when it is not
/// admitted, a printed line exactly when its text is accepted.
pub proof fn lemma_delivery_effects<A>(
    config: ConfigView,
    window: WindowView<A>,
    delivery: DeliveryView<A>,
)
    ensures
        ({
            let outcome = classify_spec(delivery.payload);
            let called = on_delivery_spec(config, window, delivery).1;
            &&& acked(called) == if admitted(config, outcome) && window.count + 1
                == config.batch_size {
                seq![delivery.acker]
            } else {
                seq![]
            }
            &&& rejected(called) == if admitted(config, outcome) {
                seq![]
            } else {
                seq![delivery.acker]
            }
            &&& printed(called) == match outcome {
                OutcomeView::Accept(text) => seq![text],
                _ => seq![],
            }
        }),
{
    let outcome = classify_spec(delivery.payload);
    let called = on_delivery_spec(config, window, delivery).1;
    let first = seq![report::<A>(outcome)];
    lemma_single_action(report::<A>(outcome));
    if called.len() == 2 {
        let second = seq![called[1]];
        lemma_single_action(called[1]);
        assert(called =~= first + second);
        lemma_acked_concat(first, second);
        lemma_rejected_concat(first, second);
        lemma_printed_concat(first, second);
        assert(acked(first) + acked(second) =~= acked(second));
        assert(rejected(first) + rejected(second) =~= rejected(second));
        assert(printed(first) + printed(second) =~= printed(first));
    } else {
        assert(called =~= first);
    }
}

/// What one idle timeout contributes to a run: the acknowledgment of the
/// pending handle, if there is one, and nothing else.
pub proof fn lemma_timeout_effects<A>(window: WindowView<A>)
    ensures
        acked(on_timeout_spec(window).1) == match window.latest_acker {
            Some(acker) => seq![acker],
            None => seq![],
        },
        rejected(on_timeout_spec(window).1) == Seq::<A>::empty(),
        printed(on_timeout_spec(window).1) == Seq::<Seq<char>>::empty(),
{
    match window.latest_acker {
        Some(acker) => {
            lemma_single_action(ActionView::Ack(acker));
        },
        None => {
            let none = Seq::<ActionView<A>>::empty();
            assert(acked(none) =~= Seq::<A>::empty());
            assert(rejected(none) =~= Seq::<A>::empty());
            assert(printed(none) =~= Seq::<Seq<char>>::empty());
        },
    }
}

/// Whether the event is a delivery that enters the window under `config`.
pub open spec fn is_admitted<A>(config: ConfigView, event: EventView<A>) -> bool {
    event matches EventView::Delivery(delivery) && admitted(
        config,
        classify_spec(delivery.payload),
    )
}

/// Whether every event of the script is a delivery that enters the window.
pub open spec fn all_admitted<A>(config: ConfigView, events: Seq<EventView<A>>) -> bool {
    forall|i: int| 0 <= i < events.len() ==> is_admitted(config, #[trigger] events[i])
}

/// The handle that came with a delivery event.
pub open spec fn handle_of<A>(event: EventView<A>) -> A
    recommends
        event is Delivery,
{
    match event {
        EventView::Delivery(delivery) => delivery.acker,
        EventView::Timeout => arbitrary(),
    }
}

/// Admitted deliveries that do not fill the batch only grow the window: none
/// is acknowledged or rejected, and the last one's handle is the pending one.
pub proof fn lemma_window_fills<A>(
    config: ConfigView,
    window: WindowView<A>,
    events: Seq<EventView<A>>,
)
    requires
        config.wf(),
        window.wf(config),
        all_admitted(config, events),
        events.len() >= 1,
        window.count + events.len() < config.batch_size,
    ensures
        run_spec(config, window, events).0 == (WindowView {
            count: window.count + events.len(),
            latest_acker: Some(handle_of(events.last())),
        }),
        acked(run_spec(config, window, events).1) == Seq::<A>::empty(),
        rejected(run_spec(config, window, events).1) == Seq::<A>::empty(),
    decreases events.len(),
{
    let earlier = events.drop_last();
    let (before, done) = run_spec(config, window, earlier);
    assert(is_admitted(config, events[events.len() - 1]));
    let delivery = events.last()->Delivery_0;
    if earlier.len() == 0 {
        assert(acked(done) =~= Seq::<A>::empty());
        assert(rejected(done) =~= Seq::<A>::empty());
    } else {
        assert forall|i: int| 0 <= i < earlier.len() implies is_admitted(
            config,
            #[trigger] earlier[i],
        ) by {
            assert(earlier[i] == events[i]);
        }
        lemma_window_fills(config, window, earlier);
    }
    let called = on_delivery_spec(config, before, delivery).1;
    lemma_delivery_effects(config, before, delivery);
    lemma_acked_concat(done, called);
    lemma_rejected_concat(done, called);
}

/// Admitted deliveries that bring the window up to the batch size end in one
/// cumulative acknowledgment, on the handle of the last of them: it is the
/// only acknowledgment of the run and its final action, nothing is rejected,
/// and the window is left empty.
pub proof fn lemma_batch_completes<A>(
    config: ConfigView,
    window: WindowView<A>,
    events: Seq<EventView<A>>,
)
    requires
        config.wf(),
        window.wf(config),
        all_admitted(config, events),
        window.count + events.len() == config.batch_size,
    ensures
        run_spec(config, window, events).0 == WindowView::<A>::empty(),
        acked(run_spec(config, window, events).1) == seq![handle_of(events.last())],
        rejected(run_spec(config, window, events).1) == Seq::<A>::empty(),
        run_spec(config, window, events).1.last() == ActionView::Ack(handle_of(events.last())),
{
    let earlier = events.drop_last();
    let (before, done) = run_spec(config, window, earlier);
    assert(is_admitted(config, events[events.len() - 1]));
    let delivery = events.last()->Delivery_0;
    if earlier.len() == 0 {
        assert(acked(done) =~= Seq::<A>::empty());
        assert(rejected(done) =~= Seq::<A>::empty());
    } else {
        assert forall|i: int| 0 <= i < earlier.len() implies is_admitted(
            config,
            #[trigger] earlier[i],
        ) by {
            assert(earlier[i] == events[i]);
        }
        lemma_window_fills(config, window, earlier);
    }
    let called = on_delivery_spec(config, before, delivery).1;
    lemma_delivery_effects(config, before, delivery);
    lemma_acked_concat(done, called);
    lemma_rejected_concat(done, called);
    assert(acked(done + called) =~= seq![delivery.acker]);
    assert(rejected(done + called) =~= Seq::<A>::empty());
}

/// Batch-size flush: a full batch of admitted deliveries, taken from an
/// empty window with no timeout in between, is settled by exactly one
/// cumulative acknowledgment. It is issued on the handle of the last
/// delivery of the batch, as the final action of those deliveries, so before
/// any later delivery is looked at.
pub proof fn theorem_batch_size_flush<A>(config: ConfigView, events: Seq<EventView<A>>)
    requires
        config.wf(),
        all_admitted(config, events),
        events.len() == config.batch_size,
    ensures
        acked(run_spec(config, WindowView::<A>::empty(), events).1) == seq![
            handle_of(events.last()),
        ],
        rejected(run_spec(config, WindowView::<A>::empty(), events).1) == Seq::<A>::empty(),
        run_spec(config, WindowView::<A>::empty(), events).1.last() == ActionView::Ack(
            handle_of(events.last()),
        ),
        run_spec(config, WindowView::<A>::empty(), events).0 == WindowView::<A>::empty(),
{
    lemma_batch_completes(config, WindowView::<A>::empty(), events);
}

/// Idle flush: one admitted delivery followed by an idle timeout is
/// acknowledged exactly once, on its own handle, and the count is back at
/// zero.
pub proof fn theorem_idle_flush<A>(config: ConfigView, delivery: DeliveryView<A>)
    requires
        config.wf(),
        admitted(config, classify_spec(delivery.payload)),
    ensures
        ({
            let events = seq![EventView::Delivery(delivery), EventView::Timeout];
            let (window, actions) = run_spec(config, WindowView::<A>::empty(), events);
            &&& acked(actions) == seq![delivery.acker]
            &&& rejected(actions) == Seq::<A>::empty()
            &&& window == WindowView::<A>::empty()
        }),
{
    let start = WindowView::<A>::empty();
    let events = seq![EventView::Delivery(delivery), EventView::Timeout];
    let first = seq![EventView::Delivery(delivery)];
    assert(events.drop_last() =~= first);
    lemma_run_single(config, start, EventView::Delivery(delivery));
    let (middle, called) = on_delivery_spec(config, start, delivery);
    let (last, flushed) = on_timeout_spec(middle);
    lemma_delivery_effects(config, start, delivery);
    lemma_timeout_effects(middle);
    lemma_acked_concat(called, flushed);
    lemma_rejected_concat(called, flushed);
    assert(acked(called + flushed) =~= seq![delivery.acker]);
    assert(rejected(called + flushed) =~= Seq::<A>::empty());
}

/// Rejection leaves the window alone: a delivery that is not admitted is
/// rejected on its own handle, acknowledges nothing, and the window after it
/// is the window before it.
pub proof fn theorem_rejection_leaves_window<A>(
    config: ConfigView,
    window: WindowView<A>,
    delivery: DeliveryView<A>,
)
    requires
        !admitted(config, classify_spec(delivery.payload)),
    ensures
        on_delivery_spec(config, window, delivery).0 == window,
        acked(on_delivery_spec(config, window, delivery).1) == Seq::<A>::empty(),
        rejected(on_delivery_spec(config, window, delivery).1) == seq![delivery.acker],
        printed(on_delivery_spec(config, window, delivery).1) == Seq::<Seq<char>>::empty(),
{
    lemma_delivery_effects(config, window, delivery);
}

/// A delivery that is not admitted has no influence on what follows: with it
/// or without it in the script, the run ends in the same window and
/// acknowledges the same handles and prints the same lines.
pub proof fn theorem_rejected_delivery_is_invisible<A>(
    config: ConfigView,
    window: WindowView<A>,
    before: Seq<EventView<A>>,
    delivery: DeliveryView<A>,
    after: Seq<EventView<A>>,
)
    requires
        !admitted(config, classify_spec(delivery.payload)),
    ensures
        ({
            let with = run_spec(
                config,
                window,
                before + seq![EventView::Delivery(delivery)] + after,
            );
            let without = run_spec(config, window, before + after);
            &&& with.0 == without.0
            &&& acked(with.1) == acked(without.1)
            &&& printed(with.1) == printed(without.1)
        }),
{
    let one = seq![EventView::Delivery(delivery)];
    let (reached, done) = run_spec(config, window, before);
    lemma_run_concat(config, window, before, one);
    lemma_run_concat(config, window, before + one, after);
    lemma_run_concat(config, window, before, after);
    lemma_run_single(config, reached, EventView::Delivery(delivery));
    let called = on_delivery_spec(config, reached, delivery).1;
    theorem_rejection_leaves_window(config, reached, delivery);
    let rest = run_spec(config, reached, after).1;
    lemma_acked_concat(done, called);
    lemma_acked_concat(done + called, rest);
    lemma_acked_concat(done, rest);
    lemma_printed_concat(done, called);
    lemma_printed_concat(done + called, rest);
    lemma_printed_concat(done, rest);
    assert(acked(done) + acked(called) =~= acked(done));
    assert(printed(done) + printed(called) =~= printed(done));
}

/// The handle of the most recent delivery of the script that entered the
/// window, if any did.
pub open spec fn latest_admitted<A>(config: ConfigView, events: Seq<EventView<A>>) -> Option<A>
    decreases events.len(),
{
    if events.len() == 0 {
        None
    } else if is_admitted(config, events.last()) {
        Some(handle_of(events.last()))
    } else {
        latest_admitted(config, events.drop_last())
    }
}

/// The pending handle is always that of the most recently admitted
/// delivery: whatever the script, a handle held by the window after it is
/// the handle of the last delivery that was admitted.
pub proof fn theorem_pending_is_latest_admitted<A>(config: ConfigView, events: Seq<EventView<A>>)
    requires
        config.wf(),
    ensures
        run_spec(config, WindowView::<A>::empty(), events).0.latest_acker is Some ==> run_spec(
            config,
            WindowView::<A>::empty(),
            events,
        ).0.latest_acker == latest_admitted(config, events),
    decreases events.len(),
{
    if events.len() > 0 {
        theorem_pending_is_latest_admitted(config, events.drop_last());
    }
}

/// A flush only ever covers admitted deliveries: whenever an iteration
/// acknowledges, by batch size or by idle timeout, it acknowledges one
/// handle, and that is the handle of the most recently admitted delivery.
pub proof fn theorem_flush_acknowledges_latest_admitted<A>(
    config: ConfigView,
    earlier: Seq<EventView<A>>,
    event: EventView<A>,
)
    requires
        config.wf(),
    ensures
        ({
            let window = run_spec(config, WindowView::<A>::empty(), earlier).0;
            let flushed = acked(step_spec(config, window, event).1);
            ||| flushed == Seq::<A>::empty()
            ||| (flushed.len() == 1 && Some(flushed[0]) == latest_admitted(
                config,
                earlier.push(event),
            ))
        }),
{
    let window = run_spec(config, WindowView::<A>::empty(), earlier).0;
    let events = earlier.push(event);
    assert(events.drop_last() =~= earlier);
    assert(events.last() == event);
    theorem_pending_is_latest_admitted(config, earlier);
    match event {
        EventView::Timeout => {
            lemma_timeout_effects(window);
        },
        EventView::Delivery(delivery) => {
            lemma_delivery_effects(config, window, delivery);
        },
    }
}

/// The texts of the deliveries that the classifier accepts, in the order
/// the deliveries were received.
pub open spec fn accepted_texts<A>(events: Seq<EventView<A>>) -> Seq<Seq<char>>
    decreases events.len(),
{
    if events.len() == 0 {
        seq![]
    } else {
        match events.last() {
            EventView::Delivery(delivery) => match classify_spec(delivery.payload) {
                OutcomeView::Accept(text) => accepted_texts(events.drop_last()).push(text),
                _ => accepted_texts(events.drop_last()),
            },
            EventView::Timeout => accepted_texts(events.drop_last()),
        }
    }
}

/// Order preservation: whatever the settings, the window at the start and
/// the mix of accepted and rejected deliveries and timeouts, the lines
/// printed to the output stream are the accepted texts in receipt order.
pub proof fn theorem_output_in_receipt_order<A>(
    config: ConfigView,
    window: WindowView<A>,
    events: Seq<EventView<A>>,
)
    ensures
        printed(run_spec(config, window, events).1) == accepted_texts(events),
    decreases events.len(),
{
    if events.len() == 0 {
        assert(printed(Seq::<ActionView<A>>::empty()) =~= Seq::<Seq<char>>::empty());
    } else {
        let (before, done) = run_spec(config, window, events.drop_last());
        let called = step_spec(config, before, events.last()).1;
        theorem_output_in_receipt_order(config, window, events.drop_last());
        lemma_printed_concat(done, called);
        match events.last() {
            EventView::Timeout => {
                lemma_timeout_effects(before);
                assert(printed(done) + printed(called) =~= printed(done));
            },
            EventView::Delivery(delivery) => {
                lemma_delivery_effects(config, before, delivery);
                assert(printed(done) + printed(called) =~= match classify_spec(
                    delivery.payload,
                ) {
                    OutcomeView::Accept(text) => printed(done).push(text),
                    _ => printed(done),
                });
            },
        }
    }
}

impl<A> BatchedAckLoop<A> {
    /// Feeds a scripted sequence of events to the loop, one iteration each,
    /// and collects every action in the order the loop called for it.
    pub fn replay(&mut self, events: Vec<Event<A>>) -> (actions: Vec<Action<A>>)
        ensures
            final(self).config() == old(self).config(),
            (final(self).window(), action_views(actions@)) == run_spec(
                old(self).config(),
                old(self).window(),
                event_views(events@),
            ),
            final(self).window().wf(final(self).config()),
    {
        let ghost script = event_views(events@);
        let mut actions: Vec<Action<A>> = Vec::new();
        proof {
            use_type_invariant(&*self);
        }
        for event in it: events
            invariant
                it.seq() == events@,
                script == event_views(events@),
                self.config() == old(self).config(),
                self.window().wf(self.config()),
                (self.window(), action_views(actions@)) == run_spec(
                    old(self).config(),
                    old(self).window(),
                    script.take(it.index() as int),
                ),
        {
            let ghost taken = script.take(it.index() + 1);
            let ghost done = action_views(actions@);
            assert(taken.drop_last() =~= script.take(it.index() as int));
            assert(taken.last() == event@);
            let mut called = self.step(event);
            let ghost called_views = action_views(called@);
            actions.append(&mut called);
            assert(action_views(actions@) =~= done + called_views);
        }
        assert(script.take(script.len() as int) =~= script);
        actions
    }
}

} // verus!
