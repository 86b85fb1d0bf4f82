use amqp_cli::config::Config;
use amqp_cli::protocol::{Action, Delivery, Event};
use amqp_cli::window::BatchedAckLoop;

fn arrival(text: &[u8], acker: u64) -> Event<u64> {
    Event::Delivery(Delivery { payload: text.to_vec(), acker })
}

fn fresh(batch_size: u16, newline_error_ack: bool, parse_error_ack: bool) -> BatchedAckLoop<u64> {
    BatchedAckLoop::new(Config::new(batch_size, 1000, newline_error_ack, parse_error_ack).unwrap())
}

fn stdout_of(actions: &[Action<u64>]) -> String {
    let mut out = String::new();
    for action in actions {
        if let Action::Print(text) = action {
            out.push_str(text);
            out.push('\n');
        }
    }
    out
}

fn stderr_of(actions: &[Action<u64>]) -> String {
    let mut out = String::new();
    for action in actions {
        if let Action::Diagnose(text) = action {
            out.push_str(text);
            out.push('\n');
        }
    }
    out
}

fn acks_of(actions: &[Action<u64>]) -> Vec<u64> {
    let mut acks = Vec::new();
    for action in actions {
        if let Action::Ack(acker) = action {
            acks.push(*acker);
        }
    }
    acks
}

fn rejects_of(actions: &[Action<u64>]) -> Vec<u64> {
    let mut rejects = Vec::new();
    for action in actions {
        if let Action::Reject(acker) = action {
            rejects.push(*acker);
        }
    }
    rejects
}

#[test]
fn two_lines_fill_a_batch_of_two() {
    let mut state = fresh(2, false, false);
    let actions = state.replay(vec![arrival(b"alpha", 1), arrival(b"beta", 2)]);
    assert_eq!(stdout_of(&actions), "alpha\nbeta\n");
    assert_eq!(acks_of(&actions), vec![2]);
    assert_eq!(rejects_of(&actions), Vec::<u64>::new());
    assert_eq!(
        actions,
        vec![
            Action::Print("alpha".to_string()),
            Action::Print("beta".to_string()),
            Action::Ack(2),
        ]
    );
    assert_eq!(state.pending().count(), 0);
    assert_eq!(state.pending().latest_acker(), None);
}

#[test]
fn invalid_utf8_is_rejected_at_once() {
    let mut state = fresh(2, false, false);
    state.on_delivery(Delivery { payload: b"kept".to_vec(), acker: 1 });
    let actions = state.step(arrival(&[0xff, 0xfe, 0xfd], 2));
    assert_eq!(rejects_of(&actions), vec![2]);
    assert_eq!(acks_of(&actions), Vec::<u64>::new());
    assert_eq!(stdout_of(&actions), "");
    assert!(stderr_of(&actions).starts_with("parse error: "));
    assert!(stderr_of(&actions).len() > "parse error: \n".len());
    assert_eq!(state.pending().count(), 1);
    assert_eq!(state.pending().latest_acker(), Some(&1));
}

#[test]
fn invalid_utf8_on_empty_window_leaves_it_empty() {
    let mut state = fresh(2, false, false);
    let actions = state.step(arrival(&[0x80], 9));
    assert_eq!(rejects_of(&actions), vec![9]);
    assert_eq!(state.pending().count(), 0);
    assert_eq!(state.pending().latest_acker(), None);
    assert_eq!(state.on_timeout(), Vec::<Action<u64>>::new());
}

#[test]
fn acknowledged_newline_text_is_held_but_not_printed() {
    let mut state = fresh(4, true, false);
    let actions = state.step(arrival(b"foo\nbar", 7));
    assert_eq!(stdout_of(&actions), "");
    assert_eq!(actions, vec![Action::Diagnose("message contains newlines: foo\nbar".to_string())]);
    assert!(stderr_of(&actions).contains("foo\nbar"));
    assert_eq!(rejects_of(&actions), Vec::<u64>::new());
    assert_eq!(state.pending().latest_acker(), Some(&7));
    assert_eq!(state.pending().count(), 1);
    assert_eq!(state.on_timeout(), vec![Action::Ack(7)]);
}

#[test]
fn full_default_batch_is_acknowledged_once() {
    let mut state: BatchedAckLoop<u64> = BatchedAckLoop::new(Config::with_defaults(false, false));
    let mut script = Vec::new();
    for tag in 1..=256u64 {
        script.push(arrival(format!("line {}", tag).as_bytes(), tag));
    }
    let actions = state.replay(script);
    assert_eq!(acks_of(&actions), vec![256]);
    assert_eq!(rejects_of(&actions), Vec::<u64>::new());
    assert_eq!(actions.last(), Some(&Action::Ack(256)));
    assert_eq!(actions.len(), 257);
    assert_eq!(state.pending().count(), 0);
    let next = state.step(arrival(b"line 257", 257));
    assert_eq!(next, vec![Action::Print("line 257".to_string())]);
    assert_eq!(state.pending().count(), 1);
}

#[test]
fn one_short_of_a_batch_acknowledges_nothing() {
    let mut state = fresh(5, false, false);
    let mut script = Vec::new();
    for tag in 1..=4u64 {
        script.push(arrival(b"x", tag));
    }
    let actions = state.replay(script);
    assert_eq!(acks_of(&actions), Vec::<u64>::new());
    assert_eq!(state.pending().count(), 4);
    assert_eq!(state.pending().latest_acker(), Some(&4));
}

#[test]
fn single_delivery_then_silence_is_acknowledged_once() {
    let mut state = fresh(256, false, false);
    let actions = state.replay(vec![arrival(b"only", 42), Event::Timeout, Event::Timeout]);
    assert_eq!(acks_of(&actions), vec![42]);
    assert_eq!(
        actions,
        vec![Action::Print("only".to_string()), Action::Ack(42)]
    );
    assert_eq!(state.pending().count(), 0);
}

#[test]
fn flush_covers_only_accepted_deliveries() {
    let mut state = fresh(3, false, false);
    let actions = state.replay(vec![
        arrival(b"one", 1),
        arrival(b"bad\nline", 2),
        arrival(b"two", 3),
        arrival(&[0xff], 4),
        Event::Timeout,
        arrival(&[0xff], 5),
        Event::Timeout,
    ]);
    assert_eq!(acks_of(&actions), vec![3]);
    assert_eq!(rejects_of(&actions), vec![2, 4, 5]);
    assert_eq!(state.pending().count(), 0);
    assert_eq!(state.pending().latest_acker(), None);
}

#[test]
fn rejected_delivery_changes_nothing_downstream() {
    let with = {
        let mut state = fresh(2, false, false);
        let actions = state.replay(vec![
            arrival(b"one", 1),
            arrival(b"no\ngood", 2),
            arrival(b"two", 3),
            arrival(b"three", 4),
        ]);
        (acks_of(&actions), stdout_of(&actions), state.pending().count())
    };
    let without = {
        let mut state = fresh(2, false, false);
        let actions =
            state.replay(vec![arrival(b"one", 1), arrival(b"two", 3), arrival(b"three", 4)]);
        (acks_of(&actions), stdout_of(&actions), state.pending().count())
    };
    assert_eq!(with, without);
    assert_eq!(with.0, vec![3]);
}

#[test]
fn output_keeps_receipt_order_across_rejections_and_flushes() {
    let mut state = fresh(2, false, true);
    let actions = state.replay(vec![
        arrival(b"first", 1),
        arrival(b"skip\nme", 2),
        arrival(b"second", 3),
        Event::Timeout,
        arrival(&[0xff], 4),
        arrival(b"third", 5),
        arrival(b"fourth", 6),
        Event::Timeout,
    ]);
    assert_eq!(stdout_of(&actions), "first\nsecond\nthird\nfourth\n");
    assert_eq!(acks_of(&actions), vec![3, 5, 6]);
    assert_eq!(rejects_of(&actions), vec![2]);
}

#[test]
fn replay_of_nothing_does_nothing() {
    let mut state = fresh(2, false, false);
    assert_eq!(state.replay(Vec::new()), Vec::<Action<u64>>::new());
    assert_eq!(state.pending().count(), 0);
}

#[test]
fn replay_continues_from_the_current_window() {
    let mut state = fresh(3, false, false);
    state.replay(vec![arrival(b"a", 1), arrival(b"b", 2)]);
    let actions = state.replay(vec![arrival(b"c", 3), arrival(b"d", 4)]);
    assert_eq!(
        actions,
        vec![
            Action::Print("c".to_string()),
            Action::Ack(3),
            Action::Print("d".to_string()),
        ]
    );
    assert_eq!(state.pending().count(), 1);
}

#[test]
fn replay_equals_stepping_one_by_one() {
    let script = || {
        vec![
            arrival(b"a", 1),
            arrival(b"b\n", 2),
            Event::Timeout,
            arrival(&[0xf0, 0x28], 3),
            arrival(b"c", 4),
            arrival(b"d", 5),
        ]
    };
    let mut whole = fresh(2, true, false);
    let replayed = whole.replay(script());
    let mut single = fresh(2, true, false);
    let mut stepped = Vec::new();
    for event in script() {
        stepped.extend(single.step(event));
    }
    assert_eq!(replayed, stepped);
    assert_eq!(whole.pending().count(), single.pending().count());
}
