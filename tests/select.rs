use chan_select::engine::earlier;
use chan_select::operation::RESERVED;
use chan_select::shuffle::{scale_draw, shuffle, SEED};
use chan_select::{Action, Engine, Event, Operation, Select, Selected, Timeout, XorShift};

const MS: u64 = 1_000_000;

/// Drives a blocking engine over one handle that never turns ready on its own, through
/// registration, a park that times out, and the clock check. Returns the final action.
fn drive_one_timed_out(engine: &mut Engine, deadline: u64) -> Action {
    // A call with a deadline reads the clock first; the deadline is still ahead.
    assert_eq!(engine.action(), Action::Clock);
    assert_eq!(engine.step(Event::Time(0)), Action::Try(0));
    assert_eq!(engine.step(Event::Flag(false)), Action::Retry(0));
    let op = match engine.step(Event::Flag(false)) {
        Action::Register(0, op) => op,
        other => panic!("expected a registration, got {:?}", other),
    };
    assert_eq!(engine.step(Event::Flag(true)), Action::ReadSelected);
    assert_eq!(engine.step(Event::Outcome(Selected::Waiting)), Action::Deadline(0));
    assert_eq!(engine.step(Event::Moment(None)), Action::Park(Some(deadline)));
    assert_eq!(engine.step(Event::Outcome(Selected::Aborted)), Action::Unregister(0, op));
    assert_eq!(engine.step(Event::Finished), Action::Clock);
    // The clock has passed the deadline: one final non-blocking pass.
    assert_eq!(engine.step(Event::Time(deadline)), Action::Try(0));
    engine.step(Event::Flag(false))
}

#[test]
fn two_ready_receivers_fire_fairly() {
    let mut rng = XorShift::new(SEED);
    let mut hits = [0usize; 2];
    for _ in 0..10000 {
        let mut e = Engine::new(2, Timeout::Never, rng, RESERVED);
        let p = match e.action() {
            Action::Try(p) => p,
            other => panic!("expected a try, got {:?}", other),
        };
        assert_eq!(e.step(Event::Flag(true)), Action::Done(Some(p)));
        hits[p] += 1;
        rng = e.rng();
    }
    assert_eq!(hits[0] + hits[1], 10000);
    assert!(hits[0] >= 4500 && hits[0] <= 5500, "{:?}", hits);
}

#[test]
fn try_select_on_empty_receiver_fails() {
    let mut e = Engine::new(1, Timeout::Now, XorShift::new(SEED), RESERVED);
    assert_eq!(e.action(), Action::Try(0));
    assert_eq!(e.step(Event::Flag(false)), Action::Done(None));
}

#[test]
fn select_timeout_without_producer_times_out() {
    let mut e = Engine::new(1, Timeout::At(50 * MS), XorShift::new(SEED), RESERVED);
    assert_eq!(drive_one_timed_out(&mut e, 50 * MS), Action::Done(None));
}

#[test]
fn full_bounded_sender_times_out_then_fires() {
    let mut e = Engine::new(1, Timeout::At(20 * MS), XorShift::new(SEED), RESERVED);
    assert_eq!(drive_one_timed_out(&mut e, 20 * MS), Action::Done(None));
    // After the receiver drained the channel, the same selection fires at once.
    let mut sel: Select<u8> = Select::new();
    let i = sel.send(0, 0x1000);
    let mut e = Engine::new(1, Timeout::At(40 * MS), XorShift::new(SEED), RESERVED);
    assert_eq!(e.action(), Action::Clock);
    assert_eq!(e.step(Event::Time(25 * MS)), Action::Try(0));
    let done = e.step(Event::Flag(true));
    assert_eq!(done, Action::Done(Some(0)));
    let case = sel.outcome(done).unwrap();
    assert_eq!(case.index(), i);
    assert!(case.is_for(0x1000));
}

#[test]
fn rendezvous_receiver_woken_by_sender() {
    let mut e = Engine::new(1, Timeout::Never, XorShift::new(SEED), RESERVED);
    assert_eq!(e.step(Event::Flag(false)), Action::Retry(0));
    let op = match e.step(Event::Flag(false)) {
        Action::Register(0, op) => op,
        other => panic!("expected a registration, got {:?}", other),
    };
    assert_eq!(e.step(Event::Flag(true)), Action::ReadSelected);
    assert_eq!(e.step(Event::Outcome(Selected::Waiting)), Action::Deadline(0));
    assert_eq!(e.step(Event::Moment(None)), Action::Park(None));
    // The sender paired with our operation and published it.
    assert_eq!(e.step(Event::Outcome(Selected::Operation(op))), Action::Unregister(0, op));
    assert_eq!(e.step(Event::Finished), Action::Accept(0));
    assert_eq!(e.step(Event::Flag(true)), Action::Done(Some(0)));
}

#[test]
fn receiver_loop_until_disconnected() {
    // Three messages, then the disconnection: each is a ready receive.
    let mut rng = XorShift::new(SEED);
    for _ in 0..4 {
        let mut e = Engine::new(1, Timeout::Never, rng, RESERVED);
        assert_eq!(e.action(), Action::Try(0));
        assert_eq!(e.step(Event::Flag(true)), Action::Done(Some(0)));
        rng = e.rng();
    }
}

#[test]
fn non_blocking_pass_repeats_while_states_change() {
    let mut e = Engine::new(2, Timeout::Now, XorShift::new(SEED), RESERVED);
    let first = match e.action() {
        Action::State(p) => p,
        other => panic!("expected a state read, got {:?}", other),
    };
    let second = 1 - first;
    assert_eq!(e.step(Event::Word(7)), Action::State(second));
    assert_eq!(e.step(Event::Word(9)), Action::Try(first));
    assert_eq!(e.step(Event::Flag(false)), Action::Try(second));
    assert_eq!(e.step(Event::Flag(false)), Action::State(first));
    // A producer moved the first channel: another pass.
    assert_eq!(e.step(Event::Word(8)), Action::State(second));
    assert_eq!(e.step(Event::Word(9)), Action::Try(first));
    assert_eq!(e.step(Event::Flag(false)), Action::Try(second));
    assert_eq!(e.step(Event::Flag(false)), Action::State(first));
    assert_eq!(e.step(Event::Word(8)), Action::State(second));
    assert_eq!(e.step(Event::Word(9)), Action::Done(None));
}

#[test]
fn failed_registration_aborts_and_accepts_published() {
    let mut e = Engine::new(2, Timeout::Never, XorShift::new(SEED), RESERVED);
    let (a, b) = match e.action() {
        Action::Try(p) => (p, 1 - p),
        other => panic!("expected a try, got {:?}", other),
    };
    assert_eq!(e.step(Event::Flag(false)), Action::Try(b));
    assert_eq!(e.step(Event::Flag(false)), Action::Retry(a));
    assert_eq!(e.step(Event::Flag(false)), Action::Retry(b));
    let op_a = match e.step(Event::Flag(false)) {
        Action::Register(p, op) if p == a => op,
        other => panic!("expected a registration, got {:?}", other),
    };
    assert_eq!(e.step(Event::Flag(true)), Action::ReadSelected);
    let op_b = match e.step(Event::Outcome(Selected::Waiting)) {
        Action::Register(p, op) if p == b => op,
        other => panic!("expected a registration, got {:?}", other),
    };
    assert_ne!(op_a, op_b);
    // The second one turned ready while registering; meanwhile a peer published the first.
    assert_eq!(e.step(Event::Flag(false)), Action::Abort);
    assert_eq!(e.step(Event::Held(Selected::Operation(op_a))), Action::Unregister(a, op_a));
    assert_eq!(e.step(Event::Finished), Action::Unregister(b, op_b));
    assert_eq!(e.step(Event::Finished), Action::Accept(a));
    // The accept lost a race: a new round starts with a try.
    match e.step(Event::Flag(false)) {
        Action::Try(_) => {}
        other => panic!("expected a try, got {:?}", other),
    }
}

#[test]
fn claimed_abort_starts_new_round() {
    let mut e = Engine::new(1, Timeout::Never, XorShift::new(SEED), RESERVED);
    e.step(Event::Flag(false));
    let op = match e.step(Event::Flag(false)) {
        Action::Register(0, op) => op,
        other => panic!("expected a registration, got {:?}", other),
    };
    assert_eq!(e.step(Event::Flag(false)), Action::Abort);
    assert_eq!(e.step(Event::Claimed), Action::Unregister(0, op));
    assert_eq!(e.step(Event::Finished), Action::Try(0));
}

#[test]
fn disconnected_outcome_leads_to_new_round() {
    let mut e = Engine::new(1, Timeout::At(5 * MS), XorShift::new(SEED), RESERVED);
    assert_eq!(e.step(Event::Time(0)), Action::Try(0));
    e.step(Event::Flag(false));
    let op = match e.step(Event::Flag(false)) {
        Action::Register(0, op) => op,
        other => panic!("expected a registration, got {:?}", other),
    };
    assert_eq!(e.step(Event::Flag(true)), Action::ReadSelected);
    assert_eq!(e.step(Event::Outcome(Selected::Disconnected)), Action::Unregister(0, op));
    assert_eq!(e.step(Event::Finished), Action::Clock);
    assert_eq!(e.step(Event::Time(1 * MS)), Action::Try(0));
    assert_eq!(e.step(Event::Flag(true)), Action::Done(Some(0)));
}

#[test]
fn handle_deadline_is_folded_in() {
    let mut e = Engine::new(1, Timeout::At(50 * MS), XorShift::new(SEED), RESERVED);
    assert_eq!(e.step(Event::Time(0)), Action::Try(0));
    e.step(Event::Flag(false));
    e.step(Event::Flag(false));
    e.step(Event::Flag(true));
    assert_eq!(e.step(Event::Outcome(Selected::Waiting)), Action::Deadline(0));
    assert_eq!(e.step(Event::Moment(Some(10 * MS))), Action::Park(Some(10 * MS)));
}

#[test]
fn park_never_outlasts_caller_deadline() {
    let mut e = Engine::new(1, Timeout::At(50 * MS), XorShift::new(SEED), RESERVED);
    assert_eq!(e.step(Event::Time(0)), Action::Try(0));
    e.step(Event::Flag(false));
    e.step(Event::Flag(false));
    e.step(Event::Flag(true));
    assert_eq!(e.step(Event::Outcome(Selected::Waiting)), Action::Deadline(0));
    assert_eq!(e.step(Event::Moment(Some(80 * MS))), Action::Park(Some(50 * MS)));
}

#[test]
fn past_deadline_gives_immediate_pass() {
    let mut e = Engine::new(1, Timeout::At(5 * MS), XorShift::new(SEED), RESERVED);
    assert_eq!(e.action(), Action::Clock);
    assert_eq!(e.step(Event::Time(9 * MS)), Action::Try(0));
    assert_eq!(e.step(Event::Flag(false)), Action::Done(None));
    let mut e = Engine::new(3, Timeout::At(5 * MS), XorShift::new(SEED), RESERVED);
    match e.step(Event::Time(5 * MS)) {
        Action::State(_) => {}
        other => panic!("expected a state read, got {:?}", other),
    }
}

#[test]
fn shuffle_gives_exact_order() {
    let mut v: Vec<usize> = vec![0, 1, 2, 3, 4];
    let mut r = XorShift::new(SEED);
    shuffle(&mut v, &mut r);
    assert_eq!(v, vec![3, 4, 2, 1, 0]);
    assert_eq!(r.state(), 1698080197);
}

#[test]
fn cloned_builder_shares_cases() {
    let mut sel: Select<u8> = Select::new();
    sel.recv(7, 0x10);
    sel.send(9, 0x20);
    let copy = sel.clone();
    assert_eq!(copy.len(), 2);
    assert_eq!(*copy.handle(0), 7);
    assert_eq!(*copy.handle(1), 9);
    let case = copy.outcome(Action::Done(Some(1))).unwrap();
    assert_eq!(case.index(), 1);
    assert!(case.is_for(0x20));
}

#[test]
fn empty_list_cases() {
    let mut e = Engine::new(0, Timeout::Now, XorShift::new(SEED), RESERVED);
    assert_eq!(e.action(), Action::Done(None));
    let mut e = Engine::new(0, Timeout::At(3 * MS), XorShift::new(SEED), RESERVED);
    assert_eq!(e.action(), Action::Sleep(Some(3 * MS)));
    assert_eq!(e.step(Event::Finished), Action::Done(None));
    let mut e = Engine::new(0, Timeout::Never, XorShift::new(SEED), RESERVED);
    assert_eq!(e.action(), Action::Sleep(None));
    assert_eq!(e.step(Event::Finished), Action::Sleep(None));
}

#[test]
fn wrong_event_changes_nothing() {
    let mut e = Engine::new(1, Timeout::Now, XorShift::new(SEED), RESERVED);
    assert_eq!(e.step(Event::Word(3)), Action::Try(0));
    assert_eq!(e.step(Event::Flag(true)), Action::Done(Some(0)));
    assert_eq!(e.step(Event::Flag(false)), Action::Done(Some(0)));
}

#[test]
fn operation_ids_follow_counter() {
    let mut next: usize = 3;
    let a = Operation::hook(&mut next);
    let b = Operation::hook(&mut next);
    assert_eq!(a.value(), 3);
    assert_eq!(b.value(), 4);
    assert_eq!(next, 5);
    let mut e = Engine::new(2, Timeout::Never, XorShift::new(SEED), 100);
    e.step(Event::Flag(false));
    e.step(Event::Flag(false));
    e.step(Event::Flag(false));
    match e.step(Event::Flag(false)) {
        Action::Register(p, op) => assert_eq!(op.value(), 100 + p),
        other => panic!("expected a registration, got {:?}", other),
    }
}

#[test]
fn selected_packs_into_one_word() {
    assert_eq!(Selected::Waiting.to_usize(), 0);
    assert_eq!(Selected::Aborted.to_usize(), 1);
    assert_eq!(Selected::Disconnected.to_usize(), 2);
    assert_eq!(Selected::from_usize(0), Selected::Waiting);
    assert_eq!(Selected::from_usize(1), Selected::Aborted);
    assert_eq!(Selected::from_usize(2), Selected::Disconnected);
    let s = Selected::from_usize(77);
    match s {
        Selected::Operation(op) => assert_eq!(op.value(), 77),
        other => panic!("expected an operation, got {:?}", other),
    }
    let w: usize = s.into();
    assert_eq!(w, 77);
    let back: Selected = Selected::from(w);
    assert_eq!(back, s);
}

#[test]
fn xorshift_steps_exactly() {
    let mut r = XorShift::new(0);
    assert_eq!(r.state(), SEED);
    assert_eq!(r.next_u32(), 968062080);
    assert_eq!(r.next_u32(), 3007888689);
    assert_eq!(r.state(), 3007888689);
}

#[test]
fn scaled_draw_stays_below_bound() {
    assert_eq!(scale_draw(968062080, 3), 0);
    assert_eq!(scale_draw(u32::MAX, 10), 9);
    assert_eq!(scale_draw(0x8000_0000, 2), 1);
    assert_eq!(scale_draw(u32::MAX, usize::MAX), u32::MAX as usize);
}

#[test]
fn shuffle_permutes_items() {
    let mut v: Vec<usize> = (0..20).collect();
    let mut r = XorShift::new(SEED);
    shuffle(&mut v, &mut r);
    let mut sorted = v.clone();
    sorted.sort();
    assert_eq!(sorted, (0..20).collect::<Vec<usize>>());
    assert_ne!(v, (0..20).collect::<Vec<usize>>());
    let mut one = vec![5usize];
    let mut r2 = XorShift::new(SEED);
    shuffle(&mut one, &mut r2);
    assert_eq!(one, vec![5]);
    assert_eq!(r2.state(), SEED);
}

#[test]
fn earlier_picks_minimum() {
    assert_eq!(earlier(Some(5), Some(3)), Some(3));
    assert_eq!(earlier(Some(2), Some(3)), Some(2));
    assert_eq!(earlier(None, Some(3)), Some(3));
    assert_eq!(earlier(Some(4), None), Some(4));
    assert_eq!(earlier(None, None), None);
}

#[test]
fn builder_indices_round_trip() {
    let mut sel: Select<&str> = Select::new();
    assert_eq!(sel.recv("a", 0x10), 0);
    assert_eq!(sel.send("b", 0x20), 1);
    assert_eq!(sel.recv("c", 0x30), 2);
    assert_eq!(sel.len(), 3);
    assert_eq!(*sel.handle(1), "b");
    let case = sel.outcome(Action::Done(Some(2))).unwrap();
    assert_eq!(case.index(), 2);
    assert_eq!(case.endpoint(), 0x30);
    assert!(case.is_for(0x30));
    assert!(!case.is_for(0x10));
    assert!(sel.outcome(Action::Done(None)).is_none());
    assert!(sel.outcome(Action::Try(0)).is_none());
    assert!(sel.outcome(Action::Done(Some(3))).is_none());
}
