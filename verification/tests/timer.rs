use mux_timer::timer::MuxTimer;

const EVENT_A: usize = 0;
const EVENT_B: usize = 1;
const EVENT_C: usize = 2;

#[test]
fn firing_order() {
    let mut timer: MuxTimer<3> = MuxTimer::default();
    assert_eq!(timer.deadline(), None);

    assert!(timer.fire_after(EVENT_C, 0, 100));
    assert!(timer.fire_after(EVENT_B, 0, 50));
    assert!(timer.fire_after(EVENT_A, 0, 150));

    let event = timer.wake();
    assert_eq!(event, EVENT_B);

    let event = timer.wake();
    assert_eq!(event, EVENT_C);

    let event = timer.wake();
    assert_eq!(event, EVENT_A);

    assert_eq!(timer.deadline(), None);
}

#[test]
fn rearming() {
    let mut timer: MuxTimer<3> = MuxTimer::default();

    assert!(timer.fire_after(EVENT_A, 0, 100));
    assert!(!timer.fire_after(EVENT_A, 0, 200));
    assert!(timer.fire_after(EVENT_A, 0, 50));

    let event = timer.wake();
    assert_eq!(event, EVENT_A);
    assert_eq!(timer.deadline(), None);
}

#[test]
fn fresh_timer_is_unarmed() {
    let timer: MuxTimer<3> = MuxTimer::default();
    assert!(!timer.is_armed());
    assert_eq!(timer.deadline(), None);
    assert_eq!(timer.deadlines().as_slice(), &[None, None, None]);
}

#[test]
fn coalescing_keeps_sooner_deadline() {
    let mut timer: MuxTimer<3> = MuxTimer::default();

    assert!(timer.fire_at(EVENT_A, 100));
    assert_eq!(timer.deadline(), Some(100));

    assert!(!timer.fire_at(EVENT_A, 200));
    assert_eq!(timer.deadline(), Some(100));
    assert_eq!(timer.deadlines()[EVENT_A], Some(100));

    assert!(timer.fire_at(EVENT_A, 50));
    assert_eq!(timer.deadline(), Some(50));
    assert_eq!(timer.deadlines()[EVENT_A], Some(50));

    let event = timer.wake();
    assert_eq!(event, EVENT_A);
    assert!(!timer.is_armed());
    assert_eq!(timer.deadline(), None);
}

#[test]
fn equal_deadline_is_rejected() {
    let mut timer: MuxTimer<2> = MuxTimer::default();
    assert!(timer.fire_at(EVENT_A, 100));
    assert!(!timer.fire_at(EVENT_A, 100));
    assert_eq!(timer.deadlines()[EVENT_A], Some(100));
}

#[test]
fn equal_deadlines_fire_one_at_a_time() {
    // Identical deadlines: the event armed first keeps the alarm; the other
    // fires on the next wake. Each fires exactly once.
    let mut timer: MuxTimer<3> = MuxTimer::default();
    assert!(timer.fire_at(EVENT_C, 100));
    assert!(timer.fire_at(EVENT_B, 100));

    assert_eq!(timer.wake(), EVENT_C);
    assert_eq!(timer.deadline(), Some(100));
    assert_eq!(timer.wake(), EVENT_B);
    assert!(!timer.is_armed());
}

#[test]
fn rescan_breaks_equal_deadlines_by_lowest_ordinal() {
    let mut timer: MuxTimer<3> = MuxTimer::default();
    assert!(timer.fire_at(EVENT_A, 10));
    assert!(timer.fire_at(EVENT_C, 100));
    assert!(timer.fire_at(EVENT_B, 100));

    // After the first firing the rescan finds B and C tied and picks B.
    assert_eq!(timer.wake(), EVENT_A);
    assert_eq!(timer.wake(), EVENT_B);
    assert_eq!(timer.wake(), EVENT_C);
    assert!(!timer.is_armed());
}

#[test]
fn armed_deadline_tracks_minimum_after_every_registration() {
    let mut timer: MuxTimer<4> = MuxTimer::default();
    let registrations: [(usize, u64); 5] = [(2, 90), (0, 40), (3, 70), (1, 40), (0, 25)];
    for (ordinal, deadline) in registrations {
        timer.fire_at(ordinal, deadline);
        let minimum = timer
            .deadlines()
            .iter()
            .filter_map(|slot| slot.as_ref().copied())
            .min();
        assert_eq!(timer.deadline(), minimum);
    }
}

#[test]
fn drained_timer_stays_unarmed_and_empty() {
    let mut timer: MuxTimer<3> = MuxTimer::default();
    assert!(timer.fire_at(EVENT_A, 30));
    assert!(timer.fire_at(EVENT_C, 10));

    assert_eq!(timer.wake(), EVENT_C);
    assert_eq!(timer.wake(), EVENT_A);

    assert!(!timer.is_armed());
    assert_eq!(timer.deadline(), None);
    assert_eq!(timer.deadlines().as_slice(), &[None, None, None]);
}

#[test]
fn fired_ordinal_registers_again_as_fresh() {
    let mut timer: MuxTimer<2> = MuxTimer::default();
    assert!(timer.fire_at(EVENT_A, 10));
    assert_eq!(timer.wake(), EVENT_A);
    assert_eq!(timer.deadlines()[EVENT_A], None);

    // A later deadline than the fired one is accepted: the slot is fresh.
    assert!(timer.fire_at(EVENT_A, 500));
    assert_eq!(timer.deadline(), Some(500));
    assert_eq!(timer.wake(), EVENT_A);
    assert!(!timer.is_armed());
}

#[test]
fn fire_after_adds_timeout_to_now() {
    let mut timer: MuxTimer<2> = MuxTimer::default();
    assert!(timer.fire_after(EVENT_B, 1000, 50));
    assert_eq!(timer.deadline(), Some(1050));
    assert_eq!(timer.deadlines()[EVENT_B], Some(1050));
}

#[test]
fn registration_for_other_event_keeps_cursor() {
    let mut timer: MuxTimer<3> = MuxTimer::default();
    assert!(timer.fire_at(EVENT_A, 50));
    // A later deadline for another event is recorded without rearming.
    assert!(timer.fire_at(EVENT_B, 80));
    assert_eq!(timer.deadline(), Some(50));
    assert_eq!(timer.deadlines()[EVENT_B], Some(80));
    assert_eq!(timer.wake(), EVENT_A);
    assert_eq!(timer.deadline(), Some(80));
}

#[test]
fn successive_wakes_yield_ascending_deadlines() {
    let mut timer: MuxTimer<5> = MuxTimer::default();
    let registrations: [(usize, u64); 5] = [(4, 33), (1, 7), (3, 19), (0, 71), (2, 19)];
    for (ordinal, deadline) in registrations {
        assert!(timer.fire_at(ordinal, deadline));
    }

    let mut fired: Vec<(usize, u64)> = Vec::new();
    let mut last_deadline: Option<u64> = None;
    while timer.is_armed() {
        let deadline = timer.deadline().unwrap();
        let event = timer.wake();
        if let Some(previous) = last_deadline {
            assert!(previous <= deadline);
        }
        last_deadline = Some(deadline);
        fired.push((event, deadline));
    }
    assert_eq!(fired, vec![(1, 7), (2, 19), (3, 19), (4, 33), (0, 71)]);
}
