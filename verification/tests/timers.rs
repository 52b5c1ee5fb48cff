use fire::timers::{TimerKind, TimerQueue};

#[test]
fn fires_in_deadline_order_and_reports_the_seq() {
    let w = 1u64;
    let mut q = TimerQueue::new();
    let t0 = 1000u64;
    let late = q.arm(w, TimerKind::Anim, t0 + 50);
    let early = q.arm(w, TimerKind::Caret, t0 + 10);
    assert_eq!(q.next_deadline(), Some(t0 + 10));
    assert!(q.pop_due(t0).is_empty());
    assert_eq!(q.pop_due(t0 + 20), vec![(w, TimerKind::Caret, early)]);
    assert_eq!(q.pop_due(t0 + 1000), vec![(w, TimerKind::Anim, late)]);
    assert_eq!(q.next_deadline(), None);
}

#[test]
fn timer_numbers_are_counted() {
    let mut q = TimerQueue::new();
    assert!(q.can_arm(u64::MAX));
    q.arm(1, TimerKind::Anim, 5);
    assert!(q.can_arm(u64::MAX - 1) && !q.can_arm(u64::MAX));
}

#[test]
fn equal_deadlines_fire_in_the_order_armed() {
    let mut q = TimerQueue::new();
    let a = q.arm(2, TimerKind::Flipbook, 5);
    let b = q.arm(1, TimerKind::Anim, 5);
    let c = q.arm(1, TimerKind::Caret, 3);
    assert_eq!(
        q.pop_due(5),
        vec![(1, TimerKind::Caret, c), (2, TimerKind::Flipbook, a), (1, TimerKind::Anim, b)]
    );
}

#[test]
fn firing_in_steps_gives_the_same_timers() {
    let mut one = TimerQueue::new();
    let mut two = TimerQueue::new();
    for (w, at) in [(1u64, 30u64), (2, 10), (3, 20), (4, 10)] {
        assert_eq!(one.arm(w, TimerKind::Anim, at), two.arm(w, TimerKind::Anim, at));
    }
    let all = one.pop_due(30);
    let mut steps = two.pop_due(10);
    steps.extend(two.pop_due(20));
    steps.extend(two.pop_due(30));
    assert_eq!(all, steps);
}
