//! The wrap-aware clock, the sorted deadline list, and timer scenarios.

use zeptos::runqueue::RunQueue;
use zeptos::samd::{IoPin, PortState};
use zeptos::time::{Instant, Timers};
use zeptos::Runtime;

#[test]
fn is_before_half_range() {
    // distances strictly under half the range order forwards
    assert!(Instant(0).is_before(Instant(1)));
    assert!(Instant(0).is_before(Instant(0x7FFF_FFFF)));
    // at exactly half the range and beyond, the order does not hold
    assert!(!Instant(0).is_before(Instant(0x8000_0000)));
    assert!(!Instant(0x8000_0000).is_before(Instant(0)));
    assert!(!Instant(0).is_before(Instant(0x8000_0001)));
    assert!(!Instant(5).is_before(Instant(0)));
    // the order is wrap-aware: an instant just past the wrap is after one
    // just before it
    assert!(Instant(0xFFFF_FF00).is_before(Instant(0x100)));
    assert!(!Instant(0x100).is_before(Instant(0xFFFF_FF00)));
    // reflexive
    assert!(Instant(42).is_before(Instant(42)));
}

#[test]
fn add_us_wraps() {
    assert_eq!(Instant(0).add_us(1000).0, 1000);
    assert_eq!(Instant(0xFFFF_FFFF).add_us(1).0, 0);
    assert_eq!(Instant(0xFFFF_FF00).add_us(0x200).0, 0x100);
}

#[test]
fn deadline_list_stays_sorted() {
    let mut timers = Timers::new();
    let id_a = timers.link(Instant(3000), 0);
    let id_b = timers.link(Instant(1000), 1);
    let id_c = timers.link(Instant(2000), 2);
    assert_eq!(timers.deadline_count(), 3);
    assert_eq!(timers.deadline(0).target.0, 1000);
    assert_eq!(timers.deadline(1).target.0, 2000);
    assert_eq!(timers.deadline(2).target.0, 3000);
    // removing the middle entry keeps the walk order
    assert!(timers.unlink(id_c));
    assert_eq!(timers.deadline_count(), 2);
    assert!(timers.deadline(0).target.is_before(timers.deadline(1).target));
    // removing an entry twice is a no-op
    assert!(!timers.unlink(id_c));
    assert!(timers.unlink(id_a));
    assert!(timers.unlink(id_b));
    assert_eq!(timers.deadline_count(), 0);
}

#[test]
fn equal_targets_keep_both_entries() {
    let mut timers = Timers::new();
    let id_a = timers.link(Instant(500), 0);
    let id_b = timers.link(Instant(500), 0);
    assert_ne!(id_a, id_b);
    assert_eq!(timers.deadline_count(), 2);
    // unlinking one leaves the other
    assert!(timers.unlink(id_a));
    assert_eq!(timers.deadline_count(), 1);
    assert_eq!(timers.deadline(0).id, id_b);
}

#[test]
fn tick_fires_expired_prefix_only() {
    let mut q = RunQueue::new(4);
    let mut timers = Timers::new();
    timers.link(Instant(1000), 1);
    timers.link(Instant(2000), 2);
    timers.link(Instant(3000), 3);
    timers.tick(Instant(2000), &mut q);
    // deadlines not strictly after now have fired and woken their tasks
    assert!(q.is_linked(1));
    assert!(q.is_linked(2));
    assert!(!q.is_linked(3));
    assert_eq!(timers.deadline_count(), 1);
    assert_eq!(timers.deadline(0).target.0, 3000);
    assert_eq!(timers.next_deadline(), Some(Instant(3000)));
}

#[test]
fn wait_completes_at_or_after_target() {
    let rt = Runtime::steal();
    let mut q = RunQueue::new(1);
    let mut timers = Timers::new();
    let mut wait = rt.delay_until(Instant(500));
    // before the target the wait is pending and linked
    assert!(!wait.poll(&mut timers, 0));
    assert_eq!(timers.deadline_count(), 1);
    timers.tick(Instant(400), &mut q);
    assert!(!wait.poll(&mut timers, 0));
    assert!(!q.is_linked(0));
    // at the target the tick fires the deadline and the wait completes
    timers.tick(Instant(500), &mut q);
    assert!(q.is_linked(0));
    assert!(wait.poll(&mut timers, 0));
    assert!(timers.now().0 >= 500);
    wait.unlink(&mut timers);
    assert_eq!(timers.deadline_count(), 0);
}

#[test]
fn delay_us_counts_from_now() {
    let rt = Runtime::steal();
    let mut q = RunQueue::new(1);
    let mut timers = Timers::new();
    timers.tick(Instant(250), &mut q);
    let wait = rt.delay_us(&timers, 1000);
    assert_eq!(wait.target.0, 1250);
    assert_eq!(rt.now(&timers).0, 250);
}

#[test]
fn concurrent_delays_wake_in_deadline_order() {
    let rt = Runtime::steal();
    let mut q = RunQueue::new(3);
    let mut timers = Timers::new();

    // task A (node 1) sleeps 1000 µs from time 0
    let mut wait_a = rt.delay_us(&timers, 1000);
    assert!(!wait_a.poll(&mut timers, 1));

    // task B (node 2) starts 200 µs later and sleeps 500 µs
    timers.tick(Instant(200), &mut q);
    let mut wait_b = rt.delay_us(&timers, 500);
    assert_eq!(wait_b.target.0, 700);
    assert!(!wait_b.poll(&mut timers, 2));

    // B's deadline walks first
    assert_eq!(timers.deadline(0).target.0, 700);
    assert_eq!(timers.deadline(1).target.0, 1000);

    // B wakes first, then A
    timers.tick(Instant(700), &mut q);
    assert!(q.is_linked(2));
    assert!(!q.is_linked(1));
    assert!(wait_b.poll(&mut timers, 2));
    timers.tick(Instant(1000), &mut q);
    assert!(q.is_linked(1));
    assert!(wait_a.poll(&mut timers, 1));
}

#[test]
fn blink_drives_the_pin_with_the_expected_timing() {
    let rt = Runtime::steal();
    let mut q = RunQueue::new(1);
    let mut timers = Timers::new();
    let mut port = PortState::new();
    let pin = IoPin { group: 1, pin: 30 };
    pin.dirset(&mut port);
    assert!(pin.read_dir(&port));

    for cycle in 0..2u32 {
        let base = cycle * 300_000;
        // sleep 100 ms with the pin low
        let mut wait = rt.delay_us(&timers, 100_000);
        while !wait.poll(&mut timers, 0) {
            assert!(!pin.read_out(&port));
            let next = timers.now().add_us(1000);
            timers.tick(next, &mut q);
        }
        wait.unlink(&mut timers);
        assert_eq!(timers.now().0, base + 100_000);
        pin.outset(&mut port);

        // sleep 200 ms with the pin high
        let mut wait = rt.delay_us(&timers, 200_000);
        while !wait.poll(&mut timers, 0) {
            assert!(pin.read_out(&port));
            let next = timers.now().add_us(1000);
            timers.tick(next, &mut q);
        }
        wait.unlink(&mut timers);
        assert_eq!(timers.now().0, base + 300_000);
        pin.outclr(&mut port);
        assert!(!pin.read_out(&port));
    }
}

#[test]
fn dropped_wait_unlinks_and_reschedules() {
    let rt = Runtime::steal();
    let mut timers = Timers::new();
    let mut wait_a = rt.delay_until(Instant(100));
    let mut wait_b = rt.delay_until(Instant(200));
    assert!(!wait_a.poll(&mut timers, 0));
    assert!(!wait_b.poll(&mut timers, 0));
    assert_eq!(timers.next_deadline(), Some(Instant(100)));
    // dropping the earlier wait moves the next deadline back
    wait_a.unlink(&mut timers);
    assert_eq!(timers.next_deadline(), Some(Instant(200)));
    wait_b.unlink(&mut timers);
    assert_eq!(timers.next_deadline(), None);
}
