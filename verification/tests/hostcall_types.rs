use spear_exec::poll::{FdFlags, PollEvents};
use spear_exec::types::EpollState;
use std::time::Duration;

#[test]
fn poll_events_from_bits_truncate_masks_unknown_bits() {
    let all = 0xFFFF_FFFF;
    let ev = PollEvents::from_bits_truncate(all);
    assert_eq!(
        ev.bits(),
        (PollEvents::IN().or(PollEvents::OUT()).or(PollEvents::ERR()).or(PollEvents::HUP())).bits()
    );
}

#[test]
fn fd_flags_insert_contains_remove_work() {
    let mut f = FdFlags::default();
    assert!(!f.contains(FdFlags::O_NONBLOCK()));
    f.insert(FdFlags::O_NONBLOCK());
    assert!(f.contains(FdFlags::O_NONBLOCK()));
    f.remove(FdFlags::O_NONBLOCK());
    assert!(!f.contains(FdFlags::O_NONBLOCK()));
}

#[test]
fn epoll_state_wait_for_change_times_out_without_change() {
    let ep = EpollState::new();
    let last = ep.current_seq();
    let changed = ep.wait_for_change(last, Some(Duration::from_millis(10)));
    assert!(!changed);
}

#[test]
fn epoll_state_wait_for_change_sees_an_earlier_notify() {
    let mut ep = EpollState::new();
    let last = ep.current_seq();
    ep.notify();
    assert!(ep.wait_for_change(last, Some(Duration::from_millis(10))));
    assert_ne!(ep.current_seq(), last);
}

#[test]
fn poll_events_truncate_keeps_known_bits_only() {
    assert_eq!(PollEvents::from_bits_truncate(1 | 2 | 4 | 64).bits(), 5);
    assert_eq!(PollEvents::from_bits_truncate(0).bits(), 0);
    assert!(PollEvents::from_bits_truncate(8).intersects(PollEvents::ERR()));
}

#[test]
fn poll_events_and_or_insert() {
    let mut e = PollEvents::IN();
    e.insert(PollEvents::HUP());
    assert_eq!(e.bits(), 17);
    assert_eq!(e.and(PollEvents::HUP()).bits(), 16);
    assert!(PollEvents::EMPTY().is_empty());
    assert!(!e.is_empty());
}
