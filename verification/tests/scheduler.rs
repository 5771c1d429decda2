use ethereum_forum::scheduler::next_wake_delay;

const HALF_HOUR: u64 = 30 * 60;
const FIVE_MINUTES: u64 = 5 * 60;

#[test]
fn wake_lands_on_next_half_hour_boundary() {
    // 2021-04-10 10:07:20 UTC is 1618049240; the next half-hour mark is
    // 10:30:00, i.e. 1360 seconds later, not thirty minutes later.
    let now: u64 = 1618049240;
    let delay = next_wake_delay(now, HALF_HOUR);
    assert_eq!(delay, 1360);
    assert_eq!((now + delay) % HALF_HOUR, 0);
    assert_ne!(delay, HALF_HOUR);
}

#[test]
fn wake_on_boundary_is_immediate() {
    // Exactly on a half-hour mark: no drift is introduced.
    let now: u64 = 1618049240 + 1360;
    assert_eq!(now % HALF_HOUR, 0);
    assert_eq!(next_wake_delay(now, HALF_HOUR), 0);
}

#[test]
fn wake_lands_on_next_five_minute_boundary() {
    let now: u64 = 1618049240;
    let delay = next_wake_delay(now, FIVE_MINUTES);
    assert_eq!((now + delay) % FIVE_MINUTES, 0);
    assert!(delay < FIVE_MINUTES);
    assert_eq!(delay, 160);
}

#[test]
fn one_second_past_boundary_waits_nearly_full_interval() {
    let now: u64 = 1618050600 + 1;
    let delay = next_wake_delay(now, HALF_HOUR);
    assert_eq!(delay, HALF_HOUR - 1);
}
