use sentry::protocol::Event;
use sentry::transport::{
    backoff, classify_response, parse_retry_after, Action, FlushStatus, SendOutcome, Transport,
    BACKOFF_BASE, BACKOFF_CAP, SHUTDOWN_TIMEOUT,
};

fn event(n: u64) -> Event {
    let mut e = Event::new(n);
    e.message = Some(format!("event {}", n));
    e
}

fn front_time(t: &Transport) -> Option<u64> {
    t.front().map(|item| item.event.timestamp)
}

fn drain(t: &mut Transport) -> Vec<u64> {
    let mut seen = Vec::new();
    while let Some(item) = t.front() {
        seen.push(item.event.timestamp);
        let id = item.id;
        t.on_outcome(id, SendOutcome::Success, u64::MAX);
    }
    seen
}

#[test]
fn new_queue_is_empty() {
    let t = Transport::new(30, 3);
    assert_eq!(t.len(), 0);
    assert!(t.is_empty());
    assert_eq!(t.capacity(), 30);
    assert!(!t.is_stopped());
    assert!(t.front().is_none());
    assert_eq!(t.next_action(0), Action::Idle);
    let tally = t.tally();
    assert_eq!(
        (tally.sent, tally.overflowed, tally.exhausted, tally.refused, tally.late),
        (0, 0, 0, 0, 0)
    );
}

#[test]
fn enqueue_keeps_order_while_there_is_room() {
    let mut t = Transport::new(3, 3);
    for n in 1..=3 {
        let admission = t.enqueue(event(n), 100 + n);
        assert!(admission.admitted);
        assert_eq!(admission.dropped, 0);
    }
    assert_eq!(t.len(), 3);
    let first = t.front().unwrap();
    assert_eq!(first.id, 0);
    assert_eq!(first.enqueued_at, 101);
    assert_eq!(first.attempts, 0);
    assert_eq!(first.not_before, 101);
    assert_eq!(drain(&mut t), vec![1, 2, 3]);
    assert_eq!(t.tally().sent, 3);
}

#[test]
fn full_queue_evicts_exactly_the_oldest() {
    let mut t = Transport::new(3, 3);
    for n in 1..=3 {
        t.enqueue(event(n), 0);
    }
    let admission = t.enqueue(event(4), 0);
    assert!(admission.admitted);
    assert_eq!(admission.dropped, 1);
    assert_eq!(t.len(), 3);
    assert_eq!(t.tally().overflowed, 1);
    for n in 5..=10 {
        let admission = t.enqueue(event(n), 0);
        assert_eq!(admission.dropped, 1);
        assert!(t.len() <= 3);
    }
    assert_eq!(t.tally().overflowed, 7);
    assert_eq!(drain(&mut t), vec![8, 9, 10]);
}

#[test]
fn queue_without_room_admits_nothing() {
    let mut t = Transport::new(0, 3);
    let admission = t.enqueue(event(1), 0);
    assert!(!admission.admitted);
    assert_eq!(admission.dropped, 1);
    assert_eq!(t.len(), 0);
    assert_eq!(t.tally().overflowed, 1);
}

#[test]
fn response_classes() {
    assert_eq!(classify_response(200, None), SendOutcome::Success);
    assert_eq!(classify_response(204, None), SendOutcome::Success);
    assert_eq!(classify_response(299, Some(5)), SendOutcome::Success);
    assert_eq!(classify_response(400, None), SendOutcome::Permanent);
    assert_eq!(classify_response(403, None), SendOutcome::Permanent);
    assert_eq!(classify_response(428, None), SendOutcome::Permanent);
    assert_eq!(classify_response(430, None), SendOutcome::Permanent);
    assert_eq!(classify_response(499, None), SendOutcome::Permanent);
    assert_eq!(classify_response(429, Some(7)), SendOutcome::RateLimited { delay: 7_000 });
    assert_eq!(classify_response(429, None), SendOutcome::RateLimited { delay: 60_000 });
    assert_eq!(classify_response(429, Some(0)), SendOutcome::RateLimited { delay: 0 });
    assert_eq!(
        classify_response(429, Some(u64::MAX)),
        SendOutcome::RateLimited { delay: u64::MAX }
    );
    assert_eq!(
        classify_response(429, Some(u64::MAX / 1000)),
        SendOutcome::RateLimited { delay: u64::MAX / 1000 * 1000 }
    );
    assert_eq!(classify_response(500, None), SendOutcome::Transient);
    assert_eq!(classify_response(503, Some(3)), SendOutcome::Transient);
    assert_eq!(classify_response(599, None), SendOutcome::Transient);
    assert_eq!(classify_response(0, None), SendOutcome::Transient);
    assert_eq!(classify_response(199, None), SendOutcome::Transient);
    assert_eq!(classify_response(302, None), SendOutcome::Transient);
    assert_eq!(classify_response(399, None), SendOutcome::Transient);
    assert_eq!(classify_response(600, None), SendOutcome::Transient);
}

#[test]
fn backoff_doubles_up_to_the_cap() {
    assert_eq!(backoff(0), 1_000);
    assert_eq!(backoff(1), 1_000);
    assert_eq!(backoff(2), 2_000);
    assert_eq!(backoff(3), 4_000);
    assert_eq!(backoff(4), 8_000);
    assert_eq!(backoff(5), 16_000);
    assert_eq!(backoff(6), 32_000);
    assert_eq!(backoff(7), 60_000);
    assert_eq!(backoff(8), 60_000);
    assert_eq!(backoff(1_000), 60_000);
    assert_eq!(backoff(u32::MAX), 60_000);
    assert_eq!(BACKOFF_BASE, 1_000);
    assert_eq!(BACKOFF_CAP, 60_000);
}

#[test]
fn success_removes_the_front() {
    let mut t = Transport::new(5, 3);
    t.enqueue(event(1), 10);
    t.enqueue(event(2), 10);
    assert_eq!(t.next_action(10), Action::Send { id: 0 });
    t.on_outcome(0, SendOutcome::Success, 11);
    assert_eq!(t.len(), 1);
    assert_eq!(front_time(&t), Some(2));
    assert_eq!(t.next_action(11), Action::Send { id: 1 });
    assert_eq!(t.tally().sent, 1);
}

#[test]
fn permanent_failure_drops_at_once() {
    let mut t = Transport::new(5, 3);
    t.enqueue(event(1), 10);
    t.on_outcome(0, SendOutcome::Permanent, 11);
    assert!(t.is_empty());
    assert_eq!(t.tally().refused, 1);
    assert_eq!(t.tally().sent, 0);
}

#[test]
fn transient_failure_is_retried_with_backoff_then_dropped() {
    let mut t = Transport::new(5, 3);
    t.enqueue(event(1), 0);
    t.enqueue(event(2), 0);

    t.on_outcome(0, SendOutcome::Transient, 100);
    let front = t.front().unwrap();
    assert_eq!((front.id, front.attempts, front.not_before), (0, 1, 1_100));
    assert_eq!(t.next_action(1_099), Action::Wait { until: 1_100 });
    assert_eq!(t.next_action(1_100), Action::Send { id: 0 });

    t.on_outcome(0, SendOutcome::Transient, 1_100);
    let front = t.front().unwrap();
    assert_eq!((front.attempts, front.not_before), (2, 3_100));

    t.on_outcome(0, SendOutcome::Transient, 3_100);
    let front = t.front().unwrap();
    assert_eq!((front.attempts, front.not_before), (3, 7_100));
    assert_eq!(t.len(), 2);

    t.on_outcome(0, SendOutcome::Transient, 7_100);
    assert_eq!(t.len(), 1);
    assert_eq!(front_time(&t), Some(2));
    assert_eq!(t.tally().exhausted, 1);
    assert_eq!(t.next_action(7_100), Action::Send { id: 1 });
}

#[test]
fn without_retries_the_first_failure_drops() {
    let mut t = Transport::new(5, 0);
    t.enqueue(event(1), 0);
    t.on_outcome(0, SendOutcome::Transient, 1);
    assert!(t.is_empty());
    assert_eq!(t.tally().exhausted, 1);
}

#[test]
fn retry_time_saturates() {
    let mut t = Transport::new(5, 3);
    t.enqueue(event(1), 0);
    t.on_outcome(0, SendOutcome::Transient, u64::MAX - 10);
    assert_eq!(t.front().unwrap().not_before, u64::MAX);
}

#[test]
fn rate_limit_holds_back_without_discarding() {
    let mut t = Transport::new(5, 3);
    t.enqueue(event(1), 0);
    t.enqueue(event(2), 0);
    t.on_outcome(0, SendOutcome::RateLimited { delay: 5_000 }, 1_000);
    assert_eq!(t.len(), 2);
    let front = t.front().unwrap();
    assert_eq!((front.id, front.attempts), (0, 0));
    assert_eq!(t.next_action(5_999), Action::Wait { until: 6_000 });
    assert_eq!(t.next_action(6_000), Action::Send { id: 0 });
    t.on_outcome(0, SendOutcome::Success, 6_000);
    assert_eq!(t.next_action(6_000), Action::Send { id: 1 });
}

#[test]
fn outcome_of_an_item_that_left_is_ignored() {
    let mut t = Transport::new(1, 3);
    t.enqueue(event(1), 0);
    assert_eq!(t.next_action(0), Action::Send { id: 0 });
    t.enqueue(event(2), 0);
    t.on_outcome(0, SendOutcome::Success, 1);
    assert_eq!(t.len(), 1);
    assert_eq!(front_time(&t), Some(2));
    assert_eq!(t.tally().sent, 0);
    t.on_outcome(7, SendOutcome::Permanent, 1);
    assert_eq!(t.len(), 1);
    let mut empty = Transport::new(1, 3);
    empty.on_outcome(0, SendOutcome::Success, 1);
    assert_eq!(empty.tally().sent, 0);
}

#[test]
fn flush_of_an_empty_queue_is_over_at_once() {
    let t = Transport::new(5, 3);
    assert_eq!(t.flush_status(0, 0), FlushStatus::Flushed);
    assert_eq!(t.flush_status(10, 5), FlushStatus::Flushed);
    assert_eq!(t.flush_status(5, 10), FlushStatus::Flushed);
}

#[test]
fn flush_of_a_stalled_queue_times_out() {
    let mut t = Transport::new(5, 3);
    t.enqueue(event(1), 0);
    assert_eq!(t.flush_status(0, 2_000), FlushStatus::Pending { remaining: 2_000 });
    assert_eq!(t.flush_status(1_999, 2_000), FlushStatus::Pending { remaining: 1 });
    assert_eq!(t.flush_status(2_000, 2_000), FlushStatus::TimedOut);
    assert_eq!(t.flush_status(9_000, 2_000), FlushStatus::TimedOut);
    assert_eq!(t.len(), 1);
    assert!(!t.is_empty());
}

#[test]
fn flush_succeeds_once_the_worker_has_drained() {
    let mut t = Transport::new(5, 3);
    t.enqueue(event(1), 0);
    assert_eq!(t.flush_status(10, 2_000), FlushStatus::Pending { remaining: 1_990 });
    t.on_outcome(0, SendOutcome::Success, 20);
    assert_eq!(t.flush_status(30, 2_000), FlushStatus::Flushed);
}

#[test]
fn shutdown_stops_once_the_flush_is_over() {
    let mut t = Transport::new(5, 3);
    t.enqueue(event(1), 0);
    assert_eq!(t.shutdown(0, SHUTDOWN_TIMEOUT), FlushStatus::Pending { remaining: 2_000 });
    assert!(!t.is_stopped());
    assert_eq!(t.next_action(0), Action::Send { id: 0 });
    assert_eq!(t.shutdown(2_000, SHUTDOWN_TIMEOUT), FlushStatus::TimedOut);
    assert!(t.is_stopped());
    assert_eq!(t.len(), 1);
    assert_eq!(t.next_action(2_000), Action::Stop);

    let mut empty = Transport::new(5, 3);
    assert_eq!(empty.shutdown(0, SHUTDOWN_TIMEOUT), FlushStatus::Flushed);
    assert!(empty.is_stopped());
    assert_eq!(empty.next_action(0), Action::Stop);
}

#[test]
fn stopped_queue_turns_events_away() {
    let mut t = Transport::new(5, 3);
    assert_eq!(t.shutdown(0, 0), FlushStatus::Flushed);
    let admission = t.enqueue(event(1), 0);
    assert!(!admission.admitted);
    assert_eq!(admission.dropped, 1);
    assert_eq!(t.len(), 0);
    assert_eq!(t.tally().late, 1);
    assert_eq!(t.tally().overflowed, 0);
}

#[test]
fn retry_after_is_read_from_decimal_digits() {
    assert_eq!(parse_retry_after("0"), Some(0));
    assert_eq!(parse_retry_after("7"), Some(7));
    assert_eq!(parse_retry_after("120"), Some(120));
    assert_eq!(parse_retry_after("007"), Some(7));
    assert_eq!(parse_retry_after("18446744073709551615"), Some(u64::MAX));
    assert_eq!(parse_retry_after("18446744073709551616"), None);
    assert_eq!(parse_retry_after("99999999999999999999999"), None);
    assert_eq!(parse_retry_after(""), None);
    assert_eq!(parse_retry_after(" 7"), None);
    assert_eq!(parse_retry_after("7 "), None);
    assert_eq!(parse_retry_after("-7"), None);
    assert_eq!(parse_retry_after("+7"), None);
    assert_eq!(parse_retry_after("7.5"), None);
    assert_eq!(parse_retry_after("1e3"), None);
    assert_eq!(parse_retry_after("Wed, 21 Oct 2015 07:28:00 GMT"), None);
    assert_eq!(parse_retry_after("٣"), None);
    assert_eq!(
        classify_response(429, parse_retry_after("30")),
        SendOutcome::RateLimited { delay: 30_000 }
    );
}
