//! The delivery queue: a bounded queue of events that wait to be sent, and
//! the rules by which a worker sends them, retries them and gives them up.
//!
//! The queue does no input or output. A worker asks it what to do next
//! (`next_action`), sends the event at the front where it is told to, and
//! reports how that went (`on_outcome`). One attempt is under way at a
//! time: the queue names its front item, and the item behind it only once
//! the front item has left. Times are in milliseconds on a clock of the
//! caller's choice.
//!
//! Retries back off exponentially: the first retry waits `BACKOFF_BASE`,
//! each further retry twice as long as the one before, and none longer than
//! `BACKOFF_CAP`.

use crate::protocol::{Event, EventView};
use crate::views::keep_last;
use std::collections::VecDeque;
use vstd::prelude::*;
use vstd::string::StrSliceExecFns;

verus! {

/// Delay before the first retry, in milliseconds.
pub const BACKOFF_BASE: u64 = 1_000;

/// Longest delay before a retry, in milliseconds.
pub const BACKOFF_CAP: u64 = 60_000;

/// How long the final flush of a shutdown may take, in milliseconds.
pub const SHUTDOWN_TIMEOUT: u64 = 2_000;

/// Delay after a rate limit whose response names none, in seconds.
pub const DEFAULT_RETRY_AFTER: u64 = 60;

/// How an attempt to send an event ended.
#[derive(Clone, Copy, Debug, PartialEq, Eq, Structural)]
pub enum SendOutcome {
    /// The service accepted the event.
    Success,
    /// The attempt failed in a way that may pass: a server error, a timeout,
    /// a lost connection.
    Transient,
    /// The service refused the event for good.
    Permanent,
    /// The service asked to wait for `delay` milliseconds.
    RateLimited { delay: u64 },
}

/// A number of seconds in milliseconds, or the greatest number where that
/// would be more.
pub open spec fn millis_of(seconds: u64) -> u64 {
    if seconds * 1000 > u64::MAX {
        u64::MAX
    } else {
        (seconds * 1000) as u64
    }
}

/// The number that a decimal digit stands for.
pub open spec fn digit_value(c: char) -> Option<nat> {
    if c == '0' {
        Some(0)
    } else if c == '1' {
        Some(1)
    } else if c == '2' {
        Some(2)
    } else if c == '3' {
        Some(3)
    } else if c == '4' {
        Some(4)
    } else if c == '5' {
        Some(5)
    } else if c == '6' {
        Some(6)
    } else if c == '7' {
        Some(7)
    } else if c == '8' {
        Some(8)
    } else if c == '9' {
        Some(9)
    } else {
        None
    }
}

/// The number that a text of decimal digits stands for; nothing where the
/// text is empty or holds anything but digits.
pub open spec fn number_of(text: Seq<char>) -> Option<nat>
    decreases text.len(),
{
    if text.len() == 0 {
        None
    } else {
        match digit_value(text.last()) {
            None => None,
            Some(d) => if text.len() == 1 {
                Some(d)
            } else {
                match number_of(text.drop_last()) {
                    Some(n) => Some(n * 10 + d),
                    None => None,
                }
            },
        }
    }
}

/// The delay in seconds that the text of a `Retry-After` header names:
/// the number that the text stands for, where it stands for one that fits.
pub open spec fn retry_after_of(text: Seq<char>) -> Option<u64> {
    match number_of(text) {
        Some(n) => if n <= u64::MAX {
            Some(n as u64)
        } else {
            None
        },
        None => None,
    }
}

proof fn lemma_number_grows(text: Seq<char>, k: int)
    requires
        1 <= k <= text.len(),
        number_of(text) is Some,
    ensures
        number_of(text.take(k)) is Some,
        number_of(text.take(k))->0 <= number_of(text)->0,
    decreases text.len() - k,
{
    if k < text.len() {
        assert(text.drop_last().take(k) =~= text.take(k));
        lemma_number_grows(text.drop_last(), k);
    } else {
        assert(text.take(k) =~= text);
    }
}

fn digit_of(c: char) -> (r: Option<u64>)
    ensures
        match r {
            Some(d) => digit_value(c) == Some(d as nat) && d <= 9,
            None => digit_value(c) is None,
        },
{
    if c == '0' {
        Some(0)
    } else if c == '1' {
        Some(1)
    } else if c == '2' {
        Some(2)
    } else if c == '3' {
        Some(3)
    } else if c == '4' {
        Some(4)
    } else if c == '5' {
        Some(5)
    } else if c == '6' {
        Some(6)
    } else if c == '7' {
        Some(7)
    } else if c == '8' {
        Some(8)
    } else if c == '9' {
        Some(9)
    } else {
        None
    }
}

proof fn lemma_bad_digit(text: Seq<char>, i: int)
    requires
        0 <= i < text.len(),
        digit_value(text[i]) is None,
    ensures
        number_of(text) is None,
    decreases text.len(),
{
    if i < text.len() - 1 {
        lemma_bad_digit(text.drop_last(), i);
    }
}

/// Reads the delay in seconds from the text of a `Retry-After` header.
/// The text must be a number in decimal digits that fits in 64 bits.
pub fn parse_retry_after(text: &str) -> (r: Option<u64>)
    ensures
        r == retry_after_of(text@),
{
    let n = text.unicode_len();
    if n == 0 {
        return None;
    }
    let mut value: u64 = 0;
    let mut i: usize = 0;
    while i < n
        invariant
            i <= n,
            n == text@.len(),
            i > 0 ==> number_of(text@.take(i as int)) == Some(value as nat),
            i == 0 ==> value == 0,
        decreases n - i,
    {
        let c = text.get_char(i);
        let ghost next = text@.take(i + 1);
        proof {
            assert(next.drop_last() =~= text@.take(i as int));
        }
        match digit_of(c) {
            None => {
                proof {
                    lemma_bad_digit(text@, i as int);
                }
                return None;
            },
            Some(d) => {
                if value > (u64::MAX - d) / 10 {
                    proof {
                        if number_of(text@) is Some {
                            lemma_number_grows(text@, i + 1);
                        }
                    }
                    return None;
                }
                value = value * 10 + d;
            },
        }
        i += 1;
    }
    assert(text@.take(i as int) =~= text@);
    Some(value)
}

/// The outcome that a response status stands for. `retry_after` is the
/// delay in seconds that the response names, if it names one.
pub open spec fn outcome_of(status: u16, retry_after: Option<u64>) -> SendOutcome {
    if 200 <= status <= 299 {
        SendOutcome::Success
    } else if status == 429 {
        SendOutcome::RateLimited {
            delay: millis_of(
                match retry_after {
                    Some(seconds) => seconds,
                    None => DEFAULT_RETRY_AFTER,
                },
            ),
        }
    } else if 400 <= status <= 499 {
        SendOutcome::Permanent
    } else {
        SendOutcome::Transient
    }
}

/// Classifies a response: 2xx is a success, 429 a rate limit, any other
/// 4xx a permanent failure, and everything else a transient failure.
pub fn classify_response(status: u16, retry_after: Option<u64>) -> (r: SendOutcome)
    ensures
        r == outcome_of(status, retry_after),
{
    if 200 <= status && status <= 299 {
        SendOutcome::Success
    } else if status == 429 {
        let seconds = match retry_after {
            Some(seconds) => seconds,
            None => DEFAULT_RETRY_AFTER,
        };
        let delay = if seconds > u64::MAX / 1000 {
            u64::MAX
        } else {
            seconds * 1000
        };
        SendOutcome::RateLimited { delay }
    } else if 400 <= status && status <= 499 {
        SendOutcome::Permanent
    } else {
        SendOutcome::Transient
    }
}

/// The delay before retry number `retry`, counted from 1.
pub open spec fn backoff_delay(retry: nat) -> nat
    decreases retry,
{
    if retry <= 1 {
        BACKOFF_BASE as nat
    } else {
        let doubled = 2 * backoff_delay((retry - 1) as nat);
        if doubled < BACKOFF_CAP {
            doubled
        } else {
            BACKOFF_CAP as nat
        }
    }
}

/// Every delay is at least `BACKOFF_BASE` and at most `BACKOFF_CAP`, and a
/// later retry never waits less than an earlier one.
pub proof fn lemma_backoff_bounded(retry: nat)
    ensures
        BACKOFF_BASE <= backoff_delay(retry) <= BACKOFF_CAP,
        backoff_delay(retry) <= backoff_delay(retry + 1),
    decreases retry,
{
    if retry > 1 {
        lemma_backoff_bounded((retry - 1) as nat);
    }
    reveal_with_fuel(backoff_delay, 2);
}

/// Computes the delay before retry number `retry`, counted from 1.
pub fn backoff(retry: u32) -> (delay: u64)
    ensures
        delay == backoff_delay(retry as nat),
{
    let mut delay: u64 = BACKOFF_BASE;
    let mut i: u32 = 1;
    while i < retry && delay < BACKOFF_CAP
        invariant
            1 <= i,
            i <= retry || (retry == 0 && i == 1),
            delay == backoff_delay(i as nat),
            delay <= BACKOFF_CAP,
        decreases retry - i,
    {
        proof {
            reveal_with_fuel(backoff_delay, 2);
        }
        delay = if delay * 2 < BACKOFF_CAP {
            delay * 2
        } else {
            BACKOFF_CAP
        };
        i += 1;
    }
    proof {
        if i < retry {
            lemma_backoff_capped(i as nat, retry as nat);
        }
    }
    delay
}

proof fn lemma_backoff_capped(i: nat, retry: nat)
    requires
        i <= retry,
        backoff_delay(i) == BACKOFF_CAP,
    ensures
        backoff_delay(retry) == BACKOFF_CAP,
    decreases retry - i,
{
    if i < retry {
        lemma_backoff_bounded(i);
        lemma_backoff_bounded(i + 1);
        reveal_with_fuel(backoff_delay, 2);
        lemma_backoff_capped(i + 1, retry);
    }
}

/// An event that waits in the queue.
#[derive(Debug)]
pub struct QueueItem {
    /// Number of the item; the queue gives every item it admits another.
    pub id: u64,
    pub event: Event,
    /// When the item was admitted.
    pub enqueued_at: u64,
    /// How many attempts to send the item have failed.
    pub attempts: u32,
    /// The earliest time of the next attempt.
    pub not_before: u64,
}

/// What a `QueueItem` holds, as mathematical values.
pub ghost struct QueueItemView {
    pub id: u64,
    pub event: EventView,
    pub enqueued_at: u64,
    pub attempts: u32,
    pub not_before: u64,
}

impl View for QueueItem {
    type V = QueueItemView;

    open spec fn view(&self) -> QueueItemView {
        QueueItemView {
            id: self.id,
            event: self.event@,
            enqueued_at: self.enqueued_at,
            attempts: self.attempts,
            not_before: self.not_before,
        }
    }
}

/// Counts of what became of the events that left the queue.
#[derive(Clone, Copy, Debug, PartialEq, Eq, Structural)]
pub struct Tally {
    /// Events that the service accepted.
    pub sent: u64,
    /// Events that were evicted, or not admitted, for want of room.
    pub overflowed: u64,
    /// Events that were given up after their last retry failed.
    pub exhausted: u64,
    /// Events that the service refused for good.
    pub refused: u64,
    /// Events that arrived after the queue was shut down.
    pub late: u64,
}

/// What a worker is to do next.
#[derive(Clone, Copy, Debug, PartialEq, Eq, Structural)]
pub enum Action {
    /// Send the event at the front of the queue, which is item `id`.
    Send { id: u64 },
    /// Nothing can be sent before the time `until`.
    Wait { until: u64 },
    /// The queue is empty.
    Idle,
    /// The queue was shut down.
    Stop,
}

/// How far a flush has come.
#[derive(Clone, Copy, Debug, PartialEq, Eq, Structural)]
pub enum FlushStatus {
    /// The queue is empty.
    Flushed,
    /// The deadline has passed and the queue is not empty.
    TimedOut,
    /// The queue is not empty; `remaining` milliseconds are left.
    Pending { remaining: u64 },
}

/// What became of an event that was offered to the queue.
#[derive(Clone, Copy, Debug, PartialEq, Eq, Structural)]
pub struct Admission {
    /// Whether the event is in the queue now.
    pub admitted: bool,
    /// How many events left the queue, or were turned away, for this one.
    pub dropped: usize,
}

/// The state of a delivery queue.
pub ghost struct TransportView {
    /// The items that wait, the oldest first.
    pub queue: Seq<QueueItemView>,
    pub capacity: nat,
    pub max_retries: u32,
    /// The number that the next item will get.
    pub next_id: u64,
    /// No attempt is made before this time: a rate limit is in force.
    pub blocked_until: u64,
    pub stopped: bool,
    pub tally: Tally,
}

/// The bounded queue of events that wait to be sent.
#[derive(Debug)]
pub struct Transport {
    queue: VecDeque<QueueItem>,
    capacity: usize,
    max_retries: u32,
    next_id: u64,
    blocked_until: u64,
    stopped: bool,
    tally: Tally,
}

/// The views of the items of a queue.
pub open spec fn item_views(items: Seq<QueueItem>) -> Seq<QueueItemView> {
    items.map_values(|item: QueueItem| item@)
}

impl View for Transport {
    type V = TransportView;

    closed spec fn view(&self) -> TransportView {
        TransportView {
            queue: item_views(self.queue@),
            capacity: self.capacity as nat,
            max_retries: self.max_retries,
            next_id: self.next_id,
            blocked_until: self.blocked_until,
            stopped: self.stopped,
            tally: self.tally,
        }
    }
}

/// The item that an event becomes when the queue in state `t` admits it at
/// the time `now`.
pub open spec fn new_item(t: TransportView, event: EventView, now: u64) -> QueueItemView {
    QueueItemView { id: t.next_id, event, enqueued_at: now, attempts: 0, not_before: now }
}

/// The state after `event` was offered at the time `now`. A queue that was
/// shut down turns the event away. Otherwise the event goes to the back,
/// and of the whole queue the newest `capacity` items are kept: from a full
/// queue the oldest item is evicted.
pub open spec fn after_enqueue(t: TransportView, event: EventView, now: u64) -> TransportView {
    if t.stopped {
        TransportView { tally: Tally { late: t.tally.late.saturating_add(1), ..t.tally }, ..t }
    } else {
        let all = t.queue.push(new_item(t, event, now));
        let kept = keep_last(all, t.capacity);
        TransportView {
            queue: kept,
            next_id: t.next_id.wrapping_add(1),
            tally: Tally {
                overflowed: t.tally.overflowed.saturating_add((all.len() - kept.len()) as u64),
                ..t.tally
            },
            ..t
        }
    }
}

/// What `enqueue` reports for an event that was offered in state `t`.
pub open spec fn admission_of(t: TransportView) -> Admission {
    if t.stopped {
        Admission { admitted: false, dropped: 1 }
    } else if t.capacity == 0 {
        Admission { admitted: false, dropped: (t.queue.len() + 1) as usize }
    } else if t.queue.len() < t.capacity {
        Admission { admitted: true, dropped: 0 }
    } else {
        Admission { admitted: true, dropped: (t.queue.len() + 1 - t.capacity) as usize }
    }
}

/// What a worker is to do at the time `now`.
pub open spec fn action_of(t: TransportView, now: u64) -> Action {
    if t.stopped {
        Action::Stop
    } else if t.queue.len() == 0 {
        Action::Idle
    } else if now < t.blocked_until {
        Action::Wait { until: t.blocked_until }
    } else if now < t.queue[0].not_before {
        Action::Wait { until: t.queue[0].not_before }
    } else {
        Action::Send { id: t.queue[0].id }
    }
}

/// The state after the attempt to send item `id` ended with `outcome` at
/// the time `now`. Where item `id` is no longer at the front, nothing
/// changes. A success and a permanent failure remove the item. A transient
/// failure removes it where it has used up its retries, and else puts off
/// its next attempt by the backoff delay. A rate limit keeps the item and
/// holds all attempts back for the delay that was asked.
pub open spec fn after_outcome(t: TransportView, id: u64, outcome: SendOutcome, now: u64) -> TransportView {
    if t.queue.len() == 0 || t.queue[0].id != id {
        t
    } else {
        let front = t.queue[0];
        match outcome {
            SendOutcome::Success => TransportView {
                queue: t.queue.skip(1),
                tally: Tally { sent: t.tally.sent.saturating_add(1), ..t.tally },
                ..t
            },
            SendOutcome::Permanent => TransportView {
                queue: t.queue.skip(1),
                tally: Tally { refused: t.tally.refused.saturating_add(1), ..t.tally },
                ..t
            },
            SendOutcome::Transient => if front.attempts >= t.max_retries {
                TransportView {
                    queue: t.queue.skip(1),
                    tally: Tally { exhausted: t.tally.exhausted.saturating_add(1), ..t.tally },
                    ..t
                }
            } else {
                TransportView {
                    queue: t.queue.update(
                        0,
                        QueueItemView {
                            attempts: (front.attempts + 1) as u32,
                            not_before: now.saturating_add(
                                backoff_delay((front.attempts + 1) as nat) as u64,
                            ),
                            ..front
                        },
                    ),
                    ..t
                }
            },
            SendOutcome::RateLimited { delay } => TransportView {
                blocked_until: now.saturating_add(delay),
                ..t
            },
        }
    }
}

/// How far a flush has come at the time `now`, the deadline being
/// `deadline`.
pub open spec fn flush_status_of(t: TransportView, now: u64, deadline: u64) -> FlushStatus {
    if t.queue.len() == 0 {
        FlushStatus::Flushed
    } else if now >= deadline {
        FlushStatus::TimedOut
    } else {
        FlushStatus::Pending { remaining: (deadline - now) as u64 }
    }
}

/// The empty queue that holds up to `capacity` events and retries an event
/// up to `max_retries` times.
pub open spec fn new_transport(capacity: nat, max_retries: u32) -> TransportView {
    TransportView {
        queue: Seq::empty(),
        capacity,
        max_retries,
        next_id: 0,
        blocked_until: 0,
        stopped: false,
        tally: Tally { sent: 0, overflowed: 0, exhausted: 0, refused: 0, late: 0 },
    }
}

/// The queue stays within its capacity: an event that is offered to a queue
/// that works leaves at most `capacity` items in it. While there is room the
/// event goes to the back and nothing else moves; a full queue loses exactly
/// its oldest item for it.
pub proof fn lemma_enqueue_bounded(t: TransportView, event: EventView, now: u64)
    requires
        !t.stopped,
    ensures
        after_enqueue(t, event, now).queue.len() <= t.capacity,
        t.queue.len() < t.capacity ==> after_enqueue(t, event, now).queue == t.queue.push(
            new_item(t, event, now),
        ),
        t.queue.len() == t.capacity && t.capacity > 0 ==> after_enqueue(t, event, now).queue
            == t.queue.skip(1).push(new_item(t, event, now)),
        t.queue.len() <= t.capacity && t.capacity > 0 ==> admission_of(t).admitted && admission_of(
            t,
        ).dropped == (if t.queue.len() == t.capacity {
            1int
        } else {
            0int
        }),
{
}

/// A queue that is within its capacity stays within it, whatever is offered
/// to it and however an attempt ends; a new queue is within it.
pub proof fn lemma_queue_stays_bounded(
    t: TransportView,
    event: EventView,
    id: u64,
    outcome: SendOutcome,
    now: u64,
)
    requires
        t.queue.len() <= t.capacity,
    ensures
        after_enqueue(t, event, now).queue.len() <= after_enqueue(t, event, now).capacity,
        after_outcome(t, id, outcome, now).queue.len() <= after_outcome(
            t,
            id,
            outcome,
            now,
        ).capacity,
        new_transport(t.capacity, t.max_retries).queue.len() <= t.capacity,
{
}

/// The outcome of an attempt never makes the queue longer, and never
/// changes the order of the items that stay: what is left is the queue as it
/// was, or the queue without its front item, or the queue with its front
/// item put off.
pub proof fn lemma_outcome_keeps_order(t: TransportView, id: u64, outcome: SendOutcome, now: u64)
    ensures
        ({
            let after = after_outcome(t, id, outcome, now);
            &&& after.queue.len() <= t.queue.len()
            &&& after.capacity == t.capacity
            &&& after.queue == t.queue.skip(1) || (after.queue.len() == t.queue.len()
                && forall|i: int| 0 <= i < t.queue.len() ==> (#[trigger] after.queue[i]).id
                    == t.queue[i].id && after.queue[i].event == t.queue[i].event)
        }),
{
}

/// A flush of an empty queue is over at once, whatever the time. A flush of
/// a queue that still holds an event when the deadline has come has timed
/// out, and before the deadline it is pending.
pub proof fn lemma_flush_status(t: TransportView, now: u64, deadline: u64)
    ensures
        t.queue.len() == 0 ==> flush_status_of(t, now, deadline) == FlushStatus::Flushed,
        t.queue.len() > 0 && now >= deadline ==> flush_status_of(t, now, deadline)
            == FlushStatus::TimedOut,
        t.queue.len() > 0 && now < deadline ==> flush_status_of(t, now, deadline)
            is Pending,
{
}

impl Transport {
    /// An empty queue that holds up to `capacity` events and retries an
    /// event up to `max_retries` times.
    pub fn new(capacity: usize, max_retries: u32) -> (r: Transport)
        ensures
            r@ == new_transport(capacity as nat, max_retries),
    {
        let r = Transport {
            queue: VecDeque::new(),
            capacity,
            max_retries,
            next_id: 0,
            blocked_until: 0,
            stopped: false,
            tally: Tally { sent: 0, overflowed: 0, exhausted: 0, refused: 0, late: 0 },
        };
        assert(r@.queue =~= Seq::empty());
        r
    }

    /// The number of events that wait.
    pub fn len(&self) -> (n: usize)
        ensures
            n == self@.queue.len(),
    {
        self.queue.len()
    }

    /// Whether no event waits.
    pub fn is_empty(&self) -> (r: bool)
        ensures
            r == (self@.queue.len() == 0),
    {
        self.queue.len() == 0
    }

    /// The most events that wait at one time.
    pub fn capacity(&self) -> (n: usize)
        ensures
            n == self@.capacity,
    {
        self.capacity
    }

    /// Whether the queue was shut down.
    pub fn is_stopped(&self) -> (r: bool)
        ensures
            r == self@.stopped,
    {
        self.stopped
    }

    /// The counts of what became of the events that left the queue.
    pub fn tally(&self) -> (r: Tally)
        ensures
            r == self@.tally,
    {
        self.tally
    }

    /// The item at the front of the queue, which is the next to be sent.
    pub fn front(&self) -> (r: Option<&QueueItem>)
        ensures
            r.is_some() == (self@.queue.len() > 0),
            r matches Some(item) ==> item@ == self@.queue[0],
    {
        if self.queue.len() > 0 {
            Some(&self.queue[0])
        } else {
            None
        }
    }

    /// Offers an event to the queue at the time `now`. This never waits: a
    /// full queue evicts its oldest item to admit the new one.
    pub fn enqueue(&mut self, event: Event, now: u64) -> (r: Admission)
        ensures
            final(self)@ == after_enqueue(old(self)@, event@, now),
            r == admission_of(old(self)@),
            final(self)@.queue.len() <= final(self)@.capacity || old(self)@.stopped,
    {
        if self.stopped {
            self.tally.late = self.tally.late.saturating_add(1);
            return Admission { admitted: false, dropped: 1 };
        }
        let ghost start = self.queue@;
        let item = QueueItem {
            id: self.next_id,
            event,
            enqueued_at: now,
            attempts: 0,
            not_before: now,
        };
        self.next_id = self.next_id.wrapping_add(1);
        self.queue.push_back(item);
        let ghost all = self.queue@;
        assert(item_views(all) =~= item_views(start).push(item@));
        let n = self.queue.len();
        let mut dropped: usize = 0;
        if n > self.capacity {
            dropped = n - self.capacity;
            let kept = self.queue.split_off(dropped);
            assert(item_views(kept@) =~= item_views(all).skip(dropped as int));
            self.queue = kept;
        }
        self.tally.overflowed = self.tally.overflowed.saturating_add(dropped as u64);
        Admission { admitted: self.capacity > 0, dropped }
    }

    /// Tells a worker what to do at the time `now`.
    pub fn next_action(&self, now: u64) -> (r: Action)
        ensures
            r == action_of(self@, now),
    {
        if self.stopped {
            Action::Stop
        } else if self.queue.len() == 0 {
            Action::Idle
        } else if now < self.blocked_until {
            Action::Wait { until: self.blocked_until }
        } else if now < self.queue[0].not_before {
            Action::Wait { until: self.queue[0].not_before }
        } else {
            Action::Send { id: self.queue[0].id }
        }
    }

    /// Takes note of how the attempt to send item `id` ended.
    pub fn on_outcome(&mut self, id: u64, outcome: SendOutcome, now: u64)
        ensures
            final(self)@ == after_outcome(old(self)@, id, outcome, now),
    {
        if self.queue.len() == 0 || self.queue[0].id != id {
            return;
        }
        let ghost start = self.queue@;
        match outcome {
            SendOutcome::Success => {
                let _ = self.queue.pop_front();
                self.tally.sent = self.tally.sent.saturating_add(1);
                assert(item_views(self.queue@) =~= item_views(start).skip(1));
            },
            SendOutcome::Permanent => {
                let _ = self.queue.pop_front();
                self.tally.refused = self.tally.refused.saturating_add(1);
                assert(item_views(self.queue@) =~= item_views(start).skip(1));
            },
            SendOutcome::Transient => {
                if self.queue[0].attempts >= self.max_retries {
                    let _ = self.queue.pop_front();
                    self.tally.exhausted = self.tally.exhausted.saturating_add(1);
                    assert(item_views(self.queue@) =~= item_views(start).skip(1));
                } else {
                    let front = self.queue.pop_front();
                    match front {
                        Some(mut item) => {
                            item.attempts = item.attempts + 1;
                            item.not_before = now.saturating_add(backoff(item.attempts));
                            proof {
                                lemma_backoff_bounded(item.attempts as nat);
                            }
                            self.queue.push_front(item);
                            assert(item_views(self.queue@) =~= item_views(start).update(
                                0,
                                item@,
                            ));
                        },
                        None => {},
                    }
                }
            },
            SendOutcome::RateLimited { delay } => {
                self.blocked_until = now.saturating_add(delay);
            },
        }
    }

    /// Tells a caller that waits for the queue to drain how far it has come
    /// at the time `now`. An empty queue is flushed whatever the time. The
    /// queue itself does not change.
    pub fn flush_status(&self, now: u64, deadline: u64) -> (r: FlushStatus)
        ensures
            r == flush_status_of(self@, now, deadline),
    {
        if self.queue.len() == 0 {
            FlushStatus::Flushed
        } else if now >= deadline {
            FlushStatus::TimedOut
        } else {
            FlushStatus::Pending { remaining: deadline - now }
        }
    }

    /// One step of shutting the queue down: a flush, and once the flush is
    /// over, one way or the other, the end of all work. While the flush is
    /// pending nothing changes.
    pub fn shutdown(&mut self, now: u64, deadline: u64) -> (r: FlushStatus)
        ensures
            r == flush_status_of(old(self)@, now, deadline),
            final(self)@ == (TransportView {
                stopped: old(self)@.stopped || !(r is Pending),
                ..old(self)@
            }),
    {
        let status = self.flush_status(now, deadline);
        match status {
            FlushStatus::Pending { .. } => {},
            _ => {
                self.stopped = true;
            },
        }
        status
    }
}

} // verus!
