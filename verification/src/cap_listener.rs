//! Keeping up with the session's log across gaps and lost connections.
//!
//! The one who reads the stream remembers the last message seen. After a gap
//! it subscribes again from there on the same connection; after the end of the
//! stream it connects again, with growing delays, and gives up in the end.
use vstd::arithmetic::power2::{lemma2_to64, lemma_pow2_strictly_increases, pow2};
use vstd::prelude::*;

use crate::capability_log::CapOutcome;
use crate::error::concat;
use crate::events::{EventView, WorkspaceEvent};
use crate::peer_map::{PeerMap, PeerMapView, Readiness};
use crate::text::{decimal, decimal_text};

verus! {

/// The delay before the first attempt to connect again, in milliseconds.
pub const CAP_RECONNECT_BASE_DELAY: u64 = 100;

/// The longest delay before an attempt, in milliseconds.
pub const CAP_RECONNECT_MAX_DELAY: u64 = 5000;

/// How many attempts are made before giving up.
pub const CAP_RECONNECT_MAX_ATTEMPTS: u32 = 16;

/// The delay before an attempt, counted from zero: it doubles from attempt to
/// attempt up to its limit.
pub open spec fn backoff(attempt: u32) -> Option<u64> {
    if attempt >= CAP_RECONNECT_MAX_ATTEMPTS {
        None
    } else if CAP_RECONNECT_BASE_DELAY * pow2(attempt as nat) < CAP_RECONNECT_MAX_DELAY {
        Some((CAP_RECONNECT_BASE_DELAY * pow2(attempt as nat)) as u64)
    } else {
        Some(CAP_RECONNECT_MAX_DELAY)
    }
}

/// The delay before an attempt, in milliseconds, or nothing where there are no
/// more attempts.
pub fn cap_reconnect_backoff(attempt: u32) -> (delay: Option<u64>)
    ensures
        delay == backoff(attempt),
{
    if attempt >= CAP_RECONNECT_MAX_ATTEMPTS {
        return None;
    }
    let mut delay: u64 = CAP_RECONNECT_BASE_DELAY;
    let mut i: u32 = 0;
    proof {
        lemma2_to64();
    }
    while i < attempt && delay < CAP_RECONNECT_MAX_DELAY
        invariant
            i <= attempt,
            delay == CAP_RECONNECT_BASE_DELAY * pow2(i as nat),
            delay <= 2 * CAP_RECONNECT_MAX_DELAY,
        decreases attempt - i,
    {
        proof {
            vstd::arithmetic::power2::lemma_pow2_unfold((i + 1) as nat);
        }
        delay = delay * 2;
        i += 1;
    }
    proof {
        if i < attempt {
            lemma_pow2_strictly_increases(i as nat, attempt as nat);
        }
    }
    if delay < CAP_RECONNECT_MAX_DELAY {
        Some(delay)
    } else {
        Some(CAP_RECONNECT_MAX_DELAY)
    }
}

/// The last place of the log after a message was seen.
pub open spec fn latest(prev: Option<u64>, seq: u64) -> u64 {
    match prev {
        Some(p) => if p > seq {
            p
        } else {
            seq
        },
        None => seq,
    }
}

/// The last place of the log after a message was seen: it never goes back.
pub fn max_seq(prev: Option<u64>, seq: u64) -> (res: u64)
    ensures
        res == latest(prev, seq),
{
    match prev {
        Some(p) => if p > seq {
            p
        } else {
            seq
        },
        None => seq,
    }
}

/// Where the one who reads the stream is.
#[derive(Clone, Copy, Debug, PartialEq, Eq)]
pub struct CapListener {
    /// The last message seen.
    pub last_seq: Option<u64>,
    /// How many attempts to connect again have failed.
    pub attempt: u32,
}

/// What the one who reads the stream does next.
#[derive(Clone, Debug, PartialEq, Eq)]
pub enum ListenerNext {
    /// Read on.
    Drain,
    /// Subscribe again on the same connection, and read on meanwhile.
    Resubscribe {
        /// The last message seen.
        since: Option<u64>,
    },
    /// Connect and subscribe again after a delay.
    Reconnect {
        /// The delay in milliseconds.
        delay: u64,
        /// The last message seen.
        since: Option<u64>,
    },
    /// Stop, and tell the consumer.
    GiveUp(WorkspaceEvent),
}

/// A [`ListenerNext`] over sequences.
pub enum NextView {
    /// [`ListenerNext::Drain`].
    Drain,
    /// [`ListenerNext::Resubscribe`].
    Resubscribe(Option<u64>),
    /// [`ListenerNext::Reconnect`].
    Reconnect(u64, Option<u64>),
    /// [`ListenerNext::GiveUp`].
    GiveUp(EventView),
}

impl View for ListenerNext {
    type V = NextView;

    open spec fn view(&self) -> NextView {
        match *self {
            ListenerNext::Drain => NextView::Drain,
            ListenerNext::Resubscribe { since } => NextView::Resubscribe(since),
            ListenerNext::Reconnect { delay, since } => NextView::Reconnect(delay, since),
            ListenerNext::GiveUp(event) => NextView::GiveUp(event@),
        }
    }
}

/// The map when a replay begins.
pub open spec fn replay_begun(map: PeerMapView) -> PeerMapView {
    PeerMapView {
        readiness: if map.readiness == Readiness::Closed {
            Readiness::Closed
        } else {
            Readiness::Replaying
        },
        ..map
    }
}

/// The message at the end of all attempts.
pub open spec fn given_up_text() -> Seq<char> {
    "cap-listener: giving up after "@ + decimal(CAP_RECONNECT_MAX_ATTEMPTS as nat)
        + " reconnect attempts; peer/capability-change events will no longer be observed"@
}

/// What comes before an attempt to connect again.
pub open spec fn before_attempt(attempt: u32, since: Option<u64>) -> NextView {
    match backoff(attempt) {
        Some(delay) => NextView::Reconnect(delay, since),
        None => NextView::GiveUp(EventView::Error(given_up_text())),
    }
}

impl CapListener {
    /// Nothing was seen.
    pub fn new() -> (listener: CapListener)
        ensures
            listener == (CapListener { last_seq: None, attempt: 0 }),
    {
        CapListener { last_seq: None, attempt: 0 }
    }

    /// Goes on after an event of the stream. After a gap the log is replayed,
    /// so the map waits for its end again.
    pub fn on_outcome(&mut self, outcome: CapOutcome, map: &mut PeerMap) -> (next: ListenerNext)
        ensures
            match outcome {
                CapOutcome::Advanced(seq) => {
                    &&& *final(self) == (CapListener { last_seq: Some(latest(old(self).last_seq, seq)), ..*old(self) })
                    &&& final(map)@ == old(map)@
                    &&& next@ == NextView::Drain
                },
                CapOutcome::Gap => {
                    &&& *final(self) == *old(self)
                    &&& final(map)@ == replay_begun(old(map)@)
                    &&& next@ == NextView::Resubscribe(old(self).last_seq)
                },
                CapOutcome::Ignored => {
                    &&& *final(self) == *old(self)
                    &&& final(map)@ == old(map)@
                    &&& next@ == NextView::Drain
                },
            },
    {
        match outcome {
            CapOutcome::Advanced(seq) => {
                self.last_seq = Some(max_seq(self.last_seq, seq));
                ListenerNext::Drain
            },
            CapOutcome::Gap => {
                map.begin_replay();
                ListenerNext::Resubscribe { since: self.last_seq }
            },
            CapOutcome::Ignored => ListenerNext::Drain,
        }
    }

    /// Goes on after the end of the stream: the connection was lost.
    pub fn on_closed(&mut self, map: &mut PeerMap) -> (next: ListenerNext)
        ensures
            *final(self) == (CapListener { attempt: 0, ..*old(self) }),
            final(map)@ == replay_begun(old(map)@),
            next@ == before_attempt(0, old(self).last_seq),
    {
        self.attempt = 0;
        map.begin_replay();
        self.next_attempt()
    }

    /// Goes on after an attempt to connect and subscribe again. When there are
    /// no more attempts, whoever waits for the end of the replay is let go.
    pub fn on_reconnect(&mut self, connected: bool, map: &mut PeerMap) -> (next: ListenerNext)
        requires
            old(self).attempt < CAP_RECONNECT_MAX_ATTEMPTS,
        ensures
            if connected {
                &&& *final(self) == *old(self)
                &&& final(map)@ == old(map)@
                &&& next@ == NextView::Drain
            } else {
                &&& *final(self) == (CapListener { attempt: (old(self).attempt + 1) as u32, ..*old(self) })
                &&& next@ == before_attempt((old(self).attempt + 1) as u32, old(self).last_seq)
                &&& final(map)@ == if next@ is GiveUp {
                    PeerMapView { readiness: Readiness::Closed, ..old(map)@ }
                } else {
                    old(map)@
                }
            },
    {
        if connected {
            return ListenerNext::Drain;
        }
        self.attempt = self.attempt + 1;
        let next = self.next_attempt();
        match &next {
            ListenerNext::GiveUp(_) => map.close(),
            _ => {},
        }
        next
    }

    fn next_attempt(&self) -> (next: ListenerNext)
        ensures
            next@ == before_attempt(self.attempt, self.last_seq),
    {
        match cap_reconnect_backoff(self.attempt) {
            Some(delay) => ListenerNext::Reconnect { delay, since: self.last_seq },
            None => {
                let mut text = concat(
                    "cap-listener: giving up after ",
                    decimal_text(CAP_RECONNECT_MAX_ATTEMPTS as u64).as_str(),
                );
                text.append(" reconnect attempts; peer/capability-change events will no longer be observed");
                ListenerNext::GiveUp(WorkspaceEvent::Error(text))
            },
        }
    }
}

/// The delays never shrink, stay within their bounds, and end.
pub proof fn law_backoff_grows_to_its_cap(a: u32, b: u32)
    requires
        a <= b,
    ensures
        a < CAP_RECONNECT_MAX_ATTEMPTS <==> backoff(a) is Some,
        backoff(a) matches Some(d) ==> CAP_RECONNECT_BASE_DELAY <= d <= CAP_RECONNECT_MAX_DELAY,
        b < CAP_RECONNECT_MAX_ATTEMPTS ==> backoff(a)->0 <= backoff(b)->0,
        6 <= a < CAP_RECONNECT_MAX_ATTEMPTS ==> backoff(a) == Some(CAP_RECONNECT_MAX_DELAY),
{
    lemma2_to64();
    if a > 0 {
        lemma_pow2_strictly_increases(0, a as nat);
    }
    if a < b {
        lemma_pow2_strictly_increases(a as nat, b as nat);
    }
    if a > 6 {
        lemma_pow2_strictly_increases(6, a as nat);
    }
}

/// The place from which the log is asked for never goes back, and covers every
/// message seen; a synthetic message does not move it.
pub proof fn law_watermark_never_goes_back(prev: Option<u64>, seq: u64)
    ensures
        latest(prev, seq) >= seq,
        prev matches Some(p) ==> latest(prev, seq) >= p && latest(prev, 0) == p,
{
}

/// The first delay is the base, and each one after it is twice the one before
/// or the limit, whichever is less.
pub proof fn law_delays_double(attempt: u32)
    requires
        attempt + 1 < CAP_RECONNECT_MAX_ATTEMPTS,
    ensures
        backoff(0) == Some(CAP_RECONNECT_BASE_DELAY),
        backoff((attempt + 1) as u32) == Some(
            if 2 * backoff(attempt)->0 < CAP_RECONNECT_MAX_DELAY {
                (2 * backoff(attempt)->0) as u64
            } else {
                CAP_RECONNECT_MAX_DELAY
            },
        ),
{
    lemma2_to64();
    vstd::arithmetic::power2::lemma_pow2_unfold((attempt + 1) as nat);
    if attempt > 0 {
        lemma_pow2_strictly_increases(0, attempt as nat);
    }
}

/// While there are attempts left the listener connects again, after the delay
/// of the attempt and from the last message that it saw; after the last one it
/// gives up.
pub proof fn law_attempts_go_on_from_the_last_message(attempt: u32, since: Option<u64>)
    ensures
        attempt < CAP_RECONNECT_MAX_ATTEMPTS ==> before_attempt(attempt, since) == NextView::Reconnect(
            backoff(attempt)->0,
            since,
        ),
        attempt >= CAP_RECONNECT_MAX_ATTEMPTS ==> before_attempt(attempt, since) == NextView::GiveUp(
            EventView::Error(given_up_text()),
        ),
{
}

/// The last message seen is one that was seen: the one before, or the new one.
pub proof fn law_watermark_was_seen(prev: Option<u64>, seq: u64)
    ensures
        latest(prev, seq) == seq || prev == Some(latest(prev, seq)),
        prev is None ==> latest(prev, seq) == seq,
{
}

/// A replay that begins makes whoever asks wait for its end, unless the map is
/// closed for good; it changes nothing that the map knows.
pub proof fn law_replays_only_touch_readiness(map: PeerMapView)
    ensures
        replay_begun(map).readiness == Readiness::Closed <==> map.readiness == Readiness::Closed,
        replay_begun(map).readiness == Readiness::Replaying <==> map.readiness != Readiness::Closed,
        replay_begun(map).members == map.members,
        replay_begun(map).caps == map.caps,
        replay_begun(map).revoked == map.revoked,
        replay_begun(map).host == map.host,
{
}

/// A message moves the mark of the listener and nothing else; a gap makes the
/// map wait and asks again from the mark; nothing moves the mark back.
pub proof fn law_outcomes_move_the_listener(listener: &mut CapListener, outcome: CapOutcome, map: &mut PeerMap, next: ListenerNext)
    requires
        call_ensures(CapListener::on_outcome, (listener, outcome, map), next),
    ensures
        outcome matches CapOutcome::Advanced(seq) ==> {
            &&& final(listener).last_seq matches Some(mark)
            &&& mark >= seq
            &&& next@ == NextView::Drain
            &&& final(map)@ == old(map)@
        },
        outcome is Gap ==> {
            &&& next@ == NextView::Resubscribe(old(listener).last_seq)
            &&& final(map)@.readiness != Readiness::Ready
            &&& final(listener).last_seq == old(listener).last_seq
        },
        outcome is Ignored ==> next@ == NextView::Drain && final(map)@ == old(map)@ && final(listener).last_seq
            == old(listener).last_seq,
        old(listener).last_seq matches Some(before) ==> (final(listener).last_seq matches Some(mark) && mark >= before),
        final(listener).attempt == old(listener).attempt,
{
}

/// A lost connection starts the attempts anew; each one that fails brings the
/// next, and the last one closes the map, so that nobody waits for ever. The
/// mark stays through all of it.
pub proof fn law_lost_connections(
    closed: &mut CapListener,
    failed: &mut CapListener,
    map: &mut PeerMap,
    other: &mut PeerMap,
    connected: bool,
    first: ListenerNext,
    next: ListenerNext,
)
    requires
        call_ensures(CapListener::on_closed, (closed, map), first),
        call_ensures(CapListener::on_reconnect, (failed, connected, other), next),
        old(failed).attempt < CAP_RECONNECT_MAX_ATTEMPTS,
    ensures
        first@ == NextView::Reconnect(CAP_RECONNECT_BASE_DELAY, old(closed).last_seq),
        final(closed).attempt == 0,
        final(closed).last_seq == old(closed).last_seq,
        final(map)@.readiness != Readiness::Ready,
        final(failed).last_seq == old(failed).last_seq,
        connected ==> next@ == NextView::Drain && *final(failed) == *old(failed) && final(other)@ == old(other)@,
        !connected ==> final(failed).attempt == old(failed).attempt + 1,
        !connected && old(failed).attempt + 1 < CAP_RECONNECT_MAX_ATTEMPTS ==> next@ is Reconnect && final(other)@
            == old(other)@,
        !connected && old(failed).attempt + 1 == CAP_RECONNECT_MAX_ATTEMPTS ==> next@ is GiveUp && final(other)@.readiness
            == Readiness::Closed,
{
    lemma2_to64();
}

} // verus!
