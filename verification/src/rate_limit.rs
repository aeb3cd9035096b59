//! Per-sender sliding-window send quota.
//!
//! For every sender the limiter keeps the times of the sends it allowed in
//! the last sixty seconds. A send is allowed while no more than the ceiling
//! are on record, so a ceiling of `n` lets `n + 1` sends through a window.

use crate::text::same_text;
use std::time::{Duration, Instant};
use vstd::prelude::*;

verus! {

/// Length of the window, in nanoseconds.
pub const WINDOW_NANOS: u128 = 60_000_000_000;

/// `std::time::Instant`, a reading of the monotonic clock.
#[verifier::external_type_specification]
#[verifier::external_body]
pub struct ExInstant(Instant);

/// `Instant::now` reads the clock; nothing is claimed of the reading.
pub assume_specification[ Instant::now ]() -> Instant;

/// `Instant::elapsed` is the time since the reading; nothing is claimed of it.
pub assume_specification[ Instant::elapsed ](start: &Instant) -> Duration;

/// `Duration::as_nanos` is the duration in whole nanoseconds; nothing is
/// claimed of it.
pub assume_specification[ Duration::as_nanos ](d: &Duration) -> u128;

/// A time on record is still in the window of a probe at `now` when it is
/// no more than sixty seconds old.
pub open spec fn in_window(stamp: u128, now: u128) -> bool {
    stamp + WINDOW_NANOS >= now
}

/// The times of `stamps` that are still in the window at `now`, in order.
pub open spec fn recent(stamps: Seq<u128>, now: u128) -> Seq<u128>
    decreases stamps.len(),
{
    if stamps.len() == 0 {
        stamps
    } else if in_window(stamps.last(), now) {
        recent(stamps.drop_last(), now).push(stamps.last())
    } else {
        recent(stamps.drop_last(), now)
    }
}

/// Whether a probe at `now` is allowed, given the times on record.
pub open spec fn probe_allows(stamps: Seq<u128>, now: u128, max_per_minute: u32) -> bool {
    recent(stamps, now).len() <= max_per_minute
}

/// The times on record after a probe at `now`: old ones are dropped, and
/// `now` is added where the probe is allowed.
pub open spec fn after_probe(stamps: Seq<u128>, now: u128, max_per_minute: u32) -> Seq<u128> {
    if probe_allows(stamps, now, max_per_minute) {
        recent(stamps, now).push(now)
    } else {
        recent(stamps, now)
    }
}

/// The times on record after probes at each of `times` in turn.
pub open spec fn after_probes(stamps: Seq<u128>, times: Seq<u128>, max_per_minute: u32) -> Seq<
    u128,
>
    decreases times.len(),
{
    if times.len() == 0 {
        stamps
    } else {
        after_probe(
            after_probes(stamps, times.drop_last(), max_per_minute),
            times.last(),
            max_per_minute,
        )
    }
}

/// Whether the `k`-th of the probes at `times` is allowed.
pub open spec fn probe_allowed_at(
    stamps: Seq<u128>,
    times: Seq<u128>,
    max_per_minute: u32,
    k: int,
) -> bool {
    probe_allows(after_probes(stamps, times.take(k), max_per_minute), times[k], max_per_minute)
}

/// After a probe, no time on record for the probed sender is more than
/// sixty seconds older than the probe.
pub proof fn lemma_record_is_recent(stamps: Seq<u128>, now: u128, max_per_minute: u32)
    ensures
        forall|i: int|
            0 <= i < after_probe(stamps, now, max_per_minute).len() ==> in_window(
                #[trigger] after_probe(stamps, now, max_per_minute)[i],
                now,
            ),
{
    lemma_recent_in_window(stamps, now);
}

proof fn lemma_recent_in_window(stamps: Seq<u128>, now: u128)
    ensures
        forall|i: int|
            0 <= i < recent(stamps, now).len() ==> in_window(#[trigger] recent(stamps, now)[i], now),
    decreases stamps.len(),
{
    if stamps.len() > 0 {
        lemma_recent_in_window(stamps.drop_last(), now);
        let kept = recent(stamps.drop_last(), now);
        assert forall|i: int| 0 <= i < recent(stamps, now).len() implies in_window(
            #[trigger] recent(stamps, now)[i],
            now,
        ) by {
            if i < kept.len() {
                assert(recent(stamps, now)[i] == kept[i]);
            }
        }
    }
}

/// Number of the times in `stamps` that are at or after `start`.
pub open spec fn count_since(stamps: Seq<u128>, start: u128) -> nat
    decreases stamps.len(),
{
    if stamps.len() == 0 {
        0
    } else if stamps.last() >= start {
        count_since(stamps.drop_last(), start) + 1
    } else {
        count_since(stamps.drop_last(), start)
    }
}

proof fn lemma_recent_keeps_window(stamps: Seq<u128>, now: u128, start: u128)
    requires
        start <= now <= start + WINDOW_NANOS,
    ensures
        count_since(recent(stamps, now), start) == count_since(stamps, start),
        count_since(stamps, start) <= recent(stamps, now).len() <= stamps.len(),
    decreases stamps.len(),
{
    if stamps.len() > 0 {
        lemma_recent_keeps_window(stamps.drop_last(), now, start);
        if in_window(stamps.last(), now) {
            assert(recent(stamps, now).drop_last() =~= recent(stamps.drop_last(), now));
        }
    }
}

proof fn lemma_allowed_probes_accumulate(
    stamps: Seq<u128>,
    times: Seq<u128>,
    max_per_minute: u32,
    start: u128,
)
    requires
        forall|i: int| 0 <= i < times.len() ==> start <= #[trigger] times[i] <= start + WINDOW_NANOS,
        forall|k: int|
            0 <= k < times.len() ==> #[trigger] probe_allowed_at(stamps, times, max_per_minute, k),
    ensures
        count_since(after_probes(stamps, times, max_per_minute), start) >= times.len(),
    decreases times.len(),
{
    if times.len() > 0 {
        let head = times.drop_last();
        let last = times.len() - 1;
        assert forall|k: int| 0 <= k < head.len() implies #[trigger] probe_allowed_at(
            stamps,
            head,
            max_per_minute,
            k,
        ) by {
            assert(head.take(k) =~= times.take(k));
            assert(probe_allowed_at(stamps, times, max_per_minute, k));
        }
        lemma_allowed_probes_accumulate(stamps, head, max_per_minute, start);
        let before = after_probes(stamps, head, max_per_minute);
        assert(times.take(last) =~= head);
        assert(probe_allowed_at(stamps, times, max_per_minute, last));
        lemma_recent_keeps_window(before, times.last(), start);
        assert(recent(before, times.last()).push(times.last()).drop_last() =~= recent(
            before,
            times.last(),
        ));
    }
}

/// Of `max_per_minute + 2` probes for one sender that all fall into one
/// window of sixty seconds, at least one is denied, whatever was on record
/// before.
pub proof fn lemma_burst_is_limited(
    stamps: Seq<u128>,
    times: Seq<u128>,
    max_per_minute: u32,
    start: u128,
)
    requires
        times.len() == max_per_minute + 2,
        forall|i: int| 0 <= i < times.len() ==> start <= #[trigger] times[i] <= start + WINDOW_NANOS,
    ensures
        exists|k: int|
            0 <= k < times.len() && !#[trigger] probe_allowed_at(stamps, times, max_per_minute, k),
{
    if forall|k: int|
        0 <= k < times.len() ==> #[trigger] probe_allowed_at(stamps, times, max_per_minute, k) {
        let last = times.len() - 1;
        let head = times.take(last);
        assert forall|k: int| 0 <= k < head.len() implies #[trigger] probe_allowed_at(
            stamps,
            head,
            max_per_minute,
            k,
        ) by {
            assert(head.take(k) =~= times.take(k));
            assert(probe_allowed_at(stamps, times, max_per_minute, k));
        }
        lemma_allowed_probes_accumulate(stamps, head, max_per_minute, start);
        let before = after_probes(stamps, head, max_per_minute);
        lemma_recent_keeps_window(before, times[last], start);
        assert(probe_allowed_at(stamps, times, max_per_minute, last));
        assert(false);
    }
}

/// The sends on record for one sender.
struct SenderLog {
    sender: String,
    stamps: Vec<u128>,
}

/// The rate limiter: the clock reading it counts from, and the sends on
/// record for every sender seen so far.
pub struct SendRateLimiter {
    started: Instant,
    logs: Vec<SenderLog>,
}

/// The times on record for `sender` in `logs`: those of the first entry
/// under that name, none where there is no such entry.
spec fn stamps_in(logs: Seq<SenderLog>, sender: Seq<char>) -> Seq<u128>
    decreases logs.len(),
{
    if logs.len() == 0 {
        Seq::empty()
    } else if logs[0].sender@ == sender {
        logs[0].stamps@
    } else {
        stamps_in(logs.drop_first(), sender)
    }
}

proof fn lemma_stamps_in_update(logs: Seq<SenderLog>, k: int, entry: SenderLog, sender: Seq<char>)
    requires
        0 <= k < logs.len(),
        entry.sender@ == logs[k].sender@,
        forall|j: int| 0 <= j < k ==> logs[j].sender@ != logs[k].sender@,
    ensures
        stamps_in(logs.update(k, entry), sender) == if sender == entry.sender@ {
            entry.stamps@
        } else {
            stamps_in(logs, sender)
        },
        stamps_in(logs, logs[k].sender@) == logs[k].stamps@,
    decreases k,
{
    if k > 0 {
        assert(logs.update(k, entry).drop_first() =~= logs.drop_first().update(k - 1, entry));
        lemma_stamps_in_update(logs.drop_first(), k - 1, entry, sender);
    } else {
        assert(logs.update(k, entry).drop_first() =~= logs.drop_first());
    }
}

proof fn lemma_stamps_in_push(logs: Seq<SenderLog>, entry: SenderLog, sender: Seq<char>)
    requires
        forall|j: int| 0 <= j < logs.len() ==> logs[j].sender@ != entry.sender@,
    ensures
        stamps_in(logs.push(entry), sender) == if sender == entry.sender@ {
            entry.stamps@
        } else {
            stamps_in(logs, sender)
        },
        stamps_in(logs, entry.sender@) == Seq::<u128>::empty(),
    decreases logs.len(),
{
    if logs.len() > 0 {
        assert(logs.push(entry).drop_first() =~= logs.drop_first().push(entry));
        lemma_stamps_in_push(logs.drop_first(), entry, sender);
    } else {
        assert(logs.push(entry).drop_first() =~= logs);
    }
}

/// The times of `stamps` that are still in the window at `now`.
fn keep_recent(stamps: &Vec<u128>, now: u128) -> (kept: Vec<u128>)
    ensures
        kept@ == recent(stamps@, now),
{
    let floor = if now >= WINDOW_NANOS {
        now - WINDOW_NANOS
    } else {
        0
    };
    let mut kept: Vec<u128> = Vec::new();
    let mut i: usize = 0;
    while i < stamps.len()
        invariant
            i <= stamps@.len(),
            floor == if now >= WINDOW_NANOS {
                now - WINDOW_NANOS
            } else {
                0
            },
            kept@ == recent(stamps@.take(i as int), now),
        decreases stamps@.len() - i,
    {
        assert(stamps@.take(i + 1).drop_last() =~= stamps@.take(i as int));
        if stamps[i] >= floor {
            kept.push(stamps[i]);
        }
        i += 1;
    }
    assert(stamps@.take(i as int) =~= stamps@);
    kept
}

impl SendRateLimiter {
    /// The times of the sends on record for `sender`, oldest first.
    pub closed spec fn stamps(&self, sender: Seq<char>) -> Seq<u128> {
        stamps_in(self.logs@, sender)
    }

    /// A limiter with nothing on record. Time is counted from its creation.
    pub fn new() -> (r: Self)
        ensures
            forall|sender: Seq<char>| (#[trigger] r.stamps(sender)).len() == 0,
    {
        SendRateLimiter { started: Instant::now(), logs: Vec::new() }
    }

    /// Nanoseconds that have passed since the limiter was created.
    pub fn now(&self) -> u128 {
        let elapsed = self.started.elapsed();
        elapsed.as_nanos()
    }

    /// Probes the limiter for `mail_from` at time `now`: the times on
    /// record that are older than sixty seconds are dropped; if no more
    /// than `max_send_per_minute` remain, `now` is put on record and the
    /// send is allowed. Other senders are left as they are.
    pub fn is_sending_allowed_at(
        &mut self,
        mail_from: &str,
        max_send_per_minute: u32,
        now: u128,
    ) -> (allowed: bool)
        ensures
            allowed == probe_allows(old(self).stamps(mail_from@), now, max_send_per_minute),
            final(self).stamps(mail_from@) == after_probe(
                old(self).stamps(mail_from@),
                now,
                max_send_per_minute,
            ),
            forall|other: Seq<char>|
                other != mail_from@ ==> #[trigger] final(self).stamps(other) == old(self).stamps(
                    other,
                ),
    {
        let mut k: usize = 0;
        while k < self.logs.len() && !same_text(self.logs[k].sender.as_str(), mail_from)
            invariant
                k <= self.logs@.len(),
                *self == *old(self),
                forall|j: int| 0 <= j < k ==> self.logs@[j].sender@ != mail_from@,
            decreases self.logs@.len() - k,
        {
            k += 1;
        }
        let ghost before = self.logs@;
        if k < self.logs.len() {
            let mut kept = keep_recent(&self.logs[k].stamps, now);
            let allowed = kept.len() <= max_send_per_minute as usize;
            if allowed {
                kept.push(now);
            }
            let entry = SenderLog { sender: mail_from.to_owned(), stamps: kept };
            proof {
                assert forall|other: Seq<char>|
                    stamps_in(before.update(k as int, entry), other) == if other == mail_from@ {
                        entry.stamps@
                    } else {
                        stamps_in(before, other)
                    } by {
                    lemma_stamps_in_update(before, k as int, entry, other);
                }
                lemma_stamps_in_update(before, k as int, entry, mail_from@);
            }
            self.logs[k] = entry;
            allowed
        } else {
            let empty: Vec<u128> = Vec::new();
            let mut kept = keep_recent(&empty, now);
            let allowed = kept.len() <= max_send_per_minute as usize;
            if allowed {
                kept.push(now);
            }
            let entry = SenderLog { sender: mail_from.to_owned(), stamps: kept };
            proof {
                assert forall|other: Seq<char>|
                    stamps_in(before.push(entry), other) == if other == mail_from@ {
                        entry.stamps@
                    } else {
                        stamps_in(before, other)
                    } by {
                    lemma_stamps_in_push(before, entry, other);
                }
                lemma_stamps_in_push(before, entry, mail_from@);
            }
            self.logs.push(entry);
            allowed
        }
    }

    /// Probes the limiter for `mail_from` at the present time. Whether the
    /// send is allowed depends on the clock; whatever it reads, only the
    /// record of `mail_from` changes.
    pub fn is_sending_allowed(&mut self, mail_from: &str, max_send_per_minute: u32) -> (allowed:
        bool)
        ensures
            exists|now: u128|
                allowed == probe_allows(old(self).stamps(mail_from@), now, max_send_per_minute)
                    && #[trigger] after_probe(old(self).stamps(mail_from@), now, max_send_per_minute)
                    == final(self).stamps(mail_from@),
            forall|other: Seq<char>|
                other != mail_from@ ==> #[trigger] final(self).stamps(other) == old(self).stamps(
                    other,
                ),
    {
        let now = self.now();
        let allowed = self.is_sending_allowed_at(mail_from, max_send_per_minute, now);
        assert(after_probe(old(self).stamps(mail_from@), now, max_send_per_minute) == self.stamps(
            mail_from@,
        ));
        allowed
    }
}

} // verus!
