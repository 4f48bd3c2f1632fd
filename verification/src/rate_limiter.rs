//! Throttling of failed logins: a sliding window of failure times per
//! client.
//!
//! Time is a count of ticks that the caller reads from a monotonic clock;
//! the window is a number of the same ticks. A failure is live while it is
//! younger than the window. A client is limited while it has at least
//! `max_attempts` live failures.
//!
//! The records stand for a map from client to failure times. They are kept
//! in a vector in which no client occurs twice, not in a hash map: vstd
//! models the hashing of integer keys only, so nothing could be proved of
//! a map keyed by the client's name.

use vstd::prelude::*;
use crate::text::str_equal;

verus! {

/// The failures on record for each client, oldest first.
pub type LimiterModel = Map<Seq<char>, Seq<u64>>;

/// A failure at time `t` still counts at time `now`.
pub open spec fn is_live(t: u64, now: u64, window: u64) -> bool {
    t as int > now as int - window as int
}

/// The failures among `ts` that still count at time `now`, in order.
pub open spec fn live_failures(ts: Seq<u64>, now: u64, window: u64) -> Seq<u64>
    decreases ts.len(),
{
    if ts.len() == 0 {
        ts
    } else {
        let earlier = live_failures(ts.drop_last(), now, window);
        if is_live(ts.last(), now, window) {
            earlier.push(ts.last())
        } else {
            earlier
        }
    }
}

/// The failures on record for `id`, none where it has no record.
pub open spec fn failures_of(m: LimiterModel, id: Seq<char>) -> Seq<u64> {
    if m.contains_key(id) {
        m[id]
    } else {
        Seq::empty()
    }
}

/// Whether `id` is limited at time `now`.
pub open spec fn limited(
    m: LimiterModel,
    id: Seq<char>,
    now: u64,
    window: u64,
    max_attempts: usize,
) -> bool {
    live_failures(failures_of(m, id), now, window).len() >= max_attempts
}

/// The records after `id` was checked at time `now`: its record holds its
/// live failures, and exists from then on.
pub open spec fn after_check(m: LimiterModel, id: Seq<char>, now: u64, window: u64) -> LimiterModel {
    m.insert(id, live_failures(failures_of(m, id), now, window))
}

/// The records after a failure of `id` at time `now`.
pub open spec fn after_failure(m: LimiterModel, id: Seq<char>, now: u64) -> LimiterModel {
    m.insert(id, failures_of(m, id).push(now))
}

/// The records after `id` was cleared.
pub open spec fn after_clear(m: LimiterModel, id: Seq<char>) -> LimiterModel {
    m.remove(id)
}

/// The records after a sweep at time `now`: each record keeps its live
/// failures, and a record without any is gone.
pub open spec fn after_cleanup(m: LimiterModel, now: u64, window: u64) -> LimiterModel {
    Map::new(
        |id: Seq<char>| m.contains_key(id) && live_failures(m[id], now, window).len() > 0,
        |id: Seq<char>| live_failures(m[id], now, window),
    )
}

/// The records after the failures of `id` at each of `times`, in order.
pub open spec fn after_failures(m: LimiterModel, id: Seq<char>, times: Seq<u64>) -> LimiterModel
    decreases times.len(),
{
    if times.len() == 0 {
        m
    } else {
        after_failure(after_failures(m, id, times.drop_last()), id, times.last())
    }
}

/// The live failures among `ts` are among `ts`; where all of `ts` are
/// live, they are `ts`.
pub proof fn lemma_live_failures_bounds(ts: Seq<u64>, now: u64, window: u64)
    ensures
        live_failures(ts, now, window).len() <= ts.len(),
        forall|i: int|
            0 <= i < live_failures(ts, now, window).len() ==> is_live(
                #[trigger] live_failures(ts, now, window)[i],
                now,
                window,
            ),
        (forall|i: int| 0 <= i < ts.len() ==> is_live(#[trigger] ts[i], now, window))
            ==> live_failures(ts, now, window) == ts,
        (forall|i: int| 0 <= i < ts.len() ==> !is_live(#[trigger] ts[i], now, window))
            ==> live_failures(ts, now, window).len() == 0,
    decreases ts.len(),
{
    if ts.len() > 0 {
        lemma_live_failures_bounds(ts.drop_last(), now, window);
        if forall|i: int| 0 <= i < ts.len() ==> is_live(#[trigger] ts[i], now, window) {
            assert forall|i: int| 0 <= i < ts.drop_last().len() implies is_live(
                #[trigger] ts.drop_last()[i],
                now,
                window,
            ) by {
                assert(ts.drop_last()[i] == ts[i]);
            }
            assert(ts.drop_last().push(ts.last()) =~= ts);
        }
        if forall|i: int| 0 <= i < ts.len() ==> !is_live(#[trigger] ts[i], now, window) {
            assert forall|i: int| 0 <= i < ts.drop_last().len() implies !is_live(
                #[trigger] ts.drop_last()[i],
                now,
                window,
            ) by {
                assert(ts.drop_last()[i] == ts[i]);
            }
            assert(!is_live(ts[ts.len() - 1], now, window));
        }
    }
}

/// The live failures of a record followed by more failures are the live
/// failures of the record followed by those of the rest.
pub proof fn lemma_live_failures_concat(a: Seq<u64>, b: Seq<u64>, now: u64, window: u64)
    ensures
        live_failures(a + b, now, window) == live_failures(a, now, window) + live_failures(
            b,
            now,
            window,
        ),
    decreases b.len(),
{
    if b.len() == 0 {
        assert(a + b =~= a);
        assert(live_failures(a, now, window) + live_failures(b, now, window) =~= live_failures(
            a,
            now,
            window,
        ));
    } else {
        lemma_live_failures_concat(a, b.drop_last(), now, window);
        assert((a + b).drop_last() =~= a + b.drop_last());
        assert((a + b).last() == b.last());
        let la = live_failures(a, now, window);
        let lb = live_failures(b.drop_last(), now, window);
        assert((la + lb).push(b.last()) =~= la + lb.push(b.last()));
    }
}

/// Pruning at a time and then at the same or a later time leaves what
/// pruning at the later time alone leaves.
pub proof fn lemma_live_failures_twice(ts: Seq<u64>, now: u64, later: u64, window: u64)
    requires
        now <= later,
    ensures
        live_failures(live_failures(ts, now, window), later, window) == live_failures(
            ts,
            later,
            window,
        ),
    decreases ts.len(),
{
    if ts.len() > 0 {
        lemma_live_failures_twice(ts.drop_last(), now, later, window);
        let earlier = live_failures(ts.drop_last(), now, window);
        if is_live(ts.last(), now, window) {
            assert(earlier.push(ts.last()).drop_last() =~= earlier);
        }
    }
}

/// After the failures of `id` at `times`, its record is its earlier record
/// followed by `times`, and no other record has changed.
pub proof fn lemma_after_failures(m: LimiterModel, id: Seq<char>, times: Seq<u64>)
    ensures
        failures_of(after_failures(m, id, times), id) == failures_of(m, id) + times,
        forall|other: Seq<char>|
            other != id ==> failures_of(after_failures(m, id, times), other) == failures_of(
                m,
                other,
            ),
    decreases times.len(),
{
    if times.len() == 0 {
        assert(failures_of(m, id) + times =~= failures_of(m, id));
    } else {
        lemma_after_failures(m, id, times.drop_last());
        assert((failures_of(m, id) + times.drop_last()).push(times.last()) =~= failures_of(m, id)
            + times);
    }
}

/// A client with as many failures inside the window as the limit allows
/// is limited: after failures of `id` at `times`, all of them still live at
/// `now` and at least `max_attempts` in number, `id` is limited at `now`,
/// whatever was on record before.
pub proof fn lemma_limited_after_failures(
    m: LimiterModel,
    id: Seq<char>,
    times: Seq<u64>,
    now: u64,
    window: u64,
    max_attempts: usize,
)
    requires
        times.len() >= max_attempts,
        forall|i: int| 0 <= i < times.len() ==> is_live(#[trigger] times[i], now, window),
    ensures
        limited(after_failures(m, id, times), id, now, window, max_attempts),
{
    lemma_after_failures(m, id, times);
    lemma_live_failures_concat(failures_of(m, id), times, now, window);
    lemma_live_failures_bounds(times, now, window);
}

/// Clearing a client lifts its limit at once, at any time, where the limit
/// is not zero.
pub proof fn lemma_clear_lifts_limit(
    m: LimiterModel,
    id: Seq<char>,
    now: u64,
    window: u64,
    max_attempts: usize,
)
    requires
        max_attempts > 0,
    ensures
        !limited(after_clear(m, id), id, now, window, max_attempts),
        failures_of(after_clear(m, id), id) == Seq::<u64>::empty(),
{
}

/// Once the window has passed since the last failure of a client, the
/// client is no longer limited, without being cleared, where the limit is
/// not zero.
pub proof fn lemma_limit_expires(
    m: LimiterModel,
    id: Seq<char>,
    now: u64,
    window: u64,
    max_attempts: usize,
)
    requires
        max_attempts > 0,
        forall|i: int|
            0 <= i < failures_of(m, id).len() ==> (#[trigger] failures_of(m, id)[i]) + window <= now,
    ensures
        !limited(m, id, now, window, max_attempts),
{
    lemma_live_failures_bounds(failures_of(m, id), now, window);
}

/// Checking a client changes no later answer: whether any client is
/// limited at the time of the check or later is the same before and after.
pub proof fn lemma_check_keeps_answers(
    m: LimiterModel,
    id: Seq<char>,
    now: u64,
    other: Seq<char>,
    later: u64,
    window: u64,
    max_attempts: usize,
)
    requires
        now <= later,
    ensures
        limited(after_check(m, id, now, window), other, later, window, max_attempts) == limited(
            m,
            other,
            later,
            window,
            max_attempts,
        ),
{
    lemma_live_failures_twice(failures_of(m, id), now, later, window);
}

/// A sweep is idempotent: a second sweep at the same time changes nothing.
pub proof fn lemma_cleanup_idempotent(m: LimiterModel, now: u64, window: u64)
    ensures
        after_cleanup(after_cleanup(m, now, window), now, window) == after_cleanup(m, now, window),
{
    lemma_cleanup_absorbs(m, now, now, window);
}

/// A sweep followed by a sweep at the same or a later time leaves what the
/// later sweep alone leaves.
pub proof fn lemma_cleanup_absorbs(m: LimiterModel, now: u64, later: u64, window: u64)
    requires
        now <= later,
    ensures
        after_cleanup(after_cleanup(m, now, window), later, window) == after_cleanup(
            m,
            later,
            window,
        ),
{
    let once = after_cleanup(m, now, window);
    let twice = after_cleanup(once, later, window);
    let direct = after_cleanup(m, later, window);
    assert forall|id: Seq<char>| m.contains_key(id) implies live_failures(
        live_failures(m[id], now, window),
        later,
        window,
    ) == live_failures(m[id], later, window) by {
        lemma_live_failures_twice(m[id], now, later, window);
    }
    assert forall|id: Seq<char>| twice.contains_key(id) <==> direct.contains_key(id) by {
        if m.contains_key(id) {
            lemma_live_failures_bounds(live_failures(m[id], now, window), later, window);
        }
    }
    assert(twice =~= direct);
}

/// A sweep changes no answer: whether a client is limited at the time of
/// the sweep or later is the same before and after.
pub proof fn lemma_cleanup_keeps_answers(
    m: LimiterModel,
    now: u64,
    id: Seq<char>,
    later: u64,
    window: u64,
    max_attempts: usize,
)
    requires
        now <= later,
    ensures
        limited(after_cleanup(m, now, window), id, later, window, max_attempts) == limited(
            m,
            id,
            later,
            window,
            max_attempts,
        ),
{
    lemma_live_failures_twice(failures_of(m, id), now, later, window);
    lemma_live_failures_bounds(live_failures(failures_of(m, id), now, window), later, window);
}

/// The failures of one client.
struct RateLimitRecord {
    id: String,
    failures: Vec<u64>,
}

/// Some record is kept for `id`.
spec fn has_id(records: Seq<RateLimitRecord>, id: Seq<char>) -> bool {
    exists|i: int| 0 <= i < records.len() && (#[trigger] records[i]).id@ == id
}

/// The index of a record kept for `id`.
spec fn index_of(records: Seq<RateLimitRecord>, id: Seq<char>) -> int {
    choose|i: int| 0 <= i < records.len() && (#[trigger] records[i]).id@ == id
}

/// No two records are kept for one client.
spec fn distinct_ids(records: Seq<RateLimitRecord>) -> bool {
    forall|i: int, j: int|
        0 <= i < records.len() && 0 <= j < records.len() && i != j ==> (#[trigger] records[i]).id@
            != (#[trigger] records[j]).id@
}

/// `kept` is what a sweep keeps of one of the first `bound` records.
spec fn swept_from(
    records: Seq<RateLimitRecord>,
    kept: RateLimitRecord,
    bound: int,
    now: u64,
    window: u64,
) -> bool {
    exists|j: int|
        0 <= j < bound && j < records.len() && (#[trigger] records[j]).id@ == kept.id@
            && kept.failures@ == live_failures(records[j].failures@, now, window)
            && kept.failures@.len() > 0
}

/// What the kept records stand for.
spec fn model_of(records: Seq<RateLimitRecord>) -> LimiterModel {
    Map::new(
        |id: Seq<char>| has_id(records, id),
        |id: Seq<char>| records[index_of(records, id)].failures@,
    )
}

/// Where no client has two records, the record of a client is found at
/// the one index that holds its name.
proof fn lemma_index_of(records: Seq<RateLimitRecord>, i: int)
    requires
        distinct_ids(records),
        0 <= i < records.len(),
    ensures
        has_id(records, records[i].id@),
        index_of(records, records[i].id@) == i,
        model_of(records)[records[i].id@] == records[i].failures@,
{
}

/// Failed-login throttle: per client, the times of its recent failures.
pub struct AuthRateLimiter {
    attempts: Vec<RateLimitRecord>,
    max_attempts: usize,
    window: u64,
}

impl View for AuthRateLimiter {
    type V = LimiterModel;

    closed spec fn view(&self) -> LimiterModel {
        model_of(self.attempts@)
    }
}

/// The live failures among `ts`.
fn prune(ts: &Vec<u64>, now: u64, window: u64) -> (live: Vec<u64>)
    ensures
        live@ == live_failures(ts@, now, window),
{
    let mut live: Vec<u64> = Vec::new();
    let mut i: usize = 0;
    assert(ts@.take(0) =~= Seq::<u64>::empty());
    while i < ts.len()
        invariant
            i <= ts.len(),
            live@ == live_failures(ts@.take(i as int), now, window),
        decreases ts.len() - i,
    {
        let t = ts[i];
        proof {
            assert(ts@.take(i + 1).drop_last() =~= ts@.take(i as int));
            assert(ts@.take(i + 1).last() == t);
        }
        if now < window || t > now - window {
            live.push(t);
        }
        i += 1;
    }
    proof {
        assert(ts@.take(ts.len() as int) =~= ts@);
    }
    live
}

/// The index of the record kept for `id`, if there is one.
fn find_record(records: &Vec<RateLimitRecord>, id: &str) -> (found: Option<usize>)
    ensures
        match found {
            Some(i) => i < records.len() && records@[i as int].id@ == id@,
            None => !has_id(records@, id@),
        },
{
    let mut i: usize = 0;
    while i < records.len()
        invariant
            i <= records.len(),
            forall|j: int| 0 <= j < i ==> (#[trigger] records@[j]).id@ != id@,
        decreases records.len() - i,
    {
        if str_equal(records[i].id.as_str(), id) {
            return Some(i);
        }
        i += 1;
    }
    None
}

/// Checks the client `ip` in `records`: prunes its record, or starts one,
/// and answers the number of its live failures.
fn check_record(records: &mut Vec<RateLimitRecord>, ip: &str, now: u64, window: u64) -> (count:
    usize)
    requires
        distinct_ids(old(records)@),
    ensures
        distinct_ids(final(records)@),
        model_of(final(records)@) == after_check(model_of(old(records)@), ip@, now, window),
        count == live_failures(failures_of(model_of(old(records)@), ip@), now, window).len(),
{
    let ghost before = records@;
    match find_record(records, ip) {
        Some(i) => {
            let live = prune(&records[i].failures, now, window);
            let count = live.len();
            records[i].failures = live;
            proof {
                lemma_index_of(before, i as int);
                lemma_replaced(before, records@, i as int);
            }
            count
        },
        None => {
            let record = RateLimitRecord { id: ip.to_owned(), failures: Vec::new() };
            records.push(record);
            proof {
                lemma_added(before, records@);
            }
            0
        },
    }
}

/// Records a failure of the client `ip` at time `now` in `records`.
fn add_failure(records: &mut Vec<RateLimitRecord>, ip: &str, now: u64)
    requires
        distinct_ids(old(records)@),
    ensures
        distinct_ids(final(records)@),
        model_of(final(records)@) == after_failure(model_of(old(records)@), ip@, now),
{
    let ghost before = records@;
    match find_record(records, ip) {
        Some(i) => {
            records[i].failures.push(now);
            proof {
                lemma_index_of(before, i as int);
                lemma_replaced(before, records@, i as int);
            }
        },
        None => {
            let mut failures: Vec<u64> = Vec::new();
            failures.push(now);
            let record = RateLimitRecord { id: ip.to_owned(), failures };
            records.push(record);
            proof {
                lemma_added(before, records@);
                assert(failures@ =~= Seq::<u64>::empty().push(now));
            }
        },
    }
}

/// Drops the record of the client `ip` from `records`.
fn remove_record(records: &mut Vec<RateLimitRecord>, ip: &str)
    requires
        distinct_ids(old(records)@),
    ensures
        distinct_ids(final(records)@),
        model_of(final(records)@) == after_clear(model_of(old(records)@), ip@),
{
    let ghost before = records@;
    match find_record(records, ip) {
        Some(i) => {
            let _ = records.remove(i);
            proof {
                lemma_removed(before, records@, i as int);
            }
        },
        None => {
            assert(model_of(before) =~= model_of(before).remove(ip@));
        },
    }
}

/// The records that a sweep at time `now` keeps.
fn sweep(records: &Vec<RateLimitRecord>, now: u64, window: u64) -> (kept: Vec<RateLimitRecord>)
    requires
        distinct_ids(records@),
    ensures
        distinct_ids(kept@),
        model_of(kept@) == after_cleanup(model_of(records@), now, window),
{
    let mut kept: Vec<RateLimitRecord> = Vec::new();
    let mut i: usize = 0;
    while i < records.len()
        invariant
            i <= records.len(),
            distinct_ids(records@),
            forall|k: int|
                0 <= k < kept.len() ==> swept_from(records@, #[trigger] kept@[k], i as int, now, window),
            forall|j: int|
                0 <= j < i && live_failures((#[trigger] records@[j]).failures@, now, window).len()
                    > 0 ==> has_id(kept@, records@[j].id@),
            distinct_ids(kept@),
        decreases records.len() - i,
    {
        let live = prune(&records[i].failures, now, window);
        if live.len() > 0 {
            let ghost old_kept = kept@;
            let record = RateLimitRecord { id: records[i].id.clone(), failures: live };
            kept.push(record);
            proof {
                assert forall|a: int, b: int|
                    0 <= a < kept.len() && 0 <= b < kept.len() && a != b implies (
                #[trigger] kept@[a]).id@ != (#[trigger] kept@[b]).id@ by {
                    if a < old_kept.len() {
                        assert(kept@[a] == old_kept[a]);
                    }
                    if b < old_kept.len() {
                        assert(kept@[b] == old_kept[b]);
                    }
                }
                assert forall|k: int| 0 <= k < kept.len() implies swept_from(
                    records@,
                    #[trigger] kept@[k],
                    i + 1,
                    now,
                    window,
                ) by {
                    if k < old_kept.len() {
                        assert(kept@[k] == old_kept[k]);
                        assert(swept_from(records@, old_kept[k], i as int, now, window));
                    } else {
                        assert(kept@[k].id@ == records@[i as int].id@);
                    }
                }
                assert forall|j: int|
                    0 <= j < i + 1 && live_failures(
                        (#[trigger] records@[j]).failures@,
                        now,
                        window,
                    ).len() > 0 implies has_id(kept@, records@[j].id@) by {
                    if j < i {
                        let k = index_of(old_kept, records@[j].id@);
                        assert(kept@[k] == old_kept[k]);
                    } else {
                        assert(kept@[kept.len() - 1].id@ == records@[j].id@);
                    }
                }
            }
        }
        i += 1;
    }
    proof {
        lemma_swept(records@, kept@, now, window);
    }
    kept
}

impl AuthRateLimiter {
    #[verifier::type_invariant]
    spec fn well_formed(self) -> bool {
        distinct_ids(self.attempts@)
    }

    /// The number of live failures from which a client is limited.
    pub closed spec fn spec_max_attempts(&self) -> usize {
        self.max_attempts
    }

    /// The length of the window, in ticks.
    pub closed spec fn spec_window(&self) -> u64 {
        self.window
    }

    /// A limiter without records. A client is limited while it has
    /// `max_attempts` failures or more that are younger than `window` ticks.
    pub fn new(max_attempts: usize, window: u64) -> (limiter: Self)
        ensures
            limiter@ == Map::<Seq<char>, Seq<u64>>::empty(),
            limiter.spec_max_attempts() == max_attempts,
            limiter.spec_window() == window,
    {
        let limiter = AuthRateLimiter { attempts: Vec::new(), max_attempts, window };
        assert(limiter@ =~= Map::<Seq<char>, Seq<u64>>::empty());
        limiter
    }

    /// The number of live failures from which a client is limited.
    pub fn max_attempts(&self) -> (n: usize)
        ensures
            n == self.spec_max_attempts(),
    {
        self.max_attempts
    }

    /// The length of the window, in ticks.
    pub fn window(&self) -> (ticks: u64)
        ensures
            ticks == self.spec_window(),
    {
        self.window
    }

    /// Whether the client `ip` is limited at time `now`. Failures of that
    /// client that have left the window are dropped from its record.
    pub fn is_rate_limited(&mut self, ip: &str, now: u64) -> (is_limited: bool)
        ensures
            is_limited == limited(
                old(self)@,
                ip@,
                now,
                old(self).spec_window(),
                old(self).spec_max_attempts(),
            ),
            final(self)@ == after_check(old(self)@, ip@, now, old(self).spec_window()),
            final(self).spec_window() == old(self).spec_window(),
            final(self).spec_max_attempts() == old(self).spec_max_attempts(),
    {
        proof {
            use_type_invariant(&*self);
        }
        let mut records: Vec<RateLimitRecord> = Vec::new();
        std::mem::swap(&mut self.attempts, &mut records);
        let count = check_record(&mut records, ip, now, self.window);
        std::mem::swap(&mut self.attempts, &mut records);
        count >= self.max_attempts
    }

    /// Records a failed login of the client `ip` at time `now`.
    pub fn record_failure(&mut self, ip: &str, now: u64)
        ensures
            final(self)@ == after_failure(old(self)@, ip@, now),
            final(self).spec_window() == old(self).spec_window(),
            final(self).spec_max_attempts() == old(self).spec_max_attempts(),
    {
        proof {
            use_type_invariant(&*self);
        }
        let mut records: Vec<RateLimitRecord> = Vec::new();
        std::mem::swap(&mut self.attempts, &mut records);
        add_failure(&mut records, ip, now);
        std::mem::swap(&mut self.attempts, &mut records);
    }

    /// Forgets the failures of the client `ip`, as after a successful login.
    pub fn clear(&mut self, ip: &str)
        ensures
            final(self)@ == after_clear(old(self)@, ip@),
            final(self).spec_window() == old(self).spec_window(),
            final(self).spec_max_attempts() == old(self).spec_max_attempts(),
    {
        proof {
            use_type_invariant(&*self);
        }
        let mut records: Vec<RateLimitRecord> = Vec::new();
        std::mem::swap(&mut self.attempts, &mut records);
        remove_record(&mut records, ip);
        std::mem::swap(&mut self.attempts, &mut records);
    }

    /// Sweeps the records at time `now`: drops the failures that have left
    /// the window, and the records that are left without any.
    pub fn cleanup(&mut self, now: u64)
        ensures
            final(self)@ == after_cleanup(old(self)@, now, old(self).spec_window()),
            final(self).spec_window() == old(self).spec_window(),
            final(self).spec_max_attempts() == old(self).spec_max_attempts(),
    {
        proof {
            use_type_invariant(&*self);
        }
        let mut kept = sweep(&self.attempts, now, self.window);
        std::mem::swap(&mut self.attempts, &mut kept);
    }

    /// The number of clients on record.
    pub fn tracked_clients(&self) -> (n: usize)
        ensures
            n == self@.dom().len(),
    {
        proof {
            use_type_invariant(self);
            lemma_model_size(self.attempts@);
        }
        self.attempts.len()
    }
}

/// Replacing the failures of one record changes the record of that client
/// and of no other.
proof fn lemma_replaced(before: Seq<RateLimitRecord>, after: Seq<RateLimitRecord>, i: int)
    requires
        distinct_ids(before),
        0 <= i < before.len(),
        after.len() == before.len(),
        after[i].id@ == before[i].id@,
        forall|j: int| 0 <= j < before.len() && j != i ==> after[j] == before[j],
    ensures
        distinct_ids(after),
        model_of(after) =~= model_of(before).insert(before[i].id@, after[i].failures@),
{
    assert forall|a: int, b: int|
        0 <= a < after.len() && 0 <= b < after.len() && a != b implies (#[trigger] after[a]).id@
        != (#[trigger] after[b]).id@ by {
        assert(after[a].id@ == before[a].id@);
        assert(after[b].id@ == before[b].id@);
    }
    assert forall|id: Seq<char>| has_id(after, id) <==> has_id(before, id) by {
        if has_id(after, id) {
            let k = index_of(after, id);
            assert(before[k].id@ == id);
        }
        if has_id(before, id) {
            let k = index_of(before, id);
            assert(after[k].id@ == id);
        }
    }
    assert forall|id: Seq<char>| has_id(after, id) implies #[trigger] model_of(after)[id]
        == model_of(before).insert(before[i].id@, after[i].failures@)[id] by {
        let k = index_of(after, id);
        lemma_index_of(after, k);
        assert(before[k].id@ == id);
        lemma_index_of(before, k);
    }
}

/// Adding a record for a client that had none adds that client's record
/// and changes no other.
proof fn lemma_added(before: Seq<RateLimitRecord>, after: Seq<RateLimitRecord>)
    requires
        distinct_ids(before),
        after.len() == before.len() + 1,
        forall|j: int| 0 <= j < before.len() ==> after[j] == before[j],
        !has_id(before, after.last().id@),
    ensures
        distinct_ids(after),
        model_of(after) =~= model_of(before).insert(after.last().id@, after.last().failures@),
{
    let n = before.len() as int;
    assert forall|a: int, b: int|
        0 <= a < after.len() && 0 <= b < after.len() && a != b implies (#[trigger] after[a]).id@
        != (#[trigger] after[b]).id@ by {
        if a < n {
            assert(before[a].id@ == after[a].id@);
        }
        if b < n {
            assert(before[b].id@ == after[b].id@);
        }
    }
    assert forall|id: Seq<char>| has_id(after, id) <==> (has_id(before, id) || id == after[n].id@) by {
        if has_id(after, id) {
            let k = index_of(after, id);
            if k < n {
                assert(before[k].id@ == id);
            }
        }
        if has_id(before, id) {
            let k = index_of(before, id);
            assert(after[k].id@ == id);
        }
        if id == after[n].id@ {
            assert(after[n].id@ == id);
        }
    }
    assert forall|id: Seq<char>| has_id(after, id) implies #[trigger] model_of(after)[id]
        == model_of(before).insert(after[n].id@, after[n].failures@)[id] by {
        let k = index_of(after, id);
        lemma_index_of(after, k);
        if k < n {
            assert(before[k].id@ == id);
            lemma_index_of(before, k);
        }
    }
}

/// Removing one record removes the record of that client and of no other.
proof fn lemma_removed(before: Seq<RateLimitRecord>, after: Seq<RateLimitRecord>, i: int)
    requires
        distinct_ids(before),
        0 <= i < before.len(),
        after == before.remove(i),
    ensures
        distinct_ids(after),
        model_of(after) =~= model_of(before).remove(before[i].id@),
{
    assert forall|a: int, b: int|
        0 <= a < after.len() && 0 <= b < after.len() && a != b implies (#[trigger] after[a]).id@
        != (#[trigger] after[b]).id@ by {
        let a0 = if a < i { a } else { a + 1 };
        let b0 = if b < i { b } else { b + 1 };
        assert(after[a] == before[a0]);
        assert(after[b] == before[b0]);
    }
    assert forall|id: Seq<char>| has_id(after, id) <==> (has_id(before, id) && id != before[i].id@) by {
        if has_id(after, id) {
            let k = index_of(after, id);
            let k0 = if k < i { k } else { k + 1 };
            assert(after[k] == before[k0]);
            assert(before[k0].id@ == id);
        }
        if has_id(before, id) && id != before[i].id@ {
            let k0 = index_of(before, id);
            let k = if k0 < i { k0 } else { k0 - 1 };
            assert(after[k] == before[k0]);
        }
    }
    assert forall|id: Seq<char>| has_id(after, id) implies #[trigger] model_of(after)[id]
        == model_of(before).remove(before[i].id@)[id] by {
        let k = index_of(after, id);
        let k0 = if k < i { k } else { k + 1 };
        assert(after[k] == before[k0]);
        lemma_index_of(after, k);
        lemma_index_of(before, k0);
    }
}

/// The records that a sweep keeps stand for the sweep of what the records
/// stood for.
proof fn lemma_swept(records: Seq<RateLimitRecord>, kept: Seq<RateLimitRecord>, now: u64, window: u64)
    requires
        distinct_ids(records),
        distinct_ids(kept),
        forall|k: int|
            0 <= k < kept.len() ==> swept_from(
                records,
                #[trigger] kept[k],
                records.len() as int,
                now,
                window,
            ),
        forall|j: int|
            0 <= j < records.len() && live_failures((#[trigger] records[j]).failures@, now, window).len()
                > 0 ==> has_id(kept, records[j].id@),
    ensures
        model_of(kept) =~= after_cleanup(model_of(records), now, window),
{
    let swept = after_cleanup(model_of(records), now, window);
    assert forall|id: Seq<char>| has_id(kept, id) implies swept.contains_key(id) && model_of(
        kept,
    )[id] == swept[id] by {
        let k = index_of(kept, id);
        lemma_index_of(kept, k);
        assert(swept_from(records, kept[k], records.len() as int, now, window));
        let j = choose|j: int|
            0 <= j < records.len() && (#[trigger] records[j]).id@ == kept[k].id@
                && kept[k].failures@ == live_failures(records[j].failures@, now, window)
                && kept[k].failures@.len() > 0;
        lemma_index_of(records, j);
    }
    assert forall|id: Seq<char>| swept.contains_key(id) implies has_id(kept, id) by {
        let j = index_of(records, id);
        lemma_index_of(records, j);
    }
}

/// Where no client has two records, there are as many clients on record as
/// there are records.
proof fn lemma_model_size(records: Seq<RateLimitRecord>)
    requires
        distinct_ids(records),
    ensures
        model_of(records).dom().finite(),
        model_of(records).dom().len() == records.len(),
    decreases records.len(),
{
    if records.len() == 0 {
        assert(model_of(records).dom() =~= Set::<Seq<char>>::empty());
    } else {
        let earlier = records.drop_last();
        let last = records.last();
        assert(distinct_ids(earlier)) by {
            assert forall|a: int, b: int|
                0 <= a < earlier.len() && 0 <= b < earlier.len() && a != b implies (
            #[trigger] earlier[a]).id@ != (#[trigger] earlier[b]).id@ by {
                assert(earlier[a] == records[a] && earlier[b] == records[b]);
            }
        }
        lemma_model_size(earlier);
        assert(!has_id(earlier, last.id@)) by {
            if has_id(earlier, last.id@) {
                let k = index_of(earlier, last.id@);
                assert(earlier[k] == records[k]);
                assert(records[records.len() - 1] == last);
            }
        }
        assert forall|j: int| 0 <= j < earlier.len() implies records[j] == earlier[j] by {}
        lemma_added(earlier, records);
        assert(model_of(records).dom() =~= model_of(earlier).dom().insert(last.id@));
    }
}

} // verus!
