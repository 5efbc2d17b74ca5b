//! Snowflake ids: a millisecond timestamp, an instance tag and a
//! per-millisecond sequence number packed into one 64-bit integer.
use std::time::SystemTime;
use vstd::prelude::*;

pub mod atomic;
pub mod layout;
pub mod pooled;

use crate::layout::{
    encode, id_of, lemma_decode_encode, lemma_id_order, sequence_of, timestamp_of, valid_instance,
    valid_sequence, valid_timestamp, MAX_SEQUENCE, TIMESTAMP_LIMIT,
};

verus! {

#[verifier::external_type_specification]
#[verifier::external_body]
pub struct ExSystemTime(SystemTime);

/// Relies on `SystemTime::elapsed`: the time from `epoch` to the current
/// system time, in whole milliseconds, or `None` when `epoch` is later.
#[verifier::external_body]
fn millis_elapsed_since(epoch: SystemTime) -> (r: Option<u128>) {
    epoch.elapsed().ok().map(|d| d.as_millis())
}

/// Relies on `std::time::UNIX_EPOCH`, the start of Unix time.
#[verifier::external_body]
fn unix_epoch() -> (r: SystemTime) {
    std::time::UNIX_EPOCH
}

/// A span in milliseconds as an `i64`, or `None` when there is no span or it
/// does not fit.
pub open spec fn millis_as_i64(m: Option<u128>) -> Option<i64> {
    match m {
        Some(v) => if v <= i64::MAX as u128 {
            Some(v as i64)
        } else {
            None
        },
        None => None,
    }
}

/// Converts a span in milliseconds to an `i64`: `None` when there is no
/// span or it does not fit.
pub fn millis_to_i64(m: Option<u128>) -> (r: Option<i64>)
    ensures
        r == millis_as_i64(m),
{
    match m {
        Some(v) => {
            if v <= i64::MAX as u128 {
                Some(v as i64)
            } else {
                None
            }
        },
        None => None,
    }
}

/// Milliseconds from `epoch` to now, or `None` when `epoch` is later than
/// now or the span does not fit in an `i64`.
pub fn get_time_millis(epoch: SystemTime) -> (r: Option<i64>)
    ensures
        exists|m: Option<u128>| r == millis_as_i64(m),
        r matches Some(m) ==> m >= 0,
{
    millis_to_i64(millis_elapsed_since(epoch))
}

/// The mathematical state of a generator.
pub struct GenState {
    pub epoch: SystemTime,
    /// Milliseconds since the epoch of the latest successful generation.
    pub last: int,
    pub instance: int,
    /// Ids issued so far within the millisecond `last`.
    pub sequence: int,
}

impl GenState {
    pub open spec fn wf(self) -> bool {
        &&& valid_timestamp(self.last)
        &&& valid_instance(self.instance)
        &&& valid_sequence(self.sequence)
    }

    /// The state after a generation at time `now`, or `None` when no id is
    /// available: `now` does not fit the layout, or the sequence for the
    /// current millisecond is saturated. A `now` other than `last` (earlier
    /// or later) starts a new millisecond.
    pub open spec fn next(self, now: int) -> Option<GenState> {
        if !valid_timestamp(now) {
            None
        } else if now == self.last {
            if self.sequence >= MAX_SEQUENCE {
                None
            } else {
                Some(GenState { sequence: self.sequence + 1, ..self })
            }
        } else {
            Some(GenState { last: now, sequence: 1, ..self })
        }
    }

    /// The id that this state stands for: its latest one, once one is issued.
    pub open spec fn id(self) -> int {
        id_of(self.last, self.instance, self.sequence)
    }

    /// One generation at `now` took `self` to `post` and returned `r`.
    pub open spec fn generated(self, now: int, post: GenState, r: Option<i64>) -> bool {
        match self.next(now) {
            Some(s) => post == s && r == Some(s.id() as i64),
            None => post == self && r is None,
        }
    }
}

/// The state after `n` generations, all at the same time `now`.
pub open spec fn run_frozen(s: GenState, now: int, n: nat) -> GenState
    decreases n,
{
    if n == 0 {
        s
    } else {
        let p = run_frozen(s, now, (n - 1) as nat);
        match p.next(now) {
            Some(t) => t,
            None => p,
        }
    }
}

/// The state after one generation at each of `times`, in order.
pub open spec fn run(s: GenState, times: Seq<int>) -> GenState
    decreases times.len(),
{
    if times.len() == 0 {
        s
    } else {
        let p = run(s, times.drop_last());
        match p.next(times.last()) {
            Some(t) => t,
            None => p,
        }
    }
}

/// The ids that one generation at each of `times`, in order, returns.
pub open spec fn issued(s: GenState, times: Seq<int>) -> Seq<int>
    decreases times.len(),
{
    if times.len() == 0 {
        Seq::empty()
    } else {
        let p = run(s, times.drop_last());
        let before = issued(s, times.drop_last());
        match p.next(times.last()) {
            Some(t) => before.push(t.id()),
            None => before,
        }
    }
}

pub open spec fn non_decreasing(times: Seq<int>) -> bool {
    forall|i: int, j: int| 0 <= i <= j < times.len() ==> times[i] <= times[j]
}

/// With the clock frozen at a time `now` that fits the layout, starting in
/// another millisecond or before any id of this one, generations succeed
/// exactly 4095 times, the `n`-th returning the id with timestamp `now` and
/// sequence `n`, and fail from then on without changing the state.
pub proof fn lemma_saturation(s: GenState, now: int, n: nat)
    requires
        s.wf(),
        valid_timestamp(now),
        s.last != now || s.sequence == 0,
    ensures
        n < 4095 ==> run_frozen(s, now, n).next(now) is Some,
        1 <= n <= 4095 ==> run_frozen(s, now, n).last == now && run_frozen(s, now, n).sequence
            == n,
        1 <= n <= 4095 ==> run_frozen(s, now, n).id() == id_of(now, s.instance, n as int),
        1 <= n <= 4095 ==> sequence_of(run_frozen(s, now, n).id()) == n && timestamp_of(
            run_frozen(s, now, n).id(),
        ) == now,
        n >= 4095 ==> run_frozen(s, now, n).next(now) is None,
        n >= 4095 ==> run_frozen(s, now, n) == run_frozen(s, now, 4095),
    decreases n,
{
    lemma_frozen_state(s, now, n);
    if 1 <= n <= 4095 {
        lemma_decode_encode(now, s.instance, n as int);
    }
    if n > 4095 {
        lemma_saturation(s, now, (n - 1) as nat);
    }
}

proof fn lemma_frozen_state(s: GenState, now: int, n: nat)
    requires
        s.wf(),
        valid_timestamp(now),
        s.last != now || s.sequence == 0,
    ensures
        run_frozen(s, now, n).wf(),
        run_frozen(s, now, n).instance == s.instance,
        n >= 1 ==> run_frozen(s, now, n).last == now,
        n >= 1 ==> run_frozen(s, now, n).sequence == if n < 4095 {
            n as int
        } else {
            4095
        },
    decreases n,
{
    if n >= 1 {
        lemma_frozen_state(s, now, (n - 1) as nat);
    }
}

/// After any state, saturated or not, a generation at a time that fits the
/// layout and differs from the latest (later, or earlier after a clock
/// rollback) starts that millisecond at sequence 1.
pub proof fn lemma_reset_on_tick(s: GenState, now: int)
    requires
        s.wf(),
        valid_timestamp(now),
        now != s.last,
    ensures
        s.next(now) == Some(GenState { last: now, sequence: 1, ..s }),
        s.next(now)->Some_0.id() == id_of(now, s.instance, 1),
        sequence_of(s.next(now)->Some_0.id()) == 1,
        timestamp_of(s.next(now)->Some_0.id()) == now,
{
    lemma_decode_encode(now, s.instance, 1);
}

/// Under a clock that does not go back, a successful generation returns an
/// id above the latest one, with a timestamp field no smaller.
pub proof fn lemma_monotonic(s: GenState, now: int)
    requires
        s.wf(),
        now >= s.last,
        s.next(now) is Some,
    ensures
        s.next(now)->Some_0.wf(),
        s.id() < s.next(now)->Some_0.id(),
        timestamp_of(s.id()) <= timestamp_of(s.next(now)->Some_0.id()),
{
    let t = s.next(now)->Some_0;
    lemma_id_order(s.last, s.sequence, t.last, t.sequence, s.instance);
    lemma_decode_encode(s.last, s.instance, s.sequence);
    lemma_decode_encode(t.last, t.instance, t.sequence);
}

/// Under a clock that does not go back, the ids that successive generations
/// return rise strictly, so no two of them are equal, and their timestamp
/// fields never decrease.
pub proof fn lemma_unique_ids(s: GenState, times: Seq<int>)
    requires
        s.wf(),
        non_decreasing(times),
        forall|i: int| 0 <= i < times.len() ==> times[i] >= s.last,
    ensures
        forall|i: int, j: int|
            0 <= i < j < issued(s, times).len() ==> issued(s, times)[i] < issued(s, times)[j],
        forall|i: int, j: int|
            0 <= i < issued(s, times).len() && 0 <= j < issued(s, times).len() && i != j
                ==> issued(s, times)[i] != issued(s, times)[j],
        forall|i: int, j: int|
            0 <= i < j < issued(s, times).len() ==> timestamp_of(issued(s, times)[i])
                <= timestamp_of(issued(s, times)[j]),
{
    lemma_run_rises(s, times);
    let ids = issued(s, times);
    assert forall|i: int, j: int| 0 <= i < j < ids.len() implies timestamp_of(ids[i])
        <= timestamp_of(ids[j]) by {
        vstd::arithmetic::div_mod::lemma_div_is_ordered(ids[i], ids[j], 0x40_0000);
    }
}

proof fn lemma_run_rises(s: GenState, times: Seq<int>)
    requires
        s.wf(),
        non_decreasing(times),
        forall|i: int| 0 <= i < times.len() ==> times[i] >= s.last,
    ensures
        run(s, times).wf(),
        run(s, times).instance == s.instance,
        run(s, times).last == s.last || times.contains(run(s, times).last),
        s.id() <= run(s, times).id(),
        forall|i: int|
            0 <= i < issued(s, times).len() ==> #[trigger] issued(s, times)[i] <= run(s, times).id(),
        forall|i: int, j: int|
            0 <= i < j < issued(s, times).len() ==> issued(s, times)[i] < issued(s, times)[j],
    decreases times.len(),
{
    if times.len() > 0 {
        let front = times.drop_last();
        assert forall|i: int, j: int| 0 <= i <= j < front.len() implies front[i] <= front[j] by {
            assert(front[i] == times[i] && front[j] == times[j]);
        }
        assert forall|i: int| 0 <= i < front.len() implies front[i] >= s.last by {
            assert(front[i] == times[i]);
        }
        lemma_run_rises(s, front);
        let p = run(s, front);
        let now = times.last();
        if p.last != s.last {
            let k = choose|k: int| 0 <= k < front.len() && front[k] == p.last;
            assert(times[k] == p.last);
        }
        assert(now >= p.last);
        let before = issued(s, front);
        if p.next(now) is Some {
            lemma_monotonic(p, now);
            let t = p.next(now)->Some_0;
            let out = issued(s, times);
            assert(out == before.push(t.id()));
            assert forall|i: int| 0 <= i < out.len() implies #[trigger] out[i] <= t.id() by {
                if i < before.len() {
                    assert(out[i] == before[i]);
                }
            }
            assert forall|i: int, j: int| 0 <= i < j < out.len() implies out[i] < out[j] by {
                assert(out[i] == before[i]);
                if j < before.len() {
                    assert(out[j] == before[j]);
                }
            }
        } else {
            assert(issued(s, times) == before);
        }
    }
}

/// The state of a new generator whose clock reading is `reading`: `None`
/// when there is no reading or it does not fit the layout.
pub open spec fn start_state(epoch: SystemTime, instance: int, reading: Option<i64>) -> Option<
    GenState,
> {
    match reading {
        Some(now) => if valid_timestamp(now as int) {
            Some(GenState { epoch, last: now as int, instance, sequence: 0 })
        } else {
            None
        },
        None => None,
    }
}

/// The state of a generator, if there is one.
pub open spec fn view_of(g: Option<SnowflakeIdGen>) -> Option<GenState> {
    match g {
        Some(g) => Some(g@),
        None => None,
    }
}

/// A Snowflake id generator.
#[derive(Copy, Clone, Debug)]
pub struct SnowflakeIdGen {
    /// Reference instant against which timestamps are measured.
    epoch: SystemTime,
    /// Milliseconds since `epoch` of the latest successful generation.
    last_time_millis: i64,
    /// Tag of this generator among a fleet.
    instance: i32,
    /// Ids issued within `last_time_millis`.
    idx: u16,
}

impl View for SnowflakeIdGen {
    type V = GenState;

    closed spec fn view(&self) -> GenState {
        GenState {
            epoch: self.epoch,
            last: self.last_time_millis as int,
            instance: self.instance as int,
            sequence: self.idx as int,
        }
    }
}

impl SnowflakeIdGen {
    /// A generator measured from the Unix epoch, as `with_epoch` makes it.
    pub fn new(instance: i32) -> (r: Option<SnowflakeIdGen>)
        requires
            valid_instance(instance as int),
        ensures
            r matches Some(g) ==> g@.wf(),
            exists|epoch: SystemTime, m: Option<u128>|
                view_of(r) == start_state(epoch, instance as int, millis_as_i64(m)),
    {
        Self::with_epoch(instance, unix_epoch())
    }

    /// A generator measured from `epoch`, starting at the current time with
    /// sequence 0; `None` when `epoch` is later than now or now is too far
    /// from `epoch` for the layout.
    pub fn with_epoch(instance: i32, epoch: SystemTime) -> (r: Option<SnowflakeIdGen>)
        requires
            valid_instance(instance as int),
        ensures
            r matches Some(g) ==> g@.wf(),
            exists|m: Option<u128>|
                view_of(r) == start_state(epoch, instance as int, millis_as_i64(m)),
    {
        match get_time_millis(epoch) {
            Some(now) => Self::with_epoch_at(instance, epoch, now),
            None => None,
        }
    }

    /// A generator measured from `epoch` whose latest time is `now`, with
    /// sequence 0; `None` when `now` does not fit the layout.
    pub fn with_epoch_at(instance: i32, epoch: SystemTime, now: i64) -> (r: Option<SnowflakeIdGen>)
        requires
            valid_instance(instance as int),
        ensures
            r matches Some(g) ==> g@.wf(),
            view_of(r) == start_state(epoch, instance as int, Some(now)),
    {
        if 0 <= now && now < TIMESTAMP_LIMIT {
            Some(SnowflakeIdGen { epoch, last_time_millis: now, instance, idx: 0 })
        } else {
            None
        }
    }

    /// The instance tag.
    pub fn instance(&self) -> (r: i32)
        ensures
            r == self@.instance,
    {
        self.instance
    }

    /// The epoch the timestamps are measured from.
    pub fn epoch(&self) -> (r: SystemTime)
        ensures
            r == self@.epoch,
    {
        self.epoch
    }

    /// Generates an id at time `now` (milliseconds since the epoch): `None`
    /// when `now` does not fit the layout or the sequence for `now` is
    /// saturated, with the state unchanged.
    pub fn generate_at(&mut self, now: i64) -> (r: Option<i64>)
        requires
            old(self)@.wf(),
        ensures
            final(self)@.wf(),
            old(self)@.generated(now as int, final(self)@, r),
    {
        if now < 0 || now >= TIMESTAMP_LIMIT {
            return None;
        }
        if now == self.last_time_millis {
            if self.idx >= MAX_SEQUENCE {
                return None;
            }
            self.idx = self.idx + 1;
        } else {
            self.last_time_millis = now;
            self.idx = 1;
        }
        Some(encode(self.last_time_millis, self.instance, self.idx))
    }

    /// Generates an id at the time that `f` gives for the epoch.
    pub fn generate_with_millis_fn<F: Fn(SystemTime) -> i64>(&mut self, f: F) -> (r: Option<i64>)
        requires
            old(self)@.wf(),
            f.requires((old(self)@.epoch,)),
        ensures
            final(self)@.wf(),
            exists|now: i64|
                f.ensures((old(self)@.epoch,), now) && old(self)@.generated(
                    now as int,
                    final(self)@,
                    r,
                ),
    {
        let now = f(self.epoch);
        self.generate_at(now)
    }

    /// Generates an id at the current system time: `None` when the clock
    /// reads earlier than the epoch, or as for `generate_at`.
    pub fn generate(&mut self) -> (r: Option<i64>)
        requires
            old(self)@.wf(),
        ensures
            final(self)@.wf(),
            r is None ==> final(self)@ == old(self)@,
            r is Some ==> exists|now: int| old(self)@.generated(now, final(self)@, r),
    {
        match get_time_millis(self.epoch) {
            Some(now) => self.generate_at(now),
            None => None,
        }
    }
}

} // verus!
