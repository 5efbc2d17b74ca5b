//! The lock-free generator: the latest timestamp and the sequence number
//! share one atomic word, `last * 4096 + sequence`, updated by
//! compare-and-swap.
use std::sync::atomic::{AtomicU64, Ordering};
use std::time::SystemTime;
use vstd::prelude::*;

use crate::layout::{encode, id_of, valid_instance, valid_timestamp, TIMESTAMP_LIMIT};
use crate::{get_time_millis, millis_as_i64, GenState};

verus! {

/// Compare-and-swap attempts that one generation makes before it gives up
/// under contention.
pub const CAS_ATTEMPTS: u32 = 64;

/// The state that a packed word stands for.
pub open spec fn word_state(word: int, epoch: SystemTime, instance: int) -> GenState {
    GenState { epoch, last: word / 0x1000, instance, sequence: word % 0x1000 }
}

/// The packed word of a state.
pub open spec fn word_of(s: GenState) -> int {
    s.last * 0x1000 + s.sequence
}

/// The packed word after a generation at `now`, or `None` when no id is
/// available; the same rule as `GenState::next`.
pub fn advance_word(word: u64, now: i64) -> (r: Option<u64>)
    ensures
        forall|epoch: SystemTime, instance: int|
            match #[trigger] word_state(word as int, epoch, instance).next(now as int) {
                Some(s) => r == Some(word_of(s) as u64),
                None => r is None,
            },
{
    if now < 0 || now >= TIMESTAMP_LIMIT {
        return None;
    }
    let last = word / 0x1000;
    let sequence = word % 0x1000;
    if now as u64 == last {
        if sequence >= 4095 {
            None
        } else {
            Some(word + 1)
        }
    } else {
        Some(now as u64 * 0x1000 + 1)
    }
}

/// A generator that many callers can share without a lock.
pub struct AtomicSnowflakeIdGen {
    epoch: SystemTime,
    instance: i32,
    state: AtomicU64,
}

impl AtomicSnowflakeIdGen {
    pub closed spec fn wf(&self) -> bool {
        valid_instance(self.instance as int)
    }

    pub closed spec fn tag(&self) -> int {
        self.instance as int
    }

    pub closed spec fn epoch_spec(&self) -> SystemTime {
        self.epoch
    }

    /// A generator measured from `epoch`, starting at the current time with
    /// sequence 0; `None` when `epoch` is later than now or now is too far
    /// from `epoch` for the layout.
    pub fn with_epoch(instance: i32, epoch: SystemTime) -> (r: Option<AtomicSnowflakeIdGen>)
        requires
            valid_instance(instance as int),
        ensures
            r matches Some(g) ==> g.wf() && g.tag() == instance && g.epoch_spec() == epoch,
            exists|m: Option<u128>|
                (r is Some) == (millis_as_i64(m) is Some && valid_timestamp(
                    millis_as_i64(m)->Some_0 as int,
                )),
    {
        match get_time_millis(epoch) {
            Some(now) => Self::with_epoch_at(instance, epoch, now),
            None => None,
        }
    }

    /// A generator measured from `epoch` whose latest time is `now`, with
    /// sequence 0; `None` when `now` does not fit the layout.
    pub fn with_epoch_at(instance: i32, epoch: SystemTime, now: i64) -> (r: Option<
        AtomicSnowflakeIdGen,
    >)
        requires
            valid_instance(instance as int),
        ensures
            r is Some <==> valid_timestamp(now as int),
            r matches Some(g) ==> g.wf() && g.tag() == instance && g.epoch_spec() == epoch,
    {
        if 0 <= now && now < TIMESTAMP_LIMIT {
            let state = AtomicU64::new(now as u64 * 0x1000);
            Some(AtomicSnowflakeIdGen { epoch, instance, state })
        } else {
            None
        }
    }

    /// The instance tag.
    pub fn instance(&self) -> (r: i32)
        ensures
            r == self.tag(),
    {
        self.instance
    }

    /// The state that the packed word `word` stands for in this generator.
    pub open spec fn state_of(&self, word: int) -> GenState {
        word_state(word, self.epoch_spec(), self.tag())
    }

    /// One compare-and-swap from the packed word `current` to its successor
    /// at `now`. `Some(None)` when `current` has no successor at `now` (see
    /// `GenState::next`); `None` when the swap lost a race; else the id of
    /// the successor.
    pub fn attempt(&self, current: u64, now: i64) -> (r: Option<Option<i64>>)
        requires
            self.wf(),
        ensures
            self.state_of(current as int).next(now as int) is None ==> r == Some(None::<i64>),
            self.state_of(current as int).next(now as int) is Some ==> (r is None || r == Some(
                Some(self.state_of(current as int).next(now as int)->Some_0.id() as i64),
            )),
    {
        let ghost s = word_state(current as int, self.epoch, self.instance as int);
        match advance_word(current, now) {
            None => Some(None),
            Some(next) => {
                proof {
                    let t = s.next(now as int)->Some_0;
                    assert(next / 0x1000 == now && next % 0x1000 == t.sequence);
                }
                match self.state.compare_exchange(current, next, Ordering::SeqCst, Ordering::SeqCst) {
                    Ok(_) => Some(Some(encode(now, self.instance, (next % 0x1000) as u16))),
                    Err(_) => None,
                }
            },
        }
    }

    /// Generates an id at time `now` (milliseconds since the epoch), which
    /// callers sharing this generator supply in an order that does not go
    /// back. The id is the one that the loaded state word gives at `now`
    /// (see `GenState::next`): it carries `now`, this generator's tag and a
    /// sequence number in `1..=4095`. `None` when `now` does not fit the
    /// layout, the sequence for `now` is saturated, or every
    /// compare-and-swap attempt lost a race.
    pub fn generate_at(&self, now: i64) -> (r: Option<i64>)
        requires
            self.wf(),
        ensures
            !valid_timestamp(now as int) ==> r is None,
            r matches Some(id) ==> exists|w: u64|
                #[trigger] self.state_of(w as int).next(now as int) is Some && id == self.state_of(
                    w as int,
                ).next(now as int)->Some_0.id(),
            r matches Some(id) ==> exists|s: int|
                1 <= s <= 4095 && id == id_of(now as int, self.tag(), s),
    {
        let mut tries: u32 = 0;
        while tries < CAS_ATTEMPTS
            invariant
                self.wf(),
            decreases CAS_ATTEMPTS - tries,
        {
            let current = self.state.load(Ordering::SeqCst);
            match self.attempt(current, now) {
                Some(r) => {
                    proof {
                        if r is Some {
                            assert(self.state_of(current as int).next(now as int) is Some);
                        }
                    }
                    return r;
                },
                None => {},
            }
            tries = tries + 1;
        }
        None
    }

    /// Generates an id at the current system time: `None` when the clock
    /// reads earlier than the epoch, or as for `generate_at`. Each attempt
    /// reads the clock after the state word, so a caller never moves the
    /// word back past a millisecond that another caller has already used.
    pub fn generate(&self) -> (r: Option<i64>)
        requires
            self.wf(),
        ensures
            r matches Some(id) ==> exists|w: u64, now: i64|
                #[trigger] self.state_of(w as int).next(now as int) is Some && id == self.state_of(
                    w as int,
                ).next(now as int)->Some_0.id(),
            r matches Some(id) ==> exists|now: int, s: int|
                valid_timestamp(now) && 1 <= s <= 4095 && id == id_of(now, self.tag(), s),
    {
        let mut tries: u32 = 0;
        while tries < CAS_ATTEMPTS
            invariant
                self.wf(),
            decreases CAS_ATTEMPTS - tries,
        {
            let current = self.state.load(Ordering::SeqCst);
            match get_time_millis(self.epoch) {
                Some(now) => {
                    match self.attempt(current, now) {
                        Some(r) => {
                            proof {
                                if r is Some {
                                    let t = self.state_of(current as int).next(now as int)->Some_0;
                                    assert(self.state_of(current as int).next(now as int) is Some);
                                    assert(t.last == now && 1 <= t.sequence <= 4095);
                                }
                            }
                            return r;
                        },
                        None => {},
                    }
                },
                None => {
                    return None;
                },
            }
            tries = tries + 1;
        }
        None
    }
}

} // verus!
