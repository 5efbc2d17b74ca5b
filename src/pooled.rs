//! A pool of generators, one per shard, each with its own instance tag.
//! `generate` picks the shards in turn (round-robin); `generate_on_at`
//! lets the caller pick one. Ids are ordered within one shard only.
use std::time::SystemTime;
use vstd::prelude::*;

use crate::layout::{valid_instance, valid_timestamp, INSTANCE_LIMIT, TIMESTAMP_LIMIT};
use crate::{get_time_millis, millis_as_i64, GenState, SnowflakeIdGen};

verus! {

/// The shards after a generation on shard `k` at time `now`.
pub open spec fn pool_step(shards: Seq<GenState>, k: int, now: int) -> Seq<GenState> {
    match shards[k].next(now) {
        Some(s) => shards.update(k, s),
        None => shards,
    }
}

/// The result of a generation on shard `k` at time `now`.
pub open spec fn pool_result(shards: Seq<GenState>, k: int, now: int) -> Option<i64> {
    match shards[k].next(now) {
        Some(s) => Some(s.id() as i64),
        None => None,
    }
}

/// Well-formed shards: each one well formed, with tags `first..first + n`.
pub open spec fn shards_wf(shards: Seq<GenState>) -> bool {
    &&& shards.len() >= 1
    &&& forall|i: int| 0 <= i < shards.len() ==> #[trigger] shards[i].wf()
    &&& forall|i: int|
        0 <= i < shards.len() ==> #[trigger] shards[i].instance == shards[0].instance + i
}

/// A generation on one shard leaves every other shard as it was, so
/// exhausting one shard does not change what any other shard generates.
pub proof fn lemma_shard_isolation(shards: Seq<GenState>, k: int, j: int, now: int, later: int)
    requires
        shards_wf(shards),
        0 <= k < shards.len(),
        0 <= j < shards.len(),
        j != k,
    ensures
        pool_step(shards, k, now)[j] == shards[j],
        pool_step(shards, k, now)[j].next(later) == shards[j].next(later),
        pool_result(pool_step(shards, k, now), j, later) == pool_result(shards, j, later),
{
}

/// A new shard with tag `instance` whose latest time is `now`.
pub open spec fn shard_start(epoch: SystemTime, instance: int, now: int) -> GenState {
    GenState { epoch, last: now, instance, sequence: 0 }
}

/// The shards of a new pool of `count` shards with tags from `first`, whose
/// clock reading is `reading`: `None` when there is no reading or it does
/// not fit the layout.
pub open spec fn start_shards(epoch: SystemTime, first: int, count: int, reading: Option<i64>) -> Option<
    Seq<GenState>,
> {
    match reading {
        Some(now) => if valid_timestamp(now as int) {
            Some(Seq::new(count as nat, |j: int| shard_start(epoch, first + j, now as int)))
        } else {
            None
        },
        None => None,
    }
}

/// The shards of a pool, if there is one.
pub open spec fn view_of(p: Option<SnowflakePool>) -> Option<Seq<GenState>> {
    match p {
        Some(p) => Some(p@),
        None => None,
    }
}

/// A fixed set of generators with distinct instance tags.
pub struct SnowflakePool {
    shards: Vec<SnowflakeIdGen>,
    /// The shard that the next round-robin generation uses.
    next: usize,
}

impl View for SnowflakePool {
    type V = Seq<GenState>;

    closed spec fn view(&self) -> Seq<GenState> {
        self.shards@.map_values(|g: SnowflakeIdGen| g@)
    }
}

impl SnowflakePool {
    pub closed spec fn wf(&self) -> bool {
        shards_wf(self@) && self.next < self.shards.len()
    }

    /// The shard that the next round-robin generation uses.
    pub closed spec fn cursor(&self) -> int {
        self.next as int
    }

    /// A pool of `count` shards with the tags `first..first + count`, all
    /// measured from `epoch` and starting at the current time; `None` when
    /// `epoch` is later than now or now is too far from `epoch` for the
    /// layout.
    pub fn with_epoch(first: i32, count: usize, epoch: SystemTime) -> (r: Option<SnowflakePool>)
        requires
            count >= 1,
            valid_instance(first as int),
            first + count <= INSTANCE_LIMIT,
        ensures
            r matches Some(p) ==> p.wf() && p.cursor() == 0,
            exists|m: Option<u128>|
                view_of(r) == start_shards(epoch, first as int, count as int, millis_as_i64(m)),
    {
        match get_time_millis(epoch) {
            Some(now) => Self::with_epoch_at(first, count, epoch, now),
            None => None,
        }
    }

    /// A pool of `count` shards with the tags `first..first + count`, all
    /// measured from `epoch`, whose latest time is `now`, with sequence 0;
    /// `None` when `now` does not fit the layout.
    pub fn with_epoch_at(first: i32, count: usize, epoch: SystemTime, now: i64) -> (r: Option<
        SnowflakePool,
    >)
        requires
            count >= 1,
            valid_instance(first as int),
            first + count <= INSTANCE_LIMIT,
        ensures
            r matches Some(p) ==> p.wf() && p.cursor() == 0,
            view_of(r) == start_shards(epoch, first as int, count as int, Some(now)),
    {
        if now < 0 || now >= TIMESTAMP_LIMIT {
            return None;
        }
        let ghost want = start_shards(epoch, first as int, count as int, Some(now))->Some_0;
        let mut shards: Vec<SnowflakeIdGen> = Vec::new();
        let mut i: usize = 0;
        while i < count
            invariant
                i <= count,
                valid_instance(first as int),
                first + count <= INSTANCE_LIMIT,
                valid_timestamp(now as int),
                want == Seq::new(count as nat, |j: int| shard_start(epoch, first + j, now as int)),
                shards@.len() == i,
                forall|j: int| 0 <= j < i ==> (#[trigger] shards@[j])@ == want[j],
            decreases count - i,
        {
            let g = SnowflakeIdGen::with_epoch_at(first + i as i32, epoch, now);
            match g {
                Some(g) => shards.push(g),
                None => {
                    return None;
                },
            }
            i = i + 1;
        }
        let pool = SnowflakePool { shards, next: 0 };
        assert(pool@ =~= want);
        Some(pool)
    }

    /// The number of shards.
    pub fn shard_count(&self) -> (r: usize)
        ensures
            r == self@.len(),
    {
        self.shards.len()
    }

    /// Generates an id on shard `k` at time `now`, as
    /// `SnowflakeIdGen::generate_at` does; the other shards are untouched.
    pub fn generate_on_at(&mut self, k: usize, now: i64) -> (r: Option<i64>)
        requires
            old(self).wf(),
            k < old(self)@.len(),
        ensures
            final(self).wf(),
            final(self)@ == pool_step(old(self)@, k as int, now as int),
            r == pool_result(old(self)@, k as int, now as int),
            final(self).cursor() == old(self).cursor(),
    {
        let mut g = self.shards[k];
        assert(g@ == old(self)@[k as int]);
        let r = g.generate_at(now);
        self.shards.set(k, g);
        assert(self@ =~= pool_step(old(self)@, k as int, now as int));
        r
    }

    /// Generates an id at time `now` on the shard under the round-robin
    /// cursor, and moves the cursor to the following shard.
    pub fn generate_at(&mut self, now: i64) -> (r: Option<i64>)
        requires
            old(self).wf(),
        ensures
            final(self).wf(),
            final(self)@ == pool_step(old(self)@, old(self).cursor(), now as int),
            r == pool_result(old(self)@, old(self).cursor(), now as int),
            final(self).cursor() == (old(self).cursor() + 1) % (old(self)@.len() as int),
    {
        let k = self.next;
        let r = self.generate_on_at(k, now);
        self.next = if k + 1 == self.shards.len() {
            0
        } else {
            k + 1
        };
        proof {
            let n = old(self)@.len() as int;
            assert(n == old(self).shards@.len());
            if k + 1 == n {
                vstd::arithmetic::div_mod::lemma_mod_self_0(n);
            } else {
                vstd::arithmetic::div_mod::lemma_small_mod((k + 1) as nat, n as nat);
            }
        }
        r
    }

    /// Generates an id at the current system time on the shard under the
    /// round-robin cursor, and moves the cursor on: `None` when the clock
    /// reads earlier than the epoch of that shard, or as for `generate_at`.
    pub fn generate(&mut self) -> (r: Option<i64>)
        requires
            old(self).wf(),
        ensures
            final(self).wf(),
            final(self).cursor() == (old(self).cursor() + 1) % (old(self)@.len() as int),
            r is Some ==> exists|now: int|
                final(self)@ == pool_step(old(self)@, old(self).cursor(), now)
                    && r == pool_result(old(self)@, old(self).cursor(), now),
            r is None ==> final(self)@ == old(self)@,
    {
        let k = self.next;
        let epoch = self.shards[k].epoch();
        let r = match get_time_millis(epoch) {
            Some(now) => self.generate_on_at(k, now),
            None => None,
        };
        self.next = if k + 1 == self.shards.len() {
            0
        } else {
            k + 1
        };
        proof {
            let n = old(self)@.len() as int;
            assert(n == old(self).shards@.len());
            if k + 1 == n {
                vstd::arithmetic::div_mod::lemma_mod_self_0(n);
            } else {
                vstd::arithmetic::div_mod::lemma_small_mod((k + 1) as nat, n as nat);
            }
        }
        r
    }
}

} // verus!
