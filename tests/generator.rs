use snowflake::atomic::AtomicSnowflakeIdGen;
use snowflake::layout::{decode, encode, TIMESTAMP_LIMIT};
use snowflake::pooled::SnowflakePool;
use snowflake::{get_time_millis, millis_to_i64, SnowflakeIdGen};
use std::time::{Duration, SystemTime, UNIX_EPOCH};

#[test]
fn fail_after_4095() {
    let mut generator = SnowflakeIdGen::with_epoch(0, SystemTime::now()).unwrap();

    for _ in 1..=4095 {
        let id = generator.generate_with_millis_fn(|_| 0);
        assert!(matches!(id, Some(_)));
    }

    assert_eq!(generator.generate_with_millis_fn(|_| 0), None);
}

#[test]
fn stays_exhausted_while_clock_is_frozen() {
    let mut generator = SnowflakeIdGen::with_epoch(3, SystemTime::now()).unwrap();
    let mut successes = 0;
    for _ in 0..4095 {
        if generator.generate_at(500).is_some() {
            successes += 1;
        }
    }
    assert_eq!(successes, 4095);
    for _ in 0..10 {
        assert_eq!(generator.generate_at(500), None);
    }
}

#[test]
fn sequence_resets_on_tick() {
    let mut generator = SnowflakeIdGen::with_epoch(7, SystemTime::now()).unwrap();
    let mut last = None;
    while let Some(id) = generator.generate_at(900) {
        last = Some(id);
    }
    assert_eq!(decode(last.unwrap()), (900, 7, 4095));
    let id = generator.generate_at(901).unwrap();
    assert_eq!(decode(id), (901, 7, 1));
    let id = generator.generate_at(901).unwrap();
    assert_eq!(decode(id), (901, 7, 2));
}

#[test]
fn first_id_of_a_millisecond_has_sequence_one() {
    let mut generator = SnowflakeIdGen::with_epoch(1, SystemTime::now()).unwrap();
    let id = generator.generate_at(12_345).unwrap();
    assert_eq!(id, (12_345 << 22) | (1 << 12) | 1);
}

#[test]
fn timestamps_never_decrease_under_monotonic_clock() {
    let mut generator = SnowflakeIdGen::with_epoch(9, SystemTime::now()).unwrap();
    let times = [10, 10, 10, 11, 11, 15, 15, 15, 15, 40, 41];
    let mut previous: Option<i64> = None;
    for t in times {
        let id = generator.generate_at(t).unwrap();
        assert_eq!(decode(id).0, t);
        if let Some(p) = previous {
            assert!(id > p);
            assert!(decode(id).0 >= decode(p).0);
        }
        previous = Some(id);
    }
}

#[test]
fn encode_decode_round_trip() {
    assert_eq!(encode(1, 2, 3), 4_202_499);
    assert_eq!(decode(4_202_499), (1, 2, 3));
    let triples = [
        (0, 0, 0),
        (TIMESTAMP_LIMIT - 1, 1023, 4095),
        (1_700_000_000_000, 512, 17),
        (42, 1, 4095),
    ];
    for (t, i, s) in triples {
        let id = encode(t, i, s);
        assert!(id >= 0);
        assert_eq!(decode(id), (t, i, s));
    }
    assert_eq!(encode(TIMESTAMP_LIMIT - 1, 1023, 4095), i64::MAX);
}

#[test]
fn time_outside_the_layout_gives_none() {
    let mut generator = SnowflakeIdGen::with_epoch(0, SystemTime::now()).unwrap();
    assert_eq!(generator.generate_at(-1), None);
    assert_eq!(generator.generate_at(TIMESTAMP_LIMIT), None);
    assert_eq!(generator.generate_with_millis_fn(|_| -5), None);
    assert!(generator.generate_at(TIMESTAMP_LIMIT - 1).is_some());
}

#[test]
fn clock_rollback_starts_a_new_millisecond() {
    let mut generator = SnowflakeIdGen::with_epoch(2, SystemTime::now()).unwrap();
    assert_eq!(decode(generator.generate_at(100).unwrap()), (100, 2, 1));
    assert_eq!(decode(generator.generate_at(100).unwrap()), (100, 2, 2));
    assert_eq!(decode(generator.generate_at(90).unwrap()), (90, 2, 1));
}

#[test]
fn future_epoch_is_refused() {
    let future = SystemTime::now() + Duration::from_secs(3600);
    assert!(SnowflakeIdGen::with_epoch(0, future).is_none());
    assert!(AtomicSnowflakeIdGen::with_epoch(0, future).is_none());
    assert!(SnowflakePool::with_epoch(0, 2, future).is_none());
    assert_eq!(get_time_millis(future), None);
}

#[test]
fn clock_reads_milliseconds_since_epoch() {
    let millis = get_time_millis(UNIX_EPOCH).unwrap();
    assert!(millis > 1_600_000_000_000);
    let earlier = SystemTime::now() - Duration::from_secs(10);
    let since = get_time_millis(earlier).unwrap();
    assert!(since >= 10_000 && since < 20_000);
}

#[test]
fn generate_uses_the_system_clock() {
    let mut generator = SnowflakeIdGen::new(5).unwrap();
    assert_eq!(generator.instance(), 5);
    assert_eq!(generator.epoch(), UNIX_EPOCH);
    let before = get_time_millis(UNIX_EPOCH).unwrap();
    let id = generator.generate().unwrap();
    let after = get_time_millis(UNIX_EPOCH).unwrap();
    let (t, i, s) = decode(id);
    assert!(before <= t && t <= after);
    assert_eq!(i, 5);
    assert!(s >= 1);
}

#[test]
fn no_duplication_between_interleaved_callers() {
    let mut generator = SnowflakeIdGen::with_epoch(0, SystemTime::now()).unwrap();
    let callers = 16;
    let per_caller = 2_000;
    let mut clock: i64 = 0;
    let mut ids: Vec<i64> = Vec::new();
    for _ in 0..per_caller {
        for _ in 0..callers {
            loop {
                if let Some(id) = generator.generate_at(clock) {
                    ids.push(id);
                    break;
                }
                clock += 1;
            }
        }
    }
    ids.sort();
    ids.dedup();
    assert_eq!(ids.len(), callers * per_caller);
}

#[test]
fn atomic_generator_saturates_and_resets() {
    let generator = AtomicSnowflakeIdGen::with_epoch(11, SystemTime::now()).unwrap();
    assert_eq!(generator.instance(), 11);
    let mut ids = Vec::new();
    while let Some(id) = generator.generate_at(77) {
        ids.push(id);
    }
    assert_eq!(ids.len(), 4095);
    assert_eq!(decode(ids[0]), (77, 11, 1));
    assert_eq!(decode(ids[4094]), (77, 11, 4095));
    assert_eq!(generator.generate_at(77), None);
    assert_eq!(decode(generator.generate_at(78).unwrap()), (78, 11, 1));
    assert_eq!(generator.generate_at(-1), None);
    let id = generator.generate().unwrap();
    assert_eq!(decode(id).1, 11);
}

#[test]
fn atomic_generator_ids_are_unique() {
    let generator = AtomicSnowflakeIdGen::with_epoch(0, SystemTime::now()).unwrap();
    let mut clock: i64 = 0;
    let mut ids: Vec<i64> = Vec::new();
    while ids.len() < 32_000 {
        match generator.generate_at(clock) {
            Some(id) => ids.push(id),
            None => clock += 1,
        }
    }
    let mut sorted = ids.clone();
    sorted.sort();
    sorted.dedup();
    assert_eq!(sorted.len(), 32_000);
    assert_eq!(sorted, ids);
}

#[test]
fn pool_shards_are_isolated() {
    let mut pool = SnowflakePool::with_epoch(100, 3, SystemTime::now()).unwrap();
    assert_eq!(pool.shard_count(), 3);
    let mut count = 0;
    while pool.generate_on_at(0, 50).is_some() {
        count += 1;
    }
    assert_eq!(count, 4095);
    assert_eq!(pool.generate_on_at(0, 50), None);
    assert_eq!(decode(pool.generate_on_at(1, 50).unwrap()), (50, 101, 1));
    assert_eq!(decode(pool.generate_on_at(2, 50).unwrap()), (50, 102, 1));
    assert_eq!(pool.generate_on_at(0, 50), None);
}

#[test]
fn pool_round_robin_visits_shards_in_turn() {
    let mut pool = SnowflakePool::with_epoch(4, 2, SystemTime::now()).unwrap();
    assert_eq!(decode(pool.generate_at(60).unwrap()), (60, 4, 1));
    assert_eq!(decode(pool.generate_at(60).unwrap()), (60, 5, 1));
    assert_eq!(decode(pool.generate_at(60).unwrap()), (60, 4, 2));
    let id = pool.generate().unwrap();
    assert_eq!(decode(id).1, 5);
}

#[test]
fn millis_convert_to_i64_when_they_fit() {
    assert_eq!(millis_to_i64(Some(0)), Some(0));
    assert_eq!(millis_to_i64(Some(1_700_000_000_123)), Some(1_700_000_000_123));
    assert_eq!(millis_to_i64(Some(i64::MAX as u128)), Some(i64::MAX));
    assert_eq!(millis_to_i64(Some(i64::MAX as u128 + 1)), None);
    assert_eq!(millis_to_i64(None), None);
}

#[test]
fn generator_starts_at_the_given_reading() {
    let epoch = SystemTime::now();
    let mut generator = SnowflakeIdGen::with_epoch_at(6, epoch, 250).unwrap();
    assert_eq!(generator.instance(), 6);
    assert_eq!(generator.epoch(), epoch);
    assert_eq!(decode(generator.generate_at(250).unwrap()), (250, 6, 1));
    assert_eq!(decode(generator.generate_at(250).unwrap()), (250, 6, 2));
    assert!(SnowflakeIdGen::with_epoch_at(6, epoch, -1).is_none());
    assert!(SnowflakeIdGen::with_epoch_at(6, epoch, TIMESTAMP_LIMIT).is_none());
}

#[test]
fn atomic_generator_starts_at_the_given_reading() {
    let epoch = SystemTime::now();
    let generator = AtomicSnowflakeIdGen::with_epoch_at(8, epoch, 300).unwrap();
    assert_eq!(decode(generator.generate_at(300).unwrap()), (300, 8, 1));
    assert!(AtomicSnowflakeIdGen::with_epoch_at(8, epoch, -1).is_none());
    assert!(AtomicSnowflakeIdGen::with_epoch_at(8, epoch, TIMESTAMP_LIMIT).is_none());
}

#[test]
fn atomic_attempt_follows_the_loaded_word() {
    let generator = AtomicSnowflakeIdGen::with_epoch_at(3, SystemTime::now(), 20).unwrap();
    // The word holds millisecond 20 with sequence 0.
    assert_eq!(generator.attempt(20 * 4096, 20), Some(Some(encode(20, 3, 1))));
    assert_eq!(generator.attempt(20 * 4096 + 1, 20), Some(Some(encode(20, 3, 2))));
    // A word that no longer matches loses the race.
    assert_eq!(generator.attempt(20 * 4096, 20), None);
    assert_eq!(generator.attempt(20 * 4096 + 4095, 20), Some(None));
    assert_eq!(generator.attempt(20 * 4096 + 2, 21), Some(Some(encode(21, 3, 1))));
}

#[test]
fn pool_starts_all_shards_at_the_given_reading() {
    let epoch = SystemTime::now();
    let mut pool = SnowflakePool::with_epoch_at(20, 3, epoch, 400).unwrap();
    assert_eq!(pool.shard_count(), 3);
    assert_eq!(decode(pool.generate_on_at(2, 400).unwrap()), (400, 22, 1));
    assert_eq!(decode(pool.generate_on_at(0, 400).unwrap()), (400, 20, 1));
    assert!(SnowflakePool::with_epoch_at(20, 3, epoch, TIMESTAMP_LIMIT).is_none());
}
