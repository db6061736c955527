use pickle::cache::ResponseCache;
use std::collections::BTreeMap;

/// A small deterministic generator, so that every run sees the same traffic.
struct Traffic(u64);

impl Traffic {
    fn next(&mut self) -> u64 {
        self.0 = self.0.wrapping_mul(6364136223846793005).wrapping_add(1442695040888963407);
        self.0 >> 33
    }
}

fn key(k: u64) -> String {
    format!("character/{}", k)
}

/// What the cache answers for each of the first `universe` keys.
fn probe(cache: &mut ResponseCache, universe: u64) -> BTreeMap<u64, String> {
    let mut seen = BTreeMap::new();
    for k in 0..universe {
        if let Some(body) = cache.get(&key(k)) {
            seen.insert(k, body);
        }
    }
    seen
}

/// Probes until two probes in a row agree.
fn settled(cache: &mut ResponseCache, universe: u64) -> BTreeMap<u64, String> {
    let mut last = probe(cache, universe);
    loop {
        let next = probe(cache, universe);
        if next == last {
            return next;
        }
        last = next;
    }
}

#[test]
fn cache_within_capacity_keeps_everything() {
    let mut cache = ResponseCache::new(8);
    for k in 0..8 {
        cache.insert(key(k), format!("first {}", k));
    }
    for k in 0..8 {
        assert_eq!(cache.get(&key(k)), Some(format!("first {}", k)));
    }
    for round in 0..50 {
        for k in 0..8 {
            cache.insert(key(k), format!("round {} of {}", round, k));
        }
        for k in 0..8 {
            assert_eq!(cache.get(&key(k)), Some(format!("round {} of {}", round, k)));
        }
    }
}

#[test]
fn cache_within_capacity_is_unchanged_by_get_and_keeps_each_insert() {
    let mut traffic = Traffic(1);
    let mut checked_gets = 0;
    let mut checked_inserts = 0;
    for _trial in 0..200 {
        let capacity = 1 + traffic.next() % 8;
        let universe = capacity + traffic.next() % (2 * capacity + 3);
        let mut cache = ResponseCache::new(capacity);
        for step in 0..40 {
            for _ in 0..traffic.next() % 6 {
                let k = traffic.next() % universe;
                if traffic.next() % 2 == 0 {
                    cache.insert(key(k), format!("body {} at {}", k, step));
                } else {
                    let _ = cache.get(&key(k));
                }
            }
            let before = settled(&mut cache, universe);
            if before.len() as u64 > capacity {
                continue;
            }
            let k = traffic.next() % universe;
            assert_eq!(cache.get(&key(k)).as_ref(), before.get(&k));
            assert_eq!(probe(&mut cache, universe), before);
            checked_gets += 1;

            let k = traffic.next() % universe;
            let mut expected = before.clone();
            expected.insert(k, format!("new body {} at {}", k, step));
            if expected.len() as u64 <= capacity {
                cache.insert(key(k), format!("new body {} at {}", k, step));
                assert_eq!(probe(&mut cache, universe), expected);
                assert_eq!(probe(&mut cache, universe), expected);
                checked_inserts += 1;
            }
        }
    }
    assert!(checked_gets > 1000);
    assert!(checked_inserts > 500);
}

#[test]
fn cache_sheds_down_to_its_capacity_and_then_keeps_what_fits() {
    let mut traffic = Traffic(5);
    for _trial in 0..20 {
        let capacity = 1 + traffic.next() % 16;
        let universe = 200;
        let mut cache = ResponseCache::new(capacity);
        for step in 0..2000 {
            let k = traffic.next() % universe;
            if traffic.next() % 3 != 0 {
                cache.insert(key(k), format!("body {} at {}", k, step));
            } else {
                let _ = cache.get(&key(k));
            }
        }
        let before = settled(&mut cache, universe);
        assert!(before.len() as u64 <= capacity);
        if (before.len() as u64) < capacity {
            cache.insert(key(999), String::from("fresh"));
            let mut expected = before.clone();
            expected.insert(999, String::from("fresh"));
            assert_eq!(probe(&mut cache, 1000), expected);
        }
    }
}

#[test]
fn crowded_cache_answers_with_the_latest_body_or_none() {
    let mut traffic = Traffic(9);
    let mut cache = ResponseCache::new(4);
    let mut latest: BTreeMap<u64, String> = BTreeMap::new();
    for step in 0..5000 {
        let k = traffic.next() % 64;
        if traffic.next() % 2 == 0 {
            let body = format!("body {} at {}", k, step);
            cache.insert(key(k), body.clone());
            latest.insert(k, body);
        } else if let Some(body) = cache.get(&key(k)) {
            assert_eq!(Some(&body), latest.get(&k));
        }
    }
}
