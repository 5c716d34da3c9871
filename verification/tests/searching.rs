use rolling_search::search::{DEFAULT_BASE, DEFAULT_MODULUS, DEFAULT_TIME_BUDGET};
use rolling_search::{
    count_matches, find_matches, partition, string_match, Chunk, ChunkPolicy, ConfigError, Hasher,
    MatchCollector, Pattern, SearchConfig,
};

fn config(chunk_policy: ChunkPolicy) -> SearchConfig {
    SearchConfig { modulus: 7907, base: 256, thread_count: 1, chunk_policy }
}

fn policies() -> Vec<ChunkPolicy> {
    let mut all = Vec::new();
    for n in [0usize, 1, 2, 3, 5, 8, 100] {
        all.push(ChunkPolicy::FixedSize(n));
        all.push(ChunkPolicy::WorkStealing(n));
    }
    for t in [0u64, 1, 5000, u64::MAX] {
        all.push(ChunkPolicy::TimeBudget(t));
    }
    all
}

fn naive(haystack: &[u8], needle: &[u8], base: u64, modulus: u64) -> Vec<usize> {
    if needle.is_empty() || needle.len() > haystack.len() {
        return Vec::new();
    }
    let h = Hasher::new(base, modulus).unwrap();
    let target = h.hash(needle);
    (0..=haystack.len() - needle.len())
        .filter(|&i| h.hash(&haystack[i..i + needle.len()]) == target)
        .collect()
}

#[test]
fn default_configuration() {
    let c = SearchConfig::default();
    assert_eq!(c.modulus, 7907);
    assert_eq!(c.base, 256);
    assert_eq!(c.thread_count, 1);
    assert_eq!(c.chunk_policy, ChunkPolicy::TimeBudget(5000));
    assert_eq!((DEFAULT_MODULUS, DEFAULT_BASE, DEFAULT_TIME_BUDGET), (7907, 256, 5000));
    assert_eq!(c.validate(), Ok(()));
}

#[test]
fn apple_in_applepineapplepenpineapplepen() {
    let hay = b"applepineapplepenpineapplepen";
    for policy in policies() {
        let mut found = find_matches(hay, b"apple", &config(policy)).unwrap();
        found.sort();
        assert_eq!(found, vec![0, 9, 21], "{:?}", policy);
        assert_eq!(count_matches(hay, b"apple", &config(policy)), Ok(3));
    }
    assert_eq!(string_match(hay, b"apple", 0), 3);
    assert_eq!(string_match(hay, b"apple", 4), 3);
}

#[test]
fn a_in_ten_times_a() {
    let hay = [b'a'; 10];
    for policy in policies() {
        assert_eq!(
            find_matches(&hay, b"a", &config(policy)),
            Ok(vec![0, 1, 2, 3, 4, 5, 6, 7, 8, 9]),
            "{:?}",
            policy
        );
        assert_eq!(count_matches(&hay, b"a", &config(policy)), Ok(10));
    }
    assert_eq!(string_match(&hay, b"a", 0), 10);
}

#[test]
fn xyz_never_occurs_in_abcabcabc() {
    for policy in policies() {
        assert_eq!(find_matches(b"abcabcabc", b"xyz", &config(policy)), Ok(vec![]));
        assert_eq!(count_matches(b"abcabcabc", b"xyz", &config(policy)), Ok(0));
    }
    assert_eq!(string_match(b"abcabcabc", b"xyz", 0), 0);
}

#[test]
fn empty_needle_matches_nowhere() {
    for policy in policies() {
        assert_eq!(find_matches(b"abc", b"", &config(policy)), Ok(vec![]));
        assert_eq!(count_matches(b"abc", b"", &config(policy)), Ok(0));
        assert_eq!(find_matches(b"", b"", &config(policy)), Ok(vec![]));
    }
    assert_eq!(string_match(b"abc", b"", 0), 0);
    assert_eq!(string_match(b"abc", b"", 7), 0);
}

#[test]
fn needle_longer_than_haystack_matches_nowhere() {
    for policy in policies() {
        assert_eq!(find_matches(b"abc", b"abcd", &config(policy)), Ok(vec![]));
        assert_eq!(count_matches(b"", b"a", &config(policy)), Ok(0));
    }
    assert_eq!(string_match(b"abc", b"abcd", 0), 0);
}

#[test]
fn needle_as_long_as_haystack() {
    for policy in policies() {
        assert_eq!(find_matches(b"abc", b"abc", &config(policy)), Ok(vec![0]));
        assert_eq!(find_matches(b"abc", b"abd", &config(policy)), Ok(vec![]));
    }
}

#[test]
fn invalid_configurations_are_named() {
    let valid = config(ChunkPolicy::FixedSize(4));
    let cases = [
        (SearchConfig { modulus: 0, ..valid }, ConfigError::InvalidModulus),
        (SearchConfig { modulus: 1, ..valid }, ConfigError::InvalidModulus),
        (SearchConfig { base: 0, ..valid }, ConfigError::InvalidBase),
        (SearchConfig { base: 1, ..valid }, ConfigError::InvalidBase),
        (SearchConfig { thread_count: 0, ..valid }, ConfigError::InvalidThreadCount),
        (SearchConfig { modulus: 1, base: 1, thread_count: 0, ..valid }, ConfigError::InvalidModulus),
        (SearchConfig { base: 1, thread_count: 0, ..valid }, ConfigError::InvalidBase),
    ];
    for (c, e) in cases {
        assert_eq!(c.validate(), Err(e));
        assert_eq!(find_matches(b"abcabc", b"abc", &c), Err(e));
        assert_eq!(count_matches(b"abcabc", b"abc", &c), Err(e));
        // a degenerate needle does not hide the error
        assert_eq!(find_matches(b"abc", b"", &c), Err(e));
    }
    assert_eq!(SearchConfig { thread_count: 64, ..valid }.validate(), Ok(()));
}

#[test]
fn chunking_does_not_change_the_matches() {
    let hay: Vec<u8> = (0..600u32).map(|i| b"abcab"[(i * i % 5) as usize]).collect();
    for needle in [&b"ab"[..], b"abc", b"a", b"cab", b"bb", b"abcabcab"] {
        let expected = naive(&hay, needle, 256, 7907);
        for policy in policies() {
            for thread_count in [1usize, 2, 32] {
                let c = SearchConfig { thread_count, ..config(policy) };
                assert_eq!(find_matches(&hay, needle, &c), Ok(expected.clone()));
                assert_eq!(count_matches(&hay, needle, &c), Ok(expected.len()));
            }
        }
    }
}

#[test]
fn one_chunk_or_many() {
    let hay: Vec<u8> = (0..300u32).map(|i| b"xyxyz"[(i * 7 % 5) as usize]).collect();
    let p = Pattern::new(Hasher::new(256, 7907).unwrap(), b"xy").unwrap();
    let total = p.window_count(&hay);
    let mut whole = MatchCollector::new(p, true);
    whole.scan_chunk(&hay, Chunk { start: 0, end: total });
    let whole = whole.into_offsets();
    assert_eq!(whole, naive(&hay, b"xy", 256, 7907));
    for size in 1..40 {
        let mut merged = MatchCollector::new(p, true);
        for chunk in partition(total, ChunkPolicy::FixedSize(size)) {
            let mut part = MatchCollector::new(p, true);
            part.scan_chunk(&hay, chunk);
            merged.absorb(part);
        }
        assert_eq!(merged.into_offsets(), whole);
    }
}

#[test]
fn repeated_searches_agree() {
    let hay = b"applepineapplepenpineapplepen";
    let c = SearchConfig::default();
    let first = find_matches(hay, b"pen", &c);
    for _ in 0..20 {
        assert_eq!(find_matches(hay, b"pen", &c), first);
    }
    assert_eq!(first, Ok(vec![14, 26]));
}

#[test]
fn colliding_windows_are_reported() {
    // base 256 is 1 modulo 5, so a window hashes to the sum of its bytes:
    // "ab" and "ba" collide
    let c = SearchConfig { modulus: 5, ..config(ChunkPolicy::FixedSize(2)) };
    let h = Hasher::new(256, 5).unwrap();
    assert_eq!(h.hash(b"ab"), h.hash(b"ba"));
    assert_eq!(find_matches(b"abba", b"ab", &c), Ok(vec![0, 2]));
    assert_eq!(count_matches(b"ba", b"ab", &c), Ok(1));
}

#[test]
fn collision_under_the_default_modulus() {
    let h = Hasher::new(DEFAULT_BASE, DEFAULT_MODULUS).unwrap();
    assert_eq!(h.hash(b"aja").value(), 3276);
    assert_eq!(h.hash(b"bay").value(), 3276);
    assert_eq!(string_match(b"bay", b"aja", 0), 1);
    assert_eq!(find_matches(b"a bay", b"aja", &SearchConfig::default()), Ok(vec![2]));
}

#[test]
fn true_occurrences_are_never_missed() {
    let hay: Vec<u8> = (0..400u32).map(|i| (i * 31 % 7) as u8).collect();
    for modulus in [2u64, 3, 5, 7907, u64::MAX] {
        let c = SearchConfig { modulus, ..config(ChunkPolicy::FixedSize(16)) };
        let needle = &hay[40..46];
        let found = find_matches(&hay, needle, &c).unwrap();
        for i in 0..=hay.len() - needle.len() {
            if &hay[i..i + needle.len()] == needle {
                assert!(found.contains(&i));
            }
        }
        assert_eq!(found, naive(&hay, needle, 256, modulus));
    }
}

#[test]
fn other_bases_and_moduli() {
    let c = SearchConfig { modulus: 1_000_000_007, base: 31, ..config(ChunkPolicy::WorkStealing(3)) };
    assert_eq!(find_matches(b"abracadabra", b"abra", &c), Ok(vec![0, 7]));
    let c = SearchConfig { modulus: 2, base: 2, ..config(ChunkPolicy::TimeBudget(100)) };
    // modulo 2 with an even base only the last byte's parity counts
    assert_eq!(find_matches(&[1, 2, 3, 4, 5], &[9, 7], &c), Ok(vec![1, 3]));
}
