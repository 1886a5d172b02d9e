use microservice_cache::clock::reading;
use microservice_cache::clock::unix_now;
use microservice_cache::MicroserviceCache;

fn stat(cache: &MicroserviceCache, name: &str) -> Option<u64> {
    let pairs = cache.stats_snapshot();
    let found: Vec<u64> = pairs.iter().filter(|p| p.0 == name).map(|p| p.1).collect();
    assert!(found.len() <= 1);
    found.first().copied()
}

fn put(cache: &mut MicroserviceCache, key: &str, value: &str, ttl: Option<u32>, now: u64) -> bool {
    cache.set_at(String::from(key), String::from(value), ttl, None, now)
}

fn read(cache: &mut MicroserviceCache, key: &str, now: u64) -> Option<String> {
    cache.get_at(String::from(key), now)
}

#[test]
fn hash_key_is_the_sha256_digest_in_lowercase_hex() {
    let cache = MicroserviceCache::new(None, None);
    assert_eq!(
        cache.hash_key("abc"),
        "ba7816bf8f01cfea414140de5dae2223b00361a396177a9cb410ff61f20015ad"
    );
    assert_eq!(
        cache.hash_key(""),
        "e3b0c44298fc1c149afbf4c8996fb92427ae41e4649b934ca495991b7852b855"
    );
    assert_eq!(
        cache.hash_key("hello"),
        "2cf24dba5fb0a30e26e83b2ac5b9e29e1b161e5c1fa7425e73043362938b9824"
    );
}

#[test]
fn hash_key_has_64_lowercase_hex_digits_for_any_key() {
    let cache = MicroserviceCache::new(None, None);
    let long = "k".repeat(10_000);
    for key in ["", "a", "user:42", "ключ", long.as_str()] {
        let internal = cache.hash_key(key);
        assert_eq!(internal.len(), 64);
        assert!(internal.chars().all(|c| matches!(c, '0'..='9' | 'a'..='f')));
    }
}

#[test]
fn equal_keys_have_equal_internal_keys() {
    let cache = MicroserviceCache::new(None, None);
    let other = MicroserviceCache::new(Some(1), Some(9));
    let first = cache.hash_key("session:abc");
    let second = cache.hash_key(&String::from("session:abc"));
    assert_eq!(first, second);
    assert_eq!(first, other.hash_key("session:abc"));
    assert_ne!(first, cache.hash_key("session:abd"));
}

#[test]
fn writing_a_key_twice_overwrites_its_entry() {
    let mut cache = MicroserviceCache::new(Some(10), None);
    assert!(put(&mut cache, "k", "one", None, 100));
    assert!(put(&mut cache, "k", "two", None, 101));
    assert_eq!(stat(&cache, "total_keys"), Some(1));
    assert_eq!(stat(&cache, "sets"), Some(2));
    assert_eq!(read(&mut cache, "k", 102), Some(String::from("two")));
    assert_eq!(cache.get_all_keys_at(102), vec![String::from("k")]);
}

#[test]
fn new_cache_is_empty_with_the_given_capacity() {
    let cache = MicroserviceCache::new(Some(7), Some(60));
    assert_eq!(stat(&cache, "total_keys"), Some(0));
    assert_eq!(stat(&cache, "max_size"), Some(7));
    assert_eq!(cache.stats_snapshot().len(), 2);
    assert!(cache.get_all_keys_at(0).is_empty());
}

#[test]
fn default_capacity_is_ten_thousand() {
    let cache = MicroserviceCache::new(None, None);
    assert_eq!(stat(&cache, "max_size"), Some(10_000));
}

#[test]
fn get_after_set_returns_the_value() {
    let mut cache = MicroserviceCache::new(None, None);
    assert!(cache.set(String::from("greeting"), String::from("hello"), None, None));
    assert_eq!(cache.get(String::from("greeting")), Some(String::from("hello")));
    assert_eq!(cache.get(String::from("greeting")), Some(String::from("hello")));
    assert_eq!(cache.get_all_keys(), vec![String::from("greeting")]);
    assert_eq!(stat(&cache, "hits"), Some(2));
}

#[test]
fn value_without_ttl_is_read_back_at_any_time() {
    let mut cache = MicroserviceCache::new(Some(4), None);
    put(&mut cache, "k", "v", None, 1_000);
    assert_eq!(read(&mut cache, "k", 1_000), Some(String::from("v")));
    assert_eq!(read(&mut cache, "k", u64::MAX), Some(String::from("v")));
    assert_eq!(read(&mut cache, "k", 0), Some(String::from("v")));
}

#[test]
fn value_with_ttl_is_read_at_once_by_the_clock() {
    let mut cache = MicroserviceCache::new(None, None);
    assert!(cache.set(String::from("k"), String::from("v"), Some(3_600), None));
    assert_eq!(cache.get(String::from("k")), Some(String::from("v")));
}

#[test]
fn get_of_an_absent_key_is_a_miss() {
    let mut cache = MicroserviceCache::new(None, None);
    assert_eq!(read(&mut cache, "nothing", 5), None);
    assert_eq!(cache.get(String::from("nothing")), None);
    assert_eq!(stat(&cache, "misses"), Some(2));
    assert_eq!(stat(&cache, "hits"), None);
    assert_eq!(stat(&cache, "expired_hits"), None);
    assert_eq!(stat(&cache, "total_keys"), Some(0));
}

#[test]
fn entry_lives_through_its_ttl_and_is_purged_after() {
    let mut cache = MicroserviceCache::new(Some(10), None);
    put(&mut cache, "k", "v", Some(10), 1_000);
    assert_eq!(read(&mut cache, "k", 1_005), Some(String::from("v")));
    assert_eq!(read(&mut cache, "k", 1_010), Some(String::from("v")));
    assert_eq!(stat(&cache, "total_keys"), Some(1));
    assert_eq!(read(&mut cache, "k", 1_011), None);
    assert_eq!(stat(&cache, "total_keys"), Some(0));
    assert_eq!(stat(&cache, "expired_hits"), Some(1));
    assert_eq!(stat(&cache, "hits"), Some(2));
    assert_eq!(stat(&cache, "misses"), None);
    assert_eq!(read(&mut cache, "k", 1_012), None);
    assert_eq!(stat(&cache, "misses"), Some(1));
    assert_eq!(stat(&cache, "expired_hits"), Some(1));
}

#[test]
fn default_ttl_applies_where_none_is_given() {
    let mut cache = MicroserviceCache::new(Some(10), Some(5));
    put(&mut cache, "plain", "v", None, 100);
    put(&mut cache, "longer", "w", Some(50), 100);
    assert_eq!(read(&mut cache, "plain", 105), Some(String::from("v")));
    assert_eq!(read(&mut cache, "plain", 106), None);
    assert_eq!(read(&mut cache, "longer", 106), Some(String::from("w")));
    assert_eq!(read(&mut cache, "longer", 151), None);
}

#[test]
fn given_ttl_overrides_the_default_even_when_zero() {
    let mut cache = MicroserviceCache::new(Some(10), Some(500));
    put(&mut cache, "brief", "v", Some(0), 100);
    assert_eq!(read(&mut cache, "brief", 100), Some(String::from("v")));
    assert_eq!(read(&mut cache, "brief", 101), None);
}

#[test]
fn expiry_near_the_end_of_time_does_not_wrap() {
    let mut cache = MicroserviceCache::new(Some(10), None);
    put(&mut cache, "k", "v", Some(100), u64::MAX - 1);
    assert_eq!(read(&mut cache, "k", u64::MAX), Some(String::from("v")));
    assert_eq!(read(&mut cache, "k", 0), Some(String::from("v")));
}

#[test]
fn listing_leaves_out_expired_entries_without_removing_them() {
    let mut cache = MicroserviceCache::new(Some(10), None);
    put(&mut cache, "short", "a", Some(1), 100);
    put(&mut cache, "lasting", "b", None, 100);
    let mut early = cache.get_all_keys_at(101);
    early.sort();
    assert_eq!(early, vec![String::from("lasting"), String::from("short")]);
    assert_eq!(cache.get_all_keys_at(200), vec![String::from("lasting")]);
    assert_eq!(stat(&cache, "total_keys"), Some(2));
    assert_eq!(cache.get_all_keys_at(200), vec![String::from("lasting")]);
    assert_eq!(stat(&cache, "total_keys"), Some(2));
    assert_eq!(stat(&cache, "expired_hits"), None);
    assert_eq!(read(&mut cache, "short", 200), None);
    assert_eq!(stat(&cache, "total_keys"), Some(1));
}

#[test]
fn listing_gives_original_keys_not_internal_ones() {
    let mut cache = MicroserviceCache::new(Some(10), None);
    cache.set_at(
        String::from("order:17"),
        String::from("{}"),
        None,
        Some(vec![String::from("orders")]),
        9,
    );
    let keys = cache.get_all_keys_at(9);
    assert_eq!(keys, vec![String::from("order:17")]);
    assert_ne!(keys[0], cache.hash_key("order:17"));
}

#[test]
fn one_write_beyond_capacity_evicts_the_first_written() {
    let mut cache = MicroserviceCache::new(Some(3), None);
    put(&mut cache, "k1", "v1", None, 1);
    put(&mut cache, "k2", "v2", None, 2);
    put(&mut cache, "k3", "v3", None, 3);
    assert_eq!(stat(&cache, "total_keys"), Some(3));
    assert_eq!(stat(&cache, "evictions"), None);
    put(&mut cache, "k4", "v4", None, 4);
    assert_eq!(stat(&cache, "total_keys"), Some(3));
    assert_eq!(stat(&cache, "evictions"), Some(1));
    let mut keys = cache.get_all_keys_at(4);
    keys.sort();
    assert_eq!(keys, vec![String::from("k2"), String::from("k3"), String::from("k4")]);
    assert_eq!(read(&mut cache, "k1", 5), None);
    assert_eq!(stat(&cache, "misses"), Some(1));
    assert_eq!(read(&mut cache, "k4", 5), Some(String::from("v4")));
}

#[test]
fn store_never_grows_beyond_capacity() {
    let mut cache = MicroserviceCache::new(Some(5), None);
    for i in 0..40u64 {
        put(&mut cache, &format!("key{}", i), "v", None, 1_000 + i);
        let size = stat(&cache, "total_keys");
        assert!(size <= Some(5));
        assert_eq!(size, Some(std::cmp::min(i + 1, 5)));
    }
    assert_eq!(stat(&cache, "evictions"), Some(35));
    assert_eq!(stat(&cache, "sets"), Some(40));
    let mut keys = cache.get_all_keys_at(2_000);
    keys.sort();
    assert_eq!(keys, vec!["key35", "key36", "key37", "key38", "key39"]);
}

#[test]
fn store_stays_within_capacity_when_writes_share_a_second() {
    let mut cache = MicroserviceCache::new(Some(2), None);
    for i in 0..10u64 {
        put(&mut cache, &format!("key{}", i), "v", None, 77);
        assert!(stat(&cache, "total_keys") <= Some(2));
    }
    assert_eq!(stat(&cache, "total_keys"), Some(2));
    assert_eq!(stat(&cache, "evictions"), Some(8));
    assert!(cache.get_all_keys_at(77).contains(&String::from("key9")));
}

#[test]
fn read_renews_an_entry_so_that_the_other_is_evicted() {
    let mut cache = MicroserviceCache::new(Some(2), None);
    put(&mut cache, "a", "1", None, 10);
    put(&mut cache, "b", "2", None, 20);
    assert_eq!(read(&mut cache, "a", 30), Some(String::from("1")));
    put(&mut cache, "c", "3", None, 40);
    let mut keys = cache.get_all_keys_at(40);
    keys.sort();
    assert_eq!(keys, vec![String::from("a"), String::from("c")]);
    assert_eq!(read(&mut cache, "b", 41), None);
    assert_eq!(read(&mut cache, "a", 41), Some(String::from("1")));
    assert_eq!(stat(&cache, "evictions"), Some(1));
}

#[test]
fn without_a_read_the_older_entry_is_evicted() {
    let mut cache = MicroserviceCache::new(Some(2), None);
    put(&mut cache, "a", "1", None, 10);
    put(&mut cache, "b", "2", None, 20);
    put(&mut cache, "c", "3", None, 40);
    let mut keys = cache.get_all_keys_at(40);
    keys.sort();
    assert_eq!(keys, vec![String::from("b"), String::from("c")]);
}

#[test]
fn rewriting_a_key_at_capacity_still_evicts_the_oldest() {
    let mut cache = MicroserviceCache::new(Some(2), None);
    put(&mut cache, "a", "1", None, 10);
    put(&mut cache, "b", "2", None, 20);
    put(&mut cache, "b", "22", None, 30);
    assert_eq!(stat(&cache, "evictions"), Some(1));
    assert_eq!(cache.get_all_keys_at(30), vec![String::from("b")]);
    assert_eq!(read(&mut cache, "b", 31), Some(String::from("22")));
}

#[test]
fn eviction_takes_expired_entries_by_age_like_any_other() {
    let mut cache = MicroserviceCache::new(Some(2), None);
    put(&mut cache, "fresh", "1", None, 10);
    put(&mut cache, "stale", "2", Some(1), 20);
    put(&mut cache, "new", "3", None, 100);
    assert_eq!(stat(&cache, "total_keys"), Some(2));
    assert_eq!(cache.get_all_keys_at(100), vec![String::from("new")]);
    assert_eq!(read(&mut cache, "fresh", 100), None);
    assert_eq!(stat(&cache, "misses"), Some(1));
}

#[test]
fn capacity_of_zero_holds_the_last_write_only() {
    let mut cache = MicroserviceCache::new(Some(0), None);
    assert!(put(&mut cache, "a", "1", None, 1));
    assert_eq!(stat(&cache, "total_keys"), Some(1));
    assert_eq!(stat(&cache, "evictions"), None);
    assert!(put(&mut cache, "b", "2", None, 2));
    assert_eq!(stat(&cache, "total_keys"), Some(1));
    assert_eq!(stat(&cache, "evictions"), Some(1));
    assert_eq!(cache.get_all_keys_at(2), vec![String::from("b")]);
}

#[test]
fn delete_tells_whether_it_removed_and_counts_removals_only() {
    let mut cache = MicroserviceCache::new(Some(10), None);
    assert!(!cache.delete(String::from("absent")));
    assert_eq!(stat(&cache, "deletes"), None);
    put(&mut cache, "k", "v", None, 1);
    assert!(cache.delete(String::from("k")));
    assert_eq!(stat(&cache, "deletes"), Some(1));
    assert_eq!(stat(&cache, "total_keys"), Some(0));
    assert!(!cache.delete(String::from("k")));
    assert_eq!(stat(&cache, "deletes"), Some(1));
    assert_eq!(read(&mut cache, "k", 2), None);
}

#[test]
fn delete_removes_an_expired_entry_too() {
    let mut cache = MicroserviceCache::new(Some(10), None);
    put(&mut cache, "k", "v", Some(1), 1);
    assert!(cache.get_all_keys_at(50).is_empty());
    assert!(cache.delete(String::from("k")));
    assert_eq!(stat(&cache, "deletes"), Some(1));
    assert_eq!(stat(&cache, "expired_hits"), None);
}

#[test]
fn delete_leaves_other_entries() {
    let mut cache = MicroserviceCache::new(Some(10), None);
    put(&mut cache, "a", "1", None, 1);
    put(&mut cache, "b", "2", None, 1);
    assert!(cache.delete(String::from("a")));
    assert_eq!(cache.get_all_keys_at(1), vec![String::from("b")]);
    assert_eq!(read(&mut cache, "b", 1), Some(String::from("2")));
}

#[test]
fn flush_returns_the_count_and_empties_the_store() {
    let mut cache = MicroserviceCache::new(Some(10), None);
    put(&mut cache, "a", "1", None, 1);
    put(&mut cache, "b", "2", Some(1), 1);
    put(&mut cache, "c", "3", None, 1);
    assert_eq!(cache.flush(), 3);
    assert_eq!(stat(&cache, "total_keys"), Some(0));
    assert_eq!(stat(&cache, "flushes"), Some(1));
    assert!(cache.get_all_keys_at(1).is_empty());
    assert_eq!(read(&mut cache, "a", 1), None);
    assert_eq!(cache.flush(), 0);
    assert_eq!(stat(&cache, "flushes"), Some(2));
    assert_eq!(stat(&cache, "sets"), Some(3));
}

#[test]
fn hit_rate_is_absent_before_any_read() {
    let mut cache = MicroserviceCache::new(Some(10), None);
    assert_eq!(stat(&cache, "hit_rate_percent"), None);
    put(&mut cache, "a", "1", None, 1);
    cache.delete(String::from("zzz"));
    assert_eq!(stat(&cache, "hit_rate_percent"), None);
    assert_eq!(cache.get_stats(), "{\"max_size\":10,\"sets\":1,\"total_keys\":1}");
}

#[test]
fn hit_rate_of_three_hits_and_one_miss_is_75() {
    let mut cache = MicroserviceCache::new(Some(5), None);
    put(&mut cache, "a", "1", None, 1);
    read(&mut cache, "a", 2);
    read(&mut cache, "a", 3);
    read(&mut cache, "a", 4);
    read(&mut cache, "b", 5);
    assert_eq!(stat(&cache, "hits"), Some(3));
    assert_eq!(stat(&cache, "misses"), Some(1));
    assert_eq!(stat(&cache, "hit_rate_percent"), Some(75));
    assert_eq!(
        cache.get_stats(),
        "{\"hit_rate_percent\":75,\"hits\":3,\"max_size\":5,\"misses\":1,\"sets\":1,\"total_keys\":1}"
    );
}

#[test]
fn hit_rate_is_rounded_down() {
    let mut cache = MicroserviceCache::new(Some(5), None);
    put(&mut cache, "a", "1", None, 1);
    read(&mut cache, "a", 2);
    read(&mut cache, "b", 2);
    read(&mut cache, "b", 2);
    assert_eq!(stat(&cache, "hit_rate_percent"), Some(33));
    read(&mut cache, "a", 2);
    read(&mut cache, "a", 2);
    read(&mut cache, "a", 2);
    read(&mut cache, "a", 2);
    assert_eq!(stat(&cache, "hit_rate_percent"), Some(71));
}

#[test]
fn hit_rate_of_29_in_100_is_29() {
    let mut cache = MicroserviceCache::new(Some(5), None);
    put(&mut cache, "a", "1", None, 1);
    for _ in 0..29 {
        read(&mut cache, "a", 2);
    }
    for _ in 0..71 {
        read(&mut cache, "b", 2);
    }
    assert_eq!(stat(&cache, "hits"), Some(29));
    assert_eq!(stat(&cache, "misses"), Some(71));
    assert_eq!(stat(&cache, "hit_rate_percent"), Some(29));
}

#[test]
fn hit_rate_ignores_expired_hits() {
    let mut cache = MicroserviceCache::new(Some(5), None);
    put(&mut cache, "a", "1", Some(1), 1);
    assert_eq!(read(&mut cache, "a", 10), None);
    assert_eq!(stat(&cache, "expired_hits"), Some(1));
    assert_eq!(stat(&cache, "hit_rate_percent"), None);
    assert_eq!(read(&mut cache, "a", 10), None);
    assert_eq!(stat(&cache, "hit_rate_percent"), Some(0));
    put(&mut cache, "a", "1", None, 10);
    assert_eq!(read(&mut cache, "a", 10), Some(String::from("1")));
    assert_eq!(stat(&cache, "hit_rate_percent"), Some(50));
}

#[test]
fn statistics_name_each_counter_once() {
    let mut cache = MicroserviceCache::new(Some(1), None);
    put(&mut cache, "a", "1", Some(1), 1);
    put(&mut cache, "b", "2", Some(1), 1);
    read(&mut cache, "b", 1);
    read(&mut cache, "b", 9);
    read(&mut cache, "b", 9);
    put(&mut cache, "c", "3", None, 9);
    cache.delete(String::from("c"));
    cache.flush();
    let mut names: Vec<String> = cache.stats_snapshot().into_iter().map(|p| p.0).collect();
    names.sort();
    assert_eq!(
        names,
        vec![
            "deletes",
            "evictions",
            "expired_hits",
            "flushes",
            "hit_rate_percent",
            "hits",
            "max_size",
            "misses",
            "sets",
            "total_keys"
        ]
    );
    assert_eq!(
        cache.get_stats(),
        "{\"deletes\":1,\"evictions\":1,\"expired_hits\":1,\"flushes\":1,\
         \"hit_rate_percent\":50,\"hits\":1,\"max_size\":1,\"misses\":1,\"sets\":3,\"total_keys\":0}"
    );
}

#[test]
fn statistics_text_parses_as_a_json_object_of_numbers() {
    let mut cache = MicroserviceCache::new(Some(3), None);
    put(&mut cache, "a", "1", None, 1);
    read(&mut cache, "a", 1);
    let parsed: serde_json::Value = serde_json::from_str(&cache.get_stats()).unwrap();
    let object = parsed.as_object().unwrap();
    assert_eq!(object.len(), 5);
    for (name, value) in cache.stats_snapshot() {
        assert_eq!(object[name.as_str()].as_u64(), Some(value));
    }
    assert_eq!(object["hit_rate_percent"].as_u64(), Some(100));
}

#[test]
fn clock_reads_a_time_after_2020() {
    let first = unix_now();
    assert!(first > 1_577_836_800);
    let second = unix_now();
    assert!(second >= first);
    assert!(second - first < 60);
}

#[test]
fn clock_before_the_epoch_reads_as_zero() {
    assert_eq!(reading(None), 0);
    assert_eq!(reading(Some(0)), 0);
    assert_eq!(reading(Some(1_700_000_000)), 1_700_000_000);
    assert_eq!(reading(Some(u64::MAX)), u64::MAX);
}
