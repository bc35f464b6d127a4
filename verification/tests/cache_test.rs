use miarh::cache::{Cache, CachedFile, MAX_CACHE_SIZE};
use miarh::compress::compress;
use std::io::Read;

fn unbrotli(data: &[u8]) -> Vec<u8> {
    let mut out = Vec::new();
    brotli::Decompressor::new(data, 4096).read_to_end(&mut out).unwrap();
    out
}

/// Bytes that brotli cannot make much smaller.
fn noise(len: usize, seed: u64) -> Vec<u8> {
    let mut x = seed.wrapping_mul(0x9E3779B97F4A7C15) | 1;
    let mut out = Vec::with_capacity(len);
    for _ in 0..len {
        x ^= x << 13;
        x ^= x >> 7;
        x ^= x << 17;
        out.push((x >> 24) as u8);
    }
    out
}

fn paths(c: &Cache) -> Vec<String> {
    c.files.iter().map(|f| f.path.clone()).collect()
}

fn total(c: &Cache) -> usize {
    c.files.iter().map(|f| f.content.len()).sum()
}

#[test]
fn compress_gives_a_brotli_stream_of_the_data() {
    let data = b"<html><body>hello hello hello hello hello hello</body></html>".to_vec();
    let packed = compress(&data);
    assert_ne!(packed, data);
    assert!(packed.len() < data.len());
    assert_eq!(unbrotli(&packed), data);
    assert_eq!(unbrotli(&compress(&Vec::new())), Vec::<u8>::new());
    assert_eq!(compress(&data), compress(&data));
}

#[test]
fn a_new_cache_is_empty() {
    let c = Cache::new();
    assert!(c.files.is_empty());
    assert_eq!(c.size, 0);
}

#[test]
fn a_file_stored_is_found_and_unpacks_to_what_was_read() {
    let mut c = Cache::new();
    let path = "/srv/static/a.css".to_string();
    let raw = b"body { color: red; } body { color: red; }".to_vec();
    assert_eq!(c.get(&path, Some(7)), None);
    let cf = c.set(&path, &raw, 7);
    assert_eq!(cf.path, path);
    assert_eq!(cf.mod_dt, 7);
    assert_eq!(cf.hits, 1);
    assert_eq!(unbrotli(&cf.content), raw);
    let found = c.get(&path, Some(7)).unwrap();
    assert_eq!(found, cf.content);
    assert_eq!(unbrotli(&found), raw);
    assert_eq!(c.size, found.len());
}

#[test]
fn a_changed_file_is_dropped_and_read_anew() {
    let mut c = Cache::new();
    let path = "/srv/static/a.css".to_string();
    let old = b"old old old old".to_vec();
    let new = b"new new new new new".to_vec();
    c.set(&path, &old, 1);
    assert_eq!(c.get(&path, Some(2)), None);
    assert!(c.files.is_empty());
    assert_eq!(c.size, 0);
    c.set(&path, &new, 2);
    assert_eq!(unbrotli(&c.get(&path, Some(2)).unwrap()), new);
}

#[test]
fn a_file_that_is_gone_is_dropped() {
    let mut c = Cache::new();
    let path = "/srv/static/a.css".to_string();
    c.set(&path, &b"x".to_vec(), 1);
    assert_eq!(c.get(&path, None), None);
    assert!(c.files.is_empty());
}

#[test]
fn a_lookup_marks_the_file_as_used_last() {
    let mut c = Cache::new();
    for p in ["a", "b", "c"] {
        c.set(&p.to_string(), &p.as_bytes().to_vec(), 1);
    }
    assert_eq!(paths(&c), ["a", "b", "c"]);
    assert!(c.get(&"a".to_string(), Some(1)).is_some());
    assert_eq!(paths(&c), ["b", "c", "a"]);
    c.update_ordering("c".to_string());
    assert_eq!(paths(&c), ["b", "a", "c"]);
    c.update_ordering("none".to_string());
    assert_eq!(paths(&c), ["b", "a", "c"]);
    assert_eq!(c.size, total(&c));
}

#[test]
fn storing_a_path_again_replaces_its_file() {
    let mut c = Cache::new();
    c.set(&"a".to_string(), &b"first".to_vec(), 1);
    c.set(&"b".to_string(), &b"other".to_vec(), 1);
    c.set(&"a".to_string(), &b"second second".to_vec(), 2);
    assert_eq!(paths(&c), ["b", "a"]);
    assert_eq!(c.size, total(&c));
    assert_eq!(unbrotli(&c.get(&"a".to_string(), Some(2)).unwrap()), b"second second".to_vec());
}

#[test]
fn remove_takes_the_file_out() {
    let mut c = Cache::new();
    c.set(&"a".to_string(), &b"first".to_vec(), 1);
    c.set(&"b".to_string(), &b"other".to_vec(), 1);
    c.remove(&"a".to_string());
    assert_eq!(paths(&c), ["b"]);
    assert_eq!(c.size, total(&c));
    c.remove(&"a".to_string());
    assert_eq!(paths(&c), ["b"]);
}

/// A cache that holds files of the given sizes, `f0` used longest ago.
fn cache_of(sizes: &[usize]) -> Cache {
    let mut c = Cache::new();
    for (i, n) in sizes.iter().enumerate() {
        c.files.push(CachedFile { path: format!("f{}", i), content: vec![7u8; *n], mod_dt: 1, hits: 1 });
        c.size += n;
    }
    c
}

#[test]
fn the_files_used_longest_ago_leave_when_the_ceiling_is_passed() {
    let mib = 1024 * 1024;
    let mut c = cache_of(&[mib, mib, mib, mib, mib, mib + 1]);
    assert!(c.size > MAX_CACHE_SIZE);
    c.check_size();
    assert_eq!(paths(&c), ["f2", "f3", "f4", "f5"]);
    assert_eq!(c.size, 4 * mib + 1);
    assert!(c.size <= MAX_CACHE_SIZE);
    // no fewer had to go: with `f1` still held the total was over the ceiling
    assert!(c.size + mib > MAX_CACHE_SIZE);

    let mut c = cache_of(&[mib, mib, mib, mib, mib]);
    assert_eq!(c.size, MAX_CACHE_SIZE);
    c.check_size();
    assert_eq!(paths(&c), ["f0", "f1", "f2", "f3", "f4"]);
}

#[test]
fn a_lookup_of_a_file_not_held_makes_room_first() {
    let mib = 1024 * 1024;
    let mut c = cache_of(&[3 * mib, 2 * mib, mib]);
    assert_eq!(c.get(&"new".to_string(), Some(1)), None);
    assert_eq!(paths(&c), ["f1", "f2"]);
    assert_eq!(c.size, 3 * mib);
    c.set(&"new".to_string(), &noise(4096, 3), 1);
    assert_eq!(paths(&c), ["f1", "f2", "new"]);
    assert_eq!(c.size, total(&c));
    // a lookup that finds its file lets nothing go
    let mut c = cache_of(&[3 * mib, 2 * mib, mib]);
    assert!(c.get(&"f0".to_string(), Some(1)).is_some());
    assert_eq!(paths(&c), ["f1", "f2", "f0"]);
    assert_eq!(c.size, 6 * mib);
}

#[test]
fn one_file_larger_than_the_ceiling_is_still_held() {
    let mut c = cache_of(&[MAX_CACHE_SIZE + 1]);
    assert!(c.get(&"f0".to_string(), Some(1)).is_some());
    assert_eq!(c.size, MAX_CACHE_SIZE + 1);
    // storing lets nothing go either
    c.set(&"small".to_string(), &b"x".to_vec(), 1);
    assert_eq!(paths(&c), ["f0", "small"]);
    assert!(c.size > MAX_CACHE_SIZE);
    // the next lookup of a file not held does
    assert_eq!(c.get(&"next".to_string(), Some(1)), None);
    assert_eq!(paths(&c), ["small"]);
    assert!(c.size <= MAX_CACHE_SIZE);
}

#[test]
fn hits_are_counted() {
    let mut cf = CachedFile::new(&"a".to_string(), &b"x".to_vec(), 3);
    assert_eq!(cf.hits, 1);
    cf.hit();
    assert_eq!(cf.hits, 2);
    cf.hits = u64::MAX;
    cf.hit();
    assert_eq!(cf.hits, u64::MAX);
}

#[test]
fn a_file_is_outdated_when_the_time_differs_or_the_file_is_gone() {
    let cf = CachedFile::new(&"a".to_string(), &b"x".to_vec(), 3);
    assert!(!cf.is_outdated(Some(3)));
    assert!(cf.is_outdated(Some(4)));
    assert!(cf.is_outdated(Some(-3)));
    assert!(cf.is_outdated(None));
    let copy = cf.duplicate();
    assert_eq!(copy.path, cf.path);
    assert_eq!(copy.content, cf.content);
}

#[test]
fn a_cache_is_in_order_when_paths_differ_and_the_total_is_right() {
    let mut c = cache_of(&[10, 20, 30]);
    assert!(c.is_wf());
    c.size += 1;
    assert!(!c.is_wf());
    c.size -= 2;
    assert!(!c.is_wf());
    let mut c = cache_of(&[10, 20, 30]);
    c.files[2].path = "f0".to_string();
    assert!(!c.is_wf());
    assert!(Cache::new().is_wf());
}

#[test]
fn a_file_is_stored_as_it_is_given() {
    let mut c = cache_of(&[10, 20]);
    let copy = c.store(CachedFile { path: "f0".to_string(), content: vec![1, 2, 3], mod_dt: 9, hits: 4 });
    assert_eq!(copy.content, vec![1, 2, 3]);
    assert_eq!(copy.hits, 4);
    assert_eq!(paths(&c), ["f1", "f0"]);
    assert_eq!(c.size, 23);
    assert!(c.is_wf());
    assert_eq!(c.get(&"f0".to_string(), Some(9)), Some(vec![1, 2, 3]));
}
