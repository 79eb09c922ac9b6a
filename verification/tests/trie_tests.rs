use zmq_core::trie::{Trie, TrieWithSize};

#[test]
fn trie_matches_data_that_begins_with_an_added_prefix() {
    let mut t = Trie::new();
    assert!(!t.check(b"abc"));
    assert!(t.add(b"ab"));
    assert!(t.check(b"ab"));
    assert!(t.check(b"abc"));
    assert!(!t.check(b"a"));
    assert!(!t.check(b"b"));
}

#[test]
fn trie_add_reports_whether_the_prefix_is_new() {
    let mut t = Trie::new();
    assert!(t.add(b"x"));
    assert!(!t.add(b"x"));
    assert!(t.add(b"xy"));
}

#[test]
fn trie_empty_prefix_matches_everything() {
    let mut t = Trie::new();
    assert!(t.add(b""));
    assert!(t.check(b""));
    assert!(t.check(b"anything"));
}

#[test]
fn trie_branches_on_different_bytes() {
    let mut t = Trie::new();
    t.add(b"abc");
    t.add(b"abd");
    t.add(b"zz");
    t.add(&[0u8, 255u8]);
    assert!(t.check(b"abcx"));
    assert!(t.check(b"abd"));
    assert!(t.check(b"zzz"));
    assert!(t.check(&[0u8, 255u8, 1u8]));
    assert!(!t.check(b"abe"));
    assert!(!t.check(b"z"));
    assert!(!t.check(&[0u8, 254u8]));
}

#[test]
fn trie_with_size_counts_distinct_prefixes() {
    let mut t = TrieWithSize::new();
    assert_eq!(t.num_prefixes(), 0);
    assert!(t.add(b"a"));
    assert!(!t.add(b"a"));
    assert!(t.add(b"b"));
    assert_eq!(t.num_prefixes(), 2);
    assert!(t.check(b"apple"));
    assert!(!t.check(b"cherry"));
}

#[test]
fn adding_keeps_earlier_matches() {
    let mut t = TrieWithSize::new();
    t.add(b"ab");
    assert!(t.check(b"abc"));
    t.add(b"xy");
    t.add(b"a");
    assert!(t.check(b"abc"));
}
