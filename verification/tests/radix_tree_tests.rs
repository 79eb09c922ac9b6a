use zmq_core::radix_tree::RadixTree;

#[test]
fn radix_tree_starts_empty() {
    let t = RadixTree::new();
    assert_eq!(t.size(), 0);
    assert!(!t.contains(b"abc"));
}

#[test]
fn radix_tree_add_counts_references() {
    let mut t = RadixTree::new();
    assert!(t.add(b"foo"));
    assert!(!t.add(b"foo"));
    assert_eq!(t.size(), 2);
    assert!(!t.remove(b"foo"));
    assert!(t.remove(b"foo"));
    assert_eq!(t.size(), 0);
    assert!(!t.contains(b"foo"));
}

#[test]
fn radix_tree_matches_strings_a_key_begins() {
    let mut t = RadixTree::new();
    t.add(b"foo");
    assert!(t.contains(b"foo"));
    assert!(t.contains(b"foobar"));
    assert!(!t.contains(b"fo"));
    assert!(!t.contains(b"bar"));
}

#[test]
fn radix_tree_splits_shared_prefixes() {
    let mut t = RadixTree::new();
    t.add(b"team");
    t.add(b"tea");
    t.add(b"toast");
    assert!(t.contains(b"teapot"));
    assert!(t.contains(b"teams"));
    assert!(t.contains(b"toaster"));
    assert!(!t.contains(b"te"));
    assert!(!t.contains(b"toad"));
    assert!(t.remove(b"tea"));
    assert!(!t.contains(b"teapot"));
    assert!(t.contains(b"teams"));
    assert_eq!(t.size(), 2);
}

#[test]
fn radix_tree_remove_of_absent_key_changes_nothing() {
    let mut t = RadixTree::new();
    t.add(b"abc");
    assert!(!t.remove(b"ab"));
    assert!(!t.remove(b"xyz"));
    assert_eq!(t.size(), 1);
    assert!(t.contains(b"abcd"));
}

#[test]
fn add_then_remove_restores_the_tree() {
    let mut t = RadixTree::new();
    t.add(b"k1");
    t.add(b"k2");
    t.add(b"k");
    t.remove(b"k");
    assert_eq!(t.size(), 2);
    assert!(!t.contains(b"kx"));
    assert!(t.contains(b"k1x"));
}

#[test]
fn radix_tree_empty_key_matches_everything() {
    let mut t = RadixTree::new();
    t.add(b"");
    assert!(t.contains(b""));
    assert!(t.contains(b"whatever"));
}

#[test]
fn radix_tree_keys_split_at_a_node_stay_found() {
    let mut t = RadixTree::new();
    assert!(t.add(b"ab"));
    assert!(t.add(b"ac"));
    assert!(t.contains(b"ab"));
    assert!(t.contains(b"ac"));
    assert!(!t.contains(b"a"));
    assert_eq!(t.size(), 2);
}
