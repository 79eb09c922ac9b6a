use zmq_core::random::{generate_random, random_close, random_open, seed_random};

#[test]
fn test_generate_random() {
    let r1 = generate_random();
    let r2 = generate_random();
    assert_ne!(r1, r2); // Basic test to ensure we get different numbers
}

#[test]
fn open_seed_close_do_not_disturb_the_generator() {
    random_open();
    seed_random();
    let draws: Vec<u32> = (0..8).map(|_| generate_random()).collect();
    random_close();
    let first = draws[0];
    assert!(draws.iter().any(|&d| d != first));
}
