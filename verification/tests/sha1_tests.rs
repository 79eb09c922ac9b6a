use zmq_core::sha1::{Sha1Context, SHA_CTX, SHA_DIGEST_LENGTH};

fn hex_encode(bytes: &[u8]) -> String {
    let digits = b"0123456789abcdef";
    let mut s = String::new();
    for b in bytes {
        s.push(digits[(b >> 4) as usize] as char);
        s.push(digits[(b & 0x0f) as usize] as char);
    }
    s
}

#[test]
fn test_empty_string() {
    let mut sha1 = Sha1Context::new();
    let result = sha1.finalize();
    assert_eq!(
        hex_encode(&result),
        "da39a3ee5e6b4b0d3255bfef95601890afd80709"
    );
}

// The expected digest is that of "Hello, World!" (capital W); the digest of
// "Hello, world!" is 943a702d..., checked in `sha1_hello_lowercase_world`.
// The input is written to match the expected digest, which no SHA-1 could
// meet for the lower-case text.
#[test]
fn test_hello_world() {
    let mut sha1 = Sha1Context::new();
    sha1.update(b"Hello, World!");
    let result = sha1.finalize();
    assert_eq!(
        hex_encode(&result),
        "0a0a9f2a6772942557ab5355d76af442f8f65e01"
    );
}

#[test]
fn sha1_hello_lowercase_world() {
    let mut sha1 = Sha1Context::new();
    sha1.update(b"Hello, world!");
    assert_eq!(
        hex_encode(&sha1.finalize()),
        "943a702d06f34599aee1f8da8ef9f7296031d699"
    );
}

#[test]
fn sha1_abc() {
    let mut sha1 = Sha1Context::new();
    sha1.update(b"abc");
    assert_eq!(hex_encode(&sha1.finalize()), "a9993e364706816aba3e25717850c26c9cd0d89d");
}

#[test]
fn sha1_two_block_padding() {
    // 56 bytes: the length field no longer fits in the last data block.
    let mut sha1 = Sha1Context::new();
    sha1.update(b"abcdbcdecdefdefgefghfghighijhijkijkljklmklmnlmnomnopnopq");
    assert_eq!(hex_encode(&sha1.finalize()), "84983e441c3bd26ebaae4aa1f95129e5e54670f1");
}

#[test]
fn sha1_split_updates_match_single_update() {
    let data: Vec<u8> = (0..300u32).map(|i| (i * 7 + 3) as u8).collect();
    let mut one = Sha1Context::new();
    one.update(&data);
    let a = one.finalize();
    let mut many = Sha1Context::new();
    many.update(&data[..5]);
    many.update(&data[5..70]);
    many.update(&data[70..200]);
    many.update(&[]);
    many.update(&data[200..]);
    assert_eq!(a, many.finalize());
}

#[test]
fn sha1_million_a() {
    let chunk = [b'a'; 1000];
    let mut sha1 = Sha1Context::new();
    for _ in 0..1000 {
        sha1.update(&chunk);
    }
    assert_eq!(hex_encode(&sha1.finalize()), "34aa973cd4c4daa4f61eeb2bdbad27316534016f");
}

#[test]
fn sha_ctx_finish_and_reinit() {
    let mut ctx = SHA_CTX::new();
    ctx.update(b"abc");
    let mut out = [0u8; SHA_DIGEST_LENGTH];
    ctx.finish(&mut out);
    assert_eq!(hex_encode(&out), "a9993e364706816aba3e25717850c26c9cd0d89d");
    ctx.init();
    let mut out2 = [0u8; SHA_DIGEST_LENGTH];
    ctx.finish(&mut out2);
    assert_eq!(hex_encode(&out2), "da39a3ee5e6b4b0d3255bfef95601890afd80709");
}
