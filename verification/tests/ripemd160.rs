use hashcore::ripemd::Ripemd160;

fn hex(bytes: &[u8]) -> String {
    let mut s = String::new();
    for b in bytes {
        s.push_str(&format!("{:02x}", b));
    }
    s
}

fn rmd160_hex(msg: &[u8]) -> String {
    let mut h = Ripemd160::new();
    h.process(msg);
    hex(&h.fixed_result())
}

#[test]
fn rmd160_empty_vector() {
    assert_eq!(rmd160_hex(b""), "9c1185a5c5e9fc54612808977ee8f548b2258d31");
}

#[test]
fn rmd160_abc_vector() {
    assert_eq!(rmd160_hex(b"abc"), "8eb208f7e05d987a9b044a8e98c6b087f15a0bfc");
}

#[test]
fn rmd160_a_vector() {
    assert_eq!(rmd160_hex(b"a"), "0bdc9d2d256b3ee9daae347be6f4dc835a467ffe");
}

#[test]
fn rmd160_message_digest_vector() {
    assert_eq!(
        rmd160_hex(b"message digest"),
        "5d0689ef49d2fae572b881b123a85ffa21595f36"
    );
}

#[test]
fn rmd160_alphabet_vector() {
    assert_eq!(
        rmd160_hex(b"abcdefghijklmnopqrstuvwxyz"),
        "f71c27109c692c1b56bbdceb5b9d2865b3708dbc"
    );
}

#[test]
fn rmd160_million_a_vector() {
    let msg = vec![b'a'; 1_000_000];
    let mut h = Ripemd160::new();
    h.process(&msg);
    assert_eq!(
        hex(&h.fixed_result()),
        "52783243c1697bdbe16d37f97f68f08325dc1528"
    );
}

#[test]
fn rmd160_streaming_invariance() {
    // One update versus several partitions of the same 200-byte message.
    let msg: Vec<u8> = (0..200u16).map(|i| (i % 251) as u8).collect();
    let mut one = Ripemd160::new();
    one.process(&msg);
    let expected = one.fixed_result();
    for split in [1usize, 63, 64, 65, 100, 199] {
        let mut h = Ripemd160::new();
        h.process(&msg[..split]);
        h.process(&msg[split..]);
        assert_eq!(h.fixed_result(), expected, "split at {}", split);
    }
    let mut bytewise = Ripemd160::new();
    for b in &msg {
        bytewise.process(&[*b]);
    }
    assert_eq!(bytewise.fixed_result(), expected);
}

#[test]
fn rmd160_empty_updates_are_noops() {
    let mut h = Ripemd160::new();
    h.process(b"");
    h.process(b"abc");
    h.process(b"");
    assert_eq!(hex(&h.fixed_result()), "8eb208f7e05d987a9b044a8e98c6b087f15a0bfc");
}

#[test]
fn rmd160_finalize_resets() {
    let mut h = Ripemd160::new();
    h.process(b"some first message");
    let _ = h.fixed_result();
    h.process(b"abc");
    assert_eq!(hex(&h.fixed_result()), "8eb208f7e05d987a9b044a8e98c6b087f15a0bfc");
}

#[test]
fn rmd160_default_is_fresh() {
    let mut h = Ripemd160::default();
    h.process(b"abc");
    assert_eq!(hex(&h.fixed_result()), "8eb208f7e05d987a9b044a8e98c6b087f15a0bfc");
}
