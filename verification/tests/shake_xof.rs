use hashcore::sha3::Shake;

fn hex(bytes: &[u8]) -> String {
    let mut s = String::new();
    for b in bytes {
        s.push_str(&format!("{:02x}", b));
    }
    s
}

#[test]
fn shake128_empty_vector() {
    let mut h = Shake::new_128();
    h.process(b"");
    let mut r = h.xof_result();
    assert_eq!(
        hex(&r.read(32)),
        "7f9c2ba4e88f827d616045507605853ed73b8093f6efbc88eb1a6eacfa66ef26"
    );
}

#[test]
fn shake256_empty_vector() {
    let mut h = Shake::new_256();
    let mut r = h.xof_result();
    assert_eq!(
        hex(&r.read(32)),
        "46b9dd2b0ba88d13233b3feb743eeb243fcd52ea62b81b82b50c27646ed5762f"
    );
}

#[test]
fn shake128_squeeze_continuity() {
    // Reading n then m further bytes equals one n + m read, across several
    // split points including whole multiples of the 168-byte rate.
    let mut h = Shake::new_128();
    h.process(b"squeeze continuity");
    let mut whole = h.xof_result();
    let reference = whole.read(600);
    for split in [0usize, 1, 167, 168, 169, 300, 599, 600] {
        let mut h2 = Shake::new_128();
        h2.process(b"squeeze continuity");
        let mut r = h2.xof_result();
        let first = r.read(split);
        let second = r.read(600 - split);
        assert_eq!(&reference[..split], &first[..], "first part, split {}", split);
        assert_eq!(&reference[split..], &second[..], "second part, split {}", split);
    }
}

#[test]
fn shake256_byte_at_a_time() {
    let mut h = Shake::new_256();
    h.process(b"one byte at a time");
    let mut whole = h.xof_result();
    let reference = whole.read(200);
    let mut h2 = Shake::new_256();
    h2.process(b"one byte at a time");
    let mut r = h2.xof_result();
    let mut collected = Vec::new();
    for _ in 0..200 {
        collected.extend_from_slice(&r.read(1));
    }
    assert_eq!(collected, reference);
}

#[test]
fn shake_read_zero_is_noop() {
    let mut h = Shake::new_128();
    h.process(b"abc");
    let mut r = h.xof_result();
    let a = r.read(10);
    assert_eq!(r.read(0).len(), 0);
    let b = r.read(10);
    let mut h2 = Shake::new_128();
    h2.process(b"abc");
    let mut r2 = h2.xof_result();
    let ab = r2.read(20);
    assert_eq!(&ab[..10], &a[..]);
    assert_eq!(&ab[10..], &b[..]);
}

#[test]
fn shake_finalize_resets() {
    let mut h = Shake::new_128();
    h.process(b"thrown away");
    let _ = h.xof_result();
    h.process(b"");
    let mut r = h.xof_result();
    assert_eq!(
        hex(&r.read(32)),
        "7f9c2ba4e88f827d616045507605853ed73b8093f6efbc88eb1a6eacfa66ef26"
    );
}

#[test]
fn shake_streaming_invariance() {
    let msg: Vec<u8> = (0..400u16).map(|i| (i % 13) as u8).collect();
    let mut one = Shake::new_256();
    one.process(&msg);
    let expected = one.xof_result().read(64);
    for split in [1usize, 135, 136, 137, 399] {
        let mut h = Shake::new_256();
        h.process(&msg[..split]);
        h.process(&msg[split..]);
        assert_eq!(h.xof_result().read(64), expected, "split at {}", split);
    }
}
