use hashcore::sha3::Sha3;

fn hex(bytes: &[u8]) -> String {
    let mut s = String::new();
    for b in bytes {
        s.push_str(&format!("{:02x}", b));
    }
    s
}

fn digest_hex(mut h: Sha3, msg: &[u8]) -> String {
    h.process(msg);
    hex(&h.fixed_result())
}

#[test]
fn sha3_224_empty_vector() {
    assert_eq!(
        digest_hex(Sha3::new_224(), b""),
        "6b4e03423667dbb73b6e15454f0eb1abd4597f9a1b078e3f5b5a6bc7"
    );
}

#[test]
fn sha3_256_empty_vector() {
    assert_eq!(
        digest_hex(Sha3::new_256(), b""),
        "a7ffc6f8bf1ed76651c14756a061d662f580ff4de43b49fa82d80a4b80f8434a"
    );
}

#[test]
fn sha3_384_empty_vector() {
    assert_eq!(
        digest_hex(Sha3::new_384(), b""),
        "0c63a75b845e4f7d01107d852e4c2485c51a50aaaa94fc61995e71bbee983a2ac3713831264adb47fb6bd1e058d5f004"
    );
}

#[test]
fn sha3_512_empty_vector() {
    assert_eq!(
        digest_hex(Sha3::new_512(), b""),
        "a69f73cca23a9ac5c8b567dc185a756e97c982164fe25859e0d1dcc1475c80a615b2123af1f5f94c11e3e9402c3ac558f500199d95b6d3e301758586281dcd26"
    );
}

#[test]
fn sha3_224_abc_vector() {
    assert_eq!(
        digest_hex(Sha3::new_224(), b"abc"),
        "e642824c3f8cf24ad09234ee7d3c766fc9a3a5168d0c94ad73b46fdf"
    );
}

#[test]
fn sha3_256_abc_vector() {
    assert_eq!(
        digest_hex(Sha3::new_256(), b"abc"),
        "3a985da74fe225b2045c172d6bd390bd855f086e3e9d525b46bfe24511431532"
    );
}

#[test]
fn sha3_384_abc_vector() {
    assert_eq!(
        digest_hex(Sha3::new_384(), b"abc"),
        "ec01498288516fc926459f58e2c6ad8df9b473cb0fc08c2596da7cf0e49be4b298d88cea927ac7f539f1edf228376d25"
    );
}

#[test]
fn sha3_512_abc_vector() {
    assert_eq!(
        digest_hex(Sha3::new_512(), b"abc"),
        "b751850b1a57168a5693cd924b6b096e08f621827444f70d884f5d0240d2712e10e116e9192af3c91a7ec57647e3934057340b4cf408d5a56592f8274eec53f0"
    );
}

#[test]
fn sha3_256_streaming_invariance() {
    // One update versus several partitions, crossing the 136-byte rate.
    let msg: Vec<u8> = (0..300u16).map(|i| (i % 241) as u8).collect();
    let mut one = Sha3::new_256();
    one.process(&msg);
    let expected = one.fixed_result();
    for split in [1usize, 135, 136, 137, 250] {
        let mut h = Sha3::new_256();
        h.process(&msg[..split]);
        h.process(&msg[split..]);
        assert_eq!(h.fixed_result(), expected, "split at {}", split);
    }
}

#[test]
fn sha3_256_empty_updates_are_noops() {
    let mut h = Sha3::new_256();
    h.process(b"");
    h.process(b"abc");
    h.process(b"");
    assert_eq!(
        hex(&h.fixed_result()),
        "3a985da74fe225b2045c172d6bd390bd855f086e3e9d525b46bfe24511431532"
    );
}

#[test]
fn sha3_256_finalize_resets() {
    let mut h = Sha3::new_256();
    h.process(b"a first message that gets thrown away");
    let _ = h.fixed_result();
    h.process(b"abc");
    assert_eq!(
        hex(&h.fixed_result()),
        "3a985da74fe225b2045c172d6bd390bd855f086e3e9d525b46bfe24511431532"
    );
}
