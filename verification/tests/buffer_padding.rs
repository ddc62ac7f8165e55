use hashcore::buffer::BlockBuffer;

/// Feeds `msg` into a buffer of capacity `cap` the way a hasher does,
/// counting how many full blocks come out; returns (blocks, leftover).
fn feed(buf: &mut BlockBuffer, msg: &[u8], cap: usize) -> usize {
    let mut blocks = 0usize;
    let mut i = 0usize;
    while i < msg.len() {
        let n = buf.fill(msg, i);
        i += n;
        if buf.is_full() {
            let b = buf.take_full();
            assert_eq!(b.len(), cap);
            blocks += 1;
        }
    }
    blocks
}

#[test]
fn md_padding_always_completes_blocks() {
    // Boundary sweep over every message length in 0 ..= 3 * blocksize.
    for len in 0..=192usize {
        let msg = vec![0xabu8; len];
        let mut buf = BlockBuffer::new(64);
        let blocks = feed(&mut buf, &msg, 64);
        let (b1, b2) = buf.md_pad((len as u64) * 8);
        let mut emitted = blocks * 64 + b1.len();
        assert_eq!(b1.len(), 64);
        if let Some(b2) = b2 {
            assert_eq!(b2.len(), 64);
            emitted += b2.len();
        }
        assert_eq!(emitted % 64, 0, "length {}", len);
        assert!(emitted >= len + 9, "length {}", len);
        assert_eq!(buf.len(), 0);
    }
}

#[test]
fn md_padding_content() {
    // 3 message bytes: 0x80 marker, zeros, then the bit length little-endian.
    let mut buf = BlockBuffer::new(64);
    let msg = [1u8, 2, 3];
    let n = buf.fill(&msg, 0);
    assert_eq!(n, 3);
    let (b1, b2) = buf.md_pad(24);
    assert!(b2.is_none());
    assert_eq!(&b1[..3], &msg[..]);
    assert_eq!(b1[3], 0x80);
    assert!(b1[4..56].iter().all(|&b| b == 0));
    assert_eq!(b1[56], 24);
    assert!(b1[57..].iter().all(|&b| b == 0));
}

#[test]
fn md_padding_two_blocks_near_boundary() {
    // 56 buffered bytes leave no room for the length field: two blocks.
    let mut buf = BlockBuffer::new(64);
    let msg = vec![7u8; 56];
    buf.fill(&msg, 0);
    let (b1, b2) = buf.md_pad(56 * 8);
    let b2 = b2.expect("a second block is needed");
    assert_eq!(b1.len(), 64);
    assert_eq!(b2.len(), 64);
    assert_eq!(&b1[..56], &msg[..]);
    assert_eq!(b1[56], 0x80);
    assert!(b1[57..].iter().all(|&b| b == 0));
    assert!(b2[..56].iter().all(|&b| b == 0));
    assert_eq!(b2[56], (56 * 8) as u8);
}

#[test]
fn sponge_padding_always_completes_blocks() {
    // Boundary sweep over every message length in 0 ..= 3 * blocksize, for
    // each rate the SHA-3 and SHAKE variants use.
    for cap in [72usize, 104, 136, 144, 168] {
        for len in 0..=(3 * cap) {
            let msg = vec![0x5cu8; len];
            let mut buf = BlockBuffer::new(cap);
            let blocks = feed(&mut buf, &msg, cap);
            let last = buf.sponge_pad(0x06);
            assert_eq!(last.len(), cap);
            let emitted = blocks * cap + last.len();
            assert_eq!(emitted % cap, 0, "cap {} length {}", cap, len);
            assert!(emitted >= len + 1);
            assert_eq!(buf.len(), 0);
        }
    }
}

#[test]
fn sponge_padding_content() {
    let mut buf = BlockBuffer::new(8);
    let msg = [9u8, 9, 9];
    buf.fill(&msg, 0);
    let b = buf.sponge_pad(0x1f);
    assert_eq!(b, vec![9, 9, 9, 0x1f, 0, 0, 0, 0x80]);
}

#[test]
fn sponge_padding_one_byte_short() {
    // The suffix and the final bit share the single remaining byte.
    let mut buf = BlockBuffer::new(8);
    let msg = [1u8, 2, 3, 4, 5, 6, 7];
    buf.fill(&msg, 0);
    let b = buf.sponge_pad(0x1f);
    assert_eq!(b, vec![1, 2, 3, 4, 5, 6, 7, 0x9f]);
}
