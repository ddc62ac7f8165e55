use hashcore::keccak::keccak_permutation;

#[test]
fn keccak_f_zero_state_vector() {
    // Leading lanes of Keccak-f[1600] applied to the all-zero state, from
    // the published intermediate-value listings.
    let mut s = vec![0u64; 25];
    keccak_permutation(&mut s);
    assert_eq!(s[0], 0xf1258f7940e1dde7);
    assert_eq!(s[1], 0x84d5ccf933c0478a);
    assert_eq!(s[2], 0xd598261ea65aa9ee);
    assert_eq!(s[3], 0xbd1547306f80494d);
    assert_eq!(s[4], 0x8b284e056253d057);
}

#[test]
fn keccak_f_deterministic_double_application() {
    // Two independently constructed states evolve identically under two
    // applications of the permutation.
    let mut a = vec![0u64; 25];
    let mut b = vec![0u64; 25];
    keccak_permutation(&mut a);
    keccak_permutation(&mut a);
    keccak_permutation(&mut b);
    keccak_permutation(&mut b);
    assert_eq!(a, b);
    // And one application has visibly changed the state.
    let mut once = vec![0u64; 25];
    keccak_permutation(&mut once);
    assert_ne!(a, once);
}
