use timegrapherq::synth::SplitMix64;

#[test]
fn splitmix_known_outputs() {
    // Reference values of SplitMix64 seeded with 0.
    let mut rng = SplitMix64::new(0);
    assert_eq!(rng.next_u64(), 0xE220_A839_7B1D_CDAF);
    assert_eq!(rng.next_u64(), 0x6E78_9E6A_A1B9_65F4);
    assert_eq!(rng.next_u64(), 0x06C4_5D18_8009_454F);
}

#[test]
fn noise_stream_is_deterministic_for_a_seed() {
    let mut a = SplitMix64::new(42);
    let mut b = SplitMix64::new(42);
    for _ in 0..1000 {
        assert_eq!(a.next_u64(), b.next_u64());
    }
}

#[test]
fn different_seeds_start_different_streams() {
    for s in 0..200u64 {
        let first = SplitMix64::new(s).next_u64();
        let other = SplitMix64::new(s + 1).next_u64();
        assert_ne!(first, other);
    }
    assert_ne!(SplitMix64::new(42).next_u64(), SplitMix64::new(43).next_u64());
}

#[test]
fn stream_does_not_repeat_within_a_run() {
    let mut rng = SplitMix64::new(7);
    let mut seen = std::collections::HashSet::new();
    for _ in 0..100_000 {
        assert!(seen.insert(rng.next_u64()));
    }
}
