use minipow::difficulty::{target_to_threshold, Difficulty, DifficultyPolicy};
use minipow::pow::{MiniPow, DEV_DIFFICULTY};
use minipow::seal::Nonce;
use minipow::work::checksum;

fn nonce_of(seal: &Vec<u8>) -> u64 {
    Nonce::from_seal(seal).expect("well-formed seal").0
}

#[test]
fn checksum_sums_pre_hash_then_nonce_bytes() {
    assert_eq!(checksum(&[1, 2, 3], 0x0102), 9);
    assert_eq!(checksum(&[], 0), 0);
    assert_eq!(checksum(&[], u64::MAX), 8 * 255);
    assert_eq!(checksum(&[200, 100], 0x0100_0000_0000_00ff), 300 + 255 + 1);
}

#[test]
fn checksum_is_deterministic() {
    let h = [7u8; 32];
    let a = checksum(&h, 123_456_789);
    let b = checksum(&h, 123_456_789);
    assert_eq!(a, b);
    assert_eq!(a, 7 * 32 + 0x15 + 0xcd + 0x5b + 0x07);
}

#[test]
fn seal_is_little_endian() {
    assert_eq!(Nonce(0x0102_0304_0506_0708).to_seal(), vec![8, 7, 6, 5, 4, 3, 2, 1]);
    assert_eq!(Nonce(0).to_seal(), vec![0u8; 8]);
}

#[test]
fn seal_round_trip() {
    for n in [0u64, 1, 255, 256, 0x0102_0304_0506_0708, u64::MAX - 1, u64::MAX] {
        assert_eq!(nonce_of(&Nonce(n).to_seal()), n);
    }
}

#[test]
fn malformed_seals_are_rejected() {
    let pow = MiniPow;
    let h = [0u8; 32];
    let easy = Difficulty::from_words([u64::MAX, u64::MAX, u64::MAX, u64::MAX]);
    let seals: Vec<Vec<u8>> = vec![
        vec![],
        vec![0],
        vec![0; 7],
        vec![0; 9],
        vec![0x5a, 0x13, 0xee, 0x01, 0x99],
        vec![0xff; 33],
        (0..100u8).collect(),
    ];
    for s in &seals {
        assert!(Nonce::from_seal(s).is_none());
        assert!(!pow.verify(&h, s, &easy));
    }
}

#[test]
fn threshold_clamps() {
    assert_eq!(target_to_threshold(&Difficulty::from_u64(0)), 0);
    assert_eq!(target_to_threshold(&Difficulty::from_u64(5)), 5);
    assert_eq!(target_to_threshold(&Difficulty::from_u64(u64::MAX)), u64::MAX);
    assert_eq!(target_to_threshold(&Difficulty::from_words([0, 1, 0, 0])), u64::MAX);
    assert_eq!(target_to_threshold(&Difficulty::from_words([0, 0, 1, 0])), u64::MAX);
    assert_eq!(target_to_threshold(&Difficulty::from_words([7, 0, 0, 1])), u64::MAX);
    assert_eq!(target_to_threshold(&Difficulty::from_words([9, 0, 0, 0])), 9);
}

#[test]
fn dev_difficulty_is_fixed() {
    let pow = MiniPow;
    assert_eq!(DEV_DIFFICULTY, 18_014_398_509_481_983);
    assert_eq!(pow.difficulty().0, [18_014_398_509_481_983, 0, 0, 0]);
    assert_eq!(pow.current_difficulty().0, [DEV_DIFFICULTY, 0, 0, 0]);
}

#[test]
fn work_equal_to_threshold_is_rejected() {
    let pow = MiniPow;
    let seal = Nonce(5).to_seal();
    assert!(!pow.verify(&[], &seal, &Difficulty::from_u64(5)));
    assert!(pow.verify(&[], &seal, &Difficulty::from_u64(6)));
}

#[test]
fn mined_seal_verifies() {
    let pow = MiniPow;
    let d = pow.difficulty();
    for h in [[0u8; 32], [0xab; 32], [0xff; 32]] {
        let seal = pow.mine(&h, &d, 0).expect("found in the first window");
        assert!(pow.verify(&h, &seal, &d));
    }
    let tight = Difficulty::from_u64(40);
    let h = [1u8; 32];
    let seal = pow.mine(&h, &tight, 3).expect("found in round three");
    assert!(pow.verify(&h, &seal, &tight));
}

#[test]
fn rounds_scan_disjoint_windows() {
    let pow = MiniPow;
    let d = Difficulty::from_u64(u64::MAX);
    let h = [0u8; 32];
    for round in [0u32, 1, 2, 1000, u32::MAX] {
        let n = nonce_of(&pow.mine(&h, &d, round).unwrap());
        let start = (round as u64) << 32;
        assert!(n >= start && n < start + (1 << 20));
        assert_eq!(n, start);
    }
    // With a target of 2, only nonces whose bytes sum to at most one pass:
    // round one finds the first nonce of its window, 2^32.
    let hard = Difficulty::from_u64(2);
    assert_eq!(nonce_of(&pow.mine(&h, &hard, 1).unwrap()), 1u64 << 32);
    assert_eq!(nonce_of(&pow.mine(&h, &hard, 0).unwrap()), 0);
}

#[test]
fn mine_returns_first_passing_nonce() {
    let pow = MiniPow;
    // Over the pre-hash [3] the work of a nonce is 3 plus its byte sum, so
    // nonce 0 passes any target above 3 and no nonce passes a target of 3.
    let h = [3u8; 1];
    let d = Difficulty::from_u64(5);
    assert_eq!(nonce_of(&pow.mine(&h, &d, 0).unwrap()), 0);
    let d = Difficulty::from_u64(4);
    assert_eq!(nonce_of(&pow.mine(&h, &d, 0).unwrap()), 0);
    let d = Difficulty::from_u64(3);
    assert!(pow.mine(&h, &d, 0).is_none());
}

#[test]
fn scenario_zero_pre_hash() {
    let pow = MiniPow;
    let h = [0u8; 32];
    let d = Difficulty::from_u64(1_000_000_000);
    assert_eq!(target_to_threshold(&d), 1_000_000_000);
    let mut first: Option<u64> = None;
    let mut n: u64 = 0;
    while n < (1 << 20) {
        if checksum(&h, n) < 1_000_000_000 {
            first = Some(n);
            break;
        }
        n += 1;
    }
    match first {
        Some(n) => assert_eq!(pow.mine(&h, &d, 0), Some(Nonce(n).to_seal())),
        None => assert!(pow.mine(&h, &d, 0).is_none()),
    }
    assert_eq!(pow.mine(&h, &d, 0), Some(vec![0u8; 8]));
}

#[test]
fn scenario_zero_difficulty() {
    let pow = MiniPow;
    let d = Difficulty::from_u64(0);
    assert_eq!(target_to_threshold(&d), 0);
    let h = [0u8; 32];
    for n in [0u64, 1, 0xffff, u64::MAX] {
        assert!(!pow.verify(&h, &Nonce(n).to_seal(), &d));
    }
    assert!(!pow.verify(&[], &Nonce(0).to_seal(), &d));
    assert!(pow.mine(&h, &d, 0).is_none());
}

#[test]
fn scenario_max_difficulty() {
    let pow = MiniPow;
    let d = Difficulty::from_u64(u64::MAX);
    for h in [vec![0u8; 32], vec![0xff; 32], vec![], vec![0x80; 1000]] {
        let seal = pow.mine(&h, &d, 0).expect("found in the first window");
        assert!(pow.verify(&h, &seal, &d));
        assert_eq!(nonce_of(&seal), 0);
    }
}

#[test]
fn exhausted_window_yields_none() {
    let pow = MiniPow;
    let h = [0xffu8; 32];
    // Every nonce adds a non-negative byte sum to 8160.
    let d = Difficulty::from_u64(8160);
    assert!(pow.mine(&h, &d, 0).is_none());
    assert!(pow.mine(&h, &d, 7).is_none());
    let d = Difficulty::from_u64(8161);
    assert_eq!(pow.mine(&h, &d, 0), Some(Nonce(0).to_seal()));
    // The first nonce of round 7 carries a byte 7, so its work is 8167.
    assert!(pow.mine(&h, &d, 7).is_none());
    let d = Difficulty::from_u64(8168);
    assert_eq!(pow.mine(&h, &d, 7), Some(Nonce(7u64 << 32).to_seal()));
}
