use target_shooter::random::{Cmwc, MTRng32, Rng};

#[test]
fn mt_matches_reference_stream_for_default_seed() {
    let mut rng = MTRng32::new(5489);
    assert_eq!(rng.rand(), 3499211612);
    assert_eq!(rng.rand(), 581869302);
    assert_eq!(rng.rand(), 3890346734);
    assert_eq!(rng.rand(), 3586334585);
    assert_eq!(rng.rand(), 545404204);
}

#[test]
fn mt_same_seed_same_stream() {
    let mut a = MTRng32::new(0xdead_beef);
    let mut b = MTRng32::new(0xdead_beef);
    let xs = a.draws(2000);
    let ys = b.draws(2000);
    assert_eq!(xs.len(), 2000);
    assert_eq!(xs, ys);
}

#[test]
fn mt_draws_equal_single_draws() {
    let mut a = MTRng32::new(42);
    let mut b = MTRng32::new(42);
    let xs = a.draws(700);
    for x in xs {
        assert_eq!(x, b.rand());
    }
}

#[test]
fn mt_different_seeds_differ() {
    let mut a = MTRng32::new(1);
    let mut b = MTRng32::new(2);
    assert_ne!(a.draws(10), b.draws(10));
}

#[test]
fn cmwc_same_seed_same_stream() {
    let mut a = Cmwc::new(7);
    let mut b = Cmwc::new(7);
    let xs = a.draws(1500);
    let ys = b.draws(1500);
    assert_eq!(xs, ys);
}

#[test]
fn cmwc_different_seeds_differ() {
    let mut a = Cmwc::new(7);
    let mut b = Cmwc::new(8);
    assert_ne!(a.draws(10), b.draws(10));
}

#[test]
fn cmwc_first_word_follows_recurrence() {
    // With the lag table seeded by the recurrence, the first draw uses word 0
    // (the seed itself) and the initial carry.
    let seed: u32 = 0;
    let mut words: Vec<u32> = vec![seed];
    for i in 1..=512u32 {
        let p = *words.last().unwrap();
        words.push(1812433253u32.wrapping_mul(p ^ (p >> 30)).wrapping_add(i));
    }
    let carry = (words[512] % 809430660) as u64;
    let t = 18782u64 * words[0] as u64 + carry;
    let mut c = t >> 32;
    let mut x = (t + c) & 0xffff_ffff;
    if x < c {
        x += 1;
        c += 1;
    }
    let _ = c;
    let expected = 0xffff_fffeu32.wrapping_sub(x as u32);
    let mut rng = Cmwc::new(seed);
    assert_eq!(rng.rand(), expected);
}

fn first_words<R: Rng>(rng: &mut R, n: usize) -> Vec<u32> {
    (0..n).map(|_| rng.rand()).collect()
}

#[test]
fn trait_draws_match_inherent_draws() {
    let mut a = MTRng32::new(99);
    let mut b = MTRng32::new(99);
    assert_eq!(first_words(&mut a, 50), b.draws(50));
    let mut c = Cmwc::new(99);
    let mut d = Cmwc::new(99);
    assert_eq!(first_words(&mut c, 50), d.draws(50));
}
