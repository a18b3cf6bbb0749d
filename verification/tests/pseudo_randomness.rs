use grainlify::address::EncodedAddress;
use grainlify::pseudo_randomness::{build_seed_hash, compare_hashes, derive_selection, ByteOrder};
use soroban_sdk::testutils::Address as _;
use soroban_sdk::xdr::ToXdr;
use soroban_sdk::{Address, Bytes, BytesN, Env, Symbol};

fn digest(env: &Env, data: &[u8]) -> [u8; 32] {
    env.crypto().sha256(&Bytes::from_slice(env, data)).to_array()
}

fn xdr_bytes(b: Bytes) -> Vec<u8> {
    b.iter().collect()
}

/// Seed hash computed directly with the SDK's own types.
fn sdk_seed_hash(env: &Env, domain: &str, context: &[u8], seed: &[u8; 32]) -> [u8; 32] {
    let mut material = Bytes::new(env);
    material.append(&Symbol::new(env, domain).to_xdr(env));
    material.append(&Bytes::from_slice(env, context));
    material.append(&BytesN::from_array(env, seed).to_xdr(env));
    env.crypto().sha256(&material).to_array()
}

/// Winner computed directly with the SDK: highest score, earliest on ties.
fn sdk_winner(env: &Env, seed_hash: &[u8; 32], candidates: &[Address]) -> (u32, [u8; 32]) {
    let mut best: Option<(u32, [u8; 32], Vec<u8>)> = None;
    for (i, c) in candidates.iter().enumerate() {
        let mut material = Bytes::new(env);
        material.append(&BytesN::from_array(env, seed_hash).to_xdr(env));
        material.append(&c.clone().to_xdr(env));
        let score = env.crypto().sha256(&material).to_array();
        let key = xdr_bytes(BytesN::from_array(env, &score).to_xdr(env));
        let better = match &best {
            None => true,
            Some((_, _, k)) => key > *k,
        };
        if better {
            best = Some((i as u32, score, key));
        }
    }
    let (i, s, _) = best.unwrap();
    (i, s)
}

fn encoded(env: &Env, addrs: &[Address]) -> Vec<EncodedAddress> {
    addrs.iter().map(|a| EncodedAddress::from_soroban(env, a)).collect()
}

#[test]
fn empty_candidates_give_none() {
    let env = Env::default();
    let r = derive_selection(&env, "lottery", b"round_42", &[1u8; 32], &Vec::new());
    assert!(r.is_none());
}

#[test]
fn single_candidate_wins() {
    let env = Env::default();
    let a = Address::generate(&env);
    let r = derive_selection(&env, "lottery", b"round_42", &[1u8; 32], &encoded(&env, &[a]))
        .unwrap();
    assert_eq!(r.index, 0);
}

#[test]
fn seed_hash_matches_sdk_encodings() {
    let env = Env::default();
    for (domain, context) in [
        ("lottery", &b"round_42"[..]),
        ("", &b""[..]),
        ("abc_DEF_123", &b"x"[..]),
        ("abcdefgh", &b"eight"[..]),
        ("abcdefghijklmnopqrstuvwxyz_01234", &b"thirty-two"[..]),
    ] {
        let seed = [7u8; 32];
        let ours = build_seed_hash(&env, domain, context, &seed);
        assert_eq!(ours, sdk_seed_hash(&env, domain, context, &seed));
    }
}

#[test]
fn seed_hash_matches_stated_xdr_layout() {
    // SCV_SYMBOL tag, length, characters, padding; then context; then
    // SCV_BYTES tag, length 32, the seed.
    let env = Env::default();
    let seed = [0xabu8; 32];
    let mut material = vec![0, 0, 0, 15, 0, 0, 0, 7];
    material.extend_from_slice(b"lottery");
    material.push(0);
    material.extend_from_slice(b"ctx");
    material.extend_from_slice(&[0, 0, 0, 13, 0, 0, 0, 32]);
    material.extend_from_slice(&seed);
    assert_eq!(build_seed_hash(&env, "lottery", b"ctx", &seed), digest(&env, &material));
}

#[test]
fn selection_matches_sdk_computation() {
    let env = Env::default();
    let addrs: Vec<Address> = (0..12).map(|_| Address::generate(&env)).collect();
    for round in 0u8..5 {
        let seed = [round; 32];
        let ctx = [b'r', round];
        let r = derive_selection(&env, "raffle", &ctx, &seed, &encoded(&env, &addrs)).unwrap();
        let sh = sdk_seed_hash(&env, "raffle", &ctx, &seed);
        assert_eq!(r.seed_hash, sh);
        let (i, s) = sdk_winner(&env, &sh, &addrs);
        assert_eq!(r.index, i);
        assert_eq!(r.winner_score, s);
    }
}

#[test]
fn selection_is_deterministic() {
    let env = Env::default();
    let addrs: Vec<Address> = (0..6).map(|_| Address::generate(&env)).collect();
    let c = encoded(&env, &addrs);
    let r1 = derive_selection(&env, "lottery", b"round_42", &[1u8; 32], &c).unwrap();
    let r2 = derive_selection(&env, "lottery", b"round_42", &[1u8; 32], &c).unwrap();
    assert_eq!(r1, r2);
}

#[test]
fn selection_ignores_candidate_order() {
    let env = Env::default();
    let addrs: Vec<Address> = (0..8).map(|_| Address::generate(&env)).collect();
    let mut reversed = addrs.clone();
    reversed.reverse();
    let fwd = derive_selection(&env, "order", b"", &[3u8; 32], &encoded(&env, &addrs)).unwrap();
    let bwd = derive_selection(&env, "order", b"", &[3u8; 32], &encoded(&env, &reversed)).unwrap();
    assert_eq!(addrs[fwd.index as usize], reversed[bwd.index as usize]);
    assert_eq!(fwd.winner_score, bwd.winner_score);
}

#[test]
fn earliest_duplicate_wins_ties() {
    let env = Env::default();
    let a = Address::generate(&env);
    let b = Address::generate(&env);
    let list = [a.clone(), b.clone(), a.clone(), b.clone()];
    let r = derive_selection(&env, "tie", b"", &[9u8; 32], &encoded(&env, &list)).unwrap();
    assert!(r.index < 2);
}

#[test]
fn different_domains_give_different_seed_hashes() {
    let env = Env::default();
    let h1 = build_seed_hash(&env, "alpha", b"same", &[0u8; 32]);
    let h2 = build_seed_hash(&env, "beta", b"same", &[0u8; 32]);
    assert_ne!(h1, h2);
}

#[test]
fn compare_hashes_is_bytewise() {
    let env = Env::default();
    let mut a = [5u8; 32];
    let b = [5u8; 32];
    assert_eq!(compare_hashes(&env, &a, &b), ByteOrder::Equal);
    a[31] = 6;
    assert_eq!(compare_hashes(&env, &a, &b), ByteOrder::Greater);
    assert_eq!(compare_hashes(&env, &b, &a), ByteOrder::Less);
    let mut c = [0u8; 32];
    c[0] = 1;
    let mut d = [0xffu8; 32];
    d[0] = 0;
    assert_eq!(compare_hashes(&env, &c, &d), ByteOrder::Greater);
}

#[test]
fn appended_candidate_keeps_winner_or_wins() {
    let env = Env::default();
    let mut addrs: Vec<Address> = (0..5).map(|_| Address::generate(&env)).collect();
    for _ in 0..6 {
        let before = derive_selection(&env, "grow", b"c", &[4u8; 32], &encoded(&env, &addrs)).unwrap();
        let old_winner = addrs[before.index as usize].clone();
        let newcomer = Address::generate(&env);
        addrs.push(newcomer.clone());
        let after = derive_selection(&env, "grow", b"c", &[4u8; 32], &encoded(&env, &addrs)).unwrap();
        let w = addrs[after.index as usize].clone();
        assert!(w == old_winner || w == newcomer);
    }
}
