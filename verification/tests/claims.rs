use sha2::{Digest, Sha256};
use ton_faucet::challenge::{get_challenge, issue_challenge, ChallengeStore};
use ton_faucet::claim::{
    create_claim, judge_claim, queue_reply, root, ClaimRefusal, CreateClaim, Reply,
};
use ton_faucet::json::Json;
use ton_faucet::pow::{meets_difficulty, verify_pow};

const ADDRESS: &str = "EQBiMfDMivebQb052Z6yR3jHrmwNhw1kQ5bcAUOBYsK_VPuK";

fn text_of<'a>(json: &'a Json, key: &str) -> &'a str {
    json.get_text(key).expect("a text member")
}

fn solve(challenge: &str, difficulty: u32) -> u64 {
    (0..u64::MAX).find(|nonce| verify_pow(challenge, *nonce, difficulty)).unwrap()
}

fn claim(address: &str, challenge: &str, nonce: u64) -> CreateClaim {
    CreateClaim { address: address.to_string(), challenge: challenge.to_string(), nonce }
}

#[test]
fn root_greets() {
    assert_eq!(root(), "TON Faucet is running!");
}

#[test]
fn challenge_is_the_hexadecimal_text_of_its_bytes() {
    let mut store = ChallengeStore::new();
    let mut bytes = [0u8; 32];
    bytes[0] = 0x9f;
    bytes[1] = 0xa0;
    bytes[31] = 0x0b;
    let body = issue_challenge(&mut store, &bytes, 21);
    let expected = "9fa000000000000000000000000000000000000000000000000000000000000b";
    assert_eq!(text_of(&body, "challenge"), expected);
    assert_eq!(body.get_int("difficulty"), Some(21));
    assert!(store.is_live(expected));
    assert!(!store.is_live(&expected[1..]));
}

#[test]
fn random_challenges_differ_and_are_live() {
    let mut store = ChallengeStore::new();
    let first = get_challenge(&mut store, 5);
    let second = get_challenge(&mut store, 5);
    let (first, second) = (text_of(&first, "challenge"), text_of(&second, "challenge"));
    assert_ne!(first, second);
    for challenge in [first, second] {
        assert_eq!(challenge.len(), 64);
        assert!(challenge.chars().all(|c| c.is_ascii_digit() || ('a'..='f').contains(&c)));
        assert!(store.is_live(challenge));
    }
}

#[test]
fn different_bytes_make_different_challenges() {
    let mut store = ChallengeStore::new();
    let mut seen: Vec<String> = Vec::new();
    for byte in 0..=255u8 {
        let mut bytes = [0x5au8; 32];
        bytes[17] = byte;
        let body = issue_challenge(&mut store, &bytes, 1);
        let challenge = text_of(&body, "challenge").to_string();
        assert_eq!(challenge, hex::encode(bytes));
        assert!(!seen.contains(&challenge));
        seen.push(challenge);
    }
}

#[test]
fn difficulty_bounds_the_digest_as_a_number() {
    for first in [0u32, 1, 0xff, 0x100, 0x1234, 0x00ff_ffff, 0x0100_0000, u32::MAX] {
        let mut digest = [0xffu8; 32];
        digest[..4].copy_from_slice(&first.to_be_bytes());
        for difficulty in 1..=32 {
            let bound = 1u64 << (32 - difficulty);
            assert_eq!(meets_difficulty(&digest, difficulty), u64::from(first) < bound);
        }
    }
}

#[test]
fn leading_zero_bits_are_counted_across_bytes() {
    let mut digest = [0u8; 32];
    assert!(meets_difficulty(&digest, 256));
    assert!(!meets_difficulty(&digest, 257));
    digest[2] = 0x10;
    digest[3] = 0xff;
    assert!(meets_difficulty(&digest, 19));
    assert!(!meets_difficulty(&digest, 20));
    digest[0] = 0x80;
    assert!(meets_difficulty(&digest, 0));
    assert!(!meets_difficulty(&digest, 1));
}

#[test]
fn proof_of_work_hashes_the_challenge_and_then_the_nonce() {
    for nonce in [0u64, 1, 255, 256, 0x0102_0304_0506_0708, u64::MAX] {
        let mut hasher = Sha256::new();
        hasher.update("chall\u{e9}nge".as_bytes());
        hasher.update(nonce.to_be_bytes());
        let digest = hasher.finalize();
        let mut zeros = 0;
        for byte in digest.iter() {
            zeros += byte.leading_zeros();
            if *byte != 0 {
                break;
            }
        }
        assert!(verify_pow("chall\u{e9}nge", nonce, zeros));
        assert!(!verify_pow("chall\u{e9}nge", nonce, zeros + 1));
    }
}

#[test]
fn solution_of_a_hard_challenge_solves_easier_ones() {
    let nonce = solve("abc", 10);
    for difficulty in 0..=10 {
        assert!(verify_pow("abc", nonce, difficulty));
    }
    assert!(!verify_pow("abc", nonce, 257));
    assert!(!verify_pow("abc", nonce, u32::MAX));
    let passing: Vec<u32> = (0..=300).filter(|d| verify_pow("abc", nonce, *d)).collect();
    assert!((11..=257).contains(&passing.len()));
    assert_eq!(passing, (0..passing.len() as u32).collect::<Vec<u32>>());
}

#[test]
fn verdict_looks_at_address_then_challenge_then_work() {
    let nonce = solve("abc", 8);
    let bad = (0..).find(|n| !verify_pow("abc", *n, 8)).unwrap();
    let good = claim(ADDRESS, "abc", nonce);
    let lazy = claim(ADDRESS, "abc", bad);
    assert_eq!(judge_claim(&good, true, true, 8), Ok(()));
    assert_eq!(judge_claim(&lazy, true, true, 8), Err(ClaimRefusal::ProofOfWork));
    assert_eq!(judge_claim(&lazy, true, false, 8), Err(ClaimRefusal::Challenge));
    assert_eq!(judge_claim(&lazy, false, false, 8), Err(ClaimRefusal::Address));
    assert_eq!(judge_claim(&good, false, true, 8), Err(ClaimRefusal::Address));
}

#[test]
fn challenge_is_redeemed_once() {
    let mut store = ChallengeStore::new();
    let body = get_challenge(&mut store, 8);
    let challenge = text_of(&body, "challenge");
    let nonce = solve(challenge, 8);
    let good = claim(ADDRESS, challenge, nonce);
    assert_eq!(create_claim(&mut store, &good, 8), Ok(()));
    assert!(!store.is_live(challenge));
    assert_eq!(create_claim(&mut store, &good, 8), Err(ClaimRefusal::Challenge));
}

#[test]
fn redeemed_challenge_stays_refused_whatever_comes_between() {
    let mut store = ChallengeStore::new();
    let body = issue_challenge(&mut store, &[1u8; 32], 0);
    let good = claim(ADDRESS, text_of(&body, "challenge"), 0);
    assert_eq!(create_claim(&mut store, &good, 0), Ok(()));
    for byte in 2..20u8 {
        let other = issue_challenge(&mut store, &[byte; 32], 0);
        let other = claim(ADDRESS, text_of(&other, "challenge"), 0);
        assert_eq!(create_claim(&mut store, &good, 0), Err(ClaimRefusal::Challenge));
        assert_eq!(create_claim(&mut store, &other, 0), Ok(()));
        assert_eq!(create_claim(&mut store, &good, 0), Err(ClaimRefusal::Challenge));
    }
}

#[test]
fn refused_claim_leaves_its_challenge_live() {
    let mut store = ChallengeStore::new();
    let body = get_challenge(&mut store, 8);
    let challenge = text_of(&body, "challenge");
    let nonce = solve(challenge, 8);
    let bad = (0..).find(|n| !verify_pow(challenge, *n, 8)).unwrap();
    let lazy = claim(ADDRESS, challenge, bad);
    assert_eq!(create_claim(&mut store, &lazy, 8), Err(ClaimRefusal::ProofOfWork));
    let lost = claim("nowhere", challenge, nonce);
    assert_eq!(create_claim(&mut store, &lost, 8), Err(ClaimRefusal::Address));
    assert!(store.is_live(challenge));
    assert_eq!(create_claim(&mut store, &claim(ADDRESS, challenge, nonce), 8), Ok(()));
}

#[test]
fn invented_challenge_is_refused() {
    let mut store = ChallengeStore::new();
    let made_up = claim(ADDRESS, "abc", solve("abc", 1));
    assert_eq!(create_claim(&mut store, &made_up, 1), Err(ClaimRefusal::Challenge));
}

#[test]
fn challenge_handed_out_again_is_live_again() {
    let mut store = ChallengeStore::new();
    let bytes = [7u8; 32];
    let body = issue_challenge(&mut store, &bytes, 0);
    let good = claim(ADDRESS, text_of(&body, "challenge"), 0);
    assert_eq!(create_claim(&mut store, &good, 0), Ok(()));
    issue_challenge(&mut store, &bytes, 0);
    assert_eq!(create_claim(&mut store, &good, 0), Ok(()));
}

fn check(reply: &Reply, status: u16, key: &str, text: &str) {
    assert_eq!(reply.status, status);
    match &reply.body {
        Json::Object(entries) => assert_eq!(entries.len(), 1),
        other => panic!("{:?}", other),
    }
    assert_eq!(text_of(&reply.body, key), text);
}

#[test]
fn replies_say_what_was_decided() {
    check(&ClaimRefusal::Address.reply(), 400, "error", "Invalid TON address");
    check(&ClaimRefusal::Challenge.reply(), 400, "error", "Invalid or expired challenge");
    check(&ClaimRefusal::ProofOfWork.reply(), 400, "error", "Invalid PoW solution");
    let queued = "Your claim has been queued. It will be processed soon.";
    check(&queue_reply(true).unwrap(), 200, "message", queued);
    check(&queue_reply(false).unwrap_err(), 500, "error", "Failed to queue claim");
}
