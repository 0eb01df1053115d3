//! Tests of the commitment function, the reveal circuit and the encodings.

use sha2::Digest;
use zk_memory::circuit::{card_reveal_circuit, journal_to_public_inputs, prepare_proof_request,
    ProofRequestError};
use zk_memory::encoding::{digest_hex, field_element};
use zk_memory::hashing::commit;

fn sha256_direct(parts: &[&[u8]]) -> [u8; 32] {
    let mut hasher = sha2::Sha256::new();
    for part in parts {
        hasher.update(part);
    }
    hasher.finalize().into()
}

#[test]
fn commit_is_deterministic() {
    let deck = vec![0u8, 1, 0, 1];
    let salt = b"s".to_vec();
    let first = commit(&deck, &salt);
    let second = commit(&deck, &salt);
    assert_eq!(first, second);
}

#[test]
fn commit_matches_direct_sha256_of_concatenation() {
    let deck = vec![0u8, 1, 0, 1];
    let salt = b"random-salt-12345".to_vec();
    let expected = sha256_direct(&[&deck, &salt]);
    assert_eq!(commit(&deck, &salt), expected);
}

#[test]
fn commit_of_empty_inputs_is_the_empty_digest() {
    let digest = commit(&Vec::new(), &Vec::new());
    assert_eq!(
        digest_hex(&digest),
        "e3b0c44298fc1c149afbf4c8996fb92427ae41e4649b934ca495991b7852b855"
    );
}

#[test]
fn distinct_deck_salt_pairs_do_not_collide() {
    let pairs: Vec<(Vec<u8>, Vec<u8>)> = vec![
        (vec![0, 1, 0, 1], b"s".to_vec()),
        (vec![0, 1, 0, 1], b"t".to_vec()),
        (vec![1, 0, 1, 0], b"s".to_vec()),
        (vec![0, 0, 1, 1], b"s".to_vec()),
        (vec![0, 1, 2, 3, 2, 3, 0, 1], b"longer-salt".to_vec()),
        (vec![], b"s".to_vec()),
    ];
    let digests: Vec<[u8; 32]> = pairs.iter().map(|(d, s)| commit(d, s)).collect();
    for i in 0..digests.len() {
        for j in (i + 1)..digests.len() {
            assert_ne!(digests[i], digests[j], "pairs {} and {} collided", i, j);
        }
    }
}

#[test]
fn digest_hex_matches_reference_encoder() {
    let mut digest = [0u8; 32];
    for (i, byte) in digest.iter_mut().enumerate() {
        *byte = (i as u8).wrapping_mul(9).wrapping_add(7);
    }
    assert_eq!(digest_hex(&digest), hex::encode(digest));
}

#[test]
fn field_element_is_zero_padded_big_endian() {
    let fe = field_element(0x0102_0304);
    for byte in fe.iter().take(28) {
        assert_eq!(*byte, 0);
    }
    assert_eq!(&fe[28..], &[1, 2, 3, 4]);

    let zero = field_element(0);
    assert_eq!(zero, [0u8; 32]);

    let max = field_element(u32::MAX);
    assert_eq!(&max[28..], &[0xff, 0xff, 0xff, 0xff]);
}

#[test]
fn circuit_accepts_honest_reveal() {
    let deck = vec![0u8, 1, 0, 1];
    let salt = b"s".to_vec();
    let commitment = commit(&deck, &salt);
    let journal = card_reveal_circuit(&deck, &salt, 1, 1, &commitment)
        .expect("an honest reveal must prove");
    assert_eq!(journal.position, 1);
    assert_eq!(journal.revealed_value, 1);
    assert_eq!(journal.commitment, commitment);
}

#[test]
fn circuit_rejects_wrong_value() {
    let deck = vec![0u8, 1, 0, 1];
    let salt = b"s".to_vec();
    let commitment = commit(&deck, &salt);
    // deck[1] is 1, the claim says 0: no proof may exist.
    assert!(card_reveal_circuit(&deck, &salt, 1, 0, &commitment).is_none());
}

#[test]
fn circuit_rejects_position_out_of_range() {
    let deck = vec![0u8, 1, 0, 1];
    let salt = b"s".to_vec();
    let commitment = commit(&deck, &salt);
    assert!(card_reveal_circuit(&deck, &salt, 4, 0, &commitment).is_none());
    assert!(card_reveal_circuit(&deck, &salt, u32::MAX, 0, &commitment).is_none());
}

#[test]
fn circuit_rejects_foreign_commitment() {
    let deck = vec![0u8, 1, 0, 1];
    let salt = b"s".to_vec();
    let foreign = commit(&deck, &b"other-salt".to_vec());
    assert!(card_reveal_circuit(&deck, &salt, 1, 1, &foreign).is_none());
}

#[test]
fn journal_lays_out_three_public_inputs() {
    let deck = vec![0u8, 1, 0, 1];
    let salt = b"s".to_vec();
    let commitment = commit(&deck, &salt);
    let journal = card_reveal_circuit(&deck, &salt, 3, 1, &commitment).unwrap();
    let inputs = journal_to_public_inputs(&journal);
    assert_eq!(inputs.len(), 3);
    assert_eq!(inputs[0], field_element(3));
    assert_eq!(inputs[1], commitment);
    assert_eq!(inputs[2], field_element(1));
}

#[test]
fn prepare_proof_request_computes_the_commitment() {
    let deck = vec![0u8, 1, 0, 1];
    let salt = b"s".to_vec();
    let commitment = prepare_proof_request(&deck, &salt, 2, 4).expect("valid request");
    assert_eq!(commitment, commit(&deck, &salt));
}

#[test]
fn prepare_proof_request_rejects_wrong_deck_length() {
    let deck = vec![0u8, 1, 0];
    let salt = b"s".to_vec();
    assert_eq!(
        prepare_proof_request(&deck, &salt, 0, 4),
        Err(ProofRequestError::WrongDeckLength)
    );
}

#[test]
fn prepare_proof_request_rejects_position_out_of_range() {
    let deck = vec![0u8, 1, 0, 1];
    let salt = b"s".to_vec();
    assert_eq!(
        prepare_proof_request(&deck, &salt, 4, 4),
        Err(ProofRequestError::PositionOutOfRange)
    );
}
