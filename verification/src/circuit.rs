//! The reveal proof circuit: what a prover must establish before a valid
//! proof for a card flip can exist, and the public outputs such a proof
//! carries.

use vstd::prelude::*;
use crate::hashing::{commit, digest_eq, spec_commit};
use crate::encoding::{field_element, spec_field_element};

verus! {

/// The public outputs of a reveal proof: the flipped position, the value
/// claimed to sit there, and the deck commitment the claim is made against.
/// Nothing else about the deck leaves the circuit.
pub struct Journal {
    pub position: u32,
    pub revealed_value: u8,
    pub commitment: [u8; 32],
}

/// The circuit's acceptance condition. A reveal proof for
/// `(position, revealed_value, commitment)` can exist exactly when the
/// prover's private deck and salt satisfy all three clauses: the position is
/// on the grid, the deck holds the revealed value there, and the commitment
/// is the digest of that deck and salt.
pub open spec fn circuit_accepts(
    deck: Seq<u8>,
    salt: Seq<u8>,
    position: u32,
    revealed_value: u8,
    commitment: Seq<u8>,
) -> bool {
    &&& (position as int) < deck.len()
    &&& deck[position as int] == revealed_value
    &&& commitment == spec_commit(deck, salt)
}

/// Run the reveal circuit: check the three clauses the prover must establish
/// and, when they hold, emit the journal of public outputs. `None` means no
/// valid proof exists for these inputs.
pub fn card_reveal_circuit(
    deck: &Vec<u8>,
    salt: &Vec<u8>,
    position: u32,
    revealed_value: u8,
    commitment: &[u8; 32],
) -> (r: Option<Journal>)
    ensures
        r is Some <==> circuit_accepts(deck@, salt@, position, revealed_value, commitment@),
        r matches Some(j) ==> j.position == position && j.revealed_value == revealed_value
            && j.commitment@ == commitment@,
{
    if (position as usize) >= deck.len() {
        return None;
    }
    if deck[position as usize] != revealed_value {
        return None;
    }
    let computed = commit(deck, salt);
    if !digest_eq(&computed, commitment) {
        return None;
    }
    Some(Journal { position, revealed_value, commitment: *commitment })
}

/// A proof constructed for a value other than the one the deck holds at the
/// claimed position can never verify: the circuit refuses it.
pub proof fn lemma_wrong_value_never_proves(
    deck: Seq<u8>,
    salt: Seq<u8>,
    position: u32,
    revealed_value: u8,
    commitment: Seq<u8>,
)
    requires
        (position as int) < deck.len(),
        deck[position as int] != revealed_value,
    ensures
        !circuit_accepts(deck, salt, position, revealed_value, commitment),
{
}

/// A proof constructed for a position outside the grid can never verify: the
/// circuit refuses it.
pub proof fn lemma_out_of_range_never_proves(
    deck: Seq<u8>,
    salt: Seq<u8>,
    position: u32,
    revealed_value: u8,
    commitment: Seq<u8>,
)
    requires
        (position as int) >= deck.len(),
    ensures
        !circuit_accepts(deck, salt, position, revealed_value, commitment),
{
}

/// Why a proof-generation request is refused before any proving happens.
#[derive(Clone, Copy, Debug, PartialEq, Eq, Structural)]
pub enum ProofRequestError {
    /// The deck does not have exactly the grid's number of cards.
    WrongDeckLength,
    /// The position is outside the grid.
    PositionOutOfRange,
}

/// Validate a proof-generation request and compute the commitment the prover
/// proves against: the deck must fill the grid exactly, and the position must
/// be on the grid.
pub fn prepare_proof_request(deck: &Vec<u8>, salt: &Vec<u8>, position: u32, num_cards: u32) -> (r:
    Result<[u8; 32], ProofRequestError>)
    ensures
        deck@.len() != num_cards ==> r == Err::<[u8; 32], ProofRequestError>(
            ProofRequestError::WrongDeckLength,
        ),
        deck@.len() == num_cards && position >= num_cards ==> r == Err::<
            [u8; 32],
            ProofRequestError,
        >(ProofRequestError::PositionOutOfRange),
        deck@.len() == num_cards && position < num_cards ==> (r matches Ok(c) && c@ == spec_commit(
            deck@,
            salt@,
        )),
{
    if deck.len() != (num_cards as usize) {
        return Err(ProofRequestError::WrongDeckLength);
    }
    if position >= num_cards {
        return Err(ProofRequestError::PositionOutOfRange);
    }
    Ok(commit(deck, salt))
}

/// Lay out a journal as the fixed wire format of public inputs: exactly three
/// 32-byte field elements, positionally `[position, commitment,
/// revealed_value]`.
pub fn journal_to_public_inputs(journal: &Journal) -> (r: Vec<[u8; 32]>)
    ensures
        r@.len() == 3,
        r@[0]@ == spec_field_element(journal.position),
        r@[1]@ == journal.commitment@,
        r@[2]@ == spec_field_element(journal.revealed_value as u32),
{
    let mut out: Vec<[u8; 32]> = Vec::new();
    out.push(field_element(journal.position));
    out.push(journal.commitment);
    out.push(field_element(journal.revealed_value as u32));
    out
}

} // verus!
