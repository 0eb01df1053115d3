//! The game session state machine: accepts a flip only when it carries a
//! verified reveal proof whose public inputs match the session, enforces turn
//! order, tracks matched pairs, and reports finished games to the ledger.

use vstd::prelude::*;
use crate::encoding::field_element;
use crate::game::{
    spec_apply_flip, spec_flip_err, spec_new_game, spec_public_inputs_ok, spec_total_pairs,
    lemma_flip_preserves_wf, Address, CardState, Error, GameState, GameView,
};
use crate::hashing::digest_eq;
use crate::store::GameStore;

verus! {

/// The points-escrow and ranking ledger the game reports to. The hosting
/// environment implements it; its behaviour is the ledger's own contract, so
/// nothing is assumed of it here. A ledger that rejects a call aborts the
/// whole operation (the hosting chain reverts), so no half-created or
/// half-finished session can be observed.
pub trait GameHub {
    /// Register a session and lock both players' stakes.
    fn start_game(
        &mut self,
        game_id: Address,
        session_id: u32,
        player1: Address,
        player2: Address,
        player1_points: i128,
        player2_points: i128,
    );

    /// Settle a finished session: release stakes according to the outcome.
    fn end_game(&mut self, session_id: u32, player1_won: bool);
}

/// Cryptographic verification of an opaque reveal proof against its public
/// inputs. The state machine trusts a gateway only for cryptographic
/// validity; it cross-checks the public inputs against the session itself, so
/// a proof carrying a foreign commitment is rejected even if the gateway
/// accepts it.
pub trait ProofGateway {
    /// Whether `proof_bytes` is a valid proof with exactly these public
    /// inputs.
    fn verify(&self, proof_bytes: &Vec<u8>, public_inputs: &Vec<[u8; 32]>) -> bool;
}

/// The contract: configuration plus the stored sessions it owns exclusively.
pub struct ZkMemoryContract {
    admin: Address,
    game_hub: Address,
    contract_address: Address,
    num_cards: u32,
    games: GameStore,
}

impl ZkMemoryContract {
    /// The admin identity, allowed to rotate itself and the hub address.
    pub closed spec fn spec_admin(self) -> Address {
        self.admin
    }

    /// The ledger's identity.
    pub closed spec fn spec_hub(self) -> Address {
        self.game_hub
    }

    /// This contract's own identity, under which it registers sessions with
    /// the ledger.
    pub closed spec fn spec_contract_address(self) -> Address {
        self.contract_address
    }

    /// The configured grid size: cards per session.
    pub closed spec fn spec_num_cards(self) -> u32 {
        self.num_cards
    }

    /// The session stored under `session_id`, if any.
    pub closed spec fn spec_game(self, session_id: u32) -> Option<GameView> {
        self.games.spec_get(session_id)
    }

    /// The contract invariant: a sound session table whose every record
    /// satisfies the session invariant, and a playable grid size.
    pub closed spec fn wf(self) -> bool {
        &&& self.games.wf()
        &&& 2 <= self.num_cards
        &&& self.num_cards % 2 == 0
        &&& forall|id: u32| (#[trigger] self.spec_game(id)) matches Some(g) ==> g.wf()
    }

    /// Set up the contract. The grid size is configuration: an even number of
    /// cards, at least one pair.
    pub fn new(admin: Address, game_hub: Address, contract_address: Address, num_cards: u32) -> (r:
        ZkMemoryContract)
        requires
            2 <= num_cards,
            num_cards % 2 == 0,
        ensures
            r.wf(),
            r.spec_admin() == admin,
            r.spec_hub() == game_hub,
            r.spec_contract_address() == contract_address,
            r.spec_num_cards() == num_cards,
            forall|id: u32| r.spec_game(id) is None,
    {
        ZkMemoryContract { admin, game_hub, contract_address, num_cards, games: GameStore::new() }
    }

    /// Start a new session between two distinct players with a committed
    /// deck. The hosting environment authenticates both players' consent to
    /// their stakes before the call reaches the contract. The ledger is asked
    /// to lock the stakes before any state is written, so session creation
    /// and stake locking succeed or fail together; a fresh session (all cards
    /// face down, player one to move) is then stored under the identifier.
    pub fn start_game<H: GameHub>(
        &mut self,
        hub: &mut H,
        session_id: u32,
        player1: Address,
        player2: Address,
        player1_points: i128,
        player2_points: i128,
        deck_commitment: [u8; 32],
    ) -> (r: Result<(), Error>)
        requires
            old(self).wf(),
        ensures
            final(self).wf(),
            final(self).spec_admin() == old(self).spec_admin(),
            final(self).spec_hub() == old(self).spec_hub(),
            final(self).spec_contract_address() == old(self).spec_contract_address(),
            final(self).spec_num_cards() == old(self).spec_num_cards(),
            forall|id: u32|
                id != session_id ==> final(self).spec_game(id) == old(self).spec_game(id),
            player1 == player2 ==> r == Err::<(), Error>(Error::SelfPlay) && *final(self) == *old(
                self,
            ),
            player1 != player2 && old(self).spec_game(session_id) is Some ==> r == Err::<(),
                Error,
            >(Error::GameAlreadyExists) && *final(self) == *old(self),
            player1 != player2 && old(self).spec_game(session_id) is None ==> r == Ok::<(),
                Error,
            >(()) && final(self).spec_game(session_id) == Some(
                spec_new_game(
                    session_id,
                    player1,
                    player2,
                    player1_points,
                    player2_points,
                    deck_commitment@,
                    old(self).spec_num_cards(),
                ),
            ),
    {
        if player1 == player2 {
            return Err(Error::SelfPlay);
        }
        match self.games.get(session_id) {
            Some(_) => {
                return Err(Error::GameAlreadyExists);
            },
            None => {},
        }
        // Lock stakes first: if the ledger rejects, it aborts this call and
        // no session is written.
        hub.start_game(
            self.contract_address,
            session_id,
            player1,
            player2,
            player1_points,
            player2_points,
        );
        let mut cards: Vec<CardState> = Vec::new();
        let mut i: u32 = 0;
        while i < self.num_cards
            invariant
                i <= self.num_cards,
                cards@.len() == i,
                forall|j: int| 0 <= j < i ==> cards@[j] == CardState::FaceDown,
            decreases self.num_cards - i,
        {
            cards.push(CardState::FaceDown);
            i += 1;
        }
        let game = GameState {
            session_id,
            player1,
            player2,
            player1_points,
            player2_points,
            deck_commitment,
            cards,
            score1: 0,
            score2: 0,
            current_turn: player1,
            flip_one: None,
            flip_one_value: None,
            pairs_found: 0,
            is_active: true,
        };
        let ghost fresh = spec_new_game(
            session_id,
            player1,
            player2,
            player1_points,
            player2_points,
            deck_commitment@,
            self.num_cards,
        );
        proof {
            assert(game@ =~= fresh);
            assert(fresh.wf());
        }
        self.games.insert(session_id, game);
        proof {
            assert forall|id: u32| (#[trigger] self.spec_game(id)) is Some implies self.spec_game(
                id,
            )->Some_0.wf() by {
                if id != session_id {
                    assert(old(self).spec_game(id) == self.spec_game(id));
                }
            }
        }
        Ok(())
    }

    /// Cross-check a flip's proof artifact against the session: exactly three
    /// public inputs, positionally the flipped position, the session's stored
    /// commitment and the revealed value. This is everything the gateway
    /// cannot know — above all that the claimed commitment is this
    /// session's — so a proof against a foreign commitment fails here even if
    /// it is cryptographically sound.
    fn verify_card_reveal_proof(
        public_inputs: &Vec<[u8; 32]>,
        position: u32,
        revealed_value: u32,
        deck_commitment: &[u8; 32],
    ) -> (r: bool)
        ensures
            r == spec_public_inputs_ok(public_inputs@, position, revealed_value, deck_commitment@),
    {
        if public_inputs.len() != 3 {
            return false;
        }
        let expected_position = field_element(position);
        if !digest_eq(&public_inputs[0], &expected_position) {
            return false;
        }
        if !digest_eq(&public_inputs[1], deck_commitment) {
            return false;
        }
        let expected_value = field_element(revealed_value);
        if !digest_eq(&public_inputs[2], &expected_value) {
            return false;
        }
        true
    }

    /// Resolve an acceptable flip once the gateway has answered: a rejected
    /// proof is `InvalidProof`, an accepted one yields the successor state of
    /// the flip transition. Either way the outcome is a function of the
    /// session and the answer alone.
    pub fn resolve_flip(
        game: &GameState,
        position: u32,
        revealed_value: u32,
        proof_ok: bool,
    ) -> (r: Result<GameState, Error>)
        requires
            game@.wf(),
            game@.is_active,
            (position as int) < game@.cards.len(),
            game@.cards[position as int] == CardState::FaceDown,
        ensures
            !proof_ok ==> r == Err::<GameState, Error>(Error::InvalidProof),
            proof_ok ==> (r matches Ok(next) && next@ == spec_apply_flip(
                game@,
                position,
                revealed_value,
            ) && next@.wf()),
    {
        if !proof_ok {
            return Err(Error::InvalidProof);
        }
        let ghost g0: GameView = game@;
        let mut new_game = game.duplicate();
        if new_game.flip_one.is_none() {
            // First flip of the turn: hold it pending, change nothing else.
            new_game.flip_one = Some(position);
            new_game.flip_one_value = Some(revealed_value);
        } else {
            // Second flip: equal values at distinct positions are a match.
            let first_pos = new_game.flip_one.unwrap();
            let first_val = new_game.flip_one_value.unwrap();
            if first_val == revealed_value && first_pos != position {
                proof {
                    assert((g0.pairs_found as int) < spec_total_pairs(g0));
                }
                new_game.cards.set(first_pos as usize, CardState::Matched);
                new_game.cards.set(position as usize, CardState::Matched);
                new_game.pairs_found = new_game.pairs_found + 1;
                if new_game.current_turn == new_game.player1 {
                    new_game.score1 = new_game.score1 + 1;
                } else {
                    new_game.score2 = new_game.score2 + 1;
                }
                // A match keeps the turn with the current player.
            } else {
                // No match (including the same position twice): pass the
                // turn.
                new_game.current_turn = if new_game.current_turn == new_game.player1 {
                    new_game.player2
                } else {
                    new_game.player1
                };
            }
            new_game.flip_one = None;
            new_game.flip_one_value = None;
        }
        let total_pairs = (new_game.cards.len() as u32) / 2;
        if new_game.pairs_found == total_pairs {
            // Strictly greater decides the winner later; here the session
            // merely turns read-only.
            new_game.is_active = false;
        }
        proof {
            assert(new_game@ =~= spec_apply_flip(g0, position, revealed_value));
            lemma_flip_preserves_wf(g0, position, revealed_value);
        }
        Ok(new_game)
    }

    /// Flip a card on behalf of `player`, whom the hosting environment has
    /// authenticated. The deterministic checks (session found and active,
    /// caller registered and on turn, position on the grid and not yet
    /// matched, public inputs matching the session) are exact: each failure
    /// returns its error and changes nothing. When they pass, the gateway
    /// decides: a rejected proof returns `InvalidProof` and changes nothing,
    /// an accepted one applies exactly the flip transition — and reports the
    /// game to the ledger the moment the last pair is found.
    pub fn flip_card<G: ProofGateway, H: GameHub>(
        &mut self,
        gateway: &G,
        hub: &mut H,
        session_id: u32,
        player: Address,
        position: u32,
        revealed_value: u32,
        proof_bytes: &Vec<u8>,
        public_inputs: &Vec<[u8; 32]>,
    ) -> (r: Result<(), Error>)
        requires
            old(self).wf(),
        ensures
            final(self).wf(),
            final(self).spec_admin() == old(self).spec_admin(),
            final(self).spec_hub() == old(self).spec_hub(),
            final(self).spec_contract_address() == old(self).spec_contract_address(),
            final(self).spec_num_cards() == old(self).spec_num_cards(),
            forall|id: u32|
                id != session_id ==> final(self).spec_game(id) == old(self).spec_game(id),
            old(self).spec_game(session_id) is None ==> r == Err::<(), Error>(Error::GameNotFound)
                && *final(self) == *old(self),
            old(self).spec_game(session_id) matches Some(g) ==> match spec_flip_err(
                g,
                player,
                position,
                revealed_value,
                public_inputs@,
            ) {
                Some(e) => r == Err::<(), Error>(e) && *final(self) == *old(self),
                None => (r == Ok::<(), Error>(()) && final(self).spec_game(session_id) == Some(
                    spec_apply_flip(g, position, revealed_value),
                )) || (r == Err::<(), Error>(Error::InvalidProof) && *final(self) == *old(self)),
            },
    {
        let game_ref = match self.games.get(session_id) {
            None => {
                return Err(Error::GameNotFound);
            },
            Some(g) => g,
        };
        let ghost g0: GameView = game_ref@;
        if !game_ref.is_active {
            return Err(Error::GameNotActive);
        }
        if player != game_ref.player1 && player != game_ref.player2 {
            return Err(Error::NotPlayer);
        }
        if player != game_ref.current_turn {
            return Err(Error::NotYourTurn);
        }
        if (position as usize) >= game_ref.cards.len() {
            return Err(Error::InvalidPosition);
        }
        if game_ref.cards[position as usize] == CardState::Matched {
            return Err(Error::CardAlreadyMatched);
        }
        if !Self::verify_card_reveal_proof(
            public_inputs,
            position,
            revealed_value,
            &game_ref.deck_commitment,
        ) {
            return Err(Error::InvalidProof);
        }
        proof {
            assert(spec_flip_err(g0, player, position, revealed_value, public_inputs@) is None);
        }
        // The gateway's cryptographic verdict; resolve_flip pins down what
        // follows for either answer.
        let proof_ok = gateway.verify(proof_bytes, public_inputs);
        let new_game = match Self::resolve_flip(game_ref, position, revealed_value, proof_ok) {
            Err(e) => {
                return Err(e);
            },
            Ok(next) => next,
        };
        if !new_game.is_active {
            // The last pair was just found. Strictly greater decides the
            // winner: a tie does not count as a player-one win. Settle with
            // the ledger before the session is written: both commit or
            // neither does.
            let player1_won = new_game.score1 > new_game.score2;
            hub.end_game(session_id, player1_won);
        }
        self.games.replace(session_id, new_game);
        proof {
            assert forall|id: u32| (#[trigger] self.spec_game(id)) is Some implies self.spec_game(
                id,
            )->Some_0.wf() by {
                if id != session_id {
                    assert(old(self).spec_game(id) == self.spec_game(id));
                }
            }
        }
        Ok(())
    }

    /// Read a session. Fails exactly when nothing is stored under the
    /// identifier — because it never existed or because its retention horizon
    /// passed.
    pub fn get_game(&self, session_id: u32) -> (r: Result<GameState, Error>)
        requires
            self.wf(),
        ensures
            match self.spec_game(session_id) {
                Some(g) => r matches Ok(got) && got@ == g && g.wf(),
                None => r == Err::<GameState, Error>(Error::GameNotFound),
            },
    {
        match self.games.get(session_id) {
            Some(g) => Ok(g.duplicate()),
            None => Err(Error::GameNotFound),
        }
    }

    /// Drop a session whose storage retention horizon has passed. Purging is
    /// a storage concern: afterwards the identifier simply finds nothing.
    pub fn purge_game(&mut self, session_id: u32)
        requires
            old(self).wf(),
        ensures
            final(self).wf(),
            final(self).spec_game(session_id) is None,
            forall|id: u32|
                id != session_id ==> final(self).spec_game(id) == old(self).spec_game(id),
            final(self).spec_admin() == old(self).spec_admin(),
            final(self).spec_hub() == old(self).spec_hub(),
            final(self).spec_contract_address() == old(self).spec_contract_address(),
            final(self).spec_num_cards() == old(self).spec_num_cards(),
    {
        self.games.purge(session_id);
        proof {
            assert forall|id: u32| (#[trigger] self.spec_game(id)) is Some implies self.spec_game(
                id,
            )->Some_0.wf() by {
                if id != session_id {
                    assert(old(self).spec_game(id) == self.spec_game(id));
                }
            }
        }
    }

    /// The current admin identity.
    pub fn get_admin(&self) -> (r: Address)
        ensures
            r == self.spec_admin(),
    {
        self.admin
    }

    /// Rotate the admin. The hosting environment authenticates the caller;
    /// a call the stored admin did not authorize never reaches the contract.
    pub fn set_admin(&mut self, caller: Address, new_admin: Address)
        requires
            old(self).wf(),
            caller == old(self).spec_admin(),
        ensures
            final(self).wf(),
            final(self).spec_admin() == new_admin,
            final(self).spec_hub() == old(self).spec_hub(),
            final(self).spec_contract_address() == old(self).spec_contract_address(),
            final(self).spec_num_cards() == old(self).spec_num_cards(),
            forall|id: u32| final(self).spec_game(id) == old(self).spec_game(id),
    {
        self.admin = new_admin;
        proof {
            assert forall|id: u32| (#[trigger] self.spec_game(id)) is Some implies self.spec_game(
                id,
            )->Some_0.wf() by {
                assert(self.spec_game(id) == old(self).spec_game(id));
            }
        }
    }

    /// The ledger's identity.
    pub fn get_hub(&self) -> (r: Address)
        ensures
            r == self.spec_hub(),
    {
        self.game_hub
    }

    /// Point the contract at another ledger. Admin only, authenticated by the
    /// hosting environment.
    pub fn set_hub(&mut self, caller: Address, new_hub: Address)
        requires
            old(self).wf(),
            caller == old(self).spec_admin(),
        ensures
            final(self).wf(),
            final(self).spec_hub() == new_hub,
            final(self).spec_admin() == old(self).spec_admin(),
            final(self).spec_contract_address() == old(self).spec_contract_address(),
            final(self).spec_num_cards() == old(self).spec_num_cards(),
            forall|id: u32| final(self).spec_game(id) == old(self).spec_game(id),
    {
        self.game_hub = new_hub;
        proof {
            assert forall|id: u32| (#[trigger] self.spec_game(id)) is Some implies self.spec_game(
                id,
            )->Some_0.wf() by {
                assert(self.spec_game(id) == old(self).spec_game(id));
            }
        }
    }
}

} // verus!
