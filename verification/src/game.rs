//! Game session data: the session record, its mathematical view, the
//! well-formedness invariant, and the pure transition that a verified flip
//! applies to it.

use vstd::prelude::*;
use crate::encoding::spec_field_element;

verus! {

/// A participant's identity. The hosting chain authenticates callers; the
/// state machine only compares identities.
#[derive(Clone, Copy, Debug, PartialEq, Eq, Structural)]
pub struct Address {
    pub id: u64,
}

/// Why an operation on a session was rejected. Every rejection leaves the
/// session unchanged.
#[derive(Clone, Copy, Debug, PartialEq, Eq, Structural)]
pub enum Error {
    /// No session is stored under the given identifier.
    GameNotFound,
    /// The session has finished and is read-only.
    GameNotActive,
    /// The caller is a registered player but it is not their turn.
    NotYourTurn,
    /// The targeted card was already matched.
    CardAlreadyMatched,
    /// The proof failed verification, carried malformed public inputs, or
    /// claimed a commitment other than the session's.
    InvalidProof,
    /// The position is outside the grid.
    InvalidPosition,
    /// The caller is neither registered player.
    NotPlayer,
    /// A session needs two distinct players.
    SelfPlay,
    /// The session identifier is already in use.
    GameAlreadyExists,
}

/// A card is face down until a verified pair of flips matches it; once
/// matched it never changes again.
#[derive(Clone, Copy, Debug, PartialEq, Eq, Structural)]
pub enum CardState {
    FaceDown,
    Matched,
}

/// One session of the two-player matching game.
pub struct GameState {
    pub session_id: u32,
    pub player1: Address,
    pub player2: Address,
    pub player1_points: i128,
    pub player2_points: i128,
    /// Digest binding the private deck and salt; fixed at creation.
    pub deck_commitment: [u8; 32],
    pub cards: Vec<CardState>,
    /// Pairs found by player one.
    pub score1: u32,
    /// Pairs found by player two.
    pub score2: u32,
    pub current_turn: Address,
    /// First card flipped this turn, if the turn is half done.
    pub flip_one: Option<u32>,
    /// Value of the first flipped card.
    pub flip_one_value: Option<u32>,
    /// Total pairs found so far.
    pub pairs_found: u32,
    /// False once every pair is found; the session is then read-only.
    pub is_active: bool,
}

/// The mathematical view of a session.
#[verifier::ext_equal]
pub struct GameView {
    pub session_id: u32,
    pub player1: Address,
    pub player2: Address,
    pub player1_points: i128,
    pub player2_points: i128,
    pub deck_commitment: Seq<u8>,
    pub cards: Seq<CardState>,
    pub score1: u32,
    pub score2: u32,
    pub current_turn: Address,
    pub flip_one: Option<u32>,
    pub flip_one_value: Option<u32>,
    pub pairs_found: u32,
    pub is_active: bool,
}

impl View for GameState {
    type V = GameView;

    open spec fn view(&self) -> GameView {
        GameView {
            session_id: self.session_id,
            player1: self.player1,
            player2: self.player2,
            player1_points: self.player1_points,
            player2_points: self.player2_points,
            deck_commitment: self.deck_commitment@,
            cards: self.cards@,
            score1: self.score1,
            score2: self.score2,
            current_turn: self.current_turn,
            flip_one: self.flip_one,
            flip_one_value: self.flip_one_value,
            pairs_found: self.pairs_found,
            is_active: self.is_active,
        }
    }
}

impl GameState {
    /// An identical copy of the session record.
    pub fn duplicate(&self) -> (r: GameState)
        ensures
            r@ == self@,
    {
        let mut cards: Vec<CardState> = Vec::new();
        let mut i: usize = 0;
        while i < self.cards.len()
            invariant
                i <= self.cards.len(),
                cards@.len() == i,
                forall|j: int| 0 <= j < i ==> cards@[j] == self.cards@[j],
            decreases self.cards.len() - i,
        {
            cards.push(self.cards[i]);
            i += 1;
        }
        proof {
            assert(cards@ =~= self.cards@);
        }
        let r = GameState {
            session_id: self.session_id,
            player1: self.player1,
            player2: self.player2,
            player1_points: self.player1_points,
            player2_points: self.player2_points,
            deck_commitment: self.deck_commitment,
            cards,
            score1: self.score1,
            score2: self.score2,
            current_turn: self.current_turn,
            flip_one: self.flip_one,
            flip_one_value: self.flip_one_value,
            pairs_found: self.pairs_found,
            is_active: self.is_active,
        };
        proof {
            assert(r@ =~= self@);
        }
        r
    }
}

/// Half the grid size: the number of pairs the deck holds.
pub open spec fn spec_total_pairs(g: GameView) -> int {
    g.cards.len() as int / 2
}

/// The registered player whose turn it is not.
pub open spec fn spec_other_player(g: GameView) -> Address {
    if g.current_turn == g.player1 {
        g.player2
    } else {
        g.player1
    }
}

impl GameView {
    /// The session invariant: everything `start_game` establishes and every
    /// successful flip preserves.
    pub open spec fn wf(self) -> bool {
        &&& self.player1 != self.player2
        &&& 2 <= self.cards.len()
        &&& self.cards.len() % 2 == 0
        &&& self.cards.len() <= u32::MAX
        &&& self.deck_commitment.len() == 32
        &&& (self.current_turn == self.player1 || self.current_turn == self.player2)
        &&& self.score1 + self.score2 == self.pairs_found
        &&& self.pairs_found as int <= spec_total_pairs(self)
        &&& (self.is_active <==> (self.pairs_found as int) < spec_total_pairs(self))
        &&& (self.flip_one is Some <==> self.flip_one_value is Some)
        &&& (self.flip_one matches Some(p) ==> (p as int) < self.cards.len() && self.cards[
            p as int] == CardState::FaceDown)
        &&& (!self.is_active ==> self.flip_one is None)
    }
}

/// A freshly created session: all cards face down, player one to move,
/// nothing scored.
pub open spec fn spec_new_game(
    session_id: u32,
    player1: Address,
    player2: Address,
    player1_points: i128,
    player2_points: i128,
    deck_commitment: Seq<u8>,
    num_cards: u32,
) -> GameView {
    GameView {
        session_id,
        player1,
        player2,
        player1_points,
        player2_points,
        deck_commitment,
        cards: Seq::new(num_cards as nat, |i: int| CardState::FaceDown),
        score1: 0,
        score2: 0,
        current_turn: player1,
        flip_one: None,
        flip_one_value: None,
        pairs_found: 0,
        is_active: true,
    }
}

/// Recording the first flip of a turn: the pair is held pending, nothing else
/// moves.
pub open spec fn spec_record_first_flip(g: GameView, position: u32, revealed_value: u32) -> GameView {
    GameView { flip_one: Some(position), flip_one_value: Some(revealed_value), ..g }
}

/// Resolving the second flip of a turn. Equal values at two distinct
/// positions are a match: both cards turn Matched, the mover scores and keeps
/// the turn. Anything else — including the same position flipped twice — is
/// no match and the turn passes. The pending pair is cleared either way.
pub open spec fn spec_resolve_second_flip(g: GameView, position: u32, revealed_value: u32) -> GameView {
    let first_pos = g.flip_one->Some_0;
    let first_val = g.flip_one_value->Some_0;
    if first_val == revealed_value && first_pos != position {
        GameView {
            cards: g.cards.update(first_pos as int, CardState::Matched).update(
                position as int,
                CardState::Matched,
            ),
            score1: if g.current_turn == g.player1 {
                (g.score1 + 1) as u32
            } else {
                g.score1
            },
            score2: if g.current_turn == g.player1 {
                g.score2
            } else {
                (g.score2 + 1) as u32
            },
            pairs_found: (g.pairs_found + 1) as u32,
            flip_one: None,
            flip_one_value: None,
            ..g
        }
    } else {
        GameView { current_turn: spec_other_player(g), flip_one: None, flip_one_value: None, ..g }
    }
}

/// The full transition a verified flip applies: record or resolve, then
/// finish the session when the last pair is found.
pub open spec fn spec_apply_flip(g: GameView, position: u32, revealed_value: u32) -> GameView {
    let stepped = if g.flip_one is None {
        spec_record_first_flip(g, position, revealed_value)
    } else {
        spec_resolve_second_flip(g, position, revealed_value)
    };
    if stepped.pairs_found as int == spec_total_pairs(g) {
        GameView { is_active: false, ..stepped }
    } else {
        stepped
    }
}

/// The proof's public inputs, cross-checked against the session: exactly
/// three field elements, positionally the flipped position, the session's
/// stored commitment and the revealed value.
pub open spec fn spec_public_inputs_ok(
    inputs: Seq<[u8; 32]>,
    position: u32,
    revealed_value: u32,
    commitment: Seq<u8>,
) -> bool {
    &&& inputs.len() == 3
    &&& inputs[0]@ == spec_field_element(position)
    &&& inputs[1]@ == commitment
    &&& inputs[2]@ == spec_field_element(revealed_value)
}

/// The first reason, if any, to reject a flip before the proof system is even
/// consulted. `None` means the flip is acceptable whenever its proof is.
pub open spec fn spec_flip_err(
    g: GameView,
    player: Address,
    position: u32,
    revealed_value: u32,
    inputs: Seq<[u8; 32]>,
) -> Option<Error> {
    if !g.is_active {
        Some(Error::GameNotActive)
    } else if player != g.player1 && player != g.player2 {
        Some(Error::NotPlayer)
    } else if player != g.current_turn {
        Some(Error::NotYourTurn)
    } else if position as int >= g.cards.len() {
        Some(Error::InvalidPosition)
    } else if g.cards[position as int] == CardState::Matched {
        Some(Error::CardAlreadyMatched)
    } else if !spec_public_inputs_ok(inputs, position, revealed_value, g.deck_commitment) {
        Some(Error::InvalidProof)
    } else {
        None
    }
}

/// An acceptable flip preserves the session invariant.
pub proof fn lemma_flip_preserves_wf(g: GameView, position: u32, revealed_value: u32)
    requires
        g.wf(),
        g.is_active,
        (position as int) < g.cards.len(),
        g.cards[position as int] == CardState::FaceDown,
    ensures
        spec_apply_flip(g, position, revealed_value).wf(),
{
}

/// Turn law: a resolving flip that is not a match passes the turn to the
/// player who did not just move, and matches nothing. (A first flip leaves
/// the turn untouched by design; this law is about flips that resolve a
/// turn.)
pub proof fn lemma_no_match_passes_turn(g: GameView, position: u32, revealed_value: u32)
    requires
        g.wf(),
        g.is_active,
        g.flip_one is Some,
        !(g.flip_one_value->Some_0 == revealed_value && g.flip_one->Some_0 != position),
    ensures
        ({
            let after = spec_apply_flip(g, position, revealed_value);
            &&& after.current_turn == spec_other_player(g)
            &&& after.current_turn != g.current_turn
            &&& after.cards == g.cards
            &&& after.pairs_found == g.pairs_found
            &&& after.flip_one is None
        }),
{
}

/// Match law: a resolving flip that is a match keeps the turn with the
/// current player and moves exactly two cards, both from FaceDown to Matched.
pub proof fn lemma_match_keeps_turn(g: GameView, position: u32, revealed_value: u32)
    requires
        g.wf(),
        g.is_active,
        (position as int) < g.cards.len(),
        g.cards[position as int] == CardState::FaceDown,
        g.flip_one is Some,
        g.flip_one_value->Some_0 == revealed_value,
        g.flip_one->Some_0 != position,
    ensures
        ({
            let after = spec_apply_flip(g, position, revealed_value);
            let first = g.flip_one->Some_0;
            &&& after.current_turn == g.current_turn
            &&& g.cards[first as int] == CardState::FaceDown
            &&& after.cards[first as int] == CardState::Matched
            &&& after.cards[position as int] == CardState::Matched
            &&& forall|i: int|
                0 <= i < g.cards.len() && i != first && i != position ==> after.cards[i]
                    == g.cards[i]
            &&& after.pairs_found == g.pairs_found + 1
            &&& after.score1 + after.score2 == g.score1 + g.score2 + 1
        }),
{
}

/// Permanence law: no card leaves Matched, whatever flip is applied.
pub proof fn lemma_matched_is_permanent(g: GameView, position: u32, revealed_value: u32, i: int)
    requires
        g.wf(),
        (position as int) < g.cards.len(),
        0 <= i < g.cards.len(),
        g.cards[i] == CardState::Matched,
    ensures
        spec_apply_flip(g, position, revealed_value).cards[i] == CardState::Matched,
{
}

/// Termination law: a flip on an active session finishes it exactly when the
/// pair count reaches half the grid size, which only a completing match does.
pub proof fn lemma_finished_exactly_at_last_pair(g: GameView, position: u32, revealed_value: u32)
    requires
        g.wf(),
        g.is_active,
    ensures
        ({
            let after = spec_apply_flip(g, position, revealed_value);
            &&& (!after.is_active <==> after.pairs_found as int == spec_total_pairs(g))
            &&& (!after.is_active ==> after.pairs_found == g.pairs_found + 1)
        }),
{
}

/// Terminal law: a finished session rejects every flip outright, so the
/// transition to Finished can happen only once.
pub proof fn lemma_finished_is_terminal(
    g: GameView,
    player: Address,
    position: u32,
    revealed_value: u32,
    inputs: Seq<[u8; 32]>,
)
    requires
        !g.is_active,
    ensures
        spec_flip_err(g, player, position, revealed_value, inputs) == Some(Error::GameNotActive),
{
}

} // verus!
