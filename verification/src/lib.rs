//! Commit-reveal protocol for a two-player memory card game.
//!
//! A deck is fixed and hashed before play; every card flip must carry a proof
//! that the revealed value is the one committed. The crate verifies the three
//! pillars of that protocol: the commitment function, the reveal circuit's
//! acceptance condition, and the on-chain session state machine that enforces
//! turn order, match bookkeeping and termination.

pub mod circuit;
pub mod contract;
pub mod encoding;
pub mod game;
pub mod hashing;
pub mod store;
