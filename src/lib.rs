//! A two-asset custodial exchange: a pool holds reserves of two token mints
//! and swaps one for the other at a fixed one-to-one rate.
//!
//! The library decides; the host ledger moves tokens. Every operation checks
//! the accounts it is handed against the pool record, and a swap hands back
//! the two transfers that the host must perform as one atomic unit.

mod address;
mod authority;
mod pool;
mod swap;

pub use address::{bytes_equal, Address, TokenAccount};
pub use authority::{
    authority_label, authority_label_bytes, authority_of, derive_authority, program_address_of,
};
pub use pool::{
    created_from, initialize, initialize_error, lemma_distinct_seeds_independent,
    owned_by_authority, seed_taken, ErrorCode, Initialize, SwapPool, SwapProgram, MAX_SEED_LEN,
};
pub use swap::{
    accounts_error, balances_fit, credited, legs_of, lemma_round_trip, lemma_swap_conserves_totals,
    pool_source, pool_target, reversed, swap, swap_a_to_b, swap_b_to_a, swap_error, swapped,
    user_source, user_target, validate_accounts, Direction, SignerSeeds, Swap, SwapLegs, Transfer,
};
