use vstd::prelude::*;

use crate::address::{bytes_equal, Address, TokenAccount};
use crate::authority::{authority_of, derive_authority};

verus! {

/// Why an operation was refused. Every refusal comes before any transfer.
#[derive(Clone, Copy, Debug, PartialEq, Eq, Structural)]
pub enum ErrorCode {
    /// An account holds tokens of another mint than the pool record says.
    InvalidMint,
    /// An account's owner is not the expected caller or derived authority.
    InvalidOwner,
    /// A reserve account is not the one the pool record names.
    InvalidAccount,
    /// The caller's source balance or the pool's target reserve is too small.
    InsufficientFunds,
    /// The requested amount is zero.
    InvalidAmount,
    /// A pool record already exists for the seed.
    PoolExists,
}

/// The longest seed a pool may be created with.
pub const MAX_SEED_LEN: usize = 32;

/// The persistent record of one pool. Its identity fields never change
/// once it has been created.
#[derive(Clone, Debug, PartialEq, Eq)]
pub struct SwapPool {
    pub token_a_mint: Address,
    pub token_b_mint: Address,
    /// The pool's reserve account of mint A.
    pub token_a_account: Address,
    /// The pool's reserve account of mint B.
    pub token_b_account: Address,
    /// The account that created the pool; it signs nothing.
    pub authority: Address,
    /// The bytes from which the pool's authority is derived.
    pub seed: Vec<u8>,
}

/// The accounts handed to `initialize`.
#[derive(Clone, Copy, Debug, PartialEq, Eq)]
pub struct Initialize {
    pub token_a_mint: Address,
    pub token_b_mint: Address,
    /// The reserve account of mint A, owned by the pool's derived authority.
    pub token_a_account: TokenAccount,
    /// The reserve account of mint B, owned by the pool's derived authority.
    pub token_b_account: TokenAccount,
    /// The creator of the pool.
    pub authority: Address,
}

/// A program instance: its identity, which takes part in every derivation,
/// and the pool records it has created.
#[derive(Clone, Debug)]
pub struct SwapProgram {
    pub program_id: Address,
    pub pools: Vec<SwapPool>,
}

/// Whether `account` is owned by the authority derived from `seed`.
pub open spec fn owned_by_authority(account: TokenAccount, seed: Seq<u8>, program_id: Seq<u8>) -> bool {
    match authority_of(seed, program_id) {
        Some((a, _)) => account.owner@ == a,
        None => false,
    }
}

/// Whether some record in `pools` was created with `seed`.
pub open spec fn seed_taken(pools: Seq<SwapPool>, seed: Seq<u8>) -> bool {
    exists|i: int| 0 <= i < pools.len() && (#[trigger] pools[i]).seed@ == seed
}

/// The refusal of `initialize`, or `None` where it succeeds.
pub open spec fn initialize_error(
    pools: Seq<SwapPool>,
    program_id: Seq<u8>,
    ctx: Initialize,
    seed: Seq<u8>,
) -> Option<ErrorCode> {
    if seed_taken(pools, seed) {
        Some(ErrorCode::PoolExists)
    } else if ctx.token_a_account.mint@ != ctx.token_a_mint@ {
        Some(ErrorCode::InvalidMint)
    } else if !owned_by_authority(ctx.token_a_account, seed, program_id) {
        Some(ErrorCode::InvalidOwner)
    } else if ctx.token_b_account.mint@ != ctx.token_b_mint@ {
        Some(ErrorCode::InvalidMint)
    } else if !owned_by_authority(ctx.token_b_account, seed, program_id) {
        Some(ErrorCode::InvalidOwner)
    } else if ctx.token_a_mint@ == ctx.token_b_mint@ {
        Some(ErrorCode::InvalidMint)
    } else {
        None
    }
}

/// Whether `pool` is the record that `initialize` makes of `ctx` and `seed`.
pub open spec fn created_from(pool: SwapPool, ctx: Initialize, seed: Seq<u8>) -> bool {
    &&& pool.token_a_mint == ctx.token_a_mint
    &&& pool.token_b_mint == ctx.token_b_mint
    &&& pool.token_a_account == ctx.token_a_account.key
    &&& pool.token_b_account == ctx.token_b_account.key
    &&& pool.authority == ctx.authority
    &&& pool.seed@ == seed
}

impl SwapPool {
    /// The record's invariant: distinct mints, a seed of bounded length, and
    /// reserves owned by the authority derived from that seed.
    pub open spec fn valid(&self, program_id: Seq<u8>) -> bool {
        &&& self.token_a_mint@ != self.token_b_mint@
        &&& self.seed@.len() <= MAX_SEED_LEN
        &&& authority_of(self.seed@, program_id) is Some
    }
}

impl SwapProgram {
    /// No two records share a seed, and every record is valid.
    pub open spec fn wf(&self) -> bool {
        &&& forall|i: int, j: int|
            0 <= i < j < self.pools@.len() ==> (#[trigger] self.pools@[i]).seed@
                != (#[trigger] self.pools@[j]).seed@
        &&& forall|i: int|
            0 <= i < self.pools@.len() ==> (#[trigger] self.pools@[i]).valid(self.program_id@)
    }

    /// A program with no pools yet.
    pub fn new(program_id: Address) -> (r: SwapProgram)
        ensures
            r.program_id == program_id,
            r.pools@ == Seq::<SwapPool>::empty(),
            r.wf(),
    {
        SwapProgram { program_id, pools: Vec::new() }
    }

    /// The index of the record created with `seed`, if there is one.
    pub fn find_pool(&self, seed: &[u8]) -> (r: Option<usize>)
        ensures
            match r {
                Some(i) => i < self.pools@.len() && self.pools@[i as int].seed@ == seed@,
                None => !seed_taken(self.pools@, seed@),
            },
    {
        let mut i: usize = 0;
        while i < self.pools.len()
            invariant
                0 <= i <= self.pools@.len(),
                forall|j: int| 0 <= j < i ==> (#[trigger] self.pools@[j]).seed@ != seed@,
            decreases self.pools@.len() - i,
        {
            if bytes_equal(self.pools[i].seed.as_slice(), seed) {
                return Some(i);
            }
            i = i + 1;
        }
        None
    }
}

/// Creates the pool record for `seed`. The two reserve accounts must hold
/// the claimed mints and be owned by the authority derived from `seed`; no
/// funds move.
pub fn initialize(program: &mut SwapProgram, ctx: &Initialize, seed: Vec<u8>) -> (r: Result<(), ErrorCode>)
    requires
        old(program).wf(),
        seed@.len() <= MAX_SEED_LEN,
    ensures
        final(program).wf(),
        final(program).program_id == old(program).program_id,
        match r {
            Ok(()) => {
                &&& initialize_error(old(program).pools@, old(program).program_id@, *ctx, seed@) is None
                &&& final(program).pools@.len() == old(program).pools@.len() + 1
                &&& final(program).pools@.drop_last() == old(program).pools@
                &&& created_from(final(program).pools@.last(), *ctx, seed@)
            },
            Err(e) => {
                &&& initialize_error(old(program).pools@, old(program).program_id@, *ctx, seed@)
                    == Some(e)
                &&& final(program).pools@ == old(program).pools@
            },
        },
        ({
            &&& !seed_taken(old(program).pools@, seed@)
            &&& ctx.token_a_account.mint@ == ctx.token_a_mint@
            &&& ctx.token_b_account.mint@ == ctx.token_b_mint@
            &&& !(owned_by_authority(ctx.token_a_account, seed@, old(program).program_id@)
                && owned_by_authority(ctx.token_b_account, seed@, old(program).program_id@))
        }) ==> r == Err::<(), ErrorCode>(ErrorCode::InvalidOwner) && final(program).pools@ == old(
            program,
        ).pools@,
{
    if program.find_pool(seed.as_slice()).is_some() {
        return Err(ErrorCode::PoolExists);
    }
    let derived = derive_authority(seed.as_slice(), &program.program_id);
    if !ctx.token_a_account.mint.same_as(&ctx.token_a_mint) {
        return Err(ErrorCode::InvalidMint);
    }
    let owner_a_ok = match derived {
        Some((a, _)) => ctx.token_a_account.owner.same_as(&a),
        None => false,
    };
    if !owner_a_ok {
        return Err(ErrorCode::InvalidOwner);
    }
    if !ctx.token_b_account.mint.same_as(&ctx.token_b_mint) {
        return Err(ErrorCode::InvalidMint);
    }
    let owner_b_ok = match derived {
        Some((a, _)) => ctx.token_b_account.owner.same_as(&a),
        None => false,
    };
    if !owner_b_ok {
        return Err(ErrorCode::InvalidOwner);
    }
    if ctx.token_a_mint.same_as(&ctx.token_b_mint) {
        return Err(ErrorCode::InvalidMint);
    }
    let pool = SwapPool {
        token_a_mint: ctx.token_a_mint,
        token_b_mint: ctx.token_b_mint,
        token_a_account: ctx.token_a_account.key,
        token_b_account: ctx.token_b_account.key,
        authority: ctx.authority,
        seed,
    };
    let ghost before = program.pools@;
    program.pools.push(pool);
    assert(program.pools@.drop_last() =~= before);
    assert forall|i: int, j: int|
        0 <= i < j < program.pools@.len() implies (#[trigger] program.pools@[i]).seed@
            != (#[trigger] program.pools@[j]).seed@ by {
        if j == before.len() {
            assert(before[i] == program.pools@[i]);
        }
    }
    Ok(())
}

/// Pools with distinct seeds are independent: a record made with one seed,
/// whatever its mints, changes nothing in how `initialize` answers for
/// another seed, and that seed's record is checked against the authority
/// derived from its own seed alone.
pub proof fn lemma_distinct_seeds_independent(
    pools: Seq<SwapPool>,
    program_id: Seq<u8>,
    first: SwapPool,
    ctx: Initialize,
    seed: Seq<u8>,
)
    requires
        first.seed@ != seed,
    ensures
        initialize_error(pools.push(first), program_id, ctx, seed) == initialize_error(
            pools,
            program_id,
            ctx,
            seed,
        ),
{
    let more = pools.push(first);
    if seed_taken(more, seed) {
        let i = choose|i: int| 0 <= i < more.len() && (#[trigger] more[i]).seed@ == seed;
        assert(i < pools.len());
        assert(pools[i] == more[i]);
    }
    if seed_taken(pools, seed) {
        let i = choose|i: int| 0 <= i < pools.len() && (#[trigger] pools[i]).seed@ == seed;
        assert(pools[i] == more[i]);
    }
}

} // verus!
