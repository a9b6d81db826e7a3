use vstd::prelude::*;

use crate::address::{Address, TokenAccount};
use crate::authority::{authority_label, authority_label_bytes, authority_of, derive_authority};
use crate::pool::{owned_by_authority, ErrorCode, SwapPool, SwapProgram};

verus! {

/// The accounts handed to a swap.
#[derive(Clone, Debug, PartialEq, Eq)]
pub struct Swap {
    pub swap_pool: SwapPool,
    pub pool_token_a: TokenAccount,
    pub pool_token_b: TokenAccount,
    pub user_token_a: TokenAccount,
    pub user_token_b: TokenAccount,
    /// The caller, who signs the deposit leg.
    pub user: Address,
}

/// Which asset the caller gives.
#[derive(Clone, Copy, Debug, PartialEq, Eq, Structural)]
pub enum Direction {
    AToB,
    BToA,
}

/// One ledger transfer of `amount` tokens from `from` to `to`, authorized by
/// the owner `authority`.
#[derive(Clone, Copy, Debug, PartialEq, Eq)]
pub struct Transfer {
    pub from: Address,
    pub to: Address,
    pub authority: Address,
    pub amount: u64,
}

/// The seeds `[label, seed, [bump]]` with which the program signs for its
/// derived authority.
#[derive(Clone, Debug, PartialEq, Eq)]
pub struct SignerSeeds {
    pub label: Vec<u8>,
    pub seed: Vec<u8>,
    pub bump: u8,
}

/// The two legs of an accepted swap, to be performed in order and as one
/// atomic unit: the caller's deposit into the pool, then the pool's payment
/// to the caller, signed with `signer`.
#[derive(Clone, Debug, PartialEq, Eq)]
pub struct SwapLegs {
    pub deposit: Transfer,
    pub withdrawal: Transfer,
    pub signer: SignerSeeds,
}

/// The caller's account that pays.
pub open spec fn user_source(s: Swap, d: Direction) -> TokenAccount {
    match d {
        Direction::AToB => s.user_token_a,
        Direction::BToA => s.user_token_b,
    }
}

/// The caller's account that is paid.
pub open spec fn user_target(s: Swap, d: Direction) -> TokenAccount {
    match d {
        Direction::AToB => s.user_token_b,
        Direction::BToA => s.user_token_a,
    }
}

/// The pool's reserve that is paid.
pub open spec fn pool_source(s: Swap, d: Direction) -> TokenAccount {
    match d {
        Direction::AToB => s.pool_token_a,
        Direction::BToA => s.pool_token_b,
    }
}

/// The pool's reserve that pays.
pub open spec fn pool_target(s: Swap, d: Direction) -> TokenAccount {
    match d {
        Direction::AToB => s.pool_token_b,
        Direction::BToA => s.pool_token_a,
    }
}

/// The balances of each mint, the pool's and the caller's together, fit in
/// a `u64`, as they do on a ledger whose supply of each mint does.
pub open spec fn balances_fit(s: Swap) -> bool {
    &&& s.pool_token_a.amount + s.user_token_a.amount <= u64::MAX
    &&& s.pool_token_b.amount + s.user_token_b.amount <= u64::MAX
}

/// The first account that does not match the pool record, as an error.
pub open spec fn accounts_error(s: Swap, program_id: Seq<u8>) -> Option<ErrorCode> {
    let pool = s.swap_pool;
    if s.pool_token_a.mint@ != pool.token_a_mint@ {
        Some(ErrorCode::InvalidMint)
    } else if s.pool_token_a.key@ != pool.token_a_account@ {
        Some(ErrorCode::InvalidAccount)
    } else if !owned_by_authority(s.pool_token_a, pool.seed@, program_id) {
        Some(ErrorCode::InvalidOwner)
    } else if s.pool_token_b.mint@ != pool.token_b_mint@ {
        Some(ErrorCode::InvalidMint)
    } else if s.pool_token_b.key@ != pool.token_b_account@ {
        Some(ErrorCode::InvalidAccount)
    } else if !owned_by_authority(s.pool_token_b, pool.seed@, program_id) {
        Some(ErrorCode::InvalidOwner)
    } else if s.user_token_a.mint@ != pool.token_a_mint@ {
        Some(ErrorCode::InvalidMint)
    } else if s.user_token_a.owner@ != s.user@ {
        Some(ErrorCode::InvalidOwner)
    } else if s.user_token_b.mint@ != pool.token_b_mint@ {
        Some(ErrorCode::InvalidMint)
    } else if s.user_token_b.owner@ != s.user@ {
        Some(ErrorCode::InvalidOwner)
    } else {
        None
    }
}

/// The refusal of a swap of `amount` in direction `d`, or `None` where it
/// is accepted. Amount and balances are checked before the accounts.
pub open spec fn swap_error(s: Swap, d: Direction, amount: u64, program_id: Seq<u8>) -> Option<ErrorCode> {
    if amount == 0 {
        Some(ErrorCode::InvalidAmount)
    } else if user_source(s, d).amount < amount {
        Some(ErrorCode::InsufficientFunds)
    } else if pool_target(s, d).amount < amount {
        Some(ErrorCode::InsufficientFunds)
    } else {
        accounts_error(s, program_id)
    }
}

/// `account` with `delta` added to its balance.
pub open spec fn credited(account: TokenAccount, delta: int) -> TokenAccount {
    TokenAccount { amount: (account.amount + delta) as u64, ..account }
}

/// The accounts after a swap of `amount` in direction `d`: the caller's
/// source and the pool's target reserve lose `amount`, the pool's source
/// reserve and the caller's target account gain it.
pub open spec fn swapped(s: Swap, d: Direction, amount: u64) -> Swap {
    match d {
        Direction::AToB => Swap {
            user_token_a: credited(s.user_token_a, -amount),
            pool_token_a: credited(s.pool_token_a, amount as int),
            pool_token_b: credited(s.pool_token_b, -amount),
            user_token_b: credited(s.user_token_b, amount as int),
            ..s
        },
        Direction::BToA => Swap {
            user_token_b: credited(s.user_token_b, -amount),
            pool_token_b: credited(s.pool_token_b, amount as int),
            pool_token_a: credited(s.pool_token_a, -amount),
            user_token_a: credited(s.user_token_a, amount as int),
            ..s
        },
    }
}

/// Whether `legs` are the two transfers of a swap of `amount` in direction
/// `d`, the second signed for the authority derived from the pool's seed.
pub open spec fn legs_of(legs: SwapLegs, s: Swap, d: Direction, amount: u64, program_id: Seq<u8>) -> bool {
    &&& legs.deposit == (Transfer {
        from: user_source(s, d).key,
        to: pool_source(s, d).key,
        authority: s.user,
        amount,
    })
    &&& legs.withdrawal.from == pool_target(s, d).key
    &&& legs.withdrawal.to == user_target(s, d).key
    &&& legs.withdrawal.amount == amount
    &&& legs.signer.label@ == authority_label()
    &&& legs.signer.seed@ == s.swap_pool.seed@
    &&& authority_of(s.swap_pool.seed@, program_id) == Some(
        (legs.withdrawal.authority@, legs.signer.bump),
    )
}

/// Checks every supplied account against the pool record and returns the
/// pool's derived authority with its bump.
pub fn validate_accounts(ctx: &Swap, program_id: &Address) -> (r: Result<(Address, u8), ErrorCode>)
    ensures
        match r {
            Ok((a, bump)) => {
                &&& accounts_error(*ctx, program_id@) is None
                &&& authority_of(ctx.swap_pool.seed@, program_id@) == Some((a@, bump))
            },
            Err(e) => accounts_error(*ctx, program_id@) == Some(e),
        },
{
    let pool = &ctx.swap_pool;
    let derived = derive_authority(pool.seed.as_slice(), program_id);
    if !ctx.pool_token_a.mint.same_as(&pool.token_a_mint) {
        return Err(ErrorCode::InvalidMint);
    }
    if !ctx.pool_token_a.key.same_as(&pool.token_a_account) {
        return Err(ErrorCode::InvalidAccount);
    }
    let (authority, bump) = match derived {
        Some(d) => d,
        None => return Err(ErrorCode::InvalidOwner),
    };
    if !ctx.pool_token_a.owner.same_as(&authority) {
        return Err(ErrorCode::InvalidOwner);
    }
    if !ctx.pool_token_b.mint.same_as(&pool.token_b_mint) {
        return Err(ErrorCode::InvalidMint);
    }
    if !ctx.pool_token_b.key.same_as(&pool.token_b_account) {
        return Err(ErrorCode::InvalidAccount);
    }
    if !ctx.pool_token_b.owner.same_as(&authority) {
        return Err(ErrorCode::InvalidOwner);
    }
    if !ctx.user_token_a.mint.same_as(&pool.token_a_mint) {
        return Err(ErrorCode::InvalidMint);
    }
    if !ctx.user_token_a.owner.same_as(&ctx.user) {
        return Err(ErrorCode::InvalidOwner);
    }
    if !ctx.user_token_b.mint.same_as(&pool.token_b_mint) {
        return Err(ErrorCode::InvalidMint);
    }
    if !ctx.user_token_b.owner.same_as(&ctx.user) {
        return Err(ErrorCode::InvalidOwner);
    }
    Ok((authority, bump))
}

/// Swaps `amount` of one asset for the same amount of the other. On success
/// the balances in `ctx` are those the ledger holds once the returned legs
/// have been performed; on refusal nothing changes.
pub fn swap(program: &SwapProgram, ctx: &mut Swap, d: Direction, amount: u64) -> (r: Result<SwapLegs, ErrorCode>)
    requires
        balances_fit(*old(ctx)),
    ensures
        match r {
            Ok(legs) => {
                &&& swap_error(*old(ctx), d, amount, program.program_id@) is None
                &&& *final(ctx) == swapped(*old(ctx), d, amount)
                &&& legs_of(legs, *old(ctx), d, amount, program.program_id@)
            },
            Err(e) => {
                &&& swap_error(*old(ctx), d, amount, program.program_id@) == Some(e)
                &&& *final(ctx) == *old(ctx)
            },
        },
        balances_fit(*final(ctx)),
        amount > pool_target(*old(ctx), d).amount ==> r == Err::<SwapLegs, ErrorCode>(
            ErrorCode::InsufficientFunds,
        ),
        amount == 0 ==> r == Err::<SwapLegs, ErrorCode>(ErrorCode::InvalidAmount),
{
    if amount == 0 {
        return Err(ErrorCode::InvalidAmount);
    }
    let (source_balance, target_reserve) = match d {
        Direction::AToB => (ctx.user_token_a.amount, ctx.pool_token_b.amount),
        Direction::BToA => (ctx.user_token_b.amount, ctx.pool_token_a.amount),
    };
    if source_balance < amount {
        return Err(ErrorCode::InsufficientFunds);
    }
    if target_reserve < amount {
        return Err(ErrorCode::InsufficientFunds);
    }
    let (authority, bump) = match validate_accounts(ctx, &program.program_id) {
        Ok(found) => found,
        Err(e) => return Err(e),
    };
    let (user_source, pool_source, pool_target, user_target) = match d {
        Direction::AToB => {
            (ctx.user_token_a.key, ctx.pool_token_a.key, ctx.pool_token_b.key, ctx.user_token_b.key)
        },
        Direction::BToA => {
            (ctx.user_token_b.key, ctx.pool_token_b.key, ctx.pool_token_a.key, ctx.user_token_a.key)
        },
    };
    let deposit = Transfer { from: user_source, to: pool_source, authority: ctx.user, amount };
    let withdrawal = Transfer { from: pool_target, to: user_target, authority, amount };
    let signer = SignerSeeds {
        label: authority_label_bytes(),
        seed: ctx.swap_pool.seed.clone(),
        bump,
    };
    match d {
        Direction::AToB => {
            ctx.user_token_a.amount = ctx.user_token_a.amount - amount;
            ctx.pool_token_a.amount = ctx.pool_token_a.amount + amount;
            ctx.pool_token_b.amount = ctx.pool_token_b.amount - amount;
            ctx.user_token_b.amount = ctx.user_token_b.amount + amount;
        },
        Direction::BToA => {
            ctx.user_token_b.amount = ctx.user_token_b.amount - amount;
            ctx.pool_token_b.amount = ctx.pool_token_b.amount + amount;
            ctx.pool_token_a.amount = ctx.pool_token_a.amount - amount;
            ctx.user_token_a.amount = ctx.user_token_a.amount + amount;
        },
    }
    Ok(SwapLegs { deposit, withdrawal, signer })
}

/// Swaps `amount` of asset A from the caller for the same amount of asset B
/// from the pool.
pub fn swap_a_to_b(program: &SwapProgram, ctx: &mut Swap, amount: u64) -> (r: Result<SwapLegs, ErrorCode>)
    requires
        balances_fit(*old(ctx)),
    ensures
        match r {
            Ok(legs) => {
                &&& swap_error(*old(ctx), Direction::AToB, amount, program.program_id@) is None
                &&& *final(ctx) == swapped(*old(ctx), Direction::AToB, amount)
                &&& legs_of(legs, *old(ctx), Direction::AToB, amount, program.program_id@)
            },
            Err(e) => {
                &&& swap_error(*old(ctx), Direction::AToB, amount, program.program_id@) == Some(e)
                &&& *final(ctx) == *old(ctx)
            },
        },
        balances_fit(*final(ctx)),
        amount > old(ctx).pool_token_b.amount ==> r == Err::<SwapLegs, ErrorCode>(
            ErrorCode::InsufficientFunds,
        ),
        amount == 0 ==> r == Err::<SwapLegs, ErrorCode>(ErrorCode::InvalidAmount),
{
    swap(program, ctx, Direction::AToB, amount)
}

/// Swaps `amount` of asset B from the caller for the same amount of asset A
/// from the pool.
pub fn swap_b_to_a(program: &SwapProgram, ctx: &mut Swap, amount: u64) -> (r: Result<SwapLegs, ErrorCode>)
    requires
        balances_fit(*old(ctx)),
    ensures
        match r {
            Ok(legs) => {
                &&& swap_error(*old(ctx), Direction::BToA, amount, program.program_id@) is None
                &&& *final(ctx) == swapped(*old(ctx), Direction::BToA, amount)
                &&& legs_of(legs, *old(ctx), Direction::BToA, amount, program.program_id@)
            },
            Err(e) => {
                &&& swap_error(*old(ctx), Direction::BToA, amount, program.program_id@) == Some(e)
                &&& *final(ctx) == *old(ctx)
            },
        },
        balances_fit(*final(ctx)),
        amount > old(ctx).pool_token_a.amount ==> r == Err::<SwapLegs, ErrorCode>(
            ErrorCode::InsufficientFunds,
        ),
        amount == 0 ==> r == Err::<SwapLegs, ErrorCode>(ErrorCode::InvalidAmount),
{
    swap(program, ctx, Direction::BToA, amount)
}

/// The other direction.
pub open spec fn reversed(d: Direction) -> Direction {
    match d {
        Direction::AToB => Direction::BToA,
        Direction::BToA => Direction::AToB,
    }
}

/// A swap followed by the same caller's swap of the same amount in the other
/// direction: the second is always accepted, and the two together leave all
/// four balances, and every other field, as they were.
pub proof fn lemma_round_trip(s: Swap, d: Direction, amount: u64, program_id: Seq<u8>)
    requires
        balances_fit(s),
        swap_error(s, d, amount, program_id) is None,
    ensures
        balances_fit(swapped(s, d, amount)),
        swap_error(swapped(s, d, amount), reversed(d), amount, program_id) is None,
        swapped(swapped(s, d, amount), reversed(d), amount) == s,
{
    let t = swapped(s, d, amount);
    assert(accounts_error(t, program_id) == accounts_error(s, program_id));
    let u = swapped(t, reversed(d), amount);
    assert(u.user_token_a == s.user_token_a);
    assert(u.user_token_b == s.user_token_b);
    assert(u.pool_token_a == s.pool_token_a);
    assert(u.pool_token_b == s.pool_token_b);
}

/// A swap moves tokens at one for one: the total of each mint over the
/// pool's reserve and the caller's account is the same after it.
pub proof fn lemma_swap_conserves_totals(s: Swap, d: Direction, amount: u64, program_id: Seq<u8>)
    requires
        balances_fit(s),
        swap_error(s, d, amount, program_id) is None,
    ensures
        swapped(s, d, amount).pool_token_a.amount + swapped(s, d, amount).user_token_a.amount
            == s.pool_token_a.amount + s.user_token_a.amount,
        swapped(s, d, amount).pool_token_b.amount + swapped(s, d, amount).user_token_b.amount
            == s.pool_token_b.amount + s.user_token_b.amount,
{
}

} // verus!
