use anchor_lang::prelude::Pubkey;
use solana_swap::{
    authority_label_bytes, derive_authority, initialize, swap_a_to_b, swap_b_to_a, Address,
    ErrorCode, Initialize, Swap, SwapPool, SwapProgram, TokenAccount, Transfer,
};

fn addr(tag: u8) -> Address {
    Address::new([tag; 32])
}

fn program() -> SwapProgram {
    SwapProgram::new(addr(200))
}

fn authority_for(seed: &[u8]) -> (Address, u8) {
    derive_authority(seed, &addr(200)).expect("an authority exists")
}

fn account(key: u8, mint: u8, owner: Address, amount: u64) -> TokenAccount {
    TokenAccount { key: addr(key), mint: addr(mint), owner, amount }
}

fn init_ctx(seed: &[u8]) -> Initialize {
    let (authority, _) = authority_for(seed);
    Initialize {
        token_a_mint: addr(1),
        token_b_mint: addr(2),
        token_a_account: account(10, 1, authority, 1000),
        token_b_account: account(11, 2, authority, 1000),
        authority: addr(50),
    }
}

fn pool_record(seed: &[u8]) -> SwapPool {
    SwapPool {
        token_a_mint: addr(1),
        token_b_mint: addr(2),
        token_a_account: addr(10),
        token_b_account: addr(11),
        authority: addr(50),
        seed: seed.to_vec(),
    }
}

/// Reserves A=1000, B=1000; the caller holds A=100, B=0.
fn swap_ctx() -> Swap {
    let seed = b"pool-one";
    let (authority, _) = authority_for(seed);
    let user = addr(60);
    Swap {
        swap_pool: pool_record(seed),
        pool_token_a: account(10, 1, authority, 1000),
        pool_token_b: account(11, 2, authority, 1000),
        user_token_a: account(20, 1, user, 100),
        user_token_b: account(21, 2, user, 0),
        user,
    }
}

fn balances(s: &Swap) -> [u64; 4] {
    [s.user_token_a.amount, s.user_token_b.amount, s.pool_token_a.amount, s.pool_token_b.amount]
}

#[test]
fn derived_authority_matches_ledger_derivation() {
    let seed = b"pool-one";
    let program_id = Pubkey::new_from_array([200; 32]);
    let (expected, bump) =
        Pubkey::find_program_address(&[b"swap_authority".as_ref(), seed.as_ref()], &program_id);
    let (got, got_bump) = authority_for(seed);
    assert_eq!(got.bytes, expected.to_bytes());
    assert_eq!(got_bump, bump);
    assert_ne!(got, addr(200));
    assert_eq!(authority_label_bytes(), b"swap_authority".to_vec());
}

#[test]
fn distinct_seeds_give_distinct_authorities() {
    assert_ne!(authority_for(b"pool-one").0, authority_for(b"pool-two").0);
}

#[test]
fn initialize_creates_record() {
    let mut p = program();
    let seed = b"pool-one".to_vec();
    assert_eq!(initialize(&mut p, &init_ctx(&seed), seed.clone()), Ok(()));
    assert_eq!(p.pools, vec![pool_record(&seed)]);
    assert_eq!(p.find_pool(&seed), Some(0));
}

#[test]
fn initialize_two_pools_same_mints() {
    let mut p = program();
    let one = b"pool-one".to_vec();
    let two = b"pool-two".to_vec();
    assert_eq!(initialize(&mut p, &init_ctx(&one), one.clone()), Ok(()));
    assert_eq!(initialize(&mut p, &init_ctx(&two), two.clone()), Ok(()));
    assert_eq!(p.pools.len(), 2);
    assert_eq!(p.find_pool(&one), Some(0));
    assert_eq!(p.find_pool(&two), Some(1));
    assert_eq!(p.pools[1], pool_record(&two));
}

#[test]
fn initialize_same_seed_twice_fails() {
    let mut p = program();
    let seed = b"pool-one".to_vec();
    assert_eq!(initialize(&mut p, &init_ctx(&seed), seed.clone()), Ok(()));
    assert_eq!(initialize(&mut p, &init_ctx(&seed), seed.clone()), Err(ErrorCode::PoolExists));
    assert_eq!(p.pools.len(), 1);
}

#[test]
fn initialize_foreign_owner_fails() {
    let mut p = program();
    let seed = b"pool-one".to_vec();
    let mut ctx = init_ctx(&seed);
    ctx.token_b_account.owner = addr(50);
    assert_eq!(initialize(&mut p, &ctx, seed.clone()), Err(ErrorCode::InvalidOwner));
    assert!(p.pools.is_empty());
}

#[test]
fn initialize_owner_derived_from_other_seed_fails() {
    let mut p = program();
    let seed = b"pool-one".to_vec();
    let ctx = init_ctx(b"pool-two");
    assert_eq!(initialize(&mut p, &ctx, seed), Err(ErrorCode::InvalidOwner));
    assert!(p.pools.is_empty());
}

#[test]
fn initialize_wrong_mint_fails() {
    let mut p = program();
    let seed = b"pool-one".to_vec();
    let mut ctx = init_ctx(&seed);
    ctx.token_a_account.mint = addr(3);
    assert_eq!(initialize(&mut p, &ctx, seed), Err(ErrorCode::InvalidMint));
    assert!(p.pools.is_empty());
}

#[test]
fn initialize_same_mint_twice_fails() {
    let mut p = program();
    let seed = b"pool-one".to_vec();
    let mut ctx = init_ctx(&seed);
    ctx.token_b_mint = addr(1);
    ctx.token_b_account.mint = addr(1);
    assert_eq!(initialize(&mut p, &ctx, seed), Err(ErrorCode::InvalidMint));
}

#[test]
fn swap_a_to_b_then_back() {
    let p = program();
    let mut s = swap_ctx();
    let legs = swap_a_to_b(&p, &mut s, 40).expect("swap accepted");
    assert_eq!(balances(&s), [60, 40, 1040, 960]);
    assert_eq!(
        legs.deposit,
        Transfer { from: addr(20), to: addr(10), authority: addr(60), amount: 40 }
    );
    let (authority, bump) = authority_for(b"pool-one");
    assert_eq!(
        legs.withdrawal,
        Transfer { from: addr(11), to: addr(21), authority, amount: 40 }
    );
    assert_eq!(legs.signer.seed, b"pool-one".to_vec());
    assert_eq!(legs.signer.bump, bump);
    assert_eq!(legs.signer.label, b"swap_authority".to_vec());

    let back = swap_b_to_a(&p, &mut s, 40).expect("swap back accepted");
    assert_eq!(balances(&s), [100, 0, 1000, 1000]);
    assert_eq!(back.deposit.from, addr(21));
    assert_eq!(back.deposit.to, addr(11));
    assert_eq!(back.withdrawal.from, addr(10));
    assert_eq!(back.withdrawal.to, addr(20));
    assert_eq!(s, swap_ctx());
}

#[test]
fn swap_more_than_reserve_fails() {
    let p = program();
    let mut s = swap_ctx();
    s.user_token_a.amount = 10_000;
    assert_eq!(swap_a_to_b(&p, &mut s, 5000), Err(ErrorCode::InsufficientFunds));
    assert_eq!(balances(&s), [10_000, 0, 1000, 1000]);
}

#[test]
fn swap_more_than_caller_holds_fails() {
    let p = program();
    let mut s = swap_ctx();
    assert_eq!(swap_a_to_b(&p, &mut s, 5000), Err(ErrorCode::InsufficientFunds));
    assert_eq!(balances(&s), [100, 0, 1000, 1000]);
    assert_eq!(swap_b_to_a(&p, &mut s, 1), Err(ErrorCode::InsufficientFunds));
    assert_eq!(s, swap_ctx());
}

#[test]
fn swap_zero_fails() {
    let p = program();
    let mut s = swap_ctx();
    assert_eq!(swap_a_to_b(&p, &mut s, 0), Err(ErrorCode::InvalidAmount));
    assert_eq!(swap_b_to_a(&p, &mut s, 0), Err(ErrorCode::InvalidAmount));
    assert_eq!(s, swap_ctx());
}

#[test]
fn swap_whole_reserve() {
    let p = program();
    let mut s = swap_ctx();
    s.user_token_a.amount = 1000;
    assert!(swap_a_to_b(&p, &mut s, 1000).is_ok());
    assert_eq!(balances(&s), [0, 1000, 2000, 0]);
}

#[test]
fn swap_wrong_reserve_mint_fails() {
    let p = program();
    let mut s = swap_ctx();
    s.pool_token_b.mint = addr(1);
    assert_eq!(swap_a_to_b(&p, &mut s, 40), Err(ErrorCode::InvalidMint));
    assert_eq!(balances(&s), [100, 0, 1000, 1000]);
}

#[test]
fn swap_wrong_user_mint_fails() {
    let p = program();
    let mut s = swap_ctx();
    s.user_token_b.mint = addr(1);
    assert_eq!(swap_a_to_b(&p, &mut s, 40), Err(ErrorCode::InvalidMint));
}

#[test]
fn swap_unrecorded_reserve_fails() {
    let p = program();
    let mut s = swap_ctx();
    s.pool_token_a.key = addr(30);
    assert_eq!(swap_a_to_b(&p, &mut s, 40), Err(ErrorCode::InvalidAccount));
    assert_eq!(balances(&s), [100, 0, 1000, 1000]);
}

#[test]
fn swap_reserve_not_owned_by_authority_fails() {
    let p = program();
    let mut s = swap_ctx();
    s.pool_token_b.owner = addr(60);
    assert_eq!(swap_a_to_b(&p, &mut s, 40), Err(ErrorCode::InvalidOwner));
}

#[test]
fn swap_under_other_program_fails() {
    let p = SwapProgram::new(addr(201));
    let mut s = swap_ctx();
    assert_eq!(swap_a_to_b(&p, &mut s, 40), Err(ErrorCode::InvalidOwner));
    assert_eq!(s, swap_ctx());
}

#[test]
fn swap_user_account_of_other_owner_fails() {
    let p = program();
    let mut s = swap_ctx();
    s.user_token_a.owner = addr(61);
    assert_eq!(swap_a_to_b(&p, &mut s, 40), Err(ErrorCode::InvalidOwner));
    assert_eq!(balances(&s), [100, 0, 1000, 1000]);
}

#[test]
fn amount_checked_before_accounts() {
    let p = program();
    let mut s = swap_ctx();
    s.pool_token_a.key = addr(30);
    assert_eq!(swap_a_to_b(&p, &mut s, 0), Err(ErrorCode::InvalidAmount));
    assert_eq!(swap_a_to_b(&p, &mut s, 101), Err(ErrorCode::InsufficientFunds));
}
