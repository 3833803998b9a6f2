use spl_escrow::address::{derive_escrow_address, derive_vault_address, Address};
use spl_escrow::escrow::{
    accept_escrow, cancel_escrow, create_escrow, AcceptEscrow, CancelEscrow, CreateEscrow, EscrowError,
};
use spl_escrow::ledger::{Ledger, TokenAccount};

fn addr(b: u8) -> Address {
    Address { bytes: [b; 32] }
}

const PROGRAM: u8 = 200;
const SELLER: u8 = 1;
const BUYER: u8 = 2;
const MINT_X: u8 = 10;
const MINT_Y: u8 = 11;
const SELLER_X: u8 = 20;
const SELLER_Y: u8 = 21;
const BUYER_X: u8 = 22;
const BUYER_Y: u8 = 23;

fn holding(at: u8, mint: u8, owner: u8, amount: u64) -> TokenAccount {
    TokenAccount { address: addr(at), mint: addr(mint), owner: addr(owner), amount }
}

/// A ledger where the seller holds 500 X and 7 Y, and the buyer `buyer_y` Y and 3 X.
fn setup(buyer_y: u64) -> Ledger {
    let mut l = Ledger::new(addr(PROGRAM));
    l.open_token_account(holding(SELLER_X, MINT_X, SELLER, 500)).unwrap();
    l.open_token_account(holding(SELLER_Y, MINT_Y, SELLER, 7)).unwrap();
    l.open_token_account(holding(BUYER_X, MINT_X, BUYER, 3)).unwrap();
    l.open_token_account(holding(BUYER_Y, MINT_Y, BUYER, buyer_y)).unwrap();
    l
}

fn create_ctx() -> CreateEscrow {
    CreateEscrow {
        seller: addr(SELLER),
        offer_mint: addr(MINT_X),
        request_mint: addr(MINT_Y),
        seller_offer_token: addr(SELLER_X),
    }
}

fn escrow_and_vault() -> (Address, Address) {
    let (e, _) = derive_escrow_address(&addr(PROGRAM), &addr(SELLER), &addr(MINT_X), &addr(MINT_Y)).unwrap();
    let (v, _) = derive_vault_address(&addr(PROGRAM), &e).unwrap();
    (e, v)
}

fn accept_ctx(escrow: Address) -> AcceptEscrow {
    AcceptEscrow {
        buyer: addr(BUYER),
        seller: addr(SELLER),
        offer_mint: addr(MINT_X),
        request_mint: addr(MINT_Y),
        escrow,
        buyer_request_token: addr(BUYER_Y),
        buyer_offer_token: addr(BUYER_X),
        seller_request_token: addr(SELLER_Y),
    }
}

fn cancel_ctx(seller: u8, escrow: Address) -> CancelEscrow {
    CancelEscrow { seller: addr(seller), offer_mint: addr(MINT_X), escrow, seller_offer_token: addr(SELLER_X) }
}

fn amount(l: &Ledger, at: &Address) -> u64 {
    l.token_account(at).unwrap().amount
}

#[test]
fn create_locks_offer_in_vault() {
    let mut l = setup(60);
    assert_eq!(create_escrow(&create_ctx(), &mut l, 100, 50), Ok(()));
    let (e, v) = escrow_and_vault();
    let rec = l.record(&e).unwrap();
    assert_eq!(rec.offer_amount, 100);
    assert_eq!(rec.request_amount, 50);
    assert_eq!(rec.seller.bytes, addr(SELLER).bytes);
    let vault = l.token_account(&v).unwrap();
    assert_eq!(vault.amount, 100);
    assert_eq!(vault.owner.bytes, e.bytes);
    assert_eq!(vault.mint.bytes, addr(MINT_X).bytes);
    assert_eq!(amount(&l, &addr(SELLER_X)), 400);
}

#[test]
fn accept_exchanges_both_sides() {
    let mut l = setup(60);
    create_escrow(&create_ctx(), &mut l, 100, 50).unwrap();
    let (e, v) = escrow_and_vault();
    assert_eq!(amount(&l, &v), 100);
    assert_eq!(accept_escrow(&accept_ctx(e), &mut l), Ok(()));
    assert_eq!(amount(&l, &addr(SELLER_Y)), 7 + 50);
    assert_eq!(amount(&l, &addr(BUYER_X)), 3 + 100);
    assert_eq!(amount(&l, &addr(BUYER_Y)), 10);
    assert_eq!(amount(&l, &addr(SELLER_X)), 400);
    assert!(l.record(&e).is_none());
    assert!(l.token_account(&v).is_none());
}

#[test]
fn cancel_returns_offer() {
    let mut l = setup(60);
    create_escrow(&create_ctx(), &mut l, 100, 50).unwrap();
    assert_eq!(amount(&l, &addr(SELLER_X)), 400);
    let (e, v) = escrow_and_vault();
    assert_eq!(cancel_escrow(&cancel_ctx(SELLER, e), &mut l), Ok(()));
    assert_eq!(amount(&l, &addr(SELLER_X)), 500);
    assert!(l.record(&e).is_none());
    assert!(l.token_account(&v).is_none());
}

#[test]
fn zero_offer_is_invalid() {
    let mut l = setup(60);
    assert_eq!(create_escrow(&create_ctx(), &mut l, 0, 50), Err(EscrowError::InvalidAmount));
    let (e, v) = escrow_and_vault();
    assert!(l.record(&e).is_none());
    assert!(l.token_account(&v).is_none());
    assert_eq!(amount(&l, &addr(SELLER_X)), 500);
}

#[test]
fn zero_request_is_invalid() {
    let mut l = setup(60);
    assert_eq!(create_escrow(&create_ctx(), &mut l, 100, 0), Err(EscrowError::InvalidAmount));
}

#[test]
fn buyer_short_of_funds() {
    let mut l = setup(40);
    create_escrow(&create_ctx(), &mut l, 100, 50).unwrap();
    let (e, v) = escrow_and_vault();
    assert_eq!(accept_escrow(&accept_ctx(e), &mut l), Err(EscrowError::InsufficientBalance));
    assert!(l.record(&e).is_some());
    assert_eq!(amount(&l, &v), 100);
    assert_eq!(amount(&l, &addr(BUYER_Y)), 40);
    assert_eq!(amount(&l, &addr(SELLER_Y)), 7);
    assert_eq!(amount(&l, &addr(BUYER_X)), 3);
}

#[test]
fn cancel_by_other_is_unauthorized() {
    let mut l = setup(60);
    create_escrow(&create_ctx(), &mut l, 100, 50).unwrap();
    let (e, v) = escrow_and_vault();
    assert_eq!(cancel_escrow(&cancel_ctx(BUYER, e), &mut l), Err(EscrowError::Unauthorized));
    assert!(l.record(&e).is_some());
    assert_eq!(amount(&l, &v), 100);
    assert_eq!(amount(&l, &addr(SELLER_X)), 400);
}

#[test]
fn second_create_for_same_triple_fails() {
    let mut l = setup(60);
    create_escrow(&create_ctx(), &mut l, 100, 50).unwrap();
    assert_eq!(create_escrow(&create_ctx(), &mut l, 10, 5), Err(EscrowError::AlreadyExists));
    let (e, v) = escrow_and_vault();
    assert_eq!(l.record(&e).unwrap().offer_amount, 100);
    assert_eq!(amount(&l, &v), 100);
    assert_eq!(amount(&l, &addr(SELLER_X)), 400);
}

#[test]
fn create_after_cancel_succeeds_again() {
    let mut l = setup(60);
    create_escrow(&create_ctx(), &mut l, 100, 50).unwrap();
    let (e, v) = escrow_and_vault();
    cancel_escrow(&cancel_ctx(SELLER, e), &mut l).unwrap();
    assert_eq!(create_escrow(&create_ctx(), &mut l, 30, 5), Ok(()));
    assert_eq!(amount(&l, &v), 30);
    assert_eq!(amount(&l, &addr(SELLER_X)), 470);
}

#[test]
fn create_with_short_seller_balance() {
    let mut l = setup(60);
    assert_eq!(create_escrow(&create_ctx(), &mut l, 501, 50), Err(EscrowError::InsufficientBalance));
    assert_eq!(amount(&l, &addr(SELLER_X)), 500);
}

#[test]
fn create_with_wrong_mint_holding() {
    let mut l = setup(60);
    let mut c = create_ctx();
    c.seller_offer_token = addr(SELLER_Y);
    assert_eq!(create_escrow(&c, &mut l, 5, 5), Err(EscrowError::InvalidMint));
}

#[test]
fn create_with_foreign_holding() {
    let mut l = setup(60);
    let mut c = create_ctx();
    c.seller_offer_token = addr(BUYER_X);
    assert_eq!(create_escrow(&c, &mut l, 1, 5), Err(EscrowError::InvalidTokenAccountOwner));
}

#[test]
fn create_with_missing_holding() {
    let mut l = setup(60);
    let mut c = create_ctx();
    c.seller_offer_token = addr(99);
    assert_eq!(create_escrow(&c, &mut l, 1, 5), Err(EscrowError::AccountNotFound));
}

#[test]
fn accept_missing_record() {
    let mut l = setup(60);
    let (e, _) = escrow_and_vault();
    assert_eq!(accept_escrow(&accept_ctx(e), &mut l), Err(EscrowError::AccountNotFound));
}

#[test]
fn accept_with_wrong_seller() {
    let mut l = setup(60);
    create_escrow(&create_ctx(), &mut l, 100, 50).unwrap();
    let (e, _) = escrow_and_vault();
    let mut c = accept_ctx(e);
    c.seller = addr(BUYER);
    assert_eq!(accept_escrow(&c, &mut l), Err(EscrowError::Unauthorized));
}

#[test]
fn accept_with_wrong_mint() {
    let mut l = setup(60);
    create_escrow(&create_ctx(), &mut l, 100, 50).unwrap();
    let (e, _) = escrow_and_vault();
    let mut c = accept_ctx(e);
    c.request_mint = addr(MINT_X);
    assert_eq!(accept_escrow(&c, &mut l), Err(EscrowError::InvalidMint));
}

#[test]
fn accept_with_holding_of_wrong_mint() {
    let mut l = setup(60);
    create_escrow(&create_ctx(), &mut l, 100, 50).unwrap();
    let (e, _) = escrow_and_vault();
    let mut c = accept_ctx(e);
    c.buyer_offer_token = addr(BUYER_Y);
    assert_eq!(accept_escrow(&c, &mut l), Err(EscrowError::InvalidMint));
}

#[test]
fn accept_with_seller_holding_as_buyer_holding() {
    let mut l = setup(60);
    create_escrow(&create_ctx(), &mut l, 100, 50).unwrap();
    let (e, _) = escrow_and_vault();
    let mut c = accept_ctx(e);
    c.buyer_request_token = addr(SELLER_Y);
    assert_eq!(accept_escrow(&c, &mut l), Err(EscrowError::InvalidTokenAccountOwner));
}

#[test]
fn self_trade_through_one_holding_is_refused() {
    let mut l = setup(60);
    create_escrow(&create_ctx(), &mut l, 100, 50).unwrap();
    let (e, v) = escrow_and_vault();
    let mut c = accept_ctx(e);
    c.buyer = addr(SELLER);
    c.buyer_request_token = addr(SELLER_Y);
    c.buyer_offer_token = addr(SELLER_X);
    assert_eq!(accept_escrow(&c, &mut l), Err(EscrowError::DuplicateAccount));
    assert_eq!(amount(&l, &v), 100);
}

#[test]
fn accept_overflowing_seller_balance() {
    let mut l = Ledger::new(addr(PROGRAM));
    l.open_token_account(holding(SELLER_X, MINT_X, SELLER, 500)).unwrap();
    l.open_token_account(holding(SELLER_Y, MINT_Y, SELLER, u64::MAX - 10)).unwrap();
    l.open_token_account(holding(BUYER_X, MINT_X, BUYER, 0)).unwrap();
    l.open_token_account(holding(BUYER_Y, MINT_Y, BUYER, 100)).unwrap();
    create_escrow(&create_ctx(), &mut l, 100, 50).unwrap();
    let (e, _) = escrow_and_vault();
    assert_eq!(accept_escrow(&accept_ctx(e), &mut l), Err(EscrowError::Overflow));
    assert_eq!(amount(&l, &addr(BUYER_Y)), 100);
}

#[test]
fn accept_exact_balance_empties_buyer() {
    let mut l = setup(50);
    create_escrow(&create_ctx(), &mut l, 500, 50).unwrap();
    let (e, _) = escrow_and_vault();
    assert_eq!(accept_escrow(&accept_ctx(e), &mut l), Ok(()));
    assert_eq!(amount(&l, &addr(BUYER_Y)), 0);
    assert_eq!(amount(&l, &addr(BUYER_X)), 503);
    assert_eq!(amount(&l, &addr(SELLER_X)), 0);
}

#[test]
fn accept_twice_fails_cleanly() {
    let mut l = setup(200);
    create_escrow(&create_ctx(), &mut l, 100, 50).unwrap();
    let (e, _) = escrow_and_vault();
    accept_escrow(&accept_ctx(e), &mut l).unwrap();
    assert_eq!(accept_escrow(&accept_ctx(e), &mut l), Err(EscrowError::AccountNotFound));
    assert_eq!(amount(&l, &addr(BUYER_Y)), 150);
}

#[test]
fn cancel_with_wrong_mint() {
    let mut l = setup(60);
    create_escrow(&create_ctx(), &mut l, 100, 50).unwrap();
    let (e, _) = escrow_and_vault();
    let mut c = cancel_ctx(SELLER, e);
    c.offer_mint = addr(MINT_Y);
    assert_eq!(cancel_escrow(&c, &mut l), Err(EscrowError::InvalidMint));
}

#[test]
fn open_token_account_twice_fails() {
    let mut l = setup(60);
    assert_eq!(l.open_token_account(holding(SELLER_X, MINT_Y, BUYER, 1)), Err(EscrowError::AlreadyExists));
    assert_eq!(amount(&l, &addr(SELLER_X)), 500);
}

#[test]
fn derived_addresses_are_deterministic_and_distinct() {
    let p = addr(PROGRAM);
    let a = derive_escrow_address(&p, &addr(SELLER), &addr(MINT_X), &addr(MINT_Y)).unwrap();
    let b = derive_escrow_address(&p, &addr(SELLER), &addr(MINT_X), &addr(MINT_Y)).unwrap();
    let c = derive_escrow_address(&p, &addr(SELLER), &addr(MINT_Y), &addr(MINT_X)).unwrap();
    assert_eq!(a.0.bytes, b.0.bytes);
    assert_eq!(a.1, b.1);
    assert_ne!(a.0.bytes, c.0.bytes);
    assert_ne!(a.0.bytes, addr(SELLER).bytes);
    let v = derive_vault_address(&p, &a.0).unwrap();
    assert_ne!(v.0.bytes, a.0.bytes);
}

#[test]
fn address_comparison() {
    assert!(addr(5).same(&addr(5)));
    assert!(!addr(5).same(&addr(6)));
    assert_eq!(addr(9).to_vec(), vec![9u8; 32]);
}

/// A fresh ledger holding the vault of `src`'s record and the parties' holdings.
fn snapshot_of(src: &Ledger, vault: &Address) -> Ledger {
    let mut l = Ledger::new(addr(PROGRAM));
    l.open_token_account(src.token_account(vault).unwrap()).unwrap();
    for at in [SELLER_X, SELLER_Y, BUYER_X, BUYER_Y] {
        l.open_token_account(src.token_account(&addr(at)).unwrap()).unwrap();
    }
    l
}

#[test]
fn restored_record_can_be_accepted() {
    let mut l = setup(60);
    create_escrow(&create_ctx(), &mut l, 100, 50).unwrap();
    let (e, v) = escrow_and_vault();
    let rec = l.record(&e).unwrap();
    let mut snap = snapshot_of(&l, &v);
    assert_eq!(snap.restore_record(e, rec), Ok(()));
    assert_eq!(snap.restore_record(e, rec), Err(EscrowError::AlreadyExists));
    assert_eq!(accept_escrow(&accept_ctx(e), &mut snap), Ok(()));
    assert_eq!(amount(&snap, &addr(SELLER_Y)), 57);
}

#[test]
fn restore_rejects_wrong_bump() {
    let mut l = setup(60);
    create_escrow(&create_ctx(), &mut l, 100, 50).unwrap();
    let (e, v) = escrow_and_vault();
    let mut rec = l.record(&e).unwrap();
    rec.vault_bump = rec.vault_bump.wrapping_add(1);
    let mut snap = snapshot_of(&l, &v);
    assert_eq!(snap.restore_record(e, rec), Err(EscrowError::InvalidAddress));
    assert!(snap.record(&e).is_none());
}

#[test]
fn restore_rejects_wrong_address() {
    let mut l = setup(60);
    create_escrow(&create_ctx(), &mut l, 100, 50).unwrap();
    let (e, v) = escrow_and_vault();
    let rec = l.record(&e).unwrap();
    let mut snap = snapshot_of(&l, &v);
    assert_eq!(snap.restore_record(addr(77), rec), Err(EscrowError::InvalidAddress));
}

#[test]
fn restore_needs_vault_with_offer() {
    let mut l = setup(60);
    create_escrow(&create_ctx(), &mut l, 100, 50).unwrap();
    let (e, v) = escrow_and_vault();
    let rec = l.record(&e).unwrap();
    let mut empty = Ledger::new(addr(PROGRAM));
    assert_eq!(empty.restore_record(e, rec), Err(EscrowError::AccountNotFound));
    let mut short = Ledger::new(addr(PROGRAM));
    let mut vault = l.token_account(&v).unwrap();
    vault.amount = 99;
    short.open_token_account(vault).unwrap();
    assert_eq!(short.restore_record(e, rec), Err(EscrowError::InvalidAmount));
}

#[test]
fn zero_amount_on_live_triple_is_already_exists() {
    let mut l = setup(60);
    create_escrow(&create_ctx(), &mut l, 100, 50).unwrap();
    assert_eq!(create_escrow(&create_ctx(), &mut l, 0, 5), Err(EscrowError::AlreadyExists));
    assert_eq!(create_escrow(&create_ctx(), &mut l, 5, 0), Err(EscrowError::AlreadyExists));
    assert_eq!(amount(&l, &addr(SELLER_X)), 400);
}

#[test]
fn holding_checked_before_amounts() {
    let mut l = setup(60);
    let mut c = create_ctx();
    c.seller_offer_token = addr(SELLER_Y);
    assert_eq!(create_escrow(&c, &mut l, 0, 5), Err(EscrowError::InvalidMint));
    c.seller_offer_token = addr(BUYER_X);
    assert_eq!(create_escrow(&c, &mut l, 0, 0), Err(EscrowError::InvalidTokenAccountOwner));
    c.seller_offer_token = addr(99);
    assert_eq!(create_escrow(&c, &mut l, 0, 5), Err(EscrowError::AccountNotFound));
}

#[test]
fn accept_deltas_ignore_prior_balances() {
    let mut l = Ledger::new(addr(PROGRAM));
    l.open_token_account(holding(SELLER_X, MINT_X, SELLER, 100)).unwrap();
    l.open_token_account(holding(SELLER_Y, MINT_Y, SELLER, 123_456)).unwrap();
    l.open_token_account(holding(BUYER_X, MINT_X, BUYER, 9_999)).unwrap();
    l.open_token_account(holding(BUYER_Y, MINT_Y, BUYER, 50)).unwrap();
    create_escrow(&create_ctx(), &mut l, 100, 50).unwrap();
    let (e, _) = escrow_and_vault();
    assert_eq!(accept_escrow(&accept_ctx(e), &mut l), Ok(()));
    assert_eq!(amount(&l, &addr(SELLER_Y)), 123_456 + 50);
    assert_eq!(amount(&l, &addr(BUYER_X)), 9_999 + 100);
    assert_eq!(amount(&l, &addr(BUYER_Y)), 0);
}
