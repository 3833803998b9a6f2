//! The escrow state machine: create, accept and cancel.
use vstd::prelude::*;
use crate::address::{Address, derive_escrow_address, derive_vault_address, escrow_address_of, vault_address_of};
use crate::ledger::{Ledger, TokenAccount, with_amount, record_backed};

verus! {

/// The terms of one escrow offer, stored at the record address derived from
/// (seller, offered mint, requested mint).
#[derive(Clone, Copy, Debug)]
pub struct Escrow {
    pub seller: Address,
    pub offer_mint: Address,
    pub request_mint: Address,
    pub offer_amount: u64,
    pub request_amount: u64,
    pub escrow_bump: u8,
    pub vault_bump: u8,
}

/// Why an escrow operation was refused. A refused operation changes nothing.
#[derive(Clone, Copy, Debug, PartialEq, Eq, Structural)]
pub enum EscrowError {
    /// The caller is not the seller of the record, or is itself a record address.
    Unauthorized,
    /// A mint differs from the one the record or the operation names.
    InvalidMint,
    /// A token account is not owned by the party it stands for.
    InvalidTokenAccountOwner,
    /// An amount of the offer is zero.
    InvalidAmount,
    /// The record or vault address for this triple is already in use.
    AlreadyExists,
    /// A token account holds less than it must pay.
    InsufficientBalance,
    /// A named account or record does not exist.
    AccountNotFound,
    /// No program address can be derived from the seeds.
    InvalidAddress,
    /// The same token account is named in two roles.
    DuplicateAccount,
    /// A credit would take a balance past `u64::MAX`.
    Overflow,
}


/// Accounts named by a `create_escrow` call: the seller (who signs), the two
/// mints, and the seller's holding of the offered mint.
#[derive(Clone, Copy, Debug)]
pub struct CreateEscrow {
    pub seller: Address,
    pub offer_mint: Address,
    pub request_mint: Address,
    pub seller_offer_token: Address,
}

/// Accounts named by an `accept_escrow` call: the buyer (who signs), the
/// record's seller and mints, the record address, the buyer's two holdings and
/// the seller's holding of the requested mint.
#[derive(Clone, Copy, Debug)]
pub struct AcceptEscrow {
    pub buyer: Address,
    pub seller: Address,
    pub offer_mint: Address,
    pub request_mint: Address,
    pub escrow: Address,
    pub buyer_request_token: Address,
    pub buyer_offer_token: Address,
    pub seller_request_token: Address,
}

/// Accounts named by a `cancel_escrow` call: the seller (who signs), the
/// offered mint, the record address and the seller's holding of the offered mint.
#[derive(Clone, Copy, Debug)]
pub struct CancelEscrow {
    pub seller: Address,
    pub offer_mint: Address,
    pub escrow: Address,
    pub seller_offer_token: Address,
}

/// The first error of two, in order.
pub open spec fn either(a: Option<EscrowError>, b: Option<EscrowError>) -> Option<EscrowError> {
    match a {
        Some(_) => a,
        None => b,
    }
}

/// Why the token account at `a` cannot serve as `owner`'s holding of `mint`.
pub open spec fn holding_error(tokens: Map<Seq<u8>, TokenAccount>, a: Seq<u8>, mint: Seq<u8>, owner: Seq<u8>) -> Option<EscrowError> {
    if !tokens.contains_key(a) {
        Some(EscrowError::AccountNotFound)
    } else if tokens[a].mint@ != mint {
        Some(EscrowError::InvalidMint)
    } else if tokens[a].owner@ != owner {
        Some(EscrowError::InvalidTokenAccountOwner)
    } else {
        None
    }
}

/// The outcome of a call as a `Result`.
pub open spec fn outcome(e: Option<EscrowError>) -> Result<(), EscrowError> {
    match e {
        Some(e) => Err(e),
        None => Ok(()),
    }
}

/// The error `create_escrow` returns, in order of precedence; `None` when it succeeds.
pub open spec fn create_error(l: Ledger, c: CreateEscrow, offer_amount: u64, request_amount: u64) -> Option<EscrowError> {
    let tk = l.tokens();
    let rs = l.records();
    match escrow_address_of(l.program(), c.seller@, c.offer_mint@, c.request_mint@) {
        None => Some(EscrowError::InvalidAddress),
        Some((e, _)) => if rs.contains_key(e) {
            Some(EscrowError::AlreadyExists)
        } else {
            match vault_address_of(l.program(), e) {
                None => Some(EscrowError::InvalidAddress),
                Some((v, _)) => if tk.contains_key(v) {
                    Some(EscrowError::AlreadyExists)
                } else if rs.contains_key(c.seller@) {
                    Some(EscrowError::Unauthorized)
                } else {
                    either(
                        holding_error(tk, c.seller_offer_token@, c.offer_mint@, c.seller@),
                        if offer_amount == 0 || request_amount == 0 {
                            Some(EscrowError::InvalidAmount)
                        } else if tk[c.seller_offer_token@].amount < offer_amount {
                            Some(EscrowError::InsufficientBalance)
                        } else {
                            None
                        },
                    )
                },
            }
        },
    }
}

/// `l2` is `l` after a successful create: the record holds the terms, a new
/// vault holds exactly the offered amount, and the seller's holding paid it.
pub open spec fn created(l: Ledger, l2: Ledger, c: CreateEscrow, offer_amount: u64, request_amount: u64) -> bool {
    let tk = l.tokens();
    let sot = c.seller_offer_token@;
    match escrow_address_of(l.program(), c.seller@, c.offer_mint@, c.request_mint@) {
        Some((e, eb)) => match vault_address_of(l.program(), e) {
            Some((v, vb)) => {
                &&& l2.program() == l.program()
                &&& l2.records() == l.records().insert(e, Escrow {
                    seller: c.seller,
                    offer_mint: c.offer_mint,
                    request_mint: c.request_mint,
                    offer_amount,
                    request_amount,
                    escrow_bump: eb,
                    vault_bump: vb,
                })
                &&& !tk.contains_key(v)
                &&& l2.tokens().contains_key(v)
                &&& l2.tokens()[v].address@ == v
                &&& l2.tokens()[v].mint@ == c.offer_mint@
                &&& l2.tokens()[v].owner@ == e
                &&& l2.tokens()[v].amount == offer_amount
                &&& l2.tokens().remove(v) == tk.insert(sot, with_amount(tk[sot], tk[sot].amount - offer_amount))
            },
            None => false,
        },
        None => false,
    }
}

/// Reads the holding at `a` and checks that it is `owner`'s holding of `mint`.
fn holding(ledger: &Ledger, a: &Address, mint: &Address, owner: &Address) -> (r: Result<TokenAccount, EscrowError>)
    requires
        ledger.wf(),
    ensures
        match r {
            Ok(t) => holding_error(ledger.tokens(), a@, mint@, owner@) is None && ledger.tokens()[a@] == t,
            Err(e) => holding_error(ledger.tokens(), a@, mint@, owner@) == Some(e),
        },
{
    let t = match ledger.token_account(a) {
        Some(t) => t,
        None => return Err(EscrowError::AccountNotFound),
    };
    if !t.mint.same(mint) {
        return Err(EscrowError::InvalidMint);
    }
    if !t.owner.same(owner) {
        return Err(EscrowError::InvalidTokenAccountOwner);
    }
    Ok(t)
}

/// Locks `offer_amount` of the offered mint in a new vault and records an
/// offer to exchange it for `request_amount` of the requested mint.
pub fn create_escrow(ctx: &CreateEscrow, ledger: &mut Ledger, offer_amount: u64, request_amount: u64) -> (r: Result<(), EscrowError>)
    requires
        old(ledger).wf(),
    ensures
        final(ledger).wf(),
        r == outcome(create_error(*old(ledger), *ctx, offer_amount, request_amount)),
        r is Ok ==> created(*old(ledger), *final(ledger), *ctx, offer_amount, request_amount),
        r is Err ==> *final(ledger) == *old(ledger),
{
    let program_id = ledger.program_id();
    let (escrow, escrow_bump) = match derive_escrow_address(&program_id, &ctx.seller, &ctx.offer_mint, &ctx.request_mint) {
        Some(x) => x,
        None => return Err(EscrowError::InvalidAddress),
    };
    if ledger.has_record(&escrow) {
        return Err(EscrowError::AlreadyExists);
    }
    let (vault, vault_bump) = match derive_vault_address(&program_id, &escrow) {
        Some(x) => x,
        None => return Err(EscrowError::InvalidAddress),
    };
    if ledger.token_account(&vault).is_some() {
        return Err(EscrowError::AlreadyExists);
    }
    if ledger.has_record(&ctx.seller) {
        return Err(EscrowError::Unauthorized);
    }
    let source = match holding(ledger, &ctx.seller_offer_token, &ctx.offer_mint, &ctx.seller) {
        Ok(t) => t,
        Err(e) => return Err(e),
    };
    if offer_amount == 0 || request_amount == 0 {
        return Err(EscrowError::InvalidAmount);
    }
    if source.amount < offer_amount {
        return Err(EscrowError::InsufficientBalance);
    }
    let data = Escrow {
        seller: ctx.seller,
        offer_mint: ctx.offer_mint,
        request_mint: ctx.request_mint,
        offer_amount,
        request_amount,
        escrow_bump,
        vault_bump,
    };
    let ghost l0 = *ledger;
    ledger.add_record(escrow, data);
    ledger.set_token_amount(&ctx.seller_offer_token, source.amount - offer_amount);
    let ghost tk1 = ledger.tokens();
    ledger.add_token_account(TokenAccount { address: vault, mint: ctx.offer_mint, owner: escrow, amount: offer_amount });
    proof {
        let p = ledger.program();
        let tk0 = l0.tokens();
        let rs0 = l0.records();
        let tk = ledger.tokens();
        let rs = ledger.records();
        assert(tk.remove(vault@) =~= tk1);
        assert forall|e2: Seq<u8>| #[trigger] rs.contains_key(e2) implies record_backed(p, tk, e2, rs[e2]) by {
            if e2 != escrow@ {
                assert(rs0.contains_key(e2));
                assert(record_backed(p, tk0, e2, rs0[e2]));
                match vault_address_of(p, e2) {
                    Some((v2, _)) => {
                        assert(tk0[v2].owner@ == e2);
                        assert(v2 != ctx.seller_offer_token@);
                        assert(v2 != vault@);
                    },
                    None => {},
                }
            }
        }
    }
    Ok(())
}


/// The error `accept_escrow` returns, in order of precedence; `None` when it succeeds.
pub open spec fn accept_error(l: Ledger, c: AcceptEscrow) -> Option<EscrowError> {
    let tk = l.tokens();
    let rs = l.records();
    let d = rs[c.escrow@];
    let brt = c.buyer_request_token@;
    let bot = c.buyer_offer_token@;
    let srt = c.seller_request_token@;
    if !rs.contains_key(c.escrow@) {
        Some(EscrowError::AccountNotFound)
    } else if c.seller@ != d.seller@ {
        Some(EscrowError::Unauthorized)
    } else if c.offer_mint@ != d.offer_mint@ || c.request_mint@ != d.request_mint@ {
        Some(EscrowError::InvalidMint)
    } else if rs.contains_key(c.buyer@) || rs.contains_key(c.seller@) {
        Some(EscrowError::Unauthorized)
    } else {
        either(
            holding_error(tk, brt, c.request_mint@, c.buyer@),
            either(
                holding_error(tk, bot, c.offer_mint@, c.buyer@),
                either(
                    holding_error(tk, srt, c.request_mint@, c.seller@),
                    if brt == srt || brt == bot || bot == srt {
                        Some(EscrowError::DuplicateAccount)
                    } else if tk[brt].amount < d.request_amount {
                        Some(EscrowError::InsufficientBalance)
                    } else if tk[srt].amount + d.request_amount > u64::MAX {
                        Some(EscrowError::Overflow)
                    } else if tk[bot].amount + d.offer_amount > u64::MAX {
                        Some(EscrowError::Overflow)
                    } else {
                        None
                    },
                ),
            ),
        )
    }
}

/// `l2` is `l` after a successful accept: the buyer paid the requested amount
/// to the seller, received the offered amount, and the record and its vault
/// are gone.
pub open spec fn accepted(l: Ledger, l2: Ledger, c: AcceptEscrow) -> bool {
    let tk = l.tokens();
    let d = l.records()[c.escrow@];
    let brt = c.buyer_request_token@;
    let bot = c.buyer_offer_token@;
    let srt = c.seller_request_token@;
    match vault_address_of(l.program(), c.escrow@) {
        Some((v, _)) => {
            &&& l2.program() == l.program()
            &&& l2.records() == l.records().remove(c.escrow@)
            &&& l2.tokens() == tk.insert(brt, with_amount(tk[brt], tk[brt].amount - d.request_amount))
                .insert(srt, with_amount(tk[srt], tk[srt].amount + d.request_amount))
                .insert(bot, with_amount(tk[bot], tk[bot].amount + d.offer_amount))
                .remove(v)
        },
        None => false,
    }
}

/// Completes the exchange of a live record: the buyer pays the requested
/// amount to the seller and receives the locked amount; the vault and the
/// record are closed.
pub fn accept_escrow(ctx: &AcceptEscrow, ledger: &mut Ledger) -> (r: Result<(), EscrowError>)
    requires
        old(ledger).wf(),
    ensures
        final(ledger).wf(),
        r == outcome(accept_error(*old(ledger), *ctx)),
        r is Ok ==> accepted(*old(ledger), *final(ledger), *ctx),
        r is Err ==> *final(ledger) == *old(ledger),
{
    let d = match ledger.record(&ctx.escrow) {
        Some(d) => d,
        None => return Err(EscrowError::AccountNotFound),
    };
    if !ctx.seller.same(&d.seller) {
        return Err(EscrowError::Unauthorized);
    }
    if !ctx.offer_mint.same(&d.offer_mint) || !ctx.request_mint.same(&d.request_mint) {
        return Err(EscrowError::InvalidMint);
    }
    if ledger.has_record(&ctx.buyer) || ledger.has_record(&ctx.seller) {
        return Err(EscrowError::Unauthorized);
    }
    let brt = match holding(ledger, &ctx.buyer_request_token, &ctx.request_mint, &ctx.buyer) {
        Ok(t) => t,
        Err(e) => return Err(e),
    };
    let bot = match holding(ledger, &ctx.buyer_offer_token, &ctx.offer_mint, &ctx.buyer) {
        Ok(t) => t,
        Err(e) => return Err(e),
    };
    let srt = match holding(ledger, &ctx.seller_request_token, &ctx.request_mint, &ctx.seller) {
        Ok(t) => t,
        Err(e) => return Err(e),
    };
    if ctx.buyer_request_token.same(&ctx.seller_request_token) || ctx.buyer_request_token.same(&ctx.buyer_offer_token)
        || ctx.buyer_offer_token.same(&ctx.seller_request_token) {
        return Err(EscrowError::DuplicateAccount);
    }
    if brt.amount < d.request_amount {
        return Err(EscrowError::InsufficientBalance);
    }
    if srt.amount > u64::MAX - d.request_amount {
        return Err(EscrowError::Overflow);
    }
    if bot.amount > u64::MAX - d.offer_amount {
        return Err(EscrowError::Overflow);
    }
    let program_id = ledger.program_id();
    let vault = match derive_vault_address(&program_id, &ctx.escrow) {
        Some((v, _)) => v,
        None => {
            proof {
                assert(record_backed(ledger.program(), ledger.tokens(), ctx.escrow@, d));
            }
            return Err(EscrowError::AccountNotFound);
        },
    };
    let ghost l0 = *ledger;
    proof {
        assert(record_backed(l0.program(), l0.tokens(), ctx.escrow@, d));
    }
    ledger.set_token_amount(&ctx.buyer_request_token, brt.amount - d.request_amount);
    ledger.set_token_amount(&ctx.seller_request_token, srt.amount + d.request_amount);
    ledger.set_token_amount(&ctx.buyer_offer_token, bot.amount + d.offer_amount);
    ledger.remove_token_account(&vault);
    ledger.remove_record(&ctx.escrow);
    proof {
        let p = ledger.program();
        let tk0 = l0.tokens();
        let rs0 = l0.records();
        let tk = ledger.tokens();
        let rs = ledger.records();
        assert forall|e2: Seq<u8>| #[trigger] rs.contains_key(e2) implies record_backed(p, tk, e2, rs[e2]) by {
            assert(rs0.contains_key(e2));
            assert(record_backed(p, tk0, e2, rs0[e2]));
            match vault_address_of(p, e2) {
                Some((v2, _)) => {
                    assert(tk0[v2].owner@ == e2);
                    assert(v2 != ctx.buyer_request_token@);
                    assert(v2 != ctx.buyer_offer_token@);
                    assert(v2 != ctx.seller_request_token@);
                    assert(v2 != vault@);
                },
                None => {},
            }
        }
    }
    Ok(())
}

/// The error `cancel_escrow` returns, in order of precedence; `None` when it succeeds.
pub open spec fn cancel_error(l: Ledger, c: CancelEscrow) -> Option<EscrowError> {
    let tk = l.tokens();
    let rs = l.records();
    let d = rs[c.escrow@];
    let sot = c.seller_offer_token@;
    if !rs.contains_key(c.escrow@) {
        Some(EscrowError::AccountNotFound)
    } else if c.seller@ != d.seller@ || rs.contains_key(c.seller@) {
        Some(EscrowError::Unauthorized)
    } else if c.offer_mint@ != d.offer_mint@ {
        Some(EscrowError::InvalidMint)
    } else {
        either(
            holding_error(tk, sot, c.offer_mint@, c.seller@),
            if tk[sot].amount + d.offer_amount > u64::MAX {
                Some(EscrowError::Overflow)
            } else {
                None
            },
        )
    }
}

/// `l2` is `l` after a successful cancel: the seller got the locked amount
/// back, and the record and its vault are gone.
pub open spec fn cancelled(l: Ledger, l2: Ledger, c: CancelEscrow) -> bool {
    let tk = l.tokens();
    let d = l.records()[c.escrow@];
    let sot = c.seller_offer_token@;
    match vault_address_of(l.program(), c.escrow@) {
        Some((v, _)) => {
            &&& l2.program() == l.program()
            &&& l2.records() == l.records().remove(c.escrow@)
            &&& l2.tokens() == tk.insert(sot, with_amount(tk[sot], tk[sot].amount + d.offer_amount)).remove(v)
        },
        None => false,
    }
}

/// Returns the locked amount of a live record to its seller and closes the
/// vault and the record. Only the seller may cancel.
pub fn cancel_escrow(ctx: &CancelEscrow, ledger: &mut Ledger) -> (r: Result<(), EscrowError>)
    requires
        old(ledger).wf(),
    ensures
        final(ledger).wf(),
        r == outcome(cancel_error(*old(ledger), *ctx)),
        r is Ok ==> cancelled(*old(ledger), *final(ledger), *ctx),
        r is Err ==> *final(ledger) == *old(ledger),
{
    let d = match ledger.record(&ctx.escrow) {
        Some(d) => d,
        None => return Err(EscrowError::AccountNotFound),
    };
    if !ctx.seller.same(&d.seller) || ledger.has_record(&ctx.seller) {
        return Err(EscrowError::Unauthorized);
    }
    if !ctx.offer_mint.same(&d.offer_mint) {
        return Err(EscrowError::InvalidMint);
    }
    let sot = match holding(ledger, &ctx.seller_offer_token, &ctx.offer_mint, &ctx.seller) {
        Ok(t) => t,
        Err(e) => return Err(e),
    };
    if sot.amount > u64::MAX - d.offer_amount {
        return Err(EscrowError::Overflow);
    }
    let program_id = ledger.program_id();
    let vault = match derive_vault_address(&program_id, &ctx.escrow) {
        Some((v, _)) => v,
        None => {
            proof {
                assert(record_backed(ledger.program(), ledger.tokens(), ctx.escrow@, d));
            }
            return Err(EscrowError::AccountNotFound);
        },
    };
    let ghost l0 = *ledger;
    proof {
        assert(record_backed(l0.program(), l0.tokens(), ctx.escrow@, d));
    }
    ledger.set_token_amount(&ctx.seller_offer_token, sot.amount + d.offer_amount);
    ledger.remove_token_account(&vault);
    ledger.remove_record(&ctx.escrow);
    proof {
        let p = ledger.program();
        let tk0 = l0.tokens();
        let rs0 = l0.records();
        let tk = ledger.tokens();
        let rs = ledger.records();
        assert forall|e2: Seq<u8>| #[trigger] rs.contains_key(e2) implies record_backed(p, tk, e2, rs[e2]) by {
            assert(rs0.contains_key(e2));
            assert(record_backed(p, tk0, e2, rs0[e2]));
            match vault_address_of(p, e2) {
                Some((v2, _)) => {
                    assert(tk0[v2].owner@ == e2);
                    assert(v2 != ctx.seller_offer_token@);
                    assert(v2 != vault@);
                },
                None => {},
            }
        }
    }
    Ok(())
}


/// A successful create leaves a live record at the triple's address whose
/// vault holds exactly the offered amount.
pub proof fn lemma_create_locks_offer(l: Ledger, l2: Ledger, c: CreateEscrow, offer_amount: u64, request_amount: u64)
    requires
        l.wf(),
        create_error(l, c, offer_amount, request_amount) is None,
        created(l, l2, c, offer_amount, request_amount),
    ensures
        match escrow_address_of(l.program(), c.seller@, c.offer_mint@, c.request_mint@) {
            Some((e, _)) => match vault_address_of(l.program(), e) {
                Some((v, _)) => {
                    &&& l2.records().contains_key(e)
                    &&& l2.records()[e].offer_amount == offer_amount
                    &&& l2.tokens().contains_key(v)
                    &&& l2.tokens()[v].amount == offer_amount
                },
                None => false,
            },
            None => false,
        },
{
}

/// A successful accept leaves neither the record nor its vault.
pub proof fn lemma_accept_closes(l: Ledger, l2: Ledger, c: AcceptEscrow)
    requires
        l.wf(),
        accept_error(l, c) is None,
        accepted(l, l2, c),
    ensures
        !l2.records().contains_key(c.escrow@),
        match vault_address_of(l.program(), c.escrow@) {
            Some((v, _)) => !l2.tokens().contains_key(v),
            None => false,
        },
{
}

/// A successful cancel leaves neither the record nor its vault.
pub proof fn lemma_cancel_closes(l: Ledger, l2: Ledger, c: CancelEscrow)
    requires
        l.wf(),
        cancel_error(l, c) is None,
        cancelled(l, l2, c),
    ensures
        !l2.records().contains_key(c.escrow@),
        match vault_address_of(l.program(), c.escrow@) {
            Some((v, _)) => !l2.tokens().contains_key(v),
            None => false,
        },
{
}

/// Anyone but the recorded seller who tries to cancel a live record is
/// refused with `Unauthorized` (and a refused cancel changes nothing).
pub proof fn lemma_cancel_needs_seller(l: Ledger, c: CancelEscrow)
    requires
        l.wf(),
        l.records().contains_key(c.escrow@),
        c.seller@ != l.records()[c.escrow@].seller@,
    ensures
        cancel_error(l, c) == Some(EscrowError::Unauthorized),
{
}

/// After a successful accept the seller's holding of the requested mint grew
/// by exactly the requested amount, the buyer's holding of the offered mint
/// by exactly the offered amount, and the buyer paid exactly the requested
/// amount, whatever the balances were before.
pub proof fn lemma_accept_exchanges(l: Ledger, l2: Ledger, c: AcceptEscrow)
    requires
        l.wf(),
        accept_error(l, c) is None,
        accepted(l, l2, c),
    ensures
        l2.tokens()[c.seller_request_token@].amount == l.tokens()[c.seller_request_token@].amount
            + l.records()[c.escrow@].request_amount,
        l2.tokens()[c.buyer_offer_token@].amount == l.tokens()[c.buyer_offer_token@].amount
            + l.records()[c.escrow@].offer_amount,
        l2.tokens()[c.buyer_request_token@].amount == l.tokens()[c.buyer_request_token@].amount
            - l.records()[c.escrow@].request_amount,
{
    let tk = l.tokens();
    let e = c.escrow@;
    assert(record_backed(l.program(), tk, e, l.records()[e]));
    match vault_address_of(l.program(), e) {
        Some((v, _)) => {
            assert(tk[v].owner@ == e);
            assert(v != c.seller_request_token@);
            assert(v != c.buyer_offer_token@);
            assert(v != c.buyer_request_token@);
        },
        None => {},
    }
}

/// Two creates for the same (seller, offered mint, requested mint) cannot both
/// succeed: once the first has, the second is refused with `AlreadyExists`,
/// whatever its amounts.
pub proof fn lemma_create_unique(
    l: Ledger,
    l2: Ledger,
    c: CreateEscrow,
    offer_amount: u64,
    request_amount: u64,
    c2: CreateEscrow,
    offer_amount2: u64,
    request_amount2: u64,
)
    requires
        l.wf(),
        create_error(l, c, offer_amount, request_amount) is None,
        created(l, l2, c, offer_amount, request_amount),
        c2.seller@ == c.seller@,
        c2.offer_mint@ == c.offer_mint@,
        c2.request_mint@ == c.request_mint@,
    ensures
        create_error(l2, c2, offer_amount2, request_amount2) == Some(EscrowError::AlreadyExists),
{
}


/// An accept of a live record succeeds whenever the named accounts fit the
/// record, neither party is itself a record address, the three holdings are
/// distinct, the buyer can pay, and neither credit overflows; what it then
/// does to the balances is stated by `lemma_accept_exchanges`.
pub proof fn lemma_accept_succeeds(l: Ledger, c: AcceptEscrow)
    requires
        l.wf(),
        l.records().contains_key(c.escrow@),
        c.seller@ == l.records()[c.escrow@].seller@,
        c.offer_mint@ == l.records()[c.escrow@].offer_mint@,
        c.request_mint@ == l.records()[c.escrow@].request_mint@,
        !l.records().contains_key(c.buyer@),
        !l.records().contains_key(c.seller@),
        holding_error(l.tokens(), c.buyer_request_token@, c.request_mint@, c.buyer@) is None,
        holding_error(l.tokens(), c.buyer_offer_token@, c.offer_mint@, c.buyer@) is None,
        holding_error(l.tokens(), c.seller_request_token@, c.request_mint@, c.seller@) is None,
        c.buyer_request_token@ != c.seller_request_token@,
        c.buyer_request_token@ != c.buyer_offer_token@,
        c.buyer_offer_token@ != c.seller_request_token@,
        l.tokens()[c.buyer_request_token@].amount >= l.records()[c.escrow@].request_amount,
        l.tokens()[c.seller_request_token@].amount + l.records()[c.escrow@].request_amount <= u64::MAX,
        l.tokens()[c.buyer_offer_token@].amount + l.records()[c.escrow@].offer_amount <= u64::MAX,
    ensures
        accept_error(l, c) is None,
{
}

} // verus!
