//! The accounts an escrow operation reads and writes: token accounts and
//! escrow records, each stored under a unique address.
use vstd::prelude::*;
use crate::address::{Address, derive_escrow_address, derive_vault_address, escrow_address_of, vault_address_of};
use crate::keyed::{keyed_map, keys_unique, lemma_keyed_index, lemma_keyed_absent, lemma_keyed_update, lemma_keyed_push, lemma_keyed_remove};
use crate::escrow::{Escrow, EscrowError};

verus! {

/// A holding of one token: `amount` units of `mint`, controlled by `owner`.
#[derive(Clone, Copy, Debug)]
pub struct TokenAccount {
    pub address: Address,
    pub mint: Address,
    pub owner: Address,
    pub amount: u64,
}

/// The same token account holding `amount` units.
pub open spec fn with_amount(t: TokenAccount, amount: int) -> TokenAccount {
    TokenAccount { address: t.address, mint: t.mint, owner: t.owner, amount: amount as u64 }
}

/// An escrow record stored at its derived address.
#[derive(Clone, Copy, Debug)]
pub struct EscrowAccount {
    pub address: Address,
    pub data: Escrow,
}

pub open spec fn token_key() -> spec_fn(TokenAccount) -> Seq<u8> {
    |t: TokenAccount| t.address@
}

pub open spec fn record_key() -> spec_fn(EscrowAccount) -> Seq<u8> {
    |r: EscrowAccount| r.address@
}

/// A live record at `e` is reachable from its triple, has positive terms, and
/// its vault exists, belongs to `e`, holds the offered mint and exactly the
/// offered amount.
pub open spec fn record_backed(program: Seq<u8>, tokens: Map<Seq<u8>, TokenAccount>, e: Seq<u8>, d: Escrow) -> bool {
    &&& d.offer_amount > 0
    &&& d.request_amount > 0
    &&& escrow_address_of(program, d.seller@, d.offer_mint@, d.request_mint@) == Some((e, d.escrow_bump))
    &&& match vault_address_of(program, e) {
        Some((v, b)) => {
            &&& b == d.vault_bump
            &&& tokens.contains_key(v)
            &&& tokens[v].mint@ == d.offer_mint@
            &&& tokens[v].owner@ == e
            &&& tokens[v].amount == d.offer_amount
        },
        None => false,
    }
}

/// Every live record is backed by its vault.
pub open spec fn records_backed(program: Seq<u8>, tokens: Map<Seq<u8>, TokenAccount>, records: Map<Seq<u8>, Escrow>) -> bool {
    forall|e: Seq<u8>| #[trigger] records.contains_key(e) ==> record_backed(program, tokens, e, records[e])
}

/// Why a stored record at `e` cannot be taken into a ledger with these
/// accounts; `None` when it is backed by its vault.
pub open spec fn restore_error(program: Seq<u8>, tokens: Map<Seq<u8>, TokenAccount>, records: Map<Seq<u8>, Escrow>, e: Seq<u8>, d: Escrow) -> Option<EscrowError> {
    if records.contains_key(e) {
        Some(EscrowError::AlreadyExists)
    } else if d.offer_amount == 0 || d.request_amount == 0 {
        Some(EscrowError::InvalidAmount)
    } else if escrow_address_of(program, d.seller@, d.offer_mint@, d.request_mint@) != Some((e, d.escrow_bump)) {
        Some(EscrowError::InvalidAddress)
    } else {
        match vault_address_of(program, e) {
            Some((v, b)) => if b != d.vault_bump {
                Some(EscrowError::InvalidAddress)
            } else if !tokens.contains_key(v) {
                Some(EscrowError::AccountNotFound)
            } else if tokens[v].mint@ != d.offer_mint@ {
                Some(EscrowError::InvalidMint)
            } else if tokens[v].owner@ != e {
                Some(EscrowError::InvalidTokenAccountOwner)
            } else if tokens[v].amount != d.offer_amount {
                Some(EscrowError::InvalidAmount)
            } else {
                None
            },
            None => Some(EscrowError::InvalidAddress),
        }
    }
}

/// The accounts of one program: token accounts and the escrow records it owns.
pub struct Ledger {
    program_id: Address,
    token_accounts: Vec<TokenAccount>,
    escrows: Vec<EscrowAccount>,
}

impl Ledger {
    /// The id of the program that owns the escrow records.
    pub closed spec fn program(&self) -> Seq<u8> {
        self.program_id@
    }

    /// Token accounts by address.
    pub closed spec fn tokens(&self) -> Map<Seq<u8>, TokenAccount> {
        keyed_map(self.token_accounts@, token_key())
    }

    /// Escrow records by address.
    pub closed spec fn records(&self) -> Map<Seq<u8>, Escrow> {
        keyed_map(self.escrows@, record_key()).map_values(|r: EscrowAccount| r.data)
    }

    /// Addresses are unique in storage.
    pub closed spec fn wf_storage(&self) -> bool {
        &&& keys_unique(self.token_accounts@, token_key())
        &&& keys_unique(self.escrows@, record_key())
    }

    /// Storage is sound and every live record is backed by its vault.
    pub open spec fn wf(&self) -> bool {
        &&& self.wf_storage()
        &&& records_backed(self.program(), self.tokens(), self.records())
    }

    /// An empty ledger for the program `program_id`.
    pub fn new(program_id: Address) -> (l: Ledger)
        ensures
            l.wf(),
            l.program() == program_id@,
            l.tokens() == Map::<Seq<u8>, TokenAccount>::empty(),
            l.records() == Map::<Seq<u8>, Escrow>::empty(),
    {
        let l = Ledger { program_id, token_accounts: Vec::new(), escrows: Vec::new() };
        assert(l.tokens() =~= Map::<Seq<u8>, TokenAccount>::empty());
        assert(l.records() =~= Map::<Seq<u8>, Escrow>::empty());
        l
    }

    pub fn program_id(&self) -> (r: Address)
        ensures
            r@ == self.program(),
    {
        self.program_id
    }

    fn token_index(&self, a: &Address) -> (r: Option<usize>)
        requires
            self.wf_storage(),
        ensures
            match r {
                Some(i) => i < self.token_accounts@.len() && self.token_accounts@[i as int].address@ == a@
                    && self.tokens().contains_key(a@) && self.tokens()[a@] == self.token_accounts@[i as int],
                None => !self.tokens().contains_key(a@),
            },
    {
        let mut i: usize = 0;
        while i < self.token_accounts.len()
            invariant
                self.wf_storage(),
                0 <= i <= self.token_accounts@.len(),
                forall|j: int| 0 <= j < i ==> self.token_accounts@[j].address@ != a@,
            decreases self.token_accounts@.len() - i,
        {
            if self.token_accounts[i].address.same(a) {
                proof {
                    lemma_keyed_index(self.token_accounts@, token_key(), i as int);
                }
                return Some(i);
            }
            i = i + 1;
        }
        proof {
            lemma_keyed_absent(self.token_accounts@, token_key(), a@);
        }
        None
    }

    fn record_index(&self, a: &Address) -> (r: Option<usize>)
        requires
            self.wf_storage(),
        ensures
            match r {
                Some(i) => i < self.escrows@.len() && self.escrows@[i as int].address@ == a@
                    && self.records().contains_key(a@) && self.records()[a@] == self.escrows@[i as int].data,
                None => !self.records().contains_key(a@),
            },
    {
        let mut i: usize = 0;
        while i < self.escrows.len()
            invariant
                self.wf_storage(),
                0 <= i <= self.escrows@.len(),
                forall|j: int| 0 <= j < i ==> self.escrows@[j].address@ != a@,
            decreases self.escrows@.len() - i,
        {
            if self.escrows[i].address.same(a) {
                proof {
                    lemma_keyed_index(self.escrows@, record_key(), i as int);
                }
                return Some(i);
            }
            i = i + 1;
        }
        proof {
            lemma_keyed_absent(self.escrows@, record_key(), a@);
        }
        None
    }

    /// The token account at `a`, if there is one.
    pub fn token_account(&self, a: &Address) -> (r: Option<TokenAccount>)
        requires
            self.wf(),
        ensures
            r == self.tokens().get(a@),
    {
        match self.token_index(a) {
            Some(i) => Some(self.token_accounts[i]),
            None => None,
        }
    }

    /// The escrow record at `a`, if there is one.
    pub fn record(&self, a: &Address) -> (r: Option<Escrow>)
        requires
            self.wf(),
        ensures
            r == self.records().get(a@),
    {
        match self.record_index(a) {
            Some(i) => Some(self.escrows[i].data),
            None => None,
        }
    }

    /// Whether an escrow record lives at `a`.
    pub fn has_record(&self, a: &Address) -> (r: bool)
        requires
            self.wf_storage(),
        ensures
            r == self.records().contains_key(a@),
    {
        self.record_index(a).is_some()
    }

    /// Opens a token account at an unused address; fails with `AlreadyExists`
    /// if the address holds a token account already.
    pub fn open_token_account(&mut self, t: TokenAccount) -> (r: Result<(), EscrowError>)
        requires
            old(self).wf(),
        ensures
            final(self).wf(),
            final(self).program() == old(self).program(),
            final(self).records() == old(self).records(),
            match r {
                Ok(()) => !old(self).tokens().contains_key(t.address@)
                    && final(self).tokens() == old(self).tokens().insert(t.address@, t),
                Err(e) => e == EscrowError::AlreadyExists && old(self).tokens().contains_key(t.address@)
                    && *final(self) == *old(self),
            },
    {
        if self.token_index(&t.address).is_some() {
            return Err(EscrowError::AlreadyExists);
        }
        self.add_token_account(t);
        proof {
            let p = self.program();
            let tk = self.tokens();
            let rs = self.records();
            assert forall|e: Seq<u8>| #[trigger] rs.contains_key(e) implies record_backed(p, tk, e, rs[e]) by {
                assert(record_backed(p, old(self).tokens(), e, rs[e]));
            }
        }
        Ok(())
    }

    /// Takes a stored record into the ledger, after checking that it sits at
    /// the address derived from its triple and that its vault (already in the
    /// ledger) holds exactly the offered amount.
    pub fn restore_record(&mut self, address: Address, d: Escrow) -> (r: Result<(), EscrowError>)
        requires
            old(self).wf(),
        ensures
            final(self).wf(),
            final(self).program() == old(self).program(),
            final(self).tokens() == old(self).tokens(),
            match restore_error(old(self).program(), old(self).tokens(), old(self).records(), address@, d) {
                Some(e) => r == Err::<(), EscrowError>(e) && *final(self) == *old(self),
                None => r is Ok && final(self).records() == old(self).records().insert(address@, d),
            },
    {
        if self.has_record(&address) {
            return Err(EscrowError::AlreadyExists);
        }
        if d.offer_amount == 0 || d.request_amount == 0 {
            return Err(EscrowError::InvalidAmount);
        }
        match derive_escrow_address(&self.program_id, &d.seller, &d.offer_mint, &d.request_mint) {
            Some((e, b)) => {
                if !e.same(&address) || b != d.escrow_bump {
                    return Err(EscrowError::InvalidAddress);
                }
            },
            None => return Err(EscrowError::InvalidAddress),
        }
        let (vault, vault_bump) = match derive_vault_address(&self.program_id, &address) {
            Some(x) => x,
            None => return Err(EscrowError::InvalidAddress),
        };
        if vault_bump != d.vault_bump {
            return Err(EscrowError::InvalidAddress);
        }
        let t = match self.token_account(&vault) {
            Some(t) => t,
            None => return Err(EscrowError::AccountNotFound),
        };
        if !t.mint.same(&d.offer_mint) {
            return Err(EscrowError::InvalidMint);
        }
        if !t.owner.same(&address) {
            return Err(EscrowError::InvalidTokenAccountOwner);
        }
        if t.amount != d.offer_amount {
            return Err(EscrowError::InvalidAmount);
        }
        self.add_record(address, d);
        proof {
            let p = self.program();
            let tk = self.tokens();
            let rs = self.records();
            assert forall|e: Seq<u8>| #[trigger] rs.contains_key(e) implies record_backed(p, tk, e, rs[e]) by {
                if e != address@ {
                    assert(old(self).records().contains_key(e));
                }
            }
        }
        Ok(())
    }

    pub(crate) fn add_token_account(&mut self, t: TokenAccount)
        requires
            old(self).wf_storage(),
            !old(self).tokens().contains_key(t.address@),
        ensures
            final(self).wf_storage(),
            final(self).program() == old(self).program(),
            final(self).records() == old(self).records(),
            final(self).tokens() == old(self).tokens().insert(t.address@, t),
    {
        proof {
            lemma_keyed_push(self.token_accounts@, token_key(), t);
        }
        self.token_accounts.push(t);
    }

    pub(crate) fn set_token_amount(&mut self, a: &Address, amount: u64)
        requires
            old(self).wf_storage(),
            old(self).tokens().contains_key(a@),
        ensures
            final(self).wf_storage(),
            final(self).program() == old(self).program(),
            final(self).records() == old(self).records(),
            final(self).tokens() == old(self).tokens().insert(a@, with_amount(old(self).tokens()[a@], amount as int)),
    {
        let i = self.token_index(a).unwrap();
        let t = self.token_accounts[i];
        let u = TokenAccount { address: t.address, mint: t.mint, owner: t.owner, amount };
        proof {
            lemma_keyed_update(self.token_accounts@, token_key(), i as int, u);
        }
        self.token_accounts.set(i, u);
    }

    pub(crate) fn remove_token_account(&mut self, a: &Address)
        requires
            old(self).wf_storage(),
            old(self).tokens().contains_key(a@),
        ensures
            final(self).wf_storage(),
            final(self).program() == old(self).program(),
            final(self).records() == old(self).records(),
            final(self).tokens() == old(self).tokens().remove(a@),
    {
        let i = self.token_index(a).unwrap();
        proof {
            lemma_keyed_remove(self.token_accounts@, token_key(), i as int);
        }
        self.token_accounts.remove(i);
    }

    pub(crate) fn add_record(&mut self, a: Address, d: Escrow)
        requires
            old(self).wf_storage(),
            !old(self).records().contains_key(a@),
        ensures
            final(self).wf_storage(),
            final(self).program() == old(self).program(),
            final(self).tokens() == old(self).tokens(),
            final(self).records() == old(self).records().insert(a@, d),
    {
        let r = EscrowAccount { address: a, data: d };
        proof {
            lemma_keyed_push(self.escrows@, record_key(), r);
        }
        self.escrows.push(r);
        assert(self.records() =~= old(self).records().insert(a@, d));
    }

    pub(crate) fn remove_record(&mut self, a: &Address)
        requires
            old(self).wf_storage(),
            old(self).records().contains_key(a@),
        ensures
            final(self).wf_storage(),
            final(self).program() == old(self).program(),
            final(self).tokens() == old(self).tokens(),
            final(self).records() == old(self).records().remove(a@),
    {
        let i = self.record_index(a).unwrap();
        proof {
            lemma_keyed_remove(self.escrows@, record_key(), i as int);
        }
        self.escrows.remove(i);
        assert(self.records() =~= old(self).records().remove(a@));
    }
}

} // verus!
