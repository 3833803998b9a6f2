use vstd::prelude::*;
use anchor_lang::prelude::Pubkey;

verus! {

/// A 32-byte account address (a public key or a program-derived address).
#[derive(Clone, Copy, Debug)]
pub struct Address {
    pub bytes: [u8; 32],
}

impl View for Address {
    type V = Seq<u8>;

    open spec fn view(&self) -> Seq<u8> {
        self.bytes@
    }
}

impl Address {
    /// Byte-wise comparison of two addresses.
    pub fn same(&self, other: &Address) -> (r: bool)
        ensures
            r == (self@ == other@),
    {
        let mut i: usize = 0;
        while i < 32
            invariant
                0 <= i <= 32,
                forall|j: int| 0 <= j < i ==> self@[j] == other@[j],
            decreases 32 - i,
        {
            if self.bytes[i] != other.bytes[i] {
                return false;
            }
            i = i + 1;
        }
        assert(self@ =~= other@);
        true
    }

    /// The address as a byte vector, for use as a derivation seed.
    pub fn to_vec(&self) -> (r: Vec<u8>)
        ensures
            r@ == self@,
    {
        let mut r: Vec<u8> = Vec::new();
        let mut i: usize = 0;
        while i < 32
            invariant
                0 <= i <= 32,
                r@ == self@.subrange(0, i as int),
            decreases 32 - i,
        {
            r.push(self.bytes[i]);
            i = i + 1;
            assert(r@ =~= self@.subrange(0, i as int));
        }
        assert(self@.subrange(0, 32) =~= self@);
        r
    }
}

/// What a program-address search returns for the given seeds and program:
/// the first off-curve address found, with the bump seed that produced it.
pub uninterp spec fn program_address(seeds: Seq<Seq<u8>>, program: Seq<u8>) -> Option<(Seq<u8>, u8)>;

/// The view of an optional derivation result.
pub open spec fn derived_view(r: Option<(Address, u8)>) -> Option<(Seq<u8>, u8)> {
    match r {
        Some((a, b)) => Some((a@, b)),
        None => None,
    }
}

/// Relies on `Pubkey::try_find_program_address`: a deterministic search that
/// depends on the seeds and the program id alone, and returns `None` when no
/// bump seed gives an address off the curve. Fewer than 16 seeds of at most
/// 32 bytes each leave room for the bump seed.
#[verifier::external_body]
pub(crate) fn find_program_address(seeds: &Vec<Vec<u8>>, program_id: &Address) -> (r: Option<(Address, u8)>)
    requires
        seeds@.len() < 16,
        forall|i: int| 0 <= i < seeds@.len() ==> #[trigger] seeds@[i]@.len() <= 32,
    ensures
        derived_view(r) == program_address(seeds.deep_view(), program_id@),
{
    let s: Vec<&[u8]> = seeds.iter().map(|s| s.as_slice()).collect();
    match Pubkey::try_find_program_address(&s, &Pubkey::new_from_array(program_id.bytes)) {
        Some((key, bump)) => Some((Address { bytes: key.to_bytes() }, bump)),
        None => None,
    }
}

/// The seed that tags an escrow record address.
pub open spec fn escrow_tag() -> Seq<u8> {
    seq![101u8, 115u8, 99u8, 114u8, 111u8, 119u8]
}

/// The seed that tags a vault address.
pub open spec fn vault_tag() -> Seq<u8> {
    seq![118u8, 97u8, 117u8, 108u8, 116u8]
}

/// Seeds of the record address for a (seller, offered mint, requested mint) triple.
pub open spec fn escrow_seeds(seller: Seq<u8>, offer_mint: Seq<u8>, request_mint: Seq<u8>) -> Seq<Seq<u8>> {
    seq![escrow_tag(), seller, offer_mint, request_mint]
}

/// Seeds of the vault address that belongs to a record address.
pub open spec fn vault_seeds(record: Seq<u8>) -> Seq<Seq<u8>> {
    seq![vault_tag(), record]
}

/// The record address derived for a triple under `program`.
pub open spec fn escrow_address_of(program: Seq<u8>, seller: Seq<u8>, offer_mint: Seq<u8>, request_mint: Seq<u8>) -> Option<(Seq<u8>, u8)> {
    program_address(escrow_seeds(seller, offer_mint, request_mint), program)
}

/// The vault address derived for a record address under `program`.
pub open spec fn vault_address_of(program: Seq<u8>, record: Seq<u8>) -> Option<(Seq<u8>, u8)> {
    program_address(vault_seeds(record), program)
}

/// Derives the record address of a (seller, offered mint, requested mint) triple.
pub fn derive_escrow_address(program_id: &Address, seller: &Address, offer_mint: &Address, request_mint: &Address) -> (r: Option<(Address, u8)>)
    ensures
        derived_view(r) == escrow_address_of(program_id@, seller@, offer_mint@, request_mint@),
{
    let tag: Vec<u8> = vec![101u8, 115u8, 99u8, 114u8, 111u8, 119u8];
    let seeds: Vec<Vec<u8>> = vec![tag, seller.to_vec(), offer_mint.to_vec(), request_mint.to_vec()];
    assert(seeds.deep_view()[0] =~= escrow_tag());
    assert(seeds.deep_view()[1] =~= seller@);
    assert(seeds.deep_view()[2] =~= offer_mint@);
    assert(seeds.deep_view()[3] =~= request_mint@);
    assert(seeds.deep_view() =~= escrow_seeds(seller@, offer_mint@, request_mint@));
    find_program_address(&seeds, program_id)
}

/// Derives the vault address that belongs to a record address.
pub fn derive_vault_address(program_id: &Address, record: &Address) -> (r: Option<(Address, u8)>)
    ensures
        derived_view(r) == vault_address_of(program_id@, record@),
{
    let tag: Vec<u8> = vec![118u8, 97u8, 117u8, 108u8, 116u8];
    let seeds: Vec<Vec<u8>> = vec![tag, record.to_vec()];
    assert(seeds.deep_view()[0] =~= vault_tag());
    assert(seeds.deep_view()[1] =~= record@);
    assert(seeds.deep_view() =~= vault_seeds(record@));
    find_program_address(&seeds, program_id)
}

} // verus!
