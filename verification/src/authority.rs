use crate::address::{record_address, record_address_of, Address, Derivation, ESCROW_TAG, VAULT_TAG};
use vstd::bytes::{spec_u64_to_le_bytes, u64_to_le_bytes};
use vstd::prelude::*;
use vstd::slice::slice_to_vec;

verus! {

/// The seeds that sign for the record with the deal id `id` and the bump seed
/// `bump`: the tag of records, the bytes of the id, the bump seed.
pub open spec fn record_seeds(id: u64, bump: u8) -> Seq<Seq<u8>> {
    seq![ESCROW_TAG@, spec_u64_to_le_bytes(id), seq![bump]]
}

/// The seeds that sign for the vault of the record at `record`, with the bump
/// seed `bump`: the tag of vaults, the bytes of the record's address, the bump
/// seed.
pub open spec fn vault_seeds(record: Address, bump: u8) -> Seq<Seq<u8>> {
    seq![VAULT_TAG@, record@, seq![bump]]
}

/// Three seeds, one byte string each: a tag, a key and a bump seed.
fn seeds_of(tag: &[u8], key: &[u8], bump: u8) -> (r: Vec<Vec<u8>>)
    ensures
        r.deep_view() == seq![tag@, key@, seq![bump]],
{
    let mut last: Vec<u8> = Vec::new();
    last.push(bump);
    assert(last@ =~= seq![bump]);
    let mut seeds: Vec<Vec<u8>> = Vec::new();
    seeds.push(slice_to_vec(tag));
    seeds.push(slice_to_vec(key));
    seeds.push(last);
    assert(seeds.deep_view() =~~= seq![tag@, key@, seq![bump]]);
    seeds
}

/// The seeds with which the vault of a new offer signs for its own opening.
pub fn vault_signer_seeds(d: &Derivation) -> (r: Vec<Vec<u8>>)
    ensures
        r.deep_view() == vault_seeds(d.escrow_account, d.vault_bump),
{
    seeds_of(VAULT_TAG.as_slice(), d.escrow_account.bytes.as_slice(), d.vault_bump)
}

/// The authority of a record's address over its vault. No key stands behind
/// that address: the authority can only be made from the derivation
/// parameters that the record stores, and it is neither copied nor stored.
pub struct ProgramAuthority {
    program_id: Address,
    id: u64,
    bump: u8,
    address: Address,
}

impl ProgramAuthority {
    #[verifier::type_invariant]
    spec fn inv(self) -> bool {
        record_address(self.program_id, self.id, self.bump) == Some(self.address)
    }

    /// The address that the authority speaks for.
    pub closed spec fn view(&self) -> Address {
        self.address
    }

    /// The seeds that sign for it.
    pub closed spec fn seeds(&self) -> Seq<Seq<u8>> {
        record_seeds(self.id, self.bump)
    }

    /// Makes the authority of the record with the deal id `id` from its stored
    /// bump seed. `None` where these parameters give no address.
    pub fn reconstruct(program_id: &Address, id: u64, bump: u8) -> (r: Option<ProgramAuthority>)
        ensures
            match r {
                Some(authority) => record_address(*program_id, id, bump) == Some(authority@)
                    && authority.seeds() == record_seeds(id, bump),
                None => record_address(*program_id, id, bump) is None,
            },
    {
        match record_address_of(program_id, id, bump) {
            Some(address) => Some(ProgramAuthority { program_id: *program_id, id, bump, address }),
            None => None,
        }
    }

    /// The address that the authority speaks for.
    pub fn address(&self) -> (r: Address)
        ensures
            r == self@,
    {
        self.address
    }

    /// The seeds to sign with, one byte string each.
    pub fn signer_seeds(&self) -> (r: Vec<Vec<u8>>)
        ensures
            r.deep_view() == self.seeds(),
    {
        let id = u64_to_le_bytes(self.id);
        seeds_of(ESCROW_TAG.as_slice(), id.as_slice(), self.bump)
    }
}

} // verus!
