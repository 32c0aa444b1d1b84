use vstd::bytes::spec_u64_to_le_bytes;
use vstd::bytes::u64_to_le_bytes;
use vstd::prelude::*;

verus! {

/// A 32-byte account address: the identity of a party, an asset type, a
/// holding account or an escrow record.
#[derive(Clone, Copy, Debug)]
pub struct Address {
    pub bytes: [u8; 32],
}

impl View for Address {
    type V = Seq<u8>;

    open spec fn view(&self) -> Seq<u8> {
        self.bytes@
    }
}

impl PartialEq for Address {
    fn eq(&self, other: &Address) -> (r: bool) {
        let mut i: usize = 0;
        while i < 32
            invariant
                i <= 32,
                forall|j: int| 0 <= j < i ==> self.bytes[j] == other.bytes[j],
            decreases 32 - i,
        {
            if self.bytes[i] != other.bytes[i] {
                return false;
            }
            i += 1;
        }
        proof {
            assert(self.bytes =~= other.bytes);
        }
        true
    }
}

impl vstd::std_specs::cmp::PartialEqSpecImpl for Address {
    open spec fn obeys_eq_spec() -> bool {
        true
    }

    open spec fn eq_spec(&self, other: &Address) -> bool {
        *self == *other
    }
}

impl Eq for Address {

}

/// The address with the given bytes.
pub open spec fn address_from(bytes: Seq<u8>) -> Address {
    choose|a: Address| a@ == bytes
}

/// An address is determined by its bytes.
pub proof fn lemma_address_from(a: Address)
    ensures
        a@.len() == 32,
        address_from(a@) == a,
{
    let b = address_from(a@);
    assert(b@ == a@);
    assert(b.bytes =~= a.bytes);
}

/// An array whose first `n` bytes are those of `bytes`.
spec fn array_with(bytes: Seq<u8>, n: nat) -> [u8; 32]
    decreases n,
{
    if n == 0 {
        vstd::array::spec_array_fill_for_copy_type(0u8)
    } else {
        vstd::array::spec_array_update(array_with(bytes, (n - 1) as nat), n - 1, bytes[n - 1])
    }
}

proof fn lemma_array_with(bytes: Seq<u8>, n: nat)
    requires
        n <= 32,
        bytes.len() == 32,
    ensures
        forall|i: int| 0 <= i < n ==> array_with(bytes, n)@[i] == bytes[i],
    decreases n,
{
    if n > 0 {
        lemma_array_with(bytes, (n - 1) as nat);
    }
}

/// Any 32 bytes are the bytes of an address.
pub proof fn lemma_address_exists(bytes: Seq<u8>)
    requires
        bytes.len() == 32,
    ensures
        address_from(bytes)@ == bytes,
{
    lemma_array_with(bytes, 32);
    let a = Address { bytes: array_with(bytes, 32) };
    assert(a@ =~= bytes);
}

/// The seed that marks the address of an escrow record: the bytes of `escrow`.
pub const ESCROW_TAG: [u8; 6] = [101, 115, 99, 114, 111, 119];

/// The seed that marks the address of a custody vault: the bytes of `vault`.
pub const VAULT_TAG: [u8; 5] = [118, 97, 117, 108, 116];

/// The error of `Pubkey::create_program_address`. Nothing is known of what
/// it holds: it is handed on and never read.
#[verifier::external_type_specification]
#[verifier::external_body]
pub struct ExPubkeyError(anchor_lang::solana_program::pubkey::PubkeyError);

/// What `Pubkey::try_find_program_address` returns for the seeds `tag`, `key`
/// under the program `program_id`: the bytes of the address and the bump seed.
pub uninterp spec fn found_address(tag: Seq<u8>, key: Seq<u8>, program_id: Seq<u8>) -> Option<
    (Seq<u8>, u8),
>;

/// What `Pubkey::create_program_address` returns for the seeds `tag`, `key`
/// and the one-byte seed `bump` under the program `program_id`: the bytes of
/// the address, or `None` where it returns an error.
pub uninterp spec fn created_address(
    tag: Seq<u8>,
    key: Seq<u8>,
    bump: u8,
    program_id: Seq<u8>,
) -> Option<Seq<u8>>;

/// `Pubkey::try_find_program_address` on the two seeds `tag` and `key`. It
/// tries the bump seeds from 255 downwards with `create_program_address` and
/// returns the first address that call gives, with its bump seed, or `None`
/// where no bump seed gives one or a seed is too long. Not proved: that the
/// result is `found_address` of the arguments, and that the address found is
/// the one that `create_program_address` gives for the same seeds and that
/// bump seed.
#[verifier::external_body]
fn find_program_address(tag: &[u8], key: &[u8], program_id: &Address) -> (r: Option<(Address, u8)>)
    ensures
        match r {
            Some((a, b)) => found_address(tag@, key@, program_id@) == Some((a@, b))
                && created_address(tag@, key@, b, program_id@) == Some(a@),
            None => found_address(tag@, key@, program_id@) is None,
        },
{
    let program = anchor_lang::prelude::Pubkey::new_from_array(program_id.bytes);
    match anchor_lang::prelude::Pubkey::try_find_program_address(&[tag, key], &program) {
        Some((address, bump)) => Some((Address { bytes: address.to_bytes() }, bump)),
        None => None,
    }
}

/// `Pubkey::create_program_address` on the three seeds `tag`, `key` and the
/// single byte `bump`. Not proved: that the result is `created_address` of the
/// arguments.
#[verifier::external_body]
fn create_program_address(tag: &[u8], key: &[u8], bump: u8, program_id: &Address) -> (r: Result<
    Address,
    anchor_lang::solana_program::pubkey::PubkeyError,
>)
    ensures
        match r {
            Ok(a) => created_address(tag@, key@, bump, program_id@) == Some(a@),
            Err(_) => created_address(tag@, key@, bump, program_id@) is None,
        },
{
    let program = anchor_lang::prelude::Pubkey::new_from_array(program_id.bytes);
    match anchor_lang::prelude::Pubkey::create_program_address(&[tag, key, &[bump]], &program) {
        Ok(address) => Ok(Address { bytes: address.to_bytes() }),
        Err(e) => Err(e),
    }
}

/// The address of the escrow record with the deal id `id` and the bump seed
/// `bump`, if these seeds give one.
pub open spec fn record_address(program_id: Address, id: u64, bump: u8) -> Option<Address> {
    match created_address(ESCROW_TAG@, spec_u64_to_le_bytes(id), bump, program_id@) {
        Some(bytes) => Some(address_from(bytes)),
        None => None,
    }
}

/// The address of the custody vault of the record at `record`, with the bump
/// seed `bump`, if these seeds give one.
pub open spec fn vault_address(program_id: Address, record: Address, bump: u8) -> Option<Address> {
    match created_address(VAULT_TAG@, record@, bump, program_id@) {
        Some(bytes) => Some(address_from(bytes)),
        None => None,
    }
}

/// Where an escrow lives: the address of its record, the address of its
/// vault, and the bump seed of each.
#[derive(Clone, Copy, Debug, PartialEq, Eq)]
pub struct Derivation {
    pub escrow_account: Address,
    pub escrow_bump: u8,
    pub vault_account: Address,
    pub vault_bump: u8,
}

impl Derivation {
    /// The stored bump seeds give back the two addresses.
    pub open spec fn reproducible(self, program_id: Address, id: u64) -> bool {
        &&& record_address(program_id, id, self.escrow_bump) == Some(self.escrow_account)
        &&& vault_address(program_id, self.escrow_account, self.vault_bump) == Some(
            self.vault_account,
        )
    }
}

/// The derivation of the escrow with the deal id `id`: the record's address is
/// found from the tag of records and the bytes of `id`, the vault's address
/// from the tag of vaults and the record's address.
pub open spec fn derived(program_id: Address, id: u64) -> Option<Derivation> {
    match found_address(ESCROW_TAG@, spec_u64_to_le_bytes(id), program_id@) {
        Some((record, escrow_bump)) => match found_address(VAULT_TAG@, record, program_id@) {
            Some((vault, vault_bump)) => Some(
                Derivation {
                    escrow_account: address_from(record),
                    escrow_bump,
                    vault_account: address_from(vault),
                    vault_bump,
                },
            ),
            None => None,
        },
        None => None,
    }
}

/// Computes where the escrow with the deal id `id` lives under the program
/// `program_id`. `None` where no address can be found for the record or for
/// the vault.
pub fn derive_addresses(program_id: &Address, id: u64) -> (r: Option<Derivation>)
    ensures
        r == derived(*program_id, id),
        r matches Some(d) ==> d.reproducible(*program_id, id),
{
    let key = u64_to_le_bytes(id);
    let (escrow_account, escrow_bump) = match find_program_address(
        ESCROW_TAG.as_slice(),
        key.as_slice(),
        program_id,
    ) {
        Some(found) => found,
        None => { return None; },
    };
    let (vault_account, vault_bump) = match find_program_address(
        VAULT_TAG.as_slice(),
        escrow_account.bytes.as_slice(),
        program_id,
    ) {
        Some(found) => found,
        None => { return None; },
    };
    proof {
        lemma_address_from(escrow_account);
        lemma_address_from(vault_account);
    }
    Some(Derivation { escrow_account, escrow_bump, vault_account, vault_bump })
}

/// Computes the address of a record again from its deal id and its stored
/// bump seed. `None` where these seeds give no address.
pub fn record_address_of(program_id: &Address, id: u64, bump: u8) -> (r: Option<Address>)
    ensures
        r == record_address(*program_id, id, bump),
{
    let key = u64_to_le_bytes(id);
    match create_program_address(ESCROW_TAG.as_slice(), key.as_slice(), bump, program_id) {
        Ok(a) => {
            proof {
                lemma_address_from(a);
            }
            Some(a)
        },
        Err(_) => None,
    }
}

/// Computes the address of a record's vault again from the record's address
/// and the stored bump seed. `None` where these seeds give no address.
pub fn vault_address_of(program_id: &Address, record: &Address, bump: u8) -> (r: Option<Address>)
    ensures
        r == vault_address(*program_id, *record, bump),
{
    match create_program_address(VAULT_TAG.as_slice(), record.bytes.as_slice(), bump, program_id) {
        Ok(a) => {
            proof {
                lemma_address_from(a);
            }
            Some(a)
        },
        Err(_) => None,
    }
}

} // verus!
