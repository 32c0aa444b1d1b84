use crate::address::{address_from, lemma_address_exists, lemma_address_from, Address};
use vstd::bytes::{
    lemma_auto_spec_u64_to_from_le_bytes, spec_u64_from_le_bytes, spec_u64_to_le_bytes,
    u64_from_le_bytes, u64_to_le_bytes,
};
use vstd::prelude::*;
use vstd::slice::slice_subrange;

verus! {

/// The tag that stands before every stored record.
pub const RECORD_TAG: [u8; 8] = [36, 69, 48, 18, 128, 225, 125, 135];

/// The size of a stored record: the tag, two addresses, two amounts and two
/// bump seeds.
pub const RECORD_SPACE: usize = 90;

/// The record of one open offer.
#[derive(Clone, Copy, Debug, PartialEq, Eq)]
pub struct EscrowAccount {
    /// The party that made the offer.
    pub maker: Address,
    /// The asset type that the maker asks for.
    pub mint_b: Address,
    /// How much of it settles the offer.
    pub amount_b: u64,
    /// The deal id from which the record's address is derived.
    pub id: u64,
    /// The bump seed of the record's address.
    pub escrow_bump: u8,
    /// The bump seed of the vault's address.
    pub vault_bump: u8,
}

impl EscrowAccount {
    /// The stored form of the record: the tag, then the fields in their
    /// order, addresses as their bytes and amounts as eight bytes each, the
    /// lowest first.
    pub open spec fn encoding(self) -> Seq<u8> {
        RECORD_TAG@ + self.maker@ + self.mint_b@ + spec_u64_to_le_bytes(self.amount_b)
            + spec_u64_to_le_bytes(self.id) + seq![self.escrow_bump, self.vault_bump]
    }

    /// The record that `bytes` is the stored form of, if it is one: `bytes`
    /// has the size of a record and begins with the tag.
    pub open spec fn decoding(bytes: Seq<u8>) -> Option<EscrowAccount> {
        if bytes.len() == RECORD_SPACE && bytes.subrange(0, 8) == RECORD_TAG@ {
            Some(
                EscrowAccount {
                    maker: address_from(bytes.subrange(8, 40)),
                    mint_b: address_from(bytes.subrange(40, 72)),
                    amount_b: spec_u64_from_le_bytes(bytes.subrange(72, 80)),
                    id: spec_u64_from_le_bytes(bytes.subrange(80, 88)),
                    escrow_bump: bytes[88],
                    vault_bump: bytes[89],
                },
            )
        } else {
            None
        }
    }

    /// Writes the record in its stored form.
    pub fn to_bytes(&self) -> (r: Vec<u8>)
        ensures
            r@ == self.encoding(),
            r@.len() == RECORD_SPACE,
    {
        let mut out: Vec<u8> = Vec::new();
        append(&mut out, RECORD_TAG.as_slice());
        append(&mut out, self.maker.bytes.as_slice());
        append(&mut out, self.mint_b.bytes.as_slice());
        let amount = u64_to_le_bytes(self.amount_b);
        append(&mut out, amount.as_slice());
        let id = u64_to_le_bytes(self.id);
        append(&mut out, id.as_slice());
        out.push(self.escrow_bump);
        out.push(self.vault_bump);
        assert(out@ =~= self.encoding());
        out
    }

    /// Reads a record from its stored form. `None` where `bytes` has not the
    /// size of a record or does not begin with the tag.
    pub fn from_bytes(bytes: &[u8]) -> (r: Option<EscrowAccount>)
        ensures
            r == Self::decoding(bytes@),
    {
        if bytes.len() != RECORD_SPACE {
            return None;
        }
        let mut i: usize = 0;
        while i < 8
            invariant
                i <= 8,
                bytes@.len() == RECORD_SPACE,
                forall|j: int| 0 <= j < i ==> bytes@[j] == RECORD_TAG@[j],
            decreases 8 - i,
        {
            if bytes[i] != RECORD_TAG[i] {
                assert(bytes@.subrange(0, 8)[i as int] != RECORD_TAG@[i as int]);
                return None;
            }
            i += 1;
        }
        assert(bytes@.subrange(0, 8) =~= RECORD_TAG@);
        let maker = address_at(bytes, 8);
        let mint_b = address_at(bytes, 40);
        let amount_b = u64_from_le_bytes(slice_subrange(bytes, 72, 80));
        let id = u64_from_le_bytes(slice_subrange(bytes, 80, 88));
        proof {
            lemma_address_from(maker);
            lemma_address_from(mint_b);
        }
        Some(
            EscrowAccount {
                maker,
                mint_b,
                amount_b,
                id,
                escrow_bump: bytes[88],
                vault_bump: bytes[89],
            },
        )
    }
}

/// Appends the bytes of `more` to `out`.
fn append(out: &mut Vec<u8>, more: &[u8])
    ensures
        final(out)@ == old(out)@ + more@,
{
    let mut i: usize = 0;
    while i < more.len()
        invariant
            i <= more@.len(),
            out@ == old(out)@ + more@.subrange(0, i as int),
        decreases more@.len() - i,
    {
        out.push(more[i]);
        i += 1;
        assert(out@ =~= old(out)@ + more@.subrange(0, i as int));
    }
    assert(more@.subrange(0, more@.len() as int) =~= more@);
}

/// The address whose bytes are the 32 bytes of `bytes` from `start` on.
fn address_at(bytes: &[u8], start: usize) -> (r: Address)
    requires
        start + 32 <= bytes@.len(),
    ensures
        r@ == bytes@.subrange(start as int, start + 32),
{
    let n = bytes.len();
    let mut a: [u8; 32] = [0u8; 32];
    let mut i: usize = 0;
    while i < 32
        invariant
            i <= 32,
            start + 32 <= n,
            n == bytes@.len(),
            forall|j: int| 0 <= j < i ==> a@[j] == bytes@[start + j],
        decreases 32 - i,
    {
        a[i] = bytes[start + i];
        i += 1;
    }
    assert(a@ =~= bytes@.subrange(start as int, start + 32));
    Address { bytes: a }
}

/// What is written can be read again: the stored form of a record has the
/// size of a record, and reading it gives the record back.
pub proof fn law_record_round_trip(record: EscrowAccount)
    ensures
        record.encoding().len() == RECORD_SPACE,
        EscrowAccount::decoding(record.encoding()) == Some(record),
{
    lemma_auto_spec_u64_to_from_le_bytes();
    lemma_address_from(record.maker);
    lemma_address_from(record.mint_b);
    let bytes = record.encoding();
    assert(bytes.subrange(0, 8) =~= RECORD_TAG@);
    assert(bytes.subrange(8, 40) =~= record.maker@);
    assert(bytes.subrange(40, 72) =~= record.mint_b@);
    assert(bytes.subrange(72, 80) =~= spec_u64_to_le_bytes(record.amount_b));
    assert(bytes.subrange(80, 88) =~= spec_u64_to_le_bytes(record.id));
}

/// What can be read was written so: bytes that are the stored form of a
/// record are the stored form of that record and of no other.
pub proof fn law_record_decoding_is_exact(bytes: Seq<u8>)
    ensures
        EscrowAccount::decoding(bytes) matches Some(record) ==> record.encoding() == bytes,
{
    if let Some(record) = EscrowAccount::decoding(bytes) {
        lemma_auto_spec_u64_to_from_le_bytes();
        lemma_address_exists(bytes.subrange(8, 40));
        lemma_address_exists(bytes.subrange(40, 72));
        assert(spec_u64_to_le_bytes(record.amount_b) == bytes.subrange(72, 80));
        assert(spec_u64_to_le_bytes(record.id) == bytes.subrange(80, 88));
        assert(record.encoding() =~= bytes);
    }
}

} // verus!
