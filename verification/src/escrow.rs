use crate::address::{derive_addresses, derived, vault_address_of, Address};
use crate::authority::ProgramAuthority;
use crate::ledger::{loaded, Holding, Ledger, LedgerError, TokenAccount};
use crate::laws::{
    law_cancel_refunds, law_exchange_balances, law_exchange_settles, law_open_deposits,
    lemma_cancel_keeps_consistent, lemma_exchange_keeps_consistent, lemma_open_keeps_consistent,
};
use crate::model::{
    cancel_outcome, deposited, exchange_balanced, exchange_outcome, open_outcome, refunded, reports,
    settled, State,
};
use crate::program::{
    plan_cancel, plan_exchange, plan_initialize, Cancel, EscrowError, Exchange, Initialize,
};
use crate::record::EscrowAccount;
use crate::store::Store;
use vstd::prelude::*;

verus! {

/// The escrow program together with the ledger it trades on: the holding
/// accounts and the records of the open offers.
pub struct Escrow {
    program_id: Address,
    ledger: Ledger,
    records: Store<EscrowAccount>,
}

impl Escrow {
    #[verifier::type_invariant]
    spec fn inv(self) -> bool {
        self.view().consistent()
    }

    /// The program and its ledger as mathematics.
    pub closed spec fn view(&self) -> State {
        State { program_id: self.program_id, accounts: self.ledger@, records: self.records@ }
    }

    /// The program holds finitely many accounts and finitely many offers, so
    /// that the supply of an asset type is a sum.
    pub proof fn lemma_finite(&self)
        ensures
            self@.accounts.dom().finite(),
            self@.records.dom().finite(),
    {
        self.ledger.lemma_finite();
        self.records.lemma_finite();
    }

    /// The program with the address `program_id`, on an empty ledger and
    /// with no offer open.
    pub fn new(program_id: Address) -> (r: Escrow)
        ensures
            r@.program_id == program_id,
            r@.accounts == Map::<Address, Holding>::empty(),
            r@.records == Map::<Address, EscrowAccount>::empty(),
            r@.consistent(),
    {
        Escrow { program_id, ledger: Ledger::new(), records: Store::new() }
    }

    /// The address of the program.
    pub fn program_id(&self) -> (r: Address)
        ensures
            r == self@.program_id,
    {
        self.program_id
    }

    /// The holding account at `address`, if there is one.
    pub fn account(&self, address: &Address) -> (r: Option<TokenAccount>)
        ensures
            r == (if self@.accounts.contains_key(*address) {
                Some(loaded(self@.accounts, *address))
            } else {
                None
            }),
    {
        self.ledger.account(address)
    }

    /// The record of the offer open at `address`, if there is one.
    pub fn record(&self, address: &Address) -> (r: Option<EscrowAccount>)
        ensures
            r == (if self@.records.contains_key(*address) {
                Some(self@.records[*address])
            } else {
                None
            }),
    {
        self.records.get(address)
    }

    /// Whether `address` is in use.
    pub fn taken(&self, address: &Address) -> (r: bool)
        ensures
            r == self@.taken(*address),
    {
        self.ledger.account(address).is_some() || self.records.contains(address)
    }

    /// Puts `amount` of newly issued asset of type `mint` into a new holding
    /// account at `address`, owned by `owner`. Refused with `AddressInUse`
    /// where the address is taken.
    pub fn open_account(&mut self, address: Address, mint: Address, owner: Address, amount: u64) -> (r:
        Result<(), LedgerError>)
        ensures
            match r {
                Ok(()) => !old(self)@.taken(address) && final(self)@ == (State {
                    accounts: old(self)@.accounts.insert(address, Holding { mint, owner, amount }),
                    ..old(self)@
                }),
                Err(e) => old(self)@.taken(address) && e == LedgerError::AddressInUse
                    && final(self)@ == old(self)@,
            },
            final(self)@.consistent(),
    {
        proof {
            use_type_invariant(&*self);
        }
        if self.taken(&address) {
            return Err(LedgerError::AddressInUse);
        }
        let ghost before = self@;
        let program_id = self.program_id;
        let (mut ledger, records) = self.take();
        let r = ledger.issue(address, mint, owner, amount);
        proof {
            let after = State { accounts: ledger@, ..before };
            assert forall|a: Address| #[trigger]
                after.records.contains_key(a) implies after.backed(a) by {
                assert(before.records.contains_key(a));
                assert(before.backed(a));
            }
        }
        *self = Escrow { program_id, ledger, records };
        r
    }

    /// Takes the ledger and the records out, and leaves both empty.
    fn take(&mut self) -> (r: (Ledger, Store<EscrowAccount>))
        ensures
            r.0@ == old(self)@.accounts,
            r.1@ == old(self)@.records,
    {
        let mut emptied = Escrow::new(self.program_id);
        std::mem::swap(&mut emptied, self);
        let Escrow { program_id: _, ledger, records } = emptied;
        (ledger, records)
    }
}

/// Opens an offer: the maker `accounts.authority` deposits `amount_a` of the
/// asset `accounts.mint_a` from `accounts.token_account_a` into a new vault and
/// asks for `amount_b` of the asset `accounts.mint_b` in return. The record and
/// the vault live at the addresses derived from the deal id `id`. Nothing
/// changes where the operation fails.
pub fn initialize(
    escrow: &mut Escrow,
    accounts: &Initialize,
    amount_a: u64,
    amount_b: u64,
    id: u64,
) -> (r: Result<(), EscrowError>)
    requires
        amount_b > 0,
    ensures
        reports(
            r,
            open_outcome(old(escrow)@, *accounts, amount_a, amount_b, id),
            old(escrow)@,
            final(escrow)@,
        ),
        r is Ok ==> deposited(old(escrow)@, final(escrow)@, *accounts, amount_a, amount_b, id),
        r is Ok ==> (derived(old(escrow)@.program_id, id) matches Some(d) && d.reproducible(
            old(escrow)@.program_id,
            id,
        )),
        final(escrow)@.consistent(),
{
    proof {
        use_type_invariant(&*escrow);
        law_open_deposits(escrow@, *accounts, amount_a, amount_b, id);
    }
    let program_id = escrow.program_id;
    let d = match derive_addresses(&program_id, id) {
        Some(d) => d,
        None => { return Err(EscrowError::AddressCollision); },
    };
    if escrow.taken(&d.escrow_account) || escrow.taken(&d.vault_account) || d.escrow_account
        == d.vault_account {
        return Err(EscrowError::AddressCollision);
    }
    let source = match escrow.ledger.account(&accounts.token_account_a) {
        Some(a) => a,
        None => { return Err(EscrowError::Ledger(LedgerError::AccountNotFound)); },
    };
    let steps = match plan_initialize(accounts.authority, &source, accounts.mint_a, amount_a, &d) {
        Ok(steps) => steps,
        Err(e) => { return Err(e); },
    };
    let ledger = match escrow.ledger.prepare(&steps) {
        Ok(ledger) => ledger,
        Err(e) => { return Err(EscrowError::Ledger(e)); },
    };
    proof {
        lemma_open_keeps_consistent(escrow@, *accounts, amount_a, amount_b, id);
    }
    let (_, mut records) = escrow.take();
    records.put(
        d.escrow_account,
        EscrowAccount {
            maker: accounts.authority,
            mint_b: accounts.mint_b,
            amount_b,
            id,
            escrow_bump: d.escrow_bump,
            vault_bump: d.vault_bump,
        },
    );
    *escrow = Escrow { program_id, ledger, records };
    Ok(())
}

/// Cancels the offer at `accounts.escrow_account`: the vault's whole balance
/// goes back to `accounts.token_account_a`, the vault is closed and the record
/// destroyed. Only the maker may do so. Nothing changes where the operation
/// fails.
pub fn cancel(escrow: &mut Escrow, accounts: &Cancel) -> (r: Result<(), EscrowError>)
    ensures
        reports(r, cancel_outcome(old(escrow)@, *accounts), old(escrow)@, final(escrow)@),
        old(escrow)@.stranger(*accounts) ==> r matches Err(EscrowError::Unauthorized),
        r is Ok ==> refunded(old(escrow)@, final(escrow)@, *accounts),
        final(escrow)@.consistent(),
{
    proof {
        use_type_invariant(&*escrow);
        law_cancel_refunds(escrow@, *accounts);
    }
    let program_id = escrow.program_id;
    let record = match escrow.records.get(&accounts.escrow_account) {
        Some(record) => record,
        None => { return Err(EscrowError::RecordNotFound); },
    };
    if record.maker != accounts.authority {
        return Err(EscrowError::Unauthorized);
    }
    let authority = ProgramAuthority::reconstruct(&program_id, record.id, record.escrow_bump);
    let vault_at = vault_address_of(&program_id, &accounts.escrow_account, record.vault_bump);
    let (authority, vault_at) = match (authority, vault_at) {
        (Some(authority), Some(vault_at)) => (authority, vault_at),
        _ => { return Err(EscrowError::AddressCollision); },
    };
    let vault = match escrow.ledger.account(&vault_at) {
        Some(a) => a,
        None => { return Err(EscrowError::Ledger(LedgerError::AccountNotFound)); },
    };
    let destination = match escrow.ledger.account(&accounts.token_account_a) {
        Some(a) => a,
        None => { return Err(EscrowError::Ledger(LedgerError::AccountNotFound)); },
    };
    let settlement = match plan_cancel(
        &record,
        accounts.authority,
        &authority,
        &vault,
        &destination,
    ) {
        Ok(settlement) => settlement,
        Err(e) => { return Err(e); },
    };
    let ledger = match escrow.ledger.prepare(&settlement.steps) {
        Ok(ledger) => ledger,
        Err(e) => { return Err(EscrowError::Ledger(e)); },
    };
    proof {
        lemma_cancel_keeps_consistent(escrow@, *accounts);
    }
    let (_, mut records) = escrow.take();
    records.remove(&accounts.escrow_account);
    *escrow = Escrow { program_id, ledger, records };
    Ok(())
}

/// Accepts the offer at `accounts.escrow_account`: the taker
/// `accounts.authority` pays the amount asked for from
/// `accounts.taker_token_account_b` into `accounts.maker_token_account_b`, the
/// vault's whole balance goes to `accounts.taker_token_account_a`, the vault is
/// closed and the record destroyed. Nothing changes where the operation fails.
pub fn exchange(escrow: &mut Escrow, accounts: &Exchange) -> (r: Result<(), EscrowError>)
    ensures
        reports(r, exchange_outcome(old(escrow)@, *accounts), old(escrow)@, final(escrow)@),
        exchange_balanced(old(escrow)@, final(escrow)@, *accounts),
        r is Ok ==> settled(old(escrow)@, final(escrow)@, *accounts),
        final(escrow)@.consistent(),
{
    proof {
        use_type_invariant(&*escrow);
        law_exchange_balances(escrow@, *accounts);
        law_exchange_settles(escrow@, *accounts);
    }
    let program_id = escrow.program_id;
    let record = match escrow.records.get(&accounts.escrow_account) {
        Some(record) => record,
        None => { return Err(EscrowError::RecordNotFound); },
    };
    let authority = ProgramAuthority::reconstruct(&program_id, record.id, record.escrow_bump);
    let vault_at = vault_address_of(&program_id, &accounts.escrow_account, record.vault_bump);
    let (authority, vault_at) = match (authority, vault_at) {
        (Some(authority), Some(vault_at)) => (authority, vault_at),
        _ => { return Err(EscrowError::AddressCollision); },
    };
    let vault = match escrow.ledger.account(&vault_at) {
        Some(a) => a,
        None => { return Err(EscrowError::Ledger(LedgerError::AccountNotFound)); },
    };
    let taker_b = match escrow.ledger.account(&accounts.taker_token_account_b) {
        Some(a) => a,
        None => { return Err(EscrowError::Ledger(LedgerError::AccountNotFound)); },
    };
    let maker_b = match escrow.ledger.account(&accounts.maker_token_account_b) {
        Some(a) => a,
        None => { return Err(EscrowError::Ledger(LedgerError::AccountNotFound)); },
    };
    let settlement = match plan_exchange(
        &record,
        accounts.authority,
        &authority,
        &vault,
        &taker_b,
        &maker_b,
        accounts.taker_token_account_a,
    ) {
        Ok(settlement) => settlement,
        Err(e) => { return Err(e); },
    };
    let ledger = match escrow.ledger.prepare(&settlement.steps) {
        Ok(ledger) => ledger,
        Err(e) => { return Err(EscrowError::Ledger(e)); },
    };
    proof {
        lemma_exchange_keeps_consistent(escrow@, *accounts);
    }
    let (_, mut records) = escrow.take();
    records.remove(&accounts.escrow_account);
    *escrow = Escrow { program_id, ledger, records };
    Ok(())
}

} // verus!
