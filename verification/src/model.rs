use crate::address::{derived, record_address, vault_address, Address};
use crate::ledger::{apply_steps, balance, loaded, Holding, LedgerError};
use crate::program::{cancel_plan, exchange_plan, open_plan, Cancel, EscrowError, Exchange, Initialize};
use crate::record::EscrowAccount;
use vstd::prelude::*;

verus! {

/// The escrow program and the ledger it trades on, as mathematics: the
/// holding accounts by address and the open offers by address.
pub struct State {
    pub program_id: Address,
    pub accounts: Map<Address, Holding>,
    pub records: Map<Address, EscrowAccount>,
}

impl State {
    /// Whether `address` is in use, by a holding account or by a record.
    pub open spec fn taken(self, address: Address) -> bool {
        self.accounts.contains_key(address) || self.records.contains_key(address)
    }

    /// The record at `address` is where its seeds say, and so is its vault,
    /// which the ledger holds under the authority of the record's address.
    pub open spec fn backed(self, address: Address) -> bool {
        let record = self.records[address];
        &&& !self.accounts.contains_key(address)
        &&& record.amount_b > 0
        &&& record_address(self.program_id, record.id, record.escrow_bump) == Some(address)
        &&& vault_address(self.program_id, address, record.vault_bump) matches Some(vault)
            && self.accounts.contains_key(vault) && self.accounts[vault].owner == address
    }

    /// The address of the vault of the record at `record`, if there is such
    /// a record and its seeds give an address.
    pub open spec fn vault_of(self, record: Address) -> Option<Address> {
        if self.records.contains_key(record) {
            vault_address(self.program_id, record, self.records[record].vault_bump)
        } else {
            None
        }
    }

    /// Every open offer is backed by its vault.
    pub open spec fn consistent(self) -> bool {
        forall|address: Address| #[trigger]
            self.records.contains_key(address) ==> self.backed(address)
    }

    /// The cancellation `ix` names an open offer, and its signer is not the
    /// maker of that offer.
    pub open spec fn stranger(self, ix: Cancel) -> bool {
        self.records.contains_key(ix.escrow_account) && self.records[ix.escrow_account].maker
            != ix.authority
    }
}

/// What a result says of an outcome: `r` is `Ok` and the state went from
/// `before` to the state of the outcome, or `r` is the error of the outcome
/// and the state stayed as it was.
pub open spec fn reports(
    r: Result<(), EscrowError>,
    outcome: Result<State, EscrowError>,
    before: State,
    after: State,
) -> bool {
    match outcome {
        Ok(state) => r is Ok && after == state,
        Err(e) => r == Err::<(), EscrowError>(e) && after == before,
    }
}

/// The record that a successful `initialize` writes.
pub open spec fn opened_record(
    ix: Initialize,
    amount_b: u64,
    id: u64,
    escrow_bump: u8,
    vault_bump: u8,
) -> EscrowAccount {
    EscrowAccount { maker: ix.authority, mint_b: ix.mint_b, amount_b, id, escrow_bump, vault_bump }
}

/// What opening an offer does. In this order: the addresses of the record and
/// of its vault are derived (`AddressCollision` where there are none, where
/// one of them is in use, or where the two are the same); the maker's source
/// account is read (the ledger's `AccountNotFound` where it is missing); the
/// deposit is planned (see `open_plan`); the ledger performs the steps (its
/// refusal is handed on); the record is written.
pub open spec fn open_outcome(s: State, ix: Initialize, amount_a: u64, amount_b: u64, id: u64) -> Result<
    State,
    EscrowError,
> {
    match derived(s.program_id, id) {
        None => Err(EscrowError::AddressCollision),
        Some(d) => if s.taken(d.escrow_account) || s.taken(d.vault_account) || d.escrow_account
            == d.vault_account {
            Err(EscrowError::AddressCollision)
        } else if !s.accounts.contains_key(ix.token_account_a) {
            Err(EscrowError::Ledger(LedgerError::AccountNotFound))
        } else {
            match open_plan(
                ix.authority,
                loaded(s.accounts, ix.token_account_a),
                ix.mint_a,
                amount_a,
                d,
            ) {
                Err(e) => Err(e),
                Ok(steps) => match apply_steps(s.accounts, steps) {
                    Err(e) => Err(EscrowError::Ledger(e)),
                    Ok(accounts) => Ok(
                        State {
                            accounts,
                            records: s.records.insert(
                                d.escrow_account,
                                opened_record(ix, amount_b, id, d.escrow_bump, d.vault_bump),
                            ),
                            ..s
                        },
                    ),
                },
            }
        },
    }
}

/// What cancelling an offer does. In this order: the record is looked up
/// (`RecordNotFound`); the signer must be its maker (`Unauthorized`); the
/// authority of the record and the address of its vault are computed again
/// from the stored bump seeds (`AddressCollision` where they give none); the
/// vault and the receiving account are read (the ledger's `AccountNotFound`);
/// the refund is planned (see `cancel_plan`); the ledger performs the steps
/// (its refusal is handed on); the record is destroyed.
pub open spec fn cancel_outcome(s: State, ix: Cancel) -> Result<State, EscrowError> {
    if !s.records.contains_key(ix.escrow_account) {
        Err(EscrowError::RecordNotFound)
    } else {
        let record = s.records[ix.escrow_account];
        if record.maker != ix.authority {
            Err(EscrowError::Unauthorized)
        } else {
            match (
                record_address(s.program_id, record.id, record.escrow_bump),
                vault_address(s.program_id, ix.escrow_account, record.vault_bump),
            ) {
                (Some(authority), Some(vault)) => if !s.accounts.contains_key(vault)
                    || !s.accounts.contains_key(ix.token_account_a) {
                    Err(EscrowError::Ledger(LedgerError::AccountNotFound))
                } else {
                    match cancel_plan(
                        record,
                        ix.authority,
                        authority,
                        loaded(s.accounts, vault),
                        loaded(s.accounts, ix.token_account_a),
                    ) {
                        Err(e) => Err(e),
                        Ok(steps) => match apply_steps(s.accounts, steps) {
                            Err(e) => Err(EscrowError::Ledger(e)),
                            Ok(accounts) => Ok(
                                State {
                                    accounts,
                                    records: s.records.remove(ix.escrow_account),
                                    ..s
                                },
                            ),
                        },
                    }
                },
                _ => Err(EscrowError::AddressCollision),
            }
        }
    }
}

/// What accepting an offer does. In this order: the record is looked up
/// (`RecordNotFound`); the authority of the record and the address of its
/// vault are computed again from the stored bump seeds (`AddressCollision`
/// where they give none); the vault, the taker's paying account and the
/// maker's receiving account are read (the ledger's `AccountNotFound`); the
/// settlement is planned (see `exchange_plan`); the ledger performs the steps
/// (its refusal is handed on); the record is destroyed.
pub open spec fn exchange_outcome(s: State, ix: Exchange) -> Result<State, EscrowError> {
    if !s.records.contains_key(ix.escrow_account) {
        Err(EscrowError::RecordNotFound)
    } else {
        let record = s.records[ix.escrow_account];
        match (
            record_address(s.program_id, record.id, record.escrow_bump),
            vault_address(s.program_id, ix.escrow_account, record.vault_bump),
        ) {
            (Some(authority), Some(vault)) => if !s.accounts.contains_key(vault)
                || !s.accounts.contains_key(ix.taker_token_account_b) || !s.accounts.contains_key(
                ix.maker_token_account_b,
            ) {
                Err(EscrowError::Ledger(LedgerError::AccountNotFound))
            } else {
                match exchange_plan(
                    record,
                    ix.authority,
                    authority,
                    loaded(s.accounts, vault),
                    loaded(s.accounts, ix.taker_token_account_b),
                    loaded(s.accounts, ix.maker_token_account_b),
                    ix.taker_token_account_a,
                ) {
                    Err(e) => Err(e),
                    Ok(steps) => match apply_steps(s.accounts, steps) {
                        Err(e) => Err(EscrowError::Ledger(e)),
                        Ok(accounts) => Ok(
                            State { accounts, records: s.records.remove(ix.escrow_account), ..s },
                        ),
                    },
                }
            },
            _ => Err(EscrowError::AddressCollision),
        }
    }
}

/// How much the balance at `account` grew from `before` to `after`. An
/// account that is not there counts as empty.
pub open spec fn gain(before: State, after: State, account: Address) -> int {
    balance(after.accounts, account) - balance(before.accounts, account)
}

/// What `holding` is with `amount` taken out.
pub open spec fn debited(holding: Holding, amount: u64) -> Holding {
    Holding { amount: (holding.amount - amount) as u64, ..holding }
}

/// What `holding` is with `amount` put in.
pub open spec fn credited(holding: Holding, amount: u64) -> Holding {
    Holding { amount: (holding.amount + amount) as u64, ..holding }
}

/// The deposit of a new offer has moved. The record is open at its derived
/// address, which was free. The vault is new, of the deposit's asset type,
/// under the authority of the record's address, and holds exactly `amount_a`.
/// The maker's source account holds `amount_a` less. Nothing else has changed.
pub open spec fn deposited(
    before: State,
    after: State,
    ix: Initialize,
    amount_a: u64,
    amount_b: u64,
    id: u64,
) -> bool {
    derived(before.program_id, id) matches Some(d) && {
        let source = before.accounts[ix.token_account_a];
        let vault = Holding { mint: ix.mint_a, owner: d.escrow_account, amount: amount_a };
        &&& !before.taken(d.escrow_account)
        &&& !before.taken(d.vault_account)
        &&& before.accounts.contains_key(ix.token_account_a)
        &&& source.amount >= amount_a
        &&& balance(after.accounts, d.vault_account) == amount_a
        &&& gain(before, after, ix.token_account_a) == -amount_a
        &&& after.program_id == before.program_id
        &&& after.accounts == before.accounts.insert(
            ix.token_account_a,
            debited(source, amount_a),
        ).insert(d.vault_account, vault)
        &&& after.records == before.records.insert(
            d.escrow_account,
            opened_record(ix, amount_b, id, d.escrow_bump, d.vault_bump),
        )
    }
}

/// The offer at `ix.escrow_account` has been cancelled by its maker. Record
/// and vault are gone, and what the vault held is with the receiving account.
/// Nothing else has changed.
pub open spec fn refunded(before: State, after: State, ix: Cancel) -> bool {
    before.vault_of(ix.escrow_account) matches Some(vault) && {
        let held = before.accounts[vault].amount;
        let receiver = before.accounts[ix.token_account_a];
        &&& before.records[ix.escrow_account].maker == ix.authority
        &&& before.accounts.contains_key(vault)
        &&& before.accounts.contains_key(ix.token_account_a)
        &&& ix.token_account_a != vault ==> gain(before, after, ix.token_account_a) == held
        &&& after.program_id == before.program_id
        &&& after.records == before.records.remove(ix.escrow_account)
        &&& after.accounts == (if ix.token_account_a == vault {
            before.accounts.remove(vault)
        } else {
            before.accounts.insert(ix.token_account_a, credited(receiver, held)).remove(vault)
        })
    }
}

/// The two legs of an exchange touch different accounts: neither account of
/// the payment is the vault or the account that receives the deposit.
pub open spec fn legs_apart(ix: Exchange, vault: Address) -> bool {
    &&& ix.maker_token_account_b != vault
    &&& ix.maker_token_account_b != ix.taker_token_account_a
    &&& ix.taker_token_account_b != vault
    &&& ix.taker_token_account_b != ix.taker_token_account_a
}

/// Nothing is made or lost between the parties of an exchange: where its legs
/// are apart, what the maker's receiving account gains is what the taker's
/// paying account loses, and what the receiving account of the deposit gains
/// is what the vault loses.
pub open spec fn exchange_balanced(before: State, after: State, ix: Exchange) -> bool {
    before.vault_of(ix.escrow_account) matches Some(vault) ==> legs_apart(ix, vault) ==> {
        &&& gain(before, after, ix.maker_token_account_b) + gain(
            before,
            after,
            ix.taker_token_account_b,
        ) == 0
        &&& gain(before, after, vault) + gain(before, after, ix.taker_token_account_a) == 0
    }
}

/// The four accounts of an exchange are four: its legs are apart, the maker
/// is not paid from the account that receives the payment, and the deposit
/// does not go back into the vault.
pub open spec fn all_apart(ix: Exchange, vault: Address) -> bool {
    &&& legs_apart(ix, vault)
    &&& ix.maker_token_account_b != ix.taker_token_account_b
    &&& ix.taker_token_account_a != vault
}

/// The offer at `ix.escrow_account` has been settled. Record and vault are
/// gone. Where the four accounts are four, the maker's receiving account has
/// gained the amount asked for, the taker's paying account has lost it, the
/// receiving account of the deposit has gained what the vault held, and
/// nothing else has changed.
pub open spec fn settled(before: State, after: State, ix: Exchange) -> bool {
    before.vault_of(ix.escrow_account) matches Some(vault) && {
        let asked = before.records[ix.escrow_account].amount_b;
        let held = before.accounts[vault].amount;
        &&& before.accounts.contains_key(vault)
        &&& !after.accounts.contains_key(vault)
        &&& after.program_id == before.program_id
        &&& after.records == before.records.remove(ix.escrow_account)
        &&& all_apart(ix, vault) ==> {
            &&& gain(before, after, ix.maker_token_account_b) == asked
            &&& gain(before, after, ix.taker_token_account_b) == -asked
            &&& gain(before, after, ix.taker_token_account_a) == held
            &&& after.accounts == before.accounts.insert(
                ix.taker_token_account_b,
                debited(before.accounts[ix.taker_token_account_b], asked),
            ).insert(
                ix.maker_token_account_b,
                credited(before.accounts[ix.maker_token_account_b], asked),
            ).insert(
                ix.taker_token_account_a,
                credited(before.accounts[ix.taker_token_account_a], held),
            ).remove(vault)
        }
    }
}

} // verus!
