use crate::address::{Address, Derivation};
use crate::authority::ProgramAuthority;
use crate::ledger::{LedgerError, Step, TokenAccount};
use crate::record::EscrowAccount;
use vstd::prelude::*;

verus! {

/// Why an escrow operation failed.
#[derive(Clone, Copy, Debug, PartialEq, Eq, Structural)]
pub enum EscrowError {
    /// The signer is not the maker of the record.
    Unauthorized,
    /// A holding account is not of the asset type that the operation asks for.
    AssetTypeMismatch,
    /// A holding account cannot cover the amount.
    InsufficientBalance,
    /// The account that is to receive for the maker is not the maker's, or is
    /// of another asset type.
    WrongDestination,
    /// No record is open at the address.
    RecordNotFound,
    /// No free address can be derived for the record or its vault.
    AddressCollision,
    /// The ledger refused a step.
    Ledger(LedgerError),
}

/// The accounts that opening an offer names.
#[derive(Clone, Copy, Debug, PartialEq, Eq)]
pub struct Initialize {
    /// The maker, who signs.
    pub authority: Address,
    /// The maker's holding account that the deposit comes from.
    pub token_account_a: Address,
    /// The asset type of the deposit.
    pub mint_a: Address,
    /// The asset type that the maker asks for.
    pub mint_b: Address,
}

/// The accounts that cancelling an offer names.
#[derive(Clone, Copy, Debug, PartialEq, Eq)]
pub struct Cancel {
    /// The record to cancel.
    pub escrow_account: Address,
    /// The signer, who claims to be the maker.
    pub authority: Address,
    /// The maker's holding account that the deposit goes back to.
    pub token_account_a: Address,
}

/// The accounts that accepting an offer names.
#[derive(Clone, Copy, Debug, PartialEq, Eq)]
pub struct Exchange {
    /// The record of the offer.
    pub escrow_account: Address,
    /// The taker, who signs.
    pub authority: Address,
    /// The maker's holding account that receives what the maker asked for.
    pub maker_token_account_b: Address,
    /// The taker's holding account that pays it.
    pub taker_token_account_b: Address,
    /// The holding account that receives the deposit.
    pub taker_token_account_a: Address,
}

/// What ends an escrow: the steps for the ledger, and who is owed the storage
/// fee of the destroyed record.
#[derive(Debug)]
pub struct Settlement {
    pub steps: Vec<Step>,
    pub record_refund: Address,
}

/// A plan as mathematics: its steps, or the reason why there is none.
pub open spec fn steps_of(r: Result<Vec<Step>, EscrowError>) -> Result<Seq<Step>, EscrowError> {
    match r {
        Ok(steps) => Ok(steps@),
        Err(e) => Err(e),
    }
}

/// A settlement as mathematics: its steps, or the reason why there is none.
pub open spec fn settlement_of(r: Result<Settlement, EscrowError>) -> Result<
    Seq<Step>,
    EscrowError,
> {
    match r {
        Ok(settlement) => Ok(settlement.steps@),
        Err(e) => Err(e),
    }
}

/// The steps that open an offer, or the reason why the deposit is refused:
/// the source account is of another asset type than the vault
/// (`AssetTypeMismatch`), or else holds less than the deposit
/// (`InsufficientBalance`).
pub open spec fn open_plan(
    authority: Address,
    source: TokenAccount,
    mint_a: Address,
    amount_a: u64,
    d: Derivation,
) -> Result<Seq<Step>, EscrowError> {
    if source.mint != mint_a {
        Err(EscrowError::AssetTypeMismatch)
    } else if source.amount < amount_a {
        Err(EscrowError::InsufficientBalance)
    } else {
        Ok(
            seq![
                Step::Open { account: d.vault_account, mint: mint_a, owner: d.escrow_account },
                Step::Transfer {
                    from: source.address,
                    to: d.vault_account,
                    amount: amount_a,
                    authority,
                },
            ],
        )
    }
}

/// The steps that give a deposit back, or the reason why not: the signer is
/// not the maker (`Unauthorized`), or else the receiving account is not the
/// maker's or not of the vault's asset type (`WrongDestination`).
pub open spec fn cancel_plan(
    record: EscrowAccount,
    signer: Address,
    program_authority: Address,
    vault: TokenAccount,
    destination: TokenAccount,
) -> Result<Seq<Step>, EscrowError> {
    if record.maker != signer {
        Err(EscrowError::Unauthorized)
    } else if destination.owner != record.maker || destination.mint != vault.mint {
        Err(EscrowError::WrongDestination)
    } else {
        Ok(
            seq![
                Step::Transfer {
                    from: vault.address,
                    to: destination.address,
                    amount: vault.amount,
                    authority: program_authority,
                },
                Step::Close {
                    account: vault.address,
                    destination: record.maker,
                    authority: program_authority,
                },
            ],
        )
    }
}

/// The steps that settle an offer, or the reason why not: the taker's paying
/// account is not of the asset type asked for (`AssetTypeMismatch`), or else
/// holds less than the amount asked for (`InsufficientBalance`), or else the
/// account that receives for the maker is not the maker's or not of the asset
/// type asked for (`WrongDestination`).
pub open spec fn exchange_plan(
    record: EscrowAccount,
    taker: Address,
    program_authority: Address,
    vault: TokenAccount,
    taker_b: TokenAccount,
    maker_b: TokenAccount,
    taker_a: Address,
) -> Result<Seq<Step>, EscrowError> {
    if taker_b.mint != record.mint_b {
        Err(EscrowError::AssetTypeMismatch)
    } else if taker_b.amount < record.amount_b {
        Err(EscrowError::InsufficientBalance)
    } else if maker_b.owner != record.maker || maker_b.mint != record.mint_b {
        Err(EscrowError::WrongDestination)
    } else {
        Ok(
            seq![
                Step::Transfer {
                    from: taker_b.address,
                    to: maker_b.address,
                    amount: record.amount_b,
                    authority: taker,
                },
                Step::Transfer {
                    from: vault.address,
                    to: taker_a,
                    amount: vault.amount,
                    authority: program_authority,
                },
                Step::Close {
                    account: vault.address,
                    destination: taker,
                    authority: program_authority,
                },
            ],
        )
    }
}

/// Plans the deposit of a new offer: the vault is opened for the asset type
/// `mint_a` under the authority of the record's address, then `amount_a`
/// moves into it from `source` on the maker's authority.
pub fn plan_initialize(
    authority: Address,
    source: &TokenAccount,
    mint_a: Address,
    amount_a: u64,
    d: &Derivation,
) -> (r: Result<Vec<Step>, EscrowError>)
    ensures
        steps_of(r) == open_plan(authority, *source, mint_a, amount_a, *d),
{
    if source.mint != mint_a {
        return Err(EscrowError::AssetTypeMismatch);
    }
    if source.amount < amount_a {
        return Err(EscrowError::InsufficientBalance);
    }
    let mut steps: Vec<Step> = Vec::new();
    steps.push(Step::Open { account: d.vault_account, mint: mint_a, owner: d.escrow_account });
    steps.push(
        Step::Transfer { from: source.address, to: d.vault_account, amount: amount_a, authority },
    );
    assert(steps@ =~= open_plan(authority, *source, mint_a, amount_a, *d).unwrap());
    Ok(steps)
}

/// Plans a cancellation: the vault's whole balance moves to `destination` on
/// the authority of the record's address, then the vault is closed. The
/// storage fees of the vault and of the record are owed to the maker.
pub fn plan_cancel(
    record: &EscrowAccount,
    signer: Address,
    authority: &ProgramAuthority,
    vault: &TokenAccount,
    destination: &TokenAccount,
) -> (r: Result<Settlement, EscrowError>)
    ensures
        settlement_of(r) == cancel_plan(*record, signer, authority@, *vault, *destination),
        r matches Ok(settlement) ==> settlement.record_refund == record.maker,
{
    let program_authority = authority.address();
    if record.maker != signer {
        return Err(EscrowError::Unauthorized);
    }
    if destination.owner != record.maker || destination.mint != vault.mint {
        return Err(EscrowError::WrongDestination);
    }
    let mut steps: Vec<Step> = Vec::new();
    steps.push(
        Step::Transfer {
            from: vault.address,
            to: destination.address,
            amount: vault.amount,
            authority: program_authority,
        },
    );
    steps.push(
        Step::Close {
            account: vault.address,
            destination: record.maker,
            authority: program_authority,
        },
    );
    assert(steps@ =~= cancel_plan(
        *record,
        signer,
        program_authority,
        *vault,
        *destination,
    ).unwrap());
    Ok(Settlement { steps, record_refund: record.maker })
}

/// Plans a settlement: the amount asked for moves from the taker to the maker
/// on the taker's authority, the vault's whole balance moves to `taker_a` on
/// the authority of the record's address, then the vault is closed. The
/// storage fee of the vault is owed to the taker, that of the record to the
/// maker.
pub fn plan_exchange(
    record: &EscrowAccount,
    taker: Address,
    authority: &ProgramAuthority,
    vault: &TokenAccount,
    taker_b: &TokenAccount,
    maker_b: &TokenAccount,
    taker_a: Address,
) -> (r: Result<Settlement, EscrowError>)
    ensures
        settlement_of(r) == exchange_plan(
            *record,
            taker,
            authority@,
            *vault,
            *taker_b,
            *maker_b,
            taker_a,
        ),
        r matches Ok(settlement) ==> settlement.record_refund == record.maker,
{
    let program_authority = authority.address();
    if taker_b.mint != record.mint_b {
        return Err(EscrowError::AssetTypeMismatch);
    }
    if taker_b.amount < record.amount_b {
        return Err(EscrowError::InsufficientBalance);
    }
    if maker_b.owner != record.maker || maker_b.mint != record.mint_b {
        return Err(EscrowError::WrongDestination);
    }
    let mut steps: Vec<Step> = Vec::new();
    steps.push(
        Step::Transfer {
            from: taker_b.address,
            to: maker_b.address,
            amount: record.amount_b,
            authority: taker,
        },
    );
    steps.push(
        Step::Transfer {
            from: vault.address,
            to: taker_a,
            amount: vault.amount,
            authority: program_authority,
        },
    );
    steps.push(
        Step::Close { account: vault.address, destination: taker, authority: program_authority },
    );
    assert(steps@ =~= exchange_plan(
        *record,
        taker,
        program_authority,
        *vault,
        *taker_b,
        *maker_b,
        taker_a,
    ).unwrap());
    Ok(Settlement { steps, record_refund: record.maker })
}

} // verus!
