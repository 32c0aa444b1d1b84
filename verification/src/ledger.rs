use crate::address::Address;
use crate::store::Store;
use vstd::prelude::*;

verus! {

/// What the ledger keeps for one holding account.
#[derive(Clone, Copy, Debug, PartialEq, Eq)]
pub struct Holding {
    /// The asset type held.
    pub mint: Address,
    /// The party whose authority moves the balance.
    pub owner: Address,
    /// The balance.
    pub amount: u64,
}

/// A holding account as read from the ledger: its address and what is kept there.
#[derive(Clone, Copy, Debug, PartialEq, Eq)]
pub struct TokenAccount {
    pub address: Address,
    pub mint: Address,
    pub owner: Address,
    pub amount: u64,
}

/// The account that `accounts` keeps under `address`, as read from the ledger.
pub open spec fn loaded(accounts: Map<Address, Holding>, address: Address) -> TokenAccount {
    TokenAccount {
        address,
        mint: accounts[address].mint,
        owner: accounts[address].owner,
        amount: accounts[address].amount,
    }
}

/// Why the ledger refused an instruction.
#[derive(Clone, Copy, Debug, PartialEq, Eq, Structural)]
pub enum LedgerError {
    /// A named account is not on the ledger.
    AccountNotFound,
    /// The address of a new account is taken.
    AddressInUse,
    /// The two accounts of a transfer hold different asset types.
    MintMismatch,
    /// The authorizing party does not own the account that is debited or closed.
    OwnerMismatch,
    /// The debited account holds less than the amount.
    InsufficientFunds,
    /// The credited balance would not fit.
    BalanceOverflow,
    /// The account to close still holds a balance.
    NonZeroBalance,
}

/// One instruction to the ledger.
#[derive(Clone, Copy, Debug, PartialEq, Eq)]
pub enum Step {
    /// Open an empty holding account for `mint`, owned by `owner`.
    Open { account: Address, mint: Address, owner: Address },
    /// Move `amount` from `from` to `to`, authorized by `authority`.
    Transfer { from: Address, to: Address, amount: u64, authority: Address },
    /// Close the empty account `account`, authorized by `authority`; its storage fee is
    /// owed to `destination`.
    Close { account: Address, destination: Address, authority: Address },
}

/// The balance kept under `account`, zero where there is no such account.
pub open spec fn balance(accounts: Map<Address, Holding>, account: Address) -> int {
    if accounts.contains_key(account) {
        accounts[account].amount as int
    } else {
        0
    }
}

/// Why opening `account` is refused, if it is.
pub open spec fn open_refusal(accounts: Map<Address, Holding>, account: Address) -> Option<
    LedgerError,
> {
    if accounts.contains_key(account) {
        Some(LedgerError::AddressInUse)
    } else {
        None
    }
}

/// Why a transfer is refused, if it is: the first of these that holds.
pub open spec fn transfer_refusal(
    accounts: Map<Address, Holding>,
    from: Address,
    to: Address,
    amount: u64,
    authority: Address,
) -> Option<LedgerError> {
    if !accounts.contains_key(from) || !accounts.contains_key(to) {
        Some(LedgerError::AccountNotFound)
    } else if accounts[from].mint != accounts[to].mint {
        Some(LedgerError::MintMismatch)
    } else if accounts[from].owner != authority {
        Some(LedgerError::OwnerMismatch)
    } else if accounts[from].amount < amount {
        Some(LedgerError::InsufficientFunds)
    } else if from != to && accounts[to].amount + amount > u64::MAX {
        Some(LedgerError::BalanceOverflow)
    } else {
        None
    }
}

/// The accounts after a transfer that is not refused. A transfer from an
/// account to itself changes nothing.
pub open spec fn transfer_effect(
    accounts: Map<Address, Holding>,
    from: Address,
    to: Address,
    amount: u64,
) -> Map<Address, Holding> {
    if from == to {
        accounts
    } else {
        accounts.insert(
            from,
            Holding { amount: (accounts[from].amount - amount) as u64, ..accounts[from] },
        ).insert(to, Holding { amount: (accounts[to].amount + amount) as u64, ..accounts[to] })
    }
}

/// Why closing `account` is refused, if it is: the first of these that holds.
pub open spec fn close_refusal(
    accounts: Map<Address, Holding>,
    account: Address,
    authority: Address,
) -> Option<LedgerError> {
    if !accounts.contains_key(account) {
        Some(LedgerError::AccountNotFound)
    } else if accounts[account].owner != authority {
        Some(LedgerError::OwnerMismatch)
    } else if accounts[account].amount != 0 {
        Some(LedgerError::NonZeroBalance)
    } else {
        None
    }
}

/// Why `step` is refused on `accounts`, if it is.
pub open spec fn step_refusal(accounts: Map<Address, Holding>, step: Step) -> Option<LedgerError> {
    match step {
        Step::Open { account, .. } => open_refusal(accounts, account),
        Step::Transfer { from, to, amount, authority } => transfer_refusal(
            accounts,
            from,
            to,
            amount,
            authority,
        ),
        Step::Close { account, authority, .. } => close_refusal(accounts, account, authority),
    }
}

/// The accounts after `step`, where it is not refused.
pub open spec fn step_effect(accounts: Map<Address, Holding>, step: Step) -> Map<Address, Holding> {
    match step {
        Step::Open { account, mint, owner } => accounts.insert(
            account,
            Holding { mint, owner, amount: 0 },
        ),
        Step::Transfer { from, to, amount, .. } => transfer_effect(accounts, from, to, amount),
        Step::Close { account, .. } => accounts.remove(account),
    }
}

/// The outcome of one step: the accounts after it, or the refusal.
pub open spec fn apply_step(accounts: Map<Address, Holding>, step: Step) -> Result<
    Map<Address, Holding>,
    LedgerError,
> {
    match step_refusal(accounts, step) {
        Some(e) => Err(e),
        None => Ok(step_effect(accounts, step)),
    }
}

/// The outcome of a batch: each step works on what the one before it left, and
/// the first refusal is the refusal of the batch.
pub open spec fn apply_steps(accounts: Map<Address, Holding>, steps: Seq<Step>) -> Result<
    Map<Address, Holding>,
    LedgerError,
>
    decreases steps.len(),
{
    if steps.len() == 0 {
        Ok(accounts)
    } else {
        match apply_step(accounts, steps[0]) {
            Err(e) => Err(e),
            Ok(next) => apply_steps(next, steps.drop_first()),
        }
    }
}

/// What a result says of an outcome: `r` is `Ok` and the accounts went from
/// `before` to the accounts of the outcome, or `r` is the refusal of the
/// outcome and the accounts stayed as they were.
pub open spec fn reports(
    r: Result<(), LedgerError>,
    outcome: Result<Map<Address, Holding>, LedgerError>,
    before: Map<Address, Holding>,
    after: Map<Address, Holding>,
) -> bool {
    match outcome {
        Ok(accounts) => r is Ok && after == accounts,
        Err(e) => r == Err::<(), LedgerError>(e) && after == before,
    }
}

/// An asset ledger held in memory: holding accounts by address.
pub struct Ledger {
    accounts: Store<Holding>,
}

impl Ledger {
    /// The accounts on the ledger, by address.
    pub closed spec fn view(&self) -> Map<Address, Holding> {
        self.accounts@
    }

    /// A ledger holds finitely many accounts.
    pub proof fn lemma_finite(&self)
        ensures
            self@.dom().finite(),
    {
        self.accounts.lemma_finite();
    }

    /// A ledger without accounts.
    pub fn new() -> (r: Ledger)
        ensures
            r@ == Map::<Address, Holding>::empty(),
    {
        Ledger { accounts: Store::new() }
    }

    /// The account at `address`, if there is one.
    pub fn account(&self, address: &Address) -> (r: Option<TokenAccount>)
        ensures
            r == (if self@.contains_key(*address) {
                Some(loaded(self@, *address))
            } else {
                None
            }),
    {
        match self.accounts.get(address) {
            Some(h) => Some(
                TokenAccount { address: *address, mint: h.mint, owner: h.owner, amount: h.amount },
            ),
            None => None,
        }
    }

    /// Puts `amount` of a newly issued asset into a new account at `account`.
    pub fn issue(&mut self, account: Address, mint: Address, owner: Address, amount: u64) -> (r:
        Result<(), LedgerError>)
        ensures
            reports(
                r,
                if old(self)@.contains_key(account) {
                    Err(LedgerError::AddressInUse)
                } else {
                    Ok(old(self)@.insert(account, Holding { mint, owner, amount }))
                },
                old(self)@,
                final(self)@,
            ),
    {
        if self.accounts.contains(&account) {
            return Err(LedgerError::AddressInUse);
        }
        self.accounts.put(account, Holding { mint, owner, amount });
        Ok(())
    }

    /// Opens an empty account.
    pub fn open_account(&mut self, account: Address, mint: Address, owner: Address) -> (r: Result<
        (),
        LedgerError,
    >)
        ensures
            reports(
                r,
                apply_step(old(self)@, Step::Open { account, mint, owner }),
                old(self)@,
                final(self)@,
            ),
    {
        self.issue(account, mint, owner, 0)
    }

    /// Moves `amount` from `from` to `to` on the authority of `authority`.
    pub fn transfer(&mut self, from: Address, to: Address, amount: u64, authority: Address) -> (r:
        Result<(), LedgerError>)
        ensures
            reports(
                r,
                apply_step(old(self)@, Step::Transfer { from, to, amount, authority }),
                old(self)@,
                final(self)@,
            ),
    {
        let source = match self.accounts.get(&from) {
            Some(h) => h,
            None => { return Err(LedgerError::AccountNotFound); },
        };
        let target = match self.accounts.get(&to) {
            Some(h) => h,
            None => { return Err(LedgerError::AccountNotFound); },
        };
        if source.mint != target.mint {
            return Err(LedgerError::MintMismatch);
        }
        if source.owner != authority {
            return Err(LedgerError::OwnerMismatch);
        }
        if source.amount < amount {
            return Err(LedgerError::InsufficientFunds);
        }
        if from == to {
            return Ok(());
        }
        if amount > u64::MAX - target.amount {
            return Err(LedgerError::BalanceOverflow);
        }
        self.accounts.put(from, Holding { amount: source.amount - amount, ..source });
        self.accounts.put(to, Holding { amount: target.amount + amount, ..target });
        Ok(())
    }

    /// Closes the empty account `account` on the authority of `authority`. The
    /// ledger keeps no storage fees: `destination` names who is owed the fee of
    /// the closed account.
    pub fn close_account(&mut self, account: Address, destination: Address, authority: Address) -> (r:
        Result<(), LedgerError>)
        ensures
            reports(
                r,
                apply_step(old(self)@, Step::Close { account, destination, authority }),
                old(self)@,
                final(self)@,
            ),
    {
        let held = match self.accounts.get(&account) {
            Some(h) => h,
            None => { return Err(LedgerError::AccountNotFound); },
        };
        if held.owner != authority {
            return Err(LedgerError::OwnerMismatch);
        }
        if held.amount != 0 {
            return Err(LedgerError::NonZeroBalance);
        }
        self.accounts.remove(&account);
        Ok(())
    }

    /// Performs one step.
    pub fn apply(&mut self, step: &Step) -> (r: Result<(), LedgerError>)
        ensures
            reports(r, apply_step(old(self)@, *step), old(self)@, final(self)@),
    {
        match *step {
            Step::Open { account, mint, owner } => self.open_account(account, mint, owner),
            Step::Transfer { from, to, amount, authority } => self.transfer(
                from,
                to,
                amount,
                authority,
            ),
            Step::Close { account, destination, authority } => self.close_account(
                account,
                destination,
                authority,
            ),
        }
    }

    /// Works out a batch of steps on a copy: the ledger as the whole batch
    /// leaves it, or the first refusal.
    pub fn prepare(&self, steps: &Vec<Step>) -> (r: Result<Ledger, LedgerError>)
        ensures
            match apply_steps(self@, steps@) {
                Ok(accounts) => r matches Ok(after) && after@ == accounts,
                Err(e) => r matches Err(refusal) && refusal == e,
            },
    {
        let mut scratch = Ledger { accounts: self.accounts.duplicate() };
        let mut i: usize = 0;
        assert(steps@.skip(0) =~= steps@);
        while i < steps.len()
            invariant
                i <= steps@.len(),
                apply_steps(self@, steps@) == apply_steps(scratch@, steps@.skip(i as int)),
            decreases steps@.len() - i,
        {
            proof {
                assert(steps@.skip(i as int)[0] == steps@[i as int]);
                assert(steps@.skip(i as int).drop_first() =~= steps@.skip(i + 1));
            }
            match scratch.apply(&steps[i]) {
                Ok(()) => {},
                Err(e) => {
                    return Err(e);
                },
            }
            i += 1;
        }
        Ok(scratch)
    }

    /// Performs a batch of steps as one unit: all of them, or, where one is
    /// refused, none.
    pub fn execute(&mut self, steps: &Vec<Step>) -> (r: Result<(), LedgerError>)
        ensures
            reports(r, apply_steps(old(self)@, steps@), old(self)@, final(self)@),
    {
        match self.prepare(steps) {
            Ok(after) => {
                *self = after;
                Ok(())
            },
            Err(e) => Err(e),
        }
    }
}

/// A batch of two steps is the first step, then the second.
pub proof fn lemma_apply_two(accounts: Map<Address, Holding>, first: Step, second: Step)
    ensures
        apply_steps(accounts, seq![first, second]) == (match apply_step(accounts, first) {
            Err(e) => Err(e),
            Ok(next) => apply_step(next, second),
        }),
{
    let steps = seq![first, second];
    assert(steps[0] == first);
    assert(steps.drop_first() =~= seq![second]);
    assert(seq![second][0] == second);
    assert(seq![second].drop_first() =~= Seq::<Step>::empty());
    reveal_with_fuel(apply_steps, 3);
}

/// A batch of three steps is the first step, then the other two.
pub proof fn lemma_apply_three(
    accounts: Map<Address, Holding>,
    first: Step,
    second: Step,
    third: Step,
)
    ensures
        apply_steps(accounts, seq![first, second, third]) == (match apply_step(accounts, first) {
            Err(e) => Err(e),
            Ok(next) => apply_steps(next, seq![second, third]),
        }),
{
    let steps = seq![first, second, third];
    assert(steps[0] == first);
    assert(steps.drop_first() =~= seq![second, third]);
}

} // verus!
