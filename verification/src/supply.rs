use crate::address::Address;
use crate::ledger::{apply_step, apply_steps, Holding, Step};
use vstd::prelude::*;

verus! {

/// What a holding counts for in the supply of `mint`.
pub open spec fn share(holding: Holding, mint: Address) -> int {
    if holding.mint == mint {
        holding.amount as int
    } else {
        0
    }
}

/// The supply of `mint`: the balances of all accounts of that asset type,
/// added up.
pub open spec fn supply(accounts: Map<Address, Holding>, mint: Address) -> int
    decreases accounts.dom().len(),
    when accounts.dom().finite()
{
    if accounts.dom().is_empty() {
        0
    } else {
        let a = accounts.dom().choose();
        share(accounts[a], mint) + supply(accounts.remove(a), mint)
    }
}

/// The supply is the share of any one account and the supply of the rest.
pub proof fn lemma_supply_remove(accounts: Map<Address, Holding>, mint: Address, account: Address)
    requires
        accounts.dom().finite(),
        accounts.contains_key(account),
    ensures
        supply(accounts, mint) == share(accounts[account], mint) + supply(
            accounts.remove(account),
            mint,
        ),
    decreases accounts.dom().len(),
{
    let a = accounts.dom().choose();
    if a != account {
        lemma_supply_remove(accounts.remove(a), mint, account);
        lemma_supply_remove(accounts.remove(account), mint, a);
        assert(accounts.remove(a).remove(account) =~= accounts.remove(account).remove(a));
    }
}

/// Writing a holding under an address puts its share in place of the share
/// of what was there.
pub proof fn lemma_supply_insert(
    accounts: Map<Address, Holding>,
    mint: Address,
    account: Address,
    holding: Holding,
)
    requires
        accounts.dom().finite(),
    ensures
        supply(accounts.insert(account, holding), mint) == supply(accounts, mint) + share(
            holding,
            mint,
        ) - (if accounts.contains_key(account) {
            share(accounts[account], mint)
        } else {
            0
        }),
{
    let after = accounts.insert(account, holding);
    lemma_supply_remove(after, mint, account);
    assert(after.remove(account) =~= accounts.remove(account));
    if accounts.contains_key(account) {
        lemma_supply_remove(accounts, mint, account);
    } else {
        assert(accounts.remove(account) =~= accounts);
    }
}

/// A step that the ledger performs leaves finitely many accounts and the
/// supply of every asset type as it was.
pub proof fn lemma_step_conserves(accounts: Map<Address, Holding>, step: Step, mint: Address)
    requires
        accounts.dom().finite(),
    ensures
        apply_step(accounts, step) matches Ok(after) ==> after.dom().finite() && supply(after, mint)
            == supply(accounts, mint),
{
    if let Ok(after) = apply_step(accounts, step) {
        match step {
            Step::Open { account, mint: m, owner } => {
                lemma_supply_insert(accounts, mint, account, Holding { mint: m, owner, amount: 0 });
            },
            Step::Transfer { from, to, amount, authority } => {
                if from != to {
                    let debited = Holding {
                        amount: (accounts[from].amount - amount) as u64,
                        ..accounts[from]
                    };
                    let credited = Holding {
                        amount: (accounts[to].amount + amount) as u64,
                        ..accounts[to]
                    };
                    lemma_supply_insert(accounts, mint, from, debited);
                    lemma_supply_insert(accounts.insert(from, debited), mint, to, credited);
                }
            },
            Step::Close { account, destination, authority } => {
                lemma_supply_remove(accounts, mint, account);
            },
        }
    }
}

/// A batch that the ledger performs leaves finitely many accounts and the
/// supply of every asset type as it was.
pub proof fn lemma_steps_conserve(accounts: Map<Address, Holding>, steps: Seq<Step>, mint: Address)
    requires
        accounts.dom().finite(),
    ensures
        apply_steps(accounts, steps) matches Ok(after) ==> after.dom().finite() && supply(
            after,
            mint,
        ) == supply(accounts, mint),
    decreases steps.len(),
{
    if steps.len() > 0 {
        lemma_step_conserves(accounts, steps[0], mint);
        if let Ok(next) = apply_step(accounts, steps[0]) {
            lemma_steps_conserve(next, steps.drop_first(), mint);
        }
    }
}

} // verus!
