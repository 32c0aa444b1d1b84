use crate::address::{derived, record_address, Address};
use crate::ledger::{
    apply_step, balance, lemma_apply_three, lemma_apply_two, loaded, Holding, Step,
};
use crate::model::{
    all_apart, cancel_outcome, credited, debited, deposited, exchange_balanced, exchange_outcome,
    legs_apart, open_outcome, refunded, settled, State,
};
use crate::program::{cancel_plan, exchange_plan, open_plan, Cancel, EscrowError, Exchange, Initialize};
use crate::supply::{lemma_steps_conserve, supply};
use vstd::prelude::*;

verus! {

/// The two steps of an offer that opens, one after the other.
proof fn lemma_open_steps(s: State, ix: Initialize, amount_a: u64, amount_b: u64, id: u64)
    ensures
        open_outcome(s, ix, amount_a, amount_b, id) matches Ok(after) ==> {
            let d = derived(s.program_id, id).unwrap();
            &&& derived(s.program_id, id) is Some
            &&& !s.taken(d.escrow_account) && !s.taken(d.vault_account) && d.escrow_account
                != d.vault_account
            &&& s.accounts.contains_key(ix.token_account_a)
            &&& s.accounts[ix.token_account_a].mint == ix.mint_a
            &&& s.accounts[ix.token_account_a].amount >= amount_a
            &&& apply_step(
                s.accounts,
                Step::Open { account: d.vault_account, mint: ix.mint_a, owner: d.escrow_account },
            ) matches Ok(mid) && apply_step(
                mid,
                Step::Transfer {
                    from: ix.token_account_a,
                    to: d.vault_account,
                    amount: amount_a,
                    authority: ix.authority,
                },
            ) matches Ok(last) && last == after.accounts
        },
{
    if let Ok(after) = open_outcome(s, ix, amount_a, amount_b, id) {
        let d = derived(s.program_id, id).unwrap();
        let source = loaded(s.accounts, ix.token_account_a);
        let first = Step::Open { account: d.vault_account, mint: ix.mint_a, owner: d.escrow_account };
        let second = Step::Transfer {
            from: ix.token_account_a,
            to: d.vault_account,
            amount: amount_a,
            authority: ix.authority,
        };
        assert(open_plan(ix.authority, source, ix.mint_a, amount_a, d).unwrap() =~= seq![
            first,
            second,
        ]);
        lemma_apply_two(s.accounts, first, second);
    }
}

/// The two steps of a cancellation that goes through, one after the other.
proof fn lemma_cancel_steps(s: State, ix: Cancel)
    ensures
        cancel_outcome(s, ix) matches Ok(after) ==> {
            let record = s.records[ix.escrow_account];
            let authority = record_address(s.program_id, record.id, record.escrow_bump).unwrap();
            let vault = s.vault_of(ix.escrow_account).unwrap();
            &&& s.records.contains_key(ix.escrow_account)
            &&& record.maker == ix.authority
            &&& record_address(s.program_id, record.id, record.escrow_bump) is Some
            &&& s.vault_of(ix.escrow_account) is Some
            &&& s.accounts.contains_key(vault)
            &&& s.accounts.contains_key(ix.token_account_a)
            &&& after.records == s.records.remove(ix.escrow_account)
            &&& apply_step(
                s.accounts,
                Step::Transfer {
                    from: vault,
                    to: ix.token_account_a,
                    amount: s.accounts[vault].amount,
                    authority,
                },
            ) matches Ok(mid) && apply_step(
                mid,
                Step::Close { account: vault, destination: record.maker, authority },
            ) matches Ok(last) && last == after.accounts
        },
{
    if let Ok(after) = cancel_outcome(s, ix) {
        let record = s.records[ix.escrow_account];
        let authority = record_address(s.program_id, record.id, record.escrow_bump).unwrap();
        let vault = s.vault_of(ix.escrow_account).unwrap();
        let first = Step::Transfer {
            from: vault,
            to: ix.token_account_a,
            amount: s.accounts[vault].amount,
            authority,
        };
        let second = Step::Close { account: vault, destination: record.maker, authority };
        assert(cancel_plan(
            record,
            ix.authority,
            authority,
            loaded(s.accounts, vault),
            loaded(s.accounts, ix.token_account_a),
        ).unwrap() =~= seq![first, second]);
        lemma_apply_two(s.accounts, first, second);
    }
}

/// The three steps of an exchange that goes through, one after the other.
proof fn lemma_exchange_steps(s: State, ix: Exchange)
    ensures
        exchange_outcome(s, ix) matches Ok(after) ==> {
            let record = s.records[ix.escrow_account];
            let authority = record_address(s.program_id, record.id, record.escrow_bump).unwrap();
            let vault = s.vault_of(ix.escrow_account).unwrap();
            &&& s.records.contains_key(ix.escrow_account)
            &&& record_address(s.program_id, record.id, record.escrow_bump) is Some
            &&& s.vault_of(ix.escrow_account) is Some
            &&& s.accounts.contains_key(vault)
            &&& s.accounts.contains_key(ix.taker_token_account_b)
            &&& s.accounts.contains_key(ix.maker_token_account_b)
            &&& after.records == s.records.remove(ix.escrow_account)
            &&& apply_step(
                s.accounts,
                Step::Transfer {
                    from: ix.taker_token_account_b,
                    to: ix.maker_token_account_b,
                    amount: record.amount_b,
                    authority: ix.authority,
                },
            ) matches Ok(paid) && apply_step(
                paid,
                Step::Transfer {
                    from: vault,
                    to: ix.taker_token_account_a,
                    amount: s.accounts[vault].amount,
                    authority,
                },
            ) matches Ok(released) && apply_step(
                released,
                Step::Close { account: vault, destination: ix.authority, authority },
            ) matches Ok(last) && last == after.accounts
        },
{
    if let Ok(after) = exchange_outcome(s, ix) {
        let record = s.records[ix.escrow_account];
        let authority = record_address(s.program_id, record.id, record.escrow_bump).unwrap();
        let vault = s.vault_of(ix.escrow_account).unwrap();
        let first = Step::Transfer {
            from: ix.taker_token_account_b,
            to: ix.maker_token_account_b,
            amount: record.amount_b,
            authority: ix.authority,
        };
        let second = Step::Transfer {
            from: vault,
            to: ix.taker_token_account_a,
            amount: s.accounts[vault].amount,
            authority,
        };
        let third = Step::Close { account: vault, destination: ix.authority, authority };
        assert(exchange_plan(
            record,
            ix.authority,
            authority,
            loaded(s.accounts, vault),
            loaded(s.accounts, ix.taker_token_account_b),
            loaded(s.accounts, ix.maker_token_account_b),
            ix.taker_token_account_a,
        ).unwrap() =~= seq![first, second, third]);
        lemma_apply_three(s.accounts, first, second, third);
        let paid = apply_step(s.accounts, first).unwrap();
        lemma_apply_two(paid, second, third);
    }
}

/// Opening an offer keeps every open offer backed, the new one too.
pub proof fn lemma_open_keeps_consistent(
    s: State,
    ix: Initialize,
    amount_a: u64,
    amount_b: u64,
    id: u64,
)
    requires
        s.consistent(),
        amount_b > 0,
        derived(s.program_id, id) matches Some(d) ==> d.reproducible(s.program_id, id),
    ensures
        open_outcome(s, ix, amount_a, amount_b, id) matches Ok(after) ==> after.consistent(),
{
    if let Ok(after) = open_outcome(s, ix, amount_a, amount_b, id) {
        let d = derived(s.program_id, id).unwrap();
        lemma_open_steps(s, ix, amount_a, amount_b, id);
        assert forall|address: Address| #[trigger]
            after.records.contains_key(address) implies after.backed(address) by {
            if address != d.escrow_account {
                assert(s.records.contains_key(address));
                assert(s.backed(address));
            }
        }
    }
}

/// Cancelling an offer keeps every other open offer backed.
pub proof fn lemma_cancel_keeps_consistent(s: State, ix: Cancel)
    requires
        s.consistent(),
    ensures
        cancel_outcome(s, ix) matches Ok(after) ==> after.consistent(),
{
    if let Ok(after) = cancel_outcome(s, ix) {
        lemma_cancel_steps(s, ix);
        assert(s.backed(ix.escrow_account));
        assert forall|address: Address| #[trigger]
            after.records.contains_key(address) implies after.backed(address) by {
            assert(s.records.contains_key(address));
            assert(s.backed(address));
        }
    }
}

/// Accepting an offer keeps every other open offer backed.
pub proof fn lemma_exchange_keeps_consistent(s: State, ix: Exchange)
    requires
        s.consistent(),
    ensures
        exchange_outcome(s, ix) matches Ok(after) ==> after.consistent(),
{
    if let Ok(after) = exchange_outcome(s, ix) {
        lemma_exchange_steps(s, ix);
        assert(s.backed(ix.escrow_account));
        assert forall|address: Address| #[trigger]
            after.records.contains_key(address) implies after.backed(address) by {
            assert(s.records.contains_key(address));
            assert(s.backed(address));
        }
    }
}

/// After an offer is opened, its vault holds exactly the deposit, the
/// maker's source account holds the deposit less, and nothing else has
/// changed.
pub proof fn law_open_deposits(s: State, ix: Initialize, amount_a: u64, amount_b: u64, id: u64)
    ensures
        open_outcome(s, ix, amount_a, amount_b, id) matches Ok(after) ==> deposited(
            s,
            after,
            ix,
            amount_a,
            amount_b,
            id,
        ),
{
    if let Ok(after) = open_outcome(s, ix, amount_a, amount_b, id) {
        lemma_open_steps(s, ix, amount_a, amount_b, id);
        let d = derived(s.program_id, id).unwrap();
        let vault = Holding { mint: ix.mint_a, owner: d.escrow_account, amount: amount_a };
        assert(after.accounts =~= s.accounts.insert(
            ix.token_account_a,
            debited(s.accounts[ix.token_account_a], amount_a),
        ).insert(d.vault_account, vault));
    }
}

/// An offer can be opened: where the addresses of record and vault are
/// derived and free, a maker who deposits from an account of their own, of
/// the asset type named, that covers the deposit, succeeds.
pub proof fn law_open_succeeds(s: State, ix: Initialize, amount_a: u64, amount_b: u64, id: u64)
    requires
        derived(s.program_id, id) matches Some(d) && !s.taken(d.escrow_account) && !s.taken(
            d.vault_account,
        ) && d.escrow_account != d.vault_account,
        s.accounts.contains_key(ix.token_account_a),
        s.accounts[ix.token_account_a].owner == ix.authority,
        s.accounts[ix.token_account_a].mint == ix.mint_a,
        s.accounts[ix.token_account_a].amount >= amount_a,
    ensures
        open_outcome(s, ix, amount_a, amount_b, id) is Ok,
{
    let d = derived(s.program_id, id).unwrap();
    let first = Step::Open { account: d.vault_account, mint: ix.mint_a, owner: d.escrow_account };
    let second = Step::Transfer {
        from: ix.token_account_a,
        to: d.vault_account,
        amount: amount_a,
        authority: ix.authority,
    };
    assert(open_plan(
        ix.authority,
        loaded(s.accounts, ix.token_account_a),
        ix.mint_a,
        amount_a,
        d,
    ).unwrap() =~= seq![first, second]);
    lemma_apply_two(s.accounts, first, second);
}

/// Whoever is not the maker of an open offer cannot cancel it: the attempt
/// fails with `Unauthorized`, whatever else it names.
pub proof fn law_cancel_needs_maker(s: State, ix: Cancel)
    requires
        s.stranger(ix),
    ensures
        cancel_outcome(s, ix) == Err::<State, EscrowError>(EscrowError::Unauthorized),
{
}

/// A cancellation that goes through destroys record and vault, hands the
/// vault's balance to the receiving account, and changes nothing else.
pub proof fn law_cancel_refunds(s: State, ix: Cancel)
    ensures
        cancel_outcome(s, ix) matches Ok(after) ==> refunded(s, after, ix),
{
    if let Ok(after) = cancel_outcome(s, ix) {
        lemma_cancel_steps(s, ix);
        let vault = s.vault_of(ix.escrow_account).unwrap();
        let held = s.accounts[vault].amount;
        if ix.token_account_a == vault {
            assert(after.accounts =~= s.accounts.remove(vault));
        } else {
            assert(after.accounts =~= s.accounts.insert(
                ix.token_account_a,
                credited(s.accounts[ix.token_account_a], held),
            ).remove(vault));
        }
    }
}

/// An exchange that goes through makes or loses nothing between its
/// parties, as long as its two legs touch different accounts.
pub proof fn law_exchange_balances(s: State, ix: Exchange)
    ensures
        exchange_outcome(s, ix) matches Ok(after) ==> exchange_balanced(s, after, ix),
        exchange_balanced(s, s, ix),
{
    lemma_exchange_steps(s, ix);
}

/// An exchange that goes through destroys record and vault, pays the maker
/// the amount asked for, hands the vault's balance to the taker's receiving
/// account, and changes nothing else.
pub proof fn law_exchange_settles(s: State, ix: Exchange)
    ensures
        exchange_outcome(s, ix) matches Ok(after) ==> settled(s, after, ix),
{
    if let Ok(after) = exchange_outcome(s, ix) {
        lemma_exchange_steps(s, ix);
        let vault = s.vault_of(ix.escrow_account).unwrap();
        let asked = s.records[ix.escrow_account].amount_b;
        let held = s.accounts[vault].amount;
        if all_apart(ix, vault) {
            assert(after.accounts =~= s.accounts.insert(
                ix.taker_token_account_b,
                debited(s.accounts[ix.taker_token_account_b], asked),
            ).insert(
                ix.maker_token_account_b,
                credited(s.accounts[ix.maker_token_account_b], asked),
            ).insert(
                ix.taker_token_account_a,
                credited(s.accounts[ix.taker_token_account_a], held),
            ).remove(vault));
        }
    }
}

/// An open offer can be cancelled: with every open offer backed, the maker
/// who names a receiving account of their own, of the vault's asset type and
/// with room for the vault's balance, succeeds.
pub proof fn law_cancel_succeeds(s: State, ix: Cancel)
    requires
        s.consistent(),
        s.records.contains_key(ix.escrow_account),
        s.records[ix.escrow_account].maker == ix.authority,
        s.vault_of(ix.escrow_account) matches Some(vault) ==> {
            &&& s.accounts.contains_key(ix.token_account_a)
            &&& ix.token_account_a != vault
            &&& s.accounts[ix.token_account_a].owner == ix.authority
            &&& s.accounts[ix.token_account_a].mint == s.accounts[vault].mint
            &&& balance(s.accounts, ix.token_account_a) + balance(s.accounts, vault) <= u64::MAX
        },
    ensures
        cancel_outcome(s, ix) is Ok,
{
    assert(s.backed(ix.escrow_account));
    let record = s.records[ix.escrow_account];
    let authority = record_address(s.program_id, record.id, record.escrow_bump).unwrap();
    let vault = s.vault_of(ix.escrow_account).unwrap();
    let first = Step::Transfer {
        from: vault,
        to: ix.token_account_a,
        amount: s.accounts[vault].amount,
        authority,
    };
    let second = Step::Close { account: vault, destination: record.maker, authority };
    assert(cancel_plan(
        record,
        ix.authority,
        authority,
        loaded(s.accounts, vault),
        loaded(s.accounts, ix.token_account_a),
    ).unwrap() =~= seq![first, second]);
    lemma_apply_two(s.accounts, first, second);
}

/// An open offer can be accepted: with every open offer backed, a taker who
/// pays from an account of their own that covers the amount asked for, into
/// an account of the maker's, both of the asset type asked for, and who names
/// a receiving account of the vault's asset type, succeeds, as long as the
/// legs are apart and the receiving accounts have room.
pub proof fn law_exchange_succeeds(s: State, ix: Exchange)
    requires
        s.consistent(),
        s.records.contains_key(ix.escrow_account),
        s.vault_of(ix.escrow_account) matches Some(vault) ==> {
            let record = s.records[ix.escrow_account];
            &&& legs_apart(ix, vault)
            &&& ix.taker_token_account_a != vault
            &&& s.accounts.contains_key(ix.taker_token_account_b)
            &&& s.accounts[ix.taker_token_account_b].owner == ix.authority
            &&& s.accounts[ix.taker_token_account_b].mint == record.mint_b
            &&& s.accounts[ix.taker_token_account_b].amount >= record.amount_b
            &&& s.accounts.contains_key(ix.maker_token_account_b)
            &&& s.accounts[ix.maker_token_account_b].owner == record.maker
            &&& s.accounts[ix.maker_token_account_b].mint == record.mint_b
            &&& ix.maker_token_account_b != ix.taker_token_account_b ==> balance(
                s.accounts,
                ix.maker_token_account_b,
            ) + record.amount_b <= u64::MAX
            &&& s.accounts.contains_key(ix.taker_token_account_a)
            &&& s.accounts[ix.taker_token_account_a].mint == s.accounts[vault].mint
            &&& balance(s.accounts, ix.taker_token_account_a) + balance(s.accounts, vault)
                <= u64::MAX
        },
    ensures
        exchange_outcome(s, ix) is Ok,
{
    assert(s.backed(ix.escrow_account));
    let record = s.records[ix.escrow_account];
    let authority = record_address(s.program_id, record.id, record.escrow_bump).unwrap();
    let vault = s.vault_of(ix.escrow_account).unwrap();
    let first = Step::Transfer {
        from: ix.taker_token_account_b,
        to: ix.maker_token_account_b,
        amount: record.amount_b,
        authority: ix.authority,
    };
    let second = Step::Transfer {
        from: vault,
        to: ix.taker_token_account_a,
        amount: s.accounts[vault].amount,
        authority,
    };
    let third = Step::Close { account: vault, destination: ix.authority, authority };
    assert(exchange_plan(
        record,
        ix.authority,
        authority,
        loaded(s.accounts, vault),
        loaded(s.accounts, ix.taker_token_account_b),
        loaded(s.accounts, ix.maker_token_account_b),
        ix.taker_token_account_a,
    ).unwrap() =~= seq![first, second, third]);
    lemma_apply_three(s.accounts, first, second, third);
    let paid = apply_step(s.accounts, first).unwrap();
    lemma_apply_two(paid, second, third);
}

/// Once an offer is cancelled, cancelling or accepting it again fails with
/// `RecordNotFound`.
pub proof fn law_cancelled_is_gone(s: State, ix: Cancel, again: Cancel, accept: Exchange)
    requires
        again.escrow_account == ix.escrow_account,
        accept.escrow_account == ix.escrow_account,
    ensures
        cancel_outcome(s, ix) matches Ok(after) ==> {
            &&& cancel_outcome(after, again) == Err::<State, EscrowError>(
                EscrowError::RecordNotFound,
            )
            &&& exchange_outcome(after, accept) == Err::<State, EscrowError>(
                EscrowError::RecordNotFound,
            )
        },
{
}

/// Once an offer is accepted, accepting or cancelling it again fails with
/// `RecordNotFound`.
pub proof fn law_exchanged_is_gone(s: State, ix: Exchange, again: Exchange, cancel: Cancel)
    requires
        again.escrow_account == ix.escrow_account,
        cancel.escrow_account == ix.escrow_account,
    ensures
        exchange_outcome(s, ix) matches Ok(after) ==> {
            &&& exchange_outcome(after, again) == Err::<State, EscrowError>(
                EscrowError::RecordNotFound,
            )
            &&& cancel_outcome(after, cancel) == Err::<State, EscrowError>(
                EscrowError::RecordNotFound,
            )
        },
{
}

/// One unit of work submitted to the program.
pub enum Operation {
    Open { accounts: Initialize, amount_a: u64, amount_b: u64, id: u64 },
    Cancel(Cancel),
    Exchange(Exchange),
}

/// The state after one unit of work: what the operation leaves where it
/// goes through, the state as it was where it fails.
pub open spec fn step(s: State, op: Operation) -> State {
    match op {
        Operation::Open { accounts, amount_a, amount_b, id } => match open_outcome(
            s,
            accounts,
            amount_a,
            amount_b,
            id,
        ) {
            Ok(after) => after,
            Err(_) => s,
        },
        Operation::Cancel(accounts) => match cancel_outcome(s, accounts) {
            Ok(after) => after,
            Err(_) => s,
        },
        Operation::Exchange(accounts) => match exchange_outcome(s, accounts) {
            Ok(after) => after,
            Err(_) => s,
        },
    }
}

/// The state after a sequence of units of work, one after the other.
pub open spec fn run(s: State, ops: Seq<Operation>) -> State
    decreases ops.len(),
{
    if ops.len() == 0 {
        s
    } else {
        run(step(s, ops[0]), ops.drop_first())
    }
}

/// No unit of work makes or destroys any asset: the supply of every asset
/// type is after it what it was before.
pub proof fn law_step_conserves(s: State, op: Operation, mint: Address)
    requires
        s.accounts.dom().finite(),
    ensures
        step(s, op).accounts.dom().finite(),
        supply(step(s, op).accounts, mint) == supply(s.accounts, mint),
{
    match op {
        Operation::Open { accounts, amount_a, amount_b, id } => {
            if let Ok(after) = open_outcome(s, accounts, amount_a, amount_b, id) {
                let d = derived(s.program_id, id).unwrap();
                let steps = open_plan(
                    accounts.authority,
                    loaded(s.accounts, accounts.token_account_a),
                    accounts.mint_a,
                    amount_a,
                    d,
                ).unwrap();
                lemma_steps_conserve(s.accounts, steps, mint);
            }
        },
        Operation::Cancel(accounts) => {
            if let Ok(after) = cancel_outcome(s, accounts) {
                let record = s.records[accounts.escrow_account];
                let steps = cancel_plan(
                    record,
                    accounts.authority,
                    record_address(s.program_id, record.id, record.escrow_bump).unwrap(),
                    loaded(s.accounts, s.vault_of(accounts.escrow_account).unwrap()),
                    loaded(s.accounts, accounts.token_account_a),
                ).unwrap();
                lemma_steps_conserve(s.accounts, steps, mint);
            }
        },
        Operation::Exchange(accounts) => {
            if let Ok(after) = exchange_outcome(s, accounts) {
                let record = s.records[accounts.escrow_account];
                let steps = exchange_plan(
                    record,
                    accounts.authority,
                    record_address(s.program_id, record.id, record.escrow_bump).unwrap(),
                    loaded(s.accounts, s.vault_of(accounts.escrow_account).unwrap()),
                    loaded(s.accounts, accounts.taker_token_account_b),
                    loaded(s.accounts, accounts.maker_token_account_b),
                    accounts.taker_token_account_a,
                ).unwrap();
                lemma_steps_conserve(s.accounts, steps, mint);
            }
        },
    }
}

/// Over any sequence of units of work, whichever of them go through, the
/// supply of every asset type stays what it was.
pub proof fn law_supply_conserved(s: State, ops: Seq<Operation>, mint: Address)
    requires
        s.accounts.dom().finite(),
    ensures
        run(s, ops).accounts.dom().finite(),
        supply(run(s, ops).accounts, mint) == supply(s.accounts, mint),
    decreases ops.len(),
{
    if ops.len() > 0 {
        law_step_conserves(s, ops[0], mint);
        law_supply_conserved(step(s, ops[0]), ops.drop_first(), mint);
    }
}

} // verus!
