//! What the ledger has in its custody: the pools and everything that its
//! users may withdraw.

use vstd::prelude::*;
use crate::address::Address;
use crate::balances::UserBalance;
use crate::model::LedgerView;
use crate::token::Token;

verus! {

/// What all users together may withdraw of `token`.
pub open spec fn outstanding(balances: Map<Address, UserBalance>, token: Token) -> nat
    decreases balances.dom().len(),
    when balances.dom().finite()
{
    if balances.dom().len() == 0 {
        0
    } else {
        let user = balances.dom().choose();
        balances[user].balance(token) as nat + outstanding(balances.remove(user), token)
    }
}

/// What the ledger holds of `token` in all: the pool and what is
/// outstanding to users.
pub open spec fn custody(ledger: LedgerView, token: Token) -> nat {
    ledger.pool(token) + outstanding(ledger.user_balances, token)
}

/// The outstanding total is the balance of any one user plus the total of
/// all others.
pub proof fn lemma_outstanding_split(
    balances: Map<Address, UserBalance>,
    token: Token,
    user: Address,
)
    requires
        balances.dom().finite(),
        balances.dom().contains(user),
    ensures
        outstanding(balances, token) == balances[user].balance(token) + outstanding(
            balances.remove(user),
            token,
        ),
    decreases balances.dom().len(),
{
    let chosen = balances.dom().choose();
    if chosen != user {
        let without_chosen = balances.remove(chosen);
        let without_user = balances.remove(user);
        lemma_outstanding_split(without_chosen, token, user);
        lemma_outstanding_split(without_user, token, chosen);
        assert(without_chosen.remove(user) =~= without_user.remove(chosen));
    }
}

/// Setting the record of a user changes the outstanding total by the
/// difference between the new balance and the one the user had, if any.
pub proof fn lemma_outstanding_insert(
    balances: Map<Address, UserBalance>,
    token: Token,
    user: Address,
    record: UserBalance,
)
    requires
        balances.dom().finite(),
    ensures
        outstanding(balances.insert(user, record), token) + (if balances.dom().contains(user) {
            balances[user].balance(token) as nat
        } else {
            0
        }) == outstanding(balances, token) + record.balance(token),
{
    let after = balances.insert(user, record);
    lemma_outstanding_split(after, token, user);
    assert(after.remove(user) =~= balances.remove(user));
    if balances.dom().contains(user) {
        lemma_outstanding_split(balances, token, user);
    } else {
        assert(balances.remove(user) =~= balances);
    }
}

/// A credit raises what is outstanding of the credited token by the
/// amount, and leaves what is outstanding of the other token.
pub proof fn lemma_credit_raises_outstanding(
    ledger: LedgerView,
    user: Address,
    token: Token,
    amount: nat,
    of: Token,
)
    requires
        ledger.user_balances.dom().finite(),
        ledger.can_credit(user, token, amount),
    ensures
        ledger.credited(user, token, amount).user_balances.dom().finite(),
        outstanding(ledger.credited(user, token, amount).user_balances, of) == outstanding(
            ledger.user_balances,
            of,
        ) + (if of == token {
            amount
        } else {
            0
        }),
{
    let record = ledger.record_of(user);
    let raised = record.with_balance(token, (record.balance(token) + amount) as u64);
    lemma_outstanding_insert(ledger.user_balances, of, user, raised);
}

/// A debit lowers what is outstanding of the debited token by the amount,
/// and leaves what is outstanding of the other token.
pub proof fn lemma_debit_lowers_outstanding(
    ledger: LedgerView,
    user: Address,
    token: Token,
    amount: nat,
    of: Token,
)
    requires
        ledger.user_balances.dom().finite(),
        ledger.can_debit(user, token, amount),
    ensures
        ledger.debited(user, token, amount).user_balances.dom().finite(),
        outstanding(ledger.debited(user, token, amount).user_balances, of) + (if of == token {
            amount
        } else {
            0
        }) == outstanding(ledger.user_balances, of),
{
    let record = ledger.user_balances[user];
    let lowered = record.with_balance(token, (record.balance(token) - amount) as u64);
    lemma_outstanding_insert(ledger.user_balances, of, user, lowered);
}

} // verus!
