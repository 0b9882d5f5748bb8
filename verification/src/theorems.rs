//! What holds of the ledger whatever sequence of operations it goes through.

use vstd::prelude::*;
use crate::address::{Address, ContractContext};
use crate::custody::{
    custody, lemma_credit_raises_outstanding, lemma_debit_lowers_outstanding,
};
use crate::error::SwapError;
use crate::events::{Action, TokenCall};
use crate::model::{
    close_pools_outcome, deposit_callback_outcome, deposit_outcome, initialize_outcome,
    invoke_events, invoke_outcome, lemma_swap_keeps_pools_sound,
    provide_liquidity_callback_outcome, provide_liquidity_outcome, resume_outcome, swap_outcome,
    withdraw_outcome, LedgerView,
};
use crate::pricing::{ceil_div, lemma_ceil_div_of_product};
use crate::token::Token;

verus! {

/// Two ledgers have the same owner and trade the same token contracts.
pub open spec fn same_parties(one: LedgerView, other: LedgerView) -> bool {
    &&& one.contract_owner == other.contract_owner
    &&& one.token_a_address == other.token_a_address
    &&& one.token_b_address == other.token_b_address
}

/// A well-formed ledger is open exactly when both pools are positive.
pub proof fn lemma_open_iff_both_pools_positive(ledger: LedgerView)
    requires
        ledger.wf(),
    ensures
        !ledger.is_closed <==> ledger.pool_a > 0 && ledger.pool_b > 0,
{
}

/// Funding fixes the swap constant. When liquidity arrives and both pools
/// are then positive, the swap constant is the product of the two pool
/// sizes at that moment and the ledger is open. When a pool is still
/// empty afterwards, the swap constant and the open/closed flag stay as
/// they were.
pub proof fn lemma_liquidity_fixes_swap_constant(ledger: LedgerView, token: Token, pool_size: nat)
    ensures
        ({
            let after = ledger.liquidity_provided(token, pool_size);
            &&& after.pool(token) == ledger.pool(token) + pool_size
            &&& after.pool(token.spec_other()) == ledger.pool(token.spec_other())
            &&& after.pool_a > 0 && after.pool_b > 0 ==> after.swap_constant == after.pool_a
                * after.pool_b && !after.is_closed
            &&& !(after.pool_a > 0 && after.pool_b > 0) ==> after.swap_constant
                == ledger.swap_constant && after.is_closed == ledger.is_closed
        }),
{
}

/// A closed ledger opens at the moment its second pool becomes positive,
/// and not before; the swap constant is then the product of the two pool
/// sizes at that moment. Until then the swap constant stays as it was.
pub proof fn lemma_ledger_opens_when_second_pool_is_funded(
    ledger: LedgerView,
    token: Token,
    pool_size: nat,
)
    requires
        ledger.wf(),
        ledger.is_closed,
    ensures
        provide_liquidity_callback_outcome(ledger, true, token, pool_size) matches Ok(after) ==> {
            &&& !after.is_closed <==> after.pool_a > 0 && after.pool_b > 0
            &&& !after.is_closed ==> after.swap_constant == after.pool_a * after.pool_b
            &&& after.is_closed ==> after.swap_constant == ledger.swap_constant
        },
{
}

/// While the ledger is open no request to fund a pool is accepted, from
/// whomever and for whichever token.
pub proof fn lemma_open_ledger_takes_no_funding_request(
    ledger: LedgerView,
    sender: Address,
    token_address: Address,
)
    requires
        !ledger.is_closed,
    ensures
        provide_liquidity_outcome(ledger, sender, token_address) is Err,
{
}

/// Funding one empty pool and then the other opens the ledger with the
/// product of the two amounts as its swap constant; after the first of
/// the two the ledger is as closed as before, its swap constant untouched.
pub proof fn lemma_funding_both_pools_opens(ledger: LedgerView, first: Token, x: nat, y: nat)
    requires
        ledger.pool_a == 0,
        ledger.pool_b == 0,
        x > 0,
        y > 0,
    ensures
        ({
            let one = ledger.liquidity_provided(first, x);
            let both = one.liquidity_provided(first.spec_other(), y);
            &&& one.swap_constant == ledger.swap_constant
            &&& one.is_closed == ledger.is_closed
            &&& both.pool(first) == x
            &&& both.pool(first.spec_other()) == y
            &&& both.swap_constant == x * y
            &&& !both.is_closed
        }),
{
    assert(x * y == y * x) by (nonlinear_arith);
}

/// Once fixed, the swap constant stays: a credited deposit, a swap, a
/// withdrawal and the closing of the pools all leave it as it was.
pub proof fn lemma_swap_constant_is_kept(
    ledger: LedgerView,
    success: bool,
    sender: Address,
    token: Token,
    token_address: Address,
    amount: nat,
)
    ensures
        deposit_callback_outcome(ledger, success, sender, token, amount) matches Ok(after)
            ==> after.swap_constant == ledger.swap_constant,
        swap_outcome(ledger, sender, token_address, amount) matches Ok(after)
            ==> after.swap_constant == ledger.swap_constant,
        withdraw_outcome(ledger, sender, token_address, amount) matches Ok(after)
            ==> after.swap_constant == ledger.swap_constant,
        close_pools_outcome(ledger, sender) matches Ok(after) ==> after.swap_constant
            == ledger.swap_constant,
{
}

/// No operation changes who owns the ledger or which token contracts it
/// trades.
pub proof fn lemma_parties_are_kept(
    ledger: LedgerView,
    success: bool,
    sender: Address,
    token: Token,
    token_address: Address,
    amount: nat,
)
    ensures
        provide_liquidity_callback_outcome(ledger, success, token, amount) matches Ok(after)
            ==> same_parties(after, ledger),
        deposit_callback_outcome(ledger, success, sender, token, amount) matches Ok(after)
            ==> same_parties(after, ledger),
        swap_outcome(ledger, sender, token_address, amount) matches Ok(after) ==> same_parties(
            after,
            ledger,
        ),
        withdraw_outcome(ledger, sender, token_address, amount) matches Ok(after) ==> same_parties(
            after,
            ledger,
        ),
        close_pools_outcome(ledger, sender) matches Ok(after) ==> same_parties(after, ledger),
{
}

/// Every operation keeps a well-formed ledger well-formed. In particular
/// both pools of an open ledger are positive, before and after.
pub proof fn lemma_operations_keep_wf(
    ledger: LedgerView,
    success: bool,
    sender: Address,
    token: Token,
    token_address: Address,
    amount: nat,
)
    requires
        ledger.wf(),
    ensures
        provide_liquidity_callback_outcome(ledger, success, token, amount) matches Ok(after)
            ==> after.wf(),
        deposit_callback_outcome(ledger, success, sender, token, amount) matches Ok(after)
            ==> after.wf(),
        swap_outcome(ledger, sender, token_address, amount) matches Ok(after) ==> after.wf(),
        withdraw_outcome(ledger, sender, token_address, amount) matches Ok(after) ==> after.wf(),
        close_pools_outcome(ledger, sender) matches Ok(after) ==> after.wf(),
{
    let funded = ledger.liquidity_provided(token, amount);
    if funded.pool_a > 0 && funded.pool_b > 0 {
        assert(funded.pool_a * funded.pool_b > 0) by (nonlinear_arith)
            requires
                funded.pool_a > 0,
                funded.pool_b > 0,
        ;
    }
    if swap_outcome(ledger, sender, token_address, amount) is Ok {
        lemma_swap_never_lowers_product(ledger, sender, token_address, amount);
        let from = ledger.side_of(token_address)->Some_0;
        lemma_swap_keeps_pools_sound(ledger, from, amount);
    }
}

/// Rounding goes the ledger's way: after any swap the product of the two
/// pool sizes is at least the swap constant.
pub proof fn lemma_swap_never_lowers_product(
    ledger: LedgerView,
    sender: Address,
    token_address: Address,
    amount: nat,
)
    requires
        ledger.wf(),
    ensures
        swap_outcome(ledger, sender, token_address, amount) matches Ok(after) ==> {
            &&& after.pool_a * after.pool_b >= ledger.swap_constant
            &&& after.pool_a * after.pool_b >= after.swap_constant
        },
{
    if swap_outcome(ledger, sender, token_address, amount) is Ok {
        let from = ledger.side_of(token_address)->Some_0;
        let after = ledger.swapped(sender, from, amount);
        let new_from = ledger.swap_new_from_pool(from, amount);
        let new_to = ledger.swap_new_to_pool(from, amount);
        lemma_swap_keeps_pools_sound(ledger, from, amount);
        assert(after.pool_a * after.pool_b == new_to * new_from) by (nonlinear_arith)
            requires
                (after.pool_a == new_to && after.pool_b == new_from) || (after.pool_b == new_to
                    && after.pool_a == new_from),
        ;
    }
}

/// A swap moves value between a pool and the swapper's balance and
/// nowhere else: for either token, pool plus balance is the same before
/// and after.
pub proof fn lemma_swap_conserves_value(
    ledger: LedgerView,
    sender: Address,
    token_address: Address,
    amount: nat,
    token: Token,
)
    requires
        ledger.wf(),
    ensures
        swap_outcome(ledger, sender, token_address, amount) matches Ok(after) ==> after.pool(token)
            + after.balance_of(sender, token) == ledger.pool(token) + ledger.balance_of(
            sender,
            token,
        ),
{
    if swap_outcome(ledger, sender, token_address, amount) is Ok {
        let from = ledger.side_of(token_address)->Some_0;
        lemma_swap_keeps_pools_sound(ledger, from, amount);
    }
}

/// A swap of nothing changes nothing, provided the opposite pool already
/// stands at the swap constant divided by the input pool, rounded up.
pub proof fn lemma_swap_of_nothing(
    ledger: LedgerView,
    sender: Address,
    token_address: Address,
    from: Token,
)
    requires
        ledger.wf(),
        ledger.side_of(token_address) == Some(from),
        ledger.pool(from.spec_other()) == ceil_div(ledger.swap_constant, ledger.pool(from)),
    ensures
        swap_outcome(ledger, sender, token_address, 0) matches Ok(after) ==> after == ledger,
{
    if swap_outcome(ledger, sender, token_address, 0) is Ok {
        let after = ledger.swapped(sender, from, 0);
        assert(after.user_balances =~= ledger.user_balances);
    }
}

/// Right after funding, when the swap constant is exactly the product of
/// the pools, a swap of nothing changes nothing, whichever token it names.
pub proof fn lemma_swap_of_nothing_after_funding(
    ledger: LedgerView,
    sender: Address,
    token_address: Address,
)
    requires
        ledger.wf(),
        ledger.swap_constant == ledger.pool_a * ledger.pool_b,
    ensures
        swap_outcome(ledger, sender, token_address, 0) matches Ok(after) ==> after == ledger,
{
    if swap_outcome(ledger, sender, token_address, 0) is Ok {
        let from = ledger.side_of(token_address)->Some_0;
        let to = from.spec_other();
        assert(ledger.swap_constant == ledger.pool(to) * ledger.pool(from)) by (nonlinear_arith)
            requires
                ledger.swap_constant == ledger.pool_a * ledger.pool_b,
                (ledger.pool(from) == ledger.pool_a && ledger.pool(to) == ledger.pool_b) || (
                ledger.pool(from) == ledger.pool_b && ledger.pool(to) == ledger.pool_a),
        ;
        lemma_ceil_div_of_product(ledger.pool(to), ledger.pool(from));
        lemma_swap_of_nothing(ledger, sender, token_address, from);
    }
}

/// A debit of more than the balance is refused: both the swap and the
/// withdrawal of such an amount fail with `InsufficientFunds`, unless
/// something else is wrong first.
pub proof fn lemma_overdraw_is_refused(
    ledger: LedgerView,
    sender: Address,
    token_address: Address,
    from: Token,
    amount: nat,
)
    requires
        ledger.side_of(token_address) == Some(from),
        ledger.balance_of(sender, from) < amount,
    ensures
        withdraw_outcome(ledger, sender, token_address, amount) == Err::<LedgerView, SwapError>(
            SwapError::InsufficientFunds,
        ),
        !ledger.is_closed ==> swap_outcome(ledger, sender, token_address, amount) == Err::<
            LedgerView,
            SwapError,
        >(SwapError::InsufficientFunds),
{
}

/// Closing pays the owner exactly what the pools held, leaves both pools
/// empty and the ledger closed, so that a swap right after is refused with
/// `InvalidState`.
pub proof fn lemma_close_pays_the_owner(
    ledger: LedgerView,
    sender: Address,
    anyone: Address,
    token_address: Address,
    amount: nat,
)
    ensures
        close_pools_outcome(ledger, sender) matches Ok(after) ==> {
            &&& after.balance_of(ledger.contract_owner, Token::A) == ledger.balance_of(
                ledger.contract_owner,
                Token::A,
            ) + ledger.pool_a
            &&& after.balance_of(ledger.contract_owner, Token::B) == ledger.balance_of(
                ledger.contract_owner,
                Token::B,
            ) + ledger.pool_b
            &&& after.pool_a == 0
            &&& after.pool_b == 0
            &&& after.is_closed
            &&& swap_outcome(after, anyone, token_address, amount) == Err::<LedgerView, SwapError>(
                SwapError::InvalidState,
            )
        },
{
}

/// Value enters the ledger only with a confirmed pull and leaves it only
/// with a withdrawal. For either token, the pool plus everything
/// outstanding to users
/// - grows by the amount when liquidity or a deposit of that token is
///   confirmed,
/// - shrinks by the amount when that token is withdrawn,
/// - and is the same before and after in every other case, a swap and the
///   closing of the pools among them.
pub proof fn lemma_custody_is_conserved(
    ledger: LedgerView,
    success: bool,
    sender: Address,
    token: Token,
    token_address: Address,
    amount: nat,
    of: Token,
)
    requires
        ledger.wf(),
    ensures
        provide_liquidity_callback_outcome(ledger, success, token, amount) matches Ok(after)
            ==> custody(after, of) == custody(ledger, of) + (if of == token {
            amount
        } else {
            0
        }),
        deposit_callback_outcome(ledger, success, sender, token, amount) matches Ok(after)
            ==> custody(after, of) == custody(ledger, of) + (if of == token {
            amount
        } else {
            0
        }),
        withdraw_outcome(ledger, sender, token_address, amount) matches Ok(after) ==> custody(
            after,
            of,
        ) + (if ledger.side_of(token_address) == Some(of) {
            amount
        } else {
            0
        }) == custody(ledger, of),
        swap_outcome(ledger, sender, token_address, amount) matches Ok(after) ==> custody(after, of)
            == custody(ledger, of),
        close_pools_outcome(ledger, sender) matches Ok(after) ==> custody(after, of) == custody(
            ledger,
            of,
        ),
{
    if deposit_callback_outcome(ledger, success, sender, token, amount) is Ok {
        lemma_credit_raises_outstanding(ledger, sender, token, amount, of);
    }
    if withdraw_outcome(ledger, sender, token_address, amount) is Ok {
        let from = ledger.side_of(token_address)->Some_0;
        lemma_debit_lowers_outstanding(ledger, sender, from, amount, of);
    }
    if swap_outcome(ledger, sender, token_address, amount) is Ok {
        let from = ledger.side_of(token_address)->Some_0;
        let to = from.spec_other();
        let debited = ledger.debited(sender, from, amount);
        lemma_swap_keeps_pools_sound(ledger, from, amount);
        lemma_debit_lowers_outstanding(ledger, sender, from, amount, of);
        lemma_credit_raises_outstanding(debited, sender, to, ledger.swap_output(from, amount), of);
    }
    if close_pools_outcome(ledger, sender) is Ok {
        let owner = ledger.contract_owner;
        let paid_a = ledger.credited(owner, Token::A, ledger.pool_a);
        lemma_credit_raises_outstanding(ledger, owner, Token::A, ledger.pool_a, of);
        lemma_credit_raises_outstanding(paid_a, owner, Token::B, ledger.pool_b, of);
    }
}

/// A new ledger is well-formed and holds nothing.
pub proof fn lemma_initial_ledger_is_empty(
    owner: Address,
    token_a: Address,
    token_b: Address,
    of: Token,
)
    ensures
        initialize_outcome(owner, token_a, token_b) matches Ok(ledger) ==> {
            &&& ledger.wf()
            &&& ledger.is_closed
            &&& ledger.token_a_address.is_public_contract()
            &&& ledger.token_b_address.is_public_contract()
            &&& custody(ledger, of) == 0
        },
{
}

/// An operation touches the balance record of the one it acts for and of
/// nobody else: the sender's for a deposit, a swap and a withdrawal, the
/// owner's for the closing of the pools. Liquidity touches no record.
pub proof fn lemma_other_users_are_left_alone(
    ledger: LedgerView,
    success: bool,
    sender: Address,
    token: Token,
    token_address: Address,
    amount: nat,
    other: Address,
)
    ensures
        provide_liquidity_callback_outcome(ledger, success, token, amount) matches Ok(after)
            ==> after.user_balances == ledger.user_balances,
        other != sender ==> (deposit_callback_outcome(ledger, success, sender, token, amount)
            matches Ok(after) ==> after.user_balances.dom().contains(other)
            == ledger.user_balances.dom().contains(other) && after.record_of(other)
            == ledger.record_of(other)),
        other != sender ==> (swap_outcome(ledger, sender, token_address, amount) matches Ok(after)
            ==> after.user_balances.dom().contains(other) == ledger.user_balances.dom().contains(
            other,
        ) && after.record_of(other) == ledger.record_of(other)),
        other != sender ==> (withdraw_outcome(ledger, sender, token_address, amount) matches Ok(
            after,
        ) ==> after.user_balances.dom().contains(other) == ledger.user_balances.dom().contains(
            other,
        ) && after.record_of(other) == ledger.record_of(other)),
        other != ledger.contract_owner ==> (close_pools_outcome(ledger, sender) matches Ok(after)
            ==> after.user_balances.dom().contains(other) == ledger.user_balances.dom().contains(
            other,
        ) && after.record_of(other) == ledger.record_of(other)),
{
}

/// A funding request followed by the successful reply to it: what the
/// two together make of the ledger.
pub open spec fn funded(
    ledger: LedgerView,
    context: ContractContext,
    token_address: Address,
    pool_size: u64,
) -> Result<LedgerView, SwapError> {
    let request = Action::ProvideLiquidity { token_address, pool_size };
    match invoke_outcome(ledger, context, request) {
        Err(e) => Err(e),
        Ok(unchanged) => resume_outcome(
            unchanged,
            context,
            true,
            invoke_events(ledger, context, request)[0].callback->Some_0,
        ),
    }
}

/// An accepted funding request sends one request, a pull of the size from
/// the sender into the ledger's custody, to the token contract named. The
/// continuation registered with it, resumed with success on whatever the
/// ledger has become by then, grows the pool of that token by that size.
pub proof fn lemma_funding_request_resumes_into_liquidity(
    ledger: LedgerView,
    context: ContractContext,
    token_address: Address,
    pool_size: u64,
    later: LedgerView,
    later_context: ContractContext,
)
    requires
        provide_liquidity_outcome(ledger, context.sender, token_address) is Ok,
    ensures
        ({
            let token = ledger.side_of(token_address)->Some_0;
            let request = Action::ProvideLiquidity { token_address, pool_size };
            let events = invoke_events(ledger, context, request);
            &&& request.spec_shortname() == 0x01
            &&& ledger.token_address(token) == token_address
            &&& events.len() == 1
            &&& events[0].dest == token_address
            &&& events[0].call == (TokenCall::TransferFrom {
                from: context.sender,
                to: context.contract_address,
                amount: pool_size,
            })
            &&& events[0].call.spec_shortname() == 0x03
            &&& events[0].callback matches Some(callback)
            &&& callback.spec_shortname() == 0x10
            &&& resume_outcome(later, later_context, true, callback)
                == provide_liquidity_callback_outcome(later, true, token, pool_size as nat)
        }),
{
}

/// An accepted deposit sends one request, a pull of the amount from the
/// sender into the ledger's custody, to the token contract named. The
/// continuation registered with it, resumed with success on whatever the
/// ledger has become by then, credits the amount of that token to the one
/// on whose behalf it is resumed.
pub proof fn lemma_deposit_resumes_into_credit(
    ledger: LedgerView,
    context: ContractContext,
    token_address: Address,
    amount: u64,
    later: LedgerView,
    later_context: ContractContext,
)
    requires
        deposit_outcome(ledger, token_address) is Ok,
    ensures
        ({
            let token = ledger.side_of(token_address)->Some_0;
            let request = Action::Deposit { token_address, amount };
            let events = invoke_events(ledger, context, request);
            &&& request.spec_shortname() == 0x02
            &&& ledger.token_address(token) == token_address
            &&& events.len() == 1
            &&& events[0].dest == token_address
            &&& events[0].call == (TokenCall::TransferFrom {
                from: context.sender,
                to: context.contract_address,
                amount,
            })
            &&& events[0].call.spec_shortname() == 0x03
            &&& events[0].callback matches Some(callback)
            &&& callback.spec_shortname() == 0x20
            &&& resume_outcome(later, later_context, true, callback) == deposit_callback_outcome(
                later,
                true,
                later_context.sender,
                token,
                amount as nat,
            )
        }),
{
}

/// The owner funds a closed ledger with empty pools by two requests, one
/// for each token, each followed by its successful reply. After the first
/// the ledger is still closed and its swap constant untouched. The second
/// opens it, and the swap constant is then the product of the two sizes.
/// From then on no funding request is accepted, so that the swap constant
/// stays until the pools are closed.
pub proof fn lemma_funding_sequence_fixes_swap_constant(
    ledger: LedgerView,
    context: ContractContext,
    first: Token,
    x: u64,
    y: u64,
    anyone: ContractContext,
    any_token: Address,
    any_size: u64,
)
    requires
        ledger.wf(),
        ledger.is_closed,
        ledger.pool_a == 0,
        ledger.pool_b == 0,
        context.sender == ledger.contract_owner,
        x > 0,
        y > 0,
        x * y <= u64::MAX,
    ensures
        ({
            let second = first.spec_other();
            let one = funded(ledger, context, ledger.token_address(first), x);
            &&& one matches Ok(half)
            &&& half.is_closed
            &&& half.swap_constant == ledger.swap_constant
            &&& half.pool(first) == x
            &&& half.pool(second) == 0
            &&& funded(half, context, ledger.token_address(second), y) matches Ok(open)
            &&& !open.is_closed
            &&& open.pool(first) == x
            &&& open.pool(second) == y
            &&& open.swap_constant == x * y
            &&& funded(open, anyone, any_token, any_size) is Err
        }),
{
    let second = first.spec_other();
    let half = ledger.liquidity_provided(first, x as nat);
    let open = half.liquidity_provided(second, y as nat);
    assert(x * y == y * x) by (nonlinear_arith);
    assert(open.swap_constant == x * y);
}

} // verus!
