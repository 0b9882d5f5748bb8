//! The ledger as a mathematical value, and each operation as a function on it.

use vstd::prelude::*;
use crate::address::{Address, ContractContext};
use crate::balances::UserBalance;
use crate::error::SwapError;
use crate::events::{
    deposit_request, funding_request, push_request, Action, Callback, EventGroup,
};
use crate::pricing::{ceil_div, lemma_ceil_div_covers, lemma_ceil_div_is_least};
use crate::token::Token;

verus! {

/// What the ledger holds, with unbounded pool sizes.
pub struct LedgerView {
    pub contract_owner: Address,
    pub token_a_address: Address,
    pub token_b_address: Address,
    pub pool_a: nat,
    pub pool_b: nat,
    pub swap_constant: nat,
    pub user_balances: Map<Address, UserBalance>,
    pub is_closed: bool,
}

impl LedgerView {
    /// The size of the pool of `token`.
    pub open spec fn pool(self, token: Token) -> nat {
        match token {
            Token::A => self.pool_a,
            Token::B => self.pool_b,
        }
    }

    /// This ledger with the pool of `token` set to `size`.
    pub open spec fn with_pool(self, token: Token, size: nat) -> LedgerView {
        match token {
            Token::A => LedgerView { pool_a: size, ..self },
            Token::B => LedgerView { pool_b: size, ..self },
        }
    }

    /// The address of the contract that keeps `token`.
    pub open spec fn token_address(self, token: Token) -> Address {
        match token {
            Token::A => self.token_a_address,
            Token::B => self.token_b_address,
        }
    }

    /// The side of the market that the token contract at `address` stands
    /// for, if it is one of the two.
    pub open spec fn side_of(self, address: Address) -> Option<Token> {
        if self.token_a_address == address {
            Some(Token::A)
        } else if self.token_b_address == address {
            Some(Token::B)
        } else {
            None
        }
    }

    /// The record of `user`; the empty record where the user has none.
    pub open spec fn record_of(self, user: Address) -> UserBalance {
        if self.user_balances.dom().contains(user) {
            self.user_balances[user]
        } else {
            UserBalance::spec_empty()
        }
    }

    /// What `user` may withdraw of `token`.
    pub open spec fn balance_of(self, user: Address, token: Token) -> nat {
        self.record_of(user).balance(token) as nat
    }

    /// What must hold of a ledger at all times: the two token contracts
    /// differ, the balance records are finitely many and every quantity
    /// fits in 64 bits. While the ledger is open both pools are positive
    /// and their product is no less than the positive swap constant; while
    /// it is closed at least one pool is empty.
    pub open spec fn wf(self) -> bool {
        &&& self.token_a_address != self.token_b_address
        &&& self.user_balances.dom().finite()
        &&& self.pool_a <= u64::MAX
        &&& self.pool_b <= u64::MAX
        &&& self.swap_constant <= u64::MAX
        &&& !self.is_closed ==> {
            &&& self.pool_a > 0
            &&& self.pool_b > 0
            &&& 0 < self.swap_constant <= self.pool_a * self.pool_b
        }
        &&& self.is_closed ==> self.pool_a == 0 || self.pool_b == 0
    }

    /// The ledger right after creation: closed, with empty pools and no
    /// balances.
    pub open spec fn initial(owner: Address, token_a: Address, token_b: Address) -> LedgerView {
        LedgerView {
            contract_owner: owner,
            token_a_address: token_a,
            token_b_address: token_b,
            pool_a: 0,
            pool_b: 0,
            swap_constant: 0,
            user_balances: Map::empty(),
            is_closed: true,
        }
    }

    /// Whether `amount` more of `token` fits in the balance of `user`.
    pub open spec fn can_credit(self, user: Address, token: Token, amount: nat) -> bool {
        self.balance_of(user, token) + amount <= u64::MAX
    }

    /// This ledger with `amount` of `token` added to the balance of `user`,
    /// whose record is created if there was none.
    pub open spec fn credited(self, user: Address, token: Token, amount: nat) -> LedgerView {
        let record = self.record_of(user);
        let raised = record.with_balance(token, (record.balance(token) + amount) as u64);
        LedgerView { user_balances: self.user_balances.insert(user, raised), ..self }
    }

    /// Whether `user` has a record that holds at least `amount` of `token`.
    pub open spec fn can_debit(self, user: Address, token: Token, amount: nat) -> bool {
        self.user_balances.dom().contains(user) && self.user_balances[user].balance(token) >= amount
    }

    /// This ledger with `amount` of `token` taken from the balance of `user`.
    pub open spec fn debited(self, user: Address, token: Token, amount: nat) -> LedgerView {
        let record = self.user_balances[user];
        let lowered = record.with_balance(token, (record.balance(token) - amount) as u64);
        LedgerView { user_balances: self.user_balances.insert(user, lowered), ..self }
    }

    /// This ledger after `pool_size` has arrived in the pool of `token`.
    /// Whenever that leaves both pools positive, the swap constant becomes
    /// their product and the ledger is open.
    pub open spec fn liquidity_provided(self, token: Token, pool_size: nat) -> LedgerView {
        let grown = self.with_pool(token, self.pool(token) + pool_size);
        if grown.pool_a > 0 && grown.pool_b > 0 {
            LedgerView { swap_constant: grown.pool_a * grown.pool_b, is_closed: false, ..grown }
        } else {
            grown
        }
    }

    /// The size of the pool of `from` after a swap of `amount` into it.
    pub open spec fn swap_new_from_pool(self, from: Token, amount: nat) -> nat {
        self.pool(from) + amount
    }

    /// The size of the opposite pool after a swap of `amount` of `from`: the
    /// swap constant divided by the new size of the pool of `from`, rounded up.
    pub open spec fn swap_new_to_pool(self, from: Token, amount: nat) -> nat {
        ceil_div(self.swap_constant, self.swap_new_from_pool(from, amount))
    }

    /// What a swap of `amount` of `from` pays out in the opposite token.
    pub open spec fn swap_output(self, from: Token, amount: nat) -> nat {
        (self.pool(from.spec_other()) - self.swap_new_to_pool(from, amount)) as nat
    }

    /// This ledger after `user` has swapped `amount` of `from`.
    pub open spec fn swapped(self, user: Address, from: Token, amount: nat) -> LedgerView {
        let to = from.spec_other();
        self.debited(user, from, amount).credited(user, to, self.swap_output(from, amount)).with_pool(
            from,
            self.swap_new_from_pool(from, amount),
        ).with_pool(to, self.swap_new_to_pool(from, amount))
    }

    /// This ledger after both pools have been emptied into the owner's
    /// balance and the ledger closed.
    pub open spec fn pools_closed(self) -> LedgerView {
        let paid = self.credited(self.contract_owner, Token::A, self.pool_a).credited(
            self.contract_owner,
            Token::B,
            self.pool_b,
        );
        LedgerView { pool_a: 0, pool_b: 0, is_closed: true, ..paid }
    }
}

/// What creating a ledger for the two token contracts gives.
pub open spec fn initialize_outcome(owner: Address, token_a: Address, token_b: Address) -> Result<
    LedgerView,
    SwapError,
> {
    if !token_a.is_public_contract() || !token_b.is_public_contract() {
        Err(SwapError::InvalidTokenAddress)
    } else if token_a == token_b {
        Err(SwapError::DuplicateToken)
    } else {
        Ok(LedgerView::initial(owner, token_a, token_b))
    }
}

/// Which side `sender` may ask to fund through the token contract at
/// `token_address`, or why the request is refused.
pub open spec fn provide_liquidity_outcome(
    ledger: LedgerView,
    sender: Address,
    token_address: Address,
) -> Result<Token, SwapError> {
    if sender != ledger.contract_owner {
        Err(SwapError::PermissionDenied)
    } else if !ledger.is_closed {
        Err(SwapError::InvalidState)
    } else {
        match ledger.side_of(token_address) {
            Some(token) => Ok(token),
            None => Err(SwapError::UnknownToken),
        }
    }
}

/// What the reply to a funding request makes of the ledger.
pub open spec fn provide_liquidity_callback_outcome(
    ledger: LedgerView,
    success: bool,
    token: Token,
    pool_size: nat,
) -> Result<LedgerView, SwapError> {
    let after = ledger.liquidity_provided(token, pool_size);
    if !success {
        Err(SwapError::ExternalCallFailed)
    } else if after.pool(token) > u64::MAX || after.swap_constant > u64::MAX {
        Err(SwapError::Overflow)
    } else {
        Ok(after)
    }
}

/// Which side a deposit through the token contract at `token_address`
/// goes to, or why the deposit is refused.
pub open spec fn deposit_outcome(ledger: LedgerView, token_address: Address) -> Result<
    Token,
    SwapError,
> {
    if ledger.is_closed {
        Err(SwapError::InvalidState)
    } else {
        match ledger.side_of(token_address) {
            Some(token) => Ok(token),
            None => Err(SwapError::UnknownToken),
        }
    }
}

/// What the reply to a deposit request makes of the ledger.
pub open spec fn deposit_callback_outcome(
    ledger: LedgerView,
    success: bool,
    sender: Address,
    token: Token,
    amount: nat,
) -> Result<LedgerView, SwapError> {
    if !success {
        Err(SwapError::ExternalCallFailed)
    } else if !ledger.can_credit(sender, token, amount) {
        Err(SwapError::Overflow)
    } else {
        Ok(ledger.credited(sender, token, amount))
    }
}

/// What a swap of `amount` of the token at `token_address` by `sender`
/// makes of the ledger.
pub open spec fn swap_outcome(
    ledger: LedgerView,
    sender: Address,
    token_address: Address,
    amount: nat,
) -> Result<LedgerView, SwapError> {
    if ledger.is_closed {
        Err(SwapError::InvalidState)
    } else {
        match ledger.side_of(token_address) {
            None => Err(SwapError::UnknownToken),
            Some(from) => {
                if !ledger.can_debit(sender, from, amount) {
                    Err(SwapError::InsufficientFunds)
                } else if ledger.swap_new_from_pool(from, amount) > u64::MAX
                    || !ledger.can_credit(
                    sender,
                    from.spec_other(),
                    ledger.swap_output(from, amount),
                ) {
                    Err(SwapError::Overflow)
                } else {
                    Ok(ledger.swapped(sender, from, amount))
                }
            },
        }
    }
}

/// The accounts of a swap in plain sums and products. The input pool has
/// grown by the amount. The opposite pool is the least size whose product
/// with the new input pool covers the swap constant. The swapper has paid
/// the amount and gained what the opposite pool lost.
pub open spec fn swap_in_numbers(
    before: LedgerView,
    after: LedgerView,
    user: Address,
    from: Token,
    amount: nat,
) -> bool {
    let to = from.spec_other();
    &&& after.pool(from) == before.pool(from) + amount
    &&& after.pool(to) * after.pool(from) >= before.swap_constant
    &&& (after.pool(to) - 1) * after.pool(from) < before.swap_constant
    &&& after.balance_of(user, from) + amount == before.balance_of(user, from)
    &&& after.balance_of(user, to) + after.pool(to) == before.balance_of(user, to) + before.pool(
        to,
    )
}

/// Inputs on which a swap succeeds for certain: the ledger is open, the
/// token is one of the two, the swapper holds the amount, and neither the
/// input pool with the amount nor the swapper's balance with the whole
/// opposite pool would exceed 64 bits.
pub open spec fn swap_is_owed(
    ledger: LedgerView,
    sender: Address,
    token_address: Address,
    amount: nat,
) -> bool {
    &&& !ledger.is_closed
    &&& ledger.side_of(token_address) matches Some(from)
    &&& ledger.can_debit(sender, from, amount)
    &&& ledger.pool(from) + amount <= u64::MAX
    &&& ledger.balance_of(sender, from.spec_other()) + ledger.pool(from.spec_other()) <= u64::MAX
}

/// What a withdrawal of `amount` of the token at `token_address` by
/// `sender` makes of the ledger.
pub open spec fn withdraw_outcome(
    ledger: LedgerView,
    sender: Address,
    token_address: Address,
    amount: nat,
) -> Result<LedgerView, SwapError> {
    match ledger.side_of(token_address) {
        None => Err(SwapError::UnknownToken),
        Some(token) => {
            if !ledger.can_debit(sender, token, amount) {
                Err(SwapError::InsufficientFunds)
            } else {
                Ok(ledger.debited(sender, token, amount))
            }
        },
    }
}

/// What closing the pools on behalf of `sender` makes of the ledger.
pub open spec fn close_pools_outcome(ledger: LedgerView, sender: Address) -> Result<
    LedgerView,
    SwapError,
> {
    let owner = ledger.contract_owner;
    if sender != owner {
        Err(SwapError::PermissionDenied)
    } else if ledger.is_closed {
        Err(SwapError::AlreadyClosed)
    } else if !ledger.can_credit(owner, Token::A, ledger.pool_a) || !ledger.can_credit(
        owner,
        Token::B,
        ledger.pool_b,
    ) {
        Err(SwapError::Overflow)
    } else {
        Ok(ledger.pools_closed())
    }
}

/// In an open, well-formed ledger a swap cannot drain the opposite pool
/// nor lift it: the new size is positive and no more than the old. It is
/// the least size whose product with the new input pool covers the swap
/// constant.
pub proof fn lemma_swap_keeps_pools_sound(ledger: LedgerView, from: Token, amount: nat)
    requires
        ledger.wf(),
        !ledger.is_closed,
    ensures
        0 < ledger.swap_new_to_pool(from, amount) <= ledger.pool(from.spec_other()),
        ledger.swap_new_to_pool(from, amount) * ledger.swap_new_from_pool(from, amount)
            >= ledger.swap_constant,
        (ledger.swap_new_to_pool(from, amount) - 1) * ledger.swap_new_from_pool(from, amount)
            < ledger.swap_constant,
{
    let k = ledger.swap_constant;
    let from_pool = ledger.pool(from);
    let to_pool = ledger.pool(from.spec_other());
    let new_from = ledger.swap_new_from_pool(from, amount);
    let new_to = ledger.swap_new_to_pool(from, amount);
    assert(from_pool * to_pool == ledger.pool_a * ledger.pool_b) by (nonlinear_arith)
        requires
            (from_pool == ledger.pool_a && to_pool == ledger.pool_b) || (from_pool == ledger.pool_b
                && to_pool == ledger.pool_a),
    ;
    assert(to_pool * new_from >= k) by (nonlinear_arith)
        requires
            k <= from_pool * to_pool,
            new_from == from_pool + amount,
    ;
    lemma_ceil_div_is_least(k, new_from, to_pool);
    lemma_ceil_div_covers(k, new_from);
    assert(new_to > 0) by (nonlinear_arith)
        requires
            new_to * new_from >= k,
            k > 0,
    ;
    if (new_to - 1) * new_from >= k {
        lemma_ceil_div_is_least(k, new_from, (new_to - 1) as nat);
    }
}

/// What an operation asked by `context.sender` makes of the ledger.
pub open spec fn invoke_outcome(ledger: LedgerView, context: ContractContext, action: Action) -> Result<
    LedgerView,
    SwapError,
> {
    match action {
        Action::ProvideLiquidity { token_address, pool_size } => match provide_liquidity_outcome(
            ledger,
            context.sender,
            token_address,
        ) {
            Ok(_) => Ok(ledger),
            Err(e) => Err(e),
        },
        Action::Deposit { token_address, amount } => match deposit_outcome(ledger, token_address) {
            Ok(_) => Ok(ledger),
            Err(e) => Err(e),
        },
        Action::Swap { token_address, amount } => swap_outcome(
            ledger,
            context.sender,
            token_address,
            amount as nat,
        ),
        Action::Withdraw { token_address, amount } => withdraw_outcome(
            ledger,
            context.sender,
            token_address,
            amount as nat,
        ),
        Action::ClosePools => close_pools_outcome(ledger, context.sender),
    }
}

/// The requests that an accepted operation sends out.
pub open spec fn invoke_events(ledger: LedgerView, context: ContractContext, action: Action) -> Seq<
    EventGroup,
> {
    match action {
        Action::ProvideLiquidity { token_address, pool_size } => seq![
            funding_request(
                context,
                token_address,
                provide_liquidity_outcome(ledger, context.sender, token_address)->Ok_0,
                pool_size,
            ),
        ],
        Action::Deposit { token_address, amount } => seq![
            deposit_request(
                context,
                token_address,
                deposit_outcome(ledger, token_address)->Ok_0,
                amount,
            ),
        ],
        Action::Withdraw { token_address, amount } => seq![
            push_request(token_address, context.sender, amount),
        ],
        Action::Swap { .. } => Seq::empty(),
        Action::ClosePools => Seq::empty(),
    }
}

/// What the reply to a request makes of the ledger, by the continuation
/// that was registered with the request.
pub open spec fn resume_outcome(
    ledger: LedgerView,
    context: ContractContext,
    success: bool,
    callback: Callback,
) -> Result<LedgerView, SwapError> {
    match callback {
        Callback::ProvideLiquidity { token, pool_size } => provide_liquidity_callback_outcome(
            ledger,
            success,
            token,
            pool_size as nat,
        ),
        Callback::Deposit { token, amount } => deposit_callback_outcome(
            ledger,
            success,
            context.sender,
            token,
            amount as nat,
        ),
    }
}

} // verus!
