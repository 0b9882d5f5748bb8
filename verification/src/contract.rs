//! The ledger state and the operations on it.
//!
//! Every operation either succeeds and yields the new state together with
//! the requests to send out, or is refused with the reason and changes
//! nothing. Sums and products that would not fit in 64 bits are refused
//! with [`SwapError::Overflow`]; nothing wraps and nothing saturates.

use vstd::prelude::*;
use crate::address::{Address, AddressType, CallbackContext, ContractContext};
use crate::balances::{UserBalance, UserBalances};
use crate::error::SwapError;
use crate::events::{
    deposit_request, funding_request, push_request, Action, Callback, EventGroup, TokenCall,
};
use crate::model::{
    close_pools_outcome, deposit_callback_outcome, deposit_outcome, initialize_outcome,
    invoke_events, invoke_outcome, lemma_swap_keeps_pools_sound, resume_outcome, provide_liquidity_callback_outcome, provide_liquidity_outcome,
    swap_in_numbers, swap_is_owed, swap_outcome, withdraw_outcome, LedgerView,
};
use crate::pricing::u64_division_ceil;
use crate::token::Token;

verus! {

/// One side of the market: the token contract and how much of its token the
/// ledger holds in reserve.
#[derive(Clone, Copy, Debug, PartialEq, Eq)]
pub struct TokenPool {
    pub token_address: Address,
    pub pool: u64,
}

/// The persisted state of the ledger.
#[derive(Clone, Debug)]
pub struct LiquiditySwapContractState {
    contract_owner: Address,
    token_pool_a: TokenPool,
    token_pool_b: TokenPool,
    swap_constant: u64,
    user_balances: UserBalances,
    is_closed: bool,
}

impl View for LiquiditySwapContractState {
    type V = LedgerView;

    closed spec fn view(&self) -> LedgerView {
        LedgerView {
            contract_owner: self.contract_owner,
            token_a_address: self.token_pool_a.token_address,
            token_b_address: self.token_pool_b.token_address,
            pool_a: self.token_pool_a.pool as nat,
            pool_b: self.token_pool_b.pool as nat,
            swap_constant: self.swap_constant as nat,
            user_balances: self.user_balances@,
            is_closed: self.is_closed,
        }
    }
}

/// The ledger that the given parts describe.
pub open spec fn ledger_of_parts(
    contract_owner: Address,
    token_pool_a: TokenPool,
    token_pool_b: TokenPool,
    swap_constant: u64,
    user_balances: Map<Address, UserBalance>,
    is_closed: bool,
) -> LedgerView {
    LedgerView {
        contract_owner,
        token_a_address: token_pool_a.token_address,
        token_b_address: token_pool_b.token_address,
        pool_a: token_pool_a.pool as nat,
        pool_b: token_pool_b.pool as nat,
        swap_constant: swap_constant as nat,
        user_balances,
        is_closed,
    }
}

impl LiquiditySwapContractState {
    /// The balance records are well-formed: no user has two.
    pub closed spec fn balances_wf(&self) -> bool {
        self.user_balances.wf()
    }

    /// What every operation expects of a state and leaves behind: one
    /// balance record per user, and a well-formed ledger.
    pub open spec fn wf(&self) -> bool {
        self.balances_wf() && self@.wf()
    }

    /// The state made of the given parts, if they form a well-formed one.
    pub fn from_parts(
        contract_owner: Address,
        token_pool_a: TokenPool,
        token_pool_b: TokenPool,
        swap_constant: u64,
        user_balances: UserBalances,
        is_closed: bool,
    ) -> (r: Option<LiquiditySwapContractState>)
        requires
            user_balances.wf(),
        ensures
            match r {
                Some(state) => state.wf() && state@ == ledger_of_parts(
                    contract_owner,
                    token_pool_a,
                    token_pool_b,
                    swap_constant,
                    user_balances@,
                    is_closed,
                ),
                None => !ledger_of_parts(
                    contract_owner,
                    token_pool_a,
                    token_pool_b,
                    swap_constant,
                    user_balances@,
                    is_closed,
                ).wf(),
            },
    {
        if token_pool_a.token_address == token_pool_b.token_address {
            return None;
        }
        if is_closed {
            if token_pool_a.pool > 0 && token_pool_b.pool > 0 {
                return None;
            }
        } else {
            if token_pool_a.pool == 0 || token_pool_b.pool == 0 || swap_constant == 0 {
                return None;
            }
            let covered = match token_pool_a.pool.checked_mul(token_pool_b.pool) {
                Some(product) => swap_constant <= product,
                None => true,
            };
            if !covered {
                return None;
            }
        }
        Some(
            LiquiditySwapContractState {
                contract_owner,
                token_pool_a,
                token_pool_b,
                swap_constant,
                user_balances,
                is_closed,
            },
        )
    }

    /// The owner of the ledger.
    pub fn contract_owner(&self) -> (r: Address)
        ensures
            r == self@.contract_owner,
    {
        self.contract_owner
    }

    /// The pool of `token`: its token contract and its size.
    pub fn token_pool(&self, token: Token) -> (r: TokenPool)
        ensures
            r.token_address == self@.token_address(token),
            r.pool == self@.pool(token),
    {
        if token == Token::A {
            self.token_pool_a
        } else {
            self.token_pool_b
        }
    }

    /// The swap constant.
    pub fn swap_constant(&self) -> (r: u64)
        ensures
            r == self@.swap_constant,
    {
        self.swap_constant
    }

    /// Whether the ledger is closed.
    pub fn is_closed(&self) -> (r: bool)
        ensures
            r == self@.is_closed,
    {
        self.is_closed
    }

    /// The balance records of all users.
    pub fn user_balances(&self) -> (r: &UserBalances)
        ensures
            r@ == self@.user_balances,
            r.wf() == self.balances_wf(),
    {
        &self.user_balances
    }

    /// The balance record of `user`, if there is one.
    pub fn user_balance(&self, user: &Address) -> (r: Option<UserBalance>)
        requires
            self.balances_wf(),
        ensures
            r == (if self@.user_balances.dom().contains(*user) {
                Some(self@.user_balances[*user])
            } else {
                None
            }),
    {
        self.user_balances.get(user)
    }

    /// Adds `amount` of `token` to the balance of `user`, whose record is
    /// created if there was none. Refused with `Overflow`, and nothing
    /// changed, where the balance would exceed 64 bits.
    pub fn add_to_user_balance(&mut self, user: Address, token: Token, amount: u64) -> (r: Result<
        (),
        SwapError,
    >)
        requires
            old(self).wf(),
        ensures
            final(self).wf(),
            match r {
                Ok(_) => old(self)@.can_credit(user, token, amount as nat) && final(self)@ == old(
                    self,
                )@.credited(user, token, amount as nat),
                Err(e) => e == SwapError::Overflow && !old(self)@.can_credit(
                    user,
                    token,
                    amount as nat,
                ) && *final(self) == *old(self),
            },
    {
        let mut record = match self.user_balances.get(&user) {
            Some(found) => found,
            None => UserBalance::empty(),
        };
        let slot = record.get_mut_balance_for(token);
        match slot.checked_add(amount) {
            Some(raised) => {
                *slot = raised;
            },
            None => {
                return Err(SwapError::Overflow);
            },
        }
        self.user_balances.set(user, record);
        Ok(())
    }

    /// Takes `amount` of `token` from the balance of `user`. Refused with
    /// `InsufficientFunds`, and nothing changed, where the user has no
    /// record or holds less than `amount`.
    pub fn subtract_from_user_balance(&mut self, user: Address, token: Token, amount: u64) -> (r:
        Result<(), SwapError>)
        requires
            old(self).wf(),
        ensures
            final(self).wf(),
            match r {
                Ok(_) => old(self)@.can_debit(user, token, amount as nat) && final(self)@ == old(
                    self,
                )@.debited(user, token, amount as nat),
                Err(e) => e == SwapError::InsufficientFunds && !old(self)@.can_debit(
                    user,
                    token,
                    amount as nat,
                ) && *final(self) == *old(self),
            },
    {
        let mut record = match self.user_balances.get(&user) {
            Some(found) => found,
            None => {
                return Err(SwapError::InsufficientFunds);
            },
        };
        let slot = record.get_mut_balance_for(token);
        match slot.checked_sub(amount) {
            Some(lowered) => {
                *slot = lowered;
            },
            None => {
                return Err(SwapError::InsufficientFunds);
            },
        }
        self.user_balances.set(user, record);
        Ok(())
    }

    /// The size of the pool of `token`.
    pub fn get_pool_for(&self, token: Token) -> (r: u64)
        ensures
            r == self@.pool(token),
    {
        if token == Token::A {
            self.token_pool_a.pool
        } else {
            self.token_pool_b.pool
        }
    }

    /// A write handle on the size of the pool of `token`. What is written
    /// through it becomes that size and nothing else changes; whether the
    /// state is still well-formed afterwards is up to the writer.
    pub fn get_mut_pool_for(&mut self, token: Token) -> (ret: &mut u64)
        ensures
            *ret == old(self)@.pool(token),
            final(self)@ == old(self)@.with_pool(token, *final(ret) as nat),
            final(self).balances_wf() == old(self).balances_wf(),
    {
        if token == Token::A {
            &mut self.token_pool_a.pool
        } else {
            &mut self.token_pool_b.pool
        }
    }

    /// The side that the token contract at `input_token_address` stands
    /// for, paired with the opposite side. Refused with `UnknownToken`
    /// where the address is that of neither token contract.
    pub fn deduce_from_to_tokens(&self, input_token_address: Address) -> (r: Result<
        (Token, Token),
        SwapError,
    >)
        ensures
            match self@.side_of(input_token_address) {
                Some(from) => r == Ok::<(Token, Token), SwapError>((from, from.spec_other())),
                None => r == Err::<(Token, Token), SwapError>(SwapError::UnknownToken),
            },
    {
        let is_from_a = self.token_pool_a.token_address == input_token_address;
        let is_from_b = self.token_pool_b.token_address == input_token_address;
        if !is_from_a && !is_from_b {
            return Err(SwapError::UnknownToken);
        }
        if is_from_a {
            Ok((Token::A, Token::B))
        } else {
            Ok((Token::B, Token::A))
        }
    }
}

/// Creates the ledger for the two token contracts, owned by the sender:
/// closed, with empty pools, a swap constant of zero and no balances.
/// Refused where an address is not that of a public contract, or where
/// both are the same.
pub fn initialize(context: ContractContext, token_a_address: Address, token_b_address: Address) -> (r:
    Result<(LiquiditySwapContractState, Vec<EventGroup>), SwapError>)
    ensures
        match r {
            Ok((state, events)) => {
                &&& state.wf()
                &&& initialize_outcome(context.sender, token_a_address, token_b_address) == Ok::<
                    LedgerView,
                    SwapError,
                >(state@)
                &&& events@.len() == 0
            },
            Err(e) => initialize_outcome(context.sender, token_a_address, token_b_address) == Err::<
                LedgerView,
                SwapError,
            >(e),
        },
{
    if token_a_address.address_type != AddressType::PublicContract {
        return Err(SwapError::InvalidTokenAddress);
    }
    if token_b_address.address_type != AddressType::PublicContract {
        return Err(SwapError::InvalidTokenAddress);
    }
    if token_a_address == token_b_address {
        return Err(SwapError::DuplicateToken);
    }
    let new_state = LiquiditySwapContractState {
        contract_owner: context.sender,
        token_pool_a: TokenPool { token_address: token_a_address, pool: 0 },
        token_pool_b: TokenPool { token_address: token_b_address, pool: 0 },
        swap_constant: 0,
        user_balances: UserBalances::new(),
        is_closed: true,
    };
    Ok((new_state, Vec::new()))
}

/// Asks the token contract at `token_address` to pull `pool_size` from the
/// owner into the ledger's custody, and registers the continuation that
/// will grow the pool. Only the owner may ask, and only while the ledger
/// is closed. The state is returned as it came.
pub fn provide_liquidity(
    context: ContractContext,
    state: LiquiditySwapContractState,
    token_address: Address,
    pool_size: u64,
) -> (r: Result<(LiquiditySwapContractState, Vec<EventGroup>), SwapError>)
    requires
        state.wf(),
    ensures
        match r {
            Ok((new_state, events)) => {
                &&& new_state == state
                &&& provide_liquidity_outcome(state@, context.sender, token_address) is Ok
                &&& events@ == seq![
                    funding_request(
                        context,
                        token_address,
                        provide_liquidity_outcome(state@, context.sender, token_address)->Ok_0,
                        pool_size,
                    ),
                ]
            },
            Err(e) => provide_liquidity_outcome(state@, context.sender, token_address) == Err::<
                Token,
                SwapError,
            >(e),
        },
{
    if context.sender != state.contract_owner {
        return Err(SwapError::PermissionDenied);
    }
    if !state.is_closed {
        return Err(SwapError::InvalidState);
    }
    let (from_token, _) = match state.deduce_from_to_tokens(token_address) {
        Ok(pair) => pair,
        Err(e) => {
            return Err(e);
        },
    };
    let event = EventGroup {
        dest: token_address,
        call: TokenCall::TransferFrom {
            from: context.sender,
            to: context.contract_address,
            amount: pool_size,
        },
        callback: Some(Callback::ProvideLiquidity { token: from_token, pool_size }),
    };
    Ok((state, vec![event]))
}

/// Resumes a funding request once the token contract has answered. On
/// success the pool of `token` grows by `pool_size`; whenever both pools
/// are then positive, the swap constant becomes their product and the
/// ledger is open. Refused with `ExternalCallFailed` where the pull did
/// not succeed, with `Overflow` where the pool or the product would
/// exceed 64 bits.
pub fn provide_liquidity_callback(
    context: ContractContext,
    callback_context: CallbackContext,
    state: LiquiditySwapContractState,
    token: Token,
    pool_size: u64,
) -> (r: Result<(LiquiditySwapContractState, Vec<EventGroup>), SwapError>)
    requires
        state.wf(),
    ensures
        match r {
            Ok((new_state, events)) => {
                &&& new_state.wf()
                &&& provide_liquidity_callback_outcome(
                    state@,
                    callback_context.success,
                    token,
                    pool_size as nat,
                ) == Ok::<LedgerView, SwapError>(new_state@)
                &&& events@.len() == 0
            },
            Err(e) => provide_liquidity_callback_outcome(
                state@,
                callback_context.success,
                token,
                pool_size as nat,
            ) == Err::<LedgerView, SwapError>(e),
        },
{
    let mut state = state;
    if !callback_context.success {
        return Err(SwapError::ExternalCallFailed);
    }
    let pool = state.get_mut_pool_for(token);
    match pool.checked_add(pool_size) {
        Some(grown) => {
            *pool = grown;
        },
        None => {
            return Err(SwapError::Overflow);
        },
    }
    if state.token_pool_a.pool > 0u64 && state.token_pool_b.pool > 0u64 {
        match state.token_pool_a.pool.checked_mul(state.token_pool_b.pool) {
            Some(product) => {
                state.swap_constant = product;
                state.is_closed = false;
                proof {
                    assert(product > 0) by (nonlinear_arith)
                        requires
                            product == state.token_pool_a.pool * state.token_pool_b.pool,
                            state.token_pool_a.pool > 0,
                            state.token_pool_b.pool > 0,
                    ;
                }
            },
            None => {
                return Err(SwapError::Overflow);
            },
        }
    }
    Ok((state, Vec::new()))
}

/// Asks the token contract at `token_address` to pull `amount` from the
/// sender into the ledger's custody, and registers the continuation that
/// will credit the sender. Only while the ledger is open. The state is
/// returned as it came.
pub fn deposit(
    context: ContractContext,
    state: LiquiditySwapContractState,
    token_address: Address,
    amount: u64,
) -> (r: Result<(LiquiditySwapContractState, Vec<EventGroup>), SwapError>)
    requires
        state.wf(),
    ensures
        match r {
            Ok((new_state, events)) => {
                &&& new_state == state
                &&& deposit_outcome(state@, token_address) is Ok
                &&& events@ == seq![
                    deposit_request(
                        context,
                        token_address,
                        deposit_outcome(state@, token_address)->Ok_0,
                        amount,
                    ),
                ]
            },
            Err(e) => deposit_outcome(state@, token_address) == Err::<Token, SwapError>(e),
        },
{
    if state.is_closed {
        return Err(SwapError::InvalidState);
    }
    let (from_token, _) = match state.deduce_from_to_tokens(token_address) {
        Ok(pair) => pair,
        Err(e) => {
            return Err(e);
        },
    };
    let event = EventGroup {
        dest: token_address,
        call: TokenCall::TransferFrom {
            from: context.sender,
            to: context.contract_address,
            amount,
        },
        callback: Some(Callback::Deposit { token: from_token, amount }),
    };
    Ok((state, vec![event]))
}

/// Resumes a deposit once the token contract has answered. On success
/// `amount` of `token` is added to the sender's balance; the pools stay.
/// Refused with `ExternalCallFailed` where the pull did not succeed, with
/// `Overflow` where the balance would exceed 64 bits.
pub fn deposit_callback(
    context: ContractContext,
    callback_context: CallbackContext,
    state: LiquiditySwapContractState,
    token: Token,
    amount: u64,
) -> (r: Result<(LiquiditySwapContractState, Vec<EventGroup>), SwapError>)
    requires
        state.wf(),
    ensures
        match r {
            Ok((new_state, events)) => {
                &&& new_state.wf()
                &&& deposit_callback_outcome(
                    state@,
                    callback_context.success,
                    context.sender,
                    token,
                    amount as nat,
                ) == Ok::<LedgerView, SwapError>(new_state@)
                &&& events@.len() == 0
            },
            Err(e) => deposit_callback_outcome(
                state@,
                callback_context.success,
                context.sender,
                token,
                amount as nat,
            ) == Err::<LedgerView, SwapError>(e),
        },
{
    let mut state = state;
    if !callback_context.success {
        return Err(SwapError::ExternalCallFailed);
    }
    match state.add_to_user_balance(context.sender, token, amount) {
        Ok(_) => Ok((state, Vec::new())),
        Err(e) => Err(e),
    }
}

/// Converts `amount` of the sender's balance of the token at
/// `input_token_address` into the opposite token at the constant-product
/// price: the input pool grows by `amount`, the opposite pool shrinks to
/// the swap constant divided by the new input pool, rounded up, and the
/// sender is credited with what the opposite pool lost. Only while the
/// ledger is open. Nothing is sent out.
pub fn swap(
    context: ContractContext,
    state: LiquiditySwapContractState,
    input_token_address: Address,
    amount: u64,
) -> (r: Result<(LiquiditySwapContractState, Vec<EventGroup>), SwapError>)
    requires
        state.wf(),
    ensures
        match r {
            Ok((new_state, events)) => {
                &&& new_state.wf()
                &&& swap_outcome(state@, context.sender, input_token_address, amount as nat) == Ok::<
                    LedgerView,
                    SwapError,
                >(new_state@)
                &&& events@.len() == 0
            },
            Err(e) => swap_outcome(state@, context.sender, input_token_address, amount as nat)
                == Err::<LedgerView, SwapError>(e),
        },
        r matches Ok((new_state, _)) ==> swap_in_numbers(
            state@,
            new_state@,
            context.sender,
            state@.side_of(input_token_address)->Some_0,
            amount as nat,
        ),
        swap_is_owed(state@, context.sender, input_token_address, amount as nat) ==> r is Ok,
{
    let mut state = state;
    let ghost before = state@;
    if state.is_closed {
        return Err(SwapError::InvalidState);
    }
    let (token_from, token_to) = match state.deduce_from_to_tokens(input_token_address) {
        Ok(pair) => pair,
        Err(e) => {
            return Err(e);
        },
    };
    let from_pool_value = state.get_pool_for(token_from);
    let to_pool_value = state.get_pool_for(token_to);

    match state.subtract_from_user_balance(context.sender, token_from, amount) {
        Ok(_) => {},
        Err(e) => {
            return Err(e);
        },
    }
    let new_from_pool_value = match from_pool_value.checked_add(amount) {
        Some(grown) => grown,
        None => {
            return Err(SwapError::Overflow);
        },
    };
    let new_to_pool_value = u64_division_ceil(state.swap_constant, new_from_pool_value);
    proof {
        lemma_swap_keeps_pools_sound(before, token_from, amount as nat);
    }
    match state.add_to_user_balance(
        context.sender,
        token_to,
        to_pool_value - new_to_pool_value,
    ) {
        Ok(_) => {},
        Err(e) => {
            return Err(e);
        },
    }
    *state.get_mut_pool_for(token_from) = new_from_pool_value;
    *state.get_mut_pool_for(token_to) = new_to_pool_value;
    proof {
        let after = state@;
        assert(after.pool_a * after.pool_b == new_to_pool_value * new_from_pool_value)
            by (nonlinear_arith)
            requires
                (after.pool_a == new_to_pool_value && after.pool_b == new_from_pool_value) || (
                after.pool_b == new_to_pool_value && after.pool_a == new_from_pool_value),
        ;
    }
    Ok((state, Vec::new()))
}

/// Takes `amount` of the token at `token_address` from the sender's
/// balance and asks the token contract to push it out to the sender. The
/// balance is lowered before the request goes out and no continuation waits
/// for the reply. Allowed whether the ledger is open or closed.
pub fn withdraw(
    context: ContractContext,
    state: LiquiditySwapContractState,
    token_address: Address,
    amount: u64,
) -> (r: Result<(LiquiditySwapContractState, Vec<EventGroup>), SwapError>)
    requires
        state.wf(),
    ensures
        match r {
            Ok((new_state, events)) => {
                &&& new_state.wf()
                &&& withdraw_outcome(state@, context.sender, token_address, amount as nat) == Ok::<
                    LedgerView,
                    SwapError,
                >(new_state@)
                &&& events@ == seq![push_request(token_address, context.sender, amount)]
            },
            Err(e) => withdraw_outcome(state@, context.sender, token_address, amount as nat)
                == Err::<LedgerView, SwapError>(e),
        },
{
    let mut state = state;
    let (token_from, _) = match state.deduce_from_to_tokens(token_address) {
        Ok(pair) => pair,
        Err(e) => {
            return Err(e);
        },
    };
    match state.subtract_from_user_balance(context.sender, token_from, amount) {
        Ok(_) => {},
        Err(e) => {
            return Err(e);
        },
    }
    let event = EventGroup {
        dest: token_address,
        call: TokenCall::Transfer { to: context.sender, amount },
        callback: None,
    };
    Ok((state, vec![event]))
}

/// Empties both pools into the owner's balance and closes the ledger.
/// Only the owner may do so, and only while the ledger is open. Nothing
/// is sent out: the owner withdraws like anyone else.
pub fn close_pools(context: ContractContext, state: LiquiditySwapContractState) -> (r: Result<
    (LiquiditySwapContractState, Vec<EventGroup>),
    SwapError,
>)
    requires
        state.wf(),
    ensures
        match r {
            Ok((new_state, events)) => {
                &&& new_state.wf()
                &&& close_pools_outcome(state@, context.sender) == Ok::<LedgerView, SwapError>(
                    new_state@,
                )
                &&& events@.len() == 0
            },
            Err(e) => close_pools_outcome(state@, context.sender) == Err::<LedgerView, SwapError>(e),
        },
{
    let mut state = state;
    if context.sender != state.contract_owner {
        return Err(SwapError::PermissionDenied);
    }
    if state.is_closed {
        return Err(SwapError::AlreadyClosed);
    }
    let owner = state.contract_owner;
    let pool_a = state.token_pool_a.pool;
    let pool_b = state.token_pool_b.pool;
    match state.add_to_user_balance(owner, Token::A, pool_a) {
        Ok(_) => {},
        Err(e) => {
            return Err(e);
        },
    }
    match state.add_to_user_balance(owner, Token::B, pool_b) {
        Ok(_) => {},
        Err(e) => {
            return Err(e);
        },
    }
    state.token_pool_a.pool = 0;
    state.token_pool_b.pool = 0;
    state.is_closed = true;
    Ok((state, Vec::new()))
}

/// Carries out the operation that `action` names, on behalf of the sender.
pub fn invoke(context: ContractContext, state: LiquiditySwapContractState, action: Action) -> (r:
    Result<(LiquiditySwapContractState, Vec<EventGroup>), SwapError>)
    requires
        state.wf(),
    ensures
        match r {
            Ok((new_state, events)) => {
                &&& new_state.wf()
                &&& invoke_outcome(state@, context, action) == Ok::<LedgerView, SwapError>(
                    new_state@,
                )
                &&& events@ == invoke_events(state@, context, action)
            },
            Err(e) => invoke_outcome(state@, context, action) == Err::<LedgerView, SwapError>(e),
        },
{
    match action {
        Action::ProvideLiquidity { token_address, pool_size } => provide_liquidity(
            context,
            state,
            token_address,
            pool_size,
        ),
        Action::Deposit { token_address, amount } => deposit(context, state, token_address, amount),
        Action::Swap { token_address, amount } => swap(context, state, token_address, amount),
        Action::Withdraw { token_address, amount } => withdraw(
            context,
            state,
            token_address,
            amount,
        ),
        Action::ClosePools => close_pools(context, state),
    }
}

/// Resumes the continuation `callback` with the reply to its request.
pub fn resume(
    context: ContractContext,
    callback_context: CallbackContext,
    state: LiquiditySwapContractState,
    callback: Callback,
) -> (r: Result<(LiquiditySwapContractState, Vec<EventGroup>), SwapError>)
    requires
        state.wf(),
    ensures
        match r {
            Ok((new_state, events)) => {
                &&& new_state.wf()
                &&& resume_outcome(state@, context, callback_context.success, callback) == Ok::<
                    LedgerView,
                    SwapError,
                >(new_state@)
                &&& events@.len() == 0
            },
            Err(e) => resume_outcome(state@, context, callback_context.success, callback) == Err::<
                LedgerView,
                SwapError,
            >(e),
        },
{
    match callback {
        Callback::ProvideLiquidity { token, pool_size } => provide_liquidity_callback(
            context,
            callback_context,
            state,
            token,
            pool_size,
        ),
        Callback::Deposit { token, amount } => deposit_callback(
            context,
            callback_context,
            state,
            token,
            amount,
        ),
    }
}

} // verus!
