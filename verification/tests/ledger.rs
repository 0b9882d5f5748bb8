use liquidity_swap::{
    close_pools, deposit, deposit_callback, initialize, invoke, provide_liquidity,
    provide_liquidity_callback, resume, swap, token_contract_transfer,
    token_contract_transfer_from, withdraw, Action, Address, AddressType, BalanceEntry, Callback,
    CallbackContext, ContractContext, EventGroup, LiquiditySwapContractState, SwapError, Token,
    TokenCall, TokenPool, UserBalance, UserBalances,
};

fn address(address_type: AddressType, id: u8) -> Address {
    Address { address_type, identifier: [id; 20] }
}

fn token_a() -> Address {
    address(AddressType::PublicContract, 0xa)
}

fn token_b() -> Address {
    address(AddressType::PublicContract, 0xb)
}

fn swap_contract() -> Address {
    address(AddressType::PublicContract, 0xc)
}

fn owner() -> Address {
    address(AddressType::Account, 1)
}

fn alice() -> Address {
    address(AddressType::Account, 2)
}

fn bob() -> Address {
    address(AddressType::Account, 3)
}

fn called_by(sender: Address) -> ContractContext {
    ContractContext { contract_address: swap_contract(), sender }
}

fn succeeded() -> CallbackContext {
    CallbackContext { success: true }
}

fn failed() -> CallbackContext {
    CallbackContext { success: false }
}

fn fresh() -> LiquiditySwapContractState {
    let (state, events) = initialize(called_by(owner()), token_a(), token_b()).unwrap();
    assert!(events.is_empty());
    state
}

fn funded(pool_a: u64, pool_b: u64) -> LiquiditySwapContractState {
    let state = fresh();
    let (state, _) =
        provide_liquidity_callback(called_by(owner()), succeeded(), state, Token::A, pool_a)
            .unwrap();
    let (state, _) =
        provide_liquidity_callback(called_by(owner()), succeeded(), state, Token::B, pool_b)
            .unwrap();
    state
}

fn with_deposit(
    state: LiquiditySwapContractState,
    user: Address,
    token: Token,
    amount: u64,
) -> LiquiditySwapContractState {
    let (state, events) =
        deposit_callback(called_by(user), succeeded(), state, token, amount).unwrap();
    assert!(events.is_empty());
    state
}

fn balance(state: &LiquiditySwapContractState, user: Address, token: Token) -> Option<u64> {
    state.user_balance(&user).map(|record| record.get_balance_for(token))
}

fn pools(state: &LiquiditySwapContractState) -> (u64, u64) {
    (state.get_pool_for(Token::A), state.get_pool_for(Token::B))
}

fn error_of(
    result: Result<(LiquiditySwapContractState, Vec<EventGroup>), SwapError>,
) -> Option<SwapError> {
    result.err()
}

#[test]
fn initialize_gives_a_closed_and_empty_ledger() {
    let state = fresh();
    assert_eq!(state.contract_owner(), owner());
    assert_eq!(state.token_pool(Token::A), TokenPool { token_address: token_a(), pool: 0 });
    assert_eq!(state.token_pool(Token::B), TokenPool { token_address: token_b(), pool: 0 });
    assert_eq!(pools(&state), (0, 0));
    assert_eq!(state.swap_constant(), 0);
    assert!(state.is_closed());
    assert_eq!(state.user_balances().len(), 0);
    assert_eq!(state.user_balance(&owner()), None);
}

#[test]
fn initialize_refuses_a_token_that_is_no_public_contract() {
    let account = address(AddressType::Account, 0xa);
    let zk = address(AddressType::ZkContract, 0xb);
    assert_eq!(
        error_of(initialize(called_by(owner()), account, token_b())),
        Some(SwapError::InvalidTokenAddress)
    );
    assert_eq!(
        error_of(initialize(called_by(owner()), token_a(), zk)),
        Some(SwapError::InvalidTokenAddress)
    );
    assert_eq!(
        error_of(initialize(called_by(owner()), account, account)),
        Some(SwapError::InvalidTokenAddress)
    );
}

#[test]
fn initialize_refuses_the_same_token_twice() {
    assert_eq!(
        error_of(initialize(called_by(owner()), token_a(), token_a())),
        Some(SwapError::DuplicateToken)
    );
}

#[test]
fn addresses_are_equal_when_kind_and_identifier_are() {
    assert_eq!(token_a(), address(AddressType::PublicContract, 0xa));
    assert_ne!(token_a(), address(AddressType::Account, 0xa));
    let mut nearly = token_a();
    nearly.identifier[19] = 0;
    assert_ne!(token_a(), nearly);
    let mut other = token_a();
    other.identifier[0] = 0;
    assert_ne!(token_a(), other);
}

#[test]
fn provide_liquidity_asks_the_token_contract_to_pull_from_the_owner() {
    let state = fresh();
    let (state, events) =
        provide_liquidity(called_by(owner()), state, token_b(), 500).unwrap();
    assert_eq!(
        events,
        vec![EventGroup {
            dest: token_b(),
            call: TokenCall::TransferFrom { from: owner(), to: swap_contract(), amount: 500 },
            callback: Some(Callback::ProvideLiquidity { token: Token::B, pool_size: 500 }),
        }]
    );
    assert_eq!(events[0].call.shortname(), 0x03);
    assert_eq!(events[0].callback.unwrap().shortname(), 0x10);
    assert_eq!(pools(&state), (0, 0));
    assert!(state.is_closed());
    assert_eq!(state.swap_constant(), 0);
}

#[test]
fn provide_liquidity_is_for_the_owner_only() {
    assert_eq!(
        error_of(provide_liquidity(called_by(alice()), fresh(), token_a(), 10)),
        Some(SwapError::PermissionDenied)
    );
    assert_eq!(
        error_of(provide_liquidity(called_by(alice()), funded(1000, 500), token_a(), 10)),
        Some(SwapError::PermissionDenied)
    );
}

#[test]
fn provide_liquidity_needs_a_closed_ledger() {
    assert_eq!(
        error_of(provide_liquidity(called_by(owner()), funded(1000, 500), token_a(), 10)),
        Some(SwapError::InvalidState)
    );
}

#[test]
fn provide_liquidity_refuses_an_unknown_token() {
    assert_eq!(
        error_of(provide_liquidity(called_by(owner()), fresh(), swap_contract(), 10)),
        Some(SwapError::UnknownToken)
    );
}

#[test]
fn funding_both_pools_fixes_the_swap_constant_and_opens() {
    let state = fresh();
    let (state, events) =
        provide_liquidity_callback(called_by(owner()), succeeded(), state, Token::A, 1000)
            .unwrap();
    assert!(events.is_empty());
    assert_eq!(pools(&state), (1000, 0));
    assert_eq!(state.swap_constant(), 0);
    assert!(state.is_closed());

    let (state, events) =
        provide_liquidity_callback(called_by(owner()), succeeded(), state, Token::B, 500)
            .unwrap();
    assert!(events.is_empty());
    assert_eq!(pools(&state), (1000, 500));
    assert_eq!(state.swap_constant(), 500000);
    assert!(!state.is_closed());
}

#[test]
fn funding_in_the_other_order_gives_the_same_constant() {
    let state = fresh();
    let (state, _) =
        provide_liquidity_callback(called_by(owner()), succeeded(), state, Token::B, 500)
            .unwrap();
    assert!(state.is_closed());
    assert_eq!(state.swap_constant(), 0);
    let (state, _) =
        provide_liquidity_callback(called_by(owner()), succeeded(), state, Token::A, 1000)
            .unwrap();
    assert_eq!(state.swap_constant(), 500000);
    assert!(!state.is_closed());
}

#[test]
fn funding_with_nothing_leaves_the_ledger_closed() {
    let state = fresh();
    let (state, _) =
        provide_liquidity_callback(called_by(owner()), succeeded(), state, Token::A, 0).unwrap();
    let (state, _) =
        provide_liquidity_callback(called_by(owner()), succeeded(), state, Token::B, 500)
            .unwrap();
    assert_eq!(pools(&state), (0, 500));
    assert!(state.is_closed());
    assert_eq!(state.swap_constant(), 0);
}

#[test]
fn the_swap_constant_stays_once_fixed() {
    let state = funded(1000, 500);
    let state = with_deposit(state, alice(), Token::A, 300);
    assert_eq!(state.swap_constant(), 500000);
    let (state, _) = swap(called_by(alice()), state, token_a(), 100).unwrap();
    assert_eq!(state.swap_constant(), 500000);
    let (state, _) = swap(called_by(alice()), state, token_b(), 20).unwrap();
    assert_eq!(state.swap_constant(), 500000);
    let (state, _) = withdraw(called_by(alice()), state, token_a(), 10).unwrap();
    assert_eq!(state.swap_constant(), 500000);
    let (state, _) = deposit(called_by(alice()), state, token_a(), 10).unwrap();
    assert_eq!(state.swap_constant(), 500000);
    let (state, _) = close_pools(called_by(owner()), state).unwrap();
    assert_eq!(state.swap_constant(), 500000);
}

#[test]
fn funding_again_after_a_close_fixes_a_new_constant() {
    let state = funded(1000, 500);
    let (state, _) = close_pools(called_by(owner()), state).unwrap();
    assert!(state.is_closed());
    let (state, _) =
        provide_liquidity_callback(called_by(owner()), succeeded(), state, Token::A, 20).unwrap();
    assert!(state.is_closed());
    assert_eq!(state.swap_constant(), 500000);
    let (state, _) =
        provide_liquidity_callback(called_by(owner()), succeeded(), state, Token::B, 30).unwrap();
    assert!(!state.is_closed());
    assert_eq!(pools(&state), (20, 30));
    assert_eq!(state.swap_constant(), 600);
}

#[test]
fn liquidity_arriving_while_open_refreshes_the_constant() {
    let state = funded(1000, 500);
    let (state, _) =
        provide_liquidity_callback(called_by(owner()), succeeded(), state, Token::A, 1000)
            .unwrap();
    assert_eq!(pools(&state), (2000, 500));
    assert_eq!(state.swap_constant(), 1000000);
    assert!(!state.is_closed());
}

#[test]
fn a_failed_pull_funds_nothing() {
    assert_eq!(
        error_of(provide_liquidity_callback(
            called_by(owner()),
            failed(),
            fresh(),
            Token::A,
            1000
        )),
        Some(SwapError::ExternalCallFailed)
    );
    assert_eq!(
        error_of(deposit_callback(called_by(alice()), failed(), funded(1000, 500), Token::A, 5)),
        Some(SwapError::ExternalCallFailed)
    );
}

#[test]
fn a_pool_beyond_64_bits_is_refused() {
    let state = fresh();
    let (state, _) = provide_liquidity_callback(
        called_by(owner()),
        succeeded(),
        state,
        Token::A,
        u64::MAX,
    )
    .unwrap();
    assert_eq!(
        error_of(provide_liquidity_callback(
            called_by(owner()),
            succeeded(),
            state.clone(),
            Token::A,
            1
        )),
        Some(SwapError::Overflow)
    );
    // the pool fits, the product does not
    assert_eq!(
        error_of(provide_liquidity_callback(
            called_by(owner()),
            succeeded(),
            state.clone(),
            Token::B,
            2
        )),
        Some(SwapError::Overflow)
    );
    let (state, _) =
        provide_liquidity_callback(called_by(owner()), succeeded(), state, Token::B, 1).unwrap();
    assert_eq!(state.swap_constant(), u64::MAX);
    assert!(!state.is_closed());
}

#[test]
fn deposit_asks_the_token_contract_to_pull_from_the_sender() {
    let state = funded(1000, 500);
    let (state, events) = deposit(called_by(alice()), state, token_a(), 100).unwrap();
    assert_eq!(
        events,
        vec![EventGroup {
            dest: token_a(),
            call: TokenCall::TransferFrom { from: alice(), to: swap_contract(), amount: 100 },
            callback: Some(Callback::Deposit { token: Token::A, amount: 100 }),
        }]
    );
    assert_eq!(events[0].call.shortname(), token_contract_transfer_from());
    assert_eq!(events[0].callback.unwrap().shortname(), 0x20);
    assert_eq!(pools(&state), (1000, 500));
    assert_eq!(state.user_balance(&alice()), None);
}

#[test]
fn deposit_needs_an_open_ledger_and_a_known_token() {
    assert_eq!(
        error_of(deposit(called_by(alice()), fresh(), token_a(), 100)),
        Some(SwapError::InvalidState)
    );
    assert_eq!(
        error_of(deposit(called_by(alice()), funded(1000, 500), alice(), 100)),
        Some(SwapError::UnknownToken)
    );
}

#[test]
fn a_confirmed_deposit_credits_the_sender_and_not_the_pool() {
    let state = funded(1000, 500);
    let state = with_deposit(state, alice(), Token::B, 70);
    assert_eq!(
        state.user_balance(&alice()),
        Some(UserBalance { pool_a_balance: 0, pool_b_balance: 70 })
    );
    assert_eq!(pools(&state), (1000, 500));
    let state = with_deposit(state, alice(), Token::B, 5);
    let state = with_deposit(state, alice(), Token::A, 1);
    let state = with_deposit(state, bob(), Token::A, 9);
    assert_eq!(
        state.user_balance(&alice()),
        Some(UserBalance { pool_a_balance: 1, pool_b_balance: 75 })
    );
    assert_eq!(
        state.user_balance(&bob()),
        Some(UserBalance { pool_a_balance: 9, pool_b_balance: 0 })
    );
    assert_eq!(state.user_balances().len(), 2);
    assert_eq!(pools(&state), (1000, 500));
}

#[test]
fn a_deposit_beyond_64_bits_is_refused() {
    let state = with_deposit(funded(1000, 500), alice(), Token::A, u64::MAX);
    assert_eq!(
        error_of(deposit_callback(called_by(alice()), succeeded(), state, Token::A, 1)),
        Some(SwapError::Overflow)
    );
}

#[test]
fn swap_of_100_a_against_1000_and_500_pays_45_b() {
    let state = funded(1000, 500);
    assert_eq!(state.swap_constant(), 500000);
    let state = with_deposit(state, alice(), Token::A, 100);
    let (state, events) = swap(called_by(alice()), state, token_a(), 100).unwrap();
    assert!(events.is_empty());
    assert_eq!(pools(&state), (1100, 455));
    assert_eq!(balance(&state, alice(), Token::A), Some(0));
    assert_eq!(balance(&state, alice(), Token::B), Some(45));
    assert!(!state.is_closed());
}

#[test]
fn swap_from_b_prices_the_other_way() {
    let state = funded(1000, 500);
    let state = with_deposit(state, alice(), Token::B, 250);
    let (state, _) = swap(called_by(alice()), state, token_b(), 250).unwrap();
    // 500000 / 750 = 666.67, rounded up
    assert_eq!(pools(&state), (667, 750));
    assert_eq!(balance(&state, alice(), Token::A), Some(333));
    assert_eq!(balance(&state, alice(), Token::B), Some(0));
}

#[test]
fn the_pool_product_never_falls_below_the_swap_constant() {
    let amounts: [u64; 6] = [1, 7, 99, 100, 1234, 99999];
    let mut state = funded(1000, 500);
    for (i, amount) in amounts.into_iter().enumerate() {
        let (token, address) =
            if i % 2 == 0 { (Token::A, token_a()) } else { (Token::B, token_b()) };
        state = with_deposit(state, alice(), token, amount);
        let before: (u64, u64) = pools(&state);
        let held_a: u64 = balance(&state, alice(), Token::A).unwrap();
        let held_b: u64 = balance(&state, alice(), Token::B).unwrap();
        let (next, _) = swap(called_by(alice()), state, address, amount).unwrap();
        state = next;
        let (a, b) = pools(&state);
        assert!(a > 0 && b > 0);
        assert!((a as u128) * (b as u128) >= 500000);
        // what left a pool went to the swapper, and the other way round
        assert_eq!(
            a as u128 + balance(&state, alice(), Token::A).unwrap() as u128,
            before.0 as u128 + held_a as u128
        );
        assert_eq!(
            b as u128 + balance(&state, alice(), Token::B).unwrap() as u128,
            before.1 as u128 + held_b as u128
        );
    }
}

#[test]
fn swap_of_nothing_right_after_funding_changes_nothing() {
    let state = with_deposit(funded(1000, 500), alice(), Token::A, 10);
    let (state, events) = swap(called_by(alice()), state, token_a(), 0).unwrap();
    assert!(events.is_empty());
    assert_eq!(pools(&state), (1000, 500));
    assert_eq!(
        state.user_balance(&alice()),
        Some(UserBalance { pool_a_balance: 10, pool_b_balance: 0 })
    );
    let (state, _) = swap(called_by(alice()), state, token_b(), 0).unwrap();
    assert_eq!(pools(&state), (1000, 500));
    assert_eq!(
        state.user_balance(&alice()),
        Some(UserBalance { pool_a_balance: 10, pool_b_balance: 0 })
    );
    assert_eq!(state.swap_constant(), 500000);
}

#[test]
fn swap_of_nothing_pays_out_what_rounding_left_in_the_opposite_pool() {
    let state = with_deposit(funded(1000, 500), alice(), Token::A, 100);
    let (state, _) = swap(called_by(alice()), state, token_a(), 100).unwrap();
    assert_eq!(pools(&state), (1100, 455));
    // in the direction of the last swap nothing is left to pay
    let (state, _) = swap(called_by(alice()), state, token_a(), 0).unwrap();
    assert_eq!(pools(&state), (1100, 455));
    assert_eq!(balance(&state, alice(), Token::B), Some(45));
    // in the other direction 500000 / 455 rounds up to 1099, one below the pool
    let (state, _) = swap(called_by(alice()), state, token_b(), 0).unwrap();
    assert_eq!(pools(&state), (1099, 455));
    assert_eq!(balance(&state, alice(), Token::A), Some(1));
    assert_eq!(balance(&state, alice(), Token::B), Some(45));
}

#[test]
fn swap_of_nothing_still_needs_a_balance_record() {
    assert_eq!(
        error_of(swap(called_by(alice()), funded(1000, 500), token_a(), 0)),
        Some(SwapError::InsufficientFunds)
    );
}

#[test]
fn swap_needs_the_funds() {
    let state = with_deposit(funded(1000, 500), alice(), Token::A, 99);
    assert_eq!(
        error_of(swap(called_by(alice()), state.clone(), token_a(), 100)),
        Some(SwapError::InsufficientFunds)
    );
    // the balance of the other token does not count
    assert_eq!(
        error_of(swap(called_by(alice()), state.clone(), token_b(), 1)),
        Some(SwapError::InsufficientFunds)
    );
    assert_eq!(
        error_of(swap(called_by(bob()), state, token_a(), 1)),
        Some(SwapError::InsufficientFunds)
    );
}

#[test]
fn swap_needs_an_open_ledger_and_a_known_token() {
    let closed = with_deposit(fresh(), alice(), Token::A, 100);
    assert_eq!(
        error_of(swap(called_by(alice()), closed, token_a(), 100)),
        Some(SwapError::InvalidState)
    );
    let open = with_deposit(funded(1000, 500), alice(), Token::A, 100);
    assert_eq!(
        error_of(swap(called_by(alice()), open, owner(), 100)),
        Some(SwapError::UnknownToken)
    );
}

#[test]
fn swap_into_a_pool_beyond_64_bits_is_refused() {
    let state = funded(u64::MAX, 1);
    let state = with_deposit(state, alice(), Token::A, 1);
    assert_eq!(
        error_of(swap(called_by(alice()), state, token_a(), 1)),
        Some(SwapError::Overflow)
    );
}

#[test]
fn swap_payout_beyond_64_bits_is_refused() {
    let state = funded(1, u64::MAX);
    let state = with_deposit(state, alice(), Token::A, 1);
    let state = with_deposit(state, alice(), Token::B, u64::MAX);
    assert_eq!(
        error_of(swap(called_by(alice()), state, token_a(), 1)),
        Some(SwapError::Overflow)
    );
}

#[test]
fn close_pools_moves_both_pools_to_the_owner() {
    let state = with_deposit(funded(1000, 500), alice(), Token::A, 100);
    let (state, _) = swap(called_by(alice()), state, token_a(), 100).unwrap();
    let (state, events) = close_pools(called_by(owner()), state).unwrap();
    assert!(events.is_empty());
    assert_eq!(
        state.user_balance(&owner()),
        Some(UserBalance { pool_a_balance: 1100, pool_b_balance: 455 })
    );
    assert_eq!(pools(&state), (0, 0));
    assert!(state.is_closed());
    assert_eq!(balance(&state, alice(), Token::B), Some(45));
    assert_eq!(
        error_of(swap(called_by(alice()), state, token_b(), 45)),
        Some(SwapError::InvalidState)
    );
}

#[test]
fn close_pools_adds_to_what_the_owner_already_held() {
    let state = with_deposit(funded(1000, 500), owner(), Token::B, 7);
    let (state, _) = close_pools(called_by(owner()), state).unwrap();
    assert_eq!(
        state.user_balance(&owner()),
        Some(UserBalance { pool_a_balance: 1000, pool_b_balance: 507 })
    );
}

#[test]
fn close_pools_is_for_the_owner_of_an_open_ledger() {
    assert_eq!(
        error_of(close_pools(called_by(alice()), funded(1000, 500))),
        Some(SwapError::PermissionDenied)
    );
    assert_eq!(
        error_of(close_pools(called_by(owner()), fresh())),
        Some(SwapError::AlreadyClosed)
    );
    let (closed, _) = close_pools(called_by(owner()), funded(1000, 500)).unwrap();
    assert_eq!(
        error_of(close_pools(called_by(owner()), closed)),
        Some(SwapError::AlreadyClosed)
    );
}

#[test]
fn close_pools_beyond_64_bits_is_refused() {
    let state = with_deposit(funded(1000, 500), owner(), Token::B, u64::MAX - 499);
    assert_eq!(
        error_of(close_pools(called_by(owner()), state)),
        Some(SwapError::Overflow)
    );
}

#[test]
fn withdraw_of_more_than_held_fails_and_of_all_held_empties_the_balance() {
    let state = with_deposit(funded(1000, 500), alice(), Token::A, 100);
    let (state, _) = swap(called_by(alice()), state, token_a(), 100).unwrap();
    assert_eq!(balance(&state, alice(), Token::B), Some(45));
    assert_eq!(
        error_of(withdraw(called_by(alice()), state.clone(), token_b(), 50)),
        Some(SwapError::InsufficientFunds)
    );
    let (state, events) = withdraw(called_by(alice()), state, token_b(), 45).unwrap();
    assert_eq!(balance(&state, alice(), Token::B), Some(0));
    assert_eq!(
        events,
        vec![EventGroup {
            dest: token_b(),
            call: TokenCall::Transfer { to: alice(), amount: 45 },
            callback: None,
        }]
    );
    assert_eq!(events[0].call.shortname(), 0x01);
    assert_eq!(events[0].call.shortname(), token_contract_transfer());
    assert_eq!(pools(&state), (1100, 455));
}

#[test]
fn withdraw_works_while_closed() {
    let (state, _) = close_pools(called_by(owner()), funded(1000, 500)).unwrap();
    let (state, events) = withdraw(called_by(owner()), state, token_a(), 400).unwrap();
    assert_eq!(
        state.user_balance(&owner()),
        Some(UserBalance { pool_a_balance: 600, pool_b_balance: 500 })
    );
    assert_eq!(events.len(), 1);
    assert_eq!(events[0].dest, token_a());
    assert_eq!(events[0].call, TokenCall::Transfer { to: owner(), amount: 400 });
    assert_eq!(events[0].callback, None);
}

#[test]
fn withdraw_refuses_an_unknown_token_and_a_user_without_record() {
    let state = with_deposit(funded(1000, 500), alice(), Token::A, 100);
    assert_eq!(
        error_of(withdraw(called_by(alice()), state.clone(), alice(), 1)),
        Some(SwapError::UnknownToken)
    );
    assert_eq!(
        error_of(withdraw(called_by(bob()), state.clone(), token_a(), 0)),
        Some(SwapError::InsufficientFunds)
    );
    let (state, events) = withdraw(called_by(alice()), state, token_a(), 0).unwrap();
    assert_eq!(events[0].call, TokenCall::Transfer { to: alice(), amount: 0 });
    assert_eq!(balance(&state, alice(), Token::A), Some(100));
}

#[test]
fn a_debit_of_more_than_the_balance_fails_and_leaves_it() {
    let mut state = with_deposit(fresh(), alice(), Token::B, 45);
    assert_eq!(
        state.subtract_from_user_balance(alice(), Token::B, 46),
        Err(SwapError::InsufficientFunds)
    );
    assert_eq!(
        state.user_balance(&alice()),
        Some(UserBalance { pool_a_balance: 0, pool_b_balance: 45 })
    );
    assert_eq!(
        state.subtract_from_user_balance(alice(), Token::A, 1),
        Err(SwapError::InsufficientFunds)
    );
    assert_eq!(
        state.subtract_from_user_balance(bob(), Token::B, 0),
        Err(SwapError::InsufficientFunds)
    );
    assert_eq!(state.user_balance(&bob()), None);
    assert_eq!(state.user_balances().len(), 1);
    assert_eq!(state.subtract_from_user_balance(alice(), Token::B, 45), Ok(()));
    assert_eq!(
        state.user_balance(&alice()),
        Some(UserBalance { pool_a_balance: 0, pool_b_balance: 0 })
    );
}

#[test]
fn a_credit_creates_the_record_and_adds_to_it() {
    let mut state = fresh();
    assert_eq!(state.add_to_user_balance(alice(), Token::A, 0), Ok(()));
    assert_eq!(
        state.user_balance(&alice()),
        Some(UserBalance { pool_a_balance: 0, pool_b_balance: 0 })
    );
    assert_eq!(state.add_to_user_balance(alice(), Token::A, 5), Ok(()));
    assert_eq!(state.add_to_user_balance(alice(), Token::B, u64::MAX), Ok(()));
    assert_eq!(state.add_to_user_balance(alice(), Token::B, 1), Err(SwapError::Overflow));
    assert_eq!(
        state.user_balance(&alice()),
        Some(UserBalance { pool_a_balance: 5, pool_b_balance: u64::MAX })
    );
    assert_eq!(state.add_to_user_balance(bob(), Token::B, u64::MAX), Ok(()));
    assert_eq!(state.add_to_user_balance(bob(), Token::B, 1), Err(SwapError::Overflow));
    assert_eq!(state.user_balances().len(), 2);
}

#[test]
fn token_sides_are_deduced_from_the_address() {
    let state = fresh();
    assert_eq!(state.deduce_from_to_tokens(token_a()), Ok((Token::A, Token::B)));
    assert_eq!(state.deduce_from_to_tokens(token_b()), Ok((Token::B, Token::A)));
    assert_eq!(state.deduce_from_to_tokens(swap_contract()), Err(SwapError::UnknownToken));
    assert_eq!(Token::A.other(), Token::B);
    assert_eq!(Token::B.other(), Token::A);
}

#[test]
fn write_handles_reach_the_named_side_only() {
    let mut record = UserBalance { pool_a_balance: 3, pool_b_balance: 4 };
    *record.get_mut_balance_for(Token::B) += 10;
    assert_eq!(record, UserBalance { pool_a_balance: 3, pool_b_balance: 14 });
    *record.get_mut_balance_for(Token::A) = 0;
    assert_eq!(record, UserBalance { pool_a_balance: 0, pool_b_balance: 14 });
    assert_eq!(record.get_balance_for(Token::A), 0);
    assert_eq!(record.get_balance_for(Token::B), 14);
    assert_eq!(UserBalance::empty(), UserBalance { pool_a_balance: 0, pool_b_balance: 0 });

    let mut state = fresh();
    *state.get_mut_pool_for(Token::B) = 8;
    assert_eq!(pools(&state), (0, 8));
    *state.get_mut_pool_for(Token::A) += 2;
    assert_eq!(pools(&state), (2, 8));
}

#[test]
fn balance_records_keep_one_record_per_user() {
    let mut records = UserBalances::new();
    assert_eq!(records.len(), 0);
    assert_eq!(records.get(&alice()), None);
    assert_eq!(records.entry_at(0), None);
    records.set(alice(), UserBalance { pool_a_balance: 1, pool_b_balance: 2 });
    records.set(bob(), UserBalance { pool_a_balance: 3, pool_b_balance: 4 });
    records.set(alice(), UserBalance { pool_a_balance: 5, pool_b_balance: 6 });
    assert_eq!(records.len(), 2);
    assert_eq!(records.get(&alice()), Some(UserBalance { pool_a_balance: 5, pool_b_balance: 6 }));
    assert_eq!(records.get(&bob()), Some(UserBalance { pool_a_balance: 3, pool_b_balance: 4 }));
    assert_eq!(records.get(&owner()), None);
    assert_eq!(
        records.entry_at(0),
        Some(BalanceEntry {
            user: alice(),
            balance: UserBalance { pool_a_balance: 5, pool_b_balance: 6 }
        })
    );
    assert_eq!(
        records.entry_at(1),
        Some(BalanceEntry {
            user: bob(),
            balance: UserBalance { pool_a_balance: 3, pool_b_balance: 4 }
        })
    );
    assert_eq!(records.entry_at(2), None);
}

#[test]
fn a_state_is_rebuilt_from_well_formed_parts_only() {
    let pool_a = TokenPool { token_address: token_a(), pool: 1100 };
    let pool_b = TokenPool { token_address: token_b(), pool: 455 };
    let mut records = UserBalances::new();
    records.set(alice(), UserBalance { pool_a_balance: 0, pool_b_balance: 45 });

    let state = LiquiditySwapContractState::from_parts(
        owner(),
        pool_a,
        pool_b,
        500000,
        records.clone(),
        false,
    )
    .unwrap();
    assert_eq!(state.contract_owner(), owner());
    assert_eq!(pools(&state), (1100, 455));
    assert_eq!(state.swap_constant(), 500000);
    assert!(!state.is_closed());
    assert_eq!(balance(&state, alice(), Token::B), Some(45));

    // the product of the pools must cover the constant
    assert!(LiquiditySwapContractState::from_parts(
        owner(),
        pool_a,
        pool_b,
        500501,
        records.clone(),
        false
    )
    .is_none());
    assert!(LiquiditySwapContractState::from_parts(
        owner(),
        pool_a,
        pool_b,
        500500,
        records.clone(),
        false
    )
    .is_some());
    // an open ledger has two positive pools and a positive constant
    let empty = TokenPool { token_address: token_b(), pool: 0 };
    assert!(LiquiditySwapContractState::from_parts(
        owner(),
        pool_a,
        empty,
        0,
        records.clone(),
        false
    )
    .is_none());
    assert!(LiquiditySwapContractState::from_parts(
        owner(),
        pool_a,
        pool_b,
        0,
        records.clone(),
        false
    )
    .is_none());
    assert!(LiquiditySwapContractState::from_parts(
        owner(),
        pool_a,
        empty,
        0,
        records.clone(),
        true
    )
    .is_some());
    // a closed ledger has an empty pool
    assert!(LiquiditySwapContractState::from_parts(
        owner(),
        pool_a,
        pool_b,
        500000,
        records.clone(),
        true
    )
    .is_none());
    // the two sides need two token contracts
    let same_token = TokenPool { token_address: token_a(), pool: 0 };
    assert!(LiquiditySwapContractState::from_parts(
        owner(),
        pool_a,
        same_token,
        500000,
        records.clone(),
        true
    )
    .is_none());
    // pools whose product exceeds 64 bits cover any constant
    let huge_a = TokenPool { token_address: token_a(), pool: u64::MAX };
    let huge_b = TokenPool { token_address: token_b(), pool: u64::MAX };
    assert!(LiquiditySwapContractState::from_parts(
        owner(),
        huge_a,
        huge_b,
        u64::MAX,
        records,
        false
    )
    .is_some());
}

fn in_custody(state: &LiquiditySwapContractState, token: Token) -> u128 {
    let records = state.user_balances();
    let mut total: u128 = state.get_pool_for(token) as u128;
    let mut i: usize = 0;
    while let Some(entry) = records.entry_at(i) {
        total += entry.balance.get_balance_for(token) as u128;
        i += 1;
    }
    total
}

#[test]
fn value_enters_with_pulls_and_leaves_with_withdrawals_only() {
    let state = fresh();
    assert_eq!((in_custody(&state, Token::A), in_custody(&state, Token::B)), (0, 0));
    let state = funded(1000, 500);
    assert_eq!((in_custody(&state, Token::A), in_custody(&state, Token::B)), (1000, 500));
    let state = with_deposit(state, alice(), Token::A, 300);
    let state = with_deposit(state, bob(), Token::B, 70);
    assert_eq!((in_custody(&state, Token::A), in_custody(&state, Token::B)), (1300, 570));
    let (state, _) = swap(called_by(alice()), state, token_a(), 250).unwrap();
    assert_eq!((in_custody(&state, Token::A), in_custody(&state, Token::B)), (1300, 570));
    let (state, _) = swap(called_by(bob()), state, token_b(), 70).unwrap();
    assert_eq!((in_custody(&state, Token::A), in_custody(&state, Token::B)), (1300, 570));
    let (state, _) = withdraw(called_by(bob()), state, token_a(), 5).unwrap();
    assert_eq!((in_custody(&state, Token::A), in_custody(&state, Token::B)), (1295, 570));
    let (state, _) = close_pools(called_by(owner()), state).unwrap();
    assert_eq!((in_custody(&state, Token::A), in_custody(&state, Token::B)), (1295, 570));
    assert_eq!(pools(&state), (0, 0));
    let (state, _) = deposit(called_by(owner()), funded(3, 4), token_a(), 9).unwrap();
    assert_eq!((in_custody(&state, Token::A), in_custody(&state, Token::B)), (3, 4));
}

#[test]
fn a_swap_touches_no_other_user() {
    let state = with_deposit(funded(1000, 500), alice(), Token::A, 100);
    let state = with_deposit(state, bob(), Token::B, 9);
    let (state, _) = swap(called_by(alice()), state, token_a(), 100).unwrap();
    assert_eq!(
        state.user_balance(&bob()),
        Some(UserBalance { pool_a_balance: 0, pool_b_balance: 9 })
    );
    assert_eq!(state.user_balance(&owner()), None);
    assert_eq!(state.user_balances().len(), 2);
}

#[test]
fn operations_have_their_wire_selectors() {
    let a: Address = token_a();
    assert_eq!(Action::ProvideLiquidity { token_address: a, pool_size: 1 }.shortname(), 0x01);
    assert_eq!(Action::Deposit { token_address: a, amount: 1 }.shortname(), 0x02);
    assert_eq!(Action::Swap { token_address: a, amount: 1 }.shortname(), 0x03);
    assert_eq!(Action::Withdraw { token_address: a, amount: 1 }.shortname(), 0x04);
    assert_eq!(Action::ClosePools.shortname(), 0x05);
    assert_eq!(Callback::ProvideLiquidity { token: Token::A, pool_size: 1 }.shortname(), 0x10);
    assert_eq!(Callback::Deposit { token: Token::A, amount: 1 }.shortname(), 0x20);
    assert_eq!(token_contract_transfer(), 0x01);
    assert_eq!(token_contract_transfer_from(), 0x03);
}

#[test]
fn a_request_and_its_reply_together_fund_a_pool() {
    let state = fresh();
    let fund_a = Action::ProvideLiquidity { token_address: token_a(), pool_size: 1000 };
    let (state, events) = invoke(called_by(owner()), state, fund_a).unwrap();
    assert_eq!(events.len(), 1);
    assert_eq!(pools(&state), (0, 0));
    let continuation = events[0].callback.unwrap();
    assert_eq!(continuation, Callback::ProvideLiquidity { token: Token::A, pool_size: 1000 });
    let (state, events) = resume(called_by(owner()), succeeded(), state, continuation).unwrap();
    assert!(events.is_empty());
    assert_eq!(pools(&state), (1000, 0));
    assert!(state.is_closed());

    let fund_b = Action::ProvideLiquidity { token_address: token_b(), pool_size: 500 };
    let (state, events) = invoke(called_by(owner()), state, fund_b).unwrap();
    let (state, _) =
        resume(called_by(owner()), succeeded(), state, events[0].callback.unwrap()).unwrap();
    assert_eq!(pools(&state), (1000, 500));
    assert_eq!(state.swap_constant(), 500000);
    assert!(!state.is_closed());

    // once open, no funding request is accepted
    assert_eq!(error_of(invoke(called_by(owner()), state.clone(), fund_a)), Some(SwapError::InvalidState));
    assert_eq!(error_of(invoke(called_by(owner()), state, fund_b)), Some(SwapError::InvalidState));
}

#[test]
fn a_session_through_the_operation_surface() {
    let state = funded(1000, 500);
    let pay_in = Action::Deposit { token_address: token_a(), amount: 100 };
    let (state, events) = invoke(called_by(alice()), state, pay_in).unwrap();
    assert_eq!(
        events[0].call,
        TokenCall::TransferFrom { from: alice(), to: swap_contract(), amount: 100 }
    );
    let continuation = events[0].callback.unwrap();
    assert_eq!(
        error_of(resume(called_by(alice()), failed(), state.clone(), continuation)),
        Some(SwapError::ExternalCallFailed)
    );
    let (state, _) = resume(called_by(alice()), succeeded(), state, continuation).unwrap();
    assert_eq!(balance(&state, alice(), Token::A), Some(100));

    let trade = Action::Swap { token_address: token_a(), amount: 100 };
    let (state, events) = invoke(called_by(alice()), state, trade).unwrap();
    assert!(events.is_empty());
    assert_eq!(pools(&state), (1100, 455));
    assert_eq!(balance(&state, alice(), Token::B), Some(45));

    let too_much = Action::Withdraw { token_address: token_b(), amount: 50 };
    assert_eq!(
        error_of(invoke(called_by(alice()), state.clone(), too_much)),
        Some(SwapError::InsufficientFunds)
    );
    let pay_out = Action::Withdraw { token_address: token_b(), amount: 45 };
    let (state, events) = invoke(called_by(alice()), state, pay_out).unwrap();
    assert_eq!(
        events,
        vec![EventGroup {
            dest: token_b(),
            call: TokenCall::Transfer { to: alice(), amount: 45 },
            callback: None,
        }]
    );
    assert_eq!(balance(&state, alice(), Token::B), Some(0));

    assert_eq!(
        error_of(invoke(called_by(alice()), state.clone(), Action::ClosePools)),
        Some(SwapError::PermissionDenied)
    );
    let (state, events) = invoke(called_by(owner()), state, Action::ClosePools).unwrap();
    assert!(events.is_empty());
    assert!(state.is_closed());
    assert_eq!(
        state.user_balance(&owner()),
        Some(UserBalance { pool_a_balance: 1100, pool_b_balance: 455 })
    );
    assert_eq!(error_of(invoke(called_by(alice()), state, trade)), Some(SwapError::InvalidState));
}
