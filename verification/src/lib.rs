//! A constant-product liquidity-swap ledger: two token pools, per-user
//! withdrawable balances, and the operations that move value between them.
//!
//! The owner funds the two pools; the moment both are positive their
//! product becomes the swap constant and the ledger opens. Users deposit
//! tokens into their balance, swap a balance of one token for the other at
//! the price that the swap constant dictates, and withdraw. The owner may
//! close the ledger, which moves both pools into the owner's balance.
//!
//! - [`contract`] holds the state and the operations, each with its exact
//!   outcome as its contract;
//! - [`model`] is the ledger as a mathematical value, with each operation
//!   as a function on it;
//! - [`theorems`] and [`custody`] prove what holds across operations: the
//!   swap constant is fixed by funding and kept by everything else,
//!   rounding never lets the product of the pools fall below it, and value
//!   enters and leaves the ledger only with transfers;
//! - [`events`] are the requests to the token contracts, [`balances`] the
//!   users' records, [`pricing`] the division rounded up;
//! - [`matching_engine`] is a small order book, independent of the rest.

pub mod address;
pub mod balances;
pub mod contract;
pub mod custody;
pub mod error;
pub mod events;
pub mod matching_engine;
pub mod model;
pub mod pricing;
pub mod theorems;
pub mod token;

pub use address::{Address, AddressType, CallbackContext, ContractContext};
pub use balances::{BalanceEntry, UserBalance, UserBalances};
pub use contract::{
    close_pools, deposit, deposit_callback, initialize, invoke, provide_liquidity,
    provide_liquidity_callback, resume, swap, withdraw, LiquiditySwapContractState, TokenPool,
};
pub use error::SwapError;
pub use events::{
    token_contract_transfer, token_contract_transfer_from, Action, Callback, EventGroup,
    TokenCall,
};
pub use matching_engine::{BidOrAsk, Limit, Orderbook, Price, TradingPair};
pub use pricing::u64_division_ceil;
pub use token::Token;
