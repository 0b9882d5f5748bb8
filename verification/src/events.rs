//! Requests that the ledger sends to the token contracts, and the
//! continuations it registers for their replies.

use vstd::prelude::*;
use crate::address::{Address, ContractContext};
use crate::token::Token;

verus! {

/// A call on a token contract.
#[derive(Clone, Copy, Debug, PartialEq, Eq)]
pub enum TokenCall {
    /// Push `amount` from the ledger's own custody to `to`.
    Transfer { to: Address, amount: u64 },
    /// Pull `amount` from `from` into the custody of `to`.
    TransferFrom { from: Address, to: Address, amount: u64 },
}

/// What resumes once a token contract has answered.
#[derive(Clone, Copy, Debug, PartialEq, Eq)]
pub enum Callback {
    /// Resumes the funding of the pool of `token` with `pool_size`.
    ProvideLiquidity { token: Token, pool_size: u64 },
    /// Resumes the deposit of `amount` of `token`.
    Deposit { token: Token, amount: u64 },
}

/// One outbound request: a call on the token contract at `dest`, and the
/// continuation registered for its reply, if any.
#[derive(Clone, Copy, Debug, PartialEq, Eq)]
pub struct EventGroup {
    pub dest: Address,
    pub call: TokenCall,
    pub callback: Option<Callback>,
}

/// An operation that a caller asks of the ledger.
#[derive(Clone, Copy, Debug, PartialEq, Eq)]
pub enum Action {
    /// Fund the pool of the token at `token_address` with `pool_size`.
    ProvideLiquidity { token_address: Address, pool_size: u64 },
    /// Deposit `amount` of the token at `token_address`.
    Deposit { token_address: Address, amount: u64 },
    /// Swap `amount` of the token at `token_address` for the opposite token.
    Swap { token_address: Address, amount: u64 },
    /// Withdraw `amount` of the token at `token_address`.
    Withdraw { token_address: Address, amount: u64 },
    /// Empty the pools into the owner's balance and close the ledger.
    ClosePools,
}

impl Action {
    /// The wire selector of the operation.
    pub open spec fn spec_shortname(&self) -> u32 {
        match *self {
            Action::ProvideLiquidity { .. } => 0x01,
            Action::Deposit { .. } => 0x02,
            Action::Swap { .. } => 0x03,
            Action::Withdraw { .. } => 0x04,
            Action::ClosePools => 0x05,
        }
    }

    /// The wire selector of the operation.
    #[verifier::when_used_as_spec(spec_shortname)]
    pub fn shortname(&self) -> (r: u32)
        ensures
            r == self.spec_shortname(),
    {
        match self {
            Action::ProvideLiquidity { .. } => 0x01,
            Action::Deposit { .. } => 0x02,
            Action::Swap { .. } => 0x03,
            Action::Withdraw { .. } => 0x04,
            Action::ClosePools => 0x05,
        }
    }
}

/// The wire selector of a token contract's `transfer` action.
pub open spec fn spec_token_contract_transfer() -> u32 {
    0x01
}

/// The wire selector of a token contract's `transfer_from` action.
pub open spec fn spec_token_contract_transfer_from() -> u32 {
    0x03
}

/// The wire selector of a token contract's `transfer` action.
#[verifier::when_used_as_spec(spec_token_contract_transfer)]
pub fn token_contract_transfer() -> (r: u32)
    ensures
        r == spec_token_contract_transfer(),
{
    0x01
}

/// The wire selector of a token contract's `transfer_from` action.
#[verifier::when_used_as_spec(spec_token_contract_transfer_from)]
pub fn token_contract_transfer_from() -> (r: u32)
    ensures
        r == spec_token_contract_transfer_from(),
{
    0x03
}

impl TokenCall {
    /// The wire selector of the action that this call invokes.
    pub open spec fn spec_shortname(&self) -> u32 {
        match *self {
            TokenCall::Transfer { .. } => spec_token_contract_transfer(),
            TokenCall::TransferFrom { .. } => spec_token_contract_transfer_from(),
        }
    }

    /// The wire selector of the action that this call invokes.
    #[verifier::when_used_as_spec(spec_shortname)]
    pub fn shortname(&self) -> (r: u32)
        ensures
            r == self.spec_shortname(),
    {
        match self {
            TokenCall::Transfer { .. } => token_contract_transfer(),
            TokenCall::TransferFrom { .. } => token_contract_transfer_from(),
        }
    }
}

impl Callback {
    /// The wire selector under which the continuation is registered.
    pub open spec fn spec_shortname(&self) -> u32 {
        match *self {
            Callback::ProvideLiquidity { .. } => 0x10,
            Callback::Deposit { .. } => 0x20,
        }
    }

    /// The wire selector under which the continuation is registered.
    #[verifier::when_used_as_spec(spec_shortname)]
    pub fn shortname(&self) -> (r: u32)
        ensures
            r == self.spec_shortname(),
    {
        match self {
            Callback::ProvideLiquidity { .. } => 0x10,
            Callback::Deposit { .. } => 0x20,
        }
    }
}

/// The request to pull `pool_size` of the token at `token_address` from the
/// caller into the ledger's custody, with the continuation that funds the
/// pool of `token`.
pub open spec fn funding_request(
    context: ContractContext,
    token_address: Address,
    token: Token,
    pool_size: u64,
) -> EventGroup {
    EventGroup {
        dest: token_address,
        call: TokenCall::TransferFrom {
            from: context.sender,
            to: context.contract_address,
            amount: pool_size,
        },
        callback: Some(Callback::ProvideLiquidity { token, pool_size }),
    }
}

/// The request to pull `amount` of the token at `token_address` from the
/// caller into the ledger's custody, with the continuation that credits the
/// caller's balance of `token`.
pub open spec fn deposit_request(
    context: ContractContext,
    token_address: Address,
    token: Token,
    amount: u64,
) -> EventGroup {
    EventGroup {
        dest: token_address,
        call: TokenCall::TransferFrom {
            from: context.sender,
            to: context.contract_address,
            amount,
        },
        callback: Some(Callback::Deposit { token, amount }),
    }
}

/// The request to push `amount` of the token at `token_address` out to
/// `recipient`. No continuation waits for its reply.
pub open spec fn push_request(token_address: Address, recipient: Address, amount: u64) -> EventGroup {
    EventGroup {
        dest: token_address,
        call: TokenCall::Transfer { to: recipient, amount },
        callback: None,
    }
}

} // verus!
