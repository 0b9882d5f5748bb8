//! The two sides of the market.

use vstd::prelude::*;

verus! {

/// One of the two tokens the ledger trades.
#[derive(Clone, Copy, Debug, PartialEq, Eq, Structural)]
pub enum Token {
    /// Token A.
    A,
    /// Token B.
    B,
}

impl Token {
    /// The opposite side of the market.
    pub open spec fn spec_other(self) -> Token {
        match self {
            Token::A => Token::B,
            Token::B => Token::A,
        }
    }

    /// The opposite side of the market.
    #[verifier::when_used_as_spec(spec_other)]
    pub fn other(self) -> (r: Token)
        ensures
            r == self.spec_other(),
    {
        match self {
            Token::A => Token::B,
            Token::B => Token::A,
        }
    }
}

} // verus!
