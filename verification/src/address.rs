//! Addresses of accounts and contracts, and the call contexts built from them.

use vstd::prelude::*;

verus! {

/// What kind of entity an address denotes.
#[derive(Clone, Copy, Debug, PartialEq, Eq, Structural)]
pub enum AddressType {
    /// A plain account.
    Account,
    /// A system contract.
    SystemContract,
    /// A deployed public contract.
    PublicContract,
    /// A zero-knowledge contract.
    ZkContract,
    /// A governance contract.
    GovContract,
}

/// An address: its kind and a 20-byte identifier.
///
/// Two addresses are equal exactly when kind and identifier agree; `==` in
/// executable code decides that.
#[derive(Clone, Copy, Debug, Eq)]
pub struct Address {
    pub address_type: AddressType,
    pub identifier: [u8; 20],
}

impl PartialEq for Address {
    fn eq(&self, other: &Self) -> (r: bool) {
        if self.address_type != other.address_type {
            return false;
        }
        let mut i: usize = 0;
        while i < 20
            invariant
                i <= 20,
                forall|j: int| 0 <= j < i ==> self.identifier@[j] == other.identifier@[j],
            decreases 20 - i,
        {
            if self.identifier[i] != other.identifier[i] {
                return false;
            }
            i += 1;
        }
        proof {
            assert(self.identifier@ =~= other.identifier@);
            assert(self.identifier == other.identifier);
        }
        true
    }
}

impl vstd::std_specs::cmp::PartialEqSpecImpl for Address {
    open spec fn obeys_eq_spec() -> bool {
        true
    }

    open spec fn eq_spec(&self, other: &Self) -> bool {
        *self == *other
    }
}

impl Address {
    /// Whether the address denotes a deployed public contract.
    pub open spec fn is_public_contract(self) -> bool {
        self.address_type == AddressType::PublicContract
    }
}

/// The part of a call's context that the ledger reads: who called, and the
/// address of the ledger contract itself.
#[derive(Clone, Copy, Debug, PartialEq, Eq)]
pub struct ContractContext {
    pub contract_address: Address,
    pub sender: Address,
}

/// The outcome of a request sent earlier, as its continuation sees it.
#[derive(Clone, Copy, Debug, PartialEq, Eq)]
pub struct CallbackContext {
    pub success: bool,
}

} // verus!
