//! What the engine is told about the ledger platform it runs on: prices, limits,
//! and what the platform metered.

use vstd::prelude::*;
use vstd::arithmetic::overflow::CheckedU128;
use crate::types::Gas;

verus! {

/// What a token costs to register, how much compute a redemption may use, and how
/// the allowance of a token follows from its compute budget.
#[derive(Clone, Copy, Debug, PartialEq, Eq, Structural)]
pub struct Platform {
    /// Price of registering one authorization token.
    pub access_key_storage: u128,
    /// Compute budget that a redemption gets where the payload sets none.
    pub wallet_gas: Gas,
    /// Compute that the engine needs for itself when a payload sets its own budget.
    pub fc_gas_offset: Gas,
    /// Allowance that every use of a token gets whatever its budget.
    pub allowance_floor: u128,
    /// Allowance that every use of a token gets for each unit of its budget.
    pub allowance_per_gas: u128,
}

/// What the platform metered while an operation wrote its records.
#[derive(Clone, Copy, Debug, PartialEq, Eq, Structural)]
pub struct StorageUsage {
    /// Bytes by which the operation as a whole grew the storage.
    pub bytes_added: u64,
    /// Bytes that one token identifier of the longest length took while it was stored
    /// for the measurement; read only for a non-fungible-token drop.
    pub longest_token_bytes: u64,
}

/// The platform's price of one byte of storage.
pub const STORAGE_PRICE_PER_BYTE: u128 = 10_000_000_000_000_000_000;

/// Asks `near_sdk::env::storage_byte_cost` for the price of one byte of storage.
///
/// Not proved here: that the answer is `STORAGE_PRICE_PER_BYTE`. The function
/// returns a constant of that value, the price that the platform fixed at its start.
#[verifier::external_body]
pub(crate) fn storage_byte_cost() -> (cost: u128)
    ensures
        cost == STORAGE_PRICE_PER_BYTE,
{
    near_sdk::env::storage_byte_cost()
}

impl Platform {
    /// The engine's own share fits into the default budget.
    pub open spec fn wf(&self) -> bool {
        self.fc_gas_offset <= self.wallet_gas
    }

    /// The largest compute budget that a payload may set for itself.
    pub open spec fn gas_ceiling(&self) -> int {
        self.wallet_gas - self.fc_gas_offset
    }

    /// The allowance that covers one use with the given compute budget.
    pub open spec fn base_allowance(&self, gas: Gas) -> int {
        self.allowance_floor + self.allowance_per_gas * gas
    }

    /// The allowance of a token that can be used `uses` times.
    pub open spec fn allowance_for(&self, gas: Gas, uses: u64) -> int {
        self.base_allowance(gas) * uses
    }

    /// Computes the allowance of a token; `None` where it exceeds every amount.
    pub fn allowance_per_key(&self, gas: Gas, uses: u64) -> (allowance: Option<u128>)
        ensures
            allowance matches Some(v) ==> v == self.allowance_for(gas, uses),
            allowance is None ==> self.allowance_for(gas, uses) > u128::MAX,
    {
        let slope = CheckedU128::new(self.allowance_per_gas).mul_value(gas as u128);
        let base = slope.add_value(self.allowance_floor);
        let all = base.mul_value(uses as u128);
        all.to_option()
    }
}

} // verus!
