//! The deposit calculator: what a funder must have available to create a drop
//! or to add keys to one.

use vstd::prelude::*;
use vstd::arithmetic::overflow::CheckedU128;

verus! {

/// Everything the required deposit depends on.
#[derive(Clone, Copy, Debug, PartialEq, Eq, Structural)]
pub struct DepositTerms {
    /// Fee for the drop itself; 0 when keys are added to an existing drop.
    pub drop_fee: u128,
    /// Fee for each key.
    pub key_fee: u128,
    /// Bytes of storage that the operation took.
    pub storage_bytes: u64,
    /// Price of one byte of storage.
    pub storage_cost_per_byte: u128,
    /// Number of keys in the batch.
    pub key_count: u64,
    /// Spending budget of each token.
    pub allowance_per_key: u128,
    /// Price of registering one token.
    pub key_registration_cost: u128,
    /// Value that each redemption hands out.
    pub deposit_per_use: u128,
    /// Redemptions per key.
    pub uses_per_key: u64,
    /// Redemptions per key that make no invocation and hand out nothing.
    pub none_count: u64,
    /// Bytes that one token identifier of the longest length takes; 0 unless tokens are sent.
    pub longest_token_bytes: u128,
    /// Value that the invocations of one key attach over all its uses.
    pub fc_deposits_per_key: u128,
    /// What a token contract charges to register one holder; 0 unless it is known.
    pub registration_cost_per_use: u128,
}

impl DepositTerms {
    /// No more redemptions go without charge than a key has.
    pub open spec fn wf(&self) -> bool {
        self.none_count <= self.uses_per_key
    }

    /// Redemptions per key that hand out value.
    pub open spec fn charged_uses(&self) -> int {
        self.uses_per_key - self.none_count
    }

    /// The price of the storage that the operation took.
    pub open spec fn storage_cost(&self) -> int {
        self.storage_cost_per_byte * self.storage_bytes
    }

    /// What has to be available for each key of the batch.
    pub open spec fn per_key(&self) -> int {
        self.key_fee + self.allowance_per_key + self.key_registration_cost + self.deposit_per_use
            * self.charged_uses() + self.longest_token_bytes * self.storage_cost_per_byte
            * self.charged_uses() + self.fc_deposits_per_key + self.registration_cost_per_use
            * self.uses_per_key
    }

    /// What has to be available for the whole operation.
    pub open spec fn required(&self) -> int {
        self.drop_fee + self.storage_cost() + self.per_key() * self.key_count
    }

    /// The part of the required deposit that is kept as fees.
    pub open spec fn fees(&self) -> int {
        self.drop_fee + self.key_fee * self.key_count
    }

    /// The fees are part of the required deposit.
    pub proof fn lemma_fees_within_required(&self)
        requires
            self.wf(),
        ensures
            0 <= self.fees() <= self.required(),
    {
        let rest = self.per_key() - self.key_fee;
        let n = self.key_count as int;
        let c = self.charged_uses();
        let key_fee = self.key_fee as int;
        assert(0 <= self.deposit_per_use * c) by (nonlinear_arith)
            requires
                0 <= c,
                0 <= self.deposit_per_use,
        ;
        assert(0 <= self.longest_token_bytes * self.storage_cost_per_byte * c) by (nonlinear_arith)
            requires
                0 <= c,
                0 <= self.longest_token_bytes,
                0 <= self.storage_cost_per_byte,
        ;
        assert(0 <= self.registration_cost_per_use * self.uses_per_key) by (nonlinear_arith)
            requires
                0 <= self.registration_cost_per_use,
                0 <= self.uses_per_key,
        ;
        assert(0 <= self.storage_cost_per_byte * self.storage_bytes) by (nonlinear_arith)
            requires
                0 <= self.storage_cost_per_byte,
                0 <= self.storage_bytes,
        ;
        assert(0 <= rest);
        assert((key_fee + rest) * n == key_fee * n + rest * n && 0 <= rest * n && 0 <= key_fee * n)
            by (nonlinear_arith)
            requires
                0 <= rest,
                0 <= n,
                0 <= key_fee,
        ;
    }

    /// Computes the required deposit; `None` where it exceeds every amount.
    pub fn required_deposit(&self) -> (deposit: Option<u128>)
        requires
            self.wf(),
        ensures
            deposit matches Some(v) ==> v == self.required(),
            deposit is None ==> self.required() > u128::MAX,
    {
        let charged: u64 = self.uses_per_key - self.none_count;
        let storage = CheckedU128::new(self.storage_cost_per_byte).mul_value(
            self.storage_bytes as u128,
        );
        let deposits = CheckedU128::new(self.deposit_per_use).mul_value(charged as u128);
        let tokens = CheckedU128::new(self.longest_token_bytes).mul_value(
            self.storage_cost_per_byte,
        ).mul_value(charged as u128);
        let registration = CheckedU128::new(self.registration_cost_per_use).mul_value(
            self.uses_per_key as u128,
        );
        let per_key = CheckedU128::new(self.key_fee).add_value(self.allowance_per_key).add_value(
            self.key_registration_cost,
        ).add_checked(&deposits).add_checked(&tokens).add_value(
            self.fc_deposits_per_key,
        ).add_checked(&registration);
        let keys = per_key.mul_value(self.key_count as u128);
        let total = CheckedU128::new(self.drop_fee).add_checked(&storage).add_checked(&keys);
        total.to_option()
    }
}

} // verus!
