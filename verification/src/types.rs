//! Plain values shared by every part of the engine.

use vstd::prelude::*;

verus! {

/// Identifier of a drop: its position in the order of creation.
pub type DropId = u128;

/// Identity of a funder or of a collaborating contract.
pub type AccountId = String;

/// A public key, as the bytes of its encoding.
pub type PublicKey = Vec<u8>;

/// Free-form text that a funder attaches to a drop.
pub type DropMetadata = String;

/// Units of metered computation.
pub type Gas = u64;

/// Which redemption entry points a drop's keys may call.
#[derive(Clone, Copy, Debug, PartialEq, Eq, Structural)]
pub enum ClaimPermissions {
    Claim,
    CreateAccountAndClaim,
}

/// The entry points an authorization token is scoped to.
#[derive(Clone, Copy, Debug, PartialEq, Eq, Structural)]
pub enum MethodScope {
    Both,
    ClaimOnly,
    CreateAccountAndClaimOnly,
}

/// Why an admission request was turned down, or why a deferred admission fell through.
#[derive(Clone, Copy, Debug, PartialEq, Eq, Structural)]
pub enum AdmissionError {
    /// The request contradicts itself: several payloads, a simple drop without value,
    /// a compute budget that cannot be honoured, or method lists of the wrong length.
    InvalidConfig,
    /// A submitted key already belongs to a drop, or occurs twice in the batch.
    DuplicateKey,
    /// The funder's prepaid balance does not cover the required deposit.
    InsufficientBalance,
    /// The token registry could not be reached or answered with an error.
    ExternalCallFailure,
    /// The registry's answer revealed a cost that the funder's balance cannot cover.
    UnderfundedAfterDiscovery,
    /// The funder has never paid anything in.
    NoBalance,
    /// No drop has the given id.
    DropNotFound,
    /// Only the funder of a drop may extend it.
    NotOwner,
    /// The drop is waiting for the registry's answer, or was abandoned.
    NotFunded,
    /// The drop is not waiting for the registry's answer.
    NotPending,
    /// A counter or an amount would leave the range of its type.
    CapacityExceeded,
}

/// Usage state of one authorization token.
#[derive(Clone, Copy, Debug, PartialEq, Eq, Structural)]
pub struct KeyInfo {
    /// Redemptions left; the token is retired at 0.
    pub remaining_uses: u64,
    /// Time of the last redemption; 0 while the token was never used.
    pub last_used: u64,
    /// What is left of the token's spending budget.
    pub allowance: u128,
    /// Sequence number of the key within its drop.
    pub key_id: u64,
}

/// Optional overrides that apply to every key of a drop.
#[derive(Clone, Debug, PartialEq, Eq)]
pub struct DropConfig {
    /// Redemptions per key; 1 when absent.
    pub uses_per_key: Option<u64>,
    /// Earliest time at which keys may be used.
    pub start_timestamp: Option<u64>,
    /// Least time between two uses of one key.
    pub throttle_timestamp: Option<u64>,
    /// Whether a plain claim returns the deposit to the funder.
    pub on_claim_refund_deposit: Option<bool>,
    /// Entry points that the keys may call; both when absent.
    pub claim_permission: Option<ClaimPermissions>,
    /// Root under which new accounts are created.
    pub drop_root: Option<AccountId>,
}

/// Redemptions per key that a configuration asks for.
pub open spec fn uses_per_key_of(config: Option<DropConfig>) -> u64 {
    match config {
        Some(c) => match c.uses_per_key {
            Some(n) => n,
            None => 1,
        },
        None => 1,
    }
}

/// The claim permission that a configuration sets, if any.
pub open spec fn permission_of(config: Option<DropConfig>) -> Option<ClaimPermissions> {
    match config {
        Some(c) => c.claim_permission,
        None => None,
    }
}

/// The scope that a claim-permission setting asks for; both entry points when none is set.
pub open spec fn scope_for(permission: Option<ClaimPermissions>) -> MethodScope {
    match permission {
        None => MethodScope::Both,
        Some(ClaimPermissions::Claim) => MethodScope::ClaimOnly,
        Some(ClaimPermissions::CreateAccountAndClaim) => MethodScope::CreateAccountAndClaimOnly,
    }
}

/// Reads the number of redemptions per key out of an optional configuration.
pub fn uses_per_key(config: &Option<DropConfig>) -> (uses: u64)
    ensures
        uses == uses_per_key_of(*config),
{
    match config {
        Some(c) => match c.uses_per_key {
            Some(n) => n,
            None => 1,
        },
        None => 1,
    }
}

/// Reads the claim permission out of an optional configuration.
pub fn claim_permission(config: &Option<DropConfig>) -> (permission: Option<ClaimPermissions>)
    ensures
        permission == permission_of(*config),
{
    match config {
        Some(c) => c.claim_permission,
        None => None,
    }
}

/// Turns a claim-permission setting into the scope of the tokens to issue.
pub fn method_scope(permission: Option<ClaimPermissions>) -> (scope: MethodScope)
    ensures
        scope == scope_for(permission),
{
    match permission {
        None => MethodScope::Both,
        Some(ClaimPermissions::Claim) => MethodScope::ClaimOnly,
        Some(ClaimPermissions::CreateAccountAndClaim) => MethodScope::CreateAccountAndClaimOnly,
    }
}

} // verus!
