//! Admission and accounting engine for prepaid key drops.
//!
//! A funder pays into a balance, registers a batch of public keys as a drop, and
//! each key later authorizes a bounded number of redemptions. This crate decides
//! whether a drop or a batch of further keys is accepted, what it costs, and which
//! authorization tokens are to be issued for it. It does no input or output: the
//! caller hands in what the platform metered and what a token registry answered,
//! and carries out what the engine returns.

pub mod assoc;
pub mod create;
pub mod deposit;
pub mod engine;
pub mod extend;
pub mod fees;
pub mod keys;
pub mod laws;
pub mod ledger;
pub mod payload;
pub mod platform;
pub mod probe;
pub mod settle;
pub mod store;
pub mod types;
pub mod validate;

pub use crate::deposit::DepositTerms;
pub use crate::engine::{Admission, KeyGrant, Keypom, NextStep};
pub use crate::fees::FeeSchedule;
pub use crate::payload::{DropType, FCConfig, FCData, FTData, FTDataConfig, MethodData,
    MethodTally, NFTData, NFTDataConfig, StorageBalanceBounds};
pub use crate::platform::{Platform, StorageUsage};
pub use crate::store::{Drop, DropStatus};
pub use crate::types::{AccountId, AdmissionError, ClaimPermissions, DropConfig, DropId,
    DropMetadata, Gas, KeyInfo, MethodScope, PublicKey};
