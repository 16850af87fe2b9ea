//! Verified core of the StellarSpend contracts: recurring allowances,
//! reward accounts, spending-rule evaluation and description sanitising.

pub mod allowance_types;
pub mod allowance_rules;
pub mod allowances;
pub mod allowance_laws;
pub mod spending_rules;
pub mod sanitizer;
pub mod transfer;
pub mod address_book;
pub mod reward_types;
pub mod reward_storage;
pub mod reward_validation;
pub mod rewards;
pub mod reward_laws;
