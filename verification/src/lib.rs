//! Governance and treasury engine of a member-run organisation: staking for
//! voting power, proposals and consensus, dividends, and an internal swap
//! market, with the credential and identity services it consults.

pub mod assets;
pub mod cv_id_const;
pub mod error;
pub mod fixed;
pub mod ground_business_dao;
pub mod ground_cv;
pub mod ground_id;
pub mod ground_voting_pool;
pub mod guarantees;
pub mod oracle;
pub mod tally;
