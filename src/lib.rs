//! Discovery of developers who write Move source files on a code-hosting
//! platform: the decisions of the pipeline (status interpretation, pagination,
//! candidate discovery, Move-file detection and contribution aggregation),
//! each stated as a contract over a mathematical model and proved.
//!
//! The requests themselves are made by the caller: the two report sessions
//! (`session` for one account, `fleet` for many) say which request comes
//! next and when, and take each answer back.

pub mod fetch;
pub mod pager;
pub mod discovery;
pub mod detector;
pub mod ranking;
pub mod aggregate;
pub mod report;
pub mod session;
pub mod fleet;
