//! Verified core of a delegated-subdomain provisioning service.
//!
//! The library covers label validation, DNS name normalization, record-set
//! reconciliation, the subdomain provisioning saga, and the delegation-switch
//! workflow. Network and database calls are issued by the surrounding
//! application; the library supplies the validated plans, the saga decision
//! machine, and the pure views over fetched zone data.

pub mod auth;
pub mod config;
pub mod delegation;
pub mod dto;
pub mod error;
pub mod powerdns;
pub mod provision;
pub mod reconcile;
pub mod saga_model;
pub mod text;
pub mod user;
pub mod validation;
pub mod zone;
