//! Verified core of an inventory-management backend.
//!
//! The library models the relational store as an in-memory value and proves
//! the business rules that operate on it: sequential identifier allocation,
//! the product/owner association arrays, the order lifecycle between the
//! pending and received tables, and the per-user capability checks.
//! Password hashing is delegated to the `bcrypt` crate behind a small
//! trusted boundary.

pub mod access;
pub mod assoc;
pub mod credentials;
pub mod entities;
pub mod error;
pub mod ids;
pub mod orders;
pub mod owners;
pub mod products;
pub mod store;
pub mod text;
pub mod users;
