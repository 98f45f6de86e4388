//! Binderbase — local-first trading-card-game scanner and collection manager.
//!
//! This crate holds the verified core of the application: the domain model,
//! the CSV import/export rules, the perceptual-hash matcher, the import and
//! index controllers, and the decision logic of the bulk catalog import.
//! Database, network and keychain access live in the application shell.

pub mod domain;
pub mod text;
pub mod settings;
pub mod scanning;
pub mod control;
pub mod catalog;
pub mod games;
pub mod pricing;
pub mod collection;
pub mod commands;
pub mod storage;
