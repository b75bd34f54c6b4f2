//! Synthetic data generation for a telephony and billing schema: entity
//! generators that keep foreign keys valid, identifier sequences continued
//! from a target store, and the delimited text that feeds its bulk loader.

pub mod assembler;
pub mod clock;
pub mod codec;
pub mod config;
pub mod entities;
pub mod generators;
pub mod identities;
pub mod loader;
pub mod random;
pub mod text;
