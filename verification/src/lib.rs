//! Tabletop dice mechanics and a searchable monster catalog.
//!
//! The `dice` modules turn a textual dice expression into terms and terms
//! into rolls, with the dice doubled on a critical hit; `stats` resolves d20
//! checks with advantage and disadvantage; `monsters` holds the catalog
//! records, their tokenizer and the inverted index that answers multi-term
//! queries; `handlers` puts these together into what each request of a
//! service computes; `utilities` holds the text helpers and the keyed
//! collections that the others are built on.
pub mod dice;
pub mod handlers;
pub mod monsters;
pub mod stats;
pub mod utilities;
