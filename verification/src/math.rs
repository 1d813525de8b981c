//! Chance: picking an item and shuffling a collection.

pub mod random;
