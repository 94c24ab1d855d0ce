//! A position-dependent ("pity") loot calculator.
//!
//! Opening a sequence of containers, the chance of the wanted item rises
//! with each unsuccessful attempt along a rarity-specific odds curve. Given
//! the attempt a user is about to make, the library answers how many more
//! attempts to expect until success, the probability of success within a
//! budget of further attempts, and a tabular sweep of both.
//!
//! All probabilities and expectations are exact fixed-point numbers scaled
//! by [`engine::SCALE`]; the odds tables are exact integers in tenths.

pub mod decimal;
pub mod engine;
pub mod odds;
pub mod report;
