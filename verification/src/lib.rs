//! A Bloom filter: a fixed-size bit array together with a deterministic
//! scheme that maps a hashable item to a fixed number of bit positions.
//! Membership queries answer "might this item be in the set?" with no
//! false negatives and a tunable false-positive rate.

pub mod bits;
pub mod bloom;
pub mod hashing;

pub use bloom::BloomFilter;
pub use hashing::Hashable;
