//! Parallel brute-force search for a keypair whose base58 address starts with
//! one of several caller-supplied prefixes.
//!
//! The search generates candidate keypairs on a fixed pool of worker threads,
//! encodes each candidate's public key once and compares the text with every
//! entry of a prefix table; the first worker to find a match stops the rest.

pub mod encoding;
pub mod keys;
pub mod matcher;
pub mod prefix;
pub mod progress;
pub mod search;
pub mod shared;
pub mod text;
pub mod worker;

pub use crate::keys::generate_keypair_batch;
pub use crate::keys::KeypairBytes;
pub use crate::progress::ProgressSnapshot;
pub use crate::search::find_vanity_address;
pub use crate::search::search_with;
pub use crate::search::SearchError;
pub use crate::search::VanityResult;
