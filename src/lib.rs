//! Rolling checksums over a fixed-width sliding window of a byte stream.
//!
//! A checksum family ([`Hasher`]) supplies an O(1) per-byte update rule; the
//! engine ([`Rolling`]) drives it over a pull-based byte source ([`ByteSource`])
//! and hands out one checksum per window position, in stream order.
mod additive;
mod engine;
mod family;
mod source;

pub use additive::{byte_sum, lemma_additive_window, sum_mod256, AdditiveSum};
pub use engine::{
    all_checksums, evicted, lemma_roll_prefix, lemma_window_deterministic, roll, window_checksum,
    window_count, Rolling,
};
pub use family::{pair_count, step_pairs, Hasher};
pub use source::{ByteSource, ByteStream};
