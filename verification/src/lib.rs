//! Monte-Carlo estimation of poker-hand category frequencies.
//!
//! A standard 52-card deck is modelled by integer card identities; hands of a
//! fixed size are sampled without replacement, reduced to rank and suit
//! histograms, classified into boolean category flags, and the flags are
//! accumulated into per-category counters over many samples.

pub mod aggregate_score;
pub mod args;
pub mod card;
pub mod deck;
pub mod hand;
pub mod hand_score;
pub mod hand_stats;
