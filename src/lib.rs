//! Voice-confirmed transfer authentication with duress detection.
//!
//! The library decodes a spoken confirmation, estimates how stressed the
//! speaker sounds, reads the spoken amount and decides whether a transfer
//! may proceed, must be rejected, or must lock the wallet.

pub mod amount;
pub mod audio;
pub mod decision;
pub mod events;
pub mod fusion;
pub mod handlers;
pub mod hex;
pub mod indexer;
pub mod keywords;
pub mod numeral;
pub mod numeric;
pub mod pitch;
pub mod scorer;
pub mod signal;
pub mod text;
pub mod types;
pub mod voice;
pub mod wav;
