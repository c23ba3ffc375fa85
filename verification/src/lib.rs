//! Key management and file-key wrapping for the age encryption format.
//!
//! The crate keeps identities in a password-sealed vault, derives classical
//! and post-quantum hybrid key pairs, wraps and unwraps age file keys, and
//! holds the decisions that the command layer and the streaming pipeline make.

pub mod classic;
pub mod codec;
pub mod commands;
pub mod error;
pub mod hybrid;
pub mod keyset;
pub mod keytext;
pub mod progress;
pub mod reader;
pub mod record;
pub mod sealbox;
pub mod secret;
pub mod stanza;
pub mod text;
pub mod vault;
pub mod wildcard;
