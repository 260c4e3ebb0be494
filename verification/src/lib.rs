//! Verified core of the encrypted-notes canister: the note-id lists kept per
//! owner and per share, the rules that every canister endpoint applies before
//! it touches storage, the selection of the notes a user may list, the
//! vetKD key requests, and the check of a Merkle proof against a root hash.
pub mod note_ids;
pub mod rules;
pub mod listing;
pub mod store;
pub mod certificate;
pub mod vetkd;
pub mod principal;
pub mod http;
