//! Shape synchronisation for a shared drawing board: the shape collection,
//! the reducer that folds edit events into it, the local input adapter, the
//! wire codec for length-prefixed frames and the connection registry that
//! fans frames out to peers.
//!
//! Peers stay in step by incremental edit events only: every peer folds the
//! same events, in the same order, through the same reducer. No snapshot of
//! the whole collection is ever sent, so a peer that joins late starts from a
//! blank board.

pub mod model;
pub mod reducer;
pub mod input;
pub mod codec;
pub mod registry;
