//! Zero-copy archiving of shared-ownership pointers.
//!
//! A live object graph holds strong and weak handles into a reference-counted
//! heap.  Archiving writes each pointee into a position-indexed buffer exactly
//! once (identity-based deduplication) and encodes every pointer to it as a
//! relative offset, so the finished buffer stays valid wherever it is mapped.
//! Reading the archive back reconstructs live handles that alias one
//! allocation per archived pointee and whose reference counts track exactly
//! the handles the caller still holds.

pub mod arc;
pub mod de;
pub mod heap;
pub mod laws;
pub mod rc;
pub mod ser;
pub mod slot;
