use vstd::prelude::*;

verus! {

/// The failures this layer reports to its callers.
///
/// Engine-level failures are wrapped per operation: opening the root,
/// listing partitions, and reading a key each surface their own kind, so a
/// caller can always tell which step failed. Two kinds are this layer's own:
/// a lookup against a chain identifier with no partition, and a stored value
/// whose length is not the fixed eight-byte nonce encoding.
#[derive(Clone, Copy, Debug, PartialEq, Eq, Structural)]
pub enum StorageError {
    /// The underlying engine could not open or create the database root.
    OpenFailed,
    /// Partition enumeration failed after the store was constructed.
    ListFailed,
    /// The requested chain identifier names no existing partition.
    PartitionNotFound,
    /// The underlying key lookup failed.
    ReadFailed,
    /// A stored nonce value is not exactly eight bytes long.
    DataCorruption,
}

} // verus!
