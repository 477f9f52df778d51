use vstd::prelude::*;

verus! {

use crate::codec::be_val;
use crate::codec::decode_nonce_bytes;
use crate::error::StorageError;

/// An address: the raw key bytes of an account within a chain's partition.
/// This layer neither validates nor checksums it.
pub type Address = Vec<u8>;

/// A chain identifier: the human-readable name of one partition.
pub type ChainId = String;

/// The chain identifiers a sequence of partition names denotes, as a set:
/// listings carry no contractual order.
pub open spec fn name_view_set(names: Seq<String>) -> Set<Seq<char>> {
    names.map_values(|s: String| s@).to_set()
}

/// The bytes stored under `key` in partition `chain` of `table`, if any.
/// Absence is a well-defined state, not an error.
pub open spec fn stored_bytes(
    table: Map<Seq<char>, Map<Seq<u8>, Seq<u8>>>,
    chain: Seq<char>,
    key: Seq<u8>,
) -> Option<Seq<u8>> {
    if table.contains_key(chain) && table[chain].contains_key(key) {
        Some(table[chain][key])
    } else {
        None
    }
}

/// What a completed partition listing must look like against the store's
/// partition set: a successful listing names exactly that set, in whatever
/// order, and the only failure it may report is the listing failure.
pub open spec fn chain_ids_post(parts: Set<Seq<char>>, r: Result<Vec<String>, StorageError>) -> bool {
    &&& (r matches Ok(names) ==> name_view_set(names@) == parts)
    &&& (r matches Err(e) ==> e == StorageError::ListFailed)
}

/// What a completed nonce lookup must look like against the store's
/// partition set and contents:
/// - a chain with no partition is rejected with PartitionNotFound, always
///   and only then;
/// - a successful read of an address with no stored value is zero;
/// - a successful read of a stored value decodes its exactly-eight bytes
///   big-endian;
/// - a stored value of any other length is DataCorruption;
/// - a read failure may only be reported where the partition exists.
pub open spec fn get_tx_nonce_post(
    parts: Set<Seq<char>>,
    table: Map<Seq<char>, Map<Seq<u8>, Seq<u8>>>,
    chain: Seq<char>,
    addr: Seq<u8>,
    r: Result<u64, StorageError>,
) -> bool {
    &&& (r matches Ok(n) ==> parts.contains(chain) && match stored_bytes(table, chain, addr) {
        Some(b) => b.len() == 8 && n as nat == be_val(b),
        None => n == 0,
    })
    &&& (r matches Err(e) ==> match e {
        StorageError::PartitionNotFound => !parts.contains(chain),
        StorageError::ReadFailed => parts.contains(chain),
        StorageError::DataCorruption => parts.contains(chain) && (stored_bytes(
            table,
            chain,
            addr,
        ) matches Some(b) && b.len() != 8),
        _ => false,
    })
    &&& (!parts.contains(chain) ==> r == Err::<u64, StorageError>(StorageError::PartitionNotFound))
}

/// The capability this layer exposes: list the known chain identifiers, and
/// read the transaction nonce of an (address, chain) pair. An implementor
/// is modelled by its live partition set and its stored contents, and both
/// operations promise their results against that model, so a backing
/// engine can be substituted without touching callers.
pub trait ChainDB {
    /// The partitions the store currently carries, one per chain identifier.
    spec fn partitions(&self) -> Set<Seq<char>>;

    /// The stored contents: per partition, raw key bytes to value bytes.
    spec fn table(&self) -> Map<Seq<char>, Map<Seq<u8>, Seq<u8>>>;

    /// The live set of chain identifiers, re-queried from the ground truth
    /// on every call, never served from a cache.
    fn chain_ids(&self) -> (r: Result<Vec<ChainId>, StorageError>)
        ensures
            chain_ids_post(self.partitions(), r),
    ;

    /// The nonce stored for `address` on chain `chain_id`: zero when no
    /// value was ever stored, the decoded eight-byte big-endian value when
    /// one was. A pure read: the store never writes a nonce.
    fn get_tx_nonce(&self, address: &Address, chain_id: &ChainId) -> (r: Result<
        u64,
        StorageError,
    >)
        ensures
            get_tx_nonce_post(self.partitions(), self.table(), chain_id@, address@, r),
    ;
}

/// One engine answer to a single-key read, as an engine-backed store
/// observes it after resolving the partition and performing the lookup.
pub enum EngineRead {
    /// The chain identifier names no partition.
    NoPartition,
    /// The engine failed to perform the read.
    Failed,
    /// The partition exists and holds no value under the key.
    Missing,
    /// The partition exists and holds exactly these bytes under the key.
    Value(Vec<u8>),
}

/// When an engine read truthfully reflects a store whose partition set is
/// `parts` and whose contents are `table`, at `chain` and `addr`.
pub open spec fn read_reflects(
    read: EngineRead,
    parts: Set<Seq<char>>,
    table: Map<Seq<char>, Map<Seq<u8>, Seq<u8>>>,
    chain: Seq<char>,
    addr: Seq<u8>,
) -> bool {
    match read {
        EngineRead::NoPartition => !parts.contains(chain),
        EngineRead::Failed => parts.contains(chain),
        EngineRead::Missing => parts.contains(chain) && stored_bytes(table, chain, addr) is None,
        EngineRead::Value(b) => parts.contains(chain) && stored_bytes(table, chain, addr) == Some(
            b@,
        ),
    }
}

/// The nonce policy over one engine read: a missing partition and a failed
/// read are each their own error, a missing key is nonce zero, and a
/// present value must decode from exactly eight big-endian bytes. Whatever
/// store state the read truthfully reflects, the result meets the lookup
/// contract, so an engine-backed store need only report its read honestly.
pub fn nonce_from_read(read: EngineRead) -> (r: Result<u64, StorageError>)
    ensures
        read is NoPartition ==> r == Err::<u64, StorageError>(StorageError::PartitionNotFound),
        read is Failed ==> r == Err::<u64, StorageError>(StorageError::ReadFailed),
        read is Missing ==> r == Ok::<u64, StorageError>(0u64),
        (read matches EngineRead::Value(b) ==> ((b@.len() == 8 ==> (r matches Ok(n) && n as nat
            == be_val(b@))) && (b@.len() != 8 ==> r == Err::<u64, StorageError>(
            StorageError::DataCorruption,
        )))),
        forall|
            parts: Set<Seq<char>>,
            table: Map<Seq<char>, Map<Seq<u8>, Seq<u8>>>,
            chain: Seq<char>,
            addr: Seq<u8>,
        |
            #[trigger] read_reflects(read, parts, table, chain, addr) ==> get_tx_nonce_post(
                parts,
                table,
                chain,
                addr,
                r,
            ),
{
    match read {
        EngineRead::NoPartition => Err(StorageError::PartitionNotFound),
        EngineRead::Failed => Err(StorageError::ReadFailed),
        EngineRead::Missing => Ok(0),
        EngineRead::Value(bytes) => decode_nonce_bytes(&bytes),
    }
}

/// When a completed enumeration truthfully names the store's partition
/// set: a successful listing names exactly that set; a failed one tells
/// nothing of it.
pub open spec fn listing_reflects(listing: Option<Vec<String>>, parts: Set<Seq<char>>) -> bool {
    listing matches Some(names) ==> name_view_set(names@) == parts
}

/// Construction-time discovery of partitions: a failed enumeration means a
/// fresh root with no partitions yet and becomes the empty list — the one
/// local recovery in this layer; a successful enumeration is taken as is.
pub fn normalize_discovery(listing: Option<Vec<String>>) -> (r: Vec<String>)
    ensures
        (listing matches Some(names) ==> r == names),
        listing is None ==> r@ == Seq::<String>::empty(),
{
    match listing {
        Some(names) => names,
        None => Vec::new(),
    }
}

/// Enumeration after construction: a failure here is never recovered — it
/// becomes ListFailed — and a successful enumeration is returned as it
/// came. Whatever partition set the enumeration truthfully names, the
/// result meets the listing contract.
pub fn chain_ids_from_listing(listing: Option<Vec<String>>) -> (r: Result<
    Vec<ChainId>,
    StorageError,
>)
    ensures
        (listing matches Some(names) ==> r == Ok::<Vec<String>, StorageError>(names)),
        listing is None ==> r == Err::<Vec<String>, StorageError>(StorageError::ListFailed),
        forall|parts: Set<Seq<char>>|
            #[trigger] listing_reflects(listing, parts) ==> chain_ids_post(parts, r),
{
    match listing {
        Some(names) => Ok(names),
        None => Err(StorageError::ListFailed),
    }
}

} // verus!
