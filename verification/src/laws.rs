use vstd::prelude::*;

verus! {

use crate::chain_db::chain_ids_post;
use crate::chain_db::get_tx_nonce_post;
use crate::chain_db::name_view_set;
use crate::chain_db::stored_bytes;
use crate::codec::be_val;
use crate::error::StorageError;

/// An address with no stored value in an existing partition reads as nonce
/// zero: a completed lookup either returns zero or reports the engine's own
/// read failure — never another error, and never another value.
pub proof fn lemma_absent_key_reads_zero(
    parts: Set<Seq<char>>,
    table: Map<Seq<char>, Map<Seq<u8>, Seq<u8>>>,
    chain: Seq<char>,
    addr: Seq<u8>,
    r: Result<u64, StorageError>,
)
    requires
        parts.contains(chain),
        stored_bytes(table, chain, addr) is None,
        get_tx_nonce_post(parts, table, chain, addr, r),
    ensures
        r == Ok::<u64, StorageError>(0u64) || r == Err::<u64, StorageError>(
            StorageError::ReadFailed,
        ),
{
}

/// Round trip: when the bytes stored under an address in an existing
/// partition are the eight-byte big-endian encoding of `n`, a completed
/// lookup returns exactly `n`, unless the engine's own read failed.
pub proof fn lemma_stored_nonce_round_trip(
    parts: Set<Seq<char>>,
    table: Map<Seq<char>, Map<Seq<u8>, Seq<u8>>>,
    chain: Seq<char>,
    addr: Seq<u8>,
    n: u64,
    r: Result<u64, StorageError>,
)
    requires
        parts.contains(chain),
        (stored_bytes(table, chain, addr) matches Some(b) && b.len() == 8 && be_val(b) == n),
        get_tx_nonce_post(parts, table, chain, addr, r),
    ensures
        r == Ok::<u64, StorageError>(n) || r == Err::<u64, StorageError>(StorageError::ReadFailed),
{
}

/// A chain identifier with no partition is rejected: the lookup fails with
/// PartitionNotFound — in particular it never defaults to a nonce of zero.
pub proof fn lemma_unknown_chain_rejected(
    parts: Set<Seq<char>>,
    table: Map<Seq<char>, Map<Seq<u8>, Seq<u8>>>,
    chain: Seq<char>,
    addr: Seq<u8>,
    r: Result<u64, StorageError>,
)
    requires
        !parts.contains(chain),
        get_tx_nonce_post(parts, table, chain, addr, r),
    ensures
        r == Err::<u64, StorageError>(StorageError::PartitionNotFound),
{
}

/// A listed chain is never rejected: where the chain has a partition, a
/// lookup never fails with PartitionNotFound, whatever the address.
pub proof fn lemma_known_chain_not_rejected(
    parts: Set<Seq<char>>,
    table: Map<Seq<char>, Map<Seq<u8>, Seq<u8>>>,
    chain: Seq<char>,
    addr: Seq<u8>,
    r: Result<u64, StorageError>,
)
    requires
        parts.contains(chain),
        get_tx_nonce_post(parts, table, chain, addr, r),
    ensures
        r != Err::<u64, StorageError>(StorageError::PartitionNotFound),
{
}

/// Listing is idempotent: two successful listings against the same
/// partition set name the same set of chain identifiers, though each may
/// come in its own order.
pub proof fn lemma_chain_ids_idempotent(
    parts: Set<Seq<char>>,
    first: Vec<String>,
    second: Vec<String>,
)
    requires
        chain_ids_post(parts, Ok(first)),
        chain_ids_post(parts, Ok(second)),
    ensures
        name_view_set(first@) == name_view_set(second@),
{
}

/// The default partition always exists, so every successful listing names
/// "default".
pub proof fn lemma_default_always_listed(parts: Set<Seq<char>>, names: Vec<String>)
    requires
        parts.contains("default"@),
        chain_ids_post(parts, Ok(names)),
    ensures
        name_view_set(names@).contains("default"@),
{
}

} // verus!
