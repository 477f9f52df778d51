use vstd::prelude::*;

verus! {

use vstd::string::StringExecFns;
use crate::chain_db::Address;
use crate::chain_db::ChainDB;
use crate::chain_db::ChainId;
use crate::codec::decode_nonce_bytes;
use crate::error::StorageError;

/// One stored pair: raw address bytes and the raw value bytes under them.
pub struct MemEntry {
    pub key: Vec<u8>,
    pub value: Vec<u8>,
}

/// One partition: a chain identifier and the flat key-to-value mapping it
/// holds.
pub struct MemPartition {
    pub name: String,
    pub entries: Vec<MemEntry>,
}

/// The mapping a run of entries denotes. The earliest entry of a key wins,
/// which a linear search agrees with, so no distinctness invariant is
/// needed.
pub open spec fn entries_map(s: Seq<MemEntry>) -> Map<Seq<u8>, Seq<u8>>
    decreases s.len(),
{
    if s.len() == 0 {
        Map::empty()
    } else {
        entries_map(s.drop_first()).insert(s.first().key@, s.first().value@)
    }
}

/// The contents a run of partitions denotes: per partition name, its
/// mapping. The earliest partition of a name wins.
pub open spec fn partitions_table(s: Seq<MemPartition>) -> Map<Seq<char>, Map<Seq<u8>, Seq<u8>>>
    decreases s.len(),
{
    if s.len() == 0 {
        Map::empty()
    } else {
        partitions_table(s.drop_first()).insert(
            s.first().name@,
            entries_map(s.first().entries@),
        )
    }
}

/// The set of partition names a run of partitions carries.
pub open spec fn partition_names(s: Seq<MemPartition>) -> Set<Seq<char>> {
    s.map_values(|p: MemPartition| p.name@).to_set()
}

proof fn lemma_names_contains(s: Seq<MemPartition>, c: Seq<char>)
    ensures
        partition_names(s).contains(c) == (exists|i: int|
            0 <= i < s.len() && s[i].name@ == c),
{
    let m = s.map_values(|p: MemPartition| p.name@);
    if m.to_set().contains(c) {
        let i = choose|i: int| 0 <= i < m.len() && m[i] == c;
        assert(s[i].name@ == c);
    }
    if exists|i: int| 0 <= i < s.len() && s[i].name@ == c {
        let i = choose|i: int| 0 <= i < s.len() && s[i].name@ == c;
        assert(m[i] == c);
        assert(m.to_set().contains(c));
    }
}

proof fn lemma_entries_map_skip(s: Seq<MemEntry>, i: int, k: Seq<u8>)
    requires
        0 <= i <= s.len(),
        forall|j: int| 0 <= j < i ==> s[j].key@ != k,
    ensures
        entries_map(s).contains_key(k) == entries_map(s.skip(i)).contains_key(k),
        entries_map(s).contains_key(k) ==> entries_map(s)[k] == entries_map(s.skip(i))[k],
    decreases i,
{
    if i == 0 {
        assert(s.skip(0) =~= s);
    } else {
        lemma_entries_map_skip(s.drop_first(), i - 1, k);
        assert(s.drop_first().skip(i - 1) =~= s.skip(i));
    }
}

proof fn lemma_table_skip(s: Seq<MemPartition>, i: int, c: Seq<char>)
    requires
        0 <= i <= s.len(),
        forall|j: int| 0 <= j < i ==> s[j].name@ != c,
    ensures
        partitions_table(s).contains_key(c) == partitions_table(s.skip(i)).contains_key(c),
        partitions_table(s).contains_key(c) ==> partitions_table(s)[c] == partitions_table(
            s.skip(i),
        )[c],
    decreases i,
{
    if i == 0 {
        assert(s.skip(0) =~= s);
    } else {
        lemma_table_skip(s.drop_first(), i - 1, c);
        assert(s.drop_first().skip(i - 1) =~= s.skip(i));
    }
}

proof fn lemma_entries_map_push(s: Seq<MemEntry>, e: MemEntry)
    requires
        forall|j: int| 0 <= j < s.len() ==> s[j].key@ != e.key@,
    ensures
        entries_map(s.push(e)) == entries_map(s).insert(e.key@, e.value@),
    decreases s.len(),
{
    if s.len() == 0 {
        assert(s =~= Seq::<MemEntry>::empty());
        assert(s.push(e).drop_first() =~= Seq::<MemEntry>::empty());
        assert(s.push(e).first() == e);
        assert(entries_map(Seq::<MemEntry>::empty()) =~= Map::<Seq<u8>, Seq<u8>>::empty());
        assert(entries_map(s.push(e)) =~= entries_map(s).insert(e.key@, e.value@));
    } else {
        lemma_entries_map_push(s.drop_first(), e);
        assert(s.push(e).drop_first() =~= s.drop_first().push(e));
        assert(s.push(e).first() == s.first());
        assert(entries_map(s.drop_first()).insert(e.key@, e.value@).insert(
            s.first().key@,
            s.first().value@,
        ) =~= entries_map(s.drop_first()).insert(s.first().key@, s.first().value@).insert(
            e.key@,
            e.value@,
        ));
    }
}

proof fn lemma_entries_map_update(s: Seq<MemEntry>, j: int, e: MemEntry)
    requires
        0 <= j < s.len(),
        e.key@ == s[j].key@,
        forall|l: int| 0 <= l < j ==> s[l].key@ != s[j].key@,
    ensures
        entries_map(s.update(j, e)) == entries_map(s).insert(e.key@, e.value@),
    decreases j,
{
    if j == 0 {
        assert(s.update(0, e).drop_first() =~= s.drop_first());
        assert(s.update(0, e).first() == e);
        assert(entries_map(s.drop_first()).insert(e.key@, e.value@) =~= entries_map(
            s.drop_first(),
        ).insert(s.first().key@, s.first().value@).insert(e.key@, e.value@));
    } else {
        lemma_entries_map_update(s.drop_first(), j - 1, e);
        assert(s.update(j, e).drop_first() =~= s.drop_first().update(j - 1, e));
        assert(s.update(j, e).first() == s.first());
        assert(s.first().key@ != e.key@);
        assert(entries_map(s.drop_first()).insert(e.key@, e.value@).insert(
            s.first().key@,
            s.first().value@,
        ) =~= entries_map(s.drop_first()).insert(s.first().key@, s.first().value@).insert(
            e.key@,
            e.value@,
        ));
    }
}

proof fn lemma_table_push(s: Seq<MemPartition>, p: MemPartition)
    requires
        forall|j: int| 0 <= j < s.len() ==> s[j].name@ != p.name@,
    ensures
        partitions_table(s.push(p)) == partitions_table(s).insert(
            p.name@,
            entries_map(p.entries@),
        ),
    decreases s.len(),
{
    if s.len() == 0 {
        assert(s =~= Seq::<MemPartition>::empty());
        assert(s.push(p).drop_first() =~= Seq::<MemPartition>::empty());
        assert(s.push(p).first() == p);
        assert(partitions_table(Seq::<MemPartition>::empty()) =~= Map::<
            Seq<char>,
            Map<Seq<u8>, Seq<u8>>,
        >::empty());
        assert(partitions_table(s.push(p)) =~= partitions_table(s).insert(
            p.name@,
            entries_map(p.entries@),
        ));
    } else {
        lemma_table_push(s.drop_first(), p);
        assert(s.push(p).drop_first() =~= s.drop_first().push(p));
        assert(s.push(p).first() == s.first());
        assert(partitions_table(s.drop_first()).insert(p.name@, entries_map(p.entries@)).insert(
            s.first().name@,
            entries_map(s.first().entries@),
        ) =~= partitions_table(s.drop_first()).insert(
            s.first().name@,
            entries_map(s.first().entries@),
        ).insert(p.name@, entries_map(p.entries@)));
    }
}

proof fn lemma_table_update(s: Seq<MemPartition>, i: int, p: MemPartition)
    requires
        0 <= i < s.len(),
        p.name@ == s[i].name@,
        forall|l: int| 0 <= l < i ==> s[l].name@ != s[i].name@,
    ensures
        partitions_table(s.update(i, p)) == partitions_table(s).insert(
            p.name@,
            entries_map(p.entries@),
        ),
    decreases i,
{
    if i == 0 {
        assert(s.update(0, p).drop_first() =~= s.drop_first());
        assert(s.update(0, p).first() == p);
        assert(partitions_table(s.drop_first()).insert(p.name@, entries_map(p.entries@))
            =~= partitions_table(s.drop_first()).insert(
            s.first().name@,
            entries_map(s.first().entries@),
        ).insert(p.name@, entries_map(p.entries@)));
    } else {
        lemma_table_update(s.drop_first(), i - 1, p);
        assert(s.update(i, p).drop_first() =~= s.drop_first().update(i - 1, p));
        assert(s.update(i, p).first() == s.first());
        assert(s.first().name@ != p.name@);
        assert(partitions_table(s.drop_first()).insert(p.name@, entries_map(p.entries@)).insert(
            s.first().name@,
            entries_map(s.first().entries@),
        ) =~= partitions_table(s.drop_first()).insert(
            s.first().name@,
            entries_map(s.first().entries@),
        ).insert(p.name@, entries_map(p.entries@)));
    }
}

proof fn lemma_names_push(s: Seq<MemPartition>, p: MemPartition)
    ensures
        partition_names(s.push(p)) == partition_names(s).insert(p.name@),
{
    assert forall|c: Seq<char>|
        partition_names(s.push(p)).contains(c) == partition_names(s).insert(p.name@).contains(
            c,
        ) by {
        lemma_names_contains(s.push(p), c);
        lemma_names_contains(s, c);
        if exists|i: int| 0 <= i < s.push(p).len() && s.push(p)[i].name@ == c {
            let i = choose|i: int| 0 <= i < s.push(p).len() && s.push(p)[i].name@ == c;
            if i < s.len() {
                assert(s[i].name@ == c);
            } else {
                assert(c == p.name@);
            }
        }
        if partition_names(s).contains(c) {
            let i = choose|i: int| 0 <= i < s.len() && s[i].name@ == c;
            assert(s.push(p)[i].name@ == c);
        }
        if c == p.name@ {
            assert(s.push(p)[s.len() as int].name@ == c);
        }
    }
    assert(partition_names(s.push(p)) =~= partition_names(s).insert(p.name@));
}

proof fn lemma_names_update(s: Seq<MemPartition>, i: int, p: MemPartition)
    requires
        0 <= i < s.len(),
        p.name@ == s[i].name@,
    ensures
        partition_names(s.update(i, p)) == partition_names(s),
{
    assert forall|c: Seq<char>|
        partition_names(s.update(i, p)).contains(c) == partition_names(s).contains(c) by {
        lemma_names_contains(s.update(i, p), c);
        lemma_names_contains(s, c);
        if exists|j: int| 0 <= j < s.update(i, p).len() && s.update(i, p)[j].name@ == c {
            let j = choose|j: int| 0 <= j < s.update(i, p).len() && s.update(i, p)[j].name@ == c;
            assert(s[j].name@ == c);
        }
        if exists|j: int| 0 <= j < s.len() && s[j].name@ == c {
            let j = choose|j: int| 0 <= j < s.len() && s[j].name@ == c;
            assert(s.update(i, p)[j].name@ == c);
        }
    }
    assert(partition_names(s.update(i, p)) =~= partition_names(s));
}

/// Compare two byte runs for equality of contents.
fn bytes_eq(a: &Vec<u8>, b: &Vec<u8>) -> (r: bool)
    ensures
        r == (a@ == b@),
{
    if a.len() != b.len() {
        return false;
    }
    let mut i: usize = 0;
    while i < a.len()
        invariant
            a@.len() == b@.len(),
            i <= a@.len(),
            forall|j: int| 0 <= j < i ==> a@[j] == b@[j],
        decreases a@.len() - i,
    {
        if a[i] != b[i] {
            return false;
        }
        i = i + 1;
    }
    proof {
        assert(a@ =~= b@);
    }
    true
}

/// Copy a byte run.
fn copy_bytes(src: &Vec<u8>) -> (r: Vec<u8>)
    ensures
        r@ == src@,
{
    let mut out: Vec<u8> = Vec::new();
    let mut i: usize = 0;
    while i < src.len()
        invariant
            i <= src@.len(),
            out@ == src@.subrange(0, i as int),
        decreases src@.len() - i,
    {
        out.push(src[i]);
        i = i + 1;
    }
    proof {
        assert(src@.subrange(0, src@.len() as int) =~= src@);
    }
    out
}

/// The index of the first partition of this name, if any.
fn find_partition(parts: &Vec<MemPartition>, chain_id: &ChainId) -> (r: Option<usize>)
    ensures
        (r matches Some(i) ==> i < parts@.len() && parts@[i as int].name@ == chain_id@ && (forall|
            j: int,
        |
            0 <= j < i ==> parts@[j].name@ != chain_id@)),
        r is None ==> forall|j: int| 0 <= j < parts@.len() ==> parts@[j].name@ != chain_id@,
{
    let mut i: usize = 0;
    while i < parts.len()
        invariant
            i <= parts@.len(),
            forall|j: int| 0 <= j < i ==> parts@[j].name@ != chain_id@,
        decreases parts@.len() - i,
    {
        let p = &parts[i];
        if p.name == *chain_id {
            return Some(i);
        }
        i = i + 1;
    }
    None
}

/// The index of the first entry under this key, if any.
fn find_entry(entries: &Vec<MemEntry>, key: &Address) -> (r: Option<usize>)
    ensures
        (r matches Some(j) ==> j < entries@.len() && entries@[j as int].key@ == key@ && (forall|
            l: int,
        |
            0 <= l < j ==> entries@[l].key@ != key@)),
        r is None ==> forall|l: int| 0 <= l < entries@.len() ==> entries@[l].key@ != key@,
{
    let mut j: usize = 0;
    while j < entries.len()
        invariant
            j <= entries@.len(),
            forall|l: int| 0 <= l < j ==> entries@[l].key@ != key@,
        decreases entries@.len() - j,
    {
        let e = &entries[j];
        if bytes_eq(&e.key, key) {
            return Some(j);
        }
        j = j + 1;
    }
    None
}

/// An in-memory store with the same semantics as an engine-backed one: one
/// partition per chain identifier, a guaranteed default partition, raw
/// bytes under raw keys. It backs callers of the capability in tests and
/// wherever no persistence is wanted.
pub struct MemStore {
    partitions: Vec<MemPartition>,
}

impl MemStore {
    /// A fresh store: exactly the default partition, holding nothing —
    /// what opening a fresh root yields.
    pub fn new() -> (r: MemStore)
        ensures
            r.partitions() == Set::<Seq<char>>::empty().insert("default"@),
            r.table() == Map::<Seq<char>, Map<Seq<u8>, Seq<u8>>>::empty().insert(
                "default"@,
                Map::<Seq<u8>, Seq<u8>>::empty(),
            ),
    {
        let def = MemPartition { name: String::from_str("default"), entries: Vec::new() };
        let mut partitions: Vec<MemPartition> = Vec::new();
        partitions.push(def);
        proof {
            let s = partitions@;
            assert(s.drop_first() =~= Seq::<MemPartition>::empty());
            assert(partitions_table(Seq::<MemPartition>::empty()) =~= Map::<
                Seq<char>,
                Map<Seq<u8>, Seq<u8>>,
            >::empty());
            assert(s.first().entries@ =~= Seq::<MemEntry>::empty());
            assert(entries_map(s.first().entries@) =~= Map::<Seq<u8>, Seq<u8>>::empty());
            assert(partitions_table(s) =~= Map::<Seq<char>, Map<Seq<u8>, Seq<u8>>>::empty().insert(
                "default"@,
                Map::<Seq<u8>, Seq<u8>>::empty(),
            ));
            assert forall|c: Seq<char>|
                partition_names(s).contains(c) == Set::<Seq<char>>::empty().insert(
                    "default"@,
                ).contains(c) by {
                lemma_names_contains(s, c);
                if exists|i: int| 0 <= i < s.len() && s[i].name@ == c {
                    let i = choose|i: int| 0 <= i < s.len() && s[i].name@ == c;
                    assert(c == "default"@);
                }
                if c == "default"@ {
                    assert(0 <= 0 < s.len() && s[0].name@ == c);
                }
            }
            assert(partition_names(s) =~= Set::<Seq<char>>::empty().insert("default"@));
        }
        MemStore { partitions }
    }

    /// Ensure a partition of this name exists, standing for a partition
    /// present in the backing storage: an existing one is left untouched,
    /// a new one starts empty.
    pub fn add_partition(&mut self, name: &ChainId)
        ensures
            final(self).partitions() == old(self).partitions().insert(name@),
            old(self).partitions().contains(name@) ==> final(self).table() == old(self).table(),
            !old(self).partitions().contains(name@) ==> final(self).table() == old(
                self,
            ).table().insert(name@, Map::<Seq<u8>, Seq<u8>>::empty()),
    {
        proof {
            lemma_names_contains(self.partitions@, name@);
        }
        match find_partition(&self.partitions, name) {
            Some(i) => {
                proof {
                    assert(self.partitions@[i as int].name@ == name@);
                    assert(old(self).partitions().contains(name@));
                    assert(old(self).partitions().insert(name@) =~= old(self).partitions());
                }
            },
            None => {
                let p = MemPartition { name: name.clone(), entries: Vec::new() };
                let ghost s0 = self.partitions@;
                let ghost p0 = p;
                self.partitions.push(p);
                proof {
                    assert(self.partitions@ =~= s0.push(p0));
                    lemma_table_push(s0, p0);
                    lemma_names_push(s0, p0);
                    assert(p0.entries@ =~= Seq::<MemEntry>::empty());
                    assert(entries_map(p0.entries@) =~= Map::<Seq<u8>, Seq<u8>>::empty());
                }
            },
        }
    }

    /// Store raw bytes under an address in an existing partition: the
    /// write an external collaborator performs between reads of this
    /// layer. A chain with no partition is rejected and nothing changes.
    pub fn put(&mut self, address: &Address, chain_id: &ChainId, value: Vec<u8>) -> (r: Result<
        (),
        StorageError,
    >)
        ensures
            old(self).partitions().contains(chain_id@) ==> (r == Ok::<(), StorageError>(())
                && final(self).partitions() == old(self).partitions()
                && final(self).table() == old(self).table().insert(
                chain_id@,
                old(self).table()[chain_id@].insert(address@, value@),
            )),
            !old(self).partitions().contains(chain_id@) ==> (r == Err::<(), StorageError>(
                StorageError::PartitionNotFound,
            ) && *final(self) == *old(self)),
    {
        proof {
            lemma_names_contains(self.partitions@, chain_id@);
        }
        match find_partition(&self.partitions, chain_id) {
            None => Err(StorageError::PartitionNotFound),
            Some(i) => {
                proof {
                    assert(self.partitions@[i as int].name@ == chain_id@);
                    assert(old(self).partitions().contains(chain_id@));
                    lemma_table_skip(self.partitions@, i as int, chain_id@);
                    assert(self.partitions@.skip(i as int).first() == self.partitions@[i as int]);
                }
                let ghost s0 = self.partitions@;
                let ghost v0 = value@;
                let mut part = self.partitions.remove(i);
                let ghost e0 = part.entries@;
                match find_entry(&part.entries, address) {
                    Some(j) => {
                        let mut entry = part.entries.remove(j);
                        entry.value = value;
                        let ghost en = entry;
                        part.entries.insert(j, entry);
                        proof {
                            assert(part.entries@ =~= e0.update(j as int, en));
                            lemma_entries_map_update(e0, j as int, en);
                        }
                    },
                    None => {
                        let entry = MemEntry { key: copy_bytes(address), value };
                        let ghost en = entry;
                        part.entries.push(entry);
                        proof {
                            assert(part.entries@ =~= e0.push(en));
                            lemma_entries_map_push(e0, en);
                        }
                    },
                }
                let ghost p1 = part;
                self.partitions.insert(i, part);
                proof {
                    assert(self.partitions@ =~= s0.update(i as int, p1));
                    lemma_table_update(s0, i as int, p1);
                    lemma_names_update(s0, i as int, p1);
                    assert(entries_map(p1.entries@) =~= entries_map(e0).insert(address@, v0));
                    assert(old(self).table()[chain_id@] =~= entries_map(e0));
                }
                Ok(())
            },
        }
    }
}

impl ChainDB for MemStore {
    closed spec fn partitions(&self) -> Set<Seq<char>> {
        partition_names(self.partitions@)
    }

    closed spec fn table(&self) -> Map<Seq<char>, Map<Seq<u8>, Seq<u8>>> {
        partitions_table(self.partitions@)
    }

    fn chain_ids(&self) -> (r: Result<Vec<ChainId>, StorageError>)
        ensures
            r is Ok,
    {
        let mut names: Vec<String> = Vec::new();
        let mut i: usize = 0;
        while i < self.partitions.len()
            invariant
                i <= self.partitions@.len(),
                names@.len() == i,
                forall|j: int| 0 <= j < i ==> names@[j]@ == self.partitions@[j].name@,
            decreases self.partitions@.len() - i,
        {
            let p = &self.partitions[i];
            names.push(p.name.clone());
            i = i + 1;
        }
        proof {
            assert(names@.map_values(|s: String| s@) =~= self.partitions@.map_values(
                |p: MemPartition| p.name@,
            ));
        }
        Ok(names)
    }

    fn get_tx_nonce(&self, address: &Address, chain_id: &ChainId) -> (r: Result<
        u64,
        StorageError,
    >)
        ensures
            r != Err::<u64, StorageError>(StorageError::ReadFailed),
    {
        proof {
            lemma_names_contains(self.partitions@, chain_id@);
        }
        match find_partition(&self.partitions, chain_id) {
            None => Err(StorageError::PartitionNotFound),
            Some(i) => {
                proof {
                    assert(self.partitions@[i as int].name@ == chain_id@);
                    assert(self.partitions().contains(chain_id@));
                    lemma_table_skip(self.partitions@, i as int, chain_id@);
                    assert(self.partitions@.skip(i as int).first() == self.partitions@[i as int]);
                }
                let part = &self.partitions[i];
                match find_entry(&part.entries, address) {
                    None => {
                        proof {
                            lemma_entries_map_skip(
                                part.entries@,
                                part.entries@.len() as int,
                                address@,
                            );
                            assert(part.entries@.skip(part.entries@.len() as int)
                                =~= Seq::<MemEntry>::empty());
                        }
                        Ok(0)
                    },
                    Some(j) => {
                        proof {
                            lemma_entries_map_skip(part.entries@, j as int, address@);
                            assert(part.entries@.skip(j as int).first() == part.entries@[j as int]);
                        }
                        let e = &part.entries[j];
                        decode_nonce_bytes(&e.value)
                    },
                }
            },
        }
    }
}

} // verus!
