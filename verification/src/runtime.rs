//! Runtime memory model for compiled queries.
//!
//! Each in-flight query owns one [`Arena`] — a bump allocator whose
//! whole allocation set is released in one step — and one [`Table`] —
//! an open-chained memoization store.  The arena hands out offsets
//! into its backing buffer; keys and values of the table are opaque
//! machine words, as the C-callable runtime contract passes them.
//! That C-callable export layer itself — raw-pointer shims over these
//! operations for generated native code to link against — belongs to
//! the native build and is not part of this library.
use vstd::prelude::*;

verus! {

/// Offset rounded up to the next multiple of the alignment.
pub open spec fn align_up(offset: int, align: int) -> int
    recommends
        align >= 1,
{
    if offset % align == 0 {
        offset
    } else {
        offset + align - offset % align
    }
}

/// Bump allocator for query execution.
///
/// All allocations during a query come from the arena; resetting or
/// releasing the arena reclaims them all at once.  The running offset
/// never exceeds the fixed capacity, so the sum of all successful
/// allocation sizes, alignment padding included, is bounded by the
/// capacity.
#[derive(Debug)]
pub struct Arena {
    data: Vec<u8>,
    size: usize,
}

impl Arena {
    /// Bytes handed out so far, padding included.
    pub closed spec fn spec_size(&self) -> int {
        self.size as int
    }

    /// Fixed capacity of the backing buffer.
    pub closed spec fn spec_capacity(&self) -> int {
        self.data@.len() as int
    }

    /// The allocator's invariant: the offset stays within capacity.
    pub closed spec fn wf(&self) -> bool {
        self.size <= self.data@.len()
    }

    /// The bound the invariant gives: what was allocated never
    /// exceeds the capacity.
    pub proof fn lemma_size_bounded(&self)
        requires
            self.wf(),
        ensures
            self.spec_size() <= self.spec_capacity(),
    {
    }

    /// A fresh arena: one backing buffer of `capacity` bytes, offset 0.
    pub fn new(capacity: usize) -> (r: Self)
        ensures
            r.wf(),
            r.spec_size() == 0,
            r.spec_capacity() == capacity,
    {
        let mut data: Vec<u8> = Vec::new();
        data.resize(capacity, 0u8);
        Arena { data, size: 0 }
    }

    /// Bytes handed out so far.
    pub fn size(&self) -> (r: usize)
        ensures
            r as int == self.spec_size(),
    {
        self.size
    }

    /// The fixed capacity.
    pub fn capacity(&self) -> (r: usize)
        ensures
            r as int == self.spec_capacity(),
    {
        self.data.len()
    }

    /// Bump-allocate `size` bytes at alignment `align`, returning the
    /// offset of the allocation in the backing buffer.
    ///
    /// The caller must know the allocation fits: exhaustion is not
    /// recoverable mid-query, so a caller that cannot establish the
    /// bound goes through [`Arena::try_allocate`] and aborts the query
    /// when it returns `None`.
    pub fn allocate(&mut self, size: usize, align: usize) -> (r: usize)
        requires
            old(self).wf(),
            align >= 1,
            align_up(old(self).spec_size(), align as int) + size <= old(self).spec_capacity(),
        ensures
            final(self).wf(),
            r as int == align_up(old(self).spec_size(), align as int),
            final(self).spec_size() == r + size,
            final(self).spec_capacity() == old(self).spec_capacity(),
    {
        let rem = self.size % align;
        proof {
            vstd::std_specs::vec::axiom_spec_len(&self.data);
            assert(align_up(self.size as int, align as int) == if rem == 0 {
                self.size as int
            } else {
                self.size as int + (align as int - rem as int)
            });
        }
        let aligned = if rem == 0 {
            self.size
        } else {
            self.size + (align - rem)
        };
        self.size = aligned + size;
        aligned
    }

    /// Bump-allocate if the allocation fits, and report exhaustion —
    /// never a truncated allocation — when it does not.
    pub fn try_allocate(&mut self, size: usize, align: usize) -> (r: Option<usize>)
        requires
            old(self).wf(),
            align >= 1,
        ensures
            final(self).wf(),
            final(self).spec_capacity() == old(self).spec_capacity(),
            if align_up(old(self).spec_size(), align as int) + size <= old(self).spec_capacity() {
                r is Some && r->Some_0 as int == align_up(old(self).spec_size(), align as int)
                    && final(self).spec_size() == r->Some_0 + size
            } else {
                r is None && final(self).spec_size() == old(self).spec_size()
            },
    {
        let rem = self.size % align;
        let pad = if rem == 0 {
            0
        } else {
            align - rem
        };
        proof {
            vstd::std_specs::vec::axiom_spec_len(&self.data);
            assert(align_up(self.size as int, align as int) == self.size as int + pad as int);
        }
        match self.size.checked_add(pad) {
            None => None,
            Some(aligned) => {
                if aligned > self.data.len() {
                    None
                } else if size > self.data.len() - aligned {
                    None
                } else {
                    self.size = aligned + size;
                    Some(aligned)
                }
            },
        }
    }

    /// Wind the offset back to 0 without touching the backing buffer,
    /// so the arena can be reused by the next query without
    /// reallocation.
    pub fn reset(&mut self)
        ensures
            final(self).wf(),
            final(self).spec_size() == 0,
            final(self).spec_capacity() == old(self).spec_capacity(),
    {
        self.size = 0;
    }
}

/// After a reset, an allocation is placed at offset 0.
pub proof fn lemma_align_up_zero(align: int)
    requires
        align >= 1,
    ensures
        align_up(0, align) == 0,
{
}

/// One node of a proof tree: which rule fired, on which relation,
/// with which arguments, and the sub-derivations it rests on.  The
/// tree is owned from the root, so releasing the owning query context
/// reclaims the whole derivation in one step.
#[derive(Debug)]
pub struct ProofNode {
    pub rule_id: u32,
    pub relation_name: String,
    pub arguments: Vec<u64>,
    pub children: Vec<ProofNode>,
}

/// Per-query bundle: one arena and, when explanation tracking is on,
/// the root of the proof tree derived so far.
#[derive(Debug)]
pub struct QueryContext {
    pub arena: Arena,
    pub proof_root: Option<ProofNode>,
    pub track_proofs: bool,
}

impl QueryContext {
    /// A fresh context: one arena of the given capacity and no proof
    /// recorded yet.
    pub fn new(arena_capacity: usize, track_proofs: bool) -> (r: Self)
        ensures
            r.arena.wf(),
            r.arena.spec_size() == 0,
            r.arena.spec_capacity() == arena_capacity,
            r.proof_root is None,
            r.track_proofs == track_proofs,
    {
        QueryContext { arena: Arena::new(arena_capacity), proof_root: None, track_proofs }
    }
}

/// One memoization entry: a key hash and the key and value words.
#[derive(Debug, Clone, Copy, PartialEq, Eq, Structural)]
pub struct TableEntry {
    pub key_hash: u64,
    pub key: u64,
    pub value: u64,
}

/// The bucket a hash falls in.
pub open spec fn bucket_of(key_hash: u64, bucket_count: int) -> int
    recommends
        bucket_count >= 1,
{
    key_hash as int % bucket_count
}

/// First value in a chain whose entry matches both the hash and the
/// key; chains keep the most recent insertion first.
pub open spec fn chain_find(chain: Seq<TableEntry>, key_hash: u64, key: u64) -> Option<u64>
    decreases chain.len(),
{
    if chain.len() == 0 {
        None
    } else if chain[0].key_hash == key_hash && chain[0].key == key {
        Some(chain[0].value)
    } else {
        chain_find(chain.subrange(1, chain.len() as int), key_hash, key)
    }
}

/// What a lookup in a whole bucket array returns.
pub open spec fn table_find(
    buckets: Seq<Seq<TableEntry>>,
    key_hash: u64,
    key: u64,
) -> Option<u64>
    recommends
        buckets.len() >= 1,
{
    chain_find(buckets[bucket_of(key_hash, buckets.len() as int)], key_hash, key)
}

/// Open-chained memoization table with a fixed number of buckets.
/// Inserting prepends to the key's bucket, so a repeated key shadows
/// its older entries; lookup matches an entry only when the hash and
/// the key itself compare equal.
#[derive(Debug)]
pub struct Table {
    buckets: Vec<Vec<TableEntry>>,
    entry_count: usize,
}

impl Table {
    /// The bucket chains, most recent entry first.
    pub closed spec fn spec_buckets(&self) -> Seq<Seq<TableEntry>> {
        Seq::new(self.buckets@.len(), |i: int| self.buckets@[i]@)
    }

    /// The number of buckets.
    pub closed spec fn spec_bucket_count(&self) -> int {
        self.buckets@.len() as int
    }

    /// How many entries were inserted (saturating).
    pub closed spec fn spec_entry_count(&self) -> int {
        self.entry_count as int
    }

    /// The table's invariant: at least one bucket.
    pub closed spec fn wf(&self) -> bool {
        self.buckets@.len() >= 1
    }

    /// The model sequence has one chain per bucket: its length is the
    /// bucket count.
    pub proof fn lemma_buckets_len(&self)
        ensures
            self.spec_buckets().len() == self.spec_bucket_count(),
    {
    }

    /// A fresh table with `bucket_count` empty buckets.
    pub fn new(bucket_count: usize) -> (r: Self)
        requires
            bucket_count >= 1,
        ensures
            r.wf(),
            r.spec_bucket_count() == bucket_count,
            r.spec_buckets().len() == bucket_count,
            r.spec_entry_count() == 0,
            forall|b: int|
                0 <= b < bucket_count ==> (#[trigger] r.spec_buckets()[b]) == Seq::<
                    TableEntry,
                >::empty(),
    {
        let mut buckets: Vec<Vec<TableEntry>> = Vec::new();
        let mut i: usize = 0;
        while i < bucket_count
            invariant
                i <= bucket_count,
                buckets@.len() == i,
                forall|b: int| 0 <= b < i ==> (#[trigger] buckets@[b])@.len() == 0,
            decreases bucket_count - i,
        {
            buckets.push(Vec::new());
            i = i + 1;
        }
        let r = Table { buckets, entry_count: 0 };
        proof {
            assert forall|b: int| 0 <= b < bucket_count implies (#[trigger] r.spec_buckets()[b])
                == Seq::<TableEntry>::empty() by {
                assert(r.spec_buckets()[b] =~= Seq::<TableEntry>::empty());
            }
        }
        r
    }

    /// The number of buckets.
    pub fn bucket_count(&self) -> (r: usize)
        ensures
            r as int == self.spec_bucket_count(),
    {
        self.buckets.len()
    }

    /// How many entries were inserted.
    pub fn entry_count(&self) -> (r: usize)
        ensures
            r as int == self.spec_entry_count(),
    {
        self.entry_count
    }

    /// Prepend an entry to its key's bucket, shadowing any older entry
    /// with the same key.
    pub fn insert(&mut self, key_hash: u64, key: u64, value: u64)
        requires
            old(self).wf(),
        ensures
            final(self).wf(),
            final(self).spec_bucket_count() == old(self).spec_bucket_count(),
            final(self).spec_buckets().len() == old(self).spec_buckets().len(),
            ({
                let b = bucket_of(key_hash, old(self).spec_bucket_count());
                final(self).spec_buckets() == old(self).spec_buckets().update(
                    b,
                    seq![TableEntry { key_hash, key, value }] + old(self).spec_buckets()[b],
                )
            }),
            final(self).spec_entry_count() == if old(self).spec_entry_count() == usize::MAX as int {
                usize::MAX as int
            } else {
                old(self).spec_entry_count() + 1
            },
    {
        let ghost buckets0 = self.spec_buckets();
        let n = self.buckets.len();
        let bucket_idx = (key_hash % (n as u64)) as usize;
        proof {
            assert(key_hash % (n as u64) < n as u64);
            assert(bucket_idx as int == bucket_of(key_hash, n as int));
        }
        let entry = TableEntry { key_hash, key, value };
        let mut chain = self.buckets.remove(bucket_idx);
        chain.insert(0, entry);
        self.buckets.insert(bucket_idx, chain);
        self.entry_count = self.entry_count.saturating_add(1);
        proof {
            let b = bucket_idx as int;
            assert(self.buckets@[b]@ =~= seq![entry] + buckets0[b]);
            assert forall|j: int| 0 <= j < n && j != b implies self.buckets@[j] == old(
                self,
            ).buckets@[j] by {
                if j < b {
                    assert(self.buckets@[j] == old(self).buckets@.remove(b)[j]);
                } else {
                    assert(self.buckets@[j] == old(self).buckets@.remove(b)[j - 1]);
                }
            }
            assert(self.spec_buckets() =~= buckets0.update(b, seq![entry] + buckets0[b]));
        }
    }

    /// Walk the key's bucket and return the value of the first entry
    /// whose hash matches and whose key compares equal — the most
    /// recently inserted match, if any.
    #[verifier::loop_isolation(false)]
    pub fn lookup(&self, key_hash: u64, key: u64) -> (r: Option<u64>)
        requires
            self.wf(),
        ensures
            r == table_find(self.spec_buckets(), key_hash, key),
    {
        let n = self.buckets.len();
        let bucket_idx = (key_hash % (n as u64)) as usize;
        proof {
            assert(key_hash % (n as u64) < n as u64);
            assert(bucket_idx as int == bucket_of(key_hash, n as int));
        }
        let chain = &self.buckets[bucket_idx];
        let ghost chainv = self.spec_buckets()[bucket_idx as int];
        proof {
            assert(chainv.subrange(0, chainv.len() as int) =~= chainv);
        }
        let mut i: usize = 0;
        while i < chain.len()
            invariant
                i <= chain.len(),
                chainv == chain@,
                chain_find(chainv, key_hash, key) == chain_find(
                    chainv.subrange(i as int, chainv.len() as int),
                    key_hash,
                    key,
                ),
            decreases chain.len() - i,
        {
            let ghost rest = chainv.subrange(i as int, chainv.len() as int);
            if chain[i].key_hash == key_hash && chain[i].key == key {
                proof {
                    assert(rest[0] == chainv[i as int]);
                }
                return Some(chain[i].value);
            }
            proof {
                assert(rest[0] == chainv[i as int]);
                assert(rest.subrange(1, rest.len() as int) =~= chainv.subrange(
                    i as int + 1,
                    chainv.len() as int,
                ));
            }
            i = i + 1;
        }
        proof {
            assert(chainv.subrange(chainv.len() as int, chainv.len() as int) =~= Seq::<
                TableEntry,
            >::empty());
        }
        None
    }
}

// ------------------------------------------------------------------
// Laws of the table.
// ------------------------------------------------------------------

/// Looking up the key just inserted returns the value just inserted:
/// the most recent insertion shadows every older entry for that key.
pub proof fn lemma_insert_then_lookup_same(
    buckets: Seq<Seq<TableEntry>>,
    key_hash: u64,
    key: u64,
    value: u64,
)
    requires
        buckets.len() >= 1,
    ensures
        ({
            let b = bucket_of(key_hash, buckets.len() as int);
            let after = buckets.update(
                b,
                seq![TableEntry { key_hash, key, value }] + buckets[b],
            );
            table_find(after, key_hash, key) == Some(value)
        }),
{
    let b = bucket_of(key_hash, buckets.len() as int);
    let chain = seq![TableEntry { key_hash, key, value }] + buckets[b];
    assert(chain[0] == TableEntry { key_hash, key, value });
}

/// Inserting one key leaves every lookup of a different key — by hash
/// or by key word — unchanged.
pub proof fn lemma_insert_preserves_others(
    buckets: Seq<Seq<TableEntry>>,
    key_hash: u64,
    key: u64,
    value: u64,
    other_hash: u64,
    other_key: u64,
)
    requires
        buckets.len() >= 1,
        !(other_hash == key_hash && other_key == key),
    ensures
        ({
            let b = bucket_of(key_hash, buckets.len() as int);
            let after = buckets.update(
                b,
                seq![TableEntry { key_hash, key, value }] + buckets[b],
            );
            table_find(after, other_hash, other_key) == table_find(buckets, other_hash, other_key)
        }),
{
    let n = buckets.len() as int;
    let b = bucket_of(key_hash, n);
    let ob = bucket_of(other_hash, n);
    let chain = seq![TableEntry { key_hash, key, value }] + buckets[b];
    if ob == b {
        assert(chain[0] == TableEntry { key_hash, key, value });
        assert(chain.subrange(1, chain.len() as int) =~= buckets[b]);
    }
}

} // verus!
