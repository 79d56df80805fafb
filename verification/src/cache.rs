//! The buffer cache: a bounded mapping from (device, block number) to a
//! cached block, with least-recently-used eviction.
//!
//! The blocks live in a vector ordered by recency (least recently used
//! first); a `hashbrown` hash map indexes each key to its slot. The map is
//! outside code, so its contents are named by the uninterpreted function
//! [`key_slots`] and reached only through small trusted wrappers whose
//! contracts state what the crate's source shows.

use vstd::prelude::*;
use crate::buf::{
    buf_key, copy_data, flag_dirty, flag_valid, lemma_flags_mark_dirty, Buf, B_DIRTY, B_SIZE,
    B_VALID,
};
use crate::ide::{Ide, IdeCommand, IdeError};

verus! {

/// Declares hashbrown's hash map for the verifier; values of it are
/// opaque and reached only through the wrappers below.
#[verifier::external_type_specification]
#[verifier::external_body]
#[verifier::reject_recursive_types(K)]
#[verifier::reject_recursive_types(V)]
#[verifier::reject_recursive_types(S)]
pub struct ExHashMap<K, V, S>(hashbrown::HashMap<K, V, S>);

/// Declares hashbrown's default hash builder, the hasher state behind
/// each map; nothing is assumed of it.
#[verifier::external_type_specification]
#[verifier::external_body]
pub struct ExDefaultHashBuilder(hashbrown::hash_map::DefaultHashBuilder);

/// The contents of a key-to-slot hash map.
pub uninterp spec fn key_slots(m: hashbrown::HashMap<u64, usize>) -> Map<u64, usize>;

/// Relies on hashbrown::HashMap::new: the new map is empty.
#[verifier::external_body]
fn hm_new() -> (m: hashbrown::HashMap<u64, usize>)
    ensures
        forall|k: u64| !key_slots(m).dom().contains(k),
{
    hashbrown::HashMap::new()
}

/// Relies on hashbrown::HashMap::get: returns the value stored at `k`, if
/// any.
#[verifier::external_body]
fn hm_get(m: &hashbrown::HashMap<u64, usize>, k: u64) -> (r: Option<usize>)
    ensures
        r == if key_slots(*m).dom().contains(k) {
            Some(key_slots(*m)[k])
        } else {
            None::<usize>
        },
{
    m.get(&k).copied()
}

/// Relies on hashbrown::HashMap::insert: afterwards the map holds exactly
/// the old entries and `k` mapped to `v`; the old value at `k`, if any, is
/// returned.
#[verifier::external_body]
fn hm_insert(m: &mut hashbrown::HashMap<u64, usize>, k: u64, v: usize) -> (r: Option<usize>)
    ensures
        key_slots(*final(m)) == key_slots(*old(m)).insert(k, v),
        r == if key_slots(*old(m)).dom().contains(k) {
            Some(key_slots(*old(m))[k])
        } else {
            None::<usize>
        },
{
    m.insert(k, v)
}

/// No key occurs twice.
pub open spec fn distinct_keys(keys: Seq<u64>) -> bool {
    forall|i: int, j: int| 0 <= i < j < keys.len() ==> keys[i] != keys[j]
}

/// The position of key `k` in the recency order.
pub open spec fn key_pos(keys: Seq<u64>, k: u64) -> int {
    choose|i: int| 0 <= i < keys.len() && keys[i] == k
}

/// `keys` with `k` moved to most recently used.
pub open spec fn promote_key(keys: Seq<u64>, k: u64) -> Seq<u64> {
    keys.remove(key_pos(keys, k)).push(k)
}

/// The recency order after one access of key `k` in a cache of capacity
/// `cap`: a present key is promoted; an absent key is appended, evicting
/// the least recently used key when the cache is full.
pub open spec fn touch_keys(keys: Seq<u64>, k: u64, cap: int) -> Seq<u64> {
    if keys.contains(k) {
        promote_key(keys, k)
    } else if keys.len() < cap {
        keys.push(k)
    } else {
        keys.skip(1).push(k)
    }
}

/// With distinct keys, the position of a key present at `p` is `p`.
pub proof fn lemma_key_pos(keys: Seq<u64>, k: u64, p: int)
    requires
        distinct_keys(keys),
        0 <= p < keys.len(),
        keys[p] == k,
    ensures
        key_pos(keys, k) == p,
{
    assert(0 <= p < keys.len() && keys[p] == k);
    let i = key_pos(keys, k);
    if i < p {
        assert(keys[i] != keys[p]);
    } else if p < i {
        assert(keys[p] != keys[i]);
    }
}

/// Capacity law: one access never pushes the number of live keys beyond
/// the capacity, and an access of a new key in a full cache evicts exactly
/// the least recently used key, the first in the recency order.
pub proof fn lemma_cache_capacity(keys: Seq<u64>, k: u64, cap: int)
    requires
        distinct_keys(keys),
        keys.len() <= cap,
        cap > 0,
    ensures
        touch_keys(keys, k, cap).len() <= cap,
        keys.len() == cap && !keys.contains(k) ==> touch_keys(keys, k, cap) == keys.skip(1).push(
            k,
        ),
{
    if keys.contains(k) {
        // materialize the witness behind `contains`, so that `key_pos`
        // lies in range and the removal keeps the length
        let _w = choose|i: int| 0 <= i < keys.len() && keys[i] == k;
        assert(0 <= key_pos(keys, k) < keys.len());
    }
}

/// The recency order after a run of accesses, first access first.
pub open spec fn touch_all(keys: Seq<u64>, accesses: Seq<u64>, cap: int) -> Seq<u64>
    decreases accesses.len(),
{
    if accesses.len() == 0 {
        keys
    } else {
        touch_all(touch_keys(keys, accesses[0], cap), accesses.skip(1), cap)
    }
}

/// One access of another key `a` keeps a cached key `k` cached as long as
/// `k` is not the one evicted, and moves `k` at most one step towards the
/// least recently used end, measured as position plus free room.
proof fn lemma_touch_step(keys: Seq<u64>, k: u64, a: u64, cap: int)
    requires
        distinct_keys(keys),
        keys.len() <= cap,
        keys.contains(k),
        a != k,
        key_pos(keys, k) + cap - keys.len() >= 1,
    ensures
        distinct_keys(touch_keys(keys, a, cap)),
        touch_keys(keys, a, cap).len() <= cap,
        touch_keys(keys, a, cap).contains(k),
        key_pos(touch_keys(keys, a, cap), k) + cap - touch_keys(keys, a, cap).len() >= key_pos(
            keys,
            k,
        ) + cap - keys.len() - 1,
{
    let _w = choose|i: int| 0 <= i < keys.len() && keys[i] == k;
    let pk = key_pos(keys, k);
    assert(0 <= pk < keys.len() && keys[pk] == k);
    let after = touch_keys(keys, a, cap);
    if keys.contains(a) {
        let _wa = choose|i: int| 0 <= i < keys.len() && keys[i] == a;
        let pa = key_pos(keys, a);
        assert(0 <= pa < keys.len() && keys[pa] == a);
        let rm = keys.remove(pa);
        assert(after == rm.push(a));
        assert forall|x: int, y: int| 0 <= x < y < after.len() implies after[x] != after[y] by {
            if y < after.len() - 1 {
                assert(after[x] == if x < pa {
                    keys[x]
                } else {
                    keys[x + 1]
                });
                assert(after[y] == if y < pa {
                    keys[y]
                } else {
                    keys[y + 1]
                });
            } else {
                assert(after[y] == a);
                assert(after[x] == if x < pa {
                    keys[x]
                } else {
                    keys[x + 1]
                });
            }
        }
        let q: int = if pk < pa {
            pk
        } else {
            pk - 1
        };
        assert(after[q] == k);
        lemma_key_pos(after, k, q);
    } else if keys.len() < cap {
        assert(after == keys.push(a));
        assert forall|x: int, y: int| 0 <= x < y < after.len() implies after[x] != after[y] by {
            if y == after.len() - 1 {
                if keys[x] == a {
                    assert(keys.contains(a));
                }
            }
        }
        assert(after[pk] == k);
        lemma_key_pos(after, k, pk);
    } else {
        assert(after == keys.skip(1).push(a));
        assert(pk >= 1);
        assert forall|x: int, y: int| 0 <= x < y < after.len() implies after[x] != after[y] by {
            if y < after.len() - 1 {
                assert(after[x] == keys[x + 1] && after[y] == keys[y + 1]);
            } else {
                assert(after[y] == a);
                assert(after[x] == keys[x + 1]);
                if keys[x + 1] == a {
                    assert(keys.contains(a));
                }
            }
        }
        assert(after[pk - 1] == k);
        lemma_key_pos(after, k, pk - 1);
    }
}

/// Recency law: right after key `k` was accessed, so that it is most
/// recently used, a run of fewer than `cap` accesses of other keys never
/// evicts `k`.
pub proof fn lemma_recency(keys: Seq<u64>, k: u64, accesses: Seq<u64>, cap: int)
    requires
        distinct_keys(keys),
        0 < keys.len() <= cap,
        keys.last() == k,
        forall|i: int| 0 <= i < accesses.len() ==> accesses[i] != k,
        accesses.len() < cap,
    ensures
        touch_all(keys, accesses, cap).contains(k),
{
    lemma_key_pos(keys, k, keys.len() - 1);
    assert(keys.contains(k));
    lemma_recency_aux(keys, k, accesses, cap);
}

/// Induction for the recency law: `k` stays cached while its position
/// plus the cache's free room still covers the accesses left.
proof fn lemma_recency_aux(keys: Seq<u64>, k: u64, accesses: Seq<u64>, cap: int)
    requires
        distinct_keys(keys),
        keys.len() <= cap,
        keys.contains(k),
        forall|i: int| 0 <= i < accesses.len() ==> accesses[i] != k,
        key_pos(keys, k) + cap - keys.len() >= accesses.len(),
    ensures
        touch_all(keys, accesses, cap).contains(k),
    decreases accesses.len(),
{
    if accesses.len() > 0 {
        let a = accesses[0];
        lemma_touch_step(keys, k, a, cap);
        lemma_recency_aux(touch_keys(keys, a, cap), k, accesses.skip(1), cap);
    }
}

/// Bounded key-to-block mapping with a recency order over the live keys.
pub struct BufCache {
    /// Key-to-slot index of the cached blocks.
    pub cache: hashbrown::HashMap<u64, usize>,
    /// The cached blocks, least recently used first.
    pub bufs: Vec<Buf>,
    /// Maximum number of cached blocks.
    pub capacity: usize,
}

impl BufCache {
    /// The cache keys, least recently used first.
    pub open spec fn rkeys(self) -> Seq<u64> {
        Seq::new(self.bufs@.len(), |i: int| self.bufs@[i].key())
    }

    /// The cache holds at most `capacity` blocks, each well formed, keys
    /// are distinct, and the hash map indexes exactly the live keys by
    /// their slots.
    pub open spec fn wf(self) -> bool {
        &&& self.capacity > 0
        &&& self.bufs@.len() <= self.capacity
        &&& forall|i: int| 0 <= i < self.bufs@.len() ==> (#[trigger] self.bufs@[i]).wf()
        &&& forall|i: int, j: int|
            0 <= i < j < self.bufs@.len() ==> self.bufs@[i].key() != self.bufs@[j].key()
        &&& forall|i: int|
            0 <= i < self.bufs@.len() ==> key_slots(self.cache).dom().contains(
                (#[trigger] self.bufs@[i]).key(),
            ) && key_slots(self.cache)[self.bufs@[i].key()] == i
        &&& forall|k: u64|
            key_slots(self.cache).dom().contains(k) ==> #[trigger] self.rkeys().contains(k)
    }

    /// An empty cache with the given capacity.
    pub fn new(capacity: usize) -> (c: BufCache)
        requires
            capacity > 0,
        ensures
            c.wf(),
            c.bufs@.len() == 0,
            c.capacity == capacity,
    {
        let c = BufCache { cache: hm_new(), bufs: Vec::new(), capacity };
        proof {
            assert(c.rkeys() =~= Seq::<u64>::empty());
        }
        c
    }

    /// Rebuilds the key-to-slot index from the block vector.
    fn rebuild_index(&mut self)
        requires
            forall|i: int, j: int|
                0 <= i < j < old(self).bufs@.len() ==> old(self).bufs@[i].key()
                    != old(self).bufs@[j].key(),
        ensures
            final(self).bufs@ == old(self).bufs@,
            final(self).capacity == old(self).capacity,
            forall|i: int|
                0 <= i < final(self).bufs@.len() ==> key_slots(final(self).cache).dom().contains(
                    (#[trigger] final(self).bufs@[i]).key(),
                ) && key_slots(final(self).cache)[final(self).bufs@[i].key()] == i,
            forall|k: u64|
                key_slots(final(self).cache).dom().contains(k) ==> #[trigger] final(
                    self).rkeys().contains(k),
    {
        self.cache = hm_new();
        let ghost s = self.bufs@;
        let ghost cap = self.capacity;
        let mut j: usize = 0;
        while j < self.bufs.len()
            invariant
                j <= self.bufs.len(),
                self.bufs@ == s,
                self.capacity == cap,
                forall|i: int, j2: int| 0 <= i < j2 < s.len() ==> s[i].key() != s[j2].key(),
                forall|i: int|
                    0 <= i < j ==> key_slots(self.cache).dom().contains((#[trigger] s[i]).key())
                        && key_slots(self.cache)[s[i].key()] == i,
                forall|k: u64|
                    key_slots(self.cache).dom().contains(k) ==> exists|i: int|
                        0 <= i < j && s[i].key() == k,
            decreases self.bufs.len() - j,
        {
            let b = &self.bufs[j];
            let k = crate::buf::make_key(b.dev, b.blockno);
            hm_insert(&mut self.cache, k, j);
            j += 1;
        }
        proof {
            assert forall|k: u64| key_slots(self.cache).dom().contains(k) implies #[trigger] self.rkeys().contains(k) by {
                let i = choose|i: int| 0 <= i < s.len() && s[i].key() == k;
                assert(self.rkeys()[i] == k);
            }
        }
    }

    /// Looks the key up and, when it is cached, promotes it to most
    /// recently used and returns its slot, which is then the last one.
    pub fn get(&mut self, dev: u32, blockno: usize) -> (r: Option<usize>)
        requires
            old(self).wf(),
            blockno <= u32::MAX,
        ensures
            final(self).wf(),
            final(self).capacity == old(self).capacity,
            !old(self).rkeys().contains(buf_key(dev, blockno)) ==> r is None && *final(self)
                == *old(self),
            old(self).rkeys().contains(buf_key(dev, blockno)) ==> {
                let i = key_pos(old(self).rkeys(), buf_key(dev, blockno));
                &&& final(self).bufs@ == old(self).bufs@.remove(i).push(old(self).bufs@[i])
                &&& final(self).rkeys() == touch_keys(
                    old(self).rkeys(),
                    buf_key(dev, blockno),
                    old(self).capacity as int,
                )
                &&& r == Some((final(self).bufs@.len() - 1) as usize)
            },
    {
        let ghost pre = *self;
        let k = crate::buf::make_key(dev, blockno);
        match hm_get(&self.cache, k) {
            None => {
                proof {
                    if pre.rkeys().contains(k) {
                        let i = choose|i: int| 0 <= i < pre.rkeys().len() && pre.rkeys()[i] == k;
                        assert(pre.bufs@[i].key() == k);
                        assert(key_slots(pre.cache).dom().contains(k));
                    }
                }
                None
            },
            Some(slot) => {
                proof {
                    assert(key_slots(pre.cache).dom().contains(k));
                    assert(pre.rkeys().contains(k));
                    let i = choose|i: int| 0 <= i < pre.rkeys().len() && pre.rkeys()[i] == k;
                    assert(pre.bufs@[i].key() == k);
                    assert(key_slots(pre.cache)[pre.bufs@[i].key()] == i);
                    assert(slot == i);
                    assert(distinct_keys(pre.rkeys()));
                    lemma_key_pos(pre.rkeys(), k, i);
                }
                let b = self.bufs.remove(slot);
                self.bufs.push(b);
                proof {
                    let s = pre.bufs@;
                    let i = slot as int;
                    let t = self.bufs@;
                    assert(t == s.remove(i).push(s[i]));
                    assert forall|a: int, c: int| 0 <= a < c < t.len() implies t[a].key()
                        != t[c].key() by {
                        assert(t[a] == if a < i {
                            s[a]
                        } else if a < s.len() - 1 {
                            s[a + 1]
                        } else {
                            s[i]
                        });
                        assert(t[c] == if c < i {
                            s[c]
                        } else if c < s.len() - 1 {
                            s[c + 1]
                        } else {
                            s[i]
                        });
                    }
                }
                self.rebuild_index();
                proof {
                    assert(self.rkeys() =~= promote_key(pre.rkeys(), k));
                }
                Some(self.bufs.len() - 1)
            },
        }
    }

    /// Inserts a block under a key not yet cached, as most recently used.
    /// At capacity, the least recently used block is first evicted and
    /// discarded; no write-back happens at eviction, so a caller must not
    /// keep a dirty block cached under pressure without writing it first.
    pub fn put(&mut self, b: Buf)
        requires
            old(self).wf(),
            b.wf(),
            !old(self).rkeys().contains(b.key()),
        ensures
            final(self).wf(),
            final(self).capacity == old(self).capacity,
            old(self).bufs@.len() < old(self).capacity ==> final(self).bufs@ == old(
                self,
            ).bufs@.push(b),
            old(self).bufs@.len() == old(self).capacity ==> final(self).bufs@ == old(
                self,
            ).bufs@.skip(1).push(b),
            final(self).rkeys() == touch_keys(
                old(self).rkeys(),
                b.key(),
                old(self).capacity as int,
            ),
    {
        let ghost pre = *self;
        if self.bufs.len() == self.capacity {
            let victim = self.bufs.remove(0);
            self.bufs.push(b);
            proof {
                let s = pre.bufs@;
                let t = self.bufs@;
                assert(t == s.remove(0).push(b));
                assert(s.remove(0) =~= s.skip(1));
                assert forall|a: int, c: int| 0 <= a < c < t.len() implies t[a].key()
                    != t[c].key() by {
                    if c < t.len() - 1 {
                        assert(t[a] == s[a + 1] && t[c] == s[c + 1]);
                    } else {
                        assert(t[a] == s[a + 1] && t[c] == b);
                        assert(pre.rkeys()[a + 1] == s[a + 1].key());
                        assert(!pre.rkeys().contains(b.key()));
                        if s[a + 1].key() == b.key() {
                            assert(pre.rkeys().contains(b.key()));
                        }
                    }
                }
            }
            self.rebuild_index();
            proof {
                assert(self.rkeys() =~= pre.rkeys().skip(1).push(b.key()));
            }
        } else {
            self.bufs.push(b);
            proof {
                let s = pre.bufs@;
                let t = self.bufs@;
                assert forall|a: int, c: int| 0 <= a < c < t.len() implies t[a].key()
                    != t[c].key() by {
                    if c == t.len() - 1 {
                        assert(pre.rkeys()[a] == s[a].key());
                        if s[a].key() == b.key() {
                            assert(pre.rkeys().contains(b.key()));
                        }
                    }
                }
            }
            self.rebuild_index();
            proof {
                assert(self.rkeys() =~= pre.rkeys().push(b.key()));
            }
        }
    }

    /// Returns the slot of the cached block for the key, promoting it to
    /// most recently used; a key not yet cached gets a fresh, zero-filled,
    /// invalid block, evicting the least recently used block when the
    /// cache is full. The returned slot is always the last one.
    pub fn buf_get(&mut self, dev: u32, blockno: usize) -> (slot: usize)
        requires
            old(self).wf(),
            blockno <= u32::MAX,
        ensures
            final(self).wf(),
            final(self).capacity == old(self).capacity,
            slot + 1 == final(self).bufs@.len(),
            final(self).rkeys() == touch_keys(
                old(self).rkeys(),
                buf_key(dev, blockno),
                old(self).capacity as int,
            ),
            final(self).rkeys().last() == buf_key(dev, blockno),
            final(self).bufs@[slot as int].dev == dev,
            final(self).bufs@[slot as int].blockno == blockno,
            old(self).rkeys().contains(buf_key(dev, blockno)) ==> {
                let i = key_pos(old(self).rkeys(), buf_key(dev, blockno));
                final(self).bufs@ == old(self).bufs@.remove(i).push(old(self).bufs@[i])
            },
            !old(self).rkeys().contains(buf_key(dev, blockno)) ==> {
                &&& final(self).bufs@[slot as int].flags == 0
                &&& forall|i: int|
                    0 <= i < crate::buf::B_SIZE ==> final(self).bufs@[slot as int].data@[i] == 0
                &&& old(self).bufs@.len() < old(self).capacity ==> final(self).bufs@.drop_last()
                    == old(self).bufs@
                &&& old(self).bufs@.len() == old(self).capacity ==> final(self).bufs@.drop_last()
                    == old(self).bufs@.skip(1)
            },
    {
        match self.get(dev, blockno) {
            Some(slot) => {
                proof {
                    let e = self.bufs@[slot as int];
                    assert(e.key() == buf_key(dev, blockno));
                    crate::buf::lemma_buf_key_injective(e.dev, e.blockno, dev, blockno);
                }
                slot
            },
            None => {
                let nb = Buf::new(dev, blockno);
                self.put(nb);
                proof {
                    if old(self).bufs@.len() < old(self).capacity {
                        assert(self.bufs@.drop_last() =~= old(self).bufs@);
                    } else {
                        assert(self.bufs@.drop_last() =~= old(self).bufs@.skip(1));
                    }
                }
                self.bufs.len() - 1
            },
        }
    }

    /// Puts a buffer handed back by the driver's completion into its cache
    /// entry. An entry evicted in the meantime is gone: the buffer is then
    /// discarded and the cache is unchanged. Recency is not touched.
    pub fn install(&mut self, b: Buf)
        requires
            old(self).wf(),
            b.wf(),
        ensures
            final(self).wf(),
            final(self).capacity == old(self).capacity,
            final(self).rkeys() == old(self).rkeys(),
            !old(self).rkeys().contains(b.key()) ==> *final(self) == *old(self),
            old(self).rkeys().contains(b.key()) ==> final(self).bufs@ == old(self).bufs@.update(
                key_pos(old(self).rkeys(), b.key()),
                b,
            ),
    {
        let ghost pre = *self;
        let k = crate::buf::make_key(b.dev, b.blockno);
        match hm_get(&self.cache, k) {
            None => {
                proof {
                    if pre.rkeys().contains(k) {
                        let i = choose|i: int| 0 <= i < pre.rkeys().len() && pre.rkeys()[i] == k;
                        assert(pre.bufs@[i].key() == k);
                        assert(key_slots(pre.cache).dom().contains(k));
                    }
                }
            },
            Some(slot) => {
                proof {
                    assert(key_slots(pre.cache).dom().contains(k));
                    assert(pre.rkeys().contains(k));
                    let i = choose|i: int| 0 <= i < pre.rkeys().len() && pre.rkeys()[i] == k;
                    assert(pre.bufs@[i].key() == k);
                    assert(key_slots(pre.cache)[pre.bufs@[i].key()] == i);
                    assert(slot == i);
                    lemma_key_pos(pre.rkeys(), k, i);
                }
                self.bufs.set(slot, b);
                proof {
                    assert(self.rkeys() =~= pre.rkeys());
                }
            },
        }
    }

    /// Returns the cached block for the key when it is already valid;
    /// otherwise enqueues a transfer request with the driver to populate
    /// it. The caller runs the returned command, reports the completion to
    /// the driver and puts the finished buffer back with
    /// [`BufCache::install`]; a fresh read then finds the block valid.
    pub fn buf_read(&mut self, ide: &mut Ide, dev: u32, blockno: usize) -> (r: Result<
        ReadStep,
        IdeError,
    >)
        requires
            old(self).wf(),
            old(ide).wf(),
            blockno <= u32::MAX,
        ensures
            final(self).wf(),
            final(ide).wf(),
            final(self).capacity == old(self).capacity,
            final(self).rkeys() == touch_keys(
                old(self).rkeys(),
                buf_key(dev, blockno),
                old(self).capacity as int,
            ),
            final(self).bufs@.len() > 0,
            final(self).bufs@.last().dev == dev && final(self).bufs@.last().blockno == blockno,
            flag_valid(final(self).bufs@.last().flags) ==> r == Ok::<ReadStep, IdeError>(
                ReadStep::Ready((final(self).bufs@.len() - 1) as usize),
            ) && *final(ide) == *old(ide),
            !flag_valid(final(self).bufs@.last().flags) ==> {
                let e = final(self).bufs@.last();
                &&& dev != 0 && !old(ide).havedisk1 ==> r == Err::<ReadStep, IdeError>(
                    IdeError::DeviceAbsent,
                ) && *final(ide) == *old(ide)
                &&& !(dev != 0 && !old(ide).havedisk1) && blockno >= crate::buf::FS_SIZE ==> r
                    == Err::<ReadStep, IdeError>(IdeError::OutOfRange) && *final(ide) == *old(ide)
                &&& !(dev != 0 && !old(ide).havedisk1) && blockno < crate::buf::FS_SIZE ==> {
                    &&& final(ide).queue@.len() == old(ide).queue@.len() + 1
                    &&& final(ide).queue@.drop_last() == old(ide).queue@
                    &&& final(ide).queue@.last().dev == dev
                    &&& final(ide).queue@.last().blockno == blockno
                    &&& final(ide).queue@.last().flags == e.flags
                    &&& final(ide).queue@.last().data@ == e.data@
                    &&& final(ide).busy
                    &&& old(ide).busy ==> r == Ok::<ReadStep, IdeError>(ReadStep::Queued)
                    &&& !old(ide).busy ==> (r matches Ok(ReadStep::Start(cmd))
                        && crate::ide::command_matches(cmd, final(ide).queue@.last()))
                }
            },
    {
        let slot = self.buf_get(dev, blockno);
        let e = &self.bufs[slot];
        if e.flags & B_VALID != 0 {
            return Ok(ReadStep::Ready(slot));
        }
        let rb = Buf { dev: e.dev, blockno: e.blockno, flags: e.flags, data: copy_data(&e.data) };
        proof {
            assert(rb.wf());
        }
        match ide.request(rb) {
            Ok(Some(cmd)) => {
                proof {
                    assert(final(ide).queue@.drop_last() =~= old(ide).queue@);
                }
                Ok(ReadStep::Start(cmd))
            },
            Ok(None) => {
                proof {
                    assert(final(ide).queue@.drop_last() =~= old(ide).queue@);
                }
                Ok(ReadStep::Queued)
            },
            Err(err) => Err(err),
        }
    }

    /// Stores the payload under the key, marks the block dirty and issues
    /// the write request with the driver: every write is synchronous, with
    /// no deferred write-back. The caller finishes it like a read.
    pub fn buf_write(&mut self, ide: &mut Ide, dev: u32, blockno: usize, data: Vec<u8>) -> (r:
        Result<Option<IdeCommand>, IdeError>)
        requires
            old(self).wf(),
            old(ide).wf(),
            blockno <= u32::MAX,
            data@.len() == B_SIZE,
        ensures
            final(self).wf(),
            final(ide).wf(),
            final(self).capacity == old(self).capacity,
            final(self).rkeys() == touch_keys(
                old(self).rkeys(),
                buf_key(dev, blockno),
                old(self).capacity as int,
            ),
            final(self).bufs@.len() > 0,
            final(self).bufs@.last().dev == dev && final(self).bufs@.last().blockno == blockno,
            final(self).bufs@.last().data@ == data@,
            flag_dirty(final(self).bufs@.last().flags),
            dev != 0 && !old(ide).havedisk1 ==> r == Err::<Option<IdeCommand>, IdeError>(
                IdeError::DeviceAbsent,
            ) && *final(ide) == *old(ide),
            !(dev != 0 && !old(ide).havedisk1) && blockno >= crate::buf::FS_SIZE ==> r == Err::<
                Option<IdeCommand>,
                IdeError,
            >(IdeError::OutOfRange) && *final(ide) == *old(ide),
            !(dev != 0 && !old(ide).havedisk1) && blockno < crate::buf::FS_SIZE ==> {
                &&& final(ide).queue@.len() == old(ide).queue@.len() + 1
                &&& final(ide).queue@.drop_last() == old(ide).queue@
                &&& final(ide).queue@.last().dev == dev
                &&& final(ide).queue@.last().blockno == blockno
                &&& final(ide).queue@.last().data@ == data@
                &&& flag_dirty(final(ide).queue@.last().flags)
                &&& final(ide).busy
                &&& old(ide).busy ==> r == Ok::<Option<IdeCommand>, IdeError>(None)
                &&& !old(ide).busy ==> (r matches Ok(Some(cmd)) && crate::ide::command_matches(
                    cmd,
                    final(ide).queue@.last(),
                ))
            },
    {
        let ghost pre = *self;
        let slot = self.buf_get(dev, blockno);
        let ghost mid = *self;
        let mut e = match self.bufs.pop() {
            Some(e) => e,
            None => {
                // the cache never comes back empty from `buf_get`
                proof {
                    assert(false);
                }
                Buf::new(dev, blockno)
            },
        };
        proof {
            lemma_flags_mark_dirty(e.flags);
        }
        e.data = data;
        e.flags = e.flags | B_DIRTY;
        let rb = Buf { dev: e.dev, blockno: e.blockno, flags: e.flags, data: copy_data(&e.data) };
        self.bufs.push(e);
        proof {
            assert(self.bufs@ =~= mid.bufs@.update(mid.bufs@.len() - 1, self.bufs@.last()));
            assert(self.rkeys() =~= mid.rkeys());
        }
        ide.request(rb)
    }

    /// Releasing a block back to the cache is not yet defined in this
    /// design: every read and write completes synchronously, so the call
    /// changes nothing.
    pub fn buf_release(&mut self)
        ensures
            *final(self) == *old(self),
    {
    }
}

/// The outcome of a cache read: the block is already valid in its slot,
/// or a transfer was started with the returned register program, or the
/// request joined the queue behind the transfer in flight.
#[derive(Debug)]
pub enum ReadStep {
    /// The block is valid in this slot, the last in recency order.
    Ready(usize),
    /// A transfer was started: run this register program.
    Start(IdeCommand),
    /// The request waits in the queue; completions will reach it.
    Queued,
}

} // verus!
