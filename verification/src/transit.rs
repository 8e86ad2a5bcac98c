use vstd::prelude::*;
use crate::bytesutil::bytes_eq;

verus! {

/// How many packets the transit cache retains.
pub const TRANSIT_CAP: usize = 100;

/// The model of one cache entry: `(hash, packet bytes, received_at)`.
pub type EntryModel = (Seq<u8>, Seq<u8>, u64);

/// The MD5 digest of a byte sequence; used only as a deduplication key.
pub uninterp spec fn md5_of(data: Seq<u8>) -> Seq<u8>;

/// Relies on the md5 crate's `compute`: a 16-byte digest, a function of the
/// bytes alone.
#[verifier::external_body]
fn md5_digest(data: &[u8]) -> (r: Vec<u8>)
    ensures
        r@ == md5_of(data@),
        r@.len() == 16,
{
    md5::compute(data).0.to_vec()
}

/// Relies on rand's `random::<bool>`: a coin flip; nothing is promised of the
/// value.
#[verifier::external_body]
fn random_bool() -> bool {
    rand::random::<bool>()
}

/// Relies on rand's `gen_range`: a value uniformly below the bound.
#[verifier::external_body]
fn random_index(n: usize) -> (r: usize)
    requires
        n > 0,
    ensures
        r < n,
{
    rand::Rng::gen_range(&mut rand::thread_rng(), 0..n)
}

/// One packet held for opportunistic rebroadcast.
pub struct TransitEntry {
    pub hash: Vec<u8>,
    pub packet: Vec<u8>,
    pub received_at: u64,
}

/// Bounded store of mesh packets this node could not read, kept for
/// store-and-forward relay. Keyed by content hash to deduplicate; overflow
/// beyond `TRANSIT_CAP` evicts the oldest entry by `received_at`.
pub struct TransitCache {
    entries: Vec<TransitEntry>,
}

impl View for TransitCache {
    type V = Seq<EntryModel>;

    closed spec fn view(&self) -> Seq<EntryModel> {
        Seq::new(
            self.entries@.len(),
            |i: int|
                (self.entries@[i].hash@, self.entries@[i].packet@, self.entries@[i].received_at),
        )
    }
}

/// Whether the cache already holds an entry with this hash.
pub open spec fn cache_has_hash(s: Seq<EntryModel>, h: Seq<u8>) -> bool {
    exists|i: int| 0 <= i < s.len() && s[i].0 == h
}

/// The index of the oldest entry: the first one with minimal `received_at`.
pub open spec fn oldest_index(s: Seq<EntryModel>) -> int
    recommends
        s.len() > 0,
    decreases s.len(),
{
    if s.len() <= 1 {
        0
    } else {
        let rest = oldest_index(s.drop_first()) + 1;
        if s[0].2 <= s[rest].2 {
            0
        } else {
            rest
        }
    }
}

/// `oldest_index` points at the first entry with minimal `received_at`.
pub proof fn lemma_oldest_index_props(s: Seq<EntryModel>)
    requires
        s.len() > 0,
    ensures
        0 <= oldest_index(s) < s.len(),
        forall|j: int| 0 <= j < s.len() ==> s[oldest_index(s)].2 <= #[trigger] s[j].2,
        forall|j: int| 0 <= j < oldest_index(s) ==> #[trigger] s[j].2 > s[oldest_index(s)].2,
    decreases s.len(),
{
    if s.len() > 1 {
        let t = s.drop_first();
        lemma_oldest_index_props(t);
        let rest = oldest_index(t) + 1;
        assert(t[oldest_index(t)] == s[rest]);
        assert forall|j: int| 0 <= j < s.len() implies s[oldest_index(s)].2 <= #[trigger] s[j].2 by {
            if j > 0 {
                assert(t[j - 1] == s[j]);
                assert(t[oldest_index(t)].2 <= t[j - 1].2);
            }
        }
        assert forall|j: int| 0 <= j < oldest_index(s) implies #[trigger] s[j].2
            > s[oldest_index(s)].2 by {
            if j > 0 {
                assert(t[j - 1] == s[j]);
                assert(t[j - 1].2 > t[oldest_index(t)].2);
            }
        }
    }
}

/// The state of the cache after an insert: unchanged on a duplicate hash,
/// else the entry is appended and, past the capacity, the oldest evicted.
pub open spec fn cache_insert_model(s: Seq<EntryModel>, h: Seq<u8>, p: Seq<u8>, t: u64) -> Seq<
    EntryModel,
> {
    if cache_has_hash(s, h) {
        s
    } else {
        let s2 = s.push((h, p, t));
        if s2.len() > TRANSIT_CAP as int {
            s2.remove(oldest_index(s2))
        } else {
            s2
        }
    }
}

impl TransitCache {
    /// An empty cache.
    pub fn new() -> (r: TransitCache)
        ensures
            r@ == Seq::<EntryModel>::empty(),
    {
        let r = TransitCache { entries: Vec::new() };
        proof {
            assert(r@ =~= Seq::<EntryModel>::empty());
        }
        r
    }

    pub fn len(&self) -> (r: usize)
        ensures
            r == self@.len(),
    {
        self.entries.len()
    }

    /// The hash key of the entry at an index.
    pub fn hash_at(&self, i: usize) -> (r: Vec<u8>)
        requires
            i < self@.len(),
        ensures
            r@ == self@[i as int].0,
    {
        vstd::slice::slice_to_vec(self.entries[i].hash.as_slice())
    }

    /// The raw packet bytes of the entry at an index.
    pub fn packet_at(&self, i: usize) -> (r: Vec<u8>)
        requires
            i < self@.len(),
        ensures
            r@ == self@[i as int].1,
    {
        vstd::slice::slice_to_vec(self.entries[i].packet.as_slice())
    }

    /// The receipt time of the entry at an index.
    pub fn received_at(&self, i: usize) -> (r: u64)
        requires
            i < self@.len(),
        ensures
            r == self@[i as int].2,
    {
        self.entries[i].received_at
    }

    /// Records a packet for store-and-forward relay, deduplicating by content
    /// hash and evicting the oldest entry when the bound is exceeded.
    pub fn insert(&mut self, packet: &[u8], received_at: u64)
        ensures
            final(self)@ == cache_insert_model(old(self)@, md5_of(packet@), packet@, received_at),
    {
        let hash = md5_digest(packet);
        let mut i: usize = 0;
        while i < self.entries.len()
            invariant
                *self == *old(self),
                hash@ == md5_of(packet@),
                i <= self@.len(),
                forall|j: int| 0 <= j < i ==> self@[j].0 != hash@,
            decreases self@.len() - i,
        {
            if bytes_eq(&self.entries[i].hash, &hash) {
                proof {
                    assert(self@[i as int].0 == hash@);
                    assert(cache_has_hash(self@, hash@));
                }
                return ;
            }
            i += 1;
        }
        proof {
            assert(!cache_has_hash(self@, hash@));
        }
        let entry = TransitEntry {
            hash,
            packet: vstd::slice::slice_to_vec(packet),
            received_at,
        };
        self.entries.push(entry);
        proof {
            assert(self@ =~= old(self)@.push((md5_of(packet@), packet@, received_at)));
        }
        if self.entries.len() > TRANSIT_CAP {
            let ghost pushed = self@;
            let mut oi: usize = 0;
            let mut k: usize = 1;
            while k < self.entries.len()
                invariant
                    self@ == pushed,
                    oi < k,
                    k <= self@.len(),
                    forall|j: int| 0 <= j < k ==> self@[oi as int].2 <= self@[j].2,
                    forall|j: int| 0 <= j < oi ==> self@[j].2 > self@[oi as int].2,
                decreases self@.len() - k,
            {
                if self.entries[k].received_at < self.entries[oi].received_at {
                    oi = k;
                }
                k += 1;
            }
            proof {
                lemma_oldest_index_props(pushed);
                let spec_oi = oldest_index(pushed);
                if oi < spec_oi {
                    assert(pushed[oi as int].2 > pushed[spec_oi].2);
                    assert(pushed[oi as int].2 <= pushed[spec_oi].2);
                } else if spec_oi < oi {
                    assert(pushed[spec_oi].2 > pushed[oi as int].2);
                    assert(pushed[spec_oi].2 <= pushed[oi as int].2);
                }
                assert(oi as int == spec_oi);
            }
            self.entries.remove(oi);
            proof {
                assert(self@ =~= pushed.remove(oi as int));
            }
        }
    }

    /// With even odds, hands out one cached packet chosen at random for
    /// rebroadcast; otherwise, or when the cache is empty, an empty buffer.
    /// Every nonempty result is the raw bytes of some cached entry.
    pub fn sample_for_broadcast(&self) -> (r: Vec<u8>)
        ensures
            r@.len() == 0 || exists|i: int| 0 <= i < self@.len() && r@ == self@[i].1,
    {
        if random_bool() && self.entries.len() > 0 {
            let i = random_index(self.entries.len());
            let p = self.packet_at(i);
            proof {
                assert(0 <= i < self@.len() && p@ == self@[i as int].1);
            }
            p
        } else {
            Vec::new()
        }
    }
}

/// The cache state after inserting a sequence of entries in order.
pub open spec fn cache_insert_all(s: Seq<EntryModel>, items: Seq<EntryModel>) -> Seq<EntryModel>
    decreases items.len(),
{
    if items.len() == 0 {
        s
    } else {
        cache_insert_all(cache_insert_model(s, items[0].0, items[0].1, items[0].2), items.drop_first())
    }
}

proof fn lemma_cache_insert_all_push(s: Seq<EntryModel>, items: Seq<EntryModel>, x: EntryModel)
    ensures
        cache_insert_all(s, items.push(x)) == cache_insert_model(
            cache_insert_all(s, items),
            x.0,
            x.1,
            x.2,
        ),
    decreases items.len(),
{
    if items.len() == 0 {
        assert(items.push(x)[0] == x);
        assert(items.push(x).drop_first() =~= Seq::<EntryModel>::empty());
        let mid = cache_insert_model(s, x.0, x.1, x.2);
        assert(cache_insert_all(s, items.push(x)) == cache_insert_all(
            mid,
            items.push(x).drop_first(),
        ));
        assert(cache_insert_all(mid, items.push(x).drop_first()) == mid);
        assert(cache_insert_all(s, items) == s);
    } else {
        assert(items.push(x)[0] == items[0]);
        assert(items.push(x).drop_first() =~= items.drop_first().push(x));
        let mid = cache_insert_model(s, items[0].0, items[0].1, items[0].2);
        assert(cache_insert_all(s, items.push(x)) == cache_insert_all(
            mid,
            items.drop_first().push(x),
        ));
        assert(cache_insert_all(s, items) == cache_insert_all(mid, items.drop_first()));
        lemma_cache_insert_all_push(mid, items.drop_first(), x);
    }
}

/// Transit cache bound: inserting entries with pairwise distinct hashes at
/// strictly increasing receipt times into an empty cache leaves exactly the
/// most recently inserted `TRANSIT_CAP` of them, in insertion order (all of
/// them while they still fit).
pub proof fn lemma_cache_bound(items: Seq<EntryModel>)
    requires
        forall|i: int, j: int| 0 <= i < j < items.len() ==> items[i].0 != items[j].0,
        forall|i: int, j: int| 0 <= i < j < items.len() ==> items[i].2 < items[j].2,
    ensures
        cache_insert_all(Seq::empty(), items) == if items.len() <= TRANSIT_CAP as int {
            items
        } else {
            items.skip(items.len() - TRANSIT_CAP as int)
        },
    decreases items.len(),
{
    let cap = TRANSIT_CAP as int;
    if items.len() == 0 {
        assert(cache_insert_all(Seq::empty(), items) =~= items);
    } else {
        let pre = items.drop_last();
        let last = items.last();
        assert(forall|i: int| 0 <= i < pre.len() ==> pre[i] == items[i]);
        lemma_cache_bound(pre);
        lemma_cache_insert_all_push(Seq::empty(), pre, last);
        assert(pre.push(last) =~= items);
        let state = cache_insert_all(Seq::empty(), pre);
        let off: int = if pre.len() <= cap {
            0
        } else {
            pre.len() - cap
        };
        assert(forall|k: int| 0 <= k < state.len() ==> state[k] == items[k + off]);
        assert(!cache_has_hash(state, last.0)) by {
            if cache_has_hash(state, last.0) {
                let k = choose|k: int| 0 <= k < state.len() && state[k].0 == last.0;
                assert(state[k] == items[k + off]);
                assert(items[k + off].0 != items[items.len() - 1].0);
            }
        }
        let s2 = state.push((last.0, last.1, last.2));
        assert((last.0, last.1, last.2) == last);
        assert(forall|k: int| 0 <= k < s2.len() ==> s2[k] == items[k + off]);
        if s2.len() > cap {
            lemma_oldest_index_props(s2);
            let oi = oldest_index(s2);
            if oi > 0 {
                assert(s2[0].2 > s2[oi].2);
                assert(items[off].2 < items[oi + off].2);
            }
            assert(oi == 0);
            assert(s2.remove(0) =~= items.skip(items.len() - cap));
        } else {
            assert(s2 =~= items);
        }
    }
}

} // verus!
