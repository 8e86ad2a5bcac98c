use vstd::prelude::*;
use vstd::map::*;

verus! {

/// One partially received transfer: the chunk payloads recorded so far,
/// indexed by chunk position. The slot count is the transfer's announced
/// total.
pub struct ChunkSet {
    id: u64,
    parts: Vec<Option<Vec<u8>>>,
}

/// Tracks partial payloads received as indexed chunks from either transport
/// and reassembles a transfer once every index is present. Incomplete
/// transfers persist until completed or externally purged.
pub struct ChunkReassembler {
    sets: Vec<ChunkSet>,
}

/// The mathematical shape of one transfer's state.
pub type PartsModel = Seq<Option<Seq<u8>>>;

pub open spec fn parts_model(parts: Seq<Option<Vec<u8>>>) -> PartsModel {
    Seq::new(
        parts.len(),
        |i: int|
            if parts[i] is Some {
                Some(parts[i]->Some_0@)
            } else {
                None
            },
    )
}

/// A fresh transfer with no chunk recorded.
pub open spec fn empty_parts(total: u32) -> PartsModel {
    Seq::new(total as nat, |i: int| None)
}

/// Whether every chunk of the transfer has been received.
pub open spec fn all_filled(parts: PartsModel) -> bool {
    forall|i: int| 0 <= i < parts.len() ==> parts[i] is Some
}

/// The reassembled payload: the chunks concatenated in ascending index order.
pub open spec fn concat_parts(parts: PartsModel) -> Seq<u8>
    decreases parts.len(),
{
    if parts.len() == 0 {
        Seq::empty()
    } else {
        concat_parts(parts.drop_last()) + if parts.last() is Some {
            parts.last()->Some_0
        } else {
            Seq::empty()
        }
    }
}

/// What recording a chunk does to the reassembler state: a fresh index of a
/// known transfer is stored; a duplicate index, an index out of range, and a
/// chunk announcing an empty transfer are all ignored.
pub open spec fn add_chunk_model(
    m: Map<u64, PartsModel>,
    id: u64,
    index: u32,
    total: u32,
    data: Seq<u8>,
) -> Map<u64, PartsModel> {
    if m.contains_key(id) {
        let parts = m[id];
        if index < parts.len() && parts[index as int] is None {
            m.insert(id, parts.update(index as int, Some(data)))
        } else {
            m
        }
    } else if index < total {
        m.insert(id, empty_parts(total).update(index as int, Some(data)))
    } else {
        m
    }
}

spec fn has_id(sets: Seq<ChunkSet>, id: u64) -> bool {
    exists|i: int| 0 <= i < sets.len() && sets[i].id == id
}

spec fn set_index_of(sets: Seq<ChunkSet>, id: u64) -> int {
    choose|i: int| 0 <= i < sets.len() && sets[i].id == id
}

impl ChunkReassembler {
    /// Transfer ids name at most one set each.
    pub closed spec fn wf(&self) -> bool {
        forall|i: int, j: int|
            0 <= i < j < self.sets@.len() ==> #[trigger] self.sets@[i].id != #[trigger] self.sets@[j].id
    }

    proof fn lemma_index_of(&self, id: u64, k: int)
        requires
            self.wf(),
            0 <= k < self.sets@.len(),
            self.sets@[k].id == id,
        ensures
            set_index_of(self.sets@, id) == k,
    {
        let i = set_index_of(self.sets@, id);
        assert(0 <= i < self.sets@.len() && self.sets@[i].id == id);
        if i < k {
            assert(self.sets@[i].id != self.sets@[k].id);
        } else if k < i {
            assert(self.sets@[k].id != self.sets@[i].id);
        }
    }

    pub fn new() -> (r: ChunkReassembler)
        ensures
            r.wf(),
            r@ == Map::<u64, PartsModel>::empty(),
    {
        let r = ChunkReassembler { sets: Vec::new() };
        proof {
            assert_maps_equal!(r@, Map::<u64, PartsModel>::empty());
        }
        r
    }

    fn find_set(&self, id: u64) -> (r: Option<usize>)
        requires
            self.wf(),
        ensures
            r is Some <==> self@.contains_key(id),
            r is Some ==> 0 <= r->Some_0 < self.sets@.len() && self.sets@[
                r->Some_0 as int
            ].id == id && set_index_of(self.sets@, id) == r->Some_0 as int,
    {
        let mut i: usize = 0;
        while i < self.sets.len()
            invariant
                self.wf(),
                i <= self.sets@.len(),
                forall|j: int| 0 <= j < i ==> self.sets@[j].id != id,
            decreases self.sets@.len() - i,
        {
            if self.sets[i].id == id {
                proof {
                    self.lemma_index_of(id, i as int);
                }
                return Some(i);
            }
            i += 1;
        }
        None
    }

    /// Idempotently records chunk `index` of `total` for a transfer: the
    /// first payload for an index wins, so retransmissions are harmless.
    pub fn add_chunk(&mut self, id: u64, index: u32, total: u32, data: &[u8])
        requires
            old(self).wf(),
        ensures
            final(self).wf(),
            final(self)@ == add_chunk_model(old(self)@, id, index, total, data@),
    {
        let found = self.find_set(id);
        match found {
            Some(i) => {
                let n = self.sets[i].parts.len();
                if (index as usize) < n {
                    let is_free = match &self.sets[i].parts[index as usize] {
                        Option::None => true,
                        Option::Some(_) => false,
                    };
                    if is_free {
                        let mut set = self.sets.remove(i);
                        set.parts[index as usize] = Some(vstd::slice::slice_to_vec(data));
                        self.sets.insert(i, set);
                        proof {
                            assert(final(self).sets@ =~= old(self).sets@.update(
                                i as int,
                                final(self).sets@[i as int],
                            ));
                            assert(forall|w: int|
                                0 <= w < self.sets@.len() ==> #[trigger] self.sets@[w].id == old(
                                    self,
                                ).sets@[w].id);
                            assert(final(self).wf());
                            self.lemma_index_of(id, i as int);
                            assert(parts_model(final(self).sets@[i as int].parts@)
                                =~= old(self)@[id].update(index as int, Some(data@)));
                            assert_maps_equal!(final(self)@,
                                add_chunk_model(old(self)@, id, index, total, data@), k => {
                                if has_id(self.sets@, k) {
                                    let w = set_index_of(self.sets@, k);
                                    assert(0 <= w < self.sets@.len() && self.sets@[w].id == k);
                                    assert(old(self).sets@[w].id == k);
                                    old(self).lemma_index_of(k, w);
                                    self.lemma_index_of(k, w);
                                }
                                if has_id(old(self).sets@, k) {
                                    let w = set_index_of(old(self).sets@, k);
                                    assert(0 <= w < old(self).sets@.len() && old(self).sets@[w].id
                                        == k);
                                    assert(self.sets@[w].id == k);
                                    old(self).lemma_index_of(k, w);
                                    self.lemma_index_of(k, w);
                                    if k != id {
                                        assert(w != i as int);
                                        assert(self.sets@[w] == old(self).sets@[w]);
                                    }
                                }
                            });
                        }
                    }
                }
            },
            None => {
                if index < total {
                    let mut parts: Vec<Option<Vec<u8>>> = Vec::new();
                    let mut j: usize = 0;
                    while j < total as usize
                        invariant
                            j <= total as usize,
                            parts@.len() == j,
                            forall|k: int| 0 <= k < j ==> parts@[k] is None,
                        decreases total as usize - j,
                    {
                        parts.push(None);
                        j += 1;
                    }
                    proof {
                        assert(parts_model(parts@) =~= empty_parts(total));
                    }
                    parts[index as usize] = Some(vstd::slice::slice_to_vec(data));
                    let ghost old_sets = self.sets@;
                    self.sets.push(ChunkSet { id, parts });
                    proof {
                        assert(forall|j: int|
                            0 <= j < old_sets.len() ==> final(self).sets@[j] == old_sets[j]);
                        assert(final(self).wf());
                        self.lemma_index_of(id, old_sets.len() as int);
                        assert(parts_model(final(self).sets@[old_sets.len() as int].parts@)
                            =~= empty_parts(total).update(index as int, Some(data@)));
                        assert_maps_equal!(final(self)@,
                            add_chunk_model(old(self)@, id, index, total, data@), k => {
                            if has_id(old_sets, k) {
                                let w = set_index_of(old_sets, k);
                                old(self).lemma_index_of(k, w);
                                self.lemma_index_of(k, w);
                            }
                        });
                    }
                }
            },
        }
    }

    /// Returns the reassembled payload exactly when every chunk of the
    /// transfer is present, consuming the transfer; otherwise nothing, and
    /// the state is unchanged. No partial reassembly is ever returned.
    pub fn try_complete(&mut self, id: u64) -> (r: Option<Vec<u8>>)
        requires
            old(self).wf(),
        ensures
            final(self).wf(),
            old(self)@.contains_key(id) && all_filled(old(self)@[id]) ==> r is Some
                && r->Some_0@ == concat_parts(old(self)@[id]) && final(self)@ == old(self)@.remove(
                id,
            ),
            !(old(self)@.contains_key(id) && all_filled(old(self)@[id])) ==> r is None
                && final(self)@ == old(self)@,
    {
        let found = self.find_set(id);
        let i = match found {
            Some(i) => i,
            None => {
                return None;
            },
        };
        let ghost parts_m = old(self)@[id];
        let n = self.sets[i].parts.len();
        let mut out: Vec<u8> = Vec::new();
        let mut j: usize = 0;
        while j < n
            invariant
                self == old(self),
                old(self).wf(),
                0 <= i < self.sets@.len(),
                set_index_of(self.sets@, id) == i as int,
                self@.contains_key(id),
                parts_m == parts_model(self.sets@[i as int].parts@),
                n == self.sets@[i as int].parts@.len(),
                j <= n,
                forall|k: int| 0 <= k < j ==> parts_m[k] is Some,
                out@ == concat_parts(parts_m.take(j as int)),
            decreases n - j,
        {
            let filled = match &self.sets[i].parts[j] {
                Option::Some(_) => true,
                Option::None => false,
            };
            if !filled {
                proof {
                    assert(parts_m[j as int] is None);
                    assert(!all_filled(parts_m));
                }
                return None;
            }
            let chunk = match &self.sets[i].parts[j] {
                Option::Some(v) => vstd::slice::slice_to_vec(v.as_slice()),
                Option::None => {
                    proof {
                        assert(false);
                    }
                    Vec::new()
                },
            };
            let ghost out_pre = out@;
            let mut chunk_m = chunk;
            out.append(&mut chunk_m);
            proof {
                let taken = parts_m.take(j + 1);
                assert(taken.drop_last() =~= parts_m.take(j as int));
                assert(taken.last() == parts_m[j as int]);
                assert(out@ =~= concat_parts(taken));
            }
            j += 1;
        }
        proof {
            assert(parts_m.take(n as int) =~= parts_m);
            assert(all_filled(parts_m));
        }
        self.sets.remove(i);
        proof {
            assert(forall|w: int|
                0 <= w < self.sets@.len() ==> #[trigger] self.sets@[w] == if w < i as int {
                    old(self).sets@[w]
                } else {
                    old(self).sets@[w + 1]
                });
            assert(final(self).wf());
            assert_maps_equal!(final(self)@, old(self)@.remove(id), k => {
                old(self).lemma_index_of(id, i as int);
                if has_id(self.sets@, k) {
                    let w = set_index_of(self.sets@, k);
                    assert(0 <= w < self.sets@.len() && self.sets@[w].id == k);
                    self.lemma_index_of(k, w);
                    if w < i as int {
                        assert(old(self).sets@[w].id == k);
                        old(self).lemma_index_of(k, w);
                        assert(k != id);
                    } else {
                        assert(old(self).sets@[w + 1].id == k);
                        old(self).lemma_index_of(k, w + 1);
                        assert(k != id);
                    }
                }
                if k != id && has_id(old(self).sets@, k) {
                    let w = set_index_of(old(self).sets@, k);
                    assert(0 <= w < old(self).sets@.len() && old(self).sets@[w].id == k);
                    old(self).lemma_index_of(k, w);
                    assert(w != i as int);
                    if w < i as int {
                        assert(self.sets@[w] == old(self).sets@[w]);
                        self.lemma_index_of(k, w);
                    } else {
                        assert(self.sets@[w - 1] == old(self).sets@[w]);
                        self.lemma_index_of(k, w - 1);
                    }
                }
            });
        }
        Some(out)
    }
}

/// The fixed-size chunking of a payload: full chunks of `size` bytes in
/// order, with a shorter final chunk for any remainder; an empty payload
/// yields no chunks.
pub open spec fn chunks_of(data: Seq<u8>, size: nat) -> Seq<Seq<u8>>
    recommends
        size > 0,
    decreases data.len(),
{
    if size == 0 || data.len() == 0 {
        Seq::empty()
    } else if data.len() <= size {
        seq![data]
    } else {
        seq![data.take(size as int)] + chunks_of(data.skip(size as int), size)
    }
}

/// Chunking loses nothing: the chunks concatenated in order are the payload.
pub proof fn lemma_chunks_concat(data: Seq<u8>, size: nat)
    requires
        size > 0,
    ensures
        chunks_of(data, size).flatten() == data,
    decreases data.len(),
{
    let c = chunks_of(data, size);
    if data.len() == 0 {
        assert(c.flatten() =~= data);
    } else if data.len() <= size {
        c.lemma_flatten_one_element();
        assert(c.flatten() == c.first());
    } else {
        lemma_chunks_concat(data.skip(size as int), size);
        assert(c.first() == data.take(size as int));
        assert(c.drop_first() =~= chunks_of(data.skip(size as int), size));
        assert(c.flatten() =~= data);
    }
}

/// Every chunk is nonempty and at most `size` bytes.
pub proof fn lemma_chunks_sizes(data: Seq<u8>, size: nat)
    requires
        size > 0,
    ensures
        forall|i: int|
            0 <= i < chunks_of(data, size).len() ==> 0 < (#[trigger] chunks_of(data, size)[i]).len()
                <= size,
    decreases data.len(),
{
    if data.len() > size {
        lemma_chunks_sizes(data.skip(size as int), size);
        let rest = chunks_of(data.skip(size as int), size);
        assert(forall|i: int|
            1 <= i < chunks_of(data, size).len() ==> chunks_of(data, size)[i] == rest[i - 1]);
    }
}

/// The transfer state in which chunk `i` holds `cs[i]`, for every index.
pub open spec fn filled_parts(cs: Seq<Seq<u8>>) -> PartsModel {
    Seq::new(cs.len(), |i: int| Some(cs[i]))
}

proof fn lemma_concat_filled(cs: Seq<Seq<u8>>)
    ensures
        concat_parts(filled_parts(cs)) == cs.flatten_alt(),
    decreases cs.len(),
{
    if cs.len() == 0 {
        assert(concat_parts(filled_parts(cs)) =~= cs.flatten_alt());
    } else {
        lemma_concat_filled(cs.drop_last());
        assert(filled_parts(cs).drop_last() =~= filled_parts(cs.drop_last()));
        assert(filled_parts(cs).last() == Some(cs.last()));
    }
}

/// Chunked-transfer round trip: splitting a payload and recording every
/// chunk at its index gives a transfer whose reassembly is the payload.
pub proof fn lemma_split_reassemble(data: Seq<u8>, size: nat)
    requires
        size > 0,
    ensures
        concat_parts(filled_parts(chunks_of(data, size))) == data,
{
    lemma_concat_filled(chunks_of(data, size));
    chunks_of(data, size).lemma_flatten_and_flatten_alt_are_equivalent();
    lemma_chunks_concat(data, size);
}

/// There are never more chunks than payload bytes.
pub proof fn lemma_chunks_count(data: Seq<u8>, size: nat)
    requires
        size > 0,
    ensures
        chunks_of(data, size).len() <= data.len(),
    decreases data.len(),
{
    if data.len() > size {
        lemma_chunks_count(data.skip(size as int), size);
    }
}

/// Splits a payload into fixed-size chunks for a chunked transfer, in index
/// order.
pub fn split_into_chunks(data: &[u8], size: usize) -> (r: Vec<Vec<u8>>)
    requires
        size > 0,
    ensures
        r.deep_view() == chunks_of(data@, size as nat),
{
    let mut out: Vec<Vec<u8>> = Vec::new();
    let mut off: usize = 0;
    proof {
        assert(data@.skip(0) =~= data@);
        assert(out.deep_view() + chunks_of(data@, size as nat) =~~= chunks_of(
            data@,
            size as nat,
        ));
    }
    while off < data.len()
        invariant
            size > 0,
            off <= data@.len(),
            chunks_of(data@, size as nat) =~~= out.deep_view() + chunks_of(
                data@.skip(off as int),
                size as nat,
            ),
        decreases data@.len() - off,
    {
        let end = if data.len() - off < size {
            data.len()
        } else {
            off + size
        };
        let chunk = vstd::slice::slice_to_vec(vstd::slice::slice_subrange(data, off, end));
        let ghost prev_dv = out.deep_view();
        out.push(chunk);
        proof {
            let rest = data@.skip(off as int);
            assert(out.deep_view() =~~= prev_dv.push(chunk@));
            if rest.len() <= size as nat {
                assert(chunk@ =~= rest);
                assert(chunks_of(rest, size as nat) =~= seq![rest]);
                assert(data@.skip(end as int) =~= Seq::<u8>::empty());
                assert(prev_dv + chunks_of(rest, size as nat) =~~= out.deep_view() + chunks_of(
                    data@.skip(end as int),
                    size as nat,
                ));
            } else {
                assert(rest.take(size as int) =~= chunk@);
                assert(rest.skip(size as int) =~= data@.skip(end as int));
                assert(prev_dv + chunks_of(rest, size as nat) =~~= out.deep_view() + chunks_of(
                    data@.skip(end as int),
                    size as nat,
                ));
            }
        }
        off = end;
    }
    proof {
        assert(data@.skip(off as int) =~= Seq::<u8>::empty());
        assert(out.deep_view() =~~= chunks_of(data@, size as nat));
    }
    out
}

impl View for ChunkReassembler {
    type V = Map<u64, PartsModel>;

    closed spec fn view(&self) -> Map<u64, PartsModel> {
        Map::new(
            |id: u64| has_id(self.sets@, id),
            |id: u64| parts_model(self.sets@[set_index_of(self.sets@, id)].parts@),
        )
    }
}

} // verus!
