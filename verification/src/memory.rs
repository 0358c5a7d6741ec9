//! The constant heap: an append-only pool of byte blobs with stable
//! descriptor indices, a serialised header of little-endian `(offset,
//! length)` pairs, and a contiguous backing array.

use vstd::prelude::*;
use vstd::bytes::{
    lemma_auto_spec_u32_to_from_le_bytes, spec_u32_from_le_bytes, spec_u32_to_le_bytes,
    u32_from_le_bytes, u32_to_le_bytes,
};
use vstd::slice::slice_to_vec;

verus! {

/// Sum of the lengths of the first `i` descriptors.
pub open spec fn len_before(descs: Seq<(u32, u32)>, i: int) -> int
    decreases i,
{
    if i <= 0 {
        0
    } else {
        len_before(descs, i - 1) + descs[i - 1].1
    }
}

/// The serialised descriptor table: for each blob a little-endian `u32`
/// offset followed by a little-endian `u32` length.
pub open spec fn spec_header(descs: Seq<(u32, u32)>) -> Seq<u8>
    decreases descs.len(),
{
    if descs.len() == 0 {
        Seq::empty()
    } else {
        spec_u32_to_le_bytes(descs[0].0) + spec_u32_to_le_bytes(descs[0].1) + spec_header(
            descs.drop_first(),
        )
    }
}

/// The descriptors read back from a serialised header: pairs are taken
/// from position `pos` on while they stay contiguous (each offset equals
/// the running total `total`) and within a body of `bl` bytes.
pub open spec fn spec_parse_pairs(h: Seq<u8>, bl: int, pos: int, total: int) -> Seq<(u32, u32)>
    decreases h.len() - pos,
{
    if pos < 0 || pos + 8 > h.len() {
        Seq::empty()
    } else {
        let off = spec_u32_from_le_bytes(h.subrange(pos, pos + 4));
        let len = spec_u32_from_le_bytes(h.subrange(pos + 4, pos + 8));
        if off as int != total || total + len > bl || total + len > u32::MAX {
            Seq::empty()
        } else {
            seq![(off, len)] + spec_parse_pairs(h, bl, pos + 8, total + len)
        }
    }
}

pub proof fn lemma_len_before_mono(descs: Seq<(u32, u32)>, i: int, j: int)
    requires
        0 <= i <= j,
    ensures
        len_before(descs, i) <= len_before(descs, j),
    decreases j - i,
{
    if i < j {
        lemma_len_before_mono(descs, i, j - 1);
    }
}

/// `len_before` only looks at the lengths of the first `i` descriptors.
pub proof fn lemma_len_before_agree(a: Seq<(u32, u32)>, b: Seq<(u32, u32)>, i: int)
    requires
        forall|j: int| 0 <= j < i ==> (#[trigger] a[j]).1 == b[j].1,
    ensures
        len_before(a, i) == len_before(b, i),
    decreases i,
{
    if i > 0 {
        lemma_len_before_agree(a, b, i - 1);
    }
}

pub proof fn lemma_spec_header_concat(a: Seq<(u32, u32)>, b: Seq<(u32, u32)>)
    ensures
        spec_header(a + b) == spec_header(a) + spec_header(b),
    decreases a.len(),
{
    if a.len() == 0 {
        assert(a + b =~= b);
        assert(spec_header(a) + spec_header(b) =~= spec_header(b));
    } else {
        assert((a + b).drop_first() =~= a.drop_first() + b);
        lemma_spec_header_concat(a.drop_first(), b);
        assert(spec_header(a + b) =~= spec_header(a) + spec_header(b));
    }
}

pub proof fn lemma_spec_header_len(descs: Seq<(u32, u32)>)
    ensures
        spec_header(descs).len() == 8 * descs.len(),
    decreases descs.len(),
{
    lemma_auto_spec_u32_to_from_le_bytes();
    if descs.len() > 0 {
        lemma_spec_header_len(descs.drop_first());
    }
}

/// The bytes of descriptor `i` inside the serialised header.
pub proof fn lemma_spec_header_index(descs: Seq<(u32, u32)>, i: int)
    requires
        0 <= i < descs.len(),
    ensures
        spec_header(descs).subrange(8 * i, 8 * i + 4) == spec_u32_to_le_bytes(descs[i].0),
        spec_header(descs).subrange(8 * i + 4, 8 * i + 8) == spec_u32_to_le_bytes(descs[i].1),
    decreases i,
{
    lemma_auto_spec_u32_to_from_le_bytes();
    lemma_spec_header_len(descs);
    lemma_spec_header_len(descs.drop_first());
    if i == 0 {
        assert(spec_header(descs).subrange(0, 4) =~= spec_u32_to_le_bytes(descs[0].0));
        assert(spec_header(descs).subrange(4, 8) =~= spec_u32_to_le_bytes(descs[0].1));
    } else {
        lemma_spec_header_index(descs.drop_first(), i - 1);
        assert(spec_header(descs).subrange(8 * i, 8 * i + 4) =~= spec_header(
            descs.drop_first(),
        ).subrange(8 * (i - 1), 8 * (i - 1) + 4));
        assert(spec_header(descs).subrange(8 * i + 4, 8 * i + 8) =~= spec_header(
            descs.drop_first(),
        ).subrange(8 * (i - 1) + 4, 8 * (i - 1) + 8));
    }
}

/// Append-only pool of byte blobs. A descriptor index returned from
/// `alloc` or `add` stays valid and names the same logical blob for the
/// lifetime of the heap, even when `edit` rebuilds the backing array.
#[derive(Debug, Clone)]
pub struct MemoryHeap {
    descriptors: Vec<(u32, u32)>,
    data: Vec<u8>,
}

impl MemoryHeap {
    /// Well-formedness: descriptors are contiguous, in order, and cover
    /// the backing array exactly; everything fits the `u32` header format.
    pub closed spec fn wf(&self) -> bool {
        &&& forall|i: int|
            0 <= i < self.descriptors@.len() ==> (#[trigger] self.descriptors@[i]).0 as int
                == len_before(self.descriptors@, i)
        &&& self.data@.len() == len_before(self.descriptors@, self.descriptors@.len() as int)
        &&& self.data@.len() <= u32::MAX
    }

    pub closed spec fn descs(&self) -> Seq<(u32, u32)> {
        self.descriptors@
    }

    pub closed spec fn bytes(&self) -> Seq<u8> {
        self.data@
    }

    pub open spec fn blob_count(&self) -> nat {
        self.descs().len()
    }

    pub open spec fn size(&self) -> nat {
        self.bytes().len()
    }

    /// The current bytes of blob `i`.
    pub open spec fn blob(&self, i: int) -> Seq<u8> {
        let (off, len) = self.descs()[i];
        self.bytes().subrange(off as int, off as int + len as int)
    }

    /// Each blob lies within the backing array.
    pub proof fn lemma_blob_in_bounds(&self, i: int)
        requires
            self.wf(),
            0 <= i < self.blob_count(),
        ensures
            0 <= self.descs()[i].0 as int,
            self.descs()[i].0 as int + self.descs()[i].1 as int <= self.size(),
            self.blob(i).len() == self.descs()[i].1,
    {
        lemma_len_before_mono(self.descriptors@, 0, i);
        lemma_len_before_mono(self.descriptors@, i + 1, self.descriptors@.len() as int);
    }

    /// An empty heap: no blobs, no bytes.
    pub fn new() -> (h: MemoryHeap)
        ensures
            h.wf(),
            h.blob_count() == 0,
            h.size() == 0,
    {
        MemoryHeap { descriptors: Vec::new(), data: Vec::new() }
    }

    /// Extends the backing array by `n` zero bytes and returns the new
    /// blob's descriptor index.
    pub fn allocate(&mut self, n: usize) -> (id: usize)
        requires
            old(self).wf(),
            old(self).size() + n <= u32::MAX,
        ensures
            final(self).wf(),
            id == old(self).blob_count(),
            final(self).blob_count() == old(self).blob_count() + 1,
            final(self).descs() == old(self).descs().push(
                ((old(self).size() as u32, n as u32)),
            ),
            final(self).bytes() == old(self).bytes() + Seq::new(n as nat, |i: int| 0u8),
            final(self).blob(id as int) == Seq::new(n as nat, |i: int| 0u8),
            forall|k: int|
                0 <= k < old(self).blob_count() ==> final(self).blob(k) == old(self).blob(k),
    {
        let id = self.descriptors.len();
        let off = self.data.len();
        self.descriptors.push((off as u32, n as u32));
        let new_len = off + n;
        self.data.resize(new_len, 0u8);
        proof {
            self.lemma_grown_by_one(*old(self), n as u32);
            assert(self.bytes() =~= old(self).bytes() + Seq::new(n as nat, |i: int| 0u8));
            assert(self.blob(id as int) =~= Seq::new(n as nat, |i: int| 0u8));
        }
        id
    }

    /// Appends a blob holding `bytes` and returns its descriptor index.
    pub fn add(&mut self, bytes: Vec<u8>) -> (id: usize)
        requires
            old(self).wf(),
            old(self).size() + bytes@.len() <= u32::MAX,
        ensures
            final(self).wf(),
            id == old(self).blob_count(),
            final(self).blob_count() == old(self).blob_count() + 1,
            final(self).descs() == old(self).descs().push(
                ((old(self).size() as u32, bytes@.len() as u32)),
            ),
            final(self).bytes() == old(self).bytes() + bytes@,
            final(self).blob(id as int) == bytes@,
            forall|k: int|
                0 <= k < old(self).blob_count() ==> final(self).blob(k) == old(self).blob(k),
    {
        let id = self.descriptors.len();
        let off = self.data.len();
        self.descriptors.push((off as u32, bytes.len() as u32));
        let mut b = bytes;
        self.data.append(&mut b);
        proof {
            self.lemma_grown_by_one(*old(self), bytes@.len() as u32);
            assert(self.blob(id as int) =~= bytes@);
        }
        id
    }

    /// Common reasoning for `alloc` and `add`: pushing one descriptor and
    /// extending the data accordingly preserves well-formedness and all
    /// existing blobs.
    proof fn lemma_grown_by_one(&self, prev: MemoryHeap, n: u32)
        requires
            prev.wf(),
            prev.size() + n <= u32::MAX,
            self.descs() == prev.descs().push(((prev.size() as u32, n))),
            self.bytes().len() == prev.size() + n,
            forall|i: int| 0 <= i < prev.size() ==> self.bytes()[i] == prev.bytes()[i],
        ensures
            self.wf(),
            forall|k: int| 0 <= k < prev.blob_count() ==> self.blob(k) == prev.blob(k),
    {
        let pd = prev.descs();
        let nd = self.descs();
        let count = pd.len() as int;
        assert forall|i: int| 0 <= i < nd.len() implies (#[trigger] nd[i]).0 as int == len_before(
            nd,
            i,
        ) by {
            lemma_len_before_agree(nd, pd, i);
            if i < count {
                assert(pd[i].0 as int == len_before(pd, i));
            } else {
                assert(nd[i] == (prev.size() as u32, n));
            }
        }
        lemma_len_before_agree(nd, pd, count);
        assert(len_before(nd, nd.len() as int) == len_before(pd, count) + n);
        assert forall|k: int| 0 <= k < prev.blob_count() implies self.blob(k) == prev.blob(k) by {
            prev.lemma_blob_in_bounds(k);
            assert(self.blob(k) =~= prev.blob(k));
        }
    }

    /// Replaces the contents of blob `index`; the length may differ. The
    /// backing array is rebuilt: later blobs keep their indices and
    /// contents, and only their offsets shift.
    #[verifier::rlimit(60)]
    pub fn edit(&mut self, bytes: Vec<u8>, index: usize)
        requires
            old(self).wf(),
            index < old(self).blob_count(),
            old(self).size() - old(self).blob(index as int).len() + bytes@.len() <= u32::MAX,
        ensures
            final(self).wf(),
            final(self).blob_count() == old(self).blob_count(),
            final(self).blob(index as int) == bytes@,
            forall|k: int|
                0 <= k < old(self).blob_count() && k != index ==> final(self).blob(k) == old(
                    self,
                ).blob(k),
            final(self).size() == old(self).size() - old(self).blob(index as int).len()
                + bytes@.len(),
    {
        proof {
            old(self).lemma_blob_in_bounds(index as int);
        }
        let (off32, old_len32) = self.descriptors[index];
        let off = off32 as usize;
        let old_len = old_len32 as usize;
        let new_len = bytes.len();
        let size = self.data.len();
        let n = self.descriptors.len();
        let ghost od = old(self).descs();

        // Rebuild the backing array around the replaced blob.
        let mut nd: Vec<u8> = slice_to_vec(&self.data[0..off]);
        nd.extend_from_slice(bytes.as_slice());
        nd.extend_from_slice(&self.data[off + old_len..size]);

        // The touched descriptor takes the new length; later offsets shift.
        self.descriptors[index] = (off32, new_len as u32);
        let mut j = index + 1;
        while j < n
            invariant
                index < j <= n,
                n == self.descriptors@.len(),
                n == od.len(),
                od == old(self).descs(),
                old(self).wf(),
                old(self).size() - old(self).blob(index as int).len() + bytes@.len() <= u32::MAX,
                index < od.len(),
                off == od[index as int].0,
                old_len == od[index as int].1,
                old_len == old(self).blob(index as int).len(),
                new_len == bytes@.len(),
                new_len <= u32::MAX,
                self.descriptors@[index as int] == (od[index as int].0, new_len as u32),
                forall|k: int|
                    index < k < j ==> (#[trigger] self.descriptors@[k]).0 as int == od[k].0
                        - old_len + new_len && self.descriptors@[k].1 == od[k].1,
                forall|k: int|
                    (0 <= k < index || j <= k < n) ==> (#[trigger] self.descriptors@[k]) == od[k],
            decreases n - j,
        {
            proof {
                old(self).lemma_blob_in_bounds(j as int);
                assert(od[j as int].0 as int == len_before(od, j as int));
                lemma_len_before_mono(od, index as int + 1, j as int);
                assert(len_before(od, index as int + 1) == len_before(od, index as int)
                    + old_len);
                lemma_len_before_mono(od, 0, index as int);
            }
            let (o, l) = self.descriptors[j];
            let shifted = ((o as usize - old_len) + new_len) as u32;
            self.descriptors[j] = (shifted, l);
            j += 1;
        }
        self.data = nd;
        proof {
            let ds = self.descriptors@;
            let ghost nl = new_len as int;
            assert forall|k: int| 0 <= k <= n implies len_before(ds, k) == if k <= index {
                len_before(od, k)
            } else {
                len_before(od, k) - old_len + nl
            } by {
                if k <= index {
                    lemma_len_before_agree(ds, od, k);
                } else {
                    lemma_len_before_agree2(ds, od, index as int, k, nl);
                }
            }
            assert forall|i: int| 0 <= i < ds.len() implies (#[trigger] ds[i]).0 as int
                == len_before(ds, i) by {
                assert(od[i].0 as int == len_before(od, i));
            }
            assert(self.data@.len() == len_before(ds, n as int)) by {
                assert(len_before(od, n as int) == old(self).size());
            }
            assert(self.wf());
            assert(self.blob(index as int) =~= bytes@);
            assert forall|k: int| 0 <= k < n && k != index implies self.blob(k) == old(self).blob(
                k,
            ) by {
                old(self).lemma_blob_in_bounds(k);
                self.lemma_blob_in_bounds(k);
                if k < index {
                    lemma_len_before_mono(od, k + 1, index as int);
                    assert(od[index as int].0 as int == len_before(od, index as int));
                    assert(self.blob(k) =~= old(self).blob(k));
                } else {
                    lemma_len_before_mono(od, index as int + 1, k);
                    assert(len_before(od, index as int + 1) == len_before(od, index as int)
                        + old_len);
                    assert(self.blob(k) =~= old(self).blob(k));
                }
            }
        }
    }

    /// The current bytes of blob `index`.
    pub fn get_slice(&self, index: usize) -> (r: Vec<u8>)
        requires
            self.wf(),
            index < self.blob_count(),
        ensures
            r@ == self.blob(index as int),
    {
        proof {
            self.lemma_blob_in_bounds(index as int);
        }
        let (off, len) = self.descriptors[index];
        slice_to_vec(&self.data[off as usize..off as usize + len as usize])
    }

    /// The descriptor table serialised as little-endian `u32` pairs.
    pub fn header(&self) -> (r: Vec<u8>)
        ensures
            r@ == spec_header(self.descs()),
            r@.len() == 8 * self.blob_count(),
    {
        let mut r: Vec<u8> = Vec::new();
        let n = self.descriptors.len();
        let mut i: usize = 0;
        while i < n
            invariant
                i <= n,
                n == self.descriptors@.len(),
                r@ == spec_header(self.descs().take(i as int)),
            decreases n - i,
        {
            let (off, len) = self.descriptors[i];
            let mut ob = u32_to_le_bytes(off);
            let mut lb = u32_to_le_bytes(len);
            r.append(&mut ob);
            r.append(&mut lb);
            proof {
                let ds = self.descs();
                let d = ds[i as int];
                lemma_spec_header_concat(ds.take(i as int), seq![d]);
                assert(ds.take(i as int + 1) =~= ds.take(i as int) + seq![d]);
                assert(seq![d].drop_first() =~= Seq::<(u32, u32)>::empty());
                assert(seq![d][0] == d);
                assert(spec_header(seq![d]) == spec_u32_to_le_bytes(d.0) + spec_u32_to_le_bytes(
                    d.1,
                ) + spec_header(seq![d].drop_first()));
                assert(spec_header(Seq::<(u32, u32)>::empty()) == Seq::<u8>::empty());
                assert(spec_header(seq![d]) =~= spec_u32_to_le_bytes(d.0) + spec_u32_to_le_bytes(
                    d.1,
                ));
                assert(r@ =~= spec_header(ds.take(i as int + 1)));
            }
            i += 1;
        }
        proof {
            assert(self.descs().take(self.descs().len() as int) =~= self.descs());
            lemma_spec_header_len(self.descs());
        }
        r
    }

    /// The concatenated blob contents, in descriptor order.
    pub fn to_bytes(&self) -> (r: Vec<u8>)
        ensures
            r@ == self.bytes(),
    {
        slice_to_vec(self.data.as_slice())
    }

    /// Rebuilds a heap from a serialised descriptor table and the body it
    /// describes: pairs are taken while contiguous and within the body.
    pub fn from_bytes(header: &[u8], body: &[u8]) -> (h: MemoryHeap)
        ensures
            h.wf(),
            h.descs() == spec_parse_pairs(header@, body@.len() as int, 0, 0),
            h.bytes() == body@.take(len_before(h.descs(), h.descs().len() as int)),
    {
        let mut descs: Vec<(u32, u32)> = Vec::new();
        let mut total: usize = 0;
        let mut pos: usize = 0;
        let hl = header.len();
        let bl = body.len();
        loop
            invariant
                pos <= hl,
                hl == header@.len(),
                bl == body@.len(),
                total <= bl,
                total <= u32::MAX,
                total == len_before(descs@, descs@.len() as int),
                forall|i: int|
                    0 <= i < descs@.len() ==> (#[trigger] descs@[i]).0 as int == len_before(
                        descs@,
                        i,
                    ),
                spec_parse_pairs(header@, bl as int, 0, 0) == descs@ + spec_parse_pairs(
                    header@,
                    bl as int,
                    pos as int,
                    total as int,
                ),
            ensures
                total <= bl,
                total <= u32::MAX,
                total == len_before(descs@, descs@.len() as int),
                forall|i: int|
                    0 <= i < descs@.len() ==> (#[trigger] descs@[i]).0 as int == len_before(
                        descs@,
                        i,
                    ),
                descs@ == spec_parse_pairs(header@, bl as int, 0, 0),
            decreases hl - pos,
        {
            if hl - pos < 8 {
                proof {
                    assert(descs@ + spec_parse_pairs(header@, bl as int, pos as int, total as int)
                        =~= descs@);
                }
                break ;
            }
            let off = u32_from_le_bytes(&header[pos..pos + 4]);
            let len = u32_from_le_bytes(&header[pos + 4..pos + 8]);
            proof {
                assert(header@.subrange(pos as int, pos as int + 4) =~= header@.subrange(
                    pos as int,
                    pos + 4 as int,
                ));
            }
            if off as usize != total || len as usize > bl - total || len as usize > u32::MAX
                as usize - total {
                proof {
                    assert(spec_parse_pairs(header@, bl as int, pos as int, total as int)
                        =~= Seq::<(u32, u32)>::empty());
                    assert(descs@ + spec_parse_pairs(header@, bl as int, pos as int, total as int)
                        =~= descs@);
                }
                break ;
            }
            proof {
                let ghost rest = spec_parse_pairs(
                    header@,
                    bl as int,
                    pos as int + 8,
                    total as int + len as int,
                );
                assert(spec_parse_pairs(header@, bl as int, pos as int, total as int) == seq![
                    (off, len),
                ] + rest);
                assert(descs@ + (seq![(off, len)] + rest) =~= descs@.push((off, len)) + rest);
            }
            let ghost prev = descs@;
            descs.push((off, len));
            total = total + len as usize;
            pos = pos + 8;
            proof {
                let ds = descs@;
                lemma_len_before_agree(ds, prev, prev.len() as int);
                assert(len_before(ds, ds.len() as int) == len_before(prev, prev.len() as int)
                    + len);
                assert forall|i: int| 0 <= i < ds.len() implies (#[trigger] ds[i]).0 as int
                    == len_before(ds, i) by {
                    lemma_len_before_agree(ds, prev, i);
                    if i < prev.len() {
                        assert(prev[i].0 as int == len_before(prev, i));
                        assert(ds[i] == prev[i]);
                    }
                }
            }
        }
        let data = slice_to_vec(&body[0..total]);
        let h = MemoryHeap { descriptors: descs, data };
        proof {
            assert(h.bytes() =~= body@.take(len_before(h.descs(), h.descs().len() as int)));
        }
        h
    }
}

/// After replacing the length of descriptor `index` by `new_len`, every
/// running total past `index` shifts by the length difference.
pub proof fn lemma_len_before_agree2(
    a: Seq<(u32, u32)>,
    b: Seq<(u32, u32)>,
    index: int,
    k: int,
    new_len: int,
)
    requires
        0 <= index < k,
        k <= a.len(),
        k <= b.len(),
        forall|j: int| 0 <= j < k && j != index ==> (#[trigger] a[j]).1 == b[j].1,
        a[index].1 == new_len,
    ensures
        len_before(a, k) == len_before(b, k) - b[index].1 + new_len,
    decreases k,
{
    if k == index + 1 {
        lemma_len_before_agree(a, b, index);
    } else {
        lemma_len_before_agree2(a, b, index, k - 1, new_len);
    }
}

/// Round trip: parsing the serialised header of a well-formed heap
/// against its own body size yields the descriptors it was made from.
pub proof fn lemma_heap_round_trip(h: MemoryHeap)
    requires
        h.wf(),
    ensures
        spec_parse_pairs(spec_header(h.descs()), h.size() as int, 0, 0) == h.descs(),
{
    lemma_parse_header_suffix(h.descs(), 0, h.size() as int);
    assert(spec_parse_pairs(spec_header(h.descs()), h.size() as int, 0, 0) =~= h.descs());
}

/// Rebuilding a heap from its own header and body restores every blob:
/// `from_bytes(h.header(), h.to_bytes())` has the same descriptors, the
/// same bytes, and so the same contents at every descriptor index.
pub proof fn lemma_round_trip_blobs(h: MemoryHeap, r: MemoryHeap)
    requires
        h.wf(),
        r.descs() == spec_parse_pairs(spec_header(h.descs()), h.size() as int, 0, 0),
        r.bytes() == h.bytes().take(len_before(r.descs(), r.descs().len() as int)),
    ensures
        r.descs() == h.descs(),
        r.bytes() == h.bytes(),
        r.blob_count() == h.blob_count(),
        forall|k: int| 0 <= k < h.blob_count() ==> r.blob(k) == h.blob(k),
{
    lemma_heap_round_trip(h);
    assert(r.bytes() =~= h.bytes());
}

proof fn lemma_parse_header_suffix(descs: Seq<(u32, u32)>, i: int, bl: int)
    requires
        0 <= i <= descs.len(),
        forall|j: int|
            0 <= j < descs.len() ==> (#[trigger] descs[j]).0 as int == len_before(descs, j),
        bl == len_before(descs, descs.len() as int),
        bl <= u32::MAX,
    ensures
        spec_parse_pairs(spec_header(descs), bl, 8 * i, len_before(descs, i)) == descs.skip(i),
    decreases descs.len() - i,
{
    lemma_auto_spec_u32_to_from_le_bytes();
    lemma_spec_header_len(descs);
    let h = spec_header(descs);
    if i == descs.len() {
        assert(spec_parse_pairs(h, bl, 8 * i, len_before(descs, i)) =~= descs.skip(i));
    } else {
        lemma_spec_header_index(descs, i);
        let total = len_before(descs, i);
        let off = spec_u32_from_le_bytes(h.subrange(8 * i, 8 * i + 4));
        let len = spec_u32_from_le_bytes(h.subrange(8 * i + 4, 8 * i + 8));
        assert(spec_u32_to_le_bytes(descs[i].0).len() == 4);
        assert(spec_u32_to_le_bytes(descs[i].1).len() == 4);
        assert(spec_u32_from_le_bytes(spec_u32_to_le_bytes(descs[i].0)) == descs[i].0);
        assert(spec_u32_from_le_bytes(spec_u32_to_le_bytes(descs[i].1)) == descs[i].1);
        assert(off == descs[i].0);
        assert(len == descs[i].1);
        assert(total + len == len_before(descs, i + 1));
        lemma_len_before_mono(descs, i + 1, descs.len() as int);
        lemma_parse_header_suffix(descs, i + 1, bl);
        assert(spec_parse_pairs(h, bl, 8 * i, total) =~= seq![(off, len)] + descs.skip(i + 1));
        assert(seq![(off, len)] + descs.skip(i + 1) =~= descs.skip(i));
    }
}

} // verus!

verus! {

/// The heap as a sequence of blob contents.
pub open spec fn heap_blobs(h: MemoryHeap) -> Seq<Seq<u8>> {
    Seq::new(h.blob_count(), |i: int| h.blob(i))
}

/// Total size of a sequence of blobs.
pub open spec fn blobs_size(blobs: Seq<Seq<u8>>) -> int
    decreases blobs.len(),
{
    if blobs.len() == 0 {
        0
    } else {
        blobs_size(blobs.drop_last()) + blobs.last().len()
    }
}

/// All blob contents, concatenated in order.
pub open spec fn concat_blobs(blobs: Seq<Seq<u8>>) -> Seq<u8>
    decreases blobs.len(),
{
    if blobs.len() == 0 {
        Seq::empty()
    } else {
        concat_blobs(blobs.drop_last()) + blobs.last()
    }
}

/// The descriptor table a sequence of blobs serialises to.
pub open spec fn descs_of_blobs(blobs: Seq<Seq<u8>>) -> Seq<(u32, u32)> {
    Seq::new(
        blobs.len(),
        |i: int| ((blobs_size(blobs.take(i)) as u32, blobs[i].len() as u32)),
    )
}

/// Prefix bridge between a well-formed heap and its blob model: running
/// descriptor totals are blob-size prefix sums, and the backing array's
/// prefixes are the blob concatenations.
pub proof fn lemma_heap_model_prefix(h: MemoryHeap, k: int)
    requires
        h.wf(),
        0 <= k <= h.blob_count(),
    ensures
        len_before(h.descs(), k) == blobs_size(heap_blobs(h).take(k)),
        h.bytes().take(len_before(h.descs(), k)) == concat_blobs(heap_blobs(h).take(k)),
    decreases k,
{
    let blobs = heap_blobs(h);
    if k == 0 {
        assert(blobs.take(0) =~= Seq::<Seq<u8>>::empty());
        assert(h.bytes().take(0) =~= Seq::<u8>::empty());
    } else {
        lemma_heap_model_prefix(h, k - 1);
        h.lemma_blob_in_bounds(k - 1);
        assert(blobs.take(k).drop_last() =~= blobs.take(k - 1));
        assert(blobs.take(k).last() == h.blob(k - 1));
        lemma_len_before_mono(h.descs(), k, h.descs().len() as int);
        assert(h.bytes().take(len_before(h.descs(), k)) =~= h.bytes().take(
            len_before(h.descs(), k - 1),
        ) + h.blob(k - 1));
    }
}

/// A well-formed heap is exactly the serialisation of its blob model.
pub proof fn lemma_heap_model(h: MemoryHeap)
    requires
        h.wf(),
    ensures
        h.descs() == descs_of_blobs(heap_blobs(h)),
        h.bytes() == concat_blobs(heap_blobs(h)),
        h.size() == blobs_size(heap_blobs(h)),
{
    let blobs = heap_blobs(h);
    let count = h.blob_count() as int;
    lemma_heap_model_prefix(h, count);
    assert(blobs.take(count) =~= blobs);
    assert(h.bytes().take(len_before(h.descs(), count)) =~= h.bytes());
    assert forall|i: int| 0 <= i < count implies h.descs()[i] == descs_of_blobs(blobs)[i] by {
        lemma_heap_model_prefix(h, i);
        h.lemma_blob_in_bounds(i);
    }
    assert(h.descs() =~= descs_of_blobs(blobs));
}

impl MemoryHeap {
    /// A well-formed heap fits the `u32` offsets of the header format.
    pub proof fn lemma_size_bound(&self)
        requires
            self.wf(),
        ensures
            self.size() <= u32::MAX,
    {
    }

    /// The number of blobs in the heap.
    pub fn count(&self) -> (r: usize)
        ensures
            r == self.blob_count(),
    {
        self.descriptors.len()
    }

    /// The total size of the backing array, in bytes.
    pub fn byte_len(&self) -> (r: usize)
        ensures
            r == self.size(),
    {
        self.data.len()
    }
}

} // verus!

verus! {

/// The descriptors read back from an image's padded header region:
/// pairs are taken while contiguous, within the body and not the
/// all-zero padding; at most `limit` pairs are read.
pub open spec fn spec_image_pairs(h: Seq<u8>, bl: int, pos: int, total: int) -> Seq<(u32, u32)>
    decreases h.len() - pos,
{
    if pos < 0 || pos + 8 > h.len() {
        Seq::empty()
    } else {
        let off = spec_u32_from_le_bytes(h.subrange(pos, pos + 4));
        let len = spec_u32_from_le_bytes(h.subrange(pos + 4, pos + 8));
        if (off == 0 && len == 0) || off as int != total || total + len > bl || total + len
            > u32::MAX {
            Seq::empty()
        } else {
            seq![(off, len)] + spec_image_pairs(h, bl, pos + 8, total + len)
        }
    }
}

impl MemoryHeap {
    /// Rebuilds a heap from an image's padded header region and the
    /// bytes that follow the prologue: descriptor pairs are read while
    /// they stay contiguous and within the body; an all-zero pair is
    /// padding and ends the table.
    pub fn from_image_header(header: &[u8], body: &[u8]) -> (h: MemoryHeap)
        ensures
            h.wf(),
            h.descs() == spec_image_pairs(header@, body@.len() as int, 0, 0),
            h.bytes() == body@.take(len_before(h.descs(), h.descs().len() as int)),
            h.size() <= body@.len(),
    {
        let mut descs: Vec<(u32, u32)> = Vec::new();
        let mut total: usize = 0;
        let mut pos: usize = 0;
        let hl = header.len();
        let bl = body.len();
        loop
            invariant
                pos <= hl,
                hl == header@.len(),
                bl == body@.len(),
                total <= bl,
                total <= u32::MAX,
                total == len_before(descs@, descs@.len() as int),
                forall|i: int|
                    0 <= i < descs@.len() ==> (#[trigger] descs@[i]).0 as int == len_before(
                        descs@,
                        i,
                    ),
                spec_image_pairs(header@, bl as int, 0, 0) == descs@ + spec_image_pairs(
                    header@,
                    bl as int,
                    pos as int,
                    total as int,
                ),
            ensures
                total <= bl,
                total <= u32::MAX,
                total == len_before(descs@, descs@.len() as int),
                forall|i: int|
                    0 <= i < descs@.len() ==> (#[trigger] descs@[i]).0 as int == len_before(
                        descs@,
                        i,
                    ),
                descs@ == spec_image_pairs(header@, bl as int, 0, 0),
            decreases hl - pos,
        {
            if hl - pos < 8 {
                proof {
                    assert(descs@ + spec_image_pairs(header@, bl as int, pos as int, total as int)
                        =~= descs@);
                }
                break ;
            }
            let off = u32_from_le_bytes(&header[pos..pos + 4]);
            let len = u32_from_le_bytes(&header[pos + 4..pos + 8]);
            if (off == 0 && len == 0) || off as usize != total || len as usize > bl - total || len
                as usize > u32::MAX as usize - total {
                proof {
                    assert(spec_image_pairs(header@, bl as int, pos as int, total as int)
                        =~= Seq::<(u32, u32)>::empty());
                    assert(descs@ + spec_image_pairs(header@, bl as int, pos as int, total as int)
                        =~= descs@);
                }
                break ;
            }
            proof {
                let ghost rest = spec_image_pairs(
                    header@,
                    bl as int,
                    pos as int + 8,
                    total as int + len as int,
                );
                assert(spec_image_pairs(header@, bl as int, pos as int, total as int) == seq![
                    (off, len),
                ] + rest);
                assert(descs@ + (seq![(off, len)] + rest) =~= descs@.push((off, len)) + rest);
            }
            let ghost prev = descs@;
            descs.push((off, len));
            total = total + len as usize;
            pos = pos + 8;
            proof {
                let ds = descs@;
                lemma_len_before_agree(ds, prev, prev.len() as int);
                assert(len_before(ds, ds.len() as int) == len_before(prev, prev.len() as int)
                    + len);
                assert forall|i: int| 0 <= i < ds.len() implies (#[trigger] ds[i]).0 as int
                    == len_before(ds, i) by {
                    lemma_len_before_agree(ds, prev, i);
                    if i < prev.len() {
                        assert(prev[i].0 as int == len_before(prev, i));
                        assert(ds[i] == prev[i]);
                    }
                }
            }
        }
        let data = slice_to_vec(&body[0..total]);
        let h = MemoryHeap { descriptors: descs, data };
        proof {
            assert(h.bytes() =~= body@.take(len_before(h.descs(), h.descs().len() as int)));
        }
        h
    }
}

} // verus!
