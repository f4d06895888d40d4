//! The archive of blocks that a commit carries: a header block, then blocks
//! of an identifier and a value each, every block behind its length.
use crate::cid::{cid_prefix, cid_read, Cid, CidView};
use crate::ipld::{decode_item, decoded_item, Datum};
use vstd::prelude::*;
use vstd::slice::slice_subrange;

verus! {

/// The unsigned LEB128 number that starts at `i`, and the number of bytes it
/// takes, where `k` bytes of it stand before `i`: seven bits a byte, lowest
/// first, the top bit set on all but the last byte. The tenth byte may only
/// be 0 or 1; without a last byte there is no number.
pub open spec fn leb128_at(b: Seq<u8>, i: int, k: nat) -> Option<(nat, nat)>
    decreases b.len() - i,
{
    if i < 0 || i >= b.len() {
        None
    } else if k >= 9 && b[i] != 0 && b[i] != 1 {
        None
    } else if b[i] < 128 {
        Some((b[i] as nat, 1))
    } else {
        match leb128_at(b, i + 1, k + 1) {
            Some((v, n)) => Some((((b[i] - 128) + 128 * v) as nat, n + 1)),
            None => None,
        }
    }
}

/// A bound on the number that starts with its byte number `k`: 2 at the
/// tenth byte, 128 times the bound of the next byte before.
pub open spec fn leb128_bound(k: nat) -> nat
    decreases 9 - k,
{
    if k >= 9 {
        2
    } else {
        128 * leb128_bound(k + 1)
    }
}

/// A number of up to ten bytes fits in 64 bits.
proof fn lemma_leb128_bound(k: nat)
    ensures
        2 <= leb128_bound(k) <= 0x1_0000_0000_0000_0000,
        k >= 9 ==> leb128_bound(k) == 2,
        k < 9 ==> leb128_bound(k) == 128 * leb128_bound(k + 1),
    decreases 9 - k,
{
    reveal_with_fuel(leb128_bound, 11);
    if k < 9 {
        lemma_leb128_bound(k + 1);
        assert(leb128_bound(0) == 0x1_0000_0000_0000_0000);
        if k == 1 {
            assert(leb128_bound(1) == 0x200_0000_0000_0000);
        } else if k == 2 {
            assert(leb128_bound(2) == 0x4_0000_0000_0000);
        } else if k == 3 {
            assert(leb128_bound(3) == 0x800_0000_0000);
        } else if k == 4 {
            assert(leb128_bound(4) == 0x10_0000_0000);
        } else if k == 5 {
            assert(leb128_bound(5) == 0x2000_0000);
        } else if k == 6 {
            assert(leb128_bound(6) == 0x40_0000);
        } else if k == 7 {
            assert(leb128_bound(7) == 0x8000);
        } else if k == 8 {
            assert(leb128_bound(8) == 0x100);
        }
    }
}

/// Reads the unsigned LEB128 number that starts at `i`, where `k` bytes of
/// it stand before `i`.
fn read_varint_from(data: &[u8], i: usize, k: u8) -> (r: Option<(u64, usize)>)
    requires
        i <= data.len(),
        k <= 9,
    ensures
        match r {
            Some((v, n)) => leb128_at(data@, i as int, k as nat) == Some((v as nat, n as nat)) && 1
                <= n <= data.len() - i && v < leb128_bound(k as nat),
            None => leb128_at(data@, i as int, k as nat) is None,
        },
    decreases data.len() - i,
{
    proof {
        lemma_leb128_bound(k as nat);
    }
    if i >= data.len() {
        return None;
    }
    let byte = data[i];
    if k >= 9 && byte != 0 && byte != 1 {
        return None;
    }
    if byte < 128 {
        assert(k < 9 ==> leb128_bound(k as nat) >= 128) by {
            lemma_leb128_bound(k as nat);
            lemma_leb128_bound((k + 1) as nat);
        }
        return Some((byte as u64, 1));
    }
    match read_varint_from(data, i + 1, k + 1) {
        Some((v, n)) => {
            proof {
                lemma_leb128_bound((k + 1) as nat);
            }
            Some(((byte - 128) as u64 + 128 * v, n + 1))
        },
        None => None,
    }
}

/// Reads the unsigned LEB128 number that starts at `from`: the number and how
/// many bytes it takes. Running out of bytes and a number beyond 64 bits both
/// give nothing.
pub fn read_varint(data: &[u8], from: usize) -> (r: Option<(u64, usize)>)
    requires
        from <= data.len(),
    ensures
        match r {
            Some((v, n)) => leb128_at(data@, from as int, 0) == Some((v as nat, n as nat)) && 1
                <= n <= data.len() - from,
            None => leb128_at(data@, from as int, 0) is None,
        },
{
    read_varint_from(data, from, 0)
}

/// The block whose length stands at `pos`: where its content starts and
/// ends, and where the next block starts. A block that would reach beyond the
/// bytes is empty and ends the archive.
pub open spec fn block_at(data: Seq<u8>, pos: int) -> Option<(int, int, int)> {
    match leb128_at(data, pos, 0) {
        Some((len, n)) => if pos + n + len <= data.len() {
            Some((pos + n, pos + n + len, pos + n + len))
        } else {
            Some((pos + n, pos + n, data.len() as int))
        },
        None => None,
    }
}

/// Frames the block at `pos`.
pub fn get_block(data: &[u8], pos: usize) -> (r: Option<(usize, usize, usize)>)
    requires
        pos <= data.len(),
    ensures
        match r {
            Some((start, end, next)) => block_at(data@, pos as int) == Some(
                (start as int, end as int, next as int),
            ) && pos < start <= end <= next <= data.len(),
            None => block_at(data@, pos as int) is None,
        },
{
    match read_varint(data, pos) {
        Some((len, n)) => {
            let start: usize = pos + n;
            let room: usize = data.len() - start;
            if len <= room as u64 {
                Some((start, start + len as usize, start + len as usize))
            } else {
                Some((start, start, data.len()))
            }
        },
        None => None,
    }
}

/// The identifier and the value that the block `data[start..end]` holds: the
/// identifier first, then one DAG-CBOR item.
pub open spec fn entry_of(data: Seq<u8>, start: int, end: int) -> Option<(CidView, Datum)> {
    let block = data.subrange(start, end);
    match cid_prefix(block) {
        Some((c, n)) => match decoded_item(block, n as int) {
            Some((v, _)) => Some((c, v)),
            None => None,
        },
        None => None,
    }
}

/// The entries of the blocks from `pos` on, in the order of the archive. A
/// block that holds no entry is passed over; a length that cannot be read
/// ends the archive.
pub open spec fn car_entries(data: Seq<u8>, pos: int) -> Seq<(CidView, Datum)>
    decreases data.len() - pos,
{
    if pos < 0 || pos >= data.len() {
        Seq::empty()
    } else {
        match block_at(data, pos) {
            Some((start, end, next)) => if next > pos {
                (match entry_of(data, start, end) {
                    Some(e) => seq![e],
                    None => Seq::empty(),
                }) + car_entries(data, next)
            } else {
                Seq::empty()
            },
            None => Seq::empty(),
        }
    }
}

/// Index of the entry with key `k` among the first `n`, or -1.
pub open spec fn key_index(s: Seq<(CidView, Datum)>, k: CidView, n: int) -> int
    decreases n,
{
    if n <= 0 || n > s.len() {
        -1
    } else if key_index(s, k, n - 1) >= 0 {
        key_index(s, k, n - 1)
    } else if s[n - 1].0 == k {
        n - 1
    } else {
        -1
    }
}

/// The map `s` after `k` is set to `v`: the entry of `k` replaced where it
/// stands, or a new entry at the end.
pub open spec fn inserted(s: Seq<(CidView, Datum)>, k: CidView, v: Datum) -> Seq<(CidView, Datum)> {
    let i = key_index(s, k, s.len() as int);
    if 0 <= i < s.len() {
        s.update(i, (k, v))
    } else {
        s.push((k, v))
    }
}

/// The map `acc` after the entries `e` are set one after the other.
pub open spec fn inserted_all(acc: Seq<(CidView, Datum)>, e: Seq<(CidView, Datum)>) -> Seq<
    (CidView, Datum),
>
    decreases e.len(),
{
    if e.len() == 0 {
        acc
    } else {
        inserted_all(inserted(acc, e[0].0, e[0].1), e.skip(1))
    }
}

/// The entries of a store as mathematical pairs.
pub open spec fn entries_view(s: Seq<(Cid, Datum)>) -> Seq<(CidView, Datum)> {
    Seq::new(s.len(), |i: int| (s[i].0@, s[i].1))
}

/// What an archive decodes to: its header value and its map of entries, or
/// nothing where the header block cannot be read.
pub open spec fn archive_of(data: Seq<u8>) -> Option<(Datum, Seq<(CidView, Datum)>)> {
    match block_at(data, 0) {
        Some((start, end, next)) => match decoded_item(data.subrange(start, end), 0) {
            Some((h, _)) => Some((h, inserted_all(Seq::empty(), car_entries(data, next)))),
            None => None,
        },
        None => None,
    }
}

/// The value that the map `m` holds under `c`.
pub open spec fn stored(m: Seq<(CidView, Datum)>, c: CidView) -> Option<Datum> {
    let i = key_index(m, c, m.len() as int);
    if 0 <= i < m.len() {
        Some(m[i].1)
    } else {
        None
    }
}

/// The value that the archive `data` holds under `c`.
pub open spec fn archive_value(data: Seq<u8>, c: CidView) -> Option<Datum> {
    match archive_of(data) {
        Some((_, m)) => stored(m, c),
        None => None,
    }
}

/// A store of blocks, addressed by identifier.
#[derive(Debug, PartialEq)]
pub struct Blocks {
    pub header: Datum,
    pub data: Vec<(Cid, Datum)>,
}

/// Where a key is found there is an entry with the key and none before it;
/// where it is not found no entry has the key.
pub proof fn lemma_key_index(s: Seq<(CidView, Datum)>, k: CidView, n: int)
    requires
        0 <= n <= s.len(),
    ensures
        -1 <= key_index(s, k, n) < n,
        key_index(s, k, n) >= 0 ==> s[key_index(s, k, n)].0 == k,
        key_index(s, k, n) < 0 ==> forall|j: int| 0 <= j < n ==> (#[trigger] s[j]).0 != k,
        forall|j: int| 0 <= j < key_index(s, k, n) ==> (#[trigger] s[j]).0 != k,
    decreases n,
{
    if n > 0 {
        lemma_key_index(s, k, n - 1);
    }
}

proof fn lemma_key_index_stable(s: Seq<(CidView, Datum)>, k: CidView, i: int, n: int)
    requires
        0 <= i <= n <= s.len(),
        key_index(s, k, i) >= 0,
    ensures
        key_index(s, k, n) == key_index(s, k, i),
    decreases n - i,
{
    if i < n {
        lemma_key_index_stable(s, k, i, n - 1);
    }
}

impl Blocks {
    /// No identifier has two entries.
    pub open spec fn wf(&self) -> bool {
        forall|i: int, j: int|
            0 <= i < j < self.data.len() ==> (#[trigger] self.data[i]).0@ != (
            #[trigger] self.data[j]).0@
    }

    /// The value stored under `cid`, if there is one.
    pub open spec fn value_of(&self, cid: CidView) -> Option<Datum> {
        stored(entries_view(self.data@), cid)
    }

    /// The empty store: a null header and no entries.
    pub fn default() -> (r: Blocks)
        ensures
            r.header == Datum::Null,
            r.data@.len() == 0,
            r.wf(),
    {
        Blocks { header: Datum::Null, data: Vec::new() }
    }

    /// Position of the entry of `cid`.
    fn find(&self, cid: &Cid) -> (r: Option<usize>)
        ensures
            match r {
                Some(i) => i < self.data.len() && key_index(
                    entries_view(self.data@),
                    cid@,
                    self.data.len() as int,
                ) == i,
                None => key_index(entries_view(self.data@), cid@, self.data.len() as int) < 0,
            },
    {
        let ghost m = entries_view(self.data@);
        let mut i: usize = 0;
        while i < self.data.len()
            invariant
                i <= self.data.len(),
                m == entries_view(self.data@),
                key_index(m, cid@, i as int) < 0,
            decreases self.data.len() - i,
        {
            if self.data[i].0.same(cid) {
                proof {
                    assert(m[i as int].0 == cid@);
                    assert(key_index(m, cid@, i + 1) == i);
                    lemma_key_index_stable(m, cid@, i + 1, m.len() as int);
                }
                return Some(i);
            }
            i += 1;
        }
        None
    }

    /// Returns the value stored under `cid`.
    pub fn get(&self, cid: &Cid) -> (r: Option<&Datum>)
        ensures
            match r {
                Some(v) => self.value_of(cid@) == Some(*v),
                None => self.value_of(cid@) is None,
            },
    {
        match self.find(cid) {
            Some(i) => Some(&self.data[i].1),
            None => None,
        }
    }

    /// Sets the value stored under `cid`.
    pub fn insert(&mut self, cid: Cid, value: Datum)
        requires
            old(self).wf(),
        ensures
            final(self).wf(),
            final(self).header == old(self).header,
            entries_view(final(self).data@) == inserted(entries_view(old(self).data@), cid@, value),
    {
        let ghost before = entries_view(self.data@);
        proof {
            lemma_key_index(before, cid@, before.len() as int);
        }
        match self.find(&cid) {
            Some(i) => {
                self.data.set(i, (cid, value));
                assert(entries_view(self.data@) =~= before.update(i as int, (cid@, value)));
                assert forall|a: int, b: int| 0 <= a < b < self.data.len() implies (
                #[trigger] self.data[a]).0@ != (#[trigger] self.data[b]).0@ by {
                    assert(before[a].0 == old(self).data[a].0@);
                    assert(before[b].0 == old(self).data[b].0@);
                }
            },
            None => {
                self.data.push((cid, value));
                assert(entries_view(self.data@) =~= before.push((cid@, value)));
                assert forall|a: int, b: int| 0 <= a < b < self.data.len() implies (
                #[trigger] self.data[a]).0@ != (#[trigger] self.data[b]).0@ by {
                    if b < before.len() {
                        assert(before[a].0 == old(self).data[a].0@);
                        assert(before[b].0 == old(self).data[b].0@);
                    } else {
                        assert(before[a].0 == old(self).data[a].0@);
                    }
                }
            },
        }
    }

    /// Decodes an archive. Where the header block cannot be read the store is
    /// empty; a block that cannot be read is passed over.
    pub fn from(data: &[u8]) -> (r: Blocks)
        ensures
            r.wf(),
            match archive_of(data@) {
                Some((h, m)) => r.header == h && entries_view(r.data@) == m,
                None => r.header == Datum::Null && r.data@.len() == 0,
            },
            forall|c: CidView| r.value_of(c) == archive_value(data@, c),
    {
        let (hstart, hend, first) = match get_block(data, 0) {
            Some(b) => b,
            None => return Blocks::default(),
        };
        let header = match decode_item(slice_subrange(data, hstart, hend), 0) {
            Some((h, _)) => h,
            None => return Blocks::default(),
        };
        let mut ret = Blocks { header, data: Vec::new() };
        let mut pos: usize = first;
        proof {
            assert(entries_view(ret.data@) =~= Seq::empty());
        }
        while pos < data.len()
            invariant
                pos <= data.len(),
                ret.wf(),
                archive_of(data@) matches Some((h, m)) && ret.header == h && inserted_all(
                    entries_view(ret.data@),
                    car_entries(data@, pos as int),
                ) == m,
            decreases data.len() - pos,
        {
            match get_block(data, pos) {
                Some((start, end, next)) => {
                    let block = slice_subrange(data, start, end);
                    let ghost rest = car_entries(data@, next as int);
                    match cid_read(block) {
                        Some((cid, n)) => match decode_item(block, n) {
                            Some((value, _)) => {
                                proof {
                                    let e = (cid@, value);
                                    assert(car_entries(data@, pos as int) == seq![e] + rest);
                                    assert((seq![e] + rest).skip(1) =~= rest);
                                }
                                ret.insert(cid, value);
                            },
                            None => {
                                assert(car_entries(data@, pos as int) =~= rest);
                            },
                        },
                        None => {
                            assert(car_entries(data@, pos as int) =~= rest);
                        },
                    }
                    pos = next;
                },
                None => {
                    assert(car_entries(data@, pos as int) =~= Seq::empty());
                    pos = data.len();
                },
            }
        }
        assert(car_entries(data@, pos as int) =~= Seq::empty());
        ret
    }
}

} // verus!
