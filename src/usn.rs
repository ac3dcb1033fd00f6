//! Recovery of records from raw journal bytes: overlapping chunks, a signature
//! scan over each chunk's search window, and validation of every candidate.

use crate::le::{le16, le32, read_u16, read_u32};
use crate::record::{
    record_fields, v2_header_ok, v3_header_ok, EntryMeta, UsnEntry, MAX_RECORD_LENGTH,
};
use vstd::prelude::*;
use vstd::slice::slice_subrange;

verus! {

/// Bytes read for each chunk.
pub const SIZE_CHUNK: usize = 17408;

/// Bytes of each chunk in which a record may start; the next chunk starts here.
pub const SIZE_SEARCH: usize = 16384;

/// The six bytes at `i + 2` of `h` read as bytes 2..8 of a V2 or V3 header:
/// the high half of a record length below 65536, major version 2 or 3, minor 0.
pub open spec fn signature_at(h: Seq<u8>, i: int) -> bool {
    &&& 0 <= i
    &&& i + 8 <= h.len()
    &&& h[i + 2] == 0
    &&& h[i + 3] == 0
    &&& (h[i + 4] == 2 || h[i + 4] == 3)
    &&& h[i + 5] == 0
    &&& h[i + 6] == 0
    &&& h[i + 7] == 0
}

/// The starts of the leftmost non-overlapping 8-byte signature windows of `h`
/// from `from` on: a window found at `i` is skipped whole, the search going on
/// at `i + 8`.
pub open spec fn signature_starts(h: Seq<u8>, from: int) -> Seq<usize>
    decreases h.len() - from,
{
    if from < 0 || from + 8 > h.len() {
        seq![]
    } else if signature_at(h, from) {
        seq![from as usize] + signature_starts(h, from + 8)
    } else {
        signature_starts(h, from + 1)
    }
}

/// Relies on regex's `bytes::Regex::new` and `find_iter`: the starts of the
/// successive non-overlapping matches, which rise strictly and lie in the
/// haystack. A pattern that does not compile matches nothing. For the
/// signature pattern, which matches exactly the 8-byte windows of
/// `signature_at`, those are the `signature_starts` of the haystack.
#[verifier::external_body]
fn match_starts(pattern: &str, hay: &[u8]) -> (r: Vec<usize>)
    ensures
        forall|i: int, j: int| 0 <= i < j < r@.len() ==> r@[i] < r@[j],
        forall|i: int| 0 <= i < r@.len() ==> r@[i] <= hay@.len(),
        pattern@ == signature() ==> r@ == signature_starts(hay@, 0),
{
    match regex::bytes::Regex::new(pattern) {
        Ok(re) => re.find_iter(hay).map(|m| m.start()).collect(),
        Err(_) => Vec::new(),
    }
}

/// Bytes 4..8 of a V2 or V3 header (minor 0, major 2 or 3), after any two bytes
/// of the record length.
pub open spec fn signature() -> Seq<char> {
    "(?s-u)..\x00\x00[\x02\x03]\x00\x00\x00"@
}

/// The record that starts at `i` in `data`, if one lies wholly inside it.
pub open spec fn record_window(data: Seq<u8>, i: int) -> Seq<u8> {
    data.subrange(i, i + le32(data, i))
}

/// A valid V2 or V3 record starts at `i` and lies wholly inside `data`.
pub open spec fn record_at(data: Seq<u8>, i: int) -> bool {
    &&& 0 <= i
    &&& i + 4 <= data.len()
    &&& i + le32(data, i) <= data.len()
    &&& (v2_header_ok(record_window(data, i)) || v3_header_ok(record_window(data, i)))
}

/// The candidates among the first `k` that start inside the search window and
/// hold a valid record, in order.
pub open spec fn accepted(c: Seq<usize>, data: Seq<u8>, search: int, k: int) -> Seq<int>
    decreases k,
{
    if k <= 0 {
        seq![]
    } else {
        let prev = accepted(c, data, search, k - 1);
        if c[k - 1] < search && record_at(data, c[k - 1] as int) {
            prev.push(c[k - 1] as int)
        } else {
            prev
        }
    }
}

/// The intra-chunk offsets of the records found in a chunk.
pub open spec fn chunk_hits(data: Seq<u8>, search: int) -> Seq<int> {
    let c = signature_starts(data, 0);
    accepted(c, data, search, c.len() as int)
}

/// An emitted entry: found at `base + hit`, from `source`, and holding exactly
/// the record that the bytes at `hit` encode.
pub open spec fn entry_from(e: UsnEntry, source: Seq<char>, base: int, data: Seq<u8>, hit: int) -> bool {
    &&& record_at(data, hit)
    &&& e.meta.source@ == source
    &&& e.meta.offset == base + hit
    &&& e.record.spec_record_length() == le32(data, hit)
    &&& record_fields(record_window(data, hit), e.record)
}

proof fn lemma_accepted_facts(c: Seq<usize>, data: Seq<u8>, search: int, k: int)
    requires
        0 <= k <= c.len(),
        forall|i: int, j: int| 0 <= i < j < c.len() ==> c[i] < c[j],
    ensures
        forall|j: int|
            0 <= j < accepted(c, data, search, k).len() ==> {
                let h = #[trigger] accepted(c, data, search, k)[j];
                0 <= h < search && record_at(data, h)
            },
        forall|i: int, j: int|
            0 <= i < j < accepted(c, data, search, k).len() ==> accepted(c, data, search, k)[i]
                < accepted(c, data, search, k)[j],
        k > 0 && accepted(c, data, search, k).len() > 0 ==> accepted(c, data, search, k).last()
            <= c[k - 1],
    decreases k,
{
    if k > 0 {
        lemma_accepted_facts(c, data, search, k - 1);
        let prev = accepted(c, data, search, k - 1);
        if k > 1 && prev.len() > 0 {
            assert(prev.last() <= c[k - 2]);
            assert(c[k - 2] < c[k - 1]);
        }
    }
}

/// A chunk of journal bytes and where it sits in its input.
#[derive(Debug)]
pub struct DataChunk {
    pub source: String,
    pub offset: u64,
    pub search_size: usize,
    pub data: Vec<u8>,
}

impl DataChunk {
    /// Offsets and sizes fit in 64 bits, and the window lies in the data.
    pub open spec fn wf(&self) -> bool {
        &&& self.offset + self.data@.len() <= u64::MAX
        &&& self.search_size <= self.data@.len()
        &&& self.search_size <= SIZE_SEARCH
    }

    /// A chunk of `data` read at `offset`; its search window is the first
    /// `SIZE_SEARCH` bytes, or all of them where fewer were read.
    pub fn new(source: &str, offset: u64, data: Vec<u8>) -> (r: DataChunk)
        requires
            offset + data@.len() <= u64::MAX,
        ensures
            r.wf(),
            r.source@ == source@,
            r.offset == offset,
            r.data@ == data@,
            r.search_size == if data@.len() < SIZE_SEARCH {
                data@.len() as int
            } else {
                SIZE_SEARCH as int
            },
    {
        let search_size = if data.len() < SIZE_SEARCH {
            data.len()
        } else {
            SIZE_SEARCH
        };
        DataChunk { source: String::from_str(source), offset, search_size, data }
    }

    /// The records that start inside the search window, in ascending order of
    /// offset; each candidate that fails a check is skipped.
    pub fn get_records(self) -> (r: Vec<UsnEntry>)
        requires
            self.wf(),
        ensures
            r@.len() == chunk_hits(self.data@, self.search_size as int).len(),
            forall|k: int|
                0 <= k < r@.len() ==> entry_from(
                    #[trigger] r@[k],
                    self.source@,
                    self.offset as int,
                    self.data@,
                    chunk_hits(self.data@, self.search_size as int)[k],
                ),
            forall|k: int|
                0 <= k < r@.len() ==> 0 <= #[trigger] chunk_hits(
                    self.data@,
                    self.search_size as int,
                )[k] < self.search_size,
            forall|i: int, j: int|
                0 <= i < j < r@.len() ==> r@[i].meta.offset < r@[j].meta.offset,
    {
        records_in(&self.source, self.offset, &self.data, self.search_size)
    }
}

/// Decodes the record at `i` of `data`, or says why there is none.
fn record_at_index(source: &str, base: u64, data: &[u8], i: usize) -> (r: Option<UsnEntry>)
    requires
        base + data@.len() <= u64::MAX,
        i <= data@.len(),
    ensures
        r is Some <==> record_at(data@, i as int),
        r is Some ==> entry_from(r->Some_0, source@, base as int, data@, i as int),
{
    if data.len() < 8 || i > data.len() - 8 {
        return None;
    }
    let record_length = read_u32(data, i);
    if record_length % 8 != 0 || record_length > MAX_RECORD_LENGTH {
        return None;
    }
    if record_length as usize > data.len() - i {
        return None;
    }
    let end: usize = i + record_length as usize;
    let window = slice_subrange(data, i, end);
    let major = read_u16(data, i + 4);
    let version: u16 = if major == 3 {
        3
    } else {
        2
    };
    let meta = EntryMeta::new(source, base + i as u64);
    proof {
        assert(window@ == record_window(data@, i as int));
        if window@.len() >= 8 {
            assert(window@[4] == data@[i + 4]);
            assert(window@[5] == data@[i + 5]);
        }
        if window@.len() >= 4 {
            assert(window@[0] == data@[i + 0]);
            assert(window@[1] == data@[i + 1]);
            assert(window@[2] == data@[i + 2]);
            assert(window@[3] == data@[i + 3]);
        }
    }
    match UsnEntry::new(meta, version, window) {
        Ok(e) => Some(e),
        Err(_) => None,
    }
}

/// The records whose start the signature scan finds below `search` in `data`.
fn records_in(source: &String, base: u64, data: &Vec<u8>, search: usize) -> (r: Vec<UsnEntry>)
    requires
        base + data@.len() <= u64::MAX,
        search <= data@.len(),
    ensures
        r@.len() == chunk_hits(data@, search as int).len(),
        forall|k: int|
            0 <= k < r@.len() ==> entry_from(
                #[trigger] r@[k],
                source@,
                base as int,
                data@,
                chunk_hits(data@, search as int)[k],
            ),
        forall|k: int|
            0 <= k < r@.len() ==> 0 <= #[trigger] chunk_hits(data@, search as int)[k] < search,
        forall|i: int, j: int| 0 <= i < j < r@.len() ==> r@[i].meta.offset < r@[j].meta.offset,
{
    let cands = match_starts("(?s-u)..\x00\x00[\x02\x03]\x00\x00\x00", data.as_slice());
    proof {
        reveal_strlit("(?s-u)..\x00\x00[\x02\x03]\x00\x00\x00");
    }
    assert(cands@ == signature_starts(data@, 0));
    records_at_candidates(source, base, data, search, &cands)
}

/// The records at the candidate offsets that start below `search` and pass
/// every check, in the candidates' order; offsets count from `base`.
pub fn records_at_candidates(
    source: &String,
    base: u64,
    data: &Vec<u8>,
    search: usize,
    cands: &Vec<usize>,
) -> (r: Vec<UsnEntry>)
    requires
        base + data@.len() <= u64::MAX,
        search <= data@.len(),
        forall|i: int, j: int| 0 <= i < j < cands@.len() ==> cands@[i] < cands@[j],
        forall|i: int| 0 <= i < cands@.len() ==> cands@[i] <= data@.len(),
    ensures
        r@.len() == accepted(cands@, data@, search as int, cands@.len() as int).len(),
        forall|k: int|
            0 <= k < r@.len() ==> entry_from(
                #[trigger] r@[k],
                source@,
                base as int,
                data@,
                accepted(cands@, data@, search as int, cands@.len() as int)[k],
            ),
        forall|k: int|
            0 <= k < r@.len() ==> 0 <= #[trigger] accepted(
                cands@,
                data@,
                search as int,
                cands@.len() as int,
            )[k] < search,
        forall|i: int, j: int| 0 <= i < j < r@.len() ==> r@[i].meta.offset < r@[j].meta.offset,
{
    let ghost c = cands@;
    let mut out: Vec<UsnEntry> = Vec::new();
    let mut k: usize = 0;
    while k < cands.len()
        invariant
            k <= c.len(),
            c == cands@,
            base + data@.len() <= u64::MAX,
            search <= data@.len(),
            forall|i: int, j: int| 0 <= i < j < c.len() ==> c[i] < c[j],
            forall|i: int| 0 <= i < c.len() ==> c[i] <= data@.len(),
            out@.len() == accepted(c, data@, search as int, k as int).len(),
            forall|j: int|
                0 <= j < out@.len() ==> entry_from(
                    #[trigger] out@[j],
                    source@,
                    base as int,
                    data@,
                    accepted(c, data@, search as int, k as int)[j],
                ),
        decreases c.len() - k,
    {
        let i = cands[k];
        if i < search {
            match record_at_index(source.as_str(), base, data.as_slice(), i) {
                Some(e) => {
                    out.push(e);
                },
                None => {},
            }
        }
        k = k + 1;
        proof {
            let prev = accepted(c, data@, search as int, k - 1);
            let now = accepted(c, data@, search as int, k as int);
            assert(forall|j: int| 0 <= j < prev.len() ==> now[j] == prev[j]);
        }
    }
    proof {
        lemma_accepted_facts(c, data@, search as int, c.len() as int);
    }
    out
}

/// The records whose start the signature scan finds anywhere in `data`, as
/// in a buffer a journal read returned; offsets count from `base`.
pub fn scan_records(source: &str, base: u64, data: &Vec<u8>) -> (r: Vec<UsnEntry>)
    requires
        base + data@.len() <= u64::MAX,
    ensures
        r@.len() == chunk_hits(data@, data@.len() as int).len(),
        forall|k: int|
            0 <= k < r@.len() ==> entry_from(
                #[trigger] r@[k],
                source@,
                base as int,
                data@,
                chunk_hits(data@, data@.len() as int)[k],
            ),
        forall|i: int, j: int| 0 <= i < j < r@.len() ==> r@[i].meta.offset < r@[j].meta.offset,
{
    let s = String::from_str(source);
    records_in(&s, base, data, data.len())
}

/// Where the chunk after the one at `offset` starts in an input of `size`
/// bytes: one search window further on, while that is still inside the input.
pub fn next_chunk_offset(offset: u64, size: u64) -> (r: Option<u64>)
    ensures
        r is Some <==> offset + SIZE_SEARCH < size,
        r is Some ==> r->Some_0 == offset + SIZE_SEARCH,
{
    if offset < size && size - offset > SIZE_SEARCH as u64 {
        Some(offset + SIZE_SEARCH as u64)
    } else {
        None
    }
}

/// The bytes of the chunk that starts at `off`.
pub open spec fn chunk_at(data: Seq<u8>, off: int) -> Seq<u8> {
    data.subrange(off, if off + SIZE_CHUNK <= data.len() {
        off + SIZE_CHUNK
    } else {
        data.len() as int
    })
}

/// The search window of the chunk that starts at `off`.
pub open spec fn search_at(data: Seq<u8>, off: int) -> int {
    if chunk_at(data, off).len() < SIZE_SEARCH {
        chunk_at(data, off).len() as int
    } else {
        SIZE_SEARCH as int
    }
}

/// The absolute offsets of the records found in the chunks that start at
/// `off`, `off + SIZE_SEARCH`, ... below the end of `data`.
pub open spec fn hits_from(data: Seq<u8>, off: int) -> Seq<int>
    decreases data.len() - off,
{
    if off < 0 || off >= data.len() {
        seq![]
    } else {
        chunk_hits(chunk_at(data, off), search_at(data, off)).map_values(|h: int| off + h) + (
        if off + SIZE_SEARCH < data.len() {
            hits_from(data, off + SIZE_SEARCH)
        } else {
            seq![]
        })
    }
}

/// The absolute record offsets of each chunk from `off` on, one sequence per
/// chunk, in chunk order.
pub open spec fn chunk_parts(data: Seq<u8>, off: int) -> Seq<Seq<int>>
    decreases data.len() - off,
{
    if off < 0 || off >= data.len() {
        seq![]
    } else {
        seq![chunk_hits(chunk_at(data, off), search_at(data, off)).map_values(|h: int| off + h)]
            + (if off + SIZE_SEARCH < data.len() {
            chunk_parts(data, off + SIZE_SEARCH)
        } else {
            seq![]
        })
    }
}

/// The parts concatenated in order.
pub open spec fn concat(parts: Seq<Seq<int>>) -> Seq<int>
    decreases parts.len(),
{
    if parts.len() == 0 {
        seq![]
    } else {
        parts[0] + concat(parts.drop_first())
    }
}

proof fn lemma_hits_are_concatenated_chunks(data: Seq<u8>, off: int)
    ensures
        hits_from(data, off) == concat(chunk_parts(data, off)),
    decreases data.len() - off,
{
    if off >= 0 && off < data.len() {
        let p = chunk_parts(data, off);
        if off + SIZE_SEARCH < data.len() {
            lemma_hits_are_concatenated_chunks(data, off + SIZE_SEARCH);
        }
        assert(p.drop_first() =~= (if off + SIZE_SEARCH < data.len() {
            chunk_parts(data, off + SIZE_SEARCH)
        } else {
            seq![]
        }));
        if off + SIZE_SEARCH >= data.len() {
            assert(concat(p.drop_first()) == Seq::<int>::empty());
        }
    }
}

proof fn lemma_concat_split(parts: Seq<Seq<int>>, k: int)
    requires
        0 <= k <= parts.len(),
    ensures
        concat(parts) == concat(parts.subrange(0, k)) + concat(parts.subrange(k, parts.len() as int)),
    decreases k,
{
    if k == 0 {
        assert(parts.subrange(0, 0) =~= Seq::<Seq<int>>::empty());
        assert(parts.subrange(0, parts.len() as int) =~= parts);
        assert(concat(parts.subrange(0, 0)) == Seq::<int>::empty());
        assert(Seq::<int>::empty() + concat(parts) =~= concat(parts));
    } else {
        let t = parts.drop_first();
        lemma_concat_split(t, k - 1);
        assert(parts.subrange(0, k).drop_first() =~= t.subrange(0, k - 1));
        assert(parts.subrange(k, parts.len() as int) =~= t.subrange(k - 1, t.len() as int));
        assert(parts.subrange(0, k)[0] == parts[0]);
        assert(concat(parts) == parts[0] + concat(t));
        assert(concat(parts.subrange(0, k)) == parts[0] + concat(t.subrange(0, k - 1)));
        assert(parts[0] + (concat(t.subrange(0, k - 1)) + concat(t.subrange(k - 1, t.len() as int)))
            =~= (parts[0] + concat(t.subrange(0, k - 1))) + concat(
            t.subrange(k - 1, t.len() as int),
        ));
    }
}

/// The records of a journal do not depend on how its chunks are batched for
/// parallel decoding: they are the per-chunk results concatenated in chunk
/// order, and cutting that list of chunks into a first batch of any size `k`
/// and the rest gives the same concatenation.
pub proof fn lemma_batching_keeps_records(data: Seq<u8>, k: int)
    requires
        0 <= k <= chunk_parts(data, 0).len(),
    ensures
        hits_from(data, 0) == concat(chunk_parts(data, 0)),
        hits_from(data, 0) == concat(chunk_parts(data, 0).subrange(0, k)) + concat(
            chunk_parts(data, 0).subrange(k, chunk_parts(data, 0).len() as int),
        ),
{
    lemma_hits_are_concatenated_chunks(data, 0);
    lemma_concat_split(chunk_parts(data, 0), k);
}

proof fn lemma_record_signature(data: Seq<u8>, o: int)
    requires
        record_at(data, o),
    ensures
        signature_at(data, o),
        forall|s: int| o - 7 < s < o ==> !signature_at(data, s),
{
    let w = record_window(data, o);
    assert(w.len() >= 60);
    assert(forall|k: int| 0 <= k < 8 ==> w[k] == data[o + k]);
    assert(le32(w, 0) <= 1024 && le32(w, 0) >= 60 && le32(w, 0) % 8 == 0);
    assert(le16(w, 4) == 2 || le16(w, 4) == 3);
    assert(le16(w, 6) == 0);
    assert(data[o + 2] == 0 && data[o + 3] == 0);
    assert(data[o + 5] == 0 && data[o + 6] == 0 && data[o + 7] == 0);
    assert(data[o + 4] == 2 || data[o + 4] == 3);
}

proof fn lemma_scan_finds(h: Seq<u8>, from: int, o: int)
    requires
        h.len() <= usize::MAX,
        signature_at(h, o),
        0 <= from <= o,
        forall|s: int| from <= s < o && o - 8 < s ==> !signature_at(h, s),
    ensures
        exists|j: int|
            0 <= j < signature_starts(h, from).len() && signature_starts(h, from)[j] == o,
    decreases o - from,
{
    let t = signature_starts(h, from);
    if signature_at(h, from) {
        if from == o {
            assert(t == seq![from as usize] + signature_starts(h, from + 8));
            assert(t[0] == o);
        } else {
            lemma_scan_finds(h, from + 8, o);
            let j = choose|j: int|
                0 <= j < signature_starts(h, from + 8).len() && #[trigger] signature_starts(h, from + 8)[j]
                    == o;
            assert(t == seq![from as usize] + signature_starts(h, from + 8));
            assert(t[j + 1] == o);
        }
    } else {
        lemma_scan_finds(h, from + 1, o);
    }
}

proof fn lemma_signature_starts_sorted(h: Seq<u8>, from: int)
    requires
        0 <= from,
        h.len() <= usize::MAX,
    ensures
        forall|i: int|
            0 <= i < signature_starts(h, from).len() ==> from <= #[trigger] signature_starts(
                h,
                from,
            )[i] < h.len(),
        forall|i: int, j: int|
            0 <= i < j < signature_starts(h, from).len() ==> signature_starts(h, from)[i]
                < signature_starts(h, from)[j],
    decreases h.len() - from,
{
    if from + 8 <= h.len() {
        if signature_at(h, from) {
            lemma_signature_starts_sorted(h, from + 8);
            let t = signature_starts(h, from + 8);
            let w = signature_starts(h, from);
            assert(w == seq![from as usize] + t);
            assert((from as usize) as int == from);
            assert forall|i: int| 0 <= i < w.len() implies from <= #[trigger] w[i] < h.len() by {
                if i > 0 {
                    assert(w[i] == t[i - 1]);
                }
            }
            assert forall|i: int, j: int| 0 <= i < j < w.len() implies w[i] < w[j] by {
                assert(w[j] == t[j - 1]);
                if i > 0 {
                    assert(w[i] == t[i - 1]);
                }
            }
        } else {
            lemma_signature_starts_sorted(h, from + 1);
            assert(signature_starts(h, from) == signature_starts(h, from + 1));
        }
    }
}

proof fn lemma_accepted_contains(c: Seq<usize>, data: Seq<u8>, search: int, k: int, j: int)
    requires
        0 <= j < k <= c.len(),
        c[j] < search,
        record_at(data, c[j] as int),
    ensures
        exists|i: int|
            0 <= i < accepted(c, data, search, k).len() && accepted(c, data, search, k)[i]
                == c[j],
    decreases k,
{
    if j == k - 1 {
        let a = accepted(c, data, search, k);
        assert(a[a.len() - 1] == c[j]);
    } else {
        lemma_accepted_contains(c, data, search, k - 1, j);
        let i = choose|i: int|
            0 <= i < accepted(c, data, search, k - 1).len() && #[trigger] accepted(c, data, search, k - 1)[i]
                == c[j];
        assert(accepted(c, data, search, k)[i] == c[j]);
    }
}

proof fn lemma_chunk_finds(data: Seq<u8>, off: int, o: int)
    requires
        data.len() <= usize::MAX,
        0 <= off <= o < off + SIZE_SEARCH,
        record_at(data, o),
        forall|s: int| o - 8 < s < o ==> !signature_at(data, s),
    ensures
        exists|i: int|
            0 <= i < chunk_hits(chunk_at(data, off), search_at(data, off)).len() && chunk_hits(
                chunk_at(data, off),
                search_at(data, off),
            )[i] == o - off,
{
    let c = chunk_at(data, off);
    let h = o - off;
    let rl = le32(data, o);
    lemma_record_signature(data, o);
    assert(rl <= 1024);
    assert(c.len() >= h + rl);
    assert(forall|k: int| 0 <= k < c.len() ==> c[k] == data[off + k]);
    assert(le32(c, h) == le32(data, o));
    assert(record_window(c, h) =~= record_window(data, o));
    assert(record_at(c, h));
    assert(signature_at(c, h));
    assert forall|s: int| 0 <= s < h && h - 8 < s implies !signature_at(c, s) by {
        assert(!signature_at(data, off + s));
    }
    lemma_scan_finds(c, 0, h);
    let cands = signature_starts(c, 0);
    let j = choose|j: int| 0 <= j < cands.len() && #[trigger] cands[j] == h;
    assert(h < search_at(data, off));
    assert(record_at(c, cands[j] as int));
    lemma_accepted_contains(cands, c, search_at(data, off), cands.len() as int, j);
    assert(chunk_hits(c, search_at(data, off)) == accepted(
        cands,
        c,
        search_at(data, off),
        cands.len() as int,
    ));
}

proof fn lemma_in_hits_from(data: Seq<u8>, off: int, ok: int, o: int)
    requires
        0 <= off <= ok <= o < ok + SIZE_SEARCH,
        o < data.len(),
        (ok - off) % (SIZE_SEARCH as int) == 0,
        exists|i: int|
            0 <= i < chunk_hits(chunk_at(data, ok), search_at(data, ok)).len() && chunk_hits(
                chunk_at(data, ok),
                search_at(data, ok),
            )[i] == o - ok,
    ensures
        exists|i: int| 0 <= i < hits_from(data, off).len() && hits_from(data, off)[i] == o,
    decreases ok - off,
{
    let part = chunk_hits(chunk_at(data, off), search_at(data, off)).map_values(|h: int| off + h);
    let rest = if off + SIZE_SEARCH < data.len() {
        hits_from(data, off + SIZE_SEARCH)
    } else {
        seq![]
    };
    assert(hits_from(data, off) == part + rest);
    if off == ok {
        let i = choose|i: int|
            0 <= i < chunk_hits(chunk_at(data, ok), search_at(data, ok)).len() && #[trigger] chunk_hits(
                chunk_at(data, ok),
                search_at(data, ok),
            )[i] == o - ok;
        assert((part + rest)[i] == o);
    } else {
        assert(off + SIZE_SEARCH <= ok);
        lemma_in_hits_from(data, off + SIZE_SEARCH, ok, o);
        let i = choose|i: int|
            0 <= i < hits_from(data, off + SIZE_SEARCH).len() && #[trigger] hits_from(
                data,
                off + SIZE_SEARCH,
            )[i] == o;
        assert((part + rest)[part.len() + i] == o);
    }
}

proof fn lemma_hits_from_sorted(data: Seq<u8>, off: int)
    requires
        0 <= off,
        data.len() <= usize::MAX,
    ensures
        forall|i: int|
            0 <= i < hits_from(data, off).len() ==> off <= #[trigger] hits_from(data, off)[i],
        forall|i: int, j: int|
            0 <= i < j < hits_from(data, off).len() ==> hits_from(data, off)[i] < hits_from(
                data,
                off,
            )[j],
    decreases data.len() - off,
{
    if off < data.len() {
        let c = chunk_at(data, off);
        let search = search_at(data, off);
        let cands = signature_starts(c, 0);
        lemma_signature_starts_sorted(c, 0);
        lemma_accepted_facts(cands, c, search, cands.len() as int);
        let hs = chunk_hits(c, search);
        let part = hs.map_values(|h: int| off + h);
        let rest = if off + SIZE_SEARCH < data.len() {
            hits_from(data, off + SIZE_SEARCH)
        } else {
            seq![]
        };
        if off + SIZE_SEARCH < data.len() {
            lemma_hits_from_sorted(data, off + SIZE_SEARCH);
        }
        assert(hits_from(data, off) == part + rest);
        assert(forall|i: int| 0 <= i < part.len() ==> off <= #[trigger] part[i] < off + SIZE_SEARCH);
        assert(forall|i: int| 0 <= i < rest.len() ==> off + SIZE_SEARCH <= #[trigger] rest[i]);
    }
}

/// A record anywhere in the input, in a search window or running on into the
/// overlap after it, is found exactly once, provided no signature window
/// begins seven bytes before it (the one place where an earlier window could
/// overlap its own and hide it from the leftmost scan).
pub proof fn lemma_record_found_once(data: Seq<u8>, o: int)
    requires
        data.len() <= usize::MAX,
        record_at(data, o),
        o < 7 || !signature_at(data, o - 7),
    ensures
        exists|i: int| 0 <= i < hits_from(data, 0).len() && hits_from(data, 0)[i] == o,
        forall|i: int, j: int|
            0 <= i < hits_from(data, 0).len() && 0 <= j < hits_from(data, 0).len() && hits_from(
                data,
                0,
            )[i] == o && hits_from(data, 0)[j] == o ==> i == j,
{
    lemma_record_signature(data, o);
    let ok = o / (SIZE_SEARCH as int) * (SIZE_SEARCH as int);
    assert(0 <= ok <= o < ok + SIZE_SEARCH) by (nonlinear_arith)
        requires
            0 <= o,
            ok == o / (SIZE_SEARCH as int) * (SIZE_SEARCH as int),
            SIZE_SEARCH == 16384,
    ;
    assert(ok % (SIZE_SEARCH as int) == 0) by (nonlinear_arith)
        requires
            0 <= o,
            ok == o / (SIZE_SEARCH as int) * (SIZE_SEARCH as int),
            SIZE_SEARCH == 16384,
    ;
    lemma_chunk_finds(data, ok, o);
    lemma_in_hits_from(data, 0, ok, o);
    lemma_hits_from_sorted(data, 0);
}

/// The record at absolute offset `o` of `data` is `e`'s, found in `source`.
pub open spec fn entry_in(e: UsnEntry, source: Seq<char>, data: Seq<u8>) -> bool {
    &&& e.meta.source@ == source
    &&& record_at(data, e.meta.offset as int)
    &&& e.record.spec_record_length() == le32(data, e.meta.offset as int)
    &&& record_fields(record_window(data, e.meta.offset as int), e.record)
}

/// Every emitted record has a length in (0, 1024] that is a multiple of 8.
pub proof fn lemma_emitted_length_ok(e: UsnEntry, source: Seq<char>, data: Seq<u8>)
    requires
        entry_in(e, source, data),
    ensures
        0 < e.record.spec_record_length() <= 1024,
        e.record.spec_record_length() % 8 == 0,
{
}

/// A V2 record has versions 2.0 and its name at 60; a V3 record has
/// versions 3.0 and its name at 80.
pub proof fn lemma_emitted_versions(e: UsnEntry, source: Seq<char>, data: Seq<u8>)
    requires
        entry_in(e, source, data),
    ensures
        e.record is V2 ==> e.record->V2_0.major_version == 2 && e.record->V2_0.minor_version == 0
            && e.record->V2_0.file_name_offset == 60,
        e.record is V3 ==> e.record->V3_0.major_version == 3 && e.record->V3_0.minor_version == 0
            && e.record->V3_0.file_name_offset == 80,
{
}

/// The bytes `[offset, offset + record_length)` of the input hold exactly the
/// record: every field is read from them, and they lie inside the input.
pub proof fn lemma_emitted_bytes(e: UsnEntry, source: Seq<char>, data: Seq<u8>)
    requires
        entry_in(e, source, data),
    ensures
        e.meta.offset + e.record.spec_record_length() <= data.len(),
        record_fields(
            data.subrange(
                e.meta.offset as int,
                e.meta.offset + e.record.spec_record_length(),
            ),
            e.record,
        ),
{
}

/// A candidate whose record length runs past the end of the input is no record.
pub proof fn lemma_past_end_rejected(data: Seq<u8>, i: int)
    requires
        0 <= i,
        i + 4 <= data.len(),
        i + le32(data, i) > data.len(),
    ensures
        !record_at(data, i),
{
}

/// The offsets of a sequence of entries.
pub open spec fn offsets(es: Seq<UsnEntry>) -> Seq<int> {
    Seq::new(es.len(), |k: int| es[k].meta.offset as int)
}

proof fn lemma_chunk_entry(e: UsnEntry, source: Seq<char>, data: Seq<u8>, off: int, h: int)
    requires
        0 <= off < data.len(),
        entry_from(e, source, off, chunk_at(data, off), h),
    ensures
        entry_in(e, source, data),
{
    let c = chunk_at(data, off);
    assert(c[h] == data[off + h] && c[h + 1] == data[off + h + 1] && c[h + 2] == data[off + h + 2]
        && c[h + 3] == data[off + h + 3]);
    assert(le32(c, h) == le32(data, off + h));
    assert(record_window(c, h) =~= record_window(data, off + h));
}

/// The records of a whole journal held in memory, cut into overlapping
/// chunks as a file is read: every record that starts in some chunk's search
/// window, once, in ascending order of offset.
pub fn parse_journal_bytes(source: &str, data: &Vec<u8>) -> (r: Vec<UsnEntry>)
    ensures
        offsets(r@) == hits_from(data@, 0),
        forall|k: int| 0 <= k < r@.len() ==> entry_in(#[trigger] r@[k], source@, data@),
        forall|i: int, j: int| 0 <= i < j < r@.len() ==> r@[i].meta.offset < r@[j].meta.offset,
{
    let n = data.len();
    let mut out: Vec<UsnEntry> = Vec::new();
    let mut off: usize = 0;
    while off < n
        invariant
            n == data@.len(),
            off <= n,
            off < n ==> offsets(out@) + hits_from(data@, off as int) == hits_from(data@, 0),
            off == n ==> offsets(out@) == hits_from(data@, 0),
            forall|k: int| 0 <= k < out@.len() ==> entry_in(#[trigger] out@[k], source@, data@),
            forall|i: int, j: int|
                0 <= i < j < out@.len() ==> out@[i].meta.offset < out@[j].meta.offset,
            forall|k: int| 0 <= k < out@.len() ==> #[trigger] out@[k].meta.offset < off,
        decreases n - off,
    {
        let end: usize = if n - off > SIZE_CHUNK {
            off + SIZE_CHUNK
        } else {
            n
        };
        let mut bytes: Vec<u8> = Vec::new();
        let mut i: usize = off;
        while i < end
            invariant
                off <= i <= end,
                end <= n,
                n == data@.len(),
                bytes@ == data@.subrange(off as int, i as int),
            decreases end - i,
        {
            bytes.push(data[i]);
            i = i + 1;
            assert(bytes@ =~= data@.subrange(off as int, i as int));
        }
        assert(bytes@ == chunk_at(data@, off as int));
        let chunk = DataChunk::new(source, off as u64, bytes);
        let ghost cdata = chunk.data@;
        let ghost search = chunk.search_size as int;
        let mut recs = chunk.get_records();
        let ghost hs = chunk_hits(cdata, search);
        let ghost before = out@;
        proof {
            assert forall|j: int| 0 <= j < recs@.len() implies entry_in(
                #[trigger] recs@[j],
                source@,
                data@,
            ) && recs@[j].meta.offset == off + hs[j] by {
                lemma_chunk_entry(recs@[j], source@, data@, off as int, hs[j]);
            }
            assert(hits_from(data@, off as int) == hs.map_values(|h: int| off + h) + (if off
                + SIZE_SEARCH < n {
                hits_from(data@, off + SIZE_SEARCH)
            } else {
                seq![]
            }));
        }
        out.append(&mut recs);
        proof {
            assert(offsets(out@) =~= offsets(before) + hs.map_values(|h: int| off + h));
            if off + SIZE_SEARCH < n {
                assert(offsets(out@) + hits_from(data@, off + SIZE_SEARCH) =~= offsets(before) + (
                hs.map_values(|h: int| off + h) + hits_from(data@, off + SIZE_SEARCH)));
            } else {
                assert(offsets(out@) =~= offsets(before) + (hs.map_values(|h: int| off + h)
                    + Seq::<int>::empty()));
            }
        }
        if n - off <= SIZE_SEARCH {
            off = n;
        } else {
            off = off + SIZE_SEARCH;
        }
    }
    out
}

} // verus!
