//! The folder mapping: MFT reference -> (name, parent), with full paths
//! enumerated by walking parents to the root and memoised in an LRU cache.

use crate::reference::{MftReference, ENTRY_LIMIT, ROOT_ENTRY};
use lru::LruCache;
use std::collections::hash_map::RandomState;
use std::collections::HashMap;
use vstd::prelude::*;
use vstd::string::*;

verus! {

broadcast use vstd::std_specs::hash::group_hash_axioms;

/// Paths memoised by the offline mapping.
pub const OFFLINE_CACHE_SIZE: usize = 100;

#[verifier::external_type_specification]
#[verifier::external_body]
#[verifier::reject_recursive_types(K)]
#[verifier::reject_recursive_types(V)]
#[verifier::reject_recursive_types(S)]
pub struct ExLruCache<K, V, S>(LruCache<K, V, S>);

/// A cache that holds no path.
pub open spec fn no_paths() -> Map<u64, Seq<char>> {
    Map::empty()
}

/// The paths an LRU cache holds, by key.
pub uninterp spec fn lru_contents(c: LruCache<u64, String, RandomState>) -> Map<u64, Seq<char>>;

/// Relies on `lru::LruCache::with_hasher`: a cache that holds nothing yet.
#[verifier::external_body]
pub(crate) fn cache_new(cap: usize) -> (r: LruCache<u64, String, RandomState>)
    requires
        cap > 0,
    ensures
        lru_contents(r) == no_paths(),
{
    LruCache::with_hasher(std::num::NonZeroUsize::new(cap).unwrap(), RandomState::new())
}

/// Relies on `lru::LruCache::get`: the value held under `k`, if any; it only
/// reorders the entries, so what the cache holds stays the same.
#[verifier::external_body]
pub(crate) fn cache_get(c: &mut LruCache<u64, String, RandomState>, k: u64) -> (r: Option<String>)
    ensures
        lru_contents(*final(c)) == lru_contents(*old(c)),
        match r {
            Some(v) => lru_contents(*old(c)).contains_key(k) && v@ == lru_contents(*old(c))[k],
            None => !lru_contents(*old(c)).contains_key(k),
        },
{
    c.get(&k).cloned()
}

/// Relies on `lru::LruCache::put`: `k` then holds `v`; every other key holds
/// what it held, or was evicted to make room.
#[verifier::external_body]
pub(crate) fn cache_put(c: &mut LruCache<u64, String, RandomState>, k: u64, v: String)
    ensures
        lru_contents(*final(c)).contains_key(k),
        lru_contents(*final(c))[k] == v@,
        forall|j: u64|
            j != k && #[trigger] lru_contents(*final(c)).contains_key(j) ==> lru_contents(
                *old(c),
            ).contains_key(j) && lru_contents(*final(c))[j] == lru_contents(*old(c))[j],
{
    c.put(k, v);
}

/// Relies on `lru::LruCache::pop`: removes `k` and nothing else.
#[verifier::external_body]
pub(crate) fn cache_pop(c: &mut LruCache<u64, String, RandomState>, k: u64)
    ensures
        lru_contents(*final(c)) == lru_contents(*old(c)).remove(k),
{
    c.pop(&k);
}

/// Relies on `lru::LruCache::clear`: afterwards the cache holds nothing.
#[verifier::external_body]
pub(crate) fn cache_clear(c: &mut LruCache<u64, String, RandomState>)
    ensures
        lru_contents(*final(c)) == no_paths(),
{
    c.clear();
}

/// The name of a folder and the reference of the folder that holds it.
#[derive(Debug)]
pub struct EntryMapping {
    pub name: String,
    pub parent: MftReference,
}

/// The key a reference is stored under: its packed 64-bit form.
pub open spec fn ref_key(r: MftReference) -> u64 {
    (r.entry + r.sequence * ENTRY_LIMIT) as u64
}

/// The reference a key stands for.
pub open spec fn key_ref(k: u64) -> MftReference {
    MftReference {
        entry: (k as int % ENTRY_LIMIT as int) as u64,
        sequence: (k as int / ENTRY_LIMIT as int) as u16,
    }
}

proof fn lemma_key_ref(r: MftReference)
    requires
        r.wf(),
    ensures
        key_ref(ref_key(r)) == r,
        ref_key(r) == r.entry + r.sequence * ENTRY_LIMIT,
{
    let k = r.entry + r.sequence * ENTRY_LIMIT;
    assert(0 <= k < 0x1_0000_0000_0000_0000) by (nonlinear_arith)
        requires
            k == r.entry + r.sequence * ENTRY_LIMIT,
            r.entry < ENTRY_LIMIT,
            r.sequence <= 0xffff,
            ENTRY_LIMIT == 0x1_0000_0000_0000,
    ;
    assert(k % (ENTRY_LIMIT as int) == r.entry && k / (ENTRY_LIMIT as int) == r.sequence)
        by (nonlinear_arith)
        requires
            k == r.entry + r.sequence * ENTRY_LIMIT,
            r.entry < ENTRY_LIMIT,
            0 <= r.entry,
            ENTRY_LIMIT == 0x1_0000_0000_0000,
    ;
}

/// The segment that stands for the root directory.
pub open spec fn root_segment() -> Seq<char> {
    seq!['[', 'r', 'o', 'o', 't', ']']
}

/// The segment that stands for a link that is missing, or cut to end a cycle.
pub open spec fn unknown_segment() -> Seq<char> {
    seq!['[', '<', 'u', 'n', 'k', 'n', 'o', 'w', 'n', '>', ']']
}

/// The names met walking from `r` towards the root, nearest first, taking at
/// most `fuel` steps; the last segment is the root's or the unknown one.
pub open spec fn walk(m: Map<u64, EntryMapping>, r: MftReference, fuel: nat) -> Seq<Seq<char>>
    decreases fuel,
{
    if r.entry == ROOT_ENTRY {
        seq![root_segment()]
    } else if fuel == 0 || !m.contains_key(ref_key(r)) {
        seq![unknown_segment()]
    } else {
        seq![m[ref_key(r)].name@] + walk(m, m[ref_key(r)].parent, (fuel - 1) as nat)
    }
}

/// The segments joined with `/`, last first.
pub open spec fn join_rev(s: Seq<Seq<char>>) -> Seq<char>
    decreases s.len(),
{
    if s.len() == 0 {
        seq![]
    } else if s.len() == 1 {
        s[0]
    } else {
        join_rev(s.drop_first()) + seq!['/'] + s[0]
    }
}

/// The full path of `r` under mapping `m`. A walk longer than the mapping has
/// entries must repeat one, so it is cut there.
pub open spec fn path_of(m: Map<u64, EntryMapping>, r: MftReference) -> Seq<char> {
    join_rev(walk(m, r, m.dom().len()))
}

/// Folder references mapped to their names and parents, and a cache of full paths.
pub struct FolderMapping {
    pub mapping: HashMap<u64, EntryMapping>,
    pub cache: LruCache<u64, String, RandomState>,
}

pub open spec fn views(s: Seq<String>) -> Seq<Seq<char>> {
    Seq::new(s.len(), |i: int| s[i]@)
}

impl FolderMapping {
    /// Every parent fits in 48 bits, the root is never mapped, and every
    /// cached path is the path its reference has under the current mapping.
    pub open spec fn wf(&self) -> bool {
        &&& forall|k: u64| #[trigger]
            self.mapping@.contains_key(k) ==> self.mapping@[k].parent.wf()
        &&& forall|k: u64| #[trigger]
            lru_contents(self.cache).contains_key(k) ==> lru_contents(self.cache)[k] == path_of(
                self.mapping@,
                key_ref(k),
            )
        &&& forall|k: u64| #[trigger]
            self.mapping@.contains_key(k) ==> (k as int) % (ENTRY_LIMIT as int) != ROOT_ENTRY
    }

    pub open spec fn map_view(&self) -> Map<u64, EntryMapping> {
        self.mapping@
    }

    pub open spec fn cache_view(&self) -> Map<u64, Seq<char>> {
        lru_contents(self.cache)
    }

    /// An empty mapping.
    pub fn new() -> (r: FolderMapping)
        ensures
            r.wf(),
            r.map_view() == Map::<u64, EntryMapping>::empty(),
            r.cache_view() == no_paths(),
    {
        let mapping: HashMap<u64, EntryMapping> = HashMap::new();
        FolderMapping { mapping, cache: cache_new(OFFLINE_CACHE_SIZE) }
    }

    pub fn contains_reference(&self, entry_reference: &MftReference) -> (r: bool)
        requires
            entry_reference.wf(),
        ensures
            r == self.map_view().contains_key(ref_key(*entry_reference)),
    {
        self.mapping.contains_key(&entry_reference.as_u64())
    }

    /// Forgets `entry_reference`. Paths through it change, so the cache is
    /// emptied.
    pub fn remove_mapping(&mut self, entry_reference: MftReference)
        requires
            old(self).wf(),
            entry_reference.wf(),
        ensures
            final(self).wf(),
            final(self).map_view() == old(self).map_view().remove(ref_key(entry_reference)),
            final(self).cache_view() == no_paths(),
    {
        let k = entry_reference.as_u64();
        self.mapping.remove(&k);
        cache_clear(&mut self.cache);
    }

    /// Maps `entry_reference` to `name` under `parent`. The paths of it and
    /// of everything below it change, so the cache is emptied and no stale
    /// path can be served.
    pub fn add_mapping(&mut self, entry_reference: MftReference, name: String, parent: MftReference)
        requires
            old(self).wf(),
            entry_reference.wf(),
            entry_reference.entry != ROOT_ENTRY,
            parent.wf(),
        ensures
            final(self).wf(),
            final(self).map_view() == old(self).map_view().insert(
                ref_key(entry_reference),
                EntryMapping { name, parent },
            ),
            final(self).cache_view() == no_paths(),
            !final(self).cache_view().contains_key(ref_key(entry_reference)),
    {
        let k = entry_reference.as_u64();
        proof {
            assert((k as int) % (ENTRY_LIMIT as int) == entry_reference.entry) by (nonlinear_arith)
                requires
                    k == entry_reference.entry + entry_reference.sequence * ENTRY_LIMIT,
                    entry_reference.entry < ENTRY_LIMIT,
            ;
        }
        self.mapping.insert(k, EntryMapping { name, parent });
        cache_clear(&mut self.cache);
    }

    /// The segments of the path of `lookup_ref`, nearest first.
    fn enumerate_path_queue(&self, lookup_ref: MftReference) -> (r: Vec<String>)
        requires
            self.wf(),
            lookup_ref.wf(),
        ensures
            views(r@) == walk(self.map_view(), lookup_ref, self.map_view().dom().len()),
            r@.len() >= 1,
    {
        let ghost m = self.mapping@;
        let ghost total = walk(m, lookup_ref, m.dom().len());
        let mut segs: Vec<String> = Vec::new();
        let mut cur = lookup_ref;
        let mut fuel: usize = self.mapping.len();
        let mut done = false;
        proof {
            assert(views(segs@) + walk(m, cur, fuel as nat) =~= total);
        }
        while !done
            invariant
                self.wf(),
                m == self.mapping@,
                cur.wf(),
                total == walk(m, lookup_ref, m.dom().len()),
                done ==> views(segs@) == total && segs@.len() >= 1,
                !done ==> views(segs@) + walk(m, cur, fuel as nat) == total,
            decreases fuel + (if done {
                0int
            } else {
                1int
            }),
        {
            let ghost before = views(segs@);
            if cur.entry == ROOT_ENTRY {
                segs.push(String::from_str("[root]"));
                proof {
                    reveal_strlit("[root]");
                    assert("[root]"@ =~= root_segment());
                    assert(views(segs@) =~= before + seq![root_segment()]);
                }
                done = true;
            } else {
                let k = cur.as_u64();
                match self.mapping.get(&k) {
                    Some(e) => {
                        if fuel == 0 {
                            segs.push(String::from_str("[<unknown>]"));
                            proof {
                                reveal_strlit("[<unknown>]");
                                assert("[<unknown>]"@ =~= unknown_segment());
                                assert(views(segs@) =~= before + seq![unknown_segment()]);
                            }
                            done = true;
                        } else {
                            segs.push(e.name.clone());
                            proof {
                                assert(views(segs@) =~= before + seq![m[ref_key(cur)].name@]);
                                assert(walk(m, cur, fuel as nat) == seq![m[ref_key(cur)].name@]
                                    + walk(m, m[ref_key(cur)].parent, (fuel - 1) as nat));
                                assert(views(segs@) + walk(
                                    m,
                                    m[ref_key(cur)].parent,
                                    (fuel - 1) as nat,
                                ) =~= before + walk(m, cur, fuel as nat));
                            }
                            cur = e.parent;
                            fuel = fuel - 1;
                        }
                    },
                    None => {
                        segs.push(String::from_str("[<unknown>]"));
                        proof {
                            reveal_strlit("[<unknown>]");
                            assert("[<unknown>]"@ =~= unknown_segment());
                            assert(views(segs@) =~= before + seq![unknown_segment()]);
                        }
                        done = true;
                    },
                }
            }
        }
        segs
    }

    /// The full path of `(entry, sequence)` under the current mapping: the
    /// cached one where there is one, else the walked one, which is then cached.
    pub fn enumerate_path(&mut self, entry: u64, sequence: u16) -> (r: Option<String>)
        requires
            old(self).wf(),
            entry < ENTRY_LIMIT,
        ensures
            final(self).wf(),
            final(self).map_view() == old(self).map_view(),
            r is Some,
            r->Some_0@ == path_of(old(self).map_view(), MftReference { entry, sequence }),
            final(self).cache_view().contains_key(ref_key(MftReference { entry, sequence })),
            final(self).cache_view()[ref_key(MftReference { entry, sequence })] == r->Some_0@,
    {
        let lookup_ref = MftReference { entry, sequence };
        let k = lookup_ref.as_u64();
        proof {
            lemma_key_ref(lookup_ref);
        }
        match cache_get(&mut self.cache, k) {
            Some(full_path) => Some(full_path),
            None => {
                let segs = self.enumerate_path_queue(lookup_ref);
                let full_path = join_reversed(&segs);
                cache_put(&mut self.cache, k, full_path.clone());
                Some(full_path)
            },
        }
    }
}

proof fn lemma_join_ends_with_first(s: Seq<Seq<char>>)
    requires
        s.len() >= 1,
    ensures
        join_rev(s).len() >= s[0].len(),
        join_rev(s).subrange(join_rev(s).len() - s[0].len(), join_rev(s).len() as int) == s[0],
{
    let j = join_rev(s);
    if s.len() == 1 {
        assert(j.subrange(0, j.len() as int) =~= j);
    } else {
        assert(j == join_rev(s.drop_first()) + seq!['/'] + s[0]);
        assert(j.subrange(j.len() - s[0].len(), j.len() as int) =~= s[0]);
    }
}

/// After `add_mapping(r, name, parent)`, the path that `enumerate_path`
/// gives for `r` ends with `name`.
pub proof fn lemma_added_path_ends_with_name(
    m: Map<u64, EntryMapping>,
    r: MftReference,
    e: EntryMapping,
)
    requires
        m.dom().finite(),
        r.wf(),
        r.entry != ROOT_ENTRY,
    ensures
        ({
            let p = path_of(m.insert(ref_key(r), e), r);
            p.len() >= e.name@.len() && p.subrange(p.len() - e.name@.len(), p.len() as int)
                == e.name@
        }),
{
    let k = ref_key(r);
    let m2 = m.insert(k, e);
    assert(m2.dom().contains(k));
    if m2.dom().len() == 0 {
        m2.dom().lemma_len0_is_empty();
    }
    let w = walk(m2, r, m2.dom().len());
    assert(w[0] == e.name@);
    lemma_join_ends_with_first(w);
}

/// After `remove_mapping(r)`, the path that `enumerate_path` gives for `r` is
/// the unknown segment alone, so the old name is gone from it.
pub proof fn lemma_removed_path_is_unknown(m: Map<u64, EntryMapping>, r: MftReference)
    requires
        r.entry != ROOT_ENTRY,
    ensures
        path_of(m.remove(ref_key(r)), r) == unknown_segment(),
{
    let m2 = m.remove(ref_key(r));
    assert(walk(m2, r, m2.dom().len()) == seq![unknown_segment()]);
}

/// After `remove_mapping(r)`, a path that ran through `r` stops there: the
/// walk from any reference that reaches `r` ends in the unknown segment and
/// holds none of the names above `r`.
pub proof fn lemma_removed_link_cuts_path(
    m: Map<u64, EntryMapping>,
    child: MftReference,
    r: MftReference,
)
    requires
        child.entry != ROOT_ENTRY,
        r.entry != ROOT_ENTRY,
        ref_key(child) != ref_key(r),
        m.dom().finite(),
        m.contains_key(ref_key(child)),
        m[ref_key(child)].parent == r,
    ensures
        path_of(m.remove(ref_key(r)), child) == unknown_segment() + seq!['/'] + m[ref_key(
            child,
        )].name@,
{
    let m2 = m.remove(ref_key(r));
    assert(m2.contains_key(ref_key(child)));
    if m2.dom().len() == 0 {
        m2.dom().lemma_len0_is_empty();
    }
    let n = m2.dom().len();
    assert(n >= 1);
    let w = walk(m2, child, n);
    assert(m2[ref_key(child)] == m[ref_key(child)]);
    assert(!m2.contains_key(ref_key(r)));
    assert(walk(m2, r, (n - 1) as nat) == seq![unknown_segment()]);
    assert(w == seq![m[ref_key(child)].name@] + walk(m2, r, (n - 1) as nat));
    assert(w =~= seq![m[ref_key(child)].name@, unknown_segment()]);
    assert(w.drop_first() =~= seq![unknown_segment()]);
    assert(join_rev(w.drop_first()) == unknown_segment());
    assert(join_rev(w) == join_rev(w.drop_first()) + seq!['/'] + w[0]);
}

/// Enumerating a path twice gives the same path: `enumerate_path` leaves the
/// mapping as it was and returns the path of the reference under it, so a
/// second call, made on the mapping the first one left, returns the same.
pub proof fn lemma_enumerate_idempotent(
    before: Map<u64, EntryMapping>,
    after_first: Map<u64, EntryMapping>,
    r: MftReference,
    first: Seq<char>,
    second: Seq<char>,
)
    requires
        after_first == before,
        first == path_of(before, r),
        second == path_of(after_first, r),
    ensures
        first == second,
{
}

/// The reference a directory's MFT entry is mapped under: its base record's
/// where it extends one, else its own; a free slot's sequence was raised when
/// it was freed, so it is lowered by one (wrapping) to the one it had in use.
pub open spec fn spec_effective_reference(
    record_number: u64,
    sequence: u16,
    allocated: bool,
    base_entry: u64,
    base_sequence: u16,
) -> MftReference {
    if base_entry != 0 {
        MftReference { entry: base_entry, sequence: base_sequence }
    } else if allocated {
        MftReference { entry: record_number, sequence }
    } else if sequence == 0 {
        MftReference { entry: record_number, sequence: 0xffff }
    } else {
        MftReference { entry: record_number, sequence: (sequence - 1) as u16 }
    }
}

/// Whether an MFT entry goes into the mapping: a named directory whose
/// reference is not the root's and fits, with a parent that fits.
pub open spec fn mft_entry_kept(
    r: MftReference,
    is_dir: bool,
    best_name: Option<(String, MftReference)>,
) -> bool {
    is_dir && best_name is Some && r.wf() && r.entry != ROOT_ENTRY && best_name->Some_0.1.wf()
}

pub fn effective_reference(
    record_number: u64,
    sequence: u16,
    allocated: bool,
    base_entry: u64,
    base_sequence: u16,
) -> (r: MftReference)
    ensures
        r == spec_effective_reference(
            record_number,
            sequence,
            allocated,
            base_entry,
            base_sequence,
        ),
        base_entry == 0 && !allocated && sequence > 0 ==> r.sequence == sequence - 1,
{
    if base_entry != 0 {
        MftReference { entry: base_entry, sequence: base_sequence }
    } else if allocated {
        MftReference { entry: record_number, sequence }
    } else {
        MftReference { entry: record_number, sequence: sequence.wrapping_sub(1) }
    }
}

impl FolderMapping {
    /// Adds one MFT entry: a directory with a name goes in under its
    /// effective reference; other entries, and the root, leave the mapping as
    /// it is.
    pub fn add_mft_entry(
        &mut self,
        record_number: u64,
        sequence: u16,
        allocated: bool,
        is_dir: bool,
        base_entry: u64,
        base_sequence: u16,
        best_name: Option<(String, MftReference)>,
    )
        requires
            old(self).wf(),
        ensures
            final(self).wf(),
            mft_entry_kept(
                spec_effective_reference(
                    record_number,
                    sequence,
                    allocated,
                    base_entry,
                    base_sequence,
                ),
                is_dir,
                best_name,
            ) ==> final(self).map_view() == old(self).map_view().insert(
                ref_key(
                    spec_effective_reference(
                        record_number,
                        sequence,
                        allocated,
                        base_entry,
                        base_sequence,
                    ),
                ),
                entry_of(best_name->Some_0),
            ),
            !mft_entry_kept(
                spec_effective_reference(
                    record_number,
                    sequence,
                    allocated,
                    base_entry,
                    base_sequence,
                ),
                is_dir,
                best_name,
            ) ==> final(self).map_view() == old(self).map_view() && final(self).cache_view()
                == old(self).cache_view(),
    {
        if !is_dir {
            return;
        }
        let r = effective_reference(record_number, sequence, allocated, base_entry, base_sequence);
        match best_name {
            Some((name, parent)) => {
                if r.entry < ENTRY_LIMIT && r.entry != ROOT_ENTRY && parent.entry < ENTRY_LIMIT {
                    self.add_mapping(r, name, parent);
                }
            },
            None => {},
        }
    }
}

/// The mapping a `(name, parent)` pair becomes.
pub open spec fn entry_of(p: (String, MftReference)) -> EntryMapping {
    EntryMapping { name: p.0, parent: p.1 }
}

/// The segments joined with `/`, last first.
pub(crate) fn join_reversed(segs: &Vec<String>) -> (r: String)
    requires
        segs@.len() >= 1,
    ensures
        r@ == join_rev(views(segs@)),
{
    let n = segs.len();
    let ghost v = views(segs@);
    let mut j: usize = n - 1;
    let mut out = segs[j].clone();
    proof {
        assert(v.subrange(j as int, n as int).len() == 1);
        assert(v.subrange(j as int, n as int)[0] == v[j as int]);
    }
    while j > 0
        invariant
            j < n,
            n == segs@.len(),
            v == views(segs@),
            out@ == join_rev(v.subrange(j as int, n as int)),
        decreases j,
    {
        j = j - 1;
        out.append("/");
        out.append(segs[j].as_str());
        proof {
            reveal_strlit("/");
            let s = v.subrange(j as int, n as int);
            assert(s.drop_first() =~= v.subrange(j + 1, n as int));
            assert(s[0] == segs@[j as int]@);
        }
    }
    assert(v.subrange(0, n as int) =~= v);
    out
}

} // verus!
