//! NTFS file references: 64-bit (48-bit entry, 16-bit sequence) and 128-bit.

use vstd::prelude::*;

verus! {

pub const ENTRY_LIMIT: u64 = 0x1_0000_0000_0000;

/// The MFT entry of the root directory.
pub const ROOT_ENTRY: u64 = 5;

/// A 64-bit MFT reference: an entry index and the sequence number of its slot.
#[derive(Clone, Copy, Debug, PartialEq, Eq, Structural, Hash)]
pub struct MftReference {
    pub entry: u64,
    pub sequence: u16,
}

impl MftReference {
    /// The entry fits in the 48 bits that NTFS gives it.
    pub open spec fn wf(&self) -> bool {
        self.entry < ENTRY_LIMIT
    }

    /// The packed 64-bit form: entry in the low 48 bits, sequence above.
    pub open spec fn packed(&self) -> int {
        self.entry + self.sequence * ENTRY_LIMIT
    }

    pub fn new(entry: u64, sequence: u16) -> (r: MftReference)
        ensures
            r.entry == entry,
            r.sequence == sequence,
    {
        MftReference { entry, sequence }
    }

    /// Splits a packed 64-bit reference.
    pub fn from_u64(v: u64) -> (r: MftReference)
        ensures
            r.entry == v % ENTRY_LIMIT,
            r.sequence == v / ENTRY_LIMIT,
            r.wf(),
            r.packed() == v,
    {
        MftReference { entry: v % ENTRY_LIMIT, sequence: (v / ENTRY_LIMIT) as u16 }
    }

    /// The packed 64-bit form.
    pub fn as_u64(&self) -> (r: u64)
        requires
            self.wf(),
        ensures
            r == self.packed(),
    {
        self.entry + (self.sequence as u64) * ENTRY_LIMIT
    }
}

/// Two well-formed references are equal exactly when their packed forms are.
pub proof fn lemma_packed_injective(a: MftReference, b: MftReference)
    requires
        a.wf(),
        b.wf(),
        a.packed() == b.packed(),
    ensures
        a == b,
{
    assert(a.entry == a.packed() % (ENTRY_LIMIT as int)) by (nonlinear_arith)
        requires
            a.entry < ENTRY_LIMIT,
            a.packed() == a.entry + a.sequence * ENTRY_LIMIT,
            ENTRY_LIMIT > 0,
    ;
    assert(b.entry == b.packed() % (ENTRY_LIMIT as int)) by (nonlinear_arith)
        requires
            b.entry < ENTRY_LIMIT,
            b.packed() == b.entry + b.sequence * ENTRY_LIMIT,
            ENTRY_LIMIT > 0,
    ;
    assert(a.sequence * ENTRY_LIMIT == b.sequence * ENTRY_LIMIT);
    assert(a.sequence == b.sequence) by (nonlinear_arith)
        requires
            a.sequence * ENTRY_LIMIT == b.sequence * ENTRY_LIMIT,
            ENTRY_LIMIT > 0,
    ;
}

/// A 128-bit file reference, as USN_RECORD_V3 carries it.
#[derive(Clone, Copy, Debug, PartialEq, Eq, Structural)]
pub struct Ntfs128Reference(pub u128);

impl Ntfs128Reference {
    pub fn as_u128(&self) -> (r: u128)
        ensures
            r == self.0,
    {
        self.0
    }

    /// The classic reference held in the low 64 bits.
    pub fn as_mft_reference(&self) -> (r: MftReference)
        ensures
            r.entry == (self.0 as int) % 0x1_0000_0000_0000_0000 % (ENTRY_LIMIT as int),
            r.sequence == (self.0 as int) % 0x1_0000_0000_0000_0000 / (ENTRY_LIMIT as int),
            r.wf(),
    {
        MftReference::from_u64((self.0 % 0x1_0000_0000_0000_0000) as u64)
    }
}

} // verus!
