//! Bit-flag sets carried by a USN record: reasons, file attributes and source info.

use vstd::prelude::*;
use vstd::string::*;

verus! {

pub const FILE_ATTRIBUTE_READONLY: u32 = 0x0000_0001;
pub const FILE_ATTRIBUTE_HIDDEN: u32 = 0x0000_0002;
pub const FILE_ATTRIBUTE_SYSTEM: u32 = 0x0000_0004;
pub const FILE_ATTRIBUTE_DIRECTORY: u32 = 0x0000_0010;
pub const FILE_ATTRIBUTE_ARCHIVE: u32 = 0x0000_0020;
pub const FILE_ATTRIBUTE_DEVICE: u32 = 0x0000_0040;
pub const FILE_ATTRIBUTE_NORMAL: u32 = 0x0000_0080;
pub const FILE_ATTRIBUTE_TEMPORARY: u32 = 0x0000_0100;
pub const FILE_ATTRIBUTE_SPARSE_FILE: u32 = 0x0000_0200;
pub const FILE_ATTRIBUTE_REPARSE_POINT: u32 = 0x0000_0400;
pub const FILE_ATTRIBUTE_COMPRESSED: u32 = 0x0000_0800;
pub const FILE_ATTRIBUTE_OFFLINE: u32 = 0x0000_1000;
pub const FILE_ATTRIBUTE_VIRTUAL: u32 = 0x0000_1000;
pub const FILE_ATTRIBUTE_NOT_CONTENT_INDEXED: u32 = 0x0000_2000;
pub const FILE_ATTRIBUTE_ENCRYPTED: u32 = 0x0000_4000;
pub const FILE_ATTRIBUTE_INTEGRITY_STREAM: u32 = 0x0000_8000;
pub const FILE_ATTRIBUTE_NO_SCRUB_DATA: u32 = 0x0002_0000;
pub const FILE_ATTRIBUTE_RECALL_ON_OPEN: u32 = 0x0004_0000;
pub const FILE_ATTRIBUTE_RECALL_ON_DATA_ACCESS: u32 = 0x0040_0000;

/// Every file-attribute bit that has a name.
pub const FILE_ATTRIBUTES_ALL: u32 = 0x0046_fff7;

pub const USN_REASON_DATA_OVERWRITE: u32 = 0x0000_0001;
pub const USN_REASON_DATA_EXTEND: u32 = 0x0000_0002;
pub const USN_REASON_DATA_TRUNCATION: u32 = 0x0000_0004;
pub const USN_REASON_NAMED_DATA_OVERWRITE: u32 = 0x0000_0010;
pub const USN_REASON_NAMED_DATA_EXTEND: u32 = 0x0000_0020;
pub const USN_REASON_NAMED_DATA_TRUNCATION: u32 = 0x0000_0040;
pub const USN_REASON_FILE_CREATE: u32 = 0x0000_0100;
pub const USN_REASON_FILE_DELETE: u32 = 0x0000_0200;
pub const USN_REASON_EA_CHANGE: u32 = 0x0000_0400;
pub const USN_REASON_SECURITY_CHANGE: u32 = 0x0000_0800;
pub const USN_REASON_RENAME_OLD_NAME: u32 = 0x0000_1000;
pub const USN_REASON_RENAME_NEW_NAME: u32 = 0x0000_2000;
pub const USN_REASON_INDEXABLE_CHANGE: u32 = 0x0000_4000;
pub const USN_REASON_BASIC_INFO_CHANGE: u32 = 0x0000_8000;
pub const USN_REASON_HARD_LINK_CHANGE: u32 = 0x0001_0000;
pub const USN_REASON_COMPRESSION_CHANGE: u32 = 0x0002_0000;
pub const USN_REASON_ENCRYPTION_CHANGE: u32 = 0x0004_0000;
pub const USN_REASON_OBJECT_ID_CHANGE: u32 = 0x0008_0000;
pub const USN_REASON_REPARSE_POINT_CHANGE: u32 = 0x0010_0000;
pub const USN_REASON_STREAM_CHANGE: u32 = 0x0020_0000;
pub const USN_REASON_TRANSACTED_CHANGE: u32 = 0x0040_0000;
pub const USN_REASON_INTEGRITY_CHANGE: u32 = 0x0080_0000;
pub const USN_REASON_CLOSE: u32 = 0x8000_0000;

/// Every reason bit that has a name.
pub const REASON_ALL: u32 = 0x80ff_ff77;

pub const USN_SOURCE_DATA_MANAGEMENT: u32 = 0x0000_0001;
pub const USN_SOURCE_AUXILIARY_DATA: u32 = 0x0000_0002;
pub const USN_SOURCE_REPLICATION_MANAGEMENT: u32 = 0x0000_0004;
pub const USN_SOURCE_CLIENT_REPLICATION_MANAGEMENT: u32 = 0x0000_0008;

/// Every source-info bit that has a name.
pub const SOURCE_INFO_ALL: u32 = 0x0000_000f;

/// The name of the reason bit `b`; empty for a bit with none.
pub open spec fn reason_name(b: u64) -> Seq<char> {
    if b == 0x1 {
        "USN_REASON_DATA_OVERWRITE"@
    } else if b == 0x2 {
        "USN_REASON_DATA_EXTEND"@
    } else if b == 0x4 {
        "USN_REASON_DATA_TRUNCATION"@
    } else if b == 0x10 {
        "USN_REASON_NAMED_DATA_OVERWRITE"@
    } else if b == 0x20 {
        "USN_REASON_NAMED_DATA_EXTEND"@
    } else if b == 0x40 {
        "USN_REASON_NAMED_DATA_TRUNCATION"@
    } else if b == 0x100 {
        "USN_REASON_FILE_CREATE"@
    } else if b == 0x200 {
        "USN_REASON_FILE_DELETE"@
    } else if b == 0x400 {
        "USN_REASON_EA_CHANGE"@
    } else if b == 0x800 {
        "USN_REASON_SECURITY_CHANGE"@
    } else if b == 0x1000 {
        "USN_REASON_RENAME_OLD_NAME"@
    } else if b == 0x2000 {
        "USN_REASON_RENAME_NEW_NAME"@
    } else if b == 0x4000 {
        "USN_REASON_INDEXABLE_CHANGE"@
    } else if b == 0x8000 {
        "USN_REASON_BASIC_INFO_CHANGE"@
    } else if b == 0x10000 {
        "USN_REASON_HARD_LINK_CHANGE"@
    } else if b == 0x20000 {
        "USN_REASON_COMPRESSION_CHANGE"@
    } else if b == 0x40000 {
        "USN_REASON_ENCRYPTION_CHANGE"@
    } else if b == 0x80000 {
        "USN_REASON_OBJECT_ID_CHANGE"@
    } else if b == 0x100000 {
        "USN_REASON_REPARSE_POINT_CHANGE"@
    } else if b == 0x200000 {
        "USN_REASON_STREAM_CHANGE"@
    } else if b == 0x400000 {
        "USN_REASON_TRANSACTED_CHANGE"@
    } else if b == 0x800000 {
        "USN_REASON_INTEGRITY_CHANGE"@
    } else if b == 0x80000000 {
        "USN_REASON_CLOSE"@
    } else {
        seq![]
    }
}

fn reason_name_str(b: u64) -> (r: &'static str)
    ensures
        r@ == reason_name(b),
{
    proof {
        reveal_strlit("");
    }
    if b == 0x1 {
        "USN_REASON_DATA_OVERWRITE"
    } else if b == 0x2 {
        "USN_REASON_DATA_EXTEND"
    } else if b == 0x4 {
        "USN_REASON_DATA_TRUNCATION"
    } else if b == 0x10 {
        "USN_REASON_NAMED_DATA_OVERWRITE"
    } else if b == 0x20 {
        "USN_REASON_NAMED_DATA_EXTEND"
    } else if b == 0x40 {
        "USN_REASON_NAMED_DATA_TRUNCATION"
    } else if b == 0x100 {
        "USN_REASON_FILE_CREATE"
    } else if b == 0x200 {
        "USN_REASON_FILE_DELETE"
    } else if b == 0x400 {
        "USN_REASON_EA_CHANGE"
    } else if b == 0x800 {
        "USN_REASON_SECURITY_CHANGE"
    } else if b == 0x1000 {
        "USN_REASON_RENAME_OLD_NAME"
    } else if b == 0x2000 {
        "USN_REASON_RENAME_NEW_NAME"
    } else if b == 0x4000 {
        "USN_REASON_INDEXABLE_CHANGE"
    } else if b == 0x8000 {
        "USN_REASON_BASIC_INFO_CHANGE"
    } else if b == 0x10000 {
        "USN_REASON_HARD_LINK_CHANGE"
    } else if b == 0x20000 {
        "USN_REASON_COMPRESSION_CHANGE"
    } else if b == 0x40000 {
        "USN_REASON_ENCRYPTION_CHANGE"
    } else if b == 0x80000 {
        "USN_REASON_OBJECT_ID_CHANGE"
    } else if b == 0x100000 {
        "USN_REASON_REPARSE_POINT_CHANGE"
    } else if b == 0x200000 {
        "USN_REASON_STREAM_CHANGE"
    } else if b == 0x400000 {
        "USN_REASON_TRANSACTED_CHANGE"
    } else if b == 0x800000 {
        "USN_REASON_INTEGRITY_CHANGE"
    } else if b == 0x80000000 {
        "USN_REASON_CLOSE"
    } else {
        ""
    }
}

/// The name of the attribute bit `b`; empty for a bit with none.
pub open spec fn attribute_name(b: u64) -> Seq<char> {
    if b == 0x1 {
        "FILE_ATTRIBUTE_READONLY"@
    } else if b == 0x2 {
        "FILE_ATTRIBUTE_HIDDEN"@
    } else if b == 0x4 {
        "FILE_ATTRIBUTE_SYSTEM"@
    } else if b == 0x10 {
        "FILE_ATTRIBUTE_DIRECTORY"@
    } else if b == 0x20 {
        "FILE_ATTRIBUTE_ARCHIVE"@
    } else if b == 0x40 {
        "FILE_ATTRIBUTE_DEVICE"@
    } else if b == 0x80 {
        "FILE_ATTRIBUTE_NORMAL"@
    } else if b == 0x100 {
        "FILE_ATTRIBUTE_TEMPORARY"@
    } else if b == 0x200 {
        "FILE_ATTRIBUTE_SPARSE_FILE"@
    } else if b == 0x400 {
        "FILE_ATTRIBUTE_REPARSE_POINT"@
    } else if b == 0x800 {
        "FILE_ATTRIBUTE_COMPRESSED"@
    } else if b == 0x1000 {
        "FILE_ATTRIBUTE_OFFLINE | FILE_ATTRIBUTE_VIRTUAL"@
    } else if b == 0x2000 {
        "FILE_ATTRIBUTE_NOT_CONTENT_INDEXED"@
    } else if b == 0x4000 {
        "FILE_ATTRIBUTE_ENCRYPTED"@
    } else if b == 0x8000 {
        "FILE_ATTRIBUTE_INTEGRITY_STREAM"@
    } else if b == 0x20000 {
        "FILE_ATTRIBUTE_NO_SCRUB_DATA"@
    } else if b == 0x40000 {
        "FILE_ATTRIBUTE_RECALL_ON_OPEN"@
    } else if b == 0x400000 {
        "FILE_ATTRIBUTE_RECALL_ON_DATA_ACCESS"@
    } else {
        seq![]
    }
}

fn attribute_name_str(b: u64) -> (r: &'static str)
    ensures
        r@ == attribute_name(b),
{
    proof {
        reveal_strlit("");
    }
    if b == 0x1 {
        "FILE_ATTRIBUTE_READONLY"
    } else if b == 0x2 {
        "FILE_ATTRIBUTE_HIDDEN"
    } else if b == 0x4 {
        "FILE_ATTRIBUTE_SYSTEM"
    } else if b == 0x10 {
        "FILE_ATTRIBUTE_DIRECTORY"
    } else if b == 0x20 {
        "FILE_ATTRIBUTE_ARCHIVE"
    } else if b == 0x40 {
        "FILE_ATTRIBUTE_DEVICE"
    } else if b == 0x80 {
        "FILE_ATTRIBUTE_NORMAL"
    } else if b == 0x100 {
        "FILE_ATTRIBUTE_TEMPORARY"
    } else if b == 0x200 {
        "FILE_ATTRIBUTE_SPARSE_FILE"
    } else if b == 0x400 {
        "FILE_ATTRIBUTE_REPARSE_POINT"
    } else if b == 0x800 {
        "FILE_ATTRIBUTE_COMPRESSED"
    } else if b == 0x1000 {
        "FILE_ATTRIBUTE_OFFLINE | FILE_ATTRIBUTE_VIRTUAL"
    } else if b == 0x2000 {
        "FILE_ATTRIBUTE_NOT_CONTENT_INDEXED"
    } else if b == 0x4000 {
        "FILE_ATTRIBUTE_ENCRYPTED"
    } else if b == 0x8000 {
        "FILE_ATTRIBUTE_INTEGRITY_STREAM"
    } else if b == 0x20000 {
        "FILE_ATTRIBUTE_NO_SCRUB_DATA"
    } else if b == 0x40000 {
        "FILE_ATTRIBUTE_RECALL_ON_OPEN"
    } else if b == 0x400000 {
        "FILE_ATTRIBUTE_RECALL_ON_DATA_ACCESS"
    } else {
        ""
    }
}

/// The name of the source bit `b`; empty for a bit with none.
pub open spec fn source_name(b: u64) -> Seq<char> {
    if b == 0x1 {
        "USN_SOURCE_DATA_MANAGEMENT"@
    } else if b == 0x2 {
        "USN_SOURCE_AUXILIARY_DATA"@
    } else if b == 0x4 {
        "USN_SOURCE_REPLICATION_MANAGEMENT"@
    } else if b == 0x8 {
        "USN_SOURCE_CLIENT_REPLICATION_MANAGEMENT"@
    } else {
        seq![]
    }
}

fn source_name_str(b: u64) -> (r: &'static str)
    ensures
        r@ == source_name(b),
{
    proof {
        reveal_strlit("");
    }
    if b == 0x1 {
        "USN_SOURCE_DATA_MANAGEMENT"
    } else if b == 0x2 {
        "USN_SOURCE_AUXILIARY_DATA"
    } else if b == 0x4 {
        "USN_SOURCE_REPLICATION_MANAGEMENT"
    } else if b == 0x8 {
        "USN_SOURCE_CLIENT_REPLICATION_MANAGEMENT"
    } else {
        ""
    }
}

/// 2 to the `k`.
pub open spec fn pow2(k: nat) -> nat
    decreases k,
{
    if k == 0 {
        1
    } else {
        2 * pow2((k - 1) as nat)
    }
}

/// The names of the set bits of `bits` among the lowest `k`, lowest first,
/// joined with ` | `; `kind` selects the name table.
pub open spec fn joined_names(bits: u32, k: nat, kind: int) -> Seq<char>
    decreases k,
{
    if k == 0 {
        seq![]
    } else {
        let prev = joined_names(bits, (k - 1) as nat, kind);
        let b = pow2((k - 1) as nat);
        let name = flag_name(kind, b as u64);
        if (bits as int / b as int) % 2 == 1 && name.len() > 0 {
            if prev.len() == 0 {
                name
            } else {
                prev + " | "@ + name
            }
        } else {
            prev
        }
    }
}

pub open spec fn flag_name(kind: int, b: u64) -> Seq<char> {
    if kind == 0 {
        reason_name(b)
    } else if kind == 1 {
        attribute_name(b)
    } else {
        source_name(b)
    }
}

/// How a flag set is written: its names joined with ` | `, or `(empty)`.
pub open spec fn symbolic(bits: u32, kind: int) -> Seq<char> {
    if joined_names(bits, 32, kind).len() == 0 {
        "(empty)"@
    } else {
        joined_names(bits, 32, kind)
    }
}

fn flag_name_str(kind: u8, b: u64) -> (r: &'static str)
    requires
        kind <= 2,
    ensures
        r@ == flag_name(kind as int, b),
{
    if kind == 0 {
        reason_name_str(b)
    } else if kind == 1 {
        attribute_name_str(b)
    } else {
        source_name_str(b)
    }
}

fn symbolic_str(bits: u32, kind: u8) -> (r: String)
    requires
        kind <= 2,
    ensures
        r@ == symbolic(bits, kind as int),
{
    let mut out = String::new();
    let mut any = false;
    let mut k: u64 = 0;
    let mut b: u64 = 1;
    while k < 32
        invariant
            k <= 32,
            kind <= 2,
            b == pow2(k as nat),
            out@ == joined_names(bits, k as nat, kind as int),
            any == (out@.len() > 0),
        decreases 32 - k,
    {
        proof {
            lemma_pow2_bound(k as nat);
        }
        let name = flag_name_str(kind, b);
        if (bits as u64 / b) % 2 == 1 && !name.is_empty() {
            if any {
                out.append(" | ");
            }
            out.append(name);
            any = true;
        }
        proof {
            reveal_strlit(" | ");
        }
        k = k + 1;
        b = b * 2;
    }
    if !any {
        String::from_str("(empty)")
    } else {
        out
    }
}

proof fn lemma_pow2_bound(k: nat)
    requires
        k <= 32,
    ensures
        1 <= pow2(k) <= 0x1_0000_0000,
    decreases 32 - k,
{
    if k < 32 {
        lemma_pow2_bound(k + 1);
        assert(pow2(k + 1) == 2 * pow2(k));
    } else {
        reveal_with_fuel(pow2, 33);
        assert(pow2(32) == 0x1_0000_0000);
    }
    if k == 0 {
        assert(pow2(0) == 1);
    } else {
        lemma_pow2_positive(k);
    }
}

proof fn lemma_pow2_positive(k: nat)
    ensures
        pow2(k) >= 1,
    decreases k,
{
    if k > 0 {
        lemma_pow2_positive((k - 1) as nat);
    }
}

/// The reasons a change was journaled.
#[derive(Clone, Copy, Debug, PartialEq, Eq, Structural)]
pub struct Reason {
    pub bits: u32,
}

/// The attributes of the file a record describes.
#[derive(Clone, Copy, Debug, PartialEq, Eq, Structural)]
pub struct FileAttributes {
    pub bits: u32,
}

/// Where a change came from.
#[derive(Clone, Copy, Debug, PartialEq, Eq, Structural)]
pub struct SourceInfo {
    pub bits: u32,
}

impl Reason {
    /// The set's names, lowest bit first, joined with ` | `; `(empty)` for no bit.
    pub fn to_symbolic(&self) -> (r: String)
        ensures
            r@ == symbolic(self.bits, 0),
    {
        symbolic_str(self.bits, 0)
    }

    /// Keeps the named bits of `bits` and drops the others.
    pub fn from_bits_truncate(bits: u32) -> (r: Reason)
        ensures
            r.bits == bits & REASON_ALL,
    {
        Reason { bits: bits & REASON_ALL }
    }

    pub fn bits(&self) -> (r: u32)
        ensures
            r == self.bits,
    {
        self.bits
    }

    /// Whether every bit of `other` is set.
    pub fn contains(&self, other: u32) -> (r: bool)
        ensures
            r == (self.bits & other == other),
    {
        self.bits & other == other
    }
}

impl FileAttributes {
    /// The set's names, lowest bit first, joined with ` | `; `(empty)` for no bit.
    pub fn to_symbolic(&self) -> (r: String)
        ensures
            r@ == symbolic(self.bits, 1),
    {
        symbolic_str(self.bits, 1)
    }

    /// Keeps the named bits of `bits` and drops the others.
    pub fn from_bits_truncate(bits: u32) -> (r: FileAttributes)
        ensures
            r.bits == bits & FILE_ATTRIBUTES_ALL,
    {
        FileAttributes { bits: bits & FILE_ATTRIBUTES_ALL }
    }

    pub fn bits(&self) -> (r: u32)
        ensures
            r == self.bits,
    {
        self.bits
    }

    /// Whether every bit of `other` is set.
    pub fn contains(&self, other: u32) -> (r: bool)
        ensures
            r == (self.bits & other == other),
    {
        self.bits & other == other
    }
}

impl SourceInfo {
    /// The set's names, lowest bit first, joined with ` | `; `(empty)` for no bit.
    pub fn to_symbolic(&self) -> (r: String)
        ensures
            r@ == symbolic(self.bits, 2),
    {
        symbolic_str(self.bits, 2)
    }

    /// Keeps the named bits of `bits` and drops the others.
    pub fn from_bits_truncate(bits: u32) -> (r: SourceInfo)
        ensures
            r.bits == bits & SOURCE_INFO_ALL,
    {
        SourceInfo { bits: bits & SOURCE_INFO_ALL }
    }

    pub fn bits(&self) -> (r: u32)
        ensures
            r == self.bits,
    {
        self.bits
    }

    /// Whether every bit of `other` is set.
    pub fn contains(&self, other: u32) -> (r: bool)
        ensures
            r == (self.bits & other == other),
    {
        self.bits & other == other
    }
}

} // verus!
