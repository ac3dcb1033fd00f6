//! USN_RECORD_V2 / USN_RECORD_V3: field-by-field decoding with validation, and encoding.

use crate::error::{ErrorKind, UsnError};
use crate::flags::{
    FileAttributes, Reason, SourceInfo, FILE_ATTRIBUTES_ALL, REASON_ALL, SOURCE_INFO_ALL,
};
use crate::le::{lemma_bytes128_len, lemma_le128_bytes128, push_u128, lemma_bytes_len, lemma_le16_bytes16, lemma_le32_bytes32, lemma_le64_bytes64, push_u16, push_u32, push_u64, bytes16, bytes32, bytes64, bytes128, le16, le32, le64, le128, read_u16, read_u32, read_u64, read_u128};
use vstd::slice::slice_subrange;
use crate::reference::{MftReference, Ntfs128Reference};
use crate::timestamp::WinTimestamp;
use encoding::all::UTF_16LE;
use encoding::{DecoderTrap, EncoderTrap, Encoding};
use vstd::prelude::*;
use vstd::string::*;

verus! {

/// The largest record the journal holds.
pub const MAX_RECORD_LENGTH: u32 = 1024;

/// Where the name starts in a V2 record.
pub const V2_NAME_OFFSET: u16 = 60;

/// Where the name starts in a V3 record.
pub const V3_NAME_OFFSET: u16 = 80;

/// The string that UTF-16LE `b` decodes to, malformed units replaced.
pub uninterp spec fn utf16le_decoded(b: Seq<u8>) -> Seq<char>;

/// The UTF-16LE bytes of `s`.
pub uninterp spec fn utf16le_encoded(s: Seq<char>) -> Seq<u8>;

/// Relies on encoding's `UTF_16LE.decode` with `DecoderTrap::Replace`: it never
/// fails (malformed units become U+FFFD) and depends on the bytes alone.
#[verifier::external_body]
fn decode_utf16le(b: &[u8]) -> (r: String)
    ensures
        r@ == utf16le_decoded(b@),
{
    match UTF_16LE.decode(b, DecoderTrap::Replace) {
        Ok(s) => s,
        Err(e) => e.into_owned(),
    }
}

/// Relies on encoding's `UTF_16LE.encode` with `EncoderTrap::Strict`: every
/// string has a UTF-16LE form, and decoding that form gives the string back.
#[verifier::external_body]
fn encode_utf16le(s: &str) -> (r: Vec<u8>)
    ensures
        r@ == utf16le_encoded(s@),
        utf16le_decoded(r@) == s@,
{
    match UTF_16LE.encode(s, EncoderTrap::Strict) {
        Ok(v) => v,
        Err(_) => Vec::new(),
    }
}

/// The length checks every record passes: non-zero, at most 1024, 8-byte aligned.
pub open spec fn length_ok(len: int) -> bool {
    0 < len <= MAX_RECORD_LENGTH && len % 8 == 0
}

/// `b` starts with a well-formed V2 record that lies wholly inside it.
pub open spec fn v2_header_ok(b: Seq<u8>) -> bool {
    &&& b.len() >= 60
    &&& length_ok(le32(b, 0))
    &&& le32(b, 0) <= b.len()
    &&& le16(b, 4) == 2
    &&& le16(b, 6) == 0
    &&& le16(b, 58) == V2_NAME_OFFSET
    &&& V2_NAME_OFFSET + le16(b, 56) <= le32(b, 0)
}

/// `b` starts with a well-formed V3 record that lies wholly inside it.
pub open spec fn v3_header_ok(b: Seq<u8>) -> bool {
    &&& b.len() >= 80
    &&& length_ok(le32(b, 0))
    &&& le32(b, 0) <= b.len()
    &&& le16(b, 4) == 3
    &&& le16(b, 6) == 0
    &&& le16(b, 74) == V3_NAME_OFFSET
    &&& V3_NAME_OFFSET + le16(b, 72) <= le32(b, 0)
}

/// A USN_RECORD_V2.
#[derive(Debug)]
pub struct UsnRecordV2 {
    pub record_length: u32,
    pub major_version: u16,
    pub minor_version: u16,
    pub file_reference: MftReference,
    pub parent_reference: MftReference,
    pub usn: u64,
    pub timestamp: WinTimestamp,
    pub reason: Reason,
    pub source_info: SourceInfo,
    pub security_id: u32,
    pub file_attributes: FileAttributes,
    pub file_name_length: u16,
    pub file_name_offset: u16,
    pub file_name: String,
}

/// A USN_RECORD_V3.
#[derive(Debug)]
pub struct UsnRecordV3 {
    pub record_length: u32,
    pub major_version: u16,
    pub minor_version: u16,
    pub file_reference: Ntfs128Reference,
    pub parent_reference: Ntfs128Reference,
    pub usn: u64,
    pub timestamp: WinTimestamp,
    pub reason: Reason,
    pub source_info: SourceInfo,
    pub security_id: u32,
    pub file_attributes: FileAttributes,
    pub file_name_length: u16,
    pub file_name_offset: u16,
    pub file_name: String,
}

/// Every field of `r` is what the V2 layout puts in `b`.
pub open spec fn v2_fields(b: Seq<u8>, r: UsnRecordV2) -> bool {
    &&& r.record_length == le32(b, 0)
    &&& r.major_version == le16(b, 4)
    &&& r.minor_version == le16(b, 6)
    &&& r.file_reference.wf() && r.file_reference.packed() == le64(b, 8)
    &&& r.parent_reference.wf() && r.parent_reference.packed() == le64(b, 16)
    &&& r.usn == le64(b, 24)
    &&& r.timestamp.0 == le64(b, 32)
    &&& r.reason.bits == (le32(b, 40) as u32) & REASON_ALL
    &&& r.source_info.bits == (le32(b, 44) as u32) & SOURCE_INFO_ALL
    &&& r.security_id == le32(b, 48)
    &&& r.file_attributes.bits == (le32(b, 52) as u32) & FILE_ATTRIBUTES_ALL
    &&& r.file_name_length == le16(b, 56)
    &&& r.file_name_offset == le16(b, 58)
    &&& r.file_name@ == utf16le_decoded(b.subrange(60, 60 + le16(b, 56)))
}

/// Every field of `r` is what the V3 layout puts in `b`.
pub open spec fn v3_fields(b: Seq<u8>, r: UsnRecordV3) -> bool {
    &&& r.record_length == le32(b, 0)
    &&& r.major_version == le16(b, 4)
    &&& r.minor_version == le16(b, 6)
    &&& r.file_reference.0 == le128(b, 8)
    &&& r.parent_reference.0 == le128(b, 24)
    &&& r.usn == le64(b, 40)
    &&& r.timestamp.0 == le64(b, 48)
    &&& r.reason.bits == (le32(b, 56) as u32) & REASON_ALL
    &&& r.source_info.bits == (le32(b, 60) as u32) & SOURCE_INFO_ALL
    &&& r.security_id == le32(b, 64)
    &&& r.file_attributes.bits == (le32(b, 68) as u32) & FILE_ATTRIBUTES_ALL
    &&& r.file_name_length == le16(b, 72)
    &&& r.file_name_offset == le16(b, 74)
    &&& r.file_name@ == utf16le_decoded(b.subrange(80, 80 + le16(b, 72)))
}

fn v2_error(msg: &str) -> (e: UsnError)
    ensures
        e.kind == ErrorKind::InvalidUsnV2Record,
{
    UsnError::invalid_v2_record(String::from_str(msg))
}

fn v3_error(msg: &str) -> (e: UsnError)
    ensures
        e.kind == ErrorKind::InvalidUsnV3Record,
{
    UsnError::invalid_v3_record(String::from_str(msg))
}

impl UsnRecordV2 {
    /// Decodes the V2 record at the start of `b`.
    pub fn new(b: &[u8]) -> (r: Result<UsnRecordV2, UsnError>)
        ensures
            match r {
                Ok(rec) => v2_header_ok(b@) && v2_fields(b@, rec),
                Err(e) => !v2_header_ok(b@) && e.kind == ErrorKind::InvalidUsnV2Record,
            },
    {
        if b.len() < 60 {
            return Err(v2_error("Buffer is shorter than a record header."));
        }
        let record_length = read_u32(b, 0);
        if record_length == 0 {
            return Err(v2_error("Record length is 0."));
        }
        if record_length > MAX_RECORD_LENGTH {
            return Err(v2_error("Record length is over 1024."));
        }
        if record_length % 8 != 0 {
            return Err(v2_error("Record length is not 8 byte aligned."));
        }
        if record_length as usize > b.len() {
            return Err(v2_error("Record extends past the end of the buffer."));
        }
        let major_version = read_u16(b, 4);
        if major_version != 2 {
            return Err(v2_error("Major version is not 2"));
        }
        let minor_version = read_u16(b, 6);
        if minor_version != 0 {
            return Err(v2_error("Minor version is not 0"));
        }
        let file_name_length = read_u16(b, 56);
        let file_name_offset = read_u16(b, 58);
        if file_name_offset != V2_NAME_OFFSET {
            return Err(v2_error("File name offset is not 60"));
        }
        if 60 + file_name_length as u32 > record_length {
            return Err(v2_error("File name extends past the record."));
        }
        let file_reference = MftReference::from_u64(read_u64(b, 8));
        let parent_reference = MftReference::from_u64(read_u64(b, 16));
        let usn = read_u64(b, 24);
        let timestamp = WinTimestamp::new(read_u64(b, 32));
        let reason = Reason::from_bits_truncate(read_u32(b, 40));
        let source_info = SourceInfo::from_bits_truncate(read_u32(b, 44));
        let security_id = read_u32(b, 48);
        let file_attributes = FileAttributes::from_bits_truncate(read_u32(b, 52));
        let name_end: usize = 60 + file_name_length as usize;
        let file_name = decode_utf16le(slice_subrange(b, 60, name_end));
        Ok(
            UsnRecordV2 {
                record_length,
                major_version,
                minor_version,
                file_reference,
                parent_reference,
                usn,
                timestamp,
                reason,
                source_info,
                security_id,
                file_attributes,
                file_name_length,
                file_name_offset,
                file_name,
            },
        )
    }
}

impl UsnRecordV3 {
    /// Decodes the V3 record at the start of `b`.
    pub fn new(b: &[u8]) -> (r: Result<UsnRecordV3, UsnError>)
        ensures
            match r {
                Ok(rec) => v3_header_ok(b@) && v3_fields(b@, rec),
                Err(e) => !v3_header_ok(b@) && e.kind == ErrorKind::InvalidUsnV3Record,
            },
    {
        if b.len() < 80 {
            return Err(v3_error("Buffer is shorter than a record header."));
        }
        let record_length = read_u32(b, 0);
        if record_length == 0 {
            return Err(v3_error("Record length is 0."));
        }
        if record_length > MAX_RECORD_LENGTH {
            return Err(v3_error("Record length is over 1024."));
        }
        if record_length % 8 != 0 {
            return Err(v3_error("Record length is not 8 byte aligned."));
        }
        if record_length as usize > b.len() {
            return Err(v3_error("Record extends past the end of the buffer."));
        }
        let major_version = read_u16(b, 4);
        if major_version != 3 {
            return Err(v3_error("Major version is not 3"));
        }
        let minor_version = read_u16(b, 6);
        if minor_version != 0 {
            return Err(v3_error("Minor version is not 0"));
        }
        let file_name_length = read_u16(b, 72);
        let file_name_offset = read_u16(b, 74);
        if file_name_offset != V3_NAME_OFFSET {
            return Err(v3_error("File name offset is not 80"));
        }
        if 80 + file_name_length as u32 > record_length {
            return Err(v3_error("File name extends past the record."));
        }
        let file_reference = Ntfs128Reference(read_u128(b, 8));
        let parent_reference = Ntfs128Reference(read_u128(b, 24));
        let usn = read_u64(b, 40);
        let timestamp = WinTimestamp::new(read_u64(b, 48));
        let reason = Reason::from_bits_truncate(read_u32(b, 56));
        let source_info = SourceInfo::from_bits_truncate(read_u32(b, 60));
        let security_id = read_u32(b, 64);
        let file_attributes = FileAttributes::from_bits_truncate(read_u32(b, 68));
        let name_end: usize = 80 + file_name_length as usize;
        let file_name = decode_utf16le(slice_subrange(b, 80, name_end));
        Ok(
            UsnRecordV3 {
                record_length,
                major_version,
                minor_version,
                file_reference,
                parent_reference,
                usn,
                timestamp,
                reason,
                source_info,
                security_id,
                file_attributes,
                file_name_length,
                file_name_offset,
                file_name,
            },
        )
    }
}


/// `n` zero bytes.
pub open spec fn zeros(n: int) -> Seq<u8> {
    Seq::new(n as nat, |i: int| 0u8)
}

/// The fields of `r` that a V2 encoding can carry so that it decodes to them again.
pub open spec fn v2_encodable(r: UsnRecordV2) -> bool {
    &&& length_ok(r.record_length as int)
    &&& r.major_version == 2
    &&& r.minor_version == 0
    &&& r.file_name_offset == V2_NAME_OFFSET
    &&& V2_NAME_OFFSET + r.file_name_length <= r.record_length
    &&& r.file_reference.wf()
    &&& r.parent_reference.wf()
    &&& r.reason.bits & REASON_ALL == r.reason.bits
    &&& r.source_info.bits & SOURCE_INFO_ALL == r.source_info.bits
    &&& r.file_attributes.bits & FILE_ATTRIBUTES_ALL == r.file_attributes.bits
}

/// Bytes 0..8 of a V2 record: length and versions.
pub open spec fn v2_part_a(r: UsnRecordV2) -> Seq<u8> {
    bytes32(r.record_length as int) + bytes16(r.major_version as int) + bytes16(
        r.minor_version as int,
    )
}

/// Bytes 8..24 of a V2 record: the two references.
pub open spec fn v2_part_b(r: UsnRecordV2) -> Seq<u8> {
    bytes64(r.file_reference.packed()) + bytes64(r.parent_reference.packed())
}

/// Bytes 24..40 of a V2 record: usn and timestamp.
pub open spec fn v2_part_c(r: UsnRecordV2) -> Seq<u8> {
    bytes64(r.usn as int) + bytes64(r.timestamp.0 as int)
}

/// Bytes 40..56 of a V2 record: reason, source info, security id, attributes.
pub open spec fn v2_part_d(r: UsnRecordV2) -> Seq<u8> {
    bytes32(r.reason.bits as int) + bytes32(r.source_info.bits as int) + bytes32(
        r.security_id as int,
    ) + bytes32(r.file_attributes.bits as int)
}

/// Bytes 56..60 of a V2 record: name length and offset.
pub open spec fn v2_part_e(r: UsnRecordV2) -> Seq<u8> {
    bytes16(r.file_name_length as int) + bytes16(r.file_name_offset as int)
}

/// The 60-byte V2 header of `r`.
pub open spec fn v2_header(r: UsnRecordV2) -> Seq<u8> {
    v2_part_a(r) + v2_part_b(r) + v2_part_c(r) + v2_part_d(r) + v2_part_e(r)
}

/// The V2 layout of `r`, with `name` as the name bytes, zero-padded to the record length.
pub open spec fn v2_encoding(r: UsnRecordV2, name: Seq<u8>) -> Seq<u8> {
    v2_header(r) + name + zeros(r.record_length - 60 - name.len())
}

proof fn lemma_reference_packed_bound(m: MftReference)
    requires
        m.wf(),
    ensures
        0 <= m.packed() < 0x1_0000_0000_0000_0000,
{
    assert(m.sequence * 0x1_0000_0000_0000 <= 0xffff * 0x1_0000_0000_0000) by (nonlinear_arith)
        requires
            m.sequence <= 0xffff,
    ;
}

proof fn lemma_window16(b: Seq<u8>, s: Seq<u8>, o: int, i: int)
    requires
        0 <= o,
        o + s.len() <= b.len(),
        b.subrange(o, o + s.len()) == s,
        0 <= i,
        i + 2 <= s.len(),
    ensures
        le16(b, o + i) == le16(s, i),
{
    assert(b[o + i] == b.subrange(o, o + s.len())[i]);
    assert(b[o + i + 1] == b.subrange(o, o + s.len())[i + 1]);
}

proof fn lemma_window32(b: Seq<u8>, s: Seq<u8>, o: int, i: int)
    requires
        0 <= o,
        o + s.len() <= b.len(),
        b.subrange(o, o + s.len()) == s,
        0 <= i,
        i + 4 <= s.len(),
    ensures
        le32(b, o + i) == le32(s, i),
{
    lemma_window16(b, s, o, i);
    lemma_window16(b, s, o, i + 2);
}

proof fn lemma_window64(b: Seq<u8>, s: Seq<u8>, o: int, i: int)
    requires
        0 <= o,
        o + s.len() <= b.len(),
        b.subrange(o, o + s.len()) == s,
        0 <= i,
        i + 8 <= s.len(),
    ensures
        le64(b, o + i) == le64(s, i),
{
    lemma_window32(b, s, o, i);
    lemma_window32(b, s, o, i + 4);
}

#[verifier::spinoff_prover]
#[verifier::rlimit(40)]
proof fn lemma_v2_part_a(r: UsnRecordV2)
    ensures
        v2_part_a(r).len() == 8,
        le32(v2_part_a(r), 0) == r.record_length,
        le16(v2_part_a(r), 4) == r.major_version,
        le16(v2_part_a(r), 6) == r.minor_version,
{
    lemma_bytes_len(r.record_length as int);
    lemma_bytes_len(r.major_version as int);
    lemma_bytes_len(r.minor_version as int);
    let a = v2_part_a(r);
    assert(a.subrange(0, 4) =~= bytes32(r.record_length as int));
    lemma_le32_bytes32(r.record_length as int, a, 0);
    assert(a.subrange(4, 6) =~= bytes16(r.major_version as int));
    lemma_le16_bytes16(r.major_version as int, a, 4);
    assert(a.subrange(6, 8) =~= bytes16(r.minor_version as int));
    lemma_le16_bytes16(r.minor_version as int, a, 6);
}

#[verifier::spinoff_prover]
#[verifier::rlimit(40)]
proof fn lemma_two_u64(x: int, y: int)
    requires
        0 <= x < 0x1_0000_0000_0000_0000,
        0 <= y < 0x1_0000_0000_0000_0000,
    ensures
        (bytes64(x) + bytes64(y)).len() == 16,
        le64(bytes64(x) + bytes64(y), 0) == x,
        le64(bytes64(x) + bytes64(y), 8) == y,
{
    lemma_bytes_len(x);
    lemma_bytes_len(y);
    let a = bytes64(x) + bytes64(y);
    assert(a.subrange(0, 8) =~= bytes64(x));
    lemma_le64_bytes64(x, a, 0);
    assert(a.subrange(8, 16) =~= bytes64(y));
    lemma_le64_bytes64(y, a, 8);
}

#[verifier::spinoff_prover]
#[verifier::rlimit(40)]
proof fn lemma_v2_part_b(r: UsnRecordV2)
    requires
        r.file_reference.wf(),
        r.parent_reference.wf(),
    ensures
        v2_part_b(r).len() == 16,
        le64(v2_part_b(r), 0) == r.file_reference.packed(),
        le64(v2_part_b(r), 8) == r.parent_reference.packed(),
{
    lemma_reference_packed_bound(r.file_reference);
    lemma_reference_packed_bound(r.parent_reference);
    lemma_two_u64(r.file_reference.packed(), r.parent_reference.packed());
}

#[verifier::spinoff_prover]
#[verifier::rlimit(40)]
proof fn lemma_v2_part_c(r: UsnRecordV2)
    ensures
        v2_part_c(r).len() == 16,
        le64(v2_part_c(r), 0) == r.usn,
        le64(v2_part_c(r), 8) == r.timestamp.0,
{
    lemma_two_u64(r.usn as int, r.timestamp.0 as int);
}

#[verifier::spinoff_prover]
#[verifier::rlimit(40)]
proof fn lemma_v2_part_d(r: UsnRecordV2)
    ensures
        v2_part_d(r).len() == 16,
        le32(v2_part_d(r), 0) == r.reason.bits,
        le32(v2_part_d(r), 4) == r.source_info.bits,
        le32(v2_part_d(r), 8) == r.security_id,
        le32(v2_part_d(r), 12) == r.file_attributes.bits,
{
    lemma_bytes_len(r.reason.bits as int);
    lemma_bytes_len(r.source_info.bits as int);
    lemma_bytes_len(r.security_id as int);
    lemma_bytes_len(r.file_attributes.bits as int);
    let a = v2_part_d(r);
    assert(a.subrange(0, 4) =~= bytes32(r.reason.bits as int));
    lemma_le32_bytes32(r.reason.bits as int, a, 0);
    assert(a.subrange(4, 8) =~= bytes32(r.source_info.bits as int));
    lemma_le32_bytes32(r.source_info.bits as int, a, 4);
    assert(a.subrange(8, 12) =~= bytes32(r.security_id as int));
    lemma_le32_bytes32(r.security_id as int, a, 8);
    assert(a.subrange(12, 16) =~= bytes32(r.file_attributes.bits as int));
    lemma_le32_bytes32(r.file_attributes.bits as int, a, 12);
}

#[verifier::spinoff_prover]
#[verifier::rlimit(40)]
proof fn lemma_v2_part_e(r: UsnRecordV2)
    ensures
        v2_part_e(r).len() == 4,
        le16(v2_part_e(r), 0) == r.file_name_length,
        le16(v2_part_e(r), 2) == r.file_name_offset,
{
    lemma_bytes_len(r.file_name_length as int);
    lemma_bytes_len(r.file_name_offset as int);
    let a = v2_part_e(r);
    assert(a.subrange(0, 2) =~= bytes16(r.file_name_length as int));
    lemma_le16_bytes16(r.file_name_length as int, a, 0);
    assert(a.subrange(2, 4) =~= bytes16(r.file_name_offset as int));
    lemma_le16_bytes16(r.file_name_offset as int, a, 2);
}

/// Decoding the V2 encoding of a record gives that record back: the encoding
/// passes every check, and each field read from it is the record's own.
#[verifier::spinoff_prover]
#[verifier::rlimit(80)]
pub proof fn lemma_v2_round_trip(r: UsnRecordV2, name: Seq<u8>)
    requires
        v2_encodable(r),
        name.len() == r.file_name_length,
        utf16le_decoded(name) == r.file_name@,
    ensures
        v2_header_ok(v2_encoding(r, name)),
        v2_fields(v2_encoding(r, name), r),
        v2_encoding(r, name).len() == r.record_length,
{
    let b = v2_encoding(r, name);
    lemma_v2_part_a(r);
    lemma_v2_part_b(r);
    lemma_v2_part_c(r);
    lemma_v2_part_d(r);
    lemma_v2_part_e(r);
    let h = v2_header(r);
    assert(h.len() == 60);
    assert(b.len() == r.record_length);
    assert(b.subrange(0, 8) =~= v2_part_a(r));
    assert(b.subrange(8, 24) =~= v2_part_b(r));
    assert(b.subrange(24, 40) =~= v2_part_c(r));
    assert(b.subrange(40, 56) =~= v2_part_d(r));
    assert(b.subrange(56, 60) =~= v2_part_e(r));
    lemma_window32(b, v2_part_a(r), 0, 0);
    lemma_window16(b, v2_part_a(r), 0, 4);
    lemma_window16(b, v2_part_a(r), 0, 6);
    lemma_window64(b, v2_part_b(r), 8, 0);
    lemma_window64(b, v2_part_b(r), 8, 8);
    lemma_window64(b, v2_part_c(r), 24, 0);
    lemma_window64(b, v2_part_c(r), 24, 8);
    lemma_window32(b, v2_part_d(r), 40, 0);
    lemma_window32(b, v2_part_d(r), 40, 4);
    lemma_window32(b, v2_part_d(r), 40, 8);
    lemma_window32(b, v2_part_d(r), 40, 12);
    lemma_window16(b, v2_part_e(r), 56, 0);
    lemma_window16(b, v2_part_e(r), 56, 2);
    assert(b.subrange(60, 60 + name.len() as int) =~= name);
}

#[verifier::spinoff_prover]
#[verifier::rlimit(40)]
proof fn lemma_v2_header_len(r: UsnRecordV2)
    ensures
        v2_header(r).len() == 60,
{
    lemma_bytes_len(r.record_length as int);
    lemma_bytes_len(r.major_version as int);
    lemma_bytes_len(r.minor_version as int);
    lemma_bytes_len(r.file_reference.packed());
    lemma_bytes_len(r.parent_reference.packed());
    lemma_bytes_len(r.usn as int);
    lemma_bytes_len(r.timestamp.0 as int);
    lemma_bytes_len(r.reason.bits as int);
    lemma_bytes_len(r.source_info.bits as int);
    lemma_bytes_len(r.security_id as int);
    lemma_bytes_len(r.file_attributes.bits as int);
    lemma_bytes_len(r.file_name_length as int);
    lemma_bytes_len(r.file_name_offset as int);
}

/// Appends `name`, then zeros until `v` is `total` bytes long.
fn append_padded(v: &mut Vec<u8>, name: &Vec<u8>, total: usize)
    requires
        old(v)@.len() + name@.len() <= total,
    ensures
        final(v)@ == old(v)@ + name@ + zeros(total - old(v)@.len() - name@.len()),
{
    let ghost head = v@;
    let mut i: usize = 0;
    while i < name.len()
        invariant
            i <= name@.len(),
            head.len() + name@.len() <= total,
            v@ == head + name@.subrange(0, i as int),
        decreases name@.len() - i,
    {
        v.push(name[i]);
        i = i + 1;
        assert(v@ =~= head + name@.subrange(0, i as int));
    }
    assert(name@.subrange(0, name@.len() as int) =~= name@);
    let ghost body = v@;
    while v.len() < total
        invariant
            body.len() == head.len() + name@.len(),
            body.len() <= v@.len() <= total,
            v@ == body + zeros(v@.len() - body.len()),
        decreases total - v@.len(),
    {
        v.push(0u8);
        assert(v@ =~= body + zeros(v@.len() - body.len()));
    }
    assert(v@ =~= head + name@ + zeros(total - head.len() - name@.len()));
}

impl UsnRecordV2 {
    fn is_encodable(&self) -> (r: bool)
        ensures
            r == v2_encodable(*self),
    {
        self.record_length != 0 && self.record_length <= MAX_RECORD_LENGTH && self.record_length % 8
            == 0 && self.major_version == 2 && self.minor_version == 0 && self.file_name_offset
            == V2_NAME_OFFSET && 60 + (self.file_name_length as u32) <= self.record_length
            && self.file_reference.entry < crate::reference::ENTRY_LIMIT
            && self.parent_reference.entry < crate::reference::ENTRY_LIMIT && self.reason.bits
            & REASON_ALL == self.reason.bits && self.source_info.bits & SOURCE_INFO_ALL
            == self.source_info.bits && self.file_attributes.bits & FILE_ATTRIBUTES_ALL
            == self.file_attributes.bits
    }

    #[verifier::spinoff_prover]
    #[verifier::rlimit(40)]
    fn header_bytes(&self) -> (v: Vec<u8>)
        requires
            self.file_reference.wf(),
            self.parent_reference.wf(),
        ensures
            v@ == v2_header(*self),
    {
        proof {
            lemma_v2_header_len(*self);
            lemma_bytes_len(self.record_length as int);
            lemma_bytes_len(self.major_version as int);
            lemma_bytes_len(self.minor_version as int);
            lemma_bytes_len(self.file_reference.packed());
            lemma_bytes_len(self.parent_reference.packed());
            lemma_bytes_len(self.usn as int);
            lemma_bytes_len(self.timestamp.0 as int);
            lemma_bytes_len(self.reason.bits as int);
            lemma_bytes_len(self.source_info.bits as int);
            lemma_bytes_len(self.security_id as int);
            lemma_bytes_len(self.file_attributes.bits as int);
            lemma_bytes_len(self.file_name_length as int);
            lemma_bytes_len(self.file_name_offset as int);
        }
        let mut v: Vec<u8> = Vec::new();
        push_u32(&mut v, self.record_length);
        push_u16(&mut v, self.major_version);
        push_u16(&mut v, self.minor_version);
        assert(v@ =~= v2_part_a(*self));
        push_u64(&mut v, self.file_reference.as_u64());
        push_u64(&mut v, self.parent_reference.as_u64());
        assert(v@ =~= v2_part_a(*self) + v2_part_b(*self));
        push_u64(&mut v, self.usn);
        push_u64(&mut v, self.timestamp.0);
        assert(v@ =~= v2_part_a(*self) + v2_part_b(*self) + v2_part_c(*self));
        push_u32(&mut v, self.reason.bits);
        push_u32(&mut v, self.source_info.bits);
        push_u32(&mut v, self.security_id);
        push_u32(&mut v, self.file_attributes.bits);
        assert(v@ =~= v2_part_a(*self) + v2_part_b(*self) + v2_part_c(*self) + v2_part_d(*self));
        push_u16(&mut v, self.file_name_length);
        push_u16(&mut v, self.file_name_offset);
        assert(v@ =~= v2_header(*self));
        v
    }

    /// The V2 layout of this record; `None` where a field could not be read
    /// back as it stands (see `v2_encodable`) or the name's UTF-16LE form is
    /// not `file_name_length` bytes long.
    #[verifier::spinoff_prover]
    #[verifier::rlimit(40)]
    pub fn to_bytes(&self) -> (r: Option<Vec<u8>>)
        ensures
            match r {
                Some(v) => v2_encodable(*self) && utf16le_encoded(self.file_name@).len()
                    == self.file_name_length && utf16le_decoded(utf16le_encoded(self.file_name@))
                    == self.file_name@ && v@ == v2_encoding(
                    *self,
                    utf16le_encoded(self.file_name@),
                ),
                None => !(v2_encodable(*self) && utf16le_encoded(self.file_name@).len()
                    == self.file_name_length),
            },
    {
        let name = encode_utf16le(self.file_name.as_str());
        if !(self.is_encodable() && name.len() == self.file_name_length as usize) {
            return None;
        }
        let mut v = self.header_bytes();
        proof {
            lemma_v2_header_len(*self);
        }
        append_padded(&mut v, &name, self.record_length as usize);
        Some(v)
    }
}

/// The fields of `r` that a V3 encoding can carry so that it decodes to them again.
pub open spec fn v3_encodable(r: UsnRecordV3) -> bool {
    &&& length_ok(r.record_length as int)
    &&& r.major_version == 3
    &&& r.minor_version == 0
    &&& r.file_name_offset == V3_NAME_OFFSET
    &&& V3_NAME_OFFSET + r.file_name_length <= r.record_length
    &&& r.reason.bits & REASON_ALL == r.reason.bits
    &&& r.source_info.bits & SOURCE_INFO_ALL == r.source_info.bits
    &&& r.file_attributes.bits & FILE_ATTRIBUTES_ALL == r.file_attributes.bits
}

/// Bytes 0..8 of a V3 record: length and versions.
pub open spec fn v3_part_a(r: UsnRecordV3) -> Seq<u8> {
    bytes32(r.record_length as int) + bytes16(r.major_version as int) + bytes16(
        r.minor_version as int,
    )
}

/// Bytes 8..40 of a V3 record: the two 128-bit references.
pub open spec fn v3_part_b(r: UsnRecordV3) -> Seq<u8> {
    bytes128(r.file_reference.0 as int) + bytes128(r.parent_reference.0 as int)
}

/// Bytes 40..56 of a V3 record: usn and timestamp.
pub open spec fn v3_part_c(r: UsnRecordV3) -> Seq<u8> {
    bytes64(r.usn as int) + bytes64(r.timestamp.0 as int)
}

/// Bytes 56..72 of a V3 record: reason, source info, security id, attributes.
pub open spec fn v3_part_d(r: UsnRecordV3) -> Seq<u8> {
    bytes32(r.reason.bits as int) + bytes32(r.source_info.bits as int) + bytes32(
        r.security_id as int,
    ) + bytes32(r.file_attributes.bits as int)
}

/// Bytes 72..80 of a V3 record: name length and offset, then four zero bytes.
pub open spec fn v3_part_e(r: UsnRecordV3) -> Seq<u8> {
    bytes16(r.file_name_length as int) + bytes16(r.file_name_offset as int) + zeros(4)
}

/// The 80-byte V3 header of `r`.
pub open spec fn v3_header(r: UsnRecordV3) -> Seq<u8> {
    v3_part_a(r) + v3_part_b(r) + v3_part_c(r) + v3_part_d(r) + v3_part_e(r)
}

/// The V3 layout of `r`, with `name` as the name bytes, zero-padded to the record length.
pub open spec fn v3_encoding(r: UsnRecordV3, name: Seq<u8>) -> Seq<u8> {
    v3_header(r) + name + zeros(r.record_length - 80 - name.len())
}

proof fn lemma_window128(b: Seq<u8>, s: Seq<u8>, o: int, i: int)
    requires
        0 <= o,
        o + s.len() <= b.len(),
        b.subrange(o, o + s.len()) == s,
        0 <= i,
        i + 16 <= s.len(),
    ensures
        le128(b, o + i) == le128(s, i),
{
    lemma_window64(b, s, o, i);
    lemma_window64(b, s, o, i + 8);
}

#[verifier::spinoff_prover]
#[verifier::rlimit(40)]
proof fn lemma_v3_part_a(r: UsnRecordV3)
    ensures
        v3_part_a(r).len() == 8,
        le32(v3_part_a(r), 0) == r.record_length,
        le16(v3_part_a(r), 4) == r.major_version,
        le16(v3_part_a(r), 6) == r.minor_version,
{
    lemma_bytes_len(r.record_length as int);
    lemma_bytes_len(r.major_version as int);
    lemma_bytes_len(r.minor_version as int);
    let a = v3_part_a(r);
    assert(a.subrange(0, 4) =~= bytes32(r.record_length as int));
    lemma_le32_bytes32(r.record_length as int, a, 0);
    assert(a.subrange(4, 6) =~= bytes16(r.major_version as int));
    lemma_le16_bytes16(r.major_version as int, a, 4);
    assert(a.subrange(6, 8) =~= bytes16(r.minor_version as int));
    lemma_le16_bytes16(r.minor_version as int, a, 6);
}

#[verifier::spinoff_prover]
#[verifier::rlimit(40)]
proof fn lemma_v3_part_b(r: UsnRecordV3)
    ensures
        v3_part_b(r).len() == 32,
        le128(v3_part_b(r), 0) == r.file_reference.0,
        le128(v3_part_b(r), 16) == r.parent_reference.0,
{
    let x = r.file_reference.0 as int;
    let y = r.parent_reference.0 as int;
    lemma_bytes128_len(x);
    lemma_bytes128_len(y);
    let a = v3_part_b(r);
    assert(a.subrange(0, 16) =~= bytes128(x));
    lemma_le128_bytes128(x, a, 0);
    assert(a.subrange(16, 32) =~= bytes128(y));
    lemma_le128_bytes128(y, a, 16);
}

#[verifier::spinoff_prover]
#[verifier::rlimit(40)]
proof fn lemma_v3_part_c(r: UsnRecordV3)
    ensures
        v3_part_c(r).len() == 16,
        le64(v3_part_c(r), 0) == r.usn,
        le64(v3_part_c(r), 8) == r.timestamp.0,
{
    lemma_two_u64(r.usn as int, r.timestamp.0 as int);
}

#[verifier::spinoff_prover]
#[verifier::rlimit(40)]
proof fn lemma_v3_part_d(r: UsnRecordV3)
    ensures
        v3_part_d(r).len() == 16,
        le32(v3_part_d(r), 0) == r.reason.bits,
        le32(v3_part_d(r), 4) == r.source_info.bits,
        le32(v3_part_d(r), 8) == r.security_id,
        le32(v3_part_d(r), 12) == r.file_attributes.bits,
{
    lemma_bytes_len(r.reason.bits as int);
    lemma_bytes_len(r.source_info.bits as int);
    lemma_bytes_len(r.security_id as int);
    lemma_bytes_len(r.file_attributes.bits as int);
    let a = v3_part_d(r);
    assert(a.subrange(0, 4) =~= bytes32(r.reason.bits as int));
    lemma_le32_bytes32(r.reason.bits as int, a, 0);
    assert(a.subrange(4, 8) =~= bytes32(r.source_info.bits as int));
    lemma_le32_bytes32(r.source_info.bits as int, a, 4);
    assert(a.subrange(8, 12) =~= bytes32(r.security_id as int));
    lemma_le32_bytes32(r.security_id as int, a, 8);
    assert(a.subrange(12, 16) =~= bytes32(r.file_attributes.bits as int));
    lemma_le32_bytes32(r.file_attributes.bits as int, a, 12);
}

#[verifier::spinoff_prover]
#[verifier::rlimit(40)]
proof fn lemma_v3_part_e(r: UsnRecordV3)
    ensures
        v3_part_e(r).len() == 8,
        le16(v3_part_e(r), 0) == r.file_name_length,
        le16(v3_part_e(r), 2) == r.file_name_offset,
{
    lemma_bytes_len(r.file_name_length as int);
    lemma_bytes_len(r.file_name_offset as int);
    let a = v3_part_e(r);
    assert(a.subrange(0, 2) =~= bytes16(r.file_name_length as int));
    lemma_le16_bytes16(r.file_name_length as int, a, 0);
    assert(a.subrange(2, 4) =~= bytes16(r.file_name_offset as int));
    lemma_le16_bytes16(r.file_name_offset as int, a, 2);
}

/// Decoding the V3 encoding of a record gives that record back: the encoding
/// passes every check, and each field read from it is the record's own.
#[verifier::spinoff_prover]
#[verifier::rlimit(80)]
pub proof fn lemma_v3_round_trip(r: UsnRecordV3, name: Seq<u8>)
    requires
        v3_encodable(r),
        name.len() == r.file_name_length,
        utf16le_decoded(name) == r.file_name@,
    ensures
        v3_header_ok(v3_encoding(r, name)),
        v3_fields(v3_encoding(r, name), r),
        v3_encoding(r, name).len() == r.record_length,
{
    let b = v3_encoding(r, name);
    lemma_v3_part_a(r);
    lemma_v3_part_b(r);
    lemma_v3_part_c(r);
    lemma_v3_part_d(r);
    lemma_v3_part_e(r);
    assert(b.len() == r.record_length);
    assert(b.subrange(0, 8) =~= v3_part_a(r));
    assert(b.subrange(8, 40) =~= v3_part_b(r));
    assert(b.subrange(40, 56) =~= v3_part_c(r));
    assert(b.subrange(56, 72) =~= v3_part_d(r));
    assert(b.subrange(72, 80) =~= v3_part_e(r));
    lemma_window32(b, v3_part_a(r), 0, 0);
    lemma_window16(b, v3_part_a(r), 0, 4);
    lemma_window16(b, v3_part_a(r), 0, 6);
    lemma_window128(b, v3_part_b(r), 8, 0);
    lemma_window128(b, v3_part_b(r), 8, 16);
    lemma_window64(b, v3_part_c(r), 40, 0);
    lemma_window64(b, v3_part_c(r), 40, 8);
    lemma_window32(b, v3_part_d(r), 56, 0);
    lemma_window32(b, v3_part_d(r), 56, 4);
    lemma_window32(b, v3_part_d(r), 56, 8);
    lemma_window32(b, v3_part_d(r), 56, 12);
    lemma_window16(b, v3_part_e(r), 72, 0);
    lemma_window16(b, v3_part_e(r), 72, 2);
    assert(b.subrange(80, 80 + name.len() as int) =~= name);
}

#[verifier::spinoff_prover]
#[verifier::rlimit(40)]
proof fn lemma_v3_header_len(r: UsnRecordV3)
    ensures
        v3_header(r).len() == 80,
{
    lemma_bytes_len(r.record_length as int);
    lemma_bytes_len(r.major_version as int);
    lemma_bytes_len(r.minor_version as int);
    lemma_bytes128_len(r.file_reference.0 as int);
    lemma_bytes128_len(r.parent_reference.0 as int);
    lemma_bytes_len(r.usn as int);
    lemma_bytes_len(r.timestamp.0 as int);
    lemma_bytes_len(r.reason.bits as int);
    lemma_bytes_len(r.source_info.bits as int);
    lemma_bytes_len(r.security_id as int);
    lemma_bytes_len(r.file_attributes.bits as int);
    lemma_bytes_len(r.file_name_length as int);
    lemma_bytes_len(r.file_name_offset as int);
}

impl UsnRecordV3 {
    fn is_encodable(&self) -> (r: bool)
        ensures
            r == v3_encodable(*self),
    {
        self.record_length != 0 && self.record_length <= MAX_RECORD_LENGTH && self.record_length % 8
            == 0 && self.major_version == 3 && self.minor_version == 0 && self.file_name_offset
            == V3_NAME_OFFSET && 80 + (self.file_name_length as u32) <= self.record_length
            && self.reason.bits & REASON_ALL == self.reason.bits && self.source_info.bits
            & SOURCE_INFO_ALL == self.source_info.bits && self.file_attributes.bits
            & FILE_ATTRIBUTES_ALL == self.file_attributes.bits
    }

    #[verifier::spinoff_prover]
    #[verifier::rlimit(40)]
    fn header_bytes(&self) -> (v: Vec<u8>)
        ensures
            v@ == v3_header(*self),
    {
        proof {
            lemma_v3_header_len(*self);
            lemma_bytes_len(self.record_length as int);
            lemma_bytes_len(self.major_version as int);
            lemma_bytes_len(self.minor_version as int);
            lemma_bytes128_len(self.file_reference.0 as int);
            lemma_bytes128_len(self.parent_reference.0 as int);
            lemma_bytes_len(self.usn as int);
            lemma_bytes_len(self.timestamp.0 as int);
            lemma_bytes_len(self.reason.bits as int);
            lemma_bytes_len(self.source_info.bits as int);
            lemma_bytes_len(self.security_id as int);
            lemma_bytes_len(self.file_attributes.bits as int);
            lemma_bytes_len(self.file_name_length as int);
            lemma_bytes_len(self.file_name_offset as int);
        }
        let mut v: Vec<u8> = Vec::new();
        push_u32(&mut v, self.record_length);
        push_u16(&mut v, self.major_version);
        push_u16(&mut v, self.minor_version);
        assert(v@ =~= v3_part_a(*self));
        push_u128(&mut v, self.file_reference.0);
        push_u128(&mut v, self.parent_reference.0);
        assert(v@ =~= v3_part_a(*self) + v3_part_b(*self));
        push_u64(&mut v, self.usn);
        push_u64(&mut v, self.timestamp.0);
        assert(v@ =~= v3_part_a(*self) + v3_part_b(*self) + v3_part_c(*self));
        push_u32(&mut v, self.reason.bits);
        push_u32(&mut v, self.source_info.bits);
        push_u32(&mut v, self.security_id);
        push_u32(&mut v, self.file_attributes.bits);
        assert(v@ =~= v3_part_a(*self) + v3_part_b(*self) + v3_part_c(*self) + v3_part_d(*self));
        push_u16(&mut v, self.file_name_length);
        push_u16(&mut v, self.file_name_offset);
        push_u32(&mut v, 0);
        proof {
            lemma_bytes_len(0);
            assert(bytes32(0).subrange(0, 4) =~= bytes32(0));
            lemma_le32_bytes32(0, bytes32(0), 0);
            lemma_zero_bytes(bytes32(0));
        }
        assert(v@ =~= v3_header(*self));
        v
    }

    /// The V3 layout of this record; `None` where a field could not be read
    /// back as it stands (see `v3_encodable`) or the name's UTF-16LE form is
    /// not `file_name_length` bytes long.
    #[verifier::spinoff_prover]
    #[verifier::rlimit(40)]
    pub fn to_bytes(&self) -> (r: Option<Vec<u8>>)
        ensures
            match r {
                Some(v) => v3_encodable(*self) && utf16le_encoded(self.file_name@).len()
                    == self.file_name_length && utf16le_decoded(utf16le_encoded(self.file_name@))
                    == self.file_name@ && v@ == v3_encoding(
                    *self,
                    utf16le_encoded(self.file_name@),
                ),
                None => !(v3_encodable(*self) && utf16le_encoded(self.file_name@).len()
                    == self.file_name_length),
            },
    {
        let name = encode_utf16le(self.file_name.as_str());
        if !(self.is_encodable() && name.len() == self.file_name_length as usize) {
            return None;
        }
        let mut v = self.header_bytes();
        proof {
            lemma_v3_header_len(*self);
        }
        append_padded(&mut v, &name, self.record_length as usize);
        Some(v)
    }
}

/// Four bytes whose little-endian value is 0 are all zero.
proof fn lemma_zero_bytes(s: Seq<u8>)
    requires
        s.len() == 4,
        le32(s, 0) == 0,
    ensures
        s =~= zeros(4),
{
}

/// Which layout a record has.
#[derive(Debug)]
pub enum UsnRecord {
    V2(UsnRecordV2),
    V3(UsnRecordV3),
}

/// The record `r` is what `b` holds at its start, by the layout of its version.
pub open spec fn record_fields(b: Seq<u8>, r: UsnRecord) -> bool {
    match r {
        UsnRecord::V2(v) => v2_header_ok(b) && v2_fields(b, v),
        UsnRecord::V3(v) => v3_header_ok(b) && v3_fields(b, v),
    }
}

impl UsnRecord {
    pub open spec fn spec_record_length(&self) -> u32 {
        match self {
            UsnRecord::V2(v) => v.record_length,
            UsnRecord::V3(v) => v.record_length,
        }
    }

    pub open spec fn spec_usn(&self) -> u64 {
        match self {
            UsnRecord::V2(v) => v.usn,
            UsnRecord::V3(v) => v.usn,
        }
    }

    pub open spec fn spec_reason(&self) -> Reason {
        match self {
            UsnRecord::V2(v) => v.reason,
            UsnRecord::V3(v) => v.reason,
        }
    }

    pub open spec fn spec_file_attributes(&self) -> FileAttributes {
        match self {
            UsnRecord::V2(v) => v.file_attributes,
            UsnRecord::V3(v) => v.file_attributes,
        }
    }

    pub open spec fn spec_file_name(&self) -> Seq<char> {
        match self {
            UsnRecord::V2(v) => v.file_name@,
            UsnRecord::V3(v) => v.file_name@,
        }
    }

    pub open spec fn spec_file_reference(&self) -> MftReference {
        match self {
            UsnRecord::V2(v) => v.file_reference,
            UsnRecord::V3(v) => narrowed(v.file_reference),
        }
    }

    pub open spec fn spec_parent_reference(&self) -> MftReference {
        match self {
            UsnRecord::V2(v) => v.parent_reference,
            UsnRecord::V3(v) => narrowed(v.parent_reference),
        }
    }

    /// Decodes a record of the given major version from the start of `b`.
    pub fn new(version: u16, b: &[u8]) -> (r: Result<UsnRecord, UsnError>)
        ensures
            version == 2 ==> match r {
                Ok(rec) => rec is V2 && record_fields(b@, rec),
                Err(e) => !v2_header_ok(b@) && e.kind == ErrorKind::InvalidUsnV2Record,
            },
            version == 3 ==> match r {
                Ok(rec) => rec is V3 && record_fields(b@, rec),
                Err(e) => !v3_header_ok(b@) && e.kind == ErrorKind::InvalidUsnV3Record,
            },
            version != 2 && version != 3 ==> r is Err && r->Err_0.kind
                == ErrorKind::UnsupportedVersion,
    {
        if version == 2 {
            match UsnRecordV2::new(b) {
                Ok(v) => Ok(UsnRecord::V2(v)),
                Err(e) => Err(e),
            }
        } else if version == 3 {
            match UsnRecordV3::new(b) {
                Ok(v) => Ok(UsnRecord::V3(v)),
                Err(e) => Err(e),
            }
        } else {
            Err(UsnError::unsupported_usn_version(String::from_str("Unsupported USN version")))
        }
    }

    pub fn get_record_length(&self) -> (r: u32)
        ensures
            r == self.spec_record_length(),
    {
        match self {
            UsnRecord::V2(v) => v.record_length,
            UsnRecord::V3(v) => v.record_length,
        }
    }

    pub fn get_usn(&self) -> (r: u64)
        ensures
            r == self.spec_usn(),
    {
        match self {
            UsnRecord::V2(v) => v.usn,
            UsnRecord::V3(v) => v.usn,
        }
    }

    pub fn get_file_name(&self) -> (r: String)
        ensures
            r@ == self.spec_file_name(),
    {
        match self {
            UsnRecord::V2(v) => v.file_name.clone(),
            UsnRecord::V3(v) => v.file_name.clone(),
        }
    }

    pub fn get_file_attributes(&self) -> (r: FileAttributes)
        ensures
            r == self.spec_file_attributes(),
    {
        match self {
            UsnRecord::V2(v) => v.file_attributes,
            UsnRecord::V3(v) => v.file_attributes,
        }
    }

    pub fn get_reason_code(&self) -> (r: Reason)
        ensures
            r == self.spec_reason(),
    {
        match self {
            UsnRecord::V2(v) => v.reason,
            UsnRecord::V3(v) => v.reason,
        }
    }

    pub fn get_file_reference(&self) -> (r: MftReference)
        ensures
            r == self.spec_file_reference(),
    {
        match self {
            UsnRecord::V2(v) => v.file_reference,
            UsnRecord::V3(v) => v.file_reference.as_mft_reference(),
        }
    }

    pub fn get_parent_reference(&self) -> (r: MftReference)
        ensures
            r == self.spec_parent_reference(),
    {
        match self {
            UsnRecord::V2(v) => v.parent_reference,
            UsnRecord::V3(v) => v.parent_reference.as_mft_reference(),
        }
    }
}

/// The classic reference in the low 64 bits of a 128-bit one.
pub open spec fn narrowed(r: Ntfs128Reference) -> MftReference {
    MftReference {
        entry: ((r.0 as int) % 0x1_0000_0000_0000_0000 % 0x1_0000_0000_0000) as u64,
        sequence: ((r.0 as int) % 0x1_0000_0000_0000_0000 / 0x1_0000_0000_0000) as u16,
    }
}

/// Where a record was found: the input it came from and its absolute offset there.
#[derive(Debug, Clone)]
pub struct EntryMeta {
    pub source: String,
    pub offset: u64,
}

impl EntryMeta {
    pub fn new(source: &str, offset: u64) -> (r: EntryMeta)
        ensures
            r.source@ == source@,
            r.offset == offset,
    {
        EntryMeta { source: String::from_str(source), offset }
    }
}

/// A decoded record and where it was found.
#[derive(Debug)]
pub struct UsnEntry {
    pub meta: EntryMeta,
    pub record: UsnRecord,
}

impl UsnEntry {
    /// Decodes a record of the given version from the start of `b`.
    pub fn new(meta: EntryMeta, version: u16, b: &[u8]) -> (r: Result<UsnEntry, UsnError>)
        ensures
            match r {
                Ok(e) => e.meta.source@ == meta.source@ && e.meta.offset == meta.offset
                    && record_fields(b@, e.record) && (version == 2 ==> e.record is V2) && (
                    version == 3 ==> e.record is V3),
                Err(_) => (version == 2 ==> !v2_header_ok(b@)) && (version == 3
                    ==> !v3_header_ok(b@)),
            },
            (version == 2 && v2_header_ok(b@)) || (version == 3 && v3_header_ok(b@)) ==> r is Ok,
    {
        let record = UsnRecord::new(version, b);
        match record {
            Ok(record) => Ok(UsnEntry { meta, record }),
            Err(e) => Err(e),
        }
    }
}

} // verus!
