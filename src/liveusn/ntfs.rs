//! Structures exchanged with the volume ioctls: NTFS_VOLUME_DATA_BUFFER,
//! USN_JOURNAL_DATA (V0, V1, V2) and READ_USN_JOURNAL_DATA (V0, V1).

use crate::le::{le16, le32, le64, read_i64, read_u16, read_u32, read_u64, signed64};
use crate::liveusn::error::{journal_size_message, ErrorKind, UsnLiveError};
use vstd::prelude::*;
use vstd::slice::slice_subrange;

verus! {

/// NTFS_VOLUME_DATA_BUFFER: 96 bytes, and an extended tail where 128 were returned.
#[derive(Debug)]
pub struct NtfsVolumeData {
    pub volume_serial_number: i64,
    pub number_sectors: i64,
    pub total_clusters: i64,
    pub free_clusters: i64,
    pub total_reserved: i64,
    pub bytes_per_sector: u32,
    pub bytes_per_cluster: u32,
    pub bytes_per_file_record_segment: u32,
    pub clusters_per_file_record_segment: u32,
    pub mft_valid_data_length: i64,
    pub mft_start_lcn: i64,
    pub mft_2_start_lcn: i64,
    pub mft_zone_start: i64,
    pub mft_zone_end: i64,
    pub ntfs_extended_volume_data: Option<NtfsExtendedVolumeData>,
}

/// NTFS_EXTENDED_VOLUME_DATA: 32 bytes.
#[derive(Debug)]
pub struct NtfsExtendedVolumeData {
    pub byte_count: u32,
    pub major_version: u16,
    pub minor_version: u16,
    pub bytes_per_physical_sector: u32,
    pub lfs_major_version: u16,
    pub lfs_minor_version: u16,
    pub max_device_trim_extent_count: u32,
    pub max_device_trim_byte_count: u32,
    pub max_volume_trim_extent_count: u32,
    pub max_volume_trim_byte_count: u32,
}

/// Every field of `d` is what the extended layout puts in `b`.
pub open spec fn extended_fields(b: Seq<u8>, d: NtfsExtendedVolumeData) -> bool {
    &&& d.byte_count == le32(b, 0)
    &&& d.major_version == le16(b, 4)
    &&& d.minor_version == le16(b, 6)
    &&& d.bytes_per_physical_sector == le32(b, 8)
    &&& d.lfs_major_version == le16(b, 12)
    &&& d.lfs_minor_version == le16(b, 14)
    &&& d.max_device_trim_extent_count == le32(b, 16)
    &&& d.max_device_trim_byte_count == le32(b, 20)
    &&& d.max_volume_trim_extent_count == le32(b, 24)
    &&& d.max_volume_trim_byte_count == le32(b, 28)
}

/// Every field of `d` is what the volume-data layout puts in `b`.
pub open spec fn volume_fields(b: Seq<u8>, d: NtfsVolumeData) -> bool {
    &&& d.volume_serial_number == signed64(le64(b, 0))
    &&& d.number_sectors == signed64(le64(b, 8))
    &&& d.total_clusters == signed64(le64(b, 16))
    &&& d.free_clusters == signed64(le64(b, 24))
    &&& d.total_reserved == signed64(le64(b, 32))
    &&& d.bytes_per_sector == le32(b, 40)
    &&& d.bytes_per_cluster == le32(b, 44)
    &&& d.bytes_per_file_record_segment == le32(b, 48)
    &&& d.clusters_per_file_record_segment == le32(b, 52)
    &&& d.mft_valid_data_length == signed64(le64(b, 56))
    &&& d.mft_start_lcn == signed64(le64(b, 64))
    &&& d.mft_2_start_lcn == signed64(le64(b, 72))
    &&& d.mft_zone_start == signed64(le64(b, 80))
    &&& d.mft_zone_end == signed64(le64(b, 88))
    &&& (b.len() >= 128 <==> d.ntfs_extended_volume_data is Some)
    &&& (b.len() >= 128 ==> extended_fields(
        b.subrange(96, b.len() as int),
        d.ntfs_extended_volume_data->Some_0,
    ))
}

impl NtfsExtendedVolumeData {
    pub fn from_buffer(buffer: &[u8]) -> (r: Self)
        requires
            buffer@.len() >= 32,
        ensures
            extended_fields(buffer@, r),
    {
        NtfsExtendedVolumeData {
            byte_count: read_u32(buffer, 0),
            major_version: read_u16(buffer, 4),
            minor_version: read_u16(buffer, 6),
            bytes_per_physical_sector: read_u32(buffer, 8),
            lfs_major_version: read_u16(buffer, 12),
            lfs_minor_version: read_u16(buffer, 14),
            max_device_trim_extent_count: read_u32(buffer, 16),
            max_device_trim_byte_count: read_u32(buffer, 20),
            max_volume_trim_extent_count: read_u32(buffer, 24),
            max_volume_trim_byte_count: read_u32(buffer, 28),
        }
    }
}

impl NtfsVolumeData {
    pub fn from_buffer(buffer: &[u8]) -> (r: Self)
        requires
            buffer@.len() >= 96,
        ensures
            volume_fields(buffer@, r),
    {
        let ntfs_extended_volume_data = if buffer.len() >= 128 {
            Some(NtfsExtendedVolumeData::from_buffer(slice_subrange(buffer, 96, buffer.len())))
        } else {
            None
        };
        NtfsVolumeData {
            volume_serial_number: read_i64(buffer, 0),
            number_sectors: read_i64(buffer, 8),
            total_clusters: read_i64(buffer, 16),
            free_clusters: read_i64(buffer, 24),
            total_reserved: read_i64(buffer, 32),
            bytes_per_sector: read_u32(buffer, 40),
            bytes_per_cluster: read_u32(buffer, 44),
            bytes_per_file_record_segment: read_u32(buffer, 48),
            clusters_per_file_record_segment: read_u32(buffer, 52),
            mft_valid_data_length: read_i64(buffer, 56),
            mft_start_lcn: read_i64(buffer, 64),
            mft_2_start_lcn: read_i64(buffer, 72),
            mft_zone_start: read_i64(buffer, 80),
            mft_zone_end: read_i64(buffer, 88),
            ntfs_extended_volume_data,
        }
    }

    /// The number of MFT entries the valid data holds: the highest plausible
    /// entry index plus one; 0 where the sizes make no sense.
    pub fn get_max_entry(&self) -> (r: u64)
        ensures
            self.bytes_per_file_record_segment == 0 || self.mft_valid_data_length < 0 ==> r == 0,
            self.bytes_per_file_record_segment != 0 && self.mft_valid_data_length >= 0 ==> r
                == (self.mft_valid_data_length as int) / (self.bytes_per_file_record_segment as int),
    {
        if self.bytes_per_file_record_segment == 0 || self.mft_valid_data_length < 0 {
            0
        } else {
            (self.mft_valid_data_length as u64) / (self.bytes_per_file_record_segment as u64)
        }
    }
}

/// USN_JOURNAL_DATA_V0: 56 bytes.
#[derive(Debug, Clone)]
pub struct UsnJournalDataV0 {
    pub usn_journal_id: u64,
    pub first_usn: u64,
    pub next_usn: u64,
    pub lowest_valid_usn: u64,
    pub max_usn: u64,
    pub maximum_size: u64,
    pub allocation_delta: u64,
}

/// USN_JOURNAL_DATA_V1: 60 bytes.
#[derive(Debug, Clone)]
pub struct UsnJournalDataV1 {
    pub usn_journal_id: u64,
    pub first_usn: u64,
    pub next_usn: u64,
    pub lowest_valid_usn: u64,
    pub max_usn: u64,
    pub maximum_size: u64,
    pub allocation_delta: u64,
    pub min_major_version: u16,
    pub max_major_version: u16,
}

/// USN_JOURNAL_DATA_V2: 80 bytes.
#[derive(Debug, Clone)]
pub struct UsnJournalDataV2 {
    pub usn_journal_id: u64,
    pub first_usn: u64,
    pub next_usn: u64,
    pub lowest_valid_usn: u64,
    pub max_usn: u64,
    pub maximum_size: u64,
    pub allocation_delta: u64,
    pub min_major_version: u16,
    pub max_major_version: u16,
    pub flags: u32,
    pub range_track_chunk_size: u64,
    pub range_track_file_size_threshold: i64,
}

/// The journal data, in whichever of its three shapes the volume returned.
#[derive(Debug, Clone)]
pub enum UsnJournalData {
    V0(UsnJournalDataV0),
    V1(UsnJournalDataV1),
    V2(UsnJournalDataV2),
}

/// The fields the three shapes share, as `b` holds them.
pub open spec fn journal_common(
    b: Seq<u8>,
    id: u64,
    first: u64,
    next: u64,
    lowest: u64,
    max: u64,
    size: u64,
    delta: u64,
) -> bool {
    &&& id == le64(b, 0)
    &&& first == le64(b, 8)
    &&& next == le64(b, 16)
    &&& lowest == le64(b, 24)
    &&& max == le64(b, 32)
    &&& size == le64(b, 40)
    &&& delta == le64(b, 48)
}

/// `j` is what `b` holds, in the shape its length selects.
pub open spec fn journal_fields(b: Seq<u8>, j: UsnJournalData) -> bool {
    match j {
        UsnJournalData::V0(d) => b.len() == 56 && journal_common(
            b,
            d.usn_journal_id,
            d.first_usn,
            d.next_usn,
            d.lowest_valid_usn,
            d.max_usn,
            d.maximum_size,
            d.allocation_delta,
        ),
        UsnJournalData::V1(d) => b.len() == 60 && journal_common(
            b,
            d.usn_journal_id,
            d.first_usn,
            d.next_usn,
            d.lowest_valid_usn,
            d.max_usn,
            d.maximum_size,
            d.allocation_delta,
        ) && d.min_major_version == le16(b, 56) && d.max_major_version == le16(b, 58),
        UsnJournalData::V2(d) => b.len() == 80 && journal_common(
            b,
            d.usn_journal_id,
            d.first_usn,
            d.next_usn,
            d.lowest_valid_usn,
            d.max_usn,
            d.maximum_size,
            d.allocation_delta,
        ) && d.min_major_version == le16(b, 56) && d.max_major_version == le16(b, 58) && d.flags
            == le32(b, 60) && d.range_track_chunk_size == le64(b, 64)
            && d.range_track_file_size_threshold == signed64(le64(b, 72)),
    }
}

impl UsnJournalData {
    pub open spec fn spec_next_usn(&self) -> u64 {
        match self {
            UsnJournalData::V0(d) => d.next_usn,
            UsnJournalData::V1(d) => d.next_usn,
            UsnJournalData::V2(d) => d.next_usn,
        }
    }

    /// Decodes the journal data; its length (56, 60 or 80) selects the shape.
    pub fn new(buffer: &[u8]) -> (r: Result<UsnJournalData, UsnLiveError>)
        ensures
            match r {
                Ok(j) => journal_fields(buffer@, j),
                Err(e) => buffer@.len() != 56 && buffer@.len() != 60 && buffer@.len() != 80
                    && e.kind == ErrorKind::InvalidUsnJournalData && e.message@
                    == journal_size_message(buffer@.len()),
            },
            buffer@.len() == 56 || buffer@.len() == 60 || buffer@.len() == 80 ==> r is Ok,
    {
        let n = buffer.len();
        if n == 56 {
            Ok(
                UsnJournalData::V0(
                    UsnJournalDataV0 {
                        usn_journal_id: read_u64(buffer, 0),
                        first_usn: read_u64(buffer, 8),
                        next_usn: read_u64(buffer, 16),
                        lowest_valid_usn: read_u64(buffer, 24),
                        max_usn: read_u64(buffer, 32),
                        maximum_size: read_u64(buffer, 40),
                        allocation_delta: read_u64(buffer, 48),
                    },
                ),
            )
        } else if n == 60 {
            Ok(
                UsnJournalData::V1(
                    UsnJournalDataV1 {
                        usn_journal_id: read_u64(buffer, 0),
                        first_usn: read_u64(buffer, 8),
                        next_usn: read_u64(buffer, 16),
                        lowest_valid_usn: read_u64(buffer, 24),
                        max_usn: read_u64(buffer, 32),
                        maximum_size: read_u64(buffer, 40),
                        allocation_delta: read_u64(buffer, 48),
                        min_major_version: read_u16(buffer, 56),
                        max_major_version: read_u16(buffer, 58),
                    },
                ),
            )
        } else if n == 80 {
            Ok(
                UsnJournalData::V2(
                    UsnJournalDataV2 {
                        usn_journal_id: read_u64(buffer, 0),
                        first_usn: read_u64(buffer, 8),
                        next_usn: read_u64(buffer, 16),
                        lowest_valid_usn: read_u64(buffer, 24),
                        max_usn: read_u64(buffer, 32),
                        maximum_size: read_u64(buffer, 40),
                        allocation_delta: read_u64(buffer, 48),
                        min_major_version: read_u16(buffer, 56),
                        max_major_version: read_u16(buffer, 58),
                        flags: read_u32(buffer, 60),
                        range_track_chunk_size: read_u64(buffer, 64),
                        range_track_file_size_threshold: read_i64(buffer, 72),
                    },
                ),
            )
        } else {
            Err(UsnLiveError::invalid_usn_journal_data(n))
        }
    }

    /// Where the next read of the journal resumes.
    pub fn get_next_usn(&self) -> (r: u64)
        ensures
            r == self.spec_next_usn(),
    {
        match self {
            UsnJournalData::V0(d) => d.next_usn,
            UsnJournalData::V1(d) => d.next_usn,
            UsnJournalData::V2(d) => d.next_usn,
        }
    }
}

/// The reasons a read asks for: all of them.
pub const ALL_REASONS: u32 = 0xffff_ffff;

/// READ_USN_JOURNAL_DATA_V0.
#[derive(Debug, Clone)]
pub struct ReadUsnJournalDataV0 {
    pub start_usn: u64,
    pub reason_mask: u32,
    pub return_only_on_close: u32,
    pub timeout: u64,
    pub bytes_to_wait_for: u64,
    pub usn_journal_id: u64,
}

/// READ_USN_JOURNAL_DATA_V1.
#[derive(Debug, Clone)]
pub struct ReadUsnJournalDataV1 {
    pub start_usn: u64,
    pub reason_mask: u32,
    pub return_only_on_close: u32,
    pub timeout: u64,
    pub bytes_to_wait_for: u64,
    pub usn_journal_id: u64,
    pub min_major_version: u16,
    pub max_major_version: u16,
}

impl ReadUsnJournalDataV0 {
    /// A read of every reason from `start_usn`, returning at once.
    pub fn new(start_usn: u64, usn_journal_id: u64) -> (r: ReadUsnJournalDataV0)
        ensures
            r.start_usn == start_usn,
            r.usn_journal_id == usn_journal_id,
            r.reason_mask == ALL_REASONS,
            r.return_only_on_close == 0,
            r.timeout == 0,
            r.bytes_to_wait_for == 0,
    {
        ReadUsnJournalDataV0 {
            start_usn,
            reason_mask: ALL_REASONS,
            return_only_on_close: 0,
            timeout: 0,
            bytes_to_wait_for: 0,
            usn_journal_id,
        }
    }
}

impl ReadUsnJournalDataV1 {
    /// A read of every reason from `start_usn`, returning at once, for
    /// records of the given major versions.
    pub fn new(
        start_usn: u64,
        usn_journal_id: u64,
        min_major_version: u16,
        max_major_version: u16,
    ) -> (r: ReadUsnJournalDataV1)
        ensures
            r.start_usn == start_usn,
            r.usn_journal_id == usn_journal_id,
            r.reason_mask == ALL_REASONS,
            r.return_only_on_close == 0,
            r.timeout == 0,
            r.bytes_to_wait_for == 0,
            r.min_major_version == min_major_version,
            r.max_major_version == max_major_version,
    {
        ReadUsnJournalDataV1 {
            start_usn,
            reason_mask: ALL_REASONS,
            return_only_on_close: 0,
            timeout: 0,
            bytes_to_wait_for: 0,
            usn_journal_id,
            min_major_version,
            max_major_version,
        }
    }
}

/// A read request, in the shape that matches the journal data.
#[derive(Debug, Clone)]
pub enum ReadUsnJournalData {
    V0(ReadUsnJournalDataV0),
    V1(ReadUsnJournalDataV1),
}

impl ReadUsnJournalData {
    pub open spec fn spec_start_usn(&self) -> u64 {
        match self {
            ReadUsnJournalData::V0(d) => d.start_usn,
            ReadUsnJournalData::V1(d) => d.start_usn,
        }
    }

    pub open spec fn spec_reason_mask(&self) -> u32 {
        match self {
            ReadUsnJournalData::V0(d) => d.reason_mask,
            ReadUsnJournalData::V1(d) => d.reason_mask,
        }
    }

    /// The read that starts where the journal data starts: V0 data gives a V0
    /// request, V1 and V2 data a V1 request with their version range.
    pub fn from_usn_journal_data(journal_data: UsnJournalData) -> (r: ReadUsnJournalData)
        ensures
            match journal_data {
                UsnJournalData::V0(d) => r == ReadUsnJournalData::V0(
                    ReadUsnJournalDataV0 {
                        start_usn: d.first_usn,
                        reason_mask: ALL_REASONS,
                        return_only_on_close: 0,
                        timeout: 0,
                        bytes_to_wait_for: 0,
                        usn_journal_id: d.usn_journal_id,
                    },
                ),
                UsnJournalData::V1(d) => r == ReadUsnJournalData::V1(
                    ReadUsnJournalDataV1 {
                        start_usn: d.first_usn,
                        reason_mask: ALL_REASONS,
                        return_only_on_close: 0,
                        timeout: 0,
                        bytes_to_wait_for: 0,
                        usn_journal_id: d.usn_journal_id,
                        min_major_version: d.min_major_version,
                        max_major_version: d.max_major_version,
                    },
                ),
                UsnJournalData::V2(d) => r == ReadUsnJournalData::V1(
                    ReadUsnJournalDataV1 {
                        start_usn: d.first_usn,
                        reason_mask: ALL_REASONS,
                        return_only_on_close: 0,
                        timeout: 0,
                        bytes_to_wait_for: 0,
                        usn_journal_id: d.usn_journal_id,
                        min_major_version: d.min_major_version,
                        max_major_version: d.max_major_version,
                    },
                ),
            },
    {
        match journal_data {
            UsnJournalData::V0(d) => ReadUsnJournalData::V0(
                ReadUsnJournalDataV0::new(d.first_usn, d.usn_journal_id),
            ),
            UsnJournalData::V1(d) => ReadUsnJournalData::V1(
                ReadUsnJournalDataV1::new(
                    d.first_usn,
                    d.usn_journal_id,
                    d.min_major_version,
                    d.max_major_version,
                ),
            ),
            UsnJournalData::V2(d) => ReadUsnJournalData::V1(
                ReadUsnJournalDataV1::new(
                    d.first_usn,
                    d.usn_journal_id,
                    d.min_major_version,
                    d.max_major_version,
                ),
            ),
        }
    }

    /// The same request with another reason mask.
    pub fn with_reason_mask(self, reason_mask: u32) -> (r: Self)
        ensures
            r.spec_reason_mask() == reason_mask,
            match (self, r) {
                (ReadUsnJournalData::V0(a), ReadUsnJournalData::V0(b)) => b == (
                ReadUsnJournalDataV0 { reason_mask, ..a }),
                (ReadUsnJournalData::V1(a), ReadUsnJournalData::V1(b)) => b == (
                ReadUsnJournalDataV1 { reason_mask, ..a }),
                _ => false,
            },
    {
        match self {
            ReadUsnJournalData::V0(d) => ReadUsnJournalData::V0(
                ReadUsnJournalDataV0 { reason_mask, ..d },
            ),
            ReadUsnJournalData::V1(d) => ReadUsnJournalData::V1(
                ReadUsnJournalDataV1 { reason_mask, ..d },
            ),
        }
    }

    /// The same request starting at another usn.
    pub fn with_start_usn(self, start_usn: u64) -> (r: Self)
        ensures
            r.spec_start_usn() == start_usn,
            match (self, r) {
                (ReadUsnJournalData::V0(a), ReadUsnJournalData::V0(b)) => b == (
                ReadUsnJournalDataV0 { start_usn, ..a }),
                (ReadUsnJournalData::V1(a), ReadUsnJournalData::V1(b)) => b == (
                ReadUsnJournalDataV1 { start_usn, ..a }),
                _ => false,
            },
    {
        match self {
            ReadUsnJournalData::V0(d) => ReadUsnJournalData::V0(
                ReadUsnJournalDataV0 { start_usn, ..d },
            ),
            ReadUsnJournalData::V1(d) => ReadUsnJournalData::V1(
                ReadUsnJournalDataV1 { start_usn, ..d },
            ),
        }
    }
}

} // verus!
