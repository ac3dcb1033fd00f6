//! The output of the file-record query: a reference, a length and the record bytes.

use crate::le::{le32, le64, read_u32, read_u64};
use crate::liveusn::error::{ErrorKind, UsnLiveError};
use vstd::prelude::*;

verus! {

/// NTFS_FILE_RECORD_OUTPUT_BUFFER.
#[derive(Debug)]
pub struct MftOutputBuffer {
    pub file_reference_number: u64,
    pub file_record_length: u32,
    pub file_record_buffer: Vec<u8>,
}

impl MftOutputBuffer {
    /// Decodes the query output; it fails where the buffer is shorter than
    /// the record length it declares.
    pub fn from_buffer(raw_buffer: &[u8]) -> (r: Result<Self, UsnLiveError>)
        ensures
            match r {
                Ok(m) => raw_buffer@.len() >= 12 && 12 + le32(raw_buffer@, 8) <= raw_buffer@.len()
                    && m.file_reference_number == le64(raw_buffer@, 0) && m.file_record_length
                    == le32(raw_buffer@, 8) && m.file_record_buffer@ == raw_buffer@.subrange(
                    12,
                    12 + le32(raw_buffer@, 8),
                ),
                Err(e) => e.kind == ErrorKind::IoError && (raw_buffer@.len() < 12 || 12 + le32(
                    raw_buffer@,
                    8,
                ) > raw_buffer@.len()),
            },
    {
        if raw_buffer.len() < 12 {
            return Err(UsnLiveError::io_error("failed to fill whole buffer"));
        }
        let file_reference_number = read_u64(raw_buffer, 0);
        let file_record_length = read_u32(raw_buffer, 8);
        if file_record_length as usize > raw_buffer.len() - 12 {
            return Err(UsnLiveError::io_error("failed to fill whole buffer"));
        }
        let end: usize = 12 + file_record_length as usize;
        let mut file_record_buffer: Vec<u8> = Vec::new();
        let mut i: usize = 12;
        while i < end
            invariant
                12 <= i <= end,
                end <= raw_buffer@.len(),
                file_record_buffer@ == raw_buffer@.subrange(12, i as int),
            decreases end - i,
        {
            file_record_buffer.push(raw_buffer[i]);
            i = i + 1;
            assert(file_record_buffer@ =~= raw_buffer@.subrange(12, i as int));
        }
        Ok(MftOutputBuffer { file_reference_number, file_record_length, file_record_buffer })
    }
}

} // verus!
