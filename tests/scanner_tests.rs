use rusty_usn::record::UsnEntry;
use rusty_usn::usn::{
    next_chunk_offset, parse_journal_bytes, records_at_candidates, scan_records, DataChunk, SIZE_CHUNK, SIZE_SEARCH,
};

fn v2_record(usn: u64, name: &str) -> Vec<u8> {
    let units: Vec<u8> = name.encode_utf16().flat_map(|u| u.to_le_bytes()).collect();
    let len = ((60 + units.len() + 7) / 8 * 8) as u32;
    let mut b = vec![0u8; 60];
    b[0..4].copy_from_slice(&len.to_le_bytes());
    b[4..6].copy_from_slice(&2u16.to_le_bytes());
    b[8..16].copy_from_slice(&0x0001_0000_0000_0040u64.to_le_bytes());
    b[16..24].copy_from_slice(&0x0005_0000_0000_0005u64.to_le_bytes());
    b[24..32].copy_from_slice(&usn.to_le_bytes());
    b[52..56].copy_from_slice(&0x20u32.to_le_bytes());
    b[56..58].copy_from_slice(&(units.len() as u16).to_le_bytes());
    b[58..60].copy_from_slice(&60u16.to_le_bytes());
    b.extend_from_slice(&units);
    b.resize(len as usize, 0);
    b
}

fn place(data: &mut [u8], at: usize, rec: &[u8]) {
    data[at..at + rec.len()].copy_from_slice(rec);
}

fn offsets(entries: &[UsnEntry]) -> Vec<u64> {
    entries.iter().map(|e| e.meta.offset).collect()
}

fn chunks_of(data: &[u8]) -> Vec<DataChunk> {
    let mut out = Vec::new();
    let mut off = 0usize;
    while off < data.len() {
        let end = usize::min(off + SIZE_CHUNK, data.len());
        out.push(DataChunk::new("synthetic", off as u64, data[off..end].to_vec()));
        off += SIZE_SEARCH;
    }
    out
}

fn parse_in_batches(data: &[u8], threads: usize) -> Vec<u64> {
    let chunks = chunks_of(data);
    let mut out = Vec::new();
    let mut it = chunks.into_iter().peekable();
    while it.peek().is_some() {
        let batch: Vec<DataChunk> = it.by_ref().take(threads).collect();
        let results: Vec<Vec<UsnEntry>> = batch.into_iter().map(|c| c.get_records()).collect();
        for r in results {
            out.extend(offsets(&r));
        }
    }
    out
}

#[test]
fn chunk_overlap_records_found_once() {
    let mut data = vec![0u8; 40 * 1024];
    place(&mut data, 16380, &v2_record(1, "first.txt"));
    place(&mut data, 32760, &v2_record(2, "second.txt"));
    let entries = parse_journal_bytes("synthetic", &data);
    assert_eq!(offsets(&entries), vec![16380, 32760]);
    assert_eq!(entries[0].record.get_file_name(), "first.txt");
    assert_eq!(entries[1].record.get_file_name(), "second.txt");
    for threads in [1usize, 2, 4, 8] {
        assert_eq!(parse_in_batches(&data, threads), vec![16380, 32760]);
    }
}

#[test]
fn emitted_records_are_valid_and_sorted() {
    let mut data = vec![0u8; 60 * 1024];
    let mut at = 8usize;
    let mut expected = Vec::new();
    let mut usn = 0u64;
    while at + 200 < data.len() {
        let rec = v2_record(usn, "file.dat");
        place(&mut data, at, &rec);
        expected.push(at as u64);
        at += rec.len() + 1000;
        usn += 1;
    }
    let entries = parse_journal_bytes("synthetic", &data);
    assert_eq!(offsets(&entries), expected);
    for e in &entries {
        let len = e.record.get_record_length();
        assert!(len > 0 && len <= 1024 && len % 8 == 0);
        let o = e.meta.offset as usize;
        let encoded = match &e.record {
            rusty_usn::record::UsnRecord::V2(r) => r.to_bytes().unwrap(),
            rusty_usn::record::UsnRecord::V3(_) => panic!("expected V2"),
        };
        assert_eq!(&data[o..o + len as usize], &encoded[..]);
    }
    for threads in [1usize, 2, 4, 8] {
        assert_eq!(parse_in_batches(&data, threads), expected);
    }
}

#[test]
fn candidate_past_buffer_end_is_rejected() {
    let mut data = vec![0u8; 1000];
    let rec = v2_record(9, "cut.txt");
    let at = data.len() - 40;
    data[at..].copy_from_slice(&rec[..40]);
    let chunk = DataChunk::new("tail", 0, data);
    assert_eq!(chunk.search_size, 1000);
    assert!(chunk.get_records().is_empty());
}

#[test]
fn misaligned_length_and_bad_minor_are_skipped() {
    let mut data = vec![0u8; 4096];
    let mut bad_len = v2_record(1, "a");
    bad_len[0] = 0x44;
    place(&mut data, 0, &bad_len);
    let mut bad_minor = v2_record(2, "b");
    bad_minor[6] = 1;
    place(&mut data, 512, &bad_minor);
    place(&mut data, 1024, &v2_record(3, "c"));
    let entries = parse_journal_bytes("x", &data);
    assert_eq!(offsets(&entries), vec![1024]);
}

#[test]
fn empty_input_has_no_records() {
    assert!(parse_journal_bytes("empty", &Vec::new()).is_empty());
}

#[test]
fn read_buffer_records_are_scanned() {
    let mut buf = Vec::new();
    buf.extend(v2_record(100, "one"));
    buf.extend(v2_record(200, "two"));
    let second = v2_record(100, "one").len() as u64;
    buf.extend(vec![0u8; 16]);
    let entries = scan_records("live", 0, &buf);
    assert_eq!(offsets(&entries), vec![0, second]);
    assert_eq!(entries[1].record.get_usn(), 200);
    assert_eq!(entries[0].meta.source, "live");
}

#[test]
fn given_candidates_are_validated_in_order() {
    let mut data = vec![0u8; 2048];
    place(&mut data, 64, &v2_record(1, "a"));
    place(&mut data, 512, &v2_record(2, "b"));
    place(&mut data, 1536, &v2_record(3, "c"));
    let source = "given".to_string();
    let cands = vec![0usize, 64, 100, 512, 1536];
    let all = records_at_candidates(&source, 4096, &data, 2048, &cands);
    assert_eq!(offsets(&all), vec![4096 + 64, 4096 + 512, 4096 + 1536]);
    let windowed = records_at_candidates(&source, 0, &data, 1000, &cands);
    assert_eq!(offsets(&windowed), vec![64, 512]);
    let none = records_at_candidates(&source, 0, &data, 2048, &vec![0usize, 100]);
    assert!(none.is_empty());
}

#[test]
fn chunk_offsets_step_by_search_window() {
    assert_eq!(next_chunk_offset(0, 40960), Some(16384));
    assert_eq!(next_chunk_offset(16384, 40960), Some(32768));
    assert_eq!(next_chunk_offset(32768, 40960), None);
    assert_eq!(next_chunk_offset(0, 16384), None);
}
