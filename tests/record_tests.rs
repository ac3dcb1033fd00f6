use rusty_usn::error::ErrorKind;
use rusty_usn::record::{EntryMeta, UsnEntry, UsnRecord, UsnRecordV2, UsnRecordV3};

fn v2_record_bytes() -> Vec<u8> {
    vec![
        0x60, 0x00, 0x00, 0x00, 0x02, 0x00, 0x00, 0x00, 0x73, 0x00, 0x00, 0x00, 0x00, 0x00, 0x68,
        0x91, 0x3B, 0x2A, 0x02, 0x00, 0x00, 0x00, 0x07, 0x00, 0x00, 0x00, 0x80, 0xBC, 0x04, 0x00,
        0x00, 0x00, 0x53, 0xC7, 0x8B, 0x18, 0xC5, 0xCC, 0xCE, 0x01, 0x02, 0x00, 0x00, 0x00, 0x00,
        0x00, 0x00, 0x00, 0x00, 0x00, 0x00, 0x00, 0x20, 0x20, 0x00, 0x00, 0x20, 0x00, 0x3C, 0x00,
        0x42, 0x00, 0x54, 0x00, 0x44, 0x00, 0x65, 0x00, 0x76, 0x00, 0x4D, 0x00, 0x61, 0x00, 0x6E,
        0x00, 0x61, 0x00, 0x67, 0x00, 0x65, 0x00, 0x72, 0x00, 0x2E, 0x00, 0x6C, 0x00, 0x6F, 0x00,
        0x67, 0x00, 0x00, 0x00, 0x00, 0x00,
    ]
}

fn v3_record_bytes(name: &[u8]) -> Vec<u8> {
    let mut b = vec![0u8; 80];
    let len = ((80 + name.len() + 7) / 8 * 8) as u32;
    b[0..4].copy_from_slice(&len.to_le_bytes());
    b[4..6].copy_from_slice(&3u16.to_le_bytes());
    b[8..24].copy_from_slice(&562949953423304u128.to_le_bytes());
    b[24..40].copy_from_slice(&(5u128 | (5u128 << 48)).to_le_bytes());
    b[40..48].copy_from_slice(&4096u64.to_le_bytes());
    b[48..56].copy_from_slice(&0x01CECCC5188BC753u64.to_le_bytes());
    b[56..60].copy_from_slice(&0x8000_0100u32.to_le_bytes());
    b[68..72].copy_from_slice(&0x10u32.to_le_bytes());
    b[72..74].copy_from_slice(&(name.len() as u16).to_le_bytes());
    b[74..76].copy_from_slice(&80u16.to_le_bytes());
    b.extend_from_slice(name);
    b.resize(len as usize, 0);
    b
}

#[test]
fn v2_record_decodes_reference_bytes() {
    let bytes = v2_record_bytes();
    let r = UsnRecordV2::new(&bytes).unwrap();
    assert_eq!(r.record_length, 96);
    assert_eq!(r.major_version, 2);
    assert_eq!(r.minor_version, 0);
    assert_eq!(r.file_reference.entry, 115);
    assert_eq!(r.file_reference.sequence, 37224);
    assert_eq!(r.parent_reference.entry, 141883);
    assert_eq!(r.parent_reference.sequence, 7);
    assert_eq!(r.usn, 20342374400);
    assert_eq!(r.timestamp.to_string(), "2013-10-19 12:16:53.276040");
    assert_eq!(r.reason.bits(), 2);
    assert_eq!(r.file_attributes.bits(), 8224);
    assert_eq!(r.file_name_length, 32);
    assert_eq!(r.file_name_offset, 60);
    assert_eq!(r.file_name, "BTDevManager.log");
}

#[test]
fn v2_record_rejects_bad_fields() {
    let good = v2_record_bytes();
    let mut zero_len = good.clone();
    zero_len[0] = 0;
    assert_eq!(UsnRecordV2::new(&zero_len).unwrap_err().kind, ErrorKind::InvalidUsnV2Record);
    let mut unaligned = good.clone();
    unaligned[0] = 0x61;
    assert_eq!(UsnRecordV2::new(&unaligned).unwrap_err().kind, ErrorKind::InvalidUsnV2Record);
    let mut too_long = good.clone();
    too_long[0] = 0x08;
    too_long[1] = 0x04;
    assert_eq!(UsnRecordV2::new(&too_long).unwrap_err().kind, ErrorKind::InvalidUsnV2Record);
    let mut minor = good.clone();
    minor[6] = 1;
    assert!(UsnRecordV2::new(&minor).is_err());
    let mut offset = good.clone();
    offset[58] = 0x40;
    assert!(UsnRecordV2::new(&offset).is_err());
    let mut name_past_end = good.clone();
    name_past_end[56] = 0x30;
    assert!(UsnRecordV2::new(&name_past_end).is_err());
}

#[test]
fn truncated_record_is_rejected_not_cut() {
    let bytes = v2_record_bytes();
    let cut = &bytes[..90];
    let e = UsnRecordV2::new(cut).unwrap_err();
    assert_eq!(e.kind, ErrorKind::InvalidUsnV2Record);
    assert!(UsnRecordV2::new(&bytes[..40]).is_err());
}

#[test]
fn unpaired_surrogate_decodes_lossily() {
    let mut bytes = v2_record_bytes();
    // "B" followed by a lone high surrogate.
    bytes[60] = 0x42;
    bytes[61] = 0x00;
    bytes[62] = 0x00;
    bytes[63] = 0xD8;
    bytes[56] = 4;
    let r = UsnRecordV2::new(&bytes).unwrap();
    assert_eq!(r.file_name, "B\u{FFFD}");
}

#[test]
fn v3_record_decodes() {
    let bytes = v3_record_bytes(&[0x61, 0x00, 0x62, 0x00]);
    let r = UsnRecordV3::new(&bytes).unwrap();
    assert_eq!(r.record_length, 88);
    assert_eq!(r.major_version, 3);
    assert_eq!(r.file_reference.as_u128(), 562949953423304);
    assert_eq!(r.file_reference.as_mft_reference().entry, 1992);
    assert_eq!(r.file_reference.as_mft_reference().sequence, 2);
    assert_eq!(r.usn, 4096);
    assert_eq!(r.reason.bits(), 0x8000_0100);
    assert_eq!(r.file_name_offset, 80);
    assert_eq!(r.file_name, "ab");
    let mut bad = bytes.clone();
    bad[74] = 76;
    assert_eq!(UsnRecordV3::new(&bad).unwrap_err().kind, ErrorKind::InvalidUsnV3Record);
}

#[test]
fn record_dispatches_on_version() {
    let bytes = v2_record_bytes();
    match UsnRecord::new(2, &bytes).unwrap() {
        UsnRecord::V2(r) => assert_eq!(r.usn, 20342374400),
        UsnRecord::V3(_) => panic!("expected a V2 record"),
    }
    let e = UsnRecord::new(4, &bytes).unwrap_err();
    assert_eq!(e.kind, ErrorKind::UnsupportedVersion);
    let v3 = v3_record_bytes(&[0x61, 0x00]);
    let rec = UsnRecord::new(3, &v3).unwrap();
    assert_eq!(rec.get_file_name(), "a");
    assert_eq!(rec.get_file_reference().entry, 1992);
    assert_eq!(rec.get_parent_reference().entry, 5);
    assert_eq!(rec.get_usn(), 4096);
    assert_eq!(rec.get_record_length(), 88);
}

#[test]
fn entry_keeps_its_meta() {
    let bytes = v2_record_bytes();
    let e = UsnEntry::new(EntryMeta::new("journal", 4096), 2, &bytes).unwrap();
    assert_eq!(e.meta.source, "journal");
    assert_eq!(e.meta.offset, 4096);
    assert_eq!(e.record.get_file_name(), "BTDevManager.log");
    assert_eq!(e.record.get_reason_code().bits(), 2);
    assert_eq!(e.record.get_file_attributes().bits(), 8224);
}

#[test]
fn v2_encode_then_decode_gives_the_record_back() {
    let bytes = v2_record_bytes();
    let r = UsnRecordV2::new(&bytes).unwrap();
    let encoded = r.to_bytes().unwrap();
    assert_eq!(encoded.len(), 96);
    assert_eq!(&encoded[..92], &bytes[..92]);
    let back = UsnRecordV2::new(&encoded).unwrap();
    assert_eq!(back.record_length, r.record_length);
    assert_eq!(back.file_reference, r.file_reference);
    assert_eq!(back.parent_reference, r.parent_reference);
    assert_eq!(back.usn, r.usn);
    assert_eq!(back.timestamp, r.timestamp);
    assert_eq!(back.reason, r.reason);
    assert_eq!(back.source_info, r.source_info);
    assert_eq!(back.security_id, r.security_id);
    assert_eq!(back.file_attributes, r.file_attributes);
    assert_eq!(back.file_name_length, r.file_name_length);
    assert_eq!(back.file_name, r.file_name);
}

#[test]
fn v2_encode_refuses_inconsistent_name_length() {
    let bytes = v2_record_bytes();
    let mut r = UsnRecordV2::new(&bytes).unwrap();
    r.file_name = "x".to_string();
    assert!(r.to_bytes().is_none());
}

#[test]
fn v3_encode_then_decode_gives_the_record_back() {
    let bytes = v3_record_bytes(&[0x61, 0x00, 0x62, 0x00]);
    let r = UsnRecordV3::new(&bytes).unwrap();
    let encoded = r.to_bytes().unwrap();
    assert_eq!(encoded, bytes);
    let back = UsnRecordV3::new(&encoded).unwrap();
    assert_eq!(back.file_reference, r.file_reference);
    assert_eq!(back.parent_reference, r.parent_reference);
    assert_eq!(back.usn, r.usn);
    assert_eq!(back.reason, r.reason);
    assert_eq!(back.file_name, "ab");
}
