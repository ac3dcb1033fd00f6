use rusty_usn::flags::{
    FileAttributes, Reason, FILE_ATTRIBUTE_DIRECTORY, USN_REASON_CLOSE, USN_REASON_FILE_CREATE,
    USN_REASON_FILE_DELETE, USN_REASON_RENAME_NEW_NAME, USN_REASON_RENAME_OLD_NAME,
};
use rusty_usn::liveusn::error::ErrorKind;
use rusty_usn::liveusn::listener::{
    annotate_record, mapping_action, should_back_off, ListenerState, MappingAction,
};
use rusty_usn::liveusn::live::MftOutputBuffer;
use rusty_usn::liveusn::mapping::{next_entry_below, LiveMapping, LivePathWalk, WalkStep};
use rusty_usn::liveusn::ntfs::{NtfsVolumeData, ReadUsnJournalData, UsnJournalData};
use rusty_usn::mapping::FolderMapping;
use rusty_usn::reference::MftReference;

#[test]
fn parse_live_volume_data_test() {
    let volume_buffer: &[u8] = &[
        0x23, 0x6E, 0x46, 0x0A, 0xA3, 0x46, 0x0A, 0xA8, 0xFF, 0x77, 0x7F, 0x3B, 0x00, 0x00, 0x00,
        0x00, 0xFF, 0xEE, 0x6F, 0x07, 0x00, 0x00, 0x00, 0x00, 0xA3, 0x64, 0xA1, 0x00, 0x00, 0x00,
        0x00, 0x00, 0x70, 0x14, 0x00, 0x00, 0x00, 0x00, 0x00, 0x00, 0x00, 0x02, 0x00, 0x00, 0x00,
        0x10, 0x00, 0x00, 0x00, 0x04, 0x00, 0x00, 0x00, 0x00, 0x00, 0x00, 0x00, 0x00, 0xCC, 0x2A,
        0x00, 0x00, 0x00, 0x00, 0x00, 0x00, 0x0C, 0x00, 0x00, 0x00, 0x00, 0x00, 0x02, 0x00, 0x00,
        0x00, 0x00, 0x00, 0x00, 0x00, 0xE0, 0x03, 0x10, 0x06, 0x00, 0x00, 0x00, 0x00, 0x60, 0x54,
        0x10, 0x06, 0x00, 0x00, 0x00, 0x00, 0x20, 0x00, 0x00, 0x00, 0x03, 0x00, 0x01, 0x00, 0x00,
        0x02, 0x00, 0x00, 0x02, 0x00, 0x00, 0x00, 0x00, 0x01, 0x00, 0x00, 0xFF, 0xFF, 0xFF, 0xFF,
        0x3E, 0x00, 0x00, 0x00, 0x00, 0x00, 0x00, 0x40,
    ];

    let volume_data = NtfsVolumeData::from_buffer(volume_buffer);

    assert_eq!(volume_data.volume_serial_number, -6338175859504550365);
    assert_eq!(volume_data.number_sectors, 998209535);
    assert_eq!(volume_data.total_clusters, 124776191);
    assert_eq!(volume_data.free_clusters, 10577059);
    assert_eq!(volume_data.total_reserved, 5232);
    assert_eq!(volume_data.bytes_per_sector, 512);
    assert_eq!(volume_data.bytes_per_cluster, 4096);
    assert_eq!(volume_data.bytes_per_file_record_segment, 1024);
    assert_eq!(volume_data.clusters_per_file_record_segment, 0);
    assert_eq!(volume_data.mft_valid_data_length, 718012416);
    assert_eq!(volume_data.mft_start_lcn, 786432);
    assert_eq!(volume_data.mft_2_start_lcn, 2);
    assert_eq!(volume_data.mft_zone_start, 101712864);
    assert_eq!(volume_data.mft_zone_end, 101733472);

    let ext = volume_data.ntfs_extended_volume_data.as_ref().unwrap();
    assert_eq!(ext.byte_count, 32);
    assert_eq!(ext.major_version, 3);
    assert_eq!(ext.minor_version, 1);
    assert_eq!(ext.bytes_per_physical_sector, 512);
    assert_eq!(ext.lfs_major_version, 2);
    assert_eq!(ext.lfs_minor_version, 0);
    assert_eq!(ext.max_device_trim_extent_count, 256);
    assert_eq!(ext.max_device_trim_byte_count, 4294967295);
    assert_eq!(ext.max_volume_trim_extent_count, 62);
    assert_eq!(ext.max_volume_trim_byte_count, 1073741824);
    assert_eq!(volume_data.get_max_entry(), 701184);

    let base_only = NtfsVolumeData::from_buffer(&volume_buffer[..96]);
    assert!(base_only.ntfs_extended_volume_data.is_none());
}

fn journal_buffer(len: usize) -> Vec<u8> {
    let mut b = vec![0u8; len];
    b[0..8].copy_from_slice(&77u64.to_le_bytes());
    b[8..16].copy_from_slice(&4096u64.to_le_bytes());
    b[16..24].copy_from_slice(&123456u64.to_le_bytes());
    if len >= 60 {
        b[56..58].copy_from_slice(&2u16.to_le_bytes());
        b[58..60].copy_from_slice(&3u16.to_le_bytes());
    }
    b
}

#[test]
fn journal_data_shapes() {
    for len in [56usize, 60, 80] {
        let j = UsnJournalData::new(&journal_buffer(len)).unwrap();
        assert_eq!(j.get_next_usn(), 123456);
    }
    match ReadUsnJournalData::from_usn_journal_data(
        UsnJournalData::new(&journal_buffer(56)).unwrap(),
    ) {
        ReadUsnJournalData::V0(r) => {
            assert_eq!(r.start_usn, 4096);
            assert_eq!(r.usn_journal_id, 77);
            assert_eq!(r.reason_mask, 0xffff_ffff);
            assert_eq!(r.timeout, 0);
            assert_eq!(r.bytes_to_wait_for, 0);
            assert_eq!(r.return_only_on_close, 0);
        },
        ReadUsnJournalData::V1(_) => panic!("expected V0"),
    }
    let read = ReadUsnJournalData::from_usn_journal_data(
        UsnJournalData::new(&journal_buffer(80)).unwrap(),
    )
    .with_start_usn(999)
    .with_reason_mask(0x100);
    match read {
        ReadUsnJournalData::V1(r) => {
            assert_eq!(r.start_usn, 999);
            assert_eq!(r.reason_mask, 0x100);
            assert_eq!(r.min_major_version, 2);
            assert_eq!(r.max_major_version, 3);
            assert_eq!(r.usn_journal_id, 77);
        },
        ReadUsnJournalData::V0(_) => panic!("expected V1"),
    }
}

#[test]
fn journal_data_of_unknown_size_is_refused() {
    let e = UsnJournalData::new(&journal_buffer(64)).unwrap_err();
    assert_eq!(e.kind, ErrorKind::InvalidUsnJournalData);
    assert_eq!(e.message, "Unknown size for UsnJournalData structure: 64");
}

#[test]
fn file_record_output_buffer() {
    let mut raw = Vec::new();
    raw.extend(42u64.to_le_bytes());
    raw.extend(4u32.to_le_bytes());
    raw.extend([0x46, 0x49, 0x4C, 0x45, 0x99]);
    let m = MftOutputBuffer::from_buffer(&raw).unwrap();
    assert_eq!(m.file_reference_number, 42);
    assert_eq!(m.file_record_length, 4);
    assert_eq!(m.file_record_buffer, vec![0x46, 0x49, 0x4C, 0x45]);
    let e = MftOutputBuffer::from_buffer(&raw[..14]).unwrap_err();
    assert_eq!(e.kind, ErrorKind::IoError);
}

#[test]
fn directory_events_decide_mapping_changes() {
    let dir = FileAttributes::from_bits_truncate(FILE_ATTRIBUTE_DIRECTORY);
    let file = FileAttributes::from_bits_truncate(0x20);
    let both = Reason::from_bits_truncate(USN_REASON_RENAME_OLD_NAME | USN_REASON_FILE_CREATE);
    assert_eq!(mapping_action(dir, both, 1, false, 0), MappingAction::Remove);
    let delete = Reason::from_bits_truncate(USN_REASON_FILE_DELETE | USN_REASON_CLOSE);
    assert_eq!(mapping_action(dir, delete, 5, true, 10), MappingAction::Add);
    assert_eq!(mapping_action(dir, delete, 10, true, 10), MappingAction::Remove);
    assert_eq!(mapping_action(dir, delete, 5, false, 10), MappingAction::Remove);
    let create = Reason::from_bits_truncate(USN_REASON_FILE_CREATE);
    assert_eq!(mapping_action(dir, create, 1, false, 0), MappingAction::Add);
    let new_name = Reason::from_bits_truncate(USN_REASON_RENAME_NEW_NAME);
    assert_eq!(mapping_action(dir, new_name, 1, false, 0), MappingAction::Add);
    assert_eq!(mapping_action(file, create, 1, false, 0), MappingAction::Leave);
    let close = Reason::from_bits_truncate(USN_REASON_CLOSE);
    assert_eq!(mapping_action(dir, close, 1, false, 0), MappingAction::Leave);
}

#[test]
fn listener_cursor_and_back_off() {
    let s = ListenerState::new(true, 5000);
    assert_eq!(s.cursor, 0);
    assert_eq!(s.catch_up_usn, 5000);
    let mut s = ListenerState::new(false, 5000);
    assert_eq!(s.cursor, 5000);
    let mut buf = 6000u64.to_le_bytes().to_vec();
    buf.extend(vec![0u8; 8]);
    let recs = s.on_read("vol", &buf);
    assert!(recs.is_empty());
    assert_eq!(s.cursor, 6000);
    assert!(should_back_off(recs.len()));
    assert!(!should_back_off(3));
    let recs = s.on_read("vol", &[1, 2]);
    assert!(recs.is_empty());
    assert_eq!(s.cursor, 6000);
}

fn dir_record(file_entry: u64, parent_entry: u64, reason: u32, name: &str) -> Vec<u8> {
    let units: Vec<u8> = name.encode_utf16().flat_map(|u| u.to_le_bytes()).collect();
    let len = ((60 + units.len() + 7) / 8 * 8) as u32;
    let mut b = vec![0u8; 60];
    b[0..4].copy_from_slice(&len.to_le_bytes());
    b[4..6].copy_from_slice(&2u16.to_le_bytes());
    b[8..16].copy_from_slice(&(file_entry | (1u64 << 48)).to_le_bytes());
    b[16..24].copy_from_slice(&(parent_entry | (1u64 << 48)).to_le_bytes());
    b[24..32].copy_from_slice(&100u64.to_le_bytes());
    b[40..44].copy_from_slice(&reason.to_le_bytes());
    b[52..56].copy_from_slice(&FILE_ATTRIBUTE_DIRECTORY.to_le_bytes());
    b[56..58].copy_from_slice(&(units.len() as u16).to_le_bytes());
    b[58..60].copy_from_slice(&60u16.to_le_bytes());
    b.extend_from_slice(&units);
    b.resize(len as usize, 0);
    b
}

#[test]
fn live_read_updates_mapping_and_annotates() {
    let mut mapping = FolderMapping::new();
    mapping.add_mapping(MftReference::new(10, 1), "dir".to_string(), MftReference::new(5, 5));
    let mut state = ListenerState::new(false, 0);
    let mut buf = 777u64.to_le_bytes().to_vec();
    buf.extend(dir_record(20, 10, USN_REASON_FILE_CREATE, "made"));
    buf.extend(dir_record(30, 20, USN_REASON_FILE_CREATE, "inner"));
    let recs = state.on_read("vol", &buf);
    assert_eq!(state.cursor, 777);
    assert_eq!(recs.len(), 2);
    let a = annotate_record(&mut mapping, &recs[0], false, 0);
    assert_eq!(a, "[root]/dir/made");
    let b = annotate_record(&mut mapping, &recs[1], false, 0);
    assert_eq!(b, "[root]/dir/made/inner");
    assert!(mapping.contains_reference(&MftReference::new(30, 1)));
    let mut del = 1u64.to_le_bytes().to_vec();
    del.extend(dir_record(20, 10, USN_REASON_RENAME_OLD_NAME, "made"));
    let recs = state.on_read("vol", &del);
    let c = annotate_record(&mut mapping, &recs[0], false, 0);
    assert_eq!(c, "[root]/dir/made");
    assert!(!mapping.contains_reference(&MftReference::new(20, 1)));
}

#[test]
fn live_path_walk_follows_parents_to_root() {
    let (mut walk, first) = LivePathWalk::new(32, 100);
    assert!(matches!(first, WalkStep::Fetch(32)));
    match walk.on_record(32, Some(("$Tops".to_string(), 31))) {
        WalkStep::Fetch(e) => assert_eq!(e, 31),
        other => panic!("unexpected {:?}", other),
    }
    match walk.on_record(31, Some(("$TxfLog".to_string(), 11))) {
        WalkStep::Fetch(e) => assert_eq!(e, 11),
        other => panic!("unexpected {:?}", other),
    }
    match walk.on_record(11, Some(("$Extend".to_string(), 5))) {
        WalkStep::Done(p) => assert_eq!(p, "$Extend/$TxfLog/$Tops"),
        other => panic!("unexpected {:?}", other),
    }
    let mut cache = LiveMapping::new();
    assert!(cache.cached_path(32).is_none());
    cache.remember_path(32, "$Extend/$TxfLog/$Tops".to_string());
    assert_eq!(cache.cached_path(32).unwrap(), "$Extend/$TxfLog/$Tops");
    cache.remove_path_from_cache(32);
    assert!(cache.cached_path(32).is_none());
    assert_eq!(next_entry_below(10), Some(9));
    assert_eq!(next_entry_below(0), None);
}

#[test]
fn live_path_walk_failures() {
    let (mut walk, _) = LivePathWalk::new(40, 1);
    match walk.on_record(39, Some(("x".to_string(), 5))) {
        WalkStep::Failed(e) => assert_eq!(e.kind, ErrorKind::WindowsError),
        other => panic!("unexpected {:?}", other),
    }
    match walk.on_record(40, None) {
        WalkStep::Failed(e) => assert_eq!(e.kind, ErrorKind::MftAttributeError),
        other => panic!("unexpected {:?}", other),
    }
    assert!(matches!(walk.on_record(40, Some(("a".to_string(), 41))), WalkStep::Fetch(41)));
    match walk.on_record(41, Some(("b".to_string(), 40))) {
        WalkStep::Failed(e) => assert_eq!(e.kind, ErrorKind::MftAttributeError),
        other => panic!("unexpected {:?}", other),
    }
}
