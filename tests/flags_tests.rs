use rusty_usn::flags::{
    FileAttributes, Reason, SourceInfo, FILE_ATTRIBUTE_DIRECTORY, USN_REASON_CLOSE,
    USN_REASON_FILE_CREATE,
};

#[test]
fn reason_symbolic_names() {
    let r = Reason::from_bits_truncate(USN_REASON_FILE_CREATE | USN_REASON_CLOSE);
    assert_eq!(r.to_symbolic(), "USN_REASON_FILE_CREATE | USN_REASON_CLOSE");
    assert_eq!(Reason::from_bits_truncate(0).to_symbolic(), "(empty)");
    assert_eq!(Reason::from_bits_truncate(2).to_symbolic(), "USN_REASON_DATA_EXTEND");
}

#[test]
fn unknown_bits_are_dropped() {
    let r = Reason::from_bits_truncate(0x0000_0008 | USN_REASON_CLOSE);
    assert_eq!(r.bits(), USN_REASON_CLOSE);
    let s = SourceInfo::from_bits_truncate(0xff);
    assert_eq!(s.bits(), 0x0f);
    assert!(r.contains(USN_REASON_CLOSE));
    assert!(!r.contains(USN_REASON_FILE_CREATE));
}

#[test]
fn attribute_symbolic_names() {
    let a = FileAttributes::from_bits_truncate(0x2020);
    assert_eq!(a.to_symbolic(), "FILE_ATTRIBUTE_ARCHIVE | FILE_ATTRIBUTE_NOT_CONTENT_INDEXED");
    let d = FileAttributes::from_bits_truncate(FILE_ATTRIBUTE_DIRECTORY | 0x1000);
    assert_eq!(
        d.to_symbolic(),
        "FILE_ATTRIBUTE_DIRECTORY | FILE_ATTRIBUTE_OFFLINE | FILE_ATTRIBUTE_VIRTUAL"
    );
    assert!(d.contains(FILE_ATTRIBUTE_DIRECTORY));
    assert_eq!(SourceInfo::from_bits_truncate(2).to_symbolic(), "USN_SOURCE_AUXILIARY_DATA");
}
