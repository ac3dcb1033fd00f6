use rusty_usn::le::read_u128;
use rusty_usn::reference::{MftReference, Ntfs128Reference};

#[test]
fn reference_128() {
    let ref_buffer: &[u8] = &[
        0xC8, 0x07, 0x00, 0x00, 0x00, 0x00, 0x02, 0x00, 0x00, 0x00, 0x00, 0x00, 0x00, 0x00, 0x00,
        0x00,
    ];

    let ref128 = Ntfs128Reference(read_u128(ref_buffer, 0));

    assert_eq!(ref128.0, 562949953423304);
    let file_ref = ref128.as_mft_reference();
    assert_eq!(file_ref.entry, 1992);
    assert_eq!(file_ref.sequence, 2);
    assert_eq!(ref128.as_u128(), 562949953423304);
}

#[test]
fn reference_packs_and_splits() {
    let r = MftReference::from_u64(0x0007_0000_0000_0073);
    assert_eq!(r.entry, 115);
    assert_eq!(r.sequence, 7);
    assert_eq!(r.as_u64(), 0x0007_0000_0000_0073);
    assert_eq!(MftReference::new(115, 7), r);
}
