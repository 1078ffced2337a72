//! Detecting the OS of a guest from its disk image.

use thorium_reactor::error::Error;
use thorium_reactor::os_detector::{
    convert_args, convert_qcow2_to_raw, gpt_partition_offsets, gpt_table, identify_filesystem,
    inspect_raw_image, mbr_partition_offsets, verify_qcow2_magic, GptTable, GuestOs, Inspection,
};

/// Build a synthetic partition prefix containing the given OEM ID at offset 3.
///
/// # Arguments
///
/// * `oem` - The 8-byte OEM ID to embed
fn ntfs_like(oem: &[u8; 8]) -> Vec<u8> {
    let mut v = vec![0u8; 512];
    v[0..3].copy_from_slice(&[0xEB, 0x52, 0x90]);
    v[3..11].copy_from_slice(oem);
    v[510] = 0x55;
    v[511] = 0xAA;
    v
}

#[test]
fn identifies_ntfs() {
    let data = ntfs_like(b"NTFS    ");
    assert_eq!(identify_filesystem(&data).unwrap(), Some(GuestOs::Windows));
}

#[test]
fn identifies_refs() {
    let mut data = vec![0u8; 512];
    data[3..7].copy_from_slice(b"ReFS");
    data[0x10..0x14].copy_from_slice(b"FSRS");
    assert_eq!(identify_filesystem(&data).unwrap(), Some(GuestOs::Windows));
}

#[test]
fn identifies_ext4() {
    let mut data = vec![0u8; 0x500];
    // 1024 bytes of padding, then superblock with magic at offset 0x38
    data[0x438] = 0x53;
    data[0x439] = 0xEF;
    assert_eq!(identify_filesystem(&data).unwrap(), Some(GuestOs::Linux));
}

#[test]
fn identifies_xfs() {
    let mut data = vec![0u8; 512];
    data[0..4].copy_from_slice(b"XFSB");
    assert_eq!(identify_filesystem(&data).unwrap(), Some(GuestOs::Linux));
}

#[test]
fn identifies_btrfs() {
    let mut data = vec![0u8; 0x11000];
    data[0x10040..0x10048].copy_from_slice(b"_BHRfS_M");
    assert_eq!(identify_filesystem(&data).unwrap(), Some(GuestOs::Linux));
}

#[test]
fn identifies_luks() {
    let mut data = vec![0u8; 512];
    data[0..6].copy_from_slice(b"LUKS\xba\xbe");
    assert_eq!(identify_filesystem(&data).unwrap(), Some(GuestOs::Linux));
}

#[test]
fn identifies_swap() {
    let mut data = vec![0u8; 4096];
    data[4086..4096].copy_from_slice(b"SWAPSPACE2");
    assert_eq!(identify_filesystem(&data).unwrap(), Some(GuestOs::Linux));
}

#[test]
fn identifies_lvm() {
    let mut data = vec![0u8; 1024];
    // LABELONE at sector 1 (offset 512) is the most common location
    data[512..520].copy_from_slice(b"LABELONE");
    data[512 + 0x18..512 + 0x20].copy_from_slice(b"LVM2 001");
    assert_eq!(identify_filesystem(&data).unwrap(), Some(GuestOs::Linux));
}

#[test]
fn identifies_fat_as_unknown() {
    // FAT32 OEM ID "MSDOS5.0" should not match any signal
    let data = ntfs_like(b"MSDOS5.0");
    assert_eq!(identify_filesystem(&data).unwrap(), None);
}

#[test]
fn empty_data_returns_none() {
    assert_eq!(identify_filesystem(&[]).unwrap(), None);
}

#[test]
fn signatures_need_every_byte() {
    // a ReFS name without the marker, and with something behind the name
    let mut data = vec![0u8; 512];
    data[3..7].copy_from_slice(b"ReFS");
    assert_eq!(identify_filesystem(&data).unwrap(), None);
    data[0x10..0x14].copy_from_slice(b"FSRS");
    data[9] = 1;
    assert_eq!(identify_filesystem(&data).unwrap(), None);
    // LUKS without its two last bytes
    let mut data = vec![0u8; 512];
    data[0..4].copy_from_slice(b"LUKS");
    assert_eq!(identify_filesystem(&data).unwrap(), None);
    data[4] = 0xBA;
    data[5] = 0xBE;
    assert_eq!(identify_filesystem(&data[..5]).unwrap(), None);
    assert_eq!(identify_filesystem(&data).unwrap(), Some(GuestOs::Linux));
    // the older swap signature
    let mut data = vec![0u8; 4096];
    data[4086..4096].copy_from_slice(b"SWAP-SPACE");
    assert_eq!(identify_filesystem(&data).unwrap(), Some(GuestOs::Linux));
    assert_eq!(identify_filesystem(&data[..4095]).unwrap(), None);
    // an LVM label in the fourth sector counts, one in the fifth does not
    let mut data = vec![0u8; 4096];
    data[1536..1544].copy_from_slice(b"LABELONE");
    data[1536 + 0x18..1536 + 0x20].copy_from_slice(b"LVM2 001");
    assert_eq!(identify_filesystem(&data).unwrap(), Some(GuestOs::Linux));
    let mut data = vec![0u8; 4096];
    data[2048..2056].copy_from_slice(b"LABELONE");
    data[2048 + 0x18..2048 + 0x20].copy_from_slice(b"LVM2 001");
    assert_eq!(identify_filesystem(&data).unwrap(), None);
}

/// A disk with a GPT of four entries, the second of which is a partition at a sector.
fn gpt_disk(sector: u64, len: usize) -> Vec<u8> {
    let mut disk = vec![0u8; len];
    disk[512..520].copy_from_slice(b"EFI PART");
    disk[512 + 72..512 + 80].copy_from_slice(&2u64.to_le_bytes());
    disk[512 + 80..512 + 84].copy_from_slice(&4u32.to_le_bytes());
    disk[512 + 84..512 + 88].copy_from_slice(&128u32.to_le_bytes());
    let entry = 1024 + 128;
    disk[entry + 32..entry + 40].copy_from_slice(&sector.to_le_bytes());
    disk[entry + 40..entry + 48].copy_from_slice(&(sector + 100).to_le_bytes());
    disk
}

#[test]
fn reads_the_header_of_a_gpt() {
    let disk = gpt_disk(40, 4096);
    let table = GptTable { lba: 2, entries: 4, entry_size: 128 };
    assert_eq!(gpt_table(&disk[512..1024]), Some(table));
    // a short header and a wrong signature
    assert_eq!(gpt_table(&disk[512..512 + 91]), None);
    assert_eq!(gpt_table(&disk[0..512]), None);
    // sizes that make no sense
    let mut bad = disk[512..1024].to_vec();
    bad[84..88].copy_from_slice(&127u32.to_le_bytes());
    assert_eq!(gpt_table(&bad), None);
    bad[84..88].copy_from_slice(&4097u32.to_le_bytes());
    assert_eq!(gpt_table(&bad), None);
    bad[84..88].copy_from_slice(&4096u32.to_le_bytes());
    bad[80..84].copy_from_slice(&0u32.to_le_bytes());
    assert_eq!(gpt_table(&bad), None);
    bad[80..84].copy_from_slice(&1025u32.to_le_bytes());
    assert_eq!(gpt_table(&bad), None);
    bad[80..84].copy_from_slice(&1024u32.to_le_bytes());
    assert_eq!(gpt_table(&bad), Some(GptTable { lba: 2, entries: 1024, entry_size: 4096 }));
}

#[test]
fn lists_the_partitions_of_a_gpt() {
    let disk = gpt_disk(40, 4096);
    let table = GptTable { lba: 2, entries: 4, entry_size: 128 };
    assert_eq!(gpt_partition_offsets(table, &disk[1024..1536]), vec![40 * 512]);
    // an array that ends inside the entry
    assert_eq!(gpt_partition_offsets(table, &disk[1024..1024 + 175]), Vec::<u64>::new());
    assert_eq!(gpt_partition_offsets(table, &disk[1024..1024 + 176]), vec![40 * 512]);
    // a sector beyond what bytes can be counted to
    let disk = gpt_disk(u64::MAX - 100, 4096);
    assert_eq!(gpt_partition_offsets(table, &disk[1024..1536]), vec![u64::MAX]);
}

#[test]
fn lists_the_partitions_of_an_mbr() {
    let mut sector = vec![0u8; 512];
    assert_eq!(mbr_partition_offsets(&sector), Vec::<u64>::new());
    sector[510] = 0x55;
    sector[511] = 0xAA;
    // unused, empty, protective and real
    sector[446 + 8] = 1;
    sector[446 + 12] = 1;
    sector[462 + 4] = 7;
    sector[462 + 8] = 1;
    sector[478 + 4] = 0xEE;
    sector[478 + 8] = 1;
    sector[478 + 12] = 1;
    sector[494 + 4] = 0x83;
    sector[494 + 8] = 63;
    sector[494 + 13] = 1;
    assert_eq!(mbr_partition_offsets(&sector), vec![63 * 512]);
    assert_eq!(mbr_partition_offsets(&sector[..511]), Vec::<u64>::new());
}

#[test]
fn inspects_whole_disks() {
    // a filesystem on the disk itself
    let mut disk = vec![0u8; 4096];
    disk[0..4].copy_from_slice(b"XFSB");
    assert_eq!(inspect_raw_image(&disk), GuestOs::Linux);
    // a partition of a GPT
    let mut disk = gpt_disk(40, 40 * 512 + 2048);
    assert_eq!(inspect_raw_image(&disk), GuestOs::Unknown);
    disk[40 * 512 + 3..40 * 512 + 11].copy_from_slice(b"NTFS    ");
    assert_eq!(inspect_raw_image(&disk), GuestOs::Windows);
    // a partition of an MBR behind a GPT without signals
    let mut disk = gpt_disk(40, 100 * 512);
    disk[510] = 0x55;
    disk[511] = 0xAA;
    disk[446 + 4] = 0x83;
    disk[446 + 8] = 60;
    disk[446 + 12] = 1;
    disk[60 * 512..60 * 512 + 4].copy_from_slice(b"XFSB");
    assert_eq!(inspect_raw_image(&disk), GuestOs::Linux);
    // nothing at all
    assert_eq!(inspect_raw_image(&[]), GuestOs::Unknown);
}

#[test]
fn an_inspection_asks_for_what_it_needs() {
    let mut inspection = Inspection::new();
    let head = inspection.request().unwrap();
    assert_eq!((head.offset, head.len), (0, 0x11000));
    assert!(inspection.result().is_none());
    inspection = inspection.advance(vec![0u8; 512]);
    let header = inspection.request().unwrap();
    assert_eq!((header.offset, header.len), (512, 512));
    inspection = inspection.advance(gpt_disk(40, 2048)[512..1024].to_vec());
    let entries = inspection.request().unwrap();
    assert_eq!((entries.offset, entries.len), (1024, 512));
    inspection = inspection.advance(gpt_disk(40, 2048)[1024..1536].to_vec());
    let partition = inspection.request().unwrap();
    assert_eq!((partition.offset, partition.len), (40 * 512, 0x11000));
    inspection = inspection.advance(b"XFSB".to_vec());
    assert!(inspection.request().is_none());
    assert_eq!(inspection.result(), Some(GuestOs::Linux));
}

#[test]
fn verifies_the_magic_of_qcow2() {
    assert!(verify_qcow2_magic("/a.qcow2", b"QFI\xfb").is_ok());
    match verify_qcow2_magic("/a.qcow2", b"QFI\x0a") {
        Err(Error::OsDetect(text)) => assert_eq!(
            text,
            "Disk image '/a.qcow2' is not a qcow2 image (bad magic: [51, 46, 49, 0a])"
        ),
        other => panic!("expected OsDetect error, got {other:?}"),
    }
}

#[test]
fn reports_conversions_that_failed() {
    assert_eq!(convert_args("/a", "/b"), vec!["convert", "-O", "raw", "/a", "/b"]);
    assert!(convert_qcow2_to_raw("/a", true, b"ignored").is_ok());
    let error = convert_qcow2_to_raw("/a", false, b" no\xff space \n").unwrap_err();
    assert_eq!(error.kind(), "OsDetect");
    assert_eq!(
        error.msg(),
        "OS detection failed: qemu-img convert of '/a' failed: no\u{fffd} space"
    );
}
