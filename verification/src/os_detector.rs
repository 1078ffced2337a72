//! Detects whether a guest runs Windows or Linux from its disk image.
//!
//! The image is converted to raw and then sniffed for partition tables and filesystem
//! magic bytes. An [`Inspection`] says which bytes of the raw image to read next and
//! draws the conclusions from them.

use vstd::prelude::*;

use crate::encoding::{text_from_utf8_lossy, utf8_lossy};
use crate::error::{Error, ErrorView};
use crate::text::{chars_of, join3, join5, to_owned, trim, trimmed};

verus! {

/// The detected operating system family of a guest
#[derive(Debug, Clone, Copy, PartialEq, Eq, Hash, Structural)]
pub enum GuestOs {
    /// A Linux guest, indicated by an ext/XFS/btrfs/swap filesystem, LUKS volume, or LVM PV
    Linux,
    /// A Windows guest, indicated by an NTFS or ReFS filesystem
    Windows,
    /// Inspection completed successfully but no Windows or Linux signal was found
    Unknown,
}

/// The size of each disk sector in bytes (standard for x86 disks)
pub const SECTOR_SIZE: u64 = 512;

/// The number of bytes to read from the start of each partition for filesystem detection.
///
/// Sized to comfortably hold the btrfs superblock at offset 0x10000 plus the 4 KiB
/// superblock itself, so a single read covers all filesystems we look for.
pub const PARTITION_READ_BYTES: usize = 0x11000;

/// The largest number of entries of a GPT that is read.
pub const MAX_GPT_ENTRIES: u32 = 1024;

/// The smallest size of an entry of a GPT.
pub const MIN_GPT_ENTRY_SIZE: u32 = 128;

/// The largest size of an entry of a GPT that is read.
pub const MAX_GPT_ENTRY_SIZE: u32 = 4096;

/// Whether the characters of a text stand in the data at an offset, a byte each.
pub open spec fn stands_at(data: Seq<u8>, at: int, text: Seq<char>) -> bool {
    &&& at + text.len() <= data.len()
    &&& forall|i: int| 0 <= i < text.len() ==> data[at + i] as int == (#[trigger] text[i]) as int
}

/// Whether the label of an LVM2 physical volume stands in a sector of the data.
pub open spec fn lvm_label_in(data: Seq<u8>, sector: int) -> bool {
    let base = sector * 512;
    stands_at(data, base, "LABELONE"@) && stands_at(data, base + 0x18, "LVM2 001"@)
}

/// Whether the data starts a Windows filesystem: NTFS by its OEM ID at offset 3, ReFS by
/// its OEM ID at offset 3 and its marker at offset 0x10.
pub open spec fn is_windows_filesystem(data: Seq<u8>) -> bool {
    ||| stands_at(data, 3, "NTFS    "@)
    ||| stands_at(data, 3, "ReFS\0\0\0\0"@) && stands_at(data, 0x10, "FSRS"@)
}

/// Whether the data starts a Linux filesystem: ext2/3/4 by the magic 0xEF53 of its
/// superblock, XFS and LUKS by the magic at the start, btrfs by the magic of its
/// superblock, swap by the signature at the end of the first 4 KiB page, and LVM2 by the
/// label in one of the first four sectors.
pub open spec fn is_linux_filesystem(data: Seq<u8>) -> bool {
    ||| data.len() >= 0x43A && data[0x438] == 0x53 && data[0x439] == 0xEF
    ||| stands_at(data, 0, "XFSB"@)
    ||| stands_at(data, 0x10040, "_BHRfS_M"@)
    ||| stands_at(data, 0, "LUKS"@) && data.len() >= 6 && data[4] == 0xBA && data[5] == 0xBE
    ||| stands_at(data, 4086, "SWAPSPACE2"@)
    ||| stands_at(data, 4086, "SWAP-SPACE"@)
    ||| exists|sector: int| 0 <= sector < 4 && #[trigger] lvm_label_in(data, sector)
}

/// The operating system that the filesystem at the start of the data belongs to. FAT
/// belongs to none: it is the EFI System Partition of Windows and Linux guests alike.
pub open spec fn filesystem_of(data: Seq<u8>) -> Option<GuestOs> {
    if is_windows_filesystem(data) {
        Some(GuestOs::Windows)
    } else if is_linux_filesystem(data) {
        Some(GuestOs::Linux)
    } else {
        None
    }
}

/// Whether the characters of a text stand in the data at an offset, a byte each.
fn text_stands_at(data: &[u8], at: usize, text: &str) -> (r: bool)
    ensures
        r == stands_at(data@, at as int, text@),
{
    let c: Vec<char> = chars_of(text);
    let len: usize = data.len();
    if at > len || c.len() > len - at {
        return false;
    }
    for i in 0..c.len()
        invariant
            c@ == text@,
            at + c@.len() <= len == data@.len(),
            forall|j: int| 0 <= j < i ==> data@[at + j] as int == (#[trigger] text@[j]) as int,
    {
        let wanted: char = c[i];
        if data[at + i] as char != wanted {
            assert(data@[at + i] as int != text@[i as int] as int);
            return false;
        }
    }
    true
}

/// Examine the start of a partition for known filesystem magic bytes.
///
/// Returns `Some(os)` for any recognized Windows or Linux filesystem signal, or `None`
/// if the bytes don't match anything we know about.
///
/// * `data` - The first bytes of a partition (or the whole disk for unpartitioned images)
pub fn identify_filesystem(data: &[u8]) -> (r: Result<Option<GuestOs>, Error>)
    ensures
        r matches Ok(os) && os == filesystem_of(data@),
{
    if text_stands_at(data, 3, "NTFS    ") {
        return Ok(Some(GuestOs::Windows));
    }
    if text_stands_at(data, 3, "ReFS\0\0\0\0") && text_stands_at(data, 0x10, "FSRS") {
        return Ok(Some(GuestOs::Windows));
    }
    if data.len() >= 0x43A && data[0x438] == 0x53 && data[0x439] == 0xEF {
        return Ok(Some(GuestOs::Linux));
    }
    if text_stands_at(data, 0, "XFSB") || text_stands_at(data, 0x10040, "_BHRfS_M") {
        return Ok(Some(GuestOs::Linux));
    }
    if text_stands_at(data, 0, "LUKS") && data.len() >= 6 && data[4] == 0xBA && data[5] == 0xBE {
        return Ok(Some(GuestOs::Linux));
    }
    if text_stands_at(data, 4086, "SWAPSPACE2") || text_stands_at(data, 4086, "SWAP-SPACE") {
        return Ok(Some(GuestOs::Linux));
    }
    let mut sector: usize = 0;
    while sector < 4
        invariant
            sector <= 4,
            !is_windows_filesystem(data@),
            forall|s: int| 0 <= s < sector ==> !#[trigger] lvm_label_in(data@, s),
        decreases 4 - sector,
    {
        let base: usize = sector * 512;
        if text_stands_at(data, base, "LABELONE") && text_stands_at(data, base + 0x18, "LVM2 001")
        {
            assert(lvm_label_in(data@, sector as int));
            return Ok(Some(GuestOs::Linux));
        }
        sector = sector + 1;
    }
    Ok(None)
}

/// The number that four bytes from an offset on stand for, the lowest first.
pub open spec fn le_u32(data: Seq<u8>, at: int) -> u32 {
    (data[at] + 0x100 * data[at + 1] + 0x1_0000 * data[at + 2] + 0x100_0000 * data[at
        + 3]) as u32
}

/// The number that eight bytes from an offset on stand for, the lowest first.
pub open spec fn le_u64(data: Seq<u8>, at: int) -> u64 {
    (le_u32(data, at) + 0x1_0000_0000 * le_u32(data, at + 4)) as u64
}

fn read_le_u32(data: &[u8], at: usize) -> (r: u32)
    requires
        at + 4 <= data@.len(),
    ensures
        r == le_u32(data@, at as int),
{
    let len: usize = data.len();
    assert(at + 4 <= len);
    data[at] as u32 + 0x100 * data[at + 1] as u32 + 0x1_0000 * data[at + 2] as u32 + 0x100_0000
        * data[at + 3] as u32
}

fn read_le_u64(data: &[u8], at: usize) -> (r: u64)
    requires
        at + 8 <= data@.len(),
    ensures
        r == le_u64(data@, at as int),
{
    let len: usize = data.len();
    assert(at + 8 <= len);
    read_le_u32(data, at) as u64 + 0x1_0000_0000 * read_le_u32(data, at + 4) as u64
}

/// The offset of a sector in bytes, or the largest there is.
pub open spec fn sector_offset(lba: u64) -> u64 {
    if lba * SECTOR_SIZE <= u64::MAX {
        (lba * SECTOR_SIZE) as u64
    } else {
        u64::MAX
    }
}

fn offset_of_sector(lba: u64) -> (r: u64)
    ensures
        r == sector_offset(lba),
{
    if lba <= u64::MAX / SECTOR_SIZE {
        lba * SECTOR_SIZE
    } else {
        u64::MAX
    }
}

/// Where the partition entries of a GPT stand.
#[derive(Debug, Clone, Copy, PartialEq, Eq, Structural)]
pub struct GptTable {
    /// The sector at which the array of entries starts
    pub lba: u64,
    /// The number of entries
    pub entries: u32,
    /// The size of an entry in bytes
    pub entry_size: u32,
}

impl GptTable {
    /// Whether the sizes are within what is read.
    pub open spec fn wf(self) -> bool {
        &&& MIN_GPT_ENTRY_SIZE <= self.entry_size <= MAX_GPT_ENTRY_SIZE
        &&& 0 < self.entries <= MAX_GPT_ENTRIES
    }

    /// The size of the array of entries in bytes.
    pub open spec fn array_size(self) -> int {
        self.entries * self.entry_size
    }
}

/// What the header sector of a GPT says of its entries. There is nothing to be read where
/// the signature is missing or the sizes make no sense.
pub open spec fn gpt_table_of(header: Seq<u8>) -> Option<GptTable> {
    if header.len() < 92 || !stands_at(header, 0, "EFI PART"@) {
        None
    } else {
        let table = GptTable {
            lba: le_u64(header, 72),
            entries: le_u32(header, 80),
            entry_size: le_u32(header, 84),
        };
        if table.wf() {
            Some(table)
        } else {
            None
        }
    }
}

/// What the header sector of a GPT says of its entries.
pub fn gpt_table(header: &[u8]) -> (r: Option<GptTable>)
    ensures
        r == gpt_table_of(header@),
{
    if header.len() < 92 || !text_stands_at(header, 0, "EFI PART") {
        return None;
    }
    let lba: u64 = read_le_u64(header, 72);
    let entries: u32 = read_le_u32(header, 80);
    let entry_size: u32 = read_le_u32(header, 84);
    if entry_size < MIN_GPT_ENTRY_SIZE || entry_size > MAX_GPT_ENTRY_SIZE || entries == 0 || entries
        > MAX_GPT_ENTRIES {
        return None;
    }
    Some(GptTable { lba, entries, entry_size })
}

/// The byte offsets of the partitions among the first `n` entries of a GPT. An entry that
/// does not stand in the array in full is left out, and so is an unused one.
pub open spec fn gpt_offsets_among(table: GptTable, array: Seq<u8>, n: nat) -> Seq<u64>
    decreases n,
{
    if n == 0 {
        Seq::empty()
    } else {
        let before = gpt_offsets_among(table, array, (n - 1) as nat);
        let at = (n - 1) * table.entry_size;
        if at + 48 > array.len() || (le_u64(array, at + 32) == 0 && le_u64(array, at + 40) == 0) {
            before
        } else {
            before.push(sector_offset(le_u64(array, at + 32)))
        }
    }
}

/// The byte offsets of the partitions of a GPT.
pub open spec fn gpt_offsets(table: GptTable, array: Seq<u8>) -> Seq<u64> {
    gpt_offsets_among(table, array, table.entries as nat)
}

/// Entries behind the end of the array add nothing.
proof fn lemma_entries_behind_the_end(table: GptTable, array: Seq<u8>, n: nat, m: nat)
    requires
        n <= m,
        n * table.entry_size + 48 > array.len(),
    ensures
        gpt_offsets_among(table, array, m) == gpt_offsets_among(table, array, n),
    decreases m - n,
{
    if n < m {
        lemma_entries_behind_the_end(table, array, n, (m - 1) as nat);
        assert((m - 1) * table.entry_size >= n * table.entry_size) by (nonlinear_arith)
            requires
                n <= m - 1,
                table.entry_size >= 0,
        ;
    }
}

/// The byte offsets of the partitions of a GPT.
pub fn gpt_partition_offsets(table: GptTable, array: &[u8]) -> (r: Vec<u64>)
    requires
        table.wf(),
    ensures
        r@ == gpt_offsets(table, array@),
{
    let mut out: Vec<u64> = Vec::new();
    let mut i: u32 = 0;
    while i < table.entries
        invariant
            table.wf(),
            i <= table.entries,
            out@ == gpt_offsets_among(table, array@, i as nat),
        decreases table.entries - i,
    {
        assert(i * table.entry_size <= 1024 * 4096) by (nonlinear_arith)
            requires
                i <= 1024,
                table.entry_size <= 4096,
        ;
        let at: usize = i as usize * table.entry_size as usize;
        if at + 48 > array.len() {
            proof {
                lemma_entries_behind_the_end(table, array@, i as nat, table.entries as nat);
            }
            return out;
        }
        let start: u64 = read_le_u64(array, at + 32);
        let end: u64 = read_le_u64(array, at + 40);
        if start != 0 || end != 0 {
            out.push(offset_of_sector(start));
        }
        i = i + 1;
    }
    out
}

/// Whether the boot sector of a disk holds an MBR.
pub open spec fn is_mbr(boot_sector: Seq<u8>) -> bool {
    boot_sector.len() >= 512 && boot_sector[510] == 0x55 && boot_sector[511] == 0xAA
}

/// Whether the entry of an MBR at an offset is a partition to look into: one that is in
/// use, not empty, and not the one that protects a GPT.
pub open spec fn is_mbr_partition(boot_sector: Seq<u8>, at: int) -> bool {
    &&& boot_sector[at + 4] != 0
    &&& boot_sector[at + 4] != 0xEE
    &&& le_u32(boot_sector, at + 8) != 0
    &&& le_u32(boot_sector, at + 12) != 0
}

/// The byte offsets of the partitions among the first `n` entries of an MBR.
pub open spec fn mbr_offsets_among(boot_sector: Seq<u8>, n: nat) -> Seq<u64>
    decreases n,
{
    if n == 0 {
        Seq::empty()
    } else {
        let before = mbr_offsets_among(boot_sector, (n - 1) as nat);
        let at = 446 + (n - 1) * 16;
        if is_mbr_partition(boot_sector, at) {
            before.push((le_u32(boot_sector, at + 8) * SECTOR_SIZE) as u64)
        } else {
            before
        }
    }
}

/// The byte offsets of the partitions that the MBR in a boot sector lists, if it holds one.
pub open spec fn mbr_offsets(boot_sector: Seq<u8>) -> Seq<u64> {
    if is_mbr(boot_sector) {
        mbr_offsets_among(boot_sector, 4)
    } else {
        Seq::empty()
    }
}

/// The byte offsets of the partitions that the MBR in a boot sector lists, if it holds one.
pub fn mbr_partition_offsets(boot_sector: &[u8]) -> (r: Vec<u64>)
    ensures
        r@ == mbr_offsets(boot_sector@),
{
    let mut out: Vec<u64> = Vec::new();
    if boot_sector.len() < 512 || boot_sector[510] != 0x55 || boot_sector[511] != 0xAA {
        return out;
    }
    let mut i: usize = 0;
    while i < 4
        invariant
            i <= 4,
            boot_sector@.len() >= 512,
            out@ == mbr_offsets_among(boot_sector@, i as nat),
        decreases 4 - i,
    {
        let at: usize = 446 + i * 16;
        let kind: u8 = boot_sector[at + 4];
        let start: u32 = read_le_u32(boot_sector, at + 8);
        let sectors: u32 = read_le_u32(boot_sector, at + 12);
        if kind != 0 && start != 0 && sectors != 0 && kind != 0xEE {
            out.push(start as u64 * SECTOR_SIZE);
        }
        i = i + 1;
    }
    out
}

/// What a read of `len` bytes at an offset gives of a disk: less where the disk ends.
pub open spec fn read_of(disk: Seq<u8>, offset: nat, len: nat) -> Seq<u8> {
    if offset >= disk.len() {
        Seq::empty()
    } else if offset + len <= disk.len() {
        disk.subrange(offset as int, (offset + len) as int)
    } else {
        disk.skip(offset as int)
    }
}

/// The first signal that is found at one of the offsets, from the `i`-th on.
pub open spec fn first_signal(disk: Seq<u8>, offsets: Seq<u64>, i: nat) -> Option<GuestOs>
    decreases offsets.len() - i,
{
    if i >= offsets.len() {
        None
    } else {
        match filesystem_of(read_of(disk, offsets[i as int] as nat, PARTITION_READ_BYTES as nat)) {
            Some(os) => Some(os),
            None => first_signal(disk, offsets, i + 1),
        }
    }
}

/// What the partitions of a disk's MBR say of its operating system, if that has not been
/// found before. `head` is the start of the disk.
pub open spec fn mbr_signal(disk: Seq<u8>, head: Seq<u8>) -> GuestOs {
    match first_signal(disk, mbr_offsets(head), 0) {
        Some(os) => os,
        None => GuestOs::Unknown,
    }
}

/// What the partitions of a disk's GPT say of its operating system.
pub open spec fn gpt_signal(disk: Seq<u8>) -> Option<GuestOs> {
    match gpt_table_of(read_of(disk, SECTOR_SIZE as nat, SECTOR_SIZE as nat)) {
        Some(table) => first_signal(
            disk,
            gpt_offsets(
                table,
                read_of(disk, sector_offset(table.lba) as nat, table.array_size() as nat),
            ),
            0,
        ),
        None => None,
    }
}

/// The operating system on a raw disk: that of a filesystem on the disk itself, else that
/// of the first partition of its GPT that has one, else that of its MBR.
pub open spec fn os_of_disk(disk: Seq<u8>) -> GuestOs {
    let head = read_of(disk, 0, PARTITION_READ_BYTES as nat);
    match filesystem_of(head) {
        Some(os) => os,
        None => match gpt_signal(disk) {
            Some(os) => os,
            None => mbr_signal(disk, head),
        },
    }
}

/// How far the inspection of a raw disk has come.
#[derive(Debug)]
pub enum Stage {
    /// The start of the disk is to be read
    Head,
    /// The header sector of a GPT is to be read
    GptHeader {
        /// The start of the disk
        head: Vec<u8>,
    },
    /// The partition entries of a GPT are to be read
    GptEntries {
        /// The start of the disk
        head: Vec<u8>,
        /// Where the entries stand
        table: GptTable,
    },
    /// The start of a partition of a GPT is to be read
    GptPartition {
        /// The start of the disk
        head: Vec<u8>,
        /// The offsets of the partitions
        offsets: Vec<u64>,
        /// The partition that is next
        next: usize,
    },
    /// The start of a partition of an MBR is to be read
    MbrPartition {
        /// The offsets of the partitions
        offsets: Vec<u64>,
        /// The partition that is next
        next: usize,
    },
    /// The operating system is settled
    Done(GuestOs),
}

/// The bytes of a disk to read: the offset and the number of bytes. A read that reaches
/// beyond the end of the disk gives what is there.
#[derive(Debug, Clone, Copy, PartialEq, Eq, Structural)]
pub struct ReadRequest {
    /// The byte offset at which to begin reading
    pub offset: u64,
    /// The maximum number of bytes to read
    pub len: usize,
}

/// The inspection of a raw disk, which goes from read to read until the operating system
/// is settled.
#[derive(Debug)]
pub struct Inspection {
    stage: Stage,
}

impl Inspection {
    /// How far the inspection has come.
    pub closed spec fn stage(self) -> Stage {
        self.stage
    }

    #[verifier::type_invariant]
    spec fn wf(self) -> bool {
        match self.stage {
            Stage::GptEntries { table, .. } => table.wf(),
            Stage::GptPartition { offsets, next, .. } => next < offsets@.len(),
            Stage::MbrPartition { offsets, next } => next < offsets@.len(),
            _ => true,
        }
    }

    /// The bytes that the inspection has to see next.
    pub open spec fn wants(self) -> Option<ReadRequest> {
        match self.stage() {
            Stage::Head => Some(ReadRequest { offset: 0, len: PARTITION_READ_BYTES }),
            Stage::GptHeader { .. } => Some(
                ReadRequest { offset: SECTOR_SIZE, len: SECTOR_SIZE as usize },
            ),
            Stage::GptEntries { table, .. } => Some(
                ReadRequest {
                    offset: sector_offset(table.lba),
                    len: table.array_size() as usize,
                },
            ),
            Stage::GptPartition { offsets, next, .. } => Some(
                ReadRequest { offset: offsets@[next as int], len: PARTITION_READ_BYTES },
            ),
            Stage::MbrPartition { offsets, next } => Some(
                ReadRequest { offset: offsets@[next as int], len: PARTITION_READ_BYTES },
            ),
            Stage::Done(_) => None,
        }
    }

    /// The operating system that the inspection settles on if all it reads from here on
    /// is what stands on the disk.
    pub open spec fn conclusion(self, disk: Seq<u8>) -> GuestOs {
        match self.stage() {
            Stage::Head => os_of_disk(disk),
            Stage::GptHeader { head } => match gpt_signal(disk) {
                Some(os) => os,
                None => mbr_signal(disk, head@),
            },
            Stage::GptEntries { head, table } => match first_signal(
                disk,
                gpt_offsets(
                    table,
                    read_of(disk, sector_offset(table.lba) as nat, table.array_size() as nat),
                ),
                0,
            ) {
                Some(os) => os,
                None => mbr_signal(disk, head@),
            },
            Stage::GptPartition { head, offsets, next } => match first_signal(
                disk,
                offsets@,
                next as nat,
            ) {
                Some(os) => os,
                None => mbr_signal(disk, head@),
            },
            Stage::MbrPartition { offsets, next } => match first_signal(
                disk,
                offsets@,
                next as nat,
            ) {
                Some(os) => os,
                None => GuestOs::Unknown,
            },
            Stage::Done(os) => os,
        }
    }

    /// A bound on the reads that are left, by stage and within it.
    pub open spec fn reads_left(self) -> (nat, nat) {
        match self.stage() {
            Stage::Head => (5, 0),
            Stage::GptHeader { .. } => (4, 0),
            Stage::GptEntries { .. } => (3, 0),
            Stage::GptPartition { offsets, next, .. } => (2, (offsets@.len() - next) as nat),
            Stage::MbrPartition { offsets, next } => (1, (offsets@.len() - next) as nat),
            Stage::Done(_) => (0, 0),
        }
    }

    /// Start the inspection of a disk.
    pub fn new() -> (r: Inspection)
        ensures
            r.stage() == Stage::Head,
            forall|disk: Seq<u8>| #[trigger] r.conclusion(disk) == os_of_disk(disk),
    {
        Inspection { stage: Stage::Head }
    }

    /// The bytes that the inspection has to see next, until it is done.
    pub fn request(&self) -> (r: Option<ReadRequest>)
        ensures
            r == self.wants(),
            r is None <==> self.stage() is Done,
    {
        proof {
            use_type_invariant(&*self);
        }
        match &self.stage {
            Stage::Head => Some(ReadRequest { offset: 0, len: PARTITION_READ_BYTES }),
            Stage::GptHeader { .. } => Some(
                ReadRequest { offset: SECTOR_SIZE, len: SECTOR_SIZE as usize },
            ),
            Stage::GptEntries { table, .. } => {
                assert(table.entries * table.entry_size <= 1024 * 4096) by (nonlinear_arith)
                    requires
                        table.entries <= 1024,
                        table.entry_size <= 4096,
                ;
                Some(
                    ReadRequest {
                        offset: offset_of_sector(table.lba),
                        len: table.entries as usize * table.entry_size as usize,
                    },
                )
            },
            Stage::GptPartition { offsets, next, .. } => Some(
                ReadRequest { offset: offsets[*next], len: PARTITION_READ_BYTES },
            ),
            Stage::MbrPartition { offsets, next } => Some(
                ReadRequest { offset: offsets[*next], len: PARTITION_READ_BYTES },
            ),
            Stage::Done(_) => None,
        }
    }

    /// The operating system, once it is settled.
    pub fn result(&self) -> (r: Option<GuestOs>)
        ensures
            r is Some <==> self.stage() is Done,
            r matches Some(os) ==> self.stage() == Stage::Done(os) && forall|disk: Seq<u8>|
                #[trigger] self.conclusion(disk) == os,
    {
        match &self.stage {
            Stage::Done(os) => Some(*os),
            _ => None,
        }
    }

    /// Go on with the partitions of a GPT, or of the MBR behind them.
    fn at_gpt_partition(head: Vec<u8>, offsets: Vec<u64>, next: usize) -> (r: Inspection)
        requires
            next <= offsets@.len(),
        ensures
            forall|disk: Seq<u8>| #[trigger]
                r.conclusion(disk) == match first_signal(disk, offsets@, next as nat) {
                    Some(os) => os,
                    None => mbr_signal(disk, head@),
                },
            r.reads_left().0 <= 2,
            r.reads_left().0 == 2 ==> r.reads_left().1 == offsets@.len() - next,
    {
        if next < offsets.len() {
            Inspection { stage: Stage::GptPartition { head, offsets, next } }
        } else {
            Self::at_mbr_partition(mbr_partition_offsets(head.as_slice()), 0)
        }
    }

    /// Go on with the partitions of an MBR, or with nothing left to look at.
    fn at_mbr_partition(offsets: Vec<u64>, next: usize) -> (r: Inspection)
        requires
            next <= offsets@.len(),
        ensures
            forall|disk: Seq<u8>| #[trigger]
                r.conclusion(disk) == match first_signal(disk, offsets@, next as nat) {
                    Some(os) => os,
                    None => GuestOs::Unknown,
                },
            r.reads_left().0 <= 1,
            r.reads_left().0 == 1 ==> r.reads_left().1 == offsets@.len() - next,
    {
        if next < offsets.len() {
            Inspection { stage: Stage::MbrPartition { offsets, next } }
        } else {
            Inspection { stage: Stage::Done(GuestOs::Unknown) }
        }
    }

    /// Take in the bytes that were asked for and go on to the next read.
    ///
    /// Where the bytes are what stands on a disk, what the inspection will conclude of
    /// that disk stays the same. Each read brings the end closer.
    pub fn advance(self, data: Vec<u8>) -> (r: Inspection)
        ensures
            forall|disk: Seq<u8>|
                (self.wants() matches Some(request) ==> data@ == read_of(
                    disk,
                    request.offset as nat,
                    request.len as nat,
                )) ==> #[trigger] r.conclusion(disk) == self.conclusion(disk),
            self.stage() is Done ==> r.stage() == self.stage(),
            !(self.stage() is Done) ==> r.reads_left().0 < self.reads_left().0 || (
            r.reads_left().0 == self.reads_left().0 && r.reads_left().1 < self.reads_left().1),
    {
        proof {
            use_type_invariant(&self);
        }
        let found: Option<GuestOs> = match identify_filesystem(data.as_slice()) {
            Ok(os) => os,
            Err(_) => None,
        };
        match self.stage {
            Stage::Head => match found {
                Some(os) => Inspection { stage: Stage::Done(os) },
                None => Inspection { stage: Stage::GptHeader { head: data } },
            },
            Stage::GptHeader { head } => match gpt_table(data.as_slice()) {
                Some(table) => Inspection { stage: Stage::GptEntries { head, table } },
                None => Self::at_mbr_partition(mbr_partition_offsets(head.as_slice()), 0),
            },
            Stage::GptEntries { head, table } => {
                assert(table.entries * table.entry_size <= 1024 * 4096) by (nonlinear_arith)
                    requires
                        table.entries <= 1024,
                        table.entry_size <= 4096,
                ;
                Self::at_gpt_partition(head, gpt_partition_offsets(table, data.as_slice()), 0)
            },
            Stage::GptPartition { head, offsets, next } => {
                let count: usize = offsets.len();
                assert(next < count);
                match found {
                    Some(os) => Inspection { stage: Stage::Done(os) },
                    None => Self::at_gpt_partition(head, offsets, next + 1),
                }
            },
            Stage::MbrPartition { offsets, next } => {
                let count: usize = offsets.len();
                assert(next < count);
                match found {
                    Some(os) => Inspection { stage: Stage::Done(os) },
                    None => Self::at_mbr_partition(offsets, next + 1),
                }
            },
            Stage::Done(os) => Inspection { stage: Stage::Done(os) },
        }
    }
}

/// Read up to `len` bytes of a disk that is in memory.
fn read_at(disk: &[u8], offset: u64, len: usize) -> (r: Vec<u8>)
    ensures
        r@ == read_of(disk@, offset as nat, len as nat),
{
    let mut out: Vec<u8> = Vec::new();
    let size: usize = disk.len();
    if offset >= size as u64 {
        assert(out@ =~= Seq::<u8>::empty());
        return out;
    }
    let from: usize = offset as usize;
    let to: usize = if len <= size - from {
        from + len
    } else {
        size
    };
    for i in from..to
        invariant
            from <= to <= size == disk@.len(),
            out@ =~= disk@.subrange(from as int, i as int),
    {
        out.push(disk[i]);
    }
    assert(out@ =~= read_of(disk@, offset as nat, len as nat));
    out
}

/// Walk the partitions of a raw disk that is in memory looking for OS signals.
///
/// First checks the disk itself for partitionless layouts (common in cloud images), then
/// its GPT and its MBR. Returns the first definitive signal found, or `Unknown` if nothing
/// recognizable is present.
///
/// * `disk` - The bytes of the raw disk
pub fn inspect_raw_image(disk: &[u8]) -> (r: GuestOs)
    ensures
        r == os_of_disk(disk@),
{
    let mut inspection: Inspection = Inspection::new();
    loop
        invariant
            inspection.conclusion(disk@) == os_of_disk(disk@),
        decreases inspection.reads_left().0, inspection.reads_left().1,
    {
        match inspection.request() {
            Some(request) => {
                let data: Vec<u8> = read_at(disk, request.offset, request.len);
                inspection = inspection.advance(data);
            },
            None => {
                return match inspection.result() {
                    Some(os) => os,
                    None => GuestOs::Unknown,
                };
            },
        }
    }
}

/// A byte in two hexadecimal digits.
pub open spec fn hex_byte(b: u8) -> Seq<char> {
    seq![hex_digit((b / 16) as int), hex_digit((b % 16) as int)]
}

/// A hexadecimal digit.
pub open spec fn hex_digit(d: int) -> char {
    "0123456789abcdef"@[d]
}

fn hex_text(b: u8) -> (r: String)
    ensures
        r@ == hex_byte(b),
{
    let digits: Vec<char> = chars_of("0123456789abcdef");
    proof {
        reveal_strlit("0123456789abcdef");
    }
    let mut out: String = String::new();
    out.push(digits[(b / 16) as usize]);
    out.push(digits[(b % 16) as usize]);
    assert(out@ =~= hex_byte(b));
    out
}

/// Bytes in hexadecimal digits, as a list.
pub open spec fn hex_list(bytes: Seq<u8>) -> Seq<char>
    decreases bytes.len(),
{
    if bytes.len() == 0 {
        Seq::empty()
    } else if bytes.len() == 1 {
        hex_byte(bytes[0])
    } else {
        hex_list(bytes.drop_last()) + ", "@ + hex_byte(bytes.last())
    }
}

/// Whether four bytes are the magic that every qcow2 file starts with.
pub open spec fn is_qcow2_magic(magic: Seq<u8>) -> bool {
    magic == seq![0x51u8, 0x46u8, 0x49u8, 0xFBu8]
}

/// Verify that the first four bytes of a disk image are the qcow2 magic.
///
/// * `disk_path` - The path to the disk image to verify
/// * `magic` - The first four bytes of the disk image
pub fn verify_qcow2_magic(disk_path: &str, magic: &[u8]) -> (r: Result<(), Error>)
    requires
        magic@.len() == 4,
    ensures
        r is Ok <==> is_qcow2_magic(magic@),
        r matches Err(e) ==> e@ == ErrorView::OsDetect(
            "Disk image '"@ + disk_path@ + "' is not a qcow2 image (bad magic: ["@ + hex_list(
                magic@,
            ) + "])"@,
        ),
{
    if magic[0] == 0x51 && magic[1] == 0x46 && magic[2] == 0x49 && magic[3] == 0xFB {
        assert(magic@ =~= seq![0x51u8, 0x46u8, 0x49u8, 0xFBu8]);
        return Ok(());
    }
    let mut list: String = hex_text(magic[0]);
    assert(magic@.take(1)[0] == magic@[0]);
    for i in 1..magic.len()
        invariant
            magic@.len() == 4,
            list@ == hex_list(magic@.take(i as int)),
    {
        list.push_str(", ");
        let digits: String = hex_text(magic[i]);
        list.push_str(digits.as_str());
        assert(magic@.take(i + 1).drop_last() =~= magic@.take(i as int));
    }
    assert(magic@.take(4) =~= magic@);
    Err(
        Error::OsDetect(
            join5(
                "Disk image '",
                disk_path,
                "' is not a qcow2 image (bad magic: [",
                list.as_str(),
                "])",
            ),
        ),
    )
}

/// The arguments with which `qemu-img` converts a qcow2 image to a raw one.
pub fn convert_args(qcow2_path: &str, raw_path: &str) -> (r: Vec<String>)
    ensures
        r@.len() == 5,
        r@[0]@ == "convert"@,
        r@[1]@ == "-O"@,
        r@[2]@ == "raw"@,
        r@[3]@ == qcow2_path@,
        r@[4]@ == raw_path@,
{
    vec![
        to_owned("convert"),
        to_owned("-O"),
        to_owned("raw"),
        to_owned(qcow2_path),
        to_owned(raw_path),
    ]
}

/// What came of the conversion of a qcow2 image to a raw one.
///
/// * `qcow2_path` - The path to the source qcow2 image
/// * `success` - Whether `qemu-img` succeeded
/// * `stderr` - What `qemu-img` wrote to its standard error
pub fn convert_qcow2_to_raw(qcow2_path: &str, success: bool, stderr: &[u8]) -> (r: Result<
    (),
    Error,
>)
    ensures
        r is Ok <==> success,
        r matches Err(e) ==> e@ == ErrorView::OsDetect(
            "qemu-img convert of '"@ + qcow2_path@ + "' failed: "@ + trimmed(utf8_lossy(stderr@)),
        ),
{
    if success {
        return Ok(());
    }
    let text: String = text_from_utf8_lossy(stderr);
    let reason: String = trim(text.as_str());
    let start: String = join3("qemu-img convert of '", qcow2_path, "' failed: ");
    Err(Error::OsDetect(crate::text::join2(start.as_str(), reason.as_str())))
}

} // verus!
