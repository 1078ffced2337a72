//! Telling the operating system of a guest from its disk image.

use vstd::prelude::*;

use crate::encoding::utf8_lossy;
use crate::error::{Error, ErrorView};
use crate::os_detector::{
    convert_args,
    convert_qcow2_to_raw,
    filesystem_of,
    first_signal,
    gpt_offsets,
    gpt_offsets_among,
    gpt_partition_offsets,
    gpt_table,
    gpt_table_of,
    hex_byte,
    hex_list,
    identify_filesystem,
    inspect_raw_image,
    le_u32,
    le_u64,
    lvm_label_in,
    mbr_offsets_among,
    mbr_partition_offsets,
    read_of,
    stands_at,
    verify_qcow2_magic,
    GptTable,
    GuestOs,
    Inspection,
    ReadRequest,
};
use crate::text::trimmed;

verus! {

/// The numbers in a partition table have their lowest byte first.
pub proof fn law_numbers_have_the_lowest_byte_first(data: Seq<u8>, at: int)
    requires
        0 <= at,
        at + 8 <= data.len(),
    ensures
        le_u32(data, at) as int == data[at] + 256 * data[at + 1] + 65_536 * data[at + 2]
            + 16_777_216 * data[at + 3],
        le_u64(data, at) as int == data[at] + 256 * data[at + 1] + 65_536 * data[at + 2]
            + 16_777_216 * data[at + 3] + 4_294_967_296 * data[at + 4] + 1_099_511_627_776
            * data[at + 5] + 281_474_976_710_656 * data[at + 6] + 72_057_594_037_927_936 * data[at
            + 7],
{
}

/// Whether bytes stand in the data at an offset.
pub open spec fn holds_at(data: Seq<u8>, at: int, bytes: Seq<u8>) -> bool {
    at + bytes.len() <= data.len() && data.subrange(at, at + bytes.len()) == bytes
}

/// The characters of a text, a byte each, stand where their bytes stand.
proof fn lemma_text_is_bytes(data: Seq<u8>, at: int, text: Seq<char>, bytes: Seq<u8>)
    requires
        0 <= at,
        text.len() == bytes.len(),
        forall|i: int| 0 <= i < text.len() ==> (#[trigger] text[i]) as int == bytes[i] as int,
    ensures
        stands_at(data, at, text) == holds_at(data, at, bytes),
{
    if stands_at(data, at, text) {
        assert forall|i: int| 0 <= i < bytes.len() implies data.subrange(
            at,
            at + bytes.len(),
        )[i] == bytes[i] by {
            assert(data[at + i] as int == text[i] as int);
        }
        assert(data.subrange(at, at + bytes.len()) =~= bytes);
    }
    if holds_at(data, at, bytes) {
        assert forall|i: int| 0 <= i < text.len() implies data[at + i] as int == (
        #[trigger] text[i]) as int by {
            assert(data.subrange(at, at + bytes.len())[i] == bytes[i]);
        }
    }
}

/// Windows is told by the marks of NTFS and ReFS, and by nothing else.
pub proof fn law_windows_is_told_by_its_filesystems(
    data: &[u8],
    found: Result<Option<GuestOs>, Error>,
)
    requires
        call_ensures(identify_filesystem, (data,), found),
    ensures
        found is Ok,
        found->Ok_0 == Some(GuestOs::Windows) <==> {
            // "NTFS    "
            ||| holds_at(data@, 3, seq![0x4E, 0x54, 0x46, 0x53, 0x20, 0x20, 0x20, 0x20])
            // "ReFS" and "FSRS"
            ||| holds_at(data@, 3, seq![0x52, 0x65, 0x46, 0x53, 0, 0, 0, 0]) && holds_at(
                data@,
                16,
                seq![0x46, 0x53, 0x52, 0x53],
            )
        },
{
    reveal_strlit("NTFS    ");
    reveal_strlit("ReFS\0\0\0\0");
    reveal_strlit("FSRS");
    lemma_text_is_bytes(
        data@,
        3,
        "NTFS    "@,
        seq![0x4E, 0x54, 0x46, 0x53, 0x20, 0x20, 0x20, 0x20],
    );
    lemma_text_is_bytes(data@, 3, "ReFS\0\0\0\0"@, seq![0x52, 0x65, 0x46, 0x53, 0, 0, 0, 0]);
    lemma_text_is_bytes(data@, 16, "FSRS"@, seq![0x46, 0x53, 0x52, 0x53]);
}

/// Whether the label of a physical volume of LVM2 stands at an offset.
pub open spec fn has_volume_label(data: Seq<u8>, at: int) -> bool {
    // "LABELONE" and, 24 bytes behind its start, "LVM2 001"
    holds_at(data, at, seq![0x4C, 0x41, 0x42, 0x45, 0x4C, 0x4F, 0x4E, 0x45]) && holds_at(
        data,
        at + 24,
        seq![0x4C, 0x56, 0x4D, 0x32, 0x20, 0x30, 0x30, 0x31],
    )
}

/// The label of a physical volume is looked for where the sector starts.
proof fn lemma_volume_label(data: Seq<u8>, sector: int)
    requires
        0 <= sector,
    ensures
        lvm_label_in(data, sector) == has_volume_label(data, 512 * sector),
{
    reveal_strlit("LABELONE");
    reveal_strlit("LVM2 001");
    lemma_text_is_bytes(
        data,
        512 * sector,
        "LABELONE"@,
        seq![0x4C, 0x41, 0x42, 0x45, 0x4C, 0x4F, 0x4E, 0x45],
    );
    lemma_text_is_bytes(
        data,
        512 * sector + 24,
        "LVM2 001"@,
        seq![0x4C, 0x56, 0x4D, 0x32, 0x20, 0x30, 0x30, 0x31],
    );
}

/// Linux is told by the marks of ext2/3/4, XFS, btrfs, LUKS, swap and LVM2, where no Windows
/// filesystem is.
pub proof fn law_linux_is_told_by_its_filesystems(
    data: &[u8],
    found: Result<Option<GuestOs>, Error>,
)
    requires
        call_ensures(identify_filesystem, (data,), found),
        found->Ok_0 != Some(GuestOs::Windows),
    ensures
        found->Ok_0 == Some(GuestOs::Linux) <==> {
            ||| holds_at(data@, 1080, seq![0x53, 0xEF])
            // "XFSB"
            ||| holds_at(data@, 0, seq![0x58, 0x46, 0x53, 0x42])
            // "_BHRfS_M"
            ||| holds_at(data@, 65_600, seq![0x5F, 0x42, 0x48, 0x52, 0x66, 0x53, 0x5F, 0x4D])
            // "LUKS"
            ||| holds_at(data@, 0, seq![0x4C, 0x55, 0x4B, 0x53, 0xBA, 0xBE])
            // "SWAPSPACE2"
            ||| holds_at(
                data@,
                4086,
                seq![0x53, 0x57, 0x41, 0x50, 0x53, 0x50, 0x41, 0x43, 0x45, 0x32],
            )
            // "SWAP-SPACE"
            ||| holds_at(
                data@,
                4086,
                seq![0x53, 0x57, 0x41, 0x50, 0x2D, 0x53, 0x50, 0x41, 0x43, 0x45],
            )
            ||| has_volume_label(data@, 0)
            ||| has_volume_label(data@, 512)
            ||| has_volume_label(data@, 1024)
            ||| has_volume_label(data@, 1536)
        },
        found->Ok_0 != Some(GuestOs::Unknown),
{
    let d = data@;
    reveal_strlit("XFSB");
    reveal_strlit("_BHRfS_M");
    reveal_strlit("LUKS");
    reveal_strlit("SWAPSPACE2");
    reveal_strlit("SWAP-SPACE");
    lemma_text_is_bytes(d, 0, "XFSB"@, seq![0x58, 0x46, 0x53, 0x42]);
    lemma_text_is_bytes(
        d,
        65_600,
        "_BHRfS_M"@,
        seq![0x5F, 0x42, 0x48, 0x52, 0x66, 0x53, 0x5F, 0x4D],
    );
    lemma_text_is_bytes(d, 0, "LUKS"@, seq![0x4C, 0x55, 0x4B, 0x53]);
    lemma_text_is_bytes(
        d,
        4086,
        "SWAPSPACE2"@,
        seq![0x53, 0x57, 0x41, 0x50, 0x53, 0x50, 0x41, 0x43, 0x45, 0x32],
    );
    lemma_text_is_bytes(
        d,
        4086,
        "SWAP-SPACE"@,
        seq![0x53, 0x57, 0x41, 0x50, 0x2D, 0x53, 0x50, 0x41, 0x43, 0x45],
    );
    let ext = seq![0x53u8, 0xEFu8];
    assert(holds_at(d, 1080, ext) <==> d.len() >= 1082 && d[1080] == 0x53 && d[1081] == 0xEF) by {
        if d.len() >= 1082 {
            let part = d.subrange(1080, 1082);
            assert(part[0] == d[1080] && part[1] == d[1081]);
            if d[1080] == 0x53 && d[1081] == 0xEF {
                assert(part =~= ext);
            }
        }
    }
    let luks = seq![0x4Cu8, 0x55u8, 0x4Bu8, 0x53u8, 0xBAu8, 0xBEu8];
    let text = seq![0x4Cu8, 0x55u8, 0x4Bu8, 0x53u8];
    assert(holds_at(d, 0, luks) <==> holds_at(d, 0, text) && d.len() >= 6 && d[4] == 0xBA && d[5]
        == 0xBE) by {
        if d.len() >= 6 {
            let part = d.subrange(0, 6);
            let start = d.subrange(0, 4);
            assert(forall|i: int| 0 <= i < 4 ==> start[i] == part[i]);
            assert(part[4] == d[4] && part[5] == d[5]);
            if holds_at(d, 0, luks) {
                assert(start =~= text);
            }
            if start == text && d[4] == 0xBA && d[5] == 0xBE {
                assert(part =~= luks);
            }
        }
    }
    lemma_volume_label(d, 0);
    lemma_volume_label(d, 1);
    lemma_volume_label(d, 2);
    lemma_volume_label(d, 3);
    assert(lvm_label_in(d, 0) || lvm_label_in(d, 1) || lvm_label_in(d, 2) || lvm_label_in(d, 3)
        <==> exists|sector: int| 0 <= sector < 4 && #[trigger] lvm_label_in(d, sector));
}

/// A GPT is read where its signature stands at the start of the header, and its entries are
/// between 1 and 1024 in number and between 128 and 4096 bytes in size.
pub proof fn law_the_header_of_a_gpt_says_where_its_entries_are(
    header: &[u8],
    table: Option<GptTable>,
)
    requires
        call_ensures(gpt_table, (header,), table),
    ensures
        table is Some <==> {
            &&& header@.len() >= 92
            // "EFI PART"
            &&& holds_at(header@, 0, seq![0x45, 0x46, 0x49, 0x20, 0x50, 0x41, 0x52, 0x54])
            &&& 1 <= le_u32(header@, 80) <= 1024
            &&& 128 <= le_u32(header@, 84) <= 4096
        },
        table matches Some(t) ==> {
            &&& t.lba == le_u64(header@, 72)
            &&& t.entries == le_u32(header@, 80)
            &&& t.entry_size == le_u32(header@, 84)
        },
{
    reveal_strlit("EFI PART");
    lemma_text_is_bytes(
        header@,
        0,
        "EFI PART"@,
        seq![0x45, 0x46, 0x49, 0x20, 0x50, 0x41, 0x52, 0x54],
    );
}

/// Whether an entry of a GPT stands in the array in full and is used: its first or its last
/// sector is not zero.
pub open spec fn is_used_entry(table: GptTable, array: Seq<u8>, i: int) -> bool {
    &&& i * table.entry_size + 48 <= array.len()
    &&& le_u64(array, i * table.entry_size + 32) != 0 || le_u64(array, i * table.entry_size + 40)
        != 0
}

/// The offset in bytes of the partition of an entry of a GPT, or the largest there is.
pub open spec fn entry_offset(table: GptTable, array: Seq<u8>, i: int) -> int {
    let start = le_u64(array, i * table.entry_size + 32);
    if start * 512 <= u64::MAX {
        start * 512
    } else {
        u64::MAX as int
    }
}

/// Whether places name the used ones among the first entries of a GPT, each once and in order.
pub open spec fn names_used_entries(
    table: GptTable,
    array: Seq<u8>,
    n: int,
    places: Seq<int>,
) -> bool {
    &&& forall|k: int|
        0 <= k < places.len() ==> 0 <= #[trigger] places[k] < n && is_used_entry(
            table,
            array,
            places[k],
        )
    &&& forall|j: int, k: int|
        0 <= j < k < places.len() ==> #[trigger] places[j] < #[trigger] places[k]
    &&& forall|i: int|
        0 <= i < n && #[trigger] is_used_entry(table, array, i) ==> places.contains(i)
}

/// Every used entry of a GPT gives the offset of its partition, in the order of the entries,
/// and no other entry gives one.
pub proof fn law_every_used_entry_of_a_gpt_is_listed(
    table: GptTable,
    array: &[u8],
    offsets: Vec<u64>,
)
    requires
        call_ensures(gpt_partition_offsets, (table, array), offsets),
    ensures
        exists|places: Seq<int>|
            {
                &&& #[trigger] names_used_entries(table, array@, table.entries as int, places)
                &&& places.len() == offsets@.len()
                &&& forall|k: int|
                    0 <= k < places.len() ==> offsets@[k] == entry_offset(
                        table,
                        array@,
                        #[trigger] places[k],
                    )
            },
        forall|i: int|
            0 <= i < table.entries && #[trigger] is_used_entry(table, array@, i) ==> exists|k: int|
                0 <= k < offsets@.len() && #[trigger] offsets@[k] == entry_offset(
                    table,
                    array@,
                    i,
                ),
{
    let places = lemma_used_entries(table, array@, table.entries as nat);
    assert(names_used_entries(table, array@, table.entries as int, places));
    assert forall|i: int|
        0 <= i < table.entries && #[trigger] is_used_entry(table, array@, i) implies exists|
        k: int,
    |
        0 <= k < offsets@.len() && #[trigger] offsets@[k] == entry_offset(table, array@, i) by {
        let k = places.index_of(i);
        assert(places[k] == i);
        assert(offsets@[k] == entry_offset(table, array@, i));
    }
}

/// Where the used entries among the first `n` stand.
proof fn lemma_used_entries(table: GptTable, array: Seq<u8>, n: nat) -> (places: Seq<int>)
    ensures
        names_used_entries(table, array, n as int, places),
        places.len() == gpt_offsets_among(table, array, n).len(),
        forall|k: int|
            0 <= k < places.len() ==> gpt_offsets_among(table, array, n)[k] == entry_offset(
                table,
                array,
                #[trigger] places[k],
            ),
    decreases n,
{
    if n == 0 {
        Seq::empty()
    } else {
        let m = n - 1;
        let before = lemma_used_entries(table, array, m as nat);
        let places = if is_used_entry(table, array, m) {
            before.push(m)
        } else {
            before
        };
        assert forall|i: int|
            0 <= i < n && #[trigger] is_used_entry(table, array, i) implies places.contains(i) by {
            if i < m {
                assert(before.contains(i));
                let k = before.index_of(i);
                assert(places[k] == i);
            } else {
                assert(places[before.len() as int] == m);
            }
        }
        places
    }
}

/// Whether an entry of an MBR is a partition to look into: it is in use, does not protect a
/// GPT, starts behind the boot sector and is not empty.
pub open spec fn is_partition(boot_sector: Seq<u8>, i: int) -> bool {
    &&& boot_sector[450 + 16 * i] != 0x00
    &&& boot_sector[450 + 16 * i] != 0xEE
    &&& le_u32(boot_sector, 454 + 16 * i) != 0
    &&& le_u32(boot_sector, 458 + 16 * i) != 0
}

/// Whether places name the partitions among the first entries of an MBR, each once and in order.
pub open spec fn names_partitions(boot_sector: Seq<u8>, n: int, places: Seq<int>) -> bool {
    &&& forall|k: int|
        0 <= k < places.len() ==> 0 <= #[trigger] places[k] < n && is_partition(
            boot_sector,
            places[k],
        )
    &&& forall|j: int, k: int|
        0 <= j < k < places.len() ==> #[trigger] places[j] < #[trigger] places[k]
    &&& forall|i: int|
        0 <= i < n && #[trigger] is_partition(boot_sector, i) ==> places.contains(i)
}

/// Every partition among the four entries of an MBR is listed with its offset, in the order
/// of the entries, and no other. There are none without the signature of an MBR.
pub proof fn law_every_partition_of_an_mbr_is_listed(boot_sector: &[u8], offsets: Vec<u64>)
    requires
        call_ensures(mbr_partition_offsets, (boot_sector,), offsets),
    ensures
        boot_sector@.len() < 512 ==> offsets@.len() == 0,
        boot_sector@.len() >= 512 && !(boot_sector@[510] == 0x55 && boot_sector@[511] == 0xAA)
            ==> offsets@.len() == 0,
        boot_sector@.len() >= 512 && boot_sector@[510] == 0x55 && boot_sector@[511] == 0xAA
            ==> exists|places: Seq<int>|
            {
                &&& #[trigger] names_partitions(boot_sector@, 4, places)
                &&& places.len() == offsets@.len()
                &&& forall|k: int|
                    0 <= k < places.len() ==> offsets@[k] == 512 * le_u32(
                        boot_sector@,
                        454 + 16 * #[trigger] places[k],
                    )
            },
{
    let places = lemma_partitions(boot_sector@, 4);
    assert(names_partitions(boot_sector@, 4, places));
}

/// Where the partitions among the first `n` entries stand.
proof fn lemma_partitions(boot_sector: Seq<u8>, n: nat) -> (places: Seq<int>)
    ensures
        names_partitions(boot_sector, n as int, places),
        places.len() == mbr_offsets_among(boot_sector, n).len(),
        forall|k: int|
            0 <= k < places.len() ==> mbr_offsets_among(boot_sector, n)[k] == 512 * le_u32(
                boot_sector,
                454 + 16 * #[trigger] places[k],
            ),
    decreases n,
{
    if n == 0 {
        Seq::empty()
    } else {
        let m = n - 1;
        let before = lemma_partitions(boot_sector, m as nat);
        let places = if is_partition(boot_sector, m) {
            before.push(m)
        } else {
            before
        };
        assert forall|i: int|
            0 <= i < n && #[trigger] is_partition(boot_sector, i) implies places.contains(i) by {
            if i < m {
                assert(before.contains(i));
                let k = before.index_of(i);
                assert(places[k] == i);
            } else {
                assert(places[before.len() as int] == m);
            }
        }
        places
    }
}

/// The first 69632 bytes of a disk from an offset on, or what there is of them.
pub open spec fn start_of(disk: Seq<u8>, offset: int) -> Seq<u8> {
    Seq::new(
        if offset >= disk.len() {
            0
        } else if offset + 69_632 <= disk.len() {
            69_632
        } else {
            (disk.len() - offset) as nat
        },
        |i: int| disk[offset + i],
    )
}

/// What is read where a partition starts.
proof fn lemma_start_of(disk: Seq<u8>, offset: nat)
    ensures
        read_of(disk, offset, 69_632) == start_of(disk, offset as int),
{
    assert(read_of(disk, offset, 69_632) =~= start_of(disk, offset as int));
}

/// A read of a disk gives the bytes from the offset on, as many as were asked for or as there
/// are.
pub proof fn law_reads_give_what_is_there(disk: Seq<u8>, offset: nat, len: nat)
    ensures
        read_of(disk, offset, len).len() <= len,
        offset + len <= disk.len() ==> read_of(disk, offset, len).len() == len,
        offset <= disk.len() < offset + len ==> read_of(disk, offset, len).len() == disk.len()
            - offset,
        offset >= disk.len() ==> read_of(disk, offset, len).len() == 0,
        forall|i: int|
            0 <= i < read_of(disk, offset, len).len() ==> #[trigger] read_of(
                disk,
                offset,
                len,
            )[i] == disk[offset + i],
{
}

/// A filesystem on the disk itself settles the operating system.
pub proof fn law_a_disk_without_partitions_is_told_by_its_start(
    disk: &[u8],
    head: &[u8],
    found: Result<Option<GuestOs>, Error>,
    os: GuestOs,
)
    requires
        head@ == start_of(disk@, 0),
        call_ensures(identify_filesystem, (head,), found),
        call_ensures(inspect_raw_image, (disk,), os),
    ensures
        found->Ok_0 matches Some(told) ==> os == told,
{
    lemma_start_of(disk@, 0);
}

/// The first partition that tells is the one that counts.
proof fn lemma_first_signal(disk: Seq<u8>, offsets: Seq<u64>, i: nat, k: nat)
    requires
        i <= k < offsets.len(),
        forall|j: int|
            i <= j < k ==> filesystem_of(start_of(disk, #[trigger] offsets[j] as int)) is None,
        filesystem_of(start_of(disk, offsets[k as int] as int)) is Some,
    ensures
        first_signal(disk, offsets, i) == filesystem_of(
            start_of(disk, offsets[k as int] as int),
        ),
    decreases k - i,
{
    lemma_start_of(disk, offsets[i as int] as nat);
    if i < k {
        assert(filesystem_of(start_of(disk, offsets[i as int] as int)) is None);
        lemma_first_signal(disk, offsets, i + 1, k);
    }
}

/// Where no partition tells, there is nothing to go by.
proof fn lemma_no_signal(disk: Seq<u8>, offsets: Seq<u64>, i: nat)
    requires
        forall|j: int|
            i <= j < offsets.len() ==> filesystem_of(
                start_of(disk, #[trigger] offsets[j] as int),
            ) is None,
    ensures
        first_signal(disk, offsets, i) is None,
    decreases offsets.len() - i,
{
    if i < offsets.len() {
        lemma_start_of(disk, offsets[i as int] as nat);
        assert(filesystem_of(start_of(disk, offsets[i as int] as int)) is None);
        lemma_no_signal(disk, offsets, i + 1);
    }
}

/// Where the entries of a disk's GPT stand: the array that its header points at.
pub open spec fn entries_on(disk: Seq<u8>, table: GptTable) -> Seq<u8> {
    read_of(
        disk,
        if table.lba * 512 <= u64::MAX {
            (table.lba * 512) as nat
        } else {
            u64::MAX as nat
        },
        (table.entries * table.entry_size) as nat,
    )
}

/// All used entries of a GPT are looked into, in their order: the first whose partition has a
/// filesystem that tells something settles the operating system. Partitions that tell nothing,
/// such as the EFI System Partition, are passed over.
pub proof fn law_the_first_partition_that_tells_settles_it(
    disk: &[u8],
    table: GptTable,
    i: int,
    os: GuestOs,
)
    requires
        call_ensures(inspect_raw_image, (disk,), os),
        filesystem_of(start_of(disk@, 0)) is None,
        gpt_table_of(read_of(disk@, 512, 512)) == Some(table),
        0 <= i < table.entries,
        is_used_entry(table, entries_on(disk@, table), i),
        filesystem_of(
            start_of(disk@, entry_offset(table, entries_on(disk@, table), i)),
        ) is Some,
        forall|j: int|
            0 <= j < i && #[trigger] is_used_entry(table, entries_on(disk@, table), j)
                ==> filesystem_of(
                start_of(disk@, entry_offset(table, entries_on(disk@, table), j)),
            ) is None,
    ensures
        Some(os) == filesystem_of(
            start_of(disk@, entry_offset(table, entries_on(disk@, table), i)),
        ),
{
    let array = entries_on(disk@, table);
    let offsets = gpt_offsets(table, array);
    let places = lemma_used_entries(table, array, table.entries as nat);
    lemma_start_of(disk@, 0);
    let k = places.index_of(i);
    assert(places[k] == i);
    assert forall|j: int| 0 <= j < k implies filesystem_of(
        start_of(disk@, #[trigger] offsets[j] as int),
    ) is None by {
        assert(places[j] < places[k]);
        assert(is_used_entry(table, array, places[j]));
    }
    lemma_first_signal(disk@, offsets, 0, k as nat);
}

/// Where the GPT tells nothing, or there is none, the first partition of the MBR that tells
/// something settles the operating system. Where there is none either, it is unknown.
pub proof fn law_the_mbr_comes_behind_the_gpt(
    disk: &[u8],
    head: &[u8],
    offsets: Vec<u64>,
    os: GuestOs,
)
    requires
        call_ensures(inspect_raw_image, (disk,), os),
        head@ == start_of(disk@, 0),
        filesystem_of(head@) is None,
        call_ensures(mbr_partition_offsets, (head,), offsets),
        match gpt_table_of(read_of(disk@, 512, 512)) {
            None => true,
            Some(table) => forall|i: int|
                0 <= i < table.entries && #[trigger] is_used_entry(
                    table,
                    entries_on(disk@, table),
                    i,
                ) ==> filesystem_of(
                    start_of(disk@, entry_offset(table, entries_on(disk@, table), i)),
                ) is None,
        },
    ensures
        forall|k: int|
            0 <= k < offsets@.len() && filesystem_of(
                start_of(disk@, #[trigger] offsets@[k] as int),
            ) is Some && (forall|j: int|
                0 <= j < k ==> filesystem_of(
                    start_of(disk@, #[trigger] offsets@[j] as int),
                ) is None) ==> Some(os) == filesystem_of(start_of(disk@, offsets@[k] as int)),
        (forall|k: int|
            0 <= k < offsets@.len() ==> filesystem_of(
                start_of(disk@, #[trigger] offsets@[k] as int),
            ) is None) ==> os == GuestOs::Unknown,
{
    lemma_start_of(disk@, 0);
    if let Some(table) = gpt_table_of(read_of(disk@, 512, 512)) {
        let array = entries_on(disk@, table);
        let listed = gpt_offsets(table, array);
        let places = lemma_used_entries(table, array, table.entries as nat);
        assert forall|j: int| 0 <= j < listed.len() implies filesystem_of(
            start_of(disk@, #[trigger] listed[j] as int),
        ) is None by {
                assert(is_used_entry(table, array, places[j]));
        }
        lemma_no_signal(disk@, listed, 0);
    }
    assert forall|k: int|
        0 <= k < offsets@.len() && filesystem_of(
            start_of(disk@, #[trigger] offsets@[k] as int),
        ) is Some && (forall|j: int|
            0 <= j < k ==> filesystem_of(
                start_of(disk@, #[trigger] offsets@[j] as int),
            ) is None) implies Some(os) == filesystem_of(
        start_of(disk@, offsets@[k] as int),
    ) by {
        lemma_first_signal(disk@, offsets@, 0, k as nat);
    }
    if forall|k: int|
        0 <= k < offsets@.len() ==> filesystem_of(
            start_of(disk@, #[trigger] offsets@[k] as int),
        ) is None {
        lemma_no_signal(disk@, offsets@, 0);
    }
}

/// An inspection starts at the start of the disk, and is never done without having been told
/// to read: what it settles on in the end is what the whole disk tells.
pub proof fn law_inspections_settle_what_the_disk_tells(
    disk: &[u8],
    inspection: Inspection,
    request: Option<ReadRequest>,
    data: Vec<u8>,
    next: Inspection,
    settled: Option<GuestOs>,
    os: GuestOs,
)
    requires
        call_ensures(inspect_raw_image, (disk,), os),
        call_ensures(Inspection::new, (), inspection) || inspection.conclusion(disk@) == os,
        call_ensures(Inspection::request, (&inspection,), request),
        request matches Some(wanted) ==> data@ == read_of(
            disk@,
            wanted.offset as nat,
            wanted.len as nat,
        ),
        call_ensures(Inspection::advance, (inspection, data), next),
        call_ensures(Inspection::result, (&next,), settled),
    ensures
        call_ensures(Inspection::new, (), inspection) ==> request == Some(
            (ReadRequest { offset: 0, len: 69_632 }),
        ),
        next.conclusion(disk@) == os,
        settled matches Some(told) ==> told == os,
        settled is Some <==> next.stage() is Done,
{
}

/// A byte is written in two digits, the higher one first.
pub proof fn law_bytes_are_written_in_two_digits(b: u8)
    ensures
        hex_byte(b).len() == 2,
        b < 160 ==> hex_byte(b)[0] as int == '0' as int + b / 16,
        b >= 160 ==> hex_byte(b)[0] as int == 'a' as int + (b / 16 - 10),
        b % 16 < 10 ==> hex_byte(b)[1] as int == '0' as int + b % 16,
        b % 16 >= 10 ==> hex_byte(b)[1] as int == 'a' as int + (b % 16 - 10),
{
    reveal_strlit("0123456789abcdef");
}

/// Only an image that starts with "QFI" and 0xFB is taken for a qcow2 image. The error for
/// another one names the image and the bytes.
pub proof fn law_only_qcow2_images_are_converted(path: &str, magic: &[u8], r: Result<(), Error>)
    requires
        magic@.len() == 4,
        call_ensures(verify_qcow2_magic, (path, magic), r),
    ensures
        r is Ok <==> magic@[0] == 0x51 && magic@[1] == 0x46 && magic@[2] == 0x49 && magic@[3]
            == 0xFB,
        r matches Err(e) ==> e@ == ErrorView::OsDetect(
            "Disk image '"@ + path@ + "' is not a qcow2 image (bad magic: ["@ + (hex_byte(magic@[0])
                + ", "@ + hex_byte(magic@[1]) + ", "@ + hex_byte(magic@[2]) + ", "@ + hex_byte(
                magic@[3],
            )) + "])"@,
        ),
{
    let m = magic@;
    let qcow2 = seq![0x51u8, 0x46u8, 0x49u8, 0xFBu8];
    if m[0] == 0x51 && m[1] == 0x46 && m[2] == 0x49 && m[3] == 0xFB {
        assert(m =~= qcow2);
    }
    assert(m == qcow2 ==> m[0] == 0x51 && m[1] == 0x46 && m[2] == 0x49 && m[3] == 0xFB);
    reveal_with_fuel(hex_list, 5);
    assert(m.drop_last().drop_last().drop_last()[0] == m[0]);
    assert(m.drop_last().drop_last().last() == m[1]);
    assert(m.drop_last().last() == m[2]);
    assert(m.last() == m[3]);
    assert(hex_list(m) =~= hex_byte(m[0]) + ", "@ + hex_byte(m[1]) + ", "@ + hex_byte(m[2]) + ", "@
        + hex_byte(m[3]));
}

/// An image is converted from the qcow2 image to the raw one, and the conversion fails exactly
/// where `qemu-img` does, with what that wrote.
pub proof fn law_images_are_converted_to_raw(
    qcow2_path: &str,
    raw_path: &str,
    args: Vec<String>,
    success: bool,
    stderr: &[u8],
    r: Result<(), Error>,
)
    requires
        call_ensures(convert_args, (qcow2_path, raw_path), args),
        call_ensures(convert_qcow2_to_raw, (qcow2_path, success, stderr), r),
    ensures
        args@.len() == 5,
        args@[0]@ == "convert"@ && args@[1]@ == "-O"@ && args@[2]@ == "raw"@,
        args@[3]@ == qcow2_path@ && args@[4]@ == raw_path@,
        r is Ok <==> success,
        r matches Err(e) ==> e@ == ErrorView::OsDetect(
            "qemu-img convert of '"@ + qcow2_path@ + "' failed: "@ + trimmed(utf8_lossy(stderr@)),
        ),
{
}

} // verus!
