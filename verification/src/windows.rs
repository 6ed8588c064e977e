//! What the Windows drive enumeration decides from the answers of the
//! system: the names it gives to bus types and enumerators, which volumes
//! are mounted from a disk, how the device number of a volume is settled,
//! and how the description of a disk is filled in, step by step, from the
//! answers of the setup and I/O control interfaces.
//!
//! Each answer arrives here as plain values; asking for it is left to the
//! caller.

use vstd::prelude::*;

use crate::device::{opt_text, DeviceDescriptor, MountPoint};
use crate::text::{
    decimal_digits, decimal_string, has_substring, is_white_space, text_contains, text_eq,
    trim_chars,
};
use core::str::Utf8Error;

verus! {

/// The error that `core::str::from_utf8` reports for invalid UTF-8.
#[verifier::external_type_specification]
#[verifier::external_body]
pub struct ExUtf8Error(Utf8Error);

/// `core::str::from_utf8` accepts exactly the valid UTF-8 byte sequences
/// and then yields the characters they encode.
pub assume_specification<'a>[ core::str::from_utf8 ](v: &'a [u8]) -> (r: Result<&'a str, Utf8Error>)
    ensures
        r is Ok <==> vstd::utf8::valid_utf8(v@),
        r matches Ok(s) ==> s@ == vstd::utf8::decode_utf8(v@),
;

pub const BUS_TYPE_UNKNOWN: u32 = 0;
pub const BUS_TYPE_SCSI: u32 = 1;
pub const BUS_TYPE_ATAPI: u32 = 2;
pub const BUS_TYPE_ATA: u32 = 3;
pub const BUS_TYPE1394: u32 = 4;
pub const BUS_TYPE_SSA: u32 = 5;
pub const BUS_TYPE_FIBRE: u32 = 6;
pub const BUS_TYPE_USB: u32 = 7;
pub const BUS_TYPE_RAID: u32 = 8;
pub const BUS_TYPEI_SCSI: u32 = 9;
pub const BUS_TYPE_SAS: u32 = 10;
pub const BUS_TYPE_SATA: u32 = 11;
pub const BUS_TYPE_SD: u32 = 12;
pub const BUS_TYPE_MMC: u32 = 13;
pub const BUS_TYPE_VIRTUAL: u32 = 14;
pub const BUS_TYPE_FILE_BACKED_VIRTUAL: u32 = 15;
pub const BUS_TYPE_NVME: u32 = 17;
pub const BUS_TYPE_SCM: u32 = 18;
pub const BUS_TYPE_UFS: u32 = 19;

/// `CM_REMOVAL_POLICY_EXPECT_ORDERLY_REMOVAL`
pub const REMOVAL_POLICY_EXPECT_ORDERLY_REMOVAL: u32 = 2;
/// `CM_REMOVAL_POLICY_EXPECT_SURPRISE_REMOVAL`
pub const REMOVAL_POLICY_EXPECT_SURPRISE_REMOVAL: u32 = 3;

/// `DRIVE_REMOVABLE`, as `GetDriveType` reports it.
pub const DRIVE_REMOVABLE: u32 = 2;
/// `DRIVE_FIXED`, as `GetDriveType` reports it.
pub const DRIVE_FIXED: u32 = 3;

/// `PARTITION_STYLE_MBR`
pub const PARTITION_STYLE_MBR: u32 = 0;
/// `PARTITION_STYLE_GPT`
pub const PARTITION_STYLE_GPT: u32 = 1;

/// What the storage adapter query reports of the bus of a disk.
#[derive(Debug, Clone, Copy)]
pub struct StorageAdapterDescriptor {
    pub bus_type: u8,
    pub bus_major_version: u16,
    pub bus_minor_version: u16,
}

/// The name of a bus type code.
pub open spec fn bus_type_name(code: int) -> Seq<char> {
    if code == 0 {
        "UNKNOWN"@
    } else if code == 1 {
        "SCSI"@
    } else if code == 2 {
        "ATAPI"@
    } else if code == 3 {
        "ATA"@
    } else if code == 4 {
        "1394"@
    } else if code == 5 {
        "SSA"@
    } else if code == 6 {
        "FIBRE"@
    } else if code == 7 {
        "USB"@
    } else if code == 8 {
        "RAID"@
    } else if code == 9 {
        "iSCSI"@
    } else if code == 10 {
        "SAS"@
    } else if code == 11 {
        "SATA"@
    } else if code == 12 {
        "SDCARD"@
    } else if code == 13 {
        "MMC"@
    } else if code == 14 {
        "VIRTUAL"@
    } else if code == 15 {
        "FILEBACKEDVIRTUAL"@
    } else if code == 17 {
        "NVME"@
    } else if code == 19 {
        "UFS"@
    } else if code == 18 {
        "SCM"@
    } else {
        "INVALID"@
    }
}

/// The name of the bus that the adapter reports.
pub fn get_bus_type(adapter: &StorageAdapterDescriptor) -> (r: String)
    ensures
        r@ == bus_type_name(adapter.bus_type as int),
{
    let code: u32 = adapter.bus_type as u32;
    let name: &str = if code == BUS_TYPE_UNKNOWN {
        "UNKNOWN"
    } else if code == BUS_TYPE_SCSI {
        "SCSI"
    } else if code == BUS_TYPE_ATAPI {
        "ATAPI"
    } else if code == BUS_TYPE_ATA {
        "ATA"
    } else if code == BUS_TYPE1394 {
        "1394"
    } else if code == BUS_TYPE_SSA {
        "SSA"
    } else if code == BUS_TYPE_FIBRE {
        "FIBRE"
    } else if code == BUS_TYPE_USB {
        "USB"
    } else if code == BUS_TYPE_RAID {
        "RAID"
    } else if code == BUS_TYPEI_SCSI {
        "iSCSI"
    } else if code == BUS_TYPE_SAS {
        "SAS"
    } else if code == BUS_TYPE_SATA {
        "SATA"
    } else if code == BUS_TYPE_SD {
        "SDCARD"
    } else if code == BUS_TYPE_MMC {
        "MMC"
    } else if code == BUS_TYPE_VIRTUAL {
        "VIRTUAL"
    } else if code == BUS_TYPE_FILE_BACKED_VIRTUAL {
        "FILEBACKEDVIRTUAL"
    } else if code == BUS_TYPE_NVME {
        "NVME"
    } else if code == BUS_TYPE_UFS {
        "UFS"
    } else if code == BUS_TYPE_SCM {
        "SCM"
    } else {
        "INVALID"
    };
    name.to_owned()
}

/// The enumerators of USB mass storage drivers.
pub open spec fn is_usb_enumerator(name: Seq<char>) -> bool {
    ||| name == "USBSTOR"@
    ||| name == "UASPSTOR"@
    ||| name == "VUSBSTOR"@
    ||| name == "RTUSER"@
    ||| name == "CMIUCR"@
    ||| name == "EUCR"@
    ||| name == "ETRONSTOR"@
    ||| name == "ASUSSTPT"@
}

/// Whether a device with this enumerator is attached over USB.
pub fn is_usb_drive(enumerator_name: &str) -> (r: bool)
    ensures
        r == is_usb_enumerator(enumerator_name@),
        r <==> (enumerator_name@ == "USBSTOR"@ || enumerator_name@ == "UASPSTOR"@
            || enumerator_name@ == "VUSBSTOR"@ || enumerator_name@ == "RTUSER"@
            || enumerator_name@ == "CMIUCR"@ || enumerator_name@ == "EUCR"@
            || enumerator_name@ == "ETRONSTOR"@ || enumerator_name@ == "ASUSSTPT"@),
{
    text_eq(enumerator_name, "USBSTOR") || text_eq(enumerator_name, "UASPSTOR") || text_eq(
        enumerator_name,
        "VUSBSTOR",
    ) || text_eq(enumerator_name, "RTUSER") || text_eq(enumerator_name, "CMIUCR") || text_eq(
        enumerator_name,
        "EUCR",
    ) || text_eq(enumerator_name, "ETRONSTOR") || text_eq(enumerator_name, "ASUSSTPT")
}

/// Whether a device with this removal policy can be removed while the
/// system runs: orderly or surprise removal is expected.
pub fn is_removable(removal_policy: u8) -> (r: bool)
    ensures
        r == (removal_policy == REMOVAL_POLICY_EXPECT_ORDERLY_REMOVAL
            || removal_policy == REMOVAL_POLICY_EXPECT_SURPRISE_REMOVAL),
{
    let policy: u32 = removal_policy as u32;
    policy == REMOVAL_POLICY_EXPECT_SURPRISE_REMOVAL || policy
        == REMOVAL_POLICY_EXPECT_ORDERLY_REMOVAL
}

/// The letter of drive number `i` (0 is `A`).
pub open spec fn drive_letter(i: int) -> char {
    (65 + i) as char
}

/// The drive number of a drive letter.
pub open spec fn drive_index(c: char) -> int {
    c as int - 65
}

/// Drive number `i` is present in the mask of logical drives.
pub open spec fn mask_has_drive(mask: u32, i: int) -> bool {
    0 <= i < 32 && (mask >> (i as u32)) & 1u32 == 1u32
}

/// The letters of the logical drives present in `logical_drive_mask`, in
/// alphabetical order: bit `i` stands for the letter `'A' + i`.
pub fn get_available_volumes(logical_drive_mask: u32) -> (r: Vec<char>)
    ensures
        forall|j: int|
            0 <= j < r@.len() ==> mask_has_drive(logical_drive_mask, drive_index(#[trigger] r@[j]))
                && r@[j] == drive_letter(drive_index(r@[j])),
        forall|i: int| mask_has_drive(logical_drive_mask, i) ==> r@.contains(drive_letter(i)),
        forall|a: int, b: int| 0 <= a < b < r@.len() ==> (r@[a] as u32) < (r@[b] as u32),
{
    let mut mask: u32 = logical_drive_mask;
    let mut letter: u8 = 65;
    let mut letters: Vec<char> = Vec::new();
    let ghost mut k: u32 = 0;
    assert(logical_drive_mask >> 0u32 == logical_drive_mask) by (bit_vector);
    while mask != 0
        invariant
            k <= 32,
            k < 32 ==> mask == logical_drive_mask >> k,
            k == 32 ==> mask == 0,
            letter == 65 + k,
            forall|j: int|
                0 <= j < letters@.len() ==> mask_has_drive(
                    logical_drive_mask,
                    drive_index(#[trigger] letters@[j]),
                ) && letters@[j] == drive_letter(drive_index(letters@[j])),
            forall|i: int|
                0 <= i < k && mask_has_drive(logical_drive_mask, i) ==> letters@.contains(
                    drive_letter(i),
                ),
            forall|a: int, b: int|
                0 <= a < b < letters@.len() ==> (letters@[a] as u32) < (letters@[b] as u32),
            forall|j: int| 0 <= j < letters@.len() ==> (letters@[j] as u32) < 65 + k,
        decreases mask,
    {
        assert(k < 32);
        let ghost before = letters@;
        if mask & 1 != 0 {
            assert(mask_has_drive(logical_drive_mask, k as int)) by {
                assert((logical_drive_mask >> k) & 1u32 != 0u32 ==> (logical_drive_mask >> k)
                    & 1u32 == 1u32) by (bit_vector);
            }
            letters.push(letter as char);
            assert(letters@.last() == drive_letter(k as int));
            assert(drive_index(letters@.last()) == k);
            assert forall|i: int|
                0 <= i < k + 1 && mask_has_drive(logical_drive_mask, i) implies letters@.contains(
                drive_letter(i),
            ) by {
                if i < k {
                    let w = choose|w: int| 0 <= w < before.len() && before[w] == drive_letter(i);
                    assert(letters@[w] == drive_letter(i));
                } else {
                    assert(letters@[letters@.len() - 1] == drive_letter(i));
                }
            }
        } else {
            assert(!mask_has_drive(logical_drive_mask, k as int)) by {
                assert((logical_drive_mask >> k) & 1u32 == 0u32 ==> (logical_drive_mask >> k)
                    & 1u32 != 1u32) by (bit_vector);
            }
        }
        assert(mask != 0 ==> mask >> 1u32 < mask) by (bit_vector);
        mask = mask >> 1;
        letter = letter + 1;
        proof {
            assert(k < 32 ==> (logical_drive_mask >> k) >> 1u32 == logical_drive_mask >> ((k
                + 1) as u32)) by (bit_vector);
            if k == 31 {
                assert((logical_drive_mask >> 31u32) >> 1u32 == 0u32) by (bit_vector);
            }
            k = (k + 1) as u32;
        }
    }
    proof {
        assert forall|i: int| k <= i < 32 implies !mask_has_drive(logical_drive_mask, i) by {
            let iu = i as u32;
            assert(k < 32 ==> (logical_drive_mask >> k) == 0u32 ==> k <= iu ==> iu < 32 ==> (
            logical_drive_mask >> iu) & 1u32 == 0u32) by (bit_vector);
        }
    }
    letters
}

/// The drive type says the volume is on a fixed or a removable disk.
pub fn is_fixed_or_removable(drive_type: u32) -> (r: bool)
    ensures
        r == (drive_type == DRIVE_FIXED || drive_type == DRIVE_REMOVABLE),
{
    drive_type == DRIVE_FIXED || drive_type == DRIVE_REMOVABLE
}

/// The root directory of the drive with this letter, such as `C:\`.
pub open spec fn volume_root_text(letter: char) -> Seq<char> {
    seq![letter, ':', '\\']
}

/// The root directory of the drive with this letter.
pub fn volume_root(letter: char) -> (r: String)
    ensures
        r@ == volume_root_text(letter),
{
    let mut r = String::new();
    r.push(letter);
    r.push(':');
    r.push('\\');
    assert(r@ =~= volume_root_text(letter));
    r
}

/// What was learnt of one logical volume: its letter, its drive type, the
/// number of the disk that holds it where it could be opened, and its total
/// and available bytes where the free space query answered.
#[derive(Debug, Clone, Copy)]
pub struct VolumeProbe {
    pub letter: char,
    pub drive_type: u32,
    pub device_number: Option<i32>,
    pub total_bytes: Option<u64>,
    pub available_bytes: Option<u64>,
}

/// `m` is the mount point of volume `v`: its root, no label, and the sizes
/// that were learnt of the volume.
pub open spec fn mounted_from(m: MountPoint, v: VolumeProbe) -> bool {
    &&& m.path@ == volume_root_text(v.letter)
    &&& m.label is None
    &&& m.totalBytes == v.total_bytes
    &&& m.availableBytes == v.available_bytes
}

/// The volume lies on a fixed or removable disk whose number is `device_number`.
pub open spec fn volume_on_device(v: VolumeProbe, device_number: i32) -> bool {
    &&& (v.drive_type == DRIVE_FIXED || v.drive_type == DRIVE_REMOVABLE)
    &&& v.device_number matches Some(n) && n >= 0 && n == device_number
}

/// The probed volumes that lie on disk `device_number`, in order.
pub open spec fn volumes_on_device(volumes: Seq<VolumeProbe>, device_number: i32) -> Seq<VolumeProbe> {
    volumes.filter(|v: VolumeProbe| volume_on_device(v, device_number))
}

/// Appends to `mount_points` the root of every probed volume that lies on
/// disk `device_number`, in the order of the probes; each new mount point
/// has no label and carries the sizes learnt of its volume.
pub fn get_mount_points(device_number: i32, volumes: &Vec<VolumeProbe>, mount_points: &mut Vec<MountPoint>)
    ensures
        final(mount_points)@.len() == old(mount_points)@.len() + volumes_on_device(volumes@, device_number).len(),
        forall|k: int| 0 <= k < old(mount_points)@.len() ==> final(mount_points)@[k] == old(mount_points)@[k],
        forall|i: int|
            old(mount_points)@.len() <= i < final(mount_points)@.len() ==> mounted_from(
                #[trigger] final(mount_points)@[i],
                volumes_on_device(volumes@, device_number)[i - old(mount_points)@.len()],
            ),
{
    let ghost start = mount_points@;
    let mut i: usize = 0;
    while i < volumes.len()
        invariant
            i <= volumes@.len(),
            mount_points@.len() == start.len() + volumes_on_device(volumes@.take(i as int), device_number).len(),
            forall|k: int| 0 <= k < start.len() ==> mount_points@[k] == start[k],
            forall|j: int|
                start.len() <= j < mount_points@.len() ==> mounted_from(
                    #[trigger] mount_points@[j],
                    volumes_on_device(volumes@.take(i as int), device_number)[j - start.len()],
                ),
        decreases volumes@.len() - i,
    {
        let v = volumes[i];
        proof {
            reveal(Seq::filter);
            assert(volumes@.take(i + 1).drop_last() =~= volumes@.take(i as int));
        }
        let mounted = match v.device_number {
            Some(n) => is_fixed_or_removable(v.drive_type) && n >= 0 && n == device_number,
            None => false,
        };
        if mounted {
            let root = volume_root(v.letter);
            mount_points.push(
                MountPoint {
                    path: root,
                    label: None,
                    totalBytes: v.total_bytes,
                    availableBytes: v.available_bytes,
                },
            );
        }
        i = i + 1;
    }
    assert(volumes@.take(volumes@.len() as int) =~= volumes@);
}

/// What the volume extents query reports: how many extents the volume has
/// and the disk number of the first one.
#[derive(Debug, Clone, Copy)]
pub struct VolumeDiskExtents {
    pub number_of_disk_extents: u32,
    pub first_disk_number: u32,
}

/// The device number settled from the two queries: `-1` where the volume
/// spans two or more extents; otherwise the storage device number where
/// that query answered, else the disk of the first extent, else `-1`.
/// Numbers are taken bit for bit as signed.
pub open spec fn settled_device_number(extents: Option<VolumeDiskExtents>, storage_number: Option<u32>) -> i32 {
    match (extents, storage_number) {
        (Some(e), _) if e.number_of_disk_extents >= 2 => -1i32,
        (_, Some(n)) => #[verifier::truncate] (n as i32),
        (Some(e), None) => #[verifier::truncate] (e.first_disk_number as i32),
        (None, None) => -1i32,
    }
}

/// The number of the disk behind a handle, from the answers of the volume
/// extents query and of the storage device number query (`None` where a
/// query failed). The second answer is not looked at when the first
/// reports two or more extents.
pub fn get_device_number(extents: Option<VolumeDiskExtents>, storage_number: Option<u32>) -> (r: i32)
    ensures
        r == settled_device_number(extents, storage_number),
{
    let mut disk_number: i32 = -1;
    if let Some(e) = extents {
        if e.number_of_disk_extents >= 2 {
            return -1;
        }
        disk_number = #[verifier::truncate] (e.first_disk_number as i32);
    }
    if let Some(n) = storage_number {
        disk_number = #[verifier::truncate] (n as i32);
    }
    disk_number
}

/// The bytes of `bytes` that are not zero, in order.
pub open spec fn non_nul_bytes(bytes: Seq<u8>) -> Seq<u8> {
    bytes.filter(|b: u8| b != 0u8)
}

/// The text of a zero-padded ANSI buffer: its non-zero bytes decoded as
/// UTF-8 and trimmed of surrounding whitespace, or the empty text where
/// they are not valid UTF-8.
pub open spec fn ansi_text(bytes: Seq<u8>) -> Seq<char> {
    let kept = non_nul_bytes(bytes);
    if vstd::utf8::valid_utf8(kept) {
        trim_chars(vstd::utf8::decode_utf8(kept))
    } else {
        Seq::empty()
    }
}

/// The text of a zero-padded ANSI buffer.
pub fn ansi_to_string(unsafe_utf8: &[u8]) -> (r: String)
    ensures
        r@ == ansi_text(unsafe_utf8@),
{
    let mut kept: Vec<u8> = Vec::new();
    let mut i: usize = 0;
    while i < unsafe_utf8.len()
        invariant
            i <= unsafe_utf8@.len(),
            kept@ == non_nul_bytes(unsafe_utf8@.take(i as int)),
        decreases unsafe_utf8@.len() - i,
    {
        proof {
            reveal(Seq::filter);
            assert(unsafe_utf8@.take(i + 1).drop_last() =~= unsafe_utf8@.take(i as int));
        }
        if unsafe_utf8[i] != 0 {
            kept.push(unsafe_utf8[i]);
        }
        i = i + 1;
    }
    assert(unsafe_utf8@.take(unsafe_utf8@.len() as int) =~= unsafe_utf8@);
    match core::str::from_utf8(kept.as_slice()) {
        Ok(res) => res.trim().to_owned(),
        Err(_) => String::new(),
    }
}

/// The text of a registry property, where the query answered with these
/// bytes, or the empty text where it did not.
pub open spec fn property_text(property: Option<Seq<u8>>) -> Seq<char> {
    match property {
        Some(bytes) => ansi_text(bytes),
        None => Seq::empty(),
    }
}

fn registry_text(property: Option<&[u8]>) -> (r: String)
    ensures
        r@ == property_text(match property { Some(b) => Some(b@), None => None }),
{
    match property {
        Some(bytes) => ansi_to_string(bytes),
        None => String::new(),
    }
}

/// The enumerator name of a device from the bytes of its
/// `SPDRP_ENUMERATOR_NAME` property (`None` where the query failed).
pub fn get_enumerator_name(property: Option<&[u8]>) -> (r: String)
    ensures
        r@ == property_text(match property { Some(b) => Some(b@), None => None }),
{
    registry_text(property)
}

/// The friendly name of a device from the bytes of its
/// `SPDRP_FRIENDLYNAME` property (`None` where the query failed).
pub fn get_friendly_name(property: Option<&[u8]>) -> (r: String)
    ensures
        r@ == property_text(match property { Some(b) => Some(b@), None => None }),
{
    registry_text(property)
}

/// Some system directory, in the raw buffers of its expanded path, contains
/// the path of one of the mount points.
pub open spec fn on_system_volume(mountpoints: Seq<MountPoint>, system_dirs: Seq<Vec<u8>>) -> bool {
    exists|i: int, j: int|
        0 <= i < system_dirs.len() && 0 <= j < mountpoints.len() && has_substring(
            ansi_text(#[trigger] system_dirs[i]@),
            (#[trigger] mountpoints[j]).path@,
        )
}

/// Whether the device holds the system: whether one of the expanded system
/// directories (the raw buffers of `%windir%` and `%ProgramFiles%` that
/// could be expanded) contains the path of one of its mount points.
pub fn is_system_device(device: &DeviceDescriptor, system_dirs: &Vec<Vec<u8>>) -> (r: bool)
    ensures
        r == on_system_volume(device.mountpoints@, system_dirs@),
{
    let mut i: usize = 0;
    while i < system_dirs.len()
        invariant
            i <= system_dirs@.len(),
            forall|a: int, b: int|
                0 <= a < i && 0 <= b < device.mountpoints@.len() ==> !has_substring(
                    ansi_text(#[trigger] system_dirs@[a]@),
                    (#[trigger] device.mountpoints@[b]).path@,
                ),
        decreases system_dirs@.len() - i,
    {
        let val = ansi_to_string(system_dirs[i].as_slice());
        let mut j: usize = 0;
        while j < device.mountpoints.len()
            invariant
                i < system_dirs@.len(),
                j <= device.mountpoints@.len(),
                val@ == ansi_text(system_dirs@[i as int]@),
                forall|a: int, b: int|
                    0 <= a < i && 0 <= b < device.mountpoints@.len() ==> !has_substring(
                        ansi_text(#[trigger] system_dirs@[a]@),
                        (#[trigger] device.mountpoints@[b]).path@,
                    ),
                forall|b: int|
                    0 <= b < j ==> !has_substring(
                        ansi_text(system_dirs@[i as int]@),
                        (#[trigger] device.mountpoints@[b]).path@,
                    ),
            decreases device.mountpoints@.len() - j,
        {
            if text_contains(val.as_str(), device.mountpoints[j].path.as_str()) {
                return true;
            }
            j = j + 1;
        }
        i = i + 1;
    }
    false
}

/// What the disk geometry query reports.
#[derive(Debug, Clone, Copy)]
pub struct DiskGeometry {
    pub disk_size: i64,
    pub bytes_per_sector: u32,
}

/// What the drive layout query reports.
#[derive(Debug, Clone, Copy)]
pub struct DriveLayout {
    pub partition_style: u32,
    pub partition_count: u32,
}

/// What the storage access alignment query reports.
#[derive(Debug, Clone, Copy)]
pub struct StorageAccessAlignment {
    pub bytes_per_logical_sector: u32,
    pub bytes_per_physical_sector: u32,
}

/// Records the size of the disk (taken bit for bit as unsigned) and its
/// sector size as the block size.
pub fn get_device_size(device: &mut DeviceDescriptor, geometry: &DiskGeometry)
    ensures
        *final(device) == (DeviceDescriptor {
            size: #[verifier::truncate] (geometry.disk_size as u64),
            blockSize: geometry.bytes_per_sector,
            ..*old(device)
        }),
{
    device.size = #[verifier::truncate] (geometry.disk_size as u64);
    device.blockSize = geometry.bytes_per_sector;
}

/// The partition table type after a layout answer: `mbr` for an MBR layout
/// whose partition count is a multiple of four, `gpt` for a GPT layout, and
/// the earlier value otherwise.
pub open spec fn partition_table_after(layout: DriveLayout, before: Option<Seq<char>>) -> Option<Seq<char>> {
    if layout.partition_style == PARTITION_STYLE_MBR && layout.partition_count % 4 == 0 {
        Some("mbr"@)
    } else if layout.partition_style == PARTITION_STYLE_GPT {
        Some("gpt"@)
    } else {
        before
    }
}

/// Records the partition table type that the layout shows.
pub fn get_partition_table_type(device: &mut DeviceDescriptor, layout: &DriveLayout)
    ensures
        opt_text(final(device).partitionTableType) == partition_table_after(
            *layout,
            opt_text(old(device).partitionTableType),
        ),
        *final(device) == (DeviceDescriptor {
            partitionTableType: final(device).partitionTableType,
            ..*old(device)
        }),
{
    if layout.partition_style == PARTITION_STYLE_MBR && layout.partition_count % 4 == 0 {
        device.partitionTableType = Some("mbr".to_owned());
    } else if layout.partition_style == PARTITION_STYLE_GPT {
        device.partitionTableType = Some("gpt".to_owned());
    }
}

/// The bus version text `major.minor`.
pub open spec fn bus_version_text(major: u16, minor: u16) -> Seq<char> {
    decimal_digits(major as nat) + "."@ + decimal_digits(minor as nat)
}

/// Records the bus type name and the bus version that the adapter reports.
pub fn get_adapter_info(device: &mut DeviceDescriptor, adapter: &StorageAdapterDescriptor)
    ensures
        opt_text(final(device).busType) == Some(bus_type_name(adapter.bus_type as int)),
        opt_text(final(device).busVersion) == Some(
            bus_version_text(adapter.bus_major_version, adapter.bus_minor_version),
        ),
        *final(device) == (DeviceDescriptor {
            busType: final(device).busType,
            busVersion: final(device).busVersion,
            ..*old(device)
        }),
{
    device.busType = Some(get_bus_type(adapter));
    let mut version = decimal_string(adapter.bus_major_version as u64);
    version.append(".");
    version.append(decimal_string(adapter.bus_minor_version as u64).as_str());
    device.busVersion = Some(version);
}

/// Records the physical and logical sector sizes as the block sizes.
pub fn get_device_block_size(device: &mut DeviceDescriptor, alignment: &StorageAccessAlignment)
    ensures
        *final(device) == (DeviceDescriptor {
            blockSize: alignment.bytes_per_physical_sector,
            logicalBlockSize: alignment.bytes_per_logical_sector,
            ..*old(device)
        }),
{
    device.blockSize = alignment.bytes_per_physical_sector;
    device.logicalBlockSize = alignment.bytes_per_logical_sector;
}

/// The next question to put to the system while the details of a disk are
/// gathered, one device interface after another. `index` is the number of
/// the device interface at hand.
#[derive(Debug, Clone, Copy, PartialEq, Eq, Structural)]
pub enum DetailStep {
    /// Enumerate interface `index` of the device, read its path and open it.
    EnumerateInterface { index: u32 },
    /// Ask for the number of the disk behind the interface.
    ReadDeviceNumber { index: u32 },
    /// Probe every logical volume for the disk it lies on.
    ProbeVolumes { index: u32, device_number: i32 },
    /// Open the physical drive whose path the device now holds.
    OpenPhysical { index: u32 },
    /// Ask for the disk geometry.
    ReadGeometry { index: u32 },
    /// Ask for the drive layout.
    ReadLayout { index: u32 },
    /// Ask for the storage adapter descriptor.
    ReadAdapter { index: u32 },
    /// Ask for the storage access alignment.
    ReadAlignment { index: u32 },
    /// Ask whether the disk is writable.
    ReadWritable { index: u32 },
    /// Nothing more is to be asked.
    Done,
}

/// The answer to a `DetailStep`; an error code is what `GetLastError`
/// gave after the failed query.
#[derive(Debug)]
pub enum DetailEvent {
    /// The interface was enumerated and opened.
    InterfaceOpened,
    /// There is no further interface, or it could not be read or opened.
    InterfaceEnded,
    DeviceNumber(i32),
    Volumes(Vec<VolumeProbe>),
    PhysicalOpened(bool),
    Geometry(Result<DiskGeometry, u32>),
    Layout(Result<DriveLayout, u32>),
    Adapter(Result<StorageAdapterDescriptor, u32>),
    Alignment(Result<StorageAccessAlignment, u32>),
    /// Whether the writability query succeeded.
    Writable(bool),
}

/// `event` is an answer to `step`.
pub open spec fn answers(step: DetailStep, event: DetailEvent) -> bool {
    match (step, event) {
        (DetailStep::Done, _) => false,
        (_, DetailEvent::InterfaceEnded) => true,
        (DetailStep::EnumerateInterface { .. }, DetailEvent::InterfaceOpened) => true,
        (DetailStep::ReadDeviceNumber { .. }, DetailEvent::DeviceNumber(_)) => true,
        (DetailStep::ProbeVolumes { .. }, DetailEvent::Volumes(_)) => true,
        (DetailStep::OpenPhysical { .. }, DetailEvent::PhysicalOpened(_)) => true,
        (DetailStep::ReadGeometry { .. }, DetailEvent::Geometry(_)) => true,
        (DetailStep::ReadLayout { .. }, DetailEvent::Layout(_)) => true,
        (DetailStep::ReadAdapter { .. }, DetailEvent::Adapter(_)) => true,
        (DetailStep::ReadAlignment { .. }, DetailEvent::Alignment(_)) => true,
        (DetailStep::ReadWritable { .. }, DetailEvent::Writable(_)) => true,
        _ => false,
    }
}

/// The path of physical drive `n`, `\\.\PhysicalDrive<n>`.
pub open spec fn device_path_text(n: nat) -> Seq<char> {
    "\\\\.\\PhysicalDrive"@ + decimal_digits(n)
}

/// A message followed by an error code in decimal.
pub open spec fn coded_text(message: Seq<char>, code: u32) -> Seq<char> {
    message + decimal_digits(code as nat)
}

/// `after` is `before` with its error set to `message`.
pub open spec fn failed_with(before: DeviceDescriptor, after: DeviceDescriptor, message: Seq<char>) -> bool {
    &&& opt_text(after.error) == Some(message)
    &&& after == (DeviceDescriptor { error: after.error, ..before })
}

/// `after` is `before` with the roots of the probed volumes on disk
/// `device_number` appended to its mount points, as `get_mount_points` does.
pub open spec fn mounted(before: DeviceDescriptor, after: DeviceDescriptor, device_number: i32, volumes: Seq<VolumeProbe>) -> bool {
    let found = volumes_on_device(volumes, device_number);
    &&& after == (DeviceDescriptor { mountpoints: after.mountpoints, ..before })
    &&& after.mountpoints@.len() == before.mountpoints@.len() + found.len()
    &&& forall|k: int| 0 <= k < before.mountpoints@.len() ==> after.mountpoints@[k] == before.mountpoints@[k]
    &&& forall|i: int|
        before.mountpoints@.len() <= i < after.mountpoints@.len() ==> mounted_from(
            #[trigger] after.mountpoints@[i],
            found[i - before.mountpoints@.len()],
        )
}

fn fail(device: &mut DeviceDescriptor, message: String)
    ensures
        failed_with(*old(device), *final(device), message@),
{
    device.error = Some(message);
}

fn coded_message(message: &str, code: u32) -> (r: String)
    ensures
        r@ == coded_text(message@, code),
{
    let mut r = message.to_owned();
    r.append(decimal_string(code as u64).as_str());
    r
}

/// What one step of `get_detail_data` does: `after` is what `before`
/// becomes when `event` answers `step`, and `next` is the next question.
pub open spec fn detail_transition(
    step: DetailStep,
    event: DetailEvent,
    before: DeviceDescriptor,
    after: DeviceDescriptor,
    next: DetailStep,
) -> bool {
    match (step, event) {
        (_, DetailEvent::InterfaceEnded) => next == DetailStep::Done && after == before,
        (DetailStep::EnumerateInterface { index }, DetailEvent::InterfaceOpened) => {
            &&& next == DetailStep::ReadDeviceNumber { index }
            &&& after == before
        },
        (DetailStep::ReadDeviceNumber { index }, DetailEvent::DeviceNumber(n)) => if n < 0 {
            &&& next == DetailStep::Done
            &&& failed_with(before, after, "Couldn't get device number"@)
        } else {
            &&& next == DetailStep::ProbeVolumes { index, device_number: n }
            &&& after.device@ == device_path_text(n as nat)
            &&& after.raw@ == device_path_text(n as nat)
            &&& after == (DeviceDescriptor { device: after.device, raw: after.raw, ..before })
        },
        (DetailStep::ProbeVolumes { index, device_number }, DetailEvent::Volumes(volumes)) => {
            &&& next == DetailStep::OpenPhysical { index }
            &&& mounted(before, after, device_number, volumes@)
        },
        (DetailStep::OpenPhysical { index }, DetailEvent::PhysicalOpened(opened)) => if opened {
            &&& next == DetailStep::ReadGeometry { index }
            &&& after == before
        } else {
            &&& next == DetailStep::Done
            &&& failed_with(
                before,
                after,
                "Cannot open: "@ + before.device@,
            )
        },
        (DetailStep::ReadGeometry { index }, DetailEvent::Geometry(answer)) => match answer {
            Ok(g) => {
                &&& next == DetailStep::ReadLayout { index }
                &&& after == (DeviceDescriptor {
                    size: #[verifier::truncate] (g.disk_size as u64),
                    blockSize: g.bytes_per_sector,
                    ..before
                })
            },
            Err(code) => {
                &&& next == DetailStep::Done
                &&& failed_with(
                    before,
                    after,
                    coded_text("Couldn't get disk geometry: Error "@, code),
                )
            },
        },
        (DetailStep::ReadLayout { index }, DetailEvent::Layout(answer)) => match answer {
            Ok(l) => {
                &&& next == DetailStep::ReadAdapter { index }
                &&& opt_text(after.partitionTableType) == partition_table_after(
                    l,
                    opt_text(before.partitionTableType),
                )
                &&& after == (DeviceDescriptor {
                    partitionTableType: after.partitionTableType,
                    ..before
                })
            },
            Err(code) => {
                &&& next == DetailStep::Done
                &&& failed_with(
                    before,
                    after,
                    coded_text("Couldn't get partition type: Error "@, code),
                )
            },
        },
        (DetailStep::ReadAdapter { index }, DetailEvent::Adapter(answer)) => match answer {
            Ok(a) => {
                &&& next == DetailStep::ReadAlignment { index }
                &&& opt_text(after.busType) == Some(bus_type_name(a.bus_type as int))
                &&& opt_text(after.busVersion) == Some(
                    bus_version_text(a.bus_major_version, a.bus_minor_version),
                )
                &&& after == (DeviceDescriptor {
                    busType: after.busType,
                    busVersion: after.busVersion,
                    ..before
                })
            },
            Err(code) => {
                &&& next == DetailStep::Done
                &&& failed_with(
                    before,
                    after,
                    coded_text("Couldn't get adapter info: Error "@, code),
                )
            },
        },
        (DetailStep::ReadAlignment { index }, DetailEvent::Alignment(answer)) => match answer {
            Ok(al) => {
                &&& next == DetailStep::ReadWritable { index }
                &&& after == (DeviceDescriptor {
                    blockSize: al.bytes_per_physical_sector,
                    logicalBlockSize: al.bytes_per_logical_sector,
                    ..before
                })
            },
            Err(code) => {
                &&& next == DetailStep::Done
                &&& failed_with(
                    before,
                    after,
                    coded_text("Couldn't get device block size: Error "@, code),
                )
            },
        },
        (DetailStep::ReadWritable { index }, DetailEvent::Writable(writable)) => {
            &&& next == DetailStep::EnumerateInterface { index: (index + 1) as u32 }
            &&& after == (DeviceDescriptor { isReadOnly: !writable, ..before })
        },
        _ => false,
    }
}

/// Takes in the answer to one question about a device interface, records
/// what it tells in `device`, and says which question comes next.
///
/// An interface that cannot be had ends the gathering; so does a negative
/// device number or a failed query of the physical drive, each of which is
/// recorded as the device's error. After the writability answer the next
/// interface is taken up.
pub fn get_detail_data(device: &mut DeviceDescriptor, step: DetailStep, event: DetailEvent) -> (next: DetailStep)
    requires
        answers(step, event),
        step matches DetailStep::ReadWritable { index } ==> index < u32::MAX,
    ensures
        detail_transition(step, event, *old(device), *final(device), next),
{
    match event {
        DetailEvent::InterfaceEnded => DetailStep::Done,
        DetailEvent::InterfaceOpened => match step {
            DetailStep::EnumerateInterface { index } => DetailStep::ReadDeviceNumber { index },
            _ => DetailStep::Done,
        },
        DetailEvent::DeviceNumber(n) => match step {
            DetailStep::ReadDeviceNumber { index } => {
                if n < 0 {
                    fail(device, "Couldn't get device number".to_owned());
                    DetailStep::Done
                } else {
                    let mut path = "\\\\.\\PhysicalDrive".to_owned();
                    path.append(decimal_string(n as u64).as_str());
                    device.device = path.clone();
                    device.raw = path;
                    DetailStep::ProbeVolumes { index, device_number: n }
                }
            },
            _ => DetailStep::Done,
        },
        DetailEvent::Volumes(volumes) => match step {
            DetailStep::ProbeVolumes { index, device_number } => {
                get_mount_points(device_number, &volumes, &mut device.mountpoints);
                DetailStep::OpenPhysical { index }
            },
            _ => DetailStep::Done,
        },
        DetailEvent::PhysicalOpened(opened) => match step {
            DetailStep::OpenPhysical { index } => {
                if opened {
                    DetailStep::ReadGeometry { index }
                } else {
                    let mut message = "Cannot open: ".to_owned();
                    message.append(device.device.as_str());
                    fail(device, message);
                    DetailStep::Done
                }
            },
            _ => DetailStep::Done,
        },
        DetailEvent::Geometry(answer) => match step {
            DetailStep::ReadGeometry { index } => match answer {
                Ok(g) => {
                    get_device_size(device, &g);
                    DetailStep::ReadLayout { index }
                },
                Err(code) => {
                    fail(device, coded_message("Couldn't get disk geometry: Error ", code));
                    DetailStep::Done
                },
            },
            _ => DetailStep::Done,
        },
        DetailEvent::Layout(answer) => match step {
            DetailStep::ReadLayout { index } => match answer {
                Ok(l) => {
                    get_partition_table_type(device, &l);
                    DetailStep::ReadAdapter { index }
                },
                Err(code) => {
                    fail(device, coded_message("Couldn't get partition type: Error ", code));
                    DetailStep::Done
                },
            },
            _ => DetailStep::Done,
        },
        DetailEvent::Adapter(answer) => match step {
            DetailStep::ReadAdapter { index } => match answer {
                Ok(a) => {
                    get_adapter_info(device, &a);
                    DetailStep::ReadAlignment { index }
                },
                Err(code) => {
                    fail(device, coded_message("Couldn't get adapter info: Error ", code));
                    DetailStep::Done
                },
            },
            _ => DetailStep::Done,
        },
        DetailEvent::Alignment(answer) => match step {
            DetailStep::ReadAlignment { index } => match answer {
                Ok(al) => {
                    get_device_block_size(device, &al);
                    DetailStep::ReadWritable { index }
                },
                Err(code) => {
                    fail(device, coded_message("Couldn't get device block size: Error ", code));
                    DetailStep::Done
                },
            },
            _ => DetailStep::Done,
        },
        DetailEvent::Writable(writable) => match step {
            DetailStep::ReadWritable { index } => {
                device.isReadOnly = !writable;
                DetailStep::EnumerateInterface { index: index + 1 }
            },
            _ => DetailStep::Done,
        },
    }
}

/// The description of a device that the enumeration starts from: its
/// friendly name as description, its enumerator, whether that enumerator is
/// a USB one, and whether its removal policy makes it removable; nothing
/// else is known yet. A device without a friendly name gets none.
pub fn describe_device(enumerator_name: String, friendly_name: String, removal_policy: u8) -> (r: Option<DeviceDescriptor>)
    ensures
        friendly_name@.len() == 0 ==> r is None,
        friendly_name@.len() != 0 ==> (r matches Some(d) && {
            &&& d.description@ == friendly_name@
            &&& d.enumerator@ == enumerator_name@
            &&& d.isUSB == is_usb_enumerator(enumerator_name@)
            &&& d.isRemovable == (removal_policy == REMOVAL_POLICY_EXPECT_ORDERLY_REMOVAL
                || removal_policy == REMOVAL_POLICY_EXPECT_SURPRISE_REMOVAL)
            &&& d.details_blank()
        }),
{
    if friendly_name.as_str().is_empty() {
        return None;
    }
    let mut item = DeviceDescriptor::default();
    item.isUSB = is_usb_drive(enumerator_name.as_str());
    item.isRemovable = is_removable(removal_policy);
    item.description = friendly_name;
    item.enumerator = enumerator_name;
    Some(item)
}

/// The bus type name of a device, `UNKNOWN` where none is known.
pub open spec fn bus_or_unknown(d: DeviceDescriptor) -> Seq<char> {
    match d.busType {
        Some(b) => b@,
        None => "UNKNOWN"@,
    }
}

/// The flags that follow from the bus type once the details are known: a
/// card on an SD or MMC bus, UAS for a SCSI enumerator on a USB bus,
/// virtual on a virtual or file-backed virtual bus (or where it was already
/// so), and system where it was already so or where a system directory lies
/// on one of its mount points.
pub open spec fn classified(before: DeviceDescriptor, after: DeviceDescriptor, system_dirs: Seq<Vec<u8>>) -> bool {
    let bus = bus_or_unknown(before);
    after == (DeviceDescriptor {
        isSystem: before.isSystem || on_system_volume(before.mountpoints@, system_dirs),
        isCard: bus == "SDCARD"@ || bus == "MMC"@,
        isUAS: Some(before.enumerator@ == "SCSI"@ && bus == "USB"@),
        isVirtual: before.isVirtual || bus == "VIRTUAL"@ || bus == "FILEBACKEDVIRTUAL"@,
        ..before
    })
}

/// Sets the flags that follow from the details of the device; see
/// `classified`. `system_dirs` are the raw buffers of the system
/// directories that could be expanded.
pub fn classify_device(item: &mut DeviceDescriptor, system_dirs: &Vec<Vec<u8>>)
    ensures
        classified(*old(item), *final(item), system_dirs@),
{
    let bus: String = match &item.busType {
        Some(b) => b.clone(),
        None => "UNKNOWN".to_owned(),
    };
    let system = item.isSystem || is_system_device(item, system_dirs);
    let card = text_eq(bus.as_str(), "SDCARD") || text_eq(bus.as_str(), "MMC");
    let uas = text_eq(item.enumerator.as_str(), "SCSI") && text_eq(bus.as_str(), "USB");
    let virt = item.isVirtual || text_eq(bus.as_str(), "VIRTUAL") || text_eq(
        bus.as_str(),
        "FILEBACKEDVIRTUAL",
    );
    item.isSystem = system;
    item.isCard = card;
    item.isUAS = Some(uas);
    item.isVirtual = virt;
}

/// The number of the device interface that a step is about, if any.
pub open spec fn step_index(step: DetailStep) -> Option<u32> {
    match step {
        DetailStep::EnumerateInterface { index } => Some(index),
        DetailStep::ReadDeviceNumber { index } => Some(index),
        DetailStep::ProbeVolumes { index, .. } => Some(index),
        DetailStep::OpenPhysical { index } => Some(index),
        DetailStep::ReadGeometry { index } => Some(index),
        DetailStep::ReadLayout { index } => Some(index),
        DetailStep::ReadAdapter { index } => Some(index),
        DetailStep::ReadAlignment { index } => Some(index),
        DetailStep::ReadWritable { index } => Some(index),
        DetailStep::Done => None,
    }
}

/// A step that records an error ends the gathering of details.
pub proof fn lemma_error_ends_gathering(
    step: DetailStep,
    event: DetailEvent,
    before: DeviceDescriptor,
    after: DeviceDescriptor,
    next: DetailStep,
)
    requires
        answers(step, event),
        detail_transition(step, event, before, after, next),
        opt_text(after.error) != opt_text(before.error),
    ensures
        next == DetailStep::Done,
{
}

/// Gathering details never drops a mount point: those known before a step
/// stay, in order, at the front of the list.
pub proof fn lemma_mount_points_kept(
    step: DetailStep,
    event: DetailEvent,
    before: DeviceDescriptor,
    after: DeviceDescriptor,
    next: DetailStep,
)
    requires
        answers(step, event),
        detail_transition(step, event, before, after, next),
    ensures
        before.mountpoints@.len() <= after.mountpoints@.len(),
        forall|k: int| 0 <= k < before.mountpoints@.len() ==> after.mountpoints@[k] == before.mountpoints@[k],
{
}

/// Gathering details keeps what identifies the device (its enumerator, its
/// description and its USB and removable flags) and leaves its system and
/// virtual flags alone.
pub proof fn lemma_identity_kept(
    step: DetailStep,
    event: DetailEvent,
    before: DeviceDescriptor,
    after: DeviceDescriptor,
    next: DetailStep,
)
    requires
        answers(step, event),
        detail_transition(step, event, before, after, next),
    ensures
        after.enumerator == before.enumerator,
        after.description == before.description,
        after.isUSB == before.isUSB,
        after.isRemovable == before.isRemovable,
        after.isSystem == before.isSystem,
        after.isVirtual == before.isVirtual,
{
}

/// The gathering stays with one interface until its writability is known,
/// then moves to the next interface; it never goes back.
pub proof fn lemma_interfaces_in_order(
    step: DetailStep,
    event: DetailEvent,
    before: DeviceDescriptor,
    after: DeviceDescriptor,
    next: DetailStep,
)
    requires
        answers(step, event),
        detail_transition(step, event, before, after, next),
    ensures
        next != DetailStep::Done ==> {
            ||| step_index(next) == step_index(step)
            ||| step is ReadWritable && step_index(next) == Some((step_index(step).unwrap() + 1) as u32)
        },
{
}

/// Distinct disk numbers give distinct device paths.
pub proof fn lemma_device_paths_distinct(a: nat, b: nat)
    requires
        a != b,
    ensures
        device_path_text(a) != device_path_text(b),
{
    crate::text::lemma_decimal_digits_injective(a, b);
    let prefix = "\\\\.\\PhysicalDrive"@;
    if device_path_text(a) == device_path_text(b) {
        assert(decimal_digits(a) =~= device_path_text(a).subrange(prefix.len() as int, device_path_text(a).len() as int));
        assert(decimal_digits(b) =~= device_path_text(b).subrange(prefix.len() as int, device_path_text(b).len() as int));
    }
}

/// Classifying a device a second time changes nothing.
pub proof fn lemma_classify_idempotent(
    a: DeviceDescriptor,
    b: DeviceDescriptor,
    c: DeviceDescriptor,
    system_dirs: Seq<Vec<u8>>,
)
    requires
        classified(a, b, system_dirs),
        classified(b, c, system_dirs),
    ensures
        c == b,
{
}

/// No device is classified both as a card and as attached over UAS.
pub proof fn lemma_card_is_not_uas(a: DeviceDescriptor, b: DeviceDescriptor, system_dirs: Seq<Vec<u8>>)
    requires
        classified(a, b, system_dirs),
    ensures
        !(b.isCard && b.isUAS == Some(true)),
{
    reveal_strlit("SDCARD");
    reveal_strlit("MMC");
    reveal_strlit("USB");
    assert("SDCARD"@.len() != "USB"@.len());
    assert("MMC"@[0] != "USB"@[0]);
}

/// The text of an ANSI buffer never starts or ends with whitespace.
pub proof fn lemma_ansi_text_trimmed(bytes: Seq<u8>)
    ensures
        ansi_text(bytes).len() > 0 ==> !is_white_space(ansi_text(bytes)[0]) && !is_white_space(
            ansi_text(bytes).last(),
        ),
{
    let kept = non_nul_bytes(bytes);
    if vstd::utf8::valid_utf8(kept) {
        crate::text::lemma_trim_chars_bounds(vstd::utf8::decode_utf8(kept));
    }
}

/// The bus names that the classification looks at each come from exactly
/// one bus type code: `SDCARD` from 12, `MMC` from 13, `USB` from 7,
/// `VIRTUAL` from 14 and `FILEBACKEDVIRTUAL` from 15. So, after the adapter
/// answer, a device is a card exactly when its bus type code is 12 or 13.
pub proof fn lemma_classified_bus_codes(code: int)
    ensures
        (bus_type_name(code) == "SDCARD"@) <==> code == 12,
        (bus_type_name(code) == "MMC"@) <==> code == 13,
        (bus_type_name(code) == "USB"@) <==> code == 7,
        (bus_type_name(code) == "VIRTUAL"@) <==> code == 14,
        (bus_type_name(code) == "FILEBACKEDVIRTUAL"@) <==> code == 15,
{
    reveal_strlit("UNKNOWN");
    assert("UNKNOWN"@.len() == 7 && "UNKNOWN"@[0] == 'U' && "UNKNOWN"@[1] == 'N');
    reveal_strlit("SCSI");
    assert("SCSI"@.len() == 4 && "SCSI"@[0] == 'S' && "SCSI"@[1] == 'C');
    reveal_strlit("ATAPI");
    assert("ATAPI"@.len() == 5 && "ATAPI"@[0] == 'A' && "ATAPI"@[1] == 'T');
    reveal_strlit("ATA");
    assert("ATA"@.len() == 3 && "ATA"@[0] == 'A' && "ATA"@[1] == 'T');
    reveal_strlit("1394");
    assert("1394"@.len() == 4 && "1394"@[0] == '1' && "1394"@[1] == '3');
    reveal_strlit("SSA");
    assert("SSA"@.len() == 3 && "SSA"@[0] == 'S' && "SSA"@[1] == 'S');
    reveal_strlit("FIBRE");
    assert("FIBRE"@.len() == 5 && "FIBRE"@[0] == 'F' && "FIBRE"@[1] == 'I');
    reveal_strlit("USB");
    assert("USB"@.len() == 3 && "USB"@[0] == 'U' && "USB"@[1] == 'S');
    reveal_strlit("RAID");
    assert("RAID"@.len() == 4 && "RAID"@[0] == 'R' && "RAID"@[1] == 'A');
    reveal_strlit("iSCSI");
    assert("iSCSI"@.len() == 5 && "iSCSI"@[0] == 'i' && "iSCSI"@[1] == 'S');
    reveal_strlit("SAS");
    assert("SAS"@.len() == 3 && "SAS"@[0] == 'S' && "SAS"@[1] == 'A');
    reveal_strlit("SATA");
    assert("SATA"@.len() == 4 && "SATA"@[0] == 'S' && "SATA"@[1] == 'A');
    reveal_strlit("SDCARD");
    assert("SDCARD"@.len() == 6 && "SDCARD"@[0] == 'S' && "SDCARD"@[1] == 'D');
    reveal_strlit("MMC");
    assert("MMC"@.len() == 3 && "MMC"@[0] == 'M' && "MMC"@[1] == 'M');
    reveal_strlit("VIRTUAL");
    assert("VIRTUAL"@.len() == 7 && "VIRTUAL"@[0] == 'V' && "VIRTUAL"@[1] == 'I');
    reveal_strlit("FILEBACKEDVIRTUAL");
    assert("FILEBACKEDVIRTUAL"@.len() == 17 && "FILEBACKEDVIRTUAL"@[0] == 'F' && "FILEBACKEDVIRTUAL"@[1] == 'I');
    reveal_strlit("NVME");
    assert("NVME"@.len() == 4 && "NVME"@[0] == 'N' && "NVME"@[1] == 'V');
    reveal_strlit("UFS");
    assert("UFS"@.len() == 3 && "UFS"@[0] == 'U' && "UFS"@[1] == 'F');
    reveal_strlit("SCM");
    assert("SCM"@.len() == 3 && "SCM"@[0] == 'S' && "SCM"@[1] == 'C');
    reveal_strlit("INVALID");
    assert("INVALID"@.len() == 7 && "INVALID"@[0] == 'I' && "INVALID"@[1] == 'N');
}

/// What the enumeration of devices found at the index it was asked for.
#[derive(Debug)]
pub enum ListEvent {
    /// A device is there: its finished description, or `None` where it has
    /// no friendly name.
    Device(Option<DeviceDescriptor>),
    /// No device is left.
    End,
}

/// What one step of `list_step` does to the list.
pub open spec fn list_transition(
    before: Seq<DeviceDescriptor>,
    index: u32,
    event: ListEvent,
    after: Seq<DeviceDescriptor>,
    next: Option<u32>,
) -> bool {
    match event {
        ListEvent::End => next is None && after == before,
        ListEvent::Device(d) => {
            &&& next == Some((index + 1) as u32)
            &&& after == match d {
                Some(x) => before.push(x),
                None => before,
            }
        },
    }
}

/// Takes in what the enumeration found at `index`: a described device joins
/// the list, a device without a name is passed over, and either way the next
/// index is asked for; at the end nothing more is asked.
pub fn list_step(drives: &mut Vec<DeviceDescriptor>, index: u32, event: ListEvent) -> (next: Option<u32>)
    requires
        event is Device ==> index < u32::MAX,
    ensures
        event is End ==> next is None && final(drives)@ == old(drives)@,
        event matches ListEvent::Device(d) ==> next == Some((index + 1) as u32) && final(drives)@
            == match d {
            Some(x) => old(drives)@.push(x),
            None => old(drives)@,
        },
        list_transition(old(drives)@, index, event, final(drives)@, next),
{
    match event {
        ListEvent::End => None,
        ListEvent::Device(d) => {
            match d {
                Some(x) => drives.push(x),
                None => {},
            }
            Some(index + 1)
        },
    }
}

/// The named devices among the events, in order.
pub open spec fn named_devices(events: Seq<ListEvent>) -> Seq<DeviceDescriptor>
    decreases events.len(),
{
    if events.len() == 0 {
        Seq::empty()
    } else {
        let rest = named_devices(events.drop_last());
        match events.last() {
            ListEvent::Device(Some(d)) => rest.push(d),
            _ => rest,
        }
    }
}

/// A run of `list_step` that has not ended lists exactly the named devices,
/// one description each, in enumeration order, and asks for one index after
/// another; as every index stays below `u32::MAX`, no run goes on forever.
pub proof fn lemma_list_collects_named_devices(
    lists: Seq<Seq<DeviceDescriptor>>,
    indices: Seq<u32>,
    events: Seq<ListEvent>,
)
    requires
        lists.len() == events.len() + 1,
        indices.len() == events.len() + 1,
        forall|k: int| 0 <= k < events.len() ==> #[trigger] indices[k] < u32::MAX,
        forall|k: int|
            0 <= k < events.len() ==> list_transition(
                lists[k],
                indices[k],
                #[trigger] events[k],
                lists[k + 1],
                Some(indices[k + 1]),
            ),
    ensures
        lists.last() == lists[0] + named_devices(events),
        indices.last() == indices[0] + events.len(),
    decreases events.len(),
{
    if events.len() == 0 {
        assert(lists[0] + Seq::<DeviceDescriptor>::empty() =~= lists[0]);
    } else {
        let n = events.len() - 1;
        let k = n;
        assert(list_transition(lists[k], indices[k], events[k], lists[k + 1], Some(indices[k + 1])));
        assert(indices[k] < u32::MAX);
        lemma_list_collects_named_devices(lists.drop_last(), indices.drop_last(), events.drop_last());
        assert(events.drop_last().len() == n);
        match events.last() {
            ListEvent::Device(Some(d)) => {
                assert(lists.last() =~= lists[0] + named_devices(events));
            },
            _ => {
                assert(lists.last() =~= lists[0] + named_devices(events));
            },
        }
    }
}

/// `after` follows from `before` by one step of detail gathering.
pub open spec fn gathers(before: DeviceDescriptor, after: DeviceDescriptor) -> bool {
    exists|step: DetailStep, event: DetailEvent, next: DetailStep|
        answers(step, event) && #[trigger] detail_transition(step, event, before, after, next)
}

/// The flags of a listed device, as they follow from its enumerator, its
/// bus type and its mount points.
pub open spec fn flags_follow(d: DeviceDescriptor, system_dirs: Seq<Vec<u8>>) -> bool {
    let bus = bus_or_unknown(d);
    &&& d.isUSB == is_usb_enumerator(d.enumerator@)
    &&& d.isUAS == Some(d.enumerator@ == "SCSI"@ && bus == "USB"@)
    &&& d.isCard == (bus == "SDCARD"@ || bus == "MMC"@)
    &&& d.isVirtual == (bus == "VIRTUAL"@ || bus == "FILEBACKEDVIRTUAL"@)
    &&& d.isSystem == on_system_volume(d.mountpoints@, system_dirs)
}

/// A device described by `describe_device`, taken through any number of
/// detail gathering steps and then classified, has the flags that its
/// enumerator, bus type and mount points call for.
pub proof fn lemma_listed_device_flags(
    chain: Seq<DeviceDescriptor>,
    done: DeviceDescriptor,
    system_dirs: Seq<Vec<u8>>,
)
    requires
        chain.len() >= 1,
        chain[0].details_blank(),
        chain[0].isUSB == is_usb_enumerator(chain[0].enumerator@),
        forall|k: int| 0 <= k < chain.len() - 1 ==> gathers(#[trigger] chain[k], chain[k + 1]),
        classified(chain.last(), done, system_dirs),
    ensures
        flags_follow(done, system_dirs),
{
    lemma_chain_keeps_flags(chain, chain.len() - 1);
}

proof fn lemma_chain_keeps_flags(chain: Seq<DeviceDescriptor>, k: int)
    requires
        0 <= k < chain.len(),
        chain[0].details_blank(),
        chain[0].isUSB == is_usb_enumerator(chain[0].enumerator@),
        forall|j: int| 0 <= j < chain.len() - 1 ==> gathers(#[trigger] chain[j], chain[j + 1]),
    ensures
        chain[k].enumerator == chain[0].enumerator,
        chain[k].isUSB == chain[0].isUSB,
        !chain[k].isSystem,
        !chain[k].isVirtual,
    decreases k,
{
    if k > 0 {
        lemma_chain_keeps_flags(chain, k - 1);
        let j = k - 1;
        assert(gathers(chain[j], chain[j + 1]));
        let (step, event, next) = choose|step: DetailStep, event: DetailEvent, next: DetailStep|
            answers(step, event) && #[trigger] detail_transition(step, event, chain[j], chain[j + 1], next);
        lemma_identity_kept(step, event, chain[j], chain[j + 1], next);
    }
}

/// The UTF-8 encoding of a scalar holds a zero byte exactly when the scalar
/// is zero.
proof fn lemma_scalar_zero_bytes(v: u32)
    requires
        vstd::utf8::is_scalar(v),
    ensures
        v == 0 ==> vstd::utf8::encode_scalar(v) == seq![0u8],
        v != 0 ==> forall|i: int|
            0 <= i < vstd::utf8::encode_scalar(v).len() ==> vstd::utf8::encode_scalar(v)[i] != 0u8,
{
    let e = vstd::utf8::encode_scalar(v);
    if vstd::utf8::has_width_1_encoding(v) {
        assert(v <= 0x7Fu32 ==> (((v & 0x7Fu32) as u8 == 0u8) <==> v == 0u32)) by (bit_vector);
        if v == 0 {
            assert(e =~= seq![0u8]);
        }
    } else {
        let a = ((v >> 6u32) & 0x1Fu32) as u8;
        let b = ((v >> 12u32) & 0x0Fu32) as u8;
        let c = ((v >> 18u32) & 0x7u32) as u8;
        let d = (v & 0x3Fu32) as u8;
        let f = ((v >> 6u32) & 0x3Fu32) as u8;
        let g = ((v >> 12u32) & 0x3Fu32) as u8;
        assert((0xC0u8 | a) != 0u8) by (bit_vector);
        assert((0xE0u8 | b) != 0u8) by (bit_vector);
        assert((0xF0u8 | c) != 0u8) by (bit_vector);
        assert((0x80u8 | d) != 0u8) by (bit_vector);
        assert((0x80u8 | f) != 0u8) by (bit_vector);
        assert((0x80u8 | g) != 0u8) by (bit_vector);
    }
}

/// Encoding characters none of which is NUL gives no zero byte.
proof fn lemma_encode_without_nul(chars: Seq<char>)
    requires
        forall|k: int| 0 <= k < chars.len() ==> chars[k] != '\0',
    ensures
        forall|j: int|
            0 <= j < vstd::utf8::encode_utf8(chars).len() ==> vstd::utf8::encode_utf8(chars)[j] != 0u8,
    decreases chars.len(),
{
    if chars.len() > 0 {
        let first = vstd::utf8::encode_scalar(chars[0] as u32);
        let rest = vstd::utf8::encode_utf8(chars.drop_first());
        vstd::utf8::char_is_scalar(chars[0]);
        assert(chars[0] as u32 != 0u32) by {
            if chars[0] as u32 == 0u32 {
                vstd::utf8::char_u32_cast(chars[0], 0u32);
                assert(('\0' as u32) == 0u32);
                vstd::utf8::char_u32_cast('\0', 0u32);
            }
        }
        lemma_scalar_zero_bytes(chars[0] as u32);
        lemma_encode_without_nul(chars.drop_first());
        assert(vstd::utf8::encode_utf8(chars) == first + rest);
        assert forall|j: int| 0 <= j < (first + rest).len() implies (first + rest)[j] != 0u8 by {
            if j < first.len() {
                assert((first + rest)[j] == first[j]);
            } else {
                assert((first + rest)[j] == rest[j - first.len()]);
            }
        }
    }
}

/// Encoding characters one of which is NUL gives a zero byte.
proof fn lemma_encode_with_nul(chars: Seq<char>, k: int)
    requires
        0 <= k < chars.len(),
        chars[k] == '\0',
    ensures
        exists|j: int|
            0 <= j < vstd::utf8::encode_utf8(chars).len() && vstd::utf8::encode_utf8(chars)[j] == 0u8,
    decreases k,
{
    let first = vstd::utf8::encode_scalar(chars[0] as u32);
    let rest = vstd::utf8::encode_utf8(chars.drop_first());
    assert(vstd::utf8::encode_utf8(chars) == first + rest);
    vstd::utf8::char_is_scalar(chars[0]);
    if k == 0 {
        lemma_scalar_zero_bytes(chars[0] as u32);
        assert((first + rest)[0] == 0u8);
    } else {
        lemma_encode_with_nul(chars.drop_first(), k - 1);
        let j = choose|j: int| 0 <= j < rest.len() && rest[j] == 0u8;
        assert((first + rest)[first.len() + j] == 0u8);
    }
}

/// Valid UTF-8 without zero bytes decodes to characters none of which is NUL.
proof fn lemma_decode_without_nul(bytes: Seq<u8>)
    requires
        vstd::utf8::valid_utf8(bytes),
        forall|i: int| 0 <= i < bytes.len() ==> bytes[i] != 0u8,
    ensures
        forall|k: int|
            0 <= k < vstd::utf8::decode_utf8(bytes).len() ==> vstd::utf8::decode_utf8(bytes)[k] != '\0',
{
    let chars = vstd::utf8::decode_utf8(bytes);
    vstd::utf8::decode_utf8_encode_utf8(bytes);
    assert forall|k: int| 0 <= k < chars.len() implies chars[k] != '\0' by {
        if chars[k] == '\0' {
            lemma_encode_with_nul(chars, k);
        }
    }
}

/// No byte kept by `non_nul_bytes` is zero, and a sequence without zero
/// bytes is kept whole.
proof fn lemma_non_nul_bytes(bytes: Seq<u8>)
    ensures
        forall|i: int| 0 <= i < non_nul_bytes(bytes).len() ==> non_nul_bytes(bytes)[i] != 0u8,
        (forall|i: int| 0 <= i < bytes.len() ==> bytes[i] != 0u8) ==> non_nul_bytes(bytes) == bytes,
    decreases bytes.len(),
{
    reveal(Seq::filter);
    if bytes.len() > 0 {
        lemma_non_nul_bytes(bytes.drop_last());
        assert(non_nul_bytes(bytes.drop_last()) == bytes.drop_last().filter(|b: u8| b != 0u8));
        if forall|i: int| 0 <= i < bytes.len() ==> bytes[i] != 0u8 {
            assert(bytes.drop_last().push(bytes.last()) =~= bytes);
        }
    }
}

/// The text of an ANSI buffer holds no NUL, and taking the text of its own
/// UTF-8 bytes gives it back unchanged.
pub proof fn lemma_ansi_text_stable(bytes: Seq<u8>)
    ensures
        forall|k: int| 0 <= k < ansi_text(bytes).len() ==> ansi_text(bytes)[k] != '\0',
        ansi_text(vstd::utf8::encode_utf8(ansi_text(bytes))) == ansi_text(bytes),
{
    let kept = non_nul_bytes(bytes);
    let r = ansi_text(bytes);
    lemma_non_nul_bytes(bytes);
    if vstd::utf8::valid_utf8(kept) {
        let d = vstd::utf8::decode_utf8(kept);
        lemma_decode_without_nul(kept);
        crate::text::lemma_trim_chars_bounds(d);
        let (i, j) = choose|i: int, j: int| 0 <= i <= j <= d.len() && trim_chars(d) == d.subrange(i, j);
        assert forall|k: int| 0 <= k < r.len() implies r[k] != '\0' by {
            assert(r[k] == d[i + k]);
        }
    }
    let e = vstd::utf8::encode_utf8(r);
    lemma_encode_without_nul(r);
    lemma_non_nul_bytes(e);
    vstd::utf8::encode_utf8_valid_utf8(r);
    vstd::utf8::encode_utf8_decode_utf8(r);
    lemma_ansi_text_trimmed(bytes);
    crate::text::lemma_trim_chars_fixed(r);
}

/// The USB flag is set exactly for the eight USB mass storage enumerators;
/// every other enumerator name (such as `IDE`, `SCSI` or `SD`) is not USB.
pub proof fn lemma_usb_enumerators_exactly(name: Seq<char>)
    ensures
        is_usb_enumerator(name) <==> (name == "USBSTOR"@ || name == "UASPSTOR"@ || name
            == "VUSBSTOR"@ || name == "RTUSER"@ || name == "CMIUCR"@ || name == "EUCR"@ || name
            == "ETRONSTOR"@ || name == "ASUSSTPT"@),
{
}

/// The writability answer alone decides the read-only flag: after it, the
/// device is read-only exactly when the query failed, whatever else the
/// description holds (removable or not), and the next interface is taken up.
pub proof fn lemma_writable_answer_decides_read_only(
    index: u32,
    writable: bool,
    before: DeviceDescriptor,
    after: DeviceDescriptor,
    next: DetailStep,
)
    requires
        detail_transition(
            (DetailStep::ReadWritable { index }),
            DetailEvent::Writable(writable),
            before,
            after,
            next,
        ),
    ensures
        after.isReadOnly == !writable,
        after.isRemovable == before.isRemovable,
        after.isUSB == before.isUSB,
        next == (DetailStep::EnumerateInterface { index: (index + 1) as u32 }),
{
}

/// A device holds the system exactly when some system directory contains
/// the path of some one of its mount points, whichever it is.
pub proof fn lemma_system_volume_any_mount_point(mountpoints: Seq<MountPoint>, system_dirs: Seq<Vec<u8>>)
    ensures
        on_system_volume(mountpoints, system_dirs) <==> (exists|i: int, j: int|
            0 <= i < system_dirs.len() && 0 <= j < mountpoints.len() && #[trigger] has_substring(
                ansi_text(system_dirs[i]@),
                mountpoints[j].path@,
            )),
{
    if exists|i: int, j: int|
        0 <= i < system_dirs.len() && 0 <= j < mountpoints.len() && #[trigger] has_substring(
            ansi_text(system_dirs[i]@),
            mountpoints[j].path@,
        ) {
        let (i, j) = choose|i: int, j: int|
            0 <= i < system_dirs.len() && 0 <= j < mountpoints.len() && #[trigger] has_substring(
                ansi_text(system_dirs[i]@),
                mountpoints[j].path@,
            );
        assert(has_substring(ansi_text(system_dirs[i]@), mountpoints[j].path@));
    }
}

/// Adding a mount point never takes away the system flag, and a mount point
/// that lies under a system directory makes the device a system device
/// wherever it stands in the list.
pub proof fn lemma_system_volume_monotone(
    mountpoints: Seq<MountPoint>,
    extra: MountPoint,
    system_dirs: Seq<Vec<u8>>,
)
    ensures
        on_system_volume(mountpoints, system_dirs) ==> on_system_volume(
            mountpoints.push(extra),
            system_dirs,
        ),
        on_system_volume(seq![extra], system_dirs) ==> on_system_volume(
            seq![extra] + mountpoints,
            system_dirs,
        ),
{
    lemma_system_volume_any_mount_point(mountpoints, system_dirs);
    lemma_system_volume_any_mount_point(mountpoints.push(extra), system_dirs);
    lemma_system_volume_any_mount_point(seq![extra], system_dirs);
    lemma_system_volume_any_mount_point(seq![extra] + mountpoints, system_dirs);
    if on_system_volume(mountpoints, system_dirs) {
        let (i, j) = choose|i: int, j: int|
            0 <= i < system_dirs.len() && 0 <= j < mountpoints.len() && #[trigger] has_substring(
                ansi_text(system_dirs[i]@),
                mountpoints[j].path@,
            );
        assert(mountpoints.push(extra)[j] == mountpoints[j]);
        assert(has_substring(ansi_text(system_dirs[i]@), mountpoints.push(extra)[j].path@));
    }
    if on_system_volume(seq![extra], system_dirs) {
        let (i, j) = choose|i: int, j: int|
            0 <= i < system_dirs.len() && 0 <= j < 1 && #[trigger] has_substring(
                ansi_text(system_dirs[i]@),
                seq![extra][j].path@,
            );
        assert((seq![extra] + mountpoints)[0] == extra);
        assert(has_substring(ansi_text(system_dirs[i]@), (seq![extra] + mountpoints)[0].path@));
    }
}

/// A GPT layout always gives `gpt`, whatever its partition count, and
/// `mbr` is only ever given to an MBR layout (or kept from before).
pub proof fn lemma_partition_table_styles(layout: DriveLayout, before: Option<Seq<char>>)
    ensures
        layout.partition_style == PARTITION_STYLE_GPT ==> partition_table_after(layout, before)
            == Some("gpt"@),
        partition_table_after(layout, before) == Some("mbr"@) ==> layout.partition_style
            == PARTITION_STYLE_MBR || before == Some("mbr"@),
        layout.partition_style != PARTITION_STYLE_MBR && layout.partition_style
            != PARTITION_STYLE_GPT ==> partition_table_after(layout, before) == before,
{
    reveal_strlit("mbr");
    reveal_strlit("gpt");
    assert("mbr"@[0] != "gpt"@[0]);
}

} // verus!
