use rs_drivelist::add;
use rs_drivelist::device::{DeviceDescriptor, JsonMember, JsonNode, LsblkEntry, MountPoint};
use rs_drivelist::text::{decimal_string, text_contains, text_eq};
use rs_drivelist::windows::{
    ansi_to_string, classify_device, describe_device, get_adapter_info, get_available_volumes,
    get_bus_type, get_detail_data, get_device_block_size, get_device_number, get_device_size,
    get_enumerator_name, get_friendly_name, get_mount_points, get_partition_table_type, list_step,
    ListEvent,
    is_fixed_or_removable, is_removable, is_system_device, is_usb_drive, volume_root, DetailEvent,
    DetailStep, DiskGeometry, DriveLayout, StorageAccessAlignment, StorageAdapterDescriptor,
    VolumeDiskExtents, VolumeProbe,
};

#[test]
fn it_works() {
    let result = add(2, 2);
    assert_eq!(result, 4);
}

#[test]
fn add_sums_large_sizes() {
    assert_eq!(add(usize::MAX - 1, 1), usize::MAX);
    assert_eq!(add(0, 0), 0);
}

#[test]
fn mount_point_new_keeps_the_path_only() {
    let m = MountPoint::new("C:\\");
    assert_eq!(m.path, "C:\\");
    assert_eq!(m.label, None);
    assert_eq!(m.totalBytes, None);
    assert_eq!(m.availableBytes, None);
}

#[test]
fn mount_point_default_is_empty() {
    let m = MountPoint::default();
    assert_eq!(m, MountPoint::new(""));
}

#[test]
fn lsblk_entry_prefers_the_filesystem_label() {
    let m = MountPoint::from_lsblk(LsblkEntry {
        mountpoint: Some("/boot".to_string()),
        label: Some("BOOT".to_string()),
        partlabel: Some("EFI System".to_string()),
    });
    assert_eq!(m.path, "/boot");
    assert_eq!(m.label, Some("BOOT".to_string()));
    assert_eq!(m.totalBytes, None);
    assert_eq!(m.availableBytes, None);
}

#[test]
fn lsblk_entry_falls_back_to_the_partition_label() {
    let m = MountPoint::from_lsblk(LsblkEntry {
        mountpoint: None,
        label: None,
        partlabel: Some("data".to_string()),
    });
    assert_eq!(m.path, "");
    assert_eq!(m.label, Some("data".to_string()));
    let none = MountPoint::from_lsblk(LsblkEntry { mountpoint: None, label: None, partlabel: None });
    assert_eq!(none.label, None);
}

#[test]
fn default_descriptor_has_512_byte_blocks() {
    let d = DeviceDescriptor::default();
    assert_eq!(d.blockSize, 512);
    assert_eq!(d.logicalBlockSize, 512);
    assert_eq!(d.size, 0);
    assert_eq!(d.enumerator, "");
    assert_eq!(d.error, None);
    assert_eq!(d.isUAS, None);
    assert!(d.mountpoints.is_empty());
    assert!(!d.isSystem && !d.isRemovable && !d.isUSB && !d.isCard && !d.isVirtual);
}

fn member(key: &str, value: JsonNode) -> JsonMember {
    JsonMember { key: key.to_string(), value }
}

fn text(s: &str) -> JsonNode {
    JsonNode::Text(s.to_string())
}

#[test]
fn mount_point_json_has_its_four_members() {
    let mut m = MountPoint::new("C:\\");
    m.totalBytes = Some(136773103616);
    assert_eq!(
        m.to_json(),
        JsonNode::Object(vec![
            member("path", text("C:\\")),
            member("label", JsonNode::Null),
            member("totalBytes", JsonNode::Unsigned(136773103616)),
            member("availableBytes", JsonNode::Null),
        ])
    );
}

#[test]
fn device_json_lists_the_fields_in_order() {
    let mut d = DeviceDescriptor::default();
    d.enumerator = "SCSI".to_string();
    d.busType = Some("NVME".to_string());
    d.device = "\\\\.\\PhysicalDrive0".to_string();
    d.size = u64::MAX;
    d.blockSize = 4096;
    d.logicalBlockSize = 0x8000_0000;
    d.mountpoints.push(MountPoint::new("C:\\"));
    d.mountpointLabels.push("System".to_string());
    d.isSystem = true;
    d.isUAS = Some(false);
    let expected = JsonNode::Object(vec![
        member("enumerator", text("SCSI")),
        member("busType", text("NVME")),
        member("busVersion", JsonNode::Null),
        member("device", text("\\\\.\\PhysicalDrive0")),
        member("devicePath", JsonNode::Null),
        member("raw", text("")),
        member("description", text("")),
        member("error", JsonNode::Null),
        member("partitionTableType", JsonNode::Null),
        member("size", JsonNode::Signed(-1)),
        member("blockSize", JsonNode::Signed(4096)),
        member("logicalBlockSize", JsonNode::Signed(-2147483648)),
        member(
            "mountpoints",
            JsonNode::Array(vec![JsonNode::Object(vec![
                member("path", text("C:\\")),
                member("label", JsonNode::Null),
                member("totalBytes", JsonNode::Null),
                member("availableBytes", JsonNode::Null),
            ])]),
        ),
        member("isReadOnly", JsonNode::Bool(false)),
        member("isSystem", JsonNode::Bool(true)),
        member("isCard", JsonNode::Bool(false)),
        member("isSCSI", JsonNode::Bool(false)),
        member("isUSB", JsonNode::Bool(false)),
        member("isVirtual", JsonNode::Bool(false)),
        member("isRemovable", JsonNode::Bool(false)),
        member("isUAS", JsonNode::Bool(false)),
    ]);
    assert_eq!(d.to_json(), expected);
}

#[test]
fn device_json_ignores_mount_point_labels() {
    let a = DeviceDescriptor::default();
    let mut b = DeviceDescriptor::default();
    b.mountpointLabels.push("Data".to_string());
    assert_eq!(a.to_json(), b.to_json());
}

fn adapter(bus_type: u8) -> StorageAdapterDescriptor {
    StorageAdapterDescriptor { bus_type, bus_major_version: 2, bus_minor_version: 0 }
}

#[test]
fn bus_type_names() {
    let names = [
        (0, "UNKNOWN"),
        (1, "SCSI"),
        (2, "ATAPI"),
        (3, "ATA"),
        (4, "1394"),
        (5, "SSA"),
        (6, "FIBRE"),
        (7, "USB"),
        (8, "RAID"),
        (9, "iSCSI"),
        (10, "SAS"),
        (11, "SATA"),
        (12, "SDCARD"),
        (13, "MMC"),
        (14, "VIRTUAL"),
        (15, "FILEBACKEDVIRTUAL"),
        (16, "INVALID"),
        (17, "NVME"),
        (18, "SCM"),
        (19, "UFS"),
        (20, "INVALID"),
        (255, "INVALID"),
    ];
    for (code, name) in names {
        assert_eq!(get_bus_type(&adapter(code)), name);
    }
}

#[test]
fn usb_enumerators() {
    for name in ["USBSTOR", "UASPSTOR", "VUSBSTOR", "RTUSER", "CMIUCR", "EUCR", "ETRONSTOR", "ASUSSTPT"] {
        assert!(is_usb_drive(name));
    }
    assert!(!is_usb_drive("usbstor"));
    assert!(!is_usb_drive("SCSI"));
    assert!(!is_usb_drive(""));
    assert!(!is_usb_drive("USBSTOR "));
}

#[test]
fn removal_policies() {
    assert!(is_removable(2));
    assert!(is_removable(3));
    assert!(!is_removable(1));
    assert!(!is_removable(0));
    assert!(!is_removable(4));
}

#[test]
fn available_volumes_follow_the_mask() {
    assert_eq!(get_available_volumes(0b101), vec!['A', 'C']);
    assert_eq!(get_available_volumes(0), Vec::<char>::new());
    assert_eq!(get_available_volumes(0b1100), vec!['C', 'D']);
    let all = get_available_volumes(u32::MAX);
    assert_eq!(all.len(), 32);
    assert_eq!(all[0], 'A');
    assert_eq!(all[25], 'Z');
    assert_eq!(all[31], '`');
    assert_eq!(get_available_volumes(1 << 31), vec!['`']);
}

#[test]
fn drive_types() {
    assert!(is_fixed_or_removable(3));
    assert!(is_fixed_or_removable(2));
    assert!(!is_fixed_or_removable(4));
    assert!(!is_fixed_or_removable(5));
    assert_eq!(volume_root('E'), "E:\\");
}

#[test]
fn device_number_settlement() {
    let one = Some(VolumeDiskExtents { number_of_disk_extents: 1, first_disk_number: 4 });
    let two = Some(VolumeDiskExtents { number_of_disk_extents: 2, first_disk_number: 4 });
    assert_eq!(get_device_number(one, Some(7)), 7);
    assert_eq!(get_device_number(one, None), 4);
    assert_eq!(get_device_number(two, Some(7)), -1);
    assert_eq!(get_device_number(None, Some(2)), 2);
    assert_eq!(get_device_number(None, None), -1);
    assert_eq!(get_device_number(None, Some(u32::MAX)), -1);
}

#[test]
fn ansi_text_is_filtered_decoded_and_trimmed() {
    assert_eq!(ansi_to_string(b"  Samsung SSD\0\0\0"), "Samsung SSD");
    assert_eq!(ansi_to_string(b"S\0C\0S\0I\0\0\0"), "SCSI");
    assert_eq!(ansi_to_string(&[0xff, 0x41]), "");
    assert_eq!(ansi_to_string(&[]), "");
    assert_eq!(ansi_to_string("\u{3000}disk\u{a0}\t".as_bytes()), "disk");
    assert_eq!(ansi_to_string("é".as_bytes()), "é");
}

#[test]
fn registry_names() {
    assert_eq!(get_enumerator_name(None), "");
    assert_eq!(get_enumerator_name(Some(b"U\0S\0B\0S\0T\0O\0R\0\0\0")), "USBSTOR");
    assert_eq!(get_friendly_name(Some(b" Kingston DataTraveler \0")), "Kingston DataTraveler");
    assert_eq!(get_friendly_name(None), "");
}

fn probe(letter: char, drive_type: u32, device_number: Option<i32>) -> VolumeProbe {
    VolumeProbe { letter, drive_type, device_number, total_bytes: None, available_bytes: None }
}

fn padded(text: &str) -> Vec<u8> {
    let mut v = text.as_bytes().to_vec();
    v.resize(260, 0);
    v
}

#[test]
fn system_device_holds_a_system_directory() {
    let mut d = DeviceDescriptor::default();
    d.mountpoints.push(MountPoint::new("D:\\"));
    let dirs = vec![padded("C:\\Windows"), padded("C:\\Program Files")];
    assert!(!is_system_device(&d, &dirs));
    d.mountpoints.push(MountPoint::new("C:\\"));
    assert!(is_system_device(&d, &dirs));
    assert!(!is_system_device(&d, &Vec::new()));
    assert!(!is_system_device(&DeviceDescriptor::default(), &dirs));
}

#[test]
fn mount_points_of_a_disk() {
    let probes = vec![
        probe('C', 3, Some(0)),
        probe('D', 3, Some(1)),
        probe('E', 5, Some(0)),
        probe('F', 2, None),
        probe('G', 2, Some(0)),
    ];
    let mut points = vec![MountPoint::new("X:\\")];
    get_mount_points(0, &probes, &mut points);
    let paths: Vec<&str> = points.iter().map(|m| m.path.as_str()).collect();
    assert_eq!(paths, vec!["X:\\", "C:\\", "G:\\"]);
    let mut none = Vec::new();
    get_mount_points(-1, &[probe('H', 3, Some(-1))].to_vec(), &mut none);
    assert!(none.is_empty());
}

#[test]
fn device_size_and_block_sizes() {
    let mut d = DeviceDescriptor::default();
    get_device_size(&mut d, &DiskGeometry { disk_size: 512110190592, bytes_per_sector: 512 });
    assert_eq!(d.size, 512110190592);
    assert_eq!(d.blockSize, 512);
    get_device_size(&mut d, &DiskGeometry { disk_size: -1, bytes_per_sector: 4096 });
    assert_eq!(d.size, u64::MAX);
    assert_eq!(d.blockSize, 4096);
    get_device_block_size(&mut d, &StorageAccessAlignment { bytes_per_logical_sector: 512, bytes_per_physical_sector: 4096 });
    assert_eq!(d.blockSize, 4096);
    assert_eq!(d.logicalBlockSize, 512);
}

#[test]
fn partition_table_types() {
    let mut d = DeviceDescriptor::default();
    get_partition_table_type(&mut d, &DriveLayout { partition_style: 0, partition_count: 3 });
    assert_eq!(d.partitionTableType, None);
    get_partition_table_type(&mut d, &DriveLayout { partition_style: 0, partition_count: 4 });
    assert_eq!(d.partitionTableType, Some("mbr".to_string()));
    get_partition_table_type(&mut d, &DriveLayout { partition_style: 1, partition_count: 3 });
    assert_eq!(d.partitionTableType, Some("gpt".to_string()));
    get_partition_table_type(&mut d, &DriveLayout { partition_style: 2, partition_count: 0 });
    assert_eq!(d.partitionTableType, Some("gpt".to_string()));
}

#[test]
fn adapter_info_sets_bus_type_and_version() {
    let mut d = DeviceDescriptor::default();
    get_adapter_info(&mut d, &StorageAdapterDescriptor { bus_type: 17, bus_major_version: 2, bus_minor_version: 0 });
    assert_eq!(d.busType, Some("NVME".to_string()));
    assert_eq!(d.busVersion, Some("2.0".to_string()));
    get_adapter_info(&mut d, &StorageAdapterDescriptor { bus_type: 7, bus_major_version: 65535, bus_minor_version: 10 });
    assert_eq!(d.busType, Some("USB".to_string()));
    assert_eq!(d.busVersion, Some("65535.10".to_string()));
}

#[test]
fn detail_gathering_of_one_disk() {
    let mut d = describe_device("SCSI".to_string(), "SKHynix".to_string(), 1).unwrap();
    let mut step = DetailStep::EnumerateInterface { index: 0 };
    step = get_detail_data(&mut d, step, DetailEvent::InterfaceOpened);
    assert_eq!(step, DetailStep::ReadDeviceNumber { index: 0 });
    step = get_detail_data(&mut d, step, DetailEvent::DeviceNumber(3));
    assert_eq!(step, DetailStep::ProbeVolumes { index: 0, device_number: 3 });
    assert_eq!(d.device, "\\\\.\\PhysicalDrive3");
    assert_eq!(d.raw, "\\\\.\\PhysicalDrive3");
    assert_eq!(d.devicePath, None);
    step = get_detail_data(
        &mut d,
        step,
        DetailEvent::Volumes(vec![
            probe('C', 3, Some(3)),
            probe('D', 3, Some(1)),
        ]),
    );
    assert_eq!(step, DetailStep::OpenPhysical { index: 0 });
    assert_eq!(d.mountpoints, vec![MountPoint::new("C:\\")]);
    step = get_detail_data(&mut d, step, DetailEvent::PhysicalOpened(true));
    assert_eq!(step, DetailStep::ReadGeometry { index: 0 });
    step = get_detail_data(&mut d, step, DetailEvent::Geometry(Ok(DiskGeometry { disk_size: 1000, bytes_per_sector: 512 })));
    assert_eq!(step, DetailStep::ReadLayout { index: 0 });
    step = get_detail_data(&mut d, step, DetailEvent::Layout(Ok(DriveLayout { partition_style: 1, partition_count: 5 })));
    assert_eq!(step, DetailStep::ReadAdapter { index: 0 });
    step = get_detail_data(&mut d, step, DetailEvent::Adapter(Ok(adapter(17))));
    assert_eq!(step, DetailStep::ReadAlignment { index: 0 });
    step = get_detail_data(
        &mut d,
        step,
        DetailEvent::Alignment(Ok(StorageAccessAlignment { bytes_per_logical_sector: 512, bytes_per_physical_sector: 4096 })),
    );
    assert_eq!(step, DetailStep::ReadWritable { index: 0 });
    step = get_detail_data(&mut d, step, DetailEvent::Writable(false));
    assert_eq!(step, DetailStep::EnumerateInterface { index: 1 });
    step = get_detail_data(&mut d, step, DetailEvent::InterfaceEnded);
    assert_eq!(step, DetailStep::Done);
    assert_eq!(d.size, 1000);
    assert_eq!(d.blockSize, 4096);
    assert_eq!(d.logicalBlockSize, 512);
    assert_eq!(d.partitionTableType, Some("gpt".to_string()));
    assert_eq!(d.busType, Some("NVME".to_string()));
    assert_eq!(d.busVersion, Some("2.0".to_string()));
    assert!(d.isReadOnly);
    assert_eq!(d.error, None);
    assert_eq!(d.description, "SKHynix");
    assert_eq!(d.enumerator, "SCSI");
}

fn with_path() -> DeviceDescriptor {
    let mut d = DeviceDescriptor::default();
    d.device = "\\\\.\\PhysicalDrive0".to_string();
    d.raw = d.device.clone();
    d
}

#[test]
fn detail_gathering_errors() {
    let mut d = with_path();
    assert_eq!(get_detail_data(&mut d, DetailStep::ReadDeviceNumber { index: 0 }, DetailEvent::DeviceNumber(-1)), DetailStep::Done);
    assert_eq!(d.error, Some("Couldn't get device number".to_string()));

    let mut d = with_path();
    assert_eq!(get_detail_data(&mut d, DetailStep::OpenPhysical { index: 2 }, DetailEvent::PhysicalOpened(false)), DetailStep::Done);
    assert_eq!(d.error, Some("Cannot open: \\\\.\\PhysicalDrive0".to_string()));

    let mut d = with_path();
    assert_eq!(get_detail_data(&mut d, DetailStep::ReadGeometry { index: 0 }, DetailEvent::Geometry(Err(21))), DetailStep::Done);
    assert_eq!(d.error, Some("Couldn't get disk geometry: Error 21".to_string()));

    let mut d = with_path();
    assert_eq!(get_detail_data(&mut d, DetailStep::ReadLayout { index: 0 }, DetailEvent::Layout(Err(1))), DetailStep::Done);
    assert_eq!(d.error, Some("Couldn't get partition type: Error 1".to_string()));

    let mut d = with_path();
    assert_eq!(get_detail_data(&mut d, DetailStep::ReadAdapter { index: 0 }, DetailEvent::Adapter(Err(50))), DetailStep::Done);
    assert_eq!(d.error, Some("Couldn't get adapter info: Error 50".to_string()));

    let mut d = with_path();
    assert_eq!(get_detail_data(&mut d, DetailStep::ReadAlignment { index: 0 }, DetailEvent::Alignment(Err(4294967295))), DetailStep::Done);
    assert_eq!(d.error, Some("Couldn't get device block size: Error 4294967295".to_string()));

    let mut d = with_path();
    assert_eq!(get_detail_data(&mut d, DetailStep::ReadGeometry { index: 0 }, DetailEvent::InterfaceEnded), DetailStep::Done);
    assert_eq!(d.error, None);
}

#[test]
fn distinct_disks_get_distinct_paths() {
    let mut a = DeviceDescriptor::default();
    let mut b = DeviceDescriptor::default();
    get_detail_data(&mut a, DetailStep::ReadDeviceNumber { index: 0 }, DetailEvent::DeviceNumber(1));
    get_detail_data(&mut b, DetailStep::ReadDeviceNumber { index: 0 }, DetailEvent::DeviceNumber(11));
    assert_eq!(a.device, "\\\\.\\PhysicalDrive1");
    assert_eq!(b.device, "\\\\.\\PhysicalDrive11");
    assert_ne!(a.device, b.device);
    assert_eq!(a.devicePath, None);
}

#[test]
fn describe_device_needs_a_friendly_name() {
    assert!(describe_device("USBSTOR".to_string(), String::new(), 3).is_none());
    let d = describe_device("USBSTOR".to_string(), "Kingston".to_string(), 3).unwrap();
    assert!(d.isUSB);
    assert!(d.isRemovable);
    assert_eq!(d.description, "Kingston");
    assert_eq!(d.enumerator, "USBSTOR");
    assert_eq!(d.blockSize, 512);
    let e = describe_device("SCSI".to_string(), "Disk".to_string(), 1).unwrap();
    assert!(!e.isUSB);
    assert!(!e.isRemovable);
}

#[test]
fn classification_from_the_bus() {
    let none: Vec<Vec<u8>> = Vec::new();
    let mut card = DeviceDescriptor::default();
    card.busType = Some("SDCARD".to_string());
    classify_device(&mut card, &none);
    assert!(card.isCard);
    assert_eq!(card.isUAS, Some(false));
    assert!(!card.isVirtual);

    let mut uas = DeviceDescriptor::default();
    uas.enumerator = "SCSI".to_string();
    uas.busType = Some("USB".to_string());
    classify_device(&mut uas, &none);
    assert_eq!(uas.isUAS, Some(true));
    assert!(!uas.isCard);

    let mut unknown = DeviceDescriptor::default();
    unknown.enumerator = "SCSI".to_string();
    classify_device(&mut unknown, &none);
    assert_eq!(unknown.isUAS, Some(false));
    assert!(!unknown.isCard && !unknown.isVirtual && !unknown.isSystem);

    let mut virt = DeviceDescriptor::default();
    virt.busType = Some("FILEBACKEDVIRTUAL".to_string());
    classify_device(&mut virt, &none);
    assert!(virt.isVirtual);

    let mut mmc = DeviceDescriptor::default();
    mmc.busType = Some("MMC".to_string());
    mmc.isVirtual = true;
    classify_device(&mut mmc, &none);
    assert!(mmc.isCard);
    assert!(mmc.isVirtual);

    let mut system = DeviceDescriptor::default();
    system.mountpoints.push(MountPoint::new("C:\\"));
    classify_device(&mut system, &vec![padded("C:\\Windows")]);
    assert!(system.isSystem);
}

#[test]
fn classifying_twice_changes_nothing() {
    let dirs = vec![padded("C:\\Windows")];
    let mut d = DeviceDescriptor::default();
    d.enumerator = "SCSI".to_string();
    d.busType = Some("VIRTUAL".to_string());
    d.mountpoints.push(MountPoint::new("C:\\"));
    classify_device(&mut d, &dirs);
    let mut again = DeviceDescriptor::default();
    again.enumerator = "SCSI".to_string();
    again.busType = Some("VIRTUAL".to_string());
    again.mountpoints.push(MountPoint::new("C:\\"));
    classify_device(&mut again, &dirs);
    classify_device(&mut again, &dirs);
    assert_eq!(d, again);
}

#[test]
fn decimal_rendering() {
    assert_eq!(decimal_string(0), "0");
    assert_eq!(decimal_string(7), "7");
    assert_eq!(decimal_string(42), "42");
    assert_eq!(decimal_string(1000), "1000");
    assert_eq!(decimal_string(u64::MAX), "18446744073709551615");
}

#[test]
fn text_comparison_and_search() {
    assert!(text_eq("SCSI", "SCSI"));
    assert!(!text_eq("SCSI", "SCS"));
    assert!(text_eq("", ""));
    assert!(text_contains("C:\\Windows", "C:\\"));
    assert!(text_contains("C:\\Windows", ""));
    assert!(!text_contains("C:\\Windows", "D:\\"));
    assert!(!text_contains("C:", "C:\\"));
    assert!(text_contains("abcabd", "abd"));
}

#[test]
fn card_and_virtual_flags_follow_the_bus_code() {
    for code in 0..=255u8 {
        let mut d = DeviceDescriptor::default();
        get_adapter_info(&mut d, &adapter(code));
        classify_device(&mut d, &Vec::new());
        assert_eq!(d.isCard, code == 12 || code == 13);
        assert_eq!(d.isVirtual, code == 14 || code == 15);
        assert!(!(d.isCard && d.isUAS == Some(true)));
    }
}

#[test]
fn mount_points_carry_the_volume_sizes() {
    let probes = vec![
        VolumeProbe { letter: 'C', drive_type: 3, device_number: Some(0), total_bytes: Some(136773103616), available_bytes: Some(24087683072) },
        VolumeProbe { letter: 'D', drive_type: 3, device_number: Some(0), total_bytes: None, available_bytes: None },
    ];
    let mut points = Vec::new();
    get_mount_points(0, &probes, &mut points);
    assert_eq!(points.len(), 2);
    assert_eq!(points[0].path, "C:\\");
    assert_eq!(points[0].totalBytes, Some(136773103616));
    assert_eq!(points[0].availableBytes, Some(24087683072));
    assert_eq!(points[1].totalBytes, None);
    assert_eq!(points[1].availableBytes, None);
}

#[test]
fn failed_open_names_the_device() {
    let mut d = DeviceDescriptor::default();
    get_detail_data(&mut d, DetailStep::ReadDeviceNumber { index: 0 }, DetailEvent::DeviceNumber(5));
    let next = get_detail_data(&mut d, DetailStep::OpenPhysical { index: 0 }, DetailEvent::PhysicalOpened(false));
    assert_eq!(next, DetailStep::Done);
    assert_eq!(d.error, Some("Cannot open: \\\\.\\PhysicalDrive5".to_string()));
    assert_eq!(d.devicePath, None);
}

#[test]
fn list_keeps_named_devices_in_order() {
    let mut drives = Vec::new();
    let first = describe_device("SCSI".to_string(), "First".to_string(), 1).unwrap();
    let second = describe_device("USBSTOR".to_string(), "Second".to_string(), 3).unwrap();
    assert_eq!(list_step(&mut drives, 0, ListEvent::Device(Some(first))), Some(1));
    assert_eq!(list_step(&mut drives, 1, ListEvent::Device(None)), Some(2));
    assert_eq!(list_step(&mut drives, 2, ListEvent::Device(Some(second))), Some(3));
    assert_eq!(list_step(&mut drives, 3, ListEvent::End), None);
    let names: Vec<&str> = drives.iter().map(|d| d.description.as_str()).collect();
    assert_eq!(names, vec!["First", "Second"]);
    assert_eq!(list_step(&mut drives, u32::MAX - 1, ListEvent::Device(None)), Some(u32::MAX));
    assert_eq!(drives.len(), 2);
    assert_eq!(list_step(&mut drives, u32::MAX, ListEvent::End), None);
    assert_eq!(drives.len(), 2);
}

#[test]
fn listed_device_flags_follow_its_bus() {
    let mut d = describe_device("SCSI".to_string(), "Bridge".to_string(), 2).unwrap();
    get_detail_data(&mut d, DetailStep::ReadAdapter { index: 0 }, DetailEvent::Adapter(Ok(adapter(7))));
    classify_device(&mut d, &Vec::new());
    assert!(!d.isUSB);
    assert_eq!(d.isUAS, Some(true));
    assert!(!d.isCard && !d.isVirtual && !d.isSystem);
    assert!(d.isRemovable);
}

#[test]
fn ansi_text_is_stable_and_free_of_nul() {
    let inputs: Vec<Vec<u8>> = vec![
        b"  Samsung SSD\0\0\0".to_vec(),
        b"S\0C\0S\0I\0\0\0".to_vec(),
        vec![0xff, 0x41],
        "\u{3000}disk\u{a0}\t".as_bytes().to_vec(),
        b"\0\0\0".to_vec(),
    ];
    for input in inputs {
        let once = ansi_to_string(&input);
        assert!(!once.contains('\0'));
        assert_eq!(ansi_to_string(once.as_bytes()), once);
        assert_eq!(once.trim(), once);
    }
}
