use maestro_install::partition::{ByteSize, Disk, Partition};

#[test]
fn partitions_serialize0() {
    let parts0 = vec![];

    let script = Partition::serialize("/dev/sda", &parts0);
    let parts1 = Partition::deserialize(&script);

    assert!(parts1.is_empty());
}

#[test]
fn partitions_serialize1() {
    let parts0 = vec![Partition {
        start: 0,
        size: 1,

        part_type: "foo".to_string(),

        uuid: Some("bar".to_string()),

        bootable: false,
    }];

    let script = Partition::serialize("/dev/sda", &parts0);
    let parts1 = Partition::deserialize(&script);

    for (p0, p1) in parts0.iter().zip(&parts1) {
        assert_eq!(p0, p1);
    }
}

#[test]
fn bytesize() {
    assert_eq!(ByteSize(0).to_display_string().as_str(), "0 bytes");
    assert_eq!(ByteSize(1).to_display_string().as_str(), "1 bytes");
    assert_eq!(ByteSize(1023).to_display_string().as_str(), "1023 bytes");
    assert_eq!(ByteSize(1024).to_display_string().as_str(), "1 KiB");
    assert_eq!(ByteSize(1025).to_display_string().as_str(), "1 KiB");
    assert_eq!(ByteSize(2048).to_display_string().as_str(), "2 KiB");
    assert_eq!(ByteSize(1024 * 1024).to_display_string().as_str(), "1 MiB");
    assert_eq!(
        ByteSize(1024 * 1024 * 1024).to_display_string().as_str(),
        "1 GiB"
    );
    assert_eq!(
        ByteSize(1024 * 1024 * 1024 * 1024).to_display_string().as_str(),
        "1 TiB"
    );
}

#[test]
fn bytesize_from_sectors() {
    let b = ByteSize::from_sectors_count(4);
    assert_eq!(b.0, 2048);
    assert_eq!(b.to_display_string().as_str(), "2 KiB");
}

#[test]
fn serialize_exact_script() {
    let parts = vec![Partition {
        start: 2048,
        size: 262144,
        part_type: "ef00".to_string(),
        uuid: None,
        bootable: true,
    }];
    let script = Partition::serialize("/dev/sda", &parts);
    assert_eq!(
        script,
        "device: /dev/sda\nunit: sectors\n\n/dev/sda0 : start=2048, size=262144, type=ef00, bootable\n"
    );
}

#[test]
fn deserialize_bootable_and_spacing() {
    let script = "header line\n\n/dev/sda0 :  start = 10 ,size=20, type= ef00 , bootable\n";
    let parts = Partition::deserialize(script);
    assert_eq!(parts.len(), 1);
    assert_eq!(parts[0].start, 10);
    assert_eq!(parts[0].size, 20);
    assert_eq!(parts[0].part_type, "ef00");
    assert_eq!(parts[0].uuid, None);
    assert!(parts[0].bootable);
}

#[test]
fn deserialize_without_blank_line_is_empty() {
    let script = "device: /dev/sda\nunit: sectors\n";
    let parts = Partition::deserialize(script);
    assert!(parts.is_empty());
}

#[test]
fn disk_validity_and_accessors() {
    assert!(Disk::is_valid("/dev/sda"));
    assert!(!Disk::is_valid("/dev/sda1"));
    assert!(Disk::is_valid("/dev/nvme0n1"));
    assert!(!Disk::is_valid("/dev/nvme0n1p2"));
    assert!(!Disk::is_valid("/tmp/file"));

    let disk = Disk::new("/dev/sda".to_string(), 4096, Vec::new());
    assert_eq!(disk.get_dev_path(), "/dev/sda");
    assert_eq!(disk.get_size(), 4096);
    assert!(disk.partitions.is_empty());
}
