use maestro_install::install::{
    auto_partition_layout, partition_dev_path, InstallError, InstallInfo, PartitionDesc,
    PartitionTableType, PartitionType,
};
use maestro_install::lang::Language;

fn desc(start: u64, size: u64, part_type: &str, mount_path: Option<&str>) -> PartitionDesc {
    PartitionDesc {
        start,
        size,
        part_type: part_type.to_string(),
        bootable: false,
        mount_path: mount_path.map(|p| p.to_string()),
    }
}

fn base_info() -> InstallInfo {
    let mut info = InstallInfo::default();
    info.hostname = "myhost".to_string();
    info.admin_user = "alice".to_string();
    info.admin_pass = "X".to_string();
    info.selected_disk = "/dev/sda".to_string();
    info
}

#[test]
fn dev_path_is_disk_and_one_based_number() {
    assert_eq!(partition_dev_path("/dev/sda", 0), "/dev/sda1");
    assert_eq!(partition_dev_path("/dev/sda", 1), "/dev/sda2");
    assert_eq!(partition_dev_path("/dev/sda", 9), "/dev/sda10");
}

#[test]
fn partition_disks_maps_descriptors() {
    let mut info = base_info();
    info.partitions = vec![
        desc(2048, 2048, "21686148-6449-6E6F-744E-656564454649", None),
        desc(4096, 262144, "C12A7328-F81F-11D2-BA4B-00A0C93EC93B", Some("/boot")),
    ];
    let uuids = vec!["uuid-a".to_string(), "uuid-b".to_string()];
    let table = info.partition_disks(&uuids).unwrap();
    assert_eq!(table.table_type, PartitionTableType::Gpt);
    assert_eq!(table.entries.len(), 2);
    assert_eq!(table.entries[0].start, 2048);
    assert_eq!(table.entries[0].size, 2048);
    assert_eq!(table.entries[0].part_type, PartitionType::BiosBoot);
    assert_eq!(table.entries[0].uuid, "uuid-a");
    assert!(!table.entries[0].bootable);
    assert_eq!(table.entries[1].part_type, PartitionType::EfiSystem);
    assert_eq!(table.entries[1].uuid, "uuid-b");
}

#[test]
fn partition_disks_rejects_unknown_type() {
    let mut info = base_info();
    info.partitions = vec![desc(2048, 2048, "not-a-known-type", Some("/"))];
    let uuids = vec!["uuid-a".to_string()];
    let r = info.partition_disks(&uuids);
    assert_eq!(r.unwrap_err(), InstallError::UnknownPartitionType);
    assert_eq!(
        InstallError::UnknownPartitionType.message(),
        "unknown partition type"
    );
}

#[test]
fn create_filesystems_skips_unmounted() {
    let mut info = base_info();
    info.partitions = vec![
        desc(2048, 2048, "21686148-6449-6E6F-744E-656564454649", None),
        desc(4096, 262144, "C12A7328-F81F-11D2-BA4B-00A0C93EC93B", Some("/boot")),
        desc(266240, 1000, "44479540-F297-41B2-9AF7-D131D5F0458A", Some("/")),
    ];
    let cmds = info.create_filesystems();
    assert_eq!(cmds.len(), 2);
    assert_eq!(cmds[0].program, "mkfs.ext2");
    assert_eq!(cmds[0].args, vec!["/dev/sda2".to_string()]);
    assert_eq!(cmds[1].args, vec!["/dev/sda3".to_string()]);
}

#[test]
fn mount_order_parent_before_child() {
    let mut info = base_info();
    info.partitions = vec![
        desc(2048, 262144, "C12A7328-F81F-11D2-BA4B-00A0C93EC93B", Some("/boot")),
        desc(264192, 1000000, "44479540-F297-41B2-9AF7-D131D5F0458A", Some("/")),
    ];
    let steps = info.mount_filesystems();
    assert_eq!(steps.len(), 2);
    // `/` is a prefix of `/boot`, so the root is mounted first.
    assert_eq!(steps[0].target_dir, "/mnt/");
    assert_eq!(steps[0].dev_path, "/dev/sda2");
    assert_eq!(steps[1].target_dir, "/mnt/boot");
    assert_eq!(steps[1].dev_path, "/dev/sda1");
}

#[test]
fn mount_order_is_stable_for_equal_paths() {
    let mut info = base_info();
    info.partitions = vec![
        desc(1, 1, "t", Some("/data")),
        desc(2, 1, "t", Some("/data")),
        desc(3, 1, "t", Some("/boot")),
    ];
    let steps = info.mount_filesystems();
    assert_eq!(steps.len(), 3);
    assert_eq!(steps[0].target_dir, "/mnt/boot");
    // The two `/data` partitions keep their descriptor order.
    assert_eq!(steps[1].dev_path, "/dev/sda1");
    assert_eq!(steps[2].dev_path, "/dev/sda2");
}

#[test]
fn mount_skips_unmountable() {
    let mut info = base_info();
    info.partitions = vec![desc(1, 1, "t", None)];
    let steps = info.mount_filesystems();
    assert!(steps.is_empty());
}

#[test]
fn create_dirs_is_idempotent_and_has_no_duplicates() {
    let info = base_info();
    let once = info.create_dirs("/mnt");
    let twice = info.create_dirs("/mnt");
    assert_eq!(once, twice);
    for (i, a) in once.iter().enumerate() {
        for b in once.iter().skip(i + 1) {
            assert_ne!(a, b);
        }
    }
    assert!(once.contains(&"/mnt/bin".to_string()));
    assert!(once.contains(&"/mnt/usr/share/man".to_string()));
    assert!(once.contains(&"/mnt/var/lib/misc".to_string()));
}

#[test]
fn install_packages_dir_under_root() {
    let info = base_info();
    assert_eq!(info.install_packages("/mnt"), "/mnt/usr/lib/blimp");
}

#[test]
fn locale_file_two_lines() {
    let mut info = base_info();
    info.lang = Some(Language::new(
        "en".to_string(),
        "English".to_string(),
        "en_US.UTF-8".to_string(),
    ));
    let w = info.set_locales("/mnt").unwrap();
    assert_eq!(w.path, "/mnt/etc/locale.conf");
    assert_eq!(w.content, "LC_ALL=en_US.UTF-8\nLANG=en_US.UTF-8\n");
}

#[test]
fn locale_requires_language() {
    let info = base_info();
    let r = info.set_locales("/mnt");
    assert_eq!(r.unwrap_err(), InstallError::LanguageNotSet);
    assert_eq!(InstallError::LanguageNotSet.message(), "language is not set");
}

#[test]
fn hostname_file_exact() {
    let info = base_info();
    let w = info.set_hostname("/mnt");
    assert_eq!(w.path, "/mnt/etc/hostname");
    assert_eq!(w.content, "myhost");
}

#[test]
fn create_users_files_and_modes() {
    let info = base_info();
    let plan = info.create_users("/mnt", 19000);

    assert_eq!(plan.home_dir, "/mnt/home/alice");
    assert_eq!(plan.home_uid, 1000);
    assert_eq!(plan.home_gid, 1000);

    assert_eq!(plan.passwd.path, "/mnt/etc/passwd");
    assert_eq!(
        plan.passwd.content,
        "root:x:0:0::/root:/bin/bash\nalice:x:1000:1000::/home/alice:/bin/bash\n"
    );
    assert_eq!(plan.passwd_mode, 0o644);

    assert_eq!(plan.shadow.path, "/mnt/etc/shadow");
    assert_eq!(
        plan.shadow.content,
        "root:X:19000::::::\nalice:X:19000::::::\n"
    );
    assert_eq!(plan.shadow_mode, 0o600);

    assert_eq!(plan.group.path, "/mnt/etc/group");
    assert_eq!(plan.group.content, "root:x:0:root\nalice:x:1000:alice\n");
    assert_eq!(plan.group_mode, 0o644);
}

#[test]
fn bootloader_plan() {
    let info = base_info();
    let plan = info.install_bootloader("/mnt");
    assert_eq!(plan.command.program, "grub-install");
    assert_eq!(
        plan.command.args,
        vec![
            "--target=i386-pc".to_string(),
            "--boot-directory=/mnt/boot".to_string(),
            "/dev/sda".to_string(),
        ]
    );
    assert_eq!(plan.config.path, "/mnt/boot/grub/grub.cfg");
    assert!(plan.config.content.starts_with("set default=0\n"));
}

#[test]
fn unmount_command() {
    let info = base_info();
    let cmd = info.unmount_filesystems("/mnt");
    assert_eq!(cmd.program, "umount");
    assert_eq!(cmd.args, vec!["-R".to_string(), "/mnt".to_string()]);
}

#[test]
fn auto_layout_three_partitions() {
    let parts = auto_partition_layout(1000000);
    assert_eq!(parts.len(), 3);
    assert_eq!(parts[0].start, 2048);
    assert_eq!(parts[0].size, 2048);
    assert_eq!(parts[0].mount_path, None);
    assert!(!parts[0].bootable);
    assert_eq!(parts[1].start, 4096);
    assert_eq!(parts[1].size, 262144);
    assert_eq!(parts[1].mount_path, Some("/boot".to_string()));
    assert!(parts[1].bootable);
    assert_eq!(parts[2].start, 266240);
    assert_eq!(parts[2].size, 1000000 - 266240);
    assert_eq!(parts[2].mount_path, Some("/".to_string()));
}

#[test]
fn descriptor_display() {
    let d = PartitionDesc {
        start: 2048,
        size: 262144,
        part_type: "t".to_string(),
        bootable: true,
        mount_path: Some("/boot".to_string()),
    };
    assert_eq!(
        d.to_display_string(),
        "start: 2048, size: 262144 sectors, bootable, mount path: /boot "
    );
}

#[test]
fn language_display() {
    let l = Language::new(
        "en".to_string(),
        "English".to_string(),
        "en_US.UTF-8".to_string(),
    );
    assert_eq!(l.to_display_string(), "en - English");
    assert_eq!(l.get_name(), "en");
    assert_eq!(l.get_locale(), "en_US.UTF-8");
}
