use predator_sense_gui::command::{CommandOutput, CommandReply};
use predator_sense_gui::storage::{disk_from_line, list_disks, DiskUsage};

const DF: &str = "Filesystem     Type      1B-blocks        Used       Avail Use% Mounted on
tmpfs          tmpfs     1649754112     2277376  1647476736   1% /run
/dev/nvme0n1p2 ext4    502392610816 97338519552 379437109248  21% /
/dev/nvme0n1p3 ext4    100000000000 50000000000 50000000000   50% /home
/dev/sdb1      vfat      32000000000  1000000000 31000000000   4% /media/user/My Disk
/dev/nvme0n1p1 vfat        535805952     6369280   529436672   2% /boot/efi
/dev/loop0     squashfs     58130432    58130432           0 100% /snap/core/1
/dev/sdc1      ext4     2000000000  1000000000  1000000000  50% /mnt/data
";

fn reply(success: bool, text: &str) -> CommandReply {
    Ok(CommandOutput { success, stdout: text.to_string(), stderr: String::new() })
}

#[test]
fn lists_relevant_disks_root_boot_home_rest() {
    let disks = list_disks(&reply(true, DF));
    let mounts: Vec<&str> = disks.iter().map(|d| d.mount.as_str()).collect();
    assert_eq!(mounts, vec!["/", "/boot/efi", "/home", "/media/user/My Disk", "/mnt/data"]);
    let root = &disks[0];
    assert_eq!(root.device, "/dev/nvme0n1p2");
    assert_eq!(root.fstype, "ext4");
    assert_eq!(root.total_bytes, 502392610816);
    assert_eq!(root.used_bytes, 97338519552);
    assert_eq!(root.avail_bytes, 379437109248);
    assert_eq!(root.percent_text, "21");
}

#[test]
fn failed_df_lists_nothing() {
    assert!(list_disks(&reply(false, DF)).is_empty());
    assert!(list_disks(&Err("no df".to_string())).is_empty());
    assert!(list_disks(&reply(true, "")).is_empty());
}

#[test]
fn short_lines_get_defaults() {
    let d = disk_from_line("/dev/x ext4 12");
    assert_eq!(d.total_bytes, 12);
    assert_eq!(d.used_bytes, 0);
    assert_eq!(d.percent_text, "0");
    assert_eq!(d.mount, "");
    let d = disk_from_line("/dev/x ext4 abc 1 2 - /a b");
    assert_eq!(d.total_bytes, 0);
    assert_eq!(d.percent_text, "-");
    assert_eq!(d.mount, "/a b");
}

fn disk(mount: &str) -> DiskUsage {
    DiskUsage {
        device: String::new(),
        fstype: String::new(),
        mount: mount.to_string(),
        total_bytes: 1,
        used_bytes: 0,
        avail_bytes: 1,
        percent_text: String::new(),
    }
}

#[test]
fn labels() {
    assert_eq!(disk("/").label(), "Sistema (/)");
    assert_eq!(disk("/boot/efi").label(), "Boot · /boot/efi");
    assert_eq!(disk("/home").label(), "Home · /home");
    assert_eq!(disk("/mnt/data").label(), "Externo · /mnt/data");
    assert_eq!(disk("/media/u/x").label(), "Externo · /media/u/x");
    assert_eq!(disk("/srv").label(), "/srv");
}
