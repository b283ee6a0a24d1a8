use caravan::preflight::mountinfo::{
    decode_mountinfo_path, decode_octal_escape, detect_filesystem_type_from_mountinfo,
    path_is_within_mount,
};

#[test]
fn decode_mountinfo_path_decodes_octal_escapes() {
    let decoded = decode_mountinfo_path("/run/media/Game\\040SSD\\0403");
    assert_eq!(decoded, "/run/media/Game SSD 3");
}

#[test]
fn decode_mountinfo_path_keeps_invalid_escape_literal() {
    let decoded = decode_mountinfo_path("/mnt/data\\89x");
    assert_eq!(decoded, "/mnt/data\\89x");
}

#[test]
fn decode_mountinfo_path_keeps_a_short_trailing_escape() {
    assert_eq!(decode_mountinfo_path("/mnt/x\\04"), "/mnt/x\\04");
    assert_eq!(decode_mountinfo_path("\\134"), "\\");
}

#[test]
fn path_is_within_mount_handles_root_and_nested_mounts() {
    assert!(path_is_within_mount("/a/b", "/"));
    assert!(path_is_within_mount(
        "/run/media/disk/file.mkv",
        "/run/media/disk"
    ));
    assert!(!path_is_within_mount(
        "/run/media/disk2/file.mkv",
        "/run/media/disk"
    ));
}

#[test]
fn path_is_within_mount_accepts_the_mount_point_itself() {
    assert!(path_is_within_mount("/run/media/disk", "/run/media/disk"));
    assert!(!path_is_within_mount("relative/path", "/"));
}

#[test]
fn decode_octal_escape_handles_valid_and_invalid_digits() {
    assert_eq!(decode_octal_escape('0', '4', '0'), Some(' '));
    assert_eq!(decode_octal_escape('8', '4', '0'), None);
}

#[test]
fn decode_octal_escape_wraps_values_above_one_byte() {
    assert_eq!(decode_octal_escape('7', '7', '7'), Some('\u{ff}'));
    assert_eq!(decode_octal_escape('4', '0', '1'), Some('\u{1}'));
}

#[test]
fn detect_filesystem_type_from_mountinfo_selects_longest_match() {
    let mountinfo = "\
25 21 8:1 / / rw,relatime - ext4 /dev/sda1 rw
44 25 8:2 / /run/media/Game\\040SSD\\0403 rw,relatime - ntfs3 /dev/sdb1 rw
45 44 8:3 / /run/media/Game\\040SSD\\0403/Media rw,relatime - xfs /dev/sdc1 rw
";
    let fs_type =
        detect_filesystem_type_from_mountinfo("/run/media/Game SSD 3/Media/Films", mountinfo);
    assert_eq!(fs_type.as_deref(), Some("xfs"));
}

#[test]
fn detect_filesystem_type_from_mountinfo_ignores_malformed_lines() {
    let mountinfo = "\
this line has no separator
1 2 3 - ext4 /dev/sda1 rw
5 4 8:1 / /run/media rw,relatime - 
";
    let fs_type = detect_filesystem_type_from_mountinfo("/run/media/disk/file.mkv", mountinfo);
    assert_eq!(fs_type, None);
}

#[test]
fn detect_filesystem_type_from_mountinfo_uses_root_mount_fallback() {
    let mountinfo = "10 2 8:1 / / rw,relatime - btrfs /dev/nvme0n1p2 rw";
    let fs_type = detect_filesystem_type_from_mountinfo("/home/thalys/file.txt", mountinfo);
    assert_eq!(fs_type.as_deref(), Some("btrfs"));
}

#[test]
fn detect_filesystem_type_keeps_the_first_of_equally_long_mounts() {
    let mountinfo = "1 0 8:1 / /data rw - ext4 /dev/a rw\r\n2 0 8:2 / /data rw - xfs /dev/b rw\r\n";
    let fs_type = detect_filesystem_type_from_mountinfo("/data/x", mountinfo);
    assert_eq!(fs_type.as_deref(), Some("ext4"));
}
