use aoscbootstrap::deb::{
    check_entry_path, detect_compression, find_data_member, is_data_member, Compression,
    UnsafePath,
};

fn strings(items: &[&str]) -> Vec<String> {
    items.iter().map(|s| s.to_string()).collect()
}

#[test]
fn compression_is_told_by_the_first_bytes() {
    assert_eq!(detect_compression(&[0x1f, 0x8b, 0x08, 0x00]), Some(Compression::Gzip));
    assert_eq!(
        detect_compression(&[0xfd, 0x37, 0x7a, 0x58, 0x5a, 0x00, 0x00, 0x04]),
        Some(Compression::Xz)
    );
    assert_eq!(detect_compression(&[0x28, 0xb5, 0x2f, 0xfd, 0x24]), Some(Compression::Zstd));
}

#[test]
fn bare_magic_numbers_are_enough() {
    assert_eq!(detect_compression(&[0x1f, 0x8b]), Some(Compression::Gzip));
    assert_eq!(detect_compression(&[0xfd, 0x37, 0x7a, 0x58, 0x5a, 0x00]), Some(Compression::Xz));
    assert_eq!(detect_compression(&[0x28, 0xb5, 0x2f, 0xfd]), Some(Compression::Zstd));
}

#[test]
fn other_streams_have_no_known_compression() {
    assert_eq!(detect_compression(&[]), None);
    assert_eq!(detect_compression(&[0x1f]), None);
    assert_eq!(detect_compression(&[0x8b, 0x1f]), None);
    assert_eq!(detect_compression(&[0xfd, 0x37, 0x7a, 0x58, 0x5a]), None);
    assert_eq!(detect_compression(&[0xfd, 0x37, 0x7a, 0x58, 0x5a, 0x01]), None);
    assert_eq!(detect_compression(&[0x28, 0xb5, 0x2f]), None);
    assert_eq!(detect_compression(b"./usr/bin/bash"), None);
    assert_eq!(detect_compression(&[0x42, 0x5a, 0x68]), None);
}

#[test]
fn data_member_is_told_by_its_name() {
    assert!(is_data_member("data.tar"));
    assert!(is_data_member("data.tar.gz"));
    assert!(is_data_member("data.tar.xz"));
    assert!(is_data_member("data.tar.zst"));
    assert!(is_data_member("data.tar."));
    assert!(!is_data_member("control.tar.xz"));
    assert!(!is_data_member("debian-binary"));
    assert!(!is_data_member("data.tar2"));
    assert!(!is_data_member("data.tarxz"));
    assert!(!is_data_member("data.ta"));
    assert!(!is_data_member("Data.tar"));
    assert!(!is_data_member(""));
    assert!(!is_data_member("xdata.tar"));
}

#[test]
fn data_member_is_found_among_the_members() {
    assert_eq!(
        find_data_member(&strings(&["debian-binary", "control.tar.xz", "data.tar.xz"])),
        Some(2)
    );
    assert_eq!(
        find_data_member(&strings(&["data.tar.gz", "debian-binary", "data.tar.xz"])),
        Some(0)
    );
    assert_eq!(find_data_member(&strings(&["debian-binary", "control.tar.xz"])), None);
    assert_eq!(find_data_member(&[]), None);
}

#[test]
fn paths_inside_the_target_are_unpacked() {
    assert_eq!(check_entry_path("./usr/bin/bash"), Ok(()));
    assert_eq!(check_entry_path("usr/lib/x.so.1"), Ok(()));
    assert_eq!(check_entry_path("./"), Ok(()));
    assert_eq!(check_entry_path("."), Ok(()));
    assert_eq!(check_entry_path(""), Ok(()));
    assert_eq!(check_entry_path("a/.b/c."), Ok(()));
    assert_eq!(check_entry_path("a./.b"), Ok(()));
}

#[test]
fn absolute_paths_are_refused() {
    assert_eq!(check_entry_path("/etc/passwd"), Err(UnsafePath::Absolute));
    assert_eq!(check_entry_path("/"), Err(UnsafePath::Absolute));
    assert_eq!(check_entry_path("/../x"), Err(UnsafePath::Absolute));
}

#[test]
fn paths_with_two_dots_are_refused() {
    assert_eq!(check_entry_path("../etc/passwd"), Err(UnsafePath::Parent));
    assert_eq!(check_entry_path("./usr/../../etc"), Err(UnsafePath::Parent));
    assert_eq!(check_entry_path("a/.."), Err(UnsafePath::Parent));
    assert_eq!(check_entry_path(".."), Err(UnsafePath::Parent));
    assert_eq!(check_entry_path("a/b..c"), Err(UnsafePath::Parent));
    assert_eq!(check_entry_path("a/..."), Err(UnsafePath::Parent));
}
