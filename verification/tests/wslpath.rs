use traybridge::wslpath::{temp_copy_dest, to_windows, to_wsl, LogicalDrives, PathError};

#[test]
fn test_logical_drives_is_present() {
    assert!(LogicalDrives(4).is_present(b'c'));
    assert!(LogicalDrives(1).is_present(b'A'));
}

#[test]
fn wslpath_test_logical_drives_is_present() {
    assert!(LogicalDrives(4).is_present(b'c'));
    assert!(LogicalDrives(1).is_present(b'A'));
}

#[test]
fn logical_drives_absent_or_not_a_letter() {
    assert!(!LogicalDrives(4).is_present(b'a'));
    assert!(!LogicalDrives(4).is_present(b'1'));
    assert!(!LogicalDrives(0).is_present(b'z'));
}

#[test]
fn test_win_path_to_wsl() {
    assert_eq!(
        to_wsl("Ubuntu", "C:\\Users\\admin").unwrap(),
        "/mnt/c/Users/admin"
    );
    assert_eq!(
        to_wsl("Ubuntu", "\\\\?\\C:\\Users\\admin").unwrap(),
        "/mnt/c/Users/admin"
    );
    assert_eq!(
        to_wsl("Ubuntu", "\\\\wsl.localhost\\Ubuntu\\home\\admin").unwrap(),
        "/home/admin"
    );
    assert_eq!(
        to_wsl("Ubuntu", "\\\\?\\UNC\\wsl.localhost\\Ubuntu\\home\\admin").unwrap(),
        "/home/admin"
    );
}

#[test]
fn wslpath_test_win_path_to_wsl() {
    assert_eq!(
        to_wsl("Ubuntu", "C:\\Users\\admin").unwrap(),
        "/mnt/c/Users/admin"
    );
    assert_eq!(
        to_wsl("Ubuntu", "\\\\wsl.localhost\\Ubuntu\\home\\admin").unwrap(),
        "/home/admin"
    );
}

#[test]
fn test_wsl_path_to_windows() {
    let drives = LogicalDrives(4);
    assert_eq!(
        to_windows("Ubuntu", &drives, "/mnt/asdf/foo.txt"),
        "\\\\wsl.localhost\\Ubuntu\\mnt\\asdf\\foo.txt"
    );
    assert_eq!(to_windows("Ubuntu", &drives, "/mnt/c/Users/"), "C:\\Users");
}

#[test]
fn wslpath_test_wsl_path_to_windows() {
    let drives = LogicalDrives(4);
    assert_eq!(
        to_windows("Ubuntu", &drives, "/mnt/asdf/foo.txt"),
        "\\\\wsl.localhost\\Ubuntu\\mnt\\asdf\\foo.txt"
    );
    assert_eq!(to_windows("Ubuntu", &drives, "/mnt/c/Users/"), "C:\\Users");
}

#[test]
fn wsl_path_to_windows_edges() {
    let drives = LogicalDrives(4);
    assert_eq!(to_windows("Ubuntu", &drives, ""), "");
    // a /mnt prefix whose drive is absent is joined as a relative path
    assert_eq!(to_windows("Ubuntu", &drives, "/mnt/d/x"), "mnt\\d\\x");
    // a bare present drive
    assert_eq!(to_windows("Ubuntu", &drives, "/mnt/c"), "C:\\");
}

#[test]
fn win_path_to_wsl_errors() {
    assert_eq!(
        to_wsl("Ubuntu", "relative\\path").unwrap_err(),
        PathError::Relative
    );
    assert_eq!(to_wsl("Ubuntu", "").unwrap_err(), PathError::Relative);
    assert_eq!(to_wsl("Ubuntu", "C:no_root").unwrap_err(), PathError::Relative);
    assert_eq!(
        to_wsl("Ubuntu", "\\\\server\\share\\x").unwrap_err(),
        PathError::UnsupportedShare
    );
    assert_eq!(
        to_wsl("Debian", "\\\\wsl.localhost\\Ubuntu\\x").unwrap_err(),
        PathError::UnsupportedShare
    );
    assert_eq!(
        to_wsl("Ubuntu", "\\\\.\\pipe\\x").unwrap_err(),
        PathError::UnsupportedPrefix
    );
    assert_eq!(
        to_wsl("Ubuntu", "\\\\?\\pipe\\x").unwrap_err(),
        PathError::UnsupportedPrefix
    );
    assert_eq!(
        to_wsl("Ubuntu", "C:\\a\\..\\b").unwrap_err(),
        PathError::UnsupportedComponent
    );
}

#[test]
fn win_path_to_wsl_dot_components() {
    assert_eq!(to_wsl("Ubuntu", "C:\\a\\.\\b").unwrap(), "/mnt/c/a/b");
    assert_eq!(to_wsl("Ubuntu", "C:\\a\\.hidden").unwrap(), "/mnt/c/a/.hidden");
    assert_eq!(to_wsl("Ubuntu", "C:\\").unwrap(), "/mnt/c/");
    assert_eq!(
        to_wsl("Ubuntu", "\\\\wsl.localhost\\Ubuntu").unwrap(),
        "/"
    );
}

#[test]
fn temp_copy_only_for_share_files() {
    assert_eq!(
        temp_copy_dest("Ubuntu", "C:\\Temp", "\\\\wsl.localhost\\Ubuntu\\home\\admin\\a.png")
            .unwrap(),
        "C:\\Temp\\Wormhole\\home\\admin\\a.png"
    );
    assert!(temp_copy_dest("Ubuntu", "C:\\Temp", "C:\\Users\\a.png").is_none());
    // a share whose distro merely starts with ours is a different share
    assert!(temp_copy_dest("Ubuntu", "C:\\Temp", "\\\\wsl.localhost\\UbuntuX\\a.png").is_none());
}
