use container_utils::errors::UtilsError;
use container_utils::guarded_dir::verify_dir_metadata;
use container_utils::procfs::verify_procfs_type;
use container_utils::procfs::PROC_SUPER_MAGIC;
use container_utils::temp_dir::TempDir;

#[test]
fn test_verify_dir_metadata_accepts_matching_spec() {
    assert!(verify_dir_metadata("/tmp/spot", true, 1000, 0o700, 1000, 0o700).is_ok());
}

#[test]
fn test_verify_dir_metadata_tolerates_extra_bits() {
    assert!(verify_dir_metadata("/tmp/spot", true, 0, 0o40755, 0, 0o700).is_ok());
}

#[test]
fn test_verify_dir_metadata_rejects_missing_bits() {
    match verify_dir_metadata("/tmp/spot", true, 0, 0o500, 0, 0o700) {
        Err(UtilsError::DirectoryAttributeMismatch(p)) => assert_eq!(p, "/tmp/spot"),
        other => panic!("expected DirectoryAttributeMismatch, got {:?}", other),
    }
}

#[test]
fn test_verify_dir_metadata_rejects_wrong_owner() {
    match verify_dir_metadata("/tmp/spot", true, 1000, 0o700, 1001, 0o700) {
        Err(UtilsError::DirectoryAttributeMismatch(p)) => assert_eq!(p, "/tmp/spot"),
        other => panic!("expected DirectoryAttributeMismatch, got {:?}", other),
    }
}

#[test]
fn test_verify_dir_metadata_rejects_non_directory() {
    assert!(verify_dir_metadata("/tmp/spot", false, 0, 0o700, 0, 0o700).is_err());
}

#[test]
fn test_verify_dir_metadata_on_disk() {
    let path = "/tmp/container_utils_dir_check";
    let _ = nix::unistd::mkdir(path, nix::sys::stat::Mode::S_IRWXU);
    let st = nix::sys::stat::stat(path).unwrap();
    let is_dir = (st.st_mode & nix::sys::stat::SFlag::S_IFMT.bits())
        == nix::sys::stat::SFlag::S_IFDIR.bits();
    let uid = nix::unistd::getuid().as_raw();
    assert!(verify_dir_metadata(path, is_dir, st.st_uid, st.st_mode, uid, 0o700).is_ok());
    assert!(matches!(
        verify_dir_metadata(path, is_dir, st.st_uid, st.st_mode, uid + 1, 0o700),
        Err(UtilsError::DirectoryAttributeMismatch(_))
    ));
}

#[test]
fn test_procfs_magic_matches_kernel_constant() {
    assert_eq!(PROC_SUPER_MAGIC, nix::sys::statfs::PROC_SUPER_MAGIC.0 as i64);
}

#[test]
fn test_verify_procfs_type_on_real_mounts() {
    let proc_info = nix::sys::statfs::statfs("/proc/self").unwrap();
    assert!(verify_procfs_type("/proc/self", proc_info.filesystem_type().0 as i64).is_ok());

    let plain_info = nix::sys::statfs::statfs("/tmp").unwrap();
    match verify_procfs_type("/tmp", plain_info.filesystem_type().0 as i64) {
        Err(UtilsError::NotProcfs(p)) => assert_eq!(p, "/tmp"),
        other => panic!("expected NotProcfs, got {:?}", other),
    }
}

#[test]
fn test_temp_dir_lifecycle() {
    let mut t = TempDir::new(String::from("/tmp/container_utils_scratch"));
    assert!(t.is_active());
    assert_eq!(t.path().as_str(), "/tmp/container_utils_scratch");
    let handed_back = t.remove();
    assert_eq!(
        handed_back,
        Some(String::from("/tmp/container_utils_scratch"))
    );
    assert!(!t.is_active());
    assert_eq!(t.remove(), None);
}
