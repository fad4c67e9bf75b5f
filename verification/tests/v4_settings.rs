use nfs::error::{Error};
use nfs::v4::{clamp_io_size, default_lock_owner, default_owner_id, negotiated_minor_versions, require_minor_version, validate_host, validate_lock_owner, validate_max_dir_entries, validate_minor_version, validate_open_owner, validate_owner_id, validate_port, validate_transfer_size};
use nfs::v4::proto::{NFS4_MAX_IO, NFS4_OPAQUE_LIMIT};

#[test]
fn default_owner_id_is_unique_and_bounded() {
    let first = default_owner_id(&"host".repeat(2_000), 4321, 1_700_000_000_000_000_000, 1);
    let second = default_owner_id(&"host".repeat(2_000), 4321, 1_700_000_000_000_000_000, 2);
    let lock_owner = default_lock_owner(&"host".repeat(2_000), 4321, 1_700_000_000_000_000_000, 3);

    assert_ne!(first, second);
    assert!(first.len() <= NFS4_OPAQUE_LIMIT);
    assert!(second.len() <= NFS4_OPAQUE_LIMIT);
    assert!(lock_owner.len() <= NFS4_OPAQUE_LIMIT);
}

#[test]
fn validate_owner_id_rejects_oversized_values() {
    let owner_id = vec![0; NFS4_OPAQUE_LIMIT + 1];
    assert!(matches!(
        validate_owner_id(&owner_id),
        Err(Error::Protocol(_))
    ));
}

#[test]
fn validate_open_owner_rejects_oversized_values() {
    let open_owner = vec![0; NFS4_OPAQUE_LIMIT + 1];
    assert!(matches!(
        validate_open_owner(&open_owner),
        Err(Error::Protocol(_))
    ));
}

#[test]
fn validate_lock_owner_rejects_oversized_values() {
    let lock_owner = vec![0; NFS4_OPAQUE_LIMIT + 1];
    assert!(matches!(
        validate_lock_owner(&lock_owner),
        Err(Error::Protocol(_))
    ));
}

#[test]
fn validate_transfer_size_rejects_invalid_values() {
    assert!(matches!(
        validate_transfer_size("read_size", 0),
        Err(Error::Protocol(_))
    ));
    assert!(matches!(
        validate_transfer_size("read_size", NFS4_MAX_IO as u32 + 1),
        Err(Error::Protocol(_))
    ));
    assert!(validate_transfer_size("read_size", NFS4_MAX_IO as u32).is_ok());
}

#[test]
fn validates_supported_session_minor_versions() {
    assert!(matches!(
        validate_minor_version("max_minor_version", 0),
        Err(Error::Protocol(_))
    ));
    assert!(validate_minor_version("max_minor_version", 1).is_ok());
    assert!(validate_minor_version("max_minor_version", 2).is_ok());
    assert!(matches!(
        validate_minor_version("max_minor_version", 3),
        Err(Error::Protocol(_))
    ));
}

#[test]
fn validates_v4_host_before_network() {
    assert!(validate_host("127.0.0.1").is_ok());
    assert!(matches!(validate_host(""), Err(Error::InvalidTarget(_))));
    assert!(matches!(validate_host(" "), Err(Error::InvalidTarget(_))));
}

#[test]
fn validates_v4_port_before_network() {
    assert!(validate_port("port", 2049).is_ok());
    assert!(matches!(validate_port("port", 0), Err(Error::Protocol(_))));
}

#[test]
fn negotiates_minor_versions_from_high_to_low() {
    assert_eq!(negotiated_minor_versions(2), vec![2, 1]);
    assert_eq!(negotiated_minor_versions(1), vec![1]);
}

#[test]
fn rejects_operations_above_negotiated_minor_version() {
    assert!(require_minor_version("SEEK", 2, 2).is_ok());
    assert!(matches!(
        require_minor_version("SEEK", 1, 2),
        Err(Error::Protocol(_))
    ));
}

#[test]
fn clamps_io_size_to_server_advertised_limits() {
    assert_eq!(clamp_io_size(None, 128 * 1024), 128 * 1024);
    assert_eq!(clamp_io_size(Some(0), 128 * 1024), 128 * 1024);
    assert_eq!(clamp_io_size(Some(64 * 1024), 128 * 1024), 64 * 1024);
    assert_eq!(clamp_io_size(Some(1024 * 1024), 128 * 1024), 128 * 1024);
}

#[test]
fn validate_max_dir_entries_rejects_zero() {
    assert!(matches!(
        validate_max_dir_entries(0),
        Err(Error::Protocol(_))
    ));
    assert!(validate_max_dir_entries(1).is_ok());
}
