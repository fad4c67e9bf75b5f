use nfs::error::{Error};
use nfs::rpc::{AuthSys};
use nfs::v4::client::{DeviceListCursor, DirPageCursor, advance_offset, app_data_block_len, attrs_require_open_state, device_list_page_from_result, dir_page_from_entries, ensure_distinct_copy_handles, ensure_reclaim_complete, finish_with_close, first_delayed_retry_result_index, join_path, named_attr_ops, operations_can_replay_after_session_recovery, parent_path_ops, path_components, public_path_ops, response_allows_delayed_retry, response_allows_delayed_retry_without_sequence, response_consumed_owner_seqid, response_copy, response_copy_notify, response_get_device_info, response_get_device_list, response_get_dir_delegation, response_layout_commit, response_layout_get, response_layout_return, response_lock, response_lock_test, response_lock_unlock, response_offload_status, response_openattr_readdir, response_operation_has_delayed_status, response_operation_requires_session_recovery, response_read, response_read_plus, response_release_lock_owner, response_requires_session_recovery, response_secinfo, response_test_stateids, response_verify, response_want_delegation, response_write, response_write_same, session_max_operations, session_payload_limit, temporary_named_attr_name, temporary_sibling_path, validate_compound_response_shape, validate_named_attr_name, validate_open_result, validate_session_channel_attrs, validate_session_compound_operation_count, validate_stateid_batch_len};
use nfs::v4::proto::{ACCESS4_READ, AppDataBlock, Bitmap, ChannelAttrs, CompoundResponse, CopyNotifyResult, CopyRequirements, CopyResult, CreateArgs, CreateKind, CreateSessionArgs, DeviceAddr, FATTR4_SIZE, Fattr, FileHandle, GetDeviceInfoResult, GetDeviceListResult, GetDirDelegationResult, Layout, LayoutCommitResult, LayoutContent, LayoutGetResult, LayoutIomode, LayoutReturn, LayoutReturnResult, LayoutType, LockDenied, LockOwner, LockType, NFS4_DEVICEID_SIZE, NFS4_MAX_IO, NFS4_MAX_OPS, NFS4_MINOR_VERSION_SESSION_MIN, NFS4_OPAQUE_LIMIT, NFS4_SESSIONID_SIZE, NFS4_VERIFIER_SIZE, NetLoc, NfsAce, NfsTime, OPEN4_RESULT_CONFIRM, OPEN4_SHARE_ACCESS_READ, OPEN4_SHARE_DENY_NONE, OffloadStatusResult, OpCode, OpenArgs, OpenClaim, OpenDelegation, OpenHow, OpenOwner, OpenReadDelegation, OpenResult, Operation, OperationResult, ReadPlusContent, ReadPlusResult, SecInfo, SequenceResult, StableHow, StateId, Status, WriteResponse, WriteResult};
use nfs::v4::proto::DirEntry as ProtoDirEntry;

#[test]
fn path_components_reject_parent_components() {
    assert!(matches!(
        path_components("../x"),
        Err(Error::InvalidPath(_))
    ));
    assert!(matches!(
        path_components("/safe/../x"),
        Err(Error::InvalidPath(_))
    ));
}

#[test]
fn path_components_reject_oversized_names() {
    let path = "x".repeat(NFS4_OPAQUE_LIMIT + 1);
    assert!(matches!(
        path_components(&path),
        Err(Error::NameTooLong {
            max: NFS4_OPAQUE_LIMIT,
            ..
        })
    ));
}

#[test]
fn named_attr_names_are_single_safe_components() {
    assert!(validate_named_attr_name("user.comment").is_ok());
    assert!(matches!(
        validate_named_attr_name(""),
        Err(Error::InvalidPath(_))
    ));
    assert!(matches!(
        validate_named_attr_name("."),
        Err(Error::InvalidPath(_))
    ));
    assert!(matches!(
        validate_named_attr_name("a/b"),
        Err(Error::InvalidPath(_))
    ));
    assert!(matches!(
        validate_named_attr_name(&"x".repeat(NFS4_OPAQUE_LIMIT + 1)),
        Err(Error::NameTooLong { .. })
    ));
}

#[test]
fn builds_named_attr_current_filehandle_ops() {
    let ops = named_attr_ops(
        "/dir/file",
        "user.comment",
        vec![Operation::GetAttr(Bitmap::empty())],
    )
    .unwrap();
    assert_eq!(
        ops.iter().map(Operation::op_code).collect::<Vec<_>>(),
        vec![
            OpCode::PutRootFh,
            OpCode::Lookup,
            OpCode::Lookup,
            OpCode::OpenAttr,
            OpCode::Lookup,
            OpCode::GetAttr,
        ]
    );
}

#[test]
fn builds_public_filehandle_path_ops() {
    let ops = public_path_ops("/dir/file", vec![Operation::GetAttr(Bitmap::empty())]).unwrap();
    assert_eq!(
        ops.iter().map(Operation::op_code).collect::<Vec<_>>(),
        vec![
            OpCode::PutPubFh,
            OpCode::Lookup,
            OpCode::Lookup,
            OpCode::GetAttr,
        ]
    );
}

#[test]
fn builds_parent_filehandle_ops() {
    let ops = parent_path_ops("/dir/file", vec![Operation::GetAttr(Bitmap::empty())]).unwrap();
    assert_eq!(
        ops.iter().map(Operation::op_code).collect::<Vec<_>>(),
        vec![
            OpCode::PutRootFh,
            OpCode::Lookup,
            OpCode::Lookup,
            OpCode::Lookupp,
            OpCode::GetAttr,
        ]
    );
}

#[test]
fn parent_filehandle_ops_reject_root() {
    assert!(matches!(
        parent_path_ops("/", Vec::new()),
        Err(Error::InvalidPath(_))
    ));
}

#[test]
fn joins_remote_paths_without_duplicate_slashes() {
    assert_eq!(join_path("/", "a"), "/a");
    assert_eq!(join_path("/a/", "b"), "/a/b");
    assert_eq!(join_path("a", "b"), "a/b");
}

#[test]
fn builds_temporary_sibling_paths() {
    let path = temporary_sibling_path("/a/b/file.txt", 1234, 5678, 9).unwrap();
    assert!(path.starts_with("/a/b/.nfs-rs-tmp-"));
    assert!(temporary_sibling_path("/", 1234, 5678, 9).is_err());
}

#[test]
fn builds_temporary_named_attr_names() {
    let name = temporary_named_attr_name(1234, 5678, 9);
    assert!(name.starts_with(".nfs-rs-tmp-"));
    assert!(validate_named_attr_name(&name).is_ok());
}

#[test]
fn builds_directory_pages_from_entries() {
    let page = dir_page_from_entries(
        [8; NFS4_VERIFIER_SIZE],
        vec![ProtoDirEntry {
            cookie: 11,
            name: "file".to_owned(),
            attrs: Fattr::empty(),
        }],
        false,
        0,
        16,
    )
    .unwrap();

    assert_eq!(page.entries.len(), 1);
    assert_eq!(
        page.next_cursor,
        Some(DirPageCursor {
            cookie: 11,
            cookieverf: [8; NFS4_VERIFIER_SIZE],
        })
    );
}

#[test]
fn rejects_non_advancing_directory_cookies() {
    assert!(matches!(
        dir_page_from_entries(
            [8; NFS4_VERIFIER_SIZE],
            vec![ProtoDirEntry {
                cookie: 11,
                name: "file".to_owned(),
                attrs: Fattr::empty(),
            }],
            false,
            11,
            16,
        ),
        Err(Error::Protocol(_))
    ));
}

#[test]
fn builds_device_list_pages_from_results() {
    let device_id = [4; NFS4_DEVICEID_SIZE];
    let page = device_list_page_from_result(
        GetDeviceListResult {
            cookie: 10,
            cookieverf: [5; NFS4_VERIFIER_SIZE],
            device_ids: vec![device_id],
            eof: false,
        },
        0,
        4,
    )
    .unwrap();

    assert_eq!(page.device_ids, vec![device_id]);
    assert_eq!(
        page.next_cursor,
        Some(DeviceListCursor {
            cookie: 10,
            cookieverf: [5; NFS4_VERIFIER_SIZE],
        })
    );

    assert!(matches!(
        device_list_page_from_result(
            GetDeviceListResult {
                cookie: 10,
                cookieverf: [5; NFS4_VERIFIER_SIZE],
                device_ids: vec![device_id],
                eof: false,
            },
            10,
            4,
        ),
        Err(Error::Protocol(_))
    ));
}

#[test]
fn response_openattr_readdir_returns_entries_and_status_errors() {
    let ok = CompoundResponse {
        status: Status::NfsOk,
        tag: String::new(),
        results: vec![
            OperationResult::StatusOnly {
                op: OpCode::OpenAttr,
                status: Status::NfsOk,
            },
            OperationResult::ReadDir {
                status: Status::NfsOk,
                cookieverf: [7; NFS4_VERIFIER_SIZE],
                entries: vec![ProtoDirEntry {
                    cookie: 12,
                    name: "user.comment".to_owned(),
                    attrs: Fattr::empty(),
                }],
                eof: true,
            },
        ],
    };
    let (cookieverf, entries, eof) = response_openattr_readdir(&ok).unwrap();
    assert_eq!(cookieverf, [7; NFS4_VERIFIER_SIZE]);
    assert_eq!(entries.len(), 1);
    assert_eq!(entries[0].name, "user.comment");
    assert!(eof);

    let failed = CompoundResponse {
        status: Status::NotSupported,
        tag: String::new(),
        results: vec![OperationResult::StatusOnly {
            op: OpCode::OpenAttr,
            status: Status::NotSupported,
        }],
    };
    assert!(matches!(
        response_openattr_readdir(&failed),
        Err(Error::NfsV4 {
            operation: "OPENATTR",
            status: Status::NotSupported
        })
    ));

    let missing_readdir = CompoundResponse {
        status: Status::NfsOk,
        tag: String::new(),
        results: vec![OperationResult::StatusOnly {
            op: OpCode::OpenAttr,
            status: Status::NfsOk,
        }],
    };
    assert!(matches!(
        response_openattr_readdir(&missing_readdir),
        Err(Error::Protocol(_))
    ));
}

#[test]
fn detects_attrs_that_require_open_state() {
    assert!(attrs_require_open_state(&Fattr::size(10)));
    assert!(!attrs_require_open_state(&Fattr::mode(0o644)));
    assert!(!attrs_require_open_state(&Fattr::empty()));
}

#[test]
fn owner_seqid_advances_only_when_owner_operation_was_seen() {
    let before_open = CompoundResponse {
        status: Status::NoEnt,
        tag: String::new(),
        results: vec![
            OperationResult::Sequence {
                status: Status::NfsOk,
                result: None,
            },
            OperationResult::StatusOnly {
                op: OpCode::Lookup,
                status: Status::NoEnt,
            },
        ],
    };
    assert!(!response_consumed_owner_seqid(&before_open, OpCode::Open));

    let failed_open = CompoundResponse {
        status: Status::NoEnt,
        tag: String::new(),
        results: vec![
            OperationResult::Sequence {
                status: Status::NfsOk,
                result: None,
            },
            OperationResult::Open {
                status: Status::NoEnt,
                result: None,
            },
        ],
    };
    assert!(response_consumed_owner_seqid(&failed_open, OpCode::Open));

    let bad_seqid = CompoundResponse {
        status: Status::BadSeqId,
        tag: String::new(),
        results: vec![OperationResult::Close {
            status: Status::BadSeqId,
            stateid: None,
        }],
    };
    assert!(!response_consumed_owner_seqid(&bad_seqid, OpCode::Close));

    for status in [
        Status::StaleClientId,
        Status::StaleStateId,
        Status::BadStateId,
        Status::BadSeqId,
        Status::BadXdr,
        Status::Resource,
        Status::NoFileHandle,
        Status::Moved,
    ] {
        let response = CompoundResponse {
            status,
            tag: String::new(),
            results: vec![OperationResult::Open {
                status,
                result: None,
            }],
        };
        assert!(
            !response_consumed_owner_seqid(&response, OpCode::Open),
            "{status:?} must not advance the open-owner seqid"
        );
    }

    for status in [Status::Delay, Status::Grace] {
        let response = CompoundResponse {
            status,
            tag: String::new(),
            results: vec![OperationResult::Open {
                status,
                result: None,
            }],
        };
        assert!(
            response_consumed_owner_seqid(&response, OpCode::Open),
            "{status:?} must advance the open-owner seqid"
        );
    }
}

#[test]
fn derives_payload_limit_from_session_channel_size() {
    assert_eq!(session_payload_limit(0), 0);
    assert_eq!(session_payload_limit(4096), 0);
    assert_eq!(session_payload_limit(4097), 1);
    assert_eq!(session_payload_limit(8192), 4096);
    assert_eq!(session_payload_limit(u32::MAX), NFS4_MAX_IO as u32);
}

#[test]
fn detects_retryable_delay_and_grace_statuses() {
    let response = CompoundResponse {
        status: Status::Delay,
        tag: String::new(),
        results: vec![OperationResult::StatusOnly {
            op: OpCode::GetFh,
            status: Status::Delay,
        }],
    };
    assert_eq!(first_delayed_retry_result_index(&response), Some(0));

    let response = CompoundResponse {
        status: Status::Grace,
        tag: String::new(),
        results: vec![OperationResult::StatusOnly {
            op: OpCode::Open,
            status: Status::Grace,
        }],
    };
    assert_eq!(first_delayed_retry_result_index(&response), Some(0));
}

#[test]
fn delayed_retry_requires_replayable_successful_prefix() {
    let handle = FileHandle::new(vec![1]).unwrap();
    let write_delay = CompoundResponse {
        status: Status::Delay,
        tag: String::new(),
        results: vec![
            sequence_ok_result(),
            OperationResult::StatusOnly {
                op: OpCode::PutFh,
                status: Status::NfsOk,
            },
            OperationResult::Write {
                status: Status::Delay,
                result: None,
            },
        ],
    };
    assert!(response_allows_delayed_retry(
        &[
            Operation::PutFh(handle.clone()),
            Operation::Write {
                stateid: StateId::anonymous(),
                offset: 0,
                stable: StableHow::FileSync,
                data: b"abc".to_vec(),
            },
        ],
        &write_delay
    ));

    let open_then_getfh_delay = CompoundResponse {
        status: Status::Delay,
        tag: String::new(),
        results: vec![
            sequence_ok_result(),
            OperationResult::Open {
                status: Status::NfsOk,
                result: Some(OpenResult {
                    stateid: StateId::anonymous(),
                    result_flags: 0,
                    attrset: Bitmap::empty(),
                    delegation: OpenDelegation::NoDelegation,
                }),
            },
            OperationResult::GetFh {
                status: Status::Delay,
                handle: None,
            },
        ],
    };
    assert!(!response_allows_delayed_retry(
        &[Operation::Open(open_args("file.txt")), Operation::GetFh,],
        &open_then_getfh_delay
    ));

    let open_delay = CompoundResponse {
        status: Status::Delay,
        tag: String::new(),
        results: vec![
            sequence_ok_result(),
            OperationResult::Open {
                status: Status::Delay,
                result: None,
            },
        ],
    };
    assert!(!response_allows_delayed_retry(
        &[Operation::Open(open_args("file.txt"))],
        &open_delay
    ));
    assert!(response_operation_has_delayed_status(
        &open_delay,
        OpCode::Open
    ));

    let sequence_delay = CompoundResponse {
        status: Status::Delay,
        tag: String::new(),
        results: vec![OperationResult::Sequence {
            status: Status::Delay,
            result: None,
        }],
    };
    assert!(response_allows_delayed_retry(
        &[Operation::Remove("file.txt".to_owned())],
        &sequence_delay
    ));

    let raw_create_session_delay = CompoundResponse {
        status: Status::Delay,
        tag: String::new(),
        results: vec![OperationResult::CreateSession {
            status: Status::Delay,
            result: None,
        }],
    };
    assert!(response_allows_delayed_retry_without_sequence(
        &[Operation::CreateSession(CreateSessionArgs {
            client_id: 1,
            sequence_id: 1,
            flags: 0,
            fore_channel_attrs: ChannelAttrs::fore_channel_default(),
            back_channel_attrs: ChannelAttrs::back_channel_disabled(),
            callback_program: 0,
            callback_sec_parms: Vec::new(),
        })],
        &raw_create_session_delay
    ));
}

#[test]
fn does_not_treat_session_recovery_status_as_delay_retry() {
    let failed_sequence = CompoundResponse {
        status: Status::BadSession,
        tag: String::new(),
        results: vec![OperationResult::Sequence {
            status: Status::BadSession,
            result: None,
        }],
    };
    assert_eq!(first_delayed_retry_result_index(&failed_sequence), None);
    assert!(response_requires_session_recovery(&failed_sequence));

    let failed_later_operation = CompoundResponse {
        status: Status::BadSession,
        tag: String::new(),
        results: vec![
            OperationResult::Sequence {
                status: Status::NfsOk,
                result: Some(SequenceResult {
                    session_id: [1; NFS4_SESSIONID_SIZE],
                    sequence_id: 1,
                    slot_id: 0,
                    highest_slot_id: 0,
                    target_highest_slot_id: 0,
                    status_flags: 0,
                }),
            },
            OperationResult::StatusOnly {
                op: OpCode::GetFh,
                status: Status::BadSession,
            },
        ],
    };
    assert_eq!(
        first_delayed_retry_result_index(&failed_later_operation),
        None
    );
    assert!(!response_requires_session_recovery(&failed_later_operation));
    assert!(response_operation_requires_session_recovery(
        &failed_later_operation,
        OpCode::GetFh
    ));
    assert!(!response_operation_requires_session_recovery(
        &failed_later_operation,
        OpCode::Open
    ));
}

#[test]
fn accepts_reclaim_complete_already_during_session_setup() {
    let complete_already = CompoundResponse {
        status: Status::CompleteAlready,
        tag: String::new(),
        results: vec![OperationResult::StatusOnly {
            op: OpCode::ReclaimComplete,
            status: Status::CompleteAlready,
        }],
    };
    assert!(ensure_reclaim_complete(&complete_already).is_ok());

    let wrong_sec = CompoundResponse {
        status: Status::WrongSec,
        tag: String::new(),
        results: vec![OperationResult::StatusOnly {
            op: OpCode::ReclaimComplete,
            status: Status::WrongSec,
        }],
    };
    assert!(ensure_reclaim_complete(&wrong_sec).is_err());
}

#[test]
fn clamps_session_max_operations_to_protocol_limit() {
    let mut attrs = ChannelAttrs::fore_channel_default();
    attrs.max_operations = 32;
    assert_eq!(session_max_operations(&attrs).unwrap(), 32);

    attrs.max_operations = (NFS4_MAX_OPS as u32) + 1;
    assert_eq!(session_max_operations(&attrs).unwrap(), NFS4_MAX_OPS);

    attrs.max_operations = 0;
    assert!(matches!(
        session_max_operations(&attrs),
        Err(Error::Protocol(_))
    ));
}

#[test]
fn rejects_session_channels_without_payload_capacity() {
    let mut attrs = ChannelAttrs::fore_channel_default();
    assert!(validate_session_channel_attrs(&attrs).is_ok());

    attrs.max_request_size = 4096;
    assert!(matches!(
        validate_session_channel_attrs(&attrs),
        Err(Error::Protocol(_))
    ));

    attrs.max_request_size = ChannelAttrs::fore_channel_default().max_request_size;
    attrs.max_response_size = 0;
    assert!(matches!(
        validate_session_channel_attrs(&attrs),
        Err(Error::Protocol(_))
    ));

    attrs.max_response_size = ChannelAttrs::fore_channel_default().max_response_size;
    attrs.max_requests = 0;
    assert!(matches!(
        validate_session_channel_attrs(&attrs),
        Err(Error::Protocol(_))
    ));
}

#[test]
fn rejects_copy_between_equal_file_handles() {
    let handle = FileHandle::new(vec![1, 2, 3]).unwrap();
    assert!(matches!(
        ensure_distinct_copy_handles(&handle, &handle),
        Err(Error::Protocol(_))
    ));

    let other = FileHandle::new(vec![1, 2, 4]).unwrap();
    assert!(ensure_distinct_copy_handles(&handle, &other).is_ok());
}

#[test]
fn finish_with_close_preserves_cleanup_failures() {
    let err = finish_with_close::<()>(
        Err(Error::Protocol("primary failure".to_owned())),
        Err(Error::Protocol("close failure".to_owned())),
    )
    .unwrap_err();

    let message = err.message();
    assert!(message.contains("primary failure"));
    assert!(message.contains("close failure"));
}

#[test]
fn validates_compound_response_shape_and_order() {
    let ok = CompoundResponse {
        status: Status::NfsOk,
        tag: "read".to_owned(),
        results: vec![
            OperationResult::Sequence {
                status: Status::NfsOk,
                result: None,
            },
            OperationResult::StatusOnly {
                op: OpCode::PutFh,
                status: Status::NfsOk,
            },
            OperationResult::Read {
                status: Status::NfsOk,
                eof: true,
                data: Vec::new(),
            },
        ],
    };
    assert!(
        validate_compound_response_shape(
            "read",
            &[OpCode::Sequence, OpCode::PutFh, OpCode::Read],
            &ok
        )
        .is_ok()
    );
    assert!(matches!(
        validate_compound_response_shape(
            "read",
            &[OpCode::Sequence, OpCode::GetFh, OpCode::Read],
            &ok
        ),
        Err(Error::Protocol(_))
    ));

    let too_many = CompoundResponse {
        status: Status::NfsOk,
        tag: "getfh".to_owned(),
        results: vec![
            OperationResult::StatusOnly {
                op: OpCode::PutRootFh,
                status: Status::NfsOk,
            },
            OperationResult::StatusOnly {
                op: OpCode::GetFh,
                status: Status::NfsOk,
            },
        ],
    };
    assert!(matches!(
        validate_compound_response_shape("getfh", &[OpCode::PutRootFh], &too_many),
        Err(Error::Protocol(_))
    ));

    let short_success = CompoundResponse {
        status: Status::NfsOk,
        tag: "getattr".to_owned(),
        results: vec![OperationResult::StatusOnly {
            op: OpCode::PutRootFh,
            status: Status::NfsOk,
        }],
    };
    assert!(matches!(
        validate_compound_response_shape(
            "getattr",
            &[OpCode::PutRootFh, OpCode::GetAttr],
            &short_success
        ),
        Err(Error::Protocol(_))
    ));

    let failed_lookup = CompoundResponse {
        status: Status::NoEnt,
        tag: "lookup".to_owned(),
        results: vec![
            OperationResult::Sequence {
                status: Status::NfsOk,
                result: None,
            },
            OperationResult::StatusOnly {
                op: OpCode::Lookup,
                status: Status::NoEnt,
            },
        ],
    };
    assert!(
        validate_compound_response_shape(
            "lookup",
            &[OpCode::Sequence, OpCode::Lookup, OpCode::GetAttr],
            &failed_lookup
        )
        .is_ok()
    );

    let failed_with_ok_results = CompoundResponse {
        status: Status::NoEnt,
        tag: "lookup".to_owned(),
        results: vec![OperationResult::StatusOnly {
            op: OpCode::Lookup,
            status: Status::NfsOk,
        }],
    };
    assert!(matches!(
        validate_compound_response_shape("lookup", &[OpCode::Lookup], &failed_with_ok_results),
        Err(Error::Protocol(_))
    ));

    let wrong_tag = CompoundResponse {
        status: Status::NfsOk,
        tag: "other".to_owned(),
        results: vec![OperationResult::StatusOnly {
            op: OpCode::PutRootFh,
            status: Status::NfsOk,
        }],
    };
    assert!(matches!(
        validate_compound_response_shape("expected", &[OpCode::PutRootFh], &wrong_tag),
        Err(Error::Protocol(_))
    ));
}

#[test]
fn accepts_spec_illegal_result_for_unsupported_operation() {
    let response = CompoundResponse {
        status: Status::OpIllegal,
        tag: "unsupported".to_owned(),
        results: vec![
            OperationResult::Sequence {
                status: Status::NfsOk,
                result: None,
            },
            OperationResult::StatusOnly {
                op: OpCode::Illegal,
                status: Status::OpIllegal,
            },
        ],
    };

    assert!(
        validate_compound_response_shape(
            "unsupported",
            &[OpCode::Sequence, OpCode::Seek],
            &response
        )
        .is_ok()
    );

    let response = CompoundResponse {
        status: Status::BadXdr,
        tag: "bad".to_owned(),
        results: vec![OperationResult::StatusOnly {
            op: OpCode::Illegal,
            status: Status::BadXdr,
        }],
    };
    assert!(matches!(
        validate_compound_response_shape("bad", &[OpCode::Seek], &response),
        Err(Error::Protocol(_))
    ));
}

#[test]
fn validates_session_compound_operation_count_with_sequence() {
    assert!(validate_session_compound_operation_count(3, 4).is_ok());
    assert!(matches!(
        validate_session_compound_operation_count(4, 4),
        Err(Error::Protocol(_))
    ));
}

#[test]
fn rejects_open_confirm_for_session_minor_versions() {
    let open = OpenResult {
        stateid: StateId::anonymous(),
        result_flags: OPEN4_RESULT_CONFIRM,
        attrset: Bitmap::empty(),
        delegation: OpenDelegation::NoDelegation,
    };

    assert!(matches!(
        validate_open_result(&open, NFS4_MINOR_VERSION_SESSION_MIN),
        Err(Error::Protocol(_))
    ));
}

#[test]
fn detects_open_delegation_stateid_for_return() {
    let delegated = StateId {
        seqid: 7,
        other: [8; 12],
    };
    let open = OpenResult {
        stateid: StateId::anonymous(),
        result_flags: 0,
        attrset: Bitmap::empty(),
        delegation: OpenDelegation::Read(OpenReadDelegation {
            stateid: delegated,
            recall: false,
            permissions: NfsAce {
                ace_type: 0,
                flag: 0,
                access_mask: ACCESS4_READ,
                who: "OWNER@".to_owned(),
            },
        }),
    };

    assert_eq!(
        validate_open_result(&open, NFS4_MINOR_VERSION_SESSION_MIN).unwrap(),
        Some(delegated)
    );
}

#[test]
fn detects_session_recovery_status_only_when_sequence_failed() {
    let failed_sequence = CompoundResponse {
        status: Status::BadSession,
        tag: String::new(),
        results: vec![OperationResult::Sequence {
            status: Status::BadSession,
            result: None,
        }],
    };
    assert!(response_requires_session_recovery(&failed_sequence));

    let failed_later_operation = CompoundResponse {
        status: Status::BadSession,
        tag: String::new(),
        results: vec![
            OperationResult::Sequence {
                status: Status::NfsOk,
                result: Some(SequenceResult {
                    session_id: [1; NFS4_SESSIONID_SIZE],
                    sequence_id: 1,
                    slot_id: 0,
                    highest_slot_id: 0,
                    target_highest_slot_id: 0,
                    status_flags: 0,
                }),
            },
            OperationResult::StatusOnly {
                op: OpCode::GetFh,
                status: Status::BadSession,
            },
        ],
    };
    assert!(!response_requires_session_recovery(&failed_later_operation));

    let empty_compound_failure = CompoundResponse {
        status: Status::DeadSession,
        tag: String::new(),
        results: Vec::new(),
    };
    assert!(response_requires_session_recovery(&empty_compound_failure));
}

#[test]
fn classifies_session_recovery_replay_safety_conservatively() {
    assert!(operations_can_replay_after_session_recovery(&[
        Operation::PutRootFh,
        Operation::Lookup("dir".to_owned()),
        Operation::GetAttr(Bitmap::empty()),
    ]));
    assert!(operations_can_replay_after_session_recovery(&[
        Operation::PutFh(FileHandle::new(vec![1]).unwrap()),
        Operation::Read {
            stateid: StateId::anonymous(),
            offset: 0,
            count: 1,
        },
    ]));
    assert!(operations_can_replay_after_session_recovery(&[
        Operation::TestStateIds(vec![StateId {
            seqid: 1,
            other: [7; 12],
        }]),
    ]));
    assert!(!operations_can_replay_after_session_recovery(&[
        Operation::Open(OpenArgs {
            seqid: 1,
            share_access: OPEN4_SHARE_ACCESS_READ,
            share_deny: OPEN4_SHARE_DENY_NONE,
            owner: OpenOwner {
                client_id: 1,
                owner: b"owner".to_vec(),
            },
            openhow: OpenHow::NoCreate,
            claim: OpenClaim::Null("file".to_owned()),
        }),
        Operation::GetFh,
    ]));
    assert!(!operations_can_replay_after_session_recovery(&[
        Operation::PutRootFh,
        Operation::Lookup("dir".to_owned()),
        Operation::Create(CreateArgs {
            kind: CreateKind::Directory,
            name: "file".to_owned(),
            attrs: Fattr::empty(),
        }),
    ]));
    assert!(!operations_can_replay_after_session_recovery(&[
        Operation::PutRootFh,
        Operation::Lookup("dir".to_owned()),
        Operation::Remove("file".to_owned()),
    ]));
    assert!(!operations_can_replay_after_session_recovery(&[
        Operation::PutFh(FileHandle::new(vec![1]).unwrap()),
        Operation::SetAttr {
            stateid: StateId::anonymous(),
            attrs: Fattr::size(1),
        },
    ]));
    assert!(!operations_can_replay_after_session_recovery(&[
        Operation::PutFh(FileHandle::new(vec![1]).unwrap()),
        Operation::Commit {
            offset: 0,
            count: 0,
        },
    ]));
    assert!(!operations_can_replay_after_session_recovery(&[
        Operation::FreeStateId(StateId {
            seqid: 1,
            other: [7; 12],
        }),
    ]));
    assert!(!operations_can_replay_after_session_recovery(&[
        Operation::PutFh(FileHandle::new(vec![1]).unwrap()),
        Operation::Read {
            stateid: StateId {
                seqid: 1,
                other: [7; 12],
            },
            offset: 0,
            count: 1,
        },
    ]));
}

#[test]
fn response_read_validates_returned_size_and_progress() {
    let oversized = CompoundResponse {
        status: Status::NfsOk,
        tag: String::new(),
        results: vec![OperationResult::Read {
            status: Status::NfsOk,
            eof: false,
            data: vec![1, 2, 3, 4, 5],
        }],
    };
    assert!(matches!(
        response_read(&oversized, 4),
        Err(Error::Protocol(_))
    ));

    let no_progress = CompoundResponse {
        status: Status::NfsOk,
        tag: String::new(),
        results: vec![OperationResult::Read {
            status: Status::NfsOk,
            eof: false,
            data: Vec::new(),
        }],
    };
    assert!(matches!(
        response_read(&no_progress, 4),
        Err(Error::Protocol(_))
    ));

    let eof = CompoundResponse {
        status: Status::NfsOk,
        tag: String::new(),
        results: vec![OperationResult::Read {
            status: Status::NfsOk,
            eof: true,
            data: Vec::new(),
        }],
    };
    assert_eq!(response_read(&eof, 4).unwrap(), (true, Vec::new()));
}

#[test]
fn response_secinfo_returns_flavors_and_status_errors() {
    let ok = CompoundResponse {
        status: Status::NfsOk,
        tag: String::new(),
        results: vec![OperationResult::SecInfo {
            op: OpCode::SecInfo,
            status: Status::NfsOk,
            flavors: vec![SecInfo::AuthSys],
        }],
    };
    assert_eq!(
        response_secinfo(&ok, OpCode::SecInfo).unwrap(),
        vec![SecInfo::AuthSys]
    );

    let failed = CompoundResponse {
        status: Status::WrongSec,
        tag: String::new(),
        results: vec![OperationResult::SecInfo {
            op: OpCode::SecInfoNoName,
            status: Status::WrongSec,
            flavors: Vec::new(),
        }],
    };
    assert!(matches!(
        response_secinfo(&failed, OpCode::SecInfoNoName),
        Err(Error::NfsV4 {
            operation: "SECINFO_NO_NAME",
            status: Status::WrongSec
        })
    ));

    assert!(matches!(
        response_secinfo(&ok, OpCode::SecInfoNoName),
        Err(Error::Protocol(_))
    ));
}

#[test]
fn response_device_operations_return_results_and_status_errors() {
    let device_id = [3; NFS4_DEVICEID_SIZE];
    let device_info = CompoundResponse {
        status: Status::NfsOk,
        tag: String::new(),
        results: vec![OperationResult::GetDeviceInfo {
            status: Status::NfsOk,
            result: Some(GetDeviceInfoResult {
                device_addr: DeviceAddr {
                    layout_type: LayoutType::NfsV4_1Files,
                    body: b"addr".to_vec(),
                },
                notification: Bitmap::from_known_attrs(&[FATTR4_SIZE]),
            }),
            min_count: None,
        }],
    };
    let info = response_get_device_info(&device_info).unwrap();
    assert_eq!(info.device_addr.layout_type, LayoutType::NfsV4_1Files);
    assert_eq!(info.device_addr.body, b"addr");
    assert!(info.notification.contains(FATTR4_SIZE));

    let device_list = CompoundResponse {
        status: Status::NfsOk,
        tag: String::new(),
        results: vec![OperationResult::GetDeviceList {
            status: Status::NfsOk,
            result: Some(GetDeviceListResult {
                cookie: 11,
                cookieverf: [6; NFS4_VERIFIER_SIZE],
                device_ids: vec![device_id],
                eof: true,
            }),
        }],
    };
    let list = response_get_device_list(&device_list).unwrap();
    assert_eq!(list.device_ids, vec![device_id]);
    assert!(list.eof);

    let failed = CompoundResponse {
        status: Status::TooSmall,
        tag: String::new(),
        results: vec![OperationResult::GetDeviceInfo {
            status: Status::TooSmall,
            result: None,
            min_count: Some(8192),
        }],
    };
    assert!(matches!(
        response_get_device_info(&failed),
        Err(Error::NfsV4 {
            operation: "GETDEVICEINFO",
            status: Status::TooSmall
        })
    ));
}

#[test]
fn response_delegation_operations_return_results_and_status_errors() {
    let stateid = StateId {
        seqid: 9,
        other: [1; 12],
    };
    let dir_delegation = CompoundResponse {
        status: Status::NfsOk,
        tag: String::new(),
        results: vec![OperationResult::GetDirDelegation {
            status: Status::NfsOk,
            result: Some(GetDirDelegationResult::Unavailable {
                will_signal_deleg_avail: true,
            }),
        }],
    };
    assert_eq!(
        response_get_dir_delegation(&dir_delegation).unwrap(),
        GetDirDelegationResult::Unavailable {
            will_signal_deleg_avail: true
        }
    );

    let want_delegation = CompoundResponse {
        status: Status::NfsOk,
        tag: String::new(),
        results: vec![OperationResult::WantDelegation {
            status: Status::NfsOk,
            delegation: Some(OpenDelegation::Read(OpenReadDelegation {
                stateid,
                recall: false,
                permissions: NfsAce {
                    ace_type: 0,
                    flag: 0,
                    access_mask: ACCESS4_READ,
                    who: "OWNER@".to_owned(),
                },
            })),
        }],
    };
    match response_want_delegation(&want_delegation).unwrap() {
        OpenDelegation::Read(delegation) => assert_eq!(delegation.stateid, stateid),
        delegation => panic!("unexpected delegation: {delegation:?}"),
    }

    let failed = CompoundResponse {
        status: Status::RejectDeleg,
        tag: String::new(),
        results: vec![OperationResult::WantDelegation {
            status: Status::RejectDeleg,
            delegation: None,
        }],
    };
    assert!(matches!(
        response_want_delegation(&failed),
        Err(Error::NfsV4 {
            operation: "WANT_DELEGATION",
            status: Status::RejectDeleg
        })
    ));

    let missing_payload = CompoundResponse {
        status: Status::NfsOk,
        tag: String::new(),
        results: vec![OperationResult::GetDirDelegation {
            status: Status::NfsOk,
            result: None,
        }],
    };
    assert!(matches!(
        response_get_dir_delegation(&missing_payload),
        Err(Error::Protocol(_))
    ));
}

#[test]
fn response_layout_operations_return_results_and_status_errors() {
    let stateid = StateId {
        seqid: 7,
        other: [8; 12],
    };
    let layout_commit = CompoundResponse {
        status: Status::NfsOk,
        tag: String::new(),
        results: vec![OperationResult::LayoutCommit {
            status: Status::NfsOk,
            result: Some(LayoutCommitResult {
                new_size: Some(2048),
            }),
        }],
    };
    assert_eq!(
        response_layout_commit(&layout_commit).unwrap(),
        LayoutCommitResult {
            new_size: Some(2048)
        }
    );

    let layout_get = CompoundResponse {
        status: Status::NfsOk,
        tag: String::new(),
        results: vec![OperationResult::LayoutGet {
            status: Status::NfsOk,
            result: Some(LayoutGetResult {
                return_on_close: false,
                stateid,
                layouts: vec![Layout {
                    offset: 0,
                    length: 1024,
                    iomode: LayoutIomode::Read,
                    content: LayoutContent {
                        layout_type: LayoutType::NfsV4_1Files,
                        body: b"layout".to_vec(),
                    },
                }],
            }),
            will_signal_layout_avail: None,
        }],
    };
    let get = response_layout_get(&layout_get).unwrap();
    assert_eq!(get.stateid, stateid);
    assert_eq!(get.layouts.len(), 1);
    assert_eq!(get.layouts[0].content.body, b"layout");

    let layout_return = CompoundResponse {
        status: Status::NfsOk,
        tag: String::new(),
        results: vec![OperationResult::LayoutReturn {
            status: Status::NfsOk,
            result: Some(LayoutReturnResult {
                stateid: Some(stateid),
            }),
        }],
    };
    assert_eq!(
        response_layout_return(&layout_return).unwrap(),
        LayoutReturnResult {
            stateid: Some(stateid)
        }
    );

    let try_later = CompoundResponse {
        status: Status::LayoutTryLater,
        tag: String::new(),
        results: vec![OperationResult::LayoutGet {
            status: Status::LayoutTryLater,
            result: None,
            will_signal_layout_avail: Some(true),
        }],
    };
    assert!(matches!(
        response_layout_get(&try_later),
        Err(Error::NfsV4 {
            operation: "LAYOUTGET",
            status: Status::LayoutTryLater
        })
    ));

    let bad_commit = CompoundResponse {
        status: Status::BadLayout,
        tag: String::new(),
        results: vec![OperationResult::LayoutCommit {
            status: Status::BadLayout,
            result: None,
        }],
    };
    assert!(matches!(
        response_layout_commit(&bad_commit),
        Err(Error::NfsV4 {
            operation: "LAYOUTCOMMIT",
            status: Status::BadLayout
        })
    ));
}

#[test]
fn response_verify_reports_boolean_match_statuses() {
    let verified = CompoundResponse {
        status: Status::NfsOk,
        tag: String::new(),
        results: vec![OperationResult::StatusOnly {
            op: OpCode::Verify,
            status: Status::NfsOk,
        }],
    };
    assert!(response_verify(&verified, OpCode::Verify, Status::NotSame).unwrap());

    let not_same = CompoundResponse {
        status: Status::NotSame,
        tag: String::new(),
        results: vec![OperationResult::StatusOnly {
            op: OpCode::Verify,
            status: Status::NotSame,
        }],
    };
    assert!(!response_verify(&not_same, OpCode::Verify, Status::NotSame).unwrap());

    let same = CompoundResponse {
        status: Status::Same,
        tag: String::new(),
        results: vec![OperationResult::StatusOnly {
            op: OpCode::NVerify,
            status: Status::Same,
        }],
    };
    assert!(!response_verify(&same, OpCode::NVerify, Status::Same).unwrap());

    assert!(matches!(
        response_verify(&verified, OpCode::NVerify, Status::Same),
        Err(Error::Protocol(_))
    ));
}

#[test]
fn response_read_plus_validates_returned_size_and_progress() {
    let oversized = read_plus_response(ReadPlusResult {
        eof: false,
        contents: vec![ReadPlusContent::Data {
            offset: 0,
            data: vec![1, 2, 3, 4, 5],
        }],
    });
    assert!(matches!(
        response_read_plus(&oversized, 4),
        Err(Error::Protocol(_))
    ));

    let oversized_hole = read_plus_response(ReadPlusResult {
        eof: false,
        contents: vec![ReadPlusContent::Hole {
            offset: 0,
            length: 5,
        }],
    });
    assert!(matches!(
        response_read_plus(&oversized_hole, 4),
        Err(Error::Protocol(_))
    ));

    let no_progress = read_plus_response(ReadPlusResult {
        eof: false,
        contents: Vec::new(),
    });
    assert!(matches!(
        response_read_plus(&no_progress, 4),
        Err(Error::Protocol(_))
    ));

    let eof = read_plus_response(ReadPlusResult {
        eof: true,
        contents: Vec::new(),
    });
    assert_eq!(
        response_read_plus(&eof, 4).unwrap(),
        ReadPlusResult {
            eof: true,
            contents: Vec::new(),
        }
    );

    let ok = read_plus_response(ReadPlusResult {
        eof: false,
        contents: vec![
            ReadPlusContent::Data {
                offset: 0,
                data: vec![1, 2],
            },
            ReadPlusContent::Hole {
                offset: 2,
                length: 2,
            },
        ],
    });
    assert!(response_read_plus(&ok, 4).is_ok());
}

#[test]
fn response_write_validates_returned_count() {
    let no_progress = write_response_with_count(0);
    assert!(matches!(
        response_write(&no_progress, 4),
        Err(Error::Protocol(_))
    ));

    let oversized = write_response_with_count(5);
    assert!(matches!(
        response_write(&oversized, 4),
        Err(Error::Protocol(_))
    ));

    let ok = response_write(&write_response_with_count(4), 4).unwrap();
    assert_eq!(ok.count, 4);
}

#[test]
fn response_write_same_validates_returned_count() {
    let no_progress = write_same_response_with_count(0);
    assert!(matches!(
        response_write_same(&no_progress, 4),
        Err(Error::Protocol(_))
    ));

    let oversized = write_same_response_with_count(5);
    assert!(matches!(
        response_write_same(&oversized, 4),
        Err(Error::Protocol(_))
    ));

    let ok = response_write_same(&write_same_response_with_count(4), 4).unwrap();
    assert_eq!(ok.count, 4);
}

#[test]
fn response_lock_test_reports_conflicts() {
    let granted = CompoundResponse {
        status: Status::NfsOk,
        tag: String::new(),
        results: vec![OperationResult::LockTest {
            status: Status::NfsOk,
            denied: None,
        }],
    };
    assert_eq!(response_lock_test(&granted).unwrap(), None);

    let denied = LockDenied {
        offset: 8,
        length: 16,
        lock_type: LockType::Write,
        owner: LockOwner {
            client_id: 1,
            owner: b"other-owner".to_vec(),
        },
    };
    let conflict = CompoundResponse {
        status: Status::Denied,
        tag: String::new(),
        results: vec![OperationResult::LockTest {
            status: Status::Denied,
            denied: Some(denied.clone()),
        }],
    };
    assert_eq!(response_lock_test(&conflict).unwrap(), Some(denied));

    let malformed = CompoundResponse {
        status: Status::Denied,
        tag: String::new(),
        results: vec![OperationResult::LockTest {
            status: Status::Denied,
            denied: None,
        }],
    };
    assert!(matches!(
        response_lock_test(&malformed),
        Err(Error::Protocol(_))
    ));
}

#[test]
fn response_lock_requires_stateid_on_success() {
    let stateid = StateId {
        seqid: 1,
        other: [7; 12],
    };
    let granted = CompoundResponse {
        status: Status::NfsOk,
        tag: String::new(),
        results: vec![OperationResult::Lock {
            status: Status::NfsOk,
            stateid: Some(stateid),
            denied: None,
        }],
    };
    assert_eq!(response_lock(&granted).unwrap(), stateid);

    let malformed = CompoundResponse {
        status: Status::NfsOk,
        tag: String::new(),
        results: vec![OperationResult::Lock {
            status: Status::NfsOk,
            stateid: None,
            denied: None,
        }],
    };
    assert!(matches!(response_lock(&malformed), Err(Error::Protocol(_))));
}

#[test]
fn response_lock_unlock_requires_stateid_on_success() {
    let stateid = StateId {
        seqid: 2,
        other: [8; 12],
    };
    let unlocked = CompoundResponse {
        status: Status::NfsOk,
        tag: String::new(),
        results: vec![OperationResult::LockUnlock {
            status: Status::NfsOk,
            stateid: Some(stateid),
        }],
    };
    assert_eq!(response_lock_unlock(&unlocked).unwrap(), stateid);

    let malformed = CompoundResponse {
        status: Status::NfsOk,
        tag: String::new(),
        results: vec![OperationResult::LockUnlock {
            status: Status::NfsOk,
            stateid: None,
        }],
    };
    assert!(matches!(
        response_lock_unlock(&malformed),
        Err(Error::Protocol(_))
    ));
}

#[test]
fn response_test_stateids_validates_status_count() {
    let response = CompoundResponse {
        status: Status::NfsOk,
        tag: String::new(),
        results: vec![OperationResult::TestStateIds {
            status: Status::NfsOk,
            statuses: vec![Status::NfsOk, Status::BadStateId],
        }],
    };
    assert_eq!(
        response_test_stateids(&response, 2).unwrap(),
        vec![Status::NfsOk, Status::BadStateId]
    );
    assert!(matches!(
        response_test_stateids(&response, 1),
        Err(Error::Protocol(_))
    ));

    let failed = CompoundResponse {
        status: Status::BadStateId,
        tag: String::new(),
        results: vec![OperationResult::TestStateIds {
            status: Status::BadStateId,
            statuses: Vec::new(),
        }],
    };
    assert!(matches!(
        response_test_stateids(&failed, 1),
        Err(Error::NfsV4 { operation, .. }) if operation == "TEST_STATEID"
    ));
}

#[test]
fn response_release_lock_owner_reports_locks_held() {
    let released = CompoundResponse {
        status: Status::NfsOk,
        tag: String::new(),
        results: vec![OperationResult::StatusOnly {
            op: OpCode::ReleaseLockOwner,
            status: Status::NfsOk,
        }],
    };
    assert!(response_release_lock_owner(&released).unwrap());

    let locks_held = CompoundResponse {
        status: Status::LocksHeld,
        tag: String::new(),
        results: vec![OperationResult::StatusOnly {
            op: OpCode::ReleaseLockOwner,
            status: Status::LocksHeld,
        }],
    };
    assert!(!response_release_lock_owner(&locks_held).unwrap());

    let failed = CompoundResponse {
        status: Status::BadOwner,
        tag: String::new(),
        results: vec![OperationResult::StatusOnly {
            op: OpCode::ReleaseLockOwner,
            status: Status::BadOwner,
        }],
    };
    assert!(matches!(
        response_release_lock_owner(&failed),
        Err(Error::NfsV4 { operation, .. }) if operation == "RELEASE_LOCKOWNER"
    ));
}

#[test]
fn response_copy_validates_count_and_async_progress() {
    let ok = response_copy(&copy_response(Some(copy_write_response(4, None))), 4).unwrap();
    assert_eq!(ok.response.unwrap().count, 4);

    let async_started = response_copy(
        &copy_response(Some(copy_write_response(
            0,
            Some(StateId {
                seqid: 9,
                other: [10; 12],
            }),
        ))),
        4,
    )
    .unwrap();
    assert!(async_started.response.unwrap().callback_id.is_some());

    assert!(matches!(
        response_copy(&copy_response(Some(copy_write_response(5, None))), 4),
        Err(Error::Protocol(_))
    ));
    assert!(matches!(
        response_copy(&copy_response(Some(copy_write_response(0, None))), 4),
        Err(Error::Protocol(_))
    ));
    assert!(matches!(
        response_copy(&copy_response(None), 4),
        Err(Error::Protocol(_))
    ));
}

#[test]
fn response_copy_notify_returns_result_and_status_errors() {
    let stateid = StateId {
        seqid: 12,
        other: [13; 12],
    };
    let ok = CompoundResponse {
        status: Status::NfsOk,
        tag: String::new(),
        results: vec![OperationResult::CopyNotify {
            status: Status::NfsOk,
            result: Some(CopyNotifyResult {
                lease_time: NfsTime {
                    seconds: 10,
                    nseconds: 11,
                },
                stateid,
                source_servers: vec![NetLoc::Url("nfs://source/export".to_owned())],
            }),
        }],
    };
    let result = response_copy_notify(&ok).unwrap();
    assert_eq!(result.stateid, stateid);
    assert_eq!(
        result.source_servers,
        vec![NetLoc::Url("nfs://source/export".to_owned())]
    );

    let failed = CompoundResponse {
        status: Status::OffloadDenied,
        tag: String::new(),
        results: vec![OperationResult::CopyNotify {
            status: Status::OffloadDenied,
            result: None,
        }],
    };
    assert!(matches!(
        response_copy_notify(&failed),
        Err(Error::NfsV4 {
            operation: "COPY_NOTIFY",
            status: Status::OffloadDenied
        })
    ));

    let missing_payload = CompoundResponse {
        status: Status::NfsOk,
        tag: String::new(),
        results: vec![OperationResult::CopyNotify {
            status: Status::NfsOk,
            result: None,
        }],
    };
    assert!(matches!(
        response_copy_notify(&missing_payload),
        Err(Error::Protocol(_))
    ));
}

#[test]
fn response_offload_status_requires_result_on_success() {
    let status = CompoundResponse {
        status: Status::NfsOk,
        tag: String::new(),
        results: vec![OperationResult::OffloadStatus {
            status: Status::NfsOk,
            result: Some(OffloadStatusResult {
                count: 8,
                complete: Some(Status::NfsOk),
            }),
        }],
    };
    assert_eq!(
        response_offload_status(&status).unwrap(),
        OffloadStatusResult {
            count: 8,
            complete: Some(Status::NfsOk),
        }
    );

    let malformed = CompoundResponse {
        status: Status::NfsOk,
        tag: String::new(),
        results: vec![OperationResult::OffloadStatus {
            status: Status::NfsOk,
            result: None,
        }],
    };
    assert!(matches!(
        response_offload_status(&malformed),
        Err(Error::Protocol(_))
    ));
}

#[test]
fn validate_stateid_batch_len_rejects_oversized_batches() {
    assert!(validate_stateid_batch_len(NFS4_MAX_OPS).is_ok());
    assert!(matches!(
        validate_stateid_batch_len(NFS4_MAX_OPS + 1),
        Err(Error::Protocol(_))
    ));
}

#[test]
fn app_data_block_len_validates_count() {
    let block = AppDataBlock {
        offset: 0,
        block_size: 4,
        block_count: 3,
        block_number_offset: 0,
        block_number: 0,
        pattern_offset: 0,
        pattern: vec![0; 4],
    };
    assert_eq!(app_data_block_len(&block).unwrap(), 12);

    let zero_size = AppDataBlock {
        block_size: 0,
        block_count: 1,
        ..block.clone()
    };
    assert!(matches!(
        app_data_block_len(&zero_size),
        Err(Error::Protocol(_))
    ));

    let overflow = AppDataBlock {
        block_size: u64::MAX,
        block_count: 2,
        ..block
    };
    assert!(matches!(
        app_data_block_len(&overflow),
        Err(Error::Protocol(_))
    ));
}

#[test]
fn advance_offset_rejects_overflow() {
    let mut offset = u64::MAX;
    assert!(matches!(
        advance_offset(&mut offset, 1, "NFSv4 READ"),
        Err(Error::Protocol(_))
    ));
    assert_eq!(offset, u64::MAX);
}

fn read_plus_response(result: ReadPlusResult) -> CompoundResponse {
    CompoundResponse {
        status: Status::NfsOk,
        tag: String::new(),
        results: vec![OperationResult::ReadPlus {
            status: Status::NfsOk,
            result: Some(result),
        }],
    }
}

fn write_response_with_count(count: u32) -> CompoundResponse {
    CompoundResponse {
        status: Status::NfsOk,
        tag: String::new(),
        results: vec![OperationResult::Write {
            status: Status::NfsOk,
            result: Some(WriteResult {
                count,
                committed: StableHow::FileSync,
                verifier: [0; NFS4_VERIFIER_SIZE],
            }),
        }],
    }
}

fn write_same_response_with_count(count: u64) -> CompoundResponse {
    CompoundResponse {
        status: Status::NfsOk,
        tag: String::new(),
        results: vec![OperationResult::WriteSame {
            status: Status::NfsOk,
            result: Some(WriteResponse {
                callback_id: None,
                count,
                committed: StableHow::FileSync,
                verifier: [0; NFS4_VERIFIER_SIZE],
            }),
        }],
    }
}

fn copy_response(response: Option<WriteResponse>) -> CompoundResponse {
    CompoundResponse {
        status: Status::NfsOk,
        tag: String::new(),
        results: vec![OperationResult::Copy {
            status: Status::NfsOk,
            result: Some(CopyResult {
                response,
                requirements: Some(CopyRequirements {
                    consecutive: false,
                    synchronous: true,
                }),
            }),
        }],
    }
}

fn copy_write_response(count: u64, callback_id: Option<StateId>) -> WriteResponse {
    WriteResponse {
        callback_id,
        count,
        committed: StableHow::FileSync,
        verifier: [0; NFS4_VERIFIER_SIZE],
    }
}

fn sequence_ok_result() -> OperationResult {
    OperationResult::Sequence {
        status: Status::NfsOk,
        result: Some(SequenceResult {
            session_id: [1; NFS4_SESSIONID_SIZE],
            sequence_id: 1,
            slot_id: 0,
            highest_slot_id: 0,
            target_highest_slot_id: 0,
            status_flags: 0,
        }),
    }
}

fn open_args(name: &str) -> OpenArgs {
    OpenArgs {
        seqid: 1,
        share_access: OPEN4_SHARE_ACCESS_READ,
        share_deny: OPEN4_SHARE_DENY_NONE,
        owner: OpenOwner {
            client_id: 1,
            owner: b"owner".to_vec(),
        },
        openhow: OpenHow::NoCreate,
        claim: OpenClaim::Null(name.to_owned()),
    }
}
