use std::time::Duration;

use nfs::error::Error;
use nfs::retry::RetryPolicy;
use nfs::rpc::{
    AuthSys, encode_call, max_record_size_for_payloads, parse_record_marker, parse_reply, record_marker,
    RPC_RECORD_OVERHEAD,
};
use nfs::text::{push_decimal, push_hex16, push_str};
use nfs::v4::blocking::{call_failure_error, exists_from_lookup, next_sequence_id, renewal_interval, settle_recovered_lock, CallFailure};
use nfs::v4::client::{
    io_advice_bitmap, io_advice_share_access, layout_iomode_share_access, lock_share_access, next_device_list_cursor,
    next_dir_cursor, operations_can_replay_after_session_recovery, validate_max_device_ids, verifier_from_clock,
    ByteRangeLock, LockRegistry, LockState,
};
use nfs::v4::proto::{
    Bitmap, FileHandle, IoAdviceType, LayoutIomode, LockOwner, LockType, OpCode, Operation, StableHow, StateId, Status,
    FATTR4_MODE, FATTR4_SIZE, OPEN4_SHARE_ACCESS_BOTH, OPEN4_SHARE_ACCESS_READ, OPEN4_SHARE_ACCESS_WRITE,
};
use nfs::v4::proto::DirEntry as ProtoDirEntry;
use nfs::v4::proto::{Fattr, OperationResult, SetAttrs};
use nfs::v4::{default_lock_owner, default_open_owner, default_owner_id, fnv1a64};
use nfs::xdr::{Decode, Decoder, Encode, Encoder, XdrError};

#[test]
fn xdr_integers_read_back_what_was_written() {
    let mut encoder = Encoder::new();
    encoder.write_u32(0xdead_beef);
    encoder.write_u64(0x0102_0304_0506_0708);
    encoder.write_bool(true);
    let bytes = encoder.into_bytes();
    assert_eq!(&bytes[..4], &[0xde, 0xad, 0xbe, 0xef]);
    let mut decoder = Decoder::new(&bytes);
    assert_eq!(decoder.read_u32().unwrap(), 0xdead_beef);
    assert_eq!(decoder.read_u64().unwrap(), 0x0102_0304_0506_0708);
    assert!(decoder.read_bool().unwrap());
    assert!(decoder.finish().is_ok());
}

#[test]
fn xdr_opaque_and_strings_are_padded_and_read_back() {
    let mut encoder = Encoder::new();
    encoder.write_opaque(&[1, 2, 3, 4, 5], 16).unwrap();
    encoder.write_string("héllo", 16).unwrap();
    let bytes = encoder.into_bytes();
    assert_eq!(bytes.len(), 4 + 8 + 4 + 8);
    let mut decoder = Decoder::new(&bytes);
    assert_eq!(decoder.read_opaque_vec(16).unwrap(), vec![1, 2, 3, 4, 5]);
    assert_eq!(decoder.read_string(16).unwrap(), "héllo");
    assert!(decoder.finish().is_ok());
}

#[test]
fn xdr_rejects_truncated_input_and_invalid_utf8() {
    let mut decoder = Decoder::new(&[0, 0, 0]);
    assert!(matches!(decoder.read_u32(), Err(XdrError::UnexpectedEof { .. })));
    let bytes = [0u8, 0, 0, 2, 0xff, 0xfe, 0, 0];
    let mut decoder = Decoder::new(&bytes);
    assert!(decoder.read_string(16).is_err());
    let mut encoder = Encoder::new();
    assert!(encoder.write_opaque(&[0; 9], 8).is_err());
}

#[test]
fn status_and_opcode_numbers_round_trip() {
    for code in [0u32, 2, 10008, 10052, 10071, 99999] {
        assert_eq!(Status::from_u32(code).as_u32(), code);
    }
    for code in [3u32, 22, 25, 53, 58, 10044] {
        assert_eq!(OpCode::from_u32(code).unwrap().as_u32(), code);
    }
    assert_eq!(Status::from_u32(0), Status::NfsOk);
}

#[test]
fn retry_delays_double_up_to_the_cap_and_stop() {
    let policy = RetryPolicy::default();
    let delays: Vec<Option<u64>> = (0..6).map(|i| policy.delay_for_retry(i)).collect();
    assert_eq!(delays, vec![Some(100), Some(200), Some(400), Some(800), Some(1600), None]);
    let capped = RetryPolicy::new(4, 500, 1000);
    assert_eq!(capped.delay_for_retry(0), Some(500));
    assert_eq!(capped.delay_for_retry(1), Some(1000));
    assert_eq!(capped.delay_for_retry(3), Some(1000));
    assert_eq!(capped.delay_for_retry(4), None);
    assert_eq!(RetryPolicy::never().delay_for_retry(0), None);
    let high_start = RetryPolicy::new(2, 5000, 300);
    assert_eq!(high_start.delay_for_retry(0), Some(300));
}

#[test]
fn fnv1a64_matches_reference_values() {
    assert_eq!(fnv1a64(b""), 0xcbf2_9ce4_8422_2325);
    assert_eq!(fnv1a64(b"a"), 0xaf63_dc4c_8601_ec8c);
    assert_eq!(fnv1a64(b"foobar"), 0x8594_4171_f739_67e8);
}

#[test]
fn default_owner_ids_have_the_documented_shape() {
    let id = default_owner_id("h", 7, 42, 3);
    assert_eq!(id, b"nfs-rs:client:af63e54c8601fbd7:7:42:3".to_vec());
    let open = default_open_owner("h", 7, 42, 4);
    assert_eq!(open, b"nfs-rs:open:af63e54c8601fbd7:7:42:4".to_vec());
    let lock = default_lock_owner("h", u32::MAX, u128::MAX, u64::MAX);
    assert!(lock.len() <= 1024);
    assert!(lock.starts_with(b"nfs-rs:lock:"));
}

#[test]
fn verifiers_come_from_seconds_xor_nanoseconds() {
    assert_eq!(verifier_from_clock(5, 3), [0, 0, 0, 0, 0, 0, 0, 6]);
    assert_eq!(verifier_from_clock(0x1_0000_0001, 1), [0, 0, 0, 1, 0, 0, 0, 0]);
}

#[test]
fn sequence_ids_wrap_past_zero_to_one() {
    assert_eq!(next_sequence_id(1), 2);
    assert_eq!(next_sequence_id(u32::MAX - 1), u32::MAX);
    assert_eq!(next_sequence_id(u32::MAX), 1);
}

#[test]
fn lease_renewal_uses_a_third_of_the_lease() {
    assert_eq!(renewal_interval(Some(3)), Some(Duration::from_secs(1)));
    assert_eq!(renewal_interval(Some(90)), Some(Duration::from_secs(30)));
    assert_eq!(renewal_interval(Some(1)), Some(Duration::from_nanos(333_333_333)));
    assert_eq!(renewal_interval(Some(0)), None);
    assert_eq!(renewal_interval(None), None);
}

#[test]
fn existence_probe_maps_noent_to_false() {
    assert!(matches!(exists_from_lookup(Ok(())), Ok(true)));
    assert!(matches!(exists_from_lookup(Err(Error::nfsv4("LOOKUP", Status::NoEnt))), Ok(false)));
    assert!(matches!(
        exists_from_lookup(Err(Error::nfsv4("LOOKUP", Status::Access))),
        Err(Error::NfsV4 { status: Status::Access, .. })
    ));
}

fn lock_state(lost: Option<Status>) -> LockState {
    LockState {
        client_id: 9,
        open_owner: b"open".to_vec(),
        handle: FileHandle::new(vec![1, 2]).unwrap(),
        open_stateid: StateId::anonymous(),
        lock_stateid: StateId::anonymous(),
        lock_seqid: 1,
        lock_type: LockType::Write,
        offset: 10,
        length: 20,
        owner: b"lock".to_vec(),
        lost,
    }
}

#[test]
fn released_locks_leave_the_registry() {
    let mut registry = LockRegistry::new();
    let first: ByteRangeLock = registry.register(lock_state(None)).unwrap();
    let second = registry.register(lock_state(None)).unwrap();
    assert_eq!(registry.len(), 2);
    assert_eq!(first.offset(), 10);
    assert_eq!(first.length(), 20);
    assert_eq!(first.owner(), b"lock");
    assert!(!first.is_lost());
    registry.remove(&first);
    assert_eq!(registry.len(), 1);
    assert!(matches!(registry.get(&first), Err(Error::Protocol(_))));
    assert!(registry.get(&second).is_ok());
    registry.remove(&first);
    assert_eq!(registry.len(), 1);
    assert!(registry.ensure_valid().is_ok());
    registry.restore(0, lock_state(Some(Status::NoGrace)));
    assert!(matches!(registry.ensure_valid(), Err(Error::LockLost { status: Status::NoGrace })));
}

#[test]
fn rpc_calls_and_replies_are_framed() {
    let auth = AuthSys::new("m".to_owned(), 1, 2, vec![3]);
    let call = encode_call(7, 100003, 4, 1, &auth, &[9, 9, 9, 9]).unwrap();
    assert_eq!(&call[..24], &[0, 0, 0, 7, 0, 0, 0, 0, 0, 0, 0, 2, 0, 1, 0x86, 0xa3, 0, 0, 0, 4, 0, 0, 0, 1]);
    assert_eq!(&call[call.len() - 4..], &[9, 9, 9, 9]);

    assert_eq!(record_marker(8, true), [0x80, 0, 0, 8]);
    assert_eq!(record_marker(8, false), [0, 0, 0, 8]);
    assert_eq!(parse_record_marker([0x80, 0, 1, 0]), (true, 256));
    assert_eq!(parse_record_marker([0x00, 0, 0, 5]), (false, 5));

    let reply = [0, 0, 0, 7, 0, 0, 0, 1, 0, 0, 0, 0, 0, 0, 0, 0, 0, 0, 0, 0, 0, 0, 0, 0, 0xaa, 0xbb];
    assert_eq!(parse_reply(7, &reply).unwrap(), vec![0xaa, 0xbb]);
    assert!(matches!(parse_reply(8, &reply), Err(Error::Protocol(_))));
    let denied = [0, 0, 0, 7, 0, 0, 0, 1, 0, 0, 0, 1, 0, 0, 0, 0, 0, 0, 0, 0];
    assert!(matches!(parse_reply(7, &denied), Err(Error::Protocol(_))));
    let not_run = [0, 0, 0, 7, 0, 0, 0, 1, 0, 0, 0, 0, 0, 0, 0, 0, 0, 0, 0, 0, 0, 0, 0, 1];
    assert!(matches!(parse_reply(7, &not_run), Err(Error::Protocol(_))));
    assert!(parse_reply(7, &reply[..10]).is_err());
}

#[test]
fn record_size_leaves_room_for_framing() {
    assert_eq!(max_record_size_for_payloads(&[1, 3, 2]), 3 + RPC_RECORD_OVERHEAD);
    assert_eq!(max_record_size_for_payloads(&[]), RPC_RECORD_OVERHEAD);
}

#[test]
fn share_access_follows_the_requested_use() {
    assert_eq!(io_advice_share_access(&[IoAdviceType::Read, IoAdviceType::Write]), OPEN4_SHARE_ACCESS_WRITE);
    assert_eq!(io_advice_share_access(&[IoAdviceType::Sequential]), OPEN4_SHARE_ACCESS_READ);
    assert_eq!(io_advice_share_access(&[]), OPEN4_SHARE_ACCESS_READ);
    assert_eq!(lock_share_access(LockType::ReadBlocking), OPEN4_SHARE_ACCESS_READ);
    assert_eq!(lock_share_access(LockType::WriteBlocking), OPEN4_SHARE_ACCESS_WRITE);
    assert_eq!(layout_iomode_share_access(LayoutIomode::Read), OPEN4_SHARE_ACCESS_READ);
    assert_eq!(layout_iomode_share_access(LayoutIomode::Any), OPEN4_SHARE_ACCESS_BOTH);
    let bitmap = io_advice_bitmap(&[IoAdviceType::Write, IoAdviceType::Random]);
    assert!(bitmap.contains(9));
    assert!(bitmap.contains(3));
    assert!(!bitmap.contains(0));
}

#[test]
fn bitmaps_hold_exactly_their_attributes() {
    let bitmap = Bitmap::from_attrs(&[FATTR4_SIZE, FATTR4_MODE, 70]).unwrap();
    assert!(bitmap.contains(FATTR4_SIZE));
    assert!(bitmap.contains(FATTR4_MODE));
    assert!(bitmap.contains(70));
    assert!(!bitmap.contains(1));
    assert_eq!(bitmap.attrs(), vec![FATTR4_SIZE, FATTR4_MODE, 70]);
    assert!(Bitmap::empty().is_empty());
    assert!(Bitmap::from_attrs(&[128 * 32]).is_err());
}

#[test]
fn cursors_advance_or_fail() {
    let entry = |cookie| ProtoDirEntry { cookie, name: "x".to_owned(), attrs: Fattr::empty() };
    assert_eq!(next_dir_cursor([1; 8], &[], true, 0).unwrap(), None);
    assert!(matches!(next_dir_cursor([1; 8], &[], false, 0), Err(Error::Protocol(_))));
    let next = next_dir_cursor([1; 8], &[entry(3), entry(5)], false, 3).unwrap().unwrap();
    assert_eq!(next.cookie, 5);
    assert!(matches!(next_device_list_cursor(4, [0; 8], false, 4), Err(Error::Protocol(_))));
    assert_eq!(next_device_list_cursor(4, [0; 8], true, 4).unwrap(), None);
    assert!(validate_max_device_ids(0).is_err());
    assert_eq!(validate_max_device_ids(1).unwrap(), 1);
}

#[test]
fn only_stateless_reads_may_be_replayed_after_session_recovery() {
    let handle = FileHandle::new(vec![1]).unwrap();
    assert!(operations_can_replay_after_session_recovery(&[
        Operation::PutFh(handle.clone()),
        Operation::GetAttr(Bitmap::empty()),
    ]));
    assert!(!operations_can_replay_after_session_recovery(&[
        Operation::PutFh(handle),
        Operation::Write { stateid: StateId::anonymous(), offset: 0, stable: StableHow::FileSync, data: vec![1] },
    ]));
    assert!(!operations_can_replay_after_session_recovery(&[Operation::Remove("f".to_owned())]));
}

#[test]
fn text_helpers_write_decimal_and_hex() {
    let mut s = String::new();
    push_str(&mut s, "n=");
    push_decimal(&mut s, 1204);
    push_str(&mut s, " h=");
    push_hex16(&mut s, 0xab);
    assert_eq!(s, "n=1204 h=00000000000000ab");
}

#[test]
fn error_messages_name_the_failure() {
    let err = Error::nfsv4("OPEN", Status::NoEnt);
    assert!(err.is_not_found());
    assert!(err.message().contains("OPEN"));
    let cleanup = Error::cleanup("cleanup CLOSE", Error::Protocol("first".to_owned()), Error::Protocol("second".to_owned()));
    let message = cleanup.message();
    assert!(message.contains("first") && message.contains("second"));
    assert!(Error::OutcomeUnknown { operation: "COMPOUND" }.is_outcome_unknown());
    assert!(!Error::OutcomeUnknown { operation: "COMPOUND" }.is_retryable());
    assert!(Error::OutcomeUnknown { operation: "COMPOUND" }.is_transport_failure());
    assert!(Error::nfsv4("SEQUENCE", Status::BadSession).is_session_recoverable());
}

#[test]
fn operations_encode_their_code_then_their_arguments() {
    let mut encoder = Encoder::new();
    Operation::Lookup("ab".to_string()).encode(&mut encoder).unwrap();
    assert_eq!(encoder.into_bytes(), vec![0, 0, 0, 15, 0, 0, 0, 2, b'a', b'b', 0, 0]);

    let mut encoder = Encoder::new();
    Operation::Commit { offset: 1, count: 2 }.encode(&mut encoder).unwrap();
    assert_eq!(encoder.into_bytes(), vec![0, 0, 0, 5, 0, 0, 0, 0, 0, 0, 0, 1, 0, 0, 0, 2]);

    let mut encoder = Encoder::new();
    let long = "x".repeat(1025);
    assert!(Operation::Remove(long).encode(&mut encoder).is_err());
}

#[test]
fn state_ids_and_handles_read_back_what_was_written() {
    let stateid = StateId { seqid: 7, other: [9u8; 12] };
    let handle = FileHandle::new(vec![1, 2, 3]).unwrap();
    let owner = LockOwner { client_id: 0x1122_3344_5566_7788, owner: vec![5, 6, 7, 8, 9] };
    let mut encoder = Encoder::new();
    stateid.encode(&mut encoder).unwrap();
    handle.encode(&mut encoder).unwrap();
    owner.encode(&mut encoder).unwrap();
    let bytes = encoder.into_bytes();
    assert_eq!(bytes.len(), 16 + 8 + 8 + 4 + 8);
    let mut decoder = Decoder::new(&bytes);
    assert_eq!(StateId::decode(&mut decoder).unwrap(), stateid);
    assert_eq!(FileHandle::decode(&mut decoder).unwrap().as_bytes(), &[1, 2, 3]);
    assert_eq!(LockOwner::decode(&mut decoder).unwrap(), owner);
    assert!(decoder.finish().is_ok());
}

#[test]
fn attribute_payloads_read_back_what_was_written() {
    let attrs = Fattr { attrmask: Bitmap::from_attrs(&[FATTR4_SIZE, FATTR4_MODE]).unwrap(), attr_vals: vec![0, 0, 0, 1, 0, 0, 0, 2] };
    let mut encoder = Encoder::new();
    attrs.encode(&mut encoder).unwrap();
    let bytes = encoder.into_bytes();
    let mut decoder = Decoder::new(&bytes);
    let back = Fattr::decode(&mut decoder).unwrap();
    assert_eq!(back, attrs);
    assert!(decoder.finish().is_ok());
}

#[test]
fn call_messages_hold_the_credentials_and_the_arguments() {
    let auth = AuthSys::new("h".to_string(), 1, 2, vec![]);
    let message = encode_call(9, 100003, 4, 1, &auth, &[0xaa, 0xbb, 0xcc, 0xdd]).unwrap();
    let mut expected = vec![0, 0, 0, 9, 0, 0, 0, 0, 0, 0, 0, 2, 0, 1, 0x86, 0xa3, 0, 0, 0, 4, 0, 0, 0, 1];
    expected.extend_from_slice(&[0, 0, 0, 1, 0, 0, 0, 24]);
    expected.extend_from_slice(&[0, 0, 0, 0, 0, 0, 0, 1, b'h', 0, 0, 0, 0, 0, 0, 1, 0, 0, 0, 2, 0, 0, 0, 0]);
    expected.extend_from_slice(&[0, 0, 0, 0, 0, 0, 0, 0, 0xaa, 0xbb, 0xcc, 0xdd]);
    assert_eq!(message, expected);
}

#[test]
fn read_results_carry_the_flag_and_data_on_the_wire() {
    let bytes = vec![0, 0, 0, 25, 0, 0, 0, 0, 0, 0, 0, 1, 0, 0, 0, 3, b'a', b'b', b'c', 0];
    let mut decoder = Decoder::new(&bytes);
    let result = OperationResult::decode(&mut decoder).unwrap();
    assert_eq!(result, OperationResult::Read { status: Status::NfsOk, eof: true, data: b"abc".to_vec() });
    assert!(decoder.finish().is_ok());

    let failed = vec![0, 0, 0, 25, 0, 0, 0, 2];
    let mut decoder = Decoder::new(&failed);
    let result = OperationResult::decode(&mut decoder).unwrap();
    assert_eq!(result, OperationResult::Read { status: Status::NoEnt, eof: false, data: Vec::new() });
}

#[test]
fn size_updates_encode_like_the_size_payload() {
    assert_eq!(Fattr::from_set_attrs(&SetAttrs::size(7)).unwrap(), Fattr::size(7));
    let parsed = Fattr::size(7).parse_basic().unwrap();
    assert_eq!(parsed.size, Some(7));
    assert_eq!(parsed.raw, Fattr::size(7));
}

#[test]
fn a_restored_lock_is_kept_as_restored() {
    let mut restored = lock_state(None);
    restored.lock_seqid = 2;
    let settled = settle_recovered_lock(&lock_state(None), Ok(restored)).unwrap();
    assert_eq!(settled.lock_seqid, 2);
    assert!(settled.lost.is_none());
}

#[test]
fn a_refused_reclaim_marks_the_lock_lost_with_the_status() {
    let settled = settle_recovered_lock(&lock_state(None), Err(Error::nfsv4("LOCK", Status::NoGrace))).unwrap();
    assert_eq!(settled.lost, Some(Status::NoGrace));
    assert_eq!(settled.offset, 10);
    assert_eq!(settled.length, 20);
    let settled = settle_recovered_lock(&lock_state(None), Err(Error::nfsv4("OPEN", Status::Stale))).unwrap();
    assert_eq!(settled.lost, Some(Status::Stale));
}

#[test]
fn other_reclaim_failures_end_the_recovery() {
    let settled = settle_recovered_lock(&lock_state(None), Err(Error::Transport("reset".to_owned())));
    assert!(matches!(settled, Err(Error::Transport(_))));
    let settled = settle_recovered_lock(&lock_state(None), Err(Error::nfsv4("LOCK", Status::Denied)));
    assert!(matches!(settled, Err(Error::NfsV4 { status: Status::Denied, .. })));
}

#[test]
fn a_lost_reply_leaves_the_outcome_unknown() {
    let e = call_failure_error(CallFailure::ReplyLost);
    assert!(e.is_outcome_unknown());
    assert!(!e.is_retryable());
    let e = call_failure_error(CallFailure::NotSent(Error::Transport("refused".to_owned())));
    assert!(matches!(e, Error::Transport(_)));
    assert!(e.is_retryable());
    let e = call_failure_error(CallFailure::Refused(Error::Protocol("bad verifier".to_owned())));
    assert!(matches!(e, Error::Protocol(_)));
}
