//! COMPOUND request construction and reply interpretation shared by the
//! NFSv4 clients: replay and retry rules, reply shape checks, path handling,
//! paging, lock bookkeeping and the per-operation result extractors.
use vstd::prelude::*;
use crate::error::{
    Error, Result, protocol,
};
use crate::xdr::{
    be_u64, u64_to_be_bytes,
};
use crate::v4::proto::{
    LockOwner,
    AccessResult, AppDataBlock, BasicAttributes, BindConnToSessionResult, Bitmap, ChannelAttrs,
    CommitResult, CompoundResponse, CopyNotifyResult, CopyResult, CreateSessionResult, DeviceId,
    ExchangeIdResult, FATTR4_SIZE, Fattr, FileHandle, GetDeviceInfoResult, GetDeviceListResult,
    GetDirDelegationResult, IoAdviceType, IoAdviseResult, LayoutCommitResult, LayoutGetResult, LayoutIomode,
    LayoutReturn, LayoutReturnResult, LockDenied, LockType, NFS4_MAX_IO, NFS4_MAX_OPS,
    NFS4_MINOR_VERSION_SESSION_MIN, NFS4_OPAQUE_LIMIT, NetLoc, OPEN4_RESULT_CONFIRM, OPEN4_SHARE_ACCESS_BOTH, OPEN4_SHARE_ACCESS_READ,
    OPEN4_SHARE_ACCESS_WRITE, OffloadStatusResult, OpCode, OpenDelegation, OpenResult, Operation,
    OperationResult, ReadPlusContent, ReadPlusResult, SEQ4_STATUS_ADMIN_STATE_REVOKED, SEQ4_STATUS_EXPIRED_ALL_STATE_REVOKED, SEQ4_STATUS_EXPIRED_SOME_STATE_REVOKED,
    SecInfo, SeekResult, SetSsvResult, StateId, Status, Verifier,
    WriteResponse, WriteResult, attrs_fit_bitmap, attr_list, basic_attrs_decode, basic_attrs_of,
    is_attr_list, copy_bytes,
};

verus! {

/// Whether the first result is a successful SEQUENCE.
pub open spec fn spec_sequence_succeeded(results: Seq<OperationResult>) -> bool {
    results.len() > 0 && (results[0] matches OperationResult::Sequence { status, .. } && status == Status::NfsOk)
}

/// Returns whether the COMPOUND began with a successful SEQUENCE.
pub fn sequence_succeeded(response: &CompoundResponse) -> (r: bool)
    ensures
        r == spec_sequence_succeeded(response.results@),
{
    if response.results.len() == 0 {
        return false;
    }
    match &response.results[0] {
        OperationResult::Sequence { status, .. } => status.is_ok(),
        _ => false,
    }
}

/// The lock-loss status that the SEQUENCE status flags report, if any.
pub open spec fn spec_revoked_lock_status(results: Seq<OperationResult>) -> Option<Status> {
    if results.len() > 0 && results[0] matches OperationResult::Sequence { result: Some(sequence), .. } {
        let flags = results[0]->Sequence_result.unwrap().status_flags;
        if flags & SEQ4_STATUS_ADMIN_STATE_REVOKED != 0 {
            Some(Status::AdminRevoked)
        } else if flags & (SEQ4_STATUS_EXPIRED_ALL_STATE_REVOKED | SEQ4_STATUS_EXPIRED_SOME_STATE_REVOKED) != 0 {
            Some(Status::Expired)
        } else {
            None
        }
    } else {
        None
    }
}

/// Returns the status under which the server reports revoked state, if the
/// SEQUENCE result flags say that some state was revoked.
pub fn response_revoked_lock_status(response: &CompoundResponse) -> (r: Option<Status>)
    ensures
        r == spec_revoked_lock_status(response.results@),
{
    if response.results.len() == 0 {
        return None;
    }
    match &response.results[0] {
        OperationResult::Sequence { result: Some(sequence), .. } => {
            if sequence.status_flags & SEQ4_STATUS_ADMIN_STATE_REVOKED != 0 {
                Some(Status::AdminRevoked)
            } else if sequence.status_flags & (SEQ4_STATUS_EXPIRED_ALL_STATE_REVOKED
                | SEQ4_STATUS_EXPIRED_SOME_STATE_REVOKED) != 0 {
                Some(Status::Expired)
            } else {
                None
            }
        },
        _ => None,
    }
}

/// DELAY and GRACE ask the client to send the same request again later.
pub open spec fn spec_status_allows_delayed_retry(status: Status) -> bool {
    status == Status::Delay || status == Status::Grace
}

fn status_allows_delayed_retry(status: Status) -> (r: bool)
    ensures
        r == spec_status_allows_delayed_retry(status),
{
    matches!(status, Status::Delay | Status::Grace)
}

/// The index of the first result that asks for a delayed retry: 0 for an
/// empty reply whose COMPOUND status does, else the first such result.
pub open spec fn spec_first_delayed_retry_index(response: CompoundResponse) -> Option<int> {
    if response.results@.len() == 0 && spec_status_allows_delayed_retry(response.status) {
        Some(0)
    } else if exists|i: int| 0 <= i < response.results@.len()
        && spec_status_allows_delayed_retry(#[trigger] response.results@[i].spec_status()) {
        Some(choose|i: int| 0 <= i < response.results@.len()
            && spec_status_allows_delayed_retry(#[trigger] response.results@[i].spec_status())
            && forall|j: int| 0 <= j < i ==> !spec_status_allows_delayed_retry(#[trigger] response.results@[j].spec_status()))
    } else {
        None
    }
}

pub fn first_delayed_retry_result_index(response: &CompoundResponse) -> (r: Option<usize>)
    ensures
        response.results@.len() == 0 ==> (r is Some <==> spec_status_allows_delayed_retry(response.status)),
        response.results@.len() == 0 && r is Some ==> r == Some(0usize),
        response.results@.len() > 0 ==> (r is None <==> forall|j: int| 0 <= j < response.results@.len()
            ==> !spec_status_allows_delayed_retry(#[trigger] response.results@[j].spec_status())),
        response.results@.len() > 0 ==> (r matches Some(i) ==> i < response.results@.len()
            && spec_status_allows_delayed_retry(response.results@[i as int].spec_status())
            && forall|j: int| 0 <= j < i ==> !spec_status_allows_delayed_retry(#[trigger] response.results@[j].spec_status())),
{
    if response.results.len() == 0 && status_allows_delayed_retry(response.status) {
        return Some(0);
    }
    let mut i: usize = 0;
    while i < response.results.len()
        invariant
            i <= response.results@.len(),
            forall|j: int| 0 <= j < i ==> !spec_status_allows_delayed_retry(#[trigger] response.results@[j].spec_status()),
        decreases response.results@.len() - i,
    {
        if status_allows_delayed_retry(response.results[i].status()) {
            return Some(i);
        }
        i = i + 1;
    }
    None
}

/// Whether the operation may be sent again after the server answered it
/// with DELAY or GRACE. Operations that advance a state-owner sequence id
/// must be rebuilt by their caller instead.
pub open spec fn spec_operation_can_retry_after_delayed_result(operation: &Operation) -> bool {
    !(operation is Open || operation is OpenConfirm || operation is Close || operation is Lock
        || operation is LockUnlock || operation is OpenDowngrade || operation is Sequence)
}

fn operation_can_retry_after_delayed_result(operation: &Operation) -> (r: bool)
    ensures
        r == spec_operation_can_retry_after_delayed_result(operation),
{
    !matches!(
        operation,
        Operation::Open(_) | Operation::OpenConfirm { .. } | Operation::Close { .. } | Operation::Lock(_)
            | Operation::LockUnlock(_) | Operation::OpenDowngrade { .. } | Operation::Sequence(_)
    )
}

/// Whether a reply that asked for a delay allows sending the same COMPOUND
/// again: the delayed result is one of the leading results the caller added,
/// or every operation before the delayed one can be replayed and the delayed
/// operation itself may be retried.
pub open spec fn spec_allows_delayed_retry(operations: Seq<Operation>, retry_index: Option<int>, leading: int) -> bool {
    match retry_index {
        None => false,
        Some(ri) => ri < leading || {
            let d = ri - leading;
            &&& d < operations.len()
            &&& forall|j: int| 0 <= j < d ==> spec_operation_can_replay_after_successful_prefix(&#[trigger] operations[j])
            &&& spec_operation_can_retry_after_delayed_result(&operations[d])
        },
    }
}

fn response_allows_delayed_retry_after_leading_results(
    operations: &[Operation],
    response: &CompoundResponse,
    leading_result_count: usize,
) -> (r: bool)
    ensures
        r == spec_allows_delayed_retry(operations@, spec_first_delayed_retry_index(*response), leading_result_count as int),
{
    let retry_index = match first_delayed_retry_result_index(response) {
        Some(i) => i,
        None => {
            assert(spec_first_delayed_retry_index(*response) is None);
            return false;
        },
    };
    proof {
        if response.results@.len() > 0 {
            assert(spec_status_allows_delayed_retry(response.results@[retry_index as int].spec_status()));
            let c = choose|i: int| 0 <= i < response.results@.len()
                && spec_status_allows_delayed_retry(#[trigger] response.results@[i].spec_status())
                && forall|j: int| 0 <= j < i ==> !spec_status_allows_delayed_retry(#[trigger] response.results@[j].spec_status());
            assert(c == retry_index as int) by {
                if c < retry_index as int {
                    assert(!spec_status_allows_delayed_retry(response.results@[c].spec_status()));
                } else if c > retry_index as int {
                    assert(!spec_status_allows_delayed_retry(response.results@[retry_index as int].spec_status()));
                }
            }
        }
        assert(spec_first_delayed_retry_index(*response) == Some(retry_index as int));
    }
    if retry_index < leading_result_count {
        return true;
    }
    let delayed = retry_index - leading_result_count;
    if delayed >= operations.len() {
        return false;
    }
    let mut j: usize = 0;
    while j < delayed
        invariant
            delayed < operations@.len(),
            spec_first_delayed_retry_index(*response) == Some(retry_index as int),
            delayed == retry_index - leading_result_count,
            j <= delayed,
            forall|k: int| 0 <= k < j ==> spec_operation_can_replay_after_successful_prefix(&#[trigger] operations@[k]),
        decreases delayed - j,
    {
        if !operation_can_replay_after_successful_prefix(&operations[j]) {
            assert(!spec_operation_can_replay_after_successful_prefix(&operations@[j as int]));
            assert(spec_first_delayed_retry_index(*response) == Some(retry_index as int));
            return false;
        }
        j = j + 1;
    }
    operation_can_retry_after_delayed_result(&operations[delayed])
}

/// Whether a reply to a COMPOUND that began with SEQUENCE may be retried
/// after a delay.
pub fn response_allows_delayed_retry(operations: &[Operation], response: &CompoundResponse) -> (r: bool)
    ensures
        r == spec_allows_delayed_retry(operations@, spec_first_delayed_retry_index(*response), 1),
{
    response_allows_delayed_retry_after_leading_results(operations, response, 1)
}

/// Whether a reply to a COMPOUND without SEQUENCE may be retried after a delay.
pub fn response_allows_delayed_retry_without_sequence(operations: &[Operation], response: &CompoundResponse) -> (r: bool)
    ensures
        r == spec_allows_delayed_retry(operations@, spec_first_delayed_retry_index(*response), 0),
{
    response_allows_delayed_retry_after_leading_results(operations, response, 0)
}

/// Whether the reply reports that the session must be rebuilt: its SEQUENCE
/// failed with a session-recovery status, or it holds no result and its
/// COMPOUND status is one.
pub open spec fn spec_requires_session_recovery(response: CompoundResponse) -> bool {
    (response.results@.len() > 0 && (response.results@[0] matches OperationResult::Sequence { status, .. }
        && status.spec_requires_session_recovery()))
    || (response.results@.len() == 0 && response.status.spec_requires_session_recovery())
}

/// Returns whether the reply calls for a new session.
pub fn response_requires_session_recovery(response: &CompoundResponse) -> (r: bool)
    ensures
        r == spec_requires_session_recovery(*response),
{
    if response.results.len() == 0 {
        return response.status.requires_session_recovery();
    }
    match &response.results[0] {
        OperationResult::Sequence { status, .. } => status.requires_session_recovery(),
        _ => false,
    }
}

/// The error reported for a reply that requires session recovery: the
/// failed SEQUENCE, else the first result, else the COMPOUND status.
pub open spec fn spec_session_recovery_error(response: CompoundResponse) -> Error {
    if response.results@.len() == 0 {
        Error::NfsV4 { operation: "COMPOUND", status: response.status }
    } else if response.results@[0] is Sequence
        && response.results@[0].spec_status().spec_requires_session_recovery() {
        Error::NfsV4 { operation: "SEQUENCE", status: response.results@[0].spec_status() }
    } else {
        Error::NfsV4 {
            operation: response.results@[0].spec_op_code().spec_name(),
            status: response.results@[0].spec_status(),
        }
    }
}

/// The error reported for a reply that requires session recovery.
pub fn session_recovery_error(response: &CompoundResponse) -> (e: Error)
    ensures
        e == spec_session_recovery_error(*response),
{
    if response.results.len() == 0 {
        return Error::nfsv4("COMPOUND", response.status);
    }
    let first = &response.results[0];
    match first {
        OperationResult::Sequence { status, .. } if status.requires_session_recovery() => {
            Error::nfsv4("SEQUENCE", *status)
        },
        _ => Error::nfsv4(first.op_name(), first.status()),
    }
}

/// Statuses that leave a state-owner sequence id unconsumed.
pub open spec fn spec_owner_seqid_status_consumes(status: Status) -> bool {
    !(status == Status::BadSeqId || status == Status::BadStateId || status == Status::BadXdr
        || status == Status::Moved || status == Status::NoFileHandle || status == Status::Resource
        || status == Status::StaleClientId || status == Status::StaleStateId)
}

fn owner_seqid_status_consumes(status: Status) -> (r: bool)
    ensures
        r == spec_owner_seqid_status_consumes(status),
{
    !matches!(
        status,
        Status::BadSeqId | Status::BadStateId | Status::BadXdr | Status::Moved | Status::NoFileHandle
            | Status::Resource | Status::StaleClientId | Status::StaleStateId
    )
}

/// Whether some result for `op` consumed the state-owner sequence id.
pub fn response_consumed_owner_seqid(response: &CompoundResponse, op: OpCode) -> (r: bool)
    ensures
        r == exists|i: int| 0 <= i < response.results@.len() && (#[trigger] response.results@[i]).spec_op_code() == op
            && spec_owner_seqid_status_consumes(response.results@[i].spec_status()),
{
    let mut i: usize = 0;
    while i < response.results.len()
        invariant
            i <= response.results@.len(),
            forall|j: int| 0 <= j < i ==> !((#[trigger] response.results@[j]).spec_op_code() == op
                && spec_owner_seqid_status_consumes(response.results@[j].spec_status())),
        decreases response.results@.len() - i,
    {
        let result = &response.results[i];
        if result.op_code() == op && owner_seqid_status_consumes(result.status()) {
            return true;
        }
        i = i + 1;
    }
    false
}

/// Whether some result for `op` carries DELAY or GRACE.
pub fn response_operation_has_delayed_status(response: &CompoundResponse, op: OpCode) -> (r: bool)
    ensures
        r == exists|i: int| 0 <= i < response.results@.len() && (#[trigger] response.results@[i]).spec_op_code() == op
            && spec_status_allows_delayed_retry(response.results@[i].spec_status()),
{
    let mut i: usize = 0;
    while i < response.results.len()
        invariant
            i <= response.results@.len(),
            forall|j: int| 0 <= j < i ==> !((#[trigger] response.results@[j]).spec_op_code() == op
                && spec_status_allows_delayed_retry(response.results@[j].spec_status())),
        decreases response.results@.len() - i,
    {
        let result = &response.results[i];
        if result.op_code() == op && status_allows_delayed_retry(result.status()) {
            return true;
        }
        i = i + 1;
    }
    false
}

/// Whether some result for `op` carries a session-recovery status.
pub fn response_operation_requires_session_recovery(response: &CompoundResponse, op: OpCode) -> (r: bool)
    ensures
        r == exists|i: int| 0 <= i < response.results@.len() && (#[trigger] response.results@[i]).spec_op_code() == op
            && response.results@[i].spec_status().spec_requires_session_recovery(),
{
    let mut i: usize = 0;
    while i < response.results.len()
        invariant
            i <= response.results@.len(),
            forall|j: int| 0 <= j < i ==> !((#[trigger] response.results@[j]).spec_op_code() == op
                && response.results@[j].spec_status().spec_requires_session_recovery()),
        decreases response.results@.len() - i,
    {
        let result = &response.results[i];
        if result.op_code() == op && result.status().requires_session_recovery() {
            return true;
        }
        i = i + 1;
    }
    false
}

/// Bytes of a session's request or reply size kept for the COMPOUND framing
/// around a READ or WRITE payload.
pub const NFS4_COMPOUND_IO_HEADROOM: u32 = 4096;

/// A result answers the expected operation, or is the ILLEGAL result a
/// server returns for an operation it does not know.
pub open spec fn spec_result_matches_expected(result: OperationResult, expected: OpCode) -> bool {
    result.spec_op_code() == expected
        || (result.spec_op_code() == OpCode::Illegal && result.spec_status() == Status::OpIllegal)
}

fn compound_result_matches_expected(result: &OperationResult, expected: OpCode) -> (r: bool)
    ensures
        r == spec_result_matches_expected(*result, expected),
{
    let actual = result.op_code();
    actual == expected || (actual == OpCode::Illegal && result.status() == Status::OpIllegal)
}

/// A reply is well formed for a request with tag `tag` and operations
/// `expected`: the tags match; results answer a prefix of the operations, in
/// order; a successful COMPOUND answers every operation, each successfully; a
/// failed one stops at its first failed result, whose status it reports.
pub open spec fn spec_compound_shape_ok(tag: Seq<char>, expected: Seq<OpCode>, response: CompoundResponse) -> bool {
    let results = response.results@;
    &&& response.tag@ == tag
    &&& results.len() <= expected.len()
    &&& forall|i: int| 0 <= i < results.len() ==> spec_result_matches_expected(#[trigger] results[i], expected[i])
    &&& response.status == Status::NfsOk ==> results.len() == expected.len()
        && forall|i: int| 0 <= i < results.len() ==> (#[trigger] results[i]).spec_status() == Status::NfsOk
    &&& response.status != Status::NfsOk && results.len() > 0 ==> {
        &&& forall|i: int| 0 <= i < results.len() - 1 ==> (#[trigger] results[i]).spec_status() == Status::NfsOk
        &&& results.last().spec_status() == response.status
    }
}

/// Checks that a COMPOUND reply has the shape its request calls for.
pub fn validate_compound_response_shape(tag: &str, expected: &[OpCode], response: &CompoundResponse) -> (r: Result<()>)
    ensures
        r is Ok <==> spec_compound_shape_ok(tag@, expected@, *response),
        r matches Err(e) ==> e is Protocol,
{
    let tag_owned = tag.to_owned();
    if response.tag != tag_owned {
        return Err(protocol("NFSv4 COMPOUND response tag does not match the request tag"));
    }
    if response.results.len() > expected.len() {
        return Err(protocol("NFSv4 COMPOUND returned more operation results than requests"));
    }
    let mut i: usize = 0;
    while i < response.results.len()
        invariant
            i <= response.results@.len() <= expected@.len(),
            forall|j: int| 0 <= j < i ==> spec_result_matches_expected(#[trigger] response.results@[j], expected@[j]),
        decreases response.results@.len() - i,
    {
        if !compound_result_matches_expected(&response.results[i], expected[i]) {
            return Err(protocol("NFSv4 COMPOUND result does not answer the requested operation"));
        }
        i = i + 1;
    }
    let ok = response.status.is_ok();
    if ok && response.results.len() != expected.len() {
        return Err(protocol("NFSv4 COMPOUND succeeded without answering every operation"));
    }
    let mut failed: Option<usize> = None;
    let mut k: usize = 0;
    while k < response.results.len()
        invariant
            k <= response.results@.len(),
            failed is None ==> forall|j: int| 0 <= j < k ==> (#[trigger] response.results@[j]).spec_status() == Status::NfsOk,
            failed matches Some(f) ==> f < response.results@.len() && response.results@[f as int].spec_status() != Status::NfsOk
                && forall|j: int| 0 <= j < f ==> (#[trigger] response.results@[j]).spec_status() == Status::NfsOk,
        decreases response.results@.len() - k,
    {
        if failed.is_none() && !response.results[k].status().is_ok() {
            failed = Some(k);
        }
        k = k + 1;
    }
    match failed {
        Some(index) => {
            if ok {
                return Err(protocol("NFSv4 COMPOUND has an OK status but a failed result"));
            }
            if index + 1 != response.results.len() {
                return Err(protocol("NFSv4 COMPOUND has a failed result that is not the last"));
            }
            if response.results[index].status() != response.status {
                return Err(protocol("NFSv4 COMPOUND status does not match its final result status"));
            }
            Ok(())
        },
        None => {
            if !ok && response.results.len() > 0 {
                return Err(protocol("NFSv4 COMPOUND failed, but all operation results were OK"));
            }
            Ok(())
        },
    }
}

/// The payload a session channel of `channel_size` bytes leaves room for,
/// capped at `NFS4_MAX_IO`.
pub open spec fn spec_session_payload_limit(channel_size: u32) -> u32 {
    if channel_size <= NFS4_COMPOUND_IO_HEADROOM {
        0
    } else {
        let room = channel_size - NFS4_COMPOUND_IO_HEADROOM;
        if room < NFS4_MAX_IO { room as u32 } else { NFS4_MAX_IO as u32 }
    }
}

/// The payload limit for a session channel of `channel_size` bytes.
pub fn session_payload_limit(channel_size: u32) -> (r: u32)
    ensures
        r == spec_session_payload_limit(channel_size),
{
    let room = channel_size.saturating_sub(NFS4_COMPOUND_IO_HEADROOM);
    if (room as usize) < NFS4_MAX_IO {
        room
    } else {
        NFS4_MAX_IO as u32
    }
}
/// Whether an operation may be sent again on a new session after the old
/// session was lost. Recreating a session loses the previous session's reply
/// cache, so only read-only operations that consume no client state qualify;
/// a READ qualifies only with the anonymous state id.
pub open spec fn spec_operation_can_replay_after_session_recovery(operation: &Operation) -> bool {
    match operation {

        Operation::PutRootFh
        | Operation::PutPubFh
        | Operation::PutFh(_)
        | Operation::Lookup(_)
        | Operation::Lookupp
        | Operation::Access(_)
        | Operation::SecInfo(_)
        | Operation::SecInfoNoName(_)
        | Operation::NVerify(_)
        | Operation::GetFh
        | Operation::GetAttr(_)
        | Operation::ReadDir { .. }
        | Operation::ReadLink
        | Operation::Verify(_)
        | Operation::SaveFh
        | Operation::RestoreFh
        | Operation::TestStateIds(_) => true,
        Operation::Read { stateid, .. } => stateid.spec_is_anonymous(),
        Operation::Write { .. }
        | Operation::Commit { .. }
        | Operation::SetAttr { .. }
        | Operation::Remove(_)
        | Operation::Link(_)
        | Operation::Rename { .. }
        | Operation::Create(_)
        | Operation::SetClientId(_)
        | Operation::SetClientIdConfirm(_)
        | Operation::ExchangeId(_)
        | Operation::CreateSession(_)
        | Operation::BackchannelCtl(_)
        | Operation::BindConnToSession(_)
        | Operation::DestroySession(_)
        | Operation::DestroyClientId(_)
        | Operation::ReclaimComplete { .. }
        | Operation::Sequence(_)
        | Operation::DelegPurge(_)
        | Operation::DelegReturn(_)
        | Operation::Open(_)
        | Operation::OpenAttr { .. }
        | Operation::OpenConfirm { .. }
        | Operation::Close { .. }
        | Operation::Lock(_)
        | Operation::LockTest(_)
        | Operation::LockUnlock(_)
        | Operation::OpenDowngrade { .. }
        | Operation::FreeStateId(_)
        | Operation::GetDirDelegation(_)
        | Operation::GetDeviceInfo(_)
        | Operation::GetDeviceList(_)
        | Operation::LayoutCommit(_)
        | Operation::LayoutGet(_)
        | Operation::LayoutReturn(_)
        | Operation::SetSsv(_)
        | Operation::WantDelegation(_)
        | Operation::Allocate { .. }
        | Operation::Deallocate { .. }
        | Operation::IoAdvise(_)
        | Operation::Copy(_)
        | Operation::CopyNotify(_)
        | Operation::LayoutError(_)
        | Operation::LayoutStats(_)
        | Operation::OffloadCancel(_)
        | Operation::OffloadStatus(_)
        | Operation::ReadPlus(_)
        | Operation::Seek { .. }
        | Operation::Clone(_)
        | Operation::WriteSame(_)
        | Operation::Renew(_)
        | Operation::ReleaseLockOwner(_) => false,
    }
}

/// Whether an operation may be sent again on a new session after the old
/// session was lost. Recreating a session loses the previous session's reply
/// cache, so only read-only operations that consume no client state qualify;
/// a READ qualifies only with the anonymous state id.
pub fn operation_can_replay_after_session_recovery(operation: &Operation) -> (r: bool)
    ensures
        r == spec_operation_can_replay_after_session_recovery(operation),
{
    match operation {

        Operation::PutRootFh
        | Operation::PutPubFh
        | Operation::PutFh(_)
        | Operation::Lookup(_)
        | Operation::Lookupp
        | Operation::Access(_)
        | Operation::SecInfo(_)
        | Operation::SecInfoNoName(_)
        | Operation::NVerify(_)
        | Operation::GetFh
        | Operation::GetAttr(_)
        | Operation::ReadDir { .. }
        | Operation::ReadLink
        | Operation::Verify(_)
        | Operation::SaveFh
        | Operation::RestoreFh
        | Operation::TestStateIds(_) => true,
        Operation::Read { stateid, .. } => stateid.is_anonymous(),
        Operation::Write { .. }
        | Operation::Commit { .. }
        | Operation::SetAttr { .. }
        | Operation::Remove(_)
        | Operation::Link(_)
        | Operation::Rename { .. }
        | Operation::Create(_)
        | Operation::SetClientId(_)
        | Operation::SetClientIdConfirm(_)
        | Operation::ExchangeId(_)
        | Operation::CreateSession(_)
        | Operation::BackchannelCtl(_)
        | Operation::BindConnToSession(_)
        | Operation::DestroySession(_)
        | Operation::DestroyClientId(_)
        | Operation::ReclaimComplete { .. }
        | Operation::Sequence(_)
        | Operation::DelegPurge(_)
        | Operation::DelegReturn(_)
        | Operation::Open(_)
        | Operation::OpenAttr { .. }
        | Operation::OpenConfirm { .. }
        | Operation::Close { .. }
        | Operation::Lock(_)
        | Operation::LockTest(_)
        | Operation::LockUnlock(_)
        | Operation::OpenDowngrade { .. }
        | Operation::FreeStateId(_)
        | Operation::GetDirDelegation(_)
        | Operation::GetDeviceInfo(_)
        | Operation::GetDeviceList(_)
        | Operation::LayoutCommit(_)
        | Operation::LayoutGet(_)
        | Operation::LayoutReturn(_)
        | Operation::SetSsv(_)
        | Operation::WantDelegation(_)
        | Operation::Allocate { .. }
        | Operation::Deallocate { .. }
        | Operation::IoAdvise(_)
        | Operation::Copy(_)
        | Operation::CopyNotify(_)
        | Operation::LayoutError(_)
        | Operation::LayoutStats(_)
        | Operation::OffloadCancel(_)
        | Operation::OffloadStatus(_)
        | Operation::ReadPlus(_)
        | Operation::Seek { .. }
        | Operation::Clone(_)
        | Operation::WriteSame(_)
        | Operation::Renew(_)
        | Operation::ReleaseLockOwner(_) => false,
    }
}

/// Whether an operation that already succeeded before a later operation of
/// the same COMPOUND was delayed may be sent again: read-only operations only.
pub open spec fn spec_operation_can_replay_after_successful_prefix(operation: &Operation) -> bool {
    match operation {
        Operation::PutRootFh
        | Operation::PutPubFh
        | Operation::PutFh(_)
        | Operation::Lookup(_)
        | Operation::Lookupp
        | Operation::Access(_)
        | Operation::SecInfo(_)
        | Operation::SecInfoNoName(_)
        | Operation::NVerify(_)
        | Operation::GetFh
        | Operation::GetAttr(_)
        | Operation::Read { .. }
        | Operation::ReadDir { .. }
        | Operation::ReadLink
        | Operation::ReadPlus(_)
        | Operation::Seek { .. }
        | Operation::Verify(_)
        | Operation::SaveFh
        | Operation::RestoreFh
        | Operation::LockTest(_)
        | Operation::TestStateIds(_)
        | Operation::GetDeviceInfo(_)
        | Operation::GetDeviceList(_)
        | Operation::OffloadStatus(_) => true,
        Operation::Write { .. }
        | Operation::Commit { .. }
        | Operation::SetAttr { .. }
        | Operation::Remove(_)
        | Operation::Link(_)
        | Operation::Rename { .. }
        | Operation::Create(_)
        | Operation::SetClientId(_)
        | Operation::SetClientIdConfirm(_)
        | Operation::ExchangeId(_)
        | Operation::CreateSession(_)
        | Operation::BackchannelCtl(_)
        | Operation::BindConnToSession(_)
        | Operation::DestroySession(_)
        | Operation::DestroyClientId(_)
        | Operation::ReclaimComplete { .. }
        | Operation::Sequence(_)
        | Operation::DelegPurge(_)
        | Operation::DelegReturn(_)
        | Operation::Open(_)
        | Operation::OpenAttr { .. }
        | Operation::OpenConfirm { .. }
        | Operation::Close { .. }
        | Operation::Lock(_)
        | Operation::LockUnlock(_)
        | Operation::OpenDowngrade { .. }
        | Operation::FreeStateId(_)
        | Operation::GetDirDelegation(_)
        | Operation::LayoutCommit(_)
        | Operation::LayoutGet(_)
        | Operation::LayoutReturn(_)
        | Operation::SetSsv(_)
        | Operation::WantDelegation(_)
        | Operation::Allocate { .. }
        | Operation::Deallocate { .. }
        | Operation::IoAdvise(_)
        | Operation::Copy(_)
        | Operation::CopyNotify(_)
        | Operation::LayoutError(_)
        | Operation::LayoutStats(_)
        | Operation::OffloadCancel(_)
        | Operation::Clone(_)
        | Operation::WriteSame(_)
        | Operation::Renew(_)
        | Operation::ReleaseLockOwner(_) => false,
    }
}

/// Whether an operation that already succeeded before a later operation of
/// the same COMPOUND was delayed may be sent again: read-only operations only.
pub fn operation_can_replay_after_successful_prefix(operation: &Operation) -> (r: bool)
    ensures
        r == spec_operation_can_replay_after_successful_prefix(operation),
{
    match operation {
        Operation::PutRootFh
        | Operation::PutPubFh
        | Operation::PutFh(_)
        | Operation::Lookup(_)
        | Operation::Lookupp
        | Operation::Access(_)
        | Operation::SecInfo(_)
        | Operation::SecInfoNoName(_)
        | Operation::NVerify(_)
        | Operation::GetFh
        | Operation::GetAttr(_)
        | Operation::Read { .. }
        | Operation::ReadDir { .. }
        | Operation::ReadLink
        | Operation::ReadPlus(_)
        | Operation::Seek { .. }
        | Operation::Verify(_)
        | Operation::SaveFh
        | Operation::RestoreFh
        | Operation::LockTest(_)
        | Operation::TestStateIds(_)
        | Operation::GetDeviceInfo(_)
        | Operation::GetDeviceList(_)
        | Operation::OffloadStatus(_) => true,
        Operation::Write { .. }
        | Operation::Commit { .. }
        | Operation::SetAttr { .. }
        | Operation::Remove(_)
        | Operation::Link(_)
        | Operation::Rename { .. }
        | Operation::Create(_)
        | Operation::SetClientId(_)
        | Operation::SetClientIdConfirm(_)
        | Operation::ExchangeId(_)
        | Operation::CreateSession(_)
        | Operation::BackchannelCtl(_)
        | Operation::BindConnToSession(_)
        | Operation::DestroySession(_)
        | Operation::DestroyClientId(_)
        | Operation::ReclaimComplete { .. }
        | Operation::Sequence(_)
        | Operation::DelegPurge(_)
        | Operation::DelegReturn(_)
        | Operation::Open(_)
        | Operation::OpenAttr { .. }
        | Operation::OpenConfirm { .. }
        | Operation::Close { .. }
        | Operation::Lock(_)
        | Operation::LockUnlock(_)
        | Operation::OpenDowngrade { .. }
        | Operation::FreeStateId(_)
        | Operation::GetDirDelegation(_)
        | Operation::LayoutCommit(_)
        | Operation::LayoutGet(_)
        | Operation::LayoutReturn(_)
        | Operation::SetSsv(_)
        | Operation::WantDelegation(_)
        | Operation::Allocate { .. }
        | Operation::Deallocate { .. }
        | Operation::IoAdvise(_)
        | Operation::Copy(_)
        | Operation::CopyNotify(_)
        | Operation::LayoutError(_)
        | Operation::LayoutStats(_)
        | Operation::OffloadCancel(_)
        | Operation::Clone(_)
        | Operation::WriteSame(_)
        | Operation::Renew(_)
        | Operation::ReleaseLockOwner(_) => false,
    }
}

/// A request may be sent again on a new session when every operation in it may.
pub fn operations_can_replay_after_session_recovery(operations: &[Operation]) -> (r: bool)
    ensures
        r == forall|i: int| 0 <= i < operations@.len() ==> spec_operation_can_replay_after_session_recovery(&#[trigger] operations@[i]),
{
    let mut i: usize = 0;
    while i < operations.len()
        invariant
            i <= operations@.len(),
            forall|j: int| 0 <= j < i ==> spec_operation_can_replay_after_session_recovery(&#[trigger] operations@[j]),
        decreases operations@.len() - i,
    {
        if !operation_can_replay_after_session_recovery(&operations[i]) {
            return false;
        }
        i = i + 1;
    }
    true
}

/// Operations that only select a file handle or release client state.
pub open spec fn spec_operation_releases_state(operation: &Operation) -> bool {
    operation is PutFh || operation is Close || operation is LockUnlock || operation is FreeStateId
        || operation is ReleaseLockOwner
}

/// Whether a request only releases state (so it may run while locks are known
/// to be lost).
pub fn operations_release_state(operations: &[Operation]) -> (r: bool)
    ensures
        r == (operations@.len() > 0 && forall|i: int| 0 <= i < operations@.len()
            ==> spec_operation_releases_state(&#[trigger] operations@[i])),
{
    if operations.len() == 0 {
        return false;
    }
    let mut i: usize = 0;
    while i < operations.len()
        invariant
            i <= operations@.len(),
            forall|j: int| 0 <= j < i ==> spec_operation_releases_state(&#[trigger] operations@[j]),
        decreases operations@.len() - i,
    {
        let releases = matches!(
            &operations[i],
            Operation::PutFh(_) | Operation::Close { .. } | Operation::LockUnlock(_) | Operation::FreeStateId(_)
                | Operation::ReleaseLockOwner(_)
        );
        if !releases {
            return false;
        }
        i = i + 1;
    }
    true
}

/// Every operation that may be replayed on a new session may also be replayed
/// after a delayed later operation: the first rule is the stricter one.
pub proof fn law_session_replay_is_prefix_replay(operation: &Operation)
    ensures
        spec_operation_can_replay_after_session_recovery(operation)
            ==> spec_operation_can_replay_after_successful_prefix(operation),
{
}

/// No operation that changes data, the namespace or client state may be
/// replayed on a new session.
pub proof fn law_session_replay_excludes_mutations(operation: &Operation)
    requires
        operation is Write || operation is SetAttr || operation is Remove || operation is Rename
            || operation is Link || operation is Create || operation is Open || operation is Close
            || operation is Lock || operation is LockUnlock || operation is Commit || operation is Allocate
            || operation is Deallocate || operation is Copy || operation is Clone || operation is WriteSame,
    ensures
        !spec_operation_can_replay_after_session_recovery(operation),
{
}

/// RECLAIM_COMPLETE succeeded, or the server already considered reclaim complete.
pub fn ensure_reclaim_complete(response: &CompoundResponse) -> (r: Result<()>)
    ensures
        r is Ok <==> reclaim_complete_accepted(*response),
        r is Err ==> r == Err::<(), Error>(response.failure()),
{
    if matches!(response.status, Status::CompleteAlready) {
        return Ok(());
    }
    if response.results.len() > 0 && matches!(response.results[response.results.len() - 1].status(), Status::CompleteAlready) {
        return Ok(());
    }
    response.ensure_ok()
}

/// The number of operations a session allows per COMPOUND, capped at the
/// protocol limit; a zero count is a protocol error.
/// A RECLAIM_COMPLETE reply that ends the grace period for the client: it
/// succeeded, or the server reports reclaim already complete.
pub open spec fn reclaim_complete_accepted(response: CompoundResponse) -> bool {
    ||| response.status == Status::CompleteAlready
    ||| (response.results@.len() > 0 && response.results@.last().spec_status() == Status::CompleteAlready)
    ||| response.status == Status::NfsOk
}

/// A fore channel a session can run on: requests and replies larger than
/// the COMPOUND headroom, at least one request slot and one operation.
pub open spec fn session_channel_usable(a: ChannelAttrs) -> bool {
    &&& a.max_request_size > NFS4_COMPOUND_IO_HEADROOM
    &&& a.max_response_size > NFS4_COMPOUND_IO_HEADROOM
    &&& a.max_requests > 0
    &&& a.max_operations > 0
}

pub fn session_max_operations(attrs: &ChannelAttrs) -> (r: Result<usize>)
    ensures
        r is Ok <==> attrs.max_operations > 0,
        r matches Ok(n) ==> n == (if attrs.max_operations < NFS4_MAX_OPS { attrs.max_operations as int } else { NFS4_MAX_OPS as int }),
        r matches Err(e) ==> e is Protocol,
{
    let max_operations = attrs.max_operations as usize;
    if max_operations == 0 {
        return Err(protocol("NFSv4 session fore channel returned max_operations=0"));
    }
    if max_operations < NFS4_MAX_OPS {
        Ok(max_operations)
    } else {
        Ok(NFS4_MAX_OPS)
    }
}

/// A session channel is usable when its request and reply sizes leave room
/// beyond the COMPOUND framing and it allows at least one request.
pub fn validate_session_channel_attrs(attrs: &ChannelAttrs) -> (r: Result<()>)
    ensures
        r is Ok <==> (attrs.max_request_size > NFS4_COMPOUND_IO_HEADROOM
            && attrs.max_response_size > NFS4_COMPOUND_IO_HEADROOM && attrs.max_requests > 0),
        r matches Err(e) ==> e is Protocol,
{
    validate_session_channel_size("max_request_size", attrs.max_request_size)?;
    validate_session_channel_size("max_response_size", attrs.max_response_size)?;
    if attrs.max_requests == 0 {
        return Err(protocol("NFSv4 session fore channel returned max_requests=0"));
    }
    Ok(())
}

fn validate_session_channel_size(name: &str, size: u32) -> (r: Result<()>)
    ensures
        r is Ok <==> size > NFS4_COMPOUND_IO_HEADROOM,
        r matches Err(e) ==> e is Protocol,
{
    if size <= NFS4_COMPOUND_IO_HEADROOM {
        return Err(protocol("NFSv4 session fore channel size leaves no payload capacity"));
    }
    Ok(())
}

/// A COMPOUND of `operation_count` operations plus SEQUENCE fits the session.
pub fn validate_session_compound_operation_count(operation_count: usize, max_operations: usize) -> (r: Result<()>)
    ensures
        r is Ok <==> operation_count + 1 <= max_operations,
        r matches Err(e) ==> e is Protocol,
{
    let total = match operation_count.checked_add(1) {
        Some(t) => t,
        None => return Err(protocol("NFSv4 COMPOUND operation count overflow")),
    };
    if total > max_operations {
        return Err(protocol("NFSv4 COMPOUND has more operations including SEQUENCE than the session allows"));
    }
    Ok(())
}

/// Space-management operations that share one argument shape.
#[derive(Debug, Clone, Copy, PartialEq, Eq, Structural)]
pub enum SpaceOp {
    Allocate,
    Deallocate,
}

impl SpaceOp {
    /// The operation's protocol name.
    pub fn name(self) -> (r: &'static str)
        ensures
            r == (match self { SpaceOp::Allocate => "ALLOCATE", SpaceOp::Deallocate => "DEALLOCATE" }),
    {
        match self {
            SpaceOp::Allocate => "ALLOCATE",
            SpaceOp::Deallocate => "DEALLOCATE",
        }
    }

    /// The operation for the given range.
    pub fn into_operation(self, stateid: StateId, offset: u64, length: u64) -> (r: Operation)
        ensures
            r == (match self {
                SpaceOp::Allocate => Operation::Allocate { stateid, offset, length },
                SpaceOp::Deallocate => Operation::Deallocate { stateid, offset, length },
            }),
    {
        match self {
            SpaceOp::Allocate => Operation::Allocate { stateid, offset, length },
            SpaceOp::Deallocate => Operation::Deallocate { stateid, offset, length },
        }
    }
}

/// Options for a server-side COPY.
#[derive(Debug, Clone, PartialEq, Eq)]
pub struct CopyOffloadOptions {
    pub src_offset: u64,
    pub dst_offset: u64,
    pub count: u64,
    pub consecutive: bool,
    pub synchronous: bool,
    pub source_servers: Vec<NetLoc>,
}


/// An active NFSv4 byte-range lock returned by the high-level clients.
///
/// The lock names server-side open and lock state tracked by the client that
/// granted it. Pass it back to `Client::unlock` on the same client when the
/// protected range is no longer needed.
#[derive(Debug)]
pub struct ByteRangeLock {
    id: u64,
    lock_type: LockType,
    offset: u64,
    length: u64,
    owner: Vec<u8>,
    stateid: StateId,
    lost: Option<Status>,
}

/// Two lock records that agree in everything but whether the lock was lost.
pub open spec fn same_lock_except_lost(a: LockState, b: LockState) -> bool {
    &&& a.client_id == b.client_id
    &&& a.open_owner@ == b.open_owner@
    &&& a.handle.bytes() == b.handle.bytes()
    &&& a.open_stateid == b.open_stateid
    &&& a.lock_stateid == b.lock_stateid
    &&& a.lock_seqid == b.lock_seqid
    &&& a.lock_type == b.lock_type
    &&& a.offset == b.offset
    &&& a.length == b.length
    &&& a.owner@ == b.owner@
}

/// Two lock records that agree field by field.
pub open spec fn same_lock_state(a: LockState, b: LockState) -> bool {
    same_lock_except_lost(a, b) && a.lost == b.lost
}

/// A copy of a lock record.
pub fn copy_lock_state(l: &LockState) -> (r: LockState)
    ensures
        same_lock_state(r, *l),
{
    LockState {
        client_id: l.client_id,
        open_owner: copy_bytes(l.open_owner.as_slice()),
        handle: l.handle.clone(),
        open_stateid: l.open_stateid,
        lock_stateid: l.lock_stateid,
        lock_seqid: l.lock_seqid,
        lock_type: l.lock_type,
        offset: l.offset,
        length: l.length,
        owner: copy_bytes(l.owner.as_slice()),
        lost: l.lost,
    }
}

/// The client's record of one byte-range lock it holds.
#[derive(Debug, Clone)]
pub struct LockState {
    pub client_id: u64,
    pub open_owner: Vec<u8>,
    pub handle: FileHandle,
    pub open_stateid: StateId,
    pub lock_stateid: StateId,
    pub lock_seqid: u32,
    pub lock_type: LockType,
    pub offset: u64,
    pub length: u64,
    pub owner: Vec<u8>,
    pub lost: Option<Status>,
}

/// The locks a client holds, each under the id its token carries.
#[derive(Debug)]
pub struct LockRegistry {
    ids: Vec<u64>,
    entries: Vec<LockState>,
    next_id: u64,
}

impl LockRegistry {
    #[verifier::type_invariant]
    spec fn inv(self) -> bool {
        &&& self.ids@.len() == self.entries@.len()
        &&& forall|i: int| 0 <= i < self.ids@.len() ==> #[trigger] self.ids@[i] < self.next_id
        &&& forall|i: int, j: int| 0 <= i < j < self.ids@.len() ==> self.ids@[i] != self.ids@[j]
    }

    /// The ids of the registered locks, in registration order.
    pub closed spec fn ids(&self) -> Seq<u64> {
        self.ids@
    }

    /// The registered locks' states, in registration order.
    pub closed spec fn states(&self) -> Seq<LockState> {
        self.entries@
    }

    /// Whether a lock with this id is registered.
    pub open spec fn holds(&self, id: u64) -> bool {
        self.ids().contains(id)
    }

    /// An empty registry.
    pub fn new() -> (r: Self)
        ensures
            r.ids() == Seq::<u64>::empty(),
            r.states() == Seq::<LockState>::empty(),
    {
        LockRegistry { ids: Vec::new(), entries: Vec::new(), next_id: 0 }
    }

    /// Registers a lock and returns the token for it; fails only when every
    /// id has been used.
    pub fn register(&mut self, state: LockState) -> (r: Result<ByteRangeLock>)
        ensures
            r matches Ok(lock) ==> {
                &&& !old(self).holds(lock.id())
                &&& final(self).ids() == old(self).ids().push(lock.id())
                &&& final(self).states() == old(self).states().push(state)
                &&& lock.spec_lock_type() == state.lock_type && lock.spec_offset() == state.offset
                &&& lock.spec_length() == state.length && lock.owner_view() == state.owner@
                &&& lock.spec_stateid() == state.lock_stateid && lock.spec_lost() == state.lost
            },
            r is Err ==> final(self).ids() == old(self).ids() && final(self).states() == old(self).states(),
    {
        proof {
            use_type_invariant(&*self);
        }
        if self.next_id == u64::MAX {
            return Err(protocol("byte-range lock ids exhausted"));
        }
        let id = self.next_id;
        let lock = ByteRangeLock {
            id,
            lock_type: state.lock_type,
            offset: state.offset,
            length: state.length,
            owner: crate::v4::proto::copy_bytes(state.owner.as_slice()),
            stateid: state.lock_stateid,
            lost: state.lost,
        };
        proof {
            assert(!self.ids@.contains(id)) by {
                if self.ids@.contains(id) {
                    let k = choose|k: int| 0 <= k < self.ids@.len() && self.ids@[k] == id;
                    assert(self.ids@[k] < self.next_id);
                }
            }
        }
        let mut this = LockRegistry::new();
        core::mem::swap(&mut this, self);
        let LockRegistry { ids: mut ids, entries: mut entries, next_id: _ } = this;
        ids.push(id);
        entries.push(state);
        let next = id + 1;
        *self = LockRegistry { ids, entries, next_id: next };
        Ok(lock)
    }

    /// The number of registered locks.
    pub fn len(&self) -> (n: usize)
        ensures
            n == self.states().len(),
    {
        proof {
            use_type_invariant(self);
        }
        self.entries.len()
    }

    /// The registered locks' states.
    pub fn snapshot(&self) -> (r: Vec<LockState>)
        ensures
            r@.len() == self.states().len(),
            forall|i: int| 0 <= i < r@.len() ==> same_lock_state(#[trigger] r@[i], self.states()[i]),
    {
        let mut out: Vec<LockState> = Vec::new();
        let mut i: usize = 0;
        while i < self.entries.len()
            invariant
                i <= self.entries@.len(),
                out@.len() == i,
                forall|j: int| 0 <= j < i ==> same_lock_state(#[trigger] out@[j], self.entries@[j]),
            decreases self.entries@.len() - i,
        {
            out.push(copy_lock_state(&self.entries[i]));
            i = i + 1;
        }
        out
    }

    /// Replaces the state stored at position `index`.
    pub fn restore(&mut self, index: usize, state: LockState)
        requires
            index < old(self).states().len(),
        ensures
            final(self).ids() == old(self).ids(),
            final(self).states() == old(self).states().update(index as int, state),
    {
        proof {
            use_type_invariant(&*self);
        }
        let mut this = LockRegistry::new();
        core::mem::swap(&mut this, self);
        let LockRegistry { ids, entries: mut entries, next_id } = this;
        entries.set(index, state);
        *self = LockRegistry { ids, entries, next_id };
    }

    fn position(&self, id: u64) -> (r: Option<usize>)
        ensures
            r matches Some(i) ==> i < self.ids().len() && self.ids()[i as int] == id,
            r is None ==> !self.holds(id),
    {
        proof {
            use_type_invariant(self);
        }
        let mut i: usize = 0;
        while i < self.ids.len()
            invariant
                i <= self.ids@.len(),
                forall|j: int| 0 <= j < i ==> self.ids@[j] != id,
            decreases self.ids@.len() - i,
        {
            if self.ids[i] == id {
                return Some(i);
            }
            i = i + 1;
        }
        None
    }

    /// The state of a registered lock; fails for a lock that belongs to
    /// another client or was already released.
    pub fn get(&self, lock: &ByteRangeLock) -> (r: Result<LockState>)
        ensures
            r is Ok <==> self.holds(lock.id()),
            r matches Ok(s) ==> exists|i: int| 0 <= i < self.ids().len() && self.ids()[i] == lock.id()
                && vstd::pervasive::cloned(self.states()[i], s),
            r matches Err(e) ==> e is Protocol,
    {
        proof {
            use_type_invariant(self);
        }
        match self.position(lock.id) {
            Some(i) => Ok(self.entries[i].clone()),
            None => Err(protocol("lock belongs to a different client or was already released")),
        }
    }

    /// The state stored at position `index`.
    pub fn state_at(&self, index: usize) -> (r: &LockState)
        requires
            index < self.ids().len(),
        ensures
            index < self.states().len(),
            *r == self.states()[index as int],
    {
        proof {
            use_type_invariant(self);
        }
        &self.entries[index]
    }

    /// The position of a registered lock.
    pub fn index_of(&self, lock: &ByteRangeLock) -> (r: Option<usize>)
        ensures
            r matches Some(i) ==> i < self.ids().len() && self.ids()[i as int] == lock.id(),
            r is None ==> !self.holds(lock.id()),
    {
        self.position(lock.id)
    }

    /// Forgets a lock; the other locks keep their order.
    pub fn remove(&mut self, lock: &ByteRangeLock)
        ensures
            !final(self).holds(lock.id()),
            old(self).holds(lock.id()) ==> final(self).ids().len() == old(self).ids().len() - 1,
            !old(self).holds(lock.id()) ==> final(self).ids() == old(self).ids() && final(self).states() == old(self).states(),
            forall|id: u64| id != lock.id() ==> (final(self).holds(id) <==> old(self).holds(id)),
    {
        proof {
            use_type_invariant(&*self);
        }
        match self.position(lock.id) {
            None => {},
            Some(i) => {
                let mut this = LockRegistry::new();
                core::mem::swap(&mut this, self);
                let LockRegistry { ids: mut ids, entries: mut entries, next_id } = this;
                let ghost old_ids = ids@;
                ids.remove(i);
                entries.remove(i);
                proof {
                    assert forall|id: u64| id != lock.id() implies (ids@.contains(id) <==> old_ids.contains(id)) by {
                        if old_ids.contains(id) {
                            let k = choose|k: int| 0 <= k < old_ids.len() && old_ids[k] == id;
                            if k < i {
                                assert(ids@[k] == id);
                            } else {
                                assert(ids@[k - 1] == id);
                            }
                        }
                        if ids@.contains(id) {
                            let k = choose|k: int| 0 <= k < ids@.len() && ids@[k] == id;
                            if k < i {
                                assert(old_ids[k] == id);
                            } else {
                                assert(old_ids[k + 1] == id);
                            }
                        }
                    }
                    assert(!ids@.contains(lock.id())) by {
                        if ids@.contains(lock.id()) {
                            let k = choose|k: int| 0 <= k < ids@.len() && ids@[k] == lock.id();
                            if k < i {
                                assert(old_ids[k] == lock.id());
                            } else {
                                assert(old_ids[k + 1] == lock.id());
                            }
                        }
                    }
                }
                *self = LockRegistry { ids, entries, next_id };
            },
        }
    }

    /// Whether some registered lock is known to be lost.
    pub open spec fn has_lost_lock(&self) -> bool {
        exists|i: int| 0 <= i < self.states().len() && (#[trigger] self.states()[i]).lost is Some
    }

    /// Fails with the status of the first lock known to be lost.
    pub fn ensure_valid(&self) -> (r: Result<()>)
        ensures
            r is Ok <==> !self.has_lost_lock(),
            r is Ok <==> forall|i: int| 0 <= i < self.states().len() ==> (#[trigger] self.states()[i]).lost is None,
            r matches Err(e) ==> e is LockLost,
    {
        let mut i: usize = 0;
        while i < self.entries.len()
            invariant
                i <= self.entries@.len(),
                forall|j: int| 0 <= j < i ==> (#[trigger] self.entries@[j]).lost is None,
            decreases self.entries@.len() - i,
        {
            if let Some(status) = self.entries[i].lost {
                return Err(Error::LockLost { status });
            }
            i = i + 1;
        }
        Ok(())
    }
}

impl Clone for LockRegistry {
    fn clone(&self) -> (r: Self)
        ensures
            r.ids() == self.ids(),
            r.states().len() == self.states().len(),
            forall|i: int| 0 <= i < r.states().len() ==> same_lock_state(#[trigger] r.states()[i], self.states()[i]),
    {
        proof {
            use_type_invariant(self);
        }
        let ids = self.ids.clone();
        assert(ids@ =~= self.ids@);
        LockRegistry { ids, entries: self.snapshot(), next_id: self.next_id }
    }
}

impl ByteRangeLock {
    /// The id under which the granting client tracks this lock.
    pub closed spec fn id(&self) -> u64 {
        self.id
    }

    /// The lock-owner bytes.
    pub closed spec fn owner_view(&self) -> Seq<u8> {
        self.owner@
    }

    /// The lock state id recorded in this token.
    pub closed spec fn spec_stateid(&self) -> StateId {
        self.stateid
    }

    /// The loss status recorded in this token.
    pub closed spec fn spec_lost(&self) -> Option<Status> {
        self.lost
    }

    /// The lock type this token records.
    pub closed spec fn spec_lock_type(&self) -> LockType {
        self.lock_type
    }

    /// Returns the lock type requested from the server.
    pub fn lock_type(&self) -> (r: LockType)
        ensures
            r == self.spec_lock_type(),
    {
        self.lock_type
    }

    /// Returns the start offset of the locked byte range.
    pub fn offset(&self) -> (r: u64)
        ensures
            r == self.spec_offset(),
    {
        self.offset
    }

    /// The start offset this token records.
    pub closed spec fn spec_offset(&self) -> u64 {
        self.offset
    }

    /// The range length this token records.
    pub closed spec fn spec_length(&self) -> u64 {
        self.length
    }

    /// Returns the locked byte range length.
    pub fn length(&self) -> (r: u64)
        ensures
            r == self.spec_length(),
    {
        self.length
    }

    /// Returns the opaque NFSv4 lock-owner id used for this lock.
    pub fn owner(&self) -> (r: &[u8])
        ensures
            r@ == self.owner_view(),
    {
        self.owner.as_slice()
    }

    /// Returns the NFSv4 stateid for the byte-range lock as this token last
    /// recorded it; the granting client refreshes tokens passed back to it.
    pub fn stateid(&self) -> (r: StateId)
        ensures
            r == self.spec_stateid(),
    {
        self.stateid
    }

    /// Returns true when recovery has established that this lock was lost.
    /// A lost lock must not be used to protect further application work.
    pub fn is_lost(&self) -> (r: bool)
        ensures
            r == (self.spec_lost() is Some),
    {
        self.lost.is_some()
    }

    /// Records the current server state of the lock in this token.
    pub fn refresh(&mut self, state: &LockState)
        ensures
            final(self).spec_stateid() == state.lock_stateid,
            final(self).spec_lost() == state.lost,
            final(self).id() == old(self).id(),
            final(self).spec_lock_type() == old(self).spec_lock_type(),
            final(self).spec_offset() == old(self).spec_offset(),
            final(self).spec_length() == old(self).spec_length(),
            final(self).owner_view() == old(self).owner_view(),
    {
        self.stateid = state.lock_stateid;
        self.lost = state.lost;
    }
}

/// Cursor for paged NFSv4 directory reads.
#[derive(Debug, Clone, Copy, Default, PartialEq, Eq)]
pub struct DirPageCursor {
    /// Cookie of the last entry returned by the previous page.
    pub cookie: u64,
    /// Cookie verifier returned by the server.
    pub cookieverf: Verifier,
}

/// Directory entry returned by high-level NFSv4 directory reads.
///
/// The entry stores parsed basic attributes instead of exposing the raw NFSv4
/// attribute bitmap and payload.
#[derive(Debug, Clone, PartialEq, Eq)]
pub struct DirEntry {
    /// Entry cookie used for pagination.
    pub cookie: u64,
    /// Entry name.
    pub name: String,
    /// Parsed basic attributes returned for the entry.
    pub attributes: BasicAttributes,
}

impl DirEntry {
    /// Converts a wire entry, parsing its attributes.
    pub fn from_wire(entry: crate::v4::proto::DirEntry) -> (r: Result<Self>)
        ensures
            r is Ok <==> basic_attrs_decode(entry.attrs),
            is_attr_list(entry.attrs.attrmask, attr_list(entry.attrs.attrmask)),
            r matches Ok(e) ==> e.cookie == entry.cookie && e.name == entry.name
                && basic_attrs_of(entry.attrs, e.attributes),
    {
        let attributes = entry.attrs.parse_basic()?;
        Ok(DirEntry { cookie: entry.cookie, name: entry.name, attributes })
    }

    /// Returns the parsed basic attributes for this entry.
    pub fn basic_attributes(&self) -> (r: Result<BasicAttributes>)
        ensures
            r matches Ok(a) ==> vstd::pervasive::cloned(self.attributes, a),
    {
        Ok(self.attributes.clone())
    }
}

/// A single page of NFSv4 directory entries.
#[derive(Debug, Clone, PartialEq, Eq)]
pub struct DirPage {
    /// Entries returned in this page.
    pub entries: Vec<DirEntry>,
    /// Cursor for the next page, or `None` when the server reported EOF.
    pub next_cursor: Option<DirPageCursor>,
}

impl DirPage {
    /// Returns true when there are no further pages to request.
    pub fn is_eof(&self) -> (r: bool)
        ensures
            r == (self.next_cursor is None),
    {
        self.next_cursor.is_none()
    }
}

/// Cursor for paged NFSv4 pNFS device id reads.
#[derive(Debug, Clone, Copy, Default, PartialEq, Eq)]
pub struct DeviceListCursor {
    /// Cookie returned by the previous `GETDEVICELIST` page.
    pub cookie: u64,
    /// Cookie verifier returned by the server.
    pub cookieverf: Verifier,
}

/// A single page of NFSv4 pNFS device ids.
#[derive(Debug, Clone, PartialEq, Eq)]
pub struct DeviceListPage {
    /// Device ids returned in this page.
    pub device_ids: Vec<DeviceId>,
    /// Cursor for the next page, or `None` when the server reported EOF.
    pub next_cursor: Option<DeviceListCursor>,
}

impl DeviceListPage {
    /// Returns true when there are no further pages to request.
    pub fn is_eof(&self) -> (r: bool)
        ensures
            r == (self.next_cursor is None),
    {
        self.next_cursor.is_none()
    }
}

/// Whether a reply has results and its last one succeeded.
pub open spec fn last_result_ok(response: CompoundResponse) -> bool {
    response.results@.len() > 0 && response.results@.last().spec_status() == Status::NfsOk
}

/// Succeeds when the last result succeeded; fails with its status, or with
/// a protocol error when there was no result.
pub fn ensure_last_status(response: &CompoundResponse, operation: &'static str) -> (r: Result<()>)
    ensures
        response.results@.len() == 0 ==> r matches Err(Error::Protocol(_)),
        r is Ok <==> last_result_ok(*response),
        response.results@.len() > 0 && response.results@.last().spec_status() != Status::NfsOk
            ==> r == Err::<(), Error>((Error::NfsV4 { operation, status: response.results@.last().spec_status() })),
{
    if response.results.len() > 0 {
        let status = response.results[response.results.len() - 1].status();
        if status.is_ok() {
            return Ok(());
        }
        return Err(Error::nfsv4(operation, status));
    }
    Err(protocol("operation returned no result"))
}

/// The error for a failure followed by a cleanup with result `cleanup_result`.
pub open spec fn spec_cleanup_error(error: Error, context: &'static str, cleanup_result: Result<()>) -> Error {
    match cleanup_result {
        Ok(()) => error,
        Err(c) => Error::Cleanup { context, error: Box::new(error), cleanup: Box::new(c) },
    }
}

/// The error to report when `error` happened and a cleanup step then gave
/// `cleanup_result`: the error alone, or both when the cleanup failed too.
pub fn cleanup_error(error: Error, cleanup_context: &'static str, cleanup_result: Result<()>) -> (r: Error)
    ensures
        cleanup_result is Ok ==> r == error,
        cleanup_result matches Err(c) ==> r == (Error::Cleanup {
            context: cleanup_context,
            error: Box::new(error),
            cleanup: Box::new(c),
        }),
{
    match cleanup_result {
        Ok(()) => error,
        Err(cleanup) => Error::cleanup(cleanup_context, error, cleanup),
    }
}

/// Combines an operation's result with the result of the CLOSE that follows it.
pub fn finish_with_close<T>(result: Result<T>, close_result: Result<()>) -> (r: Result<T>)
    ensures
        result is Ok && close_result is Ok ==> r == result,
        result is Ok && close_result is Err ==> r == Err::<T, Error>(close_result->Err_0),
        result matches Err(e) ==> r == Err::<T, Error>(spec_cleanup_error(e, "cleanup CLOSE after failed operation", close_result)),
{
    match result {
        Ok(value) => {
            match close_result {
                Ok(()) => Ok(value),
                Err(e) => Err(e),
            }
        },
        Err(err) => Err(cleanup_error(err, "cleanup CLOSE after failed operation", close_result)),
    }
}

/// The error to report when post-processing an OPEN failed and the CLOSE
/// that undoes the OPEN gave `close_result`.
pub fn open_cleanup_error(error: Error, close_result: Result<()>) -> (r: Error)
    ensures
        close_result is Ok ==> r == error,
        close_result matches Err(c) ==> r == (Error::Cleanup {
            context: "cleanup CLOSE after failed OPEN post-processing",
            error: Box::new(error),
            cleanup: Box::new(c),
        }),
{
    cleanup_error(error, "cleanup CLOSE after failed OPEN post-processing", close_result)
}

/// Setting the size of a file needs an open state id.
pub fn attrs_require_open_state(attrs: &Fattr) -> (r: bool)
    ensures
        r == attrs.attrmask.has(FATTR4_SIZE),
{
    attrs.attrmask.contains(FATTR4_SIZE)
}

/// Advances `offset` by `amount`; fails, leaving it unchanged, on overflow.
pub fn advance_offset(offset: &mut u64, amount: usize, operation: &'static str) -> (r: Result<()>)
    ensures
        r is Ok <==> old(offset) + amount <= u64::MAX,
        r is Ok ==> *final(offset) == old(offset) + amount,
        r is Err ==> *final(offset) == *old(offset),
        r matches Err(e) ==> e is Protocol,
{
    let amount = amount as u64;
    match offset.checked_add(amount) {
        Some(v) => {
            *offset = v;
            Ok(())
        },
        None => Err(protocol("offset overflow")),
    }
}

/// Fails when a copy would read and write the same file handle.
pub fn ensure_distinct_copy_handles(source: &FileHandle, target: &FileHandle) -> (r: Result<()>)
    ensures
        r is Ok <==> source.bytes() != target.bytes(),
        r matches Err(e) ==> e is Protocol,
{
    if source.same_as(target) {
        return Err(protocol("copy source and destination refer to the same file handle"));
    }
    Ok(())
}


/// Length in bytes of a character's UTF-8 encoding.
pub open spec fn char_utf8_len(c: char) -> nat {
    let v = c as u32;
    if v < 0x80 { 1 } else if v < 0x800 { 2 } else if v < 0x10000 { 3 } else { 4 }
}

/// Length in bytes of the UTF-8 encoding of `s`.
pub open spec fn utf8_len(s: Seq<char>) -> nat
    decreases s.len(),
{
    if s.len() == 0 {
        0
    } else {
        utf8_len(s.drop_last()) + char_utf8_len(s.last())
    }
}

fn char_utf8_width(c: char) -> (n: usize)
    ensures
        n == char_utf8_len(c),
{
    let v = c as u32;
    if v < 0x80 { 1 } else if v < 0x800 { 2 } else if v < 0x10000 { 3 } else { 4 }
}

/// The pieces of `s` between `/` separators, in order; there is always one
/// more piece than separators.
pub open spec fn split_slash(s: Seq<char>) -> Seq<Seq<char>>
    decreases s.len(),
{
    if s.len() == 0 {
        seq![Seq::<char>::empty()]
    } else {
        let p = split_slash(s.drop_last());
        if s.last() == '/' {
            p.push(Seq::<char>::empty())
        } else {
            p.update(p.len() - 1, p.last().push(s.last()))
        }
    }
}

proof fn lemma_split_slash_nonempty(s: Seq<char>)
    ensures
        split_slash(s).len() >= 1,
    decreases s.len(),
{
    if s.len() > 0 {
        lemma_split_slash_nonempty(s.drop_last());
    }
}

/// Why a path cannot be resolved.
pub enum PathFault {
    /// The path is empty or climbs with `..`.
    Invalid,
    /// A component is longer than the protocol allows.
    TooLong(Seq<char>),
}

/// A single-dot component names the current directory.
pub open spec fn is_dot(c: Seq<char>) -> bool {
    c.len() == 1 && c[0] == '.'
}

/// A double-dot component names the parent directory.
pub open spec fn is_dot_dot(c: Seq<char>) -> bool {
    c.len() == 2 && c[0] == '.' && c[1] == '.'
}

/// How one more piece extends the components found so far: empty and `.`
/// pieces are skipped, `..` and over-long names are faults.
pub open spec fn add_component(acc: core::result::Result<Seq<Seq<char>>, PathFault>, c: Seq<char>) -> core::result::Result<Seq<Seq<char>>, PathFault> {
    match acc {
        Err(f) => Err(f),
        Ok(v) => if c.len() == 0 || is_dot(c) {
            Ok(v)
        } else if is_dot_dot(c) {
            Err(PathFault::Invalid)
        } else if utf8_len(c) > NFS4_OPAQUE_LIMIT {
            Err(PathFault::TooLong(c))
        } else {
            Ok(v.push(c))
        },
    }
}

/// The components of a sequence of pieces, or the first fault among them.
pub open spec fn components_of(pieces: Seq<Seq<char>>) -> core::result::Result<Seq<Seq<char>>, PathFault>
    decreases pieces.len(),
{
    if pieces.len() == 0 {
        Ok(Seq::empty())
    } else {
        add_component(components_of(pieces.drop_last()), pieces.last())
    }
}

/// The components of a path: its `/`-separated names without empty and `.`
/// names; an empty path or a `..` name is invalid.
pub open spec fn spec_path_components(path: Seq<char>) -> core::result::Result<Seq<Seq<char>>, PathFault> {
    if path.len() == 0 {
        Err(PathFault::Invalid)
    } else {
        components_of(split_slash(path))
    }
}

/// `strings` holds exactly the character sequences `names`, in order.
pub open spec fn strings_are(strings: Seq<String>, names: Seq<Seq<char>>) -> bool {
    strings.len() == names.len() && forall|i: int| 0 <= i < names.len() ==> (#[trigger] strings[i])@ == names[i]
}

/// What `path_components` reports for a path.
pub open spec fn path_result_matches(path: Seq<char>, r: Result<Vec<String>>) -> bool {
    match spec_path_components(path) {
        Ok(names) => r matches Ok(v) && strings_are(v@, names),
        Err(PathFault::Invalid) => r matches Err(Error::InvalidPath(p)) && p@ == path,
        Err(PathFault::TooLong(c)) => r matches Err(Error::NameTooLong { name, max })
            && name@ == c && max == NFS4_OPAQUE_LIMIT,
    }
}

proof fn lemma_components_fault_sticks(p: Seq<Seq<char>>, q: Seq<Seq<char>>)
    requires
        components_of(p) is Err,
    ensures
        components_of(p + q) == components_of(p),
    decreases q.len(),
{
    if q.len() == 0 {
        assert(p + q =~= p);
    } else {
        lemma_components_fault_sticks(p, q.drop_last());
        assert((p + q).drop_last() =~= p + q.drop_last());
    }
}

proof fn lemma_split_slash_prefix(s: Seq<char>, j: int, k: int)
    requires
        0 <= j <= k <= s.len(),
    ensures
        ({
            let a = split_slash(s.take(j)).drop_last();
            let b = split_slash(s.take(k)).drop_last();
            a.len() <= b.len() && b.take(a.len() as int) == a
        }),
    decreases k - j,
{
    lemma_split_slash_nonempty(s.take(j));
    lemma_split_slash_nonempty(s.take(k));
    if j < k {
        lemma_split_slash_prefix(s, j, k - 1);
        lemma_split_slash_nonempty(s.take(k - 1));
        assert(s.take(k).drop_last() =~= s.take(k - 1));
        let a = split_slash(s.take(j)).drop_last();
        let pk1 = split_slash(s.take(k - 1));
        let b = split_slash(s.take(k)).drop_last();
        if s[k - 1] == '/' {
            assert(b =~= pk1);
            assert(pk1.drop_last().take(a.len() as int) =~= pk1.take(a.len() as int));
        } else {
            assert(b =~= pk1.drop_last());
        }
        assert(b.take(a.len() as int) =~= a);
    } else {
        assert(split_slash(s.take(k)).drop_last().take(split_slash(s.take(j)).drop_last().len() as int)
            =~= split_slash(s.take(j)).drop_last());
    }
}

/// Splits an absolute or relative path into the names to look up.
pub fn path_components(path: &str) -> (r: Result<Vec<String>>)
    ensures
        path_result_matches(path@, r),
{
    let chars = crate::text::chars_of(path);
    if chars.len() == 0 {
        return Err(Error::InvalidPath(path.to_owned()));
    }
    let mut comps: Vec<String> = Vec::new();
    let mut cur: Vec<char> = Vec::new();
    let mut cur_bytes: usize = 0;
    let mut i: usize = 0;
    proof {
        assert(chars@.take(0) =~= Seq::<char>::empty());
    }
    while i < chars.len()
        invariant
            i <= chars@.len(),
            chars@ == path@,
            split_slash(chars@.take(i as int)).len() >= 1,
            cur@ == split_slash(chars@.take(i as int)).last(),
            cur_bytes == (if utf8_len(cur@) <= NFS4_OPAQUE_LIMIT { utf8_len(cur@) } else { (NFS4_OPAQUE_LIMIT + 1) as nat }),
            components_of(split_slash(chars@.take(i as int)).drop_last()) matches Ok(names) && strings_are(comps@, names),
        decreases chars@.len() - i,
    {
        let c = chars[i];
        let ghost before = split_slash(chars@.take(i as int));
        proof {
            assert(chars@.take(i + 1).drop_last() =~= chars@.take(i as int));
            assert(chars@.take(i + 1).last() == c);
            lemma_split_slash_nonempty(chars@.take(i as int));
        }
        if c == '/' {
            let ghost names = components_of(before.drop_last())->Ok_0;
            proof {
                assert(before.drop_last().push(before.last()) =~= before);
                assert(components_of(before) == add_component(components_of(before.drop_last()), before.last()));
                assert(split_slash(chars@.take(i + 1)).drop_last() =~= before);
            }
            match finish_component(&mut comps, &cur, cur_bytes, path, Ghost(names)) {
                Ok(()) => {},
                Err(e) => {
                    proof {
                        let all = split_slash(chars@);
                        assert(chars@.take(chars@.len() as int) =~= chars@);
                        lemma_split_slash_prefix(chars@, i + 1, chars@.len() as int);
                        lemma_split_slash_nonempty(chars@);
                        let rest = all.drop_last().skip(before.len() as int);
                        assert(all.drop_last() =~= before + rest);
                        lemma_components_fault_sticks(before, rest);
                        assert(all.drop_last().push(all.last()) =~= all);
                    }
                    return Err(e);
                },
            }
            cur = Vec::new();
            cur_bytes = 0;
            proof {
                assert(split_slash(chars@.take(i + 1)).last() =~= Seq::<char>::empty());
            }
        } else {
            cur.push(c);
            let w = char_utf8_width(c);
            if cur_bytes <= NFS4_OPAQUE_LIMIT {
                cur_bytes = if cur_bytes + w <= NFS4_OPAQUE_LIMIT { cur_bytes + w } else { NFS4_OPAQUE_LIMIT + 1 };
            }
            proof {
                assert(cur@.drop_last() =~= before.last());
                assert(split_slash(chars@.take(i + 1)).drop_last() =~= before.drop_last());
            }
        }
        i = i + 1;
    }
    proof {
        assert(chars@.take(chars@.len() as int) =~= chars@);
    }
    let ghost all = split_slash(chars@);
    let ghost names = components_of(all.drop_last())->Ok_0;
    proof {
        assert(all.drop_last().push(all.last()) =~= all);
        assert(components_of(all) == add_component(components_of(all.drop_last()), all.last()));
    }
    match finish_component(&mut comps, &cur, cur_bytes, path, Ghost(names)) {
        Ok(()) => Ok(comps),
        Err(e) => Err(e),
    }
}

fn finish_component(
    comps: &mut Vec<String>,
    cur: &Vec<char>,
    cur_bytes: usize,
    path: &str,
    Ghost(names): Ghost<Seq<Seq<char>>>,
) -> (r: Result<()>)
    requires
        strings_are(old(comps)@, names),
        cur_bytes == (if utf8_len(cur@) <= NFS4_OPAQUE_LIMIT { utf8_len(cur@) } else { (NFS4_OPAQUE_LIMIT + 1) as nat }),
    ensures
        match add_component(Ok(names), cur@) {
            Ok(n) => r is Ok && strings_are(final(comps)@, n),
            Err(PathFault::Invalid) => r matches Err(Error::InvalidPath(p)) && p@ == path@,
            Err(PathFault::TooLong(c)) => r matches Err(Error::NameTooLong { name, max })
                && name@ == c && max == NFS4_OPAQUE_LIMIT,
        },
{
    let n = cur.len();
    if n == 0 || (n == 1 && cur[0] == '.') {
        return Ok(());
    }
    if n == 2 && cur[0] == '.' && cur[1] == '.' {
        return Err(Error::InvalidPath(path.to_owned()));
    }
    let name = crate::text::string_of(cur.as_slice());
    if cur_bytes > NFS4_OPAQUE_LIMIT {
        return Err(Error::NameTooLong { name, max: NFS4_OPAQUE_LIMIT });
    }
    comps.push(name);
    proof {
        assert(strings_are(comps@, names.push(cur@))) by {
            assert forall|i: int| 0 <= i < names.push(cur@).len() implies (#[trigger] comps@[i])@ == names.push(cur@)[i] by {
                if i < names.len() {
                    assert(comps@[i] == old(comps)@[i]);
                }
            }
        }
    }
    Ok(())
}


/// The error `path_components` reports for a fault in `path`.
pub open spec fn path_fault_reported(path: Seq<char>, f: PathFault, e: Error) -> bool {
    match f {
        PathFault::Invalid => e matches Error::InvalidPath(p) && p@ == path,
        PathFault::TooLong(c) => e matches Error::NameTooLong { name, max } && name@ == c && max == NFS4_OPAQUE_LIMIT,
    }
}

/// `ops[start..]` begins with a LOOKUP of each name, in order.
pub open spec fn lookups_at(ops: Seq<Operation>, start: int, names: Seq<Seq<char>>) -> bool {
    forall|j: int| 0 <= j < names.len() ==> ((#[trigger] ops[start + j]) matches Operation::Lookup(s) && s@ == names[j])
}

/// `ops` is `head`, a LOOKUP of each name, the operations `middle`, then `tail`.
pub open spec fn is_lookup_chain(ops: Seq<Operation>, head: Operation, names: Seq<Seq<char>>, middle: Seq<Operation>, tail: Seq<Operation>) -> bool {
    &&& ops.len() == 1 + names.len() + middle.len() + tail.len()
    &&& ops[0] == head
    &&& lookups_at(ops, 1, names)
    &&& ops.subrange(1 + names.len() as int, 1 + names.len() + middle.len() as int) == middle
    &&& ops.subrange(1 + names.len() + middle.len() as int, ops.len() as int) == tail
}

fn lookup_chain(head: Operation, names: Vec<String>, middle: Vec<Operation>, tail: Vec<Operation>) -> (ops: Vec<Operation>)
    ensures
        forall|ns: Seq<Seq<char>>| strings_are(names@, ns) ==> is_lookup_chain(ops@, head, ns, middle@, tail@),
{
    let mut ops: Vec<Operation> = Vec::new();
    ops.push(head);
    let mut names = names;
    let ghost all = names@;
    let mut i: usize = 0;
    while i < names.len()
        invariant
            names@ == all,
            i <= all.len(),
            ops@.len() == 1 + i,
            ops@[0] == head,
            forall|j: int| 0 <= j < i ==> ((#[trigger] ops@[1 + j]) matches Operation::Lookup(s) && s@ == all[j]@),
        decreases all.len() - i,
    {
        ops.push(Operation::Lookup(names[i].clone()));
        i = i + 1;
    }
    let ghost before_middle = ops@;
    let mut middle = middle;
    let mut tail = tail;
    let ghost m = middle@;
    let ghost t = tail@;
    ops.append(&mut middle);
    let ghost before_tail = ops@;
    ops.append(&mut tail);
    proof {
        assert forall|ns: Seq<Seq<char>>| strings_are(all, ns) implies is_lookup_chain(ops@, head, ns, m, t) by {
            assert(ops@.subrange(1 + ns.len() as int, 1 + ns.len() + m.len() as int) =~= m);
            assert(ops@.subrange(1 + ns.len() + m.len() as int, ops@.len() as int) =~= t);
            assert forall|j: int| 0 <= j < ns.len() implies ((#[trigger] ops@[1 + j]) matches Operation::Lookup(s) && s@ == ns[j]) by {
                assert(ops@[1 + j] == before_middle[1 + j]);
                assert(all[j]@ == ns[j]);
            }
        }
    }
    ops
}

/// Operations that resolve `path` from the root file handle, followed by `tail`.
pub fn path_ops(path: &str, tail: Vec<Operation>) -> (r: Result<Vec<Operation>>)
    ensures
        match spec_path_components(path@) {
            Ok(names) => r matches Ok(ops) && is_lookup_chain(ops@, Operation::PutRootFh, names, Seq::empty(), tail@),
            Err(f) => r matches Err(e) && path_fault_reported(path@, f, e),
        },
{
    let names = path_components(path)?;
    Ok(lookup_chain(Operation::PutRootFh, names, Vec::new(), tail))
}

/// Operations that resolve `path` from the public file handle, followed by `tail`.
pub fn public_path_ops(path: &str, tail: Vec<Operation>) -> (r: Result<Vec<Operation>>)
    ensures
        match spec_path_components(path@) {
            Ok(names) => r matches Ok(ops) && is_lookup_chain(ops@, Operation::PutPubFh, names, Seq::empty(), tail@),
            Err(f) => r matches Err(e) && path_fault_reported(path@, f, e),
        },
{
    let names = path_components(path)?;
    Ok(lookup_chain(Operation::PutPubFh, names, Vec::new(), tail))
}

/// Operations that resolve `path` and step up to its parent with LOOKUPP,
/// followed by `tail`; the root has no parent.
pub fn parent_path_ops(path: &str, tail: Vec<Operation>) -> (r: Result<Vec<Operation>>)
    ensures
        match spec_path_components(path@) {
            Ok(names) => if names.len() == 0 {
                r matches Err(Error::InvalidPath(p)) && p@ == path@
            } else {
                r matches Ok(ops) && is_lookup_chain(ops@, Operation::PutRootFh, names, seq![Operation::Lookupp], tail@)
            },
            Err(f) => r matches Err(e) && path_fault_reported(path@, f, e),
        },
{
    let names = path_components(path)?;
    if names.len() == 0 {
        return Err(Error::InvalidPath(path.to_owned()));
    }
    let mut middle: Vec<Operation> = Vec::new();
    middle.push(Operation::Lookupp);
    proof {
        assert(middle@ =~= seq![Operation::Lookupp]);
    }
    Ok(lookup_chain(Operation::PutRootFh, names, middle, tail))
}

/// A named attribute's name is one safe component: not empty, `.` or `..`,
/// without `/`, and within the protocol's name limit.
pub open spec fn spec_named_attr_name_ok(name: Seq<char>) -> bool {
    name.len() > 0 && !is_dot(name) && !is_dot_dot(name) && !name.contains('/') && utf8_len(name) <= NFS4_OPAQUE_LIMIT
}

/// Checks that `name` can name a named attribute.
pub fn validate_named_attr_name(name: &str) -> (r: Result<()>)
    ensures
        r is Ok <==> spec_named_attr_name_ok(name@),
        (name@.len() == 0 || is_dot(name@) || is_dot_dot(name@) || name@.contains('/'))
            ==> (r matches Err(Error::InvalidPath(p)) && p@ == name@),
        !(name@.len() == 0 || is_dot(name@) || is_dot_dot(name@) || name@.contains('/'))
            && utf8_len(name@) > NFS4_OPAQUE_LIMIT ==> (r matches Err(Error::NameTooLong { name: n, max })
            && n@ == name@ && max == NFS4_OPAQUE_LIMIT),
{
    let chars = crate::text::chars_of(name);
    let n = chars.len();
    let mut bytes: usize = 0;
    let mut has_slash = false;
    let mut i: usize = 0;
    while i < n
        invariant
            n == chars@.len(),
            chars@ == name@,
            i <= n,
            has_slash == chars@.take(i as int).contains('/'),
            bytes == (if utf8_len(chars@.take(i as int)) <= NFS4_OPAQUE_LIMIT { utf8_len(chars@.take(i as int)) } else { (NFS4_OPAQUE_LIMIT + 1) as nat }),
        decreases n - i,
    {
        let c = chars[i];
        proof {
            assert(chars@.take(i + 1).drop_last() =~= chars@.take(i as int));
            assert(chars@.take(i + 1) =~= chars@.take(i as int).push(c));
            vstd::seq_lib::lemma_seq_contains_after_push(chars@.take(i as int), c, '/');
        }
        if c == '/' {
            has_slash = true;
        }
        let w = char_utf8_width(c);
        if bytes <= NFS4_OPAQUE_LIMIT {
            bytes = if bytes + w <= NFS4_OPAQUE_LIMIT { bytes + w } else { NFS4_OPAQUE_LIMIT + 1 };
        }
        i = i + 1;
    }
    proof {
        assert(chars@.take(n as int) =~= chars@);
    }
    let dot = n == 1 && chars[0] == '.';
    let dot_dot = n == 2 && chars[0] == '.' && chars[1] == '.';
    if n == 0 || dot || dot_dot || has_slash {
        return Err(Error::InvalidPath(name.to_owned()));
    }
    if bytes > NFS4_OPAQUE_LIMIT {
        return Err(Error::NameTooLong { name: name.to_owned(), max: NFS4_OPAQUE_LIMIT });
    }
    Ok(())
}

/// Operations that resolve `path`, open its named-attribute directory, look
/// up the attribute `name`, then run `tail`.
pub fn named_attr_ops(path: &str, name: &str, tail: Vec<Operation>) -> (r: Result<Vec<Operation>>)
    ensures
        r is Ok <==> spec_named_attr_name_ok(name@) && spec_path_components(path@) is Ok,
        r matches Ok(ops) ==> is_lookup_chain(ops@, Operation::PutRootFh, spec_path_components(path@)->Ok_0,
            Seq::empty(), seq![Operation::OpenAttr { create_dir: false }].push(ops@[ops@.len() - tail@.len() - 1]) + tail@)
            && (ops@[ops@.len() - tail@.len() - 1] matches Operation::Lookup(s) && s@ == name@),
{
    validate_named_attr_name(name)?;
    let mut attr_ops: Vec<Operation> = Vec::new();
    attr_ops.push(Operation::OpenAttr { create_dir: false });
    attr_ops.push(Operation::Lookup(name.to_owned()));
    let ghost a = attr_ops@;
    let mut tail = tail;
    let ghost t = tail@;
    attr_ops.append(&mut tail);
    let ghost at = attr_ops@;
    let ops = path_ops(path, attr_ops)?;
    proof {
        let names = spec_path_components(path@)->Ok_0;
        assert(ops@[ops@.len() - t.len() - 1] == at[1]);
        assert(seq![Operation::OpenAttr { create_dir: false }].push(at[1]) + t =~= at);
    }
    Ok(ops)
}

/// `parent` with its trailing `/` characters removed.
pub open spec fn trim_trailing_slashes(parent: Seq<char>) -> Seq<char>
    decreases parent.len(),
{
    if parent.len() > 0 && parent.last() == '/' {
        trim_trailing_slashes(parent.drop_last())
    } else {
        parent
    }
}

/// Joining a name to a parent path: under the root `/`, the name after a
/// slash; under an empty parent, the name; otherwise the parent without
/// trailing slashes, a slash and the name.
pub open spec fn spec_join_path(parent: Seq<char>, name: Seq<char>) -> Seq<char> {
    if parent == seq!['/'] {
        seq!['/'] + name
    } else if parent.len() == 0 {
        name
    } else {
        trim_trailing_slashes(parent).push('/') + name
    }
}

/// Joins a name to a remote parent path without doubling slashes.
pub fn join_path(parent: &str, name: &str) -> (r: String)
    ensures
        r@ == spec_join_path(parent@, name@),
{
    let p = crate::text::chars_of(parent);
    let nm = crate::text::chars_of(name);
    let mut out: Vec<char> = Vec::new();
    if p.len() == 1 && p[0] == '/' {
        assert(p@ =~= seq!['/']);
        out.push('/');
    } else if p.len() == 0 {
    } else {
        assert(p@ != seq!['/']);
        let mut end: usize = p.len();
        assert(p@.take(end as int) =~= p@);
        while end > 0 && p[end - 1] == '/'
            invariant
                end <= p@.len(),
                trim_trailing_slashes(p@.take(end as int)) == trim_trailing_slashes(p@),
            decreases end,
        {
            proof {
                assert(p@.take(end as int).drop_last() =~= p@.take(end - 1));
            }
            end = end - 1;
        }
        proof {
            assert(trim_trailing_slashes(p@.take(end as int)) == p@.take(end as int));
        }
        let mut i: usize = 0;
        while i < end
            invariant
                i <= end <= p@.len(),
                out@ == p@.take(i as int),
            decreases end - i,
        {
            out.push(p[i]);
            i = i + 1;
            assert(out@ =~= p@.take(i as int));
        }
        out.push('/');
    }
    let ghost prefix = out@;
    let mut j: usize = 0;
    while j < nm.len()
        invariant
            j <= nm@.len(),
            out@ == prefix + nm@.take(j as int),
        decreases nm@.len() - j,
    {
        out.push(nm[j]);
        j = j + 1;
        assert(out@ =~= prefix + nm@.take(j as int));
    }
    proof {
        assert(nm@.take(nm@.len() as int) =~= nm@);
        assert(p@.take(p@.len() as int) =~= p@);
    }
    crate::text::string_of(out.as_slice())
}

/// Splits a path into its parent components and its final name; a path
/// without components has no final name.
pub fn split_parent(path: &str) -> (r: Result<(Vec<String>, String)>)
    ensures
        match spec_path_components(path@) {
            Ok(names) => if names.len() == 0 {
                r matches Err(Error::InvalidPath(p)) && p@ == path@
            } else {
                r matches Ok((parents, name)) && strings_are(parents@, names.drop_last()) && name@ == names.last()
            },
            Err(f) => r matches Err(e) && path_fault_reported(path@, f, e),
        },
{
    let mut names = path_components(path)?;
    let ghost all = names@;
    match names.pop() {
        Some(name) => {
            proof {
                let ns = spec_path_components(path@)->Ok_0;
                assert(strings_are(names@, ns.drop_last())) by {
                    assert forall|i: int| 0 <= i < ns.drop_last().len() implies (#[trigger] names@[i])@ == ns.drop_last()[i] by {
                        assert(names@[i] == all[i]);
                    }
                }
            }
            Ok((names, name))
        },
        None => Err(Error::InvalidPath(path.to_owned())),
    }
}

/// The absolute path of the directory reached by looking up `names` from the root.
pub open spec fn spec_dir_path(names: Seq<Seq<char>>) -> Seq<char>
    decreases names.len(),
{
    if names.len() == 0 {
        seq!['/']
    } else {
        spec_join_path(spec_dir_path(names.drop_last()), names.last())
    }
}

/// The name used for temporary files: `.nfs-rs-tmp-` followed by the process
/// id, the time in nanoseconds and a counter, separated by `-`.
pub open spec fn spec_temporary_name(pid: u32, nanos: u128, counter: u64) -> Seq<char> {
    seq!['.', 'n', 'f', 's', '-', 'r', 's', '-', 't', 'm', 'p', '-'] + crate::text::decimal(pid as nat) + seq!['-']
        + crate::text::decimal(nanos as nat) + seq!['-'] + crate::text::decimal(counter as nat)
}

/// Builds the temporary name for the given process id, time and counter.
pub fn temporary_name(pid: u32, nanos: u128, counter: u64) -> (r: String)
    ensures
        r@ == spec_temporary_name(pid, nanos, counter),
{
    let mut s = String::new();
    let prefix = ".nfs-rs-tmp-";
    proof {
        reveal_strlit(".nfs-rs-tmp-");
        reveal_strlit("-");
    }
    crate::text::push_str(&mut s, prefix);
    crate::text::push_decimal(&mut s, pid as u64);
    crate::text::push_str(&mut s, "-");
    crate::text::push_decimal_wide(&mut s, nanos);
    crate::text::push_str(&mut s, "-");
    crate::text::push_decimal(&mut s, counter);
    assert(s@ =~= spec_temporary_name(pid, nanos, counter));
    s
}

/// A temporary name for a named attribute.
pub fn temporary_named_attr_name(pid: u32, nanos: u128, counter: u64) -> (r: String)
    ensures
        r@ == spec_temporary_name(pid, nanos, counter),
{
    temporary_name(pid, nanos, counter)
}

/// A temporary path beside `path`, in the same directory.
pub fn temporary_sibling_path(path: &str, pid: u32, nanos: u128, counter: u64) -> (r: Result<String>)
    ensures
        match spec_path_components(path@) {
            Ok(names) => if names.len() == 0 {
                r matches Err(Error::InvalidPath(p)) && p@ == path@
            } else {
                r matches Ok(s) && s@ == spec_join_path(spec_dir_path(names.drop_last()),
                    spec_temporary_name(pid, nanos, counter))
            },
            Err(f) => r matches Err(e) && path_fault_reported(path@, f, e),
        },
{
    let (parents, _name) = split_parent(path)?;
    let ghost ns = spec_path_components(path@)->Ok_0.drop_last();
    let mut parent = String::new();
    crate::text::push_char(&mut parent, '/');
    let mut i: usize = 0;
    while i < parents.len()
        invariant
            i <= parents@.len(),
            strings_are(parents@, ns),
            parent@ == spec_dir_path(ns.take(i as int)),
        decreases parents@.len() - i,
    {
        proof {
            assert(ns.take(i + 1).drop_last() =~= ns.take(i as int));
            assert(seq!['/'] =~= Seq::<char>::empty().push('/'));
        }
        parent = join_path(parent.as_str(), parents[i].as_str());
        i = i + 1;
    }
    proof {
        assert(ns.take(ns.len() as int) =~= ns);
        assert(Seq::<char>::empty().push('/') =~= seq!['/']);
    }
    let name = temporary_name(pid, nanos, counter);
    Ok(join_path(parent.as_str(), name.as_str()))
}


/// `result` is the result kind dedicated to `op` (not a status-only or
/// security-flavor result that names its operation in a field).
pub open spec fn dedicated(result: OperationResult, op: OpCode) -> bool {
    !(result is StatusOnly) && !(result is SecInfo) && result.spec_op_code() == op
}

/// `i` is the position of the first result dedicated to `op`.
pub open spec fn first_dedicated(results: Seq<OperationResult>, op: OpCode, i: int) -> bool {
    0 <= i < results.len() && dedicated(results[i], op)
        && forall|j: int| 0 <= j < i ==> !dedicated(#[trigger] results[j], op)
}

/// Some result is dedicated to `op`.
pub open spec fn has_dedicated(results: Seq<OperationResult>, op: OpCode) -> bool {
    exists|i: int| 0 <= i < results.len() && dedicated(#[trigger] results[i], op)
}

fn is_dedicated(result: &OperationResult, op: OpCode) -> (r: bool)
    ensures
        r == dedicated(*result, op),
{
    match result {
        OperationResult::StatusOnly { .. } | OperationResult::SecInfo { .. } => false,
        _ => result.op_code() == op,
    }
}

/// The position of the first result dedicated to `op`.
pub fn find_dedicated(results: &Vec<OperationResult>, op: OpCode) -> (r: Option<usize>)
    ensures
        r matches Some(i) ==> first_dedicated(results@, op, i as int),
        r is None ==> !has_dedicated(results@, op),
{
    let mut i: usize = 0;
    while i < results.len()
        invariant
            i <= results@.len(),
            forall|j: int| 0 <= j < i ==> !dedicated(#[trigger] results@[j], op),
        decreases results@.len() - i,
    {
        if is_dedicated(&results[i], op) {
            return Some(i);
        }
        i = i + 1;
    }
    None
}

/// What [`response_getfh`] returns for `response`.
pub open spec fn response_getfh_outcome(response: CompoundResponse, r: Result<FileHandle>) -> bool {
    &&& (!has_dedicated(response.results@, OpCode::GetFh) ==> (r matches Err(Error::Protocol(_))))
    &&& (forall|i: int| #[trigger] first_dedicated(response.results@, OpCode::GetFh, i) ==> {
            let x = response.results@[i];
            &&& x.spec_status() != Status::NfsOk ==> r == Err::<FileHandle, Error>((Error::NfsV4 { operation: "GETFH", status: x.spec_status() }))
            &&& x matches OperationResult::GetFh { status, handle: Some(v), .. } ==> status == Status::NfsOk ==> (r matches Ok(w) && w.bytes() == v.bytes())
            &&& x matches OperationResult::GetFh { status, handle: None, .. } ==> status == Status::NfsOk ==> r == Err::<FileHandle, Error>((Error::NfsV4 { operation: "GETFH", status }))
        })
}

/// Extracts the GETFH result from a reply: the first GETFH result
/// decides; a reply without one is a protocol error.
pub fn response_getfh(response: &CompoundResponse) -> (r: Result<FileHandle>)
    ensures
        response_getfh_outcome(*response, r),
{
    let i = match find_dedicated(&response.results, OpCode::GetFh) {
        Some(i) => i,
        None => return Err(protocol("COMPOUND did not include a GETFH result")),
    };
    match &response.results[i] {
        OperationResult::GetFh { status, handle: Some(v), .. } if status.is_ok() => Ok(v.clone()),
        OperationResult::GetFh { status, .. } => Err(Error::nfsv4("GETFH", *status)),
        _ => Err(protocol("COMPOUND result kind does not match its operation")),
    }
}


/// What [`response_getattr`] returns for `response`.
pub open spec fn response_getattr_outcome(response: CompoundResponse, r: Result<Fattr>) -> bool {
    &&& (!has_dedicated(response.results@, OpCode::GetAttr) ==> (r matches Err(Error::Protocol(_))))
    &&& (forall|i: int| #[trigger] first_dedicated(response.results@, OpCode::GetAttr, i) ==> {
            let x = response.results@[i];
            &&& x.spec_status() != Status::NfsOk ==> r == Err::<Fattr, Error>((Error::NfsV4 { operation: "GETATTR", status: x.spec_status() }))
            &&& x matches OperationResult::GetAttr { status, attrs: Some(v), .. } ==> status == Status::NfsOk ==> (r matches Ok(w) && w.attrmask.words_view() == v.attrmask.words_view() && w.attr_vals@ == v.attr_vals@)
            &&& x matches OperationResult::GetAttr { status, attrs: None, .. } ==> status == Status::NfsOk ==> r == Err::<Fattr, Error>((Error::NfsV4 { operation: "GETATTR", status }))
        })
}

/// Extracts the GETATTR result from a reply: the first GETATTR result
/// decides; a reply without one is a protocol error.
pub fn response_getattr(response: &CompoundResponse) -> (r: Result<Fattr>)
    ensures
        response_getattr_outcome(*response, r),
{
    let i = match find_dedicated(&response.results, OpCode::GetAttr) {
        Some(i) => i,
        None => return Err(protocol("COMPOUND did not include a GETATTR result")),
    };
    match &response.results[i] {
        OperationResult::GetAttr { status, attrs: Some(v), .. } if status.is_ok() => Ok(v.clone()),
        OperationResult::GetAttr { status, .. } => Err(Error::nfsv4("GETATTR", *status)),
        _ => Err(protocol("COMPOUND result kind does not match its operation")),
    }
}


/// What [`response_access`] returns for `response`.
pub open spec fn response_access_outcome(response: CompoundResponse, r: Result<AccessResult>) -> bool {
    &&& (!has_dedicated(response.results@, OpCode::Access) ==> (r matches Err(Error::Protocol(_))))
    &&& (forall|i: int| #[trigger] first_dedicated(response.results@, OpCode::Access, i) ==> {
            let x = response.results@[i];
            &&& x.spec_status() != Status::NfsOk ==> r == Err::<AccessResult, Error>((Error::NfsV4 { operation: "ACCESS", status: x.spec_status() }))
            &&& x matches OperationResult::Access { status, result: Some(v), .. } ==> status == Status::NfsOk ==> (r matches Ok(w) && w == v)
            &&& x matches OperationResult::Access { status, result: None, .. } ==> status == Status::NfsOk ==> r == Err::<AccessResult, Error>((Error::NfsV4 { operation: "ACCESS", status }))
        })
}

/// Extracts the ACCESS result from a reply: the first ACCESS result
/// decides; a reply without one is a protocol error.
pub fn response_access(response: &CompoundResponse) -> (r: Result<AccessResult>)
    ensures
        response_access_outcome(*response, r),
{
    let i = match find_dedicated(&response.results, OpCode::Access) {
        Some(i) => i,
        None => return Err(protocol("COMPOUND did not include a ACCESS result")),
    };
    match &response.results[i] {
        OperationResult::Access { status, result: Some(v), .. } if status.is_ok() => Ok(*v),
        OperationResult::Access { status, .. } => Err(Error::nfsv4("ACCESS", *status)),
        _ => Err(protocol("COMPOUND result kind does not match its operation")),
    }
}


/// What [`response_bind_conn_to_session`] returns for `response`.
pub open spec fn response_bind_conn_to_session_outcome(response: CompoundResponse, r: Result<BindConnToSessionResult>) -> bool {
    &&& (!has_dedicated(response.results@, OpCode::BindConnToSession) ==> (r matches Err(Error::Protocol(_))))
    &&& (forall|i: int| #[trigger] first_dedicated(response.results@, OpCode::BindConnToSession, i) ==> {
            let x = response.results@[i];
            &&& x.spec_status() != Status::NfsOk ==> r == Err::<BindConnToSessionResult, Error>((Error::NfsV4 { operation: "BIND_CONN_TO_SESSION", status: x.spec_status() }))
            &&& x matches OperationResult::BindConnToSession { status, result: Some(v), .. } ==> status == Status::NfsOk ==> (r matches Ok(w) && w == v)
            &&& x matches OperationResult::BindConnToSession { status, result: None, .. } ==> status == Status::NfsOk ==> (r matches Err(Error::Protocol(_)))
        })
}

/// Extracts the BIND_CONN_TO_SESSION result from a reply: the first BIND_CONN_TO_SESSION result
/// decides; a reply without one is a protocol error.
pub fn response_bind_conn_to_session(response: &CompoundResponse) -> (r: Result<BindConnToSessionResult>)
    ensures
        response_bind_conn_to_session_outcome(*response, r),
{
    let i = match find_dedicated(&response.results, OpCode::BindConnToSession) {
        Some(i) => i,
        None => return Err(protocol("COMPOUND did not include a BIND_CONN_TO_SESSION result")),
    };
    match &response.results[i] {
        OperationResult::BindConnToSession { status, result: Some(v), .. } if status.is_ok() => Ok(*v),
        OperationResult::BindConnToSession { status, result: None, .. } if status.is_ok() => {
            Err(protocol("NFSv4 BIND_CONN_TO_SESSION returned OK without a result"))
        },
        OperationResult::BindConnToSession { status, .. } => Err(Error::nfsv4("BIND_CONN_TO_SESSION", *status)),
        _ => Err(protocol("COMPOUND result kind does not match its operation")),
    }
}


/// What [`response_set_ssv`] returns for `response`.
pub open spec fn response_set_ssv_outcome(response: CompoundResponse, r: Result<SetSsvResult>) -> bool {
    &&& (!has_dedicated(response.results@, OpCode::SetSsv) ==> (r matches Err(Error::Protocol(_))))
    &&& (forall|i: int| #[trigger] first_dedicated(response.results@, OpCode::SetSsv, i) ==> {
            let x = response.results@[i];
            &&& x.spec_status() != Status::NfsOk ==> r == Err::<SetSsvResult, Error>((Error::NfsV4 { operation: "SET_SSV", status: x.spec_status() }))
            &&& x matches OperationResult::SetSsv { status, result: Some(v), .. } ==> status == Status::NfsOk ==> (r matches Ok(w) && vstd::pervasive::cloned(v, w))
            &&& x matches OperationResult::SetSsv { status, result: None, .. } ==> status == Status::NfsOk ==> (r matches Err(Error::Protocol(_)))
        })
}

/// Extracts the SET_SSV result from a reply: the first SET_SSV result
/// decides; a reply without one is a protocol error.
pub fn response_set_ssv(response: &CompoundResponse) -> (r: Result<SetSsvResult>)
    ensures
        response_set_ssv_outcome(*response, r),
{
    let i = match find_dedicated(&response.results, OpCode::SetSsv) {
        Some(i) => i,
        None => return Err(protocol("COMPOUND did not include a SET_SSV result")),
    };
    match &response.results[i] {
        OperationResult::SetSsv { status, result: Some(v), .. } if status.is_ok() => Ok(v.clone()),
        OperationResult::SetSsv { status, result: None, .. } if status.is_ok() => {
            Err(protocol("NFSv4 SET_SSV returned OK without a result"))
        },
        OperationResult::SetSsv { status, .. } => Err(Error::nfsv4("SET_SSV", *status)),
        _ => Err(protocol("COMPOUND result kind does not match its operation")),
    }
}


/// What [`response_readlink`] returns for `response`.
pub open spec fn response_readlink_outcome(response: CompoundResponse, r: Result<String>) -> bool {
    &&& (!has_dedicated(response.results@, OpCode::ReadLink) ==> (r matches Err(Error::Protocol(_))))
    &&& (forall|i: int| #[trigger] first_dedicated(response.results@, OpCode::ReadLink, i) ==> {
            let x = response.results@[i];
            &&& x.spec_status() != Status::NfsOk ==> r == Err::<String, Error>((Error::NfsV4 { operation: "READLINK", status: x.spec_status() }))
            &&& x matches OperationResult::ReadLink { status, data: Some(v), .. } ==> status == Status::NfsOk ==> (r matches Ok(w) && w == v)
            &&& x matches OperationResult::ReadLink { status, data: None, .. } ==> status == Status::NfsOk ==> r == Err::<String, Error>((Error::NfsV4 { operation: "READLINK", status }))
        })
}

/// Extracts the READLINK result from a reply: the first READLINK result
/// decides; a reply without one is a protocol error.
pub fn response_readlink(response: &CompoundResponse) -> (r: Result<String>)
    ensures
        response_readlink_outcome(*response, r),
{
    let i = match find_dedicated(&response.results, OpCode::ReadLink) {
        Some(i) => i,
        None => return Err(protocol("COMPOUND did not include a READLINK result")),
    };
    match &response.results[i] {
        OperationResult::ReadLink { status, data: Some(v), .. } if status.is_ok() => Ok(v.clone()),
        OperationResult::ReadLink { status, .. } => Err(Error::nfsv4("READLINK", *status)),
        _ => Err(protocol("COMPOUND result kind does not match its operation")),
    }
}


/// What [`response_io_advise`] returns for `response`.
pub open spec fn response_io_advise_outcome(response: CompoundResponse, r: Result<IoAdviseResult>) -> bool {
    &&& (!has_dedicated(response.results@, OpCode::IoAdvise) ==> (r matches Err(Error::Protocol(_))))
    &&& (forall|i: int| #[trigger] first_dedicated(response.results@, OpCode::IoAdvise, i) ==> {
            let x = response.results@[i];
            &&& x.spec_status() != Status::NfsOk ==> r == Err::<IoAdviseResult, Error>((Error::NfsV4 { operation: "IO_ADVISE", status: x.spec_status() }))
            &&& x matches OperationResult::IoAdvise { status, result: Some(v), .. } ==> status == Status::NfsOk ==> (r matches Ok(w) && vstd::pervasive::cloned(v, w))
            &&& x matches OperationResult::IoAdvise { status, result: None, .. } ==> status == Status::NfsOk ==> r == Err::<IoAdviseResult, Error>((Error::NfsV4 { operation: "IO_ADVISE", status }))
        })
}

/// Extracts the IO_ADVISE result from a reply: the first IO_ADVISE result
/// decides; a reply without one is a protocol error.
pub fn response_io_advise(response: &CompoundResponse) -> (r: Result<IoAdviseResult>)
    ensures
        response_io_advise_outcome(*response, r),
{
    let i = match find_dedicated(&response.results, OpCode::IoAdvise) {
        Some(i) => i,
        None => return Err(protocol("COMPOUND did not include a IO_ADVISE result")),
    };
    match &response.results[i] {
        OperationResult::IoAdvise { status, result: Some(v), .. } if status.is_ok() => Ok(v.clone()),
        OperationResult::IoAdvise { status, .. } => Err(Error::nfsv4("IO_ADVISE", *status)),
        _ => Err(protocol("COMPOUND result kind does not match its operation")),
    }
}


/// What [`response_copy_notify`] returns for `response`.
pub open spec fn response_copy_notify_outcome(response: CompoundResponse, r: Result<CopyNotifyResult>) -> bool {
    &&& (!has_dedicated(response.results@, OpCode::CopyNotify) ==> (r matches Err(Error::Protocol(_))))
    &&& (forall|i: int| #[trigger] first_dedicated(response.results@, OpCode::CopyNotify, i) ==> {
            let x = response.results@[i];
            &&& x.spec_status() != Status::NfsOk ==> r == Err::<CopyNotifyResult, Error>((Error::NfsV4 { operation: "COPY_NOTIFY", status: x.spec_status() }))
            &&& x matches OperationResult::CopyNotify { status, result: Some(v), .. } ==> status == Status::NfsOk ==> (r matches Ok(w) && vstd::pervasive::cloned(v, w))
            &&& x matches OperationResult::CopyNotify { status, result: None, .. } ==> status == Status::NfsOk ==> (r matches Err(Error::Protocol(_)))
        })
}

/// Extracts the COPY_NOTIFY result from a reply: the first COPY_NOTIFY result
/// decides; a reply without one is a protocol error.
pub fn response_copy_notify(response: &CompoundResponse) -> (r: Result<CopyNotifyResult>)
    ensures
        response_copy_notify_outcome(*response, r),
{
    let i = match find_dedicated(&response.results, OpCode::CopyNotify) {
        Some(i) => i,
        None => return Err(protocol("COMPOUND did not include a COPY_NOTIFY result")),
    };
    match &response.results[i] {
        OperationResult::CopyNotify { status, result: Some(v), .. } if status.is_ok() => Ok(v.clone()),
        OperationResult::CopyNotify { status, result: None, .. } if status.is_ok() => {
            Err(protocol("NFSv4 COPY_NOTIFY returned OK without a result"))
        },
        OperationResult::CopyNotify { status, .. } => Err(Error::nfsv4("COPY_NOTIFY", *status)),
        _ => Err(protocol("COMPOUND result kind does not match its operation")),
    }
}


/// What [`response_offload_status`] returns for `response`.
pub open spec fn response_offload_status_outcome(response: CompoundResponse, r: Result<OffloadStatusResult>) -> bool {
    &&& (!has_dedicated(response.results@, OpCode::OffloadStatus) ==> (r matches Err(Error::Protocol(_))))
    &&& (forall|i: int| #[trigger] first_dedicated(response.results@, OpCode::OffloadStatus, i) ==> {
            let x = response.results@[i];
            &&& x.spec_status() != Status::NfsOk ==> r == Err::<OffloadStatusResult, Error>((Error::NfsV4 { operation: "OFFLOAD_STATUS", status: x.spec_status() }))
            &&& x matches OperationResult::OffloadStatus { status, result: Some(v), .. } ==> status == Status::NfsOk ==> (r matches Ok(w) && w == v)
            &&& x matches OperationResult::OffloadStatus { status, result: None, .. } ==> status == Status::NfsOk ==> (r matches Err(Error::Protocol(_)))
        })
}

/// Extracts the OFFLOAD_STATUS result from a reply: the first OFFLOAD_STATUS result
/// decides; a reply without one is a protocol error.
pub fn response_offload_status(response: &CompoundResponse) -> (r: Result<OffloadStatusResult>)
    ensures
        response_offload_status_outcome(*response, r),
{
    let i = match find_dedicated(&response.results, OpCode::OffloadStatus) {
        Some(i) => i,
        None => return Err(protocol("COMPOUND did not include a OFFLOAD_STATUS result")),
    };
    match &response.results[i] {
        OperationResult::OffloadStatus { status, result: Some(v), .. } if status.is_ok() => Ok(*v),
        OperationResult::OffloadStatus { status, result: None, .. } if status.is_ok() => {
            Err(protocol("NFSv4 OFFLOAD_STATUS returned OK without a result"))
        },
        OperationResult::OffloadStatus { status, .. } => Err(Error::nfsv4("OFFLOAD_STATUS", *status)),
        _ => Err(protocol("COMPOUND result kind does not match its operation")),
    }
}


/// What [`response_get_device_info`] returns for `response`.
pub open spec fn response_get_device_info_outcome(response: CompoundResponse, r: Result<GetDeviceInfoResult>) -> bool {
    &&& (!has_dedicated(response.results@, OpCode::GetDeviceInfo) ==> (r matches Err(Error::Protocol(_))))
    &&& (forall|i: int| #[trigger] first_dedicated(response.results@, OpCode::GetDeviceInfo, i) ==> {
            let x = response.results@[i];
            &&& x.spec_status() != Status::NfsOk ==> r == Err::<GetDeviceInfoResult, Error>((Error::NfsV4 { operation: "GETDEVICEINFO", status: x.spec_status() }))
            &&& x matches OperationResult::GetDeviceInfo { status, result: Some(v), .. } ==> status == Status::NfsOk ==> (r matches Ok(w) && vstd::pervasive::cloned(v, w))
            &&& x matches OperationResult::GetDeviceInfo { status, result: None, .. } ==> status == Status::NfsOk ==> (r matches Err(Error::Protocol(_)))
        })
}

/// Extracts the GETDEVICEINFO result from a reply: the first GETDEVICEINFO result
/// decides; a reply without one is a protocol error.
pub fn response_get_device_info(response: &CompoundResponse) -> (r: Result<GetDeviceInfoResult>)
    ensures
        response_get_device_info_outcome(*response, r),
{
    let i = match find_dedicated(&response.results, OpCode::GetDeviceInfo) {
        Some(i) => i,
        None => return Err(protocol("COMPOUND did not include a GETDEVICEINFO result")),
    };
    match &response.results[i] {
        OperationResult::GetDeviceInfo { status, result: Some(v), .. } if status.is_ok() => Ok(v.clone()),
        OperationResult::GetDeviceInfo { status, result: None, .. } if status.is_ok() => {
            Err(protocol("NFSv4 GETDEVICEINFO returned OK without a result"))
        },
        OperationResult::GetDeviceInfo { status, .. } => Err(Error::nfsv4("GETDEVICEINFO", *status)),
        _ => Err(protocol("COMPOUND result kind does not match its operation")),
    }
}


/// What [`response_get_device_list`] returns for `response`.
pub open spec fn response_get_device_list_outcome(response: CompoundResponse, r: Result<GetDeviceListResult>) -> bool {
    &&& (!has_dedicated(response.results@, OpCode::GetDeviceList) ==> (r matches Err(Error::Protocol(_))))
    &&& (forall|i: int| #[trigger] first_dedicated(response.results@, OpCode::GetDeviceList, i) ==> {
            let x = response.results@[i];
            &&& x.spec_status() != Status::NfsOk ==> r == Err::<GetDeviceListResult, Error>((Error::NfsV4 { operation: "GETDEVICELIST", status: x.spec_status() }))
            &&& x matches OperationResult::GetDeviceList { status, result: Some(v), .. } ==> status == Status::NfsOk ==> (r matches Ok(w) && vstd::pervasive::cloned(v, w))
            &&& x matches OperationResult::GetDeviceList { status, result: None, .. } ==> status == Status::NfsOk ==> (r matches Err(Error::Protocol(_)))
        })
}

/// Extracts the GETDEVICELIST result from a reply: the first GETDEVICELIST result
/// decides; a reply without one is a protocol error.
pub fn response_get_device_list(response: &CompoundResponse) -> (r: Result<GetDeviceListResult>)
    ensures
        response_get_device_list_outcome(*response, r),
{
    let i = match find_dedicated(&response.results, OpCode::GetDeviceList) {
        Some(i) => i,
        None => return Err(protocol("COMPOUND did not include a GETDEVICELIST result")),
    };
    match &response.results[i] {
        OperationResult::GetDeviceList { status, result: Some(v), .. } if status.is_ok() => Ok(v.clone()),
        OperationResult::GetDeviceList { status, result: None, .. } if status.is_ok() => {
            Err(protocol("NFSv4 GETDEVICELIST returned OK without a result"))
        },
        OperationResult::GetDeviceList { status, .. } => Err(Error::nfsv4("GETDEVICELIST", *status)),
        _ => Err(protocol("COMPOUND result kind does not match its operation")),
    }
}


/// What [`response_get_dir_delegation`] returns for `response`.
pub open spec fn response_get_dir_delegation_outcome(response: CompoundResponse, r: Result<GetDirDelegationResult>) -> bool {
    &&& (!has_dedicated(response.results@, OpCode::GetDirDelegation) ==> (r matches Err(Error::Protocol(_))))
    &&& (forall|i: int| #[trigger] first_dedicated(response.results@, OpCode::GetDirDelegation, i) ==> {
            let x = response.results@[i];
            &&& x.spec_status() != Status::NfsOk ==> r == Err::<GetDirDelegationResult, Error>((Error::NfsV4 { operation: "GET_DIR_DELEGATION", status: x.spec_status() }))
            &&& x matches OperationResult::GetDirDelegation { status, result: Some(v), .. } ==> status == Status::NfsOk ==> (r matches Ok(w) && vstd::pervasive::cloned(v, w))
            &&& x matches OperationResult::GetDirDelegation { status, result: None, .. } ==> status == Status::NfsOk ==> (r matches Err(Error::Protocol(_)))
        })
}

/// Extracts the GET_DIR_DELEGATION result from a reply: the first GET_DIR_DELEGATION result
/// decides; a reply without one is a protocol error.
pub fn response_get_dir_delegation(response: &CompoundResponse) -> (r: Result<GetDirDelegationResult>)
    ensures
        response_get_dir_delegation_outcome(*response, r),
{
    let i = match find_dedicated(&response.results, OpCode::GetDirDelegation) {
        Some(i) => i,
        None => return Err(protocol("COMPOUND did not include a GET_DIR_DELEGATION result")),
    };
    match &response.results[i] {
        OperationResult::GetDirDelegation { status, result: Some(v), .. } if status.is_ok() => Ok(v.clone()),
        OperationResult::GetDirDelegation { status, result: None, .. } if status.is_ok() => {
            Err(protocol("NFSv4 GET_DIR_DELEGATION returned OK without a result"))
        },
        OperationResult::GetDirDelegation { status, .. } => Err(Error::nfsv4("GET_DIR_DELEGATION", *status)),
        _ => Err(protocol("COMPOUND result kind does not match its operation")),
    }
}


/// What [`response_want_delegation`] returns for `response`.
pub open spec fn response_want_delegation_outcome(response: CompoundResponse, r: Result<OpenDelegation>) -> bool {
    &&& (!has_dedicated(response.results@, OpCode::WantDelegation) ==> (r matches Err(Error::Protocol(_))))
    &&& (forall|i: int| #[trigger] first_dedicated(response.results@, OpCode::WantDelegation, i) ==> {
            let x = response.results@[i];
            &&& x.spec_status() != Status::NfsOk ==> r == Err::<OpenDelegation, Error>((Error::NfsV4 { operation: "WANT_DELEGATION", status: x.spec_status() }))
            &&& x matches OperationResult::WantDelegation { status, delegation: Some(v), .. } ==> status == Status::NfsOk ==> (r matches Ok(w) && vstd::pervasive::cloned(v, w))
            &&& x matches OperationResult::WantDelegation { status, delegation: None, .. } ==> status == Status::NfsOk ==> (r matches Err(Error::Protocol(_)))
        })
}

/// Extracts the WANT_DELEGATION result from a reply: the first WANT_DELEGATION result
/// decides; a reply without one is a protocol error.
pub fn response_want_delegation(response: &CompoundResponse) -> (r: Result<OpenDelegation>)
    ensures
        response_want_delegation_outcome(*response, r),
{
    let i = match find_dedicated(&response.results, OpCode::WantDelegation) {
        Some(i) => i,
        None => return Err(protocol("COMPOUND did not include a WANT_DELEGATION result")),
    };
    match &response.results[i] {
        OperationResult::WantDelegation { status, delegation: Some(v), .. } if status.is_ok() => Ok(v.clone()),
        OperationResult::WantDelegation { status, delegation: None, .. } if status.is_ok() => {
            Err(protocol("NFSv4 WANT_DELEGATION returned OK without a result"))
        },
        OperationResult::WantDelegation { status, .. } => Err(Error::nfsv4("WANT_DELEGATION", *status)),
        _ => Err(protocol("COMPOUND result kind does not match its operation")),
    }
}


/// What [`response_layout_commit`] returns for `response`.
pub open spec fn response_layout_commit_outcome(response: CompoundResponse, r: Result<LayoutCommitResult>) -> bool {
    &&& (!has_dedicated(response.results@, OpCode::LayoutCommit) ==> (r matches Err(Error::Protocol(_))))
    &&& (forall|i: int| #[trigger] first_dedicated(response.results@, OpCode::LayoutCommit, i) ==> {
            let x = response.results@[i];
            &&& x.spec_status() != Status::NfsOk ==> r == Err::<LayoutCommitResult, Error>((Error::NfsV4 { operation: "LAYOUTCOMMIT", status: x.spec_status() }))
            &&& x matches OperationResult::LayoutCommit { status, result: Some(v), .. } ==> status == Status::NfsOk ==> (r matches Ok(w) && w == v)
            &&& x matches OperationResult::LayoutCommit { status, result: None, .. } ==> status == Status::NfsOk ==> (r matches Err(Error::Protocol(_)))
        })
}

/// Extracts the LAYOUTCOMMIT result from a reply: the first LAYOUTCOMMIT result
/// decides; a reply without one is a protocol error.
pub fn response_layout_commit(response: &CompoundResponse) -> (r: Result<LayoutCommitResult>)
    ensures
        response_layout_commit_outcome(*response, r),
{
    let i = match find_dedicated(&response.results, OpCode::LayoutCommit) {
        Some(i) => i,
        None => return Err(protocol("COMPOUND did not include a LAYOUTCOMMIT result")),
    };
    match &response.results[i] {
        OperationResult::LayoutCommit { status, result: Some(v), .. } if status.is_ok() => Ok(*v),
        OperationResult::LayoutCommit { status, result: None, .. } if status.is_ok() => {
            Err(protocol("NFSv4 LAYOUTCOMMIT returned OK without a result"))
        },
        OperationResult::LayoutCommit { status, .. } => Err(Error::nfsv4("LAYOUTCOMMIT", *status)),
        _ => Err(protocol("COMPOUND result kind does not match its operation")),
    }
}


/// What [`response_layout_get`] returns for `response`.
pub open spec fn response_layout_get_outcome(response: CompoundResponse, r: Result<LayoutGetResult>) -> bool {
    &&& (!has_dedicated(response.results@, OpCode::LayoutGet) ==> (r matches Err(Error::Protocol(_))))
    &&& (forall|i: int| #[trigger] first_dedicated(response.results@, OpCode::LayoutGet, i) ==> {
            let x = response.results@[i];
            &&& x.spec_status() != Status::NfsOk ==> r == Err::<LayoutGetResult, Error>((Error::NfsV4 { operation: "LAYOUTGET", status: x.spec_status() }))
            &&& x matches OperationResult::LayoutGet { status, result: Some(v), .. } ==> status == Status::NfsOk ==> (r matches Ok(w) && vstd::pervasive::cloned(v, w))
            &&& x matches OperationResult::LayoutGet { status, result: None, .. } ==> status == Status::NfsOk ==> (r matches Err(Error::Protocol(_)))
        })
}

/// Extracts the LAYOUTGET result from a reply: the first LAYOUTGET result
/// decides; a reply without one is a protocol error.
pub fn response_layout_get(response: &CompoundResponse) -> (r: Result<LayoutGetResult>)
    ensures
        response_layout_get_outcome(*response, r),
{
    let i = match find_dedicated(&response.results, OpCode::LayoutGet) {
        Some(i) => i,
        None => return Err(protocol("COMPOUND did not include a LAYOUTGET result")),
    };
    match &response.results[i] {
        OperationResult::LayoutGet { status, result: Some(v), .. } if status.is_ok() => Ok(v.clone()),
        OperationResult::LayoutGet { status, result: None, .. } if status.is_ok() => {
            Err(protocol("NFSv4 LAYOUTGET returned OK without a result"))
        },
        OperationResult::LayoutGet { status, .. } => Err(Error::nfsv4("LAYOUTGET", *status)),
        _ => Err(protocol("COMPOUND result kind does not match its operation")),
    }
}


/// What [`response_layout_return`] returns for `response`.
pub open spec fn response_layout_return_outcome(response: CompoundResponse, r: Result<LayoutReturnResult>) -> bool {
    &&& (!has_dedicated(response.results@, OpCode::LayoutReturn) ==> (r matches Err(Error::Protocol(_))))
    &&& (forall|i: int| #[trigger] first_dedicated(response.results@, OpCode::LayoutReturn, i) ==> {
            let x = response.results@[i];
            &&& x.spec_status() != Status::NfsOk ==> r == Err::<LayoutReturnResult, Error>((Error::NfsV4 { operation: "LAYOUTRETURN", status: x.spec_status() }))
            &&& x matches OperationResult::LayoutReturn { status, result: Some(v), .. } ==> status == Status::NfsOk ==> (r matches Ok(w) && w == v)
            &&& x matches OperationResult::LayoutReturn { status, result: None, .. } ==> status == Status::NfsOk ==> (r matches Err(Error::Protocol(_)))
        })
}

/// Extracts the LAYOUTRETURN result from a reply: the first LAYOUTRETURN result
/// decides; a reply without one is a protocol error.
pub fn response_layout_return(response: &CompoundResponse) -> (r: Result<LayoutReturnResult>)
    ensures
        response_layout_return_outcome(*response, r),
{
    let i = match find_dedicated(&response.results, OpCode::LayoutReturn) {
        Some(i) => i,
        None => return Err(protocol("COMPOUND did not include a LAYOUTRETURN result")),
    };
    match &response.results[i] {
        OperationResult::LayoutReturn { status, result: Some(v), .. } if status.is_ok() => Ok(*v),
        OperationResult::LayoutReturn { status, result: None, .. } if status.is_ok() => {
            Err(protocol("NFSv4 LAYOUTRETURN returned OK without a result"))
        },
        OperationResult::LayoutReturn { status, .. } => Err(Error::nfsv4("LAYOUTRETURN", *status)),
        _ => Err(protocol("COMPOUND result kind does not match its operation")),
    }
}


/// What [`response_commit`] returns for `response`.
pub open spec fn response_commit_outcome(response: CompoundResponse, r: Result<CommitResult>) -> bool {
    &&& (!has_dedicated(response.results@, OpCode::Commit) ==> (r matches Err(Error::Protocol(_))))
    &&& (forall|i: int| #[trigger] first_dedicated(response.results@, OpCode::Commit, i) ==> {
            let x = response.results@[i];
            &&& x.spec_status() != Status::NfsOk ==> r == Err::<CommitResult, Error>((Error::NfsV4 { operation: "COMMIT", status: x.spec_status() }))
            &&& x matches OperationResult::Commit { status, result: Some(v), .. } ==> status == Status::NfsOk ==> (r matches Ok(w) && vstd::pervasive::cloned(v, w))
            &&& x matches OperationResult::Commit { status, result: None, .. } ==> status == Status::NfsOk ==> r == Err::<CommitResult, Error>((Error::NfsV4 { operation: "COMMIT", status }))
        })
}

/// Extracts the COMMIT result from a reply: the first COMMIT result
/// decides; a reply without one is a protocol error.
pub fn response_commit(response: &CompoundResponse) -> (r: Result<CommitResult>)
    ensures
        response_commit_outcome(*response, r),
{
    let i = match find_dedicated(&response.results, OpCode::Commit) {
        Some(i) => i,
        None => return Err(protocol("COMPOUND did not include a COMMIT result")),
    };
    match &response.results[i] {
        OperationResult::Commit { status, result: Some(v), .. } if status.is_ok() => Ok(v.clone()),
        OperationResult::Commit { status, .. } => Err(Error::nfsv4("COMMIT", *status)),
        _ => Err(protocol("COMPOUND result kind does not match its operation")),
    }
}


/// What [`response_seek`] returns for `response`.
pub open spec fn response_seek_outcome(response: CompoundResponse, r: Result<SeekResult>) -> bool {
    &&& (!has_dedicated(response.results@, OpCode::Seek) ==> (r matches Err(Error::Protocol(_))))
    &&& (forall|i: int| #[trigger] first_dedicated(response.results@, OpCode::Seek, i) ==> {
            let x = response.results@[i];
            &&& x.spec_status() != Status::NfsOk ==> r == Err::<SeekResult, Error>((Error::NfsV4 { operation: "SEEK", status: x.spec_status() }))
            &&& x matches OperationResult::Seek { status, result: Some(v), .. } ==> status == Status::NfsOk ==> (r matches Ok(w) && w == v)
            &&& x matches OperationResult::Seek { status, result: None, .. } ==> status == Status::NfsOk ==> r == Err::<SeekResult, Error>((Error::NfsV4 { operation: "SEEK", status }))
        })
}

/// Extracts the SEEK result from a reply: the first SEEK result
/// decides; a reply without one is a protocol error.
pub fn response_seek(response: &CompoundResponse) -> (r: Result<SeekResult>)
    ensures
        response_seek_outcome(*response, r),
{
    let i = match find_dedicated(&response.results, OpCode::Seek) {
        Some(i) => i,
        None => return Err(protocol("COMPOUND did not include a SEEK result")),
    };
    match &response.results[i] {
        OperationResult::Seek { status, result: Some(v), .. } if status.is_ok() => Ok(*v),
        OperationResult::Seek { status, .. } => Err(Error::nfsv4("SEEK", *status)),
        _ => Err(protocol("COMPOUND result kind does not match its operation")),
    }
}


/// What [`response_open`] returns for `response`.
pub open spec fn response_open_outcome(response: CompoundResponse, r: Result<OpenResult>) -> bool {
    &&& (!has_dedicated(response.results@, OpCode::Open) ==> (r matches Err(Error::Protocol(_))))
    &&& (forall|i: int| #[trigger] first_dedicated(response.results@, OpCode::Open, i) ==> {
            let x = response.results@[i];
            &&& x.spec_status() != Status::NfsOk ==> r == Err::<OpenResult, Error>((Error::NfsV4 { operation: "OPEN", status: x.spec_status() }))
            &&& x matches OperationResult::Open { status, result: Some(v), .. } ==> status == Status::NfsOk ==> (r matches Ok(w)
                && w.stateid == v.stateid && w.result_flags == v.result_flags
                && w.attrset.words_view() == v.attrset.words_view() && vstd::pervasive::cloned(v.delegation, w.delegation))
            &&& x matches OperationResult::Open { status, result: None, .. } ==> status == Status::NfsOk ==> r == Err::<OpenResult, Error>((Error::NfsV4 { operation: "OPEN", status }))
        })
}

/// Extracts the OPEN result from a reply: the first OPEN result
/// decides; a reply without one is a protocol error.
pub fn response_open(response: &CompoundResponse) -> (r: Result<OpenResult>)
    ensures
        response_open_outcome(*response, r),
{
    let i = match find_dedicated(&response.results, OpCode::Open) {
        Some(i) => i,
        None => return Err(protocol("COMPOUND did not include a OPEN result")),
    };
    match &response.results[i] {
        OperationResult::Open { status, result: Some(v), .. } if status.is_ok() => Ok(OpenResult {
            stateid: v.stateid,
            result_flags: v.result_flags,
            attrset: v.attrset.clone(),
            delegation: v.delegation.clone(),
        }),
        OperationResult::Open { status, .. } => Err(Error::nfsv4("OPEN", *status)),
        _ => Err(protocol("COMPOUND result kind does not match its operation")),
    }
}


/// What [`response_exchange_id`] returns for `response`.
pub open spec fn response_exchange_id_outcome(response: CompoundResponse, r: Result<ExchangeIdResult>) -> bool {
    &&& (r is Ok <==> (response.results@.len() > 0 && (response.results@[0] matches OperationResult::ExchangeId {
            status, result: Some(_) } && status == Status::NfsOk)))
    &&& (r matches Ok(v) ==> (response.results@[0] matches OperationResult::ExchangeId { result: Some(e), .. }
            && v == e))
    &&& (r matches Err(e) ==> e is Protocol)
}

/// The result of the EXCHANGE_ID that opens a reply.
pub fn response_exchange_id(response: &CompoundResponse) -> (r: Result<ExchangeIdResult>)
    ensures
        response_exchange_id_outcome(*response, r),
{
    if response.results.len() == 0 {
        return Err(protocol("EXCHANGE_ID returned no result"));
    }
    match &response.results[0] {
        OperationResult::ExchangeId { status, result: Some(result) } if status.is_ok() => Ok(ExchangeIdResult {
            client_id: result.client_id,
            sequence_id: result.sequence_id,
            flags: result.flags,
        }),
        _ => Err(protocol("EXCHANGE_ID failed")),
    }
}

/// Two sets of channel attributes that agree field by field.
pub open spec fn same_channel_attrs(a: ChannelAttrs, b: ChannelAttrs) -> bool {
    &&& a.header_pad_size == b.header_pad_size
    &&& a.max_request_size == b.max_request_size
    &&& a.max_response_size == b.max_response_size
    &&& a.max_response_size_cached == b.max_response_size_cached
    &&& a.max_operations == b.max_operations
    &&& a.max_requests == b.max_requests
    &&& a.rdma_ird@ == b.rdma_ird@
}

/// Two CREATE_SESSION results that agree field by field.
pub open spec fn same_session_result(a: CreateSessionResult, b: CreateSessionResult) -> bool {
    &&& a.session_id == b.session_id
    &&& a.sequence_id == b.sequence_id
    &&& a.flags == b.flags
    &&& same_channel_attrs(a.fore_channel_attrs, b.fore_channel_attrs)
    &&& same_channel_attrs(a.back_channel_attrs, b.back_channel_attrs)
}

/// A copy of channel attributes.
fn copy_channel_attrs(a: &ChannelAttrs) -> (r: ChannelAttrs)
    ensures
        same_channel_attrs(r, *a),
{
    let mut rdma_ird: Vec<u32> = Vec::new();
    let mut i: usize = 0;
    while i < a.rdma_ird.len()
        invariant
            i <= a.rdma_ird@.len(),
            rdma_ird@ == a.rdma_ird@.take(i as int),
        decreases a.rdma_ird@.len() - i,
    {
        rdma_ird.push(a.rdma_ird[i]);
        assert(a.rdma_ird@.take(i + 1) =~= a.rdma_ird@.take(i as int).push(a.rdma_ird@[i as int]));
        i = i + 1;
    }
    assert(a.rdma_ird@.take(a.rdma_ird@.len() as int) =~= a.rdma_ird@);
    ChannelAttrs {
        header_pad_size: a.header_pad_size,
        max_request_size: a.max_request_size,
        max_response_size: a.max_response_size,
        max_response_size_cached: a.max_response_size_cached,
        max_operations: a.max_operations,
        max_requests: a.max_requests,
        rdma_ird,
    }
}

/// What [`response_create_session`] returns for `response`.
pub open spec fn response_create_session_outcome(response: CompoundResponse, r: Result<CreateSessionResult>) -> bool {
    &&& (r is Ok <==> (response.results@.len() > 0 && (response.results@[0] matches OperationResult::CreateSession {
            status, result: Some(_) } && status == Status::NfsOk)))
    &&& (r matches Ok(v) ==> (response.results@[0] matches OperationResult::CreateSession { result: Some(c), .. }
            && same_session_result(v, c)))
    &&& (r matches Err(e) ==> e is Protocol)
}

/// The result of the CREATE_SESSION that opens a reply.
pub fn response_create_session(response: &CompoundResponse) -> (r: Result<CreateSessionResult>)
    ensures
        response_create_session_outcome(*response, r),
{
    if response.results.len() == 0 {
        return Err(protocol("CREATE_SESSION returned no result"));
    }
    match &response.results[0] {
        OperationResult::CreateSession { status, result: Some(result) } if status.is_ok() => Ok(CreateSessionResult {
            session_id: result.session_id,
            sequence_id: result.sequence_id,
            flags: result.flags,
            fore_channel_attrs: copy_channel_attrs(&result.fore_channel_attrs),
            back_channel_attrs: copy_channel_attrs(&result.back_channel_attrs),
        }),
        _ => Err(protocol("CREATE_SESSION failed")),
    }
}

/// The state id of a delegation granted with an OPEN, if any.
pub open spec fn spec_open_delegation_stateid(delegation: OpenDelegation) -> Option<StateId> {
    match delegation {
        OpenDelegation::Read(d) => Some(d.stateid),
        OpenDelegation::Write(d) => Some(d.stateid),
        _ => None,
    }
}

fn open_delegation_stateid(delegation: &OpenDelegation) -> (r: Option<StateId>)
    ensures
        r == spec_open_delegation_stateid(*delegation),
{
    match delegation {
        OpenDelegation::Read(d) => Some(d.stateid),
        OpenDelegation::Write(d) => Some(d.stateid),
        OpenDelegation::NoDelegation | OpenDelegation::NoneExt(_) => None,
    }
}

/// Checks an OPEN result: session minor versions never confirm opens. Returns
/// the state id of a granted delegation, which the caller must return.
pub fn validate_open_result(open: &OpenResult, minor_version: u32) -> (r: Result<Option<StateId>>)
    ensures
        r is Err <==> (minor_version >= NFS4_MINOR_VERSION_SESSION_MIN && open.result_flags & OPEN4_RESULT_CONFIRM != 0),
        r matches Ok(s) ==> s == spec_open_delegation_stateid(open.delegation),
        r matches Err(e) ==> e is Protocol,
{
    if minor_version >= NFS4_MINOR_VERSION_SESSION_MIN && (open.result_flags & OPEN4_RESULT_CONFIRM) != 0 {
        return Err(protocol("NFSv4 server requested OPEN_CONFIRM for a session minor version"));
    }
    Ok(open_delegation_stateid(&open.delegation))
}

/// `i` is the first SECINFO-kind result that names `op`.
pub open spec fn first_secinfo(results: Seq<OperationResult>, op: OpCode, i: int) -> bool {
    0 <= i < results.len() && (results[i] matches OperationResult::SecInfo { op: o, .. } && o == op)
        && forall|j: int| 0 <= j < i ==> !((#[trigger] results[j]) matches OperationResult::SecInfo { op: o, .. } && o == op)
}

/// What [`response_secinfo`] returns for `response`.
pub open spec fn response_secinfo_outcome(response: CompoundResponse, expected: OpCode, r: Result<Vec<SecInfo>>) -> bool {
    &&& ((forall|i: int| 0 <= i < response.results@.len() ==> !((#[trigger] response.results@[i]) matches OperationResult::SecInfo { op: o, .. } && o == expected))
            ==> (r matches Err(Error::Protocol(_))))
    &&& (forall|i: int| #[trigger] first_secinfo(response.results@, expected, i) ==> {
            let x = response.results@[i];
            &&& x.spec_status() == Status::NfsOk ==> (r matches Ok(v) && (x matches OperationResult::SecInfo { flavors, .. }
                && v@.len() == flavors@.len()))
            &&& x.spec_status() != Status::NfsOk ==> r == Err::<Vec<SecInfo>, Error>((Error::NfsV4 { operation: expected.spec_name(), status: x.spec_status() }))
        })
}

/// The security flavors from the first SECINFO or SECINFO_NO_NAME result for `expected`.
pub fn response_secinfo(response: &CompoundResponse, expected: OpCode) -> (r: Result<Vec<SecInfo>>)
    ensures
        response_secinfo_outcome(*response, expected, r),
{
    let mut i: usize = 0;
    while i < response.results.len()
        invariant
            i <= response.results@.len(),
            forall|j: int| 0 <= j < i ==> !((#[trigger] response.results@[j]) matches OperationResult::SecInfo { op: o, .. } && o == expected),
        decreases response.results@.len() - i,
    {
        match &response.results[i] {
            OperationResult::SecInfo { op, status, flavors } if *op == expected => {
                if status.is_ok() {
                    return Ok(flavors.clone());
                }
                return Err(Error::nfsv4(expected.name(), *status));
            },
            _ => {},
        }
        i = i + 1;
    }
    Err(protocol("COMPOUND did not include the requested SECINFO result"))
}

/// `i` is the first status-only result for `op`.
pub open spec fn first_status_only(results: Seq<OperationResult>, op: OpCode, i: int) -> bool {
    0 <= i < results.len() && (results[i] matches OperationResult::StatusOnly { op: o, .. } && o == op)
        && forall|j: int| 0 <= j < i ==> !((#[trigger] results[j]) matches OperationResult::StatusOnly { op: o, .. } && o == op)
}

/// What [`response_verify`] returns for `response`.
pub open spec fn response_verify_outcome(response: CompoundResponse, expected: OpCode, false_status: Status, r: Result<bool>) -> bool {
    &&& ((forall|i: int| 0 <= i < response.results@.len() ==> !((#[trigger] response.results@[i]) matches OperationResult::StatusOnly { op: o, .. } && o == expected))
            ==> (r matches Err(Error::Protocol(_))))
    &&& (forall|i: int| #[trigger] first_status_only(response.results@, expected, i) ==> {
            let s = response.results@[i].spec_status();
            &&& s == Status::NfsOk ==> r == Ok::<bool, Error>(true)
            &&& s != Status::NfsOk && s == false_status ==> r == Ok::<bool, Error>(false)
            &&& s != Status::NfsOk && s != false_status ==> r == Err::<bool, Error>((Error::NfsV4 { operation: expected.spec_name(), status: s }))
        })
}

/// The outcome of a VERIFY or NVERIFY: `true` when it succeeded, `false`
/// when it failed with `false_status`, an error for any other status.
pub fn response_verify(response: &CompoundResponse, expected: OpCode, false_status: Status) -> (r: Result<bool>)
    ensures
        response_verify_outcome(*response, expected, false_status, r),
{
    let mut i: usize = 0;
    while i < response.results.len()
        invariant
            i <= response.results@.len(),
            forall|j: int| 0 <= j < i ==> !((#[trigger] response.results@[j]) matches OperationResult::StatusOnly { op: o, .. } && o == expected),
        decreases response.results@.len() - i,
    {
        match &response.results[i] {
            OperationResult::StatusOnly { op, status } if *op == expected => {
                if status.is_ok() {
                    return Ok(true);
                }
                if *status == false_status {
                    return Ok(false);
                }
                return Err(Error::nfsv4(expected.name(), *status));
            },
            _ => {},
        }
        i = i + 1;
    }
    Err(protocol("COMPOUND did not include the requested verify result"))
}

/// What [`response_release_lock_owner`] returns for `response`.
pub open spec fn response_release_lock_owner_outcome(response: CompoundResponse, r: Result<bool>) -> bool {
    &&& ((forall|i: int| 0 <= i < response.results@.len() ==> !((#[trigger] response.results@[i]) matches OperationResult::StatusOnly { op: o, .. } && o == OpCode::ReleaseLockOwner))
            ==> (r matches Err(Error::Protocol(_))))
    &&& (forall|i: int| #[trigger] first_status_only(response.results@, OpCode::ReleaseLockOwner, i) ==> {
            let s = response.results@[i].spec_status();
            &&& s == Status::NfsOk ==> r == Ok::<bool, Error>(true)
            &&& s == Status::LocksHeld ==> r == Ok::<bool, Error>(false)
            &&& s != Status::NfsOk && s != Status::LocksHeld ==> r == Err::<bool, Error>((Error::NfsV4 { operation: "RELEASE_LOCKOWNER", status: s }))
        })
}

/// Whether RELEASE_LOCKOWNER released the owner (`true`) or found locks
/// still held (`false`).
pub fn response_release_lock_owner(response: &CompoundResponse) -> (r: Result<bool>)
    ensures
        response_release_lock_owner_outcome(*response, r),
{
    let mut i: usize = 0;
    while i < response.results.len()
        invariant
            i <= response.results@.len(),
            forall|j: int| 0 <= j < i ==> !((#[trigger] response.results@[j]) matches OperationResult::StatusOnly { op: o, .. } && o == OpCode::ReleaseLockOwner),
        decreases response.results@.len() - i,
    {
        match &response.results[i] {
            OperationResult::StatusOnly { op: OpCode::ReleaseLockOwner, status } => {
                if status.is_ok() {
                    return Ok(true);
                }
                if *status == Status::LocksHeld {
                    return Ok(false);
                }
                return Err(Error::nfsv4("RELEASE_LOCKOWNER", *status));
            },
            _ => {},
        }
        i = i + 1;
    }
    Err(protocol("COMPOUND did not include RELEASE_LOCKOWNER result"))
}

/// A READ reply may not carry more than was asked for, and must carry data
/// unless it reached end of file.
pub open spec fn spec_read_size_ok(requested_count: u32, data_len: int, eof: bool) -> bool {
    data_len <= requested_count && !(requested_count > 0 && data_len == 0 && !eof)
}

/// Checks the size of a READ reply.
pub fn validate_read_result_size(requested_count: u32, data_len: usize, eof: bool) -> (r: Result<()>)
    ensures
        r is Ok <==> spec_read_size_ok(requested_count, data_len as int, eof),
        r matches Err(e) ==> e is Protocol,
{
    if data_len > requested_count as usize {
        return Err(protocol("NFSv4 READ returned more bytes than requested"));
    }
    if requested_count > 0 && data_len == 0 && !eof {
        return Err(protocol("NFSv4 READ returned no data before EOF"));
    }
    Ok(())
}

/// What [`response_read`] returns for `response`.
pub open spec fn response_read_outcome(response: CompoundResponse, requested_count: u32, r: Result<(bool, Vec<u8>)>) -> bool {
    &&& (r matches Ok((e, d)) ==> spec_read_size_ok(requested_count, d@.len() as int, e))
    &&& (!has_dedicated(response.results@, OpCode::Read) ==> (r matches Err(Error::Protocol(_))))
    &&& (forall|i: int| #[trigger] first_dedicated(response.results@, OpCode::Read, i) ==> {
            let x = response.results@[i];
            &&& x.spec_status() != Status::NfsOk ==> r == Err::<(bool, Vec<u8>), Error>((Error::NfsV4 { operation: "READ", status: x.spec_status() }))
            &&& x matches OperationResult::Read { status, eof, data } ==> status == Status::NfsOk ==> {
                &&& spec_read_size_ok(requested_count, data@.len() as int, eof) ==> (r matches Ok((e, d)) && e == eof && d@ == data@)
                &&& !spec_read_size_ok(requested_count, data@.len() as int, eof) ==> (r matches Err(Error::Protocol(_)))
            }
        })
}

/// The end-of-file flag and data of the first READ result.
pub fn response_read(response: &CompoundResponse, requested_count: u32) -> (r: Result<(bool, Vec<u8>)>)
    ensures
        response_read_outcome(*response, requested_count, r),
{
    let i = match find_dedicated(&response.results, OpCode::Read) {
        Some(i) => i,
        None => return Err(protocol("COMPOUND did not include a READ result")),
    };
    match &response.results[i] {
        OperationResult::Read { status, eof, data } if status.is_ok() => {
            validate_read_result_size(requested_count, data.len(), *eof)?;
            Ok((*eof, crate::v4::proto::copy_bytes(data.as_slice())))
        },
        OperationResult::Read { status, .. } => Err(Error::nfsv4("READ", *status)),
        _ => Err(protocol("COMPOUND result kind does not match its operation")),
    }
}

/// Total bytes that READ_PLUS contents cover: data lengths and hole lengths.
pub open spec fn read_plus_total(contents: Seq<ReadPlusContent>) -> int
    decreases contents.len(),
{
    if contents.len() == 0 {
        0
    } else {
        read_plus_total(contents.drop_last()) + match contents.last() {
            ReadPlusContent::Data { data, .. } => data@.len() as int,
            ReadPlusContent::Hole { length, .. } => length as int,
        }
    }
}

/// A READ_PLUS reply may not cover more than was asked for, and must cover
/// something unless it reached end of file.
pub open spec fn spec_read_plus_ok(requested_count: u32, result: ReadPlusResult) -> bool {
    let total = read_plus_total(result.contents@);
    total <= requested_count && !(requested_count > 0 && total == 0 && !result.eof)
}

/// Checks the size of a READ_PLUS reply.
pub fn validate_read_plus_result(requested_count: u32, result: &ReadPlusResult) -> (r: Result<()>)
    ensures
        r is Ok <==> spec_read_plus_ok(requested_count, *result),
        r matches Err(e) ==> e is Protocol,
{
    let mut returned: u64 = 0;
    let mut i: usize = 0;
    let n = result.contents.len();
    while i < n
        invariant
            n == result.contents@.len(),
            i <= n,
            returned == read_plus_total(result.contents@.take(i as int)),
        decreases n - i,
    {
        proof {
            assert(result.contents@.take(i + 1).drop_last() =~= result.contents@.take(i as int));
        }
        let len = match &result.contents[i] {
            ReadPlusContent::Data { data, .. } => data.len() as u64,
            ReadPlusContent::Hole { length, .. } => *length,
        };
        returned = match returned.checked_add(len) {
            Some(v) => v,
            None => {
                proof {
                    lemma_read_plus_total_monotone(result.contents@, i as int + 1);
                }
                return Err(protocol("NFSv4 READ_PLUS returned content length overflow"));
            },
        };
        i = i + 1;
    }
    proof {
        assert(result.contents@.take(n as int) =~= result.contents@);
    }
    if returned > requested_count as u64 {
        return Err(protocol("NFSv4 READ_PLUS returned more bytes than requested"));
    }
    if requested_count > 0 && returned == 0 && !result.eof {
        return Err(protocol("NFSv4 READ_PLUS returned no content before EOF"));
    }
    Ok(())
}

proof fn lemma_read_plus_total_monotone(contents: Seq<ReadPlusContent>, k: int)
    requires
        0 <= k <= contents.len(),
    ensures
        read_plus_total(contents.take(k)) <= read_plus_total(contents),
    decreases contents.len() - k,
{
    if k < contents.len() {
        lemma_read_plus_total_monotone(contents, k + 1);
        assert(contents.take(k + 1).drop_last() =~= contents.take(k));
    } else {
        assert(contents.take(k) =~= contents);
    }
}

/// What [`response_read_plus`] returns for `response`.
pub open spec fn response_read_plus_outcome(response: CompoundResponse, requested_count: u32, r: Result<ReadPlusResult>) -> bool {
    &&& (!has_dedicated(response.results@, OpCode::ReadPlus) ==> (r matches Err(Error::Protocol(_))))
    &&& (forall|i: int| #[trigger] first_dedicated(response.results@, OpCode::ReadPlus, i) ==> {
            let x = response.results@[i];
            &&& x.spec_status() != Status::NfsOk ==> r == Err::<ReadPlusResult, Error>((Error::NfsV4 { operation: "READ_PLUS", status: x.spec_status() }))
            &&& x matches OperationResult::ReadPlus { status, result: Some(v) } ==> status == Status::NfsOk ==> {
                &&& spec_read_plus_ok(requested_count, v) ==> (r matches Ok(w) && vstd::pervasive::cloned(v, w))
                &&& !spec_read_plus_ok(requested_count, v) ==> (r matches Err(Error::Protocol(_)))
            }
            &&& x matches OperationResult::ReadPlus { status, result: None } ==> status == Status::NfsOk
                ==> r == Err::<ReadPlusResult, Error>((Error::NfsV4 { operation: "READ_PLUS", status }))
        })
}

/// The first READ_PLUS result, checked against the requested size.
pub fn response_read_plus(response: &CompoundResponse, requested_count: u32) -> (r: Result<ReadPlusResult>)
    ensures
        response_read_plus_outcome(*response, requested_count, r),
{
    let i = match find_dedicated(&response.results, OpCode::ReadPlus) {
        Some(i) => i,
        None => return Err(protocol("COMPOUND did not include a READ_PLUS result")),
    };
    match &response.results[i] {
        OperationResult::ReadPlus { status, result: Some(read_plus) } if status.is_ok() => {
            validate_read_plus_result(requested_count, read_plus)?;
            Ok(read_plus.clone())
        },
        OperationResult::ReadPlus { status, .. } => Err(Error::nfsv4("READ_PLUS", *status)),
        _ => Err(protocol("COMPOUND result kind does not match its operation")),
    }
}

/// A WRITE may not report more bytes than were sent, nor zero bytes for a
/// non-empty write.
pub open spec fn spec_write_count_ok(requested_count: int, returned_count: int) -> bool {
    returned_count <= requested_count && !(requested_count > 0 && returned_count == 0)
}

/// Checks the byte count a WRITE reported.
pub fn validate_write_result_count(requested_count: u32, returned_count: u32) -> (r: Result<()>)
    ensures
        r is Ok <==> spec_write_count_ok(requested_count as int, returned_count as int),
        r matches Err(e) ==> e is Protocol,
{
    if returned_count > requested_count {
        return Err(protocol("NFSv4 WRITE reported more bytes than were sent"));
    }
    if requested_count > 0 && returned_count == 0 {
        return Err(protocol("NFSv4 WRITE accepted zero bytes"));
    }
    Ok(())
}

fn validate_u64_write_result_count(requested_count: u64, returned_count: u64) -> (r: Result<()>)
    ensures
        r is Ok <==> spec_write_count_ok(requested_count as int, returned_count as int),
        r matches Err(e) ==> e is Protocol,
{
    if returned_count > requested_count {
        return Err(protocol("NFSv4 operation reported more bytes than were requested"));
    }
    if requested_count > 0 && returned_count == 0 {
        return Err(protocol("NFSv4 operation accepted zero bytes"));
    }
    Ok(())
}

/// What [`response_write`] returns for `response`.
pub open spec fn response_write_outcome(response: CompoundResponse, requested_count: u32, r: Result<WriteResult>) -> bool {
    &&& (!has_dedicated(response.results@, OpCode::Write) ==> (r matches Err(Error::Protocol(_))))
    &&& (forall|i: int| #[trigger] first_dedicated(response.results@, OpCode::Write, i) ==> {
            let x = response.results@[i];
            &&& x.spec_status() != Status::NfsOk ==> r == Err::<WriteResult, Error>((Error::NfsV4 { operation: "WRITE", status: x.spec_status() }))
            &&& x matches OperationResult::Write { status, result: Some(v) } ==> status == Status::NfsOk ==> {
                &&& spec_write_count_ok(requested_count as int, v.count as int) ==> (r matches Ok(w) && w.count == v.count
                    && w.committed == v.committed && w.verifier@ == v.verifier@)
                &&& !spec_write_count_ok(requested_count as int, v.count as int) ==> (r matches Err(Error::Protocol(_)))
            }
            &&& x matches OperationResult::Write { status, result: None } ==> status == Status::NfsOk
                ==> r == Err::<WriteResult, Error>((Error::NfsV4 { operation: "WRITE", status }))
        })
}

/// The first WRITE result, checked against the number of bytes sent.
pub fn response_write(response: &CompoundResponse, requested_count: u32) -> (r: Result<WriteResult>)
    ensures
        response_write_outcome(*response, requested_count, r),
{
    let i = match find_dedicated(&response.results, OpCode::Write) {
        Some(i) => i,
        None => return Err(protocol("COMPOUND did not include a WRITE result")),
    };
    match &response.results[i] {
        OperationResult::Write { status, result: Some(write) } if status.is_ok() => {
            validate_write_result_count(requested_count, write.count)?;
            Ok(WriteResult { count: write.count, committed: write.committed, verifier: write.verifier })
        },
        OperationResult::Write { status, .. } => Err(Error::nfsv4("WRITE", *status)),
        _ => Err(protocol("COMPOUND result kind does not match its operation")),
    }
}

/// What [`response_write_same`] returns for `response`.
pub open spec fn response_write_same_outcome(response: CompoundResponse, requested_count: u64, r: Result<WriteResponse>) -> bool {
    &&& (!has_dedicated(response.results@, OpCode::WriteSame) ==> (r matches Err(Error::Protocol(_))))
    &&& (forall|i: int| #[trigger] first_dedicated(response.results@, OpCode::WriteSame, i) ==> {
            let x = response.results@[i];
            &&& x.spec_status() != Status::NfsOk ==> r == Err::<WriteResponse, Error>((Error::NfsV4 { operation: "WRITE_SAME", status: x.spec_status() }))
            &&& x matches OperationResult::WriteSame { status, result: Some(v) } ==> status == Status::NfsOk ==> {
                &&& spec_write_count_ok(requested_count as int, v.count as int) ==> (r matches Ok(w) && w.count == v.count
                    && w.committed == v.committed && w.verifier@ == v.verifier@ && w.callback_id == v.callback_id)
                &&& !spec_write_count_ok(requested_count as int, v.count as int) ==> (r matches Err(Error::Protocol(_)))
            }
            &&& x matches OperationResult::WriteSame { status, result: None } ==> status == Status::NfsOk
                ==> r == Err::<WriteResponse, Error>((Error::NfsV4 { operation: "WRITE_SAME", status }))
        })
}

/// The first WRITE_SAME result, checked against the bytes the pattern covers.
pub fn response_write_same(response: &CompoundResponse, requested_count: u64) -> (r: Result<WriteResponse>)
    ensures
        response_write_same_outcome(*response, requested_count, r),
{
    let i = match find_dedicated(&response.results, OpCode::WriteSame) {
        Some(i) => i,
        None => return Err(protocol("COMPOUND did not include a WRITE_SAME result")),
    };
    match &response.results[i] {
        OperationResult::WriteSame { status, result: Some(write) } if status.is_ok() => {
            validate_u64_write_result_count(requested_count, write.count)?;
            Ok(WriteResponse {
                callback_id: write.callback_id,
                count: write.count,
                committed: write.committed,
                verifier: write.verifier,
            })
        },
        OperationResult::WriteSame { status, .. } => Err(Error::nfsv4("WRITE_SAME", *status)),
        _ => Err(protocol("COMPOUND result kind does not match its operation")),
    }
}

/// A COPY result is acceptable when it has a write response that reports at
/// most the requested bytes, and some bytes unless the copy runs
/// asynchronously (a callback id was given).
pub open spec fn spec_copy_ok(requested_count: u64, copy: CopyResult) -> bool {
    match copy.response {
        None => false,
        Some(w) => w.count <= requested_count && !(requested_count > 0 && w.count == 0 && w.callback_id is None),
    }
}

fn validate_copy_result(requested_count: u64, copy: &CopyResult) -> (r: Result<()>)
    ensures
        r is Ok <==> spec_copy_ok(requested_count, *copy),
        r matches Err(e) ==> e is Protocol,
{
    let write = match &copy.response {
        Some(w) => w,
        None => return Err(protocol("NFSv4 COPY returned OK without a write response")),
    };
    if write.count > requested_count {
        return Err(protocol("NFSv4 COPY reported more bytes than requested"));
    }
    if requested_count > 0 && write.count == 0 && write.callback_id.is_none() {
        return Err(protocol("NFSv4 COPY accepted zero bytes"));
    }
    Ok(())
}

/// What [`response_copy`] returns for `response`.
pub open spec fn response_copy_outcome(response: CompoundResponse, requested_count: u64, r: Result<CopyResult>) -> bool {
    &&& (!has_dedicated(response.results@, OpCode::Copy) ==> (r matches Err(Error::Protocol(_))))
    &&& (forall|i: int| #[trigger] first_dedicated(response.results@, OpCode::Copy, i) ==> {
            let x = response.results@[i];
            &&& x.spec_status() != Status::NfsOk ==> r == Err::<CopyResult, Error>((Error::NfsV4 { operation: "COPY", status: x.spec_status() }))
            &&& x matches OperationResult::Copy { status, result: Some(v) } ==> status == Status::NfsOk ==> {
                &&& spec_copy_ok(requested_count, v) ==> (r matches Ok(w) && vstd::pervasive::cloned(v, w))
                &&& !spec_copy_ok(requested_count, v) ==> (r matches Err(Error::Protocol(_)))
            }
            &&& x matches OperationResult::Copy { status, result: None } ==> status == Status::NfsOk
                ==> (r matches Err(Error::Protocol(_)))
        })
}

/// The first COPY result, checked against the requested byte count.
pub fn response_copy(response: &CompoundResponse, requested_count: u64) -> (r: Result<CopyResult>)
    ensures
        response_copy_outcome(*response, requested_count, r),
{
    let i = match find_dedicated(&response.results, OpCode::Copy) {
        Some(i) => i,
        None => return Err(protocol("COMPOUND did not include a COPY result")),
    };
    match &response.results[i] {
        OperationResult::Copy { status, result: Some(copy) } if status.is_ok() => {
            validate_copy_result(requested_count, copy)?;
            Ok(copy.clone())
        },
        OperationResult::Copy { status, result: None } if status.is_ok() => {
            Err(protocol("NFSv4 COPY returned OK without a result"))
        },
        OperationResult::Copy { status, .. } => Err(Error::nfsv4("COPY", *status)),
        _ => Err(protocol("COMPOUND result kind does not match its operation")),
    }
}

/// What [`response_lock_test`] returns for `response`.
pub open spec fn response_lock_test_outcome(response: CompoundResponse, r: Result<Option<LockDenied>>) -> bool {
    &&& (!has_dedicated(response.results@, OpCode::Lockt) ==> (r matches Err(Error::Protocol(_))))
    &&& (forall|i: int| #[trigger] first_dedicated(response.results@, OpCode::Lockt, i) ==> {
            let x = response.results@[i];
            &&& x.spec_status() == Status::NfsOk ==> r == Ok::<Option<LockDenied>, Error>(None)
            &&& x matches OperationResult::LockTest { status, denied: Some(d) } ==> status == Status::Denied
                ==> (r matches Ok(Some(w)) && same_denied(w, d))
            &&& x matches OperationResult::LockTest { status, denied: None } ==> status == Status::Denied
                ==> (r matches Err(Error::Protocol(_)))
            &&& x.spec_status() != Status::NfsOk && x.spec_status() != Status::Denied
                ==> r == Err::<Option<LockDenied>, Error>((Error::NfsV4 { operation: "LOCKT", status: x.spec_status() }))
        })
}

/// Two conflicting-lock reports with the same range, type and owner.
pub open spec fn same_denied(a: LockDenied, b: LockDenied) -> bool {
    &&& a.offset == b.offset
    &&& a.length == b.length
    &&& a.lock_type == b.lock_type
    &&& a.owner.client_id == b.owner.client_id
    &&& a.owner.owner@ == b.owner.owner@
}

/// A copy of a conflicting-lock report.
fn copy_denied(d: &LockDenied) -> (r: LockDenied)
    ensures
        same_denied(r, *d),
{
    LockDenied {
        offset: d.offset,
        length: d.length,
        lock_type: d.lock_type,
        owner: LockOwner { client_id: d.owner.client_id, owner: copy_bytes(d.owner.owner.as_slice()) },
    }
}

/// LOCKT outcome: `None` when the range is free, the conflicting lock when
/// the server denied it.
pub fn response_lock_test(response: &CompoundResponse) -> (r: Result<Option<LockDenied>>)
    ensures
        response_lock_test_outcome(*response, r),
{
    let i = match find_dedicated(&response.results, OpCode::Lockt) {
        Some(i) => i,
        None => return Err(protocol("COMPOUND did not include a LOCKT result")),
    };
    match &response.results[i] {
        OperationResult::LockTest { status, .. } if status.is_ok() => Ok(None),
        OperationResult::LockTest { status: Status::Denied, denied: Some(denied) } => Ok(Some(copy_denied(denied))),
        OperationResult::LockTest { status: Status::Denied, denied: None } => {
            Err(protocol("NFSv4 LOCKT returned DENIED without conflicting lock details"))
        },
        OperationResult::LockTest { status, .. } => Err(Error::nfsv4("LOCKT", *status)),
        _ => Err(protocol("COMPOUND result kind does not match its operation")),
    }
}

/// What [`response_lock`] returns for `response`.
pub open spec fn response_lock_outcome(response: CompoundResponse, r: Result<StateId>) -> bool {
    &&& (!has_dedicated(response.results@, OpCode::Lock) ==> (r matches Err(Error::Protocol(_))))
    &&& (forall|i: int| #[trigger] first_dedicated(response.results@, OpCode::Lock, i) ==> {
            let x = response.results@[i];
            &&& x.spec_status() != Status::NfsOk ==> r == Err::<StateId, Error>((Error::NfsV4 { operation: "LOCK", status: x.spec_status() }))
            &&& x matches OperationResult::Lock { status, stateid: Some(s), .. } ==> status == Status::NfsOk ==> r == Ok::<StateId, Error>(s)
            &&& x matches OperationResult::Lock { status, stateid: None, .. } ==> status == Status::NfsOk ==> (r matches Err(Error::Protocol(_)))
        })
}

/// The lock state id from the first LOCK result.
pub fn response_lock(response: &CompoundResponse) -> (r: Result<StateId>)
    ensures
        response_lock_outcome(*response, r),
{
    let i = match find_dedicated(&response.results, OpCode::Lock) {
        Some(i) => i,
        None => return Err(protocol("COMPOUND did not include a LOCK result")),
    };
    match &response.results[i] {
        OperationResult::Lock { status, stateid: Some(stateid), .. } if status.is_ok() => Ok(*stateid),
        OperationResult::Lock { status, .. } if status.is_ok() => Err(protocol("NFSv4 LOCK succeeded without a stateid")),
        OperationResult::Lock { status, .. } => Err(Error::nfsv4("LOCK", *status)),
        _ => Err(protocol("COMPOUND result kind does not match its operation")),
    }
}

/// What [`response_lock_unlock`] returns for `response`.
pub open spec fn response_lock_unlock_outcome(response: CompoundResponse, r: Result<StateId>) -> bool {
    &&& (!has_dedicated(response.results@, OpCode::Locku) ==> (r matches Err(Error::Protocol(_))))
    &&& (forall|i: int| #[trigger] first_dedicated(response.results@, OpCode::Locku, i) ==> {
            let x = response.results@[i];
            &&& x.spec_status() != Status::NfsOk ==> r == Err::<StateId, Error>((Error::NfsV4 { operation: "LOCKU", status: x.spec_status() }))
            &&& x matches OperationResult::LockUnlock { status, stateid: Some(s) } ==> status == Status::NfsOk ==> r == Ok::<StateId, Error>(s)
            &&& x matches OperationResult::LockUnlock { status, stateid: None } ==> status == Status::NfsOk ==> (r matches Err(Error::Protocol(_)))
        })
}

/// The lock state id from the first LOCKU result.
pub fn response_lock_unlock(response: &CompoundResponse) -> (r: Result<StateId>)
    ensures
        response_lock_unlock_outcome(*response, r),
{
    let i = match find_dedicated(&response.results, OpCode::Locku) {
        Some(i) => i,
        None => return Err(protocol("COMPOUND did not include a LOCKU result")),
    };
    match &response.results[i] {
        OperationResult::LockUnlock { status, stateid: Some(stateid) } if status.is_ok() => Ok(*stateid),
        OperationResult::LockUnlock { status, .. } if status.is_ok() => Err(protocol("NFSv4 LOCKU succeeded without a stateid")),
        OperationResult::LockUnlock { status, .. } => Err(Error::nfsv4("LOCKU", *status)),
        _ => Err(protocol("COMPOUND result kind does not match its operation")),
    }
}

/// What [`response_test_stateids`] returns for `response`.
pub open spec fn response_test_stateids_outcome(response: CompoundResponse, requested_count: usize, r: Result<Vec<Status>>) -> bool {
    &&& (!has_dedicated(response.results@, OpCode::TestStateId) ==> (r matches Err(Error::Protocol(_))))
    &&& (forall|i: int| #[trigger] first_dedicated(response.results@, OpCode::TestStateId, i) ==> {
            let x = response.results@[i];
            &&& x.spec_status() != Status::NfsOk ==> r == Err::<Vec<Status>, Error>((Error::NfsV4 { operation: "TEST_STATEID", status: x.spec_status() }))
            &&& x matches OperationResult::TestStateIds { status, statuses } ==> status == Status::NfsOk ==> {
                &&& statuses@.len() == requested_count ==> (r matches Ok(v) && v@ == statuses@)
                &&& statuses@.len() != requested_count ==> (r matches Err(Error::Protocol(_)))
            }
        })
}

/// The per-stateid statuses from the first TEST_STATEID result, one for each
/// state id that was sent.
pub fn response_test_stateids(response: &CompoundResponse, requested_count: usize) -> (r: Result<Vec<Status>>)
    ensures
        response_test_stateids_outcome(*response, requested_count, r),
{
    let i = match find_dedicated(&response.results, OpCode::TestStateId) {
        Some(i) => i,
        None => return Err(protocol("COMPOUND did not include a TEST_STATEID result")),
    };
    match &response.results[i] {
        OperationResult::TestStateIds { status, statuses } if status.is_ok() => {
            if statuses.len() == requested_count {
                let v = statuses.clone();
                assert(v@ =~= statuses@);
                Ok(v)
            } else {
                Err(protocol("NFSv4 TEST_STATEID returned a status count that differs from the stateid count"))
            }
        },
        OperationResult::TestStateIds { status, .. } => Err(Error::nfsv4("TEST_STATEID", *status)),
        _ => Err(protocol("COMPOUND result kind does not match its operation")),
    }
}


/// The entries of a READDIR result and its cookie verifier, copied out.
pub open spec fn readdir_copied(
    r: (Verifier, Vec<crate::v4::proto::DirEntry>, bool),
    cookieverf: Verifier,
    entries: Vec<crate::v4::proto::DirEntry>,
    eof: bool,
) -> bool {
    &&& r.0 == cookieverf
    &&& r.2 == eof
    &&& r.1@.len() == entries@.len()
    &&& forall|k: int| 0 <= k < entries@.len() ==> vstd::pervasive::cloned(#[trigger] entries@[k], r.1@[k])
}

/// What [`response_readdir`] returns for `response`.
pub open spec fn response_readdir_outcome(response: CompoundResponse, r: Result<(Verifier, Vec<crate::v4::proto::DirEntry>, bool)>) -> bool {
    &&& (!has_dedicated(response.results@, OpCode::ReadDir) ==> (r matches Err(Error::Protocol(_))))
    &&& (forall|i: int| #[trigger] first_dedicated(response.results@, OpCode::ReadDir, i) ==> {
            let x = response.results@[i];
            &&& x.spec_status() != Status::NfsOk ==> r == Err::<(Verifier, Vec<crate::v4::proto::DirEntry>, bool), Error>((Error::NfsV4 { operation: "READDIR", status: x.spec_status() }))
            &&& x matches OperationResult::ReadDir { status, cookieverf, entries, eof } ==> status == Status::NfsOk
                ==> (r matches Ok(v) && readdir_copied(v, cookieverf, entries, eof))
        })
}

/// Extracts the READDIR result from a reply: the first READDIR result
/// decides; a reply without one is a protocol error.
pub fn response_readdir(response: &CompoundResponse) -> (r: Result<(Verifier, Vec<crate::v4::proto::DirEntry>, bool)>)
    ensures
        response_readdir_outcome(*response, r),
        r matches Ok(v) ==> exists|i: int| #[trigger] first_dedicated(response.results@, OpCode::ReadDir, i)
            && listing_at(response.results@[i], v),
{
    let i = match find_dedicated(&response.results, OpCode::ReadDir) {
        Some(i) => i,
        None => return Err(protocol("COMPOUND did not include a READDIR result")),
    };
    match &response.results[i] {
        OperationResult::ReadDir { status, cookieverf, entries, eof } if status.is_ok() => {
            Ok((*cookieverf, entries.clone(), *eof))
        },
        OperationResult::ReadDir { status, .. } => Err(Error::nfsv4("READDIR", *status)),
        _ => Err(protocol("COMPOUND result kind does not match its operation")),
    }
}

/// `x` is a successful READDIR result whose listing `v` copies.
pub open spec fn listing_at(x: OperationResult, v: (Verifier, Vec<crate::v4::proto::DirEntry>, bool)) -> bool {
    x matches OperationResult::ReadDir { status, cookieverf, entries, eof } && status == Status::NfsOk
        && readdir_copied(v, cookieverf, entries, eof)
}

/// A result that ends the search of `response_openattr_readdir`: a failed
/// OPENATTR or any READDIR.
pub open spec fn openattr_readdir_stop(x: OperationResult) -> bool {
    ||| (x matches OperationResult::StatusOnly { op, status } && op == OpCode::OpenAttr && status != Status::NfsOk)
    ||| x is ReadDir
}

/// `i` is the first result that ends that search.
pub open spec fn first_openattr_readdir_stop(results: Seq<OperationResult>, i: int) -> bool {
    0 <= i < results.len() && openattr_readdir_stop(results[i])
        && forall|j: int| 0 <= j < i ==> !openattr_readdir_stop(#[trigger] results[j])
}

/// What [`response_openattr_readdir`] returns for `response`.
pub open spec fn response_openattr_readdir_outcome(response: CompoundResponse, r: Result<(Verifier, Vec<crate::v4::proto::DirEntry>, bool)>) -> bool {
    &&& ((forall|i: int| 0 <= i < response.results@.len() ==> !openattr_readdir_stop(#[trigger] response.results@[i]))
            ==> (r matches Err(Error::Protocol(_))))
    &&& (forall|i: int| #[trigger] first_openattr_readdir_stop(response.results@, i) ==> {
            let x = response.results@[i];
            &&& x is StatusOnly ==> r == Err::<(Verifier, Vec<crate::v4::proto::DirEntry>, bool), Error>((Error::NfsV4 { operation: "OPENATTR", status: x.spec_status() }))
            &&& x is ReadDir && x.spec_status() != Status::NfsOk ==> r == Err::<(Verifier, Vec<crate::v4::proto::DirEntry>, bool), Error>((Error::NfsV4 { operation: "READDIR", status: x.spec_status() }))
            &&& x matches OperationResult::ReadDir { status, cookieverf, entries, eof } ==> status == Status::NfsOk
                ==> (r matches Ok(v) && readdir_copied(v, cookieverf, entries, eof))
        })
}

/// Extracts the named-attribute directory listing from an
/// `OPENATTR; READDIR` reply: a failed OPENATTR before the READDIR is
/// reported as an OPENATTR error.
pub fn response_openattr_readdir(response: &CompoundResponse) -> (r: Result<(Verifier, Vec<crate::v4::proto::DirEntry>, bool)>)
    ensures
        response_openattr_readdir_outcome(*response, r),
        r matches Ok(v) ==> exists|i: int| #[trigger] first_openattr_readdir_stop(response.results@, i)
            && listing_at(response.results@[i], v),
{
    let mut saw_openattr = false;
    let mut i: usize = 0;
    while i < response.results.len()
        invariant
            i <= response.results@.len(),
            forall|j: int| 0 <= j < i ==> !openattr_readdir_stop(#[trigger] response.results@[j]),
        decreases response.results@.len() - i,
    {
        match &response.results[i] {
            OperationResult::StatusOnly { op, status } if *op == OpCode::OpenAttr => {
                if status.is_ok() {
                    saw_openattr = true;
                } else {
                    return Err(Error::nfsv4("OPENATTR", *status));
                }
            },
            OperationResult::ReadDir { status, cookieverf, entries, eof } => {
                if status.is_ok() {
                    let r = (*cookieverf, entries.clone(), *eof);
                    assert(first_openattr_readdir_stop(response.results@, i as int));
                    return Ok(r);
                }
                return Err(Error::nfsv4("READDIR", *status));
            },
            _ => {},
        }
        i = i + 1;
    }
    if saw_openattr {
        Err(protocol("COMPOUND did not include READDIR result after OPENATTR"))
    } else {
        Err(protocol("COMPOUND did not include OPENATTR result"))
    }
}

/// The number of bytes a WRITE_SAME block pattern covers.
pub open spec fn spec_app_data_block_len(block_size: u64, block_count: u64) -> int {
    block_size * block_count
}

/// The byte count a WRITE_SAME block covers: size times count. A zero
/// block size with blocks to write, and a product beyond `u64`, are refused.
pub fn app_data_block_len(block: &AppDataBlock) -> (r: Result<u64>)
    ensures
        r is Ok <==> !(block.block_count > 0 && block.block_size == 0)
            && spec_app_data_block_len(block.block_size, block.block_count) <= u64::MAX,
        r matches Ok(n) ==> n == spec_app_data_block_len(block.block_size, block.block_count),
        r matches Err(e) ==> e is Protocol,
{
    if block.block_count > 0 && block.block_size == 0 {
        return Err(protocol("NFSv4 WRITE_SAME block size must be nonzero when block count is nonzero"));
    }
    match block.block_size.checked_mul(block.block_count) {
        Some(n) => Ok(n),
        None => Err(protocol("NFSv4 WRITE_SAME byte count overflow")),
    }
}

/// The protocol numbers of a list of IO_ADVISE hints.
pub open spec fn io_advice_codes(hints: Seq<IoAdviceType>) -> Seq<u32> {
    hints.map_values(|h: IoAdviceType| h.code())
}

/// The IO_ADVISE hint bitmap: one bit per hint.
pub fn io_advice_bitmap(hints: &[IoAdviceType]) -> (b: Bitmap)
    ensures
        b.exactly(io_advice_codes(hints@)),
{
    let mut attrs: Vec<u32> = Vec::new();
    let mut i: usize = 0;
    while i < hints.len()
        invariant
            i <= hints@.len(),
            attrs@ == io_advice_codes(hints@.subrange(0, i as int)),
            forall|k: int| 0 <= k < attrs@.len() ==> #[trigger] attrs@[k] <= 10,
        decreases hints@.len() - i,
    {
        let code = hints[i].as_u32();
        proof {
            assert(hints@.subrange(0, i + 1) =~= hints@.subrange(0, i as int).push(hints@[i as int]));
        }
        attrs.push(code);
        i = i + 1;
    }
    proof {
        assert(hints@.subrange(0, hints@.len() as int) =~= hints@);
        assert(attrs_fit_bitmap(attrs@));
    }
    Bitmap::from_known_attrs(attrs.as_slice())
}

/// The share access an IO_ADVISE open needs: write access when a hint
/// announces writes, read access otherwise.
pub fn io_advice_share_access(hints: &[IoAdviceType]) -> (r: u32)
    ensures
        r == (if hints@.contains(IoAdviceType::Write) { OPEN4_SHARE_ACCESS_WRITE } else { OPEN4_SHARE_ACCESS_READ }),
{
    let mut i: usize = 0;
    while i < hints.len()
        invariant
            i <= hints@.len(),
            forall|k: int| 0 <= k < i ==> hints@[k] != IoAdviceType::Write,
        decreases hints@.len() - i,
    {
        if let IoAdviceType::Write = hints[i] {
            return OPEN4_SHARE_ACCESS_WRITE;
        }
        i = i + 1;
    }
    OPEN4_SHARE_ACCESS_READ
}

/// The share access a byte-range lock needs.
pub fn lock_share_access(lock_type: LockType) -> (r: u32)
    ensures
        r == (match lock_type {
            LockType::Read | LockType::ReadBlocking => OPEN4_SHARE_ACCESS_READ,
            _ => OPEN4_SHARE_ACCESS_WRITE,
        }),
{
    match lock_type {
        LockType::Read | LockType::ReadBlocking => OPEN4_SHARE_ACCESS_READ,
        LockType::Write | LockType::WriteBlocking => OPEN4_SHARE_ACCESS_WRITE,
    }
}

/// The share access a layout of the given I/O mode needs.
pub fn layout_iomode_share_access(iomode: LayoutIomode) -> (r: u32)
    ensures
        r == (if iomode is Read { OPEN4_SHARE_ACCESS_READ } else { OPEN4_SHARE_ACCESS_BOTH }),
{
    match iomode {
        LayoutIomode::Read => OPEN4_SHARE_ACCESS_READ,
        LayoutIomode::ReadWrite | LayoutIomode::Any | LayoutIomode::Unknown(_) => OPEN4_SHARE_ACCESS_BOTH,
    }
}

/// Refuses a TEST_STATEID batch larger than a COMPOUND may carry.
pub fn validate_stateid_batch_len(count: usize) -> (r: Result<()>)
    ensures
        r is Ok <==> count <= NFS4_MAX_OPS,
        r matches Err(e) ==> e is Protocol,
{
    if count > NFS4_MAX_OPS {
        return Err(protocol("NFSv4 TEST_STATEID batch exceeds the COMPOUND operation limit"));
    }
    Ok(())
}

/// Checks a GETDEVICELIST page size: between one and `u32::MAX`.
pub fn validate_max_device_ids(max_device_ids: usize) -> (r: Result<u32>)
    ensures
        r is Ok <==> 1 <= max_device_ids <= u32::MAX,
        r matches Ok(n) ==> n == max_device_ids,
        r matches Err(e) ==> e is Protocol,
{
    if max_device_ids == 0 || max_device_ids as u64 > u32::MAX as u64 {
        return Err(protocol("max_device_ids must be in 1..=4294967295"));
    }
    Ok(max_device_ids as u32)
}

/// Whether a READDIR page may be followed: at EOF always; otherwise its last
/// entry must carry a cookie other than the one the page was requested with.
pub open spec fn dir_cursor_ok(entries: Seq<crate::v4::proto::DirEntry>, eof: bool, previous_cookie: u64) -> bool {
    eof || (entries.len() > 0 && entries.last().cookie != previous_cookie)
}

/// The cursor for the page after a READDIR page, `None` at EOF.
pub open spec fn spec_next_dir_cursor(cookieverf: Verifier, entries: Seq<crate::v4::proto::DirEntry>, eof: bool) -> Option<DirPageCursor> {
    if eof {
        None
    } else {
        Some(DirPageCursor { cookie: entries.last().cookie, cookieverf })
    }
}

/// The cursor for the page after a READDIR page. A page that is not the
/// last must end with an entry whose cookie moved on from the request's.
pub fn next_dir_cursor(
    cookieverf: Verifier,
    entries: &[crate::v4::proto::DirEntry],
    eof: bool,
    previous_cookie: u64,
) -> (r: Result<Option<DirPageCursor>>)
    ensures
        r is Ok <==> dir_cursor_ok(entries@, eof, previous_cookie),
        r matches Ok(c) ==> c == spec_next_dir_cursor(cookieverf, entries@, eof),
        r matches Err(e) ==> e is Protocol,
{
    if eof {
        return Ok(None);
    }
    if entries.len() == 0 {
        return Err(protocol("NFSv4 READDIR returned no entries before EOF"));
    }
    let last = entries[entries.len() - 1].cookie;
    if last == previous_cookie {
        return Err(protocol("NFSv4 READDIR did not advance the directory cookie"));
    }
    Ok(Some(DirPageCursor { cookie: last, cookieverf }))
}

/// A page entry made from a wire entry: same cookie and name, and the
/// attributes the entry carried, decoded.
pub open spec fn entry_from_wire(e: DirEntry, w: crate::v4::proto::DirEntry) -> bool {
    e.cookie == w.cookie && e.name@ == w.name@ && basic_attrs_of(w.attrs, e.attributes)
        && is_attr_list(w.attrs.attrmask, attr_list(w.attrs.attrmask))
}

/// Builds a directory page from READDIR entries: refuses more entries than
/// `max_entries`, a cursor that does not advance, and entries whose
/// attributes do not parse.
pub fn dir_page_from_entries(
    cookieverf: Verifier,
    entries: Vec<crate::v4::proto::DirEntry>,
    eof: bool,
    previous_cookie: u64,
    max_entries: usize,
) -> (r: Result<DirPage>)
    ensures
        entries@.len() > max_entries ==> (r matches Err(Error::Protocol(_))),
        entries@.len() <= max_entries && !dir_cursor_ok(entries@, eof, previous_cookie) ==> (r matches Err(Error::Protocol(_))),
        r matches Ok(page) ==> {
            &&& entries@.len() <= max_entries
            &&& page.next_cursor == spec_next_dir_cursor(cookieverf, entries@, eof)
            &&& page.entries@.len() == entries@.len()
            &&& forall|k: int| 0 <= k < entries@.len() ==> entry_from_wire(#[trigger] page.entries@[k], entries@[k])
        },
{
    if entries.len() > max_entries {
        return Err(protocol("NFSv4 READDIR exceeded the configured entry limit"));
    }
    let next_cursor = match next_dir_cursor(cookieverf, entries.as_slice(), eof, previous_cookie) {
        Ok(c) => c,
        Err(e) => return Err(e),
    };
    let ghost original = entries@;
    let n = entries.len();
    let mut rest = entries;
    let mut out: Vec<DirEntry> = Vec::new();
    let mut i: usize = 0;
    while i < n
        invariant
            i <= n == original.len(),
            original == entries@,
            original.len() <= max_entries,
            dir_cursor_ok(original, eof, previous_cookie),
            rest@ == original.subrange(i as int, n as int),
            out@.len() == i,
            forall|k: int| 0 <= k < i ==> entry_from_wire(#[trigger] out@[k], original[k]),
        decreases n - i,
    {
        let wire = rest.remove(0);
        let e = DirEntry::from_wire(wire)?;
        out.push(e);
        i = i + 1;
    }
    Ok(DirPage { entries: out, next_cursor })
}

/// The cursor for the page after a GETDEVICELIST page, `None` at EOF.
pub open spec fn spec_next_device_list_cursor(cookie: u64, cookieverf: Verifier, eof: bool) -> Option<DeviceListCursor> {
    if eof { None } else { Some(DeviceListCursor { cookie, cookieverf }) }
}

/// The cursor for the page after a GETDEVICELIST page. A page that is not
/// the last must return a cookie other than the one it was requested with.
pub fn next_device_list_cursor(
    cookie: u64,
    cookieverf: Verifier,
    eof: bool,
    previous_cookie: u64,
) -> (r: Result<Option<DeviceListCursor>>)
    ensures
        r is Ok <==> (eof || cookie != previous_cookie),
        r matches Ok(c) ==> c == spec_next_device_list_cursor(cookie, cookieverf, eof),
        r matches Err(e) ==> e is Protocol,
{
    if eof {
        return Ok(None);
    }
    if cookie == previous_cookie {
        return Err(protocol("NFSv4 GETDEVICELIST did not advance the device-list cookie"));
    }
    Ok(Some(DeviceListCursor { cookie, cookieverf }))
}

/// Builds a device-id page from a GETDEVICELIST result: refuses more ids
/// than `max_device_ids` and a cursor that does not advance.
pub fn device_list_page_from_result(
    result: GetDeviceListResult,
    previous_cookie: u64,
    max_device_ids: usize,
) -> (r: Result<DeviceListPage>)
    ensures
        r is Ok <==> result.device_ids@.len() <= max_device_ids && (result.eof || result.cookie != previous_cookie),
        r matches Ok(page) ==> page.device_ids@ == result.device_ids@
            && page.next_cursor == spec_next_device_list_cursor(result.cookie, result.cookieverf, result.eof),
        r matches Err(e) ==> e is Protocol,
{
    if result.device_ids.len() > max_device_ids {
        return Err(protocol("NFSv4 GETDEVICELIST exceeded the configured device id limit"));
    }
    let next_cursor = match next_device_list_cursor(result.cookie, result.cookieverf, result.eof, previous_cookie) {
        Ok(c) => c,
        Err(e) => return Err(e),
    };
    Ok(DeviceListPage { device_ids: result.device_ids, next_cursor })
}

/// A verifier from a clock reading: the seconds XOR the sub-second
/// nanoseconds, big-endian.
pub open spec fn spec_verifier_from_clock(secs: u64, nanos: u32) -> Seq<u8> {
    be_u64(secs ^ (nanos as u64))
}

/// Builds a verifier from a clock reading.
pub fn verifier_from_clock(secs: u64, nanos: u32) -> (v: Verifier)
    ensures
        v@ == spec_verifier_from_clock(secs, nanos),
{
    u64_to_be_bytes(secs ^ (nanos as u64))
}

/// Reads the system clock as whole seconds and nanoseconds since the Unix
/// epoch, through `SystemTime::elapsed` on `UNIX_EPOCH`; a clock set
/// before the epoch reads as zero. The reading depends on the time: only
/// that the nanoseconds stay below one second is stated.
#[verifier::external_body]
pub(crate) fn unix_clock() -> (r: (u64, u32))
    ensures
        r.1 < 1_000_000_000,
{
    match std::time::UNIX_EPOCH.elapsed() {
        Ok(d) => (d.as_secs(), d.subsec_nanos()),
        Err(_) => (0, 0),
    }
}

/// A verifier made from the current time.
pub fn verifier_from_time() -> (v: Verifier)
    ensures
        exists|secs: u64, nanos: u32| nanos < 1_000_000_000 && v@ == spec_verifier_from_clock(secs, nanos),
{
    let (secs, nanos) = unix_clock();
    verifier_from_clock(secs, nanos)
}

} // verus!
