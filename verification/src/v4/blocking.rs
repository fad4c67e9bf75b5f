//! Blocking NFSv4 client.
//!
//! The client creates an NFSv4 session and executes path-oriented operations
//! against the server's v4 pseudo-filesystem. It reaches the server through
//! a [`Transport`], which carries COMPOUND calls over ONC RPC.
use vstd::prelude::*;
use vstd::utf8::encode_utf8;
use core::time::Duration;
use crate::error::{
    Error, Result, protocol,
};
use crate::retry::RetryPolicy;
use crate::rpc::{
    AuthSys, max_record_size_for_payloads,
};
use crate::xdr::{
    Decode, Decoder, Encode, Encoder, be_u32, be_u64, var_opaque, items_bytes, items_encodable, lemma_items_bytes_push,
};
use crate::v4::client::{
    ByteRangeLock, CopyOffloadOptions, copy_lock_state, same_lock_except_lost, same_lock_state, DeviceListCursor, DeviceListPage, DirEntry, DirPage,
    DirPageCursor, LockRegistry, LockState, SpaceOp, advance_offset, app_data_block_len,
    attrs_require_open_state, cleanup_error, device_list_page_from_result, dir_page_from_entries, ensure_distinct_copy_handles, ensure_last_status,
    ensure_reclaim_complete, finish_with_close, io_advice_bitmap, io_advice_share_access, is_dot, is_dot_dot,
    join_path, layout_iomode_share_access, lock_share_access, named_attr_ops, next_dir_cursor, open_cleanup_error,
    operations_can_replay_after_session_recovery, operations_release_state, parent_path_ops, path_components, path_fault_reported, path_ops,
    path_result_matches, public_path_ops, response_access, response_allows_delayed_retry, response_allows_delayed_retry_without_sequence, response_bind_conn_to_session,
    response_commit, response_consumed_owner_seqid, response_copy, response_copy_notify, response_create_session, response_exchange_id,
    response_get_device_info, response_get_device_list, response_get_dir_delegation, response_getattr, response_getfh, response_io_advise,
    response_layout_commit, response_layout_get, response_layout_return, response_lock, response_lock_test, response_lock_unlock,
    response_offload_status, response_open, response_openattr_readdir, response_operation_has_delayed_status, response_operation_requires_session_recovery, response_read,
    response_read_plus, response_readdir, response_readlink, response_release_lock_owner, response_requires_session_recovery, response_revoked_lock_status,
    response_secinfo, response_seek, response_set_ssv, response_test_stateids, response_verify, response_want_delegation,
    response_write, response_write_same, sequence_succeeded, session_max_operations, session_payload_limit, session_recovery_error,
    spec_compound_shape_ok, spec_named_attr_name_ok, spec_operation_can_replay_after_session_recovery, spec_operation_releases_state, spec_path_components, spec_session_payload_limit,
    split_parent, temporary_named_attr_name, temporary_sibling_path, unix_clock, validate_compound_response_shape, validate_max_device_ids,
    validate_named_attr_name, validate_open_result, validate_session_channel_attrs, validate_session_compound_operation_count, validate_stateid_batch_len, verifier_from_clock,
};
use crate::v4::client::{
    NFS4_COMPOUND_IO_HEADROOM, response_open_outcome, response_read_outcome, response_lock_outcome, spec_revoked_lock_status, spec_sequence_succeeded, is_lookup_chain, last_result_ok, strings_are, listing_at, first_dedicated, first_openattr_readdir_stop,
    entry_from_wire, spec_next_dir_cursor, response_access_outcome, response_bind_conn_to_session_outcome, response_commit_outcome, response_copy_notify_outcome,
    response_get_device_info_outcome, response_get_dir_delegation_outcome, response_getattr_outcome, response_getfh_outcome, response_layout_commit_outcome, response_layout_return_outcome,
    response_lock_test_outcome, response_offload_status_outcome, response_readlink_outcome, response_release_lock_owner_outcome, response_secinfo_outcome, response_set_ssv_outcome,
    response_test_stateids_outcome, response_verify_outcome, response_want_delegation_outcome,
    reclaim_complete_accepted, session_channel_usable, same_session_result, response_copy_outcome, response_write_outcome,
    has_dedicated, dedicated, spec_cleanup_error, response_get_device_list_outcome,
};
use crate::v4::proto::{
    compound_response_read, CreateSessionResult, WriteResult, GetDeviceListResult, FATTR4_SIZE,
    AUTH_SYS, OpenResult, AccessResult, AppDataBlock, BackchannelCtlArgs, BasicAttributes, BindConnToSessionArgs,
    BindConnToSessionResult, Bitmap, CallbackSecParms, ChannelAttrs, ChannelDirFromClient, ClientOwner,
    CloneArgs, CommitResult, CompoundResponse, CopyArgs, CopyNotifyArgs, CopyNotifyResult,
    CopyResult, CreateArgs, CreateKind, CreateSessionArgs, DelegationClaim, DeviceError,
    DeviceId, EXCHGID4_FLAG_USE_NON_PNFS, ExchangeIdArgs, FATTR4_BASIC_ATTRS, FATTR4_FSINFO_ATTRS, FATTR4_FSSTAT_ATTRS,
    FATTR4_MODE, FATTR4_PATHCONF_ATTRS, FATTR4_SUPPORTED_ATTRS, Fattr, FileHandle, FileType,
    FsInfo, FsStat, GetDeviceInfoArgs, GetDeviceInfoResult, GetDeviceListArgs, GetDirDelegationArgs,
    GetDirDelegationResult, IoAdviceType, IoAdviseArgs, IoAdviseResult, IoInfo, LayoutCommitArgs,
    LayoutCommitResult, LayoutErrorArgs, LayoutGetArgs, LayoutGetResult, LayoutIomode, LayoutReturn,
    LayoutReturnArgs, LayoutReturnFile, LayoutReturnResult, LayoutStatsArgs, LayoutType, LayoutUpdate,
    LockArgs, LockDenied, LockOwner, LockTestArgs, LockType, LockUnlockArgs,
    Locker, NFS4_MAX_DIR_ENTRIES, NFS4_MAX_IO, NFS4_MAX_NETLOCATIONS, NFS4_MAX_OPS, NFS4_MINOR_VERSION_LATEST,
    NFS4_MINOR_VERSION_SESSION_MIN, NFS4_MINOR_VERSION_V42, NFS4_OPAQUE_LIMIT, NFS4_PORT, NFS4_PROGRAM, NFS4_VERSION,
    NetLoc, NfsTime, OPEN4_SHARE_ACCESS_BOTH, OPEN4_SHARE_ACCESS_READ, OPEN4_SHARE_ACCESS_WANT_NO_DELEG, OPEN4_SHARE_ACCESS_WRITE,
    OPEN4_SHARE_DENY_NONE, OffloadStatusResult, OpCode, OpenArgs, OpenClaim, OpenDelegation,
    OpenDelegationType, OpenHow, OpenOwner, Operation, PathConf, ReadPlusArgs,
    ReadPlusResult, SecInfo, SecInfoStyle, SeekContent, SeekResult, SequenceArgs,
    SessionId, SetAttrs, SetSsvArgs, SetSsvResult, StableHow, StateId,
    Status, Verifier, WantDelegationArgs, WriteResponse, WriteSameArgs, bytes_equal,
    copy_bytes, in_bitmap, NFS4_NSECONDS_PER_SECOND, OperationResult, lemma_basic_attrs_of_same, SetTime,
    opt_text_ok, set_attrs_bytes, set_attrs_empty, set_time_bytes, set_time_ok,
};
use crate::v4::{
    clamp_io_size, default_lock_owner, default_open_owner, default_owner_id, negotiated_minor_versions, require_minor_version,
    spec_negotiated_minor_versions, validate_host, validate_lock_owner, validate_max_dir_entries, validate_minor_version, validate_open_owner,
    validate_owner_id, validate_port, validate_transfer_size, OwnerKind, kind_bytes, spec_opaque_id,
};

verus! {

/// Default read and write transfer size.
pub const DEFAULT_IO_SIZE: u32 = 128 * 1024;
/// Default READDIR response size.
pub const DEFAULT_DIR_SIZE: u32 = 128 * 1024;
/// Default socket timeout, in seconds.
pub const DEFAULT_TIMEOUT_SECS: u64 = 30;

/// The duration of `secs` whole seconds, as `Duration::from_secs` gives it.
pub uninterp spec fn duration_of_secs(secs: u64) -> Duration;

/// `Duration::from_secs` gives the duration of `secs` whole seconds; a
/// `Duration` is opaque here, so the result is named, not described.
pub assume_specification[ core::time::Duration::from_secs ](secs: u64) -> (d: Duration)
    ensures
        d == duration_of_secs(secs),
;

/// The duration of `nanos` nanoseconds, as `Duration::from_nanos` gives it.
pub uninterp spec fn duration_of_nanos(nanos: u64) -> Duration;

/// Wraps `Duration::from_nanos`: the duration of `nanos` nanoseconds.
#[verifier::external_body]
fn duration_from_nanos(nanos: u64) -> (d: Duration)
    ensures
        d == duration_of_nanos(nanos),
{
    Duration::from_nanos(nanos)
}

/// A connection that carries NFSv4 COMPOUND calls to a server.
///
/// `call` sends one ONC RPC call of the NFSv4 program's COMPOUND procedure
/// (program `NFS4_PROGRAM`, version `NFS4_VERSION`, procedure 1) with the
/// given XDR-encoded arguments, under the connection's AUTH_SYS
/// credentials, and returns the XDR-encoded reply body of an accepted
/// call. A failure to deliver the call or its reply is reported as
/// `Error::Transport`. The client makes no assumption about what a
/// connection returns: every reply is checked.
pub trait Transport: Sized {
    /// Opens a new connection of the same kind to `host:port`, sending calls
    /// with `auth` credentials and applying `timeout` to socket operations.
    fn open(&mut self, host: &str, port: u16, auth: &AuthSys, timeout: Option<Duration>) -> Result<Self>;

    /// Sends one COMPOUND call and returns its reply body, or says how the
    /// exchange failed.
    fn call(&mut self, args: Vec<u8>) -> core::result::Result<Vec<u8>, CallFailure>;

    /// Limits the size of the records this connection sends and accepts.
    fn set_max_record_size(&mut self, size: usize) -> Result<()>;

    /// Waits `millis` milliseconds before a retry.
    fn pause(&mut self, millis: u64);
}

/// How one call on a connection failed.
#[derive(Debug)]
pub enum CallFailure {
    /// The request did not go out: the server cannot have seen it.
    NotSent(Error),
    /// The request went out but no reply came back: the server may or may
    /// not have applied it.
    ReplyLost,
    /// A reply came back and the RPC layer refused it.
    Refused(Error),
}

/// The error a failed call reports: a lost reply leaves the outcome of the
/// request unknown; the other failures carry their own error.
pub fn call_failure_error(failure: CallFailure) -> (e: Error)
    ensures
        failure is ReplyLost ==> e is OutcomeUnknown,
        failure matches CallFailure::NotSent(x) ==> e == x,
        failure matches CallFailure::Refused(x) ==> e == x,
{
    match failure {
        CallFailure::NotSent(e) => e,
        CallFailure::ReplyLost => Error::OutcomeUnknown { operation: "COMPOUND" },
        CallFailure::Refused(e) => e,
    }
}

/// A setting of a [`ClientBuilder`].
#[derive(Debug, Clone, Copy, PartialEq, Eq, Structural)]
pub enum Setting {
    Auth,
    Timeout,
    Port,
    OwnerId,
    OpenOwner,
    ClientOwnerVerifier,
    IoSize,
    ReadSize,
    WriteSize,
    DirSize,
    MaxDirEntries,
    MaxMinorVersion,
    LeaseRenewal,
    RetryPolicy,
}

/// Builder for a blocking NFSv4 [`Client`].
///
/// Defaults are conservative: the given AUTH_SYS credentials, port 2049, a
/// 30 second timeout, generated client/open owner identifiers, 128 KiB
/// transfer limits, and the default [`RetryPolicy`].
#[derive(Debug)]
pub struct ClientBuilder {
    host: String,
    auth: AuthSys,
    timeout: Option<Duration>,
    port: u16,
    owner_id: Vec<u8>,
    open_owner: Vec<u8>,
    client_owner_verifier: Verifier,
    read_size: u32,
    write_size: u32,
    dir_size: u32,
    max_dir_entries: usize,
    max_minor_version: u32,
    retry_policy: RetryPolicy,
    automatic_lease_renewal: bool,
    process_id: u32,
    id_counter: u64,
}

impl Clone for ClientBuilder {
    fn clone(&self) -> (r: Self)
        ensures
            r.same_settings(*self),
    {
        ClientBuilder {
            host: self.host.clone(),
            auth: self.auth.clone(),
            timeout: self.timeout,
            port: self.port,
            owner_id: copy_bytes(self.owner_id.as_slice()),
            open_owner: copy_bytes(self.open_owner.as_slice()),
            client_owner_verifier: self.client_owner_verifier,
            read_size: self.read_size,
            write_size: self.write_size,
            dir_size: self.dir_size,
            max_dir_entries: self.max_dir_entries,
            max_minor_version: self.max_minor_version,
            retry_policy: self.retry_policy,
            automatic_lease_renewal: self.automatic_lease_renewal,
            process_id: self.process_id,
            id_counter: self.id_counter,
        }
    }
}

impl ClientBuilder {
    /// `self` holds the same settings as `other`; the credentials aside.
    pub closed spec fn same_settings(&self, other: ClientBuilder) -> bool {
        &&& self.host@ == other.host@
        &&& self.timeout == other.timeout
        &&& self.port == other.port
        &&& self.owner_id@ == other.owner_id@
        &&& self.open_owner@ == other.open_owner@
        &&& self.client_owner_verifier == other.client_owner_verifier
        &&& self.read_size == other.read_size
        &&& self.write_size == other.write_size
        &&& self.dir_size == other.dir_size
        &&& self.max_dir_entries == other.max_dir_entries
        &&& self.max_minor_version == other.max_minor_version
        &&& self.retry_policy == other.retry_policy
        &&& self.automatic_lease_renewal == other.automatic_lease_renewal
        &&& self.process_id == other.process_id
        &&& self.id_counter == other.id_counter
    }
}

/// Nanoseconds since the Unix epoch of a clock reading.
pub open spec fn clock_nanos(secs: u64, nanos: u32) -> int {
    secs as int * 1_000_000_000 + nanos as int
}

fn clock_to_nanos(secs: u64, nanos: u32) -> (n: u128)
    ensures
        n == clock_nanos(secs, nanos),
{
    assert(secs as int * 1_000_000_000 + nanos as int <= u128::MAX) by (nonlinear_arith)
        requires secs <= u64::MAX, nanos <= u32::MAX;
    secs as u128 * 1_000_000_000 + nanos as u128
}

/// The current time as nanoseconds since the Unix epoch.
fn now_nanos() -> (n: u128) {
    let (secs, nanos) = unix_clock();
    clock_to_nanos(secs, nanos)
}

impl ClientBuilder {
    /// The host the builder connects to.
    pub closed spec fn spec_host(&self) -> Seq<char> {
        self.host@
    }

    /// The configured read transfer limit.
    pub closed spec fn spec_read_size(&self) -> u32 {
        self.read_size
    }

    /// The configured write transfer limit.
    pub closed spec fn spec_write_size(&self) -> u32 {
        self.write_size
    }

    /// The configured READDIR size.
    pub closed spec fn spec_dir_size(&self) -> u32 {
        self.dir_size
    }

    /// The configured directory entry limit.
    pub closed spec fn spec_max_dir_entries(&self) -> usize {
        self.max_dir_entries
    }

    /// The configured highest minor version.
    pub closed spec fn spec_max_minor_version(&self) -> u32 {
        self.max_minor_version
    }

    /// The configured port.
    pub closed spec fn spec_port(&self) -> u16 {
        self.port
    }

    /// The configured client owner id.
    pub closed spec fn spec_owner_id(&self) -> Seq<u8> {
        self.owner_id@
    }

    /// The configured open owner.
    pub closed spec fn spec_open_owner(&self) -> Seq<u8> {
        self.open_owner@
    }

    /// The configured client owner verifier.
    pub closed spec fn spec_client_owner_verifier(&self) -> Verifier {
        self.client_owner_verifier
    }

    /// The configured retry policy.
    pub closed spec fn spec_retry_policy(&self) -> RetryPolicy {
        self.retry_policy
    }

    /// Whether background lease renewal is requested.
    pub closed spec fn spec_automatic_lease_renewal(&self) -> bool {
        self.automatic_lease_renewal
    }

    /// The configured credentials.
    pub closed spec fn spec_auth(&self) -> AuthSys {
        self.auth
    }

    /// The configured timeout.
    pub closed spec fn spec_timeout(&self) -> Option<Duration> {
        self.timeout
    }

    /// The process id that owner ids are made with.
    pub closed spec fn spec_process_id(&self) -> u32 {
        self.process_id
    }

    /// The counter the next generated owner ids are made from.
    pub closed spec fn spec_id_counter(&self) -> u64 {
        self.id_counter
    }

    /// What `same_except` keeps: every setting other than `setting`.
    pub proof fn lemma_same_except(&self, other: &Self, setting: Setting)
        requires
            self.same_except(other, setting),
        ensures
            self.spec_host() == other.spec_host(),
            self.spec_process_id() == other.spec_process_id(),
            self.spec_id_counter() == other.spec_id_counter(),
            setting != Setting::Auth ==> self.spec_auth() == other.spec_auth(),
            setting != Setting::Timeout ==> self.spec_timeout() == other.spec_timeout(),
            setting != Setting::Port ==> self.spec_port() == other.spec_port(),
            setting != Setting::OwnerId ==> self.spec_owner_id() == other.spec_owner_id(),
            setting != Setting::OpenOwner ==> self.spec_open_owner() == other.spec_open_owner(),
            setting != Setting::ClientOwnerVerifier ==> self.spec_client_owner_verifier() == other.spec_client_owner_verifier(),
            setting != Setting::ReadSize && setting != Setting::IoSize ==> self.spec_read_size() == other.spec_read_size(),
            setting != Setting::WriteSize && setting != Setting::IoSize ==> self.spec_write_size() == other.spec_write_size(),
            setting != Setting::DirSize ==> self.spec_dir_size() == other.spec_dir_size(),
            setting != Setting::MaxDirEntries ==> self.spec_max_dir_entries() == other.spec_max_dir_entries(),
            setting != Setting::MaxMinorVersion ==> self.spec_max_minor_version() == other.spec_max_minor_version(),
            setting != Setting::RetryPolicy ==> self.spec_retry_policy() == other.spec_retry_policy(),
            setting != Setting::LeaseRenewal ==> self.spec_automatic_lease_renewal() == other.spec_automatic_lease_renewal(),
    {
    }

    /// What `same_settings` keeps: every setting, the credentials aside.
    pub proof fn lemma_same_settings(&self, other: ClientBuilder)
        requires
            self.same_settings(other),
        ensures
            self.spec_host() == other.spec_host(),
            self.spec_timeout() == other.spec_timeout(),
            self.spec_port() == other.spec_port(),
            self.spec_owner_id() == other.spec_owner_id(),
            self.spec_open_owner() == other.spec_open_owner(),
            self.spec_client_owner_verifier() == other.spec_client_owner_verifier(),
            self.spec_read_size() == other.spec_read_size(),
            self.spec_write_size() == other.spec_write_size(),
            self.spec_dir_size() == other.spec_dir_size(),
            self.spec_max_dir_entries() == other.spec_max_dir_entries(),
            self.spec_max_minor_version() == other.spec_max_minor_version(),
            self.spec_retry_policy() == other.spec_retry_policy(),
            self.spec_automatic_lease_renewal() == other.spec_automatic_lease_renewal(),
            self.spec_process_id() == other.spec_process_id(),
            self.spec_id_counter() == other.spec_id_counter(),
    {
    }

    /// Every setting other than `setting` is the same in both builders.
    pub closed spec fn same_except(&self, other: &Self, setting: Setting) -> bool {
        &&& self.host == other.host && self.process_id == other.process_id && self.id_counter == other.id_counter
        &&& (setting != Setting::Auth ==> self.auth == other.auth)
        &&& (setting != Setting::Timeout ==> self.timeout == other.timeout)
        &&& (setting != Setting::Port ==> self.port == other.port)
        &&& (setting != Setting::OwnerId ==> self.owner_id == other.owner_id)
        &&& (setting != Setting::OpenOwner ==> self.open_owner == other.open_owner)
        &&& (setting != Setting::ClientOwnerVerifier ==> self.client_owner_verifier == other.client_owner_verifier)
        &&& (setting != Setting::ReadSize && setting != Setting::IoSize ==> self.read_size == other.read_size)
        &&& (setting != Setting::WriteSize && setting != Setting::IoSize ==> self.write_size == other.write_size)
        &&& (setting != Setting::DirSize ==> self.dir_size == other.dir_size)
        &&& (setting != Setting::MaxDirEntries ==> self.max_dir_entries == other.max_dir_entries)
        &&& (setting != Setting::MaxMinorVersion ==> self.max_minor_version == other.max_minor_version)
        &&& (setting != Setting::RetryPolicy ==> self.retry_policy == other.retry_policy)
        &&& (setting != Setting::LeaseRenewal ==> self.automatic_lease_renewal == other.automatic_lease_renewal)
    }

    /// Whether the settings pass the checks made before any connection.
    pub open spec fn settings_valid(&self) -> bool {
        &&& !crate::v4::is_blank(self.spec_host())
        &&& self.spec_port() != 0
        &&& self.spec_owner_id().len() <= NFS4_OPAQUE_LIMIT
        &&& self.spec_open_owner().len() <= NFS4_OPAQUE_LIMIT
        &&& 1 <= self.spec_read_size() <= NFS4_MAX_IO
        &&& 1 <= self.spec_write_size() <= NFS4_MAX_IO
        &&& 1 <= self.spec_dir_size() <= NFS4_MAX_IO
        &&& self.spec_max_dir_entries() > 0
        &&& NFS4_MINOR_VERSION_SESSION_MIN <= self.spec_max_minor_version() <= NFS4_MINOR_VERSION_LATEST
    }

    /// Creates a builder for an NFSv4 server host, sending `auth`
    /// credentials. `process_id` and `id_counter` make the generated owner
    /// ids of this process distinct; the clock is read for the client owner
    /// verifier and the owner ids.
    pub fn new(host: &str, auth: AuthSys, process_id: u32, id_counter: u64) -> (b: Self)
        ensures
            b.spec_host() == host@,
            b.spec_auth() == auth,
            b.spec_port() == NFS4_PORT,
            b.spec_read_size() == DEFAULT_IO_SIZE,
            b.spec_write_size() == DEFAULT_IO_SIZE,
            b.spec_dir_size() == DEFAULT_DIR_SIZE,
            b.spec_max_dir_entries() == NFS4_MAX_DIR_ENTRIES,
            b.spec_max_minor_version() == NFS4_MINOR_VERSION_LATEST,
            b.spec_retry_policy() == RetryPolicy::spec_default(),
            !b.spec_automatic_lease_renewal(),
            b.spec_owner_id().len() <= NFS4_OPAQUE_LIMIT,
            b.spec_open_owner().len() <= NFS4_OPAQUE_LIMIT,
            b.spec_timeout() == Some(duration_of_secs(DEFAULT_TIMEOUT_SECS)),
            b.spec_process_id() == process_id,
            b.spec_id_counter() == vstd::wrapping::u64_specs::wrapping_add(id_counter, 2),
            exists|when: u128| {
                &&& b.spec_owner_id() == spec_opaque_id(kind_bytes(OwnerKind::Client), encode_utf8(host@), process_id, when, id_counter)
                &&& b.spec_open_owner() == spec_opaque_id(kind_bytes(OwnerKind::Open), encode_utf8(host@), process_id, when,
                    vstd::wrapping::u64_specs::wrapping_add(id_counter, 1))
            },
    {
        let (secs, nanos) = unix_clock();
        let when = clock_to_nanos(secs, nanos);
        let owner_id = default_owner_id(host, process_id, when, id_counter);
        let open_owner = default_open_owner(host, process_id, when, id_counter.wrapping_add(1));
        ClientBuilder {
            owner_id,
            open_owner,
            client_owner_verifier: verifier_from_clock(secs, nanos),
            host: host.to_owned(),
            auth,
            timeout: Some(Duration::from_secs(DEFAULT_TIMEOUT_SECS)),
            port: NFS4_PORT,
            read_size: DEFAULT_IO_SIZE,
            write_size: DEFAULT_IO_SIZE,
            dir_size: DEFAULT_DIR_SIZE,
            max_dir_entries: NFS4_MAX_DIR_ENTRIES,
            max_minor_version: NFS4_MINOR_VERSION_LATEST,
            retry_policy: RetryPolicy::default(),
            automatic_lease_renewal: false,
            process_id,
            id_counter: id_counter.wrapping_add(2),
        }
    }

    /// Sets AUTH_SYS credentials for RPC calls.
    pub fn auth_sys(self, auth: AuthSys) -> (b: Self)
        ensures
            b.spec_auth() == auth,
            b.same_except(&self, Setting::Auth),
    {
        ClientBuilder { auth, ..self }
    }

    /// Sets socket connect/read/write timeout. `None` disables socket timeouts.
    pub fn timeout(self, timeout: Option<Duration>) -> (b: Self)
        ensures
            b.spec_timeout() == timeout,
            b.same_except(&self, Setting::Timeout),
    {
        ClientBuilder { timeout, ..self }
    }

    /// Sets the NFSv4 TCP port.
    pub fn port(self, port: u16) -> (b: Self)
        ensures
            b.spec_port() == port,
            b.same_except(&self, Setting::Port),
    {
        ClientBuilder { port, ..self }
    }

    /// Sets the client owner id used during `EXCHANGE_ID`.
    pub fn owner_id(self, owner_id: Vec<u8>) -> (b: Self)
        ensures
            b.spec_owner_id() == owner_id@,
            b.same_except(&self, Setting::OwnerId),
    {
        ClientBuilder { owner_id, ..self }
    }

    /// Sets the open owner id used for `OPEN` sequencing.
    pub fn open_owner(self, open_owner: Vec<u8>) -> (b: Self)
        ensures
            b.spec_open_owner() == open_owner@,
            b.same_except(&self, Setting::OpenOwner),
    {
        ClientBuilder { open_owner, ..self }
    }

    /// Sets the client owner verifier used during `EXCHANGE_ID`.
    pub fn client_owner_verifier(self, verifier: Verifier) -> (b: Self)
        ensures
            b.spec_client_owner_verifier() == verifier,
            b.same_except(&self, Setting::ClientOwnerVerifier),
    {
        ClientBuilder { client_owner_verifier: verifier, ..self }
    }

    /// Sets both read and write transfer limits.
    pub fn io_size(self, size: u32) -> (b: Self)
        ensures
            b.spec_read_size() == size && b.spec_write_size() == size,
            b.same_except(&self, Setting::IoSize),
    {
        ClientBuilder { read_size: size, write_size: size, ..self }
    }

    /// Sets the read transfer limit.
    pub fn read_size(self, size: u32) -> (b: Self)
        ensures
            b.spec_read_size() == size,
            b.same_except(&self, Setting::ReadSize),
    {
        ClientBuilder { read_size: size, ..self }
    }

    /// Sets the write transfer limit.
    pub fn write_size(self, size: u32) -> (b: Self)
        ensures
            b.spec_write_size() == size,
            b.same_except(&self, Setting::WriteSize),
    {
        ClientBuilder { write_size: size, ..self }
    }

    /// Sets the maximum READDIR response size requested.
    pub fn dir_size(self, size: u32) -> (b: Self)
        ensures
            b.spec_dir_size() == size,
            b.same_except(&self, Setting::DirSize),
    {
        ClientBuilder { dir_size: size, ..self }
    }

    /// Sets the maximum number of directory entries a single high-level call may collect.
    pub fn max_dir_entries(self, max_dir_entries: usize) -> (b: Self)
        ensures
            b.spec_max_dir_entries() == max_dir_entries,
            b.same_except(&self, Setting::MaxDirEntries),
    {
        ClientBuilder { max_dir_entries, ..self }
    }

    /// Sets the highest NFSv4 minor version the client may negotiate.
    ///
    /// The session client supports NFSv4.1 and NFSv4.2. By default it tries
    /// NFSv4.2 first and falls back to NFSv4.1 when the server rejects the
    /// newer minor version.
    pub fn max_minor_version(self, minor_version: u32) -> (b: Self)
        ensures
            b.spec_max_minor_version() == minor_version,
            b.same_except(&self, Setting::MaxMinorVersion),
    {
        ClientBuilder { max_minor_version: minor_version, ..self }
    }

    /// Enables lease renewal on a separate session for the same client.
    ///
    /// Disabled by default. The server must support another session, and
    /// expose its lease time. A failed heartbeat triggers recovery on the
    /// next client operation; it cannot guarantee lock recovery after the
    /// grace period ends.
    pub fn automatic_lease_renewal(self, enabled: bool) -> (b: Self)
        ensures
            b.spec_automatic_lease_renewal() == enabled,
            b.same_except(&self, Setting::LeaseRenewal),
    {
        ClientBuilder { automatic_lease_renewal: enabled, ..self }
    }

    /// Sets retry behavior for retryable transport and protocol responses.
    pub fn retry_policy(self, retry_policy: RetryPolicy) -> (b: Self)
        ensures
            b.spec_retry_policy() == retry_policy,
            b.same_except(&self, Setting::RetryPolicy),
    {
        ClientBuilder { retry_policy, ..self }
    }

    /// Checks the settings that need no connection: a blank host is an
    /// invalid target, any other bad setting a protocol error.
    pub fn validate(&self) -> (r: Result<()>)
        ensures
            r is Ok <==> self.settings_valid(),
            crate::v4::is_blank(self.spec_host()) ==> (r matches Err(e) && e is InvalidTarget),
            !crate::v4::is_blank(self.spec_host()) && !self.settings_valid() ==> (r matches Err(e) && e is Protocol),
    {
        if let Err(e) = validate_host(self.host.as_str()) {
            return Err(e);
        }
        if let Err(e) = validate_port("port", self.port) {
            return Err(e);
        }
        if let Err(e) = validate_owner_id(self.owner_id.as_slice()) {
            return Err(e);
        }
        if let Err(e) = validate_open_owner(self.open_owner.as_slice()) {
            return Err(e);
        }
        if let Err(e) = validate_transfer_size("read_size", self.read_size) {
            return Err(e);
        }
        if let Err(e) = validate_transfer_size("write_size", self.write_size) {
            return Err(e);
        }
        if let Err(e) = validate_transfer_size("dir_size", self.dir_size) {
            return Err(e);
        }
        if let Err(e) = validate_max_dir_entries(self.max_dir_entries) {
            return Err(e);
        }
        validate_minor_version("max_minor_version", self.max_minor_version)
    }

    /// Connects through `transport`, creates an NFSv4 session, and returns a
    /// ready client. Settings that fail their checks are refused before
    /// any connection is opened.
    pub fn connect<T: Transport>(self, transport: &mut T) -> (r: Result<Client<T>>)
        ensures
            crate::v4::is_blank(self.spec_host()) ==> (r matches Err(e) && e is InvalidTarget),
            !crate::v4::is_blank(self.spec_host()) && !self.settings_valid() ==> (r matches Err(e) && e is Protocol),
            !self.settings_valid() ==> *final(transport) == *old(transport),
            r matches Ok(c) ==> c.spec_locks().ids().len() == 0 && c.spec_root_fsinfo() is Some,
    {
        Client::connect_with_builder(self, transport)
    }
}


/// Whether a request only releases state, so that it may run while a lock
/// is known to be lost.
pub open spec fn spec_operations_release_state(operations: Seq<Operation>) -> bool {
    operations.len() > 0 && forall|i: int| 0 <= i < operations.len() ==> spec_operation_releases_state(&#[trigger] operations[i])
}

/// Whether every operation of a request may be sent again on a new session.
pub open spec fn spec_operations_can_replay(operations: Seq<Operation>) -> bool {
    forall|i: int| 0 <= i < operations.len() ==> spec_operation_can_replay_after_session_recovery(&#[trigger] operations[i])
}

/// The operation codes of a list of operations, in order.
pub open spec fn op_codes(operations: Seq<Operation>) -> Seq<OpCode> {
    operations.map_values(|o: Operation| o.spec_op_code())
}

/// The operation codes of a COMPOUND: SEQUENCE first when the call runs in
/// a session, then the operations.
pub open spec fn compound_codes(in_session: bool, operations: Seq<Operation>) -> Seq<OpCode> {
    if in_session { seq![OpCode::Sequence] + op_codes(operations) } else { op_codes(operations) }
}

fn compound_operation_codes(sequence: &Option<SequenceArgs>, operations: &[Operation]) -> (codes: Vec<OpCode>)
    ensures
        codes@ == compound_codes(sequence is Some, operations@),
{
    let mut codes: Vec<OpCode> = Vec::new();
    if sequence.is_some() {
        codes.push(OpCode::Sequence);
    }
    let ghost start = codes@;
    let mut i: usize = 0;
    while i < operations.len()
        invariant
            i <= operations@.len(),
            codes@ == start + op_codes(operations@.take(i as int)),
        decreases operations@.len() - i,
    {
        codes.push(operations[i].op_code());
        assert(op_codes(operations@.take(i + 1)) =~= op_codes(operations@.take(i as int)).push(operations@[i as int].spec_op_code()));
        assert(codes@ =~= start + op_codes(operations@.take(i + 1)));
        i = i + 1;
    }
    assert(operations@.take(operations@.len() as int) =~= operations@);
    assert(codes@ =~= compound_codes(sequence is Some, operations@));
    codes
}

/// The number of operations a COMPOUND carries: the given ones, after a
/// SEQUENCE when there is one.
pub open spec fn compound_op_count(with_sequence: bool, operations: Seq<Operation>) -> int {
    operations.len() + if with_sequence { 1int } else { 0int }
}

/// The XDR arguments of a COMPOUND: the tag, the minor version, the number
/// of operations, then each operation, after a SEQUENCE when one is given.
pub open spec fn compound_bytes(tag: Seq<char>, minor_version: u32, sequence: Option<SequenceArgs>, operations: Seq<Operation>) -> Seq<u8> {
    var_opaque(encode_utf8(tag)) + be_u32(minor_version)
        + be_u32(compound_op_count(sequence is Some, operations) as u32)
        + (match sequence {
            Some(args) => Operation::Sequence(args).xdr_bytes(),
            None => Seq::empty(),
        })
        + items_bytes(operations)
}

/// Encodes the arguments of a COMPOUND: the tag, the minor version, then
/// the operations, after a SEQUENCE when one is given.
///
/// Fails when there are more operations than the protocol allows, when the
/// tag is too long, or when an operation cannot be encoded.
fn encode_compound(tag: &str, minor_version: u32, sequence: Option<SequenceArgs>, operations: &[Operation]) -> (r: Result<Vec<u8>>)
    ensures
        r is Ok <==> (compound_op_count(sequence is Some, operations@) <= NFS4_MAX_OPS
            && encode_utf8(tag@).len() <= NFS4_OPAQUE_LIMIT && items_encodable(operations@)),
        r matches Ok(b) ==> b@ == compound_bytes(tag@, minor_version, sequence, operations@),
        compound_op_count(sequence is Some, operations@) > NFS4_MAX_OPS ==> r matches Err(Error::Protocol(_)),
        r matches Err(e) ==> e is Protocol || e is Xdr,
{
    if operations.len() > NFS4_MAX_OPS || (sequence.is_some() && operations.len() == NFS4_MAX_OPS) {
        return Err(protocol("NFSv4 COMPOUND has more operations than the protocol allows"));
    }
    let count: u64 = if sequence.is_some() { operations.len() as u64 + 1 } else { operations.len() as u64 };
    let mut encoder = Encoder::new();
    if let Err(_) = encoder.write_string(tag, NFS4_OPAQUE_LIMIT) {
        return Err(protocol("NFSv4 COMPOUND tag is too long"));
    }
    encoder.write_u32(minor_version);
    encoder.write_u32(count as u32);
    if let Some(args) = sequence {
        if let Err(_) = Operation::Sequence(args).encode(&mut encoder) {
            return Err(protocol("failed to encode NFSv4 SEQUENCE"));
        }
    }
    let ghost start = encoder@;
    proof {
        assert(start =~= var_opaque(encode_utf8(tag@)) + be_u32(minor_version)
            + be_u32(compound_op_count(sequence is Some, operations@) as u32)
            + (match sequence {
                Some(args) => Operation::Sequence(args).xdr_bytes(),
                None => Seq::empty(),
            }));
    }
    let mut i: usize = 0;
    while i < operations.len()
        invariant
            i <= operations@.len(),
            encoder@ == start + items_bytes(operations@.take(i as int)),
            items_encodable(operations@.take(i as int)),
            compound_op_count(sequence is Some, operations@) <= NFS4_MAX_OPS,
        decreases operations@.len() - i,
    {
        if let Err(e) = operations[i].encode(&mut encoder) {
            proof {
                assert(!items_encodable(operations@)) by {
                    assert(!operations@[i as int].xdr_encodable());
                }
            }
            return Err(crate::error::xdr_error(e));
        }
        proof {
            lemma_items_bytes_push(operations@.take(i as int), operations@[i as int]);
            assert(operations@.take(i as int).push(operations@[i as int]) =~= operations@.take(i + 1));
            assert(items_encodable(operations@.take(i + 1))) by {
                assert forall|j: int| 0 <= j < i + 1 implies #[trigger] operations@.take(i + 1)[j].xdr_encodable() by {
                    if j < i {
                        assert(operations@.take(i + 1)[j] == operations@.take(i as int)[j]);
                    }
                }
            }
        }
        i = i + 1;
    }
    proof {
        assert(operations@.take(operations@.len() as int) =~= operations@);
        assert(encoder@ =~= compound_bytes(tag@, minor_version, sequence, operations@));
    }
    Ok(encoder.into_bytes())
}

/// One COMPOUND handed to the transport: the bytes passed to
/// [`Transport::call`], the tag, minor version, SEQUENCE arguments and
/// operations they encode; when a reply came back and decoded in full, the reply's
/// bytes and the decoded reply; and whether the transport reported the
/// request sent and its reply lost.
pub type WireCall = (Seq<u8>, Seq<char>, u32, Option<SequenceArgs>, Seq<Operation>, Option<(Seq<u8>, CompoundResponse)>, bool);

/// `call` carried the COMPOUND `tag`, `minor_version`, `sequence`, `operations`:
/// its bytes are that COMPOUND's XDR encoding.
pub open spec fn call_of(call: WireCall, tag: Seq<char>, minor_version: u32, sequence: Option<SequenceArgs>, operations: Seq<Operation>) -> bool {
    &&& call.0 == compound_bytes(tag, minor_version, sequence, operations)
    &&& call.1 == tag && call.2 == minor_version && call.3 == sequence && call.4 == operations
}

/// `call` got back `reply`: the reply bytes decode to it.
pub open spec fn call_answered(call: WireCall, reply: CompoundResponse) -> bool {
    call.5 matches Some(answer) && answer.1 == reply && compound_response_read(answer.0, 0, reply)
}

/// The reply to `call` came back, decoded in full and matched the
/// operations sent.
pub open spec fn call_returned(call: WireCall) -> bool {
    call.5 matches Some(answer) && spec_compound_shape_ok(call.1, compound_codes(call.3 is Some, call.4), answer.1)
}

/// The COMPOUND can be encoded: few enough operations, a short enough tag,
/// and every operation encodable.
pub open spec fn compound_encodable(tag: Seq<char>, with_sequence: bool, operations: Seq<Operation>) -> bool {
    compound_op_count(with_sequence, operations) <= NFS4_MAX_OPS && encode_utf8(tag).len() <= NFS4_OPAQUE_LIMIT
        && items_encodable(operations)
}

/// `after` is `before` with the calls `added` appended.
pub open spec fn wire_grew(before: Seq<WireCall>, after: Seq<WireCall>) -> bool {
    before.len() <= after.len() && forall|i: int| 0 <= i < before.len() ==> #[trigger] after[i] == before[i]
}

/// A short ASCII tag fits the COMPOUND tag limit.
proof fn lemma_ascii_tag_fits(tag: Seq<char>)
    requires
        vstd::utf8::is_ascii_chars(tag),
        tag.len() <= NFS4_OPAQUE_LIMIT,
    ensures
        encode_utf8(tag).len() <= NFS4_OPAQUE_LIMIT,
{
    vstd::utf8::is_ascii_chars_encode_utf8(tag);
}

/// Sends one COMPOUND over `rpc` and checks its reply: it must decode in
/// full, echo the tag, and hold results that match the operations sent, in
/// order. `wire` records the call: it is made exactly when the COMPOUND can
/// be encoded, and its bytes are the COMPOUND's encoding.
fn raw_compound_with_rpc<T: Transport>(
    rpc: &mut T,
    wire: &mut Ghost<Seq<WireCall>>,
    tag: &str,
    minor_version: u32,
    sequence: Option<SequenceArgs>,
    operations: &[Operation],
) -> (r: Result<CompoundResponse>)
    ensures
        r matches Ok(response) ==> spec_compound_shape_ok(tag@, compound_codes(sequence is Some, operations@), response),
        compound_encodable(tag@, sequence is Some, operations@) ==> (final(wire)@.len() == old(wire)@.len() + 1
            && final(wire)@.drop_last() == old(wire)@
            && call_of(final(wire)@.last(), tag@, minor_version, sequence, operations@)),
        !compound_encodable(tag@, sequence is Some, operations@) ==> final(wire)@ == old(wire)@
            && (r matches Err(e) && (e is Protocol || e is Xdr)),
        r matches Ok(response) ==> call_answered(final(wire)@.last(), response),
        wire_grew(old(wire)@, final(wire)@),
        r is Ok ==> final(wire)@.len() == old(wire)@.len() + 1,
        final(wire)@.len() > old(wire)@.len() && final(wire)@.last().6 ==> (r matches Err(e) && e is OutcomeUnknown),
        r is Ok ==> call_returned(final(wire)@.last()),
        r is Err && final(wire)@.len() > old(wire)@.len() ==> !call_returned(final(wire)@.last()),
{
    let ghost seq = sequence;
    let expected = compound_operation_codes(&sequence, operations);
    let args = encode_compound(tag, minor_version, sequence, operations)?;
    let ghost bytes = args@;
    let call = rpc.call(args);
    let payload = match call {
        Ok(payload) => payload,
        Err(failure) => {
            let ghost lost = failure is ReplyLost;
            *wire = Ghost(wire@.push((bytes, tag@, minor_version, seq, operations@, None, lost)));
            proof {
                assert(wire@.drop_last() =~= old(wire)@);
            }
            return Err(call_failure_error(failure));
        },
    };
    let mut decoder = Decoder::new(payload.as_slice());
    let response = match CompoundResponse::decode(&mut decoder) {
        Ok(response) => response,
        Err(_) => {
            *wire = Ghost(wire@.push((bytes, tag@, minor_version, seq, operations@, None, false)));
            proof {
                assert(wire@.drop_last() =~= old(wire)@);
            }
            return Err(protocol("failed to decode NFSv4 COMPOUND response"));
        },
    };
    if let Err(_) = decoder.finish() {
        *wire = Ghost(wire@.push((bytes, tag@, minor_version, seq, operations@, None, false)));
        proof {
            assert(wire@.drop_last() =~= old(wire)@);
        }
        return Err(protocol("NFSv4 COMPOUND response has bytes after its last result"));
    }
    *wire = Ghost(wire@.push((bytes, tag@, minor_version, seq, operations@, Some((payload@, response)), false)));
    proof {
        assert(wire@.drop_last() =~= old(wire)@);
    }
    validate_compound_response_shape(tag, expected.as_slice(), &response)?;
    Ok(response)
}

/// Sends a COMPOUND without SEQUENCE, retrying while the reply only asks
/// the client to try again later and the retry policy allows it.
fn raw_compound_with_delayed_retry<T: Transport>(
    rpc: &mut T,
    wire: &mut Ghost<Seq<WireCall>>,
    tag: &str,
    minor_version: u32,
    operations: &[Operation],
    retry_policy: RetryPolicy,
) -> (r: Result<CompoundResponse>)
    ensures
        r matches Ok(response) ==> spec_compound_shape_ok(tag@, op_codes(operations@), response),
        wire_grew(old(wire)@, final(wire)@),
        r matches Ok(response) ==> final(wire)@.len() > old(wire)@.len()
            && call_of(final(wire)@.last(), tag@, minor_version, None, operations@)
            && call_answered(final(wire)@.last(), response),
{
    let mut retry: u32 = 0;
    loop
        invariant
            retry <= retry_policy.max_retries,
            wire_grew(old(wire)@, wire@),
        decreases retry_policy.max_retries - retry,
    {
        let ghost before = wire@;
        let response = raw_compound_with_rpc(rpc, wire, tag, minor_version, None, operations)?;
        proof {
            lemma_wire_push(old(wire)@, before, wire@);
        }
        if response_allows_delayed_retry_without_sequence(operations, &response) {
            if let Some(delay) = retry_policy.delay_for_retry(retry) {
                retry = retry + 1;
                rpc.pause(delay);
                continue;
            }
        }
        return Ok(response);
    }
}



/// Sends `RECLAIM_COMPLETE` in a new session, retrying while the reply asks
/// the client to try again later.
fn reclaim_complete_with_delayed_retry<T: Transport>(
    rpc: &mut T,
    wire: &mut Ghost<Seq<WireCall>>,
    minor_version: u32,
    session_id: SessionId,
    sequence_id: &mut u32,
    max_operations: usize,
    retry_policy: RetryPolicy,
) -> (r: Result<CompoundResponse>)
    ensures
        max_operations < 2 ==> r is Err,
        wire_grew(old(wire)@, final(wire)@),
        r matches Ok(response) ==> final(wire)@.len() > old(wire)@.len()
            && final(wire)@.last().4 == seq![Operation::ReclaimComplete { one_fs: false }]
            && (final(wire)@.last().3 matches Some(a) && a.session_id == session_id)
            && call_answered(final(wire)@.last(), response),
{
    let operations = vec![Operation::ReclaimComplete { one_fs: false }];
    validate_session_compound_operation_count(operations.len(), max_operations)?;
    let mut retry: u32 = 0;
    loop
        invariant
            retry <= retry_policy.max_retries,
            max_operations >= 2,
            wire_grew(old(wire)@, wire@),
            operations@ == seq![Operation::ReclaimComplete { one_fs: false }],
        decreases retry_policy.max_retries - retry,
    {
        let sequence = SequenceArgs {
            session_id,
            sequence_id: *sequence_id,
            slot_id: 0,
            highest_slot_id: 0,
            cache_this: false,
        };
        let ghost before = wire@;
        let response = raw_compound_with_rpc(rpc, wire, "reclaim-complete", minor_version, Some(sequence), operations.as_slice())?;
        proof {
            lemma_wire_push(old(wire)@, before, wire@);
        }
        if sequence_succeeded(&response) {
            *sequence_id = next_sequence_id(*sequence_id);
        }
        if response_allows_delayed_retry(operations.as_slice(), &response) {
            if let Some(delay) = retry_policy.delay_for_retry(retry) {
                retry = retry + 1;
                rpc.pause(delay);
                continue;
            }
        }
        return Ok(response);
    }
}

/// The slot sequence id after a successful SEQUENCE: one more, wrapping
/// past zero to one.
pub open spec fn spec_next_sequence_id(id: u32) -> u32 {
    if id == u32::MAX { 1 } else { (id + 1) as u32 }
}

/// Advances a slot sequence id or an owner seqid.
pub fn next_sequence_id(id: u32) -> (r: u32)
    ensures
        r == spec_next_sequence_id(id),
        r >= 1,
{
    let n = id.wrapping_add(1);
    if n < 1 { 1 } else { n }
}

/// The session a CREATE_SESSION call created: its reply succeeded, matched
/// the operations sent, and its result describes the session.
pub open spec fn granted_session(call: WireCall) -> Option<CreateSessionResult> {
    match call.5 {
        Some(answer) => if call.1 == "create-session"@ && answer.1.status == Status::NfsOk
            && spec_compound_shape_ok(call.1, op_codes(call.4), answer.1) && answer.1.results@.len() > 0 {
            match answer.1.results@[0] {
                OperationResult::CreateSession { status: Status::NfsOk, result: Some(cs) } => Some(cs),
                _ => None,
            }
        } else {
            None
        },
        None => None,
    }
}

/// `call` completed reclaim in session `session_id`: a RECLAIM_COMPLETE
/// after a SEQUENCE in that session, answered with a reply that ends the
/// grace period for the client.
pub open spec fn reclaim_completed(call: WireCall, session_id: SessionId) -> bool {
    &&& call.4 == seq![Operation::ReclaimComplete { one_fs: false }]
    &&& call.3 matches Some(a) && a.session_id == session_id
    &&& call.5 matches Some(answer) && reclaim_complete_accepted(answer.1)
}

/// `wire` ends with a DESTROY_SESSION of `session_id` added after `before`.
pub open spec fn destroyed_session(before: Seq<WireCall>, wire: Seq<WireCall>, minor_version: u32, session_id: SessionId) -> bool {
    &&& wire.len() == before.len() + 1
    &&& wire.drop_last() == before
    &&& call_of(wire.last(), "destroy-session"@, minor_version, None, seq![Operation::DestroySession(session_id)])
}

fn destroy_session_with_rpc<T: Transport>(rpc: &mut T, wire: &mut Ghost<Seq<WireCall>>, minor_version: u32, session_id: SessionId) -> (r: Result<()>)
    ensures
        destroyed_session(old(wire)@, final(wire)@, minor_version, session_id),
{
    let operations = vec![Operation::DestroySession(session_id)];
    proof {
        reveal_strlit("destroy-session");
        assert(vstd::utf8::is_ascii_chars("destroy-session"@));
        lemma_ascii_tag_fits("destroy-session"@);
        assert(operations@[0].xdr_encodable());
        assert(items_encodable(operations@));
        assert(compound_encodable("destroy-session"@, false, operations@));
        assert(operations@ =~= seq![Operation::DestroySession(session_id)]);
    }
    let response = raw_compound_with_rpc(rpc, wire, "destroy-session", minor_version, None, operations.as_slice())?;
    response.ensure_ok()
}

fn cleanup_session_setup_error<T: Transport>(rpc: &mut T, wire: &mut Ghost<Seq<WireCall>>, minor_version: u32, session_id: SessionId, error: Error) -> (e: Error)
    ensures
        destroyed_session(old(wire)@, final(wire)@, minor_version, session_id),
{
    let cleanup = destroy_session_with_rpc(rpc, wire, minor_version, session_id);
    cleanup_error(error, "cleanup DESTROY_SESSION after failed NFSv4 session setup", cleanup)
}

/// A log that grew from one that grew from `start` grew from `start`.
proof fn lemma_wire_push(start: Seq<WireCall>, before: Seq<WireCall>, after: Seq<WireCall>)
    requires
        wire_grew(start, before),
        wire_grew(before, after),
    ensures
        wire_grew(start, after),
{
}

/// A READ exchange: the operations sent, the reply, the offset read and the
/// data obtained.
pub type ReadStep = (Seq<Operation>, CompoundResponse, u64, Seq<u8>);

/// One READ exchange of a whole-file read: a COMPOUND that put the file's
/// handle and read with the open state id at `offset`, and the data its
/// reply's READ result gave.
pub open spec fn read_step(step: ReadStep, handle: Seq<u8>, stateid: StateId) -> bool {
    &&& step.0.len() == 2
    &&& step.0[0] matches Operation::PutFh(h) && h.bytes() == handle
    &&& step.0[1] matches Operation::Read { stateid: s, offset: o, count: c } && s == stateid && o == step.2
        && read_reply_gave(step.1, c, step.3)
}

/// `reply`'s READ result, for a READ of `count` bytes, gave `data`.
pub open spec fn read_reply_gave(reply: CompoundResponse, count: u32, data: Seq<u8>) -> bool {
    exists|eof: bool, v: Vec<u8>| v@ == data && #[trigger] response_read_outcome(reply, count, Ok((eof, v)))
}

/// The data of READ exchanges, one after another.
pub open spec fn chunks_data(steps: Seq<ReadStep>) -> Seq<u8>
    decreases steps.len(),
{
    if steps.len() == 0 {
        Seq::empty()
    } else {
        chunks_data(steps.drop_last()) + steps.last().3
    }
}

/// READ exchanges that read a file from its start: each reads where the
/// data before it ends.
pub open spec fn read_chunks(steps: Seq<ReadStep>, handle: Seq<u8>, stateid: StateId) -> bool {
    forall|k: int| 0 <= k < steps.len() ==> #[trigger] read_step(steps[k], handle, stateid)
        && steps[k].2 == chunks_data(steps.take(k)).len()
}

/// READ exchanges that read a file from `offset` on: each reads where the
/// data before it ends.
pub open spec fn read_chunks_from(steps: Seq<ReadStep>, handle: Seq<u8>, stateid: StateId, offset: int) -> bool {
    forall|k: int| 0 <= k < steps.len() ==> #[trigger] read_step(steps[k], handle, stateid)
        && steps[k].2 == offset + chunks_data(steps.take(k)).len()
}

/// `data` is what READs of the file with handle `handle` under `stateid`
/// gave, one after another, from `offset` on.
pub open spec fn read_back(data: Seq<u8>, handle: Seq<u8>, stateid: StateId, offset: int) -> bool {
    exists|steps: Seq<ReadStep>| #[trigger] read_chunks_from(steps, handle, stateid, offset) && data == chunks_data(steps)
}

/// A lock record that session recovery kept: the same file, range, type and
/// owners; if it is not lost, the session's client now holds it, and it was
/// not lost before either.
pub open spec fn lock_kept(before: LockState, after: LockState, client_id: u64) -> bool {
    &&& after.handle.bytes() == before.handle.bytes()
    &&& after.offset == before.offset && after.length == before.length
    &&& after.lock_type == before.lock_type
    &&& after.owner@ == before.owner@ && after.open_owner@ == before.open_owner@
    &&& after.lost is None ==> before.lost is None && after.client_id == client_id
}

/// A lock that session recovery kept and that is held, by `client_id`.
pub open spec fn lock_recovered(before: LockState, after: LockState, client_id: u64) -> bool {
    lock_kept(before, after, client_id) && after.lost is None
}

/// After a revocation check, lock record `after` differs from `before` at
/// most in being marked lost, only with a failing status, and a lock that
/// was already lost keeps its status.
pub open spec fn revocation_checked(before: LockState, after: LockState) -> bool {
    &&& same_lock_except_lost(after, before)
    &&& before.lost is Some ==> after.lost == before.lost
    &&& after.lost matches Some(s) ==> before.lost is Some || s != Status::NfsOk
}

/// After a COMPOUND whose reply carries no revoked-state flag, the client is
/// still in the session the last SEQUENCE named, and its slot sequence id is
/// the one sent, advanced when the SEQUENCE succeeded.
pub open spec fn compound_sequence_kept(sent: SequenceArgs, reply: CompoundResponse, session_id: SessionId, sequence_id: u32) -> bool {
    spec_revoked_lock_status(reply.results@) is None ==> {
        &&& sent.session_id == session_id
        &&& sequence_id == (if spec_sequence_succeeded(reply.results@) {
            spec_next_sequence_id(sent.sequence_id)
        } else {
            sent.sequence_id
        })
    }
}

/// A locker for a reclaimed lock: a new lock owner for `lock`'s owner, on
/// `n`'s open state id, starting at lock seqid 1.
pub open spec fn reclaim_locker(locker: Locker, lock: LockState, n: LockState) -> bool {
    match locker {
        Locker::New { open_stateid, lock_seqid, lock_owner, .. } => open_stateid == n.open_stateid && lock_seqid == 1
            && lock_owner.owner@ == lock.owner@,
        Locker::Existing { .. } => false,
    }
}

/// `open_call` reclaimed the OPEN of `lock` (CLAIM_PREVIOUS, no create, the
/// lock's open owner) and got the open state id `n` holds; `lock_call` then
/// reclaimed the lock (reclaim set, same type and range, a new lock owner
/// for the lock's owner on that open state id) and got `n`'s lock state id.
pub open spec fn reclaim_sent(open_call: WireCall, lock_call: WireCall, lock: LockState, n: LockState) -> bool {
    &&& open_call.4.len() == 2
    &&& open_call.4[0] matches Operation::PutFh(h) && h.bytes() == lock.handle.bytes()
    &&& open_call.4[1] matches Operation::Open(a) && a.claim == OpenClaim::Previous(OpenDelegationType::NoDelegation)
        && a.openhow == OpenHow::NoCreate && a.owner.owner@ == lock.open_owner@ && a.owner.client_id == n.client_id
    &&& open_call.5 matches Some(answer)
        && exists|x: OpenResult| #[trigger] response_open_outcome(answer.1, Ok(x)) && x.stateid == n.open_stateid
    &&& lock_call.4.len() == 2
    &&& lock_call.4[0] matches Operation::PutFh(h) && h.bytes() == lock.handle.bytes()
    &&& lock_call.4[1] matches Operation::Lock(la) && la.reclaim && la.lock_type == lock.lock_type
        && la.offset == lock.offset && la.length == lock.length && reclaim_locker(la.locker, lock, n)
    &&& lock_call.5 matches Some(answer) && response_lock_outcome(answer.1, Ok(n.lock_stateid))
}

/// Between calls `start` and `end` of `wire`, `before` was reclaimed as
/// `after`: an OPEN reclaim and then a LOCK reclaim, in that order.
pub open spec fn reclaimed_before(wire: Seq<WireCall>, start: int, end: int, before: LockState, after: LockState) -> bool {
    exists|a: int, b: int| start <= a < b < end && #[trigger] reclaim_sent(wire[a], wire[b], before, after)
}

/// A reclaim stays in a log that grew, and before any later end.
proof fn lemma_reclaimed_before_grow(wire: Seq<WireCall>, longer: Seq<WireCall>, start: int, end: int, earlier: int, later: int,
    before: LockState, after: LockState)
    requires
        reclaimed_before(wire, start, end, before, after),
        wire_grew(wire, longer),
        0 <= start,
        end <= wire.len(),
        earlier <= start,
        end <= later,
    ensures
        reclaimed_before(longer, earlier, later, before, after),
{
    let (a, b) = choose|a: int, b: int| start <= a < b < end && #[trigger] reclaim_sent(wire[a], wire[b], before, after);
    assert(longer[a] == wire[a] && longer[b] == wire[b]);
    assert(reclaim_sent(longer[a], longer[b], before, after));
}

/// A reclaim of one lock record is a reclaim of any record equal to it.
proof fn lemma_reclaimed_same_lock(wire: Seq<WireCall>, start: int, end: int, lock: LockState, same: LockState, after: LockState)
    requires
        reclaimed_before(wire, start, end, lock, after),
        same_lock_state(lock, same),
    ensures
        reclaimed_before(wire, start, end, same, after),
{
    let (a, b) = choose|a: int, b: int| start <= a < b < end && #[trigger] reclaim_sent(wire[a], wire[b], lock, after);
    assert(reclaim_sent(wire[a], wire[b], same, after));
}

/// The state id at position `k` of the TEST_STATEID a revocation check
/// sends for `lock`: its open state id, then its lock state id.
pub open spec fn tested_stateid(lock: LockState, k: int) -> StateId {
    if k == 0 { lock.open_stateid } else { lock.lock_stateid }
}

/// The status a revocation check records for a lock whose TEST_STATEID
/// gave `statuses`: the last failing one, if any.
pub open spec fn last_failing_status(statuses: Seq<Status>) -> Option<Status>
    decreases statuses.len(),
{
    if statuses.len() == 0 {
        None
    } else if statuses.last() != Status::NfsOk {
        Some(statuses.last())
    } else {
        last_failing_status(statuses.drop_last())
    }
}

/// The statuses a revocation check acts on: those given for the two state
/// ids it asked about.
pub open spec fn tested_statuses(statuses: Seq<Status>) -> Seq<Status> {
    if statuses.len() < 2 { statuses } else { statuses.take(2) }
}

/// `call` tested the open and lock state ids of `lock`, and its reply
/// succeeded and gave `statuses`.
pub open spec fn stateids_tested(call: WireCall, lock: LockState, statuses: Vec<Status>) -> bool {
    &&& call.4.len() == 1
    &&& call.4[0] matches Operation::TestStateIds(ids) && ids@ == seq![lock.open_stateid, lock.lock_stateid]
    &&& call.5 matches Some(answer) && answer.1.status == Status::NfsOk
        && response_test_stateids_outcome(answer.1, 2, Ok(statuses))
}

/// `call` freed `stateid`.
pub open spec fn stateid_freed(call: WireCall, stateid: StateId) -> bool {
    call.4 == seq![Operation::FreeStateId(stateid)]
}

/// A revocation check of lock record `before`, made among the calls of
/// `wire` after `start`, left it as `after`: a lost lock as it was; any
/// other was tested, is marked lost with the last failing status of the
/// answer, if any, and each failing state id was then freed.
pub open spec fn revocation_tested(wire: Seq<WireCall>, start: int, before: LockState, after: LockState) -> bool {
    &&& before.lost is Some ==> same_lock_state(after, before)
    &&& before.lost is None ==> exists|i: int, statuses: Vec<Status>| start <= i < wire.len()
        && #[trigger] stateids_tested(wire[i], before, statuses)
        && same_lock_except_lost(after, before)
        && after.lost == last_failing_status(tested_statuses(statuses@))
        && forall|k: int| 0 <= k < tested_statuses(statuses@).len() && statuses@[k] != Status::NfsOk
            ==> exists|j: int| i < j < wire.len() && #[trigger] stateid_freed(wire[j], tested_stateid(before, k))
}

/// A revocation check stays recorded when the log grows.
proof fn lemma_revocation_tested_grow(wire: Seq<WireCall>, longer: Seq<WireCall>, start: int, before: LockState, after: LockState)
    requires
        revocation_tested(wire, start, before, after),
        wire_grew(wire, longer),
        0 <= start,
    ensures
        revocation_tested(longer, start, before, after),
{
    if before.lost is None {
        let (i, statuses) = choose|i: int, statuses: Vec<Status>| start <= i < wire.len()
            && #[trigger] stateids_tested(wire[i], before, statuses)
            && same_lock_except_lost(after, before)
            && after.lost == last_failing_status(tested_statuses(statuses@))
            && forall|k: int| 0 <= k < tested_statuses(statuses@).len() && statuses@[k] != Status::NfsOk
                ==> exists|j: int| i < j < wire.len() && #[trigger] stateid_freed(wire[j], tested_stateid(before, k));
        assert forall|k: int| 0 <= k < tested_statuses(statuses@).len() && statuses@[k] != Status::NfsOk
            implies exists|j: int| i < j < longer.len() && #[trigger] stateid_freed(longer[j], tested_stateid(before, k)) by {
            let j = choose|j: int| i < j < wire.len() && #[trigger] stateid_freed(wire[j], tested_stateid(before, k));
            assert(longer[j] == wire[j]);
            assert(stateid_freed(longer[j], tested_stateid(before, k)));
        }
        assert(longer[i] == wire[i]);
        assert(stateids_tested(longer[i], before, statuses));
    }
}

/// `call` asked to reclaim the byte-range lock `lock`: PUTFH of its file,
/// then LOCK with reclaim set, of its type and range.
pub open spec fn lock_reclaim_of(call: WireCall, lock: LockState) -> bool {
    &&& call.4.len() == 2
    &&& call.4[0] matches Operation::PutFh(h) && h.bytes() == lock.handle.bytes()
    &&& call.4[1] matches Operation::Lock(la) && la.reclaim && la.lock_type == lock.lock_type
        && la.offset == lock.offset && la.length == lock.length
}

/// `call` closed an open of `lock`'s file: PUTFH of it, then CLOSE.
pub open spec fn close_of(call: WireCall, lock: LockState) -> bool {
    &&& call.4.len() == 2
    &&& call.4[0] matches Operation::PutFh(h) && h.bytes() == lock.handle.bytes()
    &&& call.4[1] is Close
}

/// A status under which recovery records a lock as lost.
pub open spec fn lock_loss_status(status: Status) -> bool {
    status.spec_indicates_lost_state() || status == Status::Stale || status == Status::FhExpired
        || status == Status::BadHandle || status == Status::NoEnt
}

/// What session recovery did to one lock record: a lost lock stays lost as
/// it was, and a lock it marks lost carries a status that says the lock
/// cannot come back.
pub open spec fn lock_settled(before: LockState, after: LockState) -> bool {
    &&& before.lost is Some ==> after.lost == before.lost
    &&& before.lost is None ==> (after.lost matches Some(s) ==> lock_loss_status(s))
}

/// The last call of `wire`, made after its first `start` calls, was the
/// session COMPOUND of `operations` at `minor_version` after `sequence`, and
/// it was answered with `reply`.
pub open spec fn session_call(wire: Seq<WireCall>, start: int, minor_version: u32, sequence: SequenceArgs,
    operations: Seq<Operation>, reply: CompoundResponse) -> bool {
    &&& wire.len() > start
    &&& call_of(wire.last(), "nfs-rs-v4"@, minor_version, Some(sequence), operations)
    &&& call_answered(wire.last(), reply)
}

/// `call` was a session COMPOUND of `operations` that went out and whose
/// reply was lost.
pub open spec fn session_reply_lost(call: WireCall, operations: Seq<Operation>) -> bool {
    call.1 == "nfs-rs-v4"@ && call.4 == operations && call.6
}

/// `call` was a session COMPOUND of `operations`, after a SEQUENCE, and
/// was answered with `reply`.
pub open spec fn session_exchange_at(call: WireCall, operations: Seq<Operation>, reply: CompoundResponse) -> bool {
    &&& call.3 is Some
    &&& call_of(call, "nfs-rs-v4"@, call.2, call.3, operations)
    &&& call_answered(call, reply)
}

/// Among the calls of `wire` after its first `start`, one was the session
/// COMPOUND of `operations`, answered with `reply`.
pub open spec fn session_exchange(wire: Seq<WireCall>, start: int, operations: Seq<Operation>, reply: CompoundResponse) -> bool {
    exists|i: int| start <= i < wire.len() && #[trigger] session_exchange_at(wire[i], operations, reply)
}

/// `call` wrote, in a session COMPOUND, `chunk` at `offset` of the file with
/// handle `handle` under `stateid`, stable on disk, and its reply's WRITE
/// result acknowledged `count` bytes of it.
pub open spec fn write_sent(call: WireCall, handle: Seq<u8>, stateid: StateId, offset: u64, chunk: Seq<u8>, count: u32) -> bool {
    &&& call.3 is Some
    &&& call.4.len() == 2
    &&& call.4[0] matches Operation::PutFh(h) && h.bytes() == handle
    &&& call.4[1] matches Operation::Write { stateid: s, offset: o, stable, data } && s == stateid && o == offset
        && stable == StableHow::FileSync && data@ == chunk
    &&& call.5 matches Some(answer) && exists|w: WriteResult| #[trigger] response_write_outcome(answer.1, chunk.len() as u32, Ok(w))
        && w.count == count
}

/// Byte `p` of `data`, meant for position `offset + p` of the file, went out
/// in a WRITE among the calls of `wire` after `start` whose reply
/// acknowledged it.
pub open spec fn byte_written(wire: Seq<WireCall>, start: int, handle: Seq<u8>, stateid: StateId, offset: int, data: Seq<u8>, p: int) -> bool {
    exists|i: int, o: u64, chunk: Seq<u8>, c: u32| start <= i < wire.len() && #[trigger] write_sent(wire[i], handle, stateid, o, chunk, c)
        && o <= offset + p < o + c && c <= chunk.len() && chunk[offset + p - o] == data[p]
}

/// The first `n` bytes of `data`, meant for `offset` onward of the file, went
/// out in acknowledged WRITEs among the calls of `wire` after `start`.
pub open spec fn data_written(wire: Seq<WireCall>, start: int, handle: Seq<u8>, stateid: StateId, offset: int, data: Seq<u8>, n: int) -> bool {
    forall|p: int| 0 <= p < n ==> #[trigger] byte_written(wire, start, handle, stateid, offset, data, p)
}

/// Writes recorded in a log stay recorded when it grows.
proof fn lemma_data_written_grow(wire: Seq<WireCall>, longer: Seq<WireCall>, start: int, earlier: int, handle: Seq<u8>,
    stateid: StateId, offset: int, data: Seq<u8>, n: int)
    requires
        data_written(wire, start, handle, stateid, offset, data, n),
        wire_grew(wire, longer),
        0 <= earlier <= start,
    ensures
        data_written(longer, earlier, handle, stateid, offset, data, n),
{
    assert forall|p: int| 0 <= p < n implies #[trigger] byte_written(longer, earlier, handle, stateid, offset, data, p) by {
        assert(byte_written(wire, start, handle, stateid, offset, data, p));
        let (i, o, chunk, c) = choose|i: int, o: u64, chunk: Seq<u8>, c: u32| start <= i < wire.len()
            && #[trigger] write_sent(wire[i], handle, stateid, o, chunk, c)
            && o <= offset + p < o + c && c <= chunk.len() && chunk[offset + p - o] == data[p];
        assert(longer[i] == wire[i]);
        assert(write_sent(longer[i], handle, stateid, o, chunk, c));
    }
}

/// Writes recorded after a prefix of a file, followed by writes of the next
/// bytes at the place where the prefix ends, record the whole.
proof fn lemma_data_written_append(wire: Seq<WireCall>, start: int, later: int, handle: Seq<u8>, stateid: StateId,
    prefix: Seq<u8>, data: Seq<u8>)
    requires
        data_written(wire, start, handle, stateid, 0, prefix, prefix.len() as int),
        data_written(wire, later, handle, stateid, prefix.len() as int, data, data.len() as int),
        0 <= start <= later,
    ensures
        data_written(wire, start, handle, stateid, 0, prefix + data, (prefix + data).len() as int),
{
    let all = prefix + data;
    assert forall|p: int| 0 <= p < all.len() implies #[trigger] byte_written(wire, start, handle, stateid, 0, all, p) by {
        if p < prefix.len() {
            assert(byte_written(wire, start, handle, stateid, 0, prefix, p));
            let (i, o, chunk, c) = choose|i: int, o: u64, chunk: Seq<u8>, c: u32| start <= i < wire.len()
                && #[trigger] write_sent(wire[i], handle, stateid, o, chunk, c)
                && o <= 0 + p < o + c && c <= chunk.len() && chunk[0 + p - o] == prefix[p];
            assert(all[p] == prefix[p]);
            assert(write_sent(wire[i], handle, stateid, o, chunk, c));
        } else {
            let q = p - prefix.len();
            assert(byte_written(wire, later, handle, stateid, prefix.len() as int, data, q));
            let (i, o, chunk, c) = choose|i: int, o: u64, chunk: Seq<u8>, c: u32| later <= i < wire.len()
                && #[trigger] write_sent(wire[i], handle, stateid, o, chunk, c)
                && o <= prefix.len() + q < o + c && c <= chunk.len() && chunk[prefix.len() + q - o] == data[q];
            assert(all[p] == data[q]);
            assert(write_sent(wire[i], handle, stateid, o, chunk, c));
        }
    }
}

/// READs of the file with handle `src` under `src_stateid`, from its start,
/// gave `n` bytes, and each was written at the same place of the file with
/// handle `dst` under `dst_stateid` by acknowledged WRITEs among the calls
/// of `wire` after `start`.
pub open spec fn copied_through(wire: Seq<WireCall>, start: int, src: Seq<u8>, src_stateid: StateId, dst: Seq<u8>,
    dst_stateid: StateId, steps: Seq<ReadStep>, n: int) -> bool {
    &&& read_chunks(steps, src, src_stateid)
    &&& chunks_data(steps).len() == n
    &&& data_written(wire, start, dst, dst_stateid, 0, chunks_data(steps), n)
}

/// Some READs of `src` and WRITEs of `dst` copied `n` bytes, as
/// [`copied_through`] describes.
pub open spec fn bytes_copied(wire: Seq<WireCall>, start: int, src: Seq<u8>, src_stateid: StateId, dst: Seq<u8>,
    dst_stateid: StateId, n: int) -> bool {
    exists|steps: Seq<ReadStep>| #[trigger] copied_through(wire, start, src, src_stateid, dst, dst_stateid, steps, n)
}

/// `call` was a session COMPOUND that put the handle `src`, saved it, put
/// the handle `dst` and asked the server to COPY `count` bytes from
/// `src_offset` of the saved file to `dst_offset` of the current one, with
/// the given options; its reply's COPY result, checked against `count`, is
/// `result`.
pub open spec fn copy_call(call: WireCall, src: Seq<u8>, dst: Seq<u8>, src_offset: u64, dst_offset: u64, count: u64,
    consecutive: bool, synchronous: bool, source_servers: Seq<NetLoc>, result: CopyResult) -> bool {
    &&& call.3 is Some
    &&& call.4.len() == 4
    &&& call.4[0] matches Operation::PutFh(h) && h.bytes() == src
    &&& call.4[1] is SaveFh
    &&& call.4[2] matches Operation::PutFh(h) && h.bytes() == dst
    &&& call.4[3] matches Operation::Copy(a) && a.src_offset == src_offset && a.dst_offset == dst_offset
        && a.count == count && a.consecutive == consecutive && a.synchronous == synchronous
        && a.source_servers@ == source_servers
    &&& call.5 matches Some(answer) && response_copy_outcome(answer.1, count, Ok(result))
}

/// Among the calls of `wire` after its first `start`, one COPY went from one
/// file to a different one, as [`copy_call`] describes, and gave `result`.
pub open spec fn copy_exchanged(wire: Seq<WireCall>, start: int, src_offset: u64, dst_offset: u64, count: u64,
    consecutive: bool, synchronous: bool, source_servers: Seq<NetLoc>, result: CopyResult) -> bool {
    exists|i: int, src: Seq<u8>, dst: Seq<u8>| start <= i < wire.len() && src != dst
        && #[trigger] copy_call(wire[i], src, dst, src_offset, dst_offset, count, consecutive, synchronous, source_servers, result)
}

/// `call` was a recovery COMPOUND of `operations` in the session at
/// `minor_version`, after a SEQUENCE, and was answered with `reply`.
pub open spec fn recovery_call(call: WireCall, minor_version: u32, operations: Seq<Operation>, reply: CompoundResponse) -> bool {
    &&& call.3 is Some
    &&& call_of(call, "nfs-rs-recovery"@, minor_version, call.3, operations)
    &&& call_answered(call, reply)
}

/// A session set up for `builder`: EXCHANGE_ID sent the builder's owner id and
/// verifier and was answered with a client id; CREATE_SESSION sent that
/// client id and sequence id and was answered with a session whose fore
/// channel passed the checks; the client keeps that client id and session id,
/// the channel's request and reply sizes, and its operation limit capped at
/// [`NFS4_MAX_OPS`].
pub open spec fn session_set_up(
    setup: (Seq<Operation>, CompoundResponse, Seq<Operation>, CompoundResponse),
    builder: ClientBuilder,
    client_id: u64,
    session_id: SessionId,
    max_operations: usize,
    max_request_size: u32,
    max_response_size: u32,
) -> bool {
    let (xops, xres, sops, sres) = setup;
    &&& xops.len() == 1
    &&& xops[0] matches Operation::ExchangeId(xa)
    &&& xa.client_owner.owner_id@ == builder.spec_owner_id()
    &&& xa.client_owner.verifier == builder.spec_client_owner_verifier()
    &&& xa.flags == EXCHGID4_FLAG_USE_NON_PNFS
    &&& xres.status == Status::NfsOk
    &&& xres.results@.len() > 0
    &&& xres.results@[0] matches OperationResult::ExchangeId { status: Status::NfsOk, result: Some(x) }
    &&& client_id == x.client_id
    &&& sops.len() == 1
    &&& sops[0] matches Operation::CreateSession(sa)
    &&& sa.client_id == x.client_id && sa.sequence_id == x.sequence_id
    &&& sres.status == Status::NfsOk
    &&& sres.results@.len() > 0
    &&& sres.results@[0] matches OperationResult::CreateSession { status: Status::NfsOk, result: Some(cs) }
    &&& session_id == cs.session_id
    &&& cs.fore_channel_attrs.max_request_size > NFS4_COMPOUND_IO_HEADROOM
    &&& cs.fore_channel_attrs.max_response_size > NFS4_COMPOUND_IO_HEADROOM
    &&& cs.fore_channel_attrs.max_requests > 0
    &&& cs.fore_channel_attrs.max_operations > 0
    &&& max_operations == (if cs.fore_channel_attrs.max_operations < NFS4_MAX_OPS {
        cs.fore_channel_attrs.max_operations as int } else { NFS4_MAX_OPS as int })
    &&& max_request_size == cs.fore_channel_attrs.max_request_size
    &&& max_response_size == cs.fore_channel_attrs.max_response_size
}

/// `e` is the server's refusal of the minor version asked for.
pub open spec fn spec_minor_version_mismatch(e: Error) -> bool {
    e matches Error::NfsV4 { status, .. } && status == Status::MinorVersionMismatch
}

/// `tried` lists, in order, the first of `versions`, each refused with
/// MINOR_VERS_MISMATCH.
pub open spec fn minor_versions_tried(tried: Seq<(u32, Error)>, versions: Seq<u32>) -> bool {
    &&& tried.len() <= versions.len()
    &&& forall|k: int| 0 <= k < tried.len() ==> #[trigger] tried[k].0 == versions[k]
        && spec_minor_version_mismatch(tried[k].1)
}

/// Whether the server refused the minor version the client asked for.
pub fn is_minor_version_mismatch(err: &Error) -> (r: bool)
    ensures
        r == (*err matches Error::NfsV4 { status, .. } && status == Status::MinorVersionMismatch),
{
    match err {
        Error::NfsV4 { status: Status::MinorVersionMismatch, .. } => true,
        _ => false,
    }
}

/// A file opened by the client: its handle and the open state id.
#[derive(Debug, Clone)]
struct OpenedFile {
    handle: FileHandle,
    stateid: StateId,
}

/// `o` was opened by the OPEN exchange `open`: a COMPOUND that resolved a
/// directory, opened `name` there with `share_access` for `owner` as
/// `openhow` says, and asked for the file handle, answered with success;
/// `o` holds the state id of its OPEN result and the handle of its GETFH
/// result.
spec fn opened_by(open: (Seq<Operation>, CompoundResponse), name: Seq<char>, share_access: u32, owner: Seq<u8>,
    openhow: OpenHow, o: OpenedFile) -> bool {
    let (ops, reply) = open;
    &&& ops.len() >= 2
    &&& ops.last() == Operation::GetFh
    &&& ops[ops.len() - 2] matches Operation::Open(a)
    &&& a.share_access == share_access | OPEN4_SHARE_ACCESS_WANT_NO_DELEG
    &&& a.owner.owner@ == owner
    &&& vstd::pervasive::cloned(openhow, a.openhow)
    &&& a.claim matches OpenClaim::Null(n) && n@ == name
    &&& reply.status == Status::NfsOk
    &&& exists|x: OpenResult| #[trigger] response_open_outcome(reply, Ok(x)) && x.stateid == o.stateid
    &&& exists|h: FileHandle| #[trigger] response_getfh_outcome(reply, Ok(h)) && h.bytes() == o.handle.bytes()
}

/// The last COMPOUND removed `path`: a request under its parent directory
/// that ended in REMOVE of its last name, and succeeded.
pub open spec fn removed_path(last: Option<(Seq<Operation>, CompoundResponse)>, path: Seq<char>) -> bool {
    last matches Some((ops, reply)) && parent_dir_request(path, ops)
        && (ops.last() matches Operation::Remove(n) && n@ == last_name(path))
        && reply.status == Status::NfsOk && last_result_ok(reply)
}

/// A pending step of a recursive removal that starts at `path`: visiting
/// it, or removing it once emptied.
pub open spec fn removal_root(task: RemoveTask, path: Seq<char>) -> bool {
    match task {
        RemoveTask::Visit(p, _) => p@ == path,
        RemoveTask::RemoveDir(p) => p@ == path,
    }
}

/// A reply that has a result for `op` has a first one.
proof fn lemma_first_dedicated_exists(results: Seq<OperationResult>, op: OpCode) -> (i: int)
    requires
        has_dedicated(results, op),
    ensures
        first_dedicated(results, op, i),
    decreases results.len(),
{
    let prefix = results.drop_last();
    if has_dedicated(prefix, op) {
        let i = lemma_first_dedicated_exists(prefix, op);
        assert forall|j: int| 0 <= j < i implies !dedicated(#[trigger] results[j], op) by {
            assert(results[j] == prefix[j]);
        }
        assert(results[i] == prefix[i]);
        i
    } else {
        let i = results.len() - 1;
        let k = choose|k: int| 0 <= k < results.len() && dedicated(#[trigger] results[k], op);
        if k < i {
            assert(prefix[k] == results[k]);
            assert(has_dedicated(prefix, op));
        }
        assert forall|j: int| 0 <= j < i implies !dedicated(#[trigger] results[j], op) by {
            assert(results[j] == prefix[j]);
            if dedicated(results[j], op) {
                assert(dedicated(prefix[j], op));
                assert(has_dedicated(prefix, op));
            }
        }
        i
    }
}

/// The reply decides whether an OPEN result can be taken from it.
proof fn lemma_open_outcome_decides(response: CompoundResponse, a: Result<OpenResult>, b: Result<OpenResult>)
    requires
        response_open_outcome(response, a),
        response_open_outcome(response, b),
    ensures
        a is Ok == b is Ok,
{
    if has_dedicated(response.results@, OpCode::Open) {
        let i = lemma_first_dedicated_exists(response.results@, OpCode::Open);
        assert(first_dedicated(response.results@, OpCode::Open, i));
    }
}

/// What undoing a refused OPEN that still granted the open state `stateid`
/// reported, with the last COMPOUND `last` after it: with [`OpenFailureCleanup::KeepPath`],
/// the CLOSE of that state succeeded and the error is reported alone, or
/// the CLOSE failed and the error is reported with it; with
/// [`OpenFailureCleanup::RemovePath`], the REMOVE of the path followed as
/// well, and its failure is reported on top.
pub open spec fn open_undone(last: Option<(Seq<Operation>, CompoundResponse)>, path: Seq<char>, stateid: StateId,
    error: Error, cleanup: OpenFailureCleanup, e: Error) -> bool {
    let close_failed = |x: Error| x matches Error::Cleanup { context, error: inner, .. }
        && context == "cleanup CLOSE after failed OPEN post-processing" && *inner == error;
    match cleanup {
        OpenFailureCleanup::KeepPath => (e == error && closed_file(last, stateid)) || close_failed(e),
        OpenFailureCleanup::RemovePath => (removed_path(last, path) && (e == error || close_failed(e)))
            || (e matches Error::Cleanup { context, error: inner, .. }
                && context == "cleanup REMOVE after failed OPEN post-processing" && (*inner == error || close_failed(*inner))),
    }
}

/// What to do with a file created by a failed OPEN.
#[derive(Debug, Clone, Copy, PartialEq, Eq, Structural)]
pub enum OpenFailureCleanup {
    KeepPath,
    RemovePath,
}

/// Blocking, path-oriented NFSv4 client.
///
/// `Client` owns a session and handles sequencing, retryable delay responses,
/// and one-shot session recovery for recoverable session failures. Paths are
/// absolute paths in the server's v4 pseudo-filesystem.
pub struct Client<T: Transport> {
    rpc: T,
    locks: LockRegistry,
    recovery_pending: bool,
    lease_keeper: Option<Box<Client<T>>>,
    lease_failed: bool,
    builder: ClientBuilder,
    client_id: u64,
    session_id: SessionId,
    sequence_id: u32,
    open_seqid: u32,
    open_owner: Vec<u8>,
    minor_version: u32,
    max_operations: usize,
    max_request_size: u32,
    max_response_size: u32,
    root_fsinfo: Option<FsInfo>,
    read_size: u32,
    write_size: u32,
    dir_size: u32,
    max_dir_entries: usize,
    retry_policy: RetryPolicy,
    id_counter: u64,
    last_compound: Ghost<Option<(Seq<Operation>, CompoundResponse)>>,
    setup: Ghost<(Seq<Operation>, CompoundResponse, Seq<Operation>, CompoundResponse)>,
    last_sequence: Ghost<SequenceArgs>,
    last_resent: Ghost<bool>,
    last_open: Ghost<(Seq<Operation>, CompoundResponse)>,
    lost_reply: Ghost<Option<Error>>,
    wire: Ghost<Seq<WireCall>>,
}

impl<T: Transport> Client<T> {
    /// The operations of the last COMPOUND that completed for a caller of
    /// this client, without the SEQUENCE that a session call adds, with the
    /// server's reply.
    pub closed spec fn spec_last_compound(&self) -> Option<(Seq<Operation>, CompoundResponse)> {
        self.last_compound@
    }

    /// The session set-up exchange: the EXCHANGE_ID operations sent and their
    /// reply, then the CREATE_SESSION operations sent and their reply.
    pub closed spec fn spec_setup(&self) -> (Seq<Operation>, CompoundResponse, Seq<Operation>, CompoundResponse) {
        self.setup@
    }

    /// Every COMPOUND this client has handed to its transport, in order.
    pub closed spec fn spec_wire(&self) -> Seq<WireCall> {
        self.wire@
    }

    /// The transport failure that ended the last session COMPOUND, when the
    /// session was rebuilt but the request could not be sent again.
    pub closed spec fn spec_lost_reply(&self) -> Option<Error> {
        self.lost_reply@
    }

    /// The last OPEN exchange: the COMPOUND sent and its reply.
    pub closed spec fn spec_last_open(&self) -> (Seq<Operation>, CompoundResponse) {
        self.last_open@
    }

    /// The SEQUENCE arguments of the last session COMPOUND sent.
    pub closed spec fn spec_last_sequence(&self) -> SequenceArgs {
        self.last_sequence@
    }

    /// Whether the last session COMPOUND was sent again on a rebuilt session.
    pub closed spec fn spec_last_resent(&self) -> bool {
        self.last_resent@
    }

    /// The number of operations the session allows per COMPOUND.
    pub closed spec fn spec_max_operations(&self) -> usize {
        self.max_operations
    }

    /// The largest request the session accepts.
    pub closed spec fn spec_max_request_size(&self) -> u32 {
        self.max_request_size
    }

    /// The largest reply the session sends.
    pub closed spec fn spec_max_response_size(&self) -> u32 {
        self.max_response_size
    }

    /// The slot sequence id the next SEQUENCE carries.
    pub closed spec fn spec_sequence_id(&self) -> u32 {
        self.sequence_id
    }

    /// What `fresh_from` states of a client just made from `builder`.
    pub proof fn lemma_fresh_from(&self, builder: ClientBuilder, minor_version: u32)
        requires
            self.fresh_from(builder, minor_version),
        ensures
            self.spec_minor_version() == minor_version,
            self.spec_locks().ids().len() == 0,
            self.spec_last_compound() is None,
            self.spec_root_fsinfo() is None,
            !self.spec_lease_failed(),
            self.spec_open_seqid() == 1,
            1 <= self.spec_max_operations() <= NFS4_MAX_OPS,
            self.spec_max_dir_entries() == builder.spec_max_dir_entries(),
            self.spec_open_owner() == builder.spec_open_owner(),
    {
    }

    /// The negotiated minor version.
    pub closed spec fn spec_minor_version(&self) -> u32 {
        self.minor_version
    }

    /// The most directory entries or device ids the client asks for per call.
    pub closed spec fn spec_max_dir_entries(&self) -> usize {
        self.max_dir_entries
    }

    /// A client whose session was just created for `builder` at
    /// `minor_version`: it tracks no lock, has sent no COMPOUND for a
    /// caller, needs no recovery, keeps no lease session yet, knows no root
    /// file system information, starts its open-owner seqid at 1 and takes
    /// its transfer sizes, limits, owner and retry policy from `builder`.
    pub closed spec fn fresh_from(&self, builder: ClientBuilder, minor_version: u32) -> bool {
        &&& self.minor_version == minor_version
        &&& self.locks.ids().len() == 0
        &&& self.locks.states().len() == 0
        &&& self.last_compound@ is None
        &&& !self.recovery_pending && !self.lease_failed && self.lease_keeper is None
        &&& self.root_fsinfo is None
        &&& self.open_seqid == 1
        &&& 1 <= self.max_operations <= NFS4_MAX_OPS
        &&& self.read_size == builder.read_size && self.write_size == builder.write_size
        &&& self.dir_size == builder.dir_size && self.max_dir_entries == builder.max_dir_entries
        &&& self.retry_policy == builder.retry_policy && self.id_counter == builder.id_counter
        &&& self.open_owner@ == builder.open_owner@
    }

    /// The id of the client's session.
    pub closed spec fn spec_session_id(&self) -> SessionId {
        self.session_id
    }

    /// The client id the server assigned at EXCHANGE_ID.
    pub closed spec fn spec_client_id(&self) -> u64 {
        self.client_id
    }

    /// The open-owner name the client uses.
    pub closed spec fn spec_open_owner(&self) -> Seq<u8> {
        self.open_owner@
    }

    /// The client's current open-owner seqid.
    pub closed spec fn spec_open_seqid(&self) -> u32 {
        self.open_seqid
    }

    /// The locks the client tracks.
    pub closed spec fn spec_locks(&self) -> LockRegistry {
        self.locks
    }

    /// The root file system information read at connect time.
    pub closed spec fn spec_root_fsinfo(&self) -> Option<FsInfo> {
        self.root_fsinfo
    }

    /// Whether a lease heartbeat failed since the last session rebuild.
    pub closed spec fn spec_lease_failed(&self) -> bool {
        self.lease_failed
    }

    /// Connects to an NFSv4 server through `transport` with default builder
    /// options.
    pub fn connect(host: &str, auth: AuthSys, process_id: u32, id_counter: u64, transport: &mut T) -> (r: Result<Self>)
        ensures
            crate::v4::is_blank(host@) ==> (r matches Err(e) && e is InvalidTarget) && *final(transport) == *old(transport),
            r matches Ok(c) ==> c.spec_locks().ids().len() == 0 && c.spec_root_fsinfo() is Some,
    {
        ClientBuilder::new(host, auth, process_id, id_counter).connect(transport)
    }

    /// Creates a builder for the given server host.
    pub fn builder(host: &str, auth: AuthSys, process_id: u32, id_counter: u64) -> (b: ClientBuilder)
        ensures
            b.spec_host() == host@,
            b.spec_auth() == auth,
    {
        ClientBuilder::new(host, auth, process_id, id_counter)
    }

    /// Returns the negotiated NFSv4 minor version.
    pub fn minor_version(&self) -> (r: u32)
        ensures
            r == self.spec_minor_version(),
    {
        self.minor_version
    }

    fn connect_with_builder(builder: ClientBuilder, factory: &mut T) -> (r: Result<Self>)
        ensures
            r matches Ok(c) ==> c.spec_locks().ids().len() == 0 && c.spec_root_fsinfo() is Some,
            crate::v4::is_blank(builder.spec_host()) ==> (r matches Err(e) && e is InvalidTarget),
            !crate::v4::is_blank(builder.spec_host()) && !builder.settings_valid() ==> (r matches Err(e) && e is Protocol),
            !builder.settings_valid() ==> *final(factory) == *old(factory),
    {
        let mut log: Ghost<Seq<WireCall>> = Ghost(Seq::empty());
        let mut tried: Ghost<Seq<(u32, Error)>> = Ghost(Seq::empty());
        let mut client = match Self::connect_session(factory, &mut log, &mut tried, builder, true) {
            Ok(client) => client,
            Err(e) => return Err(e),
        };
        if let Err(err) = client.refresh_root_fsinfo() {
            let cleanup = client.shutdown();
            return Err(cleanup_error(err, "cleanup DESTROY_SESSION after failed NFSv4 connect", cleanup));
        }
        if let Err(err) = client.start_lease_renewal() {
            let cleanup = client.shutdown();
            return Err(cleanup_error(err, "cleanup session after lease renewal setup", cleanup));
        }
        Ok(client)
    }

    /// Validates the builder, then sets up a session at the highest minor
    /// version the server accepts, trying each from the builder's highest
    /// down and moving on only after MINOR_VERS_MISMATCH. `tried` receives
    /// the versions refused that way, with their errors.
    fn connect_session(
        factory: &mut T,
        log: &mut Ghost<Seq<WireCall>>,
        tried: &mut Ghost<Seq<(u32, Error)>>,
        builder: ClientBuilder,
        complete_reclaim: bool,
    ) -> (r: Result<Self>)
        ensures
            crate::v4::is_blank(builder.spec_host()) ==> (r matches Err(e) && e is InvalidTarget),
            !crate::v4::is_blank(builder.spec_host()) && !builder.settings_valid() ==> (r matches Err(e) && e is Protocol),
            !builder.settings_valid() ==> *final(factory) == *old(factory) && final(log)@ == old(log)@,
            r is Ok ==> builder.settings_valid(),
            r matches Ok(c) ==> exists|m: u32| #[trigger] spec_negotiated_minor_versions(builder.spec_max_minor_version()).contains(m)
                && c.fresh_from(builder, m),
            r matches Ok(c) ==> session_set_up(c.spec_setup(), builder, c.spec_client_id(), c.spec_session_id(),
                c.spec_max_operations(), c.spec_max_request_size(), c.spec_max_response_size()),
            wire_grew(old(log)@, final(log)@),
            r matches Ok(c) ==> c.spec_wire() == final(log)@,
            minor_versions_tried(final(tried)@, spec_negotiated_minor_versions(builder.spec_max_minor_version())),
            r matches Ok(c) ==> final(tried)@.len() < spec_negotiated_minor_versions(builder.spec_max_minor_version()).len()
                && c.spec_minor_version() == spec_negotiated_minor_versions(builder.spec_max_minor_version())[final(tried)@.len() as int],
            r matches Err(e) ==> (builder.settings_valid() ==> ({
                let versions = spec_negotiated_minor_versions(builder.spec_max_minor_version());
                ||| final(tried)@.len() == versions.len() && final(tried)@.len() > 0 && e == final(tried)@.last().1
                ||| final(tried)@.len() < versions.len() && !spec_minor_version_mismatch(e)
            })),
    {
        *tried = Ghost(Seq::empty());
        if let Err(e) = builder.validate() {
            return Err(e);
        }
        let versions = negotiated_minor_versions(builder.max_minor_version);
        let mut last_minor_error: Option<Error> = None;
        let mut i: usize = 0;
        while i < versions.len()
            invariant
                i <= versions@.len(),
                builder.settings_valid(),
                versions@ == spec_negotiated_minor_versions(builder.spec_max_minor_version()),
                wire_grew(old(log)@, log@),
                tried@.len() == i,
                minor_versions_tried(tried@, versions@),
                i > 0 ==> last_minor_error == Some(tried@.last().1),
            decreases versions@.len() - i,
        {
            let minor_version = versions[i];
            let ghost before = log@;
            let mut granted: Ghost<Option<CreateSessionResult>> = Ghost(None);
            match Self::connect_session_minor(factory, log, &mut granted, builder.clone(), minor_version, complete_reclaim) {
                Ok(client) => {
                    proof {
                        lemma_wire_push(old(log)@, before, log@);
                        assert(versions@.contains(versions@[i as int]));
                    }
                    return Ok(client);
                },
                Err(err) => {
                    proof {
                        lemma_wire_push(old(log)@, before, log@);
                    }
                    if is_minor_version_mismatch(&err) {
                        let ghost entry = (minor_version, err);
                        proof {
                            let next = tried@.push(entry);
                            assert forall|k: int| 0 <= k < next.len() implies #[trigger] next[k].0 == versions@[k]
                                && spec_minor_version_mismatch(next[k].1) by {
                                if k < tried@.len() {
                                    assert(next[k] == tried@[k]);
                                }
                            }
                        }
                        *tried = Ghost(tried@.push(entry));
                        last_minor_error = Some(err);
                    } else {
                        return Err(err);
                    }
                },
            }
            i = i + 1;
        }
        match last_minor_error {
            Some(err) => Err(err),
            None => Err(protocol("NFSv4 server did not accept a supported minor version")),
        }
    }

    /// Sets up a session at `minor_version` on a new connection. `log`
    /// receives the calls made on it; `granted` the session the server
    /// created, if it created one.
    #[verifier::rlimit(100)]
    #[verifier::spinoff_prover]
    fn connect_session_minor(
        factory: &mut T,
        log: &mut Ghost<Seq<WireCall>>,
        granted: &mut Ghost<Option<CreateSessionResult>>,
        builder: ClientBuilder,
        minor_version: u32,
        complete_reclaim: bool,
    ) -> (r: Result<Self>)
        ensures
            r matches Ok(c) ==> c.fresh_from(builder, minor_version),
            r matches Ok(c) ==> session_set_up(c.spec_setup(), builder, c.spec_client_id(), c.spec_session_id(),
                c.spec_max_operations(), c.spec_max_request_size(), c.spec_max_response_size()),
            wire_grew(old(log)@, final(log)@),
            r matches Ok(c) ==> c.spec_wire() == final(log)@
                && (final(granted)@ matches Some(cs) && cs.session_id == c.spec_session_id()),
            final(granted)@ matches Some(cs) ==> exists|i: int| old(log)@.len() <= i < final(log)@.len()
                && #[trigger] granted_session(final(log)@[i]) == Some(cs),
            final(granted)@ matches Some(cs) ==> (r is Err ==> final(log)@.len() > 0
                && call_of(final(log)@.last(), "destroy-session"@, minor_version, None, seq![Operation::DestroySession(cs.session_id)])),
            final(granted)@ matches Some(cs) ==> (!session_channel_usable(cs.fore_channel_attrs) ==> r is Err),
            r matches Ok(c) ==> complete_reclaim ==> exists|k: int| old(log)@.len() <= k < final(log)@.len()
                && #[trigger] reclaim_completed(final(log)@[k], c.spec_session_id()),
    {
        *granted = Ghost(None);
        let stored_builder = builder.clone();
        let mut rpc = factory.open(builder.host.as_str(), builder.port, &builder.auth, builder.timeout)?;
        let sizes = [builder.read_size, builder.write_size, builder.dir_size];
        rpc.set_max_record_size(max_record_size_for_payloads(&sizes))?;

        let exchange = ExchangeIdArgs {
            client_owner: ClientOwner {
                verifier: builder.client_owner_verifier,
                owner_id: copy_bytes(builder.owner_id.as_slice()),
            },
            flags: EXCHGID4_FLAG_USE_NON_PNFS,
        };
        let exchange_ops = vec![Operation::ExchangeId(exchange)];
        let exchange_res = raw_compound_with_delayed_retry(&mut rpc, log, "exchange-id", minor_version, exchange_ops.as_slice(), builder.retry_policy)?;
        exchange_res.ensure_ok()?;
        let exchange = response_exchange_id(&exchange_res)?;

        let create_session = CreateSessionArgs {
            client_id: exchange.client_id,
            sequence_id: exchange.sequence_id,
            flags: 0,
            fore_channel_attrs: ChannelAttrs::fore_channel_default(),
            back_channel_attrs: ChannelAttrs::back_channel_disabled(),
            callback_program: 0,
            callback_sec_parms: Vec::new(),
        };
        let session_ops = vec![Operation::CreateSession(create_session)];
        let ghost before_session = log@;
        let session_res = raw_compound_with_delayed_retry(&mut rpc, log, "create-session", minor_version, session_ops.as_slice(), builder.retry_policy)?;
        proof {
            lemma_wire_push(old(log)@, before_session, log@);
        }
        session_res.ensure_ok()?;
        let session = response_create_session(&session_res)?;
        *granted = Ghost(granted_session(log@.last()));
        proof {
            let i = log@.len() - 1;
            assert(log@[i] == log@.last());
            assert(granted@ matches Some(cs) && same_session_result(session, cs));
        }
        let ghost after_session = log@;
        if let Err(err) = validate_session_channel_attrs(&session.fore_channel_attrs) {
            let e = cleanup_session_setup_error(&mut rpc, log, minor_version, session.session_id, err);
            proof {
                lemma_wire_push(old(log)@, after_session, log@);
                assert(log@[after_session.len() - 1] == after_session.last());
            }
            return Err(e);
        }
        let max_operations = match session_max_operations(&session.fore_channel_attrs) {
            Ok(max_operations) => max_operations,
            Err(err) => {
                let e = cleanup_session_setup_error(&mut rpc, log, minor_version, session.session_id, err);
                proof {
                    lemma_wire_push(old(log)@, after_session, log@);
                    assert(log@[after_session.len() - 1] == after_session.last());
                }
                return Err(e);
            },
        };
        let max_request_size = session.fore_channel_attrs.max_request_size;
        let max_response_size = session.fore_channel_attrs.max_response_size;
        let mut sequence_id: u32 = 1;
        let ghost mut reclaim_at: int = 0;
        if complete_reclaim {
            let ghost before_reclaim = log@;
            let reclaim_res = match reclaim_complete_with_delayed_retry(
                &mut rpc,
                log,
                minor_version,
                session.session_id,
                &mut sequence_id,
                max_operations,
                builder.retry_policy,
            ) {
                Ok(response) => response,
                Err(err) => {
                    let ghost before_cleanup = log@;
                    let e = cleanup_session_setup_error(&mut rpc, log, minor_version, session.session_id, err);
                    proof {
                        lemma_wire_push(after_session, before_cleanup, log@);
                        lemma_wire_push(old(log)@, after_session, log@);
                        assert(log@[after_session.len() - 1] == after_session.last());
                    }
                    return Err(e);
                },
            };
            if let Err(err) = ensure_reclaim_complete(&reclaim_res) {
                let ghost before_cleanup = log@;
                let e = cleanup_session_setup_error(&mut rpc, log, minor_version, session.session_id, err);
                proof {
                    lemma_wire_push(after_session, before_cleanup, log@);
                    lemma_wire_push(old(log)@, after_session, log@);
                    assert(log@[after_session.len() - 1] == after_session.last());
                }
                return Err(e);
            }
            proof {
                reclaim_at = log@.len() - 1;
                lemma_wire_push(old(log)@, after_session, before_reclaim);
                lemma_wire_push(old(log)@, before_reclaim, log@);
                assert(log@[reclaim_at] == log@.last());
                assert(reclaim_completed(log@[reclaim_at], session.session_id));
            }
        }
        assert(complete_reclaim ==> old(log)@.len() <= reclaim_at < log@.len()
            && reclaim_completed(log@[reclaim_at], session.session_id));

        let client = Client {
            rpc,
            locks: LockRegistry::new(),
            recovery_pending: false,
            lease_keeper: None,
            lease_failed: false,
            client_id: exchange.client_id,
            session_id: session.session_id,
            sequence_id,
            open_seqid: 1,
            open_owner: copy_bytes(builder.open_owner.as_slice()),
            minor_version,
            max_operations,
            max_request_size,
            max_response_size,
            root_fsinfo: None,
            read_size: builder.read_size,
            write_size: builder.write_size,
            dir_size: builder.dir_size,
            max_dir_entries: builder.max_dir_entries,
            retry_policy: builder.retry_policy,
            id_counter: builder.id_counter,
            builder: stored_builder,
            last_compound: Ghost(None),
            setup: Ghost((exchange_ops@, exchange_res, session_ops@, session_res)),
            last_sequence: Ghost(vstd::pervasive::arbitrary()),
            last_resent: Ghost(false),
            last_open: Ghost(vstd::pervasive::arbitrary()),
            lost_reply: Ghost(None),
            wire: Ghost(log@),
        };
        proof {
            if complete_reclaim {
                assert(client.spec_wire()[reclaim_at] == log@[reclaim_at]);
                assert(reclaim_completed(client.spec_wire()[reclaim_at], client.spec_session_id()));
            }
        }
        Ok(client)
    }

    fn raw_compound(&mut self, tag: &str, minor_version: u32, operations: &[Operation]) -> (r: Result<CompoundResponse>)
        ensures
            final(self).locks.ids() == old(self).locks.ids(),
            final(self).locks == old(self).locks,
            r matches Ok(response) ==> spec_compound_shape_ok(tag@, op_codes(operations@), response),
            r matches Ok(reply) ==> final(self).spec_last_compound() == Some((operations@, reply)),
            wire_grew(old(self).wire@, final(self).wire@),
    {
        let response = raw_compound_with_rpc(&mut self.rpc, &mut self.wire, tag, minor_version, None, operations)?;
        self.last_compound = Ghost(Some((operations@, response)));
        Ok(response)
    }

    fn current_open_seqid(&self) -> (r: u32)
        ensures
            r == self.open_seqid,
    {
        self.open_seqid
    }

    fn advance_open_seqid(&mut self)
        ensures
            final(self).recovery_pending == old(self).recovery_pending,
            final(self).open_seqid == spec_next_sequence_id(old(self).open_seqid),
            final(self).last_compound == old(self).last_compound,
            final(self).locks == old(self).locks,
            final(self).client_id == old(self).client_id,
            final(self).max_operations == old(self).max_operations,
            final(self).minor_version == old(self).minor_version,
            final(self).wire == old(self).wire,
    {
        self.open_seqid = next_sequence_id(self.open_seqid);
    }

    fn sequence_args(&self) -> (a: SequenceArgs)
        ensures
            a.session_id == self.session_id,
            a.sequence_id == self.sequence_id,
            a.slot_id == 0 && a.highest_slot_id == 0 && !a.cache_this,
    {
        SequenceArgs {
            session_id: self.session_id,
            sequence_id: self.sequence_id,
            slot_id: 0,
            highest_slot_id: 0,
            cache_this: false,
        }
    }
}



impl<T: Transport> Client<T> {
    /// Sends a COMPOUND in the session and fails unless every operation
    /// succeeded.
    fn compound(&mut self, operations: Vec<Operation>) -> (r: Result<CompoundResponse>)
        ensures
            final(self).locks.ids() == old(self).locks.ids(),
            r matches Ok(response) ==> response.status == Status::NfsOk,
            r matches Ok(reply) ==> final(self).spec_last_compound() == Some((operations@, reply)),
            operations@.len() + 1 > old(self).max_operations ==> r is Err,
            wire_grew(old(self).wire@, final(self).wire@),
            r matches Ok(reply) ==> session_exchange(final(self).wire@, old(self).wire@.len() as int, operations@, reply),
            r matches Ok(reply) ==> (spec_revoked_lock_status(reply.results@) is None ==> session_call(
                final(self).wire@, old(self).wire@.len() as int, final(self).minor_version, final(self).spec_last_sequence(), operations@, reply)),
    {
        let response = self.compound_status(operations)?;
        response.ensure_ok()?;
        Ok(response)
    }

    /// Sends a COMPOUND in the session and returns its reply whatever its
    /// status. Prefixes SEQUENCE, advances the slot sequence id, retries
    /// delayed replies, and rebuilds a failed session once; a request that
    /// may not be replayed is not sent again after a rebuild, and when its
    /// reply was lost the error says its outcome is unknown.
    fn compound_status(&mut self, operations: Vec<Operation>) -> (r: Result<CompoundResponse>)
        ensures
            final(self).locks.ids() == old(self).locks.ids(),
            operations@.len() + 1 > old(self).max_operations ==> r is Err,
            r matches Ok(reply) ==> final(self).spec_last_compound() == Some((operations@, reply)),
            operations@.len() + 1 <= old(self).max_operations && !old(self).recovery_pending && !old(self).lease_failed
                && !spec_operations_release_state(operations@) && old(self).locks.has_lost_lock()
                ==> (r matches Err(e) && e is LockLost),
            final(self).spec_last_resent() ==> spec_operations_can_replay(operations@),
            operations@.len() + 1 <= old(self).max_operations && (old(self).recovery_pending || old(self).lease_failed)
                && !spec_operations_can_replay(operations@) ==> r is Err,
            r matches Ok(reply) ==> compound_sequence_kept(final(self).spec_last_sequence(), reply,
                final(self).spec_session_id(), final(self).spec_sequence_id()),
            final(self).spec_lost_reply() matches Some(f) ==> r == Err::<CompoundResponse, Error>(f)
                && (f is Transport || f is OutcomeUnknown) && !spec_operations_can_replay(operations@)
                && !final(self).spec_last_resent(),
            wire_grew(old(self).wire@, final(self).wire@),
            r matches Ok(reply) ==> session_exchange(final(self).wire@, old(self).wire@.len() as int, operations@, reply),
            r matches Ok(reply) ==> (spec_revoked_lock_status(reply.results@) is None ==> session_call(
                final(self).wire@, old(self).wire@.len() as int, final(self).minor_version, final(self).spec_last_sequence(), operations@, reply)),
            !old(self).recovery_pending && !old(self).lease_failed && !spec_operations_can_replay(operations@)
                && final(self).wire@.len() > old(self).wire@.len()
                && session_reply_lost(final(self).wire@[old(self).wire@.len() as int], operations@)
                ==> (r matches Err(e) && (e is OutcomeUnknown || e is Cleanup)) && !final(self).spec_last_resent(),
    {
        let (result, resent, lost) = self.compound_status_tracked(operations);
        self.last_resent = resent;
        self.lost_reply = lost;
        result
    }

    /// `compound_status`, also reporting whether the request was sent again
    /// on a rebuilt session after its session failed. Only a request that
    /// may be replayed is ever sent again that way.
    fn compound_status_tracked(&mut self, operations: Vec<Operation>) -> (r: (Result<CompoundResponse>, Ghost<bool>, Ghost<Option<Error>>))
        ensures
            final(self).locks.ids() == old(self).locks.ids(),
            operations@.len() + 1 > old(self).max_operations ==> r.0 is Err,
            r.0 matches Ok(reply) ==> final(self).spec_last_compound() == Some((operations@, reply)),
            r.1@ ==> spec_operations_can_replay(operations@),
            operations@.len() + 1 <= old(self).max_operations && !old(self).recovery_pending && !old(self).lease_failed
                && !spec_operations_release_state(operations@) && old(self).locks.has_lost_lock()
                ==> (r.0 matches Err(e) && e is LockLost),
            operations@.len() + 1 <= old(self).max_operations && (old(self).recovery_pending || old(self).lease_failed)
                && !spec_operations_can_replay(operations@) ==> r.0 is Err,
            r.0 matches Ok(reply) ==> compound_sequence_kept(final(self).spec_last_sequence(), reply,
                final(self).spec_session_id(), final(self).spec_sequence_id()),
            r.2@ matches Some(f) ==> r.0 == Err::<CompoundResponse, Error>(f)
                && (f is Transport || f is OutcomeUnknown) && !spec_operations_can_replay(operations@) && !r.1@,
            wire_grew(old(self).wire@, final(self).wire@),
            r.0 matches Ok(reply) ==> session_exchange(final(self).wire@, old(self).wire@.len() as int, operations@, reply),
            !old(self).recovery_pending && !old(self).lease_failed && !spec_operations_can_replay(operations@)
                && final(self).wire@.len() > old(self).wire@.len()
                && session_reply_lost(final(self).wire@[old(self).wire@.len() as int], operations@)
                ==> (r.0 matches Err(e) && (e is OutcomeUnknown || e is Cleanup)) && !r.1@,
            r.0 matches Ok(reply) ==> (spec_revoked_lock_status(reply.results@) is None ==> session_call(
                final(self).wire@, old(self).wire@.len() as int, final(self).minor_version, final(self).spec_last_sequence(), operations@, reply)),
    {
        if let Err(e) = validate_session_compound_operation_count(operations.len(), self.max_operations) {
            return (Err(e), Ghost(false), Ghost(None));
        }
        let can_replay_after_session_recovery = operations_can_replay_after_session_recovery(operations.as_slice());
        if self.lease_failed {
            self.recovery_pending = true;
        }
        if self.recovery_pending {
            if let Err(e) = self.recover_session() {
                return (Err(e), Ghost(false), Ghost(None));
            }
            if !can_replay_after_session_recovery {
                return (Err(Error::nfsv4("SEQUENCE", Status::BadSession)), Ghost(false), Ghost(None));
            }
        }
        if !operations_release_state(operations.as_slice()) {
            if let Err(e) = self.locks.ensure_valid() {
                return (Err(e), Ghost(false), Ghost(None));
            }
        }
        let ghost lost_lock_refusal = !old(self).recovery_pending && !old(self).lease_failed
            && !spec_operations_release_state(operations@) && old(self).locks.has_lost_lock();
        assert(!lost_lock_refusal);
        let policy = self.retry_policy;
        let mut retry: u32 = 0;
        let mut recovered_session = false;
        let ghost mut resent = false;
        loop
            invariant
                lost_lock_refusal == (!old(self).recovery_pending && !old(self).lease_failed
                    && !spec_operations_release_state(operations@) && old(self).locks.has_lost_lock()),
                !lost_lock_refusal,
                self.locks.ids() == old(self).locks.ids(),
                retry <= policy.max_retries,
                operations@.len() + 1 <= old(self).max_operations,
                can_replay_after_session_recovery == spec_operations_can_replay(operations@),
                recovered_session ==> can_replay_after_session_recovery,
                resent ==> can_replay_after_session_recovery,
                (old(self).recovery_pending || old(self).lease_failed) ==> can_replay_after_session_recovery,
                wire_grew(old(self).wire@, self.wire@),
                !can_replay_after_session_recovery && !old(self).recovery_pending && !old(self).lease_failed
                    && self.wire@.len() > old(self).wire@.len()
                    ==> !session_reply_lost(self.wire@[old(self).wire@.len() as int], operations@),
            decreases (if recovered_session { 0int } else { 1int }), policy.max_retries - retry,
        {
            proof {
                if recovered_session {
                    resent = true;
                }
            }
            let sequence = self.sequence_args();
            self.last_sequence = Ghost(sequence);
            let minor_version = self.minor_version;
            let ghost before = self.wire@;
            let response = match raw_compound_with_rpc(&mut self.rpc, &mut self.wire, "nfs-rs-v4", minor_version, Some(sequence), operations.as_slice()) {
                Ok(response) => response,
                Err(err) => {
                    let ghost w_failed = self.wire@;
                    proof {
                        if w_failed.len() > before.len() {
                            assert(w_failed[before.len() as int] == w_failed.last());
                        }
                    }
                    if err.is_transport_failure() && !recovered_session {
                        self.recovery_pending = true;
                        if let Err(recovery) = self.recover_session() {
                            return (Err(cleanup_error(err, "NFSv4 session recovery", Err(recovery))), Ghost(resent), Ghost(None));
                        }
                        if can_replay_after_session_recovery {
                            recovered_session = true;
                            continue;
                        }
                        proof {
                            if w_failed.len() > before.len() {
                                assert(self.wire@[before.len() as int] == w_failed[before.len() as int]);
                            }
                        }
                        return (Err(err), Ghost(resent), Ghost(Some(err)));
                    }
                    return (Err(err), Ghost(resent), Ghost(None));
                },
            };
            let ghost w_sent = self.wire@;
            proof {
                assert(w_sent[before.len() as int] == w_sent.last());
                assert(session_exchange_at(w_sent[before.len() as int], operations@, response));
            }
            if sequence_succeeded(&response) {
                self.sequence_id = next_sequence_id(self.sequence_id);
            }
            if response_revoked_lock_status(&response).is_some() {
                if let Err(e) = self.check_revoked_locks() {
                    return (Err(e), Ghost(resent), Ghost(None));
                }
                if !operations_release_state(operations.as_slice()) {
                    if let Err(e) = self.locks.ensure_valid() {
                        return (Err(e), Ghost(resent), Ghost(None));
                    }
                }
            }
            if response_requires_session_recovery(&response) && !recovered_session {
                let err = session_recovery_error(&response);
                if let Err(e) = self.recover_session() {
                    return (Err(e), Ghost(resent), Ghost(None));
                }
                if !can_replay_after_session_recovery {
                    return (Err(err), Ghost(resent), Ghost(None));
                }
                recovered_session = true;
                continue;
            }
            if response_allows_delayed_retry(operations.as_slice(), &response) {
                if let Some(delay) = policy.delay_for_retry(retry) {
                    retry = retry + 1;
                    self.rpc.pause(delay);
                    continue;
                }
            }
            self.last_compound = Ghost(Some((operations@, response)));
            proof {
                assert(self.wire@[before.len() as int] == w_sent[before.len() as int]);
                assert(session_exchange_at(self.wire@[before.len() as int], operations@, response));
            }
            return (Ok(response), Ghost(resent), Ghost(None));
        }
    }

    /// Sends a COMPOUND in the session during recovery: prefixes SEQUENCE and
    /// retries delayed replies, but never rebuilds the session.
    fn recovery_compound(&mut self, operations: Vec<Operation>) -> (r: Result<CompoundResponse>)
        ensures
            final(self).recovery_pending == old(self).recovery_pending,
            operations@.len() + 1 > old(self).max_operations ==> r is Err,
            final(self).locks == old(self).locks,
            final(self).client_id == old(self).client_id,
            final(self).open_seqid == old(self).open_seqid,
            final(self).max_operations == old(self).max_operations,
            final(self).minor_version == old(self).minor_version,
            final(self).session_id == old(self).session_id,
            wire_grew(old(self).wire@, final(self).wire@),
            forall|j: int| old(self).wire@.len() <= j < final(self).wire@.len() ==> (#[trigger] final(self).wire@[j]).4 == operations@,
            operations@.len() + 1 <= old(self).max_operations && compound_encodable("nfs-rs-recovery"@, true, operations@)
                ==> final(self).wire@.len() > old(self).wire@.len(),
            final(self).wire@.len() > old(self).wire@.len() ==> compound_encodable("nfs-rs-recovery"@, true, operations@),
            r is Err && final(self).wire@.len() > old(self).wire@.len() ==> !call_returned(final(self).wire@.last()),
            r matches Ok(reply) ==> final(self).wire@.len() > old(self).wire@.len()
                && recovery_call(final(self).wire@.last(), final(self).minor_version, operations@, reply)
                && (final(self).wire@.last().3 matches Some(a) && a.session_id == final(self).session_id),
    {
        validate_session_compound_operation_count(operations.len(), self.max_operations)?;
        let policy = self.retry_policy;
        let mut retry: u32 = 0;
        loop
            invariant
                retry <= policy.max_retries,
                operations@.len() + 1 <= self.max_operations,
                self.locks == old(self).locks,
                self.client_id == old(self).client_id,
                self.open_seqid == old(self).open_seqid,
                self.max_operations == old(self).max_operations,
                self.minor_version == old(self).minor_version,
                self.recovery_pending == old(self).recovery_pending,
                self.session_id == old(self).session_id,
                wire_grew(old(self).wire@, self.wire@),
                forall|j: int| old(self).wire@.len() <= j < self.wire@.len() ==> (#[trigger] self.wire@[j]).4 == operations@,
                retry > 0 ==> self.wire@.len() > old(self).wire@.len(),
                self.wire@.len() > old(self).wire@.len() ==> compound_encodable("nfs-rs-recovery"@, true, operations@),
            decreases policy.max_retries - retry,
        {
            let sequence = self.sequence_args();
            let minor_version = self.minor_version;
            let ghost before = self.wire@;
            let response = raw_compound_with_rpc(&mut self.rpc, &mut self.wire, "nfs-rs-recovery", minor_version, Some(sequence), operations.as_slice())?;
            proof {
                lemma_wire_push(old(self).wire@, before, self.wire@);
            }
            if sequence_succeeded(&response) {
                self.sequence_id = next_sequence_id(self.sequence_id);
            }
            if response_allows_delayed_retry(operations.as_slice(), &response) {
                if let Some(delay) = policy.delay_for_retry(retry) {
                    retry = retry + 1;
                    self.rpc.pause(delay);
                    continue;
                }
            }
            return Ok(response);
        }
    }

    /// Recreates the session and preserves or reclaims tracked byte-range
    /// locks; a lock the server can no longer restore is marked lost.
    #[verifier::rlimit(100)]
    #[verifier::spinoff_prover]
    fn recover_session(&mut self) -> (r: Result<()>)
        ensures
            r is Ok ==> !final(self).locks.has_lost_lock() && !final(self).recovery_pending,
            final(self).locks.ids() == old(self).locks.ids(),
            final(self).locks.states().len() == old(self).locks.states().len(),
            r is Ok ==> forall|i: int| 0 <= i < old(self).locks.states().len() ==> lock_recovered(
                old(self).locks.states()[i], #[trigger] final(self).locks.states()[i], final(self).client_id),
            forall|i: int| 0 <= i < old(self).locks.states().len() ==> lock_settled(
                old(self).locks.states()[i], #[trigger] final(self).locks.states()[i]),
            forall|i: int| 0 <= i < old(self).locks.states().len() && old(self).locks.states()[i].lost is None
                && (#[trigger] final(self).locks.states()[i]).lost is Some ==> (r matches Err(e) && e is LockLost),
            r is Ok ==> exists|k: int| old(self).wire@.len() <= k < final(self).wire@.len()
                && #[trigger] reclaim_completed(final(self).wire@[k], final(self).session_id)
                && forall|i: int| 0 <= i < old(self).locks.states().len() && old(self).locks.states()[i].lost is None
                    && old(self).locks.states()[i].client_id != final(self).client_id
                    ==> reclaimed_before(final(self).wire@, old(self).wire@.len() as int, k,
                        old(self).locks.states()[i], #[trigger] final(self).locks.states()[i]),
            wire_grew(old(self).wire@, final(self).wire@),
    {
        self.recovery_pending = true;
        let _ = self.stop_lease_renewal();
        let mut rebuilt = self.connect_replacement_session()?;
        rebuilt.locks = self.locks.clone();
        rebuilt.id_counter = self.id_counter;
        if rebuilt.client_id == self.client_id {
            rebuilt.open_seqid = self.open_seqid;
        }
        let ghost before = self.locks.states();
        let ghost start = old(self).wire@.len() as int;
        let states = self.locks.snapshot();
        let n = states.len();
        let mut index: usize = 0;
        while index < n
            invariant
                self.locks.ids() == old(self).locks.ids(),
                self.locks == old(self).locks,
                before == old(self).locks.states(),
                start == old(self).wire@.len(),
                rebuilt.locks.ids() == old(self).locks.ids(),
                !rebuilt.recovery_pending,
                wire_grew(old(self).wire@, rebuilt.wire@),
                wire_grew(old(self).wire@, self.wire@),
                index <= n == states@.len() == before.len(),
                rebuilt.locks.states().len() == n,
                forall|j: int| 0 <= j < n ==> same_lock_state(#[trigger] states@[j], before[j]),
                forall|j: int| 0 <= j < index ==> lock_kept(before[j], #[trigger] rebuilt.locks.states()[j], rebuilt.client_id),
                forall|j: int| 0 <= j < index ==> lock_settled(before[j], #[trigger] rebuilt.locks.states()[j]),
                forall|j: int| 0 <= j < index && before[j].lost is None && before[j].client_id != rebuilt.client_id
                    && (#[trigger] rebuilt.locks.states()[j]).lost is None
                    ==> reclaimed_before(rebuilt.wire@, start, rebuilt.wire@.len() as int, before[j], rebuilt.locks.states()[j]),
                forall|j: int| index <= j < n ==> same_lock_state(#[trigger] rebuilt.locks.states()[j], before[j]),
            decreases n - index,
        {
            let state = &states[index];
            let ghost w0 = rebuilt.wire@;
            let ghost s0 = rebuilt.locks.states();
            if state.lost.is_none() {
                let recovered = if state.client_id == rebuilt.client_id {
                    match rebuilt.check_recovered_lock(state) {
                        Ok(()) => Ok(copy_lock_state(state)),
                        Err(e) => Err(e),
                    }
                } else {
                    rebuilt.reclaim_lock(state)
                };
                let ghost w1 = rebuilt.wire@;
                let ghost reclaimed = state.client_id != rebuilt.client_id && recovered is Ok;
                proof {
                    if reclaimed {
                        let n1 = recovered->Ok_0;
                        lemma_reclaimed_same_lock(w1, w0.len() as int, w1.len() as int, *state, before[index as int], n1);
                        lemma_reclaimed_before_grow(w1, w1, w0.len() as int, w1.len() as int, start, w1.len() as int,
                            before[index as int], n1);
                    }
                }
                let new_state = settle_recovered_lock(state, recovered)?;
                rebuilt.locks.restore(index, new_state);
                proof {
                    assert forall|j: int| 0 <= j <= index implies lock_kept(before[j], #[trigger] rebuilt.locks.states()[j], rebuilt.client_id)
                        && lock_settled(before[j], rebuilt.locks.states()[j]) by {
                        if j == index {
                            assert(rebuilt.locks.states()[j] == new_state);
                        } else {
                            assert(rebuilt.locks.states()[j] == s0[j]);
                        }
                    }
                    assert forall|j: int| 0 <= j <= index && before[j].lost is None && before[j].client_id != rebuilt.client_id
                        && (#[trigger] rebuilt.locks.states()[j]).lost is None
                        implies reclaimed_before(rebuilt.wire@, start, rebuilt.wire@.len() as int, before[j], rebuilt.locks.states()[j]) by {
                        if j == index {
                            assert(rebuilt.locks.states()[j] == new_state);
                        } else {
                            assert(rebuilt.locks.states()[j] == s0[j]);
                            lemma_reclaimed_before_grow(w0, rebuilt.wire@, start, w0.len() as int, start, rebuilt.wire@.len() as int,
                                before[j], s0[j]);
                        }
                    }
                }
            }
            index = index + 1;
        }
        let ghost w2 = rebuilt.wire@;
        let reclaim_ops = vec![Operation::ReclaimComplete { one_fs: false }];
        proof {
            assert(reclaim_ops@ =~= seq![Operation::ReclaimComplete { one_fs: false }]);
        }
        let response = rebuilt.recovery_compound(reclaim_ops)?;
        ensure_reclaim_complete(&response)?;
        let ghost k = rebuilt.wire@.len() - 1;
        let ghost w3 = rebuilt.wire@;
        proof {
            assert(w3[k] == w3.last());
            assert(reclaim_completed(w3[k], rebuilt.session_id));
        }
        if self.root_fsinfo.is_some() {
            rebuilt.refresh_recovered_fsinfo()?;
        }
        rebuilt.start_lease_renewal()?;
        proof {
            assert(rebuilt.wire@[k] == w3[k]);
            assert forall|i: int| 0 <= i < before.len() && before[i].lost is None && before[i].client_id != rebuilt.client_id
                && (#[trigger] rebuilt.locks.states()[i]).lost is None
                implies reclaimed_before(rebuilt.wire@, start, k, before[i], rebuilt.locks.states()[i]) by {
                lemma_reclaimed_before_grow(w2, rebuilt.wire@, start, w2.len() as int, start, k, before[i], rebuilt.locks.states()[i]);
            }
        }
        let mut old = rebuilt;
        core::mem::swap(self, &mut old);
        let _ = old.shutdown();
        self.locks.ensure_valid()
    }

    /// Opens a new session for the same client, retrying while the
    /// transport fails and the retry policy allows it.
    fn connect_replacement_session(&mut self) -> (r: Result<Self>)
        ensures
            r matches Ok(c) ==> !c.recovery_pending,
            final(self).locks.ids() == old(self).locks.ids(),
            final(self).locks == old(self).locks,
            r matches Ok(c) ==> wire_grew(old(self).wire@, c.wire@),
            final(self).wire == old(self).wire,
    {
        let policy = self.retry_policy;
        let mut retry: u32 = 0;
        loop
            invariant
                self.locks.ids() == old(self).locks.ids(),
                self.locks == old(self).locks,
                self.wire == old(self).wire,
                retry <= policy.max_retries,
            decreases policy.max_retries - retry,
        {
            let mut log: Ghost<Seq<WireCall>> = Ghost(self.wire@);
            let mut tried: Ghost<Seq<(u32, Error)>> = Ghost(Seq::empty());
            match Self::connect_session(&mut self.rpc, &mut log, &mut tried, self.builder.clone(), false) {
                Ok(client) => return Ok(client),
                Err(err) => {
                    if err.is_transport_failure() {
                        match policy.delay_for_retry(retry) {
                            Some(delay) => {
                                retry = retry + 1;
                                self.rpc.pause(delay);
                            },
                            None => return Err(err),
                        }
                    } else {
                        return Err(err);
                    }
                },
            }
        }
    }

    fn refresh_recovered_fsinfo(&mut self) -> (r: Result<()>)
        ensures
            final(self).session_id == old(self).session_id,
            final(self).recovery_pending == old(self).recovery_pending,
            final(self).locks.ids() == old(self).locks.ids(),
            final(self).locks == old(self).locks,
            final(self).client_id == old(self).client_id,
            wire_grew(old(self).wire@, final(self).wire@),
    {
        let response = self.recovery_compound(vec![
            Operation::PutRootFh,
            Operation::GetAttr(supported_attrs_mask()),
        ])?;
        response.ensure_ok()?;
        let supported = response_getattr(&response)?.parse_supported_attrs()?;
        let attrmask = Bitmap::from_supported_attrs(&supported, &FATTR4_FSINFO_ATTRS)?;
        let attrs = if attrmask.is_empty() {
            Fattr { attrmask, attr_vals: Vec::new() }
        } else {
            let response = self.recovery_compound(vec![Operation::PutRootFh, Operation::GetAttr(attrmask)])?;
            response.ensure_ok()?;
            response_getattr(&response)?
        };
        let fsinfo = attrs.parse_fsinfo()?;
        self.apply_fsinfo_limits(&fsinfo)?;
        self.root_fsinfo = Some(fsinfo);
        Ok(())
    }

    #[verifier::rlimit(100)]
    #[verifier::spinoff_prover]
    fn check_revoked_locks(&mut self) -> (r: Result<()>)
        ensures
            final(self).locks.ids() == old(self).locks.ids(),
            final(self).locks.states().len() == old(self).locks.states().len(),
            forall|i: int| 0 <= i < old(self).locks.states().len() ==> revocation_checked(
                old(self).locks.states()[i], #[trigger] final(self).locks.states()[i]),
            r is Ok ==> forall|i: int| 0 <= i < old(self).locks.states().len() ==> revocation_tested(final(self).wire@,
                old(self).wire@.len() as int, old(self).locks.states()[i], #[trigger] final(self).locks.states()[i]),
            wire_grew(old(self).wire@, final(self).wire@),
    {
        let ghost before = self.locks.states();
        let ghost start = self.wire@.len() as int;
        let states = self.locks.snapshot();
        let n = states.len();
        let mut index: usize = 0;
        while index < n
            invariant
                self.locks.ids() == old(self).locks.ids(),
                before == old(self).locks.states(),
                start == old(self).wire@.len(),
                index <= n == states@.len() == before.len(),
                self.locks.states().len() == n,
                forall|j: int| 0 <= j < n ==> same_lock_state(#[trigger] states@[j], before[j]),
                forall|j: int| 0 <= j < n ==> revocation_checked(before[j], #[trigger] self.locks.states()[j]),
                forall|j: int| index <= j < n ==> #[trigger] self.locks.states()[j] == before[j],
                forall|j: int| 0 <= j < index ==> revocation_tested(self.wire@, start, before[j], #[trigger] self.locks.states()[j]),
                wire_grew(old(self).wire@, self.wire@),
            decreases n - index,
        {
            let ghost w_iter = self.wire@;
            let mut lock = copy_lock_state(&states[index]);
            if lock.lost.is_none() {
                let ids = vec![lock.open_stateid, lock.lock_stateid];
                let test_ops = vec![Operation::TestStateIds(vec![lock.open_stateid, lock.lock_stateid])];
                let ghost tops = test_ops@;
                let response = self.recovery_compound(test_ops)?;
                response.ensure_ok()?;
                let statuses = response_test_stateids(&response, ids.len())?;
                let ghost test_at = self.wire@.len() - 1;
                let ghost w_test = self.wire@;
                proof {
                    assert(w_test[test_at] == w_test.last());
                    assert(stateids_tested(w_test[test_at], before[index as int], statuses));
                    assert forall|j: int| 0 <= j < index implies revocation_tested(self.wire@, start, before[j],
                        #[trigger] self.locks.states()[j]) by {
                        lemma_revocation_tested_grow(w_iter, self.wire@, start, before[j], self.locks.states()[j]);
                    }
                    assert(statuses@.take(0) =~= Seq::<Status>::empty());
                }
                let mut k: usize = 0;
                while k < statuses.len() && k < ids.len()
                    invariant
                        self.locks.ids() == old(self).locks.ids(),
                        before == old(self).locks.states(),
                        start == old(self).wire@.len(),
                        k <= statuses@.len(),
                        k <= 2,
                        ids@ == seq![before[index as int].open_stateid, before[index as int].lock_stateid],
                        self.locks.states().len() == n == before.len(),
                        index < n,
                        revocation_checked(before[index as int], lock),
                        before[index as int].lost is None,
                        same_lock_except_lost(lock, before[index as int]),
                        lock.lost == last_failing_status(statuses@.take(k as int)),
                        self.locks.states()[index as int].lost == lock.lost,
                        same_lock_except_lost(self.locks.states()[index as int], before[index as int]),
                        2 <= self.max_operations,
                        start <= test_at < w_test.len(),
                        wire_grew(old(self).wire@, w_test),
                        wire_grew(w_test, self.wire@),
                        stateids_tested(w_test[test_at], before[index as int], statuses),
                        forall|kk: int| 0 <= kk < k && statuses@[kk] != Status::NfsOk ==> exists|j: int| test_at < j < self.wire@.len()
                            && #[trigger] stateid_freed(self.wire@[j], tested_stateid(before[index as int], kk)),
                        forall|j: int| 0 <= j < n ==> revocation_checked(before[j], #[trigger] self.locks.states()[j]),
                        forall|j: int| index < j < n ==> #[trigger] self.locks.states()[j] == before[j],
                        forall|j: int| 0 <= j < index ==> revocation_tested(self.wire@, start, before[j], #[trigger] self.locks.states()[j]),
                    decreases statuses@.len() - k,
                {
                    let status = statuses[k];
                    proof {
                        assert(statuses@.take(k + 1).drop_last() =~= statuses@.take(k as int));
                    }
                    if !status.is_ok() {
                        lock.lost = Some(status);
                        self.locks.restore(index, copy_lock_state(&lock));
                        proof {
                            assert forall|j: int| 0 <= j < n implies revocation_checked(before[j], #[trigger] self.locks.states()[j]) by {
                                if j == index {
                                    assert(same_lock_state(self.locks.states()[j], lock));
                                }
                            }
                        }
                        let ghost w_free = self.wire@;
                        let ghost s_free = self.locks.states();
                        let free_ops = vec![Operation::FreeStateId(ids[k])];
                        proof {
                            reveal_strlit("nfs-rs-recovery");
                            assert(vstd::utf8::is_ascii_chars("nfs-rs-recovery"@));
                            lemma_ascii_tag_fits("nfs-rs-recovery"@);
                            assert(free_ops@[0].xdr_encodable());
                            assert(items_encodable(free_ops@));
                            assert(compound_encodable("nfs-rs-recovery"@, true, free_ops@));
                            assert(free_ops@ =~= seq![Operation::FreeStateId(tested_stateid(before[index as int], k as int))]);
                        }
                        let _ = self.recovery_compound(free_ops);
                        proof {
                            let j = w_free.len() as int;
                            assert(stateid_freed(self.wire@[j], tested_stateid(before[index as int], k as int)));
                            assert forall|kk: int| 0 <= kk < k && statuses@[kk] != Status::NfsOk implies exists|j: int| test_at < j < self.wire@.len()
                                && #[trigger] stateid_freed(self.wire@[j], tested_stateid(before[index as int], kk)) by {
                                let j = choose|j: int| test_at < j < w_free.len()
                                    && #[trigger] stateid_freed(w_free[j], tested_stateid(before[index as int], kk));
                                assert(self.wire@[j] == w_free[j]);
                                assert(stateid_freed(self.wire@[j], tested_stateid(before[index as int], kk)));
                            }
                            assert forall|j: int| 0 <= j < index implies revocation_tested(self.wire@, start, before[j],
                                #[trigger] self.locks.states()[j]) by {
                                assert(self.locks.states()[j] == s_free[j]);
                                lemma_revocation_tested_grow(w_free, self.wire@, start, before[j], s_free[j]);
                            }
                        }
                    }
                    k = k + 1;
                }
                proof {
                    let fin = self.locks.states()[index as int];
                    assert(statuses@.take(k as int) =~= tested_statuses(statuses@));
                    assert(w_test[test_at] == self.wire@[test_at]);
                    assert(stateids_tested(self.wire@[test_at], before[index as int], statuses));
                    assert(revocation_tested(self.wire@, start, before[index as int], fin));
                }
            }
            index = index + 1;
        }
        Ok(())
    }

    fn check_recovered_lock(&mut self, lock: &LockState) -> (r: Result<()>)
        ensures
            final(self).recovery_pending == old(self).recovery_pending,
            final(self).locks == old(self).locks,
            final(self).client_id == old(self).client_id,
            wire_grew(old(self).wire@, final(self).wire@),
    {
        let response = self.recovery_compound(vec![Operation::TestStateIds(vec![lock.open_stateid, lock.lock_stateid])])?;
        response.ensure_ok()?;
        let statuses = response_test_stateids(&response, 2)?;
        let mut k: usize = 0;
        while k < statuses.len()
            invariant
                k <= statuses@.len(),
                self.locks == old(self).locks,
                self.client_id == old(self).client_id,
                self.recovery_pending == old(self).recovery_pending,
                wire_grew(old(self).wire@, self.wire@),
            decreases statuses@.len() - k,
        {
            if !statuses[k].is_ok() {
                return Err(Error::nfsv4("TEST_STATEID", statuses[k]));
            }
            k = k + 1;
        }
        Ok(())
    }

    #[verifier::rlimit(100)]
    #[verifier::spinoff_prover]
    fn reclaim_lock(&mut self, lock: &LockState) -> (r: Result<LockState>)
        ensures
            final(self).recovery_pending == old(self).recovery_pending,
            final(self).locks == old(self).locks,
            final(self).client_id == old(self).client_id,
            r matches Ok(n) ==> n.client_id == old(self).client_id && n.lock_seqid == 2
                && n.handle.bytes() == lock.handle.bytes() && n.offset == lock.offset && n.length == lock.length
                && n.lock_type == lock.lock_type && n.owner@ == lock.owner@ && n.open_owner@ == lock.open_owner@
                && n.lost == lock.lost,
            wire_grew(old(self).wire@, final(self).wire@),
            r matches Ok(n) ==> reclaimed_before(final(self).wire@, old(self).wire@.len() as int, final(self).wire@.len() as int, *lock, n),
            r is Err ==> forall|j: int| old(self).wire@.len() <= j < final(self).wire@.len()
                && #[trigger] lock_reclaim_of(final(self).wire@[j], *lock) && call_returned(final(self).wire@[j])
                && (j + 1 == final(self).wire@.len() || !lock_reclaim_of(final(self).wire@[j + 1], *lock))
                ==> j + 1 < final(self).wire@.len() && close_of(final(self).wire@[j + 1], *lock),
    {
        let ghost start = self.wire@;
        let open_ops = vec![
            Operation::PutFh(lock.handle.clone()),
            Operation::Open(OpenArgs {
                seqid: self.current_open_seqid(),
                share_access: lock_share_access(lock.lock_type) | OPEN4_SHARE_ACCESS_WANT_NO_DELEG,
                share_deny: OPEN4_SHARE_DENY_NONE,
                owner: OpenOwner { client_id: self.client_id, owner: copy_bytes(lock.open_owner.as_slice()) },
                openhow: OpenHow::NoCreate,
                claim: OpenClaim::Previous(OpenDelegationType::NoDelegation),
            }),
        ];
        let ghost oops = open_ops@;
        let response = self.recovery_compound(open_ops)?;
        let ghost open_index = self.wire@.len() - 1;
        let ghost open_call = self.wire@.last();
        let ghost open_response = response;
        if response_consumed_owner_seqid(&response, OpCode::Open) {
            self.advance_open_seqid();
        }
        response.ensure_ok()?;
        let open = response_open(&response)?;
        proof {
            assert(response_open_outcome(response, Ok(open)));
        }
        let ghost after_open = self.wire@;
        proof {
            assert forall|j: int| start.len() <= j < self.wire@.len() implies !lock_reclaim_of(#[trigger] self.wire@[j], *lock) by {
                assert(self.wire@[j].4 == oops);
            }
        }
        if let Some(stateid) = validate_open_result(&open, self.minor_version)? {
            let deleg_ops = vec![Operation::PutFh(lock.handle.clone()), Operation::DelegReturn(stateid)];
            let ghost dops = deleg_ops@;
            let returned = self.recovery_compound(deleg_ops);
            proof {
                assert forall|j: int| start.len() <= j < self.wire@.len() implies !lock_reclaim_of(#[trigger] self.wire@[j], *lock) by {
                    if j >= after_open.len() {
                        assert(self.wire@[j].4 == dops);
                    } else {
                        assert(self.wire@[j] == after_open[j]);
                    }
                }
            }
            returned?.ensure_ok()?;
        }
        let ghost before_lock = self.wire@;
        let lock_ops = vec![
            Operation::PutFh(lock.handle.clone()),
            Operation::Lock(LockArgs {
                lock_type: lock.lock_type,
                reclaim: true,
                offset: lock.offset,
                length: lock.length,
                locker: Locker::New {
                    open_seqid: self.current_open_seqid(),
                    open_stateid: open.stateid,
                    lock_seqid: 1,
                    lock_owner: LockOwner { client_id: self.client_id, owner: copy_bytes(lock.owner.as_slice()) },
                },
            }),
        ];
        let ghost lops = lock_ops@;
        let locked_reply = self.recovery_compound(lock_ops);
        proof {
            assert forall|j: int| start.len() <= j < self.wire@.len() && #[trigger] lock_reclaim_of(self.wire@[j], *lock)
                implies j >= before_lock.len() by {
                if j < before_lock.len() {
                    assert(self.wire@[j] == before_lock[j]);
                }
            }
        }
        let response = locked_reply?;
        let ghost lock_call = self.wire@.last();
        let ghost lock_index = self.wire@.len() - 1;
        if response_consumed_owner_seqid(&response, OpCode::Lock) {
            self.advance_open_seqid();
        }
        let locked = match response.ensure_ok() {
            Ok(()) => response_lock(&response),
            Err(e) => Err(e),
        };
        match locked {
            Ok(lock_stateid) => {
                let n = LockState {
                    client_id: self.client_id,
                    open_owner: copy_bytes(lock.open_owner.as_slice()),
                    handle: lock.handle.clone(),
                    open_stateid: open.stateid,
                    lock_stateid,
                    lock_seqid: 2,
                    lock_type: lock.lock_type,
                    offset: lock.offset,
                    length: lock.length,
                    owner: copy_bytes(lock.owner.as_slice()),
                    lost: lock.lost,
                };
                proof {
                    assert(response_lock_outcome(response, Ok(lock_stateid)));
                    assert(self.wire@[open_index] == open_call);
                    assert(self.wire@[lock_index] == lock_call);
                    assert(open_call.5 matches Some(answer) && answer.1 == open_response);
                    assert(reclaim_sent(open_call, lock_call, *lock, n));
                }
                Ok(n)
            },
            Err(err) => {
                let ghost after_lock = self.wire@;
                let close_ops = vec![
                    Operation::PutFh(lock.handle.clone()),
                    Operation::Close { seqid: self.current_open_seqid(), stateid: open.stateid },
                ];
                let ghost cops = close_ops@;
                proof {
                    reveal_strlit("nfs-rs-recovery");
                    assert(vstd::utf8::is_ascii_chars("nfs-rs-recovery"@));
                    lemma_ascii_tag_fits("nfs-rs-recovery"@);
                    assert(compound_encodable("nfs-rs-recovery"@, true, lops));
                    assert(lops[0].xdr_encodable());
                    assert(cops[0].xdr_encodable());
                    assert(cops[1].xdr_encodable());
                    assert(items_encodable(cops));
                    assert(compound_encodable("nfs-rs-recovery"@, true, cops));
                }
                let _ = self.recovery_compound(close_ops);
                self.advance_open_seqid();
                proof {
                    let c = after_lock.len() as int;
                    assert(self.wire@[c].4 == cops);
                    assert(close_of(self.wire@[c], *lock));
                    assert forall|j: int| start.len() <= j < self.wire@.len() && #[trigger] lock_reclaim_of(self.wire@[j], *lock)
                        && call_returned(self.wire@[j])
                        && (j + 1 == self.wire@.len() || !lock_reclaim_of(self.wire@[j + 1], *lock))
                        implies j + 1 < self.wire@.len() && close_of(self.wire@[j + 1], *lock) by {
                        if j >= c {
                            assert(self.wire@[j].4 == cops);
                        } else {
                            assert(self.wire@[j] == after_lock[j]);
                            if j + 1 < c {
                                assert(self.wire@[j + 1] == after_lock[j + 1]);
                                assert(after_lock[j + 1].4 == lops);
                            }
                        }
                    }
                }
                Err(err)
            },
        }
    }

    fn refresh_root_fsinfo(&mut self) -> (r: Result<()>)
        ensures
            final(self).locks.ids() == old(self).locks.ids(),
            r is Ok ==> final(self).root_fsinfo is Some,
    {
        let fsinfo = self.fsinfo("/")?;
        self.apply_fsinfo_limits(&fsinfo)?;
        self.root_fsinfo = Some(fsinfo);
        Ok(())
    }

    fn apply_fsinfo_limits(&mut self, fsinfo: &FsInfo) -> (r: Result<()>)
        ensures
            final(self).session_id == old(self).session_id,
            final(self).recovery_pending == old(self).recovery_pending,
            final(self).locks.ids() == old(self).locks.ids(),
            final(self).locks == old(self).locks,
            final(self).client_id == old(self).client_id,
            final(self).read_size == clamp_read_limit(old(self).builder.read_size, old(self).max_response_size, fsinfo.max_read),
            final(self).write_size == clamp_read_limit(old(self).builder.write_size, old(self).max_request_size, fsinfo.max_write),
            final(self).wire == old(self).wire,
    {
        let read_limit = min_u32(self.builder.read_size, session_payload_limit(self.max_response_size));
        let write_limit = min_u32(self.builder.write_size, session_payload_limit(self.max_request_size));
        let dir_limit = min_u32(self.builder.dir_size, session_payload_limit(self.max_response_size));
        self.read_size = clamp_io_size(fsinfo.max_read, read_limit);
        self.write_size = clamp_io_size(fsinfo.max_write, write_limit);
        self.dir_size = dir_limit;
        let sizes = [self.read_size, self.write_size, self.dir_size];
        self.rpc.set_max_record_size(max_record_size_for_payloads(&sizes))?;
        Ok(())
    }

    /// Suggested heartbeat interval derived from the server's advertised
    /// lease: a third of the lease time.
    pub fn lease_renewal_interval(&self) -> (r: Option<Duration>)
        ensures
            r == spec_lease_renewal_interval(self.spec_root_fsinfo()),
    {
        match &self.root_fsinfo {
            Some(info) => renewal_interval(info.lease_time_seconds),
            None => None,
        }
    }

    fn stop_lease_renewal(&mut self) -> (r: Result<()>)
        ensures
            final(self).locks.ids() == old(self).locks.ids(),
            final(self).locks == old(self).locks,
            wire_grew(old(self).wire@, final(self).wire@),
    {
        let keeper = self.lease_keeper.take();
        self.lease_failed = false;
        match keeper {
            Some(keeper) => {
                let session_id = keeper.session_id;
                let minor_version = self.minor_version;
                let response = self.raw_compound("destroy-lease-session", minor_version, &[Operation::DestroySession(session_id)])?;
                if response.status != Status::BadSession && response.status != Status::DeadSession {
                    response.ensure_ok()?;
                }
                Ok(())
            },
            None => Ok(()),
        }
    }

    fn start_lease_renewal(&mut self) -> (r: Result<()>)
        ensures
            final(self).session_id == old(self).session_id,
            final(self).recovery_pending == old(self).recovery_pending,
            final(self).root_fsinfo == old(self).root_fsinfo,
            final(self).locks.ids() == old(self).locks.ids(),
            final(self).locks == old(self).locks,
            final(self).client_id == old(self).client_id,
            final(self).wire == old(self).wire,
    {
        if !self.builder.automatic_lease_renewal {
            return Ok(());
        }
        let interval = match self.lease_renewal_interval() {
            Some(interval) => interval,
            None => return Err(protocol("server did not advertise a usable NFSv4 lease time")),
        };
        let mut builder = self.builder.clone();
        builder.automatic_lease_renewal = false;
        builder.timeout = Some(lease_session_timeout(builder.timeout, interval));
        let mut log: Ghost<Seq<WireCall>> = Ghost(Seq::empty());
        let mut tried: Ghost<Seq<(u32, Error)>> = Ghost(Seq::empty());
        let keeper = Self::connect_session(&mut self.rpc, &mut log, &mut tried, builder, false)?;
        if keeper.client_id != self.client_id {
            let _ = keeper.shutdown();
            return Err(Error::nfsv4("EXCHANGE_ID", Status::StaleClientId));
        }
        self.lease_keeper = Some(Box::new(keeper));
        self.lease_failed = false;
        Ok(())
    }

    /// Sends one heartbeat on the lease session; returns whether the lease
    /// is still healthy. A failed heartbeat makes the next operation rebuild
    /// the session. Without lease renewal this does nothing.
    pub fn lease_heartbeat(&mut self) -> (r: bool)
        ensures
            !r ==> final(self).spec_lease_failed(),
    {
        let mut keeper = match self.lease_keeper.take() {
            Some(keeper) => keeper,
            None => return !self.lease_failed,
        };
        let healthy = match keeper.recovery_compound(Vec::new()) {
            Ok(response) => response.status == Status::NfsOk && response_revoked_lock_status(&response).is_none(),
            Err(_) => false,
        };
        self.lease_keeper = Some(keeper);
        if !healthy {
            self.lease_failed = true;
        }
        healthy && !self.lease_failed
    }

    /// Sends an empty COMPOUND to keep the session lease fresh.
    pub fn renew(&mut self) -> (r: Result<()>)
        ensures
            r is Ok ==> (final(self).spec_last_compound() matches Some((ops, reply))
                && ops.len() == 0 && reply.status == Status::NfsOk),
    {
        self.compound(Vec::new())?;
        Ok(())
    }

    /// Destroys the NFSv4 session.
    ///
    /// Dropping the client closes the connection, but explicit shutdown is
    /// preferred when the server should release session resources promptly.
    pub fn shutdown(self) -> (r: Result<()>) {
        let mut this = self;
        this.stop_lease_renewal()?;
        let minor_version = this.minor_version;
        let session_id = this.session_id;
        let response = this.raw_compound("destroy-session", minor_version, &[Operation::DestroySession(session_id)])?;
        response.ensure_ok()
    }

    /// Destroys the session and then the NFSv4 client id.
    pub fn destroy_client_id(self) -> (r: Result<()>) {
        let mut this = self;
        this.stop_lease_renewal()?;
        let minor_version = this.minor_version;
        let session_id = this.session_id;
        let session_response = this.raw_compound("destroy-session", minor_version, &[Operation::DestroySession(session_id)])?;
        session_response.ensure_ok()?;
        let client_id = this.client_id;
        let client_response = this.raw_compound("destroy-clientid", minor_version, &[Operation::DestroyClientId(client_id)])?;
        client_response.ensure_ok()
    }
}

/// The lease heartbeat interval for a lease of the given length: a third
/// of a positive lease time.
pub open spec fn spec_renewal_interval(lease_time_seconds: Option<u32>) -> Option<Duration> {
    match lease_time_seconds {
        Some(seconds) => if seconds > 0 {
            Some(duration_of_nanos((seconds as int * 1_000_000_000 / 3) as u64))
        } else {
            None
        },
        None => None,
    }
}

/// The lease heartbeat interval for the root file system information.
pub open spec fn spec_lease_renewal_interval(root: Option<FsInfo>) -> Option<Duration> {
    match root {
        Some(info) => spec_renewal_interval(info.lease_time_seconds),
        None => None,
    }
}

/// The heartbeat interval for a lease of `lease_time_seconds` seconds: a
/// third of it; no interval for an unknown or zero lease time.
pub fn renewal_interval(lease_time_seconds: Option<u32>) -> (r: Option<Duration>)
    ensures
        r == spec_renewal_interval(lease_time_seconds),
{
    match lease_time_seconds {
        Some(seconds) => {
            if seconds > 0 {
                Some(duration_from_nanos(seconds as u64 * 1_000_000_000 / 3))
            } else {
                None
            }
        },
        None => None,
    }
}

/// The status under which a lock that recovery could not restore is
/// recorded as lost: a lost-state status, or one that says the file is gone.
pub open spec fn spec_lost_lock_status(err: Error) -> Option<Status> {
    match err {
        Error::NfsV4 { status, .. } => if status.spec_indicates_lost_state() || status == Status::Stale
            || status == Status::FhExpired || status == Status::BadHandle || status == Status::NoEnt {
            Some(status)
        } else {
            None
        },
        _ => None,
    }
}

/// What a tracked lock becomes after an attempt to restore it in a new
/// session: the restored record; or, when the server refused it with a
/// status that says the lock cannot come back, the old record marked lost
/// with that status; or else the error, which ends the recovery.
pub fn settle_recovered_lock(state: &LockState, recovered: Result<LockState>) -> (r: Result<LockState>)
    ensures
        recovered matches Ok(n) ==> r == Ok::<LockState, Error>(n),
        recovered matches Err(e) ==> match spec_lost_lock_status(e) {
            Some(status) => r matches Ok(l) && same_lock_except_lost(l, *state) && l.lost == Some(status),
            None => r == Err::<LockState, Error>(e),
        },
{
    match recovered {
        Ok(n) => Ok(n),
        Err(err) => match lost_lock_status(&err) {
            Some(status) => {
                let mut lost = copy_lock_state(state);
                lost.lost = Some(status);
                Ok(lost)
            },
            None => Err(err),
        },
    }
}

fn lost_lock_status(err: &Error) -> (r: Option<Status>)
    ensures
        r == spec_lost_lock_status(*err),
{
    match err {
        Error::NfsV4 { status, .. } => {
            if status.indicates_lost_state() || *status == Status::Stale || *status == Status::FhExpired
                || *status == Status::BadHandle || *status == Status::NoEnt {
                Some(*status)
            } else {
                None
            }
        },
        _ => None,
    }
}

fn min_u32(a: u32, b: u32) -> (r: u32)
    ensures
        r == (if a <= b { a } else { b }),
{
    if a <= b { a } else { b }
}

/// The transfer size after the server's limits: the configured size, capped
/// by the session channel and then by what the server advertises.
pub open spec fn clamp_read_limit(configured: u32, channel_size: u32, server_max: Option<u64>) -> u32 {
    let session = spec_session_payload_limit(channel_size);
    crate::v4::spec_clamp_io_size(server_max, if configured <= session { configured } else { session })
}

/// Wraps `Ord::min` on `Duration`: the shorter of two durations. A
/// `Duration` is opaque here, so the contract says only that the result is
/// one of the two (which one depends on their order, not stated here).
#[verifier::external_body]
fn shorter_duration(a: Duration, b: Duration) -> (r: Duration)
    ensures
        r == a || r == b,
{
    a.min(b)
}

/// The lease session's timeout: the configured timeout, or the heartbeat
/// interval when none is configured, and never longer than the interval.
fn lease_session_timeout(timeout: Option<Duration>, interval: Duration) -> (r: Duration)
    ensures
        timeout is None ==> r == interval,
        timeout matches Some(t) ==> r == t || r == interval,
{
    match timeout {
        Some(t) => shorter_duration(t, interval),
        None => interval,
    }
}



/// Whether `path` names a path the client can resolve: absolute, without
/// empty, `.` or `..` components, and with names within the protocol limit.
pub open spec fn path_ok(path: Seq<char>) -> bool {
    spec_path_components(path) is Ok
}

/// `e` is the error that reports why `path` cannot be resolved.
pub open spec fn path_rejected(path: Seq<char>, e: Error) -> bool {
    spec_path_components(path) matches Err(f) && path_fault_reported(path, f, e)
}

/// Whether `path` has a parent the client can resolve.
pub open spec fn parent_ok(path: Seq<char>) -> bool {
    spec_path_components(path) matches Ok(names) && names.len() > 0
}

/// `ops` resolves `path` from the root filehandle, one LOOKUP per
/// component, and then runs `tail`.
pub open spec fn path_request(path: Seq<char>, tail: Seq<Operation>, ops: Seq<Operation>) -> bool {
    spec_path_components(path) matches Ok(names) && is_lookup_chain(ops, Operation::PutRootFh, names, Seq::empty(), tail)
}

/// `ops` resolves `path` from the public filehandle and then runs `tail`.
pub open spec fn public_path_request(path: Seq<char>, tail: Seq<Operation>, ops: Seq<Operation>) -> bool {
    spec_path_components(path) matches Ok(names) && is_lookup_chain(ops, Operation::PutPubFh, names, Seq::empty(), tail)
}

/// `ops` resolves `path` from the root filehandle, steps to its parent
/// with LOOKUPP, and then runs `tail`.
pub open spec fn parent_path_request(path: Seq<char>, tail: Seq<Operation>, ops: Seq<Operation>) -> bool {
    spec_path_components(path) matches Ok(names) && names.len() > 0
        && is_lookup_chain(ops, Operation::PutRootFh, names, seq![Operation::Lookupp], tail)
}

/// `ops` ends with a GETATTR that asks for exactly `attrs`.
pub open spec fn ends_with_getattr_of(ops: Seq<Operation>, attrs: Seq<u32>) -> bool {
    ops.len() > 0 && (ops.last() matches Operation::GetAttr(m) && m.exactly(attrs))
}

/// `ops` ends with a GETATTR that asks only for attributes of `attrs`.
pub open spec fn ends_with_getattr_within(ops: Seq<Operation>, attrs: Seq<u32>) -> bool {
    ops.len() > 0 && (ops.last() matches Operation::GetAttr(m) && forall|a: u32| #[trigger] m.has(a) ==> attrs.contains(a))
}

proof fn lemma_lookup_chain_last(ops: Seq<Operation>, head: Operation, names: Seq<Seq<char>>, middle: Seq<Operation>, tail: Seq<Operation>)
    requires
        is_lookup_chain(ops, head, names, middle, tail),
        tail.len() > 0,
    ensures
        ops.len() > 0,
        ops.last() == tail.last(),
{
    let k = 1 + names.len() + middle.len();
    assert(ops.subrange(k as int, ops.len() as int)[tail.len() - 1] == ops[ops.len() - 1]);
}

/// The components of `path`.
pub open spec fn path_names(path: Seq<char>) -> Seq<Seq<char>> {
    spec_path_components(path)->Ok_0
}

/// The last component of `path`: the name of the entry it denotes.
pub open spec fn last_name(path: Seq<char>) -> Seq<char> {
    path_names(path).last()
}

/// `ops` resolves the parent directory of `path` from the root filehandle
/// and ends with one operation in it.
pub open spec fn parent_dir_request(path: Seq<char>, ops: Seq<Operation>) -> bool {
    parent_ok(path) && ops.len() > 0
        && is_lookup_chain(ops, Operation::PutRootFh, path_names(path).drop_last(), Seq::empty(), seq![ops.last()])
}

/// `ops` resolves the directory `first` from the root and saves it,
/// resolves the directory `second` from the root, and ends with one
/// operation that uses both.
pub open spec fn saved_and_current_request(first: Seq<Seq<char>>, second: Seq<Seq<char>>, ops: Seq<Operation>) -> bool {
    let k = first.len() + 2int;
    &&& ops.len() == k + second.len() + 2
    &&& is_lookup_chain(ops.subrange(0, k), Operation::PutRootFh, first, Seq::empty(), seq![Operation::SaveFh])
    &&& is_lookup_chain(ops.subrange(k, ops.len() as int), Operation::PutRootFh, second, Seq::empty(), seq![ops.last()])
}

proof fn lemma_saved_and_current(first: Seq<Operation>, second: Seq<Operation>, a: Seq<Seq<char>>, b: Seq<Seq<char>>, last: Operation)
    requires
        is_lookup_chain(first, Operation::PutRootFh, a, Seq::empty(), seq![Operation::SaveFh]),
        is_lookup_chain(second, Operation::PutRootFh, b, Seq::empty(), seq![last]),
    ensures
        saved_and_current_request(a, b, first + second),
        (first + second).last() == last,
{
    lemma_lookup_chain_last(second, Operation::PutRootFh, b, Seq::empty(), seq![last]);
    let ops = first + second;
    let k = a.len() + 2;
    assert(ops.subrange(0, k as int) =~= first);
    assert(ops.subrange(k as int, ops.len() as int) =~= second);
}

/// `f` sets exactly the mode attribute, to `mode`.
pub open spec fn sets_mode(f: Fattr, mode: u32) -> bool {
    f.attrmask.exactly(seq![FATTR4_MODE]) && f.attr_vals@ == be_u32(mode)
}

/// The last COMPOUND resolved the parent of `path`, ran a CREATE of its
/// last name with `kind` and `attrs`, and succeeded.
pub open spec fn created(last: Option<(Seq<Operation>, CompoundResponse)>, path: Seq<char>, kind: CreateKind, attrs: Fattr) -> bool {
    last matches Some((ops, reply))
        && parent_dir_request(path, ops) && reply.status == Status::NfsOk && last_result_ok(reply)
        && (ops.last() matches Operation::Create(a) && a.name@ == last_name(path) && a.kind == kind && a.attrs == attrs)
}

/// `a` and `b` hold the same attribute mask and values.
pub open spec fn same_fattr(a: Fattr, b: Fattr) -> bool {
    a.attrmask.words_view() == b.attrmask.words_view() && a.attr_vals@ == b.attr_vals@
}

/// `ops` is one GETDEVICELIST for `layout_type` that asks for at most
/// `max` device ids, continuing from `cursor` or from the start.
pub open spec fn device_list_request(ops: Seq<Operation>, layout_type: LayoutType, cursor: Option<DeviceListCursor>, max: int) -> bool {
    ops.len() == 1 && (ops[0] matches Operation::GetDeviceList(a) && a.layout_type == layout_type
        && a.max_devices == max
        && (cursor matches Some(c) ==> a.cookie == c.cookie && a.cookieverf == c.cookieverf)
        && (cursor is None ==> a.cookie == 0))
}

/// `ops` resolves `path` from the root, opens its named-attribute
/// directory, looks up the attribute `name`, and then runs `tail`.
pub open spec fn named_attr_request(path: Seq<char>, name: Seq<char>, tail: Seq<Operation>, ops: Seq<Operation>) -> bool {
    let k = ops.len() - tail.len() - 1;
    &&& path_ok(path) && 0 <= k < ops.len()
    &&& is_lookup_chain(ops, Operation::PutRootFh, path_names(path), Seq::empty(),
            seq![Operation::OpenAttr { create_dir: false }].push(ops[k]) + tail)
    &&& ops[k] matches Operation::Lookup(s) && s@ == name
}

/// The last COMPOUND resolved `path` and ran a SETATTR without open state
/// whose attribute values are `values`, and every operation succeeded.
pub open spec fn setattr_sent(last: Option<(Seq<Operation>, CompoundResponse)>, path: Seq<char>, values: Seq<u8>) -> bool {
    last matches Some((ops, reply)) && path_request(path, seq![ops.last()], ops)
        && (ops.last() matches Operation::SetAttr { stateid, attrs: f } && stateid.spec_is_anonymous() && f.attr_vals@ == values)
        && reply.status == Status::NfsOk && last_result_ok(reply)
}

/// What a successful attribute update left as the last COMPOUND: nothing
/// new, the CLOSE of the file it opened to change the size, or the SETATTR
/// that carried `values`.
pub open spec fn attrs_updated(before: Option<(Seq<Operation>, CompoundResponse)>, after: Option<(Seq<Operation>, CompoundResponse)>, path: Seq<char>, values: Seq<u8>) -> bool {
    after == before || ended_with_close(after) || setattr_sent(after, path, values)
}

/// The last COMPOUND renamed an entry to the last name of `path` in the
/// directory that holds it, and every operation succeeded.
pub open spec fn renamed_into(last: Option<(Seq<Operation>, CompoundResponse)>, path: Seq<char>) -> bool {
    last matches Some((ops, reply)) && parent_ok(path)
        && (ops.last() matches Operation::Rename { newname, .. } && newname@ == last_name(path))
        && exists|from: Seq<Seq<char>>| saved_and_current_request(from, path_names(path).drop_last(), ops)
        && reply.status == Status::NfsOk && last_result_ok(reply)
}

/// The last COMPOUND ended with a CLOSE, and every operation succeeded.
pub open spec fn ended_with_close(last: Option<(Seq<Operation>, CompoundResponse)>) -> bool {
    last matches Some((ops, reply)) && ops.len() > 0 && ops.last() is Close
        && reply.status == Status::NfsOk && last_result_ok(reply)
}

/// The last COMPOUND ended with a CLOSE of the open state `stateid`, and
/// every operation succeeded.
pub open spec fn closed_file(last: Option<(Seq<Operation>, CompoundResponse)>, stateid: StateId) -> bool {
    last matches Some((ops, reply)) && ops.len() > 0
        && (ops.last() matches Operation::Close { stateid: s, .. } && s == stateid)
        && reply.status == Status::NfsOk && last_result_ok(reply)
}

/// The verifier of eight zero bytes that starts a listing.
fn zero_verifier() -> (v: Verifier)
    ensures
        v@ == Seq::new(8, |i: int| 0u8),
{
    let v: Verifier = [0u8, 0u8, 0u8, 0u8, 0u8, 0u8, 0u8, 0u8];
    assert(v@ =~= Seq::new(8, |i: int| 0u8));
    v
}

/// A list of one operation.
fn one_op(a: Operation) -> (v: Vec<Operation>)
    ensures
        v@ == seq![a],
{
    let mut v = Vec::new();
    v.push(a);
    v
}

/// A list of two operations, in order.
fn two_ops(a: Operation, b: Operation) -> (v: Vec<Operation>)
    ensures
        v@ == seq![a, b],
{
    let mut v = Vec::new();
    v.push(a);
    v.push(b);
    v
}

/// A list of three operations, in order.
fn three_ops(a: Operation, b: Operation, c: Operation) -> (v: Vec<Operation>)
    ensures
        v@ == seq![a, b, c],
{
    let mut v = Vec::new();
    v.push(a);
    v.push(b);
    v.push(c);
    v
}

/// The attribute request for the set of attributes the server supports.
fn supported_attrs_mask() -> (b: Bitmap)
    ensures
        b.exactly(seq![FATTR4_SUPPORTED_ATTRS]),
{
    let list = [FATTR4_SUPPORTED_ATTRS];
    assert(list@ =~= seq![FATTR4_SUPPORTED_ATTRS]);
    Bitmap::from_known_attrs(&list)
}

/// `ops` ends with the query for the supported attributes, or with a
/// GETATTR limited to `attrs`: the query that follows it when the server
/// supports any of them.
pub open spec fn attr_read_sent(ops: Seq<Operation>, attrs: Seq<u32>) -> bool {
    ends_with_getattr_of(ops, seq![FATTR4_SUPPORTED_ATTRS]) || ends_with_getattr_within(ops, attrs)
}

/// An empty attribute set with the given (empty) mask.
fn empty_fattr(attrmask: Bitmap) -> (f: Fattr)
    ensures
        f.attrmask == attrmask,
        f.attr_vals@.len() == 0,
{
    Fattr { attrmask, attr_vals: Vec::new() }
}

/// The outcome of an existence probe: success means the object exists,
/// NOENT means it does not, and any other failure is passed on.
pub open spec fn spec_exists_from_lookup(lookup: Result<()>) -> Result<bool> {
    match lookup {
        Ok(()) => Ok(true),
        Err(Error::NfsV4 { status: Status::NoEnt, .. }) => Ok(false),
        Err(e) => Err(e),
    }
}

/// Turns the outcome of a lookup into the outcome of an existence probe.
pub fn exists_from_lookup(lookup: Result<()>) -> (r: Result<bool>)
    ensures
        r == spec_exists_from_lookup(lookup),
{
    match lookup {
        Ok(()) => Ok(true),
        Err(Error::NfsV4 { status: Status::NoEnt, .. }) => Ok(false),
        Err(e) => Err(e),
    }
}

impl<T: Transport> Client<T> {
    /// Resolves a path and returns success if it exists.
    pub fn lookup(&mut self, path: &str) -> (r: Result<()>)
        ensures
            !path_ok(path@) ==> (r matches Err(e) && path_rejected(path@, e)),
            r is Ok ==> (final(self).spec_last_compound() matches Some((ops, reply))
                && path_request(path@, Seq::empty(), ops) && reply.status == Status::NfsOk),
    {
        let ops = match path_ops(path, Vec::new()) {
            Ok(ops) => ops,
            Err(e) => return Err(e),
        };
        self.compound(ops)?;
        Ok(())
    }

    /// Resolves a path relative to the NFSv4 public filehandle.
    pub fn lookup_public(&mut self, path: &str) -> (r: Result<()>)
        ensures
            !path_ok(path@) ==> (r matches Err(e) && path_rejected(path@, e)),
            r is Ok ==> (final(self).spec_last_compound() matches Some((ops, reply))
                && public_path_request(path@, Seq::empty(), ops) && reply.status == Status::NfsOk),
    {
        let ops = match public_path_ops(path, Vec::new()) {
            Ok(ops) => ops,
            Err(e) => return Err(e),
        };
        self.compound(ops)?;
        Ok(())
    }

    /// Returns whether a path exists relative to the NFSv4 public filehandle.
    pub fn public_exists(&mut self, path: &str) -> (r: Result<bool>)
        ensures
            !path_ok(path@) ==> r is Err,
            r == Ok::<bool, Error>(true) ==> (final(self).spec_last_compound() matches Some((ops, reply))
                && public_path_request(path@, Seq::empty(), ops) && reply.status == Status::NfsOk),
    {
        let lookup = self.lookup_public(path);
        exists_from_lookup(lookup)
    }

    /// Returns whether a path exists.
    pub fn path_exists(&mut self, path: &str) -> (r: Result<bool>)
        ensures
            !path_ok(path@) ==> r is Err,
            r == Ok::<bool, Error>(true) ==> (final(self).spec_last_compound() matches Some((ops, reply))
                && path_request(path@, Seq::empty(), ops) && reply.status == Status::NfsOk),
    {
        let lookup = self.lookup(path);
        exists_from_lookup(lookup)
    }

    /// Resolves a path and returns its NFSv4 file handle.
    pub fn file_handle(&mut self, path: &str) -> (r: Result<FileHandle>)
        ensures
            !path_ok(path@) ==> r is Err,
            r is Ok ==> (final(self).spec_last_compound() matches Some((ops, reply))
                && path_request(path@, seq![Operation::GetFh], ops) && response_getfh_outcome(reply, r)),
    {
        let response = self.compound(path_ops(path, one_op(Operation::GetFh))?)?;
        response_getfh(&response)
    }

    /// Resolves a path relative to the public filehandle and returns its file handle.
    pub fn public_file_handle(&mut self, path: &str) -> (r: Result<FileHandle>)
        ensures
            !path_ok(path@) ==> r is Err,
            r is Ok ==> (final(self).spec_last_compound() matches Some((ops, reply))
                && public_path_request(path@, seq![Operation::GetFh], ops) && response_getfh_outcome(reply, r)),
    {
        let response = self.compound(public_path_ops(path, one_op(Operation::GetFh))?)?;
        response_getfh(&response)
    }

    /// Resolves `path` and returns the file handle for its parent directory.
    pub fn parent_file_handle(&mut self, path: &str) -> (r: Result<FileHandle>)
        ensures
            !parent_ok(path@) ==> r is Err,
            r is Ok ==> (final(self).spec_last_compound() matches Some((ops, reply))
                && parent_path_request(path@, seq![Operation::GetFh], ops) && response_getfh_outcome(reply, r)),
    {
        let response = self.compound(parent_path_ops(path, one_op(Operation::GetFh))?)?;
        response_getfh(&response)
    }

    /// Returns the attribute bitmap supported by the server for a path.
    pub fn supported_attrs(&mut self, path: &str) -> (r: Result<Bitmap>)
        ensures
            wire_grew(old(self).spec_wire(), final(self).spec_wire()),
            final(self).spec_locks().ids() == old(self).spec_locks().ids(),
            !path_ok(path@) ==> r is Err,
            r is Ok ==> (final(self).spec_last_compound() matches Some((ops, reply))
                && path_request(path@, seq![ops.last()], ops) && ends_with_getattr_of(ops, seq![FATTR4_SUPPORTED_ATTRS])
                && reply.status == Status::NfsOk),
    {
        let attrs = supported_attrs_mask();
        let ops = path_ops(path, one_op(Operation::GetAttr(attrs)))?;
        proof {
            lemma_lookup_chain_last(ops@, Operation::PutRootFh, spec_path_components(path@)->Ok_0, Seq::empty(), seq![Operation::GetAttr(attrs)]);
        }
        let response = self.compound(ops)?;
        response_getattr(&response)?.parse_supported_attrs()
    }

    /// Returns the attribute bitmap supported for a public-filehandle path.
    pub fn public_supported_attrs(&mut self, path: &str) -> (r: Result<Bitmap>)
        ensures
            wire_grew(old(self).spec_wire(), final(self).spec_wire()),
            !path_ok(path@) ==> r is Err,
            r is Ok ==> (final(self).spec_last_compound() matches Some((ops, reply))
                && public_path_request(path@, seq![ops.last()], ops) && ends_with_getattr_of(ops, seq![FATTR4_SUPPORTED_ATTRS])
                && reply.status == Status::NfsOk),
    {
        let attrs = supported_attrs_mask();
        let ops = public_path_ops(path, one_op(Operation::GetAttr(attrs)))?;
        proof {
            lemma_lookup_chain_last(ops@, Operation::PutPubFh, spec_path_components(path@)->Ok_0, Seq::empty(), seq![Operation::GetAttr(attrs)]);
        }
        let response = self.compound(ops)?;
        response_getattr(&response)?.parse_supported_attrs()
    }

    /// Returns the attribute bitmap supported by the parent filehandle of `path`.
    pub fn parent_supported_attrs(&mut self, path: &str) -> (r: Result<Bitmap>)
        ensures
            wire_grew(old(self).spec_wire(), final(self).spec_wire()),
            !parent_ok(path@) ==> r is Err,
            r is Ok ==> (final(self).spec_last_compound() matches Some((ops, reply))
                && parent_path_request(path@, seq![ops.last()], ops) && ends_with_getattr_of(ops, seq![FATTR4_SUPPORTED_ATTRS])
                && reply.status == Status::NfsOk),
    {
        let attrs = supported_attrs_mask();
        let ops = parent_path_ops(path, one_op(Operation::GetAttr(attrs)))?;
        proof {
            lemma_lookup_chain_last(ops@, Operation::PutRootFh, spec_path_components(path@)->Ok_0, seq![Operation::Lookupp], seq![Operation::GetAttr(attrs)]);
        }
        let response = self.compound(ops)?;
        response_getattr(&response)?.parse_supported_attrs()
    }

    /// Reads raw NFSv4 attributes selected by `attr_request`; an empty
    /// request is answered without a call.
    pub fn getattr_values(&mut self, path: &str, attr_request: Bitmap) -> (r: Result<Fattr>)
        ensures
            attr_request.spec_is_empty() ==> (r matches Ok(f) && f.attrmask == attr_request && f.attr_vals@.len() == 0
                && final(self).spec_last_compound() == old(self).spec_last_compound()),
            !attr_request.spec_is_empty() && !path_ok(path@) ==> r is Err,
            !attr_request.spec_is_empty() && r is Ok ==> (final(self).spec_last_compound() matches Some((ops, reply))
                && path_request(path@, seq![Operation::GetAttr(attr_request)], ops) && reply.status == Status::NfsOk
                && response_getattr_outcome(reply, r)),
    {
        if attr_request.is_empty() {
            return Ok(empty_fattr(attr_request));
        }
        let response = self.compound(path_ops(path, one_op(Operation::GetAttr(attr_request)))?)?;
        response_getattr(&response)
    }

    /// Reads raw NFSv4 attributes for a public-filehandle path.
    pub fn public_getattr_values(&mut self, path: &str, attr_request: Bitmap) -> (r: Result<Fattr>)
        ensures
            attr_request.spec_is_empty() ==> (r matches Ok(f) && f.attrmask == attr_request && f.attr_vals@.len() == 0
                && final(self).spec_last_compound() == old(self).spec_last_compound()),
            !attr_request.spec_is_empty() && !path_ok(path@) ==> r is Err,
            !attr_request.spec_is_empty() && r is Ok ==> (final(self).spec_last_compound() matches Some((ops, reply))
                && public_path_request(path@, seq![Operation::GetAttr(attr_request)], ops) && reply.status == Status::NfsOk
                && response_getattr_outcome(reply, r)),
    {
        if attr_request.is_empty() {
            return Ok(empty_fattr(attr_request));
        }
        let response = self.compound(public_path_ops(path, one_op(Operation::GetAttr(attr_request)))?)?;
        response_getattr(&response)
    }

    /// Reads raw attributes for the parent filehandle of `path`.
    pub fn parent_getattr_values(&mut self, path: &str, attr_request: Bitmap) -> (r: Result<Fattr>)
        ensures
            attr_request.spec_is_empty() ==> (r matches Ok(f) && f.attrmask == attr_request && f.attr_vals@.len() == 0
                && final(self).spec_last_compound() == old(self).spec_last_compound()),
            !attr_request.spec_is_empty() && !parent_ok(path@) ==> r is Err,
            !attr_request.spec_is_empty() && r is Ok ==> (final(self).spec_last_compound() matches Some((ops, reply))
                && parent_path_request(path@, seq![Operation::GetAttr(attr_request)], ops) && reply.status == Status::NfsOk
                && response_getattr_outcome(reply, r)),
    {
        if attr_request.is_empty() {
            return Ok(empty_fattr(attr_request));
        }
        let response = self.compound(parent_path_ops(path, one_op(Operation::GetAttr(attr_request)))?)?;
        response_getattr(&response)
    }

    fn supported_attr_request(&mut self, path: &str, attrs: &[u32]) -> (r: Result<Bitmap>)
        ensures
            wire_grew(old(self).spec_wire(), final(self).spec_wire()),
            final(self).spec_locks().ids() == old(self).spec_locks().ids(),
            !path_ok(path@) ==> r is Err,
            r is Ok ==> (final(self).spec_last_compound() matches Some((ops, reply))
                && path_request(path@, seq![ops.last()], ops) && ends_with_getattr_of(ops, seq![FATTR4_SUPPORTED_ATTRS])
                && reply.status == Status::NfsOk),
            r matches Ok(m) ==> forall|a: u32| #[trigger] m.has(a) ==> attrs@.contains(a),
    {
        let supported = self.supported_attrs(path)?;
        let mask = Bitmap::from_supported_attrs(&supported, attrs)?;
        proof {
            assert forall|a: u32| #[trigger] mask.has(a) implies attrs@.contains(a) by {
                attrs@.lemma_filter_contains_rev(in_bitmap(supported), a);
            }
        }
        Ok(mask)
    }

    fn public_supported_attr_request(&mut self, path: &str, attrs: &[u32]) -> (r: Result<Bitmap>)
        ensures
            wire_grew(old(self).spec_wire(), final(self).spec_wire()),
            !path_ok(path@) ==> r is Err,
            r is Ok ==> (final(self).spec_last_compound() matches Some((ops, reply))
                && public_path_request(path@, seq![ops.last()], ops) && ends_with_getattr_of(ops, seq![FATTR4_SUPPORTED_ATTRS])
                && reply.status == Status::NfsOk),
            r matches Ok(m) ==> forall|a: u32| #[trigger] m.has(a) ==> attrs@.contains(a),
    {
        let supported = self.public_supported_attrs(path)?;
        let mask = Bitmap::from_supported_attrs(&supported, attrs)?;
        proof {
            assert forall|a: u32| #[trigger] mask.has(a) implies attrs@.contains(a) by {
                attrs@.lemma_filter_contains_rev(in_bitmap(supported), a);
            }
        }
        Ok(mask)
    }

    fn parent_supported_attr_request(&mut self, path: &str, attrs: &[u32]) -> (r: Result<Bitmap>)
        ensures
            wire_grew(old(self).spec_wire(), final(self).spec_wire()),
            !parent_ok(path@) ==> r is Err,
            r is Ok ==> (final(self).spec_last_compound() matches Some((ops, reply))
                && parent_path_request(path@, seq![ops.last()], ops) && ends_with_getattr_of(ops, seq![FATTR4_SUPPORTED_ATTRS])
                && reply.status == Status::NfsOk),
            r matches Ok(m) ==> forall|a: u32| #[trigger] m.has(a) ==> attrs@.contains(a),
    {
        let supported = self.parent_supported_attrs(path)?;
        let mask = Bitmap::from_supported_attrs(&supported, attrs)?;
        proof {
            assert forall|a: u32| #[trigger] mask.has(a) implies attrs@.contains(a) by {
                attrs@.lemma_filter_contains_rev(in_bitmap(supported), a);
            }
        }
        Ok(mask)
    }

    fn get_supported_attr_values(&mut self, path: &str, attrs: &[u32]) -> (r: Result<Fattr>)
        ensures
            wire_grew(old(self).spec_wire(), final(self).spec_wire()),
            final(self).spec_locks().ids() == old(self).spec_locks().ids(),
            !path_ok(path@) ==> r is Err,
            r matches Ok(f) ==> (final(self).spec_last_compound() matches Some((ops, reply))
                && path_request(path@, seq![ops.last()], ops) && reply.status == Status::NfsOk
                && ((ends_with_getattr_of(ops, seq![FATTR4_SUPPORTED_ATTRS]) && f.attr_vals@.len() == 0 && f.attrmask.spec_is_empty())
                    || (ends_with_getattr_within(ops, attrs@) && response_getattr_outcome(reply, r)))),
    {
        let request = attrs;
        let attrs = self.supported_attr_request(path, request)?;
        if attrs.is_empty() {
            return Ok(empty_fattr(attrs));
        }
        let ops = path_ops(path, one_op(Operation::GetAttr(attrs)))?;
        proof {
            lemma_lookup_chain_last(ops@, Operation::PutRootFh, spec_path_components(path@)->Ok_0, Seq::empty(), seq![Operation::GetAttr(attrs)]);
        }
        let response = self.compound(ops)?;
        response_getattr(&response)
    }

    /// Reads raw NFSv4 attributes after filtering the request by server support.
    pub fn supported_attr_values(&mut self, path: &str, attrs: &[u32]) -> (r: Result<Fattr>)
        ensures
            !path_ok(path@) ==> r is Err,
            r matches Ok(f) ==> (final(self).spec_last_compound() matches Some((ops, reply))
                && path_request(path@, seq![ops.last()], ops) && reply.status == Status::NfsOk
                && ((ends_with_getattr_of(ops, seq![FATTR4_SUPPORTED_ATTRS]) && f.attr_vals@.len() == 0 && f.attrmask.spec_is_empty())
                    || (ends_with_getattr_within(ops, attrs@) && response_getattr_outcome(reply, r)))),
    {
        self.get_supported_attr_values(path, attrs)
    }

    /// Reads public-filehandle attributes after filtering the request by server support.
    pub fn public_supported_attr_values(&mut self, path: &str, attrs: &[u32]) -> (r: Result<Fattr>)
        ensures
            !path_ok(path@) ==> r is Err,
            r matches Ok(f) ==> (final(self).spec_last_compound() matches Some((ops, reply))
                && public_path_request(path@, seq![ops.last()], ops) && reply.status == Status::NfsOk
                && ((ends_with_getattr_of(ops, seq![FATTR4_SUPPORTED_ATTRS]) && f.attr_vals@.len() == 0 && f.attrmask.spec_is_empty())
                    || (ends_with_getattr_within(ops, attrs@) && response_getattr_outcome(reply, r)))),
    {
        let mask = self.public_supported_attr_request(path, attrs)?;
        let ghost asked = mask;
        let values = self.public_getattr_values(path, mask);
        proof {
            if !asked.spec_is_empty() && values is Ok {
                lemma_lookup_chain_last(self.spec_last_compound()->Some_0.0, Operation::PutPubFh, spec_path_components(path@)->Ok_0, Seq::empty(), seq![Operation::GetAttr(asked)]);
            }
        }
        values
    }

    /// Reads parent filehandle attributes after filtering the request by server support.
    pub fn parent_supported_attr_values(&mut self, path: &str, attrs: &[u32]) -> (r: Result<Fattr>)
        ensures
            !parent_ok(path@) ==> r is Err,
            r matches Ok(f) ==> (final(self).spec_last_compound() matches Some((ops, reply))
                && parent_path_request(path@, seq![ops.last()], ops) && reply.status == Status::NfsOk
                && ((ends_with_getattr_of(ops, seq![FATTR4_SUPPORTED_ATTRS]) && f.attr_vals@.len() == 0 && f.attrmask.spec_is_empty())
                    || (ends_with_getattr_within(ops, attrs@) && response_getattr_outcome(reply, r)))),
    {
        let mask = self.parent_supported_attr_request(path, attrs)?;
        let ghost asked = mask;
        let values = self.parent_getattr_values(path, mask);
        proof {
            if !asked.spec_is_empty() && values is Ok {
                lemma_lookup_chain_last(self.spec_last_compound()->Some_0.0, Operation::PutRootFh, spec_path_components(path@)->Ok_0, seq![Operation::Lookupp], seq![Operation::GetAttr(asked)]);
            }
        }
        values
    }

    /// Reads basic attributes for a path.
    pub fn getattr(&mut self, path: &str) -> (r: Result<BasicAttributes>)
        ensures
            wire_grew(old(self).spec_wire(), final(self).spec_wire()),
            !path_ok(path@) ==> r is Err,
            r is Ok ==> (final(self).spec_last_compound() matches Some((ops, reply))
                && path_request(path@, seq![ops.last()], ops) && reply.status == Status::NfsOk
                && attr_read_sent(ops, FATTR4_BASIC_ATTRS@)),
    {
        self.get_supported_attr_values(path, &FATTR4_BASIC_ATTRS)?.parse_basic()
    }

    /// Alias for [`Client::getattr`].
    pub fn metadata(&mut self, path: &str) -> (r: Result<BasicAttributes>)
        ensures
            wire_grew(old(self).spec_wire(), final(self).spec_wire()),
            !path_ok(path@) ==> r is Err,
            r is Ok ==> (final(self).spec_last_compound() matches Some((ops, reply))
                && path_request(path@, seq![ops.last()], ops) && reply.status == Status::NfsOk
                && attr_read_sent(ops, FATTR4_BASIC_ATTRS@)),
    {
        self.getattr(path)
    }

    /// Returns the remote file type for a path; fails when the server does
    /// not report one.
    pub fn file_type(&mut self, path: &str) -> (r: Result<FileType>)
        ensures
            !path_ok(path@) ==> r is Err,
            r is Ok ==> (final(self).spec_last_compound() matches Some((ops, reply))
                && path_request(path@, seq![ops.last()], ops) && reply.status == Status::NfsOk
                && attr_read_sent(ops, FATTR4_BASIC_ATTRS@)),
    {
        self.metadata(path)?.required_file_type()
    }

    /// Returns true when the path is a regular file.
    pub fn is_file(&mut self, path: &str) -> (r: Result<bool>)
        ensures
            !path_ok(path@) ==> r is Err,
            r is Ok ==> (final(self).spec_last_compound() matches Some((ops, reply))
                && path_request(path@, seq![ops.last()], ops) && reply.status == Status::NfsOk
                && attr_read_sent(ops, FATTR4_BASIC_ATTRS@)),
    {
        Ok(self.file_type(path)?.is_file())
    }

    /// Returns true when the path is a directory.
    pub fn is_dir(&mut self, path: &str) -> (r: Result<bool>)
        ensures
            !path_ok(path@) ==> r is Err,
            r is Ok ==> (final(self).spec_last_compound() matches Some((ops, reply))
                && path_request(path@, seq![ops.last()], ops) && reply.status == Status::NfsOk
                && attr_read_sent(ops, FATTR4_BASIC_ATTRS@)),
    {
        Ok(self.file_type(path)?.is_dir())
    }

    /// Returns true when the path is a symbolic link.
    pub fn is_symlink(&mut self, path: &str) -> (r: Result<bool>)
        ensures
            !path_ok(path@) ==> r is Err,
            r is Ok ==> (final(self).spec_last_compound() matches Some((ops, reply))
                && path_request(path@, seq![ops.last()], ops) && reply.status == Status::NfsOk
                && attr_read_sent(ops, FATTR4_BASIC_ATTRS@)),
    {
        Ok(self.file_type(path)?.is_symlink())
    }

    /// Reads filesystem capacity attributes for a path.
    pub fn fsstat(&mut self, path: &str) -> (r: Result<FsStat>)
        ensures
            !path_ok(path@) ==> r is Err,
            r is Ok ==> (final(self).spec_last_compound() matches Some((ops, reply))
                && path_request(path@, seq![ops.last()], ops) && reply.status == Status::NfsOk
                && attr_read_sent(ops, FATTR4_FSSTAT_ATTRS@)),
    {
        self.get_supported_attr_values(path, &FATTR4_FSSTAT_ATTRS)?.parse_fsstat()
    }

    /// Reads filesystem capability attributes for a path.
    pub fn fsinfo(&mut self, path: &str) -> (r: Result<FsInfo>)
        ensures
            final(self).spec_locks().ids() == old(self).spec_locks().ids(),
            !path_ok(path@) ==> r is Err,
            r is Ok ==> (final(self).spec_last_compound() matches Some((ops, reply))
                && path_request(path@, seq![ops.last()], ops) && reply.status == Status::NfsOk
                && attr_read_sent(ops, FATTR4_FSINFO_ATTRS@)),
    {
        self.get_supported_attr_values(path, &FATTR4_FSINFO_ATTRS)?.parse_fsinfo()
    }

    /// Reads path configuration limits for a path.
    pub fn pathconf(&mut self, path: &str) -> (r: Result<PathConf>)
        ensures
            !path_ok(path@) ==> r is Err,
            r is Ok ==> (final(self).spec_last_compound() matches Some((ops, reply))
                && path_request(path@, seq![ops.last()], ops) && reply.status == Status::NfsOk
                && attr_read_sent(ops, FATTR4_PATHCONF_ATTRS@)),
    {
        self.get_supported_attr_values(path, &FATTR4_PATHCONF_ATTRS)?.parse_pathconf()
    }

    /// Reads basic attributes for a path relative to the NFSv4 public filehandle.
    pub fn public_getattr(&mut self, path: &str) -> (r: Result<BasicAttributes>)
        ensures
            !path_ok(path@) ==> r is Err,
            r is Ok ==> (final(self).spec_last_compound() matches Some((ops, reply))
                && public_path_request(path@, seq![ops.last()], ops) && reply.status == Status::NfsOk
                && attr_read_sent(ops, FATTR4_BASIC_ATTRS@)),
    {
        self.public_supported_attr_values(path, &FATTR4_BASIC_ATTRS)?.parse_basic()
    }

    /// Reads filesystem capacity attributes for a public-filehandle path.
    pub fn public_fsstat(&mut self, path: &str) -> (r: Result<FsStat>)
        ensures
            !path_ok(path@) ==> r is Err,
            r is Ok ==> (final(self).spec_last_compound() matches Some((ops, reply))
                && public_path_request(path@, seq![ops.last()], ops) && reply.status == Status::NfsOk
                && attr_read_sent(ops, FATTR4_FSSTAT_ATTRS@)),
    {
        self.public_supported_attr_values(path, &FATTR4_FSSTAT_ATTRS)?.parse_fsstat()
    }

    /// Reads filesystem capability attributes for a public-filehandle path.
    pub fn public_fsinfo(&mut self, path: &str) -> (r: Result<FsInfo>)
        ensures
            !path_ok(path@) ==> r is Err,
            r is Ok ==> (final(self).spec_last_compound() matches Some((ops, reply))
                && public_path_request(path@, seq![ops.last()], ops) && reply.status == Status::NfsOk
                && attr_read_sent(ops, FATTR4_FSINFO_ATTRS@)),
    {
        self.public_supported_attr_values(path, &FATTR4_FSINFO_ATTRS)?.parse_fsinfo()
    }

    /// Reads path configuration limits for a public-filehandle path.
    pub fn public_pathconf(&mut self, path: &str) -> (r: Result<PathConf>)
        ensures
            !path_ok(path@) ==> r is Err,
            r is Ok ==> (final(self).spec_last_compound() matches Some((ops, reply))
                && public_path_request(path@, seq![ops.last()], ops) && reply.status == Status::NfsOk
                && attr_read_sent(ops, FATTR4_PATHCONF_ATTRS@)),
    {
        self.public_supported_attr_values(path, &FATTR4_PATHCONF_ATTRS)?.parse_pathconf()
    }

    /// Checks server-granted access bits for a public-filehandle path.
    pub fn public_access(&mut self, path: &str, access: u32) -> (r: Result<AccessResult>)
        ensures
            !path_ok(path@) ==> r is Err,
            r is Ok ==> (final(self).spec_last_compound() matches Some((ops, reply))
                && public_path_request(path@, seq![Operation::Access(access)], ops) && response_access_outcome(reply, r)),
    {
        let response = self.compound(public_path_ops(path, one_op(Operation::Access(access)))?)?;
        response_access(&response)
    }

    /// Reads basic attributes for the parent filehandle of `path` using `LOOKUPP`.
    pub fn parent_getattr(&mut self, path: &str) -> (r: Result<BasicAttributes>)
        ensures
            !parent_ok(path@) ==> r is Err,
            r is Ok ==> (final(self).spec_last_compound() matches Some((ops, reply))
                && parent_path_request(path@, seq![ops.last()], ops) && reply.status == Status::NfsOk
                && attr_read_sent(ops, FATTR4_BASIC_ATTRS@)),
    {
        self.parent_supported_attr_values(path, &FATTR4_BASIC_ATTRS)?.parse_basic()
    }

    /// Reads filesystem capacity attributes for the parent filehandle of `path`.
    pub fn parent_fsstat(&mut self, path: &str) -> (r: Result<FsStat>)
        ensures
            !parent_ok(path@) ==> r is Err,
            r is Ok ==> (final(self).spec_last_compound() matches Some((ops, reply))
                && parent_path_request(path@, seq![ops.last()], ops) && reply.status == Status::NfsOk
                && attr_read_sent(ops, FATTR4_FSSTAT_ATTRS@)),
    {
        self.parent_supported_attr_values(path, &FATTR4_FSSTAT_ATTRS)?.parse_fsstat()
    }

    /// Reads filesystem capability attributes for the parent filehandle of `path`.
    pub fn parent_fsinfo(&mut self, path: &str) -> (r: Result<FsInfo>)
        ensures
            !parent_ok(path@) ==> r is Err,
            r is Ok ==> (final(self).spec_last_compound() matches Some((ops, reply))
                && parent_path_request(path@, seq![ops.last()], ops) && reply.status == Status::NfsOk
                && attr_read_sent(ops, FATTR4_FSINFO_ATTRS@)),
    {
        self.parent_supported_attr_values(path, &FATTR4_FSINFO_ATTRS)?.parse_fsinfo()
    }

    /// Reads path configuration limits for the parent filehandle of `path`.
    pub fn parent_pathconf(&mut self, path: &str) -> (r: Result<PathConf>)
        ensures
            !parent_ok(path@) ==> r is Err,
            r is Ok ==> (final(self).spec_last_compound() matches Some((ops, reply))
                && parent_path_request(path@, seq![ops.last()], ops) && reply.status == Status::NfsOk
                && attr_read_sent(ops, FATTR4_PATHCONF_ATTRS@)),
    {
        self.parent_supported_attr_values(path, &FATTR4_PATHCONF_ATTRS)?.parse_pathconf()
    }

    /// Checks server-granted access bits for the parent filehandle of `path`.
    pub fn parent_access(&mut self, path: &str, access: u32) -> (r: Result<AccessResult>)
        ensures
            !parent_ok(path@) ==> r is Err,
            r is Ok ==> (final(self).spec_last_compound() matches Some((ops, reply))
                && parent_path_request(path@, seq![Operation::Access(access)], ops) && response_access_outcome(reply, r)),
    {
        let response = self.compound(parent_path_ops(path, one_op(Operation::Access(access)))?)?;
        response_access(&response)
    }

    /// Checks server-granted access bits for a path.
    pub fn access(&mut self, path: &str, access: u32) -> (r: Result<AccessResult>)
        ensures
            !path_ok(path@) ==> r is Err,
            r is Ok ==> (final(self).spec_last_compound() matches Some((ops, reply))
                && path_request(path@, seq![Operation::Access(access)], ops) && response_access_outcome(reply, r)),
    {
        let response = self.compound(path_ops(path, one_op(Operation::Access(access)))?)?;
        response_access(&response)
    }

    /// Returns root filesystem information discovered at connect time, if available.
    pub fn root_fsinfo(&self) -> (r: Option<&FsInfo>)
        ensures
            r is None <==> self.spec_root_fsinfo() is None,
            r matches Some(f) ==> self.spec_root_fsinfo() == Some(*f),
    {
        self.root_fsinfo.as_ref()
    }

    /// Recreates the session and preserves or reclaims tracked byte-range locks.
    ///
    /// Returns a lost-state error if the server cannot restore a lock. Such locks
    /// are never silently acquired as new locks after their lease has expired.
    pub fn reconnect(&mut self) -> (r: Result<()>)
        ensures
            final(self).spec_locks().ids() == old(self).spec_locks().ids(),
            r is Ok ==> !final(self).spec_locks().has_lost_lock(),
    {
        self.recover_session()
    }

    fn ensure_status(&self, response: CompoundResponse, operation: &'static str) -> (r: Result<()>)
        ensures
            r is Ok <==> last_result_ok(response),
    {
        self.ensure_status_for(&response, operation)
    }

    fn ensure_status_for(&self, response: &CompoundResponse, operation: &'static str) -> (r: Result<()>)
        ensures
            r is Ok <==> last_result_ok(*response),
    {
        ensure_last_status(response, operation)
    }
}



/// Where the bytes of a streamed read go.
pub trait ByteSink {
    /// Accepts the next bytes of the stream, in order.
    fn write_all(&mut self, data: &[u8]) -> Result<()>;
}

impl ByteSink for Vec<u8> {
    fn write_all(&mut self, data: &[u8]) -> (r: Result<()>) {
        let mut i: usize = 0;
        while i < data.len()
            invariant
                i <= data@.len(),
            decreases data@.len() - i,
        {
            self.push(data[i]);
            i = i + 1;
        }
        Ok(())
    }
}

/// Appends `data` to `out`.
fn append_bytes(out: &mut Vec<u8>, data: &[u8])
    ensures
        final(out)@ == old(out)@ + data@,
{
    let mut i: usize = 0;
    while i < data.len()
        invariant
            i <= data@.len(),
            out@ == old(out)@ + data@.take(i as int),
        decreases data@.len() - i,
    {
        out.push(data[i]);
        assert(data@.take(i + 1) =~= data@.take(i as int).push(data@[i as int]));
        i = i + 1;
    }
    assert(data@.take(data@.len() as int) =~= data@);
}

/// The open arguments the client sends: no delegation wanted, no share
/// denial, the client's owner.
pub open spec fn spec_open_args_ok(args: OpenArgs, seqid: u32, share_access: u32, client_id: u64, owner: Seq<u8>) -> bool {
    &&& args.seqid == seqid
    &&& args.share_access == share_access | OPEN4_SHARE_ACCESS_WANT_NO_DELEG
    &&& args.share_deny == OPEN4_SHARE_DENY_NONE
    &&& args.owner.client_id == client_id
    &&& args.owner.owner@ == owner
}

fn open_args(seqid: u32, share_access: u32, client_id: u64, owner: &[u8], openhow: OpenHow, claim: OpenClaim) -> (a: OpenArgs)
    ensures
        spec_open_args_ok(a, seqid, share_access, client_id, owner@),
        a.openhow == openhow,
        a.claim == claim,
{
    OpenArgs {
        seqid,
        share_access: share_access | OPEN4_SHARE_ACCESS_WANT_NO_DELEG,
        share_deny: OPEN4_SHARE_DENY_NONE,
        owner: OpenOwner { client_id, owner: copy_bytes(owner) },
        openhow,
        claim,
    }
}

/// Operations that open `name` in the directory reached by `parent`.
fn open_path_ops(parent: &Vec<String>, open: OpenArgs) -> (ops: Vec<Operation>)
    ensures
        ops@.len() == parent@.len() + 3,
        ops@[0] == Operation::PutRootFh,
        ops@[ops@.len() - 2] == Operation::Open(open),
        ops@[ops@.len() - 1] == Operation::GetFh,
{
    let mut ops: Vec<Operation> = Vec::new();
    ops.push(Operation::PutRootFh);
    let mut i: usize = 0;
    while i < parent.len()
        invariant
            i <= parent@.len(),
            ops@.len() == i + 1,
            ops@[0] == Operation::PutRootFh,
        decreases parent@.len() - i,
    {
        ops.push(Operation::Lookup(parent[i].clone()));
        i = i + 1;
    }
    ops.push(Operation::Open(open));
    ops.push(Operation::GetFh);
    ops
}

impl<T: Transport> Client<T> {
    fn open(&mut self, path: &str, share_access: u32, openhow: OpenHow) -> (r: Result<OpenedFile>)
        ensures
            !parent_ok(path@) ==> r is Err,
            r is Ok ==> wire_grew(old(self).wire@, final(self).wire@),
    {
        self.open_with_failure_cleanup(path, share_access, openhow, OpenFailureCleanup::KeepPath)
    }

    fn open_with_owner(&mut self, path: &str, share_access: u32, openhow: OpenHow, owner: Vec<u8>) -> (r: Result<OpenedFile>)
        ensures
            !parent_ok(path@) ==> r is Err,
            r is Ok ==> wire_grew(old(self).wire@, final(self).wire@),
    {
        self.open_with_owner_failure_cleanup(path, share_access, openhow, OpenFailureCleanup::KeepPath, owner)
    }

    fn open_temp(&mut self, path: &str, share_access: u32, openhow: OpenHow) -> (r: Result<OpenedFile>)
        ensures
            !parent_ok(path@) ==> r is Err,
    {
        self.open_with_failure_cleanup(path, share_access, openhow, OpenFailureCleanup::RemovePath)
    }

    fn open_with_failure_cleanup(&mut self, path: &str, share_access: u32, openhow: OpenHow, cleanup: OpenFailureCleanup) -> (r: Result<OpenedFile>)
        ensures
            !parent_ok(path@) ==> r is Err,
            r is Ok ==> wire_grew(old(self).wire@, final(self).wire@),
    {
        let owner = copy_bytes(self.open_owner.as_slice());
        self.open_with_owner_failure_cleanup(path, share_access, openhow, cleanup, owner)
    }

    /// Opens `path` with OPEN by name under its parent directory. Advances
    /// the open-owner seqid whenever the server consumed it, retries
    /// delayed replies, rebuilds a failed session once and then tries again
    /// with a fresh seqid. Returns any delegation the server granted, and
    /// closes the file again when the reply cannot be used.
    fn open_with_owner_failure_cleanup(
        &mut self,
        path: &str,
        share_access: u32,
        openhow: OpenHow,
        cleanup: OpenFailureCleanup,
        owner: Vec<u8>,
    ) -> (r: Result<OpenedFile>)
        ensures
            !parent_ok(path@) ==> r is Err,
            r matches Ok(o) ==> opened_by(final(self).spec_last_open(), last_name(path@), share_access, owner@, openhow, o),
            r is Ok ==> wire_grew(old(self).wire@, final(self).wire@),
    {
        let (parent_components, file_name) = split_parent(path)?;
        let policy = self.retry_policy;
        let mut retry: u32 = 0;
        let mut recovered_session = false;
        loop
            invariant
                wire_grew(old(self).wire@, self.wire@),
                parent_ok(path@),
                file_name@ == last_name(path@),
                retry <= policy.max_retries,
            decreases (if recovered_session { 0int } else { 1int }), policy.max_retries - retry,
        {
            let seqid = self.current_open_seqid();
            let args = open_args(seqid, share_access, self.client_id, owner.as_slice(), openhow.clone(), OpenClaim::Null(file_name.clone()));
            let ops = open_path_ops(&parent_components, args);
            let ghost sent = ops@;
            let response = match self.compound_status(ops) {
                Ok(response) => response,
                Err(err) => {
                    if err.is_session_recoverable() && !recovered_session {
                        recovered_session = true;
                        continue;
                    }
                    return Err(err);
                },
            };
            let ghost exchange = (sent, response);
            if response_consumed_owner_seqid(&response, OpCode::Open) {
                self.advance_open_seqid();
            }
            if response_operation_has_delayed_status(&response, OpCode::Open) {
                if let Some(delay) = policy.delay_for_retry(retry) {
                    retry = retry + 1;
                    self.rpc.pause(delay);
                    continue;
                }
            }
            if response_operation_requires_session_recovery(&response, OpCode::Open) && !recovered_session {
                self.recover_session()?;
                recovered_session = true;
                continue;
            }
            if let Err(error) = response.ensure_ok() {
                return Err(self.cleanup_open_response(path, &response, error, cleanup));
            }
            let open = response_open(&response)?;
            let handle = match response_getfh(&response) {
                Ok(handle) => handle,
                Err(error) => {
                    let close_result = self.close_state_by_path(path, open.stateid);
                    return Err(self.cleanup_failed_open(path, error, close_result, cleanup));
                },
            };
            let opened = OpenedFile { handle, stateid: open.stateid };
            let delegation = match validate_open_result(&open, self.minor_version) {
                Ok(delegation) => delegation,
                Err(error) => {
                    let close_result = self.close(opened);
                    return Err(self.cleanup_failed_open(path, error, close_result, cleanup));
                },
            };
            if let Some(delegation_stateid) = delegation {
                if let Err(error) = self.return_open_delegation(&opened.handle, delegation_stateid) {
                    let close_result = self.close(opened);
                    return Err(self.cleanup_failed_open(path, error, close_result, cleanup));
                }
            }
            self.last_open = Ghost(exchange);
            proof {
                assert(response_open_outcome(response, Ok(open)));
                assert(response_getfh_outcome(response, Ok(opened.handle)));
            }
            return Ok(opened);
        }
    }

    fn cleanup_open_response(&mut self, path: &str, response: &CompoundResponse, error: Error, cleanup: OpenFailureCleanup) -> (e: Error)
        ensures
            (forall|o: OpenResult| !#[trigger] response_open_outcome(*response, Ok(o))) ==> e == error,
            (exists|o: OpenResult| #[trigger] response_open_outcome(*response, Ok(o))) ==> exists|o: OpenResult|
                #[trigger] response_open_outcome(*response, Ok(o)) && open_undone(final(self).spec_last_compound(), path@, o.stateid, error, cleanup, e),
    {
        let opened = response_open(response);
        match opened {
            Ok(open) => {
                let close_result = self.close_state_by_path(path, open.stateid);
                let e = self.cleanup_failed_open(path, error, close_result, cleanup);
                proof {
                    assert(response_open_outcome(*response, Ok(open)));
                    assert(open_undone(self.spec_last_compound(), path@, open.stateid, error, cleanup, e));
                }
                e
            },
            Err(_) => {
                proof {
                    if exists|o: OpenResult| #[trigger] response_open_outcome(*response, Ok(o)) {
                        let o = choose|o: OpenResult| #[trigger] response_open_outcome(*response, Ok(o));
                        assert(response_open_outcome(*response, Ok(o)));
                        assert(false) by {
                            lemma_open_outcome_decides(*response, opened, Ok(o));
                        }
                    }
                }
                error
            },
        }
    }

    fn cleanup_failed_open(&mut self, path: &str, error: Error, close_result: Result<()>, cleanup: OpenFailureCleanup) -> (e: Error)
        ensures
            cleanup == OpenFailureCleanup::KeepPath ==> e == spec_cleanup_error(error, "cleanup CLOSE after failed OPEN post-processing", close_result)
                && final(self).spec_last_compound() == old(self).spec_last_compound(),
            cleanup == OpenFailureCleanup::RemovePath ==> (removed_path(final(self).spec_last_compound(), path@)
                && e == spec_cleanup_error(error, "cleanup CLOSE after failed OPEN post-processing", close_result))
                || (e matches Error::Cleanup { context, error: inner, .. } && context == "cleanup REMOVE after failed OPEN post-processing"
                    && *inner == spec_cleanup_error(error, "cleanup CLOSE after failed OPEN post-processing", close_result)),
    {
        let error = open_cleanup_error(error, close_result);
        match cleanup {
            OpenFailureCleanup::KeepPath => error,
            OpenFailureCleanup::RemovePath => {
                let removed = self.remove(path);
                cleanup_error(error, "cleanup REMOVE after failed OPEN post-processing", removed)
            },
        }
    }

    fn return_open_delegation(&mut self, handle: &FileHandle, stateid: StateId) -> (r: Result<()>)
        ensures
            final(self).locks.ids() == old(self).locks.ids(),
            wire_grew(old(self).wire@, final(self).wire@),
    {
        let response = self.compound(vec![Operation::PutFh(handle.clone()), Operation::DelegReturn(stateid)])?;
        self.ensure_status(response, "DELEGRETURN")
    }

    fn close(&mut self, opened: OpenedFile) -> (r: Result<()>)
        ensures
            final(self).locks.ids() == old(self).locks.ids(),
            wire_grew(old(self).wire@, final(self).wire@),
            r is Ok ==> closed_file(final(self).spec_last_compound(), opened.stateid),
    {
        let OpenedFile { handle, stateid } = opened;
        self.close_with_current_filehandle(one_op(Operation::PutFh(handle)), stateid)
    }

    fn close_state_by_path(&mut self, path: &str, stateid: StateId) -> (r: Result<()>)
        ensures
            !path_ok(path@) ==> r is Err,
            r is Ok ==> closed_file(final(self).spec_last_compound(), stateid),
    {
        let prefix = path_ops(path, Vec::new())?;
        self.close_with_current_filehandle(prefix, stateid)
    }

    /// Sends CLOSE after `operations`, which select the file. Advances the
    /// open-owner seqid whenever the server consumed it, retries delayed
    /// replies, and retries once after a rebuilt session.
    fn close_with_current_filehandle(&mut self, operations: Vec<Operation>, stateid: StateId) -> (r: Result<()>)
        ensures
            final(self).locks.ids() == old(self).locks.ids(),
            wire_grew(old(self).wire@, final(self).wire@),
            r is Ok ==> closed_file(final(self).spec_last_compound(), stateid),
    {
        let policy = self.retry_policy;
        let mut retry: u32 = 0;
        let mut recovered_session = false;
        loop
            invariant
                self.locks.ids() == old(self).locks.ids(),
                retry <= policy.max_retries,
                wire_grew(old(self).wire@, self.wire@),
            decreases (if recovered_session { 0int } else { 1int }), policy.max_retries - retry,
        {
            let seqid = self.current_open_seqid();
            let mut compound = operations.clone();
            compound.push(Operation::Close { seqid, stateid });
            let response = match self.compound_status(compound) {
                Ok(response) => response,
                Err(err) => {
                    if err.is_session_recoverable() && !recovered_session {
                        recovered_session = true;
                        continue;
                    }
                    return Err(err);
                },
            };
            if response_consumed_owner_seqid(&response, OpCode::Close) {
                self.advance_open_seqid();
            }
            if response_operation_has_delayed_status(&response, OpCode::Close) {
                if let Some(delay) = policy.delay_for_retry(retry) {
                    retry = retry + 1;
                    self.rpc.pause(delay);
                    continue;
                }
            }
            if response_operation_requires_session_recovery(&response, OpCode::Close) && !recovered_session {
                let error = match response.ensure_ok() {
                    Err(e) => e,
                    Ok(()) => protocol("CLOSE required session recovery but response was OK"),
                };
                self.recover_session()?;
                return Err(error);
            }
            response.ensure_ok()?;
            return self.ensure_status(response, "CLOSE");
        }
    }

    fn read_opened_at(&mut self, opened: &OpenedFile, offset: u64, count: u32) -> (r: Result<(bool, Vec<u8>)>)
        ensures
            wire_grew(old(self).wire@, final(self).wire@),
            r matches Ok((eof, data)) ==> data@.len() <= count,
            r matches Ok((eof, data)) ==> (final(self).spec_last_compound() matches Some(exchange)
                && read_step((exchange.0, exchange.1, offset, data@), opened.handle.bytes(), opened.stateid)),
    {
        let handle = opened.handle.clone();
        let ops = vec![
            Operation::PutFh(handle),
            Operation::Read { stateid: opened.stateid, offset, count },
        ];
        let ghost sent = ops@;
        let response = self.compound(ops)?;
        match response_read(&response, count) {
            Ok((eof, data)) => {
                proof {
                    assert(response_read_outcome(response, count, Ok((eof, data))));
                    assert(sent.len() == 2);
                    assert(sent[0] == Operation::PutFh(handle));
                    assert(sent[1] == (Operation::Read { stateid: opened.stateid, offset, count }));
                    assert(self.spec_last_compound() == Some((sent, response)));
                    assert(read_reply_gave(response, count, data@));
                }
                Ok((eof, data))
            },
            Err(e) => Err(e),
        }
    }

    fn read_opened_to_end(&mut self, opened: &OpenedFile) -> (r: Result<Vec<u8>>)
        ensures
            r matches Ok(out) ==> exists|steps: Seq<ReadStep>|
                #[trigger] read_chunks(steps, opened.handle.bytes(), opened.stateid) && out@ == chunks_data(steps),
    {
        let mut offset: u64 = 0;
        let mut out: Vec<u8> = Vec::new();
        let ghost mut steps: Seq<ReadStep> = Seq::empty();
        loop
            invariant
                read_chunks(steps, opened.handle.bytes(), opened.stateid),
                out@ == chunks_data(steps),
                offset == out@.len(),
            decreases u64::MAX - offset,
        {
            let count = self.read_size;
            let (eof, data) = self.read_opened_at(opened, offset, count)?;
            let ghost exchange = self.spec_last_compound()->Some_0;
            let ghost step = (exchange.0, exchange.1, offset, data@);
            if data.len() == 0 {
                return Ok(out);
            }
            let before = offset;
            advance_offset(&mut offset, data.len(), "NFSv4 READ")?;
            append_bytes(&mut out, data.as_slice());
            proof {
                let next = steps.push(step);
                assert(next.drop_last() =~= steps);
                assert(read_chunks(next, opened.handle.bytes(), opened.stateid)) by {
                    assert forall|k: int| 0 <= k < next.len() implies
                        #[trigger] read_step(next[k], opened.handle.bytes(), opened.stateid)
                        && next[k].2 == chunks_data(next.take(k)).len() by {
                        if k < steps.len() {
                            assert(next[k] == steps[k]);
                            assert(next.take(k) =~= steps.take(k));
                        } else {
                            assert(next.take(k) =~= steps);
                        }
                    }
                }
                steps = next;
            }
            if eof {
                return Ok(out);
            }
            assert(offset > before);
        }
    }

    fn read_opened_to_writer<W: ByteSink>(&mut self, opened: &OpenedFile, writer: &mut W) -> (r: Result<u64>) {
        let mut offset: u64 = 0;
        let mut total: u64 = 0;
        loop
            decreases u64::MAX - offset,
        {
            let count = self.read_size;
            let (eof, data) = self.read_opened_at(opened, offset, count)?;
            if data.len() == 0 {
                return Ok(total);
            }
            writer.write_all(data.as_slice())?;
            let before = offset;
            advance_offset(&mut offset, data.len(), "NFSv4 READ")?;
            advance_offset(&mut total, data.len(), "NFSv4 READ total")?;
            if eof {
                return Ok(total);
            }
            assert(offset > before);
        }
    }

    fn read_opened_range_to_writer<W: ByteSink>(&mut self, opened: &OpenedFile, offset: u64, count: u64, writer: &mut W) -> (r: Result<u64>)
        ensures
            r matches Ok(n) ==> n <= count,
    {
        let mut offset = offset;
        let mut remaining = count;
        let mut total: u64 = 0;
        while remaining > 0
            invariant
                total + remaining == count,
            decreases remaining,
        {
            let request: u32 = if (self.read_size as u64) < remaining { self.read_size } else { remaining as u32 };
            let (eof, data) = self.read_opened_at(opened, offset, request)?;
            if data.len() == 0 {
                return Ok(total);
            }
            writer.write_all(data.as_slice())?;
            advance_offset(&mut offset, data.len(), "NFSv4 READ")?;
            total = total + data.len() as u64;
            remaining = remaining - data.len() as u64;
            if eof {
                return Ok(total);
            }
        }
        Ok(total)
    }

    #[verifier::rlimit(100)]
    #[verifier::spinoff_prover]
    fn read_opened_range_vec(&mut self, opened: &OpenedFile, offset: u64, count: u64) -> (r: Result<Vec<u8>>)
        ensures
            r matches Ok(out) ==> out@.len() <= count && read_back(out@, opened.handle.bytes(), opened.stateid, offset as int),
    {
        let mut position = offset;
        let mut remaining = count;
        let mut out: Vec<u8> = Vec::new();
        let ghost mut steps: Seq<ReadStep> = Seq::empty();
        proof {
            assert(chunks_data(steps) =~= Seq::<u8>::empty());
        }
        while remaining > 0
            invariant
                out@.len() + remaining == count,
                position == offset + out@.len(),
                read_chunks_from(steps, opened.handle.bytes(), opened.stateid, offset as int),
                out@ == chunks_data(steps),
            decreases remaining,
        {
            let request: u32 = if (self.read_size as u64) < remaining { self.read_size } else { remaining as u32 };
            let (eof, data) = self.read_opened_at(opened, position, request)?;
            let ghost exchange = self.spec_last_compound()->Some_0;
            let ghost step = (exchange.0, exchange.1, position, data@);
            assert(read_step(step, opened.handle.bytes(), opened.stateid));
            if data.len() == 0 {
                return Ok(out);
            }
            advance_offset(&mut position, data.len(), "NFSv4 READ")?;
            append_bytes(&mut out, data.as_slice());
            remaining = remaining - data.len() as u64;
            proof {
                let next = steps.push(step);
                assert(next.drop_last() =~= steps);
                assert forall|k: int| 0 <= k < next.len() implies
                    #[trigger] read_step(next[k], opened.handle.bytes(), opened.stateid)
                    && next[k].2 == offset + chunks_data(next.take(k)).len() by {
                    if k < steps.len() {
                        assert(next[k] == steps[k]);
                        assert(next.take(k) =~= steps.take(k));
                        assert(read_step(steps[k], opened.handle.bytes(), opened.stateid));
                    } else {
                        assert(next[k] == step);
                        assert(next.take(k) =~= steps);
                        assert(read_step(step, opened.handle.bytes(), opened.stateid));
                    }
                }
                assert(chunks_data(next) == chunks_data(steps) + data@);
                steps = next;
                assert(read_chunks_from(steps, opened.handle.bytes(), opened.stateid, offset as int));
                assert(out@ == chunks_data(steps));
            }
            if eof {
                return Ok(out);
            }
        }
        Ok(out)
    }

    fn read_opened_range(&mut self, opened: &OpenedFile, offset: u64, count: u32) -> (r: Result<Vec<u8>>)
        ensures
            r matches Ok(out) ==> out@.len() <= count && read_back(out@, opened.handle.bytes(), opened.stateid, offset as int),
    {
        self.read_opened_range_vec(opened, offset, count as u64)
    }

    fn read_plus_opened(&mut self, opened: &OpenedFile, offset: u64, count: u32) -> (r: Result<ReadPlusResult>)
        ensures
            r is Ok ==> handle_op_sent(final(self).wire@, old(self).wire@.len() as int, opened.handle.bytes(),
                Operation::ReadPlus(ReadPlusArgs { stateid: opened.stateid, offset, count })),
    {
        let ops = vec![
            Operation::PutFh(opened.handle.clone()),
            Operation::ReadPlus(ReadPlusArgs { stateid: opened.stateid, offset, count }),
        ];
        let ghost sent = ops@;
        let response = self.compound(ops)?;
        proof {
            let i = choose|i: int| old(self).wire@.len() <= i < self.wire@.len() && #[trigger] session_exchange_at(self.wire@[i], sent, response);
            assert(handle_op_call(self.wire@[i], opened.handle.bytes(), sent[1]));
        }
        response_read_plus(&response, count)
    }

    fn io_advise_opened(&mut self, opened: &OpenedFile, offset: u64, count: u64, hints: &[IoAdviceType]) -> (r: Result<IoAdviseResult>) {
        let response = self.compound(vec![
            Operation::PutFh(opened.handle.clone()),
            Operation::IoAdvise(IoAdviseArgs { stateid: opened.stateid, offset, count, hints: io_advice_bitmap(hints) }),
        ])?;
        response_io_advise(&response)
    }

    fn seek_opened(&mut self, opened: &OpenedFile, offset: u64, what: SeekContent) -> (r: Result<SeekResult>)
        ensures
            r is Ok ==> handle_op_sent(final(self).wire@, old(self).wire@.len() as int, opened.handle.bytes(),
                Operation::Seek { stateid: opened.stateid, offset, what }),
    {
        let ops = vec![
            Operation::PutFh(opened.handle.clone()),
            Operation::Seek { stateid: opened.stateid, offset, what },
        ];
        let ghost sent = ops@;
        let response = self.compound(ops)?;
        proof {
            let i = choose|i: int| old(self).wire@.len() <= i < self.wire@.len() && #[trigger] session_exchange_at(self.wire@[i], sent, response);
            assert(handle_op_call(self.wire@[i], opened.handle.bytes(), sent[1]));
        }
        response_seek(&response)
    }

    /// Reads an entire file into memory.
    pub fn read(&mut self, path: &str) -> (r: Result<Vec<u8>>)
        ensures
            r is Ok ==> ended_with_close(final(self).spec_last_compound()),
            !parent_ok(path@) ==> r is Err,
            r matches Ok(data) ==> exists|handle: Seq<u8>, stateid: StateId, steps: Seq<ReadStep>|
                #[trigger] read_chunks(steps, handle, stateid) && data@ == chunks_data(steps),
    {
        let opened = self.open(path, OPEN4_SHARE_ACCESS_READ, OpenHow::NoCreate)?;
        let result = self.read_opened_to_end(&opened);
        let close_result = self.close(opened);
        finish_with_close(result, close_result)
    }

    /// Streams an entire file into `writer`; returns the number of bytes.
    pub fn read_to_writer<W: ByteSink>(&mut self, path: &str, writer: &mut W) -> (r: Result<u64>)
        ensures
            r is Ok ==> ended_with_close(final(self).spec_last_compound()),
            !parent_ok(path@) ==> r is Err,
    {
        let opened = self.open(path, OPEN4_SHARE_ACCESS_READ, OpenHow::NoCreate)?;
        let result = self.read_opened_to_writer(&opened, writer);
        let close_result = self.close(opened);
        finish_with_close(result, close_result)
    }

    /// Streams at most `count` bytes from `offset` into `writer`.
    pub fn read_range_to_writer<W: ByteSink>(&mut self, path: &str, offset: u64, count: u64, writer: &mut W) -> (r: Result<u64>)
        ensures
            r matches Ok(n) ==> n <= count,
            r is Ok ==> ended_with_close(final(self).spec_last_compound()),
            !parent_ok(path@) ==> r is Err,
    {
        let opened = self.open(path, OPEN4_SHARE_ACCESS_READ, OpenHow::NoCreate)?;
        let result = self.read_opened_range_to_writer(&opened, offset, count, writer);
        let close_result = self.close(opened);
        finish_with_close(result, close_result)
    }

    /// Reads at most `count` bytes from `offset` into memory.
    pub fn read_range(&mut self, path: &str, offset: u64, count: u64) -> (r: Result<Vec<u8>>)
        ensures
            r is Ok ==> ended_with_close(final(self).spec_last_compound()),
            !parent_ok(path@) ==> r is Err,
            r matches Ok(data) ==> data@.len() <= count
                && exists|handle: Seq<u8>, stateid: StateId| #[trigger] read_back(data@, handle, stateid, offset as int),
    {
        let opened = self.open(path, OPEN4_SHARE_ACCESS_READ, OpenHow::NoCreate)?;
        let ghost handle = opened.handle.bytes();
        let ghost stateid = opened.stateid;
        let result = self.read_opened_range_vec(&opened, offset, count);
        let close_result = self.close(opened);
        finish_with_close(result, close_result)
    }

    /// Reads up to `count` bytes at `offset`.
    pub fn read_at(&mut self, path: &str, offset: u64, count: u32) -> (r: Result<Vec<u8>>)
        ensures
            r is Ok ==> ended_with_close(final(self).spec_last_compound()),
            !parent_ok(path@) ==> r is Err,
            r matches Ok(data) ==> data@.len() <= count
                && exists|handle: Seq<u8>, stateid: StateId| #[trigger] read_back(data@, handle, stateid, offset as int),
    {
        let opened = self.open(path, OPEN4_SHARE_ACCESS_READ, OpenHow::NoCreate)?;
        let ghost handle = opened.handle.bytes();
        let ghost stateid = opened.stateid;
        let result = self.read_opened_range(&opened, offset, count);
        let close_result = self.close(opened);
        finish_with_close(result, close_result)
    }

    /// Reads exactly `count` bytes at `offset`, failing if EOF is reached first.
    pub fn read_exact_at(&mut self, path: &str, offset: u64, count: u32) -> (r: Result<Vec<u8>>)
        ensures
            r matches Ok(data) ==> data@.len() == count,
            r matches Ok(data) ==> exists|handle: Seq<u8>, stateid: StateId| #[trigger] read_back(data@, handle, stateid, offset as int),
            r is Ok ==> ended_with_close(final(self).spec_last_compound()),
    {
        let data = self.read_at(path, offset, count)?;
        if data.len() as u64 != count as u64 {
            return Err(protocol("NFSv4 READ reached EOF before the requested byte count"));
        }
        Ok(data)
    }

    /// Executes an NFSv4.2 `READ_PLUS` for a byte range.
    pub fn read_plus(&mut self, path: &str, offset: u64, count: u32) -> (r: Result<ReadPlusResult>)
        ensures
            old(self).spec_minor_version() < NFS4_MINOR_VERSION_V42 ==> (r matches Err(e) && e is Protocol),
            r is Ok ==> ended_with_close(final(self).spec_last_compound()),
            !parent_ok(path@) ==> r is Err,
    {
        require_minor_version("READ_PLUS", self.minor_version, NFS4_MINOR_VERSION_V42)?;
        let opened = self.open(path, OPEN4_SHARE_ACCESS_READ, OpenHow::NoCreate)?;
        let result = self.read_plus_opened(&opened, offset, count);
        let close_result = self.close(opened);
        finish_with_close(result, close_result)
    }

    /// Executes an NFSv4.2 SEEK operation.
    pub fn seek(&mut self, path: &str, offset: u64, what: SeekContent) -> (r: Result<SeekResult>)
        ensures
            old(self).spec_minor_version() < NFS4_MINOR_VERSION_V42 ==> (r matches Err(e) && e is Protocol),
            r is Ok ==> ended_with_close(final(self).spec_last_compound()),
            !parent_ok(path@) ==> r is Err,
    {
        require_minor_version("SEEK", self.minor_version, NFS4_MINOR_VERSION_V42)?;
        let opened = self.open(path, OPEN4_SHARE_ACCESS_READ, OpenHow::NoCreate)?;
        let result = self.seek_opened(&opened, offset, what);
        let close_result = self.close(opened);
        finish_with_close(result, close_result)
    }

    /// Finds the next data offset at or after `offset`.
    pub fn seek_data(&mut self, path: &str, offset: u64) -> (r: Result<Option<u64>>)
        ensures
            old(self).spec_minor_version() < NFS4_MINOR_VERSION_V42 ==> r is Err,
            r is Ok ==> ended_with_close(final(self).spec_last_compound()),
    {
        let found = self.seek(path, offset, SeekContent::Data)?;
        Ok(found.found_offset())
    }

    /// Finds the next hole offset at or after `offset`.
    pub fn seek_hole(&mut self, path: &str, offset: u64) -> (r: Result<Option<u64>>)
        ensures
            old(self).spec_minor_version() < NFS4_MINOR_VERSION_V42 ==> r is Err,
            r is Ok ==> ended_with_close(final(self).spec_last_compound()),
    {
        let found = self.seek(path, offset, SeekContent::Hole)?;
        Ok(found.found_offset())
    }

    /// Reads the target of a symbolic link.
    pub fn read_link(&mut self, path: &str) -> (r: Result<String>)
        ensures
            !path_ok(path@) ==> r is Err,
            r is Ok ==> (final(self).spec_last_compound() matches Some((ops, reply))
                && path_request(path@, seq![Operation::ReadLink], ops) && reply.status == Status::NfsOk
                && response_readlink_outcome(reply, r)),
    {
        let response = self.compound(path_ops(path, one_op(Operation::ReadLink))?)?;
        response_readlink(&response)
    }

    /// Sends NFSv4.2 I/O advice for a byte range.
    pub fn io_advise(&mut self, path: &str, offset: u64, count: u64, hints: &[IoAdviceType]) -> (r: Result<IoAdviseResult>)
        ensures
            old(self).spec_minor_version() < NFS4_MINOR_VERSION_V42 ==> (r matches Err(e) && e is Protocol),
            r is Ok ==> ended_with_close(final(self).spec_last_compound()),
            !parent_ok(path@) ==> r is Err,
    {
        require_minor_version("IO_ADVISE", self.minor_version, NFS4_MINOR_VERSION_V42)?;
        let opened = self.open(path, io_advice_share_access(hints), OpenHow::NoCreate)?;
        let result = self.io_advise_opened(&opened, offset, count, hints);
        let close_result = self.close(opened);
        finish_with_close(result, close_result)
    }

    /// Releases server-side state associated with a stateid.
    pub fn free_stateid(&mut self, stateid: StateId) -> (r: Result<()>)
        ensures
            final(self).spec_locks().ids() == old(self).spec_locks().ids(),
            r is Ok ==> (final(self).spec_last_compound() matches Some((ops, reply))
                && ops == seq![Operation::FreeStateId(stateid)] && reply.status == Status::NfsOk && last_result_ok(reply)),
    {
        let response = self.compound(one_op(Operation::FreeStateId(stateid)))?;
        self.ensure_status(response, "FREE_STATEID")
    }

    /// Tests NFSv4 stateids and returns one status per requested stateid; an
    /// empty list is answered without a call.
    pub fn test_stateids(&mut self, stateids: &[StateId]) -> (r: Result<Vec<Status>>)
        ensures
            stateids@.len() == 0 ==> (r matches Ok(v) && v@.len() == 0),
            stateids@.len() > NFS4_MAX_OPS ==> (r matches Err(e) && e is Protocol),
            stateids@.len() > 0 && r is Ok ==> (final(self).spec_last_compound() matches Some((ops, reply))
                && ops.len() == 1 && (ops[0] matches Operation::TestStateIds(ids) && ids@ == stateids@)
                && reply.status == Status::NfsOk && response_test_stateids_outcome(reply, stateids@.len() as usize, r)),
    {
        if stateids.len() == 0 {
            return Ok(Vec::new());
        }
        validate_stateid_batch_len(stateids.len())?;
        let mut ids: Vec<StateId> = Vec::new();
        let mut i: usize = 0;
        while i < stateids.len()
            invariant
                i <= stateids@.len(),
                ids@ == stateids@.take(i as int),
            decreases stateids@.len() - i,
        {
            ids.push(stateids[i]);
            assert(ids@ =~= stateids@.take(i + 1));
            i = i + 1;
        }
        assert(ids@ =~= stateids@);
        let response = self.compound(one_op(Operation::TestStateIds(ids)))?;
        response_test_stateids(&response, stateids.len())
    }

    /// Tests a single NFSv4 stateid and returns its server-reported status.
    pub fn test_stateid(&mut self, stateid: StateId) -> (r: Result<Status>)
        ensures
            r is Ok ==> (final(self).spec_last_compound() matches Some((ops, reply))
                && ops.len() == 1 && (ops[0] matches Operation::TestStateIds(ids) && ids@ == seq![stateid])
                && reply.status == Status::NfsOk),
    {
        let ids = [stateid];
        assert(ids@ =~= seq![stateid]);
        let mut statuses = self.test_stateids(&ids)?;
        match statuses.pop() {
            Some(status) => Ok(status),
            None => Err(protocol("TEST_STATEID returned no status")),
        }
    }

    /// Releases a lock owner when the server no longer tracks locks for it.
    ///
    /// Returns `Ok(false)` when the server reports `NFS4ERR_LOCKS_HELD`.
    pub fn release_lock_owner(&mut self, owner: Vec<u8>) -> (r: Result<bool>)
        ensures
            final(self).spec_locks().ids() == old(self).spec_locks().ids(),
            owner@.len() > NFS4_OPAQUE_LIMIT ==> (r matches Err(e) && e is Protocol),
            r is Ok ==> (final(self).spec_last_compound() matches Some((ops, reply))
                && ops.len() == 1 && (ops[0] matches Operation::ReleaseLockOwner(o) && o.owner@ == owner@ && o.client_id == old(self).spec_client_id())
                && response_release_lock_owner_outcome(reply, r)),
    {
        validate_lock_owner(owner.as_slice())?;
        let response = self.compound_status(one_op(Operation::ReleaseLockOwner(LockOwner { client_id: self.client_id, owner })))?;
        response_release_lock_owner(&response)
    }
}



/// Where the bytes of a streamed write come from.
pub trait ByteSource {
    /// Returns the next at most `max` bytes of the stream; an empty result
    /// ends the stream.
    fn read_chunk(&mut self, max: usize) -> Result<Vec<u8>>;
}

/// The default mode of files the client creates.
pub const DEFAULT_FILE_MODE: u32 = 0o644;

/// A step of a recursive removal.
pub enum RemoveTask {
    Visit(String, Option<FileType>),
    RemoveDir(String),
}

/// The most steps a recursive removal takes before it gives up.
pub const REMOVE_ALL_MAX_STEPS: u64 = u64::MAX;

/// Whether two component lists are equal.
fn same_components(a: &Vec<String>, b: &Vec<String>) -> (r: bool)
    ensures
        r <==> (a@.len() == b@.len() && forall|i: int| 0 <= i < a@.len() ==> a@[i]@ == b@[i]@),
{
    if a.len() != b.len() {
        return false;
    }
    let mut i: usize = 0;
    while i < a.len()
        invariant
            i <= a@.len() == b@.len(),
            forall|k: int| 0 <= k < i ==> a@[k]@ == b@[k]@,
        decreases a@.len() - i,
    {
        if a[i] != b[i] {
            return false;
        }
        i = i + 1;
    }
    true
}

/// Operations that select the directory reached by `parent` from the root,
/// then `last`.
fn parent_ops(parent: &Vec<String>, last: Operation) -> (ops: Vec<Operation>)
    ensures
        forall|ns: Seq<Seq<char>>| strings_are(parent@, ns) ==> is_lookup_chain(ops@, Operation::PutRootFh, ns, Seq::empty(), seq![last]),
{
    let mut ops: Vec<Operation> = Vec::new();
    ops.push(Operation::PutRootFh);
    push_lookups(&mut ops, parent);
    ops.push(last);
    proof {
        let n = parent@.len() as int;
        assert forall|ns: Seq<Seq<char>>| strings_are(parent@, ns)
            implies is_lookup_chain(ops@, Operation::PutRootFh, ns, Seq::empty(), seq![last]) by {
            assert forall|j: int| 0 <= j < ns.len() implies ((#[trigger] ops@[1 + j]) matches Operation::Lookup(s) && s@ == ns[j]) by {
                assert(parent@[j]@ == ns[j]);
            }
            assert(ops@.subrange(1 + n, 1 + n) =~= Seq::<Operation>::empty());
            assert(ops@.subrange(1 + n, ops@.len() as int) =~= seq![last]);
        }
    }
    ops
}

/// Appends a LOOKUP of each component.
fn push_lookups(ops: &mut Vec<Operation>, components: &Vec<String>)
    ensures
        final(ops)@.len() == old(ops)@.len() + components@.len(),
        forall|k: int| 0 <= k < old(ops)@.len() ==> final(ops)@[k] == old(ops)@[k],
        forall|j: int| 0 <= j < components@.len()
            ==> ((#[trigger] final(ops)@[old(ops)@.len() + j]) matches Operation::Lookup(s) && s@ == components@[j]@),
{
    let mut i: usize = 0;
    while i < components.len()
        invariant
            i <= components@.len(),
            ops@.len() == old(ops)@.len() + i,
            forall|k: int| 0 <= k < old(ops)@.len() ==> ops@[k] == old(ops)@[k],
            forall|j: int| 0 <= j < i
                ==> ((#[trigger] ops@[old(ops)@.len() + j]) matches Operation::Lookup(s) && s@ == components@[j]@),
        decreases components@.len() - i,
    {
        ops.push(Operation::Lookup(components[i].clone()));
        i = i + 1;
    }
}

/// The permission bits of a file's mode, `0o644` when the server reports none.
pub open spec fn spec_copy_mode(mode: Option<u32>) -> u32 {
    match mode {
        Some(m) => m & 0o7777,
        None => DEFAULT_FILE_MODE & 0o7777,
    }
}

fn copy_mode(mode: Option<u32>) -> (m: u32)
    ensures
        m == spec_copy_mode(mode),
{
    match mode {
        Some(m) => m & 0o7777,
        None => DEFAULT_FILE_MODE & 0o7777,
    }
}

/// The outcome of a removal that tolerates a missing object.
pub open spec fn spec_removed_if_exists(result: Result<()>) -> Result<bool> {
    match result {
        Ok(()) => Ok(true),
        Err(Error::NfsV4 { status: Status::NoEnt, .. }) => Ok(false),
        Err(e) => Err(e),
    }
}

fn removed_if_exists(result: Result<()>) -> (r: Result<bool>)
    ensures
        r == spec_removed_if_exists(result),
{
    match result {
        Ok(()) => Ok(true),
        Err(err) => {
            if err.is_not_found() {
                Ok(false)
            } else {
                Err(err)
            }
        },
    }
}

impl<T: Transport> Client<T> {
    /// A fresh temporary name: the process id, the clock and a counter.
    fn next_temp_parts(&mut self) -> (r: (u32, u128, u64)) {
        let (secs, nanos) = unix_clock();
        let when = clock_to_nanos(secs, nanos);
        let counter = self.id_counter;
        self.id_counter = self.id_counter.wrapping_add(1);
        (self.builder.process_id, when, counter)
    }

    fn set_opened_attrs(&mut self, opened: &OpenedFile, attrs: Fattr) -> (r: Result<()>)
        ensures
            wire_grew(old(self).wire@, final(self).wire@),
            r is Ok ==> handle_op_sent(final(self).wire@, old(self).wire@.len() as int, opened.handle.bytes(),
                Operation::SetAttr { stateid: opened.stateid, attrs }),
    {
        let ghost op = Operation::SetAttr { stateid: opened.stateid, attrs };
        let ops = vec![
            Operation::PutFh(opened.handle.clone()),
            Operation::SetAttr { stateid: opened.stateid, attrs },
        ];
        let ghost sent = ops@;
        let response = self.compound(ops)?;
        proof {
            let i = choose|i: int| old(self).wire@.len() <= i < self.wire@.len() && #[trigger] session_exchange_at(self.wire@[i], sent, response);
            assert(handle_op_call(self.wire@[i], opened.handle.bytes(), op));
        }
        self.ensure_status(response, "SETATTR")
    }

    fn set_opened_size(&mut self, opened: &OpenedFile, size: u64) -> (r: Result<()>)
        ensures
            wire_grew(old(self).wire@, final(self).wire@),
            r is Ok ==> size_set(final(self).wire@, old(self).wire@.len() as int, opened.handle.bytes(), opened.stateid, size),
    {
        let attrs = Fattr::size(size);
        let ghost a = attrs;
        let r = self.set_opened_attrs(opened, attrs);
        proof {
            if r is Ok {
                assert(handle_op_sent(self.wire@, old(self).wire@.len() as int, opened.handle.bytes(),
                    Operation::SetAttr { stateid: opened.stateid, attrs: a }));
            }
        }
        r
    }

    fn commit_opened(&mut self, opened: &OpenedFile, offset: u64, count: u32) -> (r: Result<CommitResult>)
        ensures
            wire_grew(old(self).wire@, final(self).wire@),
            r is Ok ==> handle_op_sent(final(self).wire@, old(self).wire@.len() as int, opened.handle.bytes(),
                Operation::Commit { offset, count }),
    {
        let ops = vec![
            Operation::PutFh(opened.handle.clone()),
            Operation::Commit { offset, count },
        ];
        let ghost sent = ops@;
        let response = self.compound(ops)?;
        proof {
            let i = choose|i: int| old(self).wire@.len() <= i < self.wire@.len() && #[trigger] session_exchange_at(self.wire@[i], sent, response);
            assert(handle_op_call(self.wire@[i], opened.handle.bytes(), Operation::Commit { offset, count }));
        }
        response_commit(&response)
    }

    /// Writes `data` at `offset` in chunks of at most the write size, with
    /// FILE_SYNC stability; a chunk the server stored less durably is
    /// committed, and its write verifier must survive the commit.
    #[verifier::rlimit(100)]
    #[verifier::spinoff_prover]
    fn write_opened_at(&mut self, opened: &OpenedFile, offset: u64, data: &[u8]) -> (r: Result<()>)
        ensures
            wire_grew(old(self).wire@, final(self).wire@),
            r is Ok ==> data_written(final(self).wire@, old(self).wire@.len() as int, opened.handle.bytes(), opened.stateid,
                offset as int, data@, data@.len() as int),
    {
        let ghost offset0 = offset as int;
        let ghost w_start = self.wire@.len() as int;
        let mut offset = offset;
        let mut start: usize = 0;
        while start < data.len()
            invariant
                start <= data@.len(),
                offset == offset0 + start,
                w_start == old(self).wire@.len(),
                wire_grew(old(self).wire@, self.wire@),
                data_written(self.wire@, w_start, opened.handle.bytes(), opened.stateid, offset0, data@, start as int),
            decreases data@.len() - start,
        {
            let rest = data.len() - start;
            let chunk_len: usize = if rest < self.write_size as usize { rest } else { self.write_size as usize };
            if chunk_len == 0 {
                return Err(protocol("NFSv4 write size is zero"));
            }
            let chunk = slice_to_vec(data, start, start + chunk_len);
            let ghost chunk_v = chunk@;
            let ghost w0 = self.wire@;
            let operations = vec![
                Operation::PutFh(opened.handle.clone()),
                Operation::Write { stateid: opened.stateid, offset, stable: StableHow::FileSync, data: chunk },
            ];
            let ghost ops = operations@;
            let response = self.compound(operations)?;
            let result = response_write(&response, chunk_len as u32)?;
            let ghost w1 = self.wire@;
            let ghost sent_at = choose|i: int| w0.len() <= i < w1.len() && #[trigger] session_exchange_at(w1[i], ops, response);
            proof {
                assert(session_exchange_at(w1[sent_at], ops, response));
                assert(response_write_outcome(response, chunk_v.len() as u32, Ok(result)));
                assert(write_sent(w1[sent_at], opened.handle.bytes(), opened.stateid, offset, chunk_v, result.count));
            }
            if !result.committed.satisfies(StableHow::FileSync) {
                let commit = self.commit_opened(opened, offset, result.count)?;
                if !bytes_equal(commit.verifier.as_slice(), result.verifier.as_slice()) {
                    return Err(protocol("NFSv4 COMMIT verifier changed after unstable WRITE"));
                }
            }
            let written = result.count as usize;
            if written == 0 || written > chunk_len {
                return Err(protocol("NFSv4 WRITE made no progress"));
            }
            let ghost sent_offset = offset;
            advance_offset(&mut offset, written, "NFSv4 WRITE")?;
            proof {
                let w2 = self.wire@;
                assert(w2[sent_at] == w1[sent_at]);
                assert(write_sent(w2[sent_at], opened.handle.bytes(), opened.stateid, sent_offset, chunk_v, result.count));
                lemma_data_written_grow(w0, w2, w_start, w_start, opened.handle.bytes(), opened.stateid, offset0, data@, start as int);
                assert forall|p: int| 0 <= p < start + written implies #[trigger] byte_written(w2, w_start, opened.handle.bytes(),
                    opened.stateid, offset0, data@, p) by {
                    if p >= start {
                        assert(chunk_v[offset0 + p - sent_offset] == data@[p]);
                        assert(write_sent(w2[sent_at], opened.handle.bytes(), opened.stateid, sent_offset, chunk_v, result.count));
                    }
                }
            }
            start = start + written;
        }
        Ok(())
    }

    fn write_opened_from_reader_at<R: ByteSource>(&mut self, opened: &OpenedFile, offset: u64, reader: &mut R) -> (r: Result<u64>) {
        let mut offset = offset;
        let mut written: u64 = 0;
        loop
            decreases u64::MAX - written,
        {
            let chunk = reader.read_chunk(self.write_size as usize)?;
            if chunk.len() == 0 {
                return Ok(written);
            }
            self.write_opened_at(opened, offset, chunk.as_slice())?;
            advance_offset(&mut offset, chunk.len(), "NFSv4 WRITE reader")?;
            let before = written;
            advance_offset(&mut written, chunk.len(), "NFSv4 WRITE reader total")?;
            assert(written > before);
        }
    }

    fn write_opened_from_reader<R: ByteSource>(&mut self, opened: &OpenedFile, reader: &mut R) -> (r: Result<u64>) {
        self.write_opened_from_reader_at(opened, 0, reader)
    }

    /// Replaces or creates a file with `data`.
    pub fn write(&mut self, path: &str, data: &[u8]) -> (r: Result<()>)
        ensures
            r is Ok ==> ended_with_close(final(self).spec_last_compound()),
            r is Ok ==> exists|handle: Seq<u8>, stateid: StateId| #[trigger] data_written(final(self).spec_wire(),
                old(self).spec_wire().len() as int, handle, stateid, 0, data@, data@.len() as int),
    {
        self.write_with_mode(path, data, DEFAULT_FILE_MODE)
    }

    /// Replaces or creates a file with an explicit mode when created.
    pub fn write_with_mode(&mut self, path: &str, data: &[u8], mode: u32) -> (r: Result<()>)
        ensures
            r is Ok ==> ended_with_close(final(self).spec_last_compound()),
            !parent_ok(path@) ==> r is Err,
            r is Ok ==> exists|handle: Seq<u8>, stateid: StateId| #[trigger] data_written(final(self).spec_wire(),
                old(self).spec_wire().len() as int, handle, stateid, 0, data@, data@.len() as int),
    {
        let opened = self.open(path, OPEN4_SHARE_ACCESS_BOTH, OpenHow::Unchecked(Fattr::mode(mode)))?;
        let ghost handle = opened.handle.bytes();
        let ghost stateid = opened.stateid;
        let sized = self.set_opened_size(&opened, 0);
        let ghost w_mid = self.wire@;
        let result = match sized {
            Ok(()) => self.write_opened_at(&opened, 0, data),
            Err(e) => Err(e),
        };
        let ghost w1 = self.wire@;
        let close_result = self.close(opened);
        proof {
            if result is Ok {
                assert(data_written(w1, w_mid.len() as int, handle, stateid, 0, data@, data@.len() as int));
                assert(old(self).wire@.len() <= w_mid.len());
                lemma_data_written_grow(w1, self.wire@, w_mid.len() as int, old(self).wire@.len() as int, handle, stateid, 0,
                    data@, data@.len() as int);
                assert(data_written(self.spec_wire(), old(self).spec_wire().len() as int, handle, stateid, 0, data@, data@.len() as int));
            }
        }
        finish_with_close(result, close_result)
    }

    /// Replaces or creates a file by streaming from `reader`.
    pub fn write_from_reader<R: ByteSource>(&mut self, path: &str, reader: &mut R) -> (r: Result<u64>)
        ensures
            r is Ok ==> ended_with_close(final(self).spec_last_compound()),
    {
        self.write_from_reader_with_mode(path, reader, DEFAULT_FILE_MODE)
    }

    /// Replaces or creates a file from `reader` with an explicit mode when created.
    pub fn write_from_reader_with_mode<R: ByteSource>(&mut self, path: &str, reader: &mut R, mode: u32) -> (r: Result<u64>)
        ensures
            r is Ok ==> ended_with_close(final(self).spec_last_compound()),
            !parent_ok(path@) ==> r is Err,
    {
        let opened = self.open(path, OPEN4_SHARE_ACCESS_BOTH, OpenHow::Unchecked(Fattr::mode(mode)))?;
        let result = match self.set_opened_size(&opened, 0) {
            Ok(()) => self.write_opened_from_reader(&opened, reader),
            Err(e) => Err(e),
        };
        let close_result = self.close(opened);
        finish_with_close(result, close_result)
    }

    fn finish_with_temp_cleanup<V>(&mut self, result: Result<V>, created: bool, temp: &str, cleanup_context: &'static str) -> (r: Result<V>)
        ensures
            result is Ok ==> r == result,
            result is Ok ==> final(self).spec_last_compound() == old(self).spec_last_compound(),
            result is Err ==> r is Err,
    {
        match result {
            Ok(value) => Ok(value),
            Err(err) => {
                if created {
                    let removed = self.remove(temp);
                    Err(cleanup_error(err, cleanup_context, removed))
                } else {
                    Err(err)
                }
            },
        }
    }

    /// Writes a file through a temporary sibling and renames it into place.
    pub fn write_atomic(&mut self, path: &str, data: &[u8]) -> (r: Result<()>)
        ensures
            !parent_ok(path@) ==> r is Err,
            r is Ok ==> renamed_into(final(self).spec_last_compound(), path@),
    {
        self.write_atomic_with_mode(path, data, DEFAULT_FILE_MODE)
    }

    /// Atomic write with an explicit mode for the temporary file.
    pub fn write_atomic_with_mode(&mut self, path: &str, data: &[u8], mode: u32) -> (r: Result<()>)
        ensures
            !parent_ok(path@) ==> r is Err,
            r is Ok ==> renamed_into(final(self).spec_last_compound(), path@),
    {
        let (pid, nanos, counter) = self.next_temp_parts();
        let temp = temporary_sibling_path(path, pid, nanos, counter)?;
        let mut created = false;
        let result = match self.open_temp(temp.as_str(), OPEN4_SHARE_ACCESS_BOTH, OpenHow::Guarded(Fattr::mode(mode))) {
            Ok(opened) => {
                created = true;
                let write_result = self.write_opened_at(&opened, 0, data);
                let close_result = self.close(opened);
                match finish_with_close(write_result, close_result) {
                    Ok(()) => self.rename(temp.as_str(), path),
                    Err(e) => Err(e),
                }
            },
            Err(err) => Err(err),
        };
        self.finish_with_temp_cleanup(result, created, temp.as_str(), "cleanup REMOVE after failed atomic write")
    }

    /// Atomic write by streaming from `reader`.
    pub fn write_atomic_from_reader<R: ByteSource>(&mut self, path: &str, reader: &mut R) -> (r: Result<u64>)
        ensures
            !parent_ok(path@) ==> r is Err,
            r is Ok ==> renamed_into(final(self).spec_last_compound(), path@),
    {
        self.write_atomic_from_reader_with_mode(path, reader, DEFAULT_FILE_MODE)
    }

    /// Atomic streamed write with an explicit mode for the temporary file.
    pub fn write_atomic_from_reader_with_mode<R: ByteSource>(&mut self, path: &str, reader: &mut R, mode: u32) -> (r: Result<u64>)
        ensures
            !parent_ok(path@) ==> r is Err,
            r is Ok ==> renamed_into(final(self).spec_last_compound(), path@),
    {
        let (pid, nanos, counter) = self.next_temp_parts();
        let temp = temporary_sibling_path(path, pid, nanos, counter)?;
        let mut created = false;
        let result = match self.open_temp(temp.as_str(), OPEN4_SHARE_ACCESS_BOTH, OpenHow::Guarded(Fattr::mode(mode))) {
            Ok(opened) => {
                created = true;
                let write_result = self.write_opened_from_reader(&opened, reader);
                let close_result = self.close(opened);
                match finish_with_close(write_result, close_result) {
                    Ok(written) => match self.rename(temp.as_str(), path) {
                        Ok(()) => Ok(written),
                        Err(e) => Err(e),
                    },
                    Err(err) => Err(err),
                }
            },
            Err(err) => Err(err),
        };
        self.finish_with_temp_cleanup(result, created, temp.as_str(), "cleanup REMOVE after failed atomic reader write")
    }

    /// Appends bytes to an existing file and returns the number written.
    pub fn append(&mut self, path: &str, data: &[u8]) -> (r: Result<u64>)
        ensures
            r matches Ok(n) ==> n == data@.len(),
            r is Ok ==> ended_with_close(final(self).spec_last_compound()),
    {
        let offset = match self.metadata(path)?.size {
            Some(size) => size,
            None => return Err(protocol("NFSv4 size attribute is required for append")),
        };
        let opened = self.open(path, OPEN4_SHARE_ACCESS_WRITE, OpenHow::NoCreate)?;
        let result = match self.write_opened_at(&opened, offset, data) {
            Ok(()) => {
                let mut written: u64 = 0;
                match advance_offset(&mut written, data.len(), "NFSv4 APPEND") {
                    Ok(()) => Ok(written),
                    Err(e) => Err(e),
                }
            },
            Err(e) => Err(e),
        };
        let close_result = self.close(opened);
        finish_with_close(result, close_result)
    }

    /// Appends bytes from `reader` and returns the number written.
    pub fn append_from_reader<R: ByteSource>(&mut self, path: &str, reader: &mut R) -> (r: Result<u64>)
        ensures
            r is Ok ==> ended_with_close(final(self).spec_last_compound()),
    {
        let offset = match self.metadata(path)?.size {
            Some(size) => size,
            None => return Err(protocol("NFSv4 size attribute is required for append")),
        };
        let opened = self.open(path, OPEN4_SHARE_ACCESS_WRITE, OpenHow::NoCreate)?;
        let result = self.write_opened_from_reader_at(&opened, offset, reader);
        let close_result = self.close(opened);
        finish_with_close(result, close_result)
    }

    /// Writes bytes at `offset`.
    pub fn write_at(&mut self, path: &str, offset: u64, data: &[u8]) -> (r: Result<()>)
        ensures
            r is Ok ==> ended_with_close(final(self).spec_last_compound()),
            !parent_ok(path@) ==> r is Err,
            r is Ok ==> exists|handle: Seq<u8>, stateid: StateId| #[trigger] data_written(final(self).spec_wire(),
                old(self).spec_wire().len() as int, handle, stateid, offset as int, data@, data@.len() as int),
    {
        let opened = self.open(path, OPEN4_SHARE_ACCESS_WRITE, OpenHow::NoCreate)?;
        let ghost handle = opened.handle.bytes();
        let ghost stateid = opened.stateid;
        let ghost w_mid = self.wire@;
        let result = self.write_opened_at(&opened, offset, data);
        let ghost w1 = self.wire@;
        let close_result = self.close(opened);
        proof {
            if result is Ok {
                lemma_data_written_grow(w1, self.wire@, w_mid.len() as int, old(self).wire@.len() as int, handle, stateid,
                    offset as int, data@, data@.len() as int);
                assert(data_written(self.spec_wire(), old(self).spec_wire().len() as int, handle, stateid, offset as int,
                    data@, data@.len() as int));
            }
        }
        finish_with_close(result, close_result)
    }

    /// Truncates or extends a file to `size` bytes.
    pub fn truncate(&mut self, path: &str, size: u64) -> (r: Result<()>)
        ensures
            r is Ok ==> ended_with_close(final(self).spec_last_compound()),
            !parent_ok(path@) ==> r is Err,
            r is Ok ==> exists|handle: Seq<u8>, stateid: StateId| #[trigger] size_set(final(self).spec_wire(),
                old(self).spec_wire().len() as int, handle, stateid, size),
    {
        let opened = self.open(path, OPEN4_SHARE_ACCESS_WRITE, OpenHow::NoCreate)?;
        let ghost handle = opened.handle.bytes();
        let ghost stateid = opened.stateid;
        let ghost w_mid = self.wire@;
        let result = self.set_opened_size(&opened, size);
        let ghost w1 = self.wire@;
        let close_result = self.close(opened);
        proof {
            if result is Ok {
                let attrs = choose|attrs: Fattr| #[trigger] handle_op_sent(w1, w_mid.len() as int, handle, Operation::SetAttr { stateid, attrs })
                    && attrs.attrmask.exactly(seq![FATTR4_SIZE]) && attrs.attr_vals@ == be_u64(size);
                let i = choose|i: int| w_mid.len() <= i < w1.len()
                    && #[trigger] handle_op_call(w1[i], handle, Operation::SetAttr { stateid, attrs });
                assert(self.wire@[i] == w1[i]);
                assert(handle_op_call(self.wire@[i], handle, Operation::SetAttr { stateid, attrs }));
                assert(handle_op_sent(self.wire@, old(self).wire@.len() as int, handle, Operation::SetAttr { stateid, attrs }));
                assert(size_set(self.spec_wire(), old(self).spec_wire().len() as int, handle, stateid, size));
            }
        }
        finish_with_close(result, close_result)
    }

    fn update_opened_allocation(&mut self, opened: &OpenedFile, offset: u64, length: u64, op: SpaceOp) -> (r: Result<()>)
        ensures
            r is Ok ==> handle_op_sent(final(self).wire@, old(self).wire@.len() as int, opened.handle.bytes(), match op {
                SpaceOp::Allocate => Operation::Allocate { stateid: opened.stateid, offset, length },
                SpaceOp::Deallocate => Operation::Deallocate { stateid: opened.stateid, offset, length },
            }),
    {
        let ops = vec![
            Operation::PutFh(opened.handle.clone()),
            op.into_operation(opened.stateid, offset, length),
        ];
        let ghost sent = ops@;
        let response = self.compound(ops)?;
        proof {
            let i = choose|i: int| old(self).wire@.len() <= i < self.wire@.len() && #[trigger] session_exchange_at(self.wire@[i], sent, response);
            assert(handle_op_call(self.wire@[i], opened.handle.bytes(), sent[1]));
        }
        self.ensure_status(response, op.name())
    }

    fn update_allocation(&mut self, path: &str, offset: u64, length: u64, op: SpaceOp) -> (r: Result<()>)
        ensures
            length == 0 ==> r is Ok,
            length > 0 && old(self).spec_minor_version() < NFS4_MINOR_VERSION_V42 ==> (r matches Err(e) && e is Protocol),
            length > 0 && r is Ok ==> ended_with_close(final(self).spec_last_compound()),
    {
        if length == 0 {
            return Ok(());
        }
        require_minor_version(op.name(), self.minor_version, NFS4_MINOR_VERSION_V42)?;
        let opened = self.open(path, OPEN4_SHARE_ACCESS_WRITE, OpenHow::NoCreate)?;
        let result = self.update_opened_allocation(&opened, offset, length, op);
        let close_result = self.close(opened);
        finish_with_close(result, close_result)
    }

    /// Allocates storage for a byte range when supported by the server; an
    /// empty range needs no call.
    pub fn allocate(&mut self, path: &str, offset: u64, length: u64) -> (r: Result<()>)
        ensures
            length == 0 ==> r is Ok,
            length > 0 && old(self).spec_minor_version() < NFS4_MINOR_VERSION_V42 ==> (r matches Err(e) && e is Protocol),
            length > 0 && r is Ok ==> ended_with_close(final(self).spec_last_compound()),
    {
        self.update_allocation(path, offset, length, SpaceOp::Allocate)
    }

    /// Deallocates storage for a byte range when supported by the server; an
    /// empty range needs no call.
    pub fn deallocate(&mut self, path: &str, offset: u64, length: u64) -> (r: Result<()>)
        ensures
            length == 0 ==> r is Ok,
            length > 0 && old(self).spec_minor_version() < NFS4_MINOR_VERSION_V42 ==> (r matches Err(e) && e is Protocol),
            length > 0 && r is Ok ==> ended_with_close(final(self).spec_last_compound()),
    {
        self.update_allocation(path, offset, length, SpaceOp::Deallocate)
    }

    fn write_same_opened(&mut self, opened: &OpenedFile, block: AppDataBlock, stable: StableHow) -> (r: Result<WriteResponse>)
        ensures
            r matches Ok(w) ==> w.committed.code() >= stable.code(),
    {
        let requested_count = app_data_block_len(&block)?;
        let response = self.compound(vec![
            Operation::PutFh(opened.handle.clone()),
            Operation::WriteSame(WriteSameArgs { stateid: opened.stateid, stable, block }),
        ])?;
        let write = response_write_same(&response, requested_count)?;
        if !write.committed.satisfies(stable) {
            return Err(protocol("NFSv4 WRITE_SAME returned weaker stability than requested"));
        }
        Ok(write)
    }

    /// Executes an NFSv4.2 `WRITE_SAME` operation.
    pub fn write_same(&mut self, path: &str, block: AppDataBlock) -> (r: Result<WriteResponse>)
        ensures
            old(self).spec_minor_version() < NFS4_MINOR_VERSION_V42 ==> (r matches Err(e) && e is Protocol),
            r matches Ok(w) ==> w.committed.code() >= StableHow::FileSync.code(),
            r is Ok ==> ended_with_close(final(self).spec_last_compound()),
    {
        self.write_same_with_stability(path, block, StableHow::FileSync)
    }

    /// Executes an NFSv4.2 `WRITE_SAME` operation with explicit stability.
    pub fn write_same_with_stability(&mut self, path: &str, block: AppDataBlock, stable: StableHow) -> (r: Result<WriteResponse>)
        ensures
            old(self).spec_minor_version() < NFS4_MINOR_VERSION_V42 ==> (r matches Err(e) && e is Protocol),
            r matches Ok(w) ==> w.committed.code() >= stable.code(),
            r is Ok ==> ended_with_close(final(self).spec_last_compound()),
            !parent_ok(path@) ==> r is Err,
    {
        require_minor_version("WRITE_SAME", self.minor_version, NFS4_MINOR_VERSION_V42)?;
        let opened = self.open(path, OPEN4_SHARE_ACCESS_WRITE, OpenHow::NoCreate)?;
        let result = self.write_same_opened(&opened, block, stable);
        let close_result = self.close(opened);
        finish_with_close(result, close_result)
    }

    /// Applies NFSv4 attributes to a path. Nothing is sent when no
    /// attribute is set; a size change goes through an open file.
    pub fn setattr(&mut self, path: &str, attrs: &SetAttrs) -> (r: Result<()>)
        ensures
            set_attrs_empty(*attrs) ==> r is Ok && final(self).spec_last_compound() == old(self).spec_last_compound(),
            !(opt_text_ok(attrs.owner) && opt_text_ok(attrs.owner_group) && set_time_ok(attrs.access_time)
                && set_time_ok(attrs.modify_time)) ==> r is Err,
            r is Ok ==> attrs_updated(old(self).spec_last_compound(), final(self).spec_last_compound(), path@, set_attrs_bytes(*attrs)),
    {
        let attrs = Fattr::from_set_attrs(attrs)?;
        if attrs.attrmask.is_empty() {
            return Ok(());
        }
        if attrs_require_open_state(&attrs) {
            let opened = self.open(path, OPEN4_SHARE_ACCESS_WRITE, OpenHow::NoCreate)?;
            let result = self.set_opened_attrs(&opened, attrs);
            let close_result = self.close(opened);
            return finish_with_close(result, close_result);
        }
        let ghost values = attrs.attr_vals@;
        let stateid = StateId::anonymous();
        let ops = path_ops(path, one_op(Operation::SetAttr { stateid, attrs }))?;
        proof {
            lemma_lookup_chain_last(ops@, Operation::PutRootFh, path_names(path@), Seq::empty(), seq![Operation::SetAttr { stateid, attrs }]);
        }
        let response = self.compound(ops)?;
        self.ensure_status(response, "SETATTR")
    }

    /// Sets POSIX mode bits when the server supports the mode attribute.
    pub fn set_mode(&mut self, path: &str, mode: u32) -> (r: Result<()>)
        ensures
            r is Ok ==> attrs_updated(old(self).spec_last_compound(), final(self).spec_last_compound(), path@, be_u32(mode)),
    {
        let attrs = SetAttrs::mode(mode);
        proof {
            assert(set_attrs_bytes(attrs) =~= be_u32(mode));
        }
        self.setattr(path, &attrs)
    }

    /// Sets the owner string.
    pub fn set_owner(&mut self, path: &str, owner: &str) -> (r: Result<()>)
        ensures
            r is Ok ==> attrs_updated(old(self).spec_last_compound(), final(self).spec_last_compound(), path@, crate::xdr::var_opaque(encode_utf8(owner@))),
    {
        let attrs = SetAttrs::owner(owner);
        proof {
            assert(set_attrs_bytes(attrs) =~= crate::xdr::var_opaque(encode_utf8(owner@)));
        }
        self.setattr(path, &attrs)
    }

    /// Sets the owner group string.
    pub fn set_owner_group(&mut self, path: &str, owner_group: &str) -> (r: Result<()>)
        ensures
            r is Ok ==> attrs_updated(old(self).spec_last_compound(), final(self).spec_last_compound(), path@, crate::xdr::var_opaque(encode_utf8(owner_group@))),
    {
        let attrs = SetAttrs::owner_group(owner_group);
        proof {
            assert(set_attrs_bytes(attrs) =~= crate::xdr::var_opaque(encode_utf8(owner_group@)));
        }
        self.setattr(path, &attrs)
    }

    /// Sets owner and owner group strings.
    pub fn set_ownership(&mut self, path: &str, owner: &str, owner_group: &str) -> (r: Result<()>)
        ensures
            r is Ok ==> attrs_updated(old(self).spec_last_compound(), final(self).spec_last_compound(), path@, crate::xdr::var_opaque(encode_utf8(owner@)) + crate::xdr::var_opaque(encode_utf8(owner_group@))),
    {
        let attrs = SetAttrs::ownership(owner, owner_group);
        proof {
            assert(set_attrs_bytes(attrs) =~= crate::xdr::var_opaque(encode_utf8(owner@)) + crate::xdr::var_opaque(encode_utf8(owner_group@)));
        }
        self.setattr(path, &attrs)
    }

    /// Sets access and modification times.
    pub fn set_times(&mut self, path: &str, access_time: Option<NfsTime>, modify_time: Option<NfsTime>) -> (r: Result<()>)
        ensures
            access_time is None && modify_time is None ==> r is Ok && final(self).spec_last_compound() == old(self).spec_last_compound(),
            (access_time matches Some(t) && t.nseconds >= NFS4_NSECONDS_PER_SECOND) ==> r is Err,
            (modify_time matches Some(t) && t.nseconds >= NFS4_NSECONDS_PER_SECOND) ==> r is Err,
            r is Ok ==> attrs_updated(old(self).spec_last_compound(), final(self).spec_last_compound(), path@,
                set_time_bytes(match access_time { Some(t) => SetTime::ClientTime(t), None => SetTime::DontChange })
                + set_time_bytes(match modify_time { Some(t) => SetTime::ClientTime(t), None => SetTime::DontChange })),
    {
        let attrs = SetAttrs::times(access_time, modify_time);
        proof {
            assert(set_attrs_bytes(attrs) =~= set_time_bytes(attrs.access_time) + set_time_bytes(attrs.modify_time));
        }
        self.setattr(path, &attrs)
    }

    /// Updates access and modification times to the server time.
    pub fn touch(&mut self, path: &str) -> (r: Result<()>)
        ensures
            r is Ok ==> attrs_updated(old(self).spec_last_compound(), final(self).spec_last_compound(), path@, be_u32(0) + be_u32(0)),
    {
        let attrs = SetAttrs::touch();
        proof {
            assert(set_attrs_bytes(attrs) =~= be_u32(0) + be_u32(0));
        }
        self.setattr(path, &attrs)
    }

    fn copy_opened(&mut self, source: &OpenedFile, target: &OpenedFile) -> (r: Result<u64>)
        ensures
            wire_grew(old(self).wire@, final(self).wire@),
            r matches Ok(n) ==> bytes_copied(final(self).wire@, old(self).wire@.len() as int,
                source.handle.bytes(), source.stateid, target.handle.bytes(), target.stateid, n as int),
    {
        let ghost start = self.wire@.len() as int;
        let ghost src = source.handle.bytes();
        let ghost dst = target.handle.bytes();
        let mut offset: u64 = 0;
        let ghost mut steps: Seq<ReadStep> = Seq::empty();
        proof {
            assert(chunks_data(steps) =~= Seq::<u8>::empty());
        }
        loop
            invariant
                start == old(self).wire@.len(),
                src == source.handle.bytes(),
                dst == target.handle.bytes(),
                wire_grew(old(self).wire@, self.wire@),
                read_chunks(steps, src, source.stateid),
                offset == chunks_data(steps).len(),
                data_written(self.wire@, start, dst, target.stateid, 0, chunks_data(steps), chunks_data(steps).len() as int),
            decreases u64::MAX - offset,
        {
            let ghost w_iter = self.wire@;
            let count = self.read_size;
            let (eof, data) = self.read_opened_at(source, offset, count)?;
            let ghost exchange = self.spec_last_compound()->Some_0;
            let ghost step = (exchange.0, exchange.1, offset, data@);
            let ghost w_write = self.wire@;
            proof {
                lemma_data_written_grow(w_iter, w_write, start, start, dst, target.stateid, 0, chunks_data(steps),
                    chunks_data(steps).len() as int);
            }
            if data.len() == 0 {
                proof {
                    assert(copied_through(self.wire@, start, src, source.stateid, dst, target.stateid, steps, offset as int));
                    assert(copied_through(self.wire@, old(self).wire@.len() as int, source.handle.bytes(), source.stateid,
                        target.handle.bytes(), target.stateid, steps, offset as int));
                    assert(bytes_copied(self.wire@, old(self).wire@.len() as int,
                        source.handle.bytes(), source.stateid, target.handle.bytes(), target.stateid, offset as int));
                }
                return Ok(offset);
            }
            self.write_opened_at(target, offset, data.as_slice())?;
            let before = offset;
            advance_offset(&mut offset, data.len(), "NFSv4 COPY")?;
            proof {
                let next = steps.push(step);
                assert(next.drop_last() =~= steps);
                assert(read_chunks(next, src, source.stateid)) by {
                    assert forall|k: int| 0 <= k < next.len() implies
                        #[trigger] read_step(next[k], src, source.stateid)
                        && next[k].2 == chunks_data(next.take(k)).len() by {
                        if k < steps.len() {
                            assert(next[k] == steps[k]);
                            assert(next.take(k) =~= steps.take(k));
                        } else {
                            assert(next.take(k) =~= steps);
                        }
                    }
                }
                assert(chunks_data(next) == chunks_data(steps) + data@);
                lemma_data_written_grow(w_write, self.wire@, start, start, dst, target.stateid, 0, chunks_data(steps),
                    chunks_data(steps).len() as int);
                lemma_data_written_append(self.wire@, start, w_write.len() as int, dst, target.stateid, chunks_data(steps), data@);
                steps = next;
            }
            if eof {
                proof {
                    assert(copied_through(self.wire@, start, src, source.stateid, dst, target.stateid, steps, offset as int));
                    assert(copied_through(self.wire@, old(self).wire@.len() as int, source.handle.bytes(), source.stateid,
                        target.handle.bytes(), target.stateid, steps, offset as int));
                    assert(bytes_copied(self.wire@, old(self).wire@.len() as int,
                        source.handle.bytes(), source.stateid, target.handle.bytes(), target.stateid, offset as int));
                }
                return Ok(offset);
            }
            assert(offset > before);
        }
    }

    /// Copies a file, replacing or creating the destination; the source and
    /// destination must be different paths and different files.
    pub fn copy(&mut self, from: &str, to: &str) -> (r: Result<u64>)
        ensures
            !path_ok(from@) || !path_ok(to@) ==> r is Err,
            path_ok(from@) && path_ok(to@) && spec_path_components(from@) == spec_path_components(to@) ==> r is Err,
            r matches Ok(n) ==> exists|src: Seq<u8>, src_stateid: StateId, dst: Seq<u8>, dst_stateid: StateId|
                src != dst && #[trigger] bytes_copied(final(self).spec_wire(), old(self).spec_wire().len() as int,
                    src, src_stateid, dst, dst_stateid, n as int),
    {
        let from_components = path_components(from)?;
        let to_components = path_components(to)?;
        if same_components(&from_components, &to_components) {
            proof {
                assert(spec_path_components(from@) == spec_path_components(to@)) by {
                    lemma_components_equal(from@, to@, from_components, to_components);
                }
            }
            return Err(protocol("copy source and destination must differ"));
        }
        let mode = copy_mode(self.metadata(from)?.mode);
        let source = self.open(from, OPEN4_SHARE_ACCESS_READ, OpenHow::NoCreate)?;
        let target = match self.open(to, OPEN4_SHARE_ACCESS_BOTH, OpenHow::Unchecked(Fattr::mode(mode))) {
            Ok(target) => target,
            Err(err) => {
                let closed = self.close(source);
                return Err(cleanup_error(err, "cleanup CLOSE source after failed target OPEN", closed));
            },
        };
        if let Err(error) = ensure_distinct_copy_handles(&source.handle, &target.handle) {
            let target_close = self.close(target);
            let source_close = self.close(source);
            return Err(cleanup_error(error, "cleanup CLOSE after rejected same-file copy", both_closed(target_close, source_close)));
        }
        let ghost src = source.handle.bytes();
        let ghost src_stateid = source.stateid;
        let ghost dst = target.handle.bytes();
        let ghost dst_stateid = target.stateid;
        let sized = self.set_opened_size(&target, 0);
        let ghost w_mid = self.wire@;
        let result = match sized {
            Ok(()) => self.copy_opened(&source, &target),
            Err(e) => Err(e),
        };
        let ghost w_copied = self.wire@;
        let target_close = self.close(target);
        let source_close = self.close(source);
        let close_result = both_closed(target_close, source_close);
        match result {
            Ok(copied) => {
                close_result?;
                proof {
                    assert(bytes_copied(w_copied, w_mid.len() as int, src, src_stateid, dst, dst_stateid, copied as int));
                    let steps = choose|steps: Seq<ReadStep>| #[trigger] copied_through(w_copied, w_mid.len() as int,
                        src, src_stateid, dst, dst_stateid, steps, copied as int);
                    assert(old(self).wire@.len() <= w_mid.len());
                    lemma_data_written_grow(w_copied, self.wire@, w_mid.len() as int, old(self).wire@.len() as int, dst, dst_stateid, 0,
                        chunks_data(steps), copied as int);
                    assert(copied_through(self.spec_wire(), old(self).spec_wire().len() as int, src, src_stateid, dst, dst_stateid,
                        steps, copied as int));
                    assert(bytes_copied(self.spec_wire(), old(self).spec_wire().len() as int, src, src_stateid, dst, dst_stateid, copied as int));
                }
                Ok(copied)
            },
            Err(err) => Err(cleanup_error(err, "cleanup CLOSE after failed COPY", close_result)),
        }
    }

    /// Copies through a temporary sibling and renames it into place.
    pub fn copy_atomic(&mut self, from: &str, to: &str) -> (r: Result<u64>)
        ensures
            !path_ok(from@) || !path_ok(to@) ==> r is Err,
            path_ok(from@) && path_ok(to@) && spec_path_components(from@) == spec_path_components(to@) ==> r is Err,
    {
        let from_components = path_components(from)?;
        let to_components = path_components(to)?;
        if same_components(&from_components, &to_components) {
            proof {
                assert(spec_path_components(from@) == spec_path_components(to@)) by {
                    lemma_components_equal(from@, to@, from_components, to_components);
                }
            }
            return Err(protocol("copy source and destination must differ"));
        }
        let mode = copy_mode(self.metadata(from)?.mode);
        let (pid, nanos, counter) = self.next_temp_parts();
        let temp = temporary_sibling_path(to, pid, nanos, counter)?;
        let source = self.open(from, OPEN4_SHARE_ACCESS_READ, OpenHow::NoCreate)?;
        let target = match self.open_temp(temp.as_str(), OPEN4_SHARE_ACCESS_BOTH, OpenHow::Guarded(Fattr::mode(mode))) {
            Ok(target) => target,
            Err(err) => {
                let closed = self.close(source);
                return Err(cleanup_error(err, "cleanup CLOSE source after failed atomic target OPEN", closed));
            },
        };
        let copy_result = self.copy_opened(&source, &target);
        let target_close = self.close(target);
        let source_close = self.close(source);
        let close_result = both_closed(target_close, source_close);
        let result = match copy_result {
            Ok(copied) => match close_result {
                Ok(()) => match self.rename(temp.as_str(), to) {
                    Ok(()) => Ok(copied),
                    Err(e) => Err(e),
                },
                Err(e) => Err(e),
            },
            Err(err) => Err(cleanup_error(err, "cleanup CLOSE after failed atomic COPY", close_result)),
        };
        self.finish_with_temp_cleanup(result, true, temp.as_str(), "cleanup REMOVE after failed atomic copy")
    }

    /// Commits previously unstable writes for a byte range.
    pub fn commit(&mut self, path: &str, offset: u64, count: u32) -> (r: Result<CommitResult>)
        ensures
            !path_ok(path@) ==> r is Err,
            r is Ok ==> (final(self).spec_last_compound() matches Some((ops, reply))
                && path_request(path@, seq![Operation::Commit { offset, count }], ops) && reply.status == Status::NfsOk
                && response_commit_outcome(reply, r)),
    {
        let response = self.compound(path_ops(path, one_op(Operation::Commit { offset, count }))?)?;
        response_commit(&response)
    }

    /// Creates a new file using default mode `0o644`.
    pub fn create(&mut self, path: &str) -> (r: Result<()>)
        ensures
            !parent_ok(path@) ==> r is Err,
            r is Ok ==> ended_with_close(final(self).spec_last_compound()),
    {
        self.create_new(path)
    }

    /// Creates a new file and fails if it already exists.
    pub fn create_new(&mut self, path: &str) -> (r: Result<()>)
        ensures
            !parent_ok(path@) ==> r is Err,
            r is Ok ==> ended_with_close(final(self).spec_last_compound()),
    {
        self.create_new_with_mode(path, DEFAULT_FILE_MODE)
    }

    /// Creates a new file with an explicit mode.
    pub fn create_with_mode(&mut self, path: &str, mode: u32) -> (r: Result<()>)
        ensures
            !parent_ok(path@) ==> r is Err,
            r is Ok ==> ended_with_close(final(self).spec_last_compound()),
    {
        self.create_new_with_mode(path, mode)
    }

    /// Creates a new file with an explicit mode and fails if it already exists.
    pub fn create_new_with_mode(&mut self, path: &str, mode: u32) -> (r: Result<()>)
        ensures
            !parent_ok(path@) ==> r is Err,
            r is Ok ==> ended_with_close(final(self).spec_last_compound()),
    {
        let opened = self.open(path, OPEN4_SHARE_ACCESS_BOTH, OpenHow::Guarded(Fattr::mode(mode)))?;
        self.close(opened)
    }

    fn create_object(&mut self, path: &str, kind: CreateKind, attrs: Fattr) -> (r: Result<()>)
        ensures
            !parent_ok(path@) ==> r is Err,
            r is Ok ==> created(final(self).spec_last_compound(), path@, kind, attrs),
    {
        let (parent_components, name) = split_parent(path)?;
        let ops = parent_ops(&parent_components, Operation::Create(CreateArgs { kind, name, attrs }));
        proof {
            lemma_lookup_chain_last(ops@, Operation::PutRootFh, path_names(path@).drop_last(), Seq::empty(), seq![Operation::Create(CreateArgs { kind, name, attrs })]);
        }
        let response = self.compound(ops)?;
        self.ensure_status_for(&response, "CREATE")
    }

    /// Creates a directory.
    pub fn mkdir(&mut self, path: &str, mode: u32) -> (r: Result<()>)
        ensures
            !parent_ok(path@) ==> r is Err,
            r is Ok ==> (final(self).spec_last_compound() matches Some((ops, reply))
                && (ops.last() matches Operation::Create(a) && sets_mode(a.attrs, mode))
                && created(final(self).spec_last_compound(), path@, CreateKind::Directory, ops.last()->Create_0.attrs)),
    {
        self.create_object(path, CreateKind::Directory, Fattr::mode(mode))
    }

    /// Creates a symbolic link at `path` pointing to `target`.
    pub fn symlink(&mut self, path: &str, target: &str) -> (r: Result<()>)
        ensures
            !parent_ok(path@) ==> r is Err,
            r is Ok ==> (final(self).spec_last_compound() matches Some((ops, reply))
                && (ops.last() matches Operation::Create(a) && (a.kind matches CreateKind::Symlink(t) && t@ == target@)
                    && a.attrs.attrmask.words_view().len() == 0 && a.attrs.attr_vals@.len() == 0)
                && created(final(self).spec_last_compound(), path@, ops.last()->Create_0.kind, ops.last()->Create_0.attrs)),
    {
        self.create_object(path, CreateKind::Symlink(target.to_owned()), Fattr::empty())
    }

    fn create_special(&mut self, path: &str, kind: CreateKind, mode: u32) -> (r: Result<()>)
        ensures
            !parent_ok(path@) ==> r is Err,
            r is Ok ==> (final(self).spec_last_compound() matches Some((ops, reply))
                && (ops.last() matches Operation::Create(a) && sets_mode(a.attrs, mode))
                && created(final(self).spec_last_compound(), path@, kind, ops.last()->Create_0.attrs)),
    {
        self.create_object(path, kind, Fattr::mode(mode))
    }

    /// Creates a FIFO special file.
    pub fn create_fifo(&mut self, path: &str, mode: u32) -> (r: Result<()>)
        ensures
            !parent_ok(path@) ==> r is Err,
            r is Ok ==> (final(self).spec_last_compound() matches Some((ops, reply))
                && (ops.last() matches Operation::Create(a) && sets_mode(a.attrs, mode))
                && created(final(self).spec_last_compound(), path@, (CreateKind::Fifo), ops.last()->Create_0.attrs)),
    {
        self.create_special(path, CreateKind::Fifo, mode)
    }

    /// Creates a socket special file.
    pub fn create_socket(&mut self, path: &str, mode: u32) -> (r: Result<()>)
        ensures
            !parent_ok(path@) ==> r is Err,
            r is Ok ==> (final(self).spec_last_compound() matches Some((ops, reply))
                && (ops.last() matches Operation::Create(a) && sets_mode(a.attrs, mode))
                && created(final(self).spec_last_compound(), path@, (CreateKind::Socket), ops.last()->Create_0.attrs)),
    {
        self.create_special(path, CreateKind::Socket, mode)
    }

    /// Creates a block device special file.
    pub fn create_block_device(&mut self, path: &str, major: u32, minor: u32, mode: u32) -> (r: Result<()>)
        ensures
            !parent_ok(path@) ==> r is Err,
            r is Ok ==> (final(self).spec_last_compound() matches Some((ops, reply))
                && (ops.last() matches Operation::Create(a) && sets_mode(a.attrs, mode))
                && created(final(self).spec_last_compound(), path@, (CreateKind::BlockDevice { major, minor }), ops.last()->Create_0.attrs)),
    {
        self.create_special(path, CreateKind::BlockDevice { major, minor }, mode)
    }

    /// Creates a character device special file.
    pub fn create_character_device(&mut self, path: &str, major: u32, minor: u32, mode: u32) -> (r: Result<()>)
        ensures
            !parent_ok(path@) ==> r is Err,
            r is Ok ==> (final(self).spec_last_compound() matches Some((ops, reply))
                && (ops.last() matches Operation::Create(a) && sets_mode(a.attrs, mode))
                && created(final(self).spec_last_compound(), path@, (CreateKind::CharacterDevice { major, minor }), ops.last()->Create_0.attrs)),
    {
        self.create_special(path, CreateKind::CharacterDevice { major, minor }, mode)
    }

    /// Creates a hard link at `link` to `existing`.
    pub fn hard_link(&mut self, existing: &str, link: &str) -> (r: Result<()>)
        ensures
            !path_ok(existing@) || !parent_ok(link@) ==> r is Err,
            r is Ok ==> (final(self).spec_last_compound() matches Some((ops, reply))
                && saved_and_current_request(path_names(existing@), path_names(link@).drop_last(), ops)
                && (ops.last() matches Operation::Link(n) && n@ == last_name(link@))
                && reply.status == Status::NfsOk && last_result_ok(reply)),
    {
        let existing_components = path_components(existing)?;
        let (link_parent, link_name) = split_parent(link)?;
        let mut ops = parent_ops(&existing_components, Operation::SaveFh);
        let mut second = parent_ops(&link_parent, Operation::Link(link_name));
        proof {
            lemma_saved_and_current(ops@, second@, path_names(existing@), path_names(link@).drop_last(), Operation::Link(link_name));
        }
        ops.append(&mut second);
        let response = self.compound(ops)?;
        self.ensure_status(response, "LINK")
    }

    /// Removes a non-directory entry.
    pub fn remove(&mut self, path: &str) -> (r: Result<()>)
        ensures
            !parent_ok(path@) ==> r is Err,
            r is Ok ==> (final(self).spec_last_compound() matches Some((ops, reply))
                && parent_dir_request(path@, ops) && (ops.last() matches Operation::Remove(n) && n@ == last_name(path@))
                && reply.status == Status::NfsOk && last_result_ok(reply)),
    {
        let (parent_components, name) = split_parent(path)?;
        let ops = parent_ops(&parent_components, Operation::Remove(name));
        proof {
            lemma_lookup_chain_last(ops@, Operation::PutRootFh, path_names(path@).drop_last(), Seq::empty(), seq![Operation::Remove(name)]);
        }
        let response = self.compound(ops)?;
        self.ensure_status(response, "REMOVE")
    }

    /// Removes a non-directory entry if it exists; `Ok(false)` when it did not.
    pub fn remove_if_exists(&mut self, path: &str) -> (r: Result<bool>)
        ensures
            r == Ok::<bool, Error>(true) ==> (final(self).spec_last_compound() matches Some((ops, reply))
                && parent_dir_request(path@, ops) && (ops.last() matches Operation::Remove(n) && n@ == last_name(path@))
                && reply.status == Status::NfsOk && last_result_ok(reply)),
    {
        let result = self.remove(path);
        removed_if_exists(result)
    }

    /// Removes an empty directory.
    pub fn rmdir(&mut self, path: &str) -> (r: Result<()>)
        ensures
            !parent_ok(path@) ==> r is Err,
            r is Ok ==> (final(self).spec_last_compound() matches Some((ops, reply))
                && parent_dir_request(path@, ops) && (ops.last() matches Operation::Remove(n) && n@ == last_name(path@))
                && reply.status == Status::NfsOk && last_result_ok(reply)),
    {
        self.remove(path)
    }

    /// Removes an empty directory if it exists; `Ok(false)` when it did not.
    pub fn rmdir_if_exists(&mut self, path: &str) -> (r: Result<bool>)
        ensures
            r == Ok::<bool, Error>(true) ==> (final(self).spec_last_compound() matches Some((ops, reply))
                && parent_dir_request(path@, ops) && (ops.last() matches Operation::Remove(n) && n@ == last_name(path@))
                && reply.status == Status::NfsOk && last_result_ok(reply)),
    {
        let result = self.rmdir(path);
        removed_if_exists(result)
    }

    /// Renames or moves a path.
    pub fn rename(&mut self, from: &str, to: &str) -> (r: Result<()>)
        ensures
            !parent_ok(from@) || !parent_ok(to@) ==> r is Err,
            r is Ok ==> (final(self).spec_last_compound() matches Some((ops, reply))
                && saved_and_current_request(path_names(from@).drop_last(), path_names(to@).drop_last(), ops)
                && (ops.last() matches Operation::Rename { oldname, newname } && oldname@ == last_name(from@) && newname@ == last_name(to@))
                && reply.status == Status::NfsOk && last_result_ok(reply)),
    {
        let (from_parent, from_name) = split_parent(from)?;
        let (to_parent, to_name) = split_parent(to)?;
        let mut ops = parent_ops(&from_parent, Operation::SaveFh);
        let mut second = parent_ops(&to_parent, Operation::Rename { oldname: from_name, newname: to_name });
        proof {
            lemma_saved_and_current(ops@, second@, path_names(from@).drop_last(), path_names(to@).drop_last(),
                Operation::Rename { oldname: from_name, newname: to_name });
        }
        ops.append(&mut second);
        let response = self.compound(ops)?;
        self.ensure_status(response, "RENAME")
    }
}

/// The result of closing two files: the first failure, if any.
fn both_closed(first: Result<()>, second: Result<()>) -> (r: Result<()>)
    ensures
        r is Ok <==> first is Ok && second is Ok,
{
    match first {
        Ok(()) => second,
        Err(e) => Err(e),
    }
}

/// A copy of `data[start..end]`.
fn slice_to_vec(data: &[u8], start: usize, end: usize) -> (v: Vec<u8>)
    requires
        start <= end <= data@.len(),
    ensures
        v@ == data@.subrange(start as int, end as int),
{
    let mut v: Vec<u8> = Vec::new();
    let mut i = start;
    while i < end
        invariant
            start <= i <= end,
            end <= data@.len(),
            v@ == data@.subrange(start as int, i as int),
        decreases end - i,
    {
        v.push(data[i]);
        assert(v@ =~= data@.subrange(start as int, i + 1));
        i = i + 1;
    }
    v
}

/// Two paths whose component lists are equal string by string have the
/// same components.
proof fn lemma_components_equal(a: Seq<char>, b: Seq<char>, ca: Vec<String>, cb: Vec<String>)
    requires
        path_result_matches(a, Ok::<Vec<String>, Error>(ca)),
        path_result_matches(b, Ok::<Vec<String>, Error>(cb)),
        ca@.len() == cb@.len(),
        forall|i: int| 0 <= i < ca@.len() ==> ca@[i]@ == cb@[i]@,
    ensures
        spec_path_components(a) == spec_path_components(b),
{
    match (spec_path_components(a), spec_path_components(b)) {
        (Ok(na), Ok(nb)) => {
            assert forall|i: int| 0 <= i < na.len() implies na[i] == nb[i] by {
                assert(ca@[i]@ == na[i]);
                assert(cb@[i]@ == nb[i]);
            }
            assert(na =~= nb);
        },
        _ => {},
    }
}



/// `ops` resolves the directory that `target` and `path` name and then
/// runs `op`.
spec fn dir_request(target: DirTarget, path: Seq<char>, op: Operation, ops: Seq<Operation>) -> bool {
    match target {
        DirTarget::Path => path_request(path, seq![op], ops),
        DirTarget::Public => public_path_request(path, seq![op], ops),
        DirTarget::Parent => parent_path_request(path, seq![op], ops),
        DirTarget::NamedAttrs => path_request(path, seq![Operation::OpenAttr { create_dir: false }, op], ops),
    }
}

/// `op` is a READDIR that continues from `cursor`, or starts the listing.
pub open spec fn readdir_from(op: Operation, cursor: Option<DirPageCursor>) -> bool {
    op matches Operation::ReadDir { cookie, cookieverf, .. }
        && (cursor matches Some(c) ==> cookie == c.cookie && cookieverf == c.cookieverf)
        && (cursor is None ==> cookie == 0 && cookieverf@ == Seq::new(8, |i: int| 0u8))
}

/// `x` is a successful READDIR result and `page` holds its entries, decoded,
/// with the cursor that follows them.
pub open spec fn page_of_listing(x: OperationResult, page: DirPage) -> bool {
    x matches OperationResult::ReadDir { status, cookieverf, entries, eof } && status == Status::NfsOk
        && page.next_cursor == spec_next_dir_cursor(cookieverf, entries@, eof)
        && page.entries@.len() == entries@.len()
        && forall|k: int| 0 <= k < entries@.len() ==> entry_from_wire(#[trigger] page.entries@[k], entries@[k])
}

/// `page` is the listing of the first READDIR result of `reply`.
pub open spec fn page_of_reply(reply: CompoundResponse, page: DirPage) -> bool {
    exists|i: int| #[trigger] first_dedicated(reply.results@, OpCode::ReadDir, i) && page_of_listing(reply.results@[i], page)
}

/// `page` is the listing of the READDIR that follows a successful OPENATTR
/// in `reply`.
pub open spec fn named_page_of_reply(reply: CompoundResponse, page: DirPage) -> bool {
    exists|i: int| #[trigger] first_openattr_readdir_stop(reply.results@, i) && page_of_listing(reply.results@[i], page)
}

proof fn lemma_entry_from_clone(e: DirEntry, w: crate::v4::proto::DirEntry, c: crate::v4::proto::DirEntry)
    requires
        vstd::pervasive::cloned(w, c),
        entry_from_wire(e, c),
    ensures
        entry_from_wire(e, w),
{
    assert(c.cookie == w.cookie && c.name@ == w.name@);
    lemma_basic_attrs_of_same(w.attrs, c.attrs, e.attributes);
}

proof fn lemma_page_of_listing(x: OperationResult, v: (Verifier, Vec<crate::v4::proto::DirEntry>, bool), page: DirPage)
    requires
        listing_at(x, v),
        v.2 || v.1@.len() > 0,
        page.next_cursor == spec_next_dir_cursor(v.0, v.1@, v.2),
        page.entries@.len() == v.1@.len(),
        forall|k: int| 0 <= k < v.1@.len() ==> entry_from_wire(#[trigger] page.entries@[k], v.1@[k]),
    ensures
        page_of_listing(x, page),
{
    if let OperationResult::ReadDir { status, cookieverf, entries, eof } = x {
        assert forall|k: int| 0 <= k < entries@.len() implies entry_from_wire(#[trigger] page.entries@[k], entries@[k]) by {
            lemma_entry_from_clone(page.entries@[k], entries@[k], v.1@[k]);
        }
        if !eof {
            let n = entries@.len() - 1;
            lemma_entry_from_clone(page.entries@[n], entries@[n], v.1@[n]);
        }
    }
}

/// The READDIR result `reply` carries for a listing (after OPENATTR when
/// `named`) succeeded with the entries `batch`, and `eof` says whether it
/// ended the directory.
pub open spec fn reply_listing(reply: CompoundResponse, named: bool, batch: Seq<crate::v4::proto::DirEntry>, eof: bool) -> bool {
    exists|i: int| #![trigger reply.results@[i]]
        (if named { first_openattr_readdir_stop(reply.results@, i) } else { first_dedicated(reply.results@, OpCode::ReadDir, i) })
        && (reply.results@[i] matches OperationResult::ReadDir { status, entries, eof: e, .. }
            && status == Status::NfsOk && entries@ == batch && e == eof)
}

/// The READDIR pages of a listing, one after another: each is the entries of
/// a reply and whether that reply ended the directory.
pub type ListingPages = Seq<(Seq<crate::v4::proto::DirEntry>, bool)>;

/// The wire entries of `pages`, in order.
pub open spec fn pages_entries(pages: ListingPages) -> Seq<crate::v4::proto::DirEntry>
    decreases pages.len(),
{
    if pages.len() == 0 {
        Seq::empty()
    } else {
        pages_entries(pages.drop_last()) + pages.last().0
    }
}

/// The replies to the calls of `wire` at the increasing positions `at`, all
/// made after its first `start` calls, carried the READDIR pages `pages`.
pub open spec fn pages_received(wire: Seq<WireCall>, start: int, named: bool, pages: ListingPages, at: Seq<int>) -> bool {
    &&& at.len() == pages.len()
    &&& forall|k: int| 0 <= k < at.len() ==> start <= #[trigger] at[k] < wire.len()
    &&& forall|k: int, m: int| 0 <= k < m < at.len() ==> #[trigger] at[k] < #[trigger] at[m]
    &&& forall|k: int| 0 <= k < at.len() ==> page_reply(#[trigger] wire[at[k]], named, pages[k])
}

/// `call` got a reply carrying the READDIR page `page`.
pub open spec fn page_reply(call: WireCall, named: bool, page: (Seq<crate::v4::proto::DirEntry>, bool)) -> bool {
    call.5 matches Some(answer) && reply_listing(answer.1, named, page.0, page.1)
}

/// `entries` are the wire entries of `pages`, in order, each converted: none
/// added, none dropped.
pub open spec fn entries_of_pages(entries: Seq<DirEntry>, pages: ListingPages) -> bool {
    &&& entries.len() == pages_entries(pages).len()
    &&& forall|k: int| 0 <= k < entries.len() ==> entry_from_wire(#[trigger] entries[k], pages_entries(pages)[k])
}

/// A whole listing, read among the calls of `wire` after its first `start`:
/// READDIR replies were received, every one but the last said the directory
/// goes on, the last ended it, and `entries` are all their entries, in order.
pub open spec fn listing_read(wire: Seq<WireCall>, start: int, named: bool, entries: Seq<DirEntry>) -> bool {
    exists|pages: ListingPages, at: Seq<int>| #[trigger] pages_received(wire, start, named, pages, at)
        && pages.len() > 0 && pages.last().1
        && (forall|k: int| 0 <= k < pages.len() - 1 ==> !(#[trigger] pages[k]).1)
        && entries_of_pages(entries, pages)
}

/// Pages received stay received when the log grows.
proof fn lemma_pages_received_grow(wire: Seq<WireCall>, longer: Seq<WireCall>, start: int, named: bool, pages: ListingPages, at: Seq<int>)
    requires
        pages_received(wire, start, named, pages, at),
        wire_grew(wire, longer),
        0 <= start,
    ensures
        pages_received(longer, start, named, pages, at),
{
    assert forall|k: int| 0 <= k < at.len() implies page_reply(#[trigger] longer[at[k]], named, pages[k]) by {
        assert(longer[at[k]] == wire[at[k]]);
    }
}

/// The law of a directory listing: whatever entries it returns are exactly
/// the entries of the READDIR replies it received, converted, in order; so
/// the listing holds as many entries as those replies, and the entry at each
/// place of a reply stands at the matching place of the result.
pub proof fn law_listing_keeps_every_entry(wire: Seq<WireCall>, start: int, named: bool, entries: Seq<DirEntry>,
    pages: ListingPages, at: Seq<int>)
    requires
        pages_received(wire, start, named, pages, at),
        entries_of_pages(entries, pages),
    ensures
        entries.len() == pages_entries(pages).len(),
        forall|k: int, j: int| 0 <= k < pages.len() && 0 <= j < pages[k].0.len()
            ==> entry_from_wire(entries[pages_entries(pages.take(k)).len() + j], #[trigger] pages[k].0[j]),
{
    assert forall|k: int, j: int| 0 <= k < pages.len() && 0 <= j < pages[k].0.len()
        implies entry_from_wire(entries[pages_entries(pages.take(k)).len() + j], #[trigger] pages[k].0[j]) by {
        lemma_pages_entries_place(pages, k, j);
    }
}

/// Entry `j` of page `k` stands in the flattened entries right after those
/// of the pages before it.
proof fn lemma_pages_entries_place(pages: ListingPages, k: int, j: int)
    requires
        0 <= k < pages.len(),
        0 <= j < pages[k].0.len(),
    ensures
        pages_entries(pages.take(k)).len() + j < pages_entries(pages).len(),
        pages_entries(pages)[pages_entries(pages.take(k)).len() + j] == pages[k].0[j],
    decreases pages.len(),
{
    let last = pages.len() - 1;
    assert(pages.drop_last() =~= pages.take(last));
    if k == last {
    } else {
        let front = pages.drop_last();
        assert(front.take(k) =~= pages.take(k));
        assert(front[k] == pages[k]);
        lemma_pages_entries_place(front, k, j);
    }
}

/// `call` got a reply whose GETDEVICELIST result, as read from it, lists
/// `ids` and says by `eof` whether the list ended.
pub open spec fn device_page_reply(call: WireCall, ids: Seq<DeviceId>, eof: bool) -> bool {
    call.5 matches Some(answer) && exists|w: GetDeviceListResult| #[trigger] response_get_device_list_outcome(answer.1, Ok(w))
        && w.device_ids@ == ids && w.eof == eof
}

/// Among the calls of `wire` after its first `start`, one got a reply whose
/// GETDEVICELIST result lists `ids`, with `eof` as its end flag.
pub open spec fn device_page_received(wire: Seq<WireCall>, start: int, ids: Seq<DeviceId>, eof: bool) -> bool {
    exists|i: int| start <= i < wire.len() && #[trigger] device_page_reply(wire[i], ids, eof)
}

/// The pages of a device listing: each is the ids of a reply and whether
/// that reply ended the list.
pub type DevicePages = Seq<(Seq<DeviceId>, bool)>;

/// The ids of `pages`, in order.
pub open spec fn device_pages_ids(pages: DevicePages) -> Seq<DeviceId>
    decreases pages.len(),
{
    if pages.len() == 0 {
        Seq::empty()
    } else {
        device_pages_ids(pages.drop_last()) + pages.last().0
    }
}

/// The replies to the calls of `wire` at the increasing positions `at`, all
/// made after its first `start` calls, carried the device pages `pages`.
pub open spec fn device_pages_received(wire: Seq<WireCall>, start: int, pages: DevicePages, at: Seq<int>) -> bool {
    &&& at.len() == pages.len()
    &&& forall|k: int| 0 <= k < at.len() ==> start <= #[trigger] at[k] < wire.len()
    &&& forall|k: int, m: int| 0 <= k < m < at.len() ==> #[trigger] at[k] < #[trigger] at[m]
    &&& forall|k: int| 0 <= k < at.len() ==> device_page_reply(#[trigger] wire[at[k]], pages[k].0, pages[k].1)
}

/// A whole device listing, read among the calls of `wire` after its first
/// `start`: GETDEVICELIST replies were received, every one but the last said
/// the list goes on, the last ended it, and `ids` are all their ids, in
/// order; none added, none dropped.
pub open spec fn devices_listed(wire: Seq<WireCall>, start: int, ids: Seq<DeviceId>) -> bool {
    exists|pages: DevicePages, at: Seq<int>| #[trigger] device_pages_received(wire, start, pages, at)
        && pages.len() > 0 && pages.last().1
        && (forall|k: int| 0 <= k < pages.len() - 1 ==> !(#[trigger] pages[k]).1)
        && ids == device_pages_ids(pages)
}

/// `call` asked, in a session COMPOUND, for a new byte-range lock of type
/// `lock_type` on `[offset, offset + length)` of the file with handle
/// `handle`, for the lock owner named `owner`, and its reply granted the
/// lock state `stateid`.
pub open spec fn lock_call(call: WireCall, handle: Seq<u8>, lock_type: LockType, offset: u64, length: u64, owner: Seq<u8>,
    stateid: StateId) -> bool {
    &&& call.3 is Some
    &&& call.4.len() == 2
    &&& call.4[0] matches Operation::PutFh(h) && h.bytes() == handle
    &&& call.4[1] matches Operation::Lock(a) && !a.reclaim && a.lock_type == lock_type && a.offset == offset
        && a.length == length && (a.locker matches Locker::New { lock_owner, .. } && lock_owner.owner@ == owner)
    &&& call.5 matches Some(answer) && response_lock_outcome(answer.1, Ok(stateid))
}

/// Among the calls of `wire` after its first `start`, one was the LOCK that
/// [`lock_call`] describes.
pub open spec fn lock_exchanged(wire: Seq<WireCall>, start: int, handle: Seq<u8>, lock_type: LockType, offset: u64,
    length: u64, owner: Seq<u8>, stateid: StateId) -> bool {
    exists|i: int| start <= i < wire.len() && #[trigger] lock_call(wire[i], handle, lock_type, offset, length, owner, stateid)
}

/// Among the calls of `wire` after its first `start`, a LOCK of type
/// `lock_type` on `[offset, offset + length)` for the owner `owner` was
/// granted.
pub open spec fn range_locked(wire: Seq<WireCall>, start: int, lock_type: LockType, offset: u64, length: u64, owner: Seq<u8>) -> bool {
    exists|handle: Seq<u8>, stateid: StateId| #[trigger] lock_exchanged(wire, start, handle, lock_type, offset, length, owner, stateid)
}

/// As [`range_locked`], for some lock owner.
pub open spec fn range_locked_by_some_owner(wire: Seq<WireCall>, start: int, lock_type: LockType, offset: u64, length: u64) -> bool {
    exists|owner: Seq<u8>| #[trigger] range_locked(wire, start, lock_type, offset, length, owner)
}

/// `call` asked, in a session COMPOUND, to release `[offset, offset + length)`
/// of the lock state `stateid`, of type `lock_type`, on the file with handle
/// `handle`.
pub open spec fn unlock_call(call: WireCall, handle: Seq<u8>, lock_type: LockType, stateid: StateId, offset: u64, length: u64) -> bool {
    &&& call.3 is Some
    &&& call.4.len() == 2
    &&& call.4[0] matches Operation::PutFh(h) && h.bytes() == handle
    &&& call.4[1] matches Operation::LockUnlock(a) && a.lock_type == lock_type && a.lock_stateid == stateid
        && a.offset == offset && a.length == length
    &&& call.5 is Some
}

/// Among the calls of `wire` after its first `start`, one released the range
/// of `lock`, as [`unlock_call`] describes.
pub open spec fn range_unlocked(wire: Seq<WireCall>, start: int, lock: LockState) -> bool {
    exists|i: int| start <= i < wire.len()
        && #[trigger] unlock_call(wire[i], lock.handle.bytes(), lock.lock_type, lock.lock_stateid, lock.offset, lock.length)
}

/// `call` was a session COMPOUND that put the handle `src`, saved it, put the
/// handle `dst` and then ran `op`, and a reply came back.
pub open spec fn two_handle_op_call(call: WireCall, src: Seq<u8>, dst: Seq<u8>, op: Operation) -> bool {
    &&& call.3 is Some
    &&& call.4.len() == 4
    &&& call.4[0] matches Operation::PutFh(h) && h.bytes() == src
    &&& call.4[1] is SaveFh
    &&& call.4[2] matches Operation::PutFh(h) && h.bytes() == dst
    &&& call.4[3] == op
    &&& call.5 is Some
}

/// Among the calls of `wire` after its first `start`, one ran `op` from the
/// file `src` to the file `dst`, as [`two_handle_op_call`] describes.
pub open spec fn two_handle_op_sent(wire: Seq<WireCall>, start: int, src: Seq<u8>, dst: Seq<u8>, op: Operation) -> bool {
    exists|i: int| start <= i < wire.len() && #[trigger] two_handle_op_call(wire[i], src, dst, op)
}

/// `call` was a session COMPOUND that put the handle `handle` and then ran
/// `op`, and a reply came back.
pub open spec fn handle_op_call(call: WireCall, handle: Seq<u8>, op: Operation) -> bool {
    &&& call.3 is Some
    &&& call.4.len() == 2
    &&& call.4[0] matches Operation::PutFh(h) && h.bytes() == handle
    &&& call.4[1] == op
    &&& call.5 is Some
}

/// Among the calls of `wire` after its first `start`, one ran `op` on the
/// file with handle `handle`, as [`handle_op_call`] describes.
pub open spec fn handle_op_sent(wire: Seq<WireCall>, start: int, handle: Seq<u8>, op: Operation) -> bool {
    exists|i: int| start <= i < wire.len() && #[trigger] handle_op_call(wire[i], handle, op)
}

/// Among the calls of `wire` after its first `start`, a SETATTR under
/// `stateid` set the size of the file with handle `handle` to `size`: its
/// attributes name the size attribute alone, with the value `size`.
pub open spec fn size_set(wire: Seq<WireCall>, start: int, handle: Seq<u8>, stateid: StateId, size: u64) -> bool {
    exists|attrs: Fattr| #[trigger] handle_op_sent(wire, start, handle, Operation::SetAttr { stateid, attrs })
        && attrs.attrmask.exactly(seq![FATTR4_SIZE]) && attrs.attr_vals@ == be_u64(size)
}

/// Where a directory listing is read.
#[derive(Debug, Clone, Copy, PartialEq, Eq, Structural)]
enum DirTarget {
    /// The directory at the path, from the root file handle.
    Path,
    /// The directory at the path, from the public file handle.
    Public,
    /// The parent of the path.
    Parent,
    /// The named-attribute directory of the path.
    NamedAttrs,
}

/// The most pages a device listing reads before it gives up.
pub const MAX_DEVICE_LIST_PAGES: u64 = u64::MAX;

impl<T: Transport> Client<T> {
    /// The READDIR operation for one page of a listing.
    fn readdir_op(&self, cookie: u64, cookieverf: Verifier, attr_request: Bitmap) -> (op: Operation)
        ensures
            op matches Operation::ReadDir { cookie: c, cookieverf: v, maxcount, attr_request: a, .. }
                && c == cookie && v == cookieverf && maxcount == self.dir_size && a == attr_request,
    {
        let half = self.dir_size / 2;
        Operation::ReadDir {
            cookie,
            cookieverf,
            dircount: if half < 1 { 1 } else { half },
            maxcount: self.dir_size,
            attr_request,
        }
    }

    /// The operations that read one page of a listing at `target`.
    fn dir_ops(&self, target: DirTarget, path: &str, op: Operation) -> (r: Result<Vec<Operation>>)
        ensures
            r matches Ok(ops) ==> dir_request(target, path@, op, ops@),
    {
        match target {
            DirTarget::Path => path_ops(path, one_op(op)),
            DirTarget::Public => public_path_ops(path, one_op(op)),
            DirTarget::Parent => parent_path_ops(path, one_op(op)),
            DirTarget::NamedAttrs => path_ops(path, two_ops(Operation::OpenAttr { create_dir: false }, op)),
        }
    }

    /// The attribute request for listing entries at `target`: the basic
    /// attributes the server supports there.
    fn dir_attr_request(&mut self, target: DirTarget, path: &str) -> (r: Result<Bitmap>)
        ensures
            wire_grew(old(self).wire@, final(self).wire@),
    {
        match target {
            DirTarget::Path => self.supported_attr_request(path, &FATTR4_BASIC_ATTRS),
            DirTarget::Public => self.public_supported_attr_request(path, &FATTR4_BASIC_ATTRS),
            DirTarget::Parent => self.parent_supported_attr_request(path, &FATTR4_BASIC_ATTRS),
            DirTarget::NamedAttrs => self.named_attr_supported_attr_request(path, &FATTR4_BASIC_ATTRS),
        }
    }

    /// Reads every page of a listing, refusing more than `max_entries`
    /// entries in all. Each page but the last adds at least one entry.
    fn collect_dir(&mut self, target: DirTarget, path: &str, max_entries: usize) -> (r: Result<Vec<DirEntry>>)
        ensures
            r matches Ok(entries) ==> entries@.len() <= max_entries,
            r matches Ok(entries) ==> listing_read(final(self).wire@, old(self).wire@.len() as int, target is NamedAttrs, entries@),
    {
        let ghost start = self.wire@.len() as int;
        let ghost named = target is NamedAttrs;
        let attr_request = self.dir_attr_request(target, path)?;
        let mut cookie: u64 = 0;
        let mut cookieverf: Verifier = [0u8; 8];
        let mut entries: Vec<DirEntry> = Vec::new();
        let ghost mut pages: ListingPages = Seq::empty();
        let ghost mut at: Seq<int> = Seq::empty();
        proof {
            assert(pages_entries(pages) =~= Seq::<crate::v4::proto::DirEntry>::empty());
        }
        loop
            invariant
                entries@.len() <= max_entries,
                start == old(self).wire@.len(),
                named == (target is NamedAttrs),
                wire_grew(old(self).wire@, self.wire@),
                pages_received(self.wire@, start, named, pages, at),
                forall|k: int| 0 <= k < at.len() ==> #[trigger] at[k] < self.wire@.len(),
                forall|k: int| 0 <= k < pages.len() ==> !(#[trigger] pages[k]).1,
                entries_of_pages(entries@, pages),
            decreases max_entries - entries@.len(),
        {
            let op = self.readdir_op(cookie, cookieverf, attr_request.clone());
            let ops = self.dir_ops(target, path, op)?;
            let ghost sent = ops@;
            let ghost w0 = self.wire@;
            let response = self.compound(ops)?;
            let listing = match target {
                DirTarget::NamedAttrs => response_openattr_readdir(&response)?,
                _ => response_readdir(&response)?,
            };
            let ghost v = listing;
            let ghost w1 = self.wire@;
            let ghost call_at = choose|i: int| w0.len() <= i < w1.len() && #[trigger] session_exchange_at(w1[i], sent, response);
            let ghost x_at = if named {
                choose|i: int| #[trigger] first_openattr_readdir_stop(response.results@, i) && listing_at(response.results@[i], v)
            } else {
                choose|i: int| #[trigger] first_dedicated(response.results@, OpCode::ReadDir, i) && listing_at(response.results@[i], v)
            };
            let ghost wire_batch: Seq<crate::v4::proto::DirEntry> = match response.results@[x_at] {
                OperationResult::ReadDir { entries, .. } => entries@,
                _ => Seq::empty(),
            };
            proof {
                assert(session_exchange_at(w1[call_at], sent, response));
                assert(reply_listing(response, named, wire_batch, v.2));
                lemma_pages_received_grow(w0, w1, start, named, pages, at);
            }
            let (next_cookieverf, batch, eof) = listing;
            let next = next_dir_cursor(next_cookieverf, batch.as_slice(), eof, cookie)?;
            if batch.len() > max_entries - entries.len() {
                return Err(protocol("NFSv4 READDIR exceeded the configured entry limit"));
            }
            let ghost before = entries@;
            let n = batch.len();
            let mut rest = batch;
            let mut i: usize = 0;
            while i < n
                invariant
                    i <= n,
                    n == v.1@.len() == wire_batch.len(),
                    rest@ == v.1@.subrange(i as int, n as int),
                    entries@.len() == before.len() + i,
                    before.len() + n <= max_entries,
                    forall|k: int| 0 <= k < before.len() ==> #[trigger] entries@[k] == before[k],
                    forall|k: int| 0 <= k < wire_batch.len() ==> vstd::pervasive::cloned(#[trigger] wire_batch[k], v.1@[k]),
                    forall|k: int| 0 <= k < i ==> entry_from_wire(entries@[before.len() + k], #[trigger] wire_batch[k]),
                decreases n - i,
            {
                let wire = rest.remove(0);
                proof {
                    assert(wire == v.1@[i as int]);
                    assert(rest@ =~= v.1@.subrange(i + 1, n as int));
                }
                let e = DirEntry::from_wire(wire)?;
                proof {
                    lemma_entry_from_clone(e, wire_batch[i as int], v.1@[i as int]);
                }
                let ghost eg = e;
                entries.push(e);
                proof {
                    assert(entries@[before.len() + i] == eg);
                }
                i = i + 1;
            }
            proof {
                let next_pages = pages.push((wire_batch, v.2));
                let next_at = at.push(call_at);
                assert(next_pages.drop_last() =~= pages);
                assert(pages_entries(next_pages) =~= pages_entries(pages) + wire_batch);
                assert(before.len() == pages_entries(pages).len());
                assert forall|k: int| 0 <= k < entries@.len() implies entry_from_wire(#[trigger] entries@[k], pages_entries(next_pages)[k]) by {
                    if k < before.len() {
                        assert(entries@[k] == before[k]);
                        assert(pages_entries(next_pages)[k] == pages_entries(pages)[k]);
                    } else {
                        let j = k - before.len();
                        assert(pages_entries(next_pages)[k] == wire_batch[j]);
                        assert(entry_from_wire(entries@[before.len() + j], wire_batch[j]));
                    }
                }
                assert(pages_received(w1, start, named, next_pages, next_at)) by {
                    assert forall|k: int| 0 <= k < next_at.len() implies page_reply(#[trigger] w1[next_at[k]], named, next_pages[k]) by {
                        if k < at.len() {
                            assert(next_at[k] == at[k]);
                            assert(next_pages[k] == pages[k]);
                        }
                    }
                    assert forall|k: int, m: int| 0 <= k < m < next_at.len() implies #[trigger] next_at[k] < #[trigger] next_at[m] by {
                        if m == at.len() {
                            assert(next_at[k] == at[k]);
                            assert(at[k] < w0.len());
                        }
                    }
                }
                pages = next_pages;
                at = next_at;
            }
            proof {
                if next is None {
                    assert(pages.last().1);
                    assert(listing_read(self.wire@, start, named, entries@));
                }
            }
            match next {
                Some(next) => {
                    assert(n > 0);
                    cookie = next.cookie;
                    cookieverf = next.cookieverf;
                },
                None => return Ok(entries),
            }
        }
    }

    /// Reads one page of a listing at `target`.
    fn dir_page(&mut self, target: DirTarget, path: &str, cursor: Option<DirPageCursor>, max_entries: usize) -> (r: Result<DirPage>)
        ensures
            max_entries == 0 ==> r is Err,
            r matches Ok(page) ==> page.entries@.len() <= max_entries,
            r matches Ok(page) ==> (final(self).spec_last_compound() matches Some((ops, reply))
                && reply.status == Status::NfsOk && ops.len() > 0
                && dir_request(target, path@, ops.last(), ops) && readdir_from(ops.last(), cursor)
                && (target is NamedAttrs ==> named_page_of_reply(reply, page))
                && (!(target is NamedAttrs) ==> page_of_reply(reply, page))),
    {
        validate_max_dir_entries(max_entries)?;
        let max_entries = if max_entries < self.max_dir_entries { max_entries } else { self.max_dir_entries };
        let attr_request = self.dir_attr_request(target, path)?;
        let cursor = match cursor {
            Some(c) => c,
            None => DirPageCursor { cookie: 0, cookieverf: zero_verifier() },
        };
        let op = self.readdir_op(cursor.cookie, cursor.cookieverf, attr_request);
        let ghost sent = op;
        let ops = self.dir_ops(target, path, op)?;
        proof {
            let tail = match target {
                DirTarget::NamedAttrs => seq![Operation::OpenAttr { create_dir: false }, sent],
                _ => seq![sent],
            };
            let head = match target { DirTarget::Public => Operation::PutPubFh, _ => Operation::PutRootFh };
            let middle = match target { DirTarget::Parent => seq![Operation::Lookupp], _ => Seq::<Operation>::empty() };
            lemma_lookup_chain_last(ops@, head, path_names(path@), middle, tail);
        }
        let response = self.compound(ops)?;
        let listing = match target {
            DirTarget::NamedAttrs => response_openattr_readdir(&response)?,
            _ => response_readdir(&response)?,
        };
        let ghost v = listing;
        let (cookieverf, entries, eof) = listing;
        let page = dir_page_from_entries(cookieverf, entries, eof, cursor.cookie, max_entries)?;
        proof {
            if target is NamedAttrs {
                let i = choose|i: int| #[trigger] first_openattr_readdir_stop(response.results@, i) && listing_at(response.results@[i], v);
                lemma_page_of_listing(response.results@[i], v, page);
            } else {
                let i = choose|i: int| #[trigger] first_dedicated(response.results@, OpCode::ReadDir, i) && listing_at(response.results@[i], v);
                lemma_page_of_listing(response.results@[i], v, page);
            }
        }
        Ok(page)
    }

    fn read_dir_with_limit(&mut self, path: &str, max_entries: usize) -> (r: Result<Vec<DirEntry>>)
        ensures
            r matches Ok(entries) ==> entries@.len() <= max_entries,
            r matches Ok(entries) ==> listing_read(final(self).wire@, old(self).wire@.len() as int, false, entries@),
    {
        self.collect_dir(DirTarget::Path, path, max_entries)
    }

    fn public_read_dir_with_limit(&mut self, path: &str, max_entries: usize) -> (r: Result<Vec<DirEntry>>)
        ensures
            r matches Ok(entries) ==> entries@.len() <= max_entries,
            r matches Ok(entries) ==> listing_read(final(self).wire@, old(self).wire@.len() as int, false, entries@),
    {
        self.collect_dir(DirTarget::Public, path, max_entries)
    }

    fn parent_read_dir_with_limit(&mut self, path: &str, max_entries: usize) -> (r: Result<Vec<DirEntry>>)
        ensures
            r matches Ok(entries) ==> entries@.len() <= max_entries,
            r matches Ok(entries) ==> listing_read(final(self).wire@, old(self).wire@.len() as int, false, entries@),
    {
        self.collect_dir(DirTarget::Parent, path, max_entries)
    }

    fn read_named_attrs_with_limit(&mut self, path: &str, max_entries: usize) -> (r: Result<Vec<DirEntry>>)
        ensures
            r matches Ok(entries) ==> entries@.len() <= max_entries,
            r matches Ok(entries) ==> listing_read(final(self).wire@, old(self).wire@.len() as int, true, entries@),
    {
        self.collect_dir(DirTarget::NamedAttrs, path, max_entries)
    }

    fn limited(&self, max_entries: usize) -> (r: usize)
        ensures
            r <= max_entries,
    {
        if max_entries < self.max_dir_entries { max_entries } else { self.max_dir_entries }
    }

    /// Reads all entries in a directory, subject to the client's entry limit.
    pub fn read_dir(&mut self, path: &str) -> (r: Result<Vec<DirEntry>>)
        ensures
            r matches Ok(entries) ==> entries@.len() <= old(self).spec_max_dir_entries(),
            r matches Ok(entries) ==> listing_read(final(self).spec_wire(), old(self).spec_wire().len() as int, false, entries@),
    {
        let max_entries = self.max_dir_entries;
        self.read_dir_with_limit(path, max_entries)
    }

    /// Reads all entries in a directory with a per-call entry limit.
    pub fn read_dir_limited(&mut self, path: &str, max_entries: usize) -> (r: Result<Vec<DirEntry>>)
        ensures
            max_entries == 0 ==> (r matches Err(e) && e is Protocol),
            r matches Ok(entries) ==> entries@.len() <= max_entries,
            r matches Ok(entries) ==> listing_read(final(self).spec_wire(), old(self).spec_wire().len() as int, false, entries@),
    {
        validate_max_dir_entries(max_entries)?;
        let limit = self.limited(max_entries);
        self.read_dir_with_limit(path, limit)
    }

    /// Reads one page of directory entries.
    pub fn read_dir_page(&mut self, path: &str, cursor: Option<DirPageCursor>) -> (r: Result<DirPage>)
        ensures
            r matches Ok(page) ==> (final(self).spec_last_compound() matches Some((ops, reply))
                && reply.status == Status::NfsOk && path_request(path@, seq![ops.last()], ops)
                && readdir_from(ops.last(), cursor) && page_of_reply(reply, page)),
            old(self).spec_max_dir_entries() == 0 ==> r is Err,
            r matches Ok(page) ==> page.entries@.len() <= old(self).spec_max_dir_entries(),
    {
        let max_entries = self.max_dir_entries;
        self.dir_page(DirTarget::Path, path, cursor, max_entries)
    }

    /// Reads one page of directory entries with a per-page entry limit.
    pub fn read_dir_page_limited(&mut self, path: &str, cursor: Option<DirPageCursor>, max_entries: usize) -> (r: Result<DirPage>)
        ensures
            r matches Ok(page) ==> (final(self).spec_last_compound() matches Some((ops, reply))
                && reply.status == Status::NfsOk && path_request(path@, seq![ops.last()], ops)
                && readdir_from(ops.last(), cursor) && page_of_reply(reply, page)),
            max_entries == 0 ==> r is Err,
            r matches Ok(page) ==> page.entries@.len() <= max_entries,
    {
        self.dir_page(DirTarget::Path, path, cursor, max_entries)
    }

    /// Reads all entries in a public-filehandle directory, subject to the client's entry limit.
    pub fn public_read_dir(&mut self, path: &str) -> (r: Result<Vec<DirEntry>>)
        ensures
            r matches Ok(entries) ==> entries@.len() <= old(self).spec_max_dir_entries(),
    {
        let max_entries = self.max_dir_entries;
        self.public_read_dir_with_limit(path, max_entries)
    }

    /// Reads all entries in a public-filehandle directory with a per-call entry limit.
    pub fn public_read_dir_limited(&mut self, path: &str, max_entries: usize) -> (r: Result<Vec<DirEntry>>)
        ensures
            max_entries == 0 ==> (r matches Err(e) && e is Protocol),
            r matches Ok(entries) ==> entries@.len() <= max_entries,
    {
        validate_max_dir_entries(max_entries)?;
        let limit = self.limited(max_entries);
        self.public_read_dir_with_limit(path, limit)
    }

    /// Reads one page of public-filehandle directory entries.
    pub fn public_read_dir_page(&mut self, path: &str, cursor: Option<DirPageCursor>) -> (r: Result<DirPage>)
        ensures
            r matches Ok(page) ==> (final(self).spec_last_compound() matches Some((ops, reply))
                && reply.status == Status::NfsOk && public_path_request(path@, seq![ops.last()], ops)
                && readdir_from(ops.last(), cursor) && page_of_reply(reply, page)),
            old(self).spec_max_dir_entries() == 0 ==> r is Err,
            r matches Ok(page) ==> page.entries@.len() <= old(self).spec_max_dir_entries(),
    {
        let max_entries = self.max_dir_entries;
        self.dir_page(DirTarget::Public, path, cursor, max_entries)
    }

    /// Reads one page of public-filehandle directory entries with a per-page entry limit.
    pub fn public_read_dir_page_limited(&mut self, path: &str, cursor: Option<DirPageCursor>, max_entries: usize) -> (r: Result<DirPage>)
        ensures
            r matches Ok(page) ==> (final(self).spec_last_compound() matches Some((ops, reply))
                && reply.status == Status::NfsOk && public_path_request(path@, seq![ops.last()], ops)
                && readdir_from(ops.last(), cursor) && page_of_reply(reply, page)),
            max_entries == 0 ==> r is Err,
            r matches Ok(page) ==> page.entries@.len() <= max_entries,
    {
        self.dir_page(DirTarget::Public, path, cursor, max_entries)
    }

    /// Reads all entries in the parent directory of `path`, subject to the client's entry limit.
    pub fn parent_read_dir(&mut self, path: &str) -> (r: Result<Vec<DirEntry>>)
        ensures
            r matches Ok(entries) ==> entries@.len() <= old(self).spec_max_dir_entries(),
    {
        let max_entries = self.max_dir_entries;
        self.parent_read_dir_with_limit(path, max_entries)
    }

    /// Reads all entries in the parent directory of `path` with a per-call entry limit.
    pub fn parent_read_dir_limited(&mut self, path: &str, max_entries: usize) -> (r: Result<Vec<DirEntry>>)
        ensures
            max_entries == 0 ==> (r matches Err(e) && e is Protocol),
            r matches Ok(entries) ==> entries@.len() <= max_entries,
    {
        validate_max_dir_entries(max_entries)?;
        let limit = self.limited(max_entries);
        self.parent_read_dir_with_limit(path, limit)
    }

    /// Reads one page of entries from the parent directory of `path`.
    pub fn parent_read_dir_page(&mut self, path: &str, cursor: Option<DirPageCursor>) -> (r: Result<DirPage>)
        ensures
            r matches Ok(page) ==> (final(self).spec_last_compound() matches Some((ops, reply))
                && reply.status == Status::NfsOk && parent_path_request(path@, seq![ops.last()], ops)
                && readdir_from(ops.last(), cursor) && page_of_reply(reply, page)),
            old(self).spec_max_dir_entries() == 0 ==> r is Err,
            r matches Ok(page) ==> page.entries@.len() <= old(self).spec_max_dir_entries(),
    {
        let max_entries = self.max_dir_entries;
        self.dir_page(DirTarget::Parent, path, cursor, max_entries)
    }

    /// Reads one page of entries from the parent directory of `path` with a per-page entry limit.
    pub fn parent_read_dir_page_limited(&mut self, path: &str, cursor: Option<DirPageCursor>, max_entries: usize) -> (r: Result<DirPage>)
        ensures
            r matches Ok(page) ==> (final(self).spec_last_compound() matches Some((ops, reply))
                && reply.status == Status::NfsOk && parent_path_request(path@, seq![ops.last()], ops)
                && readdir_from(ops.last(), cursor) && page_of_reply(reply, page)),
            max_entries == 0 ==> r is Err,
            r matches Ok(page) ==> page.entries@.len() <= max_entries,
    {
        self.dir_page(DirTarget::Parent, path, cursor, max_entries)
    }

    /// Reads all named attributes for a path, subject to the client's entry limit.
    pub fn read_named_attrs(&mut self, path: &str) -> (r: Result<Vec<DirEntry>>)
        ensures
            r matches Ok(entries) ==> entries@.len() <= old(self).spec_max_dir_entries(),
    {
        let max_entries = self.max_dir_entries;
        self.read_named_attrs_with_limit(path, max_entries)
    }

    /// Reads all named attributes for a path with a per-call entry limit.
    pub fn read_named_attrs_limited(&mut self, path: &str, max_entries: usize) -> (r: Result<Vec<DirEntry>>)
        ensures
            max_entries == 0 ==> (r matches Err(e) && e is Protocol),
            r matches Ok(entries) ==> entries@.len() <= max_entries,
    {
        validate_max_dir_entries(max_entries)?;
        let limit = self.limited(max_entries);
        self.read_named_attrs_with_limit(path, limit)
    }

    /// Reads one page of named attributes for a path.
    pub fn read_named_attr_page(&mut self, path: &str, cursor: Option<DirPageCursor>) -> (r: Result<DirPage>)
        ensures
            r matches Ok(page) ==> (final(self).spec_last_compound() matches Some((ops, reply))
                && reply.status == Status::NfsOk && path_request(path@, seq![Operation::OpenAttr { create_dir: false }, ops.last()], ops)
                && readdir_from(ops.last(), cursor) && named_page_of_reply(reply, page)),
            old(self).spec_max_dir_entries() == 0 ==> r is Err,
            r matches Ok(page) ==> page.entries@.len() <= old(self).spec_max_dir_entries(),
    {
        let max_entries = self.max_dir_entries;
        self.dir_page(DirTarget::NamedAttrs, path, cursor, max_entries)
    }

    /// Reads one page of named attributes for a path with a per-page entry limit.
    pub fn read_named_attr_page_limited(&mut self, path: &str, cursor: Option<DirPageCursor>, max_entries: usize) -> (r: Result<DirPage>)
        ensures
            r matches Ok(page) ==> (final(self).spec_last_compound() matches Some((ops, reply))
                && reply.status == Status::NfsOk && path_request(path@, seq![Operation::OpenAttr { create_dir: false }, ops.last()], ops)
                && readdir_from(ops.last(), cursor) && named_page_of_reply(reply, page)),
            max_entries == 0 ==> r is Err,
            r matches Ok(page) ==> page.entries@.len() <= max_entries,
    {
        self.dir_page(DirTarget::NamedAttrs, path, cursor, max_entries)
    }

    fn named_attr_supported_attr_request(&mut self, path: &str, attrs: &[u32]) -> (r: Result<Bitmap>)
        ensures
            wire_grew(old(self).spec_wire(), final(self).spec_wire()),
            !path_ok(path@) ==> r is Err,
    {
        let supported_attrs = supported_attrs_mask();
        let response = self.compound(path_ops(path, vec![Operation::OpenAttr { create_dir: false }, Operation::GetAttr(supported_attrs)])?)?;
        let supported = response_getattr(&response)?.parse_supported_attrs()?;
        Bitmap::from_supported_attrs(&supported, attrs)
    }

    /// Updates callback program and security parameters for the backchannel.
    pub fn backchannel_ctl(&mut self, callback_program: u32, callback_sec_parms: Vec<CallbackSecParms>) -> (r: Result<()>)
        ensures
            r is Ok ==> (final(self).spec_last_compound() matches Some((ops, reply))
                && ops == seq![Operation::BackchannelCtl(BackchannelCtlArgs { callback_program, callback_sec_parms })]
                && reply.status == Status::NfsOk && last_result_ok(reply)),
    {
        let response = self.compound(one_op(Operation::BackchannelCtl(BackchannelCtlArgs { callback_program, callback_sec_parms })))?;
        self.ensure_status(response, "BACKCHANNEL_CTL")
    }

    /// Binds the current connection to the session for the requested direction.
    pub fn bind_conn_to_session(&mut self, direction: ChannelDirFromClient) -> (r: Result<BindConnToSessionResult>)
        ensures
            r is Ok ==> (final(self).spec_last_compound() matches Some((ops, reply))
                && ops == seq![Operation::BindConnToSession(BindConnToSessionArgs {
                    session_id: old(self).spec_session_id(), direction, use_conn_in_rdma_mode: false })]
                && response_bind_conn_to_session_outcome(reply, r)),
    {
        self.bind_conn_to_session_with_options(direction, false)
    }

    /// Binds the current connection to the session with explicit RDMA mode.
    pub fn bind_conn_to_session_with_options(&mut self, direction: ChannelDirFromClient, use_conn_in_rdma_mode: bool) -> (r: Result<BindConnToSessionResult>)
        ensures
            r is Ok ==> (final(self).spec_last_compound() matches Some((ops, reply))
                && ops == seq![Operation::BindConnToSession(BindConnToSessionArgs {
                    session_id: old(self).spec_session_id(), direction, use_conn_in_rdma_mode })]
                && response_bind_conn_to_session_outcome(reply, r)),
    {
        let minor_version = self.minor_version;
        let ops = one_op(Operation::BindConnToSession(BindConnToSessionArgs { session_id: self.session_id, direction, use_conn_in_rdma_mode }));
        let response = self.raw_compound("bind-conn-to-session", minor_version, ops.as_slice())?;
        response_bind_conn_to_session(&response)
    }

    /// Executes `SET_SSV` and returns the server digest.
    pub fn set_ssv(&mut self, ssv: Vec<u8>, digest: Vec<u8>) -> (r: Result<SetSsvResult>)
        ensures
            r is Ok ==> (final(self).spec_last_compound() matches Some((ops, reply))
                && ops == seq![Operation::SetSsv(SetSsvArgs { ssv, digest })]
                && reply.status == Status::NfsOk && response_set_ssv_outcome(reply, r)),
    {
        let response = self.compound(one_op(Operation::SetSsv(SetSsvArgs { ssv, digest })))?;
        response_set_ssv(&response)
    }

    /// Returns security flavors accepted for `path` by querying its parent directory.
    pub fn secinfo(&mut self, path: &str) -> (r: Result<Vec<SecInfo>>)
        ensures
            !parent_ok(path@) ==> r is Err,
            r is Ok ==> (final(self).spec_last_compound() matches Some((ops, reply))
                && parent_dir_request(path@, ops) && (ops.last() matches Operation::SecInfo(n) && n@ == last_name(path@))
                && reply.status == Status::NfsOk && response_secinfo_outcome(reply, OpCode::SecInfo, r)),
    {
        let (parent, name) = split_parent(path)?;
        let ops = parent_ops(&parent, Operation::SecInfo(name));
        proof {
            lemma_lookup_chain_last(ops@, Operation::PutRootFh, path_names(path@).drop_last(), Seq::empty(), seq![Operation::SecInfo(name)]);
        }
        let response = self.compound(ops)?;
        response_secinfo(&response, OpCode::SecInfo)
    }

    /// Returns security flavors for the current or parent filehandle selected by `style`.
    pub fn secinfo_no_name(&mut self, path: &str, style: SecInfoStyle) -> (r: Result<Vec<SecInfo>>)
        ensures
            !path_ok(path@) ==> r is Err,
            r is Ok ==> (final(self).spec_last_compound() matches Some((ops, reply))
                && path_request(path@, seq![Operation::SecInfoNoName(style)], ops) && reply.status == Status::NfsOk
                && response_secinfo_outcome(reply, OpCode::SecInfoNoName, r)),
    {
        let response = self.compound(path_ops(path, one_op(Operation::SecInfoNoName(style)))?)?;
        response_secinfo(&response, OpCode::SecInfoNoName)
    }

    /// Returns security flavors accepted for `path` using `SECINFO_NO_NAME`.
    pub fn secinfo_current(&mut self, path: &str) -> (r: Result<Vec<SecInfo>>)
        ensures
            !path_ok(path@) ==> r is Err,
            r is Ok ==> (final(self).spec_last_compound() matches Some((ops, reply))
                && path_request(path@, seq![Operation::SecInfoNoName(SecInfoStyle::CurrentFileHandle)], ops) && reply.status == Status::NfsOk
                && response_secinfo_outcome(reply, OpCode::SecInfoNoName, r)),
    {
        self.secinfo_no_name(path, SecInfoStyle::CurrentFileHandle)
    }

    /// Returns security flavors accepted for the parent of `path` using `SECINFO_NO_NAME`.
    pub fn secinfo_parent(&mut self, path: &str) -> (r: Result<Vec<SecInfo>>)
        ensures
            !path_ok(path@) ==> r is Err,
            r is Ok ==> (final(self).spec_last_compound() matches Some((ops, reply))
                && path_request(path@, seq![Operation::SecInfoNoName(SecInfoStyle::Parent)], ops) && reply.status == Status::NfsOk
                && response_secinfo_outcome(reply, OpCode::SecInfoNoName, r)),
    {
        self.secinfo_no_name(path, SecInfoStyle::Parent)
    }

    /// Verifies that the server attributes for `path` match `attrs`:
    /// `Ok(true)` for `NFS4_OK`, `Ok(false)` for `NFS4ERR_NOT_SAME`.
    pub fn verify_attrs(&mut self, path: &str, attrs: &Fattr) -> (r: Result<bool>)
        ensures
            !path_ok(path@) ==> r is Err,
            r is Ok ==> (final(self).spec_last_compound() matches Some((ops, reply))
                && path_request(path@, seq![ops.last()], ops)
                && (ops.last() matches Operation::Verify(a) && same_fattr(a, *attrs))
                && response_verify_outcome(reply, OpCode::Verify, Status::NotSame, r)),
    {
        let sent = attrs.clone();
        let ops = path_ops(path, one_op(Operation::Verify(sent)))?;
        proof {
            lemma_lookup_chain_last(ops@, Operation::PutRootFh, path_names(path@), Seq::empty(), seq![Operation::Verify(sent)]);
        }
        let response = self.compound_status(ops)?;
        response_verify(&response, OpCode::Verify, Status::NotSame)
    }

    /// Verifies that the server attributes for `path` do not match `attrs`:
    /// `Ok(true)` for `NFS4_OK`, `Ok(false)` for `NFS4ERR_SAME`.
    pub fn nverify_attrs(&mut self, path: &str, attrs: &Fattr) -> (r: Result<bool>)
        ensures
            !path_ok(path@) ==> r is Err,
            r is Ok ==> (final(self).spec_last_compound() matches Some((ops, reply))
                && path_request(path@, seq![ops.last()], ops)
                && (ops.last() matches Operation::NVerify(a) && same_fattr(a, *attrs))
                && response_verify_outcome(reply, OpCode::NVerify, Status::Same, r)),
    {
        let sent = attrs.clone();
        let ops = path_ops(path, one_op(Operation::NVerify(sent)))?;
        proof {
            lemma_lookup_chain_last(ops@, Operation::PutRootFh, path_names(path@), Seq::empty(), seq![Operation::NVerify(sent)]);
        }
        let response = self.compound_status(ops)?;
        response_verify(&response, OpCode::NVerify, Status::Same)
    }

    /// Requests a read or write delegation for a path using the current filehandle claim.
    pub fn want_delegation(&mut self, path: &str, want: u32) -> (r: Result<OpenDelegation>)
        ensures
            !path_ok(path@) ==> r is Err,
            old(self).spec_minor_version() < NFS4_MINOR_VERSION_SESSION_MIN ==> (r matches Err(e) && e is Protocol),
            r is Ok ==> (final(self).spec_last_compound() matches Some((ops, reply))
                && path_request(path@, seq![Operation::WantDelegation(WantDelegationArgs { want, claim: DelegationClaim::FileHandle })], ops)
                && reply.status == Status::NfsOk && response_want_delegation_outcome(reply, r)),
    {
        self.want_delegation_with_claim(path, want, DelegationClaim::FileHandle)
    }

    /// Requests a delegation for a path using an explicit delegation claim.
    pub fn want_delegation_with_claim(&mut self, path: &str, want: u32, claim: DelegationClaim) -> (r: Result<OpenDelegation>)
        ensures
            !path_ok(path@) ==> r is Err,
            old(self).spec_minor_version() < NFS4_MINOR_VERSION_SESSION_MIN ==> (r matches Err(e) && e is Protocol),
            r is Ok ==> (final(self).spec_last_compound() matches Some((ops, reply))
                && path_request(path@, seq![Operation::WantDelegation(WantDelegationArgs { want, claim })], ops)
                && reply.status == Status::NfsOk && response_want_delegation_outcome(reply, r)),
    {
        require_minor_version("WANT_DELEGATION", self.minor_version, NFS4_MINOR_VERSION_SESSION_MIN)?;
        let response = self.compound(path_ops(path, one_op(Operation::WantDelegation(WantDelegationArgs { want, claim })))?)?;
        response_want_delegation(&response)
    }

    /// Requests a directory delegation with explicit protocol arguments.
    pub fn get_dir_delegation(&mut self, path: &str, args: GetDirDelegationArgs) -> (r: Result<GetDirDelegationResult>)
        ensures
            !path_ok(path@) ==> r is Err,
            old(self).spec_minor_version() < NFS4_MINOR_VERSION_SESSION_MIN ==> (r matches Err(e) && e is Protocol),
            r is Ok ==> (final(self).spec_last_compound() matches Some((ops, reply))
                && path_request(path@, seq![Operation::GetDirDelegation(args)], ops)
                && reply.status == Status::NfsOk && response_get_dir_delegation_outcome(reply, r)),
    {
        require_minor_version("GET_DIR_DELEGATION", self.minor_version, NFS4_MINOR_VERSION_SESSION_MIN)?;
        let response = self.compound(path_ops(path, one_op(Operation::GetDirDelegation(args)))?)?;
        response_get_dir_delegation(&response)
    }

    /// Returns a delegation stateid for a path.
    pub fn return_delegation(&mut self, path: &str, stateid: StateId) -> (r: Result<()>)
        ensures
            !path_ok(path@) ==> r is Err,
            r is Ok ==> (final(self).spec_last_compound() matches Some((ops, reply))
                && path_request(path@, seq![Operation::DelegReturn(stateid)], ops)
                && reply.status == Status::NfsOk && last_result_ok(reply)),
    {
        let response = self.compound(path_ops(path, one_op(Operation::DelegReturn(stateid)))?)?;
        self.ensure_status(response, "DELEGRETURN")
    }

    /// Purges delegations for this client id.
    pub fn purge_delegations(&mut self) -> (r: Result<()>)
        ensures
            r is Ok ==> (final(self).spec_last_compound() matches Some((ops, reply))
                && ops == seq![Operation::DelegPurge(old(self).spec_client_id())]
                && reply.status == Status::NfsOk && last_result_ok(reply)),
    {
        let response = self.compound(one_op(Operation::DelegPurge(self.client_id)))?;
        self.ensure_status(response, "DELEGPURGE")
    }

    /// Tests whether a byte-range lock would conflict with an existing lock:
    /// `Ok(None)` when the server would grant it, the conflicting lock when
    /// the server answers `NFS4ERR_DENIED`.
    pub fn test_lock(&mut self, path: &str, lock_type: LockType, offset: u64, length: u64) -> (r: Result<Option<LockDenied>>)
        ensures
            r is Ok ==> (final(self).spec_last_compound() matches Some((ops, reply))
                && path_request(path@, seq![ops.last()], ops)
                && (ops.last() matches Operation::LockTest(t) && t.lock_type == lock_type && t.offset == offset
                    && t.length == length && t.owner.client_id == old(self).spec_client_id()
                    && t.owner.owner@ == old(self).spec_open_owner())
                && response_lock_test_outcome(reply, r)),
    {
        let owner = copy_bytes(self.open_owner.as_slice());
        let ghost sent = owner;
        let ghost client_id = self.client_id;
        let r = self.test_lock_with_owner(path, lock_type, offset, length, owner);
        proof {
            if r is Ok {
                lemma_lookup_chain_last(self.spec_last_compound()->Some_0.0, Operation::PutRootFh, path_names(path@), Seq::empty(),
                    seq![Operation::LockTest(LockTestArgs { lock_type, offset, length, owner: LockOwner { client_id, owner: sent } })]);
            }
        }
        r
    }

    /// Tests a byte-range lock using an explicit lock owner id.
    pub fn test_lock_with_owner(&mut self, path: &str, lock_type: LockType, offset: u64, length: u64, owner: Vec<u8>) -> (r: Result<Option<LockDenied>>)
        ensures
            owner@.len() > NFS4_OPAQUE_LIMIT ==> (r matches Err(e) && e is Protocol),
            r is Ok ==> (final(self).spec_last_compound() matches Some((ops, reply))
                && path_request(path@, seq![Operation::LockTest(LockTestArgs {
                    lock_type, offset, length, owner: LockOwner { client_id: old(self).spec_client_id(), owner } })], ops)
                && response_lock_test_outcome(reply, r)),
    {
        validate_lock_owner(owner.as_slice())?;
        let test = LockTestArgs { lock_type, offset, length, owner: LockOwner { client_id: self.client_id, owner } };
        let response = self.compound_status(path_ops(path, one_op(Operation::LockTest(test)))?)?;
        response_lock_test(&response)
    }

    /// A fresh lock owner for this client.
    fn generated_lock_owner(&mut self) -> (owner: Vec<u8>)
        ensures
            owner@.len() <= NFS4_OPAQUE_LIMIT,
            final(self).wire == old(self).wire,
    {
        let when = now_nanos();
        let counter = self.id_counter;
        self.id_counter = self.id_counter.wrapping_add(1);
        default_lock_owner(self.builder.host.as_str(), self.builder.process_id, when, counter)
    }

    /// A fresh open owner for this client.
    fn generated_open_owner(&mut self) -> (owner: Vec<u8>)
        ensures
            owner@.len() <= NFS4_OPAQUE_LIMIT,
            final(self).wire == old(self).wire,
    {
        let when = now_nanos();
        let counter = self.id_counter;
        self.id_counter = self.id_counter.wrapping_add(1);
        default_open_owner(self.builder.host.as_str(), self.builder.process_id, when, counter)
    }

    /// Acquires an NFSv4 byte-range lock using a generated lock owner.
    pub fn lock(&mut self, path: &str, lock_type: LockType, offset: u64, length: u64) -> (r: Result<ByteRangeLock>)
        ensures
            r matches Ok(lock) ==> lock.spec_lock_type() == lock_type && lock.spec_offset() == offset
                && lock.spec_length() == length && lock.spec_lost() is None,
            r is Ok ==> range_locked_by_some_owner(final(self).spec_wire(), old(self).spec_wire().len() as int, lock_type, offset, length),
    {
        let owner = self.generated_lock_owner();
        let ghost o = owner@;
        let r = self.lock_with_owner(path, lock_type, offset, length, owner);
        proof {
            if r is Ok {
                assert(range_locked(self.spec_wire(), old(self).spec_wire().len() as int, lock_type, offset, length, o));
            }
        }
        r
    }

    /// Acquires a shared read byte-range lock.
    pub fn read_lock(&mut self, path: &str, offset: u64, length: u64) -> (r: Result<ByteRangeLock>)
        ensures
            r matches Ok(lock) ==> lock.spec_lock_type() == LockType::Read && lock.spec_offset() == offset
                && lock.spec_length() == length,
    {
        self.lock(path, LockType::Read, offset, length)
    }

    /// Acquires an exclusive write byte-range lock.
    pub fn write_lock(&mut self, path: &str, offset: u64, length: u64) -> (r: Result<ByteRangeLock>)
        ensures
            r matches Ok(lock) ==> lock.spec_lock_type() == LockType::Write && lock.spec_offset() == offset
                && lock.spec_length() == length,
    {
        self.lock(path, LockType::Write, offset, length)
    }

    /// Acquires an NFSv4 byte-range lock using an explicit lock owner id.
    /// The client tracks the lock so that a rebuilt session reclaims it.
    pub fn lock_with_owner(&mut self, path: &str, lock_type: LockType, offset: u64, length: u64, owner: Vec<u8>) -> (r: Result<ByteRangeLock>)
        ensures
            owner@.len() > NFS4_OPAQUE_LIMIT ==> (r matches Err(e) && e is Protocol),
            r matches Ok(lock) ==> lock.spec_lock_type() == lock_type && lock.spec_offset() == offset
                && lock.spec_length() == length && lock.owner_view() == owner@ && lock.spec_lost() is None
                && final(self).spec_locks().holds(lock.id()),
            r is Ok ==> range_locked(final(self).spec_wire(), old(self).spec_wire().len() as int, lock_type, offset, length, owner@),
    {
        validate_lock_owner(owner.as_slice())?;
        let open_owner = self.generated_open_owner();
        let opened = self.open_with_owner(path, lock_share_access(lock_type), OpenHow::NoCreate, copy_bytes(open_owner.as_slice()))?;
        let ghost w_open = self.wire@;
        let result = self.lock_opened(&opened, lock_type, offset, length, copy_bytes(owner.as_slice()));
        proof {
            if result is Ok {
                let stateid = result->Ok_0.0;
                let i = choose|i: int| w_open.len() <= i < self.wire@.len()
                    && #[trigger] lock_call(self.wire@[i], opened.handle.bytes(), lock_type, offset, length, owner@, stateid);
                assert(lock_call(self.wire@[i], opened.handle.bytes(), lock_type, offset, length, owner@, stateid));
                assert(lock_exchanged(self.wire@, old(self).wire@.len() as int, opened.handle.bytes(), lock_type, offset, length,
                    owner@, stateid));
                assert(range_locked(self.wire@, old(self).wire@.len() as int, lock_type, offset, length, owner@));
            }
        }
        match result {
            Ok((lock_stateid, lock_seqid)) => {
                let state = LockState {
                    client_id: self.client_id,
                    handle: opened.handle,
                    open_stateid: opened.stateid,
                    lock_stateid,
                    lock_seqid,
                    lock_type,
                    offset,
                    length,
                    owner,
                    open_owner,
                    lost: None,
                };
                let registered = self.locks.register(state);
                proof {
                    if registered is Ok {
                        let lock = registered->Ok_0;
                        assert(self.locks.ids().last() == lock.id());
                        assert(self.locks.ids()[self.locks.ids().len() - 1] == lock.id());
                    }
                }
                registered
            },
            Err(err) => {
                let closed = self.close(opened);
                Err(cleanup_error(err, "cleanup CLOSE after failed LOCK", closed))
            },
        }
    }

    /// Sends LOCK for a new lock owner on an open file, retrying delayed
    /// replies; returns the lock state id and the lock seqid to use next.
    fn lock_opened(&mut self, opened: &OpenedFile, lock_type: LockType, offset: u64, length: u64, owner: Vec<u8>) -> (r: Result<(StateId, u32)>)
        ensures
            final(self).locks.ids() == old(self).locks.ids(),
            wire_grew(old(self).wire@, final(self).wire@),
            r matches Ok((stateid, _)) ==> lock_exchanged(final(self).wire@, old(self).wire@.len() as int, opened.handle.bytes(),
                lock_type, offset, length, owner@, stateid),
    {
        let policy = self.retry_policy;
        let mut retry: u32 = 0;
        let mut lock_seqid: u32 = 1;
        loop
            invariant
                retry <= policy.max_retries,
                self.locks.ids() == old(self).locks.ids(),
                wire_grew(old(self).wire@, self.wire@),
            decreases policy.max_retries - retry,
        {
            let args = LockArgs {
                lock_type,
                reclaim: false,
                offset,
                length,
                locker: Locker::New {
                    open_seqid: self.current_open_seqid(),
                    open_stateid: opened.stateid,
                    lock_seqid,
                    lock_owner: LockOwner { client_id: self.client_id, owner: copy_bytes(owner.as_slice()) },
                },
            };
            let lock_ops = vec![Operation::PutFh(opened.handle.clone()), Operation::Lock(args)];
            let ghost ops = lock_ops@;
            let ghost w0 = self.wire@;
            let response = self.compound_status(lock_ops)?;
            let ghost w1 = self.wire@;
            let ghost sent_at = choose|i: int| w0.len() <= i < w1.len() && #[trigger] session_exchange_at(w1[i], ops, response);
            proof {
                assert(session_exchange_at(w1[sent_at], ops, response));
            }
            if response_consumed_owner_seqid(&response, OpCode::Lock) {
                self.advance_open_seqid();
                lock_seqid = next_sequence_id(lock_seqid);
            }
            if response_operation_has_delayed_status(&response, OpCode::Lock) {
                if let Some(delay) = policy.delay_for_retry(retry) {
                    retry = retry + 1;
                    self.rpc.pause(delay);
                    continue;
                }
            }
            let stateid = response_lock(&response)?;
            proof {
                assert(response_lock_outcome(response, Ok(stateid)));
                assert(self.wire@[sent_at] == w1[sent_at]);
                assert(lock_call(self.wire@[sent_at], opened.handle.bytes(), lock_type, offset, length, owner@, stateid));
                assert(lock_exchanged(self.wire@, old(self).wire@.len() as int, opened.handle.bytes(), lock_type, offset, length,
                    owner@, stateid));
            }
            return Ok((stateid, lock_seqid));
        }
    }

    /// Sends LOCKU for a tracked lock, retrying delayed replies.
    fn unlock_opened(&mut self, lock: &LockState) -> (r: Result<StateId>)
        ensures
            final(self).locks.ids() == old(self).locks.ids(),
            wire_grew(old(self).wire@, final(self).wire@),
            r is Ok ==> range_unlocked(final(self).wire@, old(self).wire@.len() as int, *lock),
    {
        let policy = self.retry_policy;
        let mut retry: u32 = 0;
        let mut lock_seqid = lock.lock_seqid;
        loop
            invariant
                self.locks.ids() == old(self).locks.ids(),
                retry <= policy.max_retries,
                wire_grew(old(self).wire@, self.wire@),
            decreases policy.max_retries - retry,
        {
            let args = LockUnlockArgs {
                lock_type: lock.lock_type,
                seqid: lock_seqid,
                lock_stateid: lock.lock_stateid,
                offset: lock.offset,
                length: lock.length,
            };
            let unlock_ops = vec![Operation::PutFh(lock.handle.clone()), Operation::LockUnlock(args)];
            let ghost ops = unlock_ops@;
            let ghost w0 = self.wire@;
            let response = self.compound_status(unlock_ops)?;
            let ghost w1 = self.wire@;
            let ghost sent_at = choose|i: int| w0.len() <= i < w1.len() && #[trigger] session_exchange_at(w1[i], ops, response);
            proof {
                assert(session_exchange_at(w1[sent_at], ops, response));
                assert(unlock_call(w1[sent_at], lock.handle.bytes(), lock.lock_type, lock.lock_stateid, lock.offset, lock.length));
                assert(range_unlocked(w1, old(self).wire@.len() as int, *lock));
            }
            if response_consumed_owner_seqid(&response, OpCode::Locku) {
                lock_seqid = next_sequence_id(lock_seqid);
            }
            if response_operation_has_delayed_status(&response, OpCode::Locku) {
                if let Some(delay) = policy.delay_for_retry(retry) {
                    retry = retry + 1;
                    self.rpc.pause(delay);
                    continue;
                }
            }
            return response_lock_unlock(&response);
        }
    }

    /// Brings a lock token up to date with the client's record of the lock:
    /// its state id after recovery, and whether the lock was lost. Fails for
    /// a lock the client does not track.
    pub fn refresh_lock(&self, lock: &mut ByteRangeLock) -> (r: Result<()>)
        ensures
            r is Ok <==> self.spec_locks().holds(old(lock).id()),
            final(lock).id() == old(lock).id(),
            r is Ok ==> exists|i: int| 0 <= i < self.spec_locks().ids().len() && self.spec_locks().ids()[i] == old(lock).id()
                && final(lock).spec_stateid() == self.spec_locks().states()[i].lock_stateid
                && final(lock).spec_lost() == self.spec_locks().states()[i].lost,
    {
        let index = match self.locks.index_of(lock) {
            Some(i) => i,
            None => return Err(protocol("lock belongs to a different client or was already released")),
        };
        let state = self.locks.state_at(index);
        lock.refresh(state);
        assert(0 <= index < self.spec_locks().ids().len() && self.spec_locks().ids()[index as int] == old(lock).id()
            && lock.spec_stateid() == self.spec_locks().states()[index as int].lock_stateid
            && lock.spec_lost() == self.spec_locks().states()[index as int].lost);
        Ok(())
    }

    /// Releases an active NFSv4 byte-range lock. The client forgets the
    /// lock first, so that no later session rebuild reclaims the released
    /// range even when the reply is lost; a lock known to be lost is
    /// reported as `LockLost`.
    pub fn unlock(&mut self, lock: ByteRangeLock) -> (r: Result<()>)
        ensures
            !old(self).spec_locks().holds(lock.id()) ==> (r matches Err(e) && e is Protocol),
            old(self).spec_locks().holds(lock.id()) ==> !final(self).spec_locks().holds(lock.id()),
            r is Ok ==> ended_with_close(final(self).spec_last_compound()),
    {
        let state = self.locks.get(&lock)?;
        self.locks.remove(&lock);
        if let Some(status) = state.lost {
            if state.client_id == self.client_id {
                let seqid = self.current_open_seqid();
                let _ = self.recovery_compound(vec![
                    Operation::PutFh(state.handle.clone()),
                    Operation::Close { seqid, stateid: state.open_stateid },
                ]);
                self.advance_open_seqid();
            }
            return Err(Error::LockLost { status });
        }
        let opened = OpenedFile { handle: state.handle.clone(), stateid: state.open_stateid };
        let result = match self.unlock_opened(&state) {
            Ok(stateid) => match self.free_stateid(stateid) {
                Ok(()) => match self.release_lock_owner(copy_bytes(state.owner.as_slice())) {
                    Ok(_) => Ok(()),
                    Err(e) => Err(e),
                },
                Err(err) => Err(err),
            },
            Err(err) => Err(err),
        };
        let close_result = self.close(opened);
        finish_with_close(result, close_result)
    }
}



impl<T: Transport> Client<T> {
    fn copy_opened_range_offload(&mut self, source: &OpenedFile, target: &OpenedFile, options: CopyOffloadOptions) -> (r: Result<CopyResult>)
        ensures
            final(self).locks.ids() == old(self).locks.ids(),
            wire_grew(old(self).wire@, final(self).wire@),
            r matches Ok(c) ==> exists|i: int| old(self).wire@.len() <= i < final(self).wire@.len()
                && #[trigger] copy_call(final(self).wire@[i], source.handle.bytes(), target.handle.bytes(), options.src_offset,
                    options.dst_offset, options.count, options.consecutive, options.synchronous, options.source_servers@, c),
    {
        let count = options.count;
        let ghost opts = options;
        let operations = vec![
            Operation::PutFh(source.handle.clone()),
            Operation::SaveFh,
            Operation::PutFh(target.handle.clone()),
            Operation::Copy(CopyArgs {
                src_stateid: source.stateid,
                dst_stateid: target.stateid,
                src_offset: options.src_offset,
                dst_offset: options.dst_offset,
                count,
                consecutive: options.consecutive,
                synchronous: options.synchronous,
                source_servers: options.source_servers,
            }),
        ];
        let ghost ops = operations@;
        let response = self.compound(operations)?;
        let copied = response_copy(&response, count);
        proof {
            if copied is Ok {
                let i = choose|i: int| old(self).wire@.len() <= i < self.wire@.len()
                    && #[trigger] session_exchange_at(self.wire@[i], ops, response);
                assert(copy_call(self.wire@[i], source.handle.bytes(), target.handle.bytes(), opts.src_offset,
                    opts.dst_offset, opts.count, opts.consecutive, opts.synchronous, opts.source_servers@, copied->Ok_0));
            }
        }
        copied
    }

    /// Starts an NFSv4.2 server-side `COPY` for a byte range, synchronous and
    /// not necessarily consecutive.
    ///
    /// The destination file must already exist. When the returned
    /// [`CopyResult`] contains a write response with a callback id, the server
    /// accepted an asynchronous offload; use [`Client::offload_status`] or
    /// [`Client::offload_cancel`] with that stateid.
    pub fn copy_range_offload(&mut self, from: &str, to: &str, src_offset: u64, dst_offset: u64, count: u64) -> (r: Result<CopyResult>)
        ensures
            old(self).spec_minor_version() < NFS4_MINOR_VERSION_V42 ==> (r matches Err(e) && e is Protocol),
            old(self).spec_minor_version() >= NFS4_MINOR_VERSION_V42 && count == 0
                ==> (r matches Ok(c) && c.response is None && c.requirements is None),
    {
        self.copy_range_offload_with_options(from, to, src_offset, dst_offset, count, false, true, Vec::new())
    }

    /// Starts an NFSv4.2 server-side `COPY` with explicit COPY options.
    ///
    /// `source_servers` is normally empty for same-server copy. For
    /// inter-server copy, pass the source server locations returned by
    /// [`Client::copy_notify`]. An empty range is answered without a call.
    pub fn copy_range_offload_with_options(
        &mut self,
        from: &str,
        to: &str,
        src_offset: u64,
        dst_offset: u64,
        count: u64,
        consecutive: bool,
        synchronous: bool,
        source_servers: Vec<NetLoc>,
    ) -> (r: Result<CopyResult>)
        ensures
            old(self).spec_minor_version() < NFS4_MINOR_VERSION_V42 ==> (r matches Err(e) && e is Protocol),
            old(self).spec_minor_version() >= NFS4_MINOR_VERSION_V42 && count == 0
                ==> (r matches Ok(c) && c.response is None && c.requirements is None),
            old(self).spec_minor_version() >= NFS4_MINOR_VERSION_V42 && count > 0
                && source_servers@.len() > NFS4_MAX_NETLOCATIONS ==> (r matches Err(e) && e is Protocol),
            count > 0 ==> (r matches Ok(c) ==> copy_exchanged(final(self).spec_wire(), old(self).spec_wire().len() as int,
                src_offset, dst_offset, count, consecutive, synchronous, source_servers@, c)),
    {
        require_minor_version("COPY", self.minor_version, NFS4_MINOR_VERSION_V42)?;
        if count == 0 {
            return Ok(CopyResult { response: None, requirements: None });
        }
        if source_servers.len() > NFS4_MAX_NETLOCATIONS {
            return Err(protocol("NFSv4 COPY source server count exceeds the protocol maximum"));
        }
        let source = self.open(from, OPEN4_SHARE_ACCESS_READ, OpenHow::NoCreate)?;
        let target = match self.open(to, OPEN4_SHARE_ACCESS_WRITE, OpenHow::NoCreate) {
            Ok(target) => target,
            Err(err) => {
                let closed = self.close(source);
                return Err(cleanup_error(err, "cleanup CLOSE source after failed offload target OPEN", closed));
            },
        };
        if let Err(error) = ensure_distinct_copy_handles(&source.handle, &target.handle) {
            let target_close = self.close(target);
            let source_close = self.close(source);
            return Err(cleanup_error(error, "cleanup CLOSE after rejected same-file offload copy", both_closed(target_close, source_close)));
        }
        let ghost servers = source_servers@;
        let ghost src_h = source.handle.bytes();
        let ghost dst_h = target.handle.bytes();
        let options = CopyOffloadOptions { src_offset, dst_offset, count, consecutive, synchronous, source_servers };
        let ghost w0 = self.wire@;
        let result = self.copy_opened_range_offload(&source, &target, options);
        let ghost w1 = self.wire@;
        let target_close = self.close(target);
        let source_close = self.close(source);
        let close_result = both_closed(target_close, source_close);
        match result {
            Ok(copy) => {
                close_result?;
                proof {
                    let i = choose|i: int| w0.len() <= i < w1.len() && #[trigger] copy_call(w1[i], src_h,
                        dst_h, src_offset, dst_offset, count, consecutive, synchronous, servers, copy);
                    assert(self.wire@[i] == w1[i]);
                    assert(copy_call(self.wire@[i], src_h, dst_h, src_offset, dst_offset, count,
                        consecutive, synchronous, servers, copy));
                }
                Ok(copy)
            },
            Err(err) => Err(cleanup_error(err, "cleanup CLOSE after failed offload COPY", close_result)),
        }
    }

    fn copy_notify_opened(&mut self, source: &OpenedFile, destination_server: NetLoc) -> (r: Result<CopyNotifyResult>)
        ensures
            r is Ok ==> handle_op_sent(final(self).wire@, old(self).wire@.len() as int, source.handle.bytes(),
                Operation::CopyNotify(CopyNotifyArgs { src_stateid: source.stateid, destination_server })),
    {
        let ops = vec![
            Operation::PutFh(source.handle.clone()),
            Operation::CopyNotify(CopyNotifyArgs { src_stateid: source.stateid, destination_server }),
        ];
        let ghost sent = ops@;
        let response = self.compound(ops)?;
        proof {
            let i = choose|i: int| old(self).wire@.len() <= i < self.wire@.len() && #[trigger] session_exchange_at(self.wire@[i], sent, response);
            assert(handle_op_call(self.wire@[i], source.handle.bytes(), sent[1]));
        }
        response_copy_notify(&response)
    }

    /// Sends NFSv4.2 `COPY_NOTIFY` for a source path and destination server.
    pub fn copy_notify(&mut self, source: &str, destination_server: NetLoc) -> (r: Result<CopyNotifyResult>)
        ensures
            old(self).spec_minor_version() < NFS4_MINOR_VERSION_V42 ==> (r matches Err(e) && e is Protocol),
            r is Ok ==> ended_with_close(final(self).spec_last_compound()),
    {
        require_minor_version("COPY_NOTIFY", self.minor_version, NFS4_MINOR_VERSION_V42)?;
        let opened = self.open(source, OPEN4_SHARE_ACCESS_READ, OpenHow::NoCreate)?;
        let result = self.copy_notify_opened(&opened, destination_server);
        let close_result = self.close(opened);
        finish_with_close(result, close_result)
    }

    /// Sends NFSv4.2 `COPY_NOTIFY` using an existing source stateid.
    pub fn copy_notify_with_stateid(&mut self, source: &str, stateid: StateId, destination_server: NetLoc) -> (r: Result<CopyNotifyResult>)
        ensures
            old(self).spec_minor_version() < NFS4_MINOR_VERSION_V42 ==> (r matches Err(e) && e is Protocol),
            r is Ok ==> (final(self).spec_last_compound() matches Some((ops, reply))
                && path_request(source@, seq![Operation::CopyNotify(CopyNotifyArgs { src_stateid: stateid, destination_server })], ops)
                && reply.status == Status::NfsOk && response_copy_notify_outcome(reply, r)),
    {
        require_minor_version("COPY_NOTIFY", self.minor_version, NFS4_MINOR_VERSION_V42)?;
        let response = self.compound(path_ops(source, one_op(Operation::CopyNotify(CopyNotifyArgs { src_stateid: stateid, destination_server })))?)?;
        response_copy_notify(&response)
    }

    /// Polls an asynchronous NFSv4.2 copy offload.
    pub fn offload_status(&mut self, stateid: StateId) -> (r: Result<OffloadStatusResult>)
        ensures
            old(self).spec_minor_version() < NFS4_MINOR_VERSION_V42 ==> (r matches Err(e) && e is Protocol),
            r is Ok ==> (final(self).spec_last_compound() matches Some((ops, reply))
                && ops == seq![Operation::OffloadStatus(stateid)]
                && reply.status == Status::NfsOk && response_offload_status_outcome(reply, r)),
    {
        require_minor_version("OFFLOAD_STATUS", self.minor_version, NFS4_MINOR_VERSION_V42)?;
        let response = self.compound(one_op(Operation::OffloadStatus(stateid)))?;
        response_offload_status(&response)
    }

    /// Cancels an asynchronous NFSv4.2 copy offload.
    pub fn offload_cancel(&mut self, stateid: StateId) -> (r: Result<()>)
        ensures
            old(self).spec_minor_version() < NFS4_MINOR_VERSION_V42 ==> (r matches Err(e) && e is Protocol),
            r is Ok ==> (final(self).spec_last_compound() matches Some((ops, reply))
                && ops == seq![Operation::OffloadCancel(stateid)]
                && reply.status == Status::NfsOk && last_result_ok(reply)),
    {
        require_minor_version("OFFLOAD_CANCEL", self.minor_version, NFS4_MINOR_VERSION_V42)?;
        let response = self.compound(one_op(Operation::OffloadCancel(stateid)))?;
        self.ensure_status(response, "OFFLOAD_CANCEL")
    }

    /// The reply size to ask for in pNFS calls: what the session channel
    /// carries, at least one byte.
    fn pnfs_max_count(&self) -> (n: u32)
        ensures
            n >= 1,
    {
        let limit = session_payload_limit(self.max_response_size);
        if limit < 1 { 1 } else { limit }
    }

    /// Reads pNFS device information for a device id.
    pub fn get_device_info(&mut self, device_id: DeviceId, layout_type: LayoutType) -> (r: Result<GetDeviceInfoResult>)
        ensures
            old(self).spec_minor_version() < NFS4_MINOR_VERSION_SESSION_MIN ==> (r matches Err(e) && e is Protocol),
            r is Ok ==> (final(self).spec_last_compound() matches Some((ops, reply))
                && ops.len() == 1 && (ops[0] matches Operation::GetDeviceInfo(a) && a.device_id == device_id
                    && a.layout_type == layout_type && a.max_count >= 1 && a.notify_types.words_view().len() == 0)
                && reply.status == Status::NfsOk && response_get_device_info_outcome(reply, r)),
    {
        let max_count = self.pnfs_max_count();
        self.get_device_info_with_notify(device_id, layout_type, max_count, Bitmap::empty())
    }

    /// Reads pNFS device information with an explicit response limit and
    /// notification bitmap; a zero limit is refused.
    pub fn get_device_info_with_notify(&mut self, device_id: DeviceId, layout_type: LayoutType, max_count: u32, notify_types: Bitmap) -> (r: Result<GetDeviceInfoResult>)
        ensures
            old(self).spec_minor_version() >= NFS4_MINOR_VERSION_SESSION_MIN && max_count == 0 ==> (r matches Err(e) && e is Protocol),
            old(self).spec_minor_version() < NFS4_MINOR_VERSION_SESSION_MIN ==> (r matches Err(e) && e is Protocol),
            r is Ok ==> (final(self).spec_last_compound() matches Some((ops, reply))
                && ops == seq![Operation::GetDeviceInfo(GetDeviceInfoArgs { device_id, layout_type, max_count, notify_types })]
                && reply.status == Status::NfsOk && response_get_device_info_outcome(reply, r)),
    {
        require_minor_version("GETDEVICEINFO", self.minor_version, NFS4_MINOR_VERSION_SESSION_MIN)?;
        if max_count == 0 {
            return Err(protocol("GETDEVICEINFO max_count must be greater than zero"));
        }
        let response = self.compound(one_op(Operation::GetDeviceInfo(GetDeviceInfoArgs { device_id, layout_type, max_count, notify_types })))?;
        response_get_device_info(&response)
    }

    /// Lists all pNFS device ids for a layout type, subject to the client's entry limit.
    pub fn list_devices(&mut self, layout_type: LayoutType) -> (r: Result<Vec<DeviceId>>)
        ensures
            !(1 <= old(self).spec_max_dir_entries() <= u32::MAX) ==> (r matches Err(e) && e is Protocol),
            r matches Ok(ids) ==> ids@.len() <= old(self).spec_max_dir_entries(),
            r matches Ok(ids) ==> devices_listed(final(self).spec_wire(), old(self).spec_wire().len() as int, ids@),
    {
        let max_device_ids = self.max_dir_entries;
        self.list_devices_limited(layout_type, max_device_ids)
    }

    /// Lists pNFS device ids for a layout type with a per-call device id limit.
    pub fn list_devices_limited(&mut self, layout_type: LayoutType, max_device_ids: usize) -> (r: Result<Vec<DeviceId>>)
        ensures
            !(1 <= max_device_ids <= u32::MAX) ==> (r matches Err(e) && e is Protocol),
            r matches Ok(ids) ==> ids@.len() <= max_device_ids,
            r matches Ok(ids) ==> devices_listed(final(self).spec_wire(), old(self).spec_wire().len() as int, ids@),
    {
        validate_max_device_ids(max_device_ids)?;
        let ghost start = self.wire@.len() as int;
        let mut cursor: Option<DeviceListCursor> = None;
        let mut device_ids: Vec<DeviceId> = Vec::new();
        let mut pages: u64 = 0;
        let ghost mut got: DevicePages = Seq::empty();
        let ghost mut at: Seq<int> = Seq::empty();
        proof {
            assert(device_pages_ids(got) =~= Seq::<DeviceId>::empty());
        }
        loop
            invariant
                device_ids@.len() <= max_device_ids,
                1 <= max_device_ids <= u32::MAX,
                start == old(self).wire@.len(),
                wire_grew(old(self).wire@, self.wire@),
                device_pages_received(self.wire@, start, got, at),
                forall|k: int| 0 <= k < got.len() ==> !(#[trigger] got[k]).1,
                device_ids@ == device_pages_ids(got),
            decreases MAX_DEVICE_LIST_PAGES - pages,
        {
            if pages == MAX_DEVICE_LIST_PAGES {
                return Err(protocol("NFSv4 GETDEVICELIST did not finish"));
            }
            pages = pages + 1;
            let remaining = max_device_ids - device_ids.len();
            if remaining == 0 {
                return Err(protocol("NFSv4 GETDEVICELIST exceeded the configured device id limit"));
            }
            let ghost w0 = self.wire@;
            let page = self.list_device_page_limited(layout_type, cursor, remaining)?;
            let ghost pg = page;
            let ghost w1 = self.wire@;
            assert(device_page_received(w1, w0.len() as int, pg.device_ids@, pg.next_cursor is None));
            let ghost page_at = choose|i: int| w0.len() <= i < w1.len()
                && #[trigger] device_page_reply(w1[i], pg.device_ids@, pg.next_cursor is None);
            let DeviceListPage { device_ids: ids, next_cursor } = page;
            let ghost before = device_ids@;
            let mut k: usize = 0;
            while k < ids.len()
                invariant
                    k <= ids@.len() <= remaining,
                    remaining == max_device_ids - before.len(),
                    device_ids@ == before + ids@.take(k as int),
                decreases ids@.len() - k,
            {
                device_ids.push(ids[k]);
                proof {
                    assert(ids@.take(k + 1) =~= ids@.take(k as int).push(ids@[k as int]));
                }
                k = k + 1;
            }
            proof {
                assert(ids@.take(ids@.len() as int) =~= ids@);
                let next_got = got.push((ids@, next_cursor is None));
                let next_at = at.push(page_at);
                assert(next_got.drop_last() =~= got);
                assert(device_pages_ids(next_got) =~= device_pages_ids(got) + ids@);
                assert(device_pages_received(w1, start, next_got, next_at)) by {
                    assert forall|k: int| 0 <= k < next_at.len() implies device_page_reply(#[trigger] w1[next_at[k]], next_got[k].0, next_got[k].1) by {
                        if k < at.len() {
                            assert(next_at[k] == at[k]);
                            assert(next_got[k] == got[k]);
                            assert(w1[at[k]] == w0[at[k]]);
                        }
                    }
                    assert forall|k: int, m: int| 0 <= k < m < next_at.len() implies #[trigger] next_at[k] < #[trigger] next_at[m] by {
                        if m == at.len() {
                            assert(next_at[k] == at[k]);
                        }
                    }
                }
                got = next_got;
                at = next_at;
                if next_cursor is None {
                    assert(devices_listed(self.wire@, start, device_ids@));
                }
            }
            match next_cursor {
                Some(next) => cursor = Some(next),
                None => return Ok(device_ids),
            }
        }
    }

    /// Reads one page of pNFS device ids for a layout type.
    pub fn list_device_page(&mut self, layout_type: LayoutType, cursor: Option<DeviceListCursor>) -> (r: Result<DeviceListPage>)
        ensures
            r is Ok ==> (final(self).spec_last_compound() matches Some((ops, reply))
                && device_list_request(ops, layout_type, cursor, old(self).spec_max_dir_entries() as int) && reply.status == Status::NfsOk),
    {
        let max_device_ids = self.max_dir_entries;
        self.list_device_page_limited(layout_type, cursor, max_device_ids)
    }

    /// Reads one page of pNFS device ids for a layout type with a per-page limit.
    pub fn list_device_page_limited(&mut self, layout_type: LayoutType, cursor: Option<DeviceListCursor>, max_device_ids: usize) -> (r: Result<DeviceListPage>)
        ensures
            !(1 <= max_device_ids <= u32::MAX) ==> (r matches Err(e) && e is Protocol),
            r matches Ok(page) ==> page.device_ids@.len() <= max_device_ids,
            1 <= max_device_ids <= u32::MAX ==> (old(self).spec_minor_version() < NFS4_MINOR_VERSION_SESSION_MIN ==> (r matches Err(e) && e is Protocol)),
            r is Ok ==> (final(self).spec_last_compound() matches Some((ops, reply))
                && device_list_request(ops, layout_type, cursor, max_device_ids as int) && reply.status == Status::NfsOk),
            wire_grew(old(self).spec_wire(), final(self).spec_wire()),
            r matches Ok(page) ==> device_page_received(final(self).spec_wire(), old(self).spec_wire().len() as int,
                page.device_ids@, page.next_cursor is None),
    {
        let max_devices = validate_max_device_ids(max_device_ids)?;
        require_minor_version("GETDEVICELIST", self.minor_version, NFS4_MINOR_VERSION_SESSION_MIN)?;
        let cursor = match cursor {
            Some(c) => c,
            None => DeviceListCursor { cookie: 0, cookieverf: [0u8; 8] },
        };
        let ops = one_op(Operation::GetDeviceList(GetDeviceListArgs {
            layout_type,
            max_devices,
            cookie: cursor.cookie,
            cookieverf: cursor.cookieverf,
        }));
        let ghost sent = ops@;
        let ghost w0 = self.wire@;
        let response = self.compound(ops)?;
        let result = response_get_device_list(&response)?;
        let ghost got = result;
        let page = device_list_page_from_result(result, cursor.cookie, max_device_ids);
        proof {
            if page is Ok {
                let i = choose|i: int| w0.len() <= i < self.wire@.len() && #[trigger] session_exchange_at(self.wire@[i], sent, response);
                assert(response_get_device_list_outcome(response, Ok(got)));
                assert(device_page_reply(self.wire@[i], page->Ok_0.device_ids@, page->Ok_0.next_cursor is None));
                assert(device_page_received(self.wire@, w0.len() as int, page->Ok_0.device_ids@, page->Ok_0.next_cursor is None));
            }
        }
        page
    }

    fn layout_get_opened(
        &mut self,
        opened: &OpenedFile,
        layout_type: LayoutType,
        iomode: LayoutIomode,
        offset: u64,
        length: u64,
        min_length: u64,
        max_count: u32,
        signal_layout_avail: bool,
    ) -> (r: Result<LayoutGetResult>)
        ensures
            r is Ok ==> handle_op_sent(final(self).wire@, old(self).wire@.len() as int, opened.handle.bytes(),
                Operation::LayoutGet(LayoutGetArgs {
                    signal_layout_avail, layout_type, iomode, offset, length, min_length, stateid: opened.stateid, max_count,
                })),
    {
        let ops = vec![
            Operation::PutFh(opened.handle.clone()),
            Operation::LayoutGet(LayoutGetArgs {
                signal_layout_avail,
                layout_type,
                iomode,
                offset,
                length,
                min_length,
                stateid: opened.stateid,
                max_count,
            }),
        ];
        let ghost sent = ops@;
        let response = self.compound(ops)?;
        proof {
            let i = choose|i: int| old(self).wire@.len() <= i < self.wire@.len() && #[trigger] session_exchange_at(self.wire@[i], sent, response);
            assert(handle_op_call(self.wire@[i], opened.handle.bytes(), sent[1]));
        }
        response_layout_get(&response)
    }

    /// Gets pNFS layout segments for a file byte range.
    pub fn layout_get(&mut self, path: &str, layout_type: LayoutType, iomode: LayoutIomode, offset: u64, length: u64, min_length: u64) -> (r: Result<LayoutGetResult>)
        ensures
            r is Ok ==> ended_with_close(final(self).spec_last_compound()),
    {
        let max_count = self.pnfs_max_count();
        self.layout_get_with_options(path, layout_type, iomode, offset, length, min_length, max_count, false)
    }

    /// Gets pNFS layout segments with an explicit response limit and
    /// availability signal flag; a zero limit is refused.
    pub fn layout_get_with_options(
        &mut self,
        path: &str,
        layout_type: LayoutType,
        iomode: LayoutIomode,
        offset: u64,
        length: u64,
        min_length: u64,
        max_count: u32,
        signal_layout_avail: bool,
    ) -> (r: Result<LayoutGetResult>)
        ensures
            old(self).spec_minor_version() >= NFS4_MINOR_VERSION_SESSION_MIN && max_count == 0 ==> (r matches Err(e) && e is Protocol),
            r is Ok ==> ended_with_close(final(self).spec_last_compound()),
    {
        require_minor_version("LAYOUTGET", self.minor_version, NFS4_MINOR_VERSION_SESSION_MIN)?;
        if max_count == 0 {
            return Err(protocol("LAYOUTGET max_count must be greater than zero"));
        }
        let opened = self.open(path, layout_iomode_share_access(iomode), OpenHow::NoCreate)?;
        let result = self.layout_get_opened(&opened, layout_type, iomode, offset, length, min_length, max_count, signal_layout_avail);
        let close_result = self.close(opened);
        finish_with_close(result, close_result)
    }

    /// Commits layout metadata for a file byte range.
    pub fn layout_commit(&mut self, path: &str, offset: u64, length: u64, stateid: StateId, layout_update: LayoutUpdate) -> (r: Result<LayoutCommitResult>)
        ensures
            !path_ok(path@) ==> r is Err,
            old(self).spec_minor_version() < NFS4_MINOR_VERSION_SESSION_MIN ==> (r matches Err(e) && e is Protocol),
            r is Ok ==> (final(self).spec_last_compound() matches Some((ops, reply))
                && path_request(path@, seq![Operation::LayoutCommit(LayoutCommitArgs {
                    offset, length, reclaim: false, stateid, last_write_offset: None, time_modify: None, layout_update })], ops)
                && reply.status == Status::NfsOk && response_layout_commit_outcome(reply, r)),
    {
        self.layout_commit_with_options(path, offset, length, stateid, None, None, layout_update, false)
    }

    /// Commits layout metadata with optional last-write and modify-time fields.
    pub fn layout_commit_with_options(
        &mut self,
        path: &str,
        offset: u64,
        length: u64,
        stateid: StateId,
        last_write_offset: Option<u64>,
        time_modify: Option<NfsTime>,
        layout_update: LayoutUpdate,
        reclaim: bool,
    ) -> (r: Result<LayoutCommitResult>)
        ensures
            !path_ok(path@) ==> r is Err,
            old(self).spec_minor_version() < NFS4_MINOR_VERSION_SESSION_MIN ==> (r matches Err(e) && e is Protocol),
            r is Ok ==> (final(self).spec_last_compound() matches Some((ops, reply))
                && path_request(path@, seq![Operation::LayoutCommit(LayoutCommitArgs {
                    offset, length, reclaim, stateid, last_write_offset, time_modify, layout_update })], ops)
                && reply.status == Status::NfsOk && response_layout_commit_outcome(reply, r)),
    {
        require_minor_version("LAYOUTCOMMIT", self.minor_version, NFS4_MINOR_VERSION_SESSION_MIN)?;
        let args = LayoutCommitArgs { offset, length, reclaim, stateid, last_write_offset, time_modify, layout_update };
        let response = self.compound(path_ops(path, one_op(Operation::LayoutCommit(args)))?)?;
        response_layout_commit(&response)
    }

    /// Reports pNFS data-server I/O errors for a layout range.
    pub fn layout_error(&mut self, path: &str, offset: u64, length: u64, stateid: StateId, errors: Vec<DeviceError>) -> (r: Result<()>)
        ensures
            !path_ok(path@) ==> r is Err,
            old(self).spec_minor_version() < NFS4_MINOR_VERSION_SESSION_MIN ==> (r matches Err(e) && e is Protocol),
            r is Ok ==> (final(self).spec_last_compound() matches Some((ops, reply))
                && path_request(path@, seq![Operation::LayoutError(LayoutErrorArgs { offset, length, stateid, errors })], ops)
                && reply.status == Status::NfsOk && last_result_ok(reply)),
    {
        require_minor_version("LAYOUTERROR", self.minor_version, NFS4_MINOR_VERSION_SESSION_MIN)?;
        let response = self.compound(path_ops(path, one_op(Operation::LayoutError(LayoutErrorArgs { offset, length, stateid, errors })))?)?;
        self.ensure_status(response, "LAYOUTERROR")
    }

    /// Reports pNFS I/O statistics for a layout range.
    pub fn layout_stats(
        &mut self,
        path: &str,
        offset: u64,
        length: u64,
        stateid: StateId,
        read: IoInfo,
        write: IoInfo,
        device_id: DeviceId,
        layout_update: LayoutUpdate,
    ) -> (r: Result<()>)
        ensures
            !path_ok(path@) ==> r is Err,
            old(self).spec_minor_version() < NFS4_MINOR_VERSION_SESSION_MIN ==> (r matches Err(e) && e is Protocol),
            r is Ok ==> (final(self).spec_last_compound() matches Some((ops, reply))
                && path_request(path@, seq![Operation::LayoutStats(LayoutStatsArgs { offset, length, stateid, read, write, device_id, layout_update })], ops)
                && reply.status == Status::NfsOk && last_result_ok(reply)),
    {
        require_minor_version("LAYOUTSTATS", self.minor_version, NFS4_MINOR_VERSION_SESSION_MIN)?;
        let args = LayoutStatsArgs { offset, length, stateid, read, write, device_id, layout_update };
        let response = self.compound(path_ops(path, one_op(Operation::LayoutStats(args)))?)?;
        self.ensure_status(response, "LAYOUTSTATS")
    }

    /// Returns a file-specific pNFS layout.
    pub fn layout_return_file(
        &mut self,
        path: &str,
        layout_type: LayoutType,
        iomode: LayoutIomode,
        offset: u64,
        length: u64,
        stateid: StateId,
        body: Vec<u8>,
    ) -> (r: Result<LayoutReturnResult>)
        ensures
            !path_ok(path@) ==> r is Err,
            old(self).spec_minor_version() < NFS4_MINOR_VERSION_SESSION_MIN ==> (r matches Err(e) && e is Protocol),
            r is Ok ==> (final(self).spec_last_compound() matches Some((ops, reply))
                && path_request(path@, seq![Operation::LayoutReturn(LayoutReturnArgs { reclaim: false, layout_type, iomode,
                    layout_return: LayoutReturn::File(LayoutReturnFile { offset, length, stateid, body }) })], ops)
                && reply.status == Status::NfsOk && response_layout_return_outcome(reply, r)),
    {
        require_minor_version("LAYOUTRETURN", self.minor_version, NFS4_MINOR_VERSION_SESSION_MIN)?;
        let args = LayoutReturnArgs {
            reclaim: false,
            layout_type,
            iomode,
            layout_return: LayoutReturn::File(LayoutReturnFile { offset, length, stateid, body }),
        };
        let response = self.compound(path_ops(path, one_op(Operation::LayoutReturn(args)))?)?;
        response_layout_return(&response)
    }

    /// Returns all layouts for the filesystem containing `path`.
    pub fn layout_return_fsid(&mut self, path: &str, layout_type: LayoutType, iomode: LayoutIomode) -> (r: Result<LayoutReturnResult>)
        ensures
            !path_ok(path@) ==> r is Err,
            old(self).spec_minor_version() < NFS4_MINOR_VERSION_SESSION_MIN ==> (r matches Err(e) && e is Protocol),
            r is Ok ==> (final(self).spec_last_compound() matches Some((ops, reply))
                && path_request(path@, seq![Operation::LayoutReturn(LayoutReturnArgs { reclaim: false, layout_type, iomode, layout_return: LayoutReturn::Fsid })], ops)
                && reply.status == Status::NfsOk && response_layout_return_outcome(reply, r)),
    {
        require_minor_version("LAYOUTRETURN", self.minor_version, NFS4_MINOR_VERSION_SESSION_MIN)?;
        let args = LayoutReturnArgs { reclaim: false, layout_type, iomode, layout_return: LayoutReturn::Fsid };
        let response = self.compound(path_ops(path, one_op(Operation::LayoutReturn(args)))?)?;
        response_layout_return(&response)
    }

    /// Returns all layouts held by this client for a layout type.
    pub fn layout_return_all(&mut self, layout_type: LayoutType, iomode: LayoutIomode) -> (r: Result<LayoutReturnResult>)
        ensures
            old(self).spec_minor_version() < NFS4_MINOR_VERSION_SESSION_MIN ==> (r matches Err(e) && e is Protocol),
            r is Ok ==> (final(self).spec_last_compound() matches Some((ops, reply))
                && ops == seq![Operation::LayoutReturn(LayoutReturnArgs { reclaim: false, layout_type, iomode, layout_return: LayoutReturn::All })]
                && reply.status == Status::NfsOk && response_layout_return_outcome(reply, r)),
    {
        require_minor_version("LAYOUTRETURN", self.minor_version, NFS4_MINOR_VERSION_SESSION_MIN)?;
        let args = LayoutReturnArgs { reclaim: false, layout_type, iomode, layout_return: LayoutReturn::All };
        let response = self.compound(one_op(Operation::LayoutReturn(args)))?;
        response_layout_return(&response)
    }

    fn clone_opened_range(&mut self, source: &OpenedFile, target: &OpenedFile, src_offset: u64, dst_offset: u64, count: u64) -> (r: Result<()>)
        ensures
            r is Ok ==> two_handle_op_sent(final(self).wire@, old(self).wire@.len() as int, source.handle.bytes(), target.handle.bytes(),
                Operation::Clone(CloneArgs { src_stateid: source.stateid, dst_stateid: target.stateid, src_offset, dst_offset, count })),
    {
        let ops = vec![
            Operation::PutFh(source.handle.clone()),
            Operation::SaveFh,
            Operation::PutFh(target.handle.clone()),
            Operation::Clone(CloneArgs { src_stateid: source.stateid, dst_stateid: target.stateid, src_offset, dst_offset, count }),
        ];
        let ghost sent = ops@;
        let response = self.compound(ops)?;
        proof {
            let i = choose|i: int| old(self).wire@.len() <= i < self.wire@.len() && #[trigger] session_exchange_at(self.wire@[i], sent, response);
            assert(two_handle_op_call(self.wire@[i], source.handle.bytes(), target.handle.bytes(), sent[3]));
        }
        self.ensure_status(response, "CLONE")
    }

    /// Clones a byte range into an existing destination file with NFSv4.2
    /// `CLONE`; an empty range needs no call.
    pub fn clone_range(&mut self, from: &str, to: &str, src_offset: u64, dst_offset: u64, count: u64) -> (r: Result<()>)
        ensures
            old(self).spec_minor_version() < NFS4_MINOR_VERSION_V42 ==> (r matches Err(e) && e is Protocol),
            old(self).spec_minor_version() >= NFS4_MINOR_VERSION_V42 && count == 0 ==> r is Ok,
    {
        require_minor_version("CLONE", self.minor_version, NFS4_MINOR_VERSION_V42)?;
        if count == 0 {
            return Ok(());
        }
        let source = self.open(from, OPEN4_SHARE_ACCESS_READ, OpenHow::NoCreate)?;
        let target = match self.open(to, OPEN4_SHARE_ACCESS_WRITE, OpenHow::NoCreate) {
            Ok(target) => target,
            Err(err) => {
                let closed = self.close(source);
                return Err(cleanup_error(err, "cleanup CLOSE source after failed clone target OPEN", closed));
            },
        };
        let result = self.clone_opened_range(&source, &target, src_offset, dst_offset, count);
        let target_close = self.close(target);
        let source_close = self.close(source);
        let close_result = both_closed(target_close, source_close);
        match result {
            Ok(()) => {
                close_result?;
                Ok(())
            },
            Err(err) => Err(cleanup_error(err, "cleanup CLOSE after failed CLONE", close_result)),
        }
    }

    fn probe_directory(&mut self, path: &str) -> (r: Result<bool>) {
        let dir_size = self.dir_size;
        let maxcount: u32 = if dir_size < 1 { 1 } else if dir_size > 1024 { 1024 } else { dir_size };
        let ops = path_ops(path, vec![Operation::ReadDir {
            cookie: 0,
            cookieverf: [0u8; 8],
            dircount: 1,
            maxcount,
            attr_request: Bitmap::empty(),
        }])?;
        match self.compound(ops) {
            Ok(response) => {
                response_readdir(&response)?;
                Ok(true)
            },
            Err(Error::NfsV4 { status: Status::NotDir, .. })
            | Err(Error::NfsV4 { status: Status::BadType, .. })
            | Err(Error::NfsV4 { status: Status::WrongType, .. }) => Ok(false),
            Err(err) => Err(err),
        }
    }

    fn ensure_directory_type(&mut self, path: &str, file_type: Option<FileType>) -> (r: Result<()>)
        ensures
            file_type == Some(FileType::Directory) ==> r is Ok,
            (file_type matches Some(t) && t != FileType::Directory) ==> (r matches Err(e) && e is Protocol),
    {
        let is_directory = match file_type {
            Some(FileType::Directory) => true,
            Some(_) => false,
            None => self.probe_directory(path)?,
        };
        if is_directory {
            Ok(())
        } else {
            Err(protocol("path exists but is not a directory"))
        }
    }

    fn path_is_directory(&mut self, path: &str, file_type: Option<FileType>) -> (r: Result<bool>)
        ensures
            file_type == Some(FileType::Directory) ==> r == Ok::<bool, Error>(true),
            (file_type matches Some(t) && t != FileType::Directory) ==> r == Ok::<bool, Error>(false),
    {
        match file_type {
            Some(FileType::Directory) => Ok(true),
            Some(_) => Ok(false),
            None => match self.metadata(path)?.file_type {
                Some(FileType::Directory) => Ok(true),
                Some(_) => Ok(false),
                None => self.probe_directory(path),
            },
        }
    }

    /// Creates a directory and missing parents, like `mkdir -p`. An existing
    /// component must be a directory.
    pub fn create_dir_all(&mut self, path: &str, mode: u32) -> (r: Result<()>)
        ensures
            !path_ok(path@) ==> r is Err,
    {
        let components = path_components(path)?;
        let mut current = String::new();
        crate::text::push_char(&mut current, '/');
        let mut i: usize = 0;
        while i < components.len()
            invariant
                i <= components@.len(),
            decreases components@.len() - i,
        {
            current = join_path(current.as_str(), components[i].as_str());
            match self.metadata(current.as_str()) {
                Ok(attrs) => self.ensure_directory_type(current.as_str(), attrs.file_type)?,
                Err(Error::NfsV4 { status: Status::NoEnt, .. }) => match self.mkdir(current.as_str(), mode) {
                    Ok(()) => {},
                    Err(Error::NfsV4 { status: Status::Exist, .. }) => {
                        let attrs = self.metadata(current.as_str())?;
                        self.ensure_directory_type(current.as_str(), attrs.file_type)?;
                    },
                    Err(err) => return Err(err),
                },
                Err(err) => return Err(err),
            }
            i = i + 1;
        }
        Ok(())
    }

    /// Recursively removes a file tree, depth first: the entries of a
    /// directory before the directory. The pseudo-filesystem root itself
    /// cannot be removed this way.
    pub fn remove_all(&mut self, path: &str) -> (r: Result<()>)
        ensures
            !parent_ok(path@) ==> r is Err,
            r is Ok ==> removed_path(final(self).spec_last_compound(), path@),
    {
        let components = path_components(path)?;
        if components.len() == 0 {
            return Err(Error::InvalidPath(path.to_owned()));
        }
        let file_type = self.metadata(path)?.file_type;
        let mut stack: Vec<RemoveTask> = Vec::new();
        stack.push(RemoveTask::Visit(path.to_owned(), file_type));
        let mut steps: u64 = 0;
        while stack.len() > 0
            invariant
                stack@.len() > 0 ==> removal_root(stack@[0], path@),
                stack@.len() == 0 ==> removed_path(self.spec_last_compound(), path@),
            decreases REMOVE_ALL_MAX_STEPS - steps,
        {
            if steps == REMOVE_ALL_MAX_STEPS {
                return Err(protocol("recursive removal did not finish"));
            }
            steps = steps + 1;
            let task = match stack.pop() {
                Some(task) => task,
                None => return Ok(()),
            };
            match task {
                RemoveTask::Visit(current, file_type) => {
                    if self.path_is_directory(current.as_str(), file_type)? {
                        let entries = self.read_dir(current.as_str())?;
                        stack.push(RemoveTask::RemoveDir(current.clone()));
                        let mut k = entries.len();
                        while k > 0
                            invariant
                                k <= entries@.len(),
                                stack@.len() > 0,
                                removal_root(stack@[0], path@),
                            decreases k,
                        {
                            k = k - 1;
                            let entry = &entries[k];
                            if !is_dot_name(entry.name.as_str()) {
                                let child = join_path(current.as_str(), entry.name.as_str());
                                let child_type = entry.basic_attributes()?.file_type;
                                stack.push(RemoveTask::Visit(child, child_type));
                            }
                        }
                    } else {
                        self.remove(current.as_str())?;
                    }
                },
                RemoveTask::RemoveDir(current) => self.rmdir(current.as_str())?,
            }
        }
        Ok(())
    }

    /// Recursively removes a file tree if it exists; `Ok(false)` when it did not.
    pub fn remove_all_if_exists(&mut self, path: &str) -> (r: Result<bool>) {
        let result = self.remove_all(path);
        removed_if_exists(result)
    }
}

/// Whether a directory entry name is `.` or `..`.
fn is_dot_name(name: &str) -> (r: bool)
    ensures
        r == (crate::v4::client::is_dot(name@) || crate::v4::client::is_dot_dot(name@)),
{
    let chars = crate::text::chars_of(name);
    (chars.len() == 1 && chars[0] == '.') || (chars.len() == 2 && chars[0] == '.' && chars[1] == '.')
}



impl<T: Transport> Client<T> {
    /// Opens the named attribute `name` of `path` through OPENATTR, with
    /// the same seqid, retry and recovery handling as a file open.
    #[verifier::rlimit(100)]
    #[verifier::spinoff_prover]
    fn open_named_attr(&mut self, path: &str, name: &str, share_access: u32, openhow: OpenHow, create_dir: bool) -> (r: Result<OpenedFile>)
        ensures
            !spec_named_attr_name_ok(name@) ==> r is Err,
            !path_ok(path@) ==> r is Err,
            r matches Ok(o) ==> opened_by(final(self).spec_last_open(), name@, share_access, old(self).spec_open_owner(), openhow, o)
                && final(self).spec_last_open().0.len() >= 3
                && final(self).spec_last_open().0[final(self).spec_last_open().0.len() - 3] == (Operation::OpenAttr { create_dir }),
    {
        validate_named_attr_name(name)?;
        let owner = copy_bytes(self.open_owner.as_slice());
        let policy = self.retry_policy;
        let mut retry: u32 = 0;
        let mut recovered_session = false;
        loop
            invariant
                retry <= policy.max_retries,
                spec_named_attr_name_ok(name@),
                owner@ == old(self).open_owner@,
            decreases (if recovered_session { 0int } else { 1int }), policy.max_retries - retry,
        {
            let seqid = self.current_open_seqid();
            let args = open_args(seqid, share_access, self.client_id, owner.as_slice(), openhow.clone(), OpenClaim::Null(name.to_owned()));
            let tail = vec![Operation::OpenAttr { create_dir }, Operation::Open(args), Operation::GetFh];
            let ghost tail_ops = tail@;
            let ops = path_ops(path, tail)?;
            let ghost sent = ops@;
            proof {
                let k = sent.len() - 3;
                assert(sent.subrange(k, sent.len() as int) == tail_ops);
                assert(sent[k] == tail_ops[0] && sent[k + 1] == tail_ops[1] && sent[k + 2] == tail_ops[2]);
            }
            let response = match self.compound_status(ops) {
                Ok(response) => response,
                Err(err) => {
                    if err.is_session_recoverable() && !recovered_session {
                        recovered_session = true;
                        continue;
                    }
                    return Err(err);
                },
            };
            let ghost exchange = (sent, response);
            if response_consumed_owner_seqid(&response, OpCode::Open) {
                self.advance_open_seqid();
            }
            if response_operation_has_delayed_status(&response, OpCode::Open) {
                if let Some(delay) = policy.delay_for_retry(retry) {
                    retry = retry + 1;
                    self.rpc.pause(delay);
                    continue;
                }
            }
            if response_operation_requires_session_recovery(&response, OpCode::Open) && !recovered_session {
                self.recover_session()?;
                recovered_session = true;
                continue;
            }
            if let Err(error) = response.ensure_ok() {
                return Err(self.cleanup_named_attr_open_response(path, name, &response, error));
            }
            let open = response_open(&response)?;
            let handle = match response_getfh(&response) {
                Ok(handle) => handle,
                Err(error) => {
                    let close_result = self.close_named_attr_state_by_path(path, name, open.stateid);
                    return Err(open_cleanup_error(error, close_result));
                },
            };
            let opened = OpenedFile { handle, stateid: open.stateid };
            let delegation = match validate_open_result(&open, self.minor_version) {
                Ok(delegation) => delegation,
                Err(error) => {
                    let close_result = self.close(opened);
                    return Err(open_cleanup_error(error, close_result));
                },
            };
            if let Some(delegation_stateid) = delegation {
                if let Err(error) = self.return_open_delegation(&opened.handle, delegation_stateid) {
                    let close_result = self.close(opened);
                    return Err(open_cleanup_error(error, close_result));
                }
            }
            self.last_open = Ghost(exchange);
            proof {
                assert(response_open_outcome(response, Ok(open)));
                assert(response_getfh_outcome(response, Ok(opened.handle)));
            }
            return Ok(opened);
        }
    }

    fn cleanup_named_attr_open_response(&mut self, path: &str, name: &str, response: &CompoundResponse, error: Error) -> (e: Error) {
        match response_open(response) {
            Ok(open) => {
                let closed = self.close_named_attr_state_by_path(path, name, open.stateid);
                open_cleanup_error(error, closed)
            },
            Err(_) => error,
        }
    }

    fn close_named_attr_state_by_path(&mut self, path: &str, name: &str, stateid: StateId) -> (r: Result<()>) {
        let prefix = path_ops(path, vec![Operation::OpenAttr { create_dir: false }, Operation::Lookup(name.to_owned())])?;
        self.close_with_current_filehandle(prefix, stateid)
    }

    fn finish_with_named_attr_cleanup<V>(&mut self, result: Result<V>, created: bool, path: &str, temp_name: &str, cleanup_context: &'static str) -> (r: Result<V>)
        ensures
            result is Ok ==> r == result,
            result is Err ==> r is Err,
    {
        match result {
            Ok(value) => Ok(value),
            Err(err) => {
                if created {
                    let removed = self.remove_named_attr(path, temp_name);
                    Err(cleanup_error(err, cleanup_context, removed))
                } else {
                    Err(err)
                }
            },
        }
    }

    /// Returns the attribute bitmap supported by a named attribute.
    pub fn named_attr_supported_attrs(&mut self, path: &str, name: &str) -> (r: Result<Bitmap>)
        ensures
            !spec_named_attr_name_ok(name@) ==> r is Err,
            !path_ok(path@) ==> r is Err,
            r is Ok ==> (final(self).spec_last_compound() matches Some((ops, reply))
                && named_attr_request(path@, name@, seq![ops.last()], ops) && ends_with_getattr_of(ops, seq![FATTR4_SUPPORTED_ATTRS])
                && reply.status == Status::NfsOk),
    {
        let attrs = supported_attrs_mask();
        let ops = named_attr_ops(path, name, one_op(Operation::GetAttr(attrs)))?;
        proof {
            let k = ops@.len() - 2;
            lemma_lookup_chain_last(ops@, Operation::PutRootFh, path_names(path@), Seq::empty(),
                seq![Operation::OpenAttr { create_dir: false }].push(ops@[k]) + seq![Operation::GetAttr(attrs)]);
        }
        let response = self.compound(ops)?;
        response_getattr(&response)?.parse_supported_attrs()
    }

    /// Reads raw NFSv4 attributes selected by `attr_request` for a named
    /// attribute; an empty request is answered without a call.
    pub fn named_attr_getattr_values(&mut self, path: &str, name: &str, attr_request: Bitmap) -> (r: Result<Fattr>)
        ensures
            !spec_named_attr_name_ok(name@) ==> r is Err,
            spec_named_attr_name_ok(name@) && attr_request.spec_is_empty()
                ==> (r matches Ok(f) && f.attrmask == attr_request && f.attr_vals@.len() == 0
                    && final(self).spec_last_compound() == old(self).spec_last_compound()),
            !attr_request.spec_is_empty() && !path_ok(path@) ==> r is Err,
            !attr_request.spec_is_empty() && r is Ok ==> (final(self).spec_last_compound() matches Some((ops, reply))
                && named_attr_request(path@, name@, seq![Operation::GetAttr(attr_request)], ops)
                && reply.status == Status::NfsOk && response_getattr_outcome(reply, r)),
    {
        validate_named_attr_name(name)?;
        if attr_request.is_empty() {
            return Ok(empty_fattr(attr_request));
        }
        let response = self.compound(named_attr_ops(path, name, one_op(Operation::GetAttr(attr_request)))?)?;
        response_getattr(&response)
    }

    /// Reads raw NFSv4 attributes for a named attribute after filtering by server support.
    pub fn named_attr_supported_attr_values(&mut self, path: &str, name: &str, attrs: &[u32]) -> (r: Result<Fattr>)
        ensures
            !spec_named_attr_name_ok(name@) ==> r is Err,
            !path_ok(path@) ==> r is Err,
            r matches Ok(f) ==> (final(self).spec_last_compound() matches Some((ops, reply))
                && named_attr_request(path@, name@, seq![ops.last()], ops) && reply.status == Status::NfsOk
                && ((ends_with_getattr_of(ops, seq![FATTR4_SUPPORTED_ATTRS]) && f.attr_vals@.len() == 0 && f.attrmask.spec_is_empty())
                    || (ends_with_getattr_within(ops, attrs@) && response_getattr_outcome(reply, r)))),
    {
        let supported = self.named_attr_supported_attrs(path, name)?;
        let mask = Bitmap::from_supported_attrs(&supported, attrs)?;
        proof {
            assert forall|a: u32| #[trigger] mask.has(a) implies attrs@.contains(a) by {
                attrs@.lemma_filter_contains_rev(in_bitmap(supported), a);
            }
        }
        let ghost asked = mask;
        let values = self.named_attr_getattr_values(path, name, mask);
        proof {
            if !asked.spec_is_empty() && values is Ok {
                let ops = self.spec_last_compound()->Some_0.0;
                let k = ops.len() - 2;
                lemma_lookup_chain_last(ops, Operation::PutRootFh, path_names(path@), Seq::empty(),
                    seq![Operation::OpenAttr { create_dir: false }].push(ops[k]) + seq![Operation::GetAttr(asked)]);
            }
        }
        values
    }

    /// Reads basic attributes for a named attribute.
    pub fn named_attr_metadata(&mut self, path: &str, name: &str) -> (r: Result<BasicAttributes>)
        ensures
            !spec_named_attr_name_ok(name@) ==> r is Err,
            !path_ok(path@) ==> r is Err,
            r is Ok ==> (final(self).spec_last_compound() matches Some((ops, reply))
                && named_attr_request(path@, name@, seq![ops.last()], ops) && reply.status == Status::NfsOk
                && attr_read_sent(ops, FATTR4_BASIC_ATTRS@)),
    {
        self.named_attr_supported_attr_values(path, name, &FATTR4_BASIC_ATTRS)?.parse_basic()
    }

    /// Returns whether a named attribute exists.
    pub fn named_attr_exists(&mut self, path: &str, name: &str) -> (r: Result<bool>)
        ensures
            r == Ok::<bool, Error>(true) ==> (final(self).spec_last_compound() matches Some((ops, reply))
                && named_attr_request(path@, name@, seq![ops.last()], ops) && reply.status == Status::NfsOk
                && attr_read_sent(ops, FATTR4_BASIC_ATTRS@)),
    {
        let result = match self.named_attr_metadata(path, name) {
            Ok(_) => Ok(()),
            Err(e) => Err(e),
        };
        removed_if_exists(result)
    }

    /// Reads a named attribute value into memory.
    pub fn read_named_attr(&mut self, path: &str, name: &str) -> (r: Result<Vec<u8>>)
        ensures
            !spec_named_attr_name_ok(name@) ==> r is Err,
            r is Ok ==> ended_with_close(final(self).spec_last_compound()),
            !path_ok(path@) ==> r is Err,
    {
        let opened = self.open_named_attr(path, name, OPEN4_SHARE_ACCESS_READ, OpenHow::NoCreate, false)?;
        let result = self.read_opened_to_end(&opened);
        let close_result = self.close(opened);
        finish_with_close(result, close_result)
    }

    /// Streams a named attribute value into `writer`.
    pub fn read_named_attr_to_writer<W: ByteSink>(&mut self, path: &str, name: &str, writer: &mut W) -> (r: Result<u64>)
        ensures
            !spec_named_attr_name_ok(name@) ==> r is Err,
            r is Ok ==> ended_with_close(final(self).spec_last_compound()),
            !path_ok(path@) ==> r is Err,
    {
        let opened = self.open_named_attr(path, name, OPEN4_SHARE_ACCESS_READ, OpenHow::NoCreate, false)?;
        let result = self.read_opened_to_writer(&opened, writer);
        let close_result = self.close(opened);
        finish_with_close(result, close_result)
    }

    /// Streams at most `count` bytes of a named attribute from `offset` into `writer`.
    pub fn read_named_attr_range_to_writer<W: ByteSink>(&mut self, path: &str, name: &str, offset: u64, count: u64, writer: &mut W) -> (r: Result<u64>)
        ensures
            !spec_named_attr_name_ok(name@) ==> r is Err,
            r matches Ok(n) ==> n <= count,
            r is Ok ==> ended_with_close(final(self).spec_last_compound()),
            !path_ok(path@) ==> r is Err,
    {
        let opened = self.open_named_attr(path, name, OPEN4_SHARE_ACCESS_READ, OpenHow::NoCreate, false)?;
        let result = self.read_opened_range_to_writer(&opened, offset, count, writer);
        let close_result = self.close(opened);
        finish_with_close(result, close_result)
    }

    /// Reads at most `count` bytes of a named attribute from `offset`.
    pub fn read_named_attr_range(&mut self, path: &str, name: &str, offset: u64, count: u64) -> (r: Result<Vec<u8>>)
        ensures
            !spec_named_attr_name_ok(name@) ==> r is Err,
            r is Ok ==> ended_with_close(final(self).spec_last_compound()),
            !path_ok(path@) ==> r is Err,
    {
        let opened = self.open_named_attr(path, name, OPEN4_SHARE_ACCESS_READ, OpenHow::NoCreate, false)?;
        let result = self.read_opened_range_vec(&opened, offset, count);
        let close_result = self.close(opened);
        finish_with_close(result, close_result)
    }

    /// Reads up to `count` bytes from a named attribute at `offset`.
    pub fn read_named_attr_at(&mut self, path: &str, name: &str, offset: u64, count: u32) -> (r: Result<Vec<u8>>)
        ensures
            !spec_named_attr_name_ok(name@) ==> r is Err,
            r is Ok ==> ended_with_close(final(self).spec_last_compound()),
            !path_ok(path@) ==> r is Err,
    {
        let opened = self.open_named_attr(path, name, OPEN4_SHARE_ACCESS_READ, OpenHow::NoCreate, false)?;
        let result = self.read_opened_range(&opened, offset, count);
        let close_result = self.close(opened);
        finish_with_close(result, close_result)
    }

    /// Reads exactly `count` bytes from a named attribute at `offset`.
    pub fn read_named_attr_exact_at(&mut self, path: &str, name: &str, offset: u64, count: u32) -> (r: Result<Vec<u8>>)
        ensures
            !spec_named_attr_name_ok(name@) ==> r is Err,
            r matches Ok(data) ==> data@.len() == count,
            r is Ok ==> ended_with_close(final(self).spec_last_compound()),
    {
        let data = self.read_named_attr_at(path, name, offset, count)?;
        if data.len() as u64 != count as u64 {
            return Err(protocol("NFSv4 named attribute READ reached EOF before the requested byte count"));
        }
        Ok(data)
    }

    /// Replaces or creates a named attribute value.
    pub fn write_named_attr(&mut self, path: &str, name: &str, data: &[u8]) -> (r: Result<()>)
        ensures
            !spec_named_attr_name_ok(name@) ==> r is Err,
            r is Ok ==> ended_with_close(final(self).spec_last_compound()),
    {
        self.write_named_attr_with_mode(path, name, data, DEFAULT_FILE_MODE)
    }

    /// Replaces or creates a named attribute value with an explicit mode when created.
    pub fn write_named_attr_with_mode(&mut self, path: &str, name: &str, data: &[u8], mode: u32) -> (r: Result<()>)
        ensures
            !spec_named_attr_name_ok(name@) ==> r is Err,
            r is Ok ==> ended_with_close(final(self).spec_last_compound()),
            !path_ok(path@) ==> r is Err,
    {
        let opened = self.open_named_attr(path, name, OPEN4_SHARE_ACCESS_BOTH, OpenHow::Unchecked(Fattr::mode(mode)), true)?;
        let result = match self.set_opened_size(&opened, 0) {
            Ok(()) => self.write_opened_at(&opened, 0, data),
            Err(e) => Err(e),
        };
        let close_result = self.close(opened);
        finish_with_close(result, close_result)
    }

    /// Replaces or creates a named attribute by streaming from `reader`.
    pub fn write_named_attr_from_reader<R: ByteSource>(&mut self, path: &str, name: &str, reader: &mut R) -> (r: Result<u64>)
        ensures
            !spec_named_attr_name_ok(name@) ==> r is Err,
            r is Ok ==> ended_with_close(final(self).spec_last_compound()),
    {
        self.write_named_attr_from_reader_with_mode(path, name, reader, DEFAULT_FILE_MODE)
    }

    /// Replaces or creates a named attribute from `reader` with an explicit mode.
    pub fn write_named_attr_from_reader_with_mode<R: ByteSource>(&mut self, path: &str, name: &str, reader: &mut R, mode: u32) -> (r: Result<u64>)
        ensures
            !spec_named_attr_name_ok(name@) ==> r is Err,
            r is Ok ==> ended_with_close(final(self).spec_last_compound()),
            !path_ok(path@) ==> r is Err,
    {
        let opened = self.open_named_attr(path, name, OPEN4_SHARE_ACCESS_BOTH, OpenHow::Unchecked(Fattr::mode(mode)), true)?;
        let result = match self.set_opened_size(&opened, 0) {
            Ok(()) => self.write_opened_from_reader(&opened, reader),
            Err(e) => Err(e),
        };
        let close_result = self.close(opened);
        finish_with_close(result, close_result)
    }

    /// A fresh temporary named-attribute name.
    fn next_temp_named_attr_name(&mut self) -> (name: String) {
        let (pid, nanos, counter) = self.next_temp_parts();
        temporary_named_attr_name(pid, nanos, counter)
    }

    /// Replaces or creates a named attribute through a temporary attribute.
    pub fn write_named_attr_atomic(&mut self, path: &str, name: &str, data: &[u8]) -> (r: Result<()>)
        ensures
            !spec_named_attr_name_ok(name@) ==> r is Err,
    {
        self.write_named_attr_atomic_with_mode(path, name, data, DEFAULT_FILE_MODE)
    }

    /// Atomic named attribute write with an explicit mode for the temporary attribute.
    pub fn write_named_attr_atomic_with_mode(&mut self, path: &str, name: &str, data: &[u8], mode: u32) -> (r: Result<()>)
        ensures
            !spec_named_attr_name_ok(name@) ==> r is Err,
    {
        validate_named_attr_name(name)?;
        let temp_name = self.next_temp_named_attr_name();
        let mut created = false;
        let result = match self.open_named_attr(path, temp_name.as_str(), OPEN4_SHARE_ACCESS_BOTH, OpenHow::Guarded(Fattr::mode(mode)), true) {
            Ok(opened) => {
                created = true;
                let write_result = self.write_opened_at(&opened, 0, data);
                let close_result = self.close(opened);
                match finish_with_close(write_result, close_result) {
                    Ok(()) => self.rename_named_attr(path, temp_name.as_str(), name),
                    Err(err) => Err(err),
                }
            },
            Err(err) => Err(err),
        };
        self.finish_with_named_attr_cleanup(result, created, path, temp_name.as_str(), "cleanup REMOVE named attribute after failed atomic write")
    }

    /// Atomically writes a named attribute by streaming from `reader`.
    pub fn write_named_attr_atomic_from_reader<R: ByteSource>(&mut self, path: &str, name: &str, reader: &mut R) -> (r: Result<u64>)
        ensures
            !spec_named_attr_name_ok(name@) ==> r is Err,
    {
        self.write_named_attr_atomic_from_reader_with_mode(path, name, reader, DEFAULT_FILE_MODE)
    }

    /// Atomic streamed named attribute write with an explicit temporary mode.
    pub fn write_named_attr_atomic_from_reader_with_mode<R: ByteSource>(&mut self, path: &str, name: &str, reader: &mut R, mode: u32) -> (r: Result<u64>)
        ensures
            !spec_named_attr_name_ok(name@) ==> r is Err,
    {
        validate_named_attr_name(name)?;
        let temp_name = self.next_temp_named_attr_name();
        let mut created = false;
        let result = match self.open_named_attr(path, temp_name.as_str(), OPEN4_SHARE_ACCESS_BOTH, OpenHow::Guarded(Fattr::mode(mode)), true) {
            Ok(opened) => {
                created = true;
                let write_result = self.write_opened_from_reader(&opened, reader);
                let close_result = self.close(opened);
                match finish_with_close(write_result, close_result) {
                    Ok(written) => match self.rename_named_attr(path, temp_name.as_str(), name) {
                        Ok(()) => Ok(written),
                        Err(e) => Err(e),
                    },
                    Err(err) => Err(err),
                }
            },
            Err(err) => Err(err),
        };
        self.finish_with_named_attr_cleanup(result, created, path, temp_name.as_str(), "cleanup REMOVE named attribute after failed atomic reader write")
    }

    /// Writes bytes to an existing named attribute at `offset`.
    pub fn write_named_attr_at(&mut self, path: &str, name: &str, offset: u64, data: &[u8]) -> (r: Result<()>)
        ensures
            !spec_named_attr_name_ok(name@) ==> r is Err,
            r is Ok ==> ended_with_close(final(self).spec_last_compound()),
            !path_ok(path@) ==> r is Err,
    {
        let opened = self.open_named_attr(path, name, OPEN4_SHARE_ACCESS_WRITE, OpenHow::NoCreate, false)?;
        let result = self.write_opened_at(&opened, offset, data);
        let close_result = self.close(opened);
        finish_with_close(result, close_result)
    }

    /// Appends bytes to an existing named attribute and returns the number written.
    pub fn append_named_attr(&mut self, path: &str, name: &str, data: &[u8]) -> (r: Result<u64>)
        ensures
            !spec_named_attr_name_ok(name@) ==> r is Err,
            r matches Ok(n) ==> n == data@.len(),
            r is Ok ==> ended_with_close(final(self).spec_last_compound()),
            !path_ok(path@) ==> r is Err,
    {
        let offset = match self.named_attr_metadata(path, name)?.size {
            Some(size) => size,
            None => return Err(protocol("NFSv4 named attribute size attribute is required for append")),
        };
        let opened = self.open_named_attr(path, name, OPEN4_SHARE_ACCESS_WRITE, OpenHow::NoCreate, false)?;
        let result = match self.write_opened_at(&opened, offset, data) {
            Ok(()) => {
                let mut written: u64 = 0;
                match advance_offset(&mut written, data.len(), "NFSv4 named attribute APPEND") {
                    Ok(()) => Ok(written),
                    Err(e) => Err(e),
                }
            },
            Err(e) => Err(e),
        };
        let close_result = self.close(opened);
        finish_with_close(result, close_result)
    }

    /// Appends bytes from `reader` to an existing named attribute.
    pub fn append_named_attr_from_reader<R: ByteSource>(&mut self, path: &str, name: &str, reader: &mut R) -> (r: Result<u64>)
        ensures
            !spec_named_attr_name_ok(name@) ==> r is Err,
            r is Ok ==> ended_with_close(final(self).spec_last_compound()),
            !path_ok(path@) ==> r is Err,
    {
        let offset = match self.named_attr_metadata(path, name)?.size {
            Some(size) => size,
            None => return Err(protocol("NFSv4 named attribute size attribute is required for append")),
        };
        let opened = self.open_named_attr(path, name, OPEN4_SHARE_ACCESS_WRITE, OpenHow::NoCreate, false)?;
        let result = self.write_opened_from_reader_at(&opened, offset, reader);
        let close_result = self.close(opened);
        finish_with_close(result, close_result)
    }

    /// Copies one named attribute value, replacing or creating the destination.
    pub fn copy_named_attr(&mut self, from_path: &str, from_name: &str, to_path: &str, to_name: &str) -> (r: Result<u64>)
        ensures
            !spec_named_attr_name_ok(from_name@) ==> r is Err,
            !path_ok(from_path@) ==> r is Err,
    {
        let mode = copy_mode(self.named_attr_metadata(from_path, from_name)?.mode);
        let source = self.open_named_attr(from_path, from_name, OPEN4_SHARE_ACCESS_READ, OpenHow::NoCreate, false)?;
        let target = match self.open_named_attr(to_path, to_name, OPEN4_SHARE_ACCESS_BOTH, OpenHow::Unchecked(Fattr::mode(mode)), true) {
            Ok(target) => target,
            Err(err) => {
                let closed = self.close(source);
                return Err(cleanup_error(err, "cleanup CLOSE source after failed named attribute target OPEN", closed));
            },
        };
        if let Err(error) = ensure_distinct_copy_handles(&source.handle, &target.handle) {
            let target_close = self.close(target);
            let source_close = self.close(source);
            return Err(cleanup_error(error, "cleanup CLOSE after rejected same named attribute copy", both_closed(target_close, source_close)));
        }
        let result = match self.set_opened_size(&target, 0) {
            Ok(()) => self.copy_opened(&source, &target),
            Err(e) => Err(e),
        };
        let target_close = self.close(target);
        let source_close = self.close(source);
        let close_result = both_closed(target_close, source_close);
        match result {
            Ok(copied) => {
                close_result?;
                Ok(copied)
            },
            Err(err) => Err(cleanup_error(err, "cleanup CLOSE after failed named attribute COPY", close_result)),
        }
    }

    /// Copies one named attribute through a temporary destination attribute.
    pub fn copy_named_attr_atomic(&mut self, from_path: &str, from_name: &str, to_path: &str, to_name: &str) -> (r: Result<u64>)
        ensures
            !spec_named_attr_name_ok(to_name@) ==> r is Err,
    {
        validate_named_attr_name(to_name)?;
        let mode = copy_mode(self.named_attr_metadata(from_path, from_name)?.mode);
        let temp_name = self.next_temp_named_attr_name();
        let source = self.open_named_attr(from_path, from_name, OPEN4_SHARE_ACCESS_READ, OpenHow::NoCreate, false)?;
        let target = match self.open_named_attr(to_path, temp_name.as_str(), OPEN4_SHARE_ACCESS_BOTH, OpenHow::Guarded(Fattr::mode(mode)), true) {
            Ok(target) => target,
            Err(err) => {
                let closed = self.close(source);
                return Err(cleanup_error(err, "cleanup CLOSE source after failed atomic named attribute target OPEN", closed));
            },
        };
        let copy_result = match ensure_distinct_copy_handles(&source.handle, &target.handle) {
            Ok(()) => self.copy_opened(&source, &target),
            Err(err) => Err(err),
        };
        let target_close = self.close(target);
        let source_close = self.close(source);
        let close_result = both_closed(target_close, source_close);
        let result = match copy_result {
            Ok(copied) => match close_result {
                Ok(()) => match self.rename_named_attr(to_path, temp_name.as_str(), to_name) {
                    Ok(()) => Ok(copied),
                    Err(e) => Err(e),
                },
                Err(e) => Err(e),
            },
            Err(err) => Err(cleanup_error(err, "cleanup CLOSE after failed atomic named attribute COPY", close_result)),
        };
        self.finish_with_named_attr_cleanup(result, true, to_path, temp_name.as_str(), "cleanup REMOVE named attribute after failed atomic copy")
    }

    /// Updates attributes for an existing named attribute; nothing is sent
    /// when no attribute is set.
    pub fn set_named_attr_attrs(&mut self, path: &str, name: &str, attrs: &SetAttrs) -> (r: Result<()>)
        ensures
            r is Ok ==> ended_with_close(final(self).spec_last_compound())
                || final(self).spec_last_compound() == old(self).spec_last_compound(),
    {
        let attrs = Fattr::from_set_attrs(attrs)?;
        if attrs.attrmask.is_empty() {
            return Ok(());
        }
        let opened = self.open_named_attr(path, name, OPEN4_SHARE_ACCESS_WRITE, OpenHow::NoCreate, false)?;
        let result = self.set_opened_attrs(&opened, attrs);
        let close_result = self.close(opened);
        finish_with_close(result, close_result)
    }

    /// Sets the mode bits for an existing named attribute.
    pub fn set_named_attr_mode(&mut self, path: &str, name: &str, mode: u32) -> (r: Result<()>)
        ensures
            r is Ok ==> ended_with_close(final(self).spec_last_compound()) || final(self).spec_last_compound() == old(self).spec_last_compound(),
    {
        self.set_named_attr_attrs(path, name, &SetAttrs::mode(mode))
    }

    /// Sets ownership for an existing named attribute.
    pub fn set_named_attr_ownership(&mut self, path: &str, name: &str, owner: &str, owner_group: &str) -> (r: Result<()>)
        ensures
            r is Ok ==> ended_with_close(final(self).spec_last_compound()) || final(self).spec_last_compound() == old(self).spec_last_compound(),
    {
        self.set_named_attr_attrs(path, name, &SetAttrs::ownership(owner, owner_group))
    }

    /// Sets access and modification times for an existing named attribute.
    pub fn set_named_attr_times(&mut self, path: &str, name: &str, access_time: Option<NfsTime>, modify_time: Option<NfsTime>) -> (r: Result<()>)
        ensures
            r is Ok ==> ended_with_close(final(self).spec_last_compound()) || final(self).spec_last_compound() == old(self).spec_last_compound(),
    {
        self.set_named_attr_attrs(path, name, &SetAttrs::times(access_time, modify_time))
    }

    /// Truncates an existing named attribute value.
    pub fn truncate_named_attr(&mut self, path: &str, name: &str, size: u64) -> (r: Result<()>)
        ensures
            r is Ok ==> ended_with_close(final(self).spec_last_compound()) || final(self).spec_last_compound() == old(self).spec_last_compound(),
    {
        self.set_named_attr_attrs(path, name, &SetAttrs::size(size))
    }

    /// Renames a named attribute on a path.
    pub fn rename_named_attr(&mut self, path: &str, from_name: &str, to_name: &str) -> (r: Result<()>)
        ensures
            !spec_named_attr_name_ok(from_name@) || !spec_named_attr_name_ok(to_name@) ==> r is Err,
            !path_ok(path@) ==> r is Err,
            r is Ok ==> (final(self).spec_last_compound() matches Some((ops, reply))
                && path_request(path@, seq![Operation::OpenAttr { create_dir: false }, Operation::SaveFh, ops.last()], ops)
                && (ops.last() matches Operation::Rename { oldname, newname } && oldname@ == from_name@ && newname@ == to_name@)
                && reply.status == Status::NfsOk && last_result_ok(reply)),
    {
        validate_named_attr_name(from_name)?;
        validate_named_attr_name(to_name)?;
        let rename = Operation::Rename { oldname: from_name.to_owned(), newname: to_name.to_owned() };
        let ops = path_ops(path, three_ops(Operation::OpenAttr { create_dir: false }, Operation::SaveFh, rename))?;
        proof {
            lemma_lookup_chain_last(ops@, Operation::PutRootFh, path_names(path@), Seq::empty(),
                seq![Operation::OpenAttr { create_dir: false }, Operation::SaveFh, rename]);
        }
        let response = self.compound(ops)?;
        self.ensure_status(response, "RENAME")
    }

    /// Renames a named attribute if it exists; `Ok(false)` when it did not.
    pub fn rename_named_attr_if_exists(&mut self, path: &str, from_name: &str, to_name: &str) -> (r: Result<bool>)
        ensures
            r == Ok::<bool, Error>(true) ==> (final(self).spec_last_compound() matches Some((ops, reply))
                && path_request(path@, seq![Operation::OpenAttr { create_dir: false }, Operation::SaveFh, ops.last()], ops)
                && (ops.last() matches Operation::Rename { oldname, newname } && oldname@ == from_name@ && newname@ == to_name@)
                && reply.status == Status::NfsOk && last_result_ok(reply)),
    {
        let result = self.rename_named_attr(path, from_name, to_name);
        removed_if_exists(result)
    }

    /// Removes a named attribute from a path.
    pub fn remove_named_attr(&mut self, path: &str, name: &str) -> (r: Result<()>)
        ensures
            !spec_named_attr_name_ok(name@) ==> r is Err,
            !path_ok(path@) ==> r is Err,
            r is Ok ==> (final(self).spec_last_compound() matches Some((ops, reply))
                && path_request(path@, seq![Operation::OpenAttr { create_dir: false }, ops.last()], ops)
                && (ops.last() matches Operation::Remove(n) && n@ == name@)
                && reply.status == Status::NfsOk && last_result_ok(reply)),
    {
        validate_named_attr_name(name)?;
        let remove = Operation::Remove(name.to_owned());
        let ops = path_ops(path, two_ops(Operation::OpenAttr { create_dir: false }, remove))?;
        proof {
            lemma_lookup_chain_last(ops@, Operation::PutRootFh, path_names(path@), Seq::empty(),
                seq![Operation::OpenAttr { create_dir: false }, remove]);
        }
        let response = self.compound(ops)?;
        self.ensure_status(response, "REMOVE")
    }

    /// Removes a named attribute if it exists; `Ok(false)` when it did not.
    pub fn remove_named_attr_if_exists(&mut self, path: &str, name: &str) -> (r: Result<bool>)
        ensures
            r == Ok::<bool, Error>(true) ==> (final(self).spec_last_compound() matches Some((ops, reply))
                && path_request(path@, seq![Operation::OpenAttr { create_dir: false }, ops.last()], ops)
                && (ops.last() matches Operation::Remove(n) && n@ == name@)
                && reply.status == Status::NfsOk && last_result_ok(reply)),
    {
        let result = self.remove_named_attr(path, name);
        removed_if_exists(result)
    }
}


} // verus!
