//! NFSv4 wire types and COMPOUND operation structures, with their XDR
//! encodings.
use vstd::prelude::*;
use crate::error::{Error, Result};
use crate::rpc::AuthSys;
use crate::xdr::{XdrError, Encoder, Decoder, Encode, Decode, be_u32, be_u64, be_bool, pad_len, u32_of_be, u64_of_be, u32_array_body, lemma_u32_bytes_of_value, lemma_u32_roundtrip, lemma_u64_roundtrip, law_u32_read_back, law_u64_read_back, law_opaque_read_back, holds_encoding, lemma_opaque_at, lemma_u32_array_body_injective, lemma_u32_array_body_len, var_opaque, fixed_opaque, array_bytes, array_encodable, optional_bytes, optional_encodable};
use vstd::utf8::*;

verus! {

broadcast use crate::xdr::group_prefix;

pub const NFS4_PROGRAM: u32 = 100003;
pub const NFS4_VERSION: u32 = 4;
pub const NFS4_PORT: u16 = 2049;
pub const NFS4_MINOR_VERSION_SESSION_MIN: u32 = 1;
pub const NFS4_MINOR_VERSION_V42: u32 = 2;
pub const NFS4_MINOR_VERSION_LATEST: u32 = 2;

pub const NFS4_FHSIZE: usize = 128;
pub const NFS4_VERIFIER_SIZE: usize = 8;
pub const NFS4_OPAQUE_LIMIT: usize = 1024;
pub const NFS4_SESSIONID_SIZE: usize = 16;
pub const NFS4_DEVICEID_SIZE: usize = 16;
pub const NFS4_MAX_OPS: usize = 128;
pub const NFS4_MAX_IO: usize = 64 * 1024 * 1024;
pub const NFS4_MAX_DIR_ENTRIES: usize = 1_000_000;
pub const NFS4_MAX_READ_PLUS_SEGMENTS: usize = 1_000_000;
pub const NFS4_MAX_SECINFO_FLAVORS: usize = 128;
pub const NFS4_MAX_NETLOCATIONS: usize = 128;
pub const NFS4_MAX_CALLBACK_SEC_PARMS: usize = 16;
pub const NFS4_MAX_DEVICEIDS: usize = 1_000_000;
pub const NFS4_MAX_LAYOUTS: usize = 1_000_000;
pub const NFS4_MAX_LAYOUT_ERRORS: usize = 1_000_000;
pub const NFS4_INT64_MAX: i64 = 0x7fff_ffff_ffff_ffff;
pub const NFS4_UINT64_MAX: u64 = 0xffff_ffff_ffff_ffff;
pub const NFS4_INT32_MAX: i32 = 0x7fff_ffff;
pub const NFS4_UINT32_MAX: u32 = 0xffff_ffff;
pub const NFS4_MAXFILELEN: u64 = 0xffff_ffff_ffff_ffff;
pub const NFS4_MAXFILEOFF: u64 = 0xffff_ffff_ffff_fffe;
pub const NFS4_NSECONDS_PER_SECOND: u32 = 1_000_000_000;

/// Channel size the client proposes for session requests and replies.
pub const DEFAULT_SESSION_CHANNEL_SIZE: u32 = 1024 * 1024;
/// The most bitmap words the client builds or accepts.
pub const NFS4_MAX_BITMAP_WORDS: usize = 128;
const NFS4_MAX_STATE_PROTECT_HANDLES: usize = 1024;

pub const FATTR4_SUPPORTED_ATTRS: u32 = 0;
pub const FATTR4_TYPE: u32 = 1;
pub const FATTR4_FH_EXPIRE_TYPE: u32 = 2;
pub const FATTR4_CHANGE: u32 = 3;
pub const FATTR4_SIZE: u32 = 4;
pub const FATTR4_LINK_SUPPORT: u32 = 5;
pub const FATTR4_SYMLINK_SUPPORT: u32 = 6;
pub const FATTR4_NAMED_ATTR: u32 = 7;
pub const FATTR4_FSID: u32 = 8;
pub const FATTR4_UNIQUE_HANDLES: u32 = 9;
pub const FATTR4_LEASE_TIME: u32 = 10;
pub const FATTR4_RDATTR_ERROR: u32 = 11;
pub const FATTR4_ACL: u32 = 12;
pub const FATTR4_ACLSUPPORT: u32 = 13;
pub const FATTR4_ARCHIVE: u32 = 14;
pub const FATTR4_CANSETTIME: u32 = 15;
pub const FATTR4_CASE_INSENSITIVE: u32 = 16;
pub const FATTR4_CASE_PRESERVING: u32 = 17;
pub const FATTR4_CHOWN_RESTRICTED: u32 = 18;
pub const FATTR4_FILEHANDLE: u32 = 19;
pub const FATTR4_FILEID: u32 = 20;
pub const FATTR4_FILES_AVAIL: u32 = 21;
pub const FATTR4_FILES_FREE: u32 = 22;
pub const FATTR4_FILES_TOTAL: u32 = 23;
pub const FATTR4_FS_LOCATIONS: u32 = 24;
pub const FATTR4_HIDDEN: u32 = 25;
pub const FATTR4_HOMOGENEOUS: u32 = 26;
pub const FATTR4_MAXFILESIZE: u32 = 27;
pub const FATTR4_MAXLINK: u32 = 28;
pub const FATTR4_MAXNAME: u32 = 29;
pub const FATTR4_MAXREAD: u32 = 30;
pub const FATTR4_MAXWRITE: u32 = 31;
pub const FATTR4_MIMETYPE: u32 = 32;
pub const FATTR4_MODE: u32 = 33;
pub const FATTR4_NO_TRUNC: u32 = 34;
pub const FATTR4_NUMLINKS: u32 = 35;
pub const FATTR4_OWNER: u32 = 36;
pub const FATTR4_OWNER_GROUP: u32 = 37;
pub const FATTR4_QUOTA_AVAIL_HARD: u32 = 38;
pub const FATTR4_QUOTA_AVAIL_SOFT: u32 = 39;
pub const FATTR4_QUOTA_USED: u32 = 40;
pub const FATTR4_RAWDEV: u32 = 41;
pub const FATTR4_SPACE_AVAIL: u32 = 42;
pub const FATTR4_SPACE_FREE: u32 = 43;
pub const FATTR4_SPACE_TOTAL: u32 = 44;
pub const FATTR4_SPACE_USED: u32 = 45;
pub const FATTR4_SYSTEM: u32 = 46;
pub const FATTR4_TIME_ACCESS: u32 = 47;
pub const FATTR4_TIME_ACCESS_SET: u32 = 48;
pub const FATTR4_TIME_BACKUP: u32 = 49;
pub const FATTR4_TIME_CREATE: u32 = 50;
pub const FATTR4_TIME_DELTA: u32 = 51;
pub const FATTR4_TIME_METADATA: u32 = 52;
pub const FATTR4_TIME_MODIFY: u32 = 53;
pub const FATTR4_TIME_MODIFY_SET: u32 = 54;

/// The attributes behind `BasicAttributes`.
pub const FATTR4_BASIC_ATTRS: [u32; 12] = [
    FATTR4_TYPE, FATTR4_CHANGE, FATTR4_SIZE, FATTR4_FILEID, FATTR4_MODE, FATTR4_NUMLINKS,
    FATTR4_OWNER, FATTR4_OWNER_GROUP, FATTR4_SPACE_USED, FATTR4_TIME_ACCESS, FATTR4_TIME_METADATA,
    FATTR4_TIME_MODIFY,
];

/// The attributes behind `FsStat`.
pub const FATTR4_FSSTAT_ATTRS: [u32; 6] = [
    FATTR4_FILES_AVAIL, FATTR4_FILES_FREE, FATTR4_FILES_TOTAL, FATTR4_SPACE_AVAIL, FATTR4_SPACE_FREE,
    FATTR4_SPACE_TOTAL,
];

/// The attributes behind `FsInfo`.
pub const FATTR4_FSINFO_ATTRS: [u32; 11] = [
    FATTR4_FH_EXPIRE_TYPE, FATTR4_LINK_SUPPORT, FATTR4_SYMLINK_SUPPORT, FATTR4_UNIQUE_HANDLES,
    FATTR4_LEASE_TIME, FATTR4_CANSETTIME, FATTR4_HOMOGENEOUS, FATTR4_MAXFILESIZE, FATTR4_MAXREAD,
    FATTR4_MAXWRITE, FATTR4_TIME_DELTA,
];

/// The attributes behind `PathConf`.
pub const FATTR4_PATHCONF_ATTRS: [u32; 6] = [
    FATTR4_CASE_INSENSITIVE, FATTR4_CASE_PRESERVING, FATTR4_CHOWN_RESTRICTED, FATTR4_MAXLINK,
    FATTR4_MAXNAME, FATTR4_NO_TRUNC,
];
pub const FATTR4_MOUNTED_ON_FILEID: u32 = 55;
pub const FATTR4_DIR_NOTIF_DELAY: u32 = 56;
pub const FATTR4_DIRENT_NOTIF_DELAY: u32 = 57;
pub const FATTR4_DACL: u32 = 58;
pub const FATTR4_SACL: u32 = 59;
pub const FATTR4_CHANGE_POLICY: u32 = 60;
pub const FATTR4_FS_STATUS: u32 = 61;
pub const FATTR4_FS_LAYOUT_TYPE: u32 = 62;
pub const FATTR4_LAYOUT_HINT: u32 = 63;
pub const FATTR4_LAYOUT_TYPE: u32 = 64;
pub const FATTR4_LAYOUT_BLKSIZE: u32 = 65;
pub const FATTR4_LAYOUT_ALIGNMENT: u32 = 66;
pub const FATTR4_FS_LOCATIONS_INFO: u32 = 67;
pub const FATTR4_MDSTHRESHOLD: u32 = 68;
pub const FATTR4_RETENTION_GET: u32 = 69;
pub const FATTR4_RETENTION_SET: u32 = 70;
pub const FATTR4_RETENTEVT_GET: u32 = 71;
pub const FATTR4_RETENTEVT_SET: u32 = 72;
pub const FATTR4_RETENTION_HOLD: u32 = 73;
pub const FATTR4_MODE_SET_MASKED: u32 = 74;
pub const FATTR4_SUPPATTR_EXCLCREAT: u32 = 75;
pub const FATTR4_FS_CHARSET_CAP: u32 = 76;
pub const FATTR4_CLONE_BLKSIZE: u32 = 77;
pub const FATTR4_SPACE_FREED: u32 = 78;
pub const FATTR4_CHANGE_ATTR_TYPE: u32 = 79;
pub const FATTR4_SEC_LABEL: u32 = 80;
pub const NF4REG: u32 = 1;
pub const NF4DIR: u32 = 2;
pub const NF4BLK: u32 = 3;
pub const NF4CHR: u32 = 4;
pub const NF4LNK: u32 = 5;
pub const NF4SOCK: u32 = 6;
pub const NF4FIFO: u32 = 7;
pub const EXCHGID4_FLAG_SUPP_MOVED_REFER: u32 = 0x0000_0001;
pub const EXCHGID4_FLAG_SUPP_MOVED_MIGR: u32 = 0x0000_0002;
pub const EXCHGID4_FLAG_BIND_PRINC_STATEID: u32 = 0x0000_0100;
pub const EXCHGID4_FLAG_USE_NON_PNFS: u32 = 0x0001_0000;
pub const EXCHGID4_FLAG_USE_PNFS_MDS: u32 = 0x0002_0000;
pub const EXCHGID4_FLAG_USE_PNFS_DS: u32 = 0x0004_0000;
pub const EXCHGID4_FLAG_MASK_PNFS: u32 = 0x0007_0000;
pub const EXCHGID4_FLAG_UPD_CONFIRMED_REC_A: u32 = 0x4000_0000;
pub const EXCHGID4_FLAG_CONFIRMED_R: u32 = 0x8000_0000;
pub const CREATE_SESSION4_FLAG_PERSIST: u32 = 0x0000_0001;
pub const CREATE_SESSION4_FLAG_CONN_BACK_CHAN: u32 = 0x0000_0002;
pub const CREATE_SESSION4_FLAG_CONN_RDMA: u32 = 0x0000_0004;
pub const SEQ4_STATUS_CB_PATH_DOWN: u32 = 0x0000_0001;
pub const SEQ4_STATUS_CB_GSS_CONTEXTS_EXPIRING: u32 = 0x0000_0002;
pub const SEQ4_STATUS_CB_GSS_CONTEXTS_EXPIRED: u32 = 0x0000_0004;
pub const SEQ4_STATUS_EXPIRED_ALL_STATE_REVOKED: u32 = 0x0000_0008;
pub const SEQ4_STATUS_EXPIRED_SOME_STATE_REVOKED: u32 = 0x0000_0010;
pub const SEQ4_STATUS_ADMIN_STATE_REVOKED: u32 = 0x0000_0020;
pub const SEQ4_STATUS_RECALLABLE_STATE_REVOKED: u32 = 0x0000_0040;
pub const SEQ4_STATUS_LEASE_MOVED: u32 = 0x0000_0080;
pub const SEQ4_STATUS_RESTART_RECLAIM_NEEDED: u32 = 0x0000_0100;
pub const SEQ4_STATUS_CB_PATH_DOWN_SESSION: u32 = 0x0000_0200;
pub const SEQ4_STATUS_BACKCHANNEL_FAULT: u32 = 0x0000_0400;
pub const SEQ4_STATUS_DEVID_CHANGED: u32 = 0x0000_0800;
pub const SEQ4_STATUS_DEVID_DELETED: u32 = 0x0000_1000;
pub const OPEN4_SHARE_ACCESS_READ: u32 = 0x0000_0001;
pub const OPEN4_SHARE_ACCESS_WRITE: u32 = 0x0000_0002;
pub const OPEN4_SHARE_ACCESS_BOTH: u32 = 0x0000_0003;
pub const OPEN4_SHARE_ACCESS_WANT_DELEG_MASK: u32 = 0x0000_ff00;
pub const OPEN4_SHARE_ACCESS_WANT_NO_PREFERENCE: u32 = 0x0000_0000;
pub const OPEN4_SHARE_ACCESS_WANT_READ_DELEG: u32 = 0x0000_0100;
pub const OPEN4_SHARE_ACCESS_WANT_WRITE_DELEG: u32 = 0x0000_0200;
pub const OPEN4_SHARE_ACCESS_WANT_ANY_DELEG: u32 = 0x0000_0300;
pub const OPEN4_SHARE_ACCESS_WANT_NO_DELEG: u32 = 0x0000_0400;
pub const OPEN4_SHARE_ACCESS_WANT_CANCEL: u32 = 0x0000_0500;
pub const OPEN4_SHARE_ACCESS_WANT_SIGNAL_DELEG_WHEN_RESRC_AVAIL: u32 = 0x0001_0000;
pub const OPEN4_SHARE_ACCESS_WANT_PUSH_DELEG_WHEN_UNCONTENDED: u32 = 0x0002_0000;
pub const OPEN4_SHARE_DENY_NONE: u32 = 0x0000_0000;
pub const OPEN4_SHARE_DENY_READ: u32 = 0x0000_0001;
pub const OPEN4_SHARE_DENY_WRITE: u32 = 0x0000_0002;
pub const OPEN4_SHARE_DENY_BOTH: u32 = 0x0000_0003;
pub const OPEN4_RESULT_CONFIRM: u32 = 0x0000_0002;
pub const OPEN4_RESULT_LOCKTYPE_POSIX: u32 = 0x0000_0004;
pub const OPEN4_RESULT_PRESERVE_UNLINKED: u32 = 0x0000_0008;
pub const OPEN4_RESULT_MAY_NOTIFY_LOCK: u32 = 0x0000_0020;
pub const ACCESS4_READ: u32 = 0x0001;
pub const ACCESS4_LOOKUP: u32 = 0x0002;
pub const ACCESS4_MODIFY: u32 = 0x0004;
pub const ACCESS4_EXTEND: u32 = 0x0008;
pub const ACCESS4_DELETE: u32 = 0x0010;
pub const ACCESS4_EXECUTE: u32 = 0x0020;
pub const NFS4_CONTENT_DATA: u32 = 0;
pub const NFS4_CONTENT_HOLE: u32 = 1;
pub const AUTH_NONE: u32 = 0;
pub const AUTH_SYS: u32 = 1;
pub const RPCSEC_GSS: u32 = 6;
pub const RPC_GSS_SVC_NONE: u32 = 1;
pub const RPC_GSS_SVC_INTEGRITY: u32 = 2;
pub const RPC_GSS_SVC_PRIVACY: u32 = 3;
pub const LAYOUT4_NFSV4_1_FILES: u32 = 1;
pub const LAYOUT4_OSD2_OBJECTS: u32 = 2;
pub const LAYOUT4_BLOCK_VOLUME: u32 = 3;
pub const LAYOUTIOMODE4_READ: u32 = 1;
pub const LAYOUTIOMODE4_RW: u32 = 2;
pub const LAYOUTIOMODE4_ANY: u32 = 3;
pub const LAYOUTRETURN4_FILE: u32 = 1;
pub const LAYOUTRETURN4_FSID: u32 = 2;
pub const LAYOUTRETURN4_ALL: u32 = 3;
pub const GDD4_OK: u32 = 0;
pub const GDD4_UNAVAIL: u32 = 1;

/// NFSv4 verifier.
pub type Verifier = [u8; NFS4_VERIFIER_SIZE];
/// NFSv4 session id.
pub type SessionId = [u8; NFS4_SESSIONID_SIZE];
/// NFSv4 pNFS device id.
pub type DeviceId = [u8; NFS4_DEVICEID_SIZE];

/// NFSv4 status code.
#[derive(Debug, Clone, Copy, PartialEq, Eq, Structural)]
pub enum Status {
    NfsOk,
    Perm,
    NoEnt,
    Io,
    Nxio,
    Access,
    Exist,
    Xdev,
    NotDir,
    IsDir,
    Inval,
    Fbig,
    NoSpc,
    ReadOnlyFs,
    Mlink,
    NameTooLong,
    NotEmpty,
    Dquot,
    Stale,
    Same,
    Denied,
    Expired,
    Locked,
    Grace,
    FhExpired,
    ShareDenied,
    BadHandle,
    BadCookie,
    NotSupported,
    TooSmall,
    ServerFault,
    BadType,
    Delay,
    ClidInUse,
    Resource,
    Moved,
    StaleClientId,
    StaleStateId,
    OldStateId,
    BadStateId,
    BadSeqId,
    NotSame,
    LockRange,
    Symlink,
    RestoreFh,
    LeaseMoved,
    AttrNotSupp,
    NoGrace,
    ReclaimBad,
    ReclaimConflict,
    BadXdr,
    LocksHeld,
    OpenMode,
    BadOwner,
    BadChar,
    BadName,
    BadRange,
    LockNotSupp,
    OpIllegal,
    Deadlock,
    FileOpen,
    WrongSec,
    NoFileHandle,
    MinorVersionMismatch,
    AdminRevoked,
    CbPathDown,
    BadIoMode,
    BadLayout,
    BadSessionDigest,
    BadSession,
    BadSlot,
    CompleteAlready,
    ConnNotBoundToSession,
    DelegAlreadyWanted,
    BackChanBusy,
    LayoutTryLater,
    LayoutUnavailable,
    NoMatchingLayout,
    RecallConflict,
    UnknownLayoutType,
    SeqMisordered,
    SequencePos,
    ReqTooBig,
    RepTooBig,
    RepTooBigToCache,
    RetryUncachedRep,
    UnsafeCompound,
    TooManyOps,
    SeqFalseRetry,
    OpNotInSession,
    HashAlgUnsupported,
    ClientIdBusy,
    BadHighSlot,
    DeadSession,
    EncrAlgUnsupported,
    PnfsIoHole,
    PnfsNoLayout,
    NotOnlyOp,
    WrongCred,
    WrongType,
    DirDelegUnavailable,
    RejectDeleg,
    ReturnConflict,
    DelegRevoked,
    PartnerNotSupp,
    PartnerNoAuth,
    UnionNotSupported,
    OffloadDenied,
    WrongLfs,
    BadLabel,
    OffloadNoReqs,
    Unknown(u32),
}

impl Status {
    /// The protocol number of this value.
    pub open spec fn code(self) -> u32 {
        match self {
            Status::NfsOk => 0,
            Status::Perm => 1,
            Status::NoEnt => 2,
            Status::Io => 5,
            Status::Nxio => 6,
            Status::Access => 13,
            Status::Exist => 17,
            Status::Xdev => 18,
            Status::NotDir => 20,
            Status::IsDir => 21,
            Status::Inval => 22,
            Status::Fbig => 27,
            Status::NoSpc => 28,
            Status::ReadOnlyFs => 30,
            Status::Mlink => 31,
            Status::NameTooLong => 63,
            Status::NotEmpty => 66,
            Status::Dquot => 69,
            Status::Stale => 70,
            Status::Same => 10009,
            Status::Denied => 10010,
            Status::Expired => 10011,
            Status::Locked => 10012,
            Status::Grace => 10013,
            Status::FhExpired => 10014,
            Status::ShareDenied => 10015,
            Status::BadHandle => 10001,
            Status::BadCookie => 10003,
            Status::NotSupported => 10004,
            Status::TooSmall => 10005,
            Status::ServerFault => 10006,
            Status::BadType => 10007,
            Status::Delay => 10008,
            Status::ClidInUse => 10017,
            Status::Resource => 10018,
            Status::Moved => 10019,
            Status::StaleClientId => 10022,
            Status::StaleStateId => 10023,
            Status::OldStateId => 10024,
            Status::BadStateId => 10025,
            Status::BadSeqId => 10026,
            Status::NotSame => 10027,
            Status::LockRange => 10028,
            Status::Symlink => 10029,
            Status::RestoreFh => 10030,
            Status::LeaseMoved => 10031,
            Status::AttrNotSupp => 10032,
            Status::NoGrace => 10033,
            Status::ReclaimBad => 10034,
            Status::ReclaimConflict => 10035,
            Status::BadXdr => 10036,
            Status::LocksHeld => 10037,
            Status::OpenMode => 10038,
            Status::BadOwner => 10039,
            Status::BadChar => 10040,
            Status::BadName => 10041,
            Status::BadRange => 10042,
            Status::LockNotSupp => 10043,
            Status::OpIllegal => 10044,
            Status::Deadlock => 10045,
            Status::FileOpen => 10046,
            Status::WrongSec => 10016,
            Status::NoFileHandle => 10020,
            Status::MinorVersionMismatch => 10021,
            Status::AdminRevoked => 10047,
            Status::CbPathDown => 10048,
            Status::BadIoMode => 10049,
            Status::BadLayout => 10050,
            Status::BadSessionDigest => 10051,
            Status::BadSession => 10052,
            Status::BadSlot => 10053,
            Status::CompleteAlready => 10054,
            Status::ConnNotBoundToSession => 10055,
            Status::DelegAlreadyWanted => 10056,
            Status::BackChanBusy => 10057,
            Status::LayoutTryLater => 10058,
            Status::LayoutUnavailable => 10059,
            Status::NoMatchingLayout => 10060,
            Status::RecallConflict => 10061,
            Status::UnknownLayoutType => 10062,
            Status::SeqMisordered => 10063,
            Status::SequencePos => 10064,
            Status::ReqTooBig => 10065,
            Status::RepTooBig => 10066,
            Status::RepTooBigToCache => 10067,
            Status::RetryUncachedRep => 10068,
            Status::UnsafeCompound => 10069,
            Status::TooManyOps => 10070,
            Status::SeqFalseRetry => 10076,
            Status::OpNotInSession => 10071,
            Status::HashAlgUnsupported => 10072,
            Status::ClientIdBusy => 10074,
            Status::BadHighSlot => 10077,
            Status::DeadSession => 10078,
            Status::EncrAlgUnsupported => 10079,
            Status::PnfsIoHole => 10075,
            Status::PnfsNoLayout => 10080,
            Status::NotOnlyOp => 10081,
            Status::WrongCred => 10082,
            Status::WrongType => 10083,
            Status::DirDelegUnavailable => 10084,
            Status::RejectDeleg => 10085,
            Status::ReturnConflict => 10086,
            Status::DelegRevoked => 10087,
            Status::PartnerNotSupp => 10088,
            Status::PartnerNoAuth => 10089,
            Status::UnionNotSupported => 10090,
            Status::OffloadDenied => 10091,
            Status::WrongLfs => 10092,
            Status::BadLabel => 10093,
            Status::OffloadNoReqs => 10094,
            Status::Unknown(value) => value,
        }
    }

    /// The value that a protocol number denotes.
    pub open spec fn from_code(value: u32) -> Self {
        match value {
            0 => Status::NfsOk,
            1 => Status::Perm,
            2 => Status::NoEnt,
            5 => Status::Io,
            6 => Status::Nxio,
            13 => Status::Access,
            17 => Status::Exist,
            18 => Status::Xdev,
            20 => Status::NotDir,
            21 => Status::IsDir,
            22 => Status::Inval,
            27 => Status::Fbig,
            28 => Status::NoSpc,
            30 => Status::ReadOnlyFs,
            31 => Status::Mlink,
            63 => Status::NameTooLong,
            66 => Status::NotEmpty,
            69 => Status::Dquot,
            70 => Status::Stale,
            10009 => Status::Same,
            10010 => Status::Denied,
            10011 => Status::Expired,
            10012 => Status::Locked,
            10013 => Status::Grace,
            10014 => Status::FhExpired,
            10015 => Status::ShareDenied,
            10001 => Status::BadHandle,
            10003 => Status::BadCookie,
            10004 => Status::NotSupported,
            10005 => Status::TooSmall,
            10006 => Status::ServerFault,
            10007 => Status::BadType,
            10008 => Status::Delay,
            10017 => Status::ClidInUse,
            10018 => Status::Resource,
            10019 => Status::Moved,
            10022 => Status::StaleClientId,
            10023 => Status::StaleStateId,
            10024 => Status::OldStateId,
            10025 => Status::BadStateId,
            10026 => Status::BadSeqId,
            10027 => Status::NotSame,
            10028 => Status::LockRange,
            10029 => Status::Symlink,
            10030 => Status::RestoreFh,
            10031 => Status::LeaseMoved,
            10032 => Status::AttrNotSupp,
            10033 => Status::NoGrace,
            10034 => Status::ReclaimBad,
            10035 => Status::ReclaimConflict,
            10036 => Status::BadXdr,
            10037 => Status::LocksHeld,
            10038 => Status::OpenMode,
            10039 => Status::BadOwner,
            10040 => Status::BadChar,
            10041 => Status::BadName,
            10042 => Status::BadRange,
            10043 => Status::LockNotSupp,
            10044 => Status::OpIllegal,
            10045 => Status::Deadlock,
            10046 => Status::FileOpen,
            10016 => Status::WrongSec,
            10020 => Status::NoFileHandle,
            10021 => Status::MinorVersionMismatch,
            10047 => Status::AdminRevoked,
            10048 => Status::CbPathDown,
            10049 => Status::BadIoMode,
            10050 => Status::BadLayout,
            10051 => Status::BadSessionDigest,
            10052 => Status::BadSession,
            10053 => Status::BadSlot,
            10054 => Status::CompleteAlready,
            10055 => Status::ConnNotBoundToSession,
            10056 => Status::DelegAlreadyWanted,
            10057 => Status::BackChanBusy,
            10058 => Status::LayoutTryLater,
            10059 => Status::LayoutUnavailable,
            10060 => Status::NoMatchingLayout,
            10061 => Status::RecallConflict,
            10062 => Status::UnknownLayoutType,
            10063 => Status::SeqMisordered,
            10064 => Status::SequencePos,
            10065 => Status::ReqTooBig,
            10066 => Status::RepTooBig,
            10067 => Status::RepTooBigToCache,
            10068 => Status::RetryUncachedRep,
            10069 => Status::UnsafeCompound,
            10070 => Status::TooManyOps,
            10076 => Status::SeqFalseRetry,
            10071 => Status::OpNotInSession,
            10072 => Status::HashAlgUnsupported,
            10074 => Status::ClientIdBusy,
            10077 => Status::BadHighSlot,
            10078 => Status::DeadSession,
            10079 => Status::EncrAlgUnsupported,
            10075 => Status::PnfsIoHole,
            10080 => Status::PnfsNoLayout,
            10081 => Status::NotOnlyOp,
            10082 => Status::WrongCred,
            10083 => Status::WrongType,
            10084 => Status::DirDelegUnavailable,
            10085 => Status::RejectDeleg,
            10086 => Status::ReturnConflict,
            10087 => Status::DelegRevoked,
            10088 => Status::PartnerNotSupp,
            10089 => Status::PartnerNoAuth,
            10090 => Status::UnionNotSupported,
            10091 => Status::OffloadDenied,
            10092 => Status::WrongLfs,
            10093 => Status::BadLabel,
            10094 => Status::OffloadNoReqs,
            _ => Status::Unknown(value),
        }
    }

    /// Converts a raw NFSv4 status code into [`Status`].
    pub fn from_u32(value: u32) -> (r: Self)
        ensures
            r == Self::from_code(value),
    {
        match value {
            0 => Status::NfsOk,
            1 => Status::Perm,
            2 => Status::NoEnt,
            5 => Status::Io,
            6 => Status::Nxio,
            13 => Status::Access,
            17 => Status::Exist,
            18 => Status::Xdev,
            20 => Status::NotDir,
            21 => Status::IsDir,
            22 => Status::Inval,
            27 => Status::Fbig,
            28 => Status::NoSpc,
            30 => Status::ReadOnlyFs,
            31 => Status::Mlink,
            63 => Status::NameTooLong,
            66 => Status::NotEmpty,
            69 => Status::Dquot,
            70 => Status::Stale,
            10009 => Status::Same,
            10010 => Status::Denied,
            10011 => Status::Expired,
            10012 => Status::Locked,
            10013 => Status::Grace,
            10014 => Status::FhExpired,
            10015 => Status::ShareDenied,
            10001 => Status::BadHandle,
            10003 => Status::BadCookie,
            10004 => Status::NotSupported,
            10005 => Status::TooSmall,
            10006 => Status::ServerFault,
            10007 => Status::BadType,
            10008 => Status::Delay,
            10017 => Status::ClidInUse,
            10018 => Status::Resource,
            10019 => Status::Moved,
            10022 => Status::StaleClientId,
            10023 => Status::StaleStateId,
            10024 => Status::OldStateId,
            10025 => Status::BadStateId,
            10026 => Status::BadSeqId,
            10027 => Status::NotSame,
            10028 => Status::LockRange,
            10029 => Status::Symlink,
            10030 => Status::RestoreFh,
            10031 => Status::LeaseMoved,
            10032 => Status::AttrNotSupp,
            10033 => Status::NoGrace,
            10034 => Status::ReclaimBad,
            10035 => Status::ReclaimConflict,
            10036 => Status::BadXdr,
            10037 => Status::LocksHeld,
            10038 => Status::OpenMode,
            10039 => Status::BadOwner,
            10040 => Status::BadChar,
            10041 => Status::BadName,
            10042 => Status::BadRange,
            10043 => Status::LockNotSupp,
            10044 => Status::OpIllegal,
            10045 => Status::Deadlock,
            10046 => Status::FileOpen,
            10016 => Status::WrongSec,
            10020 => Status::NoFileHandle,
            10021 => Status::MinorVersionMismatch,
            10047 => Status::AdminRevoked,
            10048 => Status::CbPathDown,
            10049 => Status::BadIoMode,
            10050 => Status::BadLayout,
            10051 => Status::BadSessionDigest,
            10052 => Status::BadSession,
            10053 => Status::BadSlot,
            10054 => Status::CompleteAlready,
            10055 => Status::ConnNotBoundToSession,
            10056 => Status::DelegAlreadyWanted,
            10057 => Status::BackChanBusy,
            10058 => Status::LayoutTryLater,
            10059 => Status::LayoutUnavailable,
            10060 => Status::NoMatchingLayout,
            10061 => Status::RecallConflict,
            10062 => Status::UnknownLayoutType,
            10063 => Status::SeqMisordered,
            10064 => Status::SequencePos,
            10065 => Status::ReqTooBig,
            10066 => Status::RepTooBig,
            10067 => Status::RepTooBigToCache,
            10068 => Status::RetryUncachedRep,
            10069 => Status::UnsafeCompound,
            10070 => Status::TooManyOps,
            10076 => Status::SeqFalseRetry,
            10071 => Status::OpNotInSession,
            10072 => Status::HashAlgUnsupported,
            10074 => Status::ClientIdBusy,
            10077 => Status::BadHighSlot,
            10078 => Status::DeadSession,
            10079 => Status::EncrAlgUnsupported,
            10075 => Status::PnfsIoHole,
            10080 => Status::PnfsNoLayout,
            10081 => Status::NotOnlyOp,
            10082 => Status::WrongCred,
            10083 => Status::WrongType,
            10084 => Status::DirDelegUnavailable,
            10085 => Status::RejectDeleg,
            10086 => Status::ReturnConflict,
            10087 => Status::DelegRevoked,
            10088 => Status::PartnerNotSupp,
            10089 => Status::PartnerNoAuth,
            10090 => Status::UnionNotSupported,
            10091 => Status::OffloadDenied,
            10092 => Status::WrongLfs,
            10093 => Status::BadLabel,
            10094 => Status::OffloadNoReqs,
            _ => Status::Unknown(value),
        }
    }

    /// Returns the raw NFSv4 status code.
    pub fn as_u32(self) -> (r: u32)
        ensures
            r == self.code(),
    {
        match self {
            Status::NfsOk => 0,
            Status::Perm => 1,
            Status::NoEnt => 2,
            Status::Io => 5,
            Status::Nxio => 6,
            Status::Access => 13,
            Status::Exist => 17,
            Status::Xdev => 18,
            Status::NotDir => 20,
            Status::IsDir => 21,
            Status::Inval => 22,
            Status::Fbig => 27,
            Status::NoSpc => 28,
            Status::ReadOnlyFs => 30,
            Status::Mlink => 31,
            Status::NameTooLong => 63,
            Status::NotEmpty => 66,
            Status::Dquot => 69,
            Status::Stale => 70,
            Status::Same => 10009,
            Status::Denied => 10010,
            Status::Expired => 10011,
            Status::Locked => 10012,
            Status::Grace => 10013,
            Status::FhExpired => 10014,
            Status::ShareDenied => 10015,
            Status::BadHandle => 10001,
            Status::BadCookie => 10003,
            Status::NotSupported => 10004,
            Status::TooSmall => 10005,
            Status::ServerFault => 10006,
            Status::BadType => 10007,
            Status::Delay => 10008,
            Status::ClidInUse => 10017,
            Status::Resource => 10018,
            Status::Moved => 10019,
            Status::StaleClientId => 10022,
            Status::StaleStateId => 10023,
            Status::OldStateId => 10024,
            Status::BadStateId => 10025,
            Status::BadSeqId => 10026,
            Status::NotSame => 10027,
            Status::LockRange => 10028,
            Status::Symlink => 10029,
            Status::RestoreFh => 10030,
            Status::LeaseMoved => 10031,
            Status::AttrNotSupp => 10032,
            Status::NoGrace => 10033,
            Status::ReclaimBad => 10034,
            Status::ReclaimConflict => 10035,
            Status::BadXdr => 10036,
            Status::LocksHeld => 10037,
            Status::OpenMode => 10038,
            Status::BadOwner => 10039,
            Status::BadChar => 10040,
            Status::BadName => 10041,
            Status::BadRange => 10042,
            Status::LockNotSupp => 10043,
            Status::OpIllegal => 10044,
            Status::Deadlock => 10045,
            Status::FileOpen => 10046,
            Status::WrongSec => 10016,
            Status::NoFileHandle => 10020,
            Status::MinorVersionMismatch => 10021,
            Status::AdminRevoked => 10047,
            Status::CbPathDown => 10048,
            Status::BadIoMode => 10049,
            Status::BadLayout => 10050,
            Status::BadSessionDigest => 10051,
            Status::BadSession => 10052,
            Status::BadSlot => 10053,
            Status::CompleteAlready => 10054,
            Status::ConnNotBoundToSession => 10055,
            Status::DelegAlreadyWanted => 10056,
            Status::BackChanBusy => 10057,
            Status::LayoutTryLater => 10058,
            Status::LayoutUnavailable => 10059,
            Status::NoMatchingLayout => 10060,
            Status::RecallConflict => 10061,
            Status::UnknownLayoutType => 10062,
            Status::SeqMisordered => 10063,
            Status::SequencePos => 10064,
            Status::ReqTooBig => 10065,
            Status::RepTooBig => 10066,
            Status::RepTooBigToCache => 10067,
            Status::RetryUncachedRep => 10068,
            Status::UnsafeCompound => 10069,
            Status::TooManyOps => 10070,
            Status::SeqFalseRetry => 10076,
            Status::OpNotInSession => 10071,
            Status::HashAlgUnsupported => 10072,
            Status::ClientIdBusy => 10074,
            Status::BadHighSlot => 10077,
            Status::DeadSession => 10078,
            Status::EncrAlgUnsupported => 10079,
            Status::PnfsIoHole => 10075,
            Status::PnfsNoLayout => 10080,
            Status::NotOnlyOp => 10081,
            Status::WrongCred => 10082,
            Status::WrongType => 10083,
            Status::DirDelegUnavailable => 10084,
            Status::RejectDeleg => 10085,
            Status::ReturnConflict => 10086,
            Status::DelegRevoked => 10087,
            Status::PartnerNotSupp => 10088,
            Status::PartnerNoAuth => 10089,
            Status::UnionNotSupported => 10090,
            Status::OffloadDenied => 10091,
            Status::WrongLfs => 10092,
            Status::BadLabel => 10093,
            Status::OffloadNoReqs => 10094,
            Status::Unknown(value) => value,
        }
    }
}


#[derive(Debug, Clone, Copy, PartialEq, Eq, Structural)]
pub enum OpCode {
    Access,
    Close,
    Commit,
    Create,
    DelegPurge,
    DelegReturn,
    GetAttr,
    GetFh,
    Link,
    Lock,
    Lockt,
    Locku,
    Lookup,
    Lookupp,
    NVerify,
    Open,
    OpenAttr,
    OpenConfirm,
    OpenDowngrade,
    PutFh,
    PutPubFh,
    PutRootFh,
    Read,
    ReadDir,
    ReadLink,
    Remove,
    Rename,
    Renew,
    RestoreFh,
    SaveFh,
    SecInfo,
    SetAttr,
    SetClientId,
    SetClientIdConfirm,
    Verify,
    Write,
    ReleaseLockOwner,
    BackchannelCtl,
    BindConnToSession,
    ExchangeId,
    CreateSession,
    DestroySession,
    FreeStateId,
    GetDirDelegation,
    GetDeviceInfo,
    GetDeviceList,
    LayoutCommit,
    LayoutGet,
    LayoutReturn,
    SecInfoNoName,
    Sequence,
    SetSsv,
    TestStateId,
    WantDelegation,
    DestroyClientId,
    ReclaimComplete,
    Allocate,
    Copy,
    CopyNotify,
    Deallocate,
    IoAdvise,
    LayoutError,
    LayoutStats,
    OffloadCancel,
    OffloadStatus,
    ReadPlus,
    Seek,
    WriteSame,
    Clone,
    Illegal,
}

impl OpCode {
    /// The protocol number of this value.
    pub open spec fn code(self) -> u32 {
        match self {
            OpCode::Access => 3,
            OpCode::Close => 4,
            OpCode::Commit => 5,
            OpCode::Create => 6,
            OpCode::DelegPurge => 7,
            OpCode::DelegReturn => 8,
            OpCode::GetAttr => 9,
            OpCode::GetFh => 10,
            OpCode::Link => 11,
            OpCode::Lock => 12,
            OpCode::Lockt => 13,
            OpCode::Locku => 14,
            OpCode::Lookup => 15,
            OpCode::Lookupp => 16,
            OpCode::NVerify => 17,
            OpCode::Open => 18,
            OpCode::OpenAttr => 19,
            OpCode::OpenConfirm => 20,
            OpCode::OpenDowngrade => 21,
            OpCode::PutFh => 22,
            OpCode::PutPubFh => 23,
            OpCode::PutRootFh => 24,
            OpCode::Read => 25,
            OpCode::ReadDir => 26,
            OpCode::ReadLink => 27,
            OpCode::Remove => 28,
            OpCode::Rename => 29,
            OpCode::Renew => 30,
            OpCode::RestoreFh => 31,
            OpCode::SaveFh => 32,
            OpCode::SecInfo => 33,
            OpCode::SetAttr => 34,
            OpCode::SetClientId => 35,
            OpCode::SetClientIdConfirm => 36,
            OpCode::Verify => 37,
            OpCode::Write => 38,
            OpCode::ReleaseLockOwner => 39,
            OpCode::BackchannelCtl => 40,
            OpCode::BindConnToSession => 41,
            OpCode::ExchangeId => 42,
            OpCode::CreateSession => 43,
            OpCode::DestroySession => 44,
            OpCode::FreeStateId => 45,
            OpCode::GetDirDelegation => 46,
            OpCode::GetDeviceInfo => 47,
            OpCode::GetDeviceList => 48,
            OpCode::LayoutCommit => 49,
            OpCode::LayoutGet => 50,
            OpCode::LayoutReturn => 51,
            OpCode::SecInfoNoName => 52,
            OpCode::Sequence => 53,
            OpCode::SetSsv => 54,
            OpCode::TestStateId => 55,
            OpCode::WantDelegation => 56,
            OpCode::DestroyClientId => 57,
            OpCode::ReclaimComplete => 58,
            OpCode::Allocate => 59,
            OpCode::Copy => 60,
            OpCode::CopyNotify => 61,
            OpCode::Deallocate => 62,
            OpCode::IoAdvise => 63,
            OpCode::LayoutError => 64,
            OpCode::LayoutStats => 65,
            OpCode::OffloadCancel => 66,
            OpCode::OffloadStatus => 67,
            OpCode::ReadPlus => 68,
            OpCode::Seek => 69,
            OpCode::WriteSame => 70,
            OpCode::Clone => 71,
            OpCode::Illegal => 10044,
        }
    }

    /// The value that a protocol number denotes.
    pub open spec fn from_code(value: u32) -> Option<Self> {
        match value {
            3 => Some(OpCode::Access),
            4 => Some(OpCode::Close),
            5 => Some(OpCode::Commit),
            6 => Some(OpCode::Create),
            7 => Some(OpCode::DelegPurge),
            8 => Some(OpCode::DelegReturn),
            9 => Some(OpCode::GetAttr),
            10 => Some(OpCode::GetFh),
            11 => Some(OpCode::Link),
            12 => Some(OpCode::Lock),
            13 => Some(OpCode::Lockt),
            14 => Some(OpCode::Locku),
            15 => Some(OpCode::Lookup),
            16 => Some(OpCode::Lookupp),
            17 => Some(OpCode::NVerify),
            18 => Some(OpCode::Open),
            19 => Some(OpCode::OpenAttr),
            20 => Some(OpCode::OpenConfirm),
            21 => Some(OpCode::OpenDowngrade),
            22 => Some(OpCode::PutFh),
            23 => Some(OpCode::PutPubFh),
            24 => Some(OpCode::PutRootFh),
            25 => Some(OpCode::Read),
            26 => Some(OpCode::ReadDir),
            27 => Some(OpCode::ReadLink),
            28 => Some(OpCode::Remove),
            29 => Some(OpCode::Rename),
            30 => Some(OpCode::Renew),
            31 => Some(OpCode::RestoreFh),
            32 => Some(OpCode::SaveFh),
            33 => Some(OpCode::SecInfo),
            34 => Some(OpCode::SetAttr),
            35 => Some(OpCode::SetClientId),
            36 => Some(OpCode::SetClientIdConfirm),
            37 => Some(OpCode::Verify),
            38 => Some(OpCode::Write),
            39 => Some(OpCode::ReleaseLockOwner),
            40 => Some(OpCode::BackchannelCtl),
            41 => Some(OpCode::BindConnToSession),
            42 => Some(OpCode::ExchangeId),
            43 => Some(OpCode::CreateSession),
            44 => Some(OpCode::DestroySession),
            45 => Some(OpCode::FreeStateId),
            46 => Some(OpCode::GetDirDelegation),
            47 => Some(OpCode::GetDeviceInfo),
            48 => Some(OpCode::GetDeviceList),
            49 => Some(OpCode::LayoutCommit),
            50 => Some(OpCode::LayoutGet),
            51 => Some(OpCode::LayoutReturn),
            52 => Some(OpCode::SecInfoNoName),
            53 => Some(OpCode::Sequence),
            54 => Some(OpCode::SetSsv),
            55 => Some(OpCode::TestStateId),
            56 => Some(OpCode::WantDelegation),
            57 => Some(OpCode::DestroyClientId),
            58 => Some(OpCode::ReclaimComplete),
            59 => Some(OpCode::Allocate),
            60 => Some(OpCode::Copy),
            61 => Some(OpCode::CopyNotify),
            62 => Some(OpCode::Deallocate),
            63 => Some(OpCode::IoAdvise),
            64 => Some(OpCode::LayoutError),
            65 => Some(OpCode::LayoutStats),
            66 => Some(OpCode::OffloadCancel),
            67 => Some(OpCode::OffloadStatus),
            68 => Some(OpCode::ReadPlus),
            69 => Some(OpCode::Seek),
            70 => Some(OpCode::WriteSame),
            71 => Some(OpCode::Clone),
            10044 => Some(OpCode::Illegal),
            _ => None,
        }
    }


    pub fn from_u32(value: u32) -> (r: Option<Self>)
        ensures
            r == Self::from_code(value),
    {
        match value {
            3 => Some(OpCode::Access),
            4 => Some(OpCode::Close),
            5 => Some(OpCode::Commit),
            6 => Some(OpCode::Create),
            7 => Some(OpCode::DelegPurge),
            8 => Some(OpCode::DelegReturn),
            9 => Some(OpCode::GetAttr),
            10 => Some(OpCode::GetFh),
            11 => Some(OpCode::Link),
            12 => Some(OpCode::Lock),
            13 => Some(OpCode::Lockt),
            14 => Some(OpCode::Locku),
            15 => Some(OpCode::Lookup),
            16 => Some(OpCode::Lookupp),
            17 => Some(OpCode::NVerify),
            18 => Some(OpCode::Open),
            19 => Some(OpCode::OpenAttr),
            20 => Some(OpCode::OpenConfirm),
            21 => Some(OpCode::OpenDowngrade),
            22 => Some(OpCode::PutFh),
            23 => Some(OpCode::PutPubFh),
            24 => Some(OpCode::PutRootFh),
            25 => Some(OpCode::Read),
            26 => Some(OpCode::ReadDir),
            27 => Some(OpCode::ReadLink),
            28 => Some(OpCode::Remove),
            29 => Some(OpCode::Rename),
            30 => Some(OpCode::Renew),
            31 => Some(OpCode::RestoreFh),
            32 => Some(OpCode::SaveFh),
            33 => Some(OpCode::SecInfo),
            34 => Some(OpCode::SetAttr),
            35 => Some(OpCode::SetClientId),
            36 => Some(OpCode::SetClientIdConfirm),
            37 => Some(OpCode::Verify),
            38 => Some(OpCode::Write),
            39 => Some(OpCode::ReleaseLockOwner),
            40 => Some(OpCode::BackchannelCtl),
            41 => Some(OpCode::BindConnToSession),
            42 => Some(OpCode::ExchangeId),
            43 => Some(OpCode::CreateSession),
            44 => Some(OpCode::DestroySession),
            45 => Some(OpCode::FreeStateId),
            46 => Some(OpCode::GetDirDelegation),
            47 => Some(OpCode::GetDeviceInfo),
            48 => Some(OpCode::GetDeviceList),
            49 => Some(OpCode::LayoutCommit),
            50 => Some(OpCode::LayoutGet),
            51 => Some(OpCode::LayoutReturn),
            52 => Some(OpCode::SecInfoNoName),
            53 => Some(OpCode::Sequence),
            54 => Some(OpCode::SetSsv),
            55 => Some(OpCode::TestStateId),
            56 => Some(OpCode::WantDelegation),
            57 => Some(OpCode::DestroyClientId),
            58 => Some(OpCode::ReclaimComplete),
            59 => Some(OpCode::Allocate),
            60 => Some(OpCode::Copy),
            61 => Some(OpCode::CopyNotify),
            62 => Some(OpCode::Deallocate),
            63 => Some(OpCode::IoAdvise),
            64 => Some(OpCode::LayoutError),
            65 => Some(OpCode::LayoutStats),
            66 => Some(OpCode::OffloadCancel),
            67 => Some(OpCode::OffloadStatus),
            68 => Some(OpCode::ReadPlus),
            69 => Some(OpCode::Seek),
            70 => Some(OpCode::WriteSame),
            71 => Some(OpCode::Clone),
            10044 => Some(OpCode::Illegal),
            _ => None,
        }
    }

    /// Returns the protocol number.
    pub fn as_u32(self) -> (r: u32)
        ensures
            r == self.code(),
    {
        match self {
            OpCode::Access => 3,
            OpCode::Close => 4,
            OpCode::Commit => 5,
            OpCode::Create => 6,
            OpCode::DelegPurge => 7,
            OpCode::DelegReturn => 8,
            OpCode::GetAttr => 9,
            OpCode::GetFh => 10,
            OpCode::Link => 11,
            OpCode::Lock => 12,
            OpCode::Lockt => 13,
            OpCode::Locku => 14,
            OpCode::Lookup => 15,
            OpCode::Lookupp => 16,
            OpCode::NVerify => 17,
            OpCode::Open => 18,
            OpCode::OpenAttr => 19,
            OpCode::OpenConfirm => 20,
            OpCode::OpenDowngrade => 21,
            OpCode::PutFh => 22,
            OpCode::PutPubFh => 23,
            OpCode::PutRootFh => 24,
            OpCode::Read => 25,
            OpCode::ReadDir => 26,
            OpCode::ReadLink => 27,
            OpCode::Remove => 28,
            OpCode::Rename => 29,
            OpCode::Renew => 30,
            OpCode::RestoreFh => 31,
            OpCode::SaveFh => 32,
            OpCode::SecInfo => 33,
            OpCode::SetAttr => 34,
            OpCode::SetClientId => 35,
            OpCode::SetClientIdConfirm => 36,
            OpCode::Verify => 37,
            OpCode::Write => 38,
            OpCode::ReleaseLockOwner => 39,
            OpCode::BackchannelCtl => 40,
            OpCode::BindConnToSession => 41,
            OpCode::ExchangeId => 42,
            OpCode::CreateSession => 43,
            OpCode::DestroySession => 44,
            OpCode::FreeStateId => 45,
            OpCode::GetDirDelegation => 46,
            OpCode::GetDeviceInfo => 47,
            OpCode::GetDeviceList => 48,
            OpCode::LayoutCommit => 49,
            OpCode::LayoutGet => 50,
            OpCode::LayoutReturn => 51,
            OpCode::SecInfoNoName => 52,
            OpCode::Sequence => 53,
            OpCode::SetSsv => 54,
            OpCode::TestStateId => 55,
            OpCode::WantDelegation => 56,
            OpCode::DestroyClientId => 57,
            OpCode::ReclaimComplete => 58,
            OpCode::Allocate => 59,
            OpCode::Copy => 60,
            OpCode::CopyNotify => 61,
            OpCode::Deallocate => 62,
            OpCode::IoAdvise => 63,
            OpCode::LayoutError => 64,
            OpCode::LayoutStats => 65,
            OpCode::OffloadCancel => 66,
            OpCode::OffloadStatus => 67,
            OpCode::ReadPlus => 68,
            OpCode::Seek => 69,
            OpCode::WriteSame => 70,
            OpCode::Clone => 71,
            OpCode::Illegal => 10044,
        }
    }
}

/// NFSv4 file type.
#[derive(Debug, Clone, Copy, PartialEq, Eq, Structural)]
pub enum FileType {
    Regular,
    Directory,
    BlockDevice,
    CharacterDevice,
    Symlink,
    Socket,
    Fifo,
    AttrDir,
    NamedAttr,
    Unknown(u32),
}

impl FileType {
    /// The protocol number of this value.
    pub open spec fn code(self) -> u32 {
        match self {
            FileType::Regular => 1,
            FileType::Directory => 2,
            FileType::BlockDevice => 3,
            FileType::CharacterDevice => 4,
            FileType::Symlink => 5,
            FileType::Socket => 6,
            FileType::Fifo => 7,
            FileType::AttrDir => 8,
            FileType::NamedAttr => 9,
            FileType::Unknown(value) => value,
        }
    }

    /// The value that a protocol number denotes.
    pub open spec fn from_code(value: u32) -> Self {
        match value {
            1 => FileType::Regular,
            2 => FileType::Directory,
            3 => FileType::BlockDevice,
            4 => FileType::CharacterDevice,
            5 => FileType::Symlink,
            6 => FileType::Socket,
            7 => FileType::Fifo,
            8 => FileType::AttrDir,
            9 => FileType::NamedAttr,
            _ => FileType::Unknown(value),
        }
    }

    /// Converts a raw `type` attribute value into [`FileType`].
    pub fn from_u32(value: u32) -> (r: Self)
        ensures
            r == Self::from_code(value),
    {
        match value {
            1 => FileType::Regular,
            2 => FileType::Directory,
            3 => FileType::BlockDevice,
            4 => FileType::CharacterDevice,
            5 => FileType::Symlink,
            6 => FileType::Socket,
            7 => FileType::Fifo,
            8 => FileType::AttrDir,
            9 => FileType::NamedAttr,
            _ => FileType::Unknown(value),
        }
    }
}

/// RPCSEC_GSS service advertised by `SECINFO`.
#[derive(Debug, Clone, Copy, PartialEq, Eq, Structural)]
pub enum RpcGssService {
    NoService,
    Integrity,
    Privacy,
    Unknown(u32),
}

impl RpcGssService {
    /// The protocol number of this value.
    pub open spec fn code(self) -> u32 {
        match self {
            RpcGssService::NoService => 1,
            RpcGssService::Integrity => 2,
            RpcGssService::Privacy => 3,
            RpcGssService::Unknown(value) => value,
        }
    }

    /// The value that a protocol number denotes.
    pub open spec fn from_code(value: u32) -> Self {
        match value {
            1 => RpcGssService::NoService,
            2 => RpcGssService::Integrity,
            3 => RpcGssService::Privacy,
            _ => RpcGssService::Unknown(value),
        }
    }

    /// Converts a protocol discriminant into [`RpcGssService`].
    pub fn from_u32(value: u32) -> (r: Self)
        ensures
            r == Self::from_code(value),
    {
        match value {
            1 => RpcGssService::NoService,
            2 => RpcGssService::Integrity,
            3 => RpcGssService::Privacy,
            _ => RpcGssService::Unknown(value),
        }
    }

    /// Returns the protocol discriminant.
    pub fn as_u32(self) -> (r: u32)
        ensures
            r == self.code(),
    {
        match self {
            RpcGssService::NoService => 1,
            RpcGssService::Integrity => 2,
            RpcGssService::Privacy => 3,
            RpcGssService::Unknown(value) => value,
        }
    }
}

/// `SECINFO_NO_NAME` selector.
#[derive(Debug, Clone, Copy, PartialEq, Eq, Structural)]
pub enum SecInfoStyle {
    CurrentFileHandle,
    Parent,
}

impl SecInfoStyle {
    /// The protocol number of this value.
    pub open spec fn code(self) -> u32 {
        match self {
            SecInfoStyle::CurrentFileHandle => 0,
            SecInfoStyle::Parent => 1,
        }
    }

    /// The value that a protocol number denotes.
    pub open spec fn from_code(value: u32) -> Option<Self> {
        match value {
            0 => Some(SecInfoStyle::CurrentFileHandle),
            1 => Some(SecInfoStyle::Parent),
            _ => None,
        }
    }

    /// Converts a protocol discriminant into [`SecInfoStyle`].
    pub fn from_u32(value: u32) -> (r: Option<Self>)
        ensures
            r == Self::from_code(value),
    {
        match value {
            0 => Some(SecInfoStyle::CurrentFileHandle),
            1 => Some(SecInfoStyle::Parent),
            _ => None,
        }
    }

    /// Returns the protocol discriminant.
    pub fn as_u32(self) -> (r: u32)
        ensures
            r == self.code(),
    {
        match self {
            SecInfoStyle::CurrentFileHandle => 0,
            SecInfoStyle::Parent => 1,
        }
    }
}

/// NFSv4.1 state protection selector used by `EXCHANGE_ID`.
#[derive(Debug, Clone, Copy, PartialEq, Eq, Structural)]
pub enum StateProtectHow {
    /// No state protection is requested.
    NoProtection,
    /// Machine credentials protect state-changing operations.
    MachineCredentials,
    /// Secret state verifier protection.
    SecretStateVerifier,
}

impl StateProtectHow {
    /// The protocol number of this value.
    pub open spec fn code(self) -> u32 {
        match self {
            StateProtectHow::NoProtection => 0,
            StateProtectHow::MachineCredentials => 1,
            StateProtectHow::SecretStateVerifier => 2,
        }
    }

    /// The value that a protocol number denotes.
    pub open spec fn from_code(value: u32) -> Option<Self> {
        match value {
            0 => Some(StateProtectHow::NoProtection),
            1 => Some(StateProtectHow::MachineCredentials),
            2 => Some(StateProtectHow::SecretStateVerifier),
            _ => None,
        }
    }

    /// Converts a protocol discriminant into [`StateProtectHow`].
    pub fn from_u32(value: u32) -> (r: Option<Self>)
        ensures
            r == Self::from_code(value),
    {
        match value {
            0 => Some(StateProtectHow::NoProtection),
            1 => Some(StateProtectHow::MachineCredentials),
            2 => Some(StateProtectHow::SecretStateVerifier),
            _ => None,
        }
    }

    /// Returns the protocol discriminant.
    pub fn as_u32(self) -> (r: u32)
        ensures
            r == self.code(),
    {
        match self {
            StateProtectHow::NoProtection => 0,
            StateProtectHow::MachineCredentials => 1,
            StateProtectHow::SecretStateVerifier => 2,
        }
    }
}

/// Direction requested by `BIND_CONN_TO_SESSION`.
#[derive(Debug, Clone, Copy, PartialEq, Eq, Structural)]
pub enum ChannelDirFromClient {
    Fore,
    Back,
    ForeOrBoth,
    BackOrBoth,
}

impl ChannelDirFromClient {
    /// The protocol number of this value.
    pub open spec fn code(self) -> u32 {
        match self {
            ChannelDirFromClient::Fore => 1,
            ChannelDirFromClient::Back => 2,
            ChannelDirFromClient::ForeOrBoth => 3,
            ChannelDirFromClient::BackOrBoth => 7,
        }
    }

    /// The value that a protocol number denotes.
    pub open spec fn from_code(value: u32) -> Option<Self> {
        match value {
            1 => Some(ChannelDirFromClient::Fore),
            2 => Some(ChannelDirFromClient::Back),
            3 => Some(ChannelDirFromClient::ForeOrBoth),
            7 => Some(ChannelDirFromClient::BackOrBoth),
            _ => None,
        }
    }

    /// Converts a protocol discriminant into [`ChannelDirFromClient`].
    pub fn from_u32(value: u32) -> (r: Option<Self>)
        ensures
            r == Self::from_code(value),
    {
        match value {
            1 => Some(ChannelDirFromClient::Fore),
            2 => Some(ChannelDirFromClient::Back),
            3 => Some(ChannelDirFromClient::ForeOrBoth),
            7 => Some(ChannelDirFromClient::BackOrBoth),
            _ => None,
        }
    }

    /// Returns the protocol discriminant.
    pub fn as_u32(self) -> (r: u32)
        ensures
            r == self.code(),
    {
        match self {
            ChannelDirFromClient::Fore => 1,
            ChannelDirFromClient::Back => 2,
            ChannelDirFromClient::ForeOrBoth => 3,
            ChannelDirFromClient::BackOrBoth => 7,
        }
    }
}

/// Direction accepted by `BIND_CONN_TO_SESSION`.
#[derive(Debug, Clone, Copy, PartialEq, Eq, Structural)]
pub enum ChannelDirFromServer {
    Fore,
    Back,
    Both,
}

impl ChannelDirFromServer {
    /// The protocol number of this value.
    pub open spec fn code(self) -> u32 {
        match self {
            ChannelDirFromServer::Fore => 1,
            ChannelDirFromServer::Back => 2,
            ChannelDirFromServer::Both => 3,
        }
    }

    /// The value that a protocol number denotes.
    pub open spec fn from_code(value: u32) -> Option<Self> {
        match value {
            1 => Some(ChannelDirFromServer::Fore),
            2 => Some(ChannelDirFromServer::Back),
            3 => Some(ChannelDirFromServer::Both),
            _ => None,
        }
    }

    /// Converts a protocol discriminant into [`ChannelDirFromServer`].
    pub fn from_u32(value: u32) -> (r: Option<Self>)
        ensures
            r == Self::from_code(value),
    {
        match value {
            1 => Some(ChannelDirFromServer::Fore),
            2 => Some(ChannelDirFromServer::Back),
            3 => Some(ChannelDirFromServer::Both),
            _ => None,
        }
    }

    /// Returns the protocol discriminant.
    pub fn as_u32(self) -> (r: u32)
        ensures
            r == self.code(),
    {
        match self {
            ChannelDirFromServer::Fore => 1,
            ChannelDirFromServer::Back => 2,
            ChannelDirFromServer::Both => 3,
        }
    }
}

/// NFSv4 OPEN create mode.
#[derive(Debug, Clone, Copy, PartialEq, Eq, Structural)]
pub enum CreateMode {
    /// Create if needed and do not fail when the object already exists.
    Unchecked,
    /// Fail with `NFS4ERR_EXIST` when the object already exists.
    Guarded,
    /// Deprecated v4.0-style exclusive create verifier.
    Exclusive,
    /// v4.1 exclusive create verifier with attributes.
    Exclusive4_1,
}

impl CreateMode {
    /// The protocol number of this value.
    pub open spec fn code(self) -> u32 {
        match self {
            CreateMode::Unchecked => 0,
            CreateMode::Guarded => 1,
            CreateMode::Exclusive => 2,
            CreateMode::Exclusive4_1 => 3,
        }
    }

    /// The value that a protocol number denotes.
    pub open spec fn from_code(value: u32) -> Option<Self> {
        match value {
            0 => Some(CreateMode::Unchecked),
            1 => Some(CreateMode::Guarded),
            2 => Some(CreateMode::Exclusive),
            3 => Some(CreateMode::Exclusive4_1),
            _ => None,
        }
    }

    /// Converts a protocol discriminant into [`CreateMode`].
    pub fn from_u32(value: u32) -> (r: Option<Self>)
        ensures
            r == Self::from_code(value),
    {
        match value {
            0 => Some(CreateMode::Unchecked),
            1 => Some(CreateMode::Guarded),
            2 => Some(CreateMode::Exclusive),
            3 => Some(CreateMode::Exclusive4_1),
            _ => None,
        }
    }

    /// Returns the protocol discriminant.
    pub fn as_u32(self) -> (r: u32)
        ensures
            r == self.code(),
    {
        match self {
            CreateMode::Unchecked => 0,
            CreateMode::Guarded => 1,
            CreateMode::Exclusive => 2,
            CreateMode::Exclusive4_1 => 3,
        }
    }
}

/// NFSv4 OPEN `openflag4` selector.
#[derive(Debug, Clone, Copy, PartialEq, Eq, Structural)]
pub enum OpenType {
    /// Open an existing object.
    NoCreate,
    /// Create the object when needed.
    Create,
}

impl OpenType {
    /// The protocol number of this value.
    pub open spec fn code(self) -> u32 {
        match self {
            OpenType::NoCreate => 0,
            OpenType::Create => 1,
        }
    }

    /// The value that a protocol number denotes.
    pub open spec fn from_code(value: u32) -> Option<Self> {
        match value {
            0 => Some(OpenType::NoCreate),
            1 => Some(OpenType::Create),
            _ => None,
        }
    }

    /// Converts a protocol discriminant into [`OpenType`].
    pub fn from_u32(value: u32) -> (r: Option<Self>)
        ensures
            r == Self::from_code(value),
    {
        match value {
            0 => Some(OpenType::NoCreate),
            1 => Some(OpenType::Create),
            _ => None,
        }
    }

    /// Returns the protocol discriminant.
    pub fn as_u32(self) -> (r: u32)
        ensures
            r == self.code(),
    {
        match self {
            OpenType::NoCreate => 0,
            OpenType::Create => 1,
        }
    }
}

/// NFSv4 OPEN delegation type.
#[derive(Debug, Clone, Copy, PartialEq, Eq, Structural)]
pub enum OpenDelegationType {
    /// No delegation was granted.
    NoDelegation,
    /// A read delegation was granted.
    Read,
    /// A write delegation was granted.
    Write,
    /// No delegation was granted, with v4.1 reason details.
    NoneExt,
}

impl OpenDelegationType {
    /// The protocol number of this value.
    pub open spec fn code(self) -> u32 {
        match self {
            OpenDelegationType::NoDelegation => 0,
            OpenDelegationType::Read => 1,
            OpenDelegationType::Write => 2,
            OpenDelegationType::NoneExt => 3,
        }
    }

    /// The value that a protocol number denotes.
    pub open spec fn from_code(value: u32) -> Option<Self> {
        match value {
            0 => Some(OpenDelegationType::NoDelegation),
            1 => Some(OpenDelegationType::Read),
            2 => Some(OpenDelegationType::Write),
            3 => Some(OpenDelegationType::NoneExt),
            _ => None,
        }
    }

    /// Converts a protocol discriminant into [`OpenDelegationType`].
    pub fn from_u32(value: u32) -> (r: Option<Self>)
        ensures
            r == Self::from_code(value),
    {
        match value {
            0 => Some(OpenDelegationType::NoDelegation),
            1 => Some(OpenDelegationType::Read),
            2 => Some(OpenDelegationType::Write),
            3 => Some(OpenDelegationType::NoneExt),
            _ => None,
        }
    }

    /// Returns the protocol discriminant.
    pub fn as_u32(self) -> (r: u32)
        ensures
            r == self.code(),
    {
        match self {
            OpenDelegationType::NoDelegation => 0,
            OpenDelegationType::Read => 1,
            OpenDelegationType::Write => 2,
            OpenDelegationType::NoneExt => 3,
        }
    }
}

/// Reason why the server did not grant an OPEN delegation.
#[derive(Debug, Clone, Copy, PartialEq, Eq, Structural)]
pub enum WhyNoDelegation {
    NotWanted,
    Contention,
    Resource,
    NotSupportedFileType,
    WriteDelegationNotSupportedFileType,
    NotSupportedUpgrade,
    NotSupportedDowngrade,
    Cancelled,
    IsDirectory,
    Unknown(u32),
}

impl WhyNoDelegation {
    /// The protocol number of this value.
    pub open spec fn code(self) -> u32 {
        match self {
            WhyNoDelegation::NotWanted => 0,
            WhyNoDelegation::Contention => 1,
            WhyNoDelegation::Resource => 2,
            WhyNoDelegation::NotSupportedFileType => 3,
            WhyNoDelegation::WriteDelegationNotSupportedFileType => 4,
            WhyNoDelegation::NotSupportedUpgrade => 5,
            WhyNoDelegation::NotSupportedDowngrade => 6,
            WhyNoDelegation::Cancelled => 7,
            WhyNoDelegation::IsDirectory => 8,
            WhyNoDelegation::Unknown(value) => value,
        }
    }

    /// The value that a protocol number denotes.
    pub open spec fn from_code(value: u32) -> Self {
        match value {
            0 => WhyNoDelegation::NotWanted,
            1 => WhyNoDelegation::Contention,
            2 => WhyNoDelegation::Resource,
            3 => WhyNoDelegation::NotSupportedFileType,
            4 => WhyNoDelegation::WriteDelegationNotSupportedFileType,
            5 => WhyNoDelegation::NotSupportedUpgrade,
            6 => WhyNoDelegation::NotSupportedDowngrade,
            7 => WhyNoDelegation::Cancelled,
            8 => WhyNoDelegation::IsDirectory,
            _ => WhyNoDelegation::Unknown(value),
        }
    }

    /// Converts a protocol discriminant into [`WhyNoDelegation`].
    pub fn from_u32(value: u32) -> (r: Self)
        ensures
            r == Self::from_code(value),
    {
        match value {
            0 => WhyNoDelegation::NotWanted,
            1 => WhyNoDelegation::Contention,
            2 => WhyNoDelegation::Resource,
            3 => WhyNoDelegation::NotSupportedFileType,
            4 => WhyNoDelegation::WriteDelegationNotSupportedFileType,
            5 => WhyNoDelegation::NotSupportedUpgrade,
            6 => WhyNoDelegation::NotSupportedDowngrade,
            7 => WhyNoDelegation::Cancelled,
            8 => WhyNoDelegation::IsDirectory,
            _ => WhyNoDelegation::Unknown(value),
        }
    }
}

/// NFSv4 OPEN claim selector.
#[derive(Debug, Clone, Copy, PartialEq, Eq, Structural)]
pub enum OpenClaimType {
    /// Ordinary OPEN by file name.
    Null,
    /// Reclaim previous open state after server restart.
    Previous,
    /// OPEN by current delegation and file name.
    DelegateCurrent,
    /// Reclaim previous delegation by file name.
    DelegatePrevious,
    /// Ordinary OPEN by current filehandle.
    FileHandle,
    /// OPEN by current delegation and current filehandle.
    DelegateCurrentFileHandle,
    /// Reclaim previous delegation by current filehandle.
    DelegatePreviousFileHandle,
}

impl OpenClaimType {
    /// The protocol number of this value.
    pub open spec fn code(self) -> u32 {
        match self {
            OpenClaimType::Null => 0,
            OpenClaimType::Previous => 1,
            OpenClaimType::DelegateCurrent => 2,
            OpenClaimType::DelegatePrevious => 3,
            OpenClaimType::FileHandle => 4,
            OpenClaimType::DelegateCurrentFileHandle => 5,
            OpenClaimType::DelegatePreviousFileHandle => 6,
        }
    }

    /// The value that a protocol number denotes.
    pub open spec fn from_code(value: u32) -> Option<Self> {
        match value {
            0 => Some(OpenClaimType::Null),
            1 => Some(OpenClaimType::Previous),
            2 => Some(OpenClaimType::DelegateCurrent),
            3 => Some(OpenClaimType::DelegatePrevious),
            4 => Some(OpenClaimType::FileHandle),
            5 => Some(OpenClaimType::DelegateCurrentFileHandle),
            6 => Some(OpenClaimType::DelegatePreviousFileHandle),
            _ => None,
        }
    }

    /// Converts a protocol discriminant into [`OpenClaimType`].
    pub fn from_u32(value: u32) -> (r: Option<Self>)
        ensures
            r == Self::from_code(value),
    {
        match value {
            0 => Some(OpenClaimType::Null),
            1 => Some(OpenClaimType::Previous),
            2 => Some(OpenClaimType::DelegateCurrent),
            3 => Some(OpenClaimType::DelegatePrevious),
            4 => Some(OpenClaimType::FileHandle),
            5 => Some(OpenClaimType::DelegateCurrentFileHandle),
            6 => Some(OpenClaimType::DelegatePreviousFileHandle),
            _ => None,
        }
    }

    /// Returns the protocol discriminant.
    pub fn as_u32(self) -> (r: u32)
        ensures
            r == self.code(),
    {
        match self {
            OpenClaimType::Null => 0,
            OpenClaimType::Previous => 1,
            OpenClaimType::DelegateCurrent => 2,
            OpenClaimType::DelegatePrevious => 3,
            OpenClaimType::FileHandle => 4,
            OpenClaimType::DelegateCurrentFileHandle => 5,
            OpenClaimType::DelegatePreviousFileHandle => 6,
        }
    }
}

/// NFSv4 byte-range lock type.
#[derive(Debug, Clone, Copy, PartialEq, Eq, Structural)]
pub enum LockType {
    /// Shared read lock.
    Read,
    /// Exclusive write lock.
    Write,
    /// Blocking shared read lock.
    ReadBlocking,
    /// Blocking exclusive write lock.
    WriteBlocking,
}

impl LockType {
    /// The protocol number of this value.
    pub open spec fn code(self) -> u32 {
        match self {
            LockType::Read => 1,
            LockType::Write => 2,
            LockType::ReadBlocking => 3,
            LockType::WriteBlocking => 4,
        }
    }

    /// The value that a protocol number denotes.
    pub open spec fn from_code(value: u32) -> Option<Self> {
        match value {
            1 => Some(LockType::Read),
            2 => Some(LockType::Write),
            3 => Some(LockType::ReadBlocking),
            4 => Some(LockType::WriteBlocking),
            _ => None,
        }
    }

    /// Converts a protocol discriminant into [`LockType`].
    pub fn from_u32(value: u32) -> (r: Option<Self>)
        ensures
            r == Self::from_code(value),
    {
        match value {
            1 => Some(LockType::Read),
            2 => Some(LockType::Write),
            3 => Some(LockType::ReadBlocking),
            4 => Some(LockType::WriteBlocking),
            _ => None,
        }
    }

    /// Returns the protocol discriminant.
    pub fn as_u32(self) -> (r: u32)
        ensures
            r == self.code(),
    {
        match self {
            LockType::Read => 1,
            LockType::Write => 2,
            LockType::ReadBlocking => 3,
            LockType::WriteBlocking => 4,
        }
    }
}

/// NFSv4.2 IO_ADVISE hint type.
#[derive(Debug, Clone, Copy, PartialEq, Eq, Structural)]
pub enum IoAdviceType {
    /// Default access behavior.
    Normal,
    /// Sequential access from lower to higher offsets.
    Sequential,
    /// Sequential access from higher to lower offsets.
    SequentialBackwards,
    /// Random access.
    Random,
    /// Data will likely be needed.
    WillNeed,
    /// Data may be needed speculatively.
    WillNeedOpportunistic,
    /// Data will likely not be needed.
    DontNeed,
    /// Data will be used once.
    NoReuse,
    /// Data will likely be read.
    Read,
    /// Data will likely be written.
    Write,
    /// Data recently accessed locally remains important.
    InitProximity,
}

impl IoAdviceType {
    /// The protocol number of this value.
    pub open spec fn code(self) -> u32 {
        match self {
            IoAdviceType::Normal => 0,
            IoAdviceType::Sequential => 1,
            IoAdviceType::SequentialBackwards => 2,
            IoAdviceType::Random => 3,
            IoAdviceType::WillNeed => 4,
            IoAdviceType::WillNeedOpportunistic => 5,
            IoAdviceType::DontNeed => 6,
            IoAdviceType::NoReuse => 7,
            IoAdviceType::Read => 8,
            IoAdviceType::Write => 9,
            IoAdviceType::InitProximity => 10,
        }
    }

    /// The value that a protocol number denotes.
    pub open spec fn from_code(value: u32) -> Option<Self> {
        match value {
            0 => Some(IoAdviceType::Normal),
            1 => Some(IoAdviceType::Sequential),
            2 => Some(IoAdviceType::SequentialBackwards),
            3 => Some(IoAdviceType::Random),
            4 => Some(IoAdviceType::WillNeed),
            5 => Some(IoAdviceType::WillNeedOpportunistic),
            6 => Some(IoAdviceType::DontNeed),
            7 => Some(IoAdviceType::NoReuse),
            8 => Some(IoAdviceType::Read),
            9 => Some(IoAdviceType::Write),
            10 => Some(IoAdviceType::InitProximity),
            _ => None,
        }
    }

    /// Converts a protocol discriminant into [`IoAdviceType`].
    pub fn from_u32(value: u32) -> (r: Option<Self>)
        ensures
            r == Self::from_code(value),
    {
        match value {
            0 => Some(IoAdviceType::Normal),
            1 => Some(IoAdviceType::Sequential),
            2 => Some(IoAdviceType::SequentialBackwards),
            3 => Some(IoAdviceType::Random),
            4 => Some(IoAdviceType::WillNeed),
            5 => Some(IoAdviceType::WillNeedOpportunistic),
            6 => Some(IoAdviceType::DontNeed),
            7 => Some(IoAdviceType::NoReuse),
            8 => Some(IoAdviceType::Read),
            9 => Some(IoAdviceType::Write),
            10 => Some(IoAdviceType::InitProximity),
            _ => None,
        }
    }

    /// Returns the protocol discriminant.
    pub fn as_u32(self) -> (r: u32)
        ensures
            r == self.code(),
    {
        match self {
            IoAdviceType::Normal => 0,
            IoAdviceType::Sequential => 1,
            IoAdviceType::SequentialBackwards => 2,
            IoAdviceType::Random => 3,
            IoAdviceType::WillNeed => 4,
            IoAdviceType::WillNeedOpportunistic => 5,
            IoAdviceType::DontNeed => 6,
            IoAdviceType::NoReuse => 7,
            IoAdviceType::Read => 8,
            IoAdviceType::Write => 9,
            IoAdviceType::InitProximity => 10,
        }
    }
}

/// NFSv4 write stability requested or reported by the server.
#[derive(Debug, Clone, Copy, PartialEq, Eq, Structural)]
pub enum StableHow {
    /// Server may cache data without committing it to stable storage.
    Unstable,
    /// Server commits file data, but not necessarily metadata.
    DataSync,
    /// Server commits file data and metadata.
    FileSync,
}

impl StableHow {
    /// The protocol number of this value.
    pub open spec fn code(self) -> u32 {
        match self {
            StableHow::Unstable => 0,
            StableHow::DataSync => 1,
            StableHow::FileSync => 2,
        }
    }

    /// The value that a protocol number denotes.
    pub open spec fn from_code(value: u32) -> Option<Self> {
        match value {
            0 => Some(StableHow::Unstable),
            1 => Some(StableHow::DataSync),
            2 => Some(StableHow::FileSync),
            _ => None,
        }
    }

    /// Converts a protocol discriminant into [`StableHow`].
    pub fn from_u32(value: u32) -> (r: Option<Self>)
        ensures
            r == Self::from_code(value),
    {
        match value {
            0 => Some(StableHow::Unstable),
            1 => Some(StableHow::DataSync),
            2 => Some(StableHow::FileSync),
            _ => None,
        }
    }

    /// Returns the protocol discriminant.
    pub fn as_u32(self) -> (r: u32)
        ensures
            r == self.code(),
    {
        match self {
            StableHow::Unstable => 0,
            StableHow::DataSync => 1,
            StableHow::FileSync => 2,
        }
    }
}

/// NFSv4.2 SEEK content selector.
#[derive(Debug, Clone, Copy, PartialEq, Eq, Structural)]
pub enum SeekContent {
    /// Find data.
    Data,
    /// Find a hole.
    Hole,
}

impl SeekContent {
    /// The protocol number of this value.
    pub open spec fn code(self) -> u32 {
        match self {
            SeekContent::Data => 0,
            SeekContent::Hole => 1,
        }
    }

    /// The value that a protocol number denotes.
    pub open spec fn from_code(value: u32) -> Option<Self> {
        match value {
            0 => Some(SeekContent::Data),
            1 => Some(SeekContent::Hole),
            _ => None,
        }
    }

    /// Converts a protocol discriminant into [`SeekContent`].
    pub fn from_u32(value: u32) -> (r: Option<Self>)
        ensures
            r == Self::from_code(value),
    {
        match value {
            0 => Some(SeekContent::Data),
            1 => Some(SeekContent::Hole),
            _ => None,
        }
    }

    /// Returns the protocol discriminant.
    pub fn as_u32(self) -> (r: u32)
        ensures
            r == self.code(),
    {
        match self {
            SeekContent::Data => 0,
            SeekContent::Hole => 1,
        }
    }
}

/// NFSv4.2 change attribute evolution classification.
#[derive(Debug, Clone, Copy, PartialEq, Eq, Structural)]
pub enum ChangeAttrType {
    /// Change values monotonically increase.
    MonotonicIncr,
    /// Change values are version counters.
    VersionCounter,
    /// Change values are version counters, without pNFS write preservation.
    VersionCounterNoPnfs,
    /// Change values are derived from `time_metadata`.
    TimeMetadata,
    /// The server does not define the evolution model.
    Undefined,
}

impl ChangeAttrType {
    /// The protocol number of this value.
    pub open spec fn code(self) -> u32 {
        match self {
            ChangeAttrType::MonotonicIncr => 0,
            ChangeAttrType::VersionCounter => 1,
            ChangeAttrType::VersionCounterNoPnfs => 2,
            ChangeAttrType::TimeMetadata => 3,
            ChangeAttrType::Undefined => 4,
        }
    }

    /// The value that a protocol number denotes.
    pub open spec fn from_code(value: u32) -> Option<Self> {
        match value {
            0 => Some(ChangeAttrType::MonotonicIncr),
            1 => Some(ChangeAttrType::VersionCounter),
            2 => Some(ChangeAttrType::VersionCounterNoPnfs),
            3 => Some(ChangeAttrType::TimeMetadata),
            4 => Some(ChangeAttrType::Undefined),
            _ => None,
        }
    }

    /// Converts a protocol discriminant into [`ChangeAttrType`].
    pub fn from_u32(value: u32) -> (r: Option<Self>)
        ensures
            r == Self::from_code(value),
    {
        match value {
            0 => Some(ChangeAttrType::MonotonicIncr),
            1 => Some(ChangeAttrType::VersionCounter),
            2 => Some(ChangeAttrType::VersionCounterNoPnfs),
            3 => Some(ChangeAttrType::TimeMetadata),
            4 => Some(ChangeAttrType::Undefined),
            _ => None,
        }
    }

    /// Returns the protocol discriminant.
    pub fn as_u32(self) -> (r: u32)
        ensures
            r == self.code(),
    {
        match self {
            ChangeAttrType::MonotonicIncr => 0,
            ChangeAttrType::VersionCounter => 1,
            ChangeAttrType::VersionCounterNoPnfs => 2,
            ChangeAttrType::TimeMetadata => 3,
            ChangeAttrType::Undefined => 4,
        }
    }
}

/// pNFS layout type.
#[derive(Debug, Clone, Copy, PartialEq, Eq, Structural)]
pub enum LayoutType {
    NfsV4_1Files,
    Osd2Objects,
    BlockVolume,
    Unknown(u32),
}

impl LayoutType {
    /// The protocol number of this value.
    pub open spec fn code(self) -> u32 {
        match self {
            LayoutType::NfsV4_1Files => 1,
            LayoutType::Osd2Objects => 2,
            LayoutType::BlockVolume => 3,
            LayoutType::Unknown(value) => value,
        }
    }

    /// The value that a protocol number denotes.
    pub open spec fn from_code(value: u32) -> Self {
        match value {
            1 => LayoutType::NfsV4_1Files,
            2 => LayoutType::Osd2Objects,
            3 => LayoutType::BlockVolume,
            _ => LayoutType::Unknown(value),
        }
    }

    /// Converts a protocol discriminant into [`LayoutType`].
    pub fn from_u32(value: u32) -> (r: Self)
        ensures
            r == Self::from_code(value),
    {
        match value {
            1 => LayoutType::NfsV4_1Files,
            2 => LayoutType::Osd2Objects,
            3 => LayoutType::BlockVolume,
            _ => LayoutType::Unknown(value),
        }
    }

    /// Returns the protocol discriminant.
    pub fn as_u32(self) -> (r: u32)
        ensures
            r == self.code(),
    {
        match self {
            LayoutType::NfsV4_1Files => 1,
            LayoutType::Osd2Objects => 2,
            LayoutType::BlockVolume => 3,
            LayoutType::Unknown(value) => value,
        }
    }
}

/// pNFS layout I/O mode.
#[derive(Debug, Clone, Copy, PartialEq, Eq, Structural)]
pub enum LayoutIomode {
    Read,
    ReadWrite,
    Any,
    Unknown(u32),
}

impl LayoutIomode {
    /// The protocol number of this value.
    pub open spec fn code(self) -> u32 {
        match self {
            LayoutIomode::Read => 1,
            LayoutIomode::ReadWrite => 2,
            LayoutIomode::Any => 3,
            LayoutIomode::Unknown(value) => value,
        }
    }

    /// The value that a protocol number denotes.
    pub open spec fn from_code(value: u32) -> Self {
        match value {
            1 => LayoutIomode::Read,
            2 => LayoutIomode::ReadWrite,
            3 => LayoutIomode::Any,
            _ => LayoutIomode::Unknown(value),
        }
    }

    /// Converts a protocol discriminant into [`LayoutIomode`].
    pub fn from_u32(value: u32) -> (r: Self)
        ensures
            r == Self::from_code(value),
    {
        match value {
            1 => LayoutIomode::Read,
            2 => LayoutIomode::ReadWrite,
            3 => LayoutIomode::Any,
            _ => LayoutIomode::Unknown(value),
        }
    }

    /// Returns the protocol discriminant.
    pub fn as_u32(self) -> (r: u32)
        ensures
            r == self.code(),
    {
        match self {
            LayoutIomode::Read => 1,
            LayoutIomode::ReadWrite => 2,
            LayoutIomode::Any => 3,
            LayoutIomode::Unknown(value) => value,
        }
    }
}



impl OpCode {
    /// The protocol name of the operation.
    pub open spec fn spec_name(self) -> &'static str {
        match self {
            OpCode::Access => "ACCESS",
            OpCode::Close => "CLOSE",
            OpCode::Commit => "COMMIT",
            OpCode::Create => "CREATE",
            OpCode::DelegPurge => "DELEGPURGE",
            OpCode::DelegReturn => "DELEGRETURN",
            OpCode::GetAttr => "GETATTR",
            OpCode::GetFh => "GETFH",
            OpCode::Link => "LINK",
            OpCode::Lock => "LOCK",
            OpCode::Lockt => "LOCKT",
            OpCode::Locku => "LOCKU",
            OpCode::Lookup => "LOOKUP",
            OpCode::Lookupp => "LOOKUPP",
            OpCode::NVerify => "NVERIFY",
            OpCode::Open => "OPEN",
            OpCode::OpenAttr => "OPENATTR",
            OpCode::OpenConfirm => "OPEN_CONFIRM",
            OpCode::OpenDowngrade => "OPEN_DOWNGRADE",
            OpCode::PutFh => "PUTFH",
            OpCode::PutPubFh => "PUTPUBFH",
            OpCode::PutRootFh => "PUTROOTFH",
            OpCode::Read => "READ",
            OpCode::ReadDir => "READDIR",
            OpCode::ReadLink => "READLINK",
            OpCode::Remove => "REMOVE",
            OpCode::Rename => "RENAME",
            OpCode::Renew => "RENEW",
            OpCode::RestoreFh => "RESTOREFH",
            OpCode::SaveFh => "SAVEFH",
            OpCode::SecInfo => "SECINFO",
            OpCode::SetAttr => "SETATTR",
            OpCode::SetClientId => "SETCLIENTID",
            OpCode::SetClientIdConfirm => "SETCLIENTID_CONFIRM",
            OpCode::Verify => "VERIFY",
            OpCode::Write => "WRITE",
            OpCode::ReleaseLockOwner => "RELEASE_LOCKOWNER",
            OpCode::BackchannelCtl => "BACKCHANNEL_CTL",
            OpCode::BindConnToSession => "BIND_CONN_TO_SESSION",
            OpCode::ExchangeId => "EXCHANGE_ID",
            OpCode::CreateSession => "CREATE_SESSION",
            OpCode::DestroySession => "DESTROY_SESSION",
            OpCode::FreeStateId => "FREE_STATEID",
            OpCode::GetDirDelegation => "GET_DIR_DELEGATION",
            OpCode::GetDeviceInfo => "GETDEVICEINFO",
            OpCode::GetDeviceList => "GETDEVICELIST",
            OpCode::LayoutCommit => "LAYOUTCOMMIT",
            OpCode::LayoutGet => "LAYOUTGET",
            OpCode::LayoutReturn => "LAYOUTRETURN",
            OpCode::SecInfoNoName => "SECINFO_NO_NAME",
            OpCode::Sequence => "SEQUENCE",
            OpCode::SetSsv => "SET_SSV",
            OpCode::TestStateId => "TEST_STATEID",
            OpCode::WantDelegation => "WANT_DELEGATION",
            OpCode::DestroyClientId => "DESTROY_CLIENTID",
            OpCode::ReclaimComplete => "RECLAIM_COMPLETE",
            OpCode::Allocate => "ALLOCATE",
            OpCode::Copy => "COPY",
            OpCode::CopyNotify => "COPY_NOTIFY",
            OpCode::Deallocate => "DEALLOCATE",
            OpCode::IoAdvise => "IO_ADVISE",
            OpCode::LayoutError => "LAYOUTERROR",
            OpCode::LayoutStats => "LAYOUTSTATS",
            OpCode::OffloadCancel => "OFFLOAD_CANCEL",
            OpCode::OffloadStatus => "OFFLOAD_STATUS",
            OpCode::ReadPlus => "READ_PLUS",
            OpCode::Seek => "SEEK",
            OpCode::WriteSame => "WRITE_SAME",
            OpCode::Clone => "CLONE",
            OpCode::Illegal => "ILLEGAL",
        }
    }

    /// Returns the protocol name of the operation.
    pub fn name(self) -> (r: &'static str)
        ensures
            r == self.spec_name(),
    {
        match self {
            OpCode::Access => "ACCESS",
            OpCode::Close => "CLOSE",
            OpCode::Commit => "COMMIT",
            OpCode::Create => "CREATE",
            OpCode::DelegPurge => "DELEGPURGE",
            OpCode::DelegReturn => "DELEGRETURN",
            OpCode::GetAttr => "GETATTR",
            OpCode::GetFh => "GETFH",
            OpCode::Link => "LINK",
            OpCode::Lock => "LOCK",
            OpCode::Lockt => "LOCKT",
            OpCode::Locku => "LOCKU",
            OpCode::Lookup => "LOOKUP",
            OpCode::Lookupp => "LOOKUPP",
            OpCode::NVerify => "NVERIFY",
            OpCode::Open => "OPEN",
            OpCode::OpenAttr => "OPENATTR",
            OpCode::OpenConfirm => "OPEN_CONFIRM",
            OpCode::OpenDowngrade => "OPEN_DOWNGRADE",
            OpCode::PutFh => "PUTFH",
            OpCode::PutPubFh => "PUTPUBFH",
            OpCode::PutRootFh => "PUTROOTFH",
            OpCode::Read => "READ",
            OpCode::ReadDir => "READDIR",
            OpCode::ReadLink => "READLINK",
            OpCode::Remove => "REMOVE",
            OpCode::Rename => "RENAME",
            OpCode::Renew => "RENEW",
            OpCode::RestoreFh => "RESTOREFH",
            OpCode::SaveFh => "SAVEFH",
            OpCode::SecInfo => "SECINFO",
            OpCode::SetAttr => "SETATTR",
            OpCode::SetClientId => "SETCLIENTID",
            OpCode::SetClientIdConfirm => "SETCLIENTID_CONFIRM",
            OpCode::Verify => "VERIFY",
            OpCode::Write => "WRITE",
            OpCode::ReleaseLockOwner => "RELEASE_LOCKOWNER",
            OpCode::BackchannelCtl => "BACKCHANNEL_CTL",
            OpCode::BindConnToSession => "BIND_CONN_TO_SESSION",
            OpCode::ExchangeId => "EXCHANGE_ID",
            OpCode::CreateSession => "CREATE_SESSION",
            OpCode::DestroySession => "DESTROY_SESSION",
            OpCode::FreeStateId => "FREE_STATEID",
            OpCode::GetDirDelegation => "GET_DIR_DELEGATION",
            OpCode::GetDeviceInfo => "GETDEVICEINFO",
            OpCode::GetDeviceList => "GETDEVICELIST",
            OpCode::LayoutCommit => "LAYOUTCOMMIT",
            OpCode::LayoutGet => "LAYOUTGET",
            OpCode::LayoutReturn => "LAYOUTRETURN",
            OpCode::SecInfoNoName => "SECINFO_NO_NAME",
            OpCode::Sequence => "SEQUENCE",
            OpCode::SetSsv => "SET_SSV",
            OpCode::TestStateId => "TEST_STATEID",
            OpCode::WantDelegation => "WANT_DELEGATION",
            OpCode::DestroyClientId => "DESTROY_CLIENTID",
            OpCode::ReclaimComplete => "RECLAIM_COMPLETE",
            OpCode::Allocate => "ALLOCATE",
            OpCode::Copy => "COPY",
            OpCode::CopyNotify => "COPY_NOTIFY",
            OpCode::Deallocate => "DEALLOCATE",
            OpCode::IoAdvise => "IO_ADVISE",
            OpCode::LayoutError => "LAYOUTERROR",
            OpCode::LayoutStats => "LAYOUTSTATS",
            OpCode::OffloadCancel => "OFFLOAD_CANCEL",
            OpCode::OffloadStatus => "OFFLOAD_STATUS",
            OpCode::ReadPlus => "READ_PLUS",
            OpCode::Seek => "SEEK",
            OpCode::WriteSame => "WRITE_SAME",
            OpCode::Clone => "CLONE",
            OpCode::Illegal => "ILLEGAL",
        }
    }
}

impl Status {
    /// `NFS4_OK`.
    pub open spec fn spec_is_ok(self) -> bool {
        self == Status::NfsOk
    }

    /// Statuses after which the same request may be sent again after a delay.
    pub open spec fn spec_is_retryable(self) -> bool {
        self == Status::Delay || self == Status::Grace
    }

    /// Statuses that call for a new session.
    pub open spec fn spec_requires_session_recovery(self) -> bool {
        self == Status::BadSession || self == Status::ConnNotBoundToSession
            || self == Status::DeadSession || self == Status::StaleClientId
    }

    /// Statuses that report lost NFSv4 state.
    pub open spec fn spec_indicates_lost_state(self) -> bool {
        self == Status::AdminRevoked || self == Status::BadStateId || self == Status::DelegRevoked
            || self == Status::Expired || self == Status::LeaseMoved || self == Status::NoGrace
            || self == Status::OldStateId || self == Status::ReclaimBad
            || self == Status::ReclaimConflict || self == Status::StaleClientId
            || self == Status::StaleStateId
    }

    /// Returns true for `NFS4_OK`.
    pub fn is_ok(self) -> (r: bool)
        ensures
            r == self.spec_is_ok(),
    {
        matches!(self, Status::NfsOk)
    }

    /// Returns true when the same operation can be retried after a delay.
    ///
    /// Session recovery statuses are intentionally excluded here because safe
    /// replay depends on the operation and client state. Use
    /// [`Status::requires_session_recovery`] for those statuses.
    pub fn is_retryable(self) -> (r: bool)
        ensures
            r == self.spec_is_retryable(),
    {
        matches!(self, Status::Delay | Status::Grace)
    }

    /// Returns true when the client should create a new session and retry.
    pub fn requires_session_recovery(self) -> (r: bool)
        ensures
            r == self.spec_requires_session_recovery(),
    {
        matches!(
            self,
            Status::BadSession | Status::ConnNotBoundToSession | Status::DeadSession
                | Status::StaleClientId
        )
    }

    /// Returns true when the status indicates lost NFSv4 state.
    pub fn indicates_lost_state(self) -> (r: bool)
        ensures
            r == self.spec_indicates_lost_state(),
    {
        matches!(
            self,
            Status::AdminRevoked | Status::BadStateId | Status::DelegRevoked | Status::Expired
                | Status::LeaseMoved | Status::NoGrace | Status::OldStateId | Status::ReclaimBad
                | Status::ReclaimConflict | Status::StaleClientId | Status::StaleStateId
        )
    }
}

/// The number of a known status and back: converting a status to its number
/// and back gives the status again, and a number converted to a status and
/// back gives the number again.
pub proof fn law_status_code_roundtrip(s: Status, value: u32)
    ensures
        Status::from_code(s.code()) == s || s is Unknown,
        Status::from_code(value).code() == value,
{
}

/// Converting an operation code to its number and back gives it again, and a
/// number that denotes an operation converts back to that number.
pub proof fn law_opcode_roundtrip(op: OpCode, value: u32)
    ensures
        OpCode::from_code(op.code()) == Some(op),
        OpCode::from_code(value) matches Some(o) ==> o.code() == value,
{
}

impl FileType {
    /// Returns true for regular files.
    pub fn is_file(self) -> (r: bool)
        ensures
            r == (self == FileType::Regular),
    {
        matches!(self, FileType::Regular)
    }

    /// Returns true for directories.
    pub fn is_dir(self) -> (r: bool)
        ensures
            r == (self == FileType::Directory),
    {
        matches!(self, FileType::Directory)
    }

    /// Returns true for symbolic links.
    pub fn is_symlink(self) -> (r: bool)
        ensures
            r == (self == FileType::Symlink),
    {
        matches!(self, FileType::Symlink)
    }
}

/// NFSv4 file handle.
#[derive(Debug, PartialEq, Eq, Hash)]
pub struct FileHandle {
    data: Vec<u8>,
}

impl FileHandle {
    /// The handle's bytes.
    pub closed spec fn bytes(&self) -> Seq<u8> {
        self.data@
    }

    /// Creates a file handle; fails when `data` is longer than [`NFS4_FHSIZE`].
    pub fn new(data: Vec<u8>) -> (r: Result<Self>)
        ensures
            r is Ok <==> data@.len() <= NFS4_FHSIZE,
            r matches Ok(h) ==> h.bytes() == data@,
            r matches Err(e) ==> e is Protocol,
    {
        if data.len() > NFS4_FHSIZE {
            return Err(crate::error::protocol("NFSv4 file handle is longer than the protocol maximum"));
        }
        Ok(FileHandle { data })
    }

    /// Returns the handle's bytes.
    pub fn as_bytes(&self) -> (r: &[u8])
        ensures
            r@ == self.bytes(),
    {
        self.data.as_slice()
    }

    /// Whether two handles hold the same bytes.
    pub fn same_as(&self, other: &FileHandle) -> (r: bool)
        ensures
            r == (self.bytes() == other.bytes()),
    {
        bytes_equal(self.data.as_slice(), other.data.as_slice())
    }
}

impl Clone for FileHandle {
    fn clone(&self) -> (r: Self)
        ensures
            r.bytes() == self.bytes(),
    {
        FileHandle { data: copy_bytes(self.data.as_slice()) }
    }
}

/// Whether two byte slices are equal.
pub fn bytes_equal(a: &[u8], b: &[u8]) -> (r: bool)
    ensures
        r == (a@ == b@),
{
    if a.len() != b.len() {
        return false;
    }
    let mut i: usize = 0;
    while i < a.len()
        invariant
            i <= a.len(),
            a@.len() == b@.len(),
            forall|j: int| 0 <= j < i ==> a@[j] == b@[j],
        decreases a.len() - i,
    {
        if a[i] != b[i] {
            return false;
        }
        i = i + 1;
    }
    assert(a@ =~= b@);
    true
}

/// A copy of a byte slice.
pub fn copy_bytes(a: &[u8]) -> (r: Vec<u8>)
    ensures
        r@ == a@,
{
    let mut out: Vec<u8> = Vec::new();
    let mut i: usize = 0;
    while i < a.len()
        invariant
            i <= a.len(),
            out@ == a@.subrange(0, i as int),
        decreases a.len() - i,
    {
        out.push(a[i]);
        i = i + 1;
        assert(out@ =~= a@.subrange(0, i as int));
    }
    assert(a@.subrange(0, a.len() as int) =~= a@);
    out
}

impl Encode for FileHandle {
    open spec fn xdr_bytes(&self) -> Seq<u8> {
        var_opaque(self.bytes())
    }

    open spec fn xdr_encodable(&self) -> bool {
        self.bytes().len() <= NFS4_FHSIZE
    }

    fn encode(&self, encoder: &mut Encoder) -> (r: core::result::Result<(), XdrError>) {
        encoder.write_opaque(self.data.as_slice(), NFS4_FHSIZE)
    }
}

impl Decode for FileHandle {
    /// Reads a handle of at most [`NFS4_FHSIZE`] bytes; the encoding of any
    /// handle reads back as a handle with the same bytes.
    fn decode(decoder: &mut Decoder<'_>) -> (r: core::result::Result<Self, XdrError>)
        ensures
            ({
                let d = old(decoder).input();
                let p = old(decoder).pos();
                let n = u32_at(d, p) as int;
                &&& r is Ok <==> (p + 4 <= d.len() && n <= NFS4_FHSIZE && p + 4 + n + pad_len(n as nat) <= d.len())
                &&& r matches Ok(h) ==> h.bytes() == d.subrange(p + 4, p + 4 + n)
                    && final(decoder).pos() == p + 4 + n + pad_len(n as nat)
            }),
            forall|w: FileHandle| #[trigger] holds_encoding(old(decoder).input(), old(decoder).pos(), w)
                ==> (r matches Ok(h) && h.bytes() == w.bytes()
                    && final(decoder).pos() == old(decoder).pos() + w.xdr_bytes().len()),
    {
        let ghost d = old(decoder).input();
        let ghost p = old(decoder).pos();
        proof {
            old(decoder).lemma_pos_nonneg();
        }
        let r = decoder.read_opaque_vec(NFS4_FHSIZE);
        proof {
            assert forall|w: FileHandle| #[trigger] holds_encoding(d, p, w)
                implies (r matches Ok(v) && v@ == w.bytes() && decoder.pos() == p + w.xdr_bytes().len()) by {
                lemma_opaque_at(d, p, w.bytes());
            }
        }
        match r {
            Ok(data) => Ok(FileHandle { data }),
            Err(e) => Err(e),
        }
    }
}

/// NFSv4 state id.
#[derive(Debug, Clone, Copy, PartialEq, Eq)]
pub struct StateId {
    pub seqid: u32,
    pub other: [u8; 12],
}

impl StateId {
    /// Whether this is the all-zero anonymous state id.
    pub open spec fn spec_is_anonymous(self) -> bool {
        self.seqid == 0 && forall|i: int| 0 <= i < 12 ==> self.other@[i] == 0
    }

    /// Returns the all-zero anonymous state id.
    pub fn anonymous() -> (r: Self)
        ensures
            r.spec_is_anonymous(),
    {
        let r = StateId { seqid: 0, other: [0u8; 12] };
        assert(r.other@.len() == 12);
        r
    }

    /// Whether two state ids are the same.
    pub fn same_as(&self, other: &StateId) -> (r: bool)
        ensures
            r == (self.seqid == other.seqid && self.other@ == other.other@),
    {
        self.seqid == other.seqid && bytes_equal(self.other.as_slice(), other.other.as_slice())
    }

    /// Returns true for the anonymous state id.
    pub fn is_anonymous(self) -> (r: bool)
        ensures
            r == self.spec_is_anonymous(),
    {
        if self.seqid != 0 {
            return false;
        }
        let mut i: usize = 0;
        while i < 12
            invariant
                i <= 12,
                self.other@.len() == 12,
                forall|j: int| 0 <= j < i ==> self.other@[j] == 0,
            decreases 12 - i,
        {
            if self.other[i] != 0 {
                return false;
            }
            i = i + 1;
        }
        true
    }
}

impl Encode for StateId {
    open spec fn xdr_bytes(&self) -> Seq<u8> {
        be_u32(self.seqid) + fixed_opaque(self.other@)
    }

    open spec fn xdr_encodable(&self) -> bool {
        true
    }

    fn encode(&self, encoder: &mut Encoder) -> (r: core::result::Result<(), XdrError>) {
        encoder.write_u32(self.seqid);
        encoder.write_fixed_opaque(self.other.as_slice());
        Ok(())
    }
}

impl Decode for StateId {
    /// Any sixteen bytes are a state id; what is read is the encoding of the
    /// state id returned, and the encoding of any state id reads back as it.
    fn decode(decoder: &mut Decoder<'_>) -> (r: core::result::Result<Self, XdrError>)
        ensures
            r is Ok <==> old(decoder).pos() + 16 <= old(decoder).input().len(),
            r matches Ok(v) ==> holds_encoding(old(decoder).input(), old(decoder).pos(), v)
                && final(decoder).pos() == old(decoder).pos() + 16,
            forall|w: StateId| #[trigger] holds_encoding(old(decoder).input(), old(decoder).pos(), w)
                ==> r == Ok::<StateId, XdrError>(w),
    {
        let ghost d = old(decoder).input();
        let ghost p = old(decoder).pos();
        proof {
            old(decoder).lemma_pos_nonneg();
            assert forall|w: StateId| #[trigger] holds_encoding(d, p, w) implies p + 16 <= d.len() by {
                assert(w.xdr_bytes().len() == 16);
            }
        }
        let seqid = match decoder.read_u32() {
            Ok(v) => v,
            Err(e) => return Err(e),
        };
        let other = match decoder.read_fixed_array::<12>() {
            Ok(v) => v,
            Err(e) => return Err(e),
        };
        let v = StateId { seqid, other };
        proof {
            lemma_u32_bytes_of_value(d.subrange(p, p + 4));
            lemma_twelve_bytes_unpadded(other@);
            assert(d.subrange(p, p + 16) =~= v.xdr_bytes());
            assert forall|w: StateId| #[trigger] holds_encoding(d, p, w) implies v == w by {
                assert(w.xdr_bytes().len() == 16);
                assert(d.subrange(p, p + 4) =~= be_u32(w.seqid));
                lemma_u32_roundtrip(w.seqid);
                lemma_twelve_bytes_unpadded(w.other@);
                assert(other@ =~= w.other@) by {
                    assert(d.subrange(p + 4, p + 16) =~= d.subrange(p, p + 16).subrange(4, 16));
                }
                assert(other =~= w.other);
            }
        }
        Ok(v)
    }
}

/// Twelve bytes of fixed-length opaque data need no padding.
proof fn lemma_twelve_bytes_unpadded(b: Seq<u8>)
    requires
        b.len() == 12,
    ensures
        fixed_opaque(b) == b,
{
    assert(pad_len(12) == 0);
    assert(fixed_opaque(b) =~= b);
}

impl Encode for [u8; 16] {
    open spec fn xdr_bytes(&self) -> Seq<u8> {
        fixed_opaque(self@)
    }

    open spec fn xdr_encodable(&self) -> bool {
        true
    }

    fn encode(&self, encoder: &mut Encoder) -> (r: core::result::Result<(), XdrError>) {
        encoder.write_fixed_opaque(self.as_slice());
        Ok(())
    }
}

impl Decode for [u8; 16] {
    fn decode(decoder: &mut Decoder<'_>) -> (r: core::result::Result<Self, XdrError>) {
        decoder.read_fixed_array::<16>()
    }
}


/// Whether bit `bit` of `w` is set.
pub open spec fn bit_set(w: u32, bit: u32) -> bool {
    (w & (1u32 << bit)) != 0u32
}

/// Whether attribute `attr` is present in a bitmap made of `words`.
pub open spec fn words_contain(words: Seq<u32>, attr: u32) -> bool {
    (attr / 32) < words.len() && bit_set(words[(attr / 32) as int], attr % 32)
}

/// The predicate "is in bitmap `b`".
pub open spec fn in_bitmap(b: Bitmap) -> spec_fn(u32) -> bool {
    |a: u32| b.has(a)
}

/// Whether every attribute in `attrs` fits in a bitmap of at most
/// [`NFS4_MAX_BITMAP_WORDS`] words.
pub open spec fn attrs_fit_bitmap(attrs: Seq<u32>) -> bool {
    forall|i: int| 0 <= i < attrs.len() ==> (#[trigger] attrs[i] / 32) < NFS4_MAX_BITMAP_WORDS
}

proof fn lemma_set_bit(w: u32, b: u32, c: u32)
    requires
        b < 32,
        c < 32,
    ensures
        bit_set(w | (1u32 << b), c) == (bit_set(w, c) || b == c),
{
    assert(((w | (1u32 << b)) & (1u32 << c)) != 0u32 <==> ((w & (1u32 << c)) != 0u32 || b == c))
        by (bit_vector)
        requires
            b < 32,
            c < 32,
    ;
}

proof fn lemma_zero_word_has_no_bits(c: u32)
    requires
        c < 32,
    ensures
        !bit_set(0u32, c),
{
    assert((0u32 & (1u32 << c)) == 0u32) by (bit_vector);
}

/// NFSv4 attribute bitmap.
#[derive(Debug, PartialEq, Eq)]
pub struct Bitmap {
    words: Vec<u32>,
}

impl Bitmap {
    #[verifier::type_invariant]
    spec fn inv(self) -> bool {
        self.words@.len() <= NFS4_MAX_BITMAP_WORDS
    }

    /// The bitmap's words.
    pub closed spec fn words_view(&self) -> Seq<u32> {
        self.words@
    }

    /// Whether attribute `attr` is in the bitmap.
    pub open spec fn has(&self, attr: u32) -> bool {
        words_contain(self.words_view(), attr)
    }

    /// Creates an empty bitmap.
    pub fn empty() -> (b: Self)
        ensures
            b.words_view() == Seq::<u32>::empty(),
            forall|a: u32| !b.has(a),
    {
        Bitmap { words: Vec::new() }
    }

    /// Builds a bitmap containing the given attribute numbers.
    ///
    /// The client caps bitmap construction to the same word count accepted by
    /// the decoder, preventing accidental huge allocations from untrusted attr
    /// ids.
    pub fn from_attrs(attrs: &[u32]) -> (r: Result<Self>)
        ensures
            r is Ok <==> attrs_fit_bitmap(attrs@),
            r matches Ok(b) ==> b.exactly(attrs@),
            r matches Err(e) ==> e is Protocol,
    {
        match validate_bitmap_attrs(attrs) {
            Ok(()) => Ok(Self::from_valid_attrs(attrs)),
            Err(e) => Err(e),
        }
    }

    /// The bitmap holds exactly the attributes in `attrs`, in the fewest words
    /// that hold the largest of them.
    pub open spec fn exactly(&self, attrs: Seq<u32>) -> bool {
        &&& forall|a: u32| self.has(a) <==> attrs.contains(a)
        &&& attrs.len() == 0 ==> self.words_view().len() == 0
        &&& attrs.len() > 0 ==> {
            &&& forall|i: int| 0 <= i < attrs.len() ==> (#[trigger] attrs[i] / 32) < self.words_view().len()
            &&& exists|i: int| 0 <= i < attrs.len() && (#[trigger] attrs[i] / 32) == self.words_view().len() - 1
        }
    }

    /// Builds a bitmap from attribute numbers known to fit.
    pub fn from_known_attrs(attrs: &[u32]) -> (b: Self)
        requires
            attrs_fit_bitmap(attrs@),
        ensures
            b.exactly(attrs@),
    {
        Self::from_valid_attrs(attrs)
    }

    fn from_valid_attrs(attrs: &[u32]) -> (b: Self)
        requires
            attrs_fit_bitmap(attrs@),
        ensures
            b.exactly(attrs@),
    {
        if attrs.len() == 0 {
            let b = Bitmap { words: Vec::new() };
            assert forall|a: u32| b.has(a) <==> attrs@.contains(a) by {}
            return b;
        }
        let mut max: u32 = attrs[0];
        let mut k: usize = 1;
        let ghost mut arg: int = 0;
        while k < attrs.len()
            invariant
                1 <= k <= attrs.len(),
                0 <= arg < k,
                max == attrs@[arg],
                forall|j: int| 0 <= j < k ==> attrs@[j] <= max,
            decreases attrs.len() - k,
        {
            if attrs[k] > max {
                max = attrs[k];
                proof {
                    arg = k as int;
                }
            }
            k = k + 1;
        }
        assert((attrs@[arg] / 32) < NFS4_MAX_BITMAP_WORDS);
        let n: usize = (max / 32) as usize + 1;
        let mut words: Vec<u32> = vec![0u32; n];
        proof {
            assert forall|a: u32| (a / 32) < n implies (words_contain(words@, a) <==> attrs@.subrange(0, 0).contains(a)) by {
                lemma_zero_word_has_no_bits(a % 32);
                assert(words@[(a / 32) as int] == 0u32);
            }
        }
        assert forall|j: int| 0 <= j < attrs@.len() implies (#[trigger] attrs@[j] / 32) < n by {
            assert(attrs@[j] <= max);
        }
        let mut i: usize = 0;
        while i < attrs.len()
            invariant
                i <= attrs.len(),
                words@.len() == n,
                n <= NFS4_MAX_BITMAP_WORDS,
                forall|j: int| 0 <= j < attrs@.len() ==> (#[trigger] attrs@[j] / 32) < n,
                forall|a: u32| (a / 32) < n ==> (words_contain(words@, a) <==> attrs@.subrange(0, i as int).contains(a)),
            decreases attrs.len() - i,
        {
            let attr = attrs[i];
            let w = (attr / 32) as usize;
            let bit = attr % 32;
            let ghost old_words = words@;
            let nw = words[w] | (1u32 << bit);
            words.set(w, nw);
            proof {
                broadcast use vstd::seq_lib::group_seq_properties;
                assert(attrs@.subrange(0, i + 1) =~= attrs@.subrange(0, i as int).push(attr));
                assert forall|a: u32| (a / 32) < n implies (words_contain(words@, a) <==> attrs@.subrange(0, i + 1).contains(a)) by {
                    assert(attrs@.subrange(0, i + 1).contains(a) <==> (attrs@.subrange(0, i as int).contains(a) || a == attr));
                    assert(words_contain(old_words, a) <==> attrs@.subrange(0, i as int).contains(a));
                    if a / 32 == w as u32 {
                        assert(words@[(a / 32) as int] == nw);
                        lemma_set_bit(old_words[w as int], bit, a % 32);
                        assert(a == attr <==> a % 32 == bit);
                    } else {
                        assert(a != attr);
                        assert(words@[(a / 32) as int] == old_words[(a / 32) as int]);
                    }
                }
            }
            i = i + 1;
        }
        assert(attrs@.subrange(0, attrs@.len() as int) =~= attrs@);
        let b = Bitmap { words };
        assert forall|a: u32| b.has(a) <==> attrs@.contains(a) by {
            if attrs@.contains(a) {
                let j = choose|j: int| 0 <= j < attrs@.len() && attrs@[j] == a;
                assert((attrs@[j] / 32) < n);
            }
        }
        assert(attrs@[arg] / 32 == b.words_view().len() - 1);
        b
    }

    /// Builds a bitmap containing requested attributes that are supported.
    pub fn from_supported_attrs(supported: &Self, attrs: &[u32]) -> (r: Result<Self>)
        ensures
            r is Ok <==> attrs_fit_bitmap(attrs@),
            r matches Ok(b) ==> b.exactly(attrs@.filter(in_bitmap(*supported))),
            r matches Err(e) ==> e is Protocol,
    {
        if let Err(e) = validate_bitmap_attrs(attrs) {
            return Err(e);
        }
        let mut kept: Vec<u32> = Vec::new();
        let mut i: usize = 0;
        while i < attrs.len()
            invariant
                i <= attrs.len(),
                kept@ == attrs@.subrange(0, i as int).filter(in_bitmap(*supported)),
            decreases attrs.len() - i,
        {
            proof {
                                assert(attrs@.subrange(0, i + 1).drop_last() =~= attrs@.subrange(0, i as int));
            }
            proof {
                reveal(Seq::filter);
            }
            assert(attrs@.subrange(0, i + 1).last() == attrs@[i as int]);
            assert(in_bitmap(*supported)(attrs@[i as int]) == supported.has(attrs@[i as int]));
            if supported.contains(attrs[i]) {
                kept.push(attrs[i]);
            }
            i = i + 1;
        }
        assert(attrs@.subrange(0, attrs@.len() as int) =~= attrs@);
        proof {
            assert forall|j: int| 0 <= j < kept@.len() implies (#[trigger] kept@[j] / 32) < NFS4_MAX_BITMAP_WORDS by {
                attrs@.lemma_filter_contains_rev(in_bitmap(*supported), kept@[j]);
                assert(kept@.contains(kept@[j]));
            }
        }
        Self::from_attrs(kept.as_slice())
    }

    /// Returns the raw bitmap words.
    pub fn words(&self) -> (r: &[u32])
        ensures
            r@ == self.words_view(),
    {
        self.words.as_slice()
    }

    /// Whether no attribute bits are set.
    pub open spec fn spec_is_empty(&self) -> bool {
        forall|i: int| 0 <= i < self.words_view().len() ==> self.words_view()[i] == 0
    }

    /// Returns true when no attribute bits are set.
    pub fn is_empty(&self) -> (r: bool)
        ensures
            r == self.spec_is_empty(),
    {
        let mut i: usize = 0;
        while i < self.words.len()
            invariant
                i <= self.words@.len(),
                forall|j: int| 0 <= j < i ==> self.words@[j] == 0,
            decreases self.words@.len() - i,
        {
            if self.words[i] != 0 {
                assert(self.words_view()[i as int] != 0);
                return false;
            }
            i = i + 1;
        }
        true
    }

    /// Returns true when `attr` is present in the bitmap.
    pub fn contains(&self, attr: u32) -> (r: bool)
        ensures
            r == self.has(attr),
    {
        let word = (attr / 32) as usize;
        let bit = attr % 32;
        if word < self.words.len() {
            (self.words[word] & (1u32 << bit)) != 0
        } else {
            false
        }
    }

    /// The attributes present, in increasing order.
    pub fn attrs(&self) -> (r: Vec<u32>)
        ensures
            forall|a: u32| self.has(a) <==> r@.contains(a),
            forall|i: int, j: int| 0 <= i < j < r@.len() ==> r@[i] < r@[j],
            r@ == attr_list(*self),
    {
        proof {
            use_type_invariant(self);
        }
        let mut out: Vec<u32> = Vec::new();
        let mut w: usize = 0;
        while w < self.words.len()
            invariant
                w <= self.words@.len() <= NFS4_MAX_BITMAP_WORDS,
                forall|a: u32| out@.contains(a) <==> ((a / 32) < w && self.has(a)),
                forall|i: int, j: int| 0 <= i < j < out@.len() ==> out@[i] < out@[j],
                forall|i: int| 0 <= i < out@.len() ==> out@[i] < 32 * w,
            decreases self.words@.len() - w,
        {
            let word = self.words[w];
            let mut bit: u32 = 0;
            while bit < 32
                invariant
                    w < self.words@.len() <= NFS4_MAX_BITMAP_WORDS,
                    word == self.words@[w as int],
                    bit <= 32,
                    forall|a: u32| out@.contains(a) <==> (((a / 32) < w || ((a / 32) == w && a % 32 < bit)) && self.has(a)),
                    forall|i: int, j: int| 0 <= i < j < out@.len() ==> out@[i] < out@[j],
                    forall|i: int| 0 <= i < out@.len() ==> out@[i] < 32 * w + bit,
                decreases 32 - bit,
            {
                let attr: u32 = (w as u32) * 32 + bit;
                if (word & (1u32 << bit)) != 0 {
                    out.push(attr);
                }
                proof {
                    broadcast use vstd::seq_lib::group_seq_properties;
                    assert(attr / 32 == w as u32 && attr % 32 == bit);
                    assert forall|a: u32| out@.contains(a) <==> (((a / 32) < w || ((a / 32) == w && a % 32 < bit + 1)) && self.has(a)) by {
                        if a / 32 == w as u32 && a % 32 == bit {
                            assert(a == attr);
                        }
                    }
                }
                bit = bit + 1;
            }
            w = w + 1;
        }
        proof {
            lemma_attr_list_is(*self, out@);
        }
        out
    }
}

impl Clone for Bitmap {
    fn clone(&self) -> (r: Self)
        ensures
            r.words_view() == self.words_view(),
    {
        proof {
            use_type_invariant(self);
        }
        let mut words: Vec<u32> = Vec::new();
        let mut i: usize = 0;
        while i < self.words.len()
            invariant
                i <= self.words@.len() <= NFS4_MAX_BITMAP_WORDS,
                words@ == self.words@.subrange(0, i as int),
            decreases self.words@.len() - i,
        {
            words.push(self.words[i]);
            i = i + 1;
            assert(words@ =~= self.words@.subrange(0, i as int));
        }
        assert(self.words@.subrange(0, self.words@.len() as int) =~= self.words@);
        Bitmap { words }
    }
}

impl Default for Bitmap {
    fn default() -> (r: Self)
        ensures
            r.words_view() == Seq::<u32>::empty(),
    {
        Bitmap { words: Vec::new() }
    }
}

impl Encode for Bitmap {
    open spec fn xdr_bytes(&self) -> Seq<u8> {
        be_u32(self.words_view().len() as u32) + u32_array_body(self.words_view())
    }

    open spec fn xdr_encodable(&self) -> bool {
        self.words_view().len() <= NFS4_MAX_BITMAP_WORDS
    }

    fn encode(&self, encoder: &mut Encoder) -> (r: core::result::Result<(), XdrError>) {
        encoder.write_u32_array(self.words.as_slice(), NFS4_MAX_BITMAP_WORDS)
    }
}

impl Decode for Bitmap {
    /// Reads at most [`NFS4_MAX_BITMAP_WORDS`] words; the encoding of any
    /// bitmap reads back as a bitmap with the same words.
    fn decode(decoder: &mut Decoder<'_>) -> (r: core::result::Result<Self, XdrError>)
        ensures
            ({
                let d = old(decoder).input();
                let p = old(decoder).pos();
                r is Ok <==> (p + 4 <= d.len() && u32_at(d, p) <= NFS4_MAX_BITMAP_WORDS
                    && p + 4 + 4 * u32_at(d, p) <= d.len())
            }),
            forall|w: Bitmap| #[trigger] holds_encoding(old(decoder).input(), old(decoder).pos(), w)
                ==> (r matches Ok(b) && b.words_view() == w.words_view()
                    && final(decoder).pos() == old(decoder).pos() + w.xdr_bytes().len()),
            r matches Ok(b) ==> {
                let d = old(decoder).input();
                let p = old(decoder).pos();
                let n = b.words_view().len();
                &&& p + 4 + 4 * n <= d.len()
                &&& u32_at(d, p) == n
                &&& d.subrange(p + 4, p + 4 + 4 * n) == u32_array_body(b.words_view())
                &&& final(decoder).pos() == p + 4 + 4 * n
            },
    {
        let ghost d = old(decoder).input();
        let ghost p = old(decoder).pos();
        proof {
            old(decoder).lemma_pos_nonneg();
        }
        let r = decoder.read_u32_array(NFS4_MAX_BITMAP_WORDS);
        proof {
            assert forall|w: Bitmap| #[trigger] holds_encoding(d, p, w)
                implies (r matches Ok(v) && v@ == w.words_view() && decoder.pos() == p + w.xdr_bytes().len()) by {
                let words = w.words_view();
                let n = words.len() as int;
                lemma_u32_array_body_len(words);
                assert(d.subrange(p, p + 4) =~= w.xdr_bytes().subrange(0, 4));
                assert(w.xdr_bytes().subrange(0, 4) =~= be_u32(n as u32));
                lemma_u32_roundtrip(n as u32);
                if let Ok(v) = r {
                    assert(d.subrange(p + 4, p + 4 + 4 * n) =~= w.xdr_bytes().subrange(4, 4 + 4 * n));
                    assert(w.xdr_bytes().subrange(4, 4 + 4 * n) =~= u32_array_body(words));
                    lemma_u32_array_body_injective(v@, words);
                }
            }
        }
        match r {
            Ok(words) => Ok(Bitmap { words }),
            Err(e) => Err(e),
        }
    }
}

fn validate_bitmap_attrs(attrs: &[u32]) -> (r: Result<()>)
    ensures
        r is Ok <==> attrs_fit_bitmap(attrs@),
        r matches Err(e) ==> e is Protocol,
{
    let mut i: usize = 0;
    while i < attrs.len()
        invariant
            i <= attrs.len(),
            forall|j: int| 0 <= j < i ==> (#[trigger] attrs@[j] / 32) < NFS4_MAX_BITMAP_WORDS,
        decreases attrs.len() - i,
    {
        if (attrs[i] / 32) as usize >= NFS4_MAX_BITMAP_WORDS {
            return Err(crate::error::protocol("NFSv4 bitmap attribute exceeds the supported bitmap word limit"));
        }
        i = i + 1;
    }
    Ok(())
}


/// Raw NFSv4 attribute payload.
///
/// High-level APIs usually return parsed structures such as
/// [`BasicAttributes`], [`FsInfo`], [`FsStat`], and [`PathConf`].
#[derive(Debug, PartialEq, Eq)]
pub struct Fattr {
    /// Attribute bitmap describing the encoded values.
    pub attrmask: Bitmap,
    /// XDR-encoded attribute values in bitmap order.
    pub attr_vals: Vec<u8>,
}

impl Clone for Fattr {
    fn clone(&self) -> (r: Self)
        ensures
            r.attrmask.words_view() == self.attrmask.words_view(),
            r.attr_vals@ == self.attr_vals@,
    {
        Fattr { attrmask: self.attrmask.clone(), attr_vals: copy_bytes(self.attr_vals.as_slice()) }
    }
}

/// Attributes that `parse_basic` understands.
pub open spec fn is_basic_attr(a: u32) -> bool {
    a == FATTR4_TYPE || a == FATTR4_CHANGE || a == FATTR4_SIZE || a == FATTR4_FILEID
        || a == FATTR4_MODE || a == FATTR4_NUMLINKS || a == FATTR4_OWNER || a == FATTR4_OWNER_GROUP
        || a == FATTR4_SPACE_USED || a == FATTR4_TIME_ACCESS || a == FATTR4_TIME_METADATA
        || a == FATTR4_TIME_MODIFY
}

/// Attributes that `parse_fsstat` understands.
pub open spec fn is_fsstat_attr(a: u32) -> bool {
    a == FATTR4_FILES_AVAIL || a == FATTR4_FILES_FREE || a == FATTR4_FILES_TOTAL
        || a == FATTR4_SPACE_AVAIL || a == FATTR4_SPACE_FREE || a == FATTR4_SPACE_TOTAL
}

/// Attributes that `parse_fsinfo` understands.
pub open spec fn is_fsinfo_attr(a: u32) -> bool {
    a == FATTR4_FH_EXPIRE_TYPE || a == FATTR4_LINK_SUPPORT || a == FATTR4_SYMLINK_SUPPORT
        || a == FATTR4_UNIQUE_HANDLES || a == FATTR4_LEASE_TIME || a == FATTR4_CANSETTIME
        || a == FATTR4_HOMOGENEOUS || a == FATTR4_MAXFILESIZE || a == FATTR4_MAXREAD
        || a == FATTR4_MAXWRITE || a == FATTR4_TIME_DELTA
}

/// Attributes that `parse_pathconf` understands.
pub open spec fn is_pathconf_attr(a: u32) -> bool {
    a == FATTR4_CASE_INSENSITIVE || a == FATTR4_CASE_PRESERVING || a == FATTR4_CHOWN_RESTRICTED
        || a == FATTR4_MAXLINK || a == FATTR4_MAXNAME || a == FATTR4_NO_TRUNC
}

/// Each parsed field is present exactly when its attribute is among `attrs`.
pub open spec fn basic_presence_list(p: BasicAttributes, attrs: Seq<u32>) -> bool {
    &&& (p.file_type is Some <==> attrs.contains(FATTR4_TYPE))
    &&& (p.change is Some <==> attrs.contains(FATTR4_CHANGE))
    &&& (p.size is Some <==> attrs.contains(FATTR4_SIZE))
    &&& (p.fileid is Some <==> attrs.contains(FATTR4_FILEID))
    &&& (p.mode is Some <==> attrs.contains(FATTR4_MODE))
    &&& (p.numlinks is Some <==> attrs.contains(FATTR4_NUMLINKS))
    &&& (p.owner is Some <==> attrs.contains(FATTR4_OWNER))
    &&& (p.owner_group is Some <==> attrs.contains(FATTR4_OWNER_GROUP))
    &&& (p.space_used is Some <==> attrs.contains(FATTR4_SPACE_USED))
    &&& (p.access_time is Some <==> attrs.contains(FATTR4_TIME_ACCESS))
    &&& (p.metadata_time is Some <==> attrs.contains(FATTR4_TIME_METADATA))
    &&& (p.modify_time is Some <==> attrs.contains(FATTR4_TIME_MODIFY))
}

/// Each parsed field is present exactly when the bitmap holds its attribute.
pub open spec fn basic_presence(p: BasicAttributes, b: Bitmap) -> bool {
    &&& (p.file_type is Some <==> b.has(FATTR4_TYPE))
    &&& (p.change is Some <==> b.has(FATTR4_CHANGE))
    &&& (p.size is Some <==> b.has(FATTR4_SIZE))
    &&& (p.fileid is Some <==> b.has(FATTR4_FILEID))
    &&& (p.mode is Some <==> b.has(FATTR4_MODE))
    &&& (p.numlinks is Some <==> b.has(FATTR4_NUMLINKS))
    &&& (p.owner is Some <==> b.has(FATTR4_OWNER))
    &&& (p.owner_group is Some <==> b.has(FATTR4_OWNER_GROUP))
    &&& (p.space_used is Some <==> b.has(FATTR4_SPACE_USED))
    &&& (p.access_time is Some <==> b.has(FATTR4_TIME_ACCESS))
    &&& (p.metadata_time is Some <==> b.has(FATTR4_TIME_METADATA))
    &&& (p.modify_time is Some <==> b.has(FATTR4_TIME_MODIFY))
}

/// Each parsed field is present exactly when its attribute is among `attrs`.
pub open spec fn fsstat_presence_list(p: FsStat, attrs: Seq<u32>) -> bool {
    &&& (p.available_files is Some <==> attrs.contains(FATTR4_FILES_AVAIL))
    &&& (p.free_files is Some <==> attrs.contains(FATTR4_FILES_FREE))
    &&& (p.total_files is Some <==> attrs.contains(FATTR4_FILES_TOTAL))
    &&& (p.available_bytes is Some <==> attrs.contains(FATTR4_SPACE_AVAIL))
    &&& (p.free_bytes is Some <==> attrs.contains(FATTR4_SPACE_FREE))
    &&& (p.total_bytes is Some <==> attrs.contains(FATTR4_SPACE_TOTAL))
}

/// Each parsed field is present exactly when the bitmap holds its attribute.
pub open spec fn fsstat_presence(p: FsStat, b: Bitmap) -> bool {
    &&& (p.available_files is Some <==> b.has(FATTR4_FILES_AVAIL))
    &&& (p.free_files is Some <==> b.has(FATTR4_FILES_FREE))
    &&& (p.total_files is Some <==> b.has(FATTR4_FILES_TOTAL))
    &&& (p.available_bytes is Some <==> b.has(FATTR4_SPACE_AVAIL))
    &&& (p.free_bytes is Some <==> b.has(FATTR4_SPACE_FREE))
    &&& (p.total_bytes is Some <==> b.has(FATTR4_SPACE_TOTAL))
}

/// Each parsed field is present exactly when its attribute is among `attrs`.
pub open spec fn fsinfo_presence_list(p: FsInfo, attrs: Seq<u32>) -> bool {
    &&& (p.fh_expire_type is Some <==> attrs.contains(FATTR4_FH_EXPIRE_TYPE))
    &&& (p.link_support is Some <==> attrs.contains(FATTR4_LINK_SUPPORT))
    &&& (p.symlink_support is Some <==> attrs.contains(FATTR4_SYMLINK_SUPPORT))
    &&& (p.unique_handles is Some <==> attrs.contains(FATTR4_UNIQUE_HANDLES))
    &&& (p.lease_time_seconds is Some <==> attrs.contains(FATTR4_LEASE_TIME))
    &&& (p.can_set_time is Some <==> attrs.contains(FATTR4_CANSETTIME))
    &&& (p.homogeneous is Some <==> attrs.contains(FATTR4_HOMOGENEOUS))
    &&& (p.max_file_size is Some <==> attrs.contains(FATTR4_MAXFILESIZE))
    &&& (p.max_read is Some <==> attrs.contains(FATTR4_MAXREAD))
    &&& (p.max_write is Some <==> attrs.contains(FATTR4_MAXWRITE))
    &&& (p.time_delta is Some <==> attrs.contains(FATTR4_TIME_DELTA))
}

/// Each parsed field is present exactly when the bitmap holds its attribute.
pub open spec fn fsinfo_presence(p: FsInfo, b: Bitmap) -> bool {
    &&& (p.fh_expire_type is Some <==> b.has(FATTR4_FH_EXPIRE_TYPE))
    &&& (p.link_support is Some <==> b.has(FATTR4_LINK_SUPPORT))
    &&& (p.symlink_support is Some <==> b.has(FATTR4_SYMLINK_SUPPORT))
    &&& (p.unique_handles is Some <==> b.has(FATTR4_UNIQUE_HANDLES))
    &&& (p.lease_time_seconds is Some <==> b.has(FATTR4_LEASE_TIME))
    &&& (p.can_set_time is Some <==> b.has(FATTR4_CANSETTIME))
    &&& (p.homogeneous is Some <==> b.has(FATTR4_HOMOGENEOUS))
    &&& (p.max_file_size is Some <==> b.has(FATTR4_MAXFILESIZE))
    &&& (p.max_read is Some <==> b.has(FATTR4_MAXREAD))
    &&& (p.max_write is Some <==> b.has(FATTR4_MAXWRITE))
    &&& (p.time_delta is Some <==> b.has(FATTR4_TIME_DELTA))
}

/// Each parsed field is present exactly when its attribute is among `attrs`.
pub open spec fn pathconf_presence_list(p: PathConf, attrs: Seq<u32>) -> bool {
    &&& (p.case_insensitive is Some <==> attrs.contains(FATTR4_CASE_INSENSITIVE))
    &&& (p.case_preserving is Some <==> attrs.contains(FATTR4_CASE_PRESERVING))
    &&& (p.chown_restricted is Some <==> attrs.contains(FATTR4_CHOWN_RESTRICTED))
    &&& (p.link_max is Some <==> attrs.contains(FATTR4_MAXLINK))
    &&& (p.name_max is Some <==> attrs.contains(FATTR4_MAXNAME))
    &&& (p.no_trunc is Some <==> attrs.contains(FATTR4_NO_TRUNC))
}

/// Each parsed field is present exactly when the bitmap holds its attribute.
pub open spec fn pathconf_presence(p: PathConf, b: Bitmap) -> bool {
    &&& (p.case_insensitive is Some <==> b.has(FATTR4_CASE_INSENSITIVE))
    &&& (p.case_preserving is Some <==> b.has(FATTR4_CASE_PRESERVING))
    &&& (p.chown_restricted is Some <==> b.has(FATTR4_CHOWN_RESTRICTED))
    &&& (p.link_max is Some <==> b.has(FATTR4_MAXLINK))
    &&& (p.name_max is Some <==> b.has(FATTR4_MAXNAME))
    &&& (p.no_trunc is Some <==> b.has(FATTR4_NO_TRUNC))
}

proof fn lemma_prefix_push_contains(list: Seq<u32>, k: int, x: u32)
    requires
        0 <= k < list.len(),
    ensures
        list.subrange(0, k + 1).contains(x) <==> (list.subrange(0, k).contains(x) || list[k] == x),
{
    broadcast use vstd::seq_lib::group_seq_properties;
    assert(list.subrange(0, k + 1) =~= list.subrange(0, k).push(list[k]));
}

proof fn lemma_all_known(b: Bitmap, list: Seq<u32>, known: spec_fn(u32) -> bool)
    requires
        forall|a: u32| b.has(a) <==> list.contains(a),
        forall|j: int| 0 <= j < list.len() ==> known(#[trigger] list[j]),
    ensures
        forall|a: u32| b.has(a) ==> known(a),
{
    assert forall|a: u32| b.has(a) implies known(a) by {
        let j = choose|j: int| 0 <= j < list.len() && list[j] == a;
    }
}

/// `list` is the attributes of `b` in increasing order.
pub open spec fn is_attr_list(b: Bitmap, list: Seq<u32>) -> bool {
    &&& forall|a: u32| b.has(a) <==> list.contains(a)
    &&& forall|i: int, j: int| 0 <= i < j < list.len() ==> list[i] < list[j]
}

/// The attributes of `b` in increasing order.
pub open spec fn attr_list(b: Bitmap) -> Seq<u32> {
    choose|l: Seq<u32>| is_attr_list(b, l)
}

/// An increasing list of the attributes of `b` is `attr_list(b)`.
pub proof fn lemma_attr_list_is(b: Bitmap, l: Seq<u32>)
    requires
        is_attr_list(b, l),
    ensures
        attr_list(b) == l,
        is_attr_list(b, attr_list(b)),
{
    lemma_attr_list_unique(b, attr_list(b), l);
}

/// Two increasing lists with the same elements are equal.
pub proof fn lemma_attr_list_unique(b: Bitmap, l1: Seq<u32>, l2: Seq<u32>)
    requires
        is_attr_list(b, l1),
        is_attr_list(b, l2),
    ensures
        l1 == l2,
{
    lemma_increasing_same_elements(l1, l2);
}

proof fn lemma_increasing_same_elements(l1: Seq<u32>, l2: Seq<u32>)
    requires
        forall|i: int, j: int| 0 <= i < j < l1.len() ==> l1[i] < l1[j],
        forall|i: int, j: int| 0 <= i < j < l2.len() ==> l2[i] < l2[j],
        forall|a: u32| l1.contains(a) <==> l2.contains(a),
    ensures
        l1 == l2,
    decreases l1.len() + l2.len(),
{
    if l1.len() == 0 {
        if l2.len() > 0 {
            assert(l2.contains(l2[0]));
        }
        assert(l1 =~= l2);
    } else if l2.len() == 0 {
        assert(l1.contains(l1[0]));
    } else {
        assert(l1.contains(l1[0]));
        assert(l2.contains(l2[0]));
        let i = choose|i: int| 0 <= i < l2.len() && l2[i] == l1[0];
        let j = choose|j: int| 0 <= j < l1.len() && l1[j] == l2[0];
        assert(l1[0] == l2[0]) by {
            if i > 0 {
                assert(l2[0] < l2[i]);
            }
            if j > 0 {
                assert(l1[0] < l1[j]);
            }
        }
        let r1 = l1.drop_first();
        let r2 = l2.drop_first();
        assert forall|a: u32| r1.contains(a) implies r2.contains(a) by {
            let k = choose|k: int| 0 <= k < r1.len() && r1[k] == a;
            assert(l1[0] < l1[k + 1]);
            assert(l1.contains(a));
            let m = choose|m: int| 0 <= m < l2.len() && l2[m] == a;
            assert(m != 0);
            assert(r2[m - 1] == a);
        }
        assert forall|a: u32| r2.contains(a) implies r1.contains(a) by {
            let k = choose|k: int| 0 <= k < r2.len() && r2[k] == a;
            assert(l2[0] < l2[k + 1]);
            assert(l2.contains(a));
            let m = choose|m: int| 0 <= m < l1.len() && l1[m] == a;
            assert(m != 0);
            assert(r1[m - 1] == a);
        }
        lemma_increasing_same_elements(r1, r2);
        assert(l1 =~= seq![l1[0]] + r1);
        assert(l2 =~= seq![l2[0]] + r2);
    }
}

/// The big-endian 32-bit value at byte `p` of `d`.
pub open spec fn u32_at(d: Seq<u8>, p: int) -> u32 {
    u32_of_be(d.subrange(p, p + 4))
}

/// The big-endian 64-bit value at byte `p` of `d`.
pub open spec fn u64_at(d: Seq<u8>, p: int) -> u64 {
    u64_of_be(d.subrange(p, p + 8))
}

/// The time encoded at byte `p` of `d`: signed seconds, then nanoseconds.
pub open spec fn time_at(d: Seq<u8>, p: int) -> NfsTime {
    NfsTime { seconds: u64_at(d, p) as i64, nseconds: u32_at(d, p + 8) }
}

/// The bytes of the variable-length string encoded at byte `p` of `d`.
pub open spec fn text_bytes_at(d: Seq<u8>, p: int) -> Seq<u8> {
    d.subrange(p + 4, p + 4 + u32_at(d, p))
}

/// Attributes whose value is an unsigned 32-bit integer.
pub open spec fn is_u32_valued(a: u32) -> bool {
    a == FATTR4_TYPE || a == FATTR4_FH_EXPIRE_TYPE || a == FATTR4_LEASE_TIME || a == FATTR4_MAXLINK
        || a == FATTR4_MAXNAME || a == FATTR4_MODE || a == FATTR4_NUMLINKS
}

/// Attributes whose value is a boolean.
pub open spec fn is_bool_valued(a: u32) -> bool {
    a == FATTR4_LINK_SUPPORT || a == FATTR4_SYMLINK_SUPPORT || a == FATTR4_UNIQUE_HANDLES
        || a == FATTR4_CANSETTIME || a == FATTR4_CASE_INSENSITIVE || a == FATTR4_CASE_PRESERVING
        || a == FATTR4_CHOWN_RESTRICTED || a == FATTR4_HOMOGENEOUS || a == FATTR4_NO_TRUNC
}

/// Attributes whose value is an unsigned 64-bit integer.
pub open spec fn is_u64_valued(a: u32) -> bool {
    a == FATTR4_CHANGE || a == FATTR4_SIZE || a == FATTR4_FILEID || a == FATTR4_FILES_AVAIL
        || a == FATTR4_FILES_FREE || a == FATTR4_FILES_TOTAL || a == FATTR4_MAXFILESIZE
        || a == FATTR4_MAXREAD || a == FATTR4_MAXWRITE || a == FATTR4_SPACE_AVAIL
        || a == FATTR4_SPACE_FREE || a == FATTR4_SPACE_TOTAL || a == FATTR4_SPACE_USED
}

/// Attributes whose value is a string.
pub open spec fn is_text_valued(a: u32) -> bool {
    a == FATTR4_OWNER || a == FATTR4_OWNER_GROUP
}

/// Attributes whose value is a time.
pub open spec fn is_time_valued(a: u32) -> bool {
    a == FATTR4_TIME_ACCESS || a == FATTR4_TIME_DELTA || a == FATTR4_TIME_METADATA || a == FATTR4_TIME_MODIFY
}

/// The number of bytes that the value of attribute `a` takes at byte `p` of `d`.
pub open spec fn attr_value_len(a: u32, d: Seq<u8>, p: int) -> int {
    if is_u32_valued(a) || is_bool_valued(a) {
        4
    } else if is_u64_valued(a) {
        8
    } else if is_time_valued(a) {
        12
    } else if is_text_valued(a) {
        4 + u32_at(d, p) + pad_len(u32_at(d, p) as nat)
    } else {
        0
    }
}

/// Whether a well-formed value of attribute `a` starts at byte `p` of `d`.
pub open spec fn attr_value_ok(a: u32, d: Seq<u8>, p: int) -> bool {
    &&& is_text_valued(a) ==> p + 4 <= d.len() && u32_at(d, p) <= NFS4_OPAQUE_LIMIT
        && valid_utf8(text_bytes_at(d, p))
    &&& p + attr_value_len(a, d, p) <= d.len()
    &&& is_bool_valued(a) ==> u32_at(d, p) <= 1
    &&& is_time_valued(a) ==> u32_at(d, p + 8) < NFS4_NSECONDS_PER_SECOND
}

/// The byte at which the value of the `i`-th attribute of `list` starts in `d`.
pub open spec fn attr_offset(list: Seq<u32>, d: Seq<u8>, i: nat) -> int
    decreases i,
{
    if i == 0 {
        0
    } else {
        let p = attr_offset(list, d, (i - 1) as nat);
        p + attr_value_len(list[i - 1], d, p)
    }
}

/// `d` holds one well-formed value for each attribute of `list`, in order,
/// and nothing after them.
pub open spec fn attr_values_ok(list: Seq<u32>, d: Seq<u8>) -> bool {
    &&& forall|i: int| 0 <= i < list.len() ==> attr_value_ok(list[i], d, #[trigger] attr_offset(list, d, i as nat))
    &&& attr_offset(list, d, list.len()) == d.len()
}

/// The field that `p` holds for attribute `a` is the value encoded at
/// byte `off` of `d`.
pub open spec fn basic_value_at(p: BasicAttributes, a: u32, d: Seq<u8>, off: int) -> bool {
    if a == FATTR4_TYPE {
        p.file_type == Some(FileType::from_code(u32_at(d, off)))
    } else if a == FATTR4_CHANGE {
        p.change == Some(u64_at(d, off))
    } else if a == FATTR4_SIZE {
        p.size == Some(u64_at(d, off))
    } else if a == FATTR4_FILEID {
        p.fileid == Some(u64_at(d, off))
    } else if a == FATTR4_MODE {
        p.mode == Some(u32_at(d, off))
    } else if a == FATTR4_NUMLINKS {
        p.numlinks == Some(u32_at(d, off))
    } else if a == FATTR4_OWNER {
        p.owner matches Some(s) && s@ == decode_utf8(text_bytes_at(d, off))
    } else if a == FATTR4_OWNER_GROUP {
        p.owner_group matches Some(s) && s@ == decode_utf8(text_bytes_at(d, off))
    } else if a == FATTR4_SPACE_USED {
        p.space_used == Some(u64_at(d, off))
    } else if a == FATTR4_TIME_ACCESS {
        p.access_time == Some(time_at(d, off))
    } else if a == FATTR4_TIME_METADATA {
        p.metadata_time == Some(time_at(d, off))
    } else if a == FATTR4_TIME_MODIFY {
        p.modify_time == Some(time_at(d, off))
    } else {
        true
    }
}

/// `f` carries only basic attributes, each with a well-formed value.
pub open spec fn basic_attrs_decode(f: Fattr) -> bool {
    let list = attr_list(f.attrmask);
    &&& forall|j: int| 0 <= j < list.len() ==> is_basic_attr(#[trigger] list[j])
    &&& attr_values_ok(list, f.attr_vals@)
}

/// `p` holds exactly the basic attributes that `f` carries, with the values
/// that `f` encodes.
pub open spec fn basic_attrs_of(f: Fattr, p: BasicAttributes) -> bool {
    let list = attr_list(f.attrmask);
    let d = f.attr_vals@;
    &&& basic_presence(p, f.attrmask)
    &&& forall|j: int| 0 <= j < list.len() ==> basic_value_at(p, #[trigger] list[j], d, attr_offset(list, d, j as nat))
}

/// Two attribute payloads with the same mask words and values carry the same
/// basic attributes.
pub proof fn lemma_basic_attrs_of_same(f1: Fattr, f2: Fattr, p: BasicAttributes)
    requires
        f1.attrmask.words_view() == f2.attrmask.words_view(),
        f1.attr_vals@ == f2.attr_vals@,
        is_attr_list(f2.attrmask, attr_list(f2.attrmask)),
    ensures
        basic_attrs_of(f1, p) <==> basic_attrs_of(f2, p),
        basic_attrs_decode(f1) <==> basic_attrs_decode(f2),
        is_attr_list(f1.attrmask, attr_list(f1.attrmask)),
{
    let l = attr_list(f2.attrmask);
    assert(forall|a: u32| f1.attrmask.has(a) <==> f2.attrmask.has(a));
    assert(is_attr_list(f1.attrmask, l));
    lemma_attr_list_is(f1.attrmask, l);
}

/// `p2` holds the same fields as `p1`, except perhaps the one for attribute `a`.
pub open spec fn basic_fields_kept(p1: BasicAttributes, p2: BasicAttributes, a: u32) -> bool {
    &&& a != FATTR4_TYPE ==> p2.file_type == p1.file_type
    &&& a != FATTR4_CHANGE ==> p2.change == p1.change
    &&& a != FATTR4_SIZE ==> p2.size == p1.size
    &&& a != FATTR4_FILEID ==> p2.fileid == p1.fileid
    &&& a != FATTR4_MODE ==> p2.mode == p1.mode
    &&& a != FATTR4_NUMLINKS ==> p2.numlinks == p1.numlinks
    &&& a != FATTR4_OWNER ==> p2.owner == p1.owner
    &&& a != FATTR4_OWNER_GROUP ==> p2.owner_group == p1.owner_group
    &&& a != FATTR4_SPACE_USED ==> p2.space_used == p1.space_used
    &&& a != FATTR4_TIME_ACCESS ==> p2.access_time == p1.access_time
    &&& a != FATTR4_TIME_METADATA ==> p2.metadata_time == p1.metadata_time
    &&& a != FATTR4_TIME_MODIFY ==> p2.modify_time == p1.modify_time
    &&& p2.raw == p1.raw
}

proof fn lemma_basic_presence_step(before: BasicAttributes, after: BasicAttributes, list: Seq<u32>, k: int, d: Seq<u8>, off: int)
    requires
        0 <= k < list.len(),
        basic_presence_list(before, list.subrange(0, k)),
        basic_fields_kept(before, after, list[k]),
        is_basic_attr(list[k]),
        basic_value_at(after, list[k], d, off),
    ensures
        basic_presence_list(after, list.subrange(0, k + 1)),
{
    lemma_prefix_push_contains(list, k, FATTR4_TYPE);
    lemma_prefix_push_contains(list, k, FATTR4_CHANGE);
    lemma_prefix_push_contains(list, k, FATTR4_SIZE);
    lemma_prefix_push_contains(list, k, FATTR4_FILEID);
    lemma_prefix_push_contains(list, k, FATTR4_MODE);
    lemma_prefix_push_contains(list, k, FATTR4_NUMLINKS);
    lemma_prefix_push_contains(list, k, FATTR4_OWNER);
    lemma_prefix_push_contains(list, k, FATTR4_OWNER_GROUP);
    lemma_prefix_push_contains(list, k, FATTR4_SPACE_USED);
    lemma_prefix_push_contains(list, k, FATTR4_TIME_ACCESS);
    lemma_prefix_push_contains(list, k, FATTR4_TIME_METADATA);
    lemma_prefix_push_contains(list, k, FATTR4_TIME_MODIFY);
}

/// Decodes the value of one basic attribute into its field of `parsed`.
fn decode_basic_value(parsed: &mut BasicAttributes, attr: u32, decoder: &mut Decoder<'_>) -> (r: Result<()>)
    ensures
        final(decoder).input() == old(decoder).input(),
        ({
            let d = old(decoder).input();
            let p = old(decoder).pos();
            &&& r is Ok <==> is_basic_attr(attr) && attr_value_ok(attr, d, p)
            &&& r is Ok ==> final(decoder).pos() == p + attr_value_len(attr, d, p)
            &&& r is Ok ==> basic_value_at(*final(parsed), attr, d, p)
            &&& basic_fields_kept(*old(parsed), *final(parsed), attr)
        }),
{
    if attr == FATTR4_TYPE {
        match decoder.read_u32() {
            Ok(v) => parsed.file_type = Some(FileType::from_u32(v)),
            Err(e) => return Err(Error::Xdr(e)),
        }
    } else if attr == FATTR4_CHANGE {
        match decoder.read_u64() {
            Ok(v) => parsed.change = Some(v),
            Err(e) => return Err(Error::Xdr(e)),
        }
    } else if attr == FATTR4_SIZE {
        match decoder.read_u64() {
            Ok(v) => parsed.size = Some(v),
            Err(e) => return Err(Error::Xdr(e)),
        }
    } else if attr == FATTR4_FILEID {
        match decoder.read_u64() {
            Ok(v) => parsed.fileid = Some(v),
            Err(e) => return Err(Error::Xdr(e)),
        }
    } else if attr == FATTR4_MODE {
        match decoder.read_u32() {
            Ok(v) => parsed.mode = Some(v),
            Err(e) => return Err(Error::Xdr(e)),
        }
    } else if attr == FATTR4_NUMLINKS {
        match decoder.read_u32() {
            Ok(v) => parsed.numlinks = Some(v),
            Err(e) => return Err(Error::Xdr(e)),
        }
    } else if attr == FATTR4_OWNER {
        match decoder.read_string(NFS4_OPAQUE_LIMIT) {
            Ok(v) => parsed.owner = Some(v),
            Err(e) => return Err(Error::Xdr(e)),
        }
    } else if attr == FATTR4_OWNER_GROUP {
        match decoder.read_string(NFS4_OPAQUE_LIMIT) {
            Ok(v) => parsed.owner_group = Some(v),
            Err(e) => return Err(Error::Xdr(e)),
        }
    } else if attr == FATTR4_SPACE_USED {
        match decoder.read_u64() {
            Ok(v) => parsed.space_used = Some(v),
            Err(e) => return Err(Error::Xdr(e)),
        }
    } else if attr == FATTR4_TIME_ACCESS {
        match NfsTime::decode(decoder) {
            Ok(v) => parsed.access_time = Some(v),
            Err(e) => return Err(Error::Xdr(e)),
        }
    } else if attr == FATTR4_TIME_METADATA {
        match NfsTime::decode(decoder) {
            Ok(v) => parsed.metadata_time = Some(v),
            Err(e) => return Err(Error::Xdr(e)),
        }
    } else if attr == FATTR4_TIME_MODIFY {
        match NfsTime::decode(decoder) {
            Ok(v) => parsed.modify_time = Some(v),
            Err(e) => return Err(Error::Xdr(e)),
        }
    } else {
        return Err(crate::error::protocol("cannot parse an unsupported NFSv4 attribute"));
    }
    Ok(())
}

/// The field that `p` holds for attribute `a` is the value encoded at
/// byte `off` of `d`.
pub open spec fn fsstat_value_at(p: FsStat, a: u32, d: Seq<u8>, off: int) -> bool {
    if a == FATTR4_FILES_AVAIL {
        p.available_files == Some(u64_at(d, off))
    } else if a == FATTR4_FILES_FREE {
        p.free_files == Some(u64_at(d, off))
    } else if a == FATTR4_FILES_TOTAL {
        p.total_files == Some(u64_at(d, off))
    } else if a == FATTR4_SPACE_AVAIL {
        p.available_bytes == Some(u64_at(d, off))
    } else if a == FATTR4_SPACE_FREE {
        p.free_bytes == Some(u64_at(d, off))
    } else if a == FATTR4_SPACE_TOTAL {
        p.total_bytes == Some(u64_at(d, off))
    } else {
        true
    }
}

/// `p2` holds the same fields as `p1`, except perhaps the one for attribute `a`.
pub open spec fn fsstat_fields_kept(p1: FsStat, p2: FsStat, a: u32) -> bool {
    &&& a != FATTR4_FILES_AVAIL ==> p2.available_files == p1.available_files
    &&& a != FATTR4_FILES_FREE ==> p2.free_files == p1.free_files
    &&& a != FATTR4_FILES_TOTAL ==> p2.total_files == p1.total_files
    &&& a != FATTR4_SPACE_AVAIL ==> p2.available_bytes == p1.available_bytes
    &&& a != FATTR4_SPACE_FREE ==> p2.free_bytes == p1.free_bytes
    &&& a != FATTR4_SPACE_TOTAL ==> p2.total_bytes == p1.total_bytes
}

proof fn lemma_fsstat_presence_step(before: FsStat, after: FsStat, list: Seq<u32>, k: int, d: Seq<u8>, off: int)
    requires
        0 <= k < list.len(),
        fsstat_presence_list(before, list.subrange(0, k)),
        fsstat_fields_kept(before, after, list[k]),
        is_fsstat_attr(list[k]),
        fsstat_value_at(after, list[k], d, off),
    ensures
        fsstat_presence_list(after, list.subrange(0, k + 1)),
{
    lemma_prefix_push_contains(list, k, FATTR4_FILES_AVAIL);
    lemma_prefix_push_contains(list, k, FATTR4_FILES_FREE);
    lemma_prefix_push_contains(list, k, FATTR4_FILES_TOTAL);
    lemma_prefix_push_contains(list, k, FATTR4_SPACE_AVAIL);
    lemma_prefix_push_contains(list, k, FATTR4_SPACE_FREE);
    lemma_prefix_push_contains(list, k, FATTR4_SPACE_TOTAL);
}

/// Decodes the value of one attribute into its field of `parsed`.
fn decode_fsstat_value(parsed: &mut FsStat, attr: u32, decoder: &mut Decoder<'_>) -> (r: Result<()>)
    ensures
        final(decoder).input() == old(decoder).input(),
        ({
            let d = old(decoder).input();
            let p = old(decoder).pos();
            &&& r is Ok <==> is_fsstat_attr(attr) && attr_value_ok(attr, d, p)
            &&& r is Ok ==> final(decoder).pos() == p + attr_value_len(attr, d, p)
            &&& r is Ok ==> fsstat_value_at(*final(parsed), attr, d, p)
            &&& fsstat_fields_kept(*old(parsed), *final(parsed), attr)
        }),
{
    if attr == FATTR4_FILES_AVAIL {
        match decoder.read_u64() {
            Ok(v) => parsed.available_files = Some(v),
            Err(e) => return Err(Error::Xdr(e)),
        }
    } else if attr == FATTR4_FILES_FREE {
        match decoder.read_u64() {
            Ok(v) => parsed.free_files = Some(v),
            Err(e) => return Err(Error::Xdr(e)),
        }
    } else if attr == FATTR4_FILES_TOTAL {
        match decoder.read_u64() {
            Ok(v) => parsed.total_files = Some(v),
            Err(e) => return Err(Error::Xdr(e)),
        }
    } else if attr == FATTR4_SPACE_AVAIL {
        match decoder.read_u64() {
            Ok(v) => parsed.available_bytes = Some(v),
            Err(e) => return Err(Error::Xdr(e)),
        }
    } else if attr == FATTR4_SPACE_FREE {
        match decoder.read_u64() {
            Ok(v) => parsed.free_bytes = Some(v),
            Err(e) => return Err(Error::Xdr(e)),
        }
    } else if attr == FATTR4_SPACE_TOTAL {
        match decoder.read_u64() {
            Ok(v) => parsed.total_bytes = Some(v),
            Err(e) => return Err(Error::Xdr(e)),
        }
    } else {
        return Err(crate::error::protocol("cannot parse an unsupported NFSv4 attribute"));
    }
    Ok(())
}

/// The field that `p` holds for attribute `a` is the value encoded at
/// byte `off` of `d`.
pub open spec fn fsinfo_value_at(p: FsInfo, a: u32, d: Seq<u8>, off: int) -> bool {
    if a == FATTR4_FH_EXPIRE_TYPE {
        p.fh_expire_type == Some(u32_at(d, off))
    } else if a == FATTR4_LINK_SUPPORT {
        p.link_support == Some(u32_at(d, off) == 1)
    } else if a == FATTR4_SYMLINK_SUPPORT {
        p.symlink_support == Some(u32_at(d, off) == 1)
    } else if a == FATTR4_UNIQUE_HANDLES {
        p.unique_handles == Some(u32_at(d, off) == 1)
    } else if a == FATTR4_LEASE_TIME {
        p.lease_time_seconds == Some(u32_at(d, off))
    } else if a == FATTR4_CANSETTIME {
        p.can_set_time == Some(u32_at(d, off) == 1)
    } else if a == FATTR4_HOMOGENEOUS {
        p.homogeneous == Some(u32_at(d, off) == 1)
    } else if a == FATTR4_MAXFILESIZE {
        p.max_file_size == Some(u64_at(d, off))
    } else if a == FATTR4_MAXREAD {
        p.max_read == Some(u64_at(d, off))
    } else if a == FATTR4_MAXWRITE {
        p.max_write == Some(u64_at(d, off))
    } else if a == FATTR4_TIME_DELTA {
        p.time_delta == Some(time_at(d, off))
    } else {
        true
    }
}

/// `p2` holds the same fields as `p1`, except perhaps the one for attribute `a`.
pub open spec fn fsinfo_fields_kept(p1: FsInfo, p2: FsInfo, a: u32) -> bool {
    &&& a != FATTR4_FH_EXPIRE_TYPE ==> p2.fh_expire_type == p1.fh_expire_type
    &&& a != FATTR4_LINK_SUPPORT ==> p2.link_support == p1.link_support
    &&& a != FATTR4_SYMLINK_SUPPORT ==> p2.symlink_support == p1.symlink_support
    &&& a != FATTR4_UNIQUE_HANDLES ==> p2.unique_handles == p1.unique_handles
    &&& a != FATTR4_LEASE_TIME ==> p2.lease_time_seconds == p1.lease_time_seconds
    &&& a != FATTR4_CANSETTIME ==> p2.can_set_time == p1.can_set_time
    &&& a != FATTR4_HOMOGENEOUS ==> p2.homogeneous == p1.homogeneous
    &&& a != FATTR4_MAXFILESIZE ==> p2.max_file_size == p1.max_file_size
    &&& a != FATTR4_MAXREAD ==> p2.max_read == p1.max_read
    &&& a != FATTR4_MAXWRITE ==> p2.max_write == p1.max_write
    &&& a != FATTR4_TIME_DELTA ==> p2.time_delta == p1.time_delta
}

proof fn lemma_fsinfo_presence_step(before: FsInfo, after: FsInfo, list: Seq<u32>, k: int, d: Seq<u8>, off: int)
    requires
        0 <= k < list.len(),
        fsinfo_presence_list(before, list.subrange(0, k)),
        fsinfo_fields_kept(before, after, list[k]),
        is_fsinfo_attr(list[k]),
        fsinfo_value_at(after, list[k], d, off),
    ensures
        fsinfo_presence_list(after, list.subrange(0, k + 1)),
{
    lemma_prefix_push_contains(list, k, FATTR4_FH_EXPIRE_TYPE);
    lemma_prefix_push_contains(list, k, FATTR4_LINK_SUPPORT);
    lemma_prefix_push_contains(list, k, FATTR4_SYMLINK_SUPPORT);
    lemma_prefix_push_contains(list, k, FATTR4_UNIQUE_HANDLES);
    lemma_prefix_push_contains(list, k, FATTR4_LEASE_TIME);
    lemma_prefix_push_contains(list, k, FATTR4_CANSETTIME);
    lemma_prefix_push_contains(list, k, FATTR4_HOMOGENEOUS);
    lemma_prefix_push_contains(list, k, FATTR4_MAXFILESIZE);
    lemma_prefix_push_contains(list, k, FATTR4_MAXREAD);
    lemma_prefix_push_contains(list, k, FATTR4_MAXWRITE);
    lemma_prefix_push_contains(list, k, FATTR4_TIME_DELTA);
}

/// Decodes the value of one attribute into its field of `parsed`.
fn decode_fsinfo_value(parsed: &mut FsInfo, attr: u32, decoder: &mut Decoder<'_>) -> (r: Result<()>)
    ensures
        final(decoder).input() == old(decoder).input(),
        ({
            let d = old(decoder).input();
            let p = old(decoder).pos();
            &&& r is Ok <==> is_fsinfo_attr(attr) && attr_value_ok(attr, d, p)
            &&& r is Ok ==> final(decoder).pos() == p + attr_value_len(attr, d, p)
            &&& r is Ok ==> fsinfo_value_at(*final(parsed), attr, d, p)
            &&& fsinfo_fields_kept(*old(parsed), *final(parsed), attr)
        }),
{
    if attr == FATTR4_FH_EXPIRE_TYPE {
        match decoder.read_u32() {
            Ok(v) => parsed.fh_expire_type = Some(v),
            Err(e) => return Err(Error::Xdr(e)),
        }
    } else if attr == FATTR4_LINK_SUPPORT {
        match decoder.read_bool() {
            Ok(v) => parsed.link_support = Some(v),
            Err(e) => return Err(Error::Xdr(e)),
        }
    } else if attr == FATTR4_SYMLINK_SUPPORT {
        match decoder.read_bool() {
            Ok(v) => parsed.symlink_support = Some(v),
            Err(e) => return Err(Error::Xdr(e)),
        }
    } else if attr == FATTR4_UNIQUE_HANDLES {
        match decoder.read_bool() {
            Ok(v) => parsed.unique_handles = Some(v),
            Err(e) => return Err(Error::Xdr(e)),
        }
    } else if attr == FATTR4_LEASE_TIME {
        match decoder.read_u32() {
            Ok(v) => parsed.lease_time_seconds = Some(v),
            Err(e) => return Err(Error::Xdr(e)),
        }
    } else if attr == FATTR4_CANSETTIME {
        match decoder.read_bool() {
            Ok(v) => parsed.can_set_time = Some(v),
            Err(e) => return Err(Error::Xdr(e)),
        }
    } else if attr == FATTR4_HOMOGENEOUS {
        match decoder.read_bool() {
            Ok(v) => parsed.homogeneous = Some(v),
            Err(e) => return Err(Error::Xdr(e)),
        }
    } else if attr == FATTR4_MAXFILESIZE {
        match decoder.read_u64() {
            Ok(v) => parsed.max_file_size = Some(v),
            Err(e) => return Err(Error::Xdr(e)),
        }
    } else if attr == FATTR4_MAXREAD {
        match decoder.read_u64() {
            Ok(v) => parsed.max_read = Some(v),
            Err(e) => return Err(Error::Xdr(e)),
        }
    } else if attr == FATTR4_MAXWRITE {
        match decoder.read_u64() {
            Ok(v) => parsed.max_write = Some(v),
            Err(e) => return Err(Error::Xdr(e)),
        }
    } else if attr == FATTR4_TIME_DELTA {
        match NfsTime::decode(decoder) {
            Ok(v) => parsed.time_delta = Some(v),
            Err(e) => return Err(Error::Xdr(e)),
        }
    } else {
        return Err(crate::error::protocol("cannot parse an unsupported NFSv4 attribute"));
    }
    Ok(())
}

/// The field that `p` holds for attribute `a` is the value encoded at
/// byte `off` of `d`.
pub open spec fn pathconf_value_at(p: PathConf, a: u32, d: Seq<u8>, off: int) -> bool {
    if a == FATTR4_CASE_INSENSITIVE {
        p.case_insensitive == Some(u32_at(d, off) == 1)
    } else if a == FATTR4_CASE_PRESERVING {
        p.case_preserving == Some(u32_at(d, off) == 1)
    } else if a == FATTR4_CHOWN_RESTRICTED {
        p.chown_restricted == Some(u32_at(d, off) == 1)
    } else if a == FATTR4_MAXLINK {
        p.link_max == Some(u32_at(d, off))
    } else if a == FATTR4_MAXNAME {
        p.name_max == Some(u32_at(d, off))
    } else if a == FATTR4_NO_TRUNC {
        p.no_trunc == Some(u32_at(d, off) == 1)
    } else {
        true
    }
}

/// `p2` holds the same fields as `p1`, except perhaps the one for attribute `a`.
pub open spec fn pathconf_fields_kept(p1: PathConf, p2: PathConf, a: u32) -> bool {
    &&& a != FATTR4_CASE_INSENSITIVE ==> p2.case_insensitive == p1.case_insensitive
    &&& a != FATTR4_CASE_PRESERVING ==> p2.case_preserving == p1.case_preserving
    &&& a != FATTR4_CHOWN_RESTRICTED ==> p2.chown_restricted == p1.chown_restricted
    &&& a != FATTR4_MAXLINK ==> p2.link_max == p1.link_max
    &&& a != FATTR4_MAXNAME ==> p2.name_max == p1.name_max
    &&& a != FATTR4_NO_TRUNC ==> p2.no_trunc == p1.no_trunc
}

proof fn lemma_pathconf_presence_step(before: PathConf, after: PathConf, list: Seq<u32>, k: int, d: Seq<u8>, off: int)
    requires
        0 <= k < list.len(),
        pathconf_presence_list(before, list.subrange(0, k)),
        pathconf_fields_kept(before, after, list[k]),
        is_pathconf_attr(list[k]),
        pathconf_value_at(after, list[k], d, off),
    ensures
        pathconf_presence_list(after, list.subrange(0, k + 1)),
{
    lemma_prefix_push_contains(list, k, FATTR4_CASE_INSENSITIVE);
    lemma_prefix_push_contains(list, k, FATTR4_CASE_PRESERVING);
    lemma_prefix_push_contains(list, k, FATTR4_CHOWN_RESTRICTED);
    lemma_prefix_push_contains(list, k, FATTR4_MAXLINK);
    lemma_prefix_push_contains(list, k, FATTR4_MAXNAME);
    lemma_prefix_push_contains(list, k, FATTR4_NO_TRUNC);
}

/// Decodes the value of one attribute into its field of `parsed`.
fn decode_pathconf_value(parsed: &mut PathConf, attr: u32, decoder: &mut Decoder<'_>) -> (r: Result<()>)
    ensures
        final(decoder).input() == old(decoder).input(),
        ({
            let d = old(decoder).input();
            let p = old(decoder).pos();
            &&& r is Ok <==> is_pathconf_attr(attr) && attr_value_ok(attr, d, p)
            &&& r is Ok ==> final(decoder).pos() == p + attr_value_len(attr, d, p)
            &&& r is Ok ==> pathconf_value_at(*final(parsed), attr, d, p)
            &&& pathconf_fields_kept(*old(parsed), *final(parsed), attr)
        }),
{
    if attr == FATTR4_CASE_INSENSITIVE {
        match decoder.read_bool() {
            Ok(v) => parsed.case_insensitive = Some(v),
            Err(e) => return Err(Error::Xdr(e)),
        }
    } else if attr == FATTR4_CASE_PRESERVING {
        match decoder.read_bool() {
            Ok(v) => parsed.case_preserving = Some(v),
            Err(e) => return Err(Error::Xdr(e)),
        }
    } else if attr == FATTR4_CHOWN_RESTRICTED {
        match decoder.read_bool() {
            Ok(v) => parsed.chown_restricted = Some(v),
            Err(e) => return Err(Error::Xdr(e)),
        }
    } else if attr == FATTR4_MAXLINK {
        match decoder.read_u32() {
            Ok(v) => parsed.link_max = Some(v),
            Err(e) => return Err(Error::Xdr(e)),
        }
    } else if attr == FATTR4_MAXNAME {
        match decoder.read_u32() {
            Ok(v) => parsed.name_max = Some(v),
            Err(e) => return Err(Error::Xdr(e)),
        }
    } else if attr == FATTR4_NO_TRUNC {
        match decoder.read_bool() {
            Ok(v) => parsed.no_trunc = Some(v),
            Err(e) => return Err(Error::Xdr(e)),
        }
    } else {
        return Err(crate::error::protocol("cannot parse an unsupported NFSv4 attribute"));
    }
    Ok(())
}

impl Fattr {
    /// Creates an empty attribute payload.
    pub fn empty() -> (r: Self)
        ensures
            r.attrmask.words_view() == Seq::<u32>::empty(),
            r.attr_vals@ == Seq::<u8>::empty(),
    {
        Fattr { attrmask: Bitmap::empty(), attr_vals: Vec::new() }
    }

    /// Creates an attribute payload that sets file size.
    pub fn size(size: u64) -> (r: Self)
        ensures
            r.attrmask.exactly(seq![FATTR4_SIZE]),
            r.attr_vals@ == be_u64(size),
    {
        let mut encoder = Encoder::new();
        encoder.write_u64(size);
        let attrs = [FATTR4_SIZE];
        assert(attrs@ == seq![FATTR4_SIZE]);
        Fattr { attrmask: Bitmap::from_known_attrs(attrs.as_slice()), attr_vals: encoder.into_bytes() }
    }

    /// Creates an attribute payload that sets mode bits.
    pub fn mode(mode: u32) -> (r: Self)
        ensures
            r.attrmask.exactly(seq![FATTR4_MODE]),
            r.attr_vals@ == be_u32(mode),
    {
        let mut encoder = Encoder::new();
        encoder.write_u32(mode);
        let attrs = [FATTR4_MODE];
        assert(attrs@ == seq![FATTR4_MODE]);
        Fattr { attrmask: Bitmap::from_known_attrs(attrs.as_slice()), attr_vals: encoder.into_bytes() }
    }

    /// Encodes high-level settable attributes.
    ///
    /// Fails when an owner string is longer than [`NFS4_OPAQUE_LIMIT`] bytes or
    /// a client time has nanoseconds out of range.
    #[verifier::rlimit(80)]
    #[verifier::spinoff_prover]
    pub fn from_set_attrs(attrs: &SetAttrs) -> (r: Result<Self>)
        ensures
            r matches Ok(f) ==> {
                &&& f.attrmask.has(FATTR4_SIZE) == (attrs.size is Some)
                &&& f.attrmask.has(FATTR4_MODE) == (attrs.mode is Some)
                &&& f.attrmask.has(FATTR4_OWNER) == (attrs.owner is Some)
                &&& f.attrmask.has(FATTR4_OWNER_GROUP) == (attrs.owner_group is Some)
                &&& f.attrmask.has(FATTR4_TIME_ACCESS_SET) == !(attrs.access_time is DontChange)
                &&& f.attrmask.has(FATTR4_TIME_MODIFY_SET) == !(attrs.modify_time is DontChange)
                &&& forall|a: u32| f.attrmask.has(a) ==> a == FATTR4_SIZE || a == FATTR4_MODE
                    || a == FATTR4_OWNER || a == FATTR4_OWNER_GROUP || a == FATTR4_TIME_ACCESS_SET
                    || a == FATTR4_TIME_MODIFY_SET
            },
            (attrs.access_time matches SetTime::ClientTime(t) && t.nseconds >= NFS4_NSECONDS_PER_SECOND) ==> r is Err,
            (attrs.modify_time matches SetTime::ClientTime(t) && t.nseconds >= NFS4_NSECONDS_PER_SECOND) ==> r is Err,
            r is Ok <==> opt_text_ok(attrs.owner) && opt_text_ok(attrs.owner_group)
                && set_time_ok(attrs.access_time) && set_time_ok(attrs.modify_time),
            r matches Ok(f) ==> f.attr_vals@ == set_attrs_bytes(*attrs),
            set_attrs_empty(*attrs) ==> (r matches Ok(f) && f.attrmask.words_view().len() == 0),
            r matches Ok(f) ==> f.attrmask.exactly(set_attrs_list(*attrs)),
    {
        let mut attr_ids: Vec<u32> = Vec::new();
        let mut encoder = Encoder::new();
        let ghost a = *attrs;
        let ghost sz = match a.size { Some(v) => be_u64(v), None => Seq::<u8>::empty() };
        let ghost md = match a.mode { Some(m) => be_u32(m), None => Seq::<u8>::empty() };
        let ghost l1 = if a.size is Some { seq![FATTR4_SIZE] } else { Seq::<u32>::empty() };
        let ghost l2 = if a.mode is Some { seq![FATTR4_MODE] } else { Seq::<u32>::empty() };
        let ghost l3 = if a.owner is Some { seq![FATTR4_OWNER] } else { Seq::<u32>::empty() };
        let ghost l4 = if a.owner_group is Some { seq![FATTR4_OWNER_GROUP] } else { Seq::<u32>::empty() };
        let ghost l5 = if a.access_time is DontChange { Seq::<u32>::empty() } else { seq![FATTR4_TIME_ACCESS_SET] };
        let ghost l6 = if a.modify_time is DontChange { Seq::<u32>::empty() } else { seq![FATTR4_TIME_MODIFY_SET] };
        if let Some(size) = attrs.size {
            attr_ids.push(FATTR4_SIZE);
            encoder.write_u64(size);
        }
        assert(encoder@ =~= sz);
        assert(attr_ids@ =~= l1);
        if let Some(mode) = attrs.mode {
            attr_ids.push(FATTR4_MODE);
            encoder.write_u32(mode);
        }
        assert(encoder@ =~= sz + md);
        assert(attr_ids@ =~= l1 + l2);
        if let Some(owner) = &attrs.owner {
            attr_ids.push(FATTR4_OWNER);
            if let Err(e) = encoder.write_string(owner.as_str(), NFS4_OPAQUE_LIMIT) {
                return Err(Error::Xdr(e));
            }
        }
        assert(encoder@ =~= sz + md + opt_text_bytes(a.owner));
        assert(attr_ids@ =~= l1 + l2 + l3);
        if let Some(owner_group) = &attrs.owner_group {
            attr_ids.push(FATTR4_OWNER_GROUP);
            if let Err(e) = encoder.write_string(owner_group.as_str(), NFS4_OPAQUE_LIMIT) {
                return Err(Error::Xdr(e));
            }
        }
        assert(encoder@ =~= sz + md + opt_text_bytes(a.owner) + opt_text_bytes(a.owner_group));
        assert(attr_ids@ =~= l1 + l2 + l3 + l4);
        if !matches!(attrs.access_time, SetTime::DontChange) {
            attr_ids.push(FATTR4_TIME_ACCESS_SET);
            if let Err(e) = encode_set_time(&mut encoder, attrs.access_time) {
                return Err(Error::Xdr(e));
            }
        }
        assert(encoder@ =~= sz + md + opt_text_bytes(a.owner) + opt_text_bytes(a.owner_group) + set_time_bytes(a.access_time));
        assert(attr_ids@ =~= l1 + l2 + l3 + l4 + l5);
        if !matches!(attrs.modify_time, SetTime::DontChange) {
            attr_ids.push(FATTR4_TIME_MODIFY_SET);
            if let Err(e) = encode_set_time(&mut encoder, attrs.modify_time) {
                return Err(Error::Xdr(e));
            }
        }
        assert(encoder@ =~= set_attrs_bytes(a));
        assert(attr_ids@ =~= l1 + l2 + l3 + l4 + l5 + l6);
        assert(set_attrs_list(a) == l1 + l2 + l3 + l4 + l5 + l6);
        proof {
            broadcast use vstd::seq_lib::group_seq_properties;
        }
        let attrmask = Bitmap::from_known_attrs(attr_ids.as_slice());
        Ok(Fattr { attrmask, attr_vals: encoder.into_bytes() })
    }

    /// Parses a `supported_attrs` response.
    ///
    /// Succeeds only when the payload holds exactly the `supported_attrs`
    /// attribute, well formed.
    pub fn parse_supported_attrs(&self) -> (r: Result<Bitmap>)
        ensures
            r is Ok ==> forall|a: u32| self.attrmask.has(a) <==> a == FATTR4_SUPPORTED_ATTRS,
            r matches Ok(b) ==> self.attr_vals@ == be_u32(b.words_view().len() as u32) + u32_array_body(b.words_view()),
    {
        let list = self.attrmask.attrs();
        let ghost d = self.attr_vals@;
        let mut decoder = Decoder::new(self.attr_vals.as_slice());
        let mut supported: Option<Bitmap> = None;
        let mut k: usize = 0;
        while k < list.len()
            invariant
                k <= list@.len(),
                forall|j: int| 0 <= j < k ==> #[trigger] list@[j] == FATTR4_SUPPORTED_ATTRS,
                supported is Some <==> list@.subrange(0, k as int).contains(FATTR4_SUPPORTED_ATTRS),
                forall|i: int, j: int| 0 <= i < j < list@.len() ==> list@[i] < list@[j],
                d == self.attr_vals@,
                decoder.input() == d,
                k == 0 ==> decoder.pos() == 0,
                supported matches Some(b) ==> k == 1 && ({
                    let n = b.words_view().len() as int;
                    &&& 4 + 4 * n <= d.len()
                    &&& u32_at(d, 0) == n
                    &&& d.subrange(4, 4 + 4 * n) == u32_array_body(b.words_view())
                    &&& decoder.pos() == 4 + 4 * n
                }),
            decreases list@.len() - k,
        {
            let attr = list[k];
            proof {
                lemma_prefix_push_contains(list@, k as int, FATTR4_SUPPORTED_ATTRS);
                if k > 0 {
                    assert(list@[0] < list@[k as int]);
                }
            }
            if attr == FATTR4_SUPPORTED_ATTRS {
                match Bitmap::decode(&mut decoder) {
                    Ok(b) => supported = Some(b),
                    Err(e) => return Err(Error::Xdr(e)),
                }
            } else {
                return Err(crate::error::protocol("cannot parse an unsupported NFSv4 supported_attrs attribute"));
            }
            k = k + 1;
        }
        proof {
            assert(list@.subrange(0, list@.len() as int) =~= list@);
            lemma_all_known(self.attrmask, list@, |a: u32| a == FATTR4_SUPPORTED_ATTRS);
        }
        if let Err(e) = decoder.finish() {
            return Err(Error::Xdr(e));
        }
        match supported {
            Some(b) => {
                proof {
                    let n = b.words_view().len() as int;
                    lemma_u32_bytes_of_value(d.subrange(0, 4));
                    assert(d =~= d.subrange(0, 4) + d.subrange(4, 4 + 4 * n));
                }
                Ok(b)
            },
            None => Err(crate::error::protocol("NFSv4 supported_attrs response did not include attr 0")),
        }
    }

    /// Parses the basic attribute set used by the high-level client.
    ///
    /// Fails on an attribute outside the set this parser knows, on malformed
    /// values, and on bytes left over after the last value.
    pub fn parse_basic(&self) -> (r: Result<BasicAttributes>)
        ensures
            r is Ok ==> forall|a: u32| self.attrmask.has(a) ==> is_basic_attr(a),
            is_attr_list(self.attrmask, attr_list(self.attrmask)),
            r matches Ok(p) ==> basic_presence(p, self.attrmask),
            r matches Ok(p) ==> p.raw.attrmask.words_view() == self.attrmask.words_view()
                && p.raw.attr_vals@ == self.attr_vals@,
            ({
                let list = attr_list(self.attrmask);
                let d = self.attr_vals@;
                &&& r is Ok <==> (forall|j: int| 0 <= j < list.len() ==> is_basic_attr(#[trigger] list[j])) && attr_values_ok(list, d)
                &&& r matches Ok(p) ==> forall|j: int| 0 <= j < list.len()
                    ==> basic_value_at(p, #[trigger] list[j], d, attr_offset(list, d, j as nat))
            }),
    {
        let list = self.attrmask.attrs();
        let r = self.decode_basic_list(&list);
        proof {
            if r is Ok {
                lemma_all_known(self.attrmask, list@, |a: u32| is_basic_attr(a));
            }
        }
        r
    }

    /// Decodes the values of the basic attributes `list`, in order.
    #[verifier::spinoff_prover]
    #[verifier::rlimit(60)]
    fn decode_basic_list(&self, list: &Vec<u32>) -> (r: Result<BasicAttributes>)
        requires
            forall|i: int, j: int| 0 <= i < j < list@.len() ==> list@[i] < list@[j],
        ensures
            r matches Ok(p) ==> basic_presence_list(p, list@),
            r matches Ok(p) ==> p.raw.attrmask.words_view() == self.attrmask.words_view()
                && p.raw.attr_vals@ == self.attr_vals@,
            ({
                let d = self.attr_vals@;
                &&& r is Ok <==> (forall|j: int| 0 <= j < list@.len() ==> is_basic_attr(#[trigger] list@[j])) && attr_values_ok(list@, d)
                &&& r matches Ok(p) ==> forall|j: int| 0 <= j < list@.len()
                    ==> basic_value_at(p, #[trigger] list@[j], d, attr_offset(list@, d, j as nat))
            }),
    {
        let ghost d = self.attr_vals@;
        let mut decoder = Decoder::new(self.attr_vals.as_slice());
        let mut parsed = BasicAttributes {
            file_type: None,
            change: None,
            size: None,
            fileid: None,
            mode: None,
            numlinks: None,
            owner: None,
            owner_group: None,
            space_used: None,
            access_time: None,
            metadata_time: None,
            modify_time: None,
            raw: self.clone(),
        };
        proof {
            assert(list@.subrange(0, 0) =~= Seq::<u32>::empty());
        }
        let mut k: usize = 0;
        while k < list.len()
            invariant
                k <= list@.len(),
                forall|i: int, j: int| 0 <= i < j < list@.len() ==> list@[i] < list@[j],
                d == self.attr_vals@,
                decoder.input() == d,
                decoder.pos() == attr_offset(list@, d, k as nat),
                forall|j: int| 0 <= j < k ==> is_basic_attr(#[trigger] list@[j]),
                forall|j: int| 0 <= j < k ==> attr_value_ok(list@[j], d, #[trigger] attr_offset(list@, d, j as nat)),
                forall|j: int| 0 <= j < k ==> basic_value_at(parsed, #[trigger] list@[j], d, attr_offset(list@, d, j as nat)),
                basic_presence_list(parsed, list@.subrange(0, k as int)),
                parsed.raw.attrmask.words_view() == self.attrmask.words_view(),
                parsed.raw.attr_vals@ == self.attr_vals@,
            decreases list@.len() - k,
        {
            let attr = list[k];
            let ghost off = attr_offset(list@, d, k as nat);
            assert(attr_offset(list@, d, (k + 1) as nat) == off + attr_value_len(attr, d, off));
            let ghost before = parsed;
            match decode_basic_value(&mut parsed, attr, &mut decoder) {
                Ok(()) => {},
                Err(e) => return Err(e),
            }
            proof {
                lemma_basic_presence_step(before, parsed, list@, k as int, d, off);
                assert forall|j: int| 0 <= j < k implies basic_value_at(parsed, #[trigger] list@[j], d, attr_offset(list@, d, j as nat)) by {
                    assert(list@[j] < list@[k as int]);
                    assert(basic_value_at(before, list@[j], d, attr_offset(list@, d, j as nat)));
                }
            }
            k = k + 1;
        }
        proof {
            assert(list@.subrange(0, list@.len() as int) =~= list@);
        }
        if let Err(e) = decoder.finish() {
            return Err(Error::Xdr(e));
        }
        Ok(parsed)
    }

    /// Parses filesystem capacity attributes.
    ///
    /// Fails on an attribute outside the set this parser knows, on malformed
    /// values, and on bytes left over after the last value.
    #[verifier::spinoff_prover]
    #[verifier::rlimit(60)]
    pub fn parse_fsstat(&self) -> (r: Result<FsStat>)
        ensures
            r is Ok ==> forall|a: u32| self.attrmask.has(a) ==> is_fsstat_attr(a),
            r matches Ok(p) ==> fsstat_presence(p, self.attrmask),
            ({
                let list = attr_list(self.attrmask);
                let d = self.attr_vals@;
                &&& r is Ok <==> (forall|j: int| 0 <= j < list.len() ==> is_fsstat_attr(#[trigger] list[j])) && attr_values_ok(list, d)
                &&& r matches Ok(p) ==> forall|j: int| 0 <= j < list.len()
                    ==> fsstat_value_at(p, #[trigger] list[j], d, attr_offset(list, d, j as nat))
            }),
    {
        let list = self.attrmask.attrs();
        let ghost d = self.attr_vals@;
        let mut decoder = Decoder::new(self.attr_vals.as_slice());
        let mut parsed = FsStat {
            available_files: None,
            free_files: None,
            total_files: None,
            available_bytes: None,
            free_bytes: None,
            total_bytes: None,
            raw: self.clone(),
        };
        let mut k: usize = 0;
        while k < list.len()
            invariant
                k <= list@.len(),
                list@ == attr_list(self.attrmask),
                forall|i: int, j: int| 0 <= i < j < list@.len() ==> list@[i] < list@[j],
                d == self.attr_vals@,
                decoder.input() == d,
                decoder.pos() == attr_offset(list@, d, k as nat),
                forall|j: int| 0 <= j < k ==> is_fsstat_attr(#[trigger] list@[j]),
                forall|j: int| 0 <= j < k ==> attr_value_ok(list@[j], d, #[trigger] attr_offset(list@, d, j as nat)),
                forall|j: int| 0 <= j < k ==> fsstat_value_at(parsed, #[trigger] list@[j], d, attr_offset(list@, d, j as nat)),
                fsstat_presence_list(parsed, list@.subrange(0, k as int)),
            decreases list@.len() - k,
        {
            let attr = list[k];
            let ghost off = attr_offset(list@, d, k as nat);
            assert(attr_offset(list@, d, (k + 1) as nat) == off + attr_value_len(attr, d, off));
            let ghost before = parsed;
            match decode_fsstat_value(&mut parsed, attr, &mut decoder) {
                Ok(()) => {},
                Err(e) => return Err(e),
            }
            proof {
                lemma_fsstat_presence_step(before, parsed, list@, k as int, d, off);
                assert forall|j: int| 0 <= j < k implies fsstat_value_at(parsed, #[trigger] list@[j], d, attr_offset(list@, d, j as nat)) by {
                    assert(list@[j] < list@[k as int]);
                    assert(fsstat_value_at(before, list@[j], d, attr_offset(list@, d, j as nat)));
                }
            }
            k = k + 1;
        }
        proof {
            assert(list@.subrange(0, list@.len() as int) =~= list@);
            lemma_all_known(self.attrmask, list@, |a: u32| is_fsstat_attr(a));
        }
        if let Err(e) = decoder.finish() {
            return Err(Error::Xdr(e));
        }
        Ok(parsed)
    }

    /// Parses filesystem capability attributes.
    ///
    /// Fails on an attribute outside the set this parser knows, on malformed
    /// values, and on bytes left over after the last value.
    #[verifier::spinoff_prover]
    #[verifier::rlimit(60)]
    pub fn parse_fsinfo(&self) -> (r: Result<FsInfo>)
        ensures
            r is Ok ==> forall|a: u32| self.attrmask.has(a) ==> is_fsinfo_attr(a),
            r matches Ok(p) ==> fsinfo_presence(p, self.attrmask),
            ({
                let list = attr_list(self.attrmask);
                let d = self.attr_vals@;
                &&& r is Ok <==> (forall|j: int| 0 <= j < list.len() ==> is_fsinfo_attr(#[trigger] list[j])) && attr_values_ok(list, d)
                &&& r matches Ok(p) ==> forall|j: int| 0 <= j < list.len()
                    ==> fsinfo_value_at(p, #[trigger] list[j], d, attr_offset(list, d, j as nat))
            }),
    {
        let list = self.attrmask.attrs();
        let ghost d = self.attr_vals@;
        let mut decoder = Decoder::new(self.attr_vals.as_slice());
        let mut parsed = FsInfo {
            fh_expire_type: None,
            link_support: None,
            symlink_support: None,
            unique_handles: None,
            lease_time_seconds: None,
            can_set_time: None,
            homogeneous: None,
            max_file_size: None,
            max_read: None,
            max_write: None,
            time_delta: None,
            raw: self.clone(),
        };
        let mut k: usize = 0;
        while k < list.len()
            invariant
                k <= list@.len(),
                list@ == attr_list(self.attrmask),
                forall|i: int, j: int| 0 <= i < j < list@.len() ==> list@[i] < list@[j],
                d == self.attr_vals@,
                decoder.input() == d,
                decoder.pos() == attr_offset(list@, d, k as nat),
                forall|j: int| 0 <= j < k ==> is_fsinfo_attr(#[trigger] list@[j]),
                forall|j: int| 0 <= j < k ==> attr_value_ok(list@[j], d, #[trigger] attr_offset(list@, d, j as nat)),
                forall|j: int| 0 <= j < k ==> fsinfo_value_at(parsed, #[trigger] list@[j], d, attr_offset(list@, d, j as nat)),
                fsinfo_presence_list(parsed, list@.subrange(0, k as int)),
            decreases list@.len() - k,
        {
            let attr = list[k];
            let ghost off = attr_offset(list@, d, k as nat);
            assert(attr_offset(list@, d, (k + 1) as nat) == off + attr_value_len(attr, d, off));
            let ghost before = parsed;
            match decode_fsinfo_value(&mut parsed, attr, &mut decoder) {
                Ok(()) => {},
                Err(e) => return Err(e),
            }
            proof {
                lemma_fsinfo_presence_step(before, parsed, list@, k as int, d, off);
                assert forall|j: int| 0 <= j < k implies fsinfo_value_at(parsed, #[trigger] list@[j], d, attr_offset(list@, d, j as nat)) by {
                    assert(list@[j] < list@[k as int]);
                    assert(fsinfo_value_at(before, list@[j], d, attr_offset(list@, d, j as nat)));
                }
            }
            k = k + 1;
        }
        proof {
            assert(list@.subrange(0, list@.len() as int) =~= list@);
            lemma_all_known(self.attrmask, list@, |a: u32| is_fsinfo_attr(a));
        }
        if let Err(e) = decoder.finish() {
            return Err(Error::Xdr(e));
        }
        Ok(parsed)
    }

    /// Parses path configuration attributes.
    ///
    /// Fails on an attribute outside the set this parser knows, on malformed
    /// values, and on bytes left over after the last value.
    #[verifier::spinoff_prover]
    #[verifier::rlimit(60)]
    pub fn parse_pathconf(&self) -> (r: Result<PathConf>)
        ensures
            r is Ok ==> forall|a: u32| self.attrmask.has(a) ==> is_pathconf_attr(a),
            r matches Ok(p) ==> pathconf_presence(p, self.attrmask),
            ({
                let list = attr_list(self.attrmask);
                let d = self.attr_vals@;
                &&& r is Ok <==> (forall|j: int| 0 <= j < list.len() ==> is_pathconf_attr(#[trigger] list[j])) && attr_values_ok(list, d)
                &&& r matches Ok(p) ==> forall|j: int| 0 <= j < list.len()
                    ==> pathconf_value_at(p, #[trigger] list[j], d, attr_offset(list, d, j as nat))
            }),
    {
        let list = self.attrmask.attrs();
        let ghost d = self.attr_vals@;
        let mut decoder = Decoder::new(self.attr_vals.as_slice());
        let mut parsed = PathConf {
            case_insensitive: None,
            case_preserving: None,
            chown_restricted: None,
            link_max: None,
            name_max: None,
            no_trunc: None,
            raw: self.clone(),
        };
        let mut k: usize = 0;
        while k < list.len()
            invariant
                k <= list@.len(),
                list@ == attr_list(self.attrmask),
                forall|i: int, j: int| 0 <= i < j < list@.len() ==> list@[i] < list@[j],
                d == self.attr_vals@,
                decoder.input() == d,
                decoder.pos() == attr_offset(list@, d, k as nat),
                forall|j: int| 0 <= j < k ==> is_pathconf_attr(#[trigger] list@[j]),
                forall|j: int| 0 <= j < k ==> attr_value_ok(list@[j], d, #[trigger] attr_offset(list@, d, j as nat)),
                forall|j: int| 0 <= j < k ==> pathconf_value_at(parsed, #[trigger] list@[j], d, attr_offset(list@, d, j as nat)),
                pathconf_presence_list(parsed, list@.subrange(0, k as int)),
            decreases list@.len() - k,
        {
            let attr = list[k];
            let ghost off = attr_offset(list@, d, k as nat);
            assert(attr_offset(list@, d, (k + 1) as nat) == off + attr_value_len(attr, d, off));
            let ghost before = parsed;
            match decode_pathconf_value(&mut parsed, attr, &mut decoder) {
                Ok(()) => {},
                Err(e) => return Err(e),
            }
            proof {
                lemma_pathconf_presence_step(before, parsed, list@, k as int, d, off);
                assert forall|j: int| 0 <= j < k implies pathconf_value_at(parsed, #[trigger] list@[j], d, attr_offset(list@, d, j as nat)) by {
                    assert(list@[j] < list@[k as int]);
                    assert(pathconf_value_at(before, list@[j], d, attr_offset(list@, d, j as nat)));
                }
            }
            k = k + 1;
        }
        proof {
            assert(list@.subrange(0, list@.len() as int) =~= list@);
            lemma_all_known(self.attrmask, list@, |a: u32| is_pathconf_attr(a));
        }
        if let Err(e) = decoder.finish() {
            return Err(Error::Xdr(e));
        }
        Ok(parsed)
    }
}

impl Decode for Fattr {
    /// Reads a bitmap, then the attribute values as opaque data of at most
    /// [`NFS4_MAX_IO`] bytes; the encoding of any attribute payload reads back
    /// as a payload with the same bitmap and values.
    fn decode(decoder: &mut Decoder<'_>) -> (r: core::result::Result<Self, XdrError>)
        ensures
            ({
                let d = old(decoder).input();
                let p = old(decoder).pos();
                let q = p + 4 + 4 * u32_at(d, p);
                let n = u32_at(d, q) as int;
                &&& r is Ok <==> (p + 4 <= d.len() && u32_at(d, p) <= NFS4_MAX_BITMAP_WORDS && q + 4 <= d.len()
                    && n <= NFS4_MAX_IO && q + 4 + n + pad_len(n as nat) <= d.len())
                &&& r matches Ok(f) ==> f.attrmask.words_view().len() == u32_at(d, p)
                    && d.subrange(p + 4, q) == u32_array_body(f.attrmask.words_view())
                    && f.attr_vals@ == d.subrange(q + 4, q + 4 + n)
                    && final(decoder).pos() == q + 4 + n + pad_len(n as nat)
            }),
            forall|w: Fattr| #[trigger] holds_encoding(old(decoder).input(), old(decoder).pos(), w)
                ==> (r matches Ok(f) && f.attrmask.words_view() == w.attrmask.words_view()
                    && f.attr_vals@ == w.attr_vals@
                    && final(decoder).pos() == old(decoder).pos() + w.xdr_bytes().len()),
    {
        let ghost d = old(decoder).input();
        let ghost p = old(decoder).pos();
        proof {
            old(decoder).lemma_pos_nonneg();
            assert forall|w: Fattr| #[trigger] holds_encoding(d, p, w) implies holds_encoding(d, p, w.attrmask) by {
                let k = w.attrmask.xdr_bytes().len() as int;
                assert(d.subrange(p, p + k) =~= w.xdr_bytes().subrange(0, k));
                assert(w.xdr_bytes().subrange(0, k) =~= w.attrmask.xdr_bytes());
            }
        }
        let attrmask = match Bitmap::decode(decoder) {
            Ok(b) => b,
            Err(e) => return Err(e),
        };
        let ghost q = decoder.pos();
        let r = decoder.read_opaque_vec(NFS4_MAX_IO);
        proof {
            assert forall|w: Fattr| #[trigger] holds_encoding(d, p, w)
                implies (r matches Ok(v) && v@ == w.attr_vals@ && decoder.pos() == p + w.xdr_bytes().len()) by {
                let k = w.attrmask.xdr_bytes().len() as int;
                assert(holds_encoding(d, p, w.attrmask));
                assert(q == p + k);
                let o = var_opaque(w.attr_vals@);
                assert(d.subrange(q, q + o.len()) =~= w.xdr_bytes().subrange(k, k + o.len()));
                assert(w.xdr_bytes().subrange(k, k + o.len()) =~= o);
                lemma_opaque_at(d, q, w.attr_vals@);
            }
        }
        match r {
            Ok(attr_vals) => Ok(Fattr { attrmask, attr_vals }),
            Err(e) => Err(e),
        }
    }
}

impl Encode for Fattr {
    open spec fn xdr_bytes(&self) -> Seq<u8> {
        self.attrmask.xdr_bytes() + var_opaque(self.attr_vals@)
    }

    open spec fn xdr_encodable(&self) -> bool {
        self.attrmask.xdr_encodable() && self.attr_vals@.len() <= NFS4_MAX_IO
    }

    fn encode(&self, encoder: &mut Encoder) -> (r: core::result::Result<(), XdrError>) {
        match self.attrmask.encode(encoder) {
            Ok(()) => {},
            Err(e) => return Err(e),
        }
        encoder.write_opaque(self.attr_vals.as_slice(), NFS4_MAX_IO)
    }
}

/// Parsed basic NFSv4 attributes.
///
/// NFSv4 servers may omit attributes. Optional fields reflect exactly what was
/// returned by the server.
#[derive(Debug, Clone, PartialEq, Eq)]
pub struct BasicAttributes {
    pub file_type: Option<FileType>,
    pub change: Option<u64>,
    pub size: Option<u64>,
    pub fileid: Option<u64>,
    pub mode: Option<u32>,
    pub numlinks: Option<u32>,
    pub owner: Option<String>,
    pub owner_group: Option<String>,
    pub space_used: Option<u64>,
    pub access_time: Option<NfsTime>,
    pub metadata_time: Option<NfsTime>,
    pub modify_time: Option<NfsTime>,
    pub raw: Fattr,
}

impl BasicAttributes {
    /// Returns the file type or an error if the server omitted it.
    pub fn required_file_type(&self) -> (r: Result<FileType>)
        ensures
            r is Ok <==> self.file_type is Some,
            r matches Ok(t) ==> self.file_type == Some(t),
            r matches Err(e) ==> e is Protocol,
    {
        match self.file_type {
            Some(t) => Ok(t),
            None => Err(crate::error::protocol("NFSv4 file type attribute was not returned by the server")),
        }
    }

    /// Returns true when the object is a regular file.
    pub fn is_file(&self) -> (r: Result<bool>)
        ensures
            r is Ok <==> self.file_type is Some,
            r matches Ok(b) ==> b == (self.file_type == Some(FileType::Regular)),
    {
        match self.required_file_type() {
            Ok(t) => Ok(t.is_file()),
            Err(e) => Err(e),
        }
    }

    /// Returns true when the object is a directory.
    pub fn is_dir(&self) -> (r: Result<bool>)
        ensures
            r is Ok <==> self.file_type is Some,
            r matches Ok(b) ==> b == (self.file_type == Some(FileType::Directory)),
    {
        match self.required_file_type() {
            Ok(t) => Ok(t.is_dir()),
            Err(e) => Err(e),
        }
    }

    /// Returns true when the object is a symbolic link.
    pub fn is_symlink(&self) -> (r: Result<bool>)
        ensures
            r is Ok <==> self.file_type is Some,
            r matches Ok(b) ==> b == (self.file_type == Some(FileType::Symlink)),
    {
        match self.required_file_type() {
            Ok(t) => Ok(t.is_symlink()),
            Err(e) => Err(e),
        }
    }
}

/// Parsed NFSv4 filesystem capacity attributes.
#[derive(Debug, Clone, PartialEq, Eq)]
pub struct FsStat {
    pub total_bytes: Option<u64>,
    pub free_bytes: Option<u64>,
    pub available_bytes: Option<u64>,
    pub total_files: Option<u64>,
    pub free_files: Option<u64>,
    pub available_files: Option<u64>,
    pub raw: Fattr,
}

/// Parsed NFSv4 filesystem capability attributes.
#[derive(Debug, Clone, PartialEq, Eq)]
pub struct FsInfo {
    pub fh_expire_type: Option<u32>,
    pub link_support: Option<bool>,
    pub symlink_support: Option<bool>,
    pub unique_handles: Option<bool>,
    pub lease_time_seconds: Option<u32>,
    pub can_set_time: Option<bool>,
    pub homogeneous: Option<bool>,
    pub max_file_size: Option<u64>,
    pub max_read: Option<u64>,
    pub max_write: Option<u64>,
    pub time_delta: Option<NfsTime>,
    pub raw: Fattr,
}

/// Time-setting mode used by [`SetAttrs`].
#[derive(Debug, Clone, Copy, PartialEq, Eq)]
pub enum SetTime {
    /// Leave the timestamp unchanged.
    DontChange,
    /// Ask the server to set the timestamp to its current time.
    ServerTime,
    /// Set the timestamp to a client-provided value.
    ClientTime(NfsTime),
}

impl Default for SetTime {
    fn default() -> (r: Self)
        ensures
            r is DontChange,
    {
        SetTime::DontChange
    }
}

/// NFSv4 attribute update.
///
/// Fields left empty are not sent to the server. Use constructors such as
/// [`SetAttrs::mode`], [`SetAttrs::size`], and [`SetAttrs::touch`] for common
/// updates.
#[derive(Debug, Clone, PartialEq, Eq)]
pub struct SetAttrs {
    pub size: Option<u64>,
    pub mode: Option<u32>,
    pub owner: Option<String>,
    pub owner_group: Option<String>,
    pub access_time: SetTime,
    pub modify_time: SetTime,
}

impl Default for SetAttrs {
    fn default() -> (r: Self)
        ensures
            r.size is None && r.mode is None && r.owner is None && r.owner_group is None,
            r.access_time is DontChange && r.modify_time is DontChange,
    {
        SetAttrs {
            size: None,
            mode: None,
            owner: None,
            owner_group: None,
            access_time: SetTime::DontChange,
            modify_time: SetTime::DontChange,
        }
    }
}

impl SetAttrs {
    /// Builds an attribute update that sets file size.
    pub fn size(size: u64) -> (r: Self)
        ensures
            r.size == Some(size) && r.mode is None && r.owner is None && r.owner_group is None,
            r.access_time is DontChange && r.modify_time is DontChange,
    {
        SetAttrs { size: Some(size), ..Self::default() }
    }

    /// Builds an attribute update that sets POSIX mode bits.
    pub fn mode(mode: u32) -> (r: Self)
        ensures
            r.size is None && r.mode == Some(mode) && r.owner is None && r.owner_group is None,
            r.access_time is DontChange && r.modify_time is DontChange,
    {
        SetAttrs { mode: Some(mode), ..Self::default() }
    }

    /// Builds an attribute update that sets owner.
    pub fn owner(owner: &str) -> (r: Self)
        ensures
            r.size is None && r.mode is None && r.owner_group is None,
            r.owner matches Some(o) && o@ == owner@,
            r.access_time is DontChange && r.modify_time is DontChange,
    {
        SetAttrs { owner: Some(owner.to_owned()), ..Self::default() }
    }

    /// Builds an attribute update that sets owner group.
    pub fn owner_group(owner_group: &str) -> (r: Self)
        ensures
            r.size is None && r.mode is None && r.owner is None,
            r.owner_group matches Some(g) && g@ == owner_group@,
            r.access_time is DontChange && r.modify_time is DontChange,
    {
        SetAttrs { owner_group: Some(owner_group.to_owned()), ..Self::default() }
    }

    /// Builds an attribute update that sets owner and owner group.
    pub fn ownership(owner: &str, owner_group: &str) -> (r: Self)
        ensures
            r.size is None && r.mode is None,
            r.owner matches Some(o) && o@ == owner@,
            r.owner_group matches Some(g) && g@ == owner_group@,
            r.access_time is DontChange && r.modify_time is DontChange,
    {
        SetAttrs { owner: Some(owner.to_owned()), owner_group: Some(owner_group.to_owned()), ..Self::default() }
    }

    /// Builds an attribute update that sets access and modification times.
    pub fn times(access_time: Option<NfsTime>, modify_time: Option<NfsTime>) -> (r: Self)
        ensures
            r.size is None && r.mode is None && r.owner is None && r.owner_group is None,
            r.access_time == (match access_time { Some(t) => SetTime::ClientTime(t), None => SetTime::DontChange }),
            r.modify_time == (match modify_time { Some(t) => SetTime::ClientTime(t), None => SetTime::DontChange }),
    {
        let a = match access_time {
            Some(t) => SetTime::ClientTime(t),
            None => SetTime::DontChange,
        };
        let m = match modify_time {
            Some(t) => SetTime::ClientTime(t),
            None => SetTime::DontChange,
        };
        SetAttrs { access_time: a, modify_time: m, ..Self::default() }
    }

    /// Builds an attribute update that asks the server to update both times.
    pub fn touch() -> (r: Self)
        ensures
            r.size is None && r.mode is None && r.owner is None && r.owner_group is None,
            r.access_time is ServerTime && r.modify_time is ServerTime,
    {
        SetAttrs { access_time: SetTime::ServerTime, modify_time: SetTime::ServerTime, ..Self::default() }
    }
}

/// Parsed NFSv4 path configuration attributes.
#[derive(Debug, Clone, PartialEq, Eq)]
pub struct PathConf {
    pub link_max: Option<u32>,
    pub name_max: Option<u32>,
    pub no_trunc: Option<bool>,
    pub chown_restricted: Option<bool>,
    pub case_insensitive: Option<bool>,
    pub case_preserving: Option<bool>,
    pub raw: Fattr,
}

/// NFSv4 timestamp with second and nanosecond components.
#[derive(Debug, Clone, Copy, PartialEq, Eq, Structural)]
pub struct NfsTime {
    /// Seconds since the Unix epoch.
    pub seconds: i64,
    /// Nanoseconds within the second. Must be less than
    /// [`NFS4_NSECONDS_PER_SECOND`] when encoded.
    pub nseconds: u32,
}

/// The XDR encoding of a string: its UTF-8 bytes as variable-length opaque data.
pub open spec fn xdr_text(s: String) -> Seq<u8> {
    var_opaque(encode_utf8(s@))
}

/// A string's UTF-8 bytes fit the protocol's opaque limit.
pub open spec fn text_fits(s: String) -> bool {
    encode_utf8(s@).len() <= NFS4_OPAQUE_LIMIT
}

/// The XDR encoding of a time.
pub open spec fn nfstime_bytes(t: NfsTime) -> Seq<u8> {
    be_u64(t.seconds as u64) + be_u32(t.nseconds)
}

/// The encoding of a time update: nothing when the time is left alone.
pub open spec fn set_time_bytes(t: SetTime) -> Seq<u8> {
    match t {
        SetTime::DontChange => Seq::empty(),
        SetTime::ServerTime => be_u32(0),
        SetTime::ClientTime(c) => be_u32(1) + nfstime_bytes(c),
    }
}

/// A client time in a time update has nanoseconds in range.
pub open spec fn set_time_ok(t: SetTime) -> bool {
    !(t matches SetTime::ClientTime(c) && c.nseconds >= NFS4_NSECONDS_PER_SECOND)
}

/// The encoding of an optional string attribute: nothing when it is unset.
pub open spec fn opt_text_bytes(s: Option<String>) -> Seq<u8> {
    match s {
        Some(t) => crate::xdr::var_opaque(encode_utf8(t@)),
        None => Seq::empty(),
    }
}

/// An optional string attribute fits the protocol's length limit.
pub open spec fn opt_text_ok(s: Option<String>) -> bool {
    s matches Some(t) ==> encode_utf8(t@).len() <= NFS4_OPAQUE_LIMIT
}

/// The attribute values that an update sets, encoded in attribute order.
pub open spec fn set_attrs_bytes(a: SetAttrs) -> Seq<u8> {
    (match a.size { Some(v) => be_u64(v), None => Seq::empty() })
        + (match a.mode { Some(m) => be_u32(m), None => Seq::empty() })
        + opt_text_bytes(a.owner) + opt_text_bytes(a.owner_group)
        + set_time_bytes(a.access_time) + set_time_bytes(a.modify_time)
}

/// The attributes an update sets, in attribute order.
pub open spec fn set_attrs_list(a: SetAttrs) -> Seq<u32> {
    (if a.size is Some { seq![FATTR4_SIZE] } else { Seq::empty() })
        + (if a.mode is Some { seq![FATTR4_MODE] } else { Seq::empty() })
        + (if a.owner is Some { seq![FATTR4_OWNER] } else { Seq::empty() })
        + (if a.owner_group is Some { seq![FATTR4_OWNER_GROUP] } else { Seq::empty() })
        + (if a.access_time is DontChange { Seq::empty() } else { seq![FATTR4_TIME_ACCESS_SET] })
        + (if a.modify_time is DontChange { Seq::empty() } else { seq![FATTR4_TIME_MODIFY_SET] })
}

/// An update that sets nothing.
pub open spec fn set_attrs_empty(a: SetAttrs) -> bool {
    a.size is None && a.mode is None && a.owner is None && a.owner_group is None
        && a.access_time is DontChange && a.modify_time is DontChange
}

impl Decode for NfsTime {
    fn decode(decoder: &mut Decoder<'_>) -> (r: core::result::Result<Self, XdrError>)
        ensures
            ({
                let d = old(decoder).input();
                let p = old(decoder).pos();
                &&& r is Ok <==> (p + 12 <= d.len() && u32_at(d, p + 8) < NFS4_NSECONDS_PER_SECOND)
                &&& r matches Ok(t) ==> t == time_at(d, p) && final(decoder).pos() == p + 12
            }),
            forall|w: NfsTime| #[trigger] holds_encoding(old(decoder).input(), old(decoder).pos(), w)
                ==> r == Ok::<NfsTime, XdrError>(w),
    {
        proof {
            let d = old(decoder).input();
            let p = old(decoder).pos();
            assert forall|w: NfsTime| #[trigger] holds_encoding(d, p, w) implies
                time_at(d, p) == w && p + 12 <= d.len() by {
                lemma_time_at(d, p, w);
            }
        }
        let seconds = match decoder.read_i64() {
            Ok(v) => v,
            Err(e) => return Err(e),
        };
        let nseconds = match decoder.read_u32() {
            Ok(v) => v,
            Err(e) => return Err(e),
        };
        let time = NfsTime { seconds, nseconds };
        match time.validate() {
            Ok(()) => Ok(time),
            Err(e) => Err(e),
        }
    }
}

/// Where `d` holds the encoding of time `w` at `p`, the time read there is `w`.
proof fn lemma_time_at(d: Seq<u8>, p: int, w: NfsTime)
    requires
        holds_encoding(d, p, w),
    ensures
        time_at(d, p) == w,
        p + 12 <= d.len(),
{
    let e = nfstime_bytes(w);
    assert(d.subrange(p, p + 8) =~= e.subrange(0, 8));
    assert(e.subrange(0, 8) =~= be_u64(w.seconds as u64));
    lemma_u64_roundtrip(w.seconds as u64);
    assert(d.subrange(p + 8, p + 12) =~= e.subrange(8, 12));
    assert(e.subrange(8, 12) =~= be_u32(w.nseconds));
    lemma_u32_roundtrip(w.nseconds);
    let s = w.seconds;
    assert((s as u64) as i64 == s) by (bit_vector);
}

impl Encode for NfsTime {
    open spec fn xdr_bytes(&self) -> Seq<u8> {
        nfstime_bytes(*self)
    }

    open spec fn xdr_encodable(&self) -> bool {
        self.nseconds < NFS4_NSECONDS_PER_SECOND
    }

    fn encode(&self, encoder: &mut Encoder) -> (r: core::result::Result<(), XdrError>) {
        self.encode_checked(encoder)
    }
}

impl NfsTime {
    /// Appends the time's XDR encoding; fails, writing nothing, when the
    /// nanoseconds are out of range.
    pub fn encode_checked(&self, encoder: &mut Encoder) -> (r: core::result::Result<(), XdrError>)
        ensures
            r is Ok <==> self.nseconds < NFS4_NSECONDS_PER_SECOND,
            r is Ok ==> final(encoder)@ == old(encoder)@ + nfstime_bytes(*self),
            r is Err ==> final(encoder)@ == old(encoder)@,
    {
        match self.validate() {
            Ok(()) => {},
            Err(e) => return Err(e),
        }
        encoder.write_i64(self.seconds);
        encoder.write_u32(self.nseconds);
        assert(encoder@ =~= old(encoder)@ + nfstime_bytes(*self));
        Ok(())
    }

    /// Checks that the nanoseconds are within one second.
    pub fn validate(self) -> (r: core::result::Result<(), XdrError>)
        ensures
            r is Ok <==> self.nseconds < NFS4_NSECONDS_PER_SECOND,
    {
        validate_nseconds(self.nseconds)
    }
}

fn encode_set_time(encoder: &mut Encoder, value: SetTime) -> (r: core::result::Result<(), XdrError>)
    ensures
        old(encoder)@.is_prefix_of(final(encoder)@),
        (value matches SetTime::ClientTime(t) && t.nseconds >= NFS4_NSECONDS_PER_SECOND) <==> r is Err,
        r is Ok ==> final(encoder)@ == old(encoder)@ + (match value {
            SetTime::ClientTime(t) => be_u32(1) + nfstime_bytes(t),
            _ => be_u32(0),
        }),
{
    match value {
        SetTime::DontChange | SetTime::ServerTime => {
            encoder.write_u32(0);
            Ok(())
        },
        SetTime::ClientTime(time) => {
            match time.validate() {
                Ok(()) => {},
                Err(e) => return Err(e),
            }
            encoder.write_u32(1);
            let r = time.encode_checked(encoder);
            assert(encoder@ =~= old(encoder)@ + (be_u32(1) + nfstime_bytes(time)));
            r
        },
    }
}

fn validate_nseconds(nseconds: u32) -> (r: core::result::Result<(), XdrError>)
    ensures
        r is Ok <==> nseconds < NFS4_NSECONDS_PER_SECOND,
{
    if nseconds >= NFS4_NSECONDS_PER_SECOND {
        return Err(XdrError::LengthLimitExceeded {
            len: nseconds as usize,
            max: (NFS4_NSECONDS_PER_SECOND - 1) as usize,
        });
    }
    Ok(())
}

#[derive(Debug, Clone, Copy, PartialEq, Eq, Structural)]
pub struct AccessResult {
    pub supported: u32,
    pub access: u32,
}



/// Security flavor advertised by `SECINFO` and `SECINFO_NO_NAME`.
#[derive(Debug, Clone, PartialEq, Eq)]
pub enum SecInfo {
    AuthNone,
    AuthSys,
    RpcSecGss {
        oid: Vec<u8>,
        qop: u32,
        service: RpcGssService,
    },
    Unknown(u32),
}

impl Decode for SecInfo {
    fn decode(decoder: &mut Decoder<'_>) -> (r: core::result::Result<Self, XdrError>) {
        match decoder.read_u32()? {
            AUTH_NONE => Ok(Self::AuthNone),
            AUTH_SYS => Ok(Self::AuthSys),
            RPCSEC_GSS => Ok(Self::RpcSecGss {
                oid: decoder.read_opaque_vec(NFS4_OPAQUE_LIMIT)?,
                qop: decoder.read_u32()?,
                service: RpcGssService::from_u32(decoder.read_u32()?),
            }),
            flavor => Ok(Self::Unknown(flavor)),
        }
    }
}

/// RPC universal network address.
#[derive(Debug, Clone, PartialEq, Eq)]
pub struct NetAddr {
    pub netid: String,
    pub addr: String,
}

impl Encode for NetAddr {
    open spec fn xdr_bytes(&self) -> Seq<u8> {
        xdr_text(self.netid) + xdr_text(self.addr)
    }

    open spec fn xdr_encodable(&self) -> bool {
        text_fits(self.netid) && text_fits(self.addr)
    }

    fn encode(&self, encoder: &mut Encoder) -> (r: core::result::Result<(), XdrError>) {
        encoder.write_string(self.netid.as_str(), NFS4_OPAQUE_LIMIT)?;
        encoder.write_string(self.addr.as_str(), NFS4_OPAQUE_LIMIT)
    }
}

impl Decode for NetAddr {
    fn decode(decoder: &mut Decoder<'_>) -> (r: core::result::Result<Self, XdrError>) {
        Ok(Self {
            netid: decoder.read_string(NFS4_OPAQUE_LIMIT)?,
            addr: decoder.read_string(NFS4_OPAQUE_LIMIT)?,
        })
    }
}

/// Callback security parameter used by `CREATE_SESSION` and `BACKCHANNEL_CTL`.
#[derive(Debug, Clone, PartialEq, Eq)]
pub enum CallbackSecParms {
    AuthNone,
    AuthSys(AuthSys),
    RpcSecGss {
        service: RpcGssService,
        handle_from_server: Vec<u8>,
        handle_from_client: Vec<u8>,
    },
}

impl Encode for CallbackSecParms {
    open spec fn xdr_bytes(&self) -> Seq<u8> {
        match self {
            CallbackSecParms::AuthNone => be_u32(AUTH_NONE),
            CallbackSecParms::AuthSys(auth) => be_u32(AUTH_SYS) + auth.xdr_bytes(),
            CallbackSecParms::RpcSecGss { service, handle_from_server, handle_from_client } => be_u32(RPCSEC_GSS)
                + be_u32(service.code()) + var_opaque(handle_from_server@) + var_opaque(handle_from_client@),
        }
    }

    open spec fn xdr_encodable(&self) -> bool {
        match self {
            CallbackSecParms::AuthNone => true,
            CallbackSecParms::AuthSys(auth) => auth.xdr_encodable(),
            CallbackSecParms::RpcSecGss { service, handle_from_server, handle_from_client } =>
                handle_from_server@.len() <= NFS4_OPAQUE_LIMIT && handle_from_client@.len() <= NFS4_OPAQUE_LIMIT,
        }
    }

    fn encode(&self, encoder: &mut Encoder) -> (r: core::result::Result<(), XdrError>) {
        match self {
            Self::AuthNone => {
                encoder.write_u32(AUTH_NONE);
                Ok(())
            }
            Self::AuthSys(auth) => {
                encoder.write_u32(AUTH_SYS);
                auth.encode(encoder)
            }
            Self::RpcSecGss {
                service,
                handle_from_server,
                handle_from_client,
            } => {
                encoder.write_u32(RPCSEC_GSS);
                encoder.write_u32(service.as_u32());
                encoder.write_opaque(handle_from_server.as_slice(), NFS4_OPAQUE_LIMIT)?;
                encoder.write_opaque(handle_from_client.as_slice(), NFS4_OPAQUE_LIMIT)
            }
        }
    }
}





#[derive(Debug, Clone, PartialEq, Eq)]
pub struct ClientOwner {
    pub verifier: Verifier,
    pub owner_id: Vec<u8>,
}

impl Encode for ClientOwner {
    open spec fn xdr_bytes(&self) -> Seq<u8> {
        fixed_opaque(self.verifier@) + var_opaque(self.owner_id@)
    }

    open spec fn xdr_encodable(&self) -> bool {
        self.owner_id@.len() <= NFS4_OPAQUE_LIMIT
    }

    fn encode(&self, encoder: &mut Encoder) -> (r: core::result::Result<(), XdrError>) {
        encoder.write_fixed_opaque(self.verifier.as_slice());
        encoder.write_opaque(self.owner_id.as_slice(), NFS4_OPAQUE_LIMIT)
    }
}

#[derive(Debug, Clone, PartialEq, Eq)]
pub struct CallbackClient {
    pub program: u32,
    pub location: NetAddr,
}

impl Encode for CallbackClient {
    open spec fn xdr_bytes(&self) -> Seq<u8> {
        be_u32(self.program) + self.location.xdr_bytes()
    }

    open spec fn xdr_encodable(&self) -> bool {
        self.location.xdr_encodable()
    }

    fn encode(&self, encoder: &mut Encoder) -> (r: core::result::Result<(), XdrError>) {
        encoder.write_u32(self.program);
        self.location.encode(encoder)
    }
}

#[derive(Debug, Clone, PartialEq, Eq)]
pub struct SetClientIdArgs {
    pub client: ClientOwner,
    pub callback: CallbackClient,
    pub callback_ident: u32,
}

impl Encode for SetClientIdArgs {
    open spec fn xdr_bytes(&self) -> Seq<u8> {
        self.client.xdr_bytes() + self.callback.xdr_bytes() + be_u32(self.callback_ident)
    }

    open spec fn xdr_encodable(&self) -> bool {
        self.client.xdr_encodable() && self.callback.xdr_encodable()
    }

    fn encode(&self, encoder: &mut Encoder) -> (r: core::result::Result<(), XdrError>) {
        self.client.encode(encoder)?;
        self.callback.encode(encoder)?;
        encoder.write_u32(self.callback_ident);
        Ok(())
    }
}

#[derive(Debug, Clone, Copy, PartialEq, Eq)]
pub struct SetClientIdConfirmArgs {
    pub client_id: u64,
    pub verifier: Verifier,
}

impl Encode for SetClientIdConfirmArgs {
    open spec fn xdr_bytes(&self) -> Seq<u8> {
        be_u64(self.client_id) + fixed_opaque(self.verifier@)
    }

    open spec fn xdr_encodable(&self) -> bool {
        true
    }

    fn encode(&self, encoder: &mut Encoder) -> (r: core::result::Result<(), XdrError>) {
        encoder.write_u64(self.client_id);
        encoder.write_fixed_opaque(self.verifier.as_slice());
        Ok(())
    }
}

#[derive(Debug, Clone, PartialEq, Eq)]
pub struct SetClientIdResult {
    pub client_id: u64,
    pub verifier: Verifier,
}

#[derive(Debug, Clone, PartialEq, Eq)]
pub struct ExchangeIdArgs {
    pub client_owner: ClientOwner,
    pub flags: u32,
}

impl Encode for ExchangeIdArgs {
    open spec fn xdr_bytes(&self) -> Seq<u8> {
        self.client_owner.xdr_bytes() + be_u32(self.flags) + be_u32(StateProtectHow::NoProtection.code()) + be_u32(0)
    }

    open spec fn xdr_encodable(&self) -> bool {
        self.client_owner.xdr_encodable()
    }

    fn encode(&self, encoder: &mut Encoder) -> (r: core::result::Result<(), XdrError>) {
        self.client_owner.encode(encoder)?;
        encoder.write_u32(self.flags);
        encoder.write_u32(StateProtectHow::NoProtection.as_u32());
        encoder.write_u32(0); // eia_client_impl_id<1>
        Ok(())
    }
}

#[derive(Debug, Clone, PartialEq, Eq)]
pub struct ExchangeIdResult {
    pub client_id: u64,
    pub sequence_id: u32,
    pub flags: u32,
}

#[derive(Debug, Clone, PartialEq, Eq)]
pub struct ChannelAttrs {
    pub header_pad_size: u32,
    pub max_request_size: u32,
    pub max_response_size: u32,
    pub max_response_size_cached: u32,
    pub max_operations: u32,
    pub max_requests: u32,
    pub rdma_ird: Vec<u32>,
}


impl Encode for ChannelAttrs {
    open spec fn xdr_bytes(&self) -> Seq<u8> {
        be_u32(self.header_pad_size) + be_u32(self.max_request_size) + be_u32(self.max_response_size)
            + be_u32(self.max_response_size_cached) + be_u32(self.max_operations) + be_u32(self.max_requests)
            + array_bytes(self.rdma_ird@)
    }

    open spec fn xdr_encodable(&self) -> bool {
        array_encodable(self.rdma_ird@, 1)
    }

    #[verifier::rlimit(40)]
    #[verifier::spinoff_prover]
    fn encode(&self, encoder: &mut Encoder) -> (r: core::result::Result<(), XdrError>) {
        encoder.write_u32(self.header_pad_size);
        encoder.write_u32(self.max_request_size);
        encoder.write_u32(self.max_response_size);
        encoder.write_u32(self.max_response_size_cached);
        encoder.write_u32(self.max_operations);
        encoder.write_u32(self.max_requests);
        encoder.write_array(self.rdma_ird.as_slice(), 1)?;
        Ok(())
    }
}

impl Decode for ChannelAttrs {
    /// Reads the six channel limits in order, then at most one RDMA read
    /// depth.
    fn decode(decoder: &mut Decoder<'_>) -> (r: core::result::Result<Self, XdrError>)
        ensures
            ({
                let d = old(decoder).input();
                let p = old(decoder).pos();
                &&& r is Ok <==> (p + 28 <= d.len() && u32_at(d, p + 24) <= 1
                    && p + 28 + 4 * u32_at(d, p + 24) <= d.len())
                &&& r matches Ok(a) ==> a.header_pad_size == u32_at(d, p) && a.max_request_size == u32_at(d, p + 4)
                    && a.max_response_size == u32_at(d, p + 8) && a.max_response_size_cached == u32_at(d, p + 12)
                    && a.max_operations == u32_at(d, p + 16) && a.max_requests == u32_at(d, p + 20)
                    && a.rdma_ird@.len() == u32_at(d, p + 24)
                    && d.subrange(p + 28, p + 28 + 4 * a.rdma_ird@.len()) == u32_array_body(a.rdma_ird@)
                    && final(decoder).pos() == p + 28 + 4 * a.rdma_ird@.len()
            }),
    {
        let header_pad_size = decoder.read_u32()?;
        let max_request_size = decoder.read_u32()?;
        let max_response_size = decoder.read_u32()?;
        let max_response_size_cached = decoder.read_u32()?;
        let max_operations = decoder.read_u32()?;
        let max_requests = decoder.read_u32()?;
        let rdma_ird = decoder.read_u32_array(1)?;
        Ok(Self {
            header_pad_size,
            max_request_size,
            max_response_size,
            max_response_size_cached,
            max_operations,
            max_requests,
            rdma_ird,
        })
    }
}

#[derive(Debug, Clone, PartialEq, Eq)]
pub struct CreateSessionArgs {
    pub client_id: u64,
    pub sequence_id: u32,
    pub flags: u32,
    pub fore_channel_attrs: ChannelAttrs,
    pub back_channel_attrs: ChannelAttrs,
    pub callback_program: u32,
    pub callback_sec_parms: Vec<CallbackSecParms>,
}

impl Encode for CreateSessionArgs {
    open spec fn xdr_bytes(&self) -> Seq<u8> {
        be_u64(self.client_id) + be_u32(self.sequence_id) + be_u32(self.flags)
            + self.fore_channel_attrs.xdr_bytes() + self.back_channel_attrs.xdr_bytes()
            + be_u32(self.callback_program) + array_bytes(self.callback_sec_parms@)
    }

    open spec fn xdr_encodable(&self) -> bool {
        self.fore_channel_attrs.xdr_encodable() && self.back_channel_attrs.xdr_encodable()
            && array_encodable(self.callback_sec_parms@, NFS4_MAX_CALLBACK_SEC_PARMS)
    }

    #[verifier::rlimit(40)]
    #[verifier::spinoff_prover]
    fn encode(&self, encoder: &mut Encoder) -> (r: core::result::Result<(), XdrError>) {
        encoder.write_u64(self.client_id);
        encoder.write_u32(self.sequence_id);
        encoder.write_u32(self.flags);
        self.fore_channel_attrs.encode(encoder)?;
        self.back_channel_attrs.encode(encoder)?;
        encoder.write_u32(self.callback_program);
        encoder.write_array(self.callback_sec_parms.as_slice(), NFS4_MAX_CALLBACK_SEC_PARMS)?;
        Ok(())
    }
}

#[derive(Debug, Clone, PartialEq, Eq)]
pub struct CreateSessionResult {
    pub session_id: SessionId,
    pub sequence_id: u32,
    pub flags: u32,
    pub fore_channel_attrs: ChannelAttrs,
    pub back_channel_attrs: ChannelAttrs,
}

#[derive(Debug, Clone, PartialEq, Eq)]
pub struct BackchannelCtlArgs {
    pub callback_program: u32,
    pub callback_sec_parms: Vec<CallbackSecParms>,
}

impl Encode for BackchannelCtlArgs {
    open spec fn xdr_bytes(&self) -> Seq<u8> {
        be_u32(self.callback_program) + array_bytes(self.callback_sec_parms@)
    }

    open spec fn xdr_encodable(&self) -> bool {
        array_encodable(self.callback_sec_parms@, NFS4_MAX_CALLBACK_SEC_PARMS)
    }

    fn encode(&self, encoder: &mut Encoder) -> (r: core::result::Result<(), XdrError>) {
        encoder.write_u32(self.callback_program);
        encoder.write_array(self.callback_sec_parms.as_slice(), NFS4_MAX_CALLBACK_SEC_PARMS)
    }
}

#[derive(Debug, Clone, PartialEq, Eq)]
pub struct SequenceArgs {
    pub session_id: SessionId,
    pub sequence_id: u32,
    pub slot_id: u32,
    pub highest_slot_id: u32,
    pub cache_this: bool,
}

impl Encode for SequenceArgs {
    open spec fn xdr_bytes(&self) -> Seq<u8> {
        fixed_opaque(self.session_id@) + be_u32(self.sequence_id) + be_u32(self.slot_id)
            + be_u32(self.highest_slot_id) + be_bool(self.cache_this)
    }

    open spec fn xdr_encodable(&self) -> bool {
        true
    }

    #[verifier::rlimit(40)]
    #[verifier::spinoff_prover]
    fn encode(&self, encoder: &mut Encoder) -> (r: core::result::Result<(), XdrError>) {
        encoder.write_fixed_opaque(self.session_id.as_slice());
        encoder.write_u32(self.sequence_id);
        encoder.write_u32(self.slot_id);
        encoder.write_u32(self.highest_slot_id);
        encoder.write_bool(self.cache_this);
        Ok(())
    }
}

#[derive(Debug, Clone, PartialEq, Eq)]
pub struct SequenceResult {
    pub session_id: SessionId,
    pub sequence_id: u32,
    pub slot_id: u32,
    pub highest_slot_id: u32,
    pub target_highest_slot_id: u32,
    pub status_flags: u32,
}





/// Arguments for `BIND_CONN_TO_SESSION`.
#[derive(Debug, Clone, Copy, PartialEq, Eq)]
pub struct BindConnToSessionArgs {
    pub session_id: SessionId,
    pub direction: ChannelDirFromClient,
    pub use_conn_in_rdma_mode: bool,
}

impl Encode for BindConnToSessionArgs {
    open spec fn xdr_bytes(&self) -> Seq<u8> {
        fixed_opaque(self.session_id@) + be_u32(self.direction.code()) + be_bool(self.use_conn_in_rdma_mode)
    }

    open spec fn xdr_encodable(&self) -> bool {
        true
    }

    fn encode(&self, encoder: &mut Encoder) -> (r: core::result::Result<(), XdrError>) {
        encoder.write_fixed_opaque(self.session_id.as_slice());
        encoder.write_u32(self.direction.as_u32());
        encoder.write_bool(self.use_conn_in_rdma_mode);
        Ok(())
    }
}

/// Result of `BIND_CONN_TO_SESSION`.
#[derive(Debug, Clone, Copy, PartialEq, Eq)]
pub struct BindConnToSessionResult {
    pub session_id: SessionId,
    pub direction: ChannelDirFromServer,
    pub use_conn_in_rdma_mode: bool,
}

#[derive(Debug, Clone, PartialEq, Eq)]
pub struct OpenOwner {
    pub client_id: u64,
    pub owner: Vec<u8>,
}

impl Encode for OpenOwner {
    open spec fn xdr_bytes(&self) -> Seq<u8> {
        be_u64(self.client_id) + var_opaque(self.owner@)
    }

    open spec fn xdr_encodable(&self) -> bool {
        self.owner@.len() <= NFS4_OPAQUE_LIMIT
    }

    fn encode(&self, encoder: &mut Encoder) -> (r: core::result::Result<(), XdrError>) {
        encoder.write_u64(self.client_id);
        encoder.write_opaque(self.owner.as_slice(), NFS4_OPAQUE_LIMIT)
    }
}







/// NFSv4 ACE used in delegation permissions.
#[derive(Debug, Clone, PartialEq, Eq)]
pub struct NfsAce {
    pub ace_type: u32,
    pub flag: u32,
    pub access_mask: u32,
    pub who: String,
}

impl Decode for NfsAce {
    fn decode(decoder: &mut Decoder<'_>) -> (r: core::result::Result<Self, XdrError>) {
        Ok(Self {
            ace_type: decoder.read_u32()?,
            flag: decoder.read_u32()?,
            access_mask: decoder.read_u32()?,
            who: decoder.read_string(NFS4_OPAQUE_LIMIT)?,
        })
    }
}

/// Space limit returned with write delegations.
#[derive(Debug, Clone, Copy, PartialEq, Eq)]
pub enum NfsSpaceLimit {
    Size(u64),
    Blocks {
        num_blocks: u32,
        bytes_per_block: u32,
    },
}

impl Decode for NfsSpaceLimit {
    fn decode(decoder: &mut Decoder<'_>) -> (r: core::result::Result<Self, XdrError>) {
        match decoder.read_u32()? {
            1 => Ok(Self::Size(decoder.read_u64()?)),
            2 => Ok(Self::Blocks {
                num_blocks: decoder.read_u32()?,
                bytes_per_block: decoder.read_u32()?,
            }),
            value => Err(XdrError::InvalidDiscriminant { value: value }),
        }
    }
}

/// Read delegation payload returned by OPEN or WANT_DELEGATION.
#[derive(Debug, Clone, PartialEq, Eq)]
pub struct OpenReadDelegation {
    pub stateid: StateId,
    pub recall: bool,
    pub permissions: NfsAce,
}

/// Write delegation payload returned by OPEN or WANT_DELEGATION.
#[derive(Debug, Clone, PartialEq, Eq)]
pub struct OpenWriteDelegation {
    pub stateid: StateId,
    pub recall: bool,
    pub space_limit: NfsSpaceLimit,
    pub permissions: NfsAce,
}



/// Extended no-delegation payload returned by NFSv4.1+ servers.
#[derive(Debug, Clone, Copy, PartialEq, Eq)]
pub struct OpenNoneDelegation {
    pub why: WhyNoDelegation,
    pub server_will_push_deleg: Option<bool>,
    pub server_will_signal_avail: Option<bool>,
}

/// Delegation returned by OPEN or WANT_DELEGATION.
#[derive(Debug, Clone, PartialEq, Eq)]
pub enum OpenDelegation {
    NoDelegation,
    Read(OpenReadDelegation),
    Write(OpenWriteDelegation),
    NoneExt(OpenNoneDelegation),
}

impl Decode for OpenDelegation {
    /// Reads the delegation type, then the payload it calls for: the kind
    /// of delegation, its state id and its recall flag are those the wire
    /// names.
    fn decode(decoder: &mut Decoder<'_>) -> (r: core::result::Result<Self, XdrError>)
        ensures
            r matches Ok(x) ==> ({
                let d = old(decoder).input();
                let p = old(decoder).pos();
                &&& p + 4 <= d.len()
                &&& match x {
                    OpenDelegation::NoDelegation => u32_at(d, p) == 0,
                    OpenDelegation::Read(rd) => u32_at(d, p) == 1 && holds_encoding(d, p + 4, rd.stateid)
                        && p + 24 <= d.len() && rd.recall == (u32_at(d, p + 20) == 1),
                    OpenDelegation::Write(wd) => u32_at(d, p) == 2 && holds_encoding(d, p + 4, wd.stateid)
                        && p + 24 <= d.len() && wd.recall == (u32_at(d, p + 20) == 1),
                    OpenDelegation::NoneExt(n) => u32_at(d, p) == 3 && p + 8 <= d.len()
                        && n.why == WhyNoDelegation::from_code(u32_at(d, p + 4)),
                }
            }),
    {
        match decoder.read_u32()? {
            0 => Ok(Self::NoDelegation),
            1 => {
                let stateid = StateId::decode(decoder)?;
                let recall = decoder.read_bool()?;
                let permissions = NfsAce::decode(decoder)?;
                Ok(Self::Read(OpenReadDelegation { stateid, recall, permissions }))
            },
            2 => {
                let stateid = StateId::decode(decoder)?;
                let recall = decoder.read_bool()?;
                let space_limit = NfsSpaceLimit::decode(decoder)?;
                let permissions = NfsAce::decode(decoder)?;
                Ok(Self::Write(OpenWriteDelegation { stateid, recall, space_limit, permissions }))
            },
            3 => {
                let why = WhyNoDelegation::from_u32(decoder.read_u32()?);
                let (server_will_push_deleg, server_will_signal_avail) = match why {
                    WhyNoDelegation::Contention => (Some(bool::decode(decoder)?), None),
                    WhyNoDelegation::Resource => (None, Some(bool::decode(decoder)?)),
                    _ => (None, None),
                };
                Ok(Self::NoneExt(OpenNoneDelegation {
                    why,
                    server_will_push_deleg,
                    server_will_signal_avail,
                }))
            }
            value => Err(XdrError::InvalidDiscriminant { value: value }),
        }
    }
}





/// NFSv4 byte-range lock owner.
#[derive(Debug, Clone, PartialEq, Eq)]
pub struct LockOwner {
    pub client_id: u64,
    pub owner: Vec<u8>,
}

impl Encode for LockOwner {
    open spec fn xdr_bytes(&self) -> Seq<u8> {
        be_u64(self.client_id) + var_opaque(self.owner@)
    }

    open spec fn xdr_encodable(&self) -> bool {
        self.owner@.len() <= NFS4_OPAQUE_LIMIT
    }

    fn encode(&self, encoder: &mut Encoder) -> (r: core::result::Result<(), XdrError>) {
        encoder.write_u64(self.client_id);
        encoder.write_opaque(self.owner.as_slice(), NFS4_OPAQUE_LIMIT)
    }
}

impl Decode for LockOwner {
    /// Reads the client id, then the owner as opaque data of at most
    /// [`NFS4_OPAQUE_LIMIT`] bytes; the encoding of any lock owner reads back
    /// as a lock owner with the same client id and owner bytes.
    fn decode(decoder: &mut Decoder<'_>) -> (r: core::result::Result<Self, XdrError>)
        ensures
            ({
                let d = old(decoder).input();
                let p = old(decoder).pos();
                let n = u32_at(d, p + 8) as int;
                &&& r is Ok <==> (p + 12 <= d.len() && n <= NFS4_OPAQUE_LIMIT && p + 12 + n + pad_len(n as nat) <= d.len())
                &&& r matches Ok(o) ==> o.client_id == u64_at(d, p) && o.owner@ == d.subrange(p + 12, p + 12 + n)
                    && final(decoder).pos() == p + 12 + n + pad_len(n as nat)
            }),
            forall|w: LockOwner| #[trigger] holds_encoding(old(decoder).input(), old(decoder).pos(), w)
                ==> (r matches Ok(o) && o.client_id == w.client_id && o.owner@ == w.owner@
                    && final(decoder).pos() == old(decoder).pos() + w.xdr_bytes().len()),
    {
        let ghost d = old(decoder).input();
        let ghost p = old(decoder).pos();
        proof {
            old(decoder).lemma_pos_nonneg();
            assert forall|w: LockOwner| #[trigger] holds_encoding(d, p, w) implies
                u64_at(d, p) == w.client_id && p + 8 <= d.len() by {
                let e = w.xdr_bytes();
                assert(d.subrange(p, p + 8) =~= e.subrange(0, 8));
                assert(e.subrange(0, 8) =~= be_u64(w.client_id));
                lemma_u64_roundtrip(w.client_id);
                let o = var_opaque(w.owner@);
                assert(d.subrange(p + 8, p + 8 + o.len()) =~= e.subrange(8, 8 + o.len() as int));
                assert(e.subrange(8, 8 + o.len() as int) =~= o);
                lemma_opaque_at(d, p + 8, w.owner@);
            }
        }
        let client_id = match decoder.read_u64() {
            Ok(v) => v,
            Err(e) => return Err(e),
        };
        let r = decoder.read_opaque_vec(NFS4_OPAQUE_LIMIT);
        proof {
            assert forall|w: LockOwner| #[trigger] holds_encoding(d, p, w)
                implies (r matches Ok(v) && v@ == w.owner@ && decoder.pos() == p + w.xdr_bytes().len()) by {
                let e = w.xdr_bytes();
                let o = var_opaque(w.owner@);
                assert(d.subrange(p + 8, p + 8 + o.len()) =~= e.subrange(8, 8 + o.len() as int));
                assert(e.subrange(8, 8 + o.len() as int) =~= o);
                lemma_opaque_at(d, p + 8, w.owner@);
            }
        }
        match r {
            Ok(owner) => Ok(LockOwner { client_id, owner }),
            Err(e) => Err(e),
        }
    }
}

/// NFSv4 `LOCK` owner selector.
#[derive(Debug, Clone, PartialEq, Eq)]
pub enum Locker {
    /// First lock for this lock owner, transitioning from an OPEN stateid.
    New {
        open_seqid: u32,
        open_stateid: StateId,
        lock_seqid: u32,
        lock_owner: LockOwner,
    },
    /// Existing lock owner identified by its lock stateid.
    Existing {
        lock_stateid: StateId,
        lock_seqid: u32,
    },
}

impl Encode for Locker {
    open spec fn xdr_bytes(&self) -> Seq<u8> {
        match self {
            Locker::New { open_seqid, open_stateid, lock_seqid, lock_owner } => be_bool(true) + be_u32(*open_seqid)
                + open_stateid.xdr_bytes() + be_u32(*lock_seqid) + lock_owner.xdr_bytes(),
            Locker::Existing { lock_stateid, lock_seqid } => be_bool(false) + lock_stateid.xdr_bytes() + be_u32(*lock_seqid),
        }
    }

    open spec fn xdr_encodable(&self) -> bool {
        match self {
            Locker::New { lock_owner, .. } => lock_owner.xdr_encodable(),
            Locker::Existing { .. } => true,
        }
    }

    fn encode(&self, encoder: &mut Encoder) -> (r: core::result::Result<(), XdrError>) {
        match self {
            Self::New {
                open_seqid,
                open_stateid,
                lock_seqid,
                lock_owner,
            } => {
                encoder.write_bool(true);
                encoder.write_u32(*open_seqid);
                open_stateid.encode(encoder)?;
                encoder.write_u32(*lock_seqid);
                lock_owner.encode(encoder)
            }
            Self::Existing {
                lock_stateid,
                lock_seqid,
            } => {
                encoder.write_bool(false);
                lock_stateid.encode(encoder)?;
                encoder.write_u32(*lock_seqid);
                Ok(())
            }
        }
    }
}

/// Arguments for the NFSv4 `LOCK` operation.
#[derive(Debug, Clone, PartialEq, Eq)]
pub struct LockArgs {
    pub lock_type: LockType,
    pub reclaim: bool,
    pub offset: u64,
    pub length: u64,
    pub locker: Locker,
}

impl Encode for LockArgs {
    open spec fn xdr_bytes(&self) -> Seq<u8> {
        be_u32(self.lock_type.code()) + be_bool(self.reclaim) + be_u64(self.offset) + be_u64(self.length)
            + self.locker.xdr_bytes()
    }

    open spec fn xdr_encodable(&self) -> bool {
        self.locker.xdr_encodable()
    }

    #[verifier::rlimit(40)]
    #[verifier::spinoff_prover]
    fn encode(&self, encoder: &mut Encoder) -> (r: core::result::Result<(), XdrError>) {
        encoder.write_u32(self.lock_type.as_u32());
        encoder.write_bool(self.reclaim);
        encoder.write_u64(self.offset);
        encoder.write_u64(self.length);
        self.locker.encode(encoder)
    }
}

/// Arguments for the NFSv4 `LOCKT` operation.
#[derive(Debug, Clone, PartialEq, Eq)]
pub struct LockTestArgs {
    pub lock_type: LockType,
    pub offset: u64,
    pub length: u64,
    pub owner: LockOwner,
}

impl Encode for LockTestArgs {
    open spec fn xdr_bytes(&self) -> Seq<u8> {
        be_u32(self.lock_type.code()) + be_u64(self.offset) + be_u64(self.length) + self.owner.xdr_bytes()
    }

    open spec fn xdr_encodable(&self) -> bool {
        self.owner.xdr_encodable()
    }

    fn encode(&self, encoder: &mut Encoder) -> (r: core::result::Result<(), XdrError>) {
        encoder.write_u32(self.lock_type.as_u32());
        encoder.write_u64(self.offset);
        encoder.write_u64(self.length);
        self.owner.encode(encoder)
    }
}

/// Arguments for the NFSv4 `LOCKU` operation.
#[derive(Debug, Clone, Copy, PartialEq, Eq)]
pub struct LockUnlockArgs {
    pub lock_type: LockType,
    pub seqid: u32,
    pub lock_stateid: StateId,
    pub offset: u64,
    pub length: u64,
}

impl Encode for LockUnlockArgs {
    open spec fn xdr_bytes(&self) -> Seq<u8> {
        be_u32(self.lock_type.code()) + be_u32(self.seqid) + self.lock_stateid.xdr_bytes() + be_u64(self.offset)
            + be_u64(self.length)
    }

    open spec fn xdr_encodable(&self) -> bool {
        true
    }

    fn encode(&self, encoder: &mut Encoder) -> (r: core::result::Result<(), XdrError>) {
        encoder.write_u32(self.lock_type.as_u32());
        encoder.write_u32(self.seqid);
        self.lock_stateid.encode(encoder)?;
        encoder.write_u64(self.offset);
        encoder.write_u64(self.length);
        Ok(())
    }
}

/// Conflicting lock returned by `LOCK` or `LOCKT`.
#[derive(Debug, Clone, PartialEq, Eq)]
pub struct LockDenied {
    pub offset: u64,
    pub length: u64,
    pub lock_type: LockType,
    pub owner: LockOwner,
}

impl Decode for LockDenied {
    /// Reads the conflicting range, its lock type, then its owner.
    fn decode(decoder: &mut Decoder<'_>) -> (r: core::result::Result<Self, XdrError>)
        ensures
            ({
                let d = old(decoder).input();
                let p = old(decoder).pos();
                let n = u32_at(d, p + 28) as int;
                &&& r is Ok <==> (p + 32 <= d.len() && LockType::from_code(u32_at(d, p + 16)) is Some
                    && n <= NFS4_OPAQUE_LIMIT && p + 32 + n + pad_len(n as nat) <= d.len())
                &&& r matches Ok(l) ==> l.offset == u64_at(d, p) && l.length == u64_at(d, p + 8)
                    && LockType::from_code(u32_at(d, p + 16)) == Some(l.lock_type)
                    && l.owner.client_id == u64_at(d, p + 20) && l.owner.owner@ == d.subrange(p + 32, p + 32 + n)
                    && final(decoder).pos() == p + 32 + n + pad_len(n as nat)
            }),
    {
        let offset = decoder.read_u64()?;
        let length = decoder.read_u64()?;
        let raw_lock_type = decoder.read_u32()?;
        let lock_type = match LockType::from_u32(raw_lock_type) {
            Some(t) => t,
            None => return Err(XdrError::InvalidDiscriminant { value: raw_lock_type }),
        };
        let owner = LockOwner::decode(decoder)?;
        Ok(Self { offset, length, lock_type, owner })
    }
}



#[derive(Debug, Clone, PartialEq, Eq)]
pub enum OpenHow {
    NoCreate,
    Unchecked(Fattr),
    Guarded(Fattr),
    Exclusive(Verifier),
    ExclusiveWithAttrs { verifier: Verifier, attrs: Fattr },
}

impl Encode for OpenHow {
    open spec fn xdr_bytes(&self) -> Seq<u8> {
        match self {
            OpenHow::NoCreate => be_u32(OpenType::NoCreate.code()),
            OpenHow::Unchecked(attrs) => be_u32(OpenType::Create.code()) + be_u32(CreateMode::Unchecked.code())
                + attrs.xdr_bytes(),
            OpenHow::Guarded(attrs) => be_u32(OpenType::Create.code()) + be_u32(CreateMode::Guarded.code())
                + attrs.xdr_bytes(),
            OpenHow::Exclusive(verifier) => be_u32(OpenType::Create.code()) + be_u32(CreateMode::Exclusive.code())
                + fixed_opaque(verifier@),
            OpenHow::ExclusiveWithAttrs { verifier, attrs } => be_u32(OpenType::Create.code())
                + be_u32(CreateMode::Exclusive4_1.code()) + fixed_opaque(verifier@) + attrs.xdr_bytes(),
        }
    }

    open spec fn xdr_encodable(&self) -> bool {
        match self {
            OpenHow::Unchecked(attrs) => attrs.xdr_encodable(),
            OpenHow::Guarded(attrs) => attrs.xdr_encodable(),
            OpenHow::ExclusiveWithAttrs { attrs, .. } => attrs.xdr_encodable(),
            _ => true,
        }
    }

    fn encode(&self, encoder: &mut Encoder) -> (r: core::result::Result<(), XdrError>) {
        match self {
            Self::NoCreate => {
                encoder.write_u32(OpenType::NoCreate.as_u32());
            }
            Self::Unchecked(attrs) => {
                encoder.write_u32(OpenType::Create.as_u32());
                encoder.write_u32(CreateMode::Unchecked.as_u32());
                attrs.encode(encoder)?;
            }
            Self::Guarded(attrs) => {
                encoder.write_u32(OpenType::Create.as_u32());
                encoder.write_u32(CreateMode::Guarded.as_u32());
                attrs.encode(encoder)?;
            }
            Self::Exclusive(verifier) => {
                encoder.write_u32(OpenType::Create.as_u32());
                encoder.write_u32(CreateMode::Exclusive.as_u32());
                encoder.write_fixed_opaque(verifier.as_slice());
            }
            Self::ExclusiveWithAttrs { verifier, attrs } => {
                encoder.write_u32(OpenType::Create.as_u32());
                encoder.write_u32(CreateMode::Exclusive4_1.as_u32());
                encoder.write_fixed_opaque(verifier.as_slice());
                attrs.encode(encoder)?;
            }
        }
        Ok(())
    }
}

#[derive(Debug, Clone, PartialEq, Eq)]
pub enum OpenClaim {
    Null(String),
    Previous(OpenDelegationType),
    DelegateCurrent {
        delegate_stateid: StateId,
        file: String,
    },
    DelegatePrevious(String),
    CurrentFileHandle,
    DelegateCurrentFileHandle(StateId),
    DelegatePreviousFileHandle,
}

impl Encode for OpenClaim {
    open spec fn xdr_bytes(&self) -> Seq<u8> {
        match self {
            OpenClaim::Null(name) => be_u32(OpenClaimType::Null.code()) + xdr_text(*name),
            OpenClaim::Previous(delegation_type) => be_u32(OpenClaimType::Previous.code())
                + be_u32(delegation_type.code()),
            OpenClaim::DelegateCurrent { delegate_stateid, file } => be_u32(OpenClaimType::DelegateCurrent.code())
                + delegate_stateid.xdr_bytes() + xdr_text(*file),
            OpenClaim::DelegatePrevious(file) => be_u32(OpenClaimType::DelegatePrevious.code()) + xdr_text(*file),
            OpenClaim::CurrentFileHandle => be_u32(OpenClaimType::FileHandle.code()),
            OpenClaim::DelegateCurrentFileHandle(delegate_stateid) =>
                be_u32(OpenClaimType::DelegateCurrentFileHandle.code()) + delegate_stateid.xdr_bytes(),
            OpenClaim::DelegatePreviousFileHandle => be_u32(OpenClaimType::DelegatePreviousFileHandle.code()),
        }
    }

    open spec fn xdr_encodable(&self) -> bool {
        match self {
            OpenClaim::Null(name) => text_fits(*name),
            OpenClaim::DelegateCurrent { file, .. } => text_fits(*file),
            OpenClaim::DelegatePrevious(file) => text_fits(*file),
            _ => true,
        }
    }

    fn encode(&self, encoder: &mut Encoder) -> (r: core::result::Result<(), XdrError>) {
        match self {
            Self::Null(name) => {
                encoder.write_u32(OpenClaimType::Null.as_u32());
                encoder.write_string(name.as_str(), NFS4_OPAQUE_LIMIT)?;
            }
            Self::Previous(delegation_type) => {
                encoder.write_u32(OpenClaimType::Previous.as_u32());
                encoder.write_u32(delegation_type.as_u32());
            }
            Self::DelegateCurrent {
                delegate_stateid,
                file,
            } => {
                encoder.write_u32(OpenClaimType::DelegateCurrent.as_u32());
                delegate_stateid.encode(encoder)?;
                encoder.write_string(file.as_str(), NFS4_OPAQUE_LIMIT)?;
            }
            Self::DelegatePrevious(file) => {
                encoder.write_u32(OpenClaimType::DelegatePrevious.as_u32());
                encoder.write_string(file.as_str(), NFS4_OPAQUE_LIMIT)?;
            }
            Self::CurrentFileHandle => {
                encoder.write_u32(OpenClaimType::FileHandle.as_u32());
            }
            Self::DelegateCurrentFileHandle(delegate_stateid) => {
                encoder.write_u32(OpenClaimType::DelegateCurrentFileHandle.as_u32());
                delegate_stateid.encode(encoder)?;
            }
            Self::DelegatePreviousFileHandle => {
                encoder.write_u32(OpenClaimType::DelegatePreviousFileHandle.as_u32());
            }
        }
        Ok(())
    }
}

#[derive(Debug, Clone, PartialEq, Eq)]
pub struct OpenArgs {
    pub seqid: u32,
    pub share_access: u32,
    pub share_deny: u32,
    pub owner: OpenOwner,
    pub openhow: OpenHow,
    pub claim: OpenClaim,
}

impl Encode for OpenArgs {
    open spec fn xdr_bytes(&self) -> Seq<u8> {
        be_u32(self.seqid) + be_u32(self.share_access) + be_u32(self.share_deny) + self.owner.xdr_bytes()
            + self.openhow.xdr_bytes() + self.claim.xdr_bytes()
    }

    open spec fn xdr_encodable(&self) -> bool {
        self.owner.xdr_encodable() && self.openhow.xdr_encodable() && self.claim.xdr_encodable()
    }

    #[verifier::rlimit(40)]
    #[verifier::spinoff_prover]
    fn encode(&self, encoder: &mut Encoder) -> (r: core::result::Result<(), XdrError>) {
        encoder.write_u32(self.seqid);
        encoder.write_u32(self.share_access);
        encoder.write_u32(self.share_deny);
        self.owner.encode(encoder)?;
        self.openhow.encode(encoder)?;
        self.claim.encode(encoder)
    }
}

#[derive(Debug, Clone, PartialEq, Eq)]
pub struct OpenResult {
    pub stateid: StateId,
    pub result_flags: u32,
    pub attrset: Bitmap,
    pub delegation: OpenDelegation,
}



/// Result of an NFSv4 WRITE operation.
#[derive(Debug, Clone, PartialEq, Eq)]
pub struct WriteResult {
    /// Number of bytes written.
    pub count: u32,
    /// Stability level committed by the server.
    pub committed: StableHow,
    /// Server write verifier.
    pub verifier: Verifier,
}

/// Result of an NFSv4 COMMIT operation.
#[derive(Debug, Clone, PartialEq, Eq)]
pub struct CommitResult {
    /// Server write verifier.
    pub verifier: Verifier,
}





/// Result of an NFSv4.2 SEEK operation.
#[derive(Debug, Clone, Copy, PartialEq, Eq)]
pub struct SeekResult {
    /// Whether the server reached EOF before finding the requested content.
    pub eof: bool,
    /// Found offset, or EOF offset when `eof` is true.
    pub offset: u64,
}


/// Arguments for the NFSv4.2 `READ_PLUS` operation.
#[derive(Debug, Clone, Copy, PartialEq, Eq)]
pub struct ReadPlusArgs {
    pub stateid: StateId,
    pub offset: u64,
    pub count: u32,
}

impl Encode for ReadPlusArgs {
    open spec fn xdr_bytes(&self) -> Seq<u8> {
        self.stateid.xdr_bytes() + be_u64(self.offset) + be_u32(self.count)
    }

    open spec fn xdr_encodable(&self) -> bool {
        true
    }

    fn encode(&self, encoder: &mut Encoder) -> (r: core::result::Result<(), XdrError>) {
        self.stateid.encode(encoder)?;
        encoder.write_u64(self.offset);
        encoder.write_u32(self.count);
        Ok(())
    }
}

/// One content segment returned by `READ_PLUS`.
#[derive(Debug, Clone, PartialEq, Eq)]
pub enum ReadPlusContent {
    /// A data segment with its file offset and payload.
    Data { offset: u64, data: Vec<u8> },
    /// A hole segment with its file offset and length.
    Hole { offset: u64, length: u64 },
}

impl Decode for ReadPlusContent {
    fn decode(decoder: &mut Decoder<'_>) -> (r: core::result::Result<Self, XdrError>) {
        match decoder.read_u32()? {
            NFS4_CONTENT_DATA => Ok(Self::Data {
                offset: decoder.read_u64()?,
                data: decoder.read_opaque_vec(NFS4_MAX_IO)?,
            }),
            NFS4_CONTENT_HOLE => Ok(Self::Hole {
                offset: decoder.read_u64()?,
                length: decoder.read_u64()?,
            }),
            value => Err(XdrError::InvalidDiscriminant { value: value }),
        }
    }
}

/// Result of an NFSv4.2 `READ_PLUS` operation.
#[derive(Debug, Clone, PartialEq, Eq)]
pub struct ReadPlusResult {
    pub eof: bool,
    pub contents: Vec<ReadPlusContent>,
}

/// Arguments for the NFSv4.2 `IO_ADVISE` operation.
#[derive(Debug, Clone, PartialEq, Eq)]
pub struct IoAdviseArgs {
    pub stateid: StateId,
    pub offset: u64,
    pub count: u64,
    pub hints: Bitmap,
}

impl Encode for IoAdviseArgs {
    open spec fn xdr_bytes(&self) -> Seq<u8> {
        self.stateid.xdr_bytes() + be_u64(self.offset) + be_u64(self.count) + self.hints.xdr_bytes()
    }

    open spec fn xdr_encodable(&self) -> bool {
        self.hints.xdr_encodable()
    }

    fn encode(&self, encoder: &mut Encoder) -> (r: core::result::Result<(), XdrError>) {
        self.stateid.encode(encoder)?;
        encoder.write_u64(self.offset);
        encoder.write_u64(self.count);
        self.hints.encode(encoder)
    }
}

/// Result of an NFSv4.2 `IO_ADVISE` operation.
#[derive(Debug, Clone, PartialEq, Eq)]
pub struct IoAdviseResult {
    pub hints: Bitmap,
}

/// Result of an NFSv4.2 `OFFLOAD_STATUS` operation.
#[derive(Debug, Clone, Copy, PartialEq, Eq)]
pub struct OffloadStatusResult {
    pub count: u64,
    pub complete: Option<Status>,
}



impl Encode for LayoutType {
    open spec fn xdr_bytes(&self) -> Seq<u8> {
        be_u32(self.code())
    }

    open spec fn xdr_encodable(&self) -> bool {
        true
    }

    fn encode(&self, encoder: &mut Encoder) -> (r: core::result::Result<(), XdrError>) {
        encoder.write_u32(self.as_u32());
        Ok(())
    }
}

impl Decode for LayoutType {
    fn decode(decoder: &mut Decoder<'_>) -> (r: core::result::Result<Self, XdrError>) {
        Ok(Self::from_u32(decoder.read_u32()?))
    }
}



impl Encode for LayoutIomode {
    open spec fn xdr_bytes(&self) -> Seq<u8> {
        be_u32(self.code())
    }

    open spec fn xdr_encodable(&self) -> bool {
        true
    }

    fn encode(&self, encoder: &mut Encoder) -> (r: core::result::Result<(), XdrError>) {
        encoder.write_u32(self.as_u32());
        Ok(())
    }
}

impl Decode for LayoutIomode {
    fn decode(decoder: &mut Decoder<'_>) -> (r: core::result::Result<Self, XdrError>) {
        Ok(Self::from_u32(decoder.read_u32()?))
    }
}

/// Opaque layout-type-specific content.
#[derive(Debug, Clone, PartialEq, Eq)]
pub struct LayoutContent {
    pub layout_type: LayoutType,
    pub body: Vec<u8>,
}

impl Encode for LayoutContent {
    open spec fn xdr_bytes(&self) -> Seq<u8> {
        self.layout_type.xdr_bytes() + var_opaque(self.body@)
    }

    open spec fn xdr_encodable(&self) -> bool {
        self.body@.len() <= NFS4_MAX_IO
    }

    fn encode(&self, encoder: &mut Encoder) -> (r: core::result::Result<(), XdrError>) {
        self.layout_type.encode(encoder)?;
        encoder.write_opaque(self.body.as_slice(), NFS4_MAX_IO)
    }
}

impl Decode for LayoutContent {
    fn decode(decoder: &mut Decoder<'_>) -> (r: core::result::Result<Self, XdrError>) {
        Ok(Self {
            layout_type: LayoutType::decode(decoder)?,
            body: decoder.read_opaque_vec(NFS4_MAX_IO)?,
        })
    }
}

/// pNFS layout extent returned by `LAYOUTGET`.
#[derive(Debug, Clone, PartialEq, Eq)]
pub struct Layout {
    pub offset: u64,
    pub length: u64,
    pub iomode: LayoutIomode,
    pub content: LayoutContent,
}

impl Encode for Layout {
    open spec fn xdr_bytes(&self) -> Seq<u8> {
        be_u64(self.offset) + be_u64(self.length) + self.iomode.xdr_bytes() + self.content.xdr_bytes()
    }

    open spec fn xdr_encodable(&self) -> bool {
        self.content.xdr_encodable()
    }

    fn encode(&self, encoder: &mut Encoder) -> (r: core::result::Result<(), XdrError>) {
        encoder.write_u64(self.offset);
        encoder.write_u64(self.length);
        self.iomode.encode(encoder)?;
        self.content.encode(encoder)
    }
}

impl Decode for Layout {
    fn decode(decoder: &mut Decoder<'_>) -> (r: core::result::Result<Self, XdrError>) {
        Ok(Self {
            offset: decoder.read_u64()?,
            length: decoder.read_u64()?,
            iomode: LayoutIomode::decode(decoder)?,
            content: LayoutContent::decode(decoder)?,
        })
    }
}

/// pNFS device address.
#[derive(Debug, Clone, PartialEq, Eq)]
pub struct DeviceAddr {
    pub layout_type: LayoutType,
    pub body: Vec<u8>,
}

impl Decode for DeviceAddr {
    fn decode(decoder: &mut Decoder<'_>) -> (r: core::result::Result<Self, XdrError>) {
        Ok(Self {
            layout_type: LayoutType::decode(decoder)?,
            body: decoder.read_opaque_vec(NFS4_MAX_IO)?,
        })
    }
}

/// Opaque layout update sent by `LAYOUTCOMMIT` and `LAYOUTSTATS`.
#[derive(Debug, Clone, PartialEq, Eq)]
pub struct LayoutUpdate {
    pub layout_type: LayoutType,
    pub body: Vec<u8>,
}

impl Encode for LayoutUpdate {
    open spec fn xdr_bytes(&self) -> Seq<u8> {
        self.layout_type.xdr_bytes() + var_opaque(self.body@)
    }

    open spec fn xdr_encodable(&self) -> bool {
        self.body@.len() <= NFS4_MAX_IO
    }

    fn encode(&self, encoder: &mut Encoder) -> (r: core::result::Result<(), XdrError>) {
        self.layout_type.encode(encoder)?;
        encoder.write_opaque(self.body.as_slice(), NFS4_MAX_IO)
    }
}

/// `GET_DIR_DELEGATION` arguments.
#[derive(Debug, Clone, PartialEq, Eq)]
pub struct GetDirDelegationArgs {
    pub signal_deleg_avail: bool,
    pub notification_types: Bitmap,
    pub child_attr_delay: NfsTime,
    pub dir_attr_delay: NfsTime,
    pub child_attributes: Bitmap,
    pub dir_attributes: Bitmap,
}

impl Encode for GetDirDelegationArgs {
    open spec fn xdr_bytes(&self) -> Seq<u8> {
        be_bool(self.signal_deleg_avail) + self.notification_types.xdr_bytes() + self.child_attr_delay.xdr_bytes()
            + self.dir_attr_delay.xdr_bytes() + self.child_attributes.xdr_bytes() + self.dir_attributes.xdr_bytes()
    }

    open spec fn xdr_encodable(&self) -> bool {
        self.notification_types.xdr_encodable() && self.child_attr_delay.xdr_encodable()
            && self.dir_attr_delay.xdr_encodable() && self.child_attributes.xdr_encodable()
            && self.dir_attributes.xdr_encodable()
    }

    #[verifier::rlimit(40)]
    #[verifier::spinoff_prover]
    fn encode(&self, encoder: &mut Encoder) -> (r: core::result::Result<(), XdrError>) {
        encoder.write_bool(self.signal_deleg_avail);
        self.notification_types.encode(encoder)?;
        self.child_attr_delay.encode(encoder)?;
        self.dir_attr_delay.encode(encoder)?;
        self.child_attributes.encode(encoder)?;
        self.dir_attributes.encode(encoder)
    }
}

/// `GET_DIR_DELEGATION` successful or non-fatal result.
#[derive(Debug, Clone, PartialEq, Eq)]
pub enum GetDirDelegationResult {
    Granted {
        cookieverf: Verifier,
        stateid: StateId,
        notification: Bitmap,
        child_attributes: Bitmap,
        dir_attributes: Bitmap,
    },
    Unavailable {
        will_signal_deleg_avail: bool,
    },
}

/// `GETDEVICEINFO` arguments.
#[derive(Debug, Clone, PartialEq, Eq)]
pub struct GetDeviceInfoArgs {
    pub device_id: DeviceId,
    pub layout_type: LayoutType,
    pub max_count: u32,
    pub notify_types: Bitmap,
}

impl Encode for GetDeviceInfoArgs {
    open spec fn xdr_bytes(&self) -> Seq<u8> {
        self.device_id.xdr_bytes() + self.layout_type.xdr_bytes() + be_u32(self.max_count)
            + self.notify_types.xdr_bytes()
    }

    open spec fn xdr_encodable(&self) -> bool {
        self.notify_types.xdr_encodable()
    }

    fn encode(&self, encoder: &mut Encoder) -> (r: core::result::Result<(), XdrError>) {
        self.device_id.encode(encoder)?;
        self.layout_type.encode(encoder)?;
        encoder.write_u32(self.max_count);
        self.notify_types.encode(encoder)
    }
}

/// `GETDEVICEINFO` successful result.
#[derive(Debug, Clone, PartialEq, Eq)]
pub struct GetDeviceInfoResult {
    pub device_addr: DeviceAddr,
    pub notification: Bitmap,
}

/// `GETDEVICELIST` arguments.
#[derive(Debug, Clone, PartialEq, Eq)]
pub struct GetDeviceListArgs {
    pub layout_type: LayoutType,
    pub max_devices: u32,
    pub cookie: u64,
    pub cookieverf: Verifier,
}

impl Encode for GetDeviceListArgs {
    open spec fn xdr_bytes(&self) -> Seq<u8> {
        self.layout_type.xdr_bytes() + be_u32(self.max_devices) + be_u64(self.cookie)
            + fixed_opaque(self.cookieverf@)
    }

    open spec fn xdr_encodable(&self) -> bool {
        true
    }

    fn encode(&self, encoder: &mut Encoder) -> (r: core::result::Result<(), XdrError>) {
        self.layout_type.encode(encoder)?;
        encoder.write_u32(self.max_devices);
        encoder.write_u64(self.cookie);
        encoder.write_fixed_opaque(self.cookieverf.as_slice());
        Ok(())
    }
}

/// `GETDEVICELIST` successful result.
#[derive(Debug, Clone, PartialEq, Eq)]
pub struct GetDeviceListResult {
    pub cookie: u64,
    pub cookieverf: Verifier,
    pub device_ids: Vec<DeviceId>,
    pub eof: bool,
}

/// `LAYOUTCOMMIT` arguments.
#[derive(Debug, Clone, PartialEq, Eq)]
pub struct LayoutCommitArgs {
    pub offset: u64,
    pub length: u64,
    pub reclaim: bool,
    pub stateid: StateId,
    pub last_write_offset: Option<u64>,
    pub time_modify: Option<NfsTime>,
    pub layout_update: LayoutUpdate,
}

impl Encode for LayoutCommitArgs {
    open spec fn xdr_bytes(&self) -> Seq<u8> {
        be_u64(self.offset) + be_u64(self.length) + be_bool(self.reclaim) + self.stateid.xdr_bytes()
            + optional_bytes(self.last_write_offset) + optional_bytes(self.time_modify) + self.layout_update.xdr_bytes()
    }

    open spec fn xdr_encodable(&self) -> bool {
        optional_encodable(self.time_modify) && self.layout_update.xdr_encodable()
    }

    #[verifier::rlimit(40)]
    #[verifier::spinoff_prover]
    fn encode(&self, encoder: &mut Encoder) -> (r: core::result::Result<(), XdrError>) {
        encoder.write_u64(self.offset);
        encoder.write_u64(self.length);
        encoder.write_bool(self.reclaim);
        self.stateid.encode(encoder)?;
        encoder.write_optional(self.last_write_offset.as_ref())?;
        encoder.write_optional(self.time_modify.as_ref())?;
        self.layout_update.encode(encoder)
    }
}

/// `LAYOUTCOMMIT` successful result.
#[derive(Debug, Clone, Copy, PartialEq, Eq)]
pub struct LayoutCommitResult {
    pub new_size: Option<u64>,
}

/// `LAYOUTGET` arguments.
#[derive(Debug, Clone, PartialEq, Eq)]
pub struct LayoutGetArgs {
    pub signal_layout_avail: bool,
    pub layout_type: LayoutType,
    pub iomode: LayoutIomode,
    pub offset: u64,
    pub length: u64,
    pub min_length: u64,
    pub stateid: StateId,
    pub max_count: u32,
}

impl Encode for LayoutGetArgs {
    open spec fn xdr_bytes(&self) -> Seq<u8> {
        be_bool(self.signal_layout_avail) + self.layout_type.xdr_bytes() + self.iomode.xdr_bytes()
            + be_u64(self.offset) + be_u64(self.length) + be_u64(self.min_length) + self.stateid.xdr_bytes()
            + be_u32(self.max_count)
    }

    open spec fn xdr_encodable(&self) -> bool {
        true
    }

    #[verifier::rlimit(40)]
    #[verifier::spinoff_prover]
    fn encode(&self, encoder: &mut Encoder) -> (r: core::result::Result<(), XdrError>) {
        encoder.write_bool(self.signal_layout_avail);
        self.layout_type.encode(encoder)?;
        self.iomode.encode(encoder)?;
        encoder.write_u64(self.offset);
        encoder.write_u64(self.length);
        encoder.write_u64(self.min_length);
        self.stateid.encode(encoder)?;
        encoder.write_u32(self.max_count);
        Ok(())
    }
}

/// `LAYOUTGET` successful result.
#[derive(Debug, Clone, PartialEq, Eq)]
pub struct LayoutGetResult {
    pub return_on_close: bool,
    pub stateid: StateId,
    pub layouts: Vec<Layout>,
}

/// File-specific `LAYOUTRETURN` payload.
#[derive(Debug, Clone, PartialEq, Eq)]
pub struct LayoutReturnFile {
    pub offset: u64,
    pub length: u64,
    pub stateid: StateId,
    pub body: Vec<u8>,
}

impl Encode for LayoutReturnFile {
    open spec fn xdr_bytes(&self) -> Seq<u8> {
        be_u64(self.offset) + be_u64(self.length) + self.stateid.xdr_bytes() + var_opaque(self.body@)
    }

    open spec fn xdr_encodable(&self) -> bool {
        self.body@.len() <= NFS4_MAX_IO
    }

    fn encode(&self, encoder: &mut Encoder) -> (r: core::result::Result<(), XdrError>) {
        encoder.write_u64(self.offset);
        encoder.write_u64(self.length);
        self.stateid.encode(encoder)?;
        encoder.write_opaque(self.body.as_slice(), NFS4_MAX_IO)
    }
}

/// `LAYOUTRETURN` selector.
#[derive(Debug, Clone, PartialEq, Eq)]
pub enum LayoutReturn {
    File(LayoutReturnFile),
    Fsid,
    All,
}

impl Encode for LayoutReturn {
    open spec fn xdr_bytes(&self) -> Seq<u8> {
        match self {
            LayoutReturn::File(file) => be_u32(LAYOUTRETURN4_FILE) + file.xdr_bytes(),
            LayoutReturn::Fsid => be_u32(LAYOUTRETURN4_FSID),
            LayoutReturn::All => be_u32(LAYOUTRETURN4_ALL),
        }
    }

    open spec fn xdr_encodable(&self) -> bool {
        match self {
            LayoutReturn::File(file) => file.xdr_encodable(),
            _ => true,
        }
    }

    fn encode(&self, encoder: &mut Encoder) -> (r: core::result::Result<(), XdrError>) {
        match self {
            Self::File(file) => {
                encoder.write_u32(LAYOUTRETURN4_FILE);
                file.encode(encoder)
            }
            Self::Fsid => {
                encoder.write_u32(LAYOUTRETURN4_FSID);
                Ok(())
            }
            Self::All => {
                encoder.write_u32(LAYOUTRETURN4_ALL);
                Ok(())
            }
        }
    }
}

/// `LAYOUTRETURN` arguments.
#[derive(Debug, Clone, PartialEq, Eq)]
pub struct LayoutReturnArgs {
    pub reclaim: bool,
    pub layout_type: LayoutType,
    pub iomode: LayoutIomode,
    pub layout_return: LayoutReturn,
}

impl Encode for LayoutReturnArgs {
    open spec fn xdr_bytes(&self) -> Seq<u8> {
        be_bool(self.reclaim) + self.layout_type.xdr_bytes() + self.iomode.xdr_bytes()
            + self.layout_return.xdr_bytes()
    }

    open spec fn xdr_encodable(&self) -> bool {
        self.layout_return.xdr_encodable()
    }

    fn encode(&self, encoder: &mut Encoder) -> (r: core::result::Result<(), XdrError>) {
        encoder.write_bool(self.reclaim);
        self.layout_type.encode(encoder)?;
        self.iomode.encode(encoder)?;
        self.layout_return.encode(encoder)
    }
}

/// `LAYOUTRETURN` successful result.
#[derive(Debug, Clone, Copy, PartialEq, Eq)]
pub struct LayoutReturnResult {
    pub stateid: Option<StateId>,
}

/// `SET_SSV` arguments.
#[derive(Debug, Clone, PartialEq, Eq)]
pub struct SetSsvArgs {
    pub ssv: Vec<u8>,
    pub digest: Vec<u8>,
}

impl Encode for SetSsvArgs {
    open spec fn xdr_bytes(&self) -> Seq<u8> {
        var_opaque(self.ssv@) + var_opaque(self.digest@)
    }

    open spec fn xdr_encodable(&self) -> bool {
        self.ssv@.len() <= NFS4_OPAQUE_LIMIT && self.digest@.len() <= NFS4_OPAQUE_LIMIT
    }

    fn encode(&self, encoder: &mut Encoder) -> (r: core::result::Result<(), XdrError>) {
        encoder.write_opaque(self.ssv.as_slice(), NFS4_OPAQUE_LIMIT)?;
        encoder.write_opaque(self.digest.as_slice(), NFS4_OPAQUE_LIMIT)
    }
}

/// `SET_SSV` successful result.
#[derive(Debug, Clone, PartialEq, Eq)]
pub struct SetSsvResult {
    pub digest: Vec<u8>,
}

/// `WANT_DELEGATION` claim.
#[derive(Debug, Clone, Copy, PartialEq, Eq)]
pub enum DelegationClaim {
    FileHandle,
    Previous(OpenDelegationType),
    DelegPrevFileHandle,
}

impl Encode for DelegationClaim {
    open spec fn xdr_bytes(&self) -> Seq<u8> {
        match self {
            DelegationClaim::FileHandle => be_u32(OpenClaimType::FileHandle.code()),
            DelegationClaim::Previous(delegation_type) => be_u32(OpenClaimType::Previous.code())
                + be_u32(delegation_type.code()),
            DelegationClaim::DelegPrevFileHandle => be_u32(OpenClaimType::DelegatePreviousFileHandle.code()),
        }
    }

    open spec fn xdr_encodable(&self) -> bool {
        true
    }

    fn encode(&self, encoder: &mut Encoder) -> (r: core::result::Result<(), XdrError>) {
        match self {
            Self::FileHandle => {
                encoder.write_u32(OpenClaimType::FileHandle.as_u32());
            }
            Self::Previous(delegation_type) => {
                encoder.write_u32(OpenClaimType::Previous.as_u32());
                encoder.write_u32(delegation_type.as_u32());
            }
            Self::DelegPrevFileHandle => {
                encoder.write_u32(OpenClaimType::DelegatePreviousFileHandle.as_u32());
            }
        }
        Ok(())
    }
}

/// `WANT_DELEGATION` arguments.
#[derive(Debug, Clone, Copy, PartialEq, Eq)]
pub struct WantDelegationArgs {
    pub want: u32,
    pub claim: DelegationClaim,
}

impl Encode for WantDelegationArgs {
    open spec fn xdr_bytes(&self) -> Seq<u8> {
        be_u32(self.want) + self.claim.xdr_bytes()
    }

    open spec fn xdr_encodable(&self) -> bool {
        true
    }

    fn encode(&self, encoder: &mut Encoder) -> (r: core::result::Result<(), XdrError>) {
        encoder.write_u32(self.want);
        self.claim.encode(encoder)
    }
}

/// pNFS device error entry used by `LAYOUTERROR`.
#[derive(Debug, Clone, Copy, PartialEq, Eq)]
pub struct DeviceError {
    pub device_id: DeviceId,
    pub status: Status,
    pub opnum: OpCode,
}

impl Encode for DeviceError {
    open spec fn xdr_bytes(&self) -> Seq<u8> {
        self.device_id.xdr_bytes() + be_u32(self.status.code()) + be_u32(self.opnum.code())
    }

    open spec fn xdr_encodable(&self) -> bool {
        true
    }

    fn encode(&self, encoder: &mut Encoder) -> (r: core::result::Result<(), XdrError>) {
        self.device_id.encode(encoder)?;
        encoder.write_u32(self.status.as_u32());
        encoder.write_u32(self.opnum.as_u32());
        Ok(())
    }
}

/// `LAYOUTERROR` arguments.
#[derive(Debug, Clone, PartialEq, Eq)]
pub struct LayoutErrorArgs {
    pub offset: u64,
    pub length: u64,
    pub stateid: StateId,
    pub errors: Vec<DeviceError>,
}

impl Encode for LayoutErrorArgs {
    open spec fn xdr_bytes(&self) -> Seq<u8> {
        be_u64(self.offset) + be_u64(self.length) + self.stateid.xdr_bytes() + array_bytes(self.errors@)
    }

    open spec fn xdr_encodable(&self) -> bool {
        array_encodable(self.errors@, NFS4_MAX_LAYOUT_ERRORS)
    }

    fn encode(&self, encoder: &mut Encoder) -> (r: core::result::Result<(), XdrError>) {
        encoder.write_u64(self.offset);
        encoder.write_u64(self.length);
        self.stateid.encode(encoder)?;
        encoder.write_array(self.errors.as_slice(), NFS4_MAX_LAYOUT_ERRORS)
    }
}

/// I/O counters reported by `LAYOUTSTATS`.
#[derive(Debug, Clone, Copy, PartialEq, Eq)]
pub struct IoInfo {
    pub count: u64,
    pub bytes: u64,
}

impl Encode for IoInfo {
    open spec fn xdr_bytes(&self) -> Seq<u8> {
        be_u64(self.count) + be_u64(self.bytes)
    }

    open spec fn xdr_encodable(&self) -> bool {
        true
    }

    fn encode(&self, encoder: &mut Encoder) -> (r: core::result::Result<(), XdrError>) {
        encoder.write_u64(self.count);
        encoder.write_u64(self.bytes);
        Ok(())
    }
}

/// `LAYOUTSTATS` arguments.
#[derive(Debug, Clone, PartialEq, Eq)]
pub struct LayoutStatsArgs {
    pub offset: u64,
    pub length: u64,
    pub stateid: StateId,
    pub read: IoInfo,
    pub write: IoInfo,
    pub device_id: DeviceId,
    pub layout_update: LayoutUpdate,
}

impl Encode for LayoutStatsArgs {
    open spec fn xdr_bytes(&self) -> Seq<u8> {
        be_u64(self.offset) + be_u64(self.length) + self.stateid.xdr_bytes() + self.read.xdr_bytes()
            + self.write.xdr_bytes() + self.device_id.xdr_bytes() + self.layout_update.xdr_bytes()
    }

    open spec fn xdr_encodable(&self) -> bool {
        self.layout_update.xdr_encodable()
    }

    #[verifier::rlimit(40)]
    #[verifier::spinoff_prover]
    fn encode(&self, encoder: &mut Encoder) -> (r: core::result::Result<(), XdrError>) {
        encoder.write_u64(self.offset);
        encoder.write_u64(self.length);
        self.stateid.encode(encoder)?;
        self.read.encode(encoder)?;
        self.write.encode(encoder)?;
        self.device_id.encode(encoder)?;
        self.layout_update.encode(encoder)
    }
}

/// Server location used by NFSv4.2 copy offload operations.
#[derive(Debug, Clone, PartialEq, Eq)]
pub enum NetLoc {
    Name(String),
    Url(String),
    NetAddr { netid: String, addr: String },
}

impl Encode for NetLoc {
    open spec fn xdr_bytes(&self) -> Seq<u8> {
        match self {
            NetLoc::Name(name) => be_u32(1) + xdr_text(*name),
            NetLoc::Url(url) => be_u32(2) + xdr_text(*url),
            NetLoc::NetAddr { netid, addr } => be_u32(3) + xdr_text(*netid) + xdr_text(*addr),
        }
    }

    open spec fn xdr_encodable(&self) -> bool {
        match self {
            NetLoc::Name(name) => text_fits(*name),
            NetLoc::Url(url) => text_fits(*url),
            NetLoc::NetAddr { netid, addr } => text_fits(*netid) && text_fits(*addr),
        }
    }

    fn encode(&self, encoder: &mut Encoder) -> (r: core::result::Result<(), XdrError>) {
        match self {
            Self::Name(name) => {
                encoder.write_u32(1);
                encoder.write_string(name.as_str(), NFS4_OPAQUE_LIMIT)
            }
            Self::Url(url) => {
                encoder.write_u32(2);
                encoder.write_string(url.as_str(), NFS4_OPAQUE_LIMIT)
            }
            Self::NetAddr { netid, addr } => {
                encoder.write_u32(3);
                encoder.write_string(netid.as_str(), NFS4_OPAQUE_LIMIT)?;
                encoder.write_string(addr.as_str(), NFS4_OPAQUE_LIMIT)
            }
        }
    }
}

impl Decode for NetLoc {
    fn decode(decoder: &mut Decoder<'_>) -> (r: core::result::Result<Self, XdrError>) {
        match decoder.read_u32()? {
            1 => Ok(Self::Name(decoder.read_string(NFS4_OPAQUE_LIMIT)?)),
            2 => Ok(Self::Url(decoder.read_string(NFS4_OPAQUE_LIMIT)?)),
            3 => Ok(Self::NetAddr {
                netid: decoder.read_string(NFS4_OPAQUE_LIMIT)?,
                addr: decoder.read_string(NFS4_OPAQUE_LIMIT)?,
            }),
            value => Err(XdrError::InvalidDiscriminant { value: value }),
        }
    }
}

/// Application data block used by `WRITE_SAME`.
#[derive(Debug, Clone, PartialEq, Eq)]
pub struct AppDataBlock {
    pub offset: u64,
    pub block_size: u64,
    pub block_count: u64,
    pub block_number_offset: u64,
    pub block_number: u32,
    pub pattern_offset: u64,
    pub pattern: Vec<u8>,
}

impl Encode for AppDataBlock {
    open spec fn xdr_bytes(&self) -> Seq<u8> {
        be_u64(self.offset) + be_u64(self.block_size) + be_u64(self.block_count) + be_u64(self.block_number_offset)
            + be_u32(self.block_number) + be_u64(self.pattern_offset) + var_opaque(self.pattern@)
    }

    open spec fn xdr_encodable(&self) -> bool {
        self.pattern@.len() <= NFS4_MAX_IO
    }

    #[verifier::rlimit(40)]
    #[verifier::spinoff_prover]
    fn encode(&self, encoder: &mut Encoder) -> (r: core::result::Result<(), XdrError>) {
        encoder.write_u64(self.offset);
        encoder.write_u64(self.block_size);
        encoder.write_u64(self.block_count);
        encoder.write_u64(self.block_number_offset);
        encoder.write_u32(self.block_number);
        encoder.write_u64(self.pattern_offset);
        encoder.write_opaque(self.pattern.as_slice(), NFS4_MAX_IO)
    }
}

/// Shared write response used by `COPY` and `WRITE_SAME`.
#[derive(Debug, Clone, PartialEq, Eq)]
pub struct WriteResponse {
    pub callback_id: Option<StateId>,
    pub count: u64,
    pub committed: StableHow,
    pub verifier: Verifier,
}

impl Decode for WriteResponse {
    /// Reads at most one callback state id, the byte count, the stability
    /// committed and the write verifier.
    fn decode(decoder: &mut Decoder<'_>) -> (r: core::result::Result<Self, XdrError>)
        ensures
            r matches Ok(w) ==> ({
                let d = old(decoder).input();
                let p = old(decoder).pos();
                let q = p + 4 + 16 * u32_at(d, p);
                &&& p + 4 <= d.len() && u32_at(d, p) <= 1
                &&& (w.callback_id is Some <==> u32_at(d, p) == 1)
                &&& (w.callback_id matches Some(s) ==> holds_encoding(d, p + 4, s))
                &&& q + 20 <= d.len()
                &&& w.count == u64_at(d, q)
                &&& StableHow::from_code(u32_at(d, q + 8)) == Some(w.committed)
                &&& w.verifier@ == d.subrange(q + 12, q + 20)
                &&& final(decoder).pos() == q + 20
            }),
    {
        let n = decoder.read_u32()?;
        if n > 1 {
            return Err(XdrError::LengthLimitExceeded { len: n as usize, max: 1 });
        }
        let callback_id = if n == 1 { Some(StateId::decode(decoder)?) } else { None };
        let count = decoder.read_u64()?;
        let raw_committed = decoder.read_u32()?;
        let committed = match StableHow::from_u32(raw_committed) {
            Some(c) => c,
            None => return Err(XdrError::InvalidDiscriminant { value: raw_committed }),
        };
        let verifier = decode_verifier(decoder)?;
        Ok(Self { callback_id, count, committed, verifier })
    }
}

/// COPY requirements returned by the server.
#[derive(Debug, Clone, Copy, PartialEq, Eq)]
pub struct CopyRequirements {
    pub consecutive: bool,
    pub synchronous: bool,
}

impl Decode for CopyRequirements {
    fn decode(decoder: &mut Decoder<'_>) -> (r: core::result::Result<Self, XdrError>) {
        Ok(Self {
            consecutive: bool::decode(decoder)?,
            synchronous: bool::decode(decoder)?,
        })
    }
}

/// Arguments for the NFSv4.2 `COPY` operation.
#[derive(Debug, Clone, PartialEq, Eq)]
pub struct CopyArgs {
    pub src_stateid: StateId,
    pub dst_stateid: StateId,
    pub src_offset: u64,
    pub dst_offset: u64,
    pub count: u64,
    pub consecutive: bool,
    pub synchronous: bool,
    pub source_servers: Vec<NetLoc>,
}

impl Encode for CopyArgs {
    open spec fn xdr_bytes(&self) -> Seq<u8> {
        self.src_stateid.xdr_bytes() + self.dst_stateid.xdr_bytes() + be_u64(self.src_offset)
            + be_u64(self.dst_offset) + be_u64(self.count) + be_bool(self.consecutive) + be_bool(self.synchronous)
            + array_bytes(self.source_servers@)
    }

    open spec fn xdr_encodable(&self) -> bool {
        array_encodable(self.source_servers@, NFS4_MAX_NETLOCATIONS)
    }

    #[verifier::rlimit(40)]
    #[verifier::spinoff_prover]
    fn encode(&self, encoder: &mut Encoder) -> (r: core::result::Result<(), XdrError>) {
        self.src_stateid.encode(encoder)?;
        self.dst_stateid.encode(encoder)?;
        encoder.write_u64(self.src_offset);
        encoder.write_u64(self.dst_offset);
        encoder.write_u64(self.count);
        encoder.write_bool(self.consecutive);
        encoder.write_bool(self.synchronous);
        encoder.write_array(self.source_servers.as_slice(), NFS4_MAX_NETLOCATIONS)
    }
}

/// Result of the NFSv4.2 `COPY` operation.
#[derive(Debug, Clone, PartialEq, Eq)]
pub struct CopyResult {
    pub response: Option<WriteResponse>,
    pub requirements: Option<CopyRequirements>,
}

/// Arguments for the NFSv4.2 `COPY_NOTIFY` operation.
#[derive(Debug, Clone, PartialEq, Eq)]
pub struct CopyNotifyArgs {
    pub src_stateid: StateId,
    pub destination_server: NetLoc,
}

impl Encode for CopyNotifyArgs {
    open spec fn xdr_bytes(&self) -> Seq<u8> {
        self.src_stateid.xdr_bytes() + self.destination_server.xdr_bytes()
    }

    open spec fn xdr_encodable(&self) -> bool {
        self.destination_server.xdr_encodable()
    }

    fn encode(&self, encoder: &mut Encoder) -> (r: core::result::Result<(), XdrError>) {
        self.src_stateid.encode(encoder)?;
        self.destination_server.encode(encoder)
    }
}

/// Result of the NFSv4.2 `COPY_NOTIFY` operation.
#[derive(Debug, Clone, PartialEq, Eq)]
pub struct CopyNotifyResult {
    pub lease_time: NfsTime,
    pub stateid: StateId,
    pub source_servers: Vec<NetLoc>,
}

/// Arguments for the NFSv4.2 `WRITE_SAME` operation.
#[derive(Debug, Clone, PartialEq, Eq)]
pub struct WriteSameArgs {
    pub stateid: StateId,
    pub stable: StableHow,
    pub block: AppDataBlock,
}

impl Encode for WriteSameArgs {
    open spec fn xdr_bytes(&self) -> Seq<u8> {
        self.stateid.xdr_bytes() + be_u32(self.stable.code()) + self.block.xdr_bytes()
    }

    open spec fn xdr_encodable(&self) -> bool {
        self.block.xdr_encodable()
    }

    fn encode(&self, encoder: &mut Encoder) -> (r: core::result::Result<(), XdrError>) {
        self.stateid.encode(encoder)?;
        encoder.write_u32(self.stable.as_u32());
        self.block.encode(encoder)
    }
}

/// Arguments for the NFSv4.2 `CLONE` operation.
#[derive(Debug, Clone, Copy, PartialEq, Eq)]
pub struct CloneArgs {
    pub src_stateid: StateId,
    pub dst_stateid: StateId,
    pub src_offset: u64,
    pub dst_offset: u64,
    pub count: u64,
}

impl Encode for CloneArgs {
    open spec fn xdr_bytes(&self) -> Seq<u8> {
        self.src_stateid.xdr_bytes() + self.dst_stateid.xdr_bytes() + be_u64(self.src_offset)
            + be_u64(self.dst_offset) + be_u64(self.count)
    }

    open spec fn xdr_encodable(&self) -> bool {
        true
    }

    #[verifier::rlimit(40)]
    #[verifier::spinoff_prover]
    fn encode(&self, encoder: &mut Encoder) -> (r: core::result::Result<(), XdrError>) {
        self.src_stateid.encode(encoder)?;
        self.dst_stateid.encode(encoder)?;
        encoder.write_u64(self.src_offset);
        encoder.write_u64(self.dst_offset);
        encoder.write_u64(self.count);
        Ok(())
    }
}

/// Object type for raw NFSv4 CREATE operations.
#[derive(Debug, Clone, PartialEq, Eq)]
pub enum CreateKind {
    Directory,
    Symlink(String),
    BlockDevice { major: u32, minor: u32 },
    CharacterDevice { major: u32, minor: u32 },
    Socket,
    Fifo,
}

impl Encode for CreateKind {
    open spec fn xdr_bytes(&self) -> Seq<u8> {
        match self {
            CreateKind::Directory => be_u32(NF4DIR),
            CreateKind::Symlink(target) => be_u32(NF4LNK) + xdr_text(*target),
            CreateKind::BlockDevice { major, minor } => be_u32(NF4BLK) + be_u32(*major) + be_u32(*minor),
            CreateKind::CharacterDevice { major, minor } => be_u32(NF4CHR) + be_u32(*major) + be_u32(*minor),
            CreateKind::Socket => be_u32(NF4SOCK),
            CreateKind::Fifo => be_u32(NF4FIFO),
        }
    }

    open spec fn xdr_encodable(&self) -> bool {
        match self {
            CreateKind::Symlink(target) => text_fits(*target),
            _ => true,
        }
    }

    fn encode(&self, encoder: &mut Encoder) -> (r: core::result::Result<(), XdrError>) {
        match self {
            Self::Directory => {
                encoder.write_u32(NF4DIR);
            }
            Self::Symlink(target) => {
                encoder.write_u32(NF4LNK);
                encoder.write_string(target.as_str(), NFS4_OPAQUE_LIMIT)?;
            }
            Self::BlockDevice { major, minor } => {
                encoder.write_u32(NF4BLK);
                encoder.write_u32(*major);
                encoder.write_u32(*minor);
            }
            Self::CharacterDevice { major, minor } => {
                encoder.write_u32(NF4CHR);
                encoder.write_u32(*major);
                encoder.write_u32(*minor);
            }
            Self::Socket => {
                encoder.write_u32(NF4SOCK);
            }
            Self::Fifo => {
                encoder.write_u32(NF4FIFO);
            }
        }
        Ok(())
    }
}

#[derive(Debug, Clone, PartialEq, Eq)]
pub struct CreateArgs {
    pub kind: CreateKind,
    pub name: String,
    pub attrs: Fattr,
}

impl Encode for CreateArgs {
    open spec fn xdr_bytes(&self) -> Seq<u8> {
        self.kind.xdr_bytes() + xdr_text(self.name) + self.attrs.xdr_bytes()
    }

    open spec fn xdr_encodable(&self) -> bool {
        self.kind.xdr_encodable() && text_fits(self.name) && self.attrs.xdr_encodable()
    }

    fn encode(&self, encoder: &mut Encoder) -> (r: core::result::Result<(), XdrError>) {
        self.kind.encode(encoder)?;
        encoder.write_string(self.name.as_str(), NFS4_OPAQUE_LIMIT)?;
        self.attrs.encode(encoder)
    }
}

#[derive(Debug, Clone, PartialEq, Eq)]
pub enum Operation {
    SetClientId(SetClientIdArgs),
    SetClientIdConfirm(SetClientIdConfirmArgs),
    ExchangeId(ExchangeIdArgs),
    CreateSession(CreateSessionArgs),
    BackchannelCtl(BackchannelCtlArgs),
    BindConnToSession(BindConnToSessionArgs),
    DestroySession(SessionId),
    DestroyClientId(u64),
    ReclaimComplete {
        one_fs: bool,
    },
    Sequence(SequenceArgs),
    PutRootFh,
    PutPubFh,
    PutFh(FileHandle),
    Lookup(String),
    Lookupp,
    Access(u32),
    SecInfo(String),
    SecInfoNoName(SecInfoStyle),
    DelegPurge(u64),
    DelegReturn(StateId),
    NVerify(Fattr),
    Open(OpenArgs),
    OpenAttr {
        create_dir: bool,
    },
    OpenConfirm {
        stateid: StateId,
        seqid: u32,
    },
    Close {
        seqid: u32,
        stateid: StateId,
    },
    Lock(LockArgs),
    LockTest(LockTestArgs),
    LockUnlock(LockUnlockArgs),
    OpenDowngrade {
        seqid: u32,
        stateid: StateId,
        share_access: u32,
        share_deny: u32,
    },
    FreeStateId(StateId),
    TestStateIds(Vec<StateId>),
    GetDirDelegation(GetDirDelegationArgs),
    GetDeviceInfo(GetDeviceInfoArgs),
    GetDeviceList(GetDeviceListArgs),
    LayoutCommit(LayoutCommitArgs),
    LayoutGet(LayoutGetArgs),
    LayoutReturn(LayoutReturnArgs),
    SetSsv(SetSsvArgs),
    WantDelegation(WantDelegationArgs),
    GetFh,
    GetAttr(Bitmap),
    SetAttr {
        stateid: StateId,
        attrs: Fattr,
    },
    Read {
        stateid: StateId,
        offset: u64,
        count: u32,
    },
    Write {
        stateid: StateId,
        offset: u64,
        stable: StableHow,
        data: Vec<u8>,
    },
    Allocate {
        stateid: StateId,
        offset: u64,
        length: u64,
    },
    Deallocate {
        stateid: StateId,
        offset: u64,
        length: u64,
    },
    IoAdvise(IoAdviseArgs),
    Copy(CopyArgs),
    CopyNotify(CopyNotifyArgs),
    LayoutError(LayoutErrorArgs),
    LayoutStats(LayoutStatsArgs),
    OffloadCancel(StateId),
    OffloadStatus(StateId),
    ReadPlus(ReadPlusArgs),
    Seek {
        stateid: StateId,
        offset: u64,
        what: SeekContent,
    },
    Clone(CloneArgs),
    WriteSame(WriteSameArgs),
    Commit {
        offset: u64,
        count: u32,
    },
    Renew(u64),
    ReadDir {
        cookie: u64,
        cookieverf: Verifier,
        dircount: u32,
        maxcount: u32,
        attr_request: Bitmap,
    },
    ReadLink,
    Remove(String),
    Link(String),
    Rename {
        oldname: String,
        newname: String,
    },
    Verify(Fattr),
    ReleaseLockOwner(LockOwner),
    Create(CreateArgs),
    SaveFh,
    RestoreFh,
}


impl Encode for Operation {
    open spec fn xdr_bytes(&self) -> Seq<u8> {
        be_u32(self.spec_op_code().code()) + self.args_bytes()
    }

    open spec fn xdr_encodable(&self) -> bool {
        self.args_encodable()
    }

    #[verifier::rlimit(40)]
    #[verifier::spinoff_prover]
    fn encode(&self, encoder: &mut Encoder) -> (r: core::result::Result<(), XdrError>) {
        encoder.write_u32(self.op_code().as_u32());
        let r = self.encode_args(encoder);
        assert(r is Ok ==> encoder@ =~= old(encoder)@ + self.xdr_bytes());
        r
    }
}

impl Operation {
    /// Appends the encoding of the operation's arguments.
    #[verifier::rlimit(60)]
    #[verifier::spinoff_prover]
    fn encode_args(&self, encoder: &mut Encoder) -> (r: core::result::Result<(), XdrError>)
        ensures
            old(encoder)@.is_prefix_of(final(encoder)@),
            r is Ok <==> self.args_encodable(),
            r is Ok ==> final(encoder)@ == old(encoder)@ + self.args_bytes(),
    {
        match self {
            Self::SetClientId(args) => args.encode(encoder),
            Self::SetClientIdConfirm(args) => args.encode(encoder),
            Self::ExchangeId(args) => args.encode(encoder),
            Self::CreateSession(args) => args.encode(encoder),
            Self::BackchannelCtl(args) => args.encode(encoder),
            Self::BindConnToSession(args) => args.encode(encoder),
            Self::DestroySession(session_id) => {
                encoder.write_fixed_opaque(session_id.as_slice());
                Ok(())
            }
            Self::DestroyClientId(client_id) => {
                encoder.write_u64(*client_id);
                Ok(())
            }
            Self::ReclaimComplete { one_fs } => {
                encoder.write_bool(*one_fs);
                Ok(())
            }
            Self::Sequence(args) => args.encode(encoder),
            Self::PutRootFh
            | Self::PutPubFh
            | Self::Lookupp
            | Self::GetFh
            | Self::ReadLink
            | Self::SaveFh
            | Self::RestoreFh => Ok(()),
            Self::PutFh(handle) => handle.encode(encoder),
            Self::Lookup(component) => encoder.write_string(component.as_str(), NFS4_OPAQUE_LIMIT),
            Self::Access(access) => {
                encoder.write_u32(*access);
                Ok(())
            }
            Self::SecInfo(name) => encoder.write_string(name.as_str(), NFS4_OPAQUE_LIMIT),
            Self::SecInfoNoName(style) => {
                encoder.write_u32(style.as_u32());
                Ok(())
            }
            Self::DelegPurge(client_id) => {
                encoder.write_u64(*client_id);
                Ok(())
            }
            Self::DelegReturn(stateid) => stateid.encode(encoder),
            Self::NVerify(attrs) => attrs.encode(encoder),
            Self::Open(args) => args.encode(encoder),
            Self::OpenAttr { create_dir } => {
                encoder.write_bool(*create_dir);
                Ok(())
            }
            Self::OpenConfirm { stateid, seqid } => {
                stateid.encode(encoder)?;
                encoder.write_u32(*seqid);
                Ok(())
            }
            Self::Close { seqid, stateid } => {
                encoder.write_u32(*seqid);
                stateid.encode(encoder)
            }
            Self::Lock(args) => args.encode(encoder),
            Self::LockTest(args) => args.encode(encoder),
            Self::LockUnlock(args) => args.encode(encoder),
            Self::OpenDowngrade {
                seqid,
                stateid,
                share_access,
                share_deny,
            } => {
                stateid.encode(encoder)?;
                encoder.write_u32(*seqid);
                encoder.write_u32(*share_access);
                encoder.write_u32(*share_deny);
                Ok(())
            }
            Self::FreeStateId(stateid) => stateid.encode(encoder),
            Self::TestStateIds(stateids) => encoder.write_array(stateids.as_slice(), NFS4_MAX_OPS),
            Self::GetDirDelegation(args) => args.encode(encoder),
            Self::GetDeviceInfo(args) => args.encode(encoder),
            Self::GetDeviceList(args) => args.encode(encoder),
            Self::LayoutCommit(args) => args.encode(encoder),
            Self::LayoutGet(args) => args.encode(encoder),
            Self::LayoutReturn(args) => args.encode(encoder),
            Self::SetSsv(args) => args.encode(encoder),
            Self::WantDelegation(args) => args.encode(encoder),
            Self::GetAttr(bitmap) => bitmap.encode(encoder),
            Self::SetAttr { stateid, attrs } => {
                stateid.encode(encoder)?;
                attrs.encode(encoder)
            }
            Self::Read {
                stateid,
                offset,
                count,
            } => {
                stateid.encode(encoder)?;
                encoder.write_u64(*offset);
                encoder.write_u32(*count);
                Ok(())
            }
            Self::Write {
                stateid,
                offset,
                stable,
                data,
            } => {
                stateid.encode(encoder)?;
                encoder.write_u64(*offset);
                encoder.write_u32(stable.as_u32());
                encoder.write_opaque(data.as_slice(), NFS4_MAX_IO)
            }
            Self::Allocate {
                stateid,
                offset,
                length,
            }
            | Self::Deallocate {
                stateid,
                offset,
                length,
            } => {
                stateid.encode(encoder)?;
                encoder.write_u64(*offset);
                encoder.write_u64(*length);
                Ok(())
            }
            Self::IoAdvise(args) => args.encode(encoder),
            Self::Copy(args) => args.encode(encoder),
            Self::CopyNotify(args) => args.encode(encoder),
            Self::LayoutError(args) => args.encode(encoder),
            Self::LayoutStats(args) => args.encode(encoder),
            Self::OffloadCancel(stateid) | Self::OffloadStatus(stateid) => stateid.encode(encoder),
            Self::ReadPlus(args) => args.encode(encoder),
            Self::Seek {
                stateid,
                offset,
                what,
            } => {
                stateid.encode(encoder)?;
                encoder.write_u64(*offset);
                encoder.write_u32(what.as_u32());
                Ok(())
            }
            Self::Clone(args) => args.encode(encoder),
            Self::WriteSame(args) => args.encode(encoder),
            Self::Commit { offset, count } => {
                encoder.write_u64(*offset);
                encoder.write_u32(*count);
                Ok(())
            }
            Self::Renew(client_id) => {
                encoder.write_u64(*client_id);
                Ok(())
            }
            Self::ReadDir {
                cookie,
                cookieverf,
                dircount,
                maxcount,
                attr_request,
            } => {
                encoder.write_u64(*cookie);
                encoder.write_fixed_opaque(cookieverf.as_slice());
                encoder.write_u32(*dircount);
                encoder.write_u32(*maxcount);
                attr_request.encode(encoder)
            }
            Self::Remove(target) => encoder.write_string(target.as_str(), NFS4_OPAQUE_LIMIT),
            Self::Link(target) => encoder.write_string(target.as_str(), NFS4_OPAQUE_LIMIT),
            Self::Rename { oldname, newname } => {
                encoder.write_string(oldname.as_str(), NFS4_OPAQUE_LIMIT)?;
                encoder.write_string(newname.as_str(), NFS4_OPAQUE_LIMIT)
            }
            Self::Verify(attrs) => attrs.encode(encoder),
            Self::ReleaseLockOwner(owner) => owner.encode(encoder),
            Self::Create(args) => args.encode(encoder),
        }
    }
}

#[derive(Debug, Clone, PartialEq, Eq)]
pub struct CompoundArgs {
    pub tag: String,
    pub minor_version: u32,
    pub operations: Vec<Operation>,
}

impl Encode for CompoundArgs {
    open spec fn xdr_bytes(&self) -> Seq<u8> {
        xdr_text(self.tag) + be_u32(self.minor_version) + array_bytes(self.operations@)
    }

    open spec fn xdr_encodable(&self) -> bool {
        text_fits(self.tag) && array_encodable(self.operations@, NFS4_MAX_OPS)
    }

    fn encode(&self, encoder: &mut Encoder) -> (r: core::result::Result<(), XdrError>) {
        encoder.write_string(self.tag.as_str(), NFS4_OPAQUE_LIMIT)?;
        encoder.write_u32(self.minor_version);
        encoder.write_array(self.operations.as_slice(), NFS4_MAX_OPS)?;
        Ok(())
    }
}

#[derive(Debug, Clone, PartialEq, Eq)]
pub struct CompoundResponse {
    pub status: Status,
    pub tag: String,
    pub results: Vec<OperationResult>,
}

/// `res` is the result encoded at `q` in `d`: its operation, its status and
/// the body fields the client reads come from the bytes there.
pub open spec fn result_read_at(d: Seq<u8>, q: int, res: OperationResult) -> bool {
    &&& q + 8 <= d.len()
    &&& res.spec_op_code() == result_op(u32_at(d, q))
    &&& res.spec_status() == Status::from_code(u32_at(d, q + 4))
    &&& result_body_read(res, d, q)
}

/// `res` is a result encoded somewhere in `d`.
pub open spec fn result_read_in(d: Seq<u8>, res: OperationResult) -> bool {
    exists|q: int| 0 <= q && #[trigger] result_read_at(d, q, res)
}

/// `resp` is the COMPOUND reply encoded at `p` in `d`: its status, its tag,
/// its number of results, and each result, read from the bytes there.
pub open spec fn compound_response_read(d: Seq<u8>, p: int, resp: CompoundResponse) -> bool {
    let n = u32_at(d, p + 4) as int;
    let q = p + 8 + n + pad_len(n as nat);
    &&& q + 4 <= d.len()
    &&& resp.status == Status::from_code(u32_at(d, p))
    &&& resp.tag@ == decode_utf8(d.subrange(p + 8, p + 8 + n))
    &&& resp.results@.len() == u32_at(d, q)
    &&& resp.results@.len() <= NFS4_MAX_OPS
    &&& forall|i: int| 0 <= i < resp.results@.len() ==> #[trigger] result_read_in(d, resp.results@[i])
}

impl Decode for CompoundResponse {
    /// Reads the COMPOUND status, the tag, then at most [`NFS4_MAX_OPS`]
    /// results; the status, the tag and the number of results are those the
    /// wire names.
    fn decode(decoder: &mut Decoder<'_>) -> (r: core::result::Result<Self, XdrError>)
        ensures
            r matches Ok(resp) ==> compound_response_read(old(decoder).input(), old(decoder).pos(), resp),
    {
        let status = match decoder.read_u32() {
            Ok(v) => Status::from_u32(v),
            Err(e) => return Err(e),
        };
        let tag = match decoder.read_string(NFS4_OPAQUE_LIMIT) {
            Ok(t) => t,
            Err(e) => return Err(e),
        };
        let ghost d = old(decoder).input();
        let count = match decoder.read_u32() {
            Ok(v) => v,
            Err(e) => return Err(e),
        };
        if count as usize > NFS4_MAX_OPS {
            return Err(XdrError::LengthLimitExceeded { len: count as usize, max: NFS4_MAX_OPS });
        }
        let mut results: Vec<OperationResult> = Vec::new();
        let mut i: u32 = 0;
        while i < count
            invariant
                i <= count,
                results@.len() == i,
                d == old(decoder).input(),
                decoder.input() == d,
                old(decoder).pos() <= decoder.pos(),
                forall|j: int| 0 <= j < results@.len() ==> #[trigger] result_read_in(d, results@[j]),
            decreases count - i,
        {
            let ghost at = decoder.pos();
            let ghost before = results@;
            proof {
                decoder.lemma_pos_nonneg();
            }
            let result = match OperationResult::decode(decoder) {
                Ok(v) => v,
                Err(e) => return Err(e),
            };
            proof {
                assert(result_read_at(d, at, result));
                assert(result_read_in(d, result));
            }
            results.push(result);
            proof {
                assert forall|j: int| 0 <= j < results@.len() implies #[trigger] result_read_in(d, results@[j]) by {
                    if j < before.len() {
                        assert(results@[j] == before[j]);
                    }
                }
            }
            i = i + 1;
        }
        Ok(Self { status, tag, results })
    }
}


#[derive(Debug, Clone, PartialEq, Eq)]
pub enum OperationResult {
    SetClientId {
        status: Status,
        result: Option<SetClientIdResult>,
        client_using: Option<NetAddr>,
    },
    ExchangeId {
        status: Status,
        result: Option<ExchangeIdResult>,
    },
    CreateSession {
        status: Status,
        result: Option<CreateSessionResult>,
    },
    BindConnToSession {
        status: Status,
        result: Option<BindConnToSessionResult>,
    },
    Sequence {
        status: Status,
        result: Option<SequenceResult>,
    },
    StatusOnly {
        op: OpCode,
        status: Status,
    },
    Open {
        status: Status,
        result: Option<OpenResult>,
    },
    OpenConfirm {
        status: Status,
        stateid: Option<StateId>,
    },
    Close {
        status: Status,
        stateid: Option<StateId>,
    },
    Lock {
        status: Status,
        stateid: Option<StateId>,
        denied: Option<LockDenied>,
    },
    LockTest {
        status: Status,
        denied: Option<LockDenied>,
    },
    LockUnlock {
        status: Status,
        stateid: Option<StateId>,
    },
    OpenDowngrade {
        status: Status,
        stateid: Option<StateId>,
    },
    TestStateIds {
        status: Status,
        statuses: Vec<Status>,
    },
    GetDirDelegation {
        status: Status,
        result: Option<GetDirDelegationResult>,
    },
    GetDeviceInfo {
        status: Status,
        result: Option<GetDeviceInfoResult>,
        min_count: Option<u32>,
    },
    GetDeviceList {
        status: Status,
        result: Option<GetDeviceListResult>,
    },
    LayoutCommit {
        status: Status,
        result: Option<LayoutCommitResult>,
    },
    LayoutGet {
        status: Status,
        result: Option<LayoutGetResult>,
        will_signal_layout_avail: Option<bool>,
    },
    LayoutReturn {
        status: Status,
        result: Option<LayoutReturnResult>,
    },
    SetSsv {
        status: Status,
        result: Option<SetSsvResult>,
    },
    WantDelegation {
        status: Status,
        delegation: Option<OpenDelegation>,
    },
    GetFh {
        status: Status,
        handle: Option<FileHandle>,
    },
    GetAttr {
        status: Status,
        attrs: Option<Fattr>,
    },
    Access {
        status: Status,
        result: Option<AccessResult>,
    },
    SecInfo {
        op: OpCode,
        status: Status,
        flavors: Vec<SecInfo>,
    },
    Read {
        status: Status,
        eof: bool,
        data: Vec<u8>,
    },
    Write {
        status: Status,
        result: Option<WriteResult>,
    },
    Commit {
        status: Status,
        result: Option<CommitResult>,
    },
    IoAdvise {
        status: Status,
        result: Option<IoAdviseResult>,
    },
    Copy {
        status: Status,
        result: Option<CopyResult>,
    },
    CopyNotify {
        status: Status,
        result: Option<CopyNotifyResult>,
    },
    OffloadStatus {
        status: Status,
        result: Option<OffloadStatusResult>,
    },
    ReadPlus {
        status: Status,
        result: Option<ReadPlusResult>,
    },
    Seek {
        status: Status,
        result: Option<SeekResult>,
    },
    WriteSame {
        status: Status,
        result: Option<WriteResponse>,
    },
    ReadDir {
        status: Status,
        cookieverf: Verifier,
        entries: Vec<DirEntry>,
        eof: bool,
    },
    ReadLink {
        status: Status,
        data: Option<String>,
    },
}





impl ChannelAttrs {
    /// Fore-channel attributes the client proposes when creating a session.
    pub fn fore_channel_default() -> (r: Self)
        ensures
            r.header_pad_size == 0,
            r.max_request_size == DEFAULT_SESSION_CHANNEL_SIZE,
            r.max_response_size == DEFAULT_SESSION_CHANNEL_SIZE,
            r.max_response_size_cached == DEFAULT_SESSION_CHANNEL_SIZE,
            r.max_operations == 64,
            r.max_requests == 1,
            r.rdma_ird@ == Seq::<u32>::empty(),
    {
        ChannelAttrs {
            header_pad_size: 0,
            max_request_size: DEFAULT_SESSION_CHANNEL_SIZE,
            max_response_size: DEFAULT_SESSION_CHANNEL_SIZE,
            max_response_size_cached: DEFAULT_SESSION_CHANNEL_SIZE,
            max_operations: 64,
            max_requests: 1,
            rdma_ird: Vec::new(),
        }
    }

    /// Back-channel attributes the client proposes; the client runs no callback service.
    pub fn back_channel_disabled() -> (r: Self)
        ensures
            r.header_pad_size == 0,
            r.max_request_size == DEFAULT_SESSION_CHANNEL_SIZE,
            r.max_response_size == DEFAULT_SESSION_CHANNEL_SIZE,
            r.max_response_size_cached == DEFAULT_SESSION_CHANNEL_SIZE,
            r.max_operations == 8,
            r.max_requests == 1,
            r.rdma_ird@ == Seq::<u32>::empty(),
    {
        ChannelAttrs {
            header_pad_size: 0,
            max_request_size: DEFAULT_SESSION_CHANNEL_SIZE,
            max_response_size: DEFAULT_SESSION_CHANNEL_SIZE,
            max_response_size_cached: DEFAULT_SESSION_CHANNEL_SIZE,
            max_operations: 8,
            max_requests: 1,
            rdma_ird: Vec::new(),
        }
    }
}

impl SeekResult {
    /// Returns the offset found, or `None` when the search reached end of file.
    pub fn found_offset(self) -> (r: Option<u64>)
        ensures
            r == (if self.eof { None } else { Some(self.offset) }),
    {
        if self.eof {
            None
        } else {
            Some(self.offset)
        }
    }
}

impl StableHow {
    /// Whether data committed at stability `self` meets a request for `requested`
    /// (file sync meets everything, data sync meets data sync and unstable).
    pub fn satisfies(self, requested: Self) -> (r: bool)
        ensures
            r == (self.code() >= requested.code()),
    {
        self.as_u32() >= requested.as_u32()
    }
}

impl Operation {
    /// The XDR encoding of the operation's arguments, after its code.
    pub open spec fn args_bytes(&self) -> Seq<u8> {
        match self {
            Operation::SetClientId(args) => args.xdr_bytes(),
            Operation::SetClientIdConfirm(args) => args.xdr_bytes(),
            Operation::ExchangeId(args) => args.xdr_bytes(),
            Operation::CreateSession(args) => args.xdr_bytes(),
            Operation::BackchannelCtl(args) => args.xdr_bytes(),
            Operation::BindConnToSession(args) => args.xdr_bytes(),
            Operation::DestroySession(session_id) => fixed_opaque(session_id@),
            Operation::DestroyClientId(client_id) => be_u64(*client_id),
            Operation::ReclaimComplete { one_fs } => be_bool(*one_fs),
            Operation::Sequence(args) => args.xdr_bytes(),
            Operation::PutRootFh | Operation::PutPubFh | Operation::Lookupp | Operation::GetFh
            | Operation::ReadLink | Operation::SaveFh | Operation::RestoreFh => Seq::empty(),
            Operation::PutFh(handle) => handle.xdr_bytes(),
            Operation::Lookup(component) => xdr_text(*component),
            Operation::Access(access) => be_u32(*access),
            Operation::SecInfo(name) => xdr_text(*name),
            Operation::SecInfoNoName(style) => be_u32(style.code()),
            Operation::DelegPurge(client_id) => be_u64(*client_id),
            Operation::DelegReturn(stateid) => stateid.xdr_bytes(),
            Operation::NVerify(attrs) => attrs.xdr_bytes(),
            Operation::Open(args) => args.xdr_bytes(),
            Operation::OpenAttr { create_dir } => be_bool(*create_dir),
            Operation::OpenConfirm { stateid, seqid } => stateid.xdr_bytes() + be_u32(*seqid),
            Operation::Close { seqid, stateid } => be_u32(*seqid) + stateid.xdr_bytes(),
            Operation::Lock(args) => args.xdr_bytes(),
            Operation::LockTest(args) => args.xdr_bytes(),
            Operation::LockUnlock(args) => args.xdr_bytes(),
            Operation::OpenDowngrade { seqid, stateid, share_access, share_deny } => stateid.xdr_bytes()
                + be_u32(*seqid) + be_u32(*share_access) + be_u32(*share_deny),
            Operation::FreeStateId(stateid) => stateid.xdr_bytes(),
            Operation::TestStateIds(stateids) => array_bytes(stateids@),
            Operation::GetDirDelegation(args) => args.xdr_bytes(),
            Operation::GetDeviceInfo(args) => args.xdr_bytes(),
            Operation::GetDeviceList(args) => args.xdr_bytes(),
            Operation::LayoutCommit(args) => args.xdr_bytes(),
            Operation::LayoutGet(args) => args.xdr_bytes(),
            Operation::LayoutReturn(args) => args.xdr_bytes(),
            Operation::SetSsv(args) => args.xdr_bytes(),
            Operation::WantDelegation(args) => args.xdr_bytes(),
            Operation::GetAttr(bitmap) => bitmap.xdr_bytes(),
            Operation::SetAttr { stateid, attrs } => stateid.xdr_bytes() + attrs.xdr_bytes(),
            Operation::Read { stateid, offset, count } => stateid.xdr_bytes() + be_u64(*offset) + be_u32(*count),
            Operation::Write { stateid, offset, stable, data } => stateid.xdr_bytes() + be_u64(*offset)
                + be_u32(stable.code()) + var_opaque(data@),
            Operation::Allocate { stateid, offset, length } => stateid.xdr_bytes() + be_u64(*offset)
                + be_u64(*length),
            Operation::Deallocate { stateid, offset, length } => stateid.xdr_bytes() + be_u64(*offset)
                + be_u64(*length),
            Operation::IoAdvise(args) => args.xdr_bytes(),
            Operation::Copy(args) => args.xdr_bytes(),
            Operation::CopyNotify(args) => args.xdr_bytes(),
            Operation::LayoutError(args) => args.xdr_bytes(),
            Operation::LayoutStats(args) => args.xdr_bytes(),
            Operation::OffloadCancel(stateid) => stateid.xdr_bytes(),
            Operation::OffloadStatus(stateid) => stateid.xdr_bytes(),
            Operation::ReadPlus(args) => args.xdr_bytes(),
            Operation::Seek { stateid, offset, what } => stateid.xdr_bytes() + be_u64(*offset) + be_u32(what.code()),
            Operation::Clone(args) => args.xdr_bytes(),
            Operation::WriteSame(args) => args.xdr_bytes(),
            Operation::Commit { offset, count } => be_u64(*offset) + be_u32(*count),
            Operation::Renew(client_id) => be_u64(*client_id),
            Operation::ReadDir { cookie, cookieverf, dircount, maxcount, attr_request } => be_u64(*cookie)
                + fixed_opaque(cookieverf@) + be_u32(*dircount) + be_u32(*maxcount) + attr_request.xdr_bytes(),
            Operation::Remove(target) => xdr_text(*target),
            Operation::Link(target) => xdr_text(*target),
            Operation::Rename { oldname, newname } => xdr_text(*oldname) + xdr_text(*newname),
            Operation::Verify(attrs) => attrs.xdr_bytes(),
            Operation::ReleaseLockOwner(owner) => owner.xdr_bytes(),
            Operation::Create(args) => args.xdr_bytes(),
        }
    }

    /// Whether the operation's arguments can be encoded.
    pub open spec fn args_encodable(&self) -> bool {
        match self {
            Operation::SetClientId(args) => args.xdr_encodable(),
            Operation::ExchangeId(args) => args.xdr_encodable(),
            Operation::CreateSession(args) => args.xdr_encodable(),
            Operation::BackchannelCtl(args) => args.xdr_encodable(),
            Operation::PutFh(handle) => handle.xdr_encodable(),
            Operation::Lookup(component) => text_fits(*component),
            Operation::SecInfo(name) => text_fits(*name),
            Operation::NVerify(attrs) => attrs.xdr_encodable(),
            Operation::Open(args) => args.xdr_encodable(),
            Operation::Lock(args) => args.xdr_encodable(),
            Operation::LockTest(args) => args.xdr_encodable(),
            Operation::TestStateIds(stateids) => array_encodable(stateids@, NFS4_MAX_OPS),
            Operation::GetDirDelegation(args) => args.xdr_encodable(),
            Operation::GetDeviceInfo(args) => args.xdr_encodable(),
            Operation::LayoutCommit(args) => args.xdr_encodable(),
            Operation::LayoutReturn(args) => args.xdr_encodable(),
            Operation::SetSsv(args) => args.xdr_encodable(),
            Operation::GetAttr(bitmap) => bitmap.xdr_encodable(),
            Operation::SetAttr { attrs, .. } => attrs.xdr_encodable(),
            Operation::Write { data, .. } => data@.len() <= NFS4_MAX_IO,
            Operation::IoAdvise(args) => args.xdr_encodable(),
            Operation::Copy(args) => args.xdr_encodable(),
            Operation::CopyNotify(args) => args.xdr_encodable(),
            Operation::LayoutError(args) => args.xdr_encodable(),
            Operation::LayoutStats(args) => args.xdr_encodable(),
            Operation::WriteSame(args) => args.xdr_encodable(),
            Operation::ReadDir { attr_request, .. } => attr_request.xdr_encodable(),
            Operation::Remove(target) => text_fits(*target),
            Operation::Link(target) => text_fits(*target),
            Operation::Rename { oldname, newname } => text_fits(*oldname) && text_fits(*newname),
            Operation::Verify(attrs) => attrs.xdr_encodable(),
            Operation::ReleaseLockOwner(owner) => owner.xdr_encodable(),
            Operation::Create(args) => args.xdr_encodable(),
            _ => true,
        }
    }

    /// The operation code of this operation.
    pub open spec fn spec_op_code(&self) -> OpCode {
        match self {
            Operation::SetClientId(_) => OpCode::SetClientId,
            Operation::SetClientIdConfirm(_) => OpCode::SetClientIdConfirm,
            Operation::ExchangeId(_) => OpCode::ExchangeId,
            Operation::CreateSession(_) => OpCode::CreateSession,
            Operation::BackchannelCtl(_) => OpCode::BackchannelCtl,
            Operation::BindConnToSession(_) => OpCode::BindConnToSession,
            Operation::DestroySession(_) => OpCode::DestroySession,
            Operation::DestroyClientId(_) => OpCode::DestroyClientId,
            Operation::ReclaimComplete { .. } => OpCode::ReclaimComplete,
            Operation::Sequence(_) => OpCode::Sequence,
            Operation::PutRootFh => OpCode::PutRootFh,
            Operation::PutPubFh => OpCode::PutPubFh,
            Operation::PutFh(_) => OpCode::PutFh,
            Operation::Lookup(_) => OpCode::Lookup,
            Operation::Lookupp => OpCode::Lookupp,
            Operation::Access(_) => OpCode::Access,
            Operation::SecInfo(_) => OpCode::SecInfo,
            Operation::SecInfoNoName(_) => OpCode::SecInfoNoName,
            Operation::DelegPurge(_) => OpCode::DelegPurge,
            Operation::DelegReturn(_) => OpCode::DelegReturn,
            Operation::NVerify(_) => OpCode::NVerify,
            Operation::Open(_) => OpCode::Open,
            Operation::OpenAttr { .. } => OpCode::OpenAttr,
            Operation::OpenConfirm { .. } => OpCode::OpenConfirm,
            Operation::Close { .. } => OpCode::Close,
            Operation::Lock(_) => OpCode::Lock,
            Operation::LockTest(_) => OpCode::Lockt,
            Operation::LockUnlock(_) => OpCode::Locku,
            Operation::OpenDowngrade { .. } => OpCode::OpenDowngrade,
            Operation::FreeStateId(_) => OpCode::FreeStateId,
            Operation::TestStateIds(_) => OpCode::TestStateId,
            Operation::GetDirDelegation(_) => OpCode::GetDirDelegation,
            Operation::GetDeviceInfo(_) => OpCode::GetDeviceInfo,
            Operation::GetDeviceList(_) => OpCode::GetDeviceList,
            Operation::LayoutCommit(_) => OpCode::LayoutCommit,
            Operation::LayoutGet(_) => OpCode::LayoutGet,
            Operation::LayoutReturn(_) => OpCode::LayoutReturn,
            Operation::SetSsv(_) => OpCode::SetSsv,
            Operation::WantDelegation(_) => OpCode::WantDelegation,
            Operation::GetFh => OpCode::GetFh,
            Operation::GetAttr(_) => OpCode::GetAttr,
            Operation::SetAttr { .. } => OpCode::SetAttr,
            Operation::Read { .. } => OpCode::Read,
            Operation::Write { .. } => OpCode::Write,
            Operation::Allocate { .. } => OpCode::Allocate,
            Operation::Deallocate { .. } => OpCode::Deallocate,
            Operation::IoAdvise(_) => OpCode::IoAdvise,
            Operation::Copy(_) => OpCode::Copy,
            Operation::CopyNotify(_) => OpCode::CopyNotify,
            Operation::LayoutError(_) => OpCode::LayoutError,
            Operation::LayoutStats(_) => OpCode::LayoutStats,
            Operation::OffloadCancel(_) => OpCode::OffloadCancel,
            Operation::OffloadStatus(_) => OpCode::OffloadStatus,
            Operation::ReadPlus(_) => OpCode::ReadPlus,
            Operation::Seek { .. } => OpCode::Seek,
            Operation::Clone(_) => OpCode::Clone,
            Operation::WriteSame(_) => OpCode::WriteSame,
            Operation::Commit { .. } => OpCode::Commit,
            Operation::Renew(_) => OpCode::Renew,
            Operation::ReadDir { .. } => OpCode::ReadDir,
            Operation::ReadLink => OpCode::ReadLink,
            Operation::Remove(_) => OpCode::Remove,
            Operation::Link(_) => OpCode::Link,
            Operation::Rename { .. } => OpCode::Rename,
            Operation::Verify(_) => OpCode::Verify,
            Operation::ReleaseLockOwner(_) => OpCode::ReleaseLockOwner,
            Operation::Create(_) => OpCode::Create,
            Operation::SaveFh => OpCode::SaveFh,
            Operation::RestoreFh => OpCode::RestoreFh,
        }
    }

    /// Returns the operation code of this operation.
    pub fn op_code(&self) -> (r: OpCode)
        ensures
            r == self.spec_op_code(),
    {
        match self {
            Operation::SetClientId(_) => OpCode::SetClientId,
            Operation::SetClientIdConfirm(_) => OpCode::SetClientIdConfirm,
            Operation::ExchangeId(_) => OpCode::ExchangeId,
            Operation::CreateSession(_) => OpCode::CreateSession,
            Operation::BackchannelCtl(_) => OpCode::BackchannelCtl,
            Operation::BindConnToSession(_) => OpCode::BindConnToSession,
            Operation::DestroySession(_) => OpCode::DestroySession,
            Operation::DestroyClientId(_) => OpCode::DestroyClientId,
            Operation::ReclaimComplete { .. } => OpCode::ReclaimComplete,
            Operation::Sequence(_) => OpCode::Sequence,
            Operation::PutRootFh => OpCode::PutRootFh,
            Operation::PutPubFh => OpCode::PutPubFh,
            Operation::PutFh(_) => OpCode::PutFh,
            Operation::Lookup(_) => OpCode::Lookup,
            Operation::Lookupp => OpCode::Lookupp,
            Operation::Access(_) => OpCode::Access,
            Operation::SecInfo(_) => OpCode::SecInfo,
            Operation::SecInfoNoName(_) => OpCode::SecInfoNoName,
            Operation::DelegPurge(_) => OpCode::DelegPurge,
            Operation::DelegReturn(_) => OpCode::DelegReturn,
            Operation::NVerify(_) => OpCode::NVerify,
            Operation::Open(_) => OpCode::Open,
            Operation::OpenAttr { .. } => OpCode::OpenAttr,
            Operation::OpenConfirm { .. } => OpCode::OpenConfirm,
            Operation::Close { .. } => OpCode::Close,
            Operation::Lock(_) => OpCode::Lock,
            Operation::LockTest(_) => OpCode::Lockt,
            Operation::LockUnlock(_) => OpCode::Locku,
            Operation::OpenDowngrade { .. } => OpCode::OpenDowngrade,
            Operation::FreeStateId(_) => OpCode::FreeStateId,
            Operation::TestStateIds(_) => OpCode::TestStateId,
            Operation::GetDirDelegation(_) => OpCode::GetDirDelegation,
            Operation::GetDeviceInfo(_) => OpCode::GetDeviceInfo,
            Operation::GetDeviceList(_) => OpCode::GetDeviceList,
            Operation::LayoutCommit(_) => OpCode::LayoutCommit,
            Operation::LayoutGet(_) => OpCode::LayoutGet,
            Operation::LayoutReturn(_) => OpCode::LayoutReturn,
            Operation::SetSsv(_) => OpCode::SetSsv,
            Operation::WantDelegation(_) => OpCode::WantDelegation,
            Operation::GetFh => OpCode::GetFh,
            Operation::GetAttr(_) => OpCode::GetAttr,
            Operation::SetAttr { .. } => OpCode::SetAttr,
            Operation::Read { .. } => OpCode::Read,
            Operation::Write { .. } => OpCode::Write,
            Operation::Allocate { .. } => OpCode::Allocate,
            Operation::Deallocate { .. } => OpCode::Deallocate,
            Operation::IoAdvise(_) => OpCode::IoAdvise,
            Operation::Copy(_) => OpCode::Copy,
            Operation::CopyNotify(_) => OpCode::CopyNotify,
            Operation::LayoutError(_) => OpCode::LayoutError,
            Operation::LayoutStats(_) => OpCode::LayoutStats,
            Operation::OffloadCancel(_) => OpCode::OffloadCancel,
            Operation::OffloadStatus(_) => OpCode::OffloadStatus,
            Operation::ReadPlus(_) => OpCode::ReadPlus,
            Operation::Seek { .. } => OpCode::Seek,
            Operation::Clone(_) => OpCode::Clone,
            Operation::WriteSame(_) => OpCode::WriteSame,
            Operation::Commit { .. } => OpCode::Commit,
            Operation::Renew(_) => OpCode::Renew,
            Operation::ReadDir { .. } => OpCode::ReadDir,
            Operation::ReadLink => OpCode::ReadLink,
            Operation::Remove(_) => OpCode::Remove,
            Operation::Link(_) => OpCode::Link,
            Operation::Rename { .. } => OpCode::Rename,
            Operation::Verify(_) => OpCode::Verify,
            Operation::ReleaseLockOwner(_) => OpCode::ReleaseLockOwner,
            Operation::Create(_) => OpCode::Create,
            Operation::SaveFh => OpCode::SaveFh,
            Operation::RestoreFh => OpCode::RestoreFh,
        }
    }
}

impl CompoundResponse {
    /// Succeeds when the COMPOUND status is OK; otherwise reports the last
    /// result's operation and status, or the COMPOUND status when no result
    /// came back.
    pub fn ensure_ok(&self) -> (r: Result<()>)
        ensures
            r is Ok <==> self.status == Status::NfsOk,
            r is Err ==> r == Err::<(), Error>(self.failure()),
            self.status != Status::NfsOk && self.results@.len() > 0 ==> (r matches Err(Error::NfsV4 { operation, status })
                && status == self.results@.last().spec_status()
                && operation == self.results@.last().spec_op_code().spec_name()),
            self.status != Status::NfsOk && self.results@.len() == 0 ==> (r matches Err(Error::NfsV4 { operation, status })
                && status == self.status),
    {
        if self.status.is_ok() {
            Ok(())
        } else if self.results.len() > 0 {
            let result = &self.results[self.results.len() - 1];
            Err(Error::nfsv4(result.op_name(), result.status()))
        } else {
            Err(Error::nfsv4("COMPOUND", self.status))
        }
    }
}

impl CompoundResponse {
    /// The error a failed COMPOUND reports: the last result's operation and
    /// status, or the COMPOUND status when no result came back.
    pub open spec fn failure(self) -> Error {
        if self.results@.len() > 0 {
            Error::NfsV4 {
                operation: self.results@.last().spec_op_code().spec_name(),
                status: self.results@.last().spec_status(),
            }
        } else {
            Error::NfsV4 { operation: "COMPOUND", status: self.status }
        }
    }
}

impl OperationResult {
    /// The operation code this result answers.
    pub open spec fn spec_op_code(&self) -> OpCode {
        match self {
            OperationResult::SetClientId { .. } => OpCode::SetClientId,
            OperationResult::ExchangeId { .. } => OpCode::ExchangeId,
            OperationResult::CreateSession { .. } => OpCode::CreateSession,
            OperationResult::BindConnToSession { .. } => OpCode::BindConnToSession,
            OperationResult::Sequence { .. } => OpCode::Sequence,
            OperationResult::StatusOnly { op, .. } => *op,
            OperationResult::Open { .. } => OpCode::Open,
            OperationResult::OpenConfirm { .. } => OpCode::OpenConfirm,
            OperationResult::Close { .. } => OpCode::Close,
            OperationResult::Lock { .. } => OpCode::Lock,
            OperationResult::LockTest { .. } => OpCode::Lockt,
            OperationResult::LockUnlock { .. } => OpCode::Locku,
            OperationResult::OpenDowngrade { .. } => OpCode::OpenDowngrade,
            OperationResult::TestStateIds { .. } => OpCode::TestStateId,
            OperationResult::GetDirDelegation { .. } => OpCode::GetDirDelegation,
            OperationResult::GetDeviceInfo { .. } => OpCode::GetDeviceInfo,
            OperationResult::GetDeviceList { .. } => OpCode::GetDeviceList,
            OperationResult::LayoutCommit { .. } => OpCode::LayoutCommit,
            OperationResult::LayoutGet { .. } => OpCode::LayoutGet,
            OperationResult::LayoutReturn { .. } => OpCode::LayoutReturn,
            OperationResult::SetSsv { .. } => OpCode::SetSsv,
            OperationResult::WantDelegation { .. } => OpCode::WantDelegation,
            OperationResult::GetFh { .. } => OpCode::GetFh,
            OperationResult::GetAttr { .. } => OpCode::GetAttr,
            OperationResult::Access { .. } => OpCode::Access,
            OperationResult::SecInfo { op, .. } => *op,
            OperationResult::Read { .. } => OpCode::Read,
            OperationResult::Write { .. } => OpCode::Write,
            OperationResult::Commit { .. } => OpCode::Commit,
            OperationResult::IoAdvise { .. } => OpCode::IoAdvise,
            OperationResult::Copy { .. } => OpCode::Copy,
            OperationResult::CopyNotify { .. } => OpCode::CopyNotify,
            OperationResult::OffloadStatus { .. } => OpCode::OffloadStatus,
            OperationResult::ReadPlus { .. } => OpCode::ReadPlus,
            OperationResult::Seek { .. } => OpCode::Seek,
            OperationResult::WriteSame { .. } => OpCode::WriteSame,
            OperationResult::ReadDir { .. } => OpCode::ReadDir,
            OperationResult::ReadLink { .. } => OpCode::ReadLink,
        }
    }

    /// The status of this result.
    pub open spec fn spec_status(&self) -> Status {
        match self {
            OperationResult::SetClientId { status, .. }
            | OperationResult::ExchangeId { status, .. }
            | OperationResult::CreateSession { status, .. }
            | OperationResult::BindConnToSession { status, .. }
            | OperationResult::Sequence { status, .. }
            | OperationResult::StatusOnly { status, .. }
            | OperationResult::Open { status, .. }
            | OperationResult::OpenConfirm { status, .. }
            | OperationResult::Close { status, .. }
            | OperationResult::Lock { status, .. }
            | OperationResult::LockTest { status, .. }
            | OperationResult::LockUnlock { status, .. }
            | OperationResult::OpenDowngrade { status, .. }
            | OperationResult::TestStateIds { status, .. }
            | OperationResult::GetDirDelegation { status, .. }
            | OperationResult::GetDeviceInfo { status, .. }
            | OperationResult::GetDeviceList { status, .. }
            | OperationResult::LayoutCommit { status, .. }
            | OperationResult::LayoutGet { status, .. }
            | OperationResult::LayoutReturn { status, .. }
            | OperationResult::SetSsv { status, .. }
            | OperationResult::WantDelegation { status, .. }
            | OperationResult::GetFh { status, .. }
            | OperationResult::GetAttr { status, .. }
            | OperationResult::Access { status, .. }
            | OperationResult::SecInfo { status, .. }
            | OperationResult::Read { status, .. }
            | OperationResult::Write { status, .. }
            | OperationResult::Commit { status, .. }
            | OperationResult::IoAdvise { status, .. }
            | OperationResult::Copy { status, .. }
            | OperationResult::CopyNotify { status, .. }
            | OperationResult::OffloadStatus { status, .. }
            | OperationResult::ReadPlus { status, .. }
            | OperationResult::Seek { status, .. }
            | OperationResult::WriteSame { status, .. }
            | OperationResult::ReadDir { status, .. }
            | OperationResult::ReadLink { status, .. } => *status,
        }
    }

    /// Returns the operation code this result answers.
    pub fn op_code(&self) -> (r: OpCode)
        ensures
            r == self.spec_op_code(),
    {
        match self {
            OperationResult::SetClientId { .. } => OpCode::SetClientId,
            OperationResult::ExchangeId { .. } => OpCode::ExchangeId,
            OperationResult::CreateSession { .. } => OpCode::CreateSession,
            OperationResult::BindConnToSession { .. } => OpCode::BindConnToSession,
            OperationResult::Sequence { .. } => OpCode::Sequence,
            OperationResult::StatusOnly { op, .. } => *op,
            OperationResult::Open { .. } => OpCode::Open,
            OperationResult::OpenConfirm { .. } => OpCode::OpenConfirm,
            OperationResult::Close { .. } => OpCode::Close,
            OperationResult::Lock { .. } => OpCode::Lock,
            OperationResult::LockTest { .. } => OpCode::Lockt,
            OperationResult::LockUnlock { .. } => OpCode::Locku,
            OperationResult::OpenDowngrade { .. } => OpCode::OpenDowngrade,
            OperationResult::TestStateIds { .. } => OpCode::TestStateId,
            OperationResult::GetDirDelegation { .. } => OpCode::GetDirDelegation,
            OperationResult::GetDeviceInfo { .. } => OpCode::GetDeviceInfo,
            OperationResult::GetDeviceList { .. } => OpCode::GetDeviceList,
            OperationResult::LayoutCommit { .. } => OpCode::LayoutCommit,
            OperationResult::LayoutGet { .. } => OpCode::LayoutGet,
            OperationResult::LayoutReturn { .. } => OpCode::LayoutReturn,
            OperationResult::SetSsv { .. } => OpCode::SetSsv,
            OperationResult::WantDelegation { .. } => OpCode::WantDelegation,
            OperationResult::GetFh { .. } => OpCode::GetFh,
            OperationResult::GetAttr { .. } => OpCode::GetAttr,
            OperationResult::Access { .. } => OpCode::Access,
            OperationResult::SecInfo { op, .. } => *op,
            OperationResult::Read { .. } => OpCode::Read,
            OperationResult::Write { .. } => OpCode::Write,
            OperationResult::Commit { .. } => OpCode::Commit,
            OperationResult::IoAdvise { .. } => OpCode::IoAdvise,
            OperationResult::Copy { .. } => OpCode::Copy,
            OperationResult::CopyNotify { .. } => OpCode::CopyNotify,
            OperationResult::OffloadStatus { .. } => OpCode::OffloadStatus,
            OperationResult::ReadPlus { .. } => OpCode::ReadPlus,
            OperationResult::Seek { .. } => OpCode::Seek,
            OperationResult::WriteSame { .. } => OpCode::WriteSame,
            OperationResult::ReadDir { .. } => OpCode::ReadDir,
            OperationResult::ReadLink { .. } => OpCode::ReadLink,
        }
    }

    /// Returns the protocol name of the operation this result answers.
    pub fn op_name(&self) -> (r: &'static str)
        ensures
            r == self.spec_op_code().spec_name(),
    {
        self.op_code().name()
    }

    /// Returns the status of this result.
    pub fn status(&self) -> (r: Status)
        ensures
            r == self.spec_status(),
    {
        match self {
            OperationResult::SetClientId { status, .. }
            | OperationResult::ExchangeId { status, .. }
            | OperationResult::CreateSession { status, .. }
            | OperationResult::BindConnToSession { status, .. }
            | OperationResult::Sequence { status, .. }
            | OperationResult::StatusOnly { status, .. }
            | OperationResult::Open { status, .. }
            | OperationResult::OpenConfirm { status, .. }
            | OperationResult::Close { status, .. }
            | OperationResult::Lock { status, .. }
            | OperationResult::LockTest { status, .. }
            | OperationResult::LockUnlock { status, .. }
            | OperationResult::OpenDowngrade { status, .. }
            | OperationResult::TestStateIds { status, .. }
            | OperationResult::GetDirDelegation { status, .. }
            | OperationResult::GetDeviceInfo { status, .. }
            | OperationResult::GetDeviceList { status, .. }
            | OperationResult::LayoutCommit { status, .. }
            | OperationResult::LayoutGet { status, .. }
            | OperationResult::LayoutReturn { status, .. }
            | OperationResult::SetSsv { status, .. }
            | OperationResult::WantDelegation { status, .. }
            | OperationResult::GetFh { status, .. }
            | OperationResult::GetAttr { status, .. }
            | OperationResult::Access { status, .. }
            | OperationResult::SecInfo { status, .. }
            | OperationResult::Read { status, .. }
            | OperationResult::Write { status, .. }
            | OperationResult::Commit { status, .. }
            | OperationResult::IoAdvise { status, .. }
            | OperationResult::Copy { status, .. }
            | OperationResult::CopyNotify { status, .. }
            | OperationResult::OffloadStatus { status, .. }
            | OperationResult::ReadPlus { status, .. }
            | OperationResult::Seek { status, .. }
            | OperationResult::WriteSame { status, .. }
            | OperationResult::ReadDir { status, .. }
            | OperationResult::ReadLink { status, .. } => *status,
        }
    }
}

/// Statuses for the given status codes, in order.
fn statuses_from_codes(codes: &[u32]) -> (r: Vec<Status>)
    ensures
        r@.len() == codes@.len(),
        forall|i: int| 0 <= i < codes@.len() ==> r@[i] == Status::from_code(#[trigger] codes@[i]),
{
    let mut out: Vec<Status> = Vec::new();
    let mut i: usize = 0;
    while i < codes.len()
        invariant
            i <= codes@.len(),
            out@.len() == i,
            forall|j: int| 0 <= j < i ==> out@[j] == Status::from_code(#[trigger] codes@[j]),
        decreases codes@.len() - i,
    {
        out.push(Status::from_u32(codes[i]));
        i = i + 1;
    }
    out
}

/// The operation a result's code names: unknown codes answer ILLEGAL.
pub open spec fn result_op(raw: u32) -> OpCode {
    match OpCode::from_code(raw) {
        Some(op) => op,
        None => OpCode::Illegal,
    }
}

/// Operations whose failed results carry nothing after the status.
pub open spec fn error_result_has_no_body(op: OpCode) -> bool {
    ||| op is Close || op is OpenConfirm || op is Locku || op is OpenDowngrade || op is TestStateId
    ||| op is SetSsv || op is WantDelegation || op is GetFh || op is GetAttr || op is Access
    ||| op is SecInfo || op is SecInfoNoName || op is Read || op is Write || op is Commit || op is IoAdvise
    ||| op is CopyNotify || op is OffloadStatus || op is ReadPlus || op is Seek || op is WriteSame
    ||| op is SetAttr || op is Remove || op is Link || op is Rename || op is Create || op is ReadLink
}

/// Operations whose results this library reads past the status.
pub open spec fn has_result_body(op: OpCode) -> bool {
    ||| error_result_has_no_body(op)
    ||| op is SetClientId || op is ExchangeId || op is CreateSession || op is BindConnToSession
    ||| op is Sequence || op is Open || op is Lock || op is Lockt || op is GetDirDelegation
    ||| op is GetDeviceInfo || op is GetDeviceList || op is LayoutCommit || op is LayoutGet
    ||| op is LayoutReturn || op is Copy || op is ReadDir
}

/// What a result's body holds of the bytes after its operation code and
/// status at `p`, for the results the client reads most.
pub open spec fn result_body_read(res: OperationResult, d: Seq<u8>, p: int) -> bool {
    let b = p + 8;
    match res {
        OperationResult::Read { status, eof, data } => if status == Status::NfsOk {
            &&& b + 8 <= d.len()
            &&& eof == (u32_at(d, b) == 1)
            &&& data@ == d.subrange(b + 8, b + 8 + u32_at(d, b + 4))
        } else {
            !eof && data@.len() == 0
        },
        OperationResult::GetFh { status, handle } => (status == Status::NfsOk) == (handle is Some)
            && (handle matches Some(h) ==> h.bytes() == d.subrange(b + 4, b + 4 + u32_at(d, b))),
        OperationResult::GetAttr { status, attrs } => (status == Status::NfsOk) == (attrs is Some)
            && (attrs matches Some(f) ==> {
                let q = b + 4 + 4 * u32_at(d, b);
                &&& f.attrmask.words_view().len() == u32_at(d, b)
                &&& d.subrange(b + 4, q) == u32_array_body(f.attrmask.words_view())
                &&& f.attr_vals@ == d.subrange(q + 4, q + 4 + u32_at(d, q))
            }),
        OperationResult::Access { status, result } => (status == Status::NfsOk) == (result is Some)
            && (result matches Some(a) ==> a.supported == u32_at(d, b) && a.access == u32_at(d, b + 4)),
        OperationResult::Close { status, stateid } => (status == Status::NfsOk) == (stateid is Some)
            && (stateid matches Some(s) ==> holds_encoding(d, b, s)),
        OperationResult::OpenConfirm { status, stateid } => (status == Status::NfsOk) == (stateid is Some)
            && (stateid matches Some(s) ==> holds_encoding(d, b, s)),
        OperationResult::LockUnlock { status, stateid } => (status == Status::NfsOk) == (stateid is Some)
            && (stateid matches Some(s) ==> holds_encoding(d, b, s)),
        OperationResult::OpenDowngrade { status, stateid } => (status == Status::NfsOk) == (stateid is Some)
            && (stateid matches Some(s) ==> holds_encoding(d, b, s)),
        OperationResult::Write { status, result } => (status == Status::NfsOk) == (result is Some)
            && (result matches Some(w) ==> w.count == u32_at(d, b) && w.committed.code() == u32_at(d, b + 4)
                && w.verifier@ == d.subrange(b + 8, b + 16)),
        OperationResult::Commit { status, result } => (status == Status::NfsOk) == (result is Some)
            && (result matches Some(c) ==> c.verifier@ == d.subrange(b, b + 8)),
        OperationResult::Seek { status, result } => (status == Status::NfsOk) == (result is Some)
            && (result matches Some(k) ==> k.eof == (u32_at(d, b) == 1) && k.offset == u64_at(d, b + 4)),
        OperationResult::ReadLink { status, data } => (status == Status::NfsOk) == (data is Some)
            && (data matches Some(t) ==> t@ == decode_utf8(d.subrange(b + 4, b + 4 + u32_at(d, b)))),
        _ => true,
    }
}

impl Decode for OperationResult {
    /// Reads the operation code and status, then the result body that they
    /// call for; the result answers the operation and carries the status
    /// that the wire names. A failed result that carries nothing more, and
    /// the result of an operation whose body this library does not read,
    /// take exactly the code and the status.
    #[verifier::rlimit(100)]
    #[verifier::spinoff_prover]
    fn decode(decoder: &mut Decoder<'_>) -> (r: core::result::Result<Self, XdrError>)
        ensures
            r matches Ok(res) ==> ({
                let d = old(decoder).input();
                let p = old(decoder).pos();
                &&& p + 8 <= d.len()
                &&& res.spec_op_code() == result_op(u32_at(d, p))
                &&& res.spec_status() == Status::from_code(u32_at(d, p + 4))
                &&& result_body_read(res, d, p)
            }),
            ({
                let d = old(decoder).input();
                let p = old(decoder).pos();
                let op = result_op(u32_at(d, p));
                p + 8 <= d.len() && ((Status::from_code(u32_at(d, p + 4)) != Status::NfsOk && error_result_has_no_body(op))
                    || !has_result_body(op)) ==> r is Ok && final(decoder).pos() == p + 8
            }),
    {
        let raw_op = decoder.read_u32()?;
        let op = match OpCode::from_u32(raw_op) {
            Some(op) => op,
            None => OpCode::Illegal,
        };
        let status = Status::from_u32(decoder.read_u32()?);

        match op {
            OpCode::SetClientId => decode_set_client_id_result(decoder, status),
            OpCode::ExchangeId => decode_exchange_id_result(decoder, status),
            OpCode::CreateSession => decode_create_session_result(decoder, status),
            OpCode::BindConnToSession => decode_bind_conn_to_session_result(decoder, status),
            OpCode::Sequence => decode_sequence_result(decoder, status),
            OpCode::Open => decode_open_result(decoder, status),
            OpCode::OpenConfirm => {
                let stateid = if status.is_ok() {
                    Some(StateId::decode(decoder)?)
                } else {
                    None
                };
                Ok(Self::OpenConfirm { status, stateid })
            }
            OpCode::Close => {
                let stateid = if status.is_ok() {
                    Some(StateId::decode(decoder)?)
                } else {
                    None
                };
                Ok(Self::Close { status, stateid })
            }
            OpCode::Lock => {
                let (stateid, denied) = match status {
                    Status::NfsOk => (Some(StateId::decode(decoder)?), None),
                    Status::Denied => (None, Some(LockDenied::decode(decoder)?)),
                    _ => (None, None),
                };
                Ok(Self::Lock {
                    status,
                    stateid,
                    denied,
                })
            }
            OpCode::Lockt => {
                let denied = if status == Status::Denied {
                    Some(LockDenied::decode(decoder)?)
                } else {
                    None
                };
                Ok(Self::LockTest { status, denied })
            }
            OpCode::Locku => {
                let stateid = if status.is_ok() {
                    Some(StateId::decode(decoder)?)
                } else {
                    None
                };
                Ok(Self::LockUnlock { status, stateid })
            }
            OpCode::OpenDowngrade => {
                let stateid = if status.is_ok() {
                    Some(StateId::decode(decoder)?)
                } else {
                    None
                };
                Ok(Self::OpenDowngrade { status, stateid })
            }
            OpCode::TestStateId => {
                let statuses = if status.is_ok() {
                    let raw = decoder.read_array::<u32>(NFS4_MAX_OPS)?;
                    statuses_from_codes(raw.as_slice())
                } else {
                    Vec::new()
                };
                Ok(Self::TestStateIds { status, statuses })
            }
            OpCode::GetDirDelegation => decode_get_dir_delegation_result(decoder, status),
            OpCode::GetDeviceInfo => decode_get_device_info_result(decoder, status),
            OpCode::GetDeviceList => decode_get_device_list_result(decoder, status),
            OpCode::LayoutCommit => decode_layout_commit_result(decoder, status),
            OpCode::LayoutGet => decode_layout_get_result(decoder, status),
            OpCode::LayoutReturn => decode_layout_return_result(decoder, status),
            OpCode::SetSsv => {
                let result = if status.is_ok() {
                    Some(SetSsvResult {
                        digest: decoder.read_opaque_vec(NFS4_OPAQUE_LIMIT)?,
                    })
                } else {
                    None
                };
                Ok(Self::SetSsv { status, result })
            }
            OpCode::WantDelegation => {
                let delegation = if status.is_ok() {
                    Some(OpenDelegation::decode(decoder)?)
                } else {
                    None
                };
                Ok(Self::WantDelegation { status, delegation })
            }
            OpCode::GetFh => {
                let handle = if status.is_ok() {
                    Some(FileHandle::decode(decoder)?)
                } else {
                    None
                };
                Ok(Self::GetFh { status, handle })
            }
            OpCode::GetAttr => {
                let attrs = if status.is_ok() {
                    Some(Fattr::decode(decoder)?)
                } else {
                    None
                };
                Ok(Self::GetAttr { status, attrs })
            }
            OpCode::Access => {
                let result = if status.is_ok() {
                    Some(AccessResult {
                        supported: decoder.read_u32()?,
                        access: decoder.read_u32()?,
                    })
                } else {
                    None
                };
                Ok(Self::Access { status, result })
            }
            OpCode::SecInfo | OpCode::SecInfoNoName => {
                let flavors = if status.is_ok() {
                    decoder.read_array::<SecInfo>(NFS4_MAX_SECINFO_FLAVORS)?
                } else {
                    Vec::new()
                };
                Ok(Self::SecInfo {
                    op,
                    status,
                    flavors,
                })
            }
            OpCode::Read => {
                if status.is_ok() {
                    let eof = decoder.read_bool()?;
                    let data = decoder.read_opaque_vec(NFS4_MAX_IO)?;
                    Ok(Self::Read { status, eof, data })
                } else {
                    Ok(Self::Read {
                        status,
                        eof: false,
                        data: Vec::new(),
                    })
                }
            }
            OpCode::Write => {
                let result = if status.is_ok() {
                    let count = decoder.read_u32()?;
                    let raw_committed = decoder.read_u32()?;
                    let committed = match StableHow::from_u32(raw_committed) {
                        Some(c) => c,
                        None => return Err(XdrError::InvalidDiscriminant { value: raw_committed }),
                    };
                    Some(WriteResult {
                        count,
                        committed,
                        verifier: decode_verifier(decoder)?,
                    })
                } else {
                    None
                };
                Ok(Self::Write { status, result })
            }
            OpCode::Commit => {
                let result = if status.is_ok() {
                    Some(CommitResult {
                        verifier: decode_verifier(decoder)?,
                    })
                } else {
                    None
                };
                Ok(Self::Commit { status, result })
            }
            OpCode::IoAdvise => {
                let result = if status.is_ok() {
                    Some(IoAdviseResult {
                        hints: Bitmap::decode(decoder)?,
                    })
                } else {
                    None
                };
                Ok(Self::IoAdvise { status, result })
            }
            OpCode::Copy => {
                let result = match status {
                    Status::NfsOk => Some(CopyResult {
                        response: Some(WriteResponse::decode(decoder)?),
                        requirements: Some(CopyRequirements::decode(decoder)?),
                    }),
                    Status::OffloadNoReqs => Some(CopyResult {
                        response: None,
                        requirements: Some(CopyRequirements::decode(decoder)?),
                    }),
                    _ => None,
                };
                Ok(Self::Copy { status, result })
            }
            OpCode::CopyNotify => {
                let result = if status.is_ok() {
                    Some(CopyNotifyResult {
                        lease_time: NfsTime::decode(decoder)?,
                        stateid: StateId::decode(decoder)?,
                        source_servers: decoder.read_array::<NetLoc>(NFS4_MAX_NETLOCATIONS)?,
                    })
                } else {
                    None
                };
                Ok(Self::CopyNotify { status, result })
            }
            OpCode::OffloadStatus => {
                let result = if status.is_ok() {
                    let count = decoder.read_u64()?;
                    let raw = decoder.read_array::<u32>(1)?;
                    let complete = if raw.len() > 0 { Some(Status::from_u32(raw[0])) } else { None };
                    Some(OffloadStatusResult { count, complete })
                } else {
                    None
                };
                Ok(Self::OffloadStatus { status, result })
            }
            OpCode::ReadPlus => {
                let result = if status.is_ok() {
                    Some(ReadPlusResult {
                        eof: bool::decode(decoder)?,
                        contents: decoder
                            .read_array::<ReadPlusContent>(NFS4_MAX_READ_PLUS_SEGMENTS)?,
                    })
                } else {
                    None
                };
                Ok(Self::ReadPlus { status, result })
            }
            OpCode::Seek => {
                let result = if status.is_ok() {
                    let eof = decoder.read_bool()?;
                    let offset = decoder.read_u64()?;
                    Some(SeekResult { eof, offset })
                } else {
                    None
                };
                Ok(Self::Seek { status, result })
            }
            OpCode::WriteSame => {
                let result = if status.is_ok() {
                    Some(WriteResponse::decode(decoder)?)
                } else {
                    None
                };
                Ok(Self::WriteSame { status, result })
            }
            OpCode::SetAttr => {
                if status.is_ok() {
                    Bitmap::decode(decoder)?;
                }
                Ok(Self::StatusOnly { op, status })
            }
            OpCode::Remove => {
                if status.is_ok() {
                    skip_change_info(decoder)?;
                }
                Ok(Self::StatusOnly { op, status })
            }
            OpCode::Link => {
                if status.is_ok() {
                    skip_change_info(decoder)?;
                }
                Ok(Self::StatusOnly { op, status })
            }
            OpCode::Rename => {
                if status.is_ok() {
                    skip_change_info(decoder)?;
                    skip_change_info(decoder)?;
                }
                Ok(Self::StatusOnly { op, status })
            }
            OpCode::Create => {
                if status.is_ok() {
                    skip_change_info(decoder)?;
                    Bitmap::decode(decoder)?;
                }
                Ok(Self::StatusOnly { op, status })
            }
            OpCode::ReadDir => decode_readdir_result(decoder, status),
            OpCode::ReadLink => {
                let data = if status.is_ok() {
                    Some(decoder.read_string(NFS4_OPAQUE_LIMIT)?)
                } else {
                    None
                };
                Ok(Self::ReadLink { status, data })
            }
            _ => Ok(Self::StatusOnly { op, status }),
        }
    }
}

/// One directory entry returned by READDIR.
#[derive(Debug, PartialEq, Eq)]
pub struct DirEntry {
    pub cookie: u64,
    pub name: String,
    pub attrs: Fattr,
}

impl Clone for DirEntry {
    fn clone(&self) -> (r: Self)
        ensures
            r.cookie == self.cookie,
            r.name@ == self.name@,
            r.attrs.attrmask.words_view() == self.attrs.attrmask.words_view(),
            r.attrs.attr_vals@ == self.attrs.attr_vals@,
    {
        DirEntry { cookie: self.cookie, name: self.name.clone(), attrs: self.attrs.clone() }
    }
}

impl DirEntry {
    /// Parses the entry's attributes as basic attributes.
    pub fn basic_attributes(&self) -> (r: Result<BasicAttributes>)
        ensures
            r is Ok ==> forall|a: u32| self.attrs.attrmask.has(a) ==> is_basic_attr(a),
            r matches Ok(p) ==> basic_presence(p, self.attrs.attrmask),
    {
        self.attrs.parse_basic()
    }
}

fn decode_set_client_id_result(
    decoder: &mut Decoder<'_>,
    status: Status,
) -> (r: core::result::Result<OperationResult, XdrError>)
    ensures
        r matches Ok(res) ==> res.spec_op_code() == OpCode::SetClientId && res.spec_status() == status,
        final(decoder).input() == old(decoder).input(),
        old(decoder).pos() <= final(decoder).pos(),
{
    match status {
        Status::NfsOk => Ok(OperationResult::SetClientId {
            status,
            result: Some(SetClientIdResult {
                client_id: decoder.read_u64()?,
                verifier: decode_verifier(decoder)?,
            }),
            client_using: None,
        }),
        Status::ClidInUse => Ok(OperationResult::SetClientId {
            status,
            result: None,
            client_using: Some(NetAddr::decode(decoder)?),
        }),
        _ => Ok(OperationResult::SetClientId {
            status,
            result: None,
            client_using: None,
        }),
    }
}

fn decode_exchange_id_result(
    decoder: &mut Decoder<'_>,
    status: Status,
) -> (r: core::result::Result<OperationResult, XdrError>)
    ensures
        r matches Ok(res) ==> res.spec_op_code() == OpCode::ExchangeId && res.spec_status() == status,
        final(decoder).input() == old(decoder).input(),
        old(decoder).pos() <= final(decoder).pos(),
{
    if !status.is_ok() {
        return Ok(OperationResult::ExchangeId {
            status,
            result: None,
        });
    }

    let result = ExchangeIdResult {
        client_id: decoder.read_u64()?,
        sequence_id: decoder.read_u32()?,
        flags: decoder.read_u32()?,
    };
    skip_state_protect_reply(decoder)?;
    skip_server_owner(decoder)?;
    decoder.read_opaque_vec(NFS4_OPAQUE_LIMIT)?;
    skip_impl_ids(decoder)?;
    Ok(OperationResult::ExchangeId {
        status,
        result: Some(result),
    })
}

fn decode_create_session_result(
    decoder: &mut Decoder<'_>,
    status: Status,
) -> (r: core::result::Result<OperationResult, XdrError>)
    ensures
        r matches Ok(res) ==> res.spec_op_code() == OpCode::CreateSession && res.spec_status() == status,
        final(decoder).input() == old(decoder).input(),
        old(decoder).pos() <= final(decoder).pos(),
{
    if !status.is_ok() {
        return Ok(OperationResult::CreateSession {
            status,
            result: None,
        });
    }

    let result = CreateSessionResult {
        session_id: decode_session_id(decoder)?,
        sequence_id: decoder.read_u32()?,
        flags: decoder.read_u32()?,
        fore_channel_attrs: ChannelAttrs::decode(decoder)?,
        back_channel_attrs: ChannelAttrs::decode(decoder)?,
    };
    Ok(OperationResult::CreateSession {
        status,
        result: Some(result),
    })
}

fn decode_bind_conn_to_session_result(
    decoder: &mut Decoder<'_>,
    status: Status,
) -> (r: core::result::Result<OperationResult, XdrError>)
    ensures
        r matches Ok(res) ==> res.spec_op_code() == OpCode::BindConnToSession && res.spec_status() == status,
        final(decoder).input() == old(decoder).input(),
        old(decoder).pos() <= final(decoder).pos(),
{
    if !status.is_ok() {
        return Ok(OperationResult::BindConnToSession {
            status,
            result: None,
        });
    }

    let session_id = decode_session_id(decoder)?;
    let raw_direction = decoder.read_u32()?;
    let direction = match ChannelDirFromServer::from_u32(raw_direction) {
        Some(d) => d,
        None => return Err(XdrError::InvalidDiscriminant { value: raw_direction }),
    };
    let result = BindConnToSessionResult {
        session_id,
        direction,
        use_conn_in_rdma_mode: bool::decode(decoder)?,
    };
    Ok(OperationResult::BindConnToSession {
        status,
        result: Some(result),
    })
}

fn decode_sequence_result(
    decoder: &mut Decoder<'_>,
    status: Status,
) -> (r: core::result::Result<OperationResult, XdrError>)
    ensures
        r matches Ok(res) ==> res.spec_op_code() == OpCode::Sequence && res.spec_status() == status,
        final(decoder).input() == old(decoder).input(),
        old(decoder).pos() <= final(decoder).pos(),
{
    let result = if status.is_ok() {
        Some(SequenceResult {
            session_id: decode_session_id(decoder)?,
            sequence_id: decoder.read_u32()?,
            slot_id: decoder.read_u32()?,
            highest_slot_id: decoder.read_u32()?,
            target_highest_slot_id: decoder.read_u32()?,
            status_flags: decoder.read_u32()?,
        })
    } else {
        None
    };
    Ok(OperationResult::Sequence { status, result })
}

fn decode_get_dir_delegation_result(
    decoder: &mut Decoder<'_>,
    status: Status,
) -> (r: core::result::Result<OperationResult, XdrError>)
    ensures
        r matches Ok(res) ==> res.spec_op_code() == OpCode::GetDirDelegation && res.spec_status() == status,
        final(decoder).input() == old(decoder).input(),
        old(decoder).pos() <= final(decoder).pos(),
{
    let result = if status.is_ok() {
        match decoder.read_u32()? {
            GDD4_OK => Some(GetDirDelegationResult::Granted {
                cookieverf: decode_verifier(decoder)?,
                stateid: StateId::decode(decoder)?,
                notification: Bitmap::decode(decoder)?,
                child_attributes: Bitmap::decode(decoder)?,
                dir_attributes: Bitmap::decode(decoder)?,
            }),
            GDD4_UNAVAIL => Some(GetDirDelegationResult::Unavailable {
                will_signal_deleg_avail: bool::decode(decoder)?,
            }),
            value => {
                return Err(XdrError::InvalidDiscriminant { value: value });
            }
        }
    } else {
        None
    };
    Ok(OperationResult::GetDirDelegation { status, result })
}

fn decode_get_device_info_result(
    decoder: &mut Decoder<'_>,
    status: Status,
) -> (r: core::result::Result<OperationResult, XdrError>)
    ensures
        r matches Ok(res) ==> res.spec_op_code() == OpCode::GetDeviceInfo && res.spec_status() == status,
        final(decoder).input() == old(decoder).input(),
        old(decoder).pos() <= final(decoder).pos(),
{
    match status {
        Status::NfsOk => Ok(OperationResult::GetDeviceInfo {
            status,
            result: Some(GetDeviceInfoResult {
                device_addr: DeviceAddr::decode(decoder)?,
                notification: Bitmap::decode(decoder)?,
            }),
            min_count: None,
        }),
        Status::TooSmall => Ok(OperationResult::GetDeviceInfo {
            status,
            result: None,
            min_count: Some(decoder.read_u32()?),
        }),
        _ => Ok(OperationResult::GetDeviceInfo {
            status,
            result: None,
            min_count: None,
        }),
    }
}

fn decode_get_device_list_result(
    decoder: &mut Decoder<'_>,
    status: Status,
) -> (r: core::result::Result<OperationResult, XdrError>)
    ensures
        r matches Ok(res) ==> res.spec_op_code() == OpCode::GetDeviceList && res.spec_status() == status,
        final(decoder).input() == old(decoder).input(),
        old(decoder).pos() <= final(decoder).pos(),
{
    let result = if status.is_ok() {
        Some(GetDeviceListResult {
            cookie: decoder.read_u64()?,
            cookieverf: decode_verifier(decoder)?,
            device_ids: decoder.read_array::<DeviceId>(NFS4_MAX_DEVICEIDS)?,
            eof: bool::decode(decoder)?,
        })
    } else {
        None
    };
    Ok(OperationResult::GetDeviceList { status, result })
}

fn decode_layout_commit_result(
    decoder: &mut Decoder<'_>,
    status: Status,
) -> (r: core::result::Result<OperationResult, XdrError>)
    ensures
        r matches Ok(res) ==> res.spec_op_code() == OpCode::LayoutCommit && res.spec_status() == status,
        final(decoder).input() == old(decoder).input(),
        old(decoder).pos() <= final(decoder).pos(),
{
    let result = if status.is_ok() {
        Some(LayoutCommitResult {
            new_size: decoder.read_optional::<u64>()?,
        })
    } else {
        None
    };
    Ok(OperationResult::LayoutCommit { status, result })
}

fn decode_layout_get_result(
    decoder: &mut Decoder<'_>,
    status: Status,
) -> (r: core::result::Result<OperationResult, XdrError>)
    ensures
        r matches Ok(res) ==> res.spec_op_code() == OpCode::LayoutGet && res.spec_status() == status,
        final(decoder).input() == old(decoder).input(),
        old(decoder).pos() <= final(decoder).pos(),
{
    match status {
        Status::NfsOk => Ok(OperationResult::LayoutGet {
            status,
            result: Some(LayoutGetResult {
                return_on_close: bool::decode(decoder)?,
                stateid: StateId::decode(decoder)?,
                layouts: decoder.read_array::<Layout>(NFS4_MAX_LAYOUTS)?,
            }),
            will_signal_layout_avail: None,
        }),
        Status::LayoutTryLater => Ok(OperationResult::LayoutGet {
            status,
            result: None,
            will_signal_layout_avail: Some(bool::decode(decoder)?),
        }),
        _ => Ok(OperationResult::LayoutGet {
            status,
            result: None,
            will_signal_layout_avail: None,
        }),
    }
}

fn decode_layout_return_result(
    decoder: &mut Decoder<'_>,
    status: Status,
) -> (r: core::result::Result<OperationResult, XdrError>)
    ensures
        r matches Ok(res) ==> res.spec_op_code() == OpCode::LayoutReturn && res.spec_status() == status,
        final(decoder).input() == old(decoder).input(),
        old(decoder).pos() <= final(decoder).pos(),
{
    let result = if status.is_ok() {
        Some(LayoutReturnResult {
            stateid: decoder.read_optional::<StateId>()?,
        })
    } else {
        None
    };
    Ok(OperationResult::LayoutReturn { status, result })
}

fn decode_open_result(
    decoder: &mut Decoder<'_>,
    status: Status,
) -> (r: core::result::Result<OperationResult, XdrError>)
    ensures
        r matches Ok(res) ==> res.spec_op_code() == OpCode::Open && res.spec_status() == status,
        final(decoder).input() == old(decoder).input(),
        old(decoder).pos() <= final(decoder).pos(),
{
    if !status.is_ok() {
        return Ok(OperationResult::Open {
            status,
            result: None,
        });
    }

    let stateid = StateId::decode(decoder)?;
    skip_change_info(decoder)?;
    let result_flags = decoder.read_u32()?;
    let attrset = Bitmap::decode(decoder)?;
    let delegation = OpenDelegation::decode(decoder)?;
    Ok(OperationResult::Open {
        status,
        result: Some(OpenResult {
            stateid,
            result_flags,
            attrset,
            delegation,
        }),
    })
}

fn skip_change_info(decoder: &mut Decoder<'_>) -> (r: core::result::Result<(), XdrError>)
    ensures
        final(decoder).input() == old(decoder).input(),
        old(decoder).pos() <= final(decoder).pos(),
{
    decoder.read_bool()?;
    decoder.read_u64()?;
    decoder.read_u64()?;
    Ok(())
}

fn decode_readdir_result(
    decoder: &mut Decoder<'_>,
    status: Status,
) -> (r: core::result::Result<OperationResult, XdrError>)
    ensures
        r matches Ok(res) ==> res.spec_op_code() == OpCode::ReadDir && res.spec_status() == status,
        final(decoder).input() == old(decoder).input(),
        old(decoder).pos() <= final(decoder).pos(),
{
    if !status.is_ok() {
        return Ok(OperationResult::ReadDir {
            status,
            cookieverf: [0; NFS4_VERIFIER_SIZE],
            entries: Vec::new(),
            eof: false,
        });
    }

    let cookieverf = decode_verifier(decoder)?;
    let mut entries: Vec<DirEntry> = Vec::new();
    loop
        invariant
            decoder.input() == old(decoder).input(),
            old(decoder).pos() <= decoder.pos(),
            entries@.len() <= NFS4_MAX_DIR_ENTRIES,
        decreases NFS4_MAX_DIR_ENTRIES - entries@.len(),
    {
        if !decoder.read_bool()? {
            break;
        }
        if entries.len() >= NFS4_MAX_DIR_ENTRIES {
            return Err(XdrError::LengthLimitExceeded {
                len: entries.len() + 1,
                max: NFS4_MAX_DIR_ENTRIES,
            });
        }
        let cookie = decoder.read_u64()?;
        let name = decoder.read_string(NFS4_OPAQUE_LIMIT)?;
        let attrs = Fattr::decode(decoder)?;
        entries.push(DirEntry { cookie, name, attrs });
    }
    let eof = bool::decode(decoder)?;
    Ok(OperationResult::ReadDir {
        status,
        cookieverf,
        entries,
        eof,
    })
}

fn skip_state_protect_reply(decoder: &mut Decoder<'_>) -> (r: core::result::Result<(), XdrError>)
    ensures
        final(decoder).input() == old(decoder).input(),
        old(decoder).pos() <= final(decoder).pos(),
{
    match decoder.read_u32()? {
        0 => Ok(()),
        1 => {
            Bitmap::decode(decoder)?;
            Bitmap::decode(decoder)?;
            Ok(())
        }
        2 => {
            Bitmap::decode(decoder)?;
            Bitmap::decode(decoder)?;
            decoder.read_u32()?;
            decoder.read_u32()?;
            decoder.read_u32()?;
            decoder.read_u32()?;
            let handle_count = decoder.read_u32()? as usize;
            if handle_count > NFS4_MAX_STATE_PROTECT_HANDLES {
                return Err(XdrError::LengthLimitExceeded {
                    len: handle_count,
                    max: NFS4_MAX_STATE_PROTECT_HANDLES,
                });
            }
            let mut i: usize = 0;
            while i < handle_count
                invariant
                    decoder.input() == old(decoder).input(),
                    old(decoder).pos() <= decoder.pos(),
                decreases handle_count - i,
            {
                decoder.read_opaque_vec(NFS4_OPAQUE_LIMIT)?;
                i = i + 1;
            }
            Ok(())
        }
        value => Err(XdrError::InvalidDiscriminant { value: value }),
    }
}

fn skip_server_owner(decoder: &mut Decoder<'_>) -> (r: core::result::Result<(), XdrError>)
    ensures
        final(decoder).input() == old(decoder).input(),
        old(decoder).pos() <= final(decoder).pos(),
{
    decoder.read_u64()?;
    decoder.read_opaque_vec(NFS4_OPAQUE_LIMIT)?;
    Ok(())
}

fn skip_impl_ids(decoder: &mut Decoder<'_>) -> (r: core::result::Result<(), XdrError>)
    ensures
        final(decoder).input() == old(decoder).input(),
        old(decoder).pos() <= final(decoder).pos(),
{
    let count = decoder.read_u32()? as usize;
    if count > 1 {
        return Err(XdrError::LengthLimitExceeded { len: count, max: 1 });
    }
    let mut i: usize = 0;
    while i < count
        invariant
            decoder.input() == old(decoder).input(),
            old(decoder).pos() <= decoder.pos(),
        decreases count - i,
    {
        decoder.read_opaque_vec(NFS4_OPAQUE_LIMIT)?;
        decoder.read_opaque_vec(NFS4_OPAQUE_LIMIT)?;
        decoder.read_i64()?;
        decoder.read_u32()?;
        i = i + 1;
    }
    Ok(())
}

pub fn decode_verifier(decoder: &mut Decoder<'_>) -> (r: core::result::Result<Verifier, XdrError>)
    ensures
        final(decoder).input() == old(decoder).input(),
        old(decoder).pos() <= final(decoder).pos(),
        r is Ok <==> old(decoder).pos() + 8 <= old(decoder).input().len(),
        r matches Ok(v) ==> v@ == old(decoder).input().subrange(old(decoder).pos(), old(decoder).pos() + 8)
            && final(decoder).pos() == old(decoder).pos() + 8,
{
    assert(pad_len(8) == 0);
    decoder.read_fixed_array::<NFS4_VERIFIER_SIZE>()
}

fn decode_session_id(decoder: &mut Decoder<'_>) -> (r: core::result::Result<SessionId, XdrError>)
    ensures
        final(decoder).input() == old(decoder).input(),
        old(decoder).pos() <= final(decoder).pos(),
{
    decoder.read_fixed_array::<NFS4_SESSIONID_SIZE>()
}

/// A READ asks for the range it names: after its operation code (25) and
/// the 16 bytes of its state id, a reader finds the requested offset and
/// then the requested count, and nothing else follows.
#[verifier::rlimit(100)]
#[verifier::spinoff_prover]
pub proof fn law_read_args_carry_offset_and_count(stateid: StateId, offset: u64, count: u32)
    ensures
        ({
            let b = (Operation::Read { stateid, offset, count }).xdr_bytes();
            &&& b.len() == 32
            &&& u32_of_be(b.subrange(0, 4)) == 25
            &&& b.subrange(4, 20) == stateid.xdr_bytes()
            &&& u64_of_be(b.subrange(20, 28)) == offset
            &&& u32_of_be(b.subrange(28, 32)) == count
        }),
{
    let op = Operation::Read { stateid, offset, count };
    let b = op.xdr_bytes();
    let head = be_u32(25) + stateid.xdr_bytes();
    assert(stateid.xdr_bytes().len() == 16);
    assert(b =~= head + be_u64(offset) + be_u32(count));
    law_u32_read_back(Seq::empty(), 25, stateid.xdr_bytes() + be_u64(offset) + be_u32(count));
    assert(Seq::<u8>::empty() + be_u32(25) + (stateid.xdr_bytes() + be_u64(offset) + be_u32(count)) =~= b);
    law_u64_read_back(head, offset, be_u32(count));
    law_u32_read_back(head + be_u64(offset), count, Seq::empty());
    assert(head + be_u64(offset) + be_u32(count) + Seq::<u8>::empty() =~= b);
    assert(b.subrange(4, 20) =~= stateid.xdr_bytes());
}

/// A WRITE puts its data where it names: after its operation code (38) and
/// the 16 bytes of its state id, a reader finds the offset, then the
/// stability code, then the length of the data and the data itself.
#[verifier::rlimit(100)]
#[verifier::spinoff_prover]
pub proof fn law_write_args_carry_offset_and_data(stateid: StateId, offset: u64, stable: StableHow, data: Vec<u8>)
    requires
        data@.len() <= u32::MAX,
    ensures
        ({
            let b = (Operation::Write { stateid, offset, stable, data }).xdr_bytes();
            &&& u32_of_be(b.subrange(0, 4)) == 38
            &&& b.subrange(4, 20) == stateid.xdr_bytes()
            &&& u64_of_be(b.subrange(20, 28)) == offset
            &&& u32_of_be(b.subrange(28, 32)) == stable.code()
            &&& u32_of_be(b.subrange(32, 36)) == data@.len()
            &&& 36 + data@.len() <= b.len()
            &&& b.subrange(36, 36 + data@.len() as int) == data@
        }),
{
    let op = Operation::Write { stateid, offset, stable, data };
    let b = op.xdr_bytes();
    let head = be_u32(38) + stateid.xdr_bytes();
    assert(stateid.xdr_bytes().len() == 16);
    assert(b =~= head + be_u64(offset) + be_u32(stable.code()) + var_opaque(data@));
    law_u32_read_back(Seq::empty(), 38, stateid.xdr_bytes() + be_u64(offset) + be_u32(stable.code()) + var_opaque(data@));
    assert(Seq::<u8>::empty() + be_u32(38) + (stateid.xdr_bytes() + be_u64(offset) + be_u32(stable.code()) + var_opaque(data@)) =~= b);
    law_u64_read_back(head, offset, be_u32(stable.code()) + var_opaque(data@));
    assert(head + be_u64(offset) + (be_u32(stable.code()) + var_opaque(data@)) =~= b);
    law_u32_read_back(head + be_u64(offset), stable.code(), var_opaque(data@));
    law_opaque_read_back(head + be_u64(offset) + be_u32(stable.code()), data@, Seq::empty());
    assert(head + be_u64(offset) + be_u32(stable.code()) + var_opaque(data@) + Seq::<u8>::empty() =~= b);
    assert(b.subrange(4, 20) =~= stateid.xdr_bytes());
}

/// A RENAME names the entry to move first and its new name second: after
/// its operation code (29) a reader finds the old name's UTF-8 bytes, and
/// after their padding the new name's.
#[verifier::rlimit(100)]
#[verifier::spinoff_prover]
pub proof fn law_rename_args_old_then_new(oldname: String, newname: String)
    requires
        text_fits(oldname),
        text_fits(newname),
    ensures
        ({
            let b = (Operation::Rename { oldname, newname }).xdr_bytes();
            let old_bytes = encode_utf8(oldname@);
            let new_bytes = encode_utf8(newname@);
            let q: int = (8 + old_bytes.len() + pad_len(old_bytes.len())) as int;
            &&& u32_of_be(b.subrange(0, 4)) == 29
            &&& u32_of_be(b.subrange(4, 8)) == old_bytes.len()
            &&& b.subrange(8, 8 + old_bytes.len() as int) == old_bytes
            &&& u32_of_be(b.subrange(q, q + 4)) == new_bytes.len()
            &&& q + 4 + new_bytes.len() <= b.len()
            &&& b.subrange(q + 4, q + 4 + new_bytes.len() as int) == new_bytes
        }),
{
    let op = Operation::Rename { oldname, newname };
    let b = op.xdr_bytes();
    let old_bytes = encode_utf8(oldname@);
    let new_bytes = encode_utf8(newname@);
    assert(b =~= be_u32(29) + var_opaque(old_bytes) + var_opaque(new_bytes));
    law_u32_read_back(Seq::empty(), 29, var_opaque(old_bytes) + var_opaque(new_bytes));
    assert(Seq::<u8>::empty() + be_u32(29) + (var_opaque(old_bytes) + var_opaque(new_bytes)) =~= b);
    law_opaque_read_back(be_u32(29), old_bytes, var_opaque(new_bytes));
    assert(be_u32(29) + var_opaque(old_bytes) + var_opaque(new_bytes) =~= b);
    assert(var_opaque(old_bytes).len() == 4 + old_bytes.len() + pad_len(old_bytes.len()));
    law_opaque_read_back(be_u32(29) + var_opaque(old_bytes), new_bytes, Seq::empty());
    assert(be_u32(29) + var_opaque(old_bytes) + var_opaque(new_bytes) + Seq::<u8>::empty() =~= b);
}

/// A LOCK request asks for the range `[offset, offset + length)`: a reader
/// of its arguments finds the lock type, the reclaim flag, then the offset
/// and then the length, followed by the locker.
#[verifier::rlimit(100)]
#[verifier::spinoff_prover]
pub proof fn law_lock_args_range(args: LockArgs)
    ensures
        ({
            let b = args.xdr_bytes();
            &&& u32_of_be(b.subrange(0, 4)) == args.lock_type.code()
            &&& u32_of_be(b.subrange(4, 8)) == (if args.reclaim { 1u32 } else { 0u32 })
            &&& u64_of_be(b.subrange(8, 16)) == args.offset
            &&& u64_of_be(b.subrange(16, 24)) == args.length
            &&& b.subrange(24, b.len() as int) == args.locker.xdr_bytes()
        }),
{
    let b = args.xdr_bytes();
    let t = be_u32(args.lock_type.code());
    let r = be_bool(args.reclaim);
    let o = be_u64(args.offset);
    let l = be_u64(args.length);
    let k = args.locker.xdr_bytes();
    assert(b =~= t + r + o + l + k);
    law_u32_read_back(Seq::empty(), args.lock_type.code(), r + o + l + k);
    assert(Seq::<u8>::empty() + t + (r + o + l + k) =~= b);
    law_u32_read_back(t, if args.reclaim { 1u32 } else { 0u32 }, o + l + k);
    assert(t + r + (o + l + k) =~= b);
    law_u64_read_back(t + r, args.offset, l + k);
    assert(t + r + o + (l + k) =~= b);
    law_u64_read_back(t + r + o, args.length, k);
    assert(b.subrange(24, b.len() as int) =~= k);
}

/// Eight bytes at `p` that are the big-endian bytes of `v` read back as `v`.
proof fn lemma_u64_field(b: Seq<u8>, p: int, v: u64)
    requires
        0 <= p,
        p + 8 <= b.len(),
        b.subrange(p, p + 8) == be_u64(v),
    ensures
        u64_of_be(b.subrange(p, p + 8)) == v,
{
    lemma_u64_roundtrip(v);
}

/// Four bytes at `p` that are the big-endian bytes of `v` read back as `v`.
proof fn lemma_u32_field(b: Seq<u8>, p: int, v: u32)
    requires
        0 <= p,
        p + 4 <= b.len(),
        b.subrange(p, p + 4) == be_u32(v),
    ensures
        u32_of_be(b.subrange(p, p + 4)) == v,
{
    lemma_u32_roundtrip(v);
}

/// A LOCKT request tests the range `[offset, offset + length)`: a reader
/// finds the lock type, then the offset, then the length, then the owner.
#[verifier::rlimit(100)]
#[verifier::spinoff_prover]
pub proof fn law_lock_test_args_range(args: LockTestArgs)
    ensures
        ({
            let b = args.xdr_bytes();
            &&& u32_of_be(b.subrange(0, 4)) == args.lock_type.code()
            &&& u64_of_be(b.subrange(4, 12)) == args.offset
            &&& u64_of_be(b.subrange(12, 20)) == args.length
            &&& b.subrange(20, b.len() as int) == args.owner.xdr_bytes()
        }),
{
    let b = args.xdr_bytes();
    let t = be_u32(args.lock_type.code());
    let o = be_u64(args.offset);
    let l = be_u64(args.length);
    let k = args.owner.xdr_bytes();
    assert(b =~= t + o + l + k);
    assert(b.subrange(0, 4) =~= t);
    assert(b.subrange(4, 12) =~= o);
    assert(b.subrange(12, 20) =~= l);
    assert(b.subrange(20, b.len() as int) =~= k);
    lemma_u32_field(b, 0, args.lock_type.code());
    lemma_u64_field(b, 4, args.offset);
    lemma_u64_field(b, 12, args.length);
}

/// A LOCKU request releases the range `[offset, offset + length)` of the
/// lock state it names: a reader finds the lock type, the seqid, the lock
/// state id, then the offset and then the length.
#[verifier::rlimit(100)]
#[verifier::spinoff_prover]
pub proof fn law_lock_unlock_args_range(args: LockUnlockArgs)
    ensures
        ({
            let b = args.xdr_bytes();
            &&& b.len() == 40
            &&& u32_of_be(b.subrange(0, 4)) == args.lock_type.code()
            &&& u32_of_be(b.subrange(4, 8)) == args.seqid
            &&& b.subrange(8, 24) == args.lock_stateid.xdr_bytes()
            &&& u64_of_be(b.subrange(24, 32)) == args.offset
            &&& u64_of_be(b.subrange(32, 40)) == args.length
        }),
{
    let b = args.xdr_bytes();
    let t = be_u32(args.lock_type.code());
    let q = be_u32(args.seqid);
    let st = args.lock_stateid.xdr_bytes();
    let o = be_u64(args.offset);
    let l = be_u64(args.length);
    assert(st.len() == 16);
    assert(b =~= t + q + st + o + l);
    assert(b.subrange(0, 4) =~= t);
    assert(b.subrange(4, 8) =~= q);
    assert(b.subrange(8, 24) =~= st);
    assert(b.subrange(24, 32) =~= o);
    assert(b.subrange(32, 40) =~= l);
    lemma_u32_field(b, 0, args.lock_type.code());
    lemma_u32_field(b, 4, args.seqid);
    lemma_u64_field(b, 24, args.offset);
    lemma_u64_field(b, 32, args.length);
}

/// A READ_PLUS asks for the range it names: after the state id a reader
/// finds the offset and then the count.
#[verifier::rlimit(100)]
#[verifier::spinoff_prover]
pub proof fn law_read_plus_args_range(args: ReadPlusArgs)
    ensures
        ({
            let b = args.xdr_bytes();
            &&& b.len() == 28
            &&& b.subrange(0, 16) == args.stateid.xdr_bytes()
            &&& u64_of_be(b.subrange(16, 24)) == args.offset
            &&& u32_of_be(b.subrange(24, 28)) == args.count
        }),
{
    let b = args.xdr_bytes();
    let st = args.stateid.xdr_bytes();
    assert(st.len() == 16);
    assert(b =~= st + be_u64(args.offset) + be_u32(args.count));
    assert(b.subrange(0, 16) =~= st);
    assert(b.subrange(16, 24) =~= be_u64(args.offset));
    assert(b.subrange(24, 28) =~= be_u32(args.count));
    lemma_u64_field(b, 16, args.offset);
    lemma_u32_field(b, 24, args.count);
}

/// A COPY reads from the source state's range and writes to the
/// destination's: a reader finds the source state id, the destination state
/// id, the source offset, the destination offset, the count, and the two
/// flags, in that order.
#[verifier::rlimit(100)]
#[verifier::spinoff_prover]
pub proof fn law_copy_args_ranges(args: CopyArgs)
    ensures
        ({
            let b = args.xdr_bytes();
            &&& b.subrange(0, 16) == args.src_stateid.xdr_bytes()
            &&& b.subrange(16, 32) == args.dst_stateid.xdr_bytes()
            &&& u64_of_be(b.subrange(32, 40)) == args.src_offset
            &&& u64_of_be(b.subrange(40, 48)) == args.dst_offset
            &&& u64_of_be(b.subrange(48, 56)) == args.count
            &&& u32_of_be(b.subrange(56, 60)) == (if args.consecutive { 1u32 } else { 0u32 })
            &&& u32_of_be(b.subrange(60, 64)) == (if args.synchronous { 1u32 } else { 0u32 })
        }),
{
    let b = args.xdr_bytes();
    let s1 = args.src_stateid.xdr_bytes();
    let s2 = args.dst_stateid.xdr_bytes();
    let a = be_u64(args.src_offset);
    let d = be_u64(args.dst_offset);
    let c = be_u64(args.count);
    let f1 = be_bool(args.consecutive);
    let f2 = be_bool(args.synchronous);
    let rest = array_bytes(args.source_servers@);
    assert(s1.len() == 16 && s2.len() == 16);
    assert(b =~= s1 + s2 + a + d + c + f1 + f2 + rest);
    assert(b.subrange(0, 16) =~= s1);
    assert(b.subrange(16, 32) =~= s2);
    assert(b.subrange(32, 40) =~= a);
    assert(b.subrange(40, 48) =~= d);
    assert(b.subrange(48, 56) =~= c);
    assert(b.subrange(56, 60) =~= f1);
    assert(b.subrange(60, 64) =~= f2);
    lemma_u64_field(b, 32, args.src_offset);
    lemma_u64_field(b, 40, args.dst_offset);
    lemma_u64_field(b, 48, args.count);
    lemma_u32_field(b, 56, if args.consecutive { 1u32 } else { 0u32 });
    lemma_u32_field(b, 60, if args.synchronous { 1u32 } else { 0u32 });
}

/// A CLONE names the source range and the destination offset: a reader
/// finds the source state id, the destination state id, the source offset,
/// the destination offset and the count, in that order.
#[verifier::rlimit(100)]
#[verifier::spinoff_prover]
pub proof fn law_clone_args_ranges(args: CloneArgs)
    ensures
        ({
            let b = args.xdr_bytes();
            &&& b.len() == 56
            &&& b.subrange(0, 16) == args.src_stateid.xdr_bytes()
            &&& b.subrange(16, 32) == args.dst_stateid.xdr_bytes()
            &&& u64_of_be(b.subrange(32, 40)) == args.src_offset
            &&& u64_of_be(b.subrange(40, 48)) == args.dst_offset
            &&& u64_of_be(b.subrange(48, 56)) == args.count
        }),
{
    let b = args.xdr_bytes();
    let s1 = args.src_stateid.xdr_bytes();
    let s2 = args.dst_stateid.xdr_bytes();
    assert(s1.len() == 16 && s2.len() == 16);
    assert(b =~= s1 + s2 + be_u64(args.src_offset) + be_u64(args.dst_offset) + be_u64(args.count));
    assert(b.subrange(0, 16) =~= s1);
    assert(b.subrange(16, 32) =~= s2);
    assert(b.subrange(32, 40) =~= be_u64(args.src_offset));
    assert(b.subrange(40, 48) =~= be_u64(args.dst_offset));
    assert(b.subrange(48, 56) =~= be_u64(args.count));
    lemma_u64_field(b, 32, args.src_offset);
    lemma_u64_field(b, 40, args.dst_offset);
    lemma_u64_field(b, 48, args.count);
}

/// ALLOCATE and DEALLOCATE act on the range they name: after the operation
/// code (59 or 62) and the state id, a reader finds the offset and then the
/// length.
#[verifier::rlimit(100)]
#[verifier::spinoff_prover]
pub proof fn law_space_args_range(stateid: StateId, offset: u64, length: u64)
    ensures
        ({
            let b = (Operation::Allocate { stateid, offset, length }).xdr_bytes();
            &&& b.len() == 36
            &&& u32_of_be(b.subrange(0, 4)) == 59
            &&& b.subrange(4, 20) == stateid.xdr_bytes()
            &&& u64_of_be(b.subrange(20, 28)) == offset
            &&& u64_of_be(b.subrange(28, 36)) == length
        }),
        ({
            let b = (Operation::Deallocate { stateid, offset, length }).xdr_bytes();
            &&& b.len() == 36
            &&& u32_of_be(b.subrange(0, 4)) == 62
            &&& b.subrange(4, 20) == stateid.xdr_bytes()
            &&& u64_of_be(b.subrange(20, 28)) == offset
            &&& u64_of_be(b.subrange(28, 36)) == length
        }),
{
    let st = stateid.xdr_bytes();
    assert(st.len() == 16);
    let b = (Operation::Allocate { stateid, offset, length }).xdr_bytes();
    assert(b =~= be_u32(59) + st + be_u64(offset) + be_u64(length));
    assert(b.subrange(0, 4) =~= be_u32(59));
    assert(b.subrange(4, 20) =~= st);
    assert(b.subrange(20, 28) =~= be_u64(offset));
    assert(b.subrange(28, 36) =~= be_u64(length));
    lemma_u32_field(b, 0, 59);
    lemma_u64_field(b, 20, offset);
    lemma_u64_field(b, 28, length);
    let d = (Operation::Deallocate { stateid, offset, length }).xdr_bytes();
    assert(d =~= be_u32(62) + st + be_u64(offset) + be_u64(length));
    assert(d.subrange(0, 4) =~= be_u32(62));
    assert(d.subrange(4, 20) =~= st);
    assert(d.subrange(20, 28) =~= be_u64(offset));
    assert(d.subrange(28, 36) =~= be_u64(length));
    lemma_u32_field(d, 0, 62);
    lemma_u64_field(d, 20, offset);
    lemma_u64_field(d, 28, length);
}

/// A COMMIT flushes the range it names: after the operation code (5) a
/// reader finds the offset and then the count.
#[verifier::rlimit(100)]
#[verifier::spinoff_prover]
pub proof fn law_commit_args_range(offset: u64, count: u32)
    ensures
        ({
            let b = (Operation::Commit { offset, count }).xdr_bytes();
            &&& b.len() == 16
            &&& u32_of_be(b.subrange(0, 4)) == 5
            &&& u64_of_be(b.subrange(4, 12)) == offset
            &&& u32_of_be(b.subrange(12, 16)) == count
        }),
{
    let b = (Operation::Commit { offset, count }).xdr_bytes();
    assert(b =~= be_u32(5) + be_u64(offset) + be_u32(count));
    assert(b.subrange(0, 4) =~= be_u32(5));
    assert(b.subrange(4, 12) =~= be_u64(offset));
    assert(b.subrange(12, 16) =~= be_u32(count));
    lemma_u32_field(b, 0, 5);
    lemma_u64_field(b, 4, offset);
    lemma_u32_field(b, 12, count);
}

/// A SEEK starts at the offset it names: after the operation code (69) and
/// the state id, a reader finds the offset and then what to seek.
#[verifier::rlimit(100)]
#[verifier::spinoff_prover]
pub proof fn law_seek_args_offset(stateid: StateId, offset: u64, what: SeekContent)
    ensures
        ({
            let b = (Operation::Seek { stateid, offset, what }).xdr_bytes();
            &&& b.len() == 32
            &&& u32_of_be(b.subrange(0, 4)) == 69
            &&& b.subrange(4, 20) == stateid.xdr_bytes()
            &&& u64_of_be(b.subrange(20, 28)) == offset
            &&& u32_of_be(b.subrange(28, 32)) == what.code()
        }),
{
    let st = stateid.xdr_bytes();
    assert(st.len() == 16);
    let b = (Operation::Seek { stateid, offset, what }).xdr_bytes();
    assert(b =~= be_u32(69) + st + be_u64(offset) + be_u32(what.code()));
    assert(b.subrange(0, 4) =~= be_u32(69));
    assert(b.subrange(4, 20) =~= st);
    assert(b.subrange(20, 28) =~= be_u64(offset));
    assert(b.subrange(28, 32) =~= be_u32(what.code()));
    lemma_u32_field(b, 0, 69);
    lemma_u64_field(b, 20, offset);
    lemma_u32_field(b, 28, what.code());
}

/// A READDIR continues where its cookie says: after the operation code (26)
/// a reader finds the cookie, the cookie verifier, then the directory and
/// reply size limits.
#[verifier::rlimit(100)]
#[verifier::spinoff_prover]
pub proof fn law_readdir_args_cursor(cookie: u64, cookieverf: Verifier, dircount: u32, maxcount: u32, attr_request: Bitmap)
    ensures
        ({
            let b = (Operation::ReadDir { cookie, cookieverf, dircount, maxcount, attr_request }).xdr_bytes();
            &&& u32_of_be(b.subrange(0, 4)) == 26
            &&& u64_of_be(b.subrange(4, 12)) == cookie
            &&& b.subrange(12, 20) == cookieverf@
            &&& u32_of_be(b.subrange(20, 24)) == dircount
            &&& u32_of_be(b.subrange(24, 28)) == maxcount
            &&& b.subrange(28, b.len() as int) == attr_request.xdr_bytes()
        }),
{
    let b = (Operation::ReadDir { cookie, cookieverf, dircount, maxcount, attr_request }).xdr_bytes();
    let v = fixed_opaque(cookieverf@);
    assert(v =~= cookieverf@);
    assert(b =~= be_u32(26) + be_u64(cookie) + v + be_u32(dircount) + be_u32(maxcount) + attr_request.xdr_bytes());
    assert(b.subrange(0, 4) =~= be_u32(26));
    assert(b.subrange(4, 12) =~= be_u64(cookie));
    assert(b.subrange(12, 20) =~= cookieverf@);
    assert(b.subrange(20, 24) =~= be_u32(dircount));
    assert(b.subrange(24, 28) =~= be_u32(maxcount));
    assert(b.subrange(28, b.len() as int) =~= attr_request.xdr_bytes());
    lemma_u32_field(b, 0, 26);
    lemma_u64_field(b, 4, cookie);
    lemma_u32_field(b, 20, dircount);
    lemma_u32_field(b, 24, maxcount);
}

/// Bytes made of an operation code and a variable-length opaque read back
/// as that code, then the opaque's length and bytes.
#[verifier::rlimit(100)]
#[verifier::spinoff_prover]
proof fn lemma_code_then_opaque(code: u32, n: Seq<u8>)
    requires
        n.len() <= u32::MAX,
    ensures
        ({
            let b = be_u32(code) + var_opaque(n);
            &&& u32_of_be(b.subrange(0, 4)) == code
            &&& u32_of_be(b.subrange(4, 8)) == n.len()
            &&& 8 + n.len() <= b.len()
            &&& b.subrange(8, 8 + n.len() as int) == n
        }),
{
    let b = be_u32(code) + var_opaque(n);
    assert(b.subrange(0, 4) =~= be_u32(code));
    lemma_u32_roundtrip(code);
    law_opaque_read_back(be_u32(code), n, Seq::empty());
    assert(be_u32(code) + var_opaque(n) + Seq::<u8>::empty() =~= b);
}

/// REMOVE carries the name it is given: after the operation code (28) a
/// reader finds the length of the name's UTF-8 bytes and then those bytes.
#[verifier::rlimit(100)]
#[verifier::spinoff_prover]
pub proof fn law_remove_args_carry_the_name(name: String)
    requires
        text_fits(name),
    ensures
        ({
            let n = encode_utf8(name@);
            let b = (Operation::Remove(name)).xdr_bytes();
            &&& u32_of_be(b.subrange(0, 4)) == 28 && u32_of_be(b.subrange(4, 8)) == n.len()
            &&& 8 + n.len() <= b.len() && b.subrange(8, 8 + n.len() as int) == n
        }),
{
    let n = encode_utf8(name@);
    assert((Operation::Remove(name)).xdr_bytes() =~= be_u32(28) + var_opaque(n));
    lemma_code_then_opaque(28, n);
}

/// LOOKUP carries the name it is given: after the operation code (15) a
/// reader finds the length of the name's UTF-8 bytes and then those bytes.
#[verifier::rlimit(100)]
#[verifier::spinoff_prover]
pub proof fn law_lookup_args_carry_the_name(name: String)
    requires
        text_fits(name),
    ensures
        ({
            let n = encode_utf8(name@);
            let b = (Operation::Lookup(name)).xdr_bytes();
            &&& u32_of_be(b.subrange(0, 4)) == 15 && u32_of_be(b.subrange(4, 8)) == n.len()
            &&& 8 + n.len() <= b.len() && b.subrange(8, 8 + n.len() as int) == n
        }),
{
    let n = encode_utf8(name@);
    assert((Operation::Lookup(name)).xdr_bytes() =~= be_u32(15) + var_opaque(n));
    lemma_code_then_opaque(15, n);
}

/// LINK carries the new name it is given: after the operation code (11) a
/// reader finds the length of the name's UTF-8 bytes and then those bytes.
#[verifier::rlimit(100)]
#[verifier::spinoff_prover]
pub proof fn law_link_args_carry_the_name(name: String)
    requires
        text_fits(name),
    ensures
        ({
            let n = encode_utf8(name@);
            let b = (Operation::Link(name)).xdr_bytes();
            &&& u32_of_be(b.subrange(0, 4)) == 11 && u32_of_be(b.subrange(4, 8)) == n.len()
            &&& 8 + n.len() <= b.len() && b.subrange(8, 8 + n.len() as int) == n
        }),
{
    let n = encode_utf8(name@);
    assert((Operation::Link(name)).xdr_bytes() =~= be_u32(11) + var_opaque(n));
    lemma_code_then_opaque(11, n);
}

/// A CLOSE closes the state it names under the seqid it is given: after the
/// operation code (4) a reader finds the seqid and then the state id.
#[verifier::rlimit(100)]
#[verifier::spinoff_prover]
pub proof fn law_close_args(seqid: u32, stateid: StateId)
    ensures
        ({
            let b = (Operation::Close { seqid, stateid }).xdr_bytes();
            &&& b.len() == 24
            &&& u32_of_be(b.subrange(0, 4)) == 4
            &&& u32_of_be(b.subrange(4, 8)) == seqid
            &&& b.subrange(8, 24) == stateid.xdr_bytes()
        }),
{
    let st = stateid.xdr_bytes();
    assert(st.len() == 16);
    let b = (Operation::Close { seqid, stateid }).xdr_bytes();
    assert(b =~= be_u32(4) + be_u32(seqid) + st);
    assert(b.subrange(0, 4) =~= be_u32(4));
    assert(b.subrange(4, 8) =~= be_u32(seqid));
    assert(b.subrange(8, 24) =~= st);
    lemma_u32_field(b, 0, 4);
    lemma_u32_field(b, 4, seqid);
}

/// A SEQUENCE names the session, the slot's sequence id, the slot, the
/// highest slot and the caching flag, in that order.
#[verifier::rlimit(100)]
#[verifier::spinoff_prover]
pub proof fn law_sequence_args(args: SequenceArgs)
    ensures
        ({
            let b = args.xdr_bytes();
            &&& b.len() == 32
            &&& b.subrange(0, 16) == args.session_id@
            &&& u32_of_be(b.subrange(16, 20)) == args.sequence_id
            &&& u32_of_be(b.subrange(20, 24)) == args.slot_id
            &&& u32_of_be(b.subrange(24, 28)) == args.highest_slot_id
            &&& u32_of_be(b.subrange(28, 32)) == (if args.cache_this { 1u32 } else { 0u32 })
        }),
{
    let b = args.xdr_bytes();
    let sid = fixed_opaque(args.session_id@);
    assert(sid =~= args.session_id@);
    assert(b =~= sid + be_u32(args.sequence_id) + be_u32(args.slot_id) + be_u32(args.highest_slot_id) + be_bool(args.cache_this));
    assert(b.subrange(0, 16) =~= args.session_id@);
    assert(b.subrange(16, 20) =~= be_u32(args.sequence_id));
    assert(b.subrange(20, 24) =~= be_u32(args.slot_id));
    assert(b.subrange(24, 28) =~= be_u32(args.highest_slot_id));
    assert(b.subrange(28, 32) =~= be_bool(args.cache_this));
    lemma_u32_field(b, 16, args.sequence_id);
    lemma_u32_field(b, 20, args.slot_id);
    lemma_u32_field(b, 24, args.highest_slot_id);
    lemma_u32_field(b, 28, if args.cache_this { 1u32 } else { 0u32 });
}

/// An OPEN starts with the owner's seqid, the access and deny modes asked
/// for, and the open owner: a reader finds the seqid, the share access, the
/// share deny, the owner's client id, then the length and bytes of the
/// owner's name.
#[verifier::rlimit(100)]
#[verifier::spinoff_prover]
pub proof fn law_open_args_head(args: OpenArgs)
    requires
        args.owner.owner@.len() <= u32::MAX,
    ensures
        ({
            let b = args.xdr_bytes();
            let o = args.owner.owner@;
            &&& u32_of_be(b.subrange(0, 4)) == args.seqid
            &&& u32_of_be(b.subrange(4, 8)) == args.share_access
            &&& u32_of_be(b.subrange(8, 12)) == args.share_deny
            &&& u64_of_be(b.subrange(12, 20)) == args.owner.client_id
            &&& u32_of_be(b.subrange(20, 24)) == o.len()
            &&& 24 + o.len() <= b.len()
            &&& b.subrange(24, 24 + o.len() as int) == o
        }),
{
    let b = args.xdr_bytes();
    let o = args.owner.owner@;
    let head = be_u32(args.seqid) + be_u32(args.share_access) + be_u32(args.share_deny) + be_u64(args.owner.client_id);
    let tail = args.openhow.xdr_bytes() + args.claim.xdr_bytes();
    assert(b =~= head + var_opaque(o) + tail);
    assert(b.subrange(0, 4) =~= be_u32(args.seqid));
    assert(b.subrange(4, 8) =~= be_u32(args.share_access));
    assert(b.subrange(8, 12) =~= be_u32(args.share_deny));
    assert(b.subrange(12, 20) =~= be_u64(args.owner.client_id));
    lemma_u32_field(b, 0, args.seqid);
    lemma_u32_field(b, 4, args.share_access);
    lemma_u32_field(b, 8, args.share_deny);
    lemma_u64_field(b, 12, args.owner.client_id);
    law_opaque_read_back(head, o, tail);
}

/// An OPEN by name names the file it opens: its claim is CLAIM_NULL (0)
/// followed by the length and UTF-8 bytes of the name.
#[verifier::rlimit(100)]
#[verifier::spinoff_prover]
pub proof fn law_open_claim_by_name(name: String)
    requires
        text_fits(name),
    ensures
        ({
            let n = encode_utf8(name@);
            let b = (OpenClaim::Null(name)).xdr_bytes();
            &&& u32_of_be(b.subrange(0, 4)) == 0 && u32_of_be(b.subrange(4, 8)) == n.len()
            &&& 8 + n.len() <= b.len() && b.subrange(8, 8 + n.len() as int) == n
        }),
{
    let n = encode_utf8(name@);
    assert((OpenClaim::Null(name)).xdr_bytes() =~= be_u32(0) + var_opaque(n));
    lemma_code_then_opaque(0, n);
}

/// A PUTFH carries the handle it is given: after the operation code (22) a
/// reader finds the handle's length and then its bytes.
#[verifier::rlimit(100)]
#[verifier::spinoff_prover]
pub proof fn law_putfh_args_carry_the_handle(handle: FileHandle)
    requires
        handle.bytes().len() <= NFS4_FHSIZE,
    ensures
        ({
            let h = handle.bytes();
            let b = (Operation::PutFh(handle)).xdr_bytes();
            &&& u32_of_be(b.subrange(0, 4)) == 22 && u32_of_be(b.subrange(4, 8)) == h.len()
            &&& 8 + h.len() <= b.len() && b.subrange(8, 8 + h.len() as int) == h
        }),
{
    let h = handle.bytes();
    assert((Operation::PutFh(handle)).xdr_bytes() =~= be_u32(22) + var_opaque(h));
    lemma_code_then_opaque(22, h);
}

/// An OPEN_DOWNGRADE names the state, the seqid and the new access and
/// deny modes: after the operation code (21) a reader finds the state id,
/// the seqid, the share access and the share deny, in that order.
#[verifier::rlimit(100)]
#[verifier::spinoff_prover]
pub proof fn law_open_downgrade_args(stateid: StateId, seqid: u32, share_access: u32, share_deny: u32)
    ensures
        ({
            let b = (Operation::OpenDowngrade { seqid, stateid, share_access, share_deny }).xdr_bytes();
            &&& b.len() == 32
            &&& u32_of_be(b.subrange(0, 4)) == 21
            &&& b.subrange(4, 20) == stateid.xdr_bytes()
            &&& u32_of_be(b.subrange(20, 24)) == seqid
            &&& u32_of_be(b.subrange(24, 28)) == share_access
            &&& u32_of_be(b.subrange(28, 32)) == share_deny
        }),
{
    let st = stateid.xdr_bytes();
    assert(st.len() == 16);
    let b = (Operation::OpenDowngrade { seqid, stateid, share_access, share_deny }).xdr_bytes();
    assert(b =~= be_u32(21) + st + be_u32(seqid) + be_u32(share_access) + be_u32(share_deny));
    assert(b.subrange(0, 4) =~= be_u32(21));
    assert(b.subrange(4, 20) =~= st);
    assert(b.subrange(20, 24) =~= be_u32(seqid));
    assert(b.subrange(24, 28) =~= be_u32(share_access));
    assert(b.subrange(28, 32) =~= be_u32(share_deny));
    lemma_u32_field(b, 0, 21);
    lemma_u32_field(b, 20, seqid);
    lemma_u32_field(b, 24, share_access);
    lemma_u32_field(b, 28, share_deny);
}

/// A CREATE of a directory names it: a reader finds the directory type (2),
/// then the length and UTF-8 bytes of the new entry's name.
#[verifier::rlimit(100)]
#[verifier::spinoff_prover]
pub proof fn law_create_directory_names_the_entry(name: String, attrs: Fattr)
    requires
        text_fits(name),
    ensures
        ({
            let n = encode_utf8(name@);
            let b = (CreateArgs { kind: CreateKind::Directory, name, attrs }).xdr_bytes();
            &&& u32_of_be(b.subrange(0, 4)) == 2 && u32_of_be(b.subrange(4, 8)) == n.len()
            &&& 8 + n.len() <= b.len() && b.subrange(8, 8 + n.len() as int) == n
        }),
{
    let n = encode_utf8(name@);
    let b = (CreateArgs { kind: CreateKind::Directory, name, attrs }).xdr_bytes();
    let head = be_u32(2) + var_opaque(n);
    assert(b =~= head + attrs.xdr_bytes());
    lemma_code_then_opaque(2, n);
    assert(b.subrange(0, head.len() as int) =~= head);
    assert(b.subrange(0, 4) =~= head.subrange(0, 4));
    assert(b.subrange(4, 8) =~= head.subrange(4, 8));
    assert(b.subrange(8, 8 + n.len() as int) =~= head.subrange(8, 8 + n.len() as int));
}

/// A CREATE of a symbolic link carries the link's target first and the new
/// entry's name second: a reader finds the link type (5), the target's
/// length and UTF-8 bytes, and after their padding the name's.
#[verifier::rlimit(100)]
#[verifier::spinoff_prover]
pub proof fn law_create_symlink_target_then_name(target: String, name: String, attrs: Fattr)
    requires
        text_fits(target),
        text_fits(name),
    ensures
        ({
            let t = encode_utf8(target@);
            let n = encode_utf8(name@);
            let b = (CreateArgs { kind: CreateKind::Symlink(target), name, attrs }).xdr_bytes();
            let q: int = (8 + t.len() + pad_len(t.len())) as int;
            &&& u32_of_be(b.subrange(0, 4)) == 5
            &&& u32_of_be(b.subrange(4, 8)) == t.len()
            &&& b.subrange(8, 8 + t.len() as int) == t
            &&& u32_of_be(b.subrange(q, q + 4)) == n.len()
            &&& q + 4 + n.len() <= b.len()
            &&& b.subrange(q + 4, q + 4 + n.len() as int) == n
        }),
{
    let t = encode_utf8(target@);
    let n = encode_utf8(name@);
    let b = (CreateArgs { kind: CreateKind::Symlink(target), name, attrs }).xdr_bytes();
    assert(b =~= be_u32(5) + var_opaque(t) + var_opaque(n) + attrs.xdr_bytes());
    law_u32_read_back(Seq::empty(), 5, var_opaque(t) + var_opaque(n) + attrs.xdr_bytes());
    assert(Seq::<u8>::empty() + be_u32(5) + (var_opaque(t) + var_opaque(n) + attrs.xdr_bytes()) =~= b);
    law_opaque_read_back(be_u32(5), t, var_opaque(n) + attrs.xdr_bytes());
    assert(be_u32(5) + var_opaque(t) + (var_opaque(n) + attrs.xdr_bytes()) =~= b);
    assert(var_opaque(t).len() == 4 + t.len() + pad_len(t.len()));
    law_opaque_read_back(be_u32(5) + var_opaque(t), n, attrs.xdr_bytes());
}
} // verus!
