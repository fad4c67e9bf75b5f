//! NFSv4 client support.
//!
//! NFSv4 is session-based and uses the server's v4 pseudo-filesystem rather
//! than the NFSv3 MOUNT service. Paths passed to this module are absolute paths
//! in that pseudo-filesystem, for example `/export/file.txt`.
//! The client negotiates NFSv4.2 and falls back to NFSv4.1 when the server
//! does not accept the newer minor version.
use vstd::prelude::*;
use vstd::string::StringSliceAdditionalSpecFns;
use crate::error::{Error, Result, protocol};
use crate::text::{chars_of, push_decimal, push_str};
use crate::v4::proto::{
    NFS4_MAX_IO, NFS4_MINOR_VERSION_LATEST, NFS4_MINOR_VERSION_SESSION_MIN, NFS4_OPAQUE_LIMIT,
};

pub mod proto;
pub mod client;
pub mod blocking;

verus! {

/// An error message: `text`, then a decimal number, then `tail`.
fn message_with_number(text: &str, n: u64, tail: &str) -> (m: String) {
    let mut m = String::new();
    push_str(&mut m, text);
    push_decimal(&mut m, n);
    push_str(&mut m, tail);
    m
}

fn validate_opaque_id(name: &'static str, value: &[u8]) -> (r: Result<()>)
    ensures
        r is Ok <==> value@.len() <= NFS4_OPAQUE_LIMIT,
        r matches Err(e) ==> e is Protocol,
{
    if value.len() > NFS4_OPAQUE_LIMIT {
        let mut m = String::new();
        push_str(&mut m, "NFSv4 ");
        push_str(&mut m, name);
        push_str(&mut m, " length ");
        push_decimal(&mut m, value.len() as u64);
        push_str(&mut m, " exceeds opaque limit 1024");
        return Err(Error::Protocol(m));
    }
    Ok(())
}

/// Checks a client owner id: at most `NFS4_OPAQUE_LIMIT` bytes.
pub fn validate_owner_id(owner_id: &[u8]) -> (r: Result<()>)
    ensures
        r is Ok <==> owner_id@.len() <= NFS4_OPAQUE_LIMIT,
        r matches Err(e) ==> e is Protocol,
{
    validate_opaque_id("owner_id", owner_id)
}

/// Checks an open owner: at most `NFS4_OPAQUE_LIMIT` bytes.
pub fn validate_open_owner(open_owner: &[u8]) -> (r: Result<()>)
    ensures
        r is Ok <==> open_owner@.len() <= NFS4_OPAQUE_LIMIT,
        r matches Err(e) ==> e is Protocol,
{
    validate_opaque_id("open_owner", open_owner)
}

/// Checks a lock owner: at most `NFS4_OPAQUE_LIMIT` bytes.
pub fn validate_lock_owner(lock_owner: &[u8]) -> (r: Result<()>)
    ensures
        r is Ok <==> lock_owner@.len() <= NFS4_OPAQUE_LIMIT,
        r matches Err(e) ==> e is Protocol,
{
    validate_opaque_id("lock_owner", lock_owner)
}

/// Unicode white space (the `White_Space` property), which `str::trim` removes.
pub open spec fn is_white_space(c: char) -> bool {
    ||| '\u{9}' <= c <= '\u{d}'
    ||| c == ' ' || c == '\u{85}' || c == '\u{a0}' || c == '\u{1680}'
    ||| '\u{2000}' <= c <= '\u{200a}'
    ||| c == '\u{2028}' || c == '\u{2029}' || c == '\u{202f}' || c == '\u{205f}' || c == '\u{3000}'
}

/// A string that is empty once white space is trimmed.
pub open spec fn is_blank(s: Seq<char>) -> bool {
    forall|i: int| 0 <= i < s.len() ==> is_white_space(#[trigger] s[i])
}

fn white_space(c: char) -> (r: bool)
    ensures
        r == is_white_space(c),
{
    ('\u{9}' <= c && c <= '\u{d}') || c == ' ' || c == '\u{85}' || c == '\u{a0}' || c == '\u{1680}'
        || ('\u{2000}' <= c && c <= '\u{200a}') || c == '\u{2028}' || c == '\u{2029}' || c == '\u{202f}'
        || c == '\u{205f}' || c == '\u{3000}'
}

/// Checks a server host name: it must hold something besides white space.
pub fn validate_host(host: &str) -> (r: Result<()>)
    ensures
        r is Ok <==> !is_blank(host@),
        r matches Err(e) ==> (e matches Error::InvalidTarget(t) && t@ == host@),
{
    let chars = chars_of(host);
    let mut i: usize = 0;
    while i < chars.len()
        invariant
            i <= chars@.len(),
            chars@ == host@,
            forall|k: int| 0 <= k < i ==> is_white_space(#[trigger] chars@[k]),
        decreases chars@.len() - i,
    {
        if !white_space(chars[i]) {
            return Ok(());
        }
        i = i + 1;
    }
    Err(Error::InvalidTarget(host.to_owned()))
}

/// Checks a TCP port: zero is refused.
pub fn validate_port(name: &'static str, port: u16) -> (r: Result<()>)
    ensures
        r is Ok <==> port != 0,
        r matches Err(e) ==> e is Protocol,
{
    if port == 0 {
        let mut m = String::new();
        push_str(&mut m, name);
        push_str(&mut m, " must be non-zero");
        return Err(Error::Protocol(m));
    }
    Ok(())
}

/// Checks a transfer size: between one byte and `NFS4_MAX_IO`.
pub fn validate_transfer_size(name: &'static str, size: u32) -> (r: Result<()>)
    ensures
        r is Ok <==> 1 <= size <= NFS4_MAX_IO,
        r matches Err(e) ==> e is Protocol,
{
    if size == 0 || size as usize > NFS4_MAX_IO {
        let mut m = String::new();
        push_str(&mut m, name);
        push_str(&mut m, " must be in 1..=67108864 bytes");
        return Err(Error::Protocol(m));
    }
    Ok(())
}

/// Checks a directory entry limit: zero is refused.
pub fn validate_max_dir_entries(max_dir_entries: usize) -> (r: Result<()>)
    ensures
        r is Ok <==> max_dir_entries > 0,
        r matches Err(e) ==> e is Protocol,
{
    if max_dir_entries == 0 {
        return Err(protocol("max_dir_entries must be greater than zero"));
    }
    Ok(())
}

/// Checks a minor version: only the session minor versions are supported.
pub fn validate_minor_version(name: &'static str, minor_version: u32) -> (r: Result<()>)
    ensures
        r is Ok <==> NFS4_MINOR_VERSION_SESSION_MIN <= minor_version <= NFS4_MINOR_VERSION_LATEST,
        r matches Err(e) ==> e is Protocol,
{
    if minor_version < NFS4_MINOR_VERSION_SESSION_MIN || minor_version > NFS4_MINOR_VERSION_LATEST {
        let mut m = String::new();
        push_str(&mut m, name);
        push_str(&mut m, " must be in 1..=2");
        return Err(Error::Protocol(m));
    }
    Ok(())
}

/// The minor versions to try, from `max_minor_version` down to the lowest
/// session minor version.
pub open spec fn spec_negotiated_minor_versions(max_minor_version: u32) -> Seq<u32> {
    if max_minor_version < NFS4_MINOR_VERSION_SESSION_MIN {
        Seq::empty()
    } else {
        Seq::new(
            (max_minor_version - NFS4_MINOR_VERSION_SESSION_MIN + 1) as nat,
            |i: int| (max_minor_version - i) as u32,
        )
    }
}

/// The minor versions to try when connecting, highest first.
pub fn negotiated_minor_versions(max_minor_version: u32) -> (v: Vec<u32>)
    ensures
        v@ == spec_negotiated_minor_versions(max_minor_version),
{
    let mut v: Vec<u32> = Vec::new();
    let mut m = max_minor_version;
    while m >= NFS4_MINOR_VERSION_SESSION_MIN
        invariant
            m <= max_minor_version,
            v@.len() == max_minor_version - m,
            forall|i: int| 0 <= i < v@.len() ==> #[trigger] v@[i] == max_minor_version - i,
        decreases m,
    {
        v.push(m);
        m = m - 1;
    }
    assert(v@ =~= spec_negotiated_minor_versions(max_minor_version));
    v
}

/// Refuses an operation that needs a higher minor version than was negotiated.
pub fn require_minor_version(operation: &'static str, negotiated: u32, required: u32) -> (r: Result<()>)
    ensures
        r is Ok <==> negotiated >= required,
        r matches Err(e) ==> e is Protocol,
{
    if negotiated >= required {
        Ok(())
    } else {
        let mut m = String::new();
        push_str(&mut m, "NFSv4 operation ");
        push_str(&mut m, operation);
        let tail = message_with_number(" requires minor version ", required as u64, "");
        push_str(&mut m, tail.as_str());
        Err(Error::Protocol(m))
    }
}

/// The transfer size to use: the configured limit, lowered to a nonzero
/// limit the server advertises, and never below one byte.
pub open spec fn spec_clamp_io_size(server_max: Option<u64>, configured_limit: u32) -> u32 {
    match server_max {
        None => configured_limit,
        Some(max) => if max == 0 {
            configured_limit
        } else if (configured_limit as u64) <= max {
            if configured_limit == 0 { 1 } else { configured_limit }
        } else {
            if max == 0 { 1 } else { max as u32 }
        },
    }
}

/// Clamps a transfer size to the server's advertised limit.
pub fn clamp_io_size(server_max: Option<u64>, configured_limit: u32) -> (r: u32)
    ensures
        r == spec_clamp_io_size(server_max, configured_limit),
{
    match server_max {
        None => configured_limit,
        Some(max) => {
            if max == 0 {
                configured_limit
            } else {
                let lower = if (configured_limit as u64) <= max { configured_limit as u64 } else { max };
                if lower < 1 { 1 } else { lower as u32 }
            }
        },
    }
}

/// FNV-1a offset basis.
pub const FNV_OFFSET: u64 = 0xcbf2_9ce4_8422_2325;
/// FNV-1a prime.
pub const FNV_PRIME: u64 = 0x0000_0100_0000_01b3;

/// The 64-bit FNV-1a hash of `bytes`.
pub open spec fn spec_fnv1a64(bytes: Seq<u8>) -> u64
    decreases bytes.len(),
{
    if bytes.len() == 0 {
        FNV_OFFSET
    } else {
        vstd::wrapping::u64_specs::wrapping_mul(spec_fnv1a64(bytes.drop_last()) ^ (bytes.last() as u64), FNV_PRIME)
    }
}

/// Computes the 64-bit FNV-1a hash of `bytes`.
pub fn fnv1a64(bytes: &[u8]) -> (h: u64)
    ensures
        h == spec_fnv1a64(bytes@),
{
    let mut h: u64 = FNV_OFFSET;
    let mut i: usize = 0;
    while i < bytes.len()
        invariant
            i <= bytes@.len(),
            h == spec_fnv1a64(bytes@.take(i as int)),
        decreases bytes@.len() - i,
    {
        assert(bytes@.take(i + 1).drop_last() =~= bytes@.take(i as int));
        h = (h ^ (bytes[i] as u64)).wrapping_mul(FNV_PRIME);
        i = i + 1;
    }
    assert(bytes@.take(bytes@.len() as int) =~= bytes@);
    h
}

/// The ASCII digit for a value below 16, lowercase for the letters.
pub open spec fn hex_digit_byte(d: int) -> u8 {
    if d < 10 { (48 + d) as u8 } else { (87 + d) as u8 }
}

/// Decimal digits of `n` as ASCII bytes, without leading zeros.
pub open spec fn decimal_bytes(n: nat) -> Seq<u8>
    decreases n,
{
    if n < 10 {
        seq![(48 + n) as u8]
    } else {
        decimal_bytes(n / 10).push((48 + n % 10) as u8)
    }
}

/// Sixteen lowercase hexadecimal digits of `v` as ASCII bytes.
pub open spec fn hex16_bytes(v: u64) -> Seq<u8> {
    Seq::new(16, |i: int| hex_digit_byte(((v >> ((60 - 4 * i) as u64)) & 0xfu64) as int))
}

/// A generated owner id: `nfs-rs:{kind}:{fnv1a64(host) in hex}:{process}:{nanos}:{counter}`.
pub open spec fn spec_opaque_id(kind: Seq<u8>, host: Seq<u8>, process_id: u32, unix_nanos: u128, counter: u64) -> Seq<u8> {
    seq![110u8, 102u8, 115u8, 45u8, 114u8, 115u8, 58u8] + kind + seq![58u8]
        + hex16_bytes(spec_fnv1a64(host)) + seq![58u8]
        + decimal_bytes(process_id as nat) + seq![58u8]
        + decimal_bytes(unix_nanos as nat) + seq![58u8]
        + decimal_bytes(counter as nat)
}

/// `10^k`.
pub open spec fn ten_pow(k: nat) -> nat
    decreases k,
{
    if k == 0 { 1 } else { 10 * ten_pow((k - 1) as nat) }
}

/// A number below `10^k` has at most `k` decimal digits.
proof fn lemma_decimal_bytes_len(n: nat, k: nat)
    requires
        n < ten_pow(k),
        k >= 1,
    ensures
        decimal_bytes(n).len() <= k,
    decreases k,
{
    if n >= 10 {
        let k1 = (k - 1) as nat;
        if k1 == 0 {
            assert(ten_pow(1) == 10) by { reveal_with_fuel(ten_pow, 2); }
        } else {
            assert(n / 10 < ten_pow(k1));
            lemma_decimal_bytes_len(n / 10, k1);
        }
    }
}

fn push_decimal_bytes(v: &mut Vec<u8>, n: u128)
    ensures
        final(v)@ == old(v)@ + decimal_bytes(n as nat),
    decreases n,
{
    if n >= 10 {
        push_decimal_bytes(v, n / 10);
    }
    v.push((48 + n % 10) as u8);
    assert(final(v)@ =~= old(v)@ + decimal_bytes(n as nat));
}

fn push_hex16_bytes(v: &mut Vec<u8>, x: u64)
    ensures
        final(v)@ == old(v)@ + hex16_bytes(x),
{
    let mut i: u64 = 0;
    while i < 16
        invariant
            i <= 16,
            v@ == old(v)@ + hex16_bytes(x).take(i as int),
        decreases 16 - i,
    {
        let shift: u64 = 60 - 4 * i;
        let d = (x >> shift) & 0xf;
        assert(((x >> shift) & 0xf) < 16) by (bit_vector);
        let b: u8 = if d < 10 { (48 + d) as u8 } else { (87 + d) as u8 };
        v.push(b);
        assert(hex16_bytes(x).take(i + 1) =~= hex16_bytes(x).take(i as int).push(hex_digit_byte(d as int)));
        i = i + 1;
    }
    assert(hex16_bytes(x).take(16) =~= hex16_bytes(x));
}

/// What a generated owner id is for.
#[derive(Debug, Clone, Copy, PartialEq, Eq, Structural)]
pub enum OwnerKind {
    /// A client owner, sent with EXCHANGE_ID.
    Client,
    /// An open owner, sent with OPEN.
    Open,
    /// A lock owner, sent with LOCK.
    Lock,
}

/// The ASCII name of an owner kind: `client`, `open` or `lock`.
pub open spec fn kind_bytes(kind: OwnerKind) -> Seq<u8> {
    match kind {
        OwnerKind::Client => seq![99u8, 108u8, 105u8, 101u8, 110u8, 116u8],
        OwnerKind::Open => seq![111u8, 112u8, 101u8, 110u8],
        OwnerKind::Lock => seq![108u8, 111u8, 99u8, 107u8],
    }
}

fn push_kind(v: &mut Vec<u8>, kind: OwnerKind)
    ensures
        final(v)@ == old(v)@ + kind_bytes(kind),
{
    match kind {
        OwnerKind::Client => {
            v.push(99u8); v.push(108u8); v.push(105u8); v.push(101u8); v.push(110u8); v.push(116u8);
        },
        OwnerKind::Open => {
            v.push(111u8); v.push(112u8); v.push(101u8); v.push(110u8);
        },
        OwnerKind::Lock => {
            v.push(108u8); v.push(111u8); v.push(99u8); v.push(107u8);
        },
    }
    assert(final(v)@ =~= old(v)@ + kind_bytes(kind));
}

/// Builds an owner id from its parts. The process id, the clock reading
/// and the counter make ids of one host distinct.
pub fn default_opaque_id(kind: OwnerKind, host: &str, process_id: u32, unix_nanos: u128, counter: u64) -> (id: Vec<u8>)
    ensures
        id@ == spec_opaque_id(kind_bytes(kind), host.spec_bytes(), process_id, unix_nanos, counter),
{
    let mut id: Vec<u8> = Vec::new();
    id.push(110u8); id.push(102u8); id.push(115u8); id.push(45u8); id.push(114u8); id.push(115u8); id.push(58u8);
    push_kind(&mut id, kind);
    id.push(58u8);
    push_hex16_bytes(&mut id, fnv1a64(host.as_bytes()));
    id.push(58u8);
    push_decimal_bytes(&mut id, process_id as u128);
    id.push(58u8);
    push_decimal_bytes(&mut id, unix_nanos);
    id.push(58u8);
    push_decimal_bytes(&mut id, counter as u128);
    assert(id@ =~= spec_opaque_id(kind_bytes(kind), host.spec_bytes(), process_id, unix_nanos, counter));
    id
}

/// A generated owner id fits an NFSv4 opaque field whenever its kind is
/// short, whatever the host, process, clock reading and counter.
pub proof fn law_opaque_id_fits(kind: Seq<u8>, host: Seq<u8>, process_id: u32, unix_nanos: u128, counter: u64)
    requires
        kind.len() <= 64,
    ensures
        spec_opaque_id(kind, host, process_id, unix_nanos, counter).len() <= NFS4_OPAQUE_LIMIT,
{
    reveal_with_fuel(ten_pow, 40);
    assert(ten_pow(10) == 10000000000nat);
    assert(ten_pow(20) == 100000000000000000000nat);
    assert(ten_pow(39) == 1000000000000000000000000000000000000000nat);
    lemma_decimal_bytes_len(process_id as nat, 10);
    lemma_decimal_bytes_len(counter as nat, 20);
    lemma_decimal_bytes_len(unix_nanos as nat, 39);
}

/// Decimal digits tell numbers apart.
proof fn lemma_decimal_bytes_injective(a: nat, b: nat)
    requires
        decimal_bytes(a) == decimal_bytes(b),
    ensures
        a == b,
    decreases a,
{
    let da = a % 10;
    let db = b % 10;
    if a >= 10 {
        lemma_decimal_bytes_nonempty(a / 10);
        assert(decimal_bytes(a).len() == decimal_bytes(a / 10).len() + 1);
    }
    if b >= 10 {
        lemma_decimal_bytes_nonempty(b / 10);
        assert(decimal_bytes(b).len() == decimal_bytes(b / 10).len() + 1);
    }
    if a >= 10 && b >= 10 {
        assert(decimal_bytes(a).last() == ((48 + da) as u8));
        assert(decimal_bytes(b).last() == ((48 + db) as u8));
        assert(decimal_bytes(a / 10) =~= decimal_bytes(a).drop_last());
        assert(decimal_bytes(b / 10) =~= decimal_bytes(b).drop_last());
        lemma_decimal_bytes_injective(a / 10, b / 10);
        assert(a == b) by (nonlinear_arith)
            requires a / 10 == b / 10, a % 10 == b % 10;
    } else if a < 10 && b < 10 {
        assert(decimal_bytes(a)[0] == (48 + a) as u8);
        assert(decimal_bytes(b)[0] == (48 + b) as u8);
    }
}

proof fn lemma_decimal_bytes_nonempty(n: nat)
    ensures
        decimal_bytes(n).len() >= 1,
    decreases n,
{
    if n >= 10 {
        lemma_decimal_bytes_nonempty(n / 10);
    }
}

/// Every byte of a decimal number is an ASCII digit.
proof fn lemma_decimal_bytes_digits(n: nat)
    ensures
        forall|i: int| 0 <= i < decimal_bytes(n).len() ==> 48 <= #[trigger] decimal_bytes(n)[i] <= 57,
        decimal_bytes(n).len() >= 1,
    decreases n,
{
    if n >= 10 {
        lemma_decimal_bytes_digits(n / 10);
    }
}

/// Owner ids made for the same kind, host and process but with different
/// counters differ, whatever the clock read when each was made, so one
/// process never reuses an owner.
pub proof fn law_opaque_ids_distinct(kind: Seq<u8>, host: Seq<u8>, process_id: u32, nanos1: u128, nanos2: u128, c1: u64, c2: u64)
    requires
        c1 != c2,
    ensures
        spec_opaque_id(kind, host, process_id, nanos1, c1) != spec_opaque_id(kind, host, process_id, nanos2, c2),
{
    let base = seq![110u8, 102u8, 115u8, 45u8, 114u8, 115u8, 58u8] + kind + seq![58u8]
        + hex16_bytes(spec_fnv1a64(host)) + seq![58u8]
        + decimal_bytes(process_id as nat) + seq![58u8];
    let p1 = base + decimal_bytes(nanos1 as nat) + seq![58u8];
    let p2 = base + decimal_bytes(nanos2 as nat) + seq![58u8];
    let d1 = decimal_bytes(c1 as nat);
    let d2 = decimal_bytes(c2 as nat);
    let a = spec_opaque_id(kind, host, process_id, nanos1, c1);
    let b = spec_opaque_id(kind, host, process_id, nanos2, c2);
    assert(a =~= p1 + d1);
    assert(b =~= p2 + d2);
    lemma_decimal_bytes_digits(c1 as nat);
    lemma_decimal_bytes_digits(c2 as nat);
    if a == b {
        if d1.len() < d2.len() {
            let k = a.len() - d1.len() - 1;
            assert(a[k] == 58u8);
            assert(b[k] == d2[k - p2.len()]);
        } else if d2.len() < d1.len() {
            let k = b.len() - d2.len() - 1;
            assert(b[k] == 58u8);
            assert(a[k] == d1[k - p1.len()]);
        } else {
            assert(d1 =~= a.subrange(a.len() - d1.len(), a.len() as int));
            assert(d2 =~= b.subrange(b.len() - d2.len(), b.len() as int));
            lemma_decimal_bytes_injective(c1 as nat, c2 as nat);
        }
    }
}

/// The default client owner id for `host`.
pub fn default_owner_id(host: &str, process_id: u32, unix_nanos: u128, counter: u64) -> (id: Vec<u8>)
    ensures
        id@ == spec_opaque_id(kind_bytes(OwnerKind::Client), host.spec_bytes(), process_id, unix_nanos, counter),
        id@.len() <= NFS4_OPAQUE_LIMIT,
{
    proof {
        law_opaque_id_fits(kind_bytes(OwnerKind::Client), host.spec_bytes(), process_id, unix_nanos, counter);
    }
    default_opaque_id(OwnerKind::Client, host, process_id, unix_nanos, counter)
}

/// The default open owner for `host`.
pub fn default_open_owner(host: &str, process_id: u32, unix_nanos: u128, counter: u64) -> (id: Vec<u8>)
    ensures
        id@ == spec_opaque_id(kind_bytes(OwnerKind::Open), host.spec_bytes(), process_id, unix_nanos, counter),
        id@.len() <= NFS4_OPAQUE_LIMIT,
{
    proof {
        law_opaque_id_fits(kind_bytes(OwnerKind::Open), host.spec_bytes(), process_id, unix_nanos, counter);
    }
    default_opaque_id(OwnerKind::Open, host, process_id, unix_nanos, counter)
}

/// The default lock owner for `host`.
pub fn default_lock_owner(host: &str, process_id: u32, unix_nanos: u128, counter: u64) -> (id: Vec<u8>)
    ensures
        id@ == spec_opaque_id(kind_bytes(OwnerKind::Lock), host.spec_bytes(), process_id, unix_nanos, counter),
        id@.len() <= NFS4_OPAQUE_LIMIT,
{
    proof {
        law_opaque_id_fits(kind_bytes(OwnerKind::Lock), host.spec_bytes(), process_id, unix_nanos, counter);
    }
    default_opaque_id(OwnerKind::Lock, host, process_id, unix_nanos, counter)
}

} // verus!
