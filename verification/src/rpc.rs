//! ONC RPC (RFC 5531) messages over TCP: AUTH_SYS credentials, call
//! messages, reply checks and record marking.
use vstd::prelude::*;
use crate::error::{Error, Result, protocol};
use crate::xdr::{Decoder, Encode, Encoder, XdrError, be_u32, u32_of_be, pad_len, var_opaque, u32_array_body};
use vstd::utf8::encode_utf8;

verus! {

broadcast use crate::xdr::group_prefix;

/// Longest machine name an AUTH_SYS credential may carry.
pub const AUTH_SYS_MAX_MACHINE_NAME: usize = 255;
/// Most supplementary groups an AUTH_SYS credential may carry.
pub const AUTH_SYS_MAX_GIDS: usize = 16;

/// Room left in a record for the RPC and COMPOUND framing around a payload.
pub const RPC_RECORD_OVERHEAD: usize = 64 * 1024;

/// The record size a connection must accept to carry payloads of the given
/// sizes: the largest payload plus the framing around it.
pub fn max_record_size_for_payloads(sizes: &[u32]) -> (n: usize)
    ensures
        forall|i: int| 0 <= i < sizes@.len() ==> sizes@[i] + RPC_RECORD_OVERHEAD <= n || n == usize::MAX,
        n >= RPC_RECORD_OVERHEAD,
{
    let mut largest: u32 = 0;
    let mut i: usize = 0;
    while i < sizes.len()
        invariant
            i <= sizes@.len(),
            forall|k: int| 0 <= k < i ==> sizes@[k] <= largest,
        decreases sizes@.len() - i,
    {
        if sizes[i] > largest {
            largest = sizes[i];
        }
        i = i + 1;
    }
    let l = largest as usize;
    if l > usize::MAX - RPC_RECORD_OVERHEAD {
        usize::MAX
    } else {
        l + RPC_RECORD_OVERHEAD
    }
}

/// AUTH_SYS (RFC 5531) credentials.
#[derive(Debug, Clone, PartialEq, Eq)]
pub struct AuthSys {
    /// Arbitrary id chosen by the caller.
    pub stamp: u32,
    /// Name of the caller's machine.
    pub machine_name: String,
    /// Effective user id.
    pub uid: u32,
    /// Effective group id.
    pub gid: u32,
    /// Supplementary group ids.
    pub gids: Vec<u32>,
}

impl AuthSys {
    /// Credentials for the given user and groups, with the given machine name.
    pub fn new(machine_name: String, uid: u32, gid: u32, gids: Vec<u32>) -> (a: AuthSys)
        ensures
            a.stamp == 0,
            a.machine_name == machine_name,
            a.uid == uid,
            a.gid == gid,
            a.gids == gids,
    {
        AuthSys { stamp: 0, machine_name, uid, gid, gids }
    }
}

impl Encode for AuthSys {
    open spec fn xdr_bytes(&self) -> Seq<u8> {
        be_u32(self.stamp) + var_opaque(encode_utf8(self.machine_name@)) + be_u32(self.uid) + be_u32(self.gid)
            + be_u32(self.gids@.len() as u32) + u32_array_body(self.gids@)
    }

    open spec fn xdr_encodable(&self) -> bool {
        encode_utf8(self.machine_name@).len() <= AUTH_SYS_MAX_MACHINE_NAME && self.gids@.len() <= AUTH_SYS_MAX_GIDS
    }

    fn encode(&self, encoder: &mut Encoder) -> (r: core::result::Result<(), XdrError>) {
        encoder.write_u32(self.stamp);
        encoder.write_string(self.machine_name.as_str(), AUTH_SYS_MAX_MACHINE_NAME)?;
        encoder.write_u32(self.uid);
        encoder.write_u32(self.gid);
        let r = encoder.write_u32_array(self.gids.as_slice(), AUTH_SYS_MAX_GIDS);
        assert(r is Ok ==> encoder@ =~= old(encoder)@ + self.xdr_bytes());
        r
    }
}


/// ONC RPC protocol version.
pub const RPC_VERSION: u32 = 2;
/// Message type of a call.
pub const RPC_CALL: u32 = 0;
/// Message type of a reply.
pub const RPC_REPLY: u32 = 1;
/// Reply status of an accepted call.
pub const RPC_MSG_ACCEPTED: u32 = 0;
/// Accept status of a call that ran.
pub const RPC_SUCCESS: u32 = 0;
/// Credential flavor of AUTH_NONE.
pub const RPC_AUTH_NONE: u32 = 0;
/// Credential flavor of AUTH_SYS.
pub const RPC_AUTH_SYS: u32 = 1;
/// Longest opaque authentication body.
pub const RPC_MAX_AUTH_BYTES: usize = 400;
/// Record-marking bit of the last fragment of a record.
pub const RPC_LAST_FRAGMENT: u32 = 0x8000_0000;
/// Longest fragment a record marker can announce.
pub const RPC_MAX_FRAGMENT: u32 = 0x7fff_ffff;

/// The fixed words that open a call message: xid, CALL, RPC version 2,
/// program, version and procedure.
pub open spec fn call_header(xid: u32, program: u32, version: u32, procedure: u32) -> Seq<u8> {
    be_u32(xid) + be_u32(RPC_CALL) + be_u32(RPC_VERSION) + be_u32(program) + be_u32(version) + be_u32(procedure)
}

/// A call message: the header, AUTH_SYS credentials holding `credentials`,
/// an empty AUTH_NONE verifier, then the procedure's arguments.
pub open spec fn call_message(xid: u32, program: u32, version: u32, procedure: u32, credentials: Seq<u8>, args: Seq<u8>) -> Seq<u8> {
    call_header(xid, program, version, procedure) + be_u32(RPC_AUTH_SYS) + var_opaque(credentials)
        + be_u32(RPC_AUTH_NONE) + be_u32(0) + args
}

/// Encodes a call message with AUTH_SYS credentials and an AUTH_NONE
/// verifier, followed by the procedure's XDR-encoded arguments.
pub fn encode_call(xid: u32, program: u32, version: u32, procedure: u32, auth: &AuthSys, args: &[u8]) -> (r: Result<Vec<u8>>)
    ensures
        r is Ok <==> auth.xdr_encodable() && auth.xdr_bytes().len() <= RPC_MAX_AUTH_BYTES,
        r matches Ok(m) ==> m@ == call_message(xid, program, version, procedure, auth.xdr_bytes(), args@),
        r matches Ok(m) ==> m@.len() >= 24 + args@.len()
            && m@.subrange(0, 24) == call_header(xid, program, version, procedure)
            && m@.subrange(m@.len() - args@.len(), m@.len() as int) == args@,
        r matches Err(e) ==> e is Xdr,
{
    let mut credentials = Encoder::new();
    if let Err(e) = auth.encode(&mut credentials) {
        return Err(crate::error::xdr_error(e));
    }
    let credentials = credentials.into_bytes();
    let mut message = Encoder::new();
    message.write_u32(xid);
    message.write_u32(RPC_CALL);
    message.write_u32(RPC_VERSION);
    message.write_u32(program);
    message.write_u32(version);
    message.write_u32(procedure);
    let ghost header = message@;
    assert(header =~= call_header(xid, program, version, procedure));
    message.write_u32(RPC_AUTH_SYS);
    if let Err(e) = message.write_opaque(credentials.as_slice(), RPC_MAX_AUTH_BYTES) {
        return Err(crate::error::xdr_error(e));
    }
    message.write_u32(RPC_AUTH_NONE);
    message.write_u32(0);
    let ghost before_args = message@;
    let mut bytes = message.into_bytes();
    let mut i: usize = 0;
    while i < args.len()
        invariant
            i <= args@.len(),
            bytes@ == before_args + args@.take(i as int),
        decreases args@.len() - i,
    {
        bytes.push(args[i]);
        assert(args@.take(i + 1) =~= args@.take(i as int).push(args@[i as int]));
        i = i + 1;
    }
    proof {
        assert(args@.take(args@.len() as int) =~= args@);
        assert(bytes@ =~= call_message(xid, program, version, procedure, auth.xdr_bytes(), args@));
        assert(header.is_prefix_of(before_args));
        assert(bytes@.subrange(0, 24) =~= header);
        assert(bytes@.subrange(bytes@.len() - args@.len(), bytes@.len() as int) =~= args@);
    }
    Ok(bytes)
}

/// The record marker of a fragment of `len` bytes.
pub open spec fn spec_record_marker(len: u32, last: bool) -> Seq<u8> {
    be_u32(if last { RPC_LAST_FRAGMENT | len } else { len })
}

/// The four-byte marker that announces a fragment of `len` bytes.
pub fn record_marker(len: u32, last: bool) -> (b: [u8; 4])
    requires
        len <= RPC_MAX_FRAGMENT,
    ensures
        b@ == spec_record_marker(len, last),
{
    let word = if last { RPC_LAST_FRAGMENT | len } else { len };
    let b = [(word >> 24u32) as u8, (word >> 16u32) as u8, (word >> 8u32) as u8, word as u8];
    assert(b@ =~= be_u32(word));
    b
}

/// Reads a record marker: whether its fragment is the last one, and the
/// fragment's length.
pub fn parse_record_marker(b: [u8; 4]) -> (r: (bool, u32))
    ensures
        r.0 == (u32_of_be(b@) & RPC_LAST_FRAGMENT != 0),
        r.1 == u32_of_be(b@) & RPC_MAX_FRAGMENT,
        r.1 <= RPC_MAX_FRAGMENT,
{
    let word = ((b[0] as u32) << 24u32) | ((b[1] as u32) << 16u32) | ((b[2] as u32) << 8u32) | (b[3] as u32);
    assert(word & RPC_MAX_FRAGMENT <= RPC_MAX_FRAGMENT) by (bit_vector);
    ((word & RPC_LAST_FRAGMENT) != 0, word & RPC_MAX_FRAGMENT)
}

/// The 32-bit word at byte `at` of `b`.
pub open spec fn word_at(b: Seq<u8>, at: int) -> u32 {
    u32_of_be(b.subrange(at, at + 4))
}

/// Where the results of an accepted, successful reply to call `xid` begin,
/// if the reply is one: xid, REPLY, MSG_ACCEPTED, a verifier of at most
/// 400 bytes, then SUCCESS.
pub open spec fn reply_body_start(xid: u32, reply: Seq<u8>) -> Option<int> {
    if reply.len() < 20 {
        None
    } else {
        let n = word_at(reply, 16) as int;
        let stat_at = 20 + n + pad_len(n as nat);
        if word_at(reply, 0) == xid && word_at(reply, 4) == RPC_REPLY && word_at(reply, 8) == RPC_MSG_ACCEPTED
            && n <= RPC_MAX_AUTH_BYTES && stat_at + 4 <= reply.len() && word_at(reply, stat_at) == RPC_SUCCESS {
            Some(stat_at + 4)
        } else {
            None
        }
    }
}

/// Checks the reply to call `xid` and returns the procedure's results: the
/// call must have been accepted and run.
pub fn parse_reply(xid: u32, reply: &[u8]) -> (r: Result<Vec<u8>>)
    ensures
        r is Ok <==> reply_body_start(xid, reply@) is Some,
        r matches Ok(body) ==> body@ == reply@.subrange(reply_body_start(xid, reply@)->Some_0, reply@.len() as int),
        r matches Err(e) ==> e is Protocol,
{
    let mut decoder = Decoder::new(reply);
    let got_xid = match decoder.read_u32() {
        Ok(v) => v,
        Err(_) => return Err(protocol("RPC reply is truncated")),
    };
    let message_type = match decoder.read_u32() {
        Ok(v) => v,
        Err(_) => return Err(protocol("RPC reply is truncated")),
    };
    let reply_stat = match decoder.read_u32() {
        Ok(v) => v,
        Err(_) => return Err(protocol("RPC reply is truncated")),
    };
    let _flavor = match decoder.read_u32() {
        Ok(v) => v,
        Err(_) => return Err(protocol("RPC reply is truncated")),
    };
    if got_xid != xid {
        return Err(protocol("RPC reply answers another call"));
    }
    if message_type != RPC_REPLY {
        return Err(protocol("RPC message is not a reply"));
    }
    if reply_stat != RPC_MSG_ACCEPTED {
        return Err(protocol("RPC call was denied"));
    }
    let _verifier = match decoder.read_opaque_vec(RPC_MAX_AUTH_BYTES) {
        Ok(v) => v,
        Err(_) => return Err(protocol("RPC reply verifier is malformed")),
    };
    let accept_stat = match decoder.read_u32() {
        Ok(v) => v,
        Err(_) => return Err(protocol("RPC reply is truncated")),
    };
    if accept_stat != RPC_SUCCESS {
        return Err(protocol("RPC call was accepted but did not run"));
    }
    let start = reply.len() - decoder.remaining();
    let mut body: Vec<u8> = Vec::new();
    let mut i = start;
    while i < reply.len()
        invariant
            start <= i <= reply@.len(),
            body@ == reply@.subrange(start as int, i as int),
        decreases reply@.len() - i,
    {
        body.push(reply[i]);
        assert(body@ =~= reply@.subrange(start as int, i + 1));
        i = i + 1;
    }
    Ok(body)
}

} // verus!
