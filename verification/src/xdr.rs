//! XDR (RFC 4506) encoding and decoding of the primitive wire items used by
//! NFSv4: big-endian 32- and 64-bit integers, booleans, fixed and
//! variable-length opaque data and strings, each padded to a multiple of four
//! bytes.
use vstd::prelude::*;
use vstd::utf8::*;
use vstd::string::StringSliceAdditionalSpecFns;

verus! {

/// Errors raised while encoding or decoding XDR data.
#[derive(Debug, Clone, Copy, PartialEq, Eq, Structural)]
pub enum XdrError {
    /// The input ended before `needed` bytes could be read.
    UnexpectedEof { needed: usize, remaining: usize },
    /// A variable-length item is longer than the limit allowed for it.
    LengthLimitExceeded { len: usize, max: usize },
    /// A union discriminant or enum value is not one the type defines.
    InvalidDiscriminant { value: u32 },
    /// An XDR boolean was neither 0 nor 1.
    InvalidBool { value: u32 },
    /// A string was not valid UTF-8.
    InvalidUtf8,
    /// Bytes were left over after a complete item was decoded.
    TrailingBytes { remaining: usize },
}

/// Big-endian bytes of a 32-bit value.
pub open spec fn be_u32(v: u32) -> Seq<u8> {
    seq![(v >> 24u32) as u8, (v >> 16u32) as u8, (v >> 8u32) as u8, v as u8]
}

/// The 32-bit value of four big-endian bytes.
pub open spec fn u32_of_be(b: Seq<u8>) -> u32 {
    ((b[0] as u32) << 24u32) | ((b[1] as u32) << 16u32) | ((b[2] as u32) << 8u32) | (b[3] as u32)
}

/// Big-endian bytes of a 64-bit value (XDR `hyper`).
pub open spec fn be_u64(v: u64) -> Seq<u8> {
    be_u32((v >> 32u64) as u32) + be_u32(v as u32)
}

/// The 64-bit value of eight big-endian bytes.
pub open spec fn u64_of_be(b: Seq<u8>) -> u64 {
    (((u32_of_be(b.subrange(0, 4)) as u64) << 32u64) | (u32_of_be(b.subrange(4, 8)) as u64))
}

/// The eight big-endian bytes of a 64-bit value.
pub fn u64_to_be_bytes(v: u64) -> (b: [u8; 8])
    ensures
        b@ == be_u64(v),
{
    let hi = (v >> 32u64) as u32;
    let lo = v as u32;
    let b = [(hi >> 24u32) as u8, (hi >> 16u32) as u8, (hi >> 8u32) as u8, hi as u8,
        (lo >> 24u32) as u8, (lo >> 16u32) as u8, (lo >> 8u32) as u8, lo as u8];
    assert(b@ =~= be_u64(v));
    b
}

/// XDR encoding of a boolean.
pub open spec fn be_bool(b: bool) -> Seq<u8> {
    be_u32(if b { 1u32 } else { 0u32 })
}

/// Number of zero bytes that pad an item of `n` bytes to a multiple of four.
pub open spec fn pad_len(n: nat) -> nat {
    ((4 - (n % 4) as int) % 4) as nat
}

/// `n` zero bytes.
pub open spec fn zeros(n: nat) -> Seq<u8> {
    Seq::new(n, |i: int| 0u8)
}

/// Fixed-length opaque data followed by its padding.
pub open spec fn fixed_opaque(data: Seq<u8>) -> Seq<u8> {
    data + zeros(pad_len(data.len()))
}

/// Variable-length opaque data: its length, the data and the padding.
pub open spec fn var_opaque(data: Seq<u8>) -> Seq<u8> {
    be_u32(data.len() as u32) + fixed_opaque(data)
}

/// Decoding the big-endian bytes of a 32-bit value gives the value back.
pub proof fn lemma_u32_roundtrip(v: u32)
    ensures
        u32_of_be(be_u32(v)) == v,
{
    let b = be_u32(v);
    let b0 = (v >> 24u32) as u8;
    let b1 = (v >> 16u32) as u8;
    let b2 = (v >> 8u32) as u8;
    let b3 = v as u8;
    assert(b[0] == b0 && b[1] == b1 && b[2] == b2 && b[3] == b3);
    assert(((b0 as u32) << 24u32) | ((b1 as u32) << 16u32) | ((b2 as u32) << 8u32) | (b3 as u32)
        == v) by (bit_vector)
        requires
            b0 == (v >> 24u32) as u8,
            b1 == (v >> 16u32) as u8,
            b2 == (v >> 8u32) as u8,
            b3 == v as u8,
    ;
}

/// Decoding the big-endian bytes of a 64-bit value gives the value back.
pub proof fn lemma_u64_roundtrip(v: u64)
    ensures
        u64_of_be(be_u64(v)) == v,
{
    let hi = (v >> 32u64) as u32;
    let lo = v as u32;
    lemma_u32_roundtrip(hi);
    lemma_u32_roundtrip(lo);
    assert(be_u64(v).subrange(0, 4) =~= be_u32(hi));
    assert(be_u64(v).subrange(4, 8) =~= be_u32(lo));
    assert((((hi as u64) << 32u64) | (lo as u64)) == v) by (bit_vector)
        requires
            hi == (v >> 32u64) as u32,
            lo == v as u32,
    ;
}

/// Reading a 32-bit value at the place where it was written gives it back,
/// whatever precedes or follows it.
pub proof fn law_u32_read_back(prefix: Seq<u8>, v: u32, suffix: Seq<u8>)
    ensures
        u32_of_be((prefix + be_u32(v) + suffix).subrange(
            prefix.len() as int,
            prefix.len() as int + 4,
        )) == v,
{
    assert((prefix + be_u32(v) + suffix).subrange(prefix.len() as int, prefix.len() as int + 4)
        =~= be_u32(v));
    lemma_u32_roundtrip(v);
}

/// Reading a 64-bit value at the place where it was written gives it back,
/// whatever precedes or follows it.
pub proof fn law_u64_read_back(prefix: Seq<u8>, v: u64, suffix: Seq<u8>)
    ensures
        u64_of_be((prefix + be_u64(v) + suffix).subrange(
            prefix.len() as int,
            prefix.len() as int + 8,
        )) == v,
{
    assert((prefix + be_u64(v) + suffix).subrange(prefix.len() as int, prefix.len() as int + 8)
        =~= be_u64(v));
    lemma_u64_roundtrip(v);
}

/// Variable-length opaque data written after `prefix` is read back: its length
/// field gives the data's length, and the bytes after it are the data.
pub proof fn law_opaque_read_back(prefix: Seq<u8>, data: Seq<u8>, suffix: Seq<u8>)
    requires
        data.len() <= u32::MAX,
    ensures
        ({
            let all = prefix + var_opaque(data) + suffix;
            let p = prefix.len() as int;
            &&& u32_of_be(all.subrange(p, p + 4)) == data.len()
            &&& p + 4 + data.len() + pad_len(data.len()) <= all.len()
            &&& all.subrange(p + 4, p + 4 + data.len()) == data
        }),
{
    let all = prefix + var_opaque(data) + suffix;
    let p = prefix.len() as int;
    assert(all.subrange(p, p + 4) =~= be_u32(data.len() as u32));
    lemma_u32_roundtrip(data.len() as u32);
    assert(all.subrange(p + 4, p + 4 + data.len()) =~= data);
}

/// Where `d` holds variable-length opaque `data` at `p`, its length field
/// is the data's length and the data follows it.
pub proof fn lemma_opaque_at(d: Seq<u8>, p: int, data: Seq<u8>)
    requires
        0 <= p,
        data.len() <= u32::MAX,
        p + var_opaque(data).len() <= d.len(),
        d.subrange(p, p + var_opaque(data).len()) == var_opaque(data),
    ensures
        var_opaque(data).len() == 4 + data.len() + pad_len(data.len()),
        u32_of_be(d.subrange(p, p + 4)) == data.len(),
        d.subrange(p + 4, p + 4 + data.len()) == data,
{
    let e = var_opaque(data);
    assert(d.subrange(p, p + 4) =~= e.subrange(0, 4));
    assert(e.subrange(0, 4) =~= be_u32(data.len() as u32));
    lemma_u32_roundtrip(data.len() as u32);
    assert(d.subrange(p + 4, p + 4 + data.len()) =~= e.subrange(4, 4 + data.len() as int));
    assert(e.subrange(4, 4 + data.len() as int) =~= data);
}

/// Two arrays of 32-bit values of one length with the same bytes are equal.
pub proof fn lemma_u32_array_body_injective(a: Seq<u32>, b: Seq<u32>)
    requires
        a.len() == b.len(),
        u32_array_body(a) == u32_array_body(b),
    ensures
        a == b,
    decreases a.len(),
{
    if a.len() > 0 {
        lemma_u32_array_body_len(a.drop_last());
        lemma_u32_array_body_len(b.drop_last());
        let n = u32_array_body(a.drop_last()).len();
        assert(u32_array_body(a).subrange(0, n as int) =~= u32_array_body(a.drop_last()));
        assert(u32_array_body(b).subrange(0, n as int) =~= u32_array_body(b.drop_last()));
        lemma_u32_array_body_injective(a.drop_last(), b.drop_last());
        assert(u32_array_body(a).subrange(n as int, n as int + 4) =~= be_u32(a.last()));
        assert(u32_array_body(b).subrange(n as int, n as int + 4) =~= be_u32(b.last()));
        lemma_u32_roundtrip(a.last());
        lemma_u32_roundtrip(b.last());
        assert(a =~= a.drop_last().push(a.last()));
        assert(b =~= b.drop_last().push(b.last()));
    }
}

/// Four bytes per value.
pub proof fn lemma_u32_array_body_len(a: Seq<u32>)
    ensures
        u32_array_body(a).len() == 4 * a.len(),
    decreases a.len(),
{
    if a.len() > 0 {
        lemma_u32_array_body_len(a.drop_last());
    }
}

/// An XDR output buffer.
pub struct Encoder {
    buf: Vec<u8>,
}

impl View for Encoder {
    type V = Seq<u8>;

    closed spec fn view(&self) -> Seq<u8> {
        self.buf@
    }
}

impl Encoder {
    /// Creates an empty encoder.
    pub fn new() -> (e: Self)
        ensures
            e@ == Seq::<u8>::empty(),
    {
        Encoder { buf: Vec::new() }
    }

    /// Returns the encoded bytes.
    pub fn into_bytes(self) -> (b: Vec<u8>)
        ensures
            b@ == self@,
    {
        self.buf
    }

    /// Number of bytes written so far.
    pub fn len(&self) -> (n: usize)
        ensures
            n == self@.len(),
    {
        self.buf.len()
    }

    /// Appends a 32-bit unsigned integer.
    pub fn write_u32(&mut self, v: u32)
        ensures
            old(self)@.is_prefix_of(final(self)@),
            final(self)@ == old(self)@ + be_u32(v),
    {
        broadcast use group_prefix;

        self.buf.push((v >> 24u32) as u8);
        self.buf.push((v >> 16u32) as u8);
        self.buf.push((v >> 8u32) as u8);
        self.buf.push(v as u8);
        assert(self.buf@ =~= old(self)@ + be_u32(v));
    }

    /// Appends a 64-bit unsigned integer (XDR `unsigned hyper`).
    pub fn write_u64(&mut self, v: u64)
        ensures
            old(self)@.is_prefix_of(final(self)@),
            final(self)@ == old(self)@ + be_u64(v),
    {
        broadcast use group_prefix;

        self.write_u32((v >> 32u64) as u32);
        self.write_u32(v as u32);
        assert(self.buf@ =~= old(self)@ + be_u64(v));
    }

    /// Appends a 64-bit signed integer (XDR `hyper`) in two's complement.
    pub fn write_i64(&mut self, v: i64)
        ensures
            old(self)@.is_prefix_of(final(self)@),
            final(self)@ == old(self)@ + be_u64(v as u64),
    {
        broadcast use group_prefix;

        self.write_u64(v as u64);
    }

    /// Appends a boolean as 0 or 1.
    pub fn write_bool(&mut self, b: bool)
        ensures
            old(self)@.is_prefix_of(final(self)@),
            final(self)@ == old(self)@ + be_bool(b),
    {
        broadcast use group_prefix;

        self.write_u32(if b { 1 } else { 0 });
    }

    /// Appends `n` zero bytes.
    fn write_zeros(&mut self, n: usize)
        ensures
            final(self)@ == old(self)@ + zeros(n as nat),
    {
        let mut i: usize = 0;
        while i < n
            invariant
                i <= n,
                self.buf@ == old(self)@ + zeros(i as nat),
            decreases n - i,
        {
            self.buf.push(0u8);
            i = i + 1;
            assert(self.buf@ =~= old(self)@ + zeros(i as nat));
        }
    }

    /// Appends fixed-length opaque data and its padding.
    pub fn write_fixed_opaque(&mut self, data: &[u8])
        ensures
            old(self)@.is_prefix_of(final(self)@),
            final(self)@ == old(self)@ + fixed_opaque(data@),
    {
        broadcast use group_prefix;

        let mut i: usize = 0;
        while i < data.len()
            invariant
                i <= data.len(),
                self.buf@ == old(self)@ + data@.subrange(0, i as int),
            decreases data.len() - i,
        {
            self.buf.push(data[i]);
            i = i + 1;
            assert(self.buf@ =~= old(self)@ + data@.subrange(0, i as int));
        }
        assert(data@.subrange(0, data.len() as int) =~= data@);
        let pad = (4 - data.len() % 4) % 4;
        self.write_zeros(pad);
        assert(self.buf@ =~= old(self)@ + fixed_opaque(data@));
    }

    /// Appends variable-length opaque data of at most `max` bytes.
    ///
    /// Fails, writing nothing, when the data is longer than `max` or than a
    /// 32-bit length can describe.
    pub fn write_opaque(&mut self, data: &[u8], max: usize) -> (r: Result<(), XdrError>)
        ensures
            old(self)@.is_prefix_of(final(self)@),
            r is Ok <==> (data@.len() <= max && data@.len() <= u32::MAX),
            r is Ok ==> final(self)@ == old(self)@ + var_opaque(data@),
            r is Err ==> final(self)@ == old(self)@,
            r matches Err(e) ==> e == (XdrError::LengthLimitExceeded { len: data@.len() as usize, max }),
    {
        broadcast use group_prefix;

        if data.len() > max || data.len() > 0xffff_ffffusize {
            return Err(XdrError::LengthLimitExceeded { len: data.len(), max });
        }
        self.write_u32(data.len() as u32);
        self.write_fixed_opaque(data);
        assert(self.buf@ =~= old(self)@ + var_opaque(data@));
        Ok(())
    }

    /// Appends a string as variable-length opaque UTF-8 bytes.
    pub fn write_string(&mut self, s: &str, max: usize) -> (r: Result<(), XdrError>)
        ensures
            old(self)@.is_prefix_of(final(self)@),
            r is Ok <==> (s.spec_bytes().len() <= max && s.spec_bytes().len() <= u32::MAX),
            r is Ok ==> final(self)@ == old(self)@ + var_opaque(s.spec_bytes()),
            r is Err ==> final(self)@ == old(self)@,
    {
        broadcast use group_prefix;

        self.write_opaque(s.as_bytes(), max)
    }

    /// Appends an array of 32-bit values: its length, then each value.
    pub fn write_u32_array(&mut self, values: &[u32], max: usize) -> (r: Result<(), XdrError>)
        ensures
            old(self)@.is_prefix_of(final(self)@),
            r is Ok <==> (values@.len() <= max && values@.len() <= u32::MAX),
            r is Ok ==> final(self)@ == old(self)@ + be_u32(values@.len() as u32) + u32_array_body(values@),
            r is Err ==> final(self)@ == old(self)@,
    {
        broadcast use group_prefix;

        if values.len() > max || values.len() > 0xffff_ffffusize {
            return Err(XdrError::LengthLimitExceeded { len: values.len(), max });
        }
        self.write_u32(values.len() as u32);
        let ghost start = self@;
        let mut i: usize = 0;
        while i < values.len()
            invariant
                i <= values.len(),
                self@ == start + u32_array_body(values@.subrange(0, i as int)),
            decreases values.len() - i,
        {
            self.write_u32(values[i]);
            proof {
                lemma_u32_array_body_push(values@.subrange(0, i as int), values@[i as int]);
                assert(values@.subrange(0, i as int).push(values@[i as int]) =~= values@.subrange(0, i + 1));
            }
            i = i + 1;
        }
        assert(values@.subrange(0, values.len() as int) =~= values@);
        Ok(())
    }
}

/// The concatenated big-endian encodings of a sequence of 32-bit values.
pub open spec fn u32_array_body(values: Seq<u32>) -> Seq<u8>
    decreases values.len(),
{
    if values.len() == 0 {
        Seq::empty()
    } else {
        u32_array_body(values.drop_last()) + be_u32(values.last())
    }
}

proof fn lemma_u32_array_body_push(values: Seq<u32>, v: u32)
    ensures
        u32_array_body(values.push(v)) == u32_array_body(values) + be_u32(v),
{
    assert(values.push(v).drop_last() =~= values);
}

/// Wraps `String::from_utf8`: the string whose UTF-8 bytes are `bytes`, or
/// `None` when `bytes` is not valid UTF-8.
#[verifier::external_body]
fn string_from_utf8(bytes: Vec<u8>) -> (r: Option<String>)
    ensures
        r matches Some(s) ==> valid_utf8(bytes@) && s@ == decode_utf8(bytes@),
        r is None ==> !valid_utf8(bytes@),
{
    String::from_utf8(bytes).ok()
}

/// A cursor over XDR input bytes.
pub struct Decoder<'a> {
    data: &'a [u8],
    pos: usize,
}

impl<'a> Decoder<'a> {
    #[verifier::type_invariant]
    spec fn inv(self) -> bool {
        self.pos <= self.data@.len()
    }

    /// The whole input.
    pub closed spec fn input(self) -> Seq<u8> {
        self.data@
    }

    /// The position of the next unread byte.
    pub closed spec fn pos(self) -> int {
        self.pos as int
    }

    /// Positions are never negative.
    pub proof fn lemma_pos_nonneg(self)
        ensures
            0 <= self.pos(),
    {
    }

    /// Starts decoding at the beginning of `data`.
    pub fn new(data: &'a [u8]) -> (d: Self)
        ensures
            d.input() == data@,
            d.pos() == 0,
            d.pos() <= d.input().len(),
    {
        Decoder { data, pos: 0 }
    }

    /// Number of unread bytes.
    pub fn remaining(&self) -> (n: usize)
        ensures
            n == self.input().len() - self.pos(),
            self.pos() <= self.input().len(),
    {
        proof {
            use_type_invariant(self);
        }
        self.data.len() - self.pos
    }

    /// Succeeds exactly when every byte was consumed.
    pub fn finish(&self) -> (r: Result<(), XdrError>)
        ensures
            r is Ok <==> self.pos() == self.input().len(),
            self.pos() <= self.input().len(),
    {
        proof {
            use_type_invariant(self);
        }
        if self.pos == self.data.len() {
            Ok(())
        } else {
            Err(XdrError::TrailingBytes { remaining: self.data.len() - self.pos })
        }
    }

    /// Reads a 32-bit unsigned integer.
    pub fn read_u32(&mut self) -> (r: Result<u32, XdrError>)
        ensures
            final(self).input() == old(self).input(),
            old(self).pos() <= final(self).pos() <= final(self).input().len(),
            r is Ok <==> old(self).pos() + 4 <= old(self).input().len(),
            r matches Ok(v) ==> v == u32_of_be(old(self).input().subrange(old(self).pos() as int, old(self).pos() + 4))
                && final(self).pos() == old(self).pos() + 4,
            r is Err ==> final(self).pos() == old(self).pos(),
    {
        proof {
            use_type_invariant(&*self);
        }
        if self.data.len() - self.pos < 4 {
            return Err(XdrError::UnexpectedEof { needed: 4, remaining: self.data.len() - self.pos });
        }
        let p = self.pos;
        let v = ((self.data[p] as u32) << 24u32) | ((self.data[p + 1] as u32) << 16u32) | ((
        self.data[p + 2] as u32) << 8u32) | (self.data[p + 3] as u32);
        self.pos = p + 4;
        Ok(v)
    }

    /// Reads a 64-bit unsigned integer.
    pub fn read_u64(&mut self) -> (r: Result<u64, XdrError>)
        ensures
            final(self).input() == old(self).input(),
            old(self).pos() <= final(self).pos() <= final(self).input().len(),
            r is Ok <==> old(self).pos() + 8 <= old(self).input().len(),
            r matches Ok(v) ==> v == u64_of_be(old(self).input().subrange(old(self).pos() as int, old(self).pos() + 8))
                && final(self).pos() == old(self).pos() + 8,
            r is Err ==> final(self).pos() == old(self).pos(),
    {
        proof {
            use_type_invariant(&*self);
        }
        if self.data.len() - self.pos < 8 {
            return Err(XdrError::UnexpectedEof { needed: 8, remaining: self.data.len() - self.pos });
        }
        let ghost s = old(self).input().subrange(old(self).pos() as int, old(self).pos() + 8);
        let hi = self.read_u32();
        let lo = self.read_u32();
        match (hi, lo) {
            (Ok(hi), Ok(lo)) => {
                assert(s.subrange(0, 4) =~= old(self).input().subrange(old(self).pos() as int, old(self).pos() + 4));
                assert(s.subrange(4, 8) =~= old(self).input().subrange(old(self).pos() + 4, old(self).pos() + 8));
                Ok(((hi as u64) << 32u64) | (lo as u64))
            },
            _ => {
                assert(false);
                Err(XdrError::UnexpectedEof { needed: 8, remaining: 0 })
            },
        }
    }

    /// Reads a 64-bit signed integer.
    pub fn read_i64(&mut self) -> (r: Result<i64, XdrError>)
        ensures
            final(self).input() == old(self).input(),
            old(self).pos() <= final(self).pos() <= final(self).input().len(),
            r is Ok <==> old(self).pos() + 8 <= old(self).input().len(),
            r matches Ok(v) ==> v == u64_of_be(old(self).input().subrange(old(self).pos() as int, old(self).pos() + 8)) as i64
                && final(self).pos() == old(self).pos() + 8,
            r is Err ==> final(self).pos() == old(self).pos(),
    {
        match self.read_u64() {
            Ok(v) => Ok(v as i64),
            Err(e) => Err(e),
        }
    }

    /// Reads a boolean; any value other than 0 or 1 is an error.
    pub fn read_bool(&mut self) -> (r: Result<bool, XdrError>)
        ensures
            final(self).input() == old(self).input(),
            old(self).pos() <= final(self).pos() <= final(self).input().len(),
            r is Ok <==> old(self).pos() + 4 <= old(self).input().len()
                && u32_of_be(old(self).input().subrange(old(self).pos() as int, old(self).pos() + 4)) <= 1,
            r matches Ok(b) ==> b == (u32_of_be(old(self).input().subrange(old(self).pos() as int, old(self).pos() + 4)) == 1)
                && final(self).pos() == old(self).pos() + 4,
    {
        match self.read_u32() {
            Ok(0) => Ok(false),
            Ok(1) => Ok(true),
            Ok(value) => Err(XdrError::InvalidBool { value }),
            Err(e) => Err(e),
        }
    }

    /// Reads `n` bytes of fixed-length opaque data and skips its padding.
    pub fn read_fixed_opaque(&mut self, n: usize) -> (r: Result<Vec<u8>, XdrError>)
        ensures
            final(self).input() == old(self).input(),
            old(self).pos() <= final(self).pos() <= final(self).input().len(),
            r is Ok <==> old(self).pos() + n + pad_len(n as nat) <= old(self).input().len(),
            r matches Ok(v) ==> v@ == old(self).input().subrange(old(self).pos() as int, old(self).pos() + n)
                && final(self).pos() == old(self).pos() + n + pad_len(n as nat),
            r is Err ==> final(self).pos() == old(self).pos(),
    {
        proof {
            use_type_invariant(&*self);
        }
        let pad = (4 - n % 4) % 4;
        let remaining = self.data.len() - self.pos;
        if n > remaining || pad > remaining - n {
            return Err(XdrError::UnexpectedEof { needed: n, remaining });
        }
        let start = self.pos;
        let data = self.data;
        let mut out: Vec<u8> = Vec::new();
        let mut i: usize = 0;
        while i < n
            invariant
                i <= n,
                start + n <= data@.len(),
                start + n <= usize::MAX,
                out@ == data@.subrange(start as int, start + i),
            decreases n - i,
        {
            out.push(data[start + i]);
            i = i + 1;
            assert(out@ =~= data@.subrange(start as int, start + i));
        }
        self.pos = start + n + pad;
        Ok(out)
    }

    /// Reads variable-length opaque data of at most `max` bytes.
    pub fn read_opaque_vec(&mut self, max: usize) -> (r: Result<Vec<u8>, XdrError>)
        ensures
            final(self).input() == old(self).input(),
            old(self).pos() <= final(self).pos() <= final(self).input().len(),
            ({
                let d = old(self).input();
                let p = old(self).pos() as int;
                let n = u32_of_be(d.subrange(p, p + 4)) as int;
                &&& r is Ok <==> (p + 4 <= d.len() && n <= max && p + 4 + n + pad_len(n as nat) <= d.len())
                &&& r matches Ok(v) ==> v@ == d.subrange(p + 4, p + 4 + n)
                    && final(self).pos() == p + 4 + n + pad_len(n as nat)
            }),
    {
        let n = match self.read_u32() {
            Ok(n) => n,
            Err(e) => return Err(e),
        };
        if n as usize > max {
            return Err(XdrError::LengthLimitExceeded { len: n as usize, max });
        }
        self.read_fixed_opaque(n as usize)
    }

    /// Reads a UTF-8 string of at most `max` bytes.
    pub fn read_string(&mut self, max: usize) -> (r: Result<String, XdrError>)
        ensures
            final(self).input() == old(self).input(),
            old(self).pos() <= final(self).pos() <= final(self).input().len(),
            ({
                let d = old(self).input();
                let p = old(self).pos() as int;
                let n = u32_of_be(d.subrange(p, p + 4)) as int;
                &&& r is Ok <==> (p + 4 <= d.len() && n <= max && p + 4 + n + pad_len(n as nat) <= d.len()
                    && valid_utf8(d.subrange(p + 4, p + 4 + n)))
                &&& r matches Ok(s) ==> s@ == decode_utf8(d.subrange(p + 4, p + 4 + n))
                    && final(self).pos() == p + 4 + n + pad_len(n as nat)
            }),
    {
        let bytes = match self.read_opaque_vec(max) {
            Ok(b) => b,
            Err(e) => return Err(e),
        };
        match string_from_utf8(bytes) {
            Some(s) => Ok(s),
            None => Err(XdrError::InvalidUtf8),
        }
    }

    /// Reads an array of at most `max` 32-bit values.
    pub fn read_u32_array(&mut self, max: usize) -> (r: Result<Vec<u32>, XdrError>)
        ensures
            final(self).input() == old(self).input(),
            old(self).pos() <= final(self).pos() <= final(self).input().len(),
            ({
                let d = old(self).input();
                let p = old(self).pos() as int;
                r is Ok <==> (p + 4 <= d.len() && u32_of_be(d.subrange(p, p + 4)) <= max
                    && p + 4 + 4 * u32_of_be(d.subrange(p, p + 4)) <= d.len())
            }),
            r matches Ok(v) ==> {
                let d = old(self).input();
                let p = old(self).pos() as int;
                &&& p + 4 + 4 * v@.len() <= d.len()
                &&& u32_of_be(d.subrange(p, p + 4)) == v@.len()
                &&& v@.len() <= max
                &&& d.subrange(p + 4, p + 4 + 4 * v@.len()) == u32_array_body(v@)
                &&& final(self).pos() == p + 4 + 4 * v@.len()
            },
    {
        let n = match self.read_u32() {
            Ok(n) => n,
            Err(e) => return Err(e),
        };
        if n as usize > max {
            return Err(XdrError::LengthLimitExceeded { len: n as usize, max });
        }
        if (self.remaining() as u64) < 4 * (n as u64) {
            return Err(XdrError::UnexpectedEof { needed: n as usize, remaining: self.remaining() });
        }
        let ghost p = old(self).pos() as int;
        let ghost d = old(self).input();
        let mut out: Vec<u32> = Vec::new();
        let mut i: u32 = 0;
        while i < n
            invariant
                i <= n,
                n <= max,
                self.input() == d,
                d == old(self).input(),
                p == old(self).pos(),
                0 <= p,
                p + 4 <= d.len(),
                u32_of_be(d.subrange(p, p + 4)) == n,
                out@.len() == i,
                self.pos() == p + 4 + 4 * i,
                self.pos() <= d.len(),
                p + 4 + 4 * n <= d.len(),
                d.subrange(p + 4, p + 4 + 4 * i) == u32_array_body(out@),
            decreases n - i,
        {
            let ghost before = self.pos();
            let v = match self.read_u32() {
                Ok(v) => v,
                Err(e) => return Err(e),
            };
            proof {
                lemma_u32_roundtrip(v);
                let q = p + 4 + 4 * i;
                assert(before == q);
                let a = d.subrange(p + 4, q);
                let b = d.subrange(q, q + 4);
                assert(q + 4 == p + 4 + 4 * (i + 1));
                assert(d.subrange(p + 4, q + 4) =~= a + b);
                assert(b =~= be_u32(v)) by {
                    assert(u32_of_be(b) == v);
                    lemma_u32_bytes_of_value(b);
                }
                lemma_u32_array_body_push(out@, v);
            }
            out.push(v);
            i = i + 1;
        }
        Ok(out)
    }

    /// Reads an optional 64-bit value: a boolean discriminant, then the value if present.
    pub fn read_optional_u64(&mut self) -> (r: Result<Option<u64>, XdrError>)
        ensures
            final(self).input() == old(self).input(),
            old(self).pos() <= final(self).pos() <= final(self).input().len(),
            r matches Ok(o) ==> {
                let d = old(self).input();
                let p = old(self).pos() as int;
                &&& p + 4 <= d.len()
                &&& (o is None <==> u32_of_be(d.subrange(p, p + 4)) == 0)
                &&& o matches Some(v) ==> p + 12 <= d.len() && v == u64_of_be(d.subrange(p + 4, p + 12))
            },
    {
        match self.read_bool() {
            Ok(false) => Ok(None),
            Ok(true) => match self.read_u64() {
                Ok(v) => Ok(Some(v)),
                Err(e) => Err(e),
            },
            Err(e) => Err(e),
        }
    }
}

/// Four bytes are the big-endian bytes of the value they denote.
pub proof fn lemma_u32_bytes_of_value(b: Seq<u8>)
    requires
        b.len() == 4,
    ensures
        be_u32(u32_of_be(b)) == b,
{
    let b0 = b[0];
    let b1 = b[1];
    let b2 = b[2];
    let b3 = b[3];
    let v = u32_of_be(b);
    assert(v == ((b0 as u32) << 24u32) | ((b1 as u32) << 16u32) | ((b2 as u32) << 8u32) | (b3 as u32));
    assert((v >> 24u32) as u8 == b0 && (v >> 16u32) as u8 == b1 && (v >> 8u32) as u8 == b2 && v as u8 == b3)
        by (bit_vector)
        requires
            v == ((b0 as u32) << 24u32) | ((b1 as u32) << 16u32) | ((b2 as u32) << 8u32) | (b3 as u32),
    ;
    assert(be_u32(v) =~= b);
}


/// Data that has an XDR encoding.
pub trait Encode {
    /// The XDR bytes of `self`.
    spec fn xdr_bytes(&self) -> Seq<u8>;

    /// Whether `self` can be encoded: every variable-length part is within
    /// the limit the protocol sets for it.
    spec fn xdr_encodable(&self) -> bool;

    /// Appends the XDR encoding of `self`; what was written before is kept.
    /// Fails exactly when `self` cannot be encoded.
    fn encode(&self, encoder: &mut Encoder) -> (r: Result<(), XdrError>)
        ensures
            old(encoder)@.is_prefix_of(final(encoder)@),
            r is Ok <==> self.xdr_encodable(),
            r is Ok ==> final(encoder)@ == old(encoder)@ + self.xdr_bytes(),
    ;
}

/// The encodings of `items`, one after another.
pub open spec fn items_bytes<T: Encode>(items: Seq<T>) -> Seq<u8>
    decreases items.len(),
{
    if items.len() == 0 {
        Seq::empty()
    } else {
        items_bytes(items.drop_last()) + items.last().xdr_bytes()
    }
}

/// Every item can be encoded.
pub open spec fn items_encodable<T: Encode>(items: Seq<T>) -> bool {
    forall|i: int| 0 <= i < items.len() ==> #[trigger] items[i].xdr_encodable()
}

/// A counted array: the number of items, then each item's encoding.
pub open spec fn array_bytes<T: Encode>(items: Seq<T>) -> Seq<u8> {
    be_u32(items.len() as u32) + items_bytes(items)
}

/// An array fits its limit and each of its items can be encoded.
pub open spec fn array_encodable<T: Encode>(items: Seq<T>, max: usize) -> bool {
    items.len() <= max && items.len() <= u32::MAX && items_encodable(items)
}

/// An optional item: a boolean discriminant, then the item if present.
pub open spec fn optional_bytes<T: Encode>(item: Option<T>) -> Seq<u8> {
    match item {
        Some(v) => be_bool(true) + v.xdr_bytes(),
        None => be_bool(false),
    }
}

/// An optional item can be encoded when it is absent or encodable.
pub open spec fn optional_encodable<T: Encode>(item: Option<T>) -> bool {
    item matches Some(v) ==> v.xdr_encodable()
}

/// Encoding one more item appends its bytes.
pub proof fn lemma_items_bytes_push<T: Encode>(items: Seq<T>, v: T)
    ensures
        items_bytes(items.push(v)) == items_bytes(items) + v.xdr_bytes(),
{
    assert(items.push(v).drop_last() =~= items);
}

/// Data that can be read from its XDR encoding.
pub trait Decode: Sized {
    /// Reads one item; the cursor only moves forward over the same input.
    fn decode(decoder: &mut Decoder<'_>) -> (r: Result<Self, XdrError>)
        ensures
            final(decoder).input() == old(decoder).input(),
            old(decoder).pos() <= final(decoder).pos(),
    ;
}

/// Appending bytes keeps what was there a prefix.
pub broadcast proof fn lemma_prefix_of_concat(a: Seq<u8>, x: Seq<u8>)
    ensures
        #[trigger] a.is_prefix_of(a + x),
{
    assert((a + x).subrange(0, a.len() as int) =~= a);
}

/// Being a prefix is transitive.
pub broadcast proof fn lemma_prefix_of_trans(a: Seq<u8>, b: Seq<u8>, c: Seq<u8>)
    requires
        #[trigger] a.is_prefix_of(b),
        #[trigger] b.is_prefix_of(c),
    ensures
        a.is_prefix_of(c),
{
    assert(c.subrange(0, a.len() as int) =~= b.subrange(0, b.len() as int).subrange(0, a.len() as int));
}

/// Every sequence is a prefix of itself.
pub broadcast proof fn lemma_prefix_of_refl(a: Seq<u8>)
    ensures
        #[trigger] a.is_prefix_of(a),
{
    assert(a.subrange(0, a.len() as int) =~= a);
}

pub broadcast group group_prefix {
    lemma_prefix_of_concat,
    lemma_prefix_of_trans,
    lemma_prefix_of_refl,
}

impl Encode for u32 {
    open spec fn xdr_bytes(&self) -> Seq<u8> {
        be_u32(*self)
    }

    open spec fn xdr_encodable(&self) -> bool {
        true
    }

    fn encode(&self, encoder: &mut Encoder) -> (r: Result<(), XdrError>) {
        broadcast use group_prefix;
        encoder.write_u32(*self);
        Ok(())
    }
}

impl Encode for u64 {
    open spec fn xdr_bytes(&self) -> Seq<u8> {
        be_u64(*self)
    }

    open spec fn xdr_encodable(&self) -> bool {
        true
    }

    fn encode(&self, encoder: &mut Encoder) -> (r: Result<(), XdrError>) {
        broadcast use group_prefix;
        encoder.write_u64(*self);
        Ok(())
    }
}

impl Encode for bool {
    open spec fn xdr_bytes(&self) -> Seq<u8> {
        be_bool(*self)
    }

    open spec fn xdr_encodable(&self) -> bool {
        true
    }

    fn encode(&self, encoder: &mut Encoder) -> (r: Result<(), XdrError>) {
        broadcast use group_prefix;
        encoder.write_bool(*self);
        Ok(())
    }
}

/// `d` holds the encoding of `w` at position `p`.
pub open spec fn holds_encoding<T: Encode>(d: Seq<u8>, p: int, w: T) -> bool {
    &&& w.xdr_encodable()
    &&& 0 <= p
    &&& p + w.xdr_bytes().len() <= d.len()
    &&& d.subrange(p, p + w.xdr_bytes().len()) == w.xdr_bytes()
}

impl Decode for u32 {
    /// What is read is the encoding of the value returned, and the encoding
    /// of any value reads back as that value.
    fn decode(decoder: &mut Decoder<'_>) -> (r: Result<Self, XdrError>)
        ensures
            r matches Ok(v) ==> holds_encoding(old(decoder).input(), old(decoder).pos(), v)
                && final(decoder).pos() == old(decoder).pos() + 4,
            forall|w: u32| #[trigger] holds_encoding(old(decoder).input(), old(decoder).pos(), w) ==> r == Ok::<u32, XdrError>(w),
    {
        let ghost d = old(decoder).input();
        let ghost p = old(decoder).pos();
        let r = decoder.read_u32();
        proof {
            if let Ok(v) = r {
                lemma_u32_bytes_of_value(d.subrange(p, p + 4));
            }
            assert forall|w: u32| #[trigger] holds_encoding(d, p, w) implies r == Ok::<u32, XdrError>(w) by {
                lemma_u32_roundtrip(w);
            }
        }
        r
    }
}

impl Decode for u64 {
    /// What is read is the encoding of the value returned, and the encoding
    /// of any value reads back as that value.
    fn decode(decoder: &mut Decoder<'_>) -> (r: Result<Self, XdrError>)
        ensures
            r matches Ok(v) ==> holds_encoding(old(decoder).input(), old(decoder).pos(), v)
                && final(decoder).pos() == old(decoder).pos() + 8,
            forall|w: u64| #[trigger] holds_encoding(old(decoder).input(), old(decoder).pos(), w) ==> r == Ok::<u64, XdrError>(w),
    {
        let ghost d = old(decoder).input();
        let ghost p = old(decoder).pos();
        let r = decoder.read_u64();
        proof {
            if let Ok(v) = r {
                lemma_u64_bytes_of_value(d.subrange(p, p + 8));
            }
            assert forall|w: u64| #[trigger] holds_encoding(d, p, w) implies r == Ok::<u64, XdrError>(w) by {
                lemma_u64_roundtrip(w);
            }
        }
        r
    }
}

impl Decode for bool {
    /// What is read is the encoding of the value returned, and the encoding
    /// of any value reads back as that value.
    fn decode(decoder: &mut Decoder<'_>) -> (r: Result<Self, XdrError>)
        ensures
            r matches Ok(v) ==> holds_encoding(old(decoder).input(), old(decoder).pos(), v)
                && final(decoder).pos() == old(decoder).pos() + 4,
            forall|w: bool| #[trigger] holds_encoding(old(decoder).input(), old(decoder).pos(), w) ==> r == Ok::<bool, XdrError>(w),
    {
        let ghost d = old(decoder).input();
        let ghost p = old(decoder).pos();
        let r = decoder.read_bool();
        proof {
            if let Ok(v) = r {
                lemma_u32_bytes_of_value(d.subrange(p, p + 4));
            }
            assert forall|w: bool| #[trigger] holds_encoding(d, p, w) implies r == Ok::<bool, XdrError>(w) by {
                lemma_u32_roundtrip(if w { 1u32 } else { 0u32 });
            }
        }
        r
    }
}

/// Eight bytes are the big-endian bytes of the value they denote.
pub proof fn lemma_u64_bytes_of_value(b: Seq<u8>)
    requires
        b.len() == 8,
    ensures
        be_u64(u64_of_be(b)) == b,
{
    let hi = u32_of_be(b.subrange(0, 4));
    let lo = u32_of_be(b.subrange(4, 8));
    let v = u64_of_be(b);
    lemma_u32_bytes_of_value(b.subrange(0, 4));
    lemma_u32_bytes_of_value(b.subrange(4, 8));
    assert(v == (((hi as u64) << 32u64) | (lo as u64)));
    assert((v >> 32u64) as u32 == hi && v as u32 == lo) by (bit_vector)
        requires
            v == (((hi as u64) << 32u64) | (lo as u64)),
    ;
    assert(be_u64(v) =~= b.subrange(0, 4) + b.subrange(4, 8));
    assert(b.subrange(0, 4) + b.subrange(4, 8) =~= b);
}

impl Encoder {
    /// Appends an array of at most `max` items: its length, then each item.
    /// Fails when there are too many items or one of them cannot be encoded.
    pub fn write_array<T: Encode>(&mut self, items: &[T], max: usize) -> (r: Result<(), XdrError>)
        ensures
            old(self)@.is_prefix_of(final(self)@),
            r is Ok <==> array_encodable(items@, max),
            r is Ok ==> final(self)@ == old(self)@ + array_bytes(items@),
            (items@.len() > max || items@.len() > u32::MAX) ==> final(self)@ == old(self)@,
    {
        broadcast use group_prefix;
        if items.len() > max || items.len() > 0xffff_ffffusize {
            return Err(XdrError::LengthLimitExceeded { len: items.len(), max });
        }
        self.write_u32(items.len() as u32);
        let ghost start = self@;
        let mut i: usize = 0;
        while i < items.len()
            invariant
                i <= items.len(),
                items@.len() <= max,
                items@.len() <= u32::MAX,
                old(self)@.is_prefix_of(start),
                start == old(self)@ + be_u32(items@.len() as u32),
                self@ == start + items_bytes(items@.take(i as int)),
                items_encodable(items@.take(i as int)),
            decreases items.len() - i,
        {
            let ghost before = self@;
            match items[i].encode(self) {
                Ok(()) => {},
                Err(e) => {
                    proof {
                        assert(start.is_prefix_of(before));
                        assert(!items_encodable(items@)) by {
                            assert(!items@[i as int].xdr_encodable());
                        }
                    }
                    return Err(e);
                },
            }
            proof {
                lemma_items_bytes_push(items@.take(i as int), items@[i as int]);
                assert(items@.take(i as int).push(items@[i as int]) =~= items@.take(i + 1));
                assert(items_encodable(items@.take(i + 1))) by {
                    assert forall|j: int| 0 <= j < i + 1 implies #[trigger] items@.take(i + 1)[j].xdr_encodable() by {
                        if j < i {
                            assert(items@.take(i + 1)[j] == items@.take(i as int)[j]);
                        }
                    }
                }
            }
            i = i + 1;
        }
        proof {
            assert(items@.take(items@.len() as int) =~= items@);
            assert(self@ =~= old(self)@ + array_bytes(items@));
        }
        Ok(())
    }

    /// Appends an optional item: a boolean discriminant, then the item if present.
    pub fn write_optional<T: Encode>(&mut self, item: Option<&T>) -> (r: Result<(), XdrError>)
        ensures
            old(self)@.is_prefix_of(final(self)@),
            r is Ok <==> (item matches Some(v) ==> v.xdr_encodable()),
            r is Ok ==> final(self)@ == old(self)@ + match item {
                Some(v) => be_bool(true) + v.xdr_bytes(),
                None => be_bool(false),
            },
    {
        broadcast use group_prefix;
        match item {
            Some(v) => {
                self.write_bool(true);
                let r = v.encode(self);
                assert(r is Ok ==> self@ =~= old(self)@ + (be_bool(true) + v.xdr_bytes()));
                r
            },
            None => {
                self.write_bool(false);
                Ok(())
            },
        }
    }
}

impl<'a> Decoder<'a> {
    /// Reads an array of at most `max` items: its length, then each item.
    pub fn read_array<T: Decode>(&mut self, max: usize) -> (r: Result<Vec<T>, XdrError>)
        ensures
            final(self).input() == old(self).input(),
            old(self).pos() <= final(self).pos(),
            r matches Ok(v) ==> v@.len() <= max && old(self).pos() + 4 <= old(self).input().len()
                && v@.len() == u32_of_be(old(self).input().subrange(old(self).pos(), old(self).pos() + 4)),
    {
        let n = match self.read_u32() {
            Ok(n) => n,
            Err(e) => return Err(e),
        };
        if n as usize > max {
            return Err(XdrError::LengthLimitExceeded { len: n as usize, max });
        }
        let mut out: Vec<T> = Vec::new();
        let mut i: u32 = 0;
        while i < n
            invariant
                i <= n,
                out@.len() == i,
                self.input() == old(self).input(),
                old(self).pos() <= self.pos(),
            decreases n - i,
        {
            let v = match T::decode(self) {
                Ok(v) => v,
                Err(e) => return Err(e),
            };
            out.push(v);
            i = i + 1;
        }
        Ok(out)
    }

    /// Reads an optional item: a boolean discriminant, then the item if present.
    pub fn read_optional<T: Decode>(&mut self) -> (r: Result<Option<T>, XdrError>)
        ensures
            final(self).input() == old(self).input(),
            old(self).pos() <= final(self).pos(),
    {
        match self.read_bool() {
            Ok(true) => match T::decode(self) {
                Ok(v) => Ok(Some(v)),
                Err(e) => Err(e),
            },
            Ok(false) => Ok(None),
            Err(e) => Err(e),
        }
    }
}


impl<'a> Decoder<'a> {
    /// Reads `N` bytes of fixed-length opaque data into an array and skips its padding.
    pub fn read_fixed_array<const N: usize>(&mut self) -> (r: Result<[u8; N], XdrError>)
        ensures
            final(self).input() == old(self).input(),
            old(self).pos() <= final(self).pos() <= final(self).input().len(),
            r is Ok <==> old(self).pos() + N + pad_len(N as nat) <= old(self).input().len(),
            r matches Ok(a) ==> a@ == old(self).input().subrange(old(self).pos(), old(self).pos() + N)
                && final(self).pos() == old(self).pos() + N + pad_len(N as nat),
    {
        let bytes = match self.read_fixed_opaque(N) {
            Ok(b) => b,
            Err(e) => return Err(e),
        };
        let mut out = [0u8; N];
        let mut i: usize = 0;
        while i < N
            invariant
                i <= N,
                bytes@.len() == N,
                out@.len() == N,
                forall|j: int| 0 <= j < i ==> out@[j] == bytes@[j],
            decreases N - i,
        {
            out[i] = bytes[i];
            i = i + 1;
        }
        assert(out@ =~= bytes@);
        Ok(out)
    }
}

} // verus!
