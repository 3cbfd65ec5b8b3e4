//! Wire framing: fixed-width big-endian integers, length-prefixed byte
//! strings and length-prefixed vectors of items.
//!
//! Every encodable type states its wire format twice, as a function from
//! values to bytes (`encoding`) and as a function from bytes to values
//! (`parse`), and proves that the two are inverse to each other.

use vstd::prelude::*;

verus! {

/// Why a byte string could not be decoded.
#[derive(Clone, Copy, Debug, PartialEq, Eq, Structural)]
pub enum CodecError {
    /// The input ended before the value did.
    ShortRead,
    /// A tag or code holds a value that no message has.
    UnexpectedValue,
    /// The value ended before the input did.
    BytesLeftOver,
    /// A byte string or vector is longer than its length prefix can say.
    LengthPrefixOverflow,
}

/// The largest length that a 16-bit length prefix can announce.
pub const MAX_U16_LEN: usize = 0xffff;

/// `256^n`.
pub open spec fn pow256(n: nat) -> nat
    decreases n,
{
    if n == 0 {
        1
    } else {
        256 * pow256((n - 1) as nat)
    }
}

/// The `width` low-order base-256 digits of `v`, most significant first.
pub open spec fn be_bytes(v: nat, width: nat) -> Seq<u8>
    decreases width,
{
    if width == 0 {
        Seq::empty()
    } else {
        be_bytes(v / 256, (width - 1) as nat).push((v % 256) as u8)
    }
}

/// The number whose base-256 digits, most significant first, are `s`.
pub open spec fn be_value(s: Seq<u8>) -> nat
    decreases s.len(),
{
    if s.len() == 0 {
        0
    } else {
        be_value(s.drop_last()) * 256 + s.last() as nat
    }
}

/// A number is written in as many digits as are asked for.
pub proof fn lemma_be_bytes_len(v: nat, width: nat)
    ensures
        be_bytes(v, width).len() == width,
    decreases width,
{
    if width > 0 {
        lemma_be_bytes_len(v / 256, (width - 1) as nat);
    }
}

/// The number that `n` digits spell is below `256^n`.
pub proof fn lemma_be_value_bound(s: Seq<u8>)
    ensures
        be_value(s) < pow256(s.len()),
    decreases s.len(),
{
    if s.len() > 0 {
        lemma_be_value_bound(s.drop_last());
    }
}

/// Reading back the digits of a number that fits gives the number.
pub proof fn lemma_be_value_of_bytes(v: nat, width: nat)
    requires
        v < pow256(width),
    ensures
        be_value(be_bytes(v, width)) == v,
    decreases width,
{
    if width > 0 {
        let head = be_bytes(v / 256, (width - 1) as nat);
        lemma_be_value_of_bytes(v / 256, (width - 1) as nat);
        lemma_be_bytes_len(v / 256, (width - 1) as nat);
        assert(be_bytes(v, width).drop_last() =~= head);
    }
}

/// Writing the digits of the number that a string spells gives the string.
pub proof fn lemma_be_bytes_of_value(s: Seq<u8>)
    ensures
        be_bytes(be_value(s), s.len()) == s,
    decreases s.len(),
{
    if s.len() > 0 {
        lemma_be_bytes_of_value(s.drop_last());
        assert(be_bytes(be_value(s), s.len()) =~= s);
    } else {
        assert(be_bytes(be_value(s), s.len()) =~= s);
    }
}

/// The first powers of 256.
pub proof fn lemma_pow256_values()
    ensures
        pow256(0) == 1,
        pow256(1) == 0x100,
        pow256(2) == 0x1_0000,
        pow256(3) == 0x100_0000,
        pow256(4) == 0x1_0000_0000,
        pow256(5) == 0x100_0000_0000,
        pow256(6) == 0x1_0000_0000_0000,
        pow256(7) == 0x100_0000_0000_0000,
        pow256(8) == 0x1_0000_0000_0000_0000,
{
    reveal_with_fuel(pow256, 10);
}

/// A read position in a byte string. Its view is the part not yet read.
#[derive(Clone, Copy)]
pub struct Cursor<'a> {
    bytes: &'a [u8],
    pos: usize,
}

impl<'a> View for Cursor<'a> {
    type V = Seq<u8>;

    closed spec fn view(&self) -> Seq<u8> {
        self.bytes@.skip(self.pos as int)
    }
}

impl<'a> Cursor<'a> {
    #[verifier::type_invariant]
    spec fn in_bounds(self) -> bool {
        self.pos <= self.bytes@.len()
    }

    /// A cursor at the start of `bytes`.
    pub fn new(bytes: &'a [u8]) -> (cur: Self)
        ensures
            cur@ == bytes@,
    {
        let cur = Cursor { bytes, pos: 0 };
        assert(cur@ =~= bytes@);
        cur
    }

    /// The number of bytes not yet read.
    pub fn remaining(&self) -> (n: usize)
        ensures
            n == self@.len(),
    {
        proof {
            use_type_invariant(self);
        }
        self.bytes.len() - self.pos
    }

    /// Reads the next `n` bytes, or nothing if fewer are left.
    pub fn take(&mut self, n: usize) -> (r: Result<&'a [u8], CodecError>)
        ensures
            match r {
                Ok(taken) => {
                    &&& n <= old(self)@.len()
                    &&& taken@ == old(self)@.take(n as int)
                    &&& final(self)@ == old(self)@.skip(n as int)
                },
                Err(e) => {
                    &&& n > old(self)@.len()
                    &&& e == CodecError::ShortRead
                    &&& final(self)@ == old(self)@
                },
            },
    {
        proof {
            use_type_invariant(&*self);
        }
        if self.bytes.len() - self.pos < n {
            return Err(CodecError::ShortRead);
        }
        let taken = vstd::slice::slice_subrange(self.bytes, self.pos, self.pos + n);
        let ghost before = self@;
        self.pos = self.pos + n;
        assert(taken@ =~= before.take(n as int));
        assert(self@ =~= before.skip(n as int));
        Ok(taken)
    }
}

/// Appends the `width` low-order bytes of `v`, most significant first.
fn encode_uint(bytes: &mut Vec<u8>, v: u64, width: usize)
    requires
        width <= 8,
    ensures
        final(bytes)@ == old(bytes)@ + be_bytes(v as nat, width as nat),
    decreases width,
{
    if width > 0 {
        encode_uint(bytes, v / 256, width - 1);
        bytes.push((v % 256) as u8);
        assert(bytes@ =~= old(bytes)@ + be_bytes(v as nat, width as nat));
    } else {
        assert(bytes@ =~= old(bytes)@ + be_bytes(v as nat, width as nat));
    }
}

/// Reads a big-endian integer of `width` bytes.
fn decode_uint(cur: &mut Cursor, width: usize) -> (r: Result<u64, CodecError>)
    requires
        width <= 8,
    ensures
        match r {
            Ok(v) => {
                &&& width <= old(cur)@.len()
                &&& v == be_value(old(cur)@.take(width as int))
                &&& final(cur)@ == old(cur)@.skip(width as int)
            },
            Err(e) => {
                &&& width > old(cur)@.len()
                &&& e == CodecError::ShortRead
                &&& final(cur)@ == old(cur)@
            },
        },
{
    let taken = cur.take(width)?;
    let mut v: u64 = 0;
    let mut i: usize = 0;
    while i < width
        invariant
            i <= width <= 8,
            taken@.len() == width,
            v == be_value(taken@.take(i as int)),
        decreases width - i,
    {
        proof {
            lemma_be_value_bound(taken@.take(i as int));
            lemma_pow256_values();
            assert(pow256(i as nat) <= pow256(7)) by {
                lemma_pow256_monotonic(i as nat, 7);
            }
            assert(taken@.take(i + 1).drop_last() =~= taken@.take(i as int));
        }
        v = v * 256 + taken[i] as u64;
        i = i + 1;
    }
    assert(taken@.take(width as int) =~= taken@);
    Ok(v)
}

/// The powers of 256 grow and are positive.
pub proof fn lemma_pow256_monotonic(a: nat, b: nat)
    requires
        a <= b,
    ensures
        pow256(a) <= pow256(b),
        pow256(a) > 0,
    decreases b,
{
    if a < b {
        lemma_pow256_monotonic(a, (b - 1) as nat);
    } else if a > 0 {
        lemma_pow256_monotonic((a - 1) as nat, (a - 1) as nat);
    }
}

/// Joining three strings gives the same whichever two are joined first.
pub proof fn lemma_concat_assoc(a: Seq<u8>, b: Seq<u8>, c: Seq<u8>)
    ensures
        (a + b) + c == a + (b + c),
{
    assert((a + b) + c =~= a + (b + c));
}

/// Joining nothing to a string changes nothing.
pub proof fn lemma_concat_empty(a: Seq<u8>)
    ensures
        a + Seq::<u8>::empty() == a,
{
    assert(a + Seq::<u8>::empty() =~= a);
}

/// Whether `after` starts with `before`.
pub open spec fn extends(before: Seq<u8>, after: Seq<u8>) -> bool {
    &&& before.len() <= after.len()
    &&& forall|i: int| 0 <= i < before.len() ==> after[i] == before[i]
}

/// A type with a wire format.
///
/// `encoding` says which bytes a value is written as and `parse` says which
/// value, if any, a byte string starts with and what follows it. The three
/// lemmas make the two inverse to each other; `encode` and `decode` compute
/// them.
pub trait Codec: Sized + View {
    /// Whether the value can be written: every length in it fits its prefix.
    spec fn encodable(v: Self::V) -> bool;

    /// The bytes that the value is written as.
    spec fn encoding(v: Self::V) -> Seq<u8>;

    /// The value that `s` starts with and the bytes that follow it.
    spec fn parse(s: Seq<u8>) -> Result<(Self::V, Seq<u8>), CodecError>;

    /// Whether the value stands in the form in which `decode` gives it.
    /// Most values have one form only; a codepoint that has a name can
    /// also stand as a bare number, which `decode` never gives.
    open spec fn is_canonical(&self) -> bool {
        true
    }

    /// Reading what was written gives back the value and leaves what followed.
    proof fn lemma_parse_encoding(v: Self::V, rest: Seq<u8>)
        requires
            Self::encodable(v),
        ensures
            Self::parse(Self::encoding(v) + rest) == Ok::<(Self::V, Seq<u8>), CodecError>(
                (v, rest),
            ),
    ;

    /// Whatever is read was written exactly so: the input is the encoding of
    /// the value, which is not empty, followed by the rest.
    proof fn lemma_encoding_parse(s: Seq<u8>)
        ensures
            Self::parse(s) matches Ok((v, rest)) ==> {
                &&& Self::encodable(v)
                &&& Self::encoding(v).len() > 0
                &&& s == Self::encoding(v) + rest
            },
    ;

    /// A proper prefix of an encoding is a short read.
    proof fn lemma_parse_truncated(v: Self::V, k: int)
        requires
            Self::encodable(v),
            0 <= k < Self::encoding(v).len(),
        ensures
            Self::parse(Self::encoding(v).take(k)) == Err::<(Self::V, Seq<u8>), CodecError>(
                CodecError::ShortRead,
            ),
    ;

    /// Appends the encoding of the value to `bytes`. A value that cannot be
    /// written is refused; what was in `bytes` before stays in front.
    fn encode(&self, bytes: &mut Vec<u8>) -> (r: Result<(), CodecError>)
        ensures
            match r {
                Ok(_) => Self::encodable(self@) && final(bytes)@ == old(bytes)@ + Self::encoding(
                    self@,
                ),
                Err(e) => {
                    &&& !Self::encodable(self@)
                    &&& e == CodecError::LengthPrefixOverflow
                    &&& extends(old(bytes)@, final(bytes)@)
                },
            },
    ;

    /// Reads a value at the cursor. On failure the cursor stays where it was.
    fn decode(cur: &mut Cursor) -> (r: Result<Self, CodecError>)
        ensures
            match Self::parse(old(cur)@) {
                Ok((v, rest)) => {
                    &&& r matches Ok(m) && m@ == v && m.is_canonical()
                    &&& final(cur)@ == rest
                },
                Err(e) => r matches Err(x) && x == e && final(cur)@ == old(cur)@,
            },
    ;
}

/// What reading a big-endian integer of `width` bytes from `s` gives.
pub open spec fn parse_uint(s: Seq<u8>, width: nat) -> Result<(nat, Seq<u8>), CodecError> {
    if s.len() < width {
        Err(CodecError::ShortRead)
    } else {
        Ok((be_value(s.take(width as int)), s.skip(width as int)))
    }
}

/// Reading the digits of a number that fits gives the number and leaves
/// what followed.
pub proof fn lemma_parse_uint_encoding(v: nat, width: nat, rest: Seq<u8>)
    requires
        v < pow256(width),
    ensures
        parse_uint(be_bytes(v, width) + rest, width) == Ok::<(nat, Seq<u8>), CodecError>(
            (v, rest),
        ),
{
    let e = be_bytes(v, width);
    lemma_be_bytes_len(v, width);
    lemma_be_value_of_bytes(v, width);
    assert((e + rest).take(width as int) =~= e);
    assert((e + rest).skip(width as int) =~= rest);
}

/// An integer that is read was written as the digits that were read.
pub proof fn lemma_uint_encoding_parse(s: Seq<u8>, width: nat)
    ensures
        parse_uint(s, width) matches Ok((v, rest)) ==> {
            &&& v < pow256(width)
            &&& be_bytes(v, width).len() == width
            &&& s == be_bytes(v, width) + rest
        },
{
    if s.len() >= width {
        let head = s.take(width as int);
        lemma_be_value_bound(head);
        lemma_be_bytes_of_value(head);
        lemma_be_bytes_len(be_value(head), width);
        assert(s =~= head + s.skip(width as int));
    }
}

/// Fewer digits than the width are a short read.
pub proof fn lemma_parse_uint_truncated(v: nat, width: nat, k: int)
    requires
        0 <= k < width,
    ensures
        parse_uint(be_bytes(v, width).take(k), width) == Err::<(nat, Seq<u8>), CodecError>(
            CodecError::ShortRead,
        ),
{
    lemma_be_bytes_len(v, width);
}

impl Codec for u8 {
    open spec fn encodable(v: u8) -> bool {
        true
    }

    open spec fn encoding(v: u8) -> Seq<u8> {
        be_bytes(v as nat, 1)
    }

    open spec fn parse(s: Seq<u8>) -> Result<(u8, Seq<u8>), CodecError> {
        match parse_uint(s, 1) {
            Ok((v, rest)) => Ok((v as u8, rest)),
            Err(e) => Err(e),
        }
    }

    proof fn lemma_parse_encoding(v: u8, rest: Seq<u8>) {
        lemma_pow256_values();
        lemma_parse_uint_encoding(v as nat, 1, rest);
    }

    proof fn lemma_encoding_parse(s: Seq<u8>) {
        lemma_pow256_values();
        lemma_uint_encoding_parse(s, 1);
    }

    proof fn lemma_parse_truncated(v: u8, k: int) {
        lemma_be_bytes_len(v as nat, 1);
        lemma_parse_uint_truncated(v as nat, 1, k);
    }

    fn encode(&self, bytes: &mut Vec<u8>) -> (r: Result<(), CodecError>) {
        encode_uint(bytes, *self as u64, 1);
        Ok(())
    }

    fn decode(cur: &mut Cursor) -> (r: Result<Self, CodecError>) {
        proof {
            lemma_pow256_values();
            lemma_be_value_bound(cur@.take(1));
        }
        let v = decode_uint(cur, 1)?;
        Ok(v as u8)
    }
}

/// A byte is read as itself.
pub proof fn lemma_parse_u8(s: Seq<u8>)
    requires
        s.len() > 0,
    ensures
        u8::parse(s) == Ok::<(u8, Seq<u8>), CodecError>((s[0], s.skip(1))),
{
    let head = s.take(1);
    assert(head.drop_last() =~= Seq::<u8>::empty());
    assert(be_value(head.drop_last()) == 0);
    assert(head.last() == s[0]);
}

impl Codec for u16 {
    open spec fn encodable(v: u16) -> bool {
        true
    }

    open spec fn encoding(v: u16) -> Seq<u8> {
        be_bytes(v as nat, 2)
    }

    open spec fn parse(s: Seq<u8>) -> Result<(u16, Seq<u8>), CodecError> {
        match parse_uint(s, 2) {
            Ok((v, rest)) => Ok((v as u16, rest)),
            Err(e) => Err(e),
        }
    }

    proof fn lemma_parse_encoding(v: u16, rest: Seq<u8>) {
        lemma_pow256_values();
        lemma_parse_uint_encoding(v as nat, 2, rest);
    }

    proof fn lemma_encoding_parse(s: Seq<u8>) {
        lemma_pow256_values();
        lemma_uint_encoding_parse(s, 2);
    }

    proof fn lemma_parse_truncated(v: u16, k: int) {
        lemma_be_bytes_len(v as nat, 2);
        lemma_parse_uint_truncated(v as nat, 2, k);
    }

    fn encode(&self, bytes: &mut Vec<u8>) -> (r: Result<(), CodecError>) {
        encode_uint(bytes, *self as u64, 2);
        Ok(())
    }

    fn decode(cur: &mut Cursor) -> (r: Result<Self, CodecError>) {
        proof {
            lemma_pow256_values();
            lemma_be_value_bound(cur@.take(2));
        }
        let v = decode_uint(cur, 2)?;
        Ok(v as u16)
    }
}

impl Codec for u64 {
    open spec fn encodable(v: u64) -> bool {
        true
    }

    open spec fn encoding(v: u64) -> Seq<u8> {
        be_bytes(v as nat, 8)
    }

    open spec fn parse(s: Seq<u8>) -> Result<(u64, Seq<u8>), CodecError> {
        match parse_uint(s, 8) {
            Ok((v, rest)) => Ok((v as u64, rest)),
            Err(e) => Err(e),
        }
    }

    proof fn lemma_parse_encoding(v: u64, rest: Seq<u8>) {
        lemma_pow256_values();
        lemma_parse_uint_encoding(v as nat, 8, rest);
    }

    proof fn lemma_encoding_parse(s: Seq<u8>) {
        lemma_pow256_values();
        lemma_uint_encoding_parse(s, 8);
    }

    proof fn lemma_parse_truncated(v: u64, k: int) {
        lemma_be_bytes_len(v as nat, 8);
        lemma_parse_uint_truncated(v as nat, 8, k);
    }

    fn encode(&self, bytes: &mut Vec<u8>) -> (r: Result<(), CodecError>) {
        encode_uint(bytes, *self, 8);
        Ok(())
    }

    fn decode(cur: &mut Cursor) -> (r: Result<Self, CodecError>) {
        decode_uint(cur, 8)
    }
}

/// Every encoding holds at least one byte.
pub proof fn lemma_encoding_nonempty<T: Codec>(v: T::V)
    requires
        T::encodable(v),
    ensures
        T::encoding(v).len() > 0,
{
    T::lemma_parse_encoding(v, Seq::empty());
    T::lemma_encoding_parse(T::encoding(v) + Seq::empty());
}

/// What reading a value in front of a cut-off tail gives: a short read while
/// the cut falls inside the value, else the value and the cut-off tail.
pub proof fn lemma_parse_cut<T: Codec>(v: T::V, tail: Seq<u8>, k: int)
    requires
        T::encodable(v),
        0 <= k <= T::encoding(v).len() + tail.len(),
    ensures
        k < T::encoding(v).len() ==> T::parse((T::encoding(v) + tail).take(k)) == Err::<
            (T::V, Seq<u8>),
            CodecError,
        >(CodecError::ShortRead),
        k >= T::encoding(v).len() ==> T::parse((T::encoding(v) + tail).take(k)) == Ok::<
            (T::V, Seq<u8>),
            CodecError,
        >((v, tail.take(k - T::encoding(v).len()))),
{
    let e = T::encoding(v);
    if k < e.len() {
        T::lemma_parse_truncated(v, k);
        assert((e + tail).take(k) =~= e.take(k));
    } else {
        T::lemma_parse_encoding(v, tail.take(k - e.len()));
        assert((e + tail).take(k) =~= e + tail.take(k - e.len()));
    }
}

/// What decoding a whole byte string as one value gives.
pub open spec fn decoding<T: Codec>(s: Seq<u8>) -> Result<T::V, CodecError> {
    match T::parse(s) {
        Err(e) => Err(e),
        Ok((v, rest)) => if rest.len() == 0 {
            Ok(v)
        } else {
            Err(CodecError::BytesLeftOver)
        },
    }
}

/// Decoding the encoding of a value gives the value.
pub proof fn lemma_decode_encode<T: Codec>(v: T::V)
    requires
        T::encodable(v),
    ensures
        decoding::<T>(T::encoding(v)) == Ok::<T::V, CodecError>(v),
{
    T::lemma_parse_encoding(v, Seq::empty());
    assert(T::encoding(v) + Seq::<u8>::empty() =~= T::encoding(v));
}

/// Encoding is canonical: a byte string that decodes is the encoding of what
/// it decodes to.
pub proof fn lemma_encode_decode<T: Codec>(s: Seq<u8>)
    requires
        decoding::<T>(s) is Ok,
    ensures
        T::encodable(decoding::<T>(s)->Ok_0),
        T::encoding(decoding::<T>(s)->Ok_0) == s,
{
    T::lemma_encoding_parse(s);
    let (v, rest) = T::parse(s)->Ok_0;
    assert(T::encoding(v) + rest =~= T::encoding(v));
}

/// Decoding a proper prefix of an encoding is a short read.
pub proof fn lemma_decode_truncated<T: Codec>(v: T::V, k: int)
    requires
        T::encodable(v),
        0 <= k < T::encoding(v).len(),
    ensures
        decoding::<T>(T::encoding(v).take(k)) == Err::<T::V, CodecError>(CodecError::ShortRead),
{
    T::lemma_parse_truncated(v, k);
}

/// The encoding of a value, in a buffer of its own.
pub fn get_encoded<T: Codec>(m: &T) -> (r: Result<Vec<u8>, CodecError>)
    ensures
        match r {
            Ok(bytes) => T::encodable(m@) && bytes@ == T::encoding(m@),
            Err(e) => !T::encodable(m@) && e == CodecError::LengthPrefixOverflow,
        },
{
    let mut bytes: Vec<u8> = Vec::new();
    m.encode(&mut bytes)?;
    assert(bytes@ =~= T::encoding(m@));
    Ok(bytes)
}

/// Decodes `bytes` as one value with nothing after it.
pub fn get_decoded<T: Codec>(bytes: &[u8]) -> (r: Result<T, CodecError>)
    ensures
        match decoding::<T>(bytes@) {
            Ok(v) => r matches Ok(m) && m@ == v && m.is_canonical(),
            Err(e) => r matches Err(x) && x == e,
        },
{
    let mut cur = Cursor::new(bytes);
    let m = T::decode(&mut cur)?;
    if cur.remaining() != 0 {
        return Err(CodecError::BytesLeftOver);
    }
    Ok(m)
}

/// Appends `input` to `bytes`.
pub fn append_bytes(bytes: &mut Vec<u8>, input: &[u8])
    ensures
        final(bytes)@ == old(bytes)@ + input@,
{
    let mut i: usize = 0;
    while i < input.len()
        invariant
            i <= input@.len(),
            bytes@ == old(bytes)@ + input@.take(i as int),
        decreases input@.len() - i,
    {
        bytes.push(input[i]);
        i = i + 1;
        assert(bytes@ =~= old(bytes)@ + input@.take(i as int));
    }
    assert(input@.take(i as int) =~= input@);
}

/// Whether a byte string fits behind a 16-bit length prefix.
pub open spec fn bytes16_encodable(b: Seq<u8>) -> bool {
    b.len() <= MAX_U16_LEN
}

/// A byte string behind its length, written as a 16-bit integer.
pub open spec fn bytes16_encoding(b: Seq<u8>) -> Seq<u8> {
    be_bytes(b.len(), 2) + b
}

/// The length-prefixed byte string that `s` starts with, and what follows.
pub open spec fn bytes16_parse(s: Seq<u8>) -> Result<(Seq<u8>, Seq<u8>), CodecError> {
    match parse_uint(s, 2) {
        Err(e) => Err(e),
        Ok((len, rest)) => if rest.len() < len {
            Err(CodecError::ShortRead)
        } else {
            Ok((rest.take(len as int), rest.skip(len as int)))
        },
    }
}

/// Reading a length-prefixed byte string that was written gives it back
/// and leaves what followed.
pub proof fn lemma_bytes16_parse_encoding(b: Seq<u8>, rest: Seq<u8>)
    requires
        bytes16_encodable(b),
    ensures
        bytes16_parse(bytes16_encoding(b) + rest) == Ok::<(Seq<u8>, Seq<u8>), CodecError>(
            (b, rest),
        ),
{
    lemma_pow256_values();
    lemma_parse_uint_encoding(b.len(), 2, b + rest);
    assert(bytes16_encoding(b) + rest =~= be_bytes(b.len(), 2) + (b + rest));
    assert((b + rest).take(b.len() as int) =~= b);
    assert((b + rest).skip(b.len() as int) =~= rest);
}

/// A length-prefixed byte string that is read was written exactly so.
pub proof fn lemma_bytes16_encoding_parse(s: Seq<u8>)
    ensures
        bytes16_parse(s) matches Ok((b, rest)) ==> {
            &&& bytes16_encodable(b)
            &&& bytes16_encoding(b).len() > 0
            &&& s == bytes16_encoding(b) + rest
        },
{
    lemma_pow256_values();
    lemma_uint_encoding_parse(s, 2);
    if let Ok((len, after)) = parse_uint(s, 2) {
        if after.len() >= len {
            let b = after.take(len as int);
            assert(after =~= b + after.skip(len as int));
            assert(s =~= bytes16_encoding(b) + after.skip(len as int));
        }
    }
}

/// What reading a length-prefixed byte string in front of a cut-off tail
/// gives: a short read while the cut falls inside it, else the byte string
/// and the cut-off tail.
pub proof fn lemma_bytes16_parse_cut(b: Seq<u8>, tail: Seq<u8>, k: int)
    requires
        bytes16_encodable(b),
        0 <= k <= bytes16_encoding(b).len() + tail.len(),
    ensures
        k < bytes16_encoding(b).len() ==> bytes16_parse((bytes16_encoding(b) + tail).take(k))
            == Err::<(Seq<u8>, Seq<u8>), CodecError>(CodecError::ShortRead),
        k >= bytes16_encoding(b).len() ==> bytes16_parse((bytes16_encoding(b) + tail).take(k))
            == Ok::<(Seq<u8>, Seq<u8>), CodecError>((b, tail.take(k - bytes16_encoding(b).len()))),
{
    let prefix = be_bytes(b.len(), 2);
    let e = bytes16_encoding(b);
    let cut = (e + tail).take(k);
    lemma_pow256_values();
    lemma_be_bytes_len(b.len(), 2);
    if k < 2 {
        assert(cut.len() < 2);
    } else if k < e.len() {
        lemma_parse_uint_encoding(b.len(), 2, b.take(k - 2));
        assert(cut =~= prefix + b.take(k - 2));
    } else {
        lemma_bytes16_parse_encoding(b, tail.take(k - e.len()));
        assert(cut =~= e + tail.take(k - e.len()));
    }
}

/// Appends `input` behind its length, written as a 16-bit integer.
pub fn encode_u16_bytes(bytes: &mut Vec<u8>, input: &[u8]) -> (r: Result<(), CodecError>)
    ensures
        match r {
            Ok(_) => bytes16_encodable(input@) && final(bytes)@ == old(bytes)@ + bytes16_encoding(
                input@,
            ),
            Err(e) => {
                &&& !bytes16_encodable(input@)
                &&& e == CodecError::LengthPrefixOverflow
                &&& final(bytes)@ == old(bytes)@
            },
        },
{
    if input.len() > MAX_U16_LEN {
        return Err(CodecError::LengthPrefixOverflow);
    }
    encode_uint(bytes, input.len() as u64, 2);
    append_bytes(bytes, input);
    assert(bytes@ =~= old(bytes)@ + bytes16_encoding(input@));
    Ok(())
}

/// Reads a byte string behind a 16-bit length. On failure the cursor stays
/// where it was.
pub fn decode_u16_bytes(cur: &mut Cursor) -> (r: Result<Vec<u8>, CodecError>)
    ensures
        match bytes16_parse(old(cur)@) {
            Ok((b, rest)) => r matches Ok(v) && v@ == b && final(cur)@ == rest,
            Err(e) => r matches Err(x) && x == e && final(cur)@ == old(cur)@,
        },
{
    let mut c = *cur;
    let len = decode_uint(&mut c, 2)?;
    proof {
        lemma_pow256_values();
        lemma_be_value_bound(cur@.take(2));
    }
    let taken = c.take(len as usize)?;
    let out = vstd::slice::slice_to_vec(taken);
    *cur = c;
    Ok(out)
}

/// The models of the items of a sequence.
pub open spec fn views<T: View>(items: Seq<T>) -> Seq<T::V> {
    items.map_values(|item: T| item@)
}

/// Whether each item can be written.
pub open spec fn items_encodable<T: Codec>(items: Seq<T::V>) -> bool {
    forall|i: int| 0 <= i < items.len() ==> T::encodable(#[trigger] items[i])
}

/// The encodings of the items, one after the other.
pub open spec fn items_encoding<T: Codec>(items: Seq<T::V>) -> Seq<u8>
    decreases items.len(),
{
    if items.len() == 0 {
        Seq::empty()
    } else {
        T::encoding(items[0]) + items_encoding::<T>(items.drop_first())
    }
}

/// `done` in front of the items of `r`, if `r` has any.
pub open spec fn prepend_items<V>(done: Seq<V>, r: Result<Seq<V>, CodecError>) -> Result<
    Seq<V>,
    CodecError,
> {
    match r {
        Ok(items) => Ok(done + items),
        Err(e) => Err(e),
    }
}

/// The items that `s` is made of: items are read until nothing is left.
/// An item takes at least one byte (`Codec::lemma_encoding_parse`), so the
/// last branch only serves to show that the reading ends.
pub open spec fn parse_items<T: Codec>(s: Seq<u8>) -> Result<Seq<T::V>, CodecError>
    decreases s.len(),
{
    if s.len() == 0 {
        Ok(Seq::empty())
    } else {
        match T::parse(s) {
            Err(e) => Err(e),
            Ok((v, rest)) => {
                if rest.len() < s.len() {
                    prepend_items(seq![v], parse_items::<T>(rest))
                } else {
                    Err(CodecError::UnexpectedValue)
                }
            },
        }
    }
}

/// Whether the items fit, one after the other, behind a 16-bit length.
pub open spec fn items16_encodable<T: Codec>(items: Seq<T::V>) -> bool {
    items_encodable::<T>(items) && items_encoding::<T>(items).len() <= MAX_U16_LEN
}

/// The items one after the other, behind the number of bytes that they take,
/// written as a 16-bit integer.
pub open spec fn items16_encoding<T: Codec>(items: Seq<T::V>) -> Seq<u8> {
    bytes16_encoding(items_encoding::<T>(items))
}

/// The length-prefixed vector of items that `s` starts with, and what
/// follows. The items must fill the announced length exactly.
pub open spec fn items16_parse<T: Codec>(s: Seq<u8>) -> Result<(Seq<T::V>, Seq<u8>), CodecError> {
    match bytes16_parse(s) {
        Err(e) => Err(e),
        Ok((body, rest)) => match parse_items::<T>(body) {
            Err(e) => Err(e),
            Ok(items) => Ok((items, rest)),
        },
    }
}

/// An item behind others is written behind them.
pub proof fn lemma_items_encoding_push<T: Codec>(items: Seq<T::V>, last: T::V)
    ensures
        items_encoding::<T>(items.push(last)) == items_encoding::<T>(items) + T::encoding(last),
    decreases items.len(),
{
    let all = items.push(last);
    if items.len() == 0 {
        assert(all.drop_first() =~= Seq::<T::V>::empty());
        assert(items_encoding::<T>(all.drop_first()) =~= Seq::<u8>::empty());
        assert(items_encoding::<T>(all) =~= items_encoding::<T>(items) + T::encoding(last));
    } else {
        lemma_items_encoding_push::<T>(items.drop_first(), last);
        assert(all.drop_first() =~= items.drop_first().push(last));
        assert(items_encoding::<T>(all) =~= items_encoding::<T>(items) + T::encoding(last));
    }
}

/// Reading the encodings of items gives the items.
pub proof fn lemma_parse_items_encoding<T: Codec>(items: Seq<T::V>)
    requires
        items_encodable::<T>(items),
    ensures
        parse_items::<T>(items_encoding::<T>(items)) == Ok::<Seq<T::V>, CodecError>(items),
    decreases items.len(),
{
    if items.len() == 0 {
        assert(items =~= Seq::<T::V>::empty());
    } else {
        let tail = items.drop_first();
        lemma_parse_items_encoding::<T>(tail);
        lemma_encoding_nonempty::<T>(items[0]);
        T::lemma_parse_encoding(items[0], items_encoding::<T>(tail));
        assert(seq![items[0]] + tail =~= items);
    }
}

/// Items that are read were written exactly so.
pub proof fn lemma_items_encoding_parse<T: Codec>(s: Seq<u8>)
    ensures
        parse_items::<T>(s) matches Ok(items) ==> items_encodable::<T>(items) && items_encoding::<
            T,
        >(items) == s,
    decreases s.len(),
{
    if s.len() > 0 {
        T::lemma_encoding_parse(s);
        if let Ok((v, rest)) = T::parse(s) {
            if rest.len() < s.len() {
                lemma_items_encoding_parse::<T>(rest);
                if let Ok(tail) = parse_items::<T>(rest) {
                    let items = seq![v] + tail;
                    assert(items.drop_first() =~= tail);
                    assert(items[0] == v);
                    assert forall|i: int| 0 <= i < items.len() implies T::encodable(
                        #[trigger] items[i],
                    ) by {
                        if i > 0 {
                            assert(items[i] == tail[i - 1]);
                        }
                    }
                }
            }
        }
    } else {
        assert(s =~= Seq::<u8>::empty());
    }
}

/// Reading a length-prefixed vector that was written gives back its items
/// and leaves what followed.
pub proof fn lemma_items16_parse_encoding<T: Codec>(items: Seq<T::V>, rest: Seq<u8>)
    requires
        items16_encodable::<T>(items),
    ensures
        items16_parse::<T>(items16_encoding::<T>(items) + rest) == Ok::<
            (Seq<T::V>, Seq<u8>),
            CodecError,
        >((items, rest)),
{
    lemma_bytes16_parse_encoding(items_encoding::<T>(items), rest);
    lemma_parse_items_encoding::<T>(items);
}

/// A length-prefixed vector that is read was written exactly so.
pub proof fn lemma_items16_encoding_parse<T: Codec>(s: Seq<u8>)
    ensures
        items16_parse::<T>(s) matches Ok((items, rest)) ==> {
            &&& items16_encodable::<T>(items)
            &&& items16_encoding::<T>(items).len() > 0
            &&& s == items16_encoding::<T>(items) + rest
        },
{
    lemma_bytes16_encoding_parse(s);
    if let Ok((body, rest)) = bytes16_parse(s) {
        lemma_items_encoding_parse::<T>(body);
    }
}

/// What reading a length-prefixed vector in front of a cut-off tail
/// gives: a short read while the cut falls inside it, else the items and
/// the cut-off tail.
pub proof fn lemma_items16_parse_cut<T: Codec>(items: Seq<T::V>, tail: Seq<u8>, k: int)
    requires
        items16_encodable::<T>(items),
        0 <= k <= items16_encoding::<T>(items).len() + tail.len(),
    ensures
        k < items16_encoding::<T>(items).len() ==> items16_parse::<T>(
            (items16_encoding::<T>(items) + tail).take(k),
        ) == Err::<(Seq<T::V>, Seq<u8>), CodecError>(CodecError::ShortRead),
        k >= items16_encoding::<T>(items).len() ==> items16_parse::<T>(
            (items16_encoding::<T>(items) + tail).take(k),
        ) == Ok::<(Seq<T::V>, Seq<u8>), CodecError>(
            (items, tail.take(k - items16_encoding::<T>(items).len())),
        ),
{
    lemma_bytes16_parse_cut(items_encoding::<T>(items), tail, k);
    lemma_parse_items_encoding::<T>(items);
}

/// Appends the items, one after the other, behind the number of bytes that
/// they take, written as a 16-bit integer.
pub fn encode_u16_items<T: Codec>(bytes: &mut Vec<u8>, items: &Vec<T>) -> (r: Result<
    (),
    CodecError,
>)
    ensures
        match r {
            Ok(_) => items16_encodable::<T>(views(items@)) && final(bytes)@ == old(bytes)@
                + items16_encoding::<T>(views(items@)),
            Err(e) => {
                &&& !items16_encodable::<T>(views(items@))
                &&& e == CodecError::LengthPrefixOverflow
                &&& final(bytes)@ == old(bytes)@
            },
        },
{
    let ghost all = views(items@);
    let mut body: Vec<u8> = Vec::new();
    let mut i: usize = 0;
    assert(body@ =~= items_encoding::<T>(all.take(0)));
    while i < items.len()
        invariant
            i <= items@.len(),
            all == views(items@),
            items_encodable::<T>(all.take(i as int)),
            body@ == items_encoding::<T>(all.take(i as int)),
        decreases items@.len() - i,
    {
        let ghost before = body@;
        assert(all[i as int] == items@[i as int]@);
        match items[i].encode(&mut body) {
            Ok(_) => {},
            Err(e) => {
                return Err(e);
            },
        }
        proof {
            lemma_items_encoding_push::<T>(all.take(i as int), all[i as int]);
            assert(all.take(i + 1) =~= all.take(i as int).push(all[i as int]));
        }
        i = i + 1;
    }
    assert(all.take(i as int) =~= all);
    encode_u16_bytes(bytes, body.as_slice())
}

/// Reads a vector of items behind a 16-bit length. On failure the cursor
/// stays where it was.
pub fn decode_u16_items<T: Codec>(cur: &mut Cursor) -> (r: Result<Vec<T>, CodecError>)
    ensures
        match items16_parse::<T>(old(cur)@) {
            Ok((items, rest)) => r matches Ok(v) && views(v@) == items && final(cur)@ == rest,
            Err(e) => r matches Err(x) && x == e && final(cur)@ == old(cur)@,
        },
{
    let mut c = *cur;
    let len = decode_uint(&mut c, 2)?;
    proof {
        lemma_pow256_values();
        lemma_be_value_bound(cur@.take(2));
    }
    let body = c.take(len as usize)?;
    let mut sub = Cursor::new(body);
    let mut items: Vec<T> = Vec::new();
    proof {
        if let Ok(all) = parse_items::<T>(body@) {
            assert(views(items@) + all =~= all);
        }
    }
    while sub.remaining() > 0
        invariant
            cur@ == old(cur)@,
            bytes16_parse(old(cur)@) == Ok::<(Seq<u8>, Seq<u8>), CodecError>((body@, c@)),
            parse_items::<T>(body@) == prepend_items(views(items@), parse_items::<T>(sub@)),
        decreases sub@.len(),
    {
        let ghost before = sub@;
        let ghost done = views(items@);
        proof {
            T::lemma_encoding_parse(before);
        }
        let item = match T::decode(&mut sub) {
            Ok(item) => item,
            Err(e) => {
                return Err(e);
            },
        };
        items.push(item);
        proof {
            assert(views(items@) =~= done.push(item@));
            if let Ok(later) = parse_items::<T>(sub@) {
                assert(done + (seq![item@] + later) =~= done.push(item@) + later);
            }
        }
    }
    assert(views(items@) + Seq::<T::V>::empty() =~= views(items@));
    *cur = c;
    Ok(items)
}

/// The `n` bytes that `s` starts with, and what follows.
pub open spec fn parse_fixed(s: Seq<u8>, n: nat) -> Result<(Seq<u8>, Seq<u8>), CodecError> {
    if s.len() < n {
        Err(CodecError::ShortRead)
    } else {
        Ok((s.take(n as int), s.skip(n as int)))
    }
}

/// Reading as many bytes as were written gives them back and leaves what
/// followed.
pub proof fn lemma_parse_fixed_encoding(b: Seq<u8>, rest: Seq<u8>)
    ensures
        parse_fixed(b + rest, b.len()) == Ok::<(Seq<u8>, Seq<u8>), CodecError>((b, rest)),
{
    assert((b + rest).take(b.len() as int) =~= b);
    assert((b + rest).skip(b.len() as int) =~= rest);
}

/// Bytes that are read were there, in front of the rest.
pub proof fn lemma_fixed_encoding_parse(s: Seq<u8>, n: nat)
    ensures
        parse_fixed(s, n) matches Ok((b, rest)) ==> b.len() == n && s == b + rest,
{
    if s.len() >= n {
        assert(s =~= s.take(n as int) + s.skip(n as int));
    }
}

/// What reading a fixed number of bytes in front of a cut-off tail gives:
/// a short read while the cut falls inside them, else the bytes and the
/// cut-off tail.
pub proof fn lemma_parse_fixed_cut(b: Seq<u8>, tail: Seq<u8>, k: int)
    requires
        0 <= k <= b.len() + tail.len(),
    ensures
        k < b.len() ==> parse_fixed((b + tail).take(k), b.len()) == Err::<
            (Seq<u8>, Seq<u8>),
            CodecError,
        >(CodecError::ShortRead),
        k >= b.len() ==> parse_fixed((b + tail).take(k), b.len()) == Ok::<
            (Seq<u8>, Seq<u8>),
            CodecError,
        >((b, tail.take(k - b.len()))),
{
    if k >= b.len() {
        lemma_parse_fixed_encoding(b, tail.take(k - b.len()));
        assert((b + tail).take(k) =~= b + tail.take(k - b.len()));
    }
}

/// Reads 32 bytes. On failure the cursor stays where it was.
pub fn decode_array32(cur: &mut Cursor) -> (r: Result<[u8; 32], CodecError>)
    ensures
        match parse_fixed(old(cur)@, 32) {
            Ok((b, rest)) => r matches Ok(a) && a@ == b && final(cur)@ == rest,
            Err(e) => r matches Err(x) && x == e && final(cur)@ == old(cur)@,
        },
{
    let taken = cur.take(32)?;
    let mut data: [u8; 32] = [0u8; 32];
    let mut i: usize = 0;
    while i < 32
        invariant
            i <= 32,
            taken@.len() == 32,
            forall|j: int| 0 <= j < i ==> data@[j] == taken@[j],
        decreases 32 - i,
    {
        data[i] = taken[i];
        i = i + 1;
    }
    assert(data@ =~= taken@);
    Ok(data)
}

/// Appends the 32 bytes.
pub fn encode_array32(bytes: &mut Vec<u8>, data: &[u8; 32])
    ensures
        final(bytes)@ == old(bytes)@ + data@,
{
    append_bytes(bytes, data.as_slice());
}

} // verus!
