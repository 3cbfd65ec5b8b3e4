//! The protocol's messages and their wire formats.

use crate::codec::{
    bytes16_encodable, bytes16_encoding, bytes16_parse, decode_array32, decode_u16_bytes,
    decode_u16_items, encode_array32, encode_u16_bytes, encode_u16_items, items16_encodable,
    items16_encoding, items16_parse, lemma_bytes16_encoding_parse, lemma_bytes16_parse_cut,
    lemma_bytes16_parse_encoding, lemma_concat_assoc, lemma_concat_empty,
    lemma_fixed_encoding_parse, lemma_items16_encoding_parse, lemma_items16_parse_cut,
    lemma_items16_parse_encoding, lemma_parse_cut, lemma_parse_fixed_cut,
    lemma_parse_fixed_encoding, lemma_parse_u8, parse_fixed, views, Codec, CodecError, Cursor,
};
use crate::collections::Key;
use crate::error::DapAbort;
use crate::task::DapTaskConfig;
use vstd::prelude::*;

verus! {

/// X25519 with HKDF-SHA256.
pub const KEM_ID_X25519_HKDF_SHA256: u16 = 0x0020;

/// HKDF-SHA256.
pub const KDF_ID_HKDF_SHA256: u16 = 0x0001;

/// AES-128-GCM.
pub const AEAD_ID_AES128GCM: u16 = 0x0001;

/// An opaque 32-byte identifier.
#[derive(Clone, Copy, Debug, Default, PartialEq, Eq, Hash)]
pub struct Id(pub [u8; 32]);

/// Identifies a task.
pub type TaskId = Id;

/// Identifies a report.
pub type ReportId = Id;

/// Identifies an aggregation job.
pub type AggregationJobId = Id;

/// Identifies a collection job.
pub type CollectionJobId = Id;

/// Identifies a batch of a fixed-size task.
pub type BatchId = Id;

/// Seconds since the Unix epoch.
pub type Time = u64;

impl View for Id {
    type V = Seq<u8>;

    open spec fn view(&self) -> Seq<u8> {
        self.0@
    }
}

/// The text that is the base64 encoding of `bytes` in the URL-safe alphabet,
/// without padding.
pub uninterp spec fn base64url_text(bytes: Seq<u8>) -> Seq<char>;

/// Calls `base64::Engine::encode` on the engine
/// `base64::engine::general_purpose::URL_SAFE_NO_PAD` for 32 bytes. The
/// text it returns depends on the bytes alone; `base64url_text` is the name
/// for it.
#[verifier::external_body]
fn base64url_encode(bytes: &[u8; 32]) -> (text: String)
    ensures
        text@ == base64url_text(bytes@),
{
    base64::Engine::encode(&base64::engine::general_purpose::URL_SAFE_NO_PAD, bytes)
}

impl Id {
    /// The URL-safe base64 encoding of the identifier, without padding.
    pub fn to_base64url(&self) -> (text: String)
        ensures
            text@ == base64url_text(self@),
    {
        base64url_encode(&self.0)
    }

    /// The bytes of the identifier.
    pub fn as_ref(&self) -> (bytes: &[u8])
        ensures
            bytes@ == self@,
    {
        self.0.as_slice()
    }
}

/// A copy of the bytes.
pub fn clone_bytes(bytes: &Vec<u8>) -> (copy: Vec<u8>)
    ensures
        copy@ == bytes@,
{
    vstd::slice::slice_to_vec(bytes.as_slice())
}

/// Whether the two byte strings are equal. The time taken depends on their
/// lengths only.
pub fn constant_time_eq(left: &[u8], right: &[u8]) -> (b: bool)
    ensures
        b == (left@ == right@),
{
    if left.len() != right.len() {
        return false;
    }
    let mut r: u8 = 0;
    let mut i: usize = 0;
    assert(left@.take(0) =~= right@.take(0));
    while i < left.len()
        invariant
            i <= left@.len(),
            left@.len() == right@.len(),
            r == 0 <==> left@.take(i as int) == right@.take(i as int),
        decreases left@.len() - i,
    {
        let x = left[i];
        let y = right[i];
        assert((r | (x ^ y)) == 0 <==> (r == 0 && x == y)) by (bit_vector);
        proof {
            let l0 = left@.take(i as int);
            let r0 = right@.take(i as int);
            let l1 = left@.take(i + 1);
            let r1 = right@.take(i + 1);
            assert(l1 =~= l0.push(x));
            assert(r1 =~= r0.push(y));
            if l1 == r1 {
                assert(l0 =~= l1.drop_last());
                assert(r0 =~= r1.drop_last());
                assert(x == l1.last());
            }
        }
        r = r | (x ^ y);
        i = i + 1;
    }
    assert(left@.take(i as int) =~= left@);
    assert(right@.take(i as int) =~= right@);
    r == 0
}

impl Key for Id {
    fn same(&self, other: &Id) -> (b: bool) {
        constant_time_eq(self.0.as_slice(), other.0.as_slice())
    }
}

impl Codec for Id {
    open spec fn encodable(v: Seq<u8>) -> bool {
        v.len() == 32
    }

    open spec fn encoding(v: Seq<u8>) -> Seq<u8> {
        v
    }

    open spec fn parse(s: Seq<u8>) -> Result<(Seq<u8>, Seq<u8>), CodecError> {
        parse_fixed(s, 32)
    }

    proof fn lemma_parse_encoding(v: Seq<u8>, rest: Seq<u8>) {
        lemma_parse_fixed_encoding(v, rest);
    }

    proof fn lemma_encoding_parse(s: Seq<u8>) {
        lemma_fixed_encoding_parse(s, 32);
    }

    proof fn lemma_parse_truncated(v: Seq<u8>, k: int) {
    }

    fn encode(&self, bytes: &mut Vec<u8>) -> (r: Result<(), CodecError>) {
        encode_array32(bytes, &self.0);
        Ok(())
    }

    fn decode(cur: &mut Cursor) -> (r: Result<Self, CodecError>) {
        let data = decode_array32(cur)?;
        Ok(Id(data))
    }
}

/// A timestamp and a 64-bit random number: the short name of a report.
#[derive(Clone, Copy, Debug, PartialEq, Eq, Hash)]
pub struct Nonce {
    pub time: u64,
    pub rand: u64,
}

impl View for Nonce {
    type V = Nonce;

    open spec fn view(&self) -> Nonce {
        *self
    }
}

impl Codec for Nonce {
    open spec fn encodable(v: Nonce) -> bool {
        true
    }

    open spec fn encoding(v: Nonce) -> Seq<u8> {
        u64::encoding(v.time) + u64::encoding(v.rand)
    }

    open spec fn parse(s: Seq<u8>) -> Result<(Nonce, Seq<u8>), CodecError> {
        match u64::parse(s) {
            Err(e) => Err(e),
            Ok((time, s1)) => match u64::parse(s1) {
                Err(e) => Err(e),
                Ok((rand, s2)) => Ok((Nonce { time, rand }, s2)),
            },
        }
    }

    proof fn lemma_parse_encoding(v: Nonce, rest: Seq<u8>) {
        let e1 = u64::encoding(v.time);
        let e2 = u64::encoding(v.rand);
        u64::lemma_parse_encoding(v.time, e2 + rest);
        u64::lemma_parse_encoding(v.rand, rest);
        lemma_concat_assoc(e1, e2, rest);
    }

    proof fn lemma_encoding_parse(s: Seq<u8>) {
        u64::lemma_encoding_parse(s);
        if let Ok((time, s1)) = u64::parse(s) {
            u64::lemma_encoding_parse(s1);
            if let Ok((rand, s2)) = u64::parse(s1) {
                lemma_concat_assoc(u64::encoding(time), u64::encoding(rand), s2);
            }
        }
    }

    proof fn lemma_parse_truncated(v: Nonce, k: int) {
        let e1 = u64::encoding(v.time);
        let e2 = u64::encoding(v.rand);
        lemma_parse_cut::<u64>(v.time, e2, k);
        if k >= e1.len() {
            u64::lemma_parse_truncated(v.rand, k - e1.len());
        }
    }

    fn encode(&self, bytes: &mut Vec<u8>) -> (r: Result<(), CodecError>) {
        self.time.encode(bytes)?;
        self.rand.encode(bytes)?;
        proof {
            lemma_concat_assoc(old(bytes)@, u64::encoding(self.time), u64::encoding(self.rand));
        }
        Ok(())
    }

    fn decode(cur: &mut Cursor) -> (r: Result<Self, CodecError>) {
        let mut c = *cur;
        let time = u64::decode(&mut c)?;
        let rand = u64::decode(&mut c)?;
        *cur = c;
        Ok(Nonce { time, rand })
    }
}

/// What identifies a report and says when it was made.
#[derive(Clone, Copy, Debug, PartialEq, Eq, Hash)]
pub struct ReportMetadata {
    pub time: Time,
    pub id: ReportId,
}

/// The model of [`ReportMetadata`].
pub ghost struct ReportMetadataView {
    pub time: u64,
    pub id: Seq<u8>,
}

impl View for ReportMetadata {
    type V = ReportMetadataView;

    open spec fn view(&self) -> ReportMetadataView {
        ReportMetadataView {
            time: self.time,
            id: self.id@,
        }
    }
}

impl Codec for ReportMetadata {
    open spec fn encodable(v: ReportMetadataView) -> bool {
        Id::encodable(v.id)
    }

    open spec fn encoding(v: ReportMetadataView) -> Seq<u8> {
        u64::encoding(v.time) + Id::encoding(v.id)
    }

    open spec fn parse(s: Seq<u8>) -> Result<(ReportMetadataView, Seq<u8>), CodecError> {
        match u64::parse(s) {
            Err(e) => Err(e),
            Ok((time, s1)) => match Id::parse(s1) {
                Err(e) => Err(e),
                Ok((id, s2)) => Ok((ReportMetadataView { time, id }, s2)),
            },
        }
    }

    proof fn lemma_parse_encoding(v: ReportMetadataView, rest: Seq<u8>) {
        let e1 = u64::encoding(v.time);
        let e2 = Id::encoding(v.id);
        u64::lemma_parse_encoding(v.time, e2 + rest);
        Id::lemma_parse_encoding(v.id, rest);
        lemma_concat_assoc(e1, e2, rest);
    }

    proof fn lemma_encoding_parse(s: Seq<u8>) {
        u64::lemma_encoding_parse(s);
        if let Ok((time, s1)) = u64::parse(s) {
            Id::lemma_encoding_parse(s1);
            if let Ok((id, s2)) = Id::parse(s1) {
                let e1 = u64::encoding(time);
                let e2 = Id::encoding(id);
                lemma_concat_assoc(e1, e2, s2);
            }
        }
    }

    proof fn lemma_parse_truncated(v: ReportMetadataView, k: int) {
        let e1 = u64::encoding(v.time);
        let e2 = Id::encoding(v.id);
        lemma_parse_cut::<u64>(v.time, e2, k);
        if k >= e1.len() {
            let k1 = k - e1.len();
            lemma_concat_empty(e2);
            lemma_parse_cut::<Id>(v.id, Seq::<u8>::empty(), k1);
        }
    }

    fn encode(&self, bytes: &mut Vec<u8>) -> (r: Result<(), CodecError>) {
        self.time.encode(bytes)?;
        self.id.encode(bytes)?;
        proof {
            let v = self@;
            let e1 = u64::encoding(v.time);
            let e2 = Id::encoding(v.id);
            lemma_concat_assoc(old(bytes)@, e1, e2);
        }
        Ok(())
    }

    fn decode(cur: &mut Cursor) -> (r: Result<Self, CodecError>) {
        let mut c = *cur;
        let time = u64::decode(&mut c)?;
        let id = Id::decode(&mut c)?;
        *cur = c;
        Ok(ReportMetadata { time, id })
    }
}

/// An encrypted share: the key encapsulation and the sealed payload.
#[derive(Debug, PartialEq, Eq)]
pub struct HpkeCiphertext {
    pub config_id: u8,
    pub enc: Vec<u8>,
    pub payload: Vec<u8>,
}

/// The model of [`HpkeCiphertext`].
pub ghost struct HpkeCiphertextView {
    pub config_id: u8,
    pub enc: Seq<u8>,
    pub payload: Seq<u8>,
}

impl View for HpkeCiphertext {
    type V = HpkeCiphertextView;

    open spec fn view(&self) -> HpkeCiphertextView {
        HpkeCiphertextView {
            config_id: self.config_id,
            enc: self.enc@,
            payload: self.payload@,
        }
    }
}

impl Clone for HpkeCiphertext {
    fn clone(&self) -> (copy: Self)
        ensures
            copy@ == self@,
    {
        HpkeCiphertext {
            config_id: self.config_id,
            enc: clone_bytes(&self.enc),
            payload: clone_bytes(&self.payload),
        }
    }
}

impl Codec for HpkeCiphertext {
    open spec fn encodable(v: HpkeCiphertextView) -> bool {
        &&& bytes16_encodable(v.enc)
        &&& bytes16_encodable(v.payload)
    }

    open spec fn encoding(v: HpkeCiphertextView) -> Seq<u8> {
        u8::encoding(v.config_id) + (bytes16_encoding(v.enc) + bytes16_encoding(v.payload))
    }

    open spec fn parse(s: Seq<u8>) -> Result<(HpkeCiphertextView, Seq<u8>), CodecError> {
        match u8::parse(s) {
            Err(e) => Err(e),
            Ok((config_id, s1)) => match bytes16_parse(s1) {
                Err(e) => Err(e),
                Ok((enc, s2)) => match bytes16_parse(s2) {
                    Err(e) => Err(e),
                    Ok((payload, s3)) => Ok((HpkeCiphertextView { config_id, enc, payload }, s3)),
                },
            },
        }
    }

    proof fn lemma_parse_encoding(v: HpkeCiphertextView, rest: Seq<u8>) {
        let e1 = u8::encoding(v.config_id);
        let e2 = bytes16_encoding(v.enc);
        let e3 = bytes16_encoding(v.payload);
        u8::lemma_parse_encoding(v.config_id, (e2 + e3) + rest);
        lemma_bytes16_parse_encoding(v.enc, e3 + rest);
        lemma_bytes16_parse_encoding(v.payload, rest);
        lemma_concat_assoc(e1, e2 + e3, rest);
        lemma_concat_assoc(e2, e3, rest);
    }

    proof fn lemma_encoding_parse(s: Seq<u8>) {
        u8::lemma_encoding_parse(s);
        if let Ok((config_id, s1)) = u8::parse(s) {
            lemma_bytes16_encoding_parse(s1);
            if let Ok((enc, s2)) = bytes16_parse(s1) {
                lemma_bytes16_encoding_parse(s2);
                if let Ok((payload, s3)) = bytes16_parse(s2) {
                    let e1 = u8::encoding(config_id);
                    let e2 = bytes16_encoding(enc);
                    let e3 = bytes16_encoding(payload);
                    lemma_concat_assoc(e2, e3, s3);
                    lemma_concat_assoc(e1, e2 + e3, s3);
                }
            }
        }
    }

    proof fn lemma_parse_truncated(v: HpkeCiphertextView, k: int) {
        let e1 = u8::encoding(v.config_id);
        let e2 = bytes16_encoding(v.enc);
        let e3 = bytes16_encoding(v.payload);
        lemma_parse_cut::<u8>(v.config_id, e2 + e3, k);
        if k >= e1.len() {
            let k1 = k - e1.len();
            lemma_bytes16_parse_cut(v.enc, e3, k1);
            if k1 >= e2.len() {
                let k2 = k1 - e2.len();
                lemma_concat_empty(e3);
                lemma_bytes16_parse_cut(v.payload, Seq::<u8>::empty(), k2);
            }
        }
    }

    fn encode(&self, bytes: &mut Vec<u8>) -> (r: Result<(), CodecError>) {
        self.config_id.encode(bytes)?;
        encode_u16_bytes(bytes, self.enc.as_slice())?;
        encode_u16_bytes(bytes, self.payload.as_slice())?;
        proof {
            let v = self@;
            let e1 = u8::encoding(v.config_id);
            let e2 = bytes16_encoding(v.enc);
            let e3 = bytes16_encoding(v.payload);
            lemma_concat_assoc(old(bytes)@, e1, e2 + e3);
            lemma_concat_assoc(old(bytes)@ + e1, e2, e3);
        }
        Ok(())
    }

    fn decode(cur: &mut Cursor) -> (r: Result<Self, CodecError>) {
        let mut c = *cur;
        let config_id = u8::decode(&mut c)?;
        let enc = decode_u16_bytes(&mut c)?;
        let payload = decode_u16_bytes(&mut c)?;
        *cur = c;
        Ok(HpkeCiphertext { config_id, enc, payload })
    }
}

/// A report as a client uploads it: one encrypted input share for each
/// aggregator, the Leader's first.
#[derive(Debug, PartialEq, Eq)]
pub struct Report {
    pub task_id: TaskId,
    pub metadata: ReportMetadata,
    pub ignored_extensions: Vec<u8>,
    pub encrypted_input_shares: Vec<HpkeCiphertext>,
}

/// The model of [`Report`].
pub ghost struct ReportView {
    pub task_id: Seq<u8>,
    pub metadata: ReportMetadataView,
    pub ignored_extensions: Seq<u8>,
    pub encrypted_input_shares: Seq<HpkeCiphertextView>,
}

impl View for Report {
    type V = ReportView;

    open spec fn view(&self) -> ReportView {
        ReportView {
            task_id: self.task_id@,
            metadata: self.metadata@,
            ignored_extensions: self.ignored_extensions@,
            encrypted_input_shares: views(self.encrypted_input_shares@),
        }
    }
}

impl Clone for Report {
    fn clone(&self) -> (copy: Self)
        ensures
            copy@ == self@,
    {
        Report {
            task_id: self.task_id,
            metadata: self.metadata,
            ignored_extensions: clone_bytes(&self.ignored_extensions),
            encrypted_input_shares: clone_ciphertexts(&self.encrypted_input_shares),
        }
    }
}

impl Codec for Report {
    open spec fn encodable(v: ReportView) -> bool {
        &&& Id::encodable(v.task_id)
        &&& ReportMetadata::encodable(v.metadata)
        &&& bytes16_encodable(v.ignored_extensions)
        &&& items16_encodable::<HpkeCiphertext>(v.encrypted_input_shares)
    }

    open spec fn encoding(v: ReportView) -> Seq<u8> {
        Id::encoding(v.task_id)
            + (ReportMetadata::encoding(v.metadata)
            + (bytes16_encoding(v.ignored_extensions)
            + items16_encoding::<HpkeCiphertext>(v.encrypted_input_shares)))
    }

    open spec fn parse(s: Seq<u8>) -> Result<(ReportView, Seq<u8>), CodecError> {
        match Id::parse(s) {
            Err(e) => Err(e),
            Ok((task_id, s1)) => match ReportMetadata::parse(s1) {
                Err(e) => Err(e),
                Ok((metadata, s2)) => match bytes16_parse(s2) {
                    Err(e) => Err(e),
                    Ok((ignored_extensions, s3)) => match items16_parse::<HpkeCiphertext>(s3) {
                        Err(e) => Err(e),
                        Ok((encrypted_input_shares, s4)) => Ok(
                            (
                                ReportView {
                                    task_id,
                                    metadata,
                                    ignored_extensions,
                                    encrypted_input_shares,
                                },
                                s4,
                            ),
                        ),
                    },
                },
            },
        }
    }

    proof fn lemma_parse_encoding(v: ReportView, rest: Seq<u8>) {
        let e1 = Id::encoding(v.task_id);
        let e2 = ReportMetadata::encoding(v.metadata);
        let e3 = bytes16_encoding(v.ignored_extensions);
        let e4 = items16_encoding::<HpkeCiphertext>(v.encrypted_input_shares);
        Id::lemma_parse_encoding(v.task_id, (e2 + (e3 + e4)) + rest);
        ReportMetadata::lemma_parse_encoding(v.metadata, (e3 + e4) + rest);
        lemma_bytes16_parse_encoding(v.ignored_extensions, e4 + rest);
        lemma_items16_parse_encoding::<HpkeCiphertext>(v.encrypted_input_shares, rest);
        lemma_concat_assoc(e1, e2 + (e3 + e4), rest);
        lemma_concat_assoc(e2, e3 + e4, rest);
        lemma_concat_assoc(e3, e4, rest);
    }

    proof fn lemma_encoding_parse(s: Seq<u8>) {
        Id::lemma_encoding_parse(s);
        if let Ok((task_id, s1)) = Id::parse(s) {
            ReportMetadata::lemma_encoding_parse(s1);
            if let Ok((metadata, s2)) = ReportMetadata::parse(s1) {
                lemma_bytes16_encoding_parse(s2);
                if let Ok((ignored_extensions, s3)) = bytes16_parse(s2) {
                    lemma_items16_encoding_parse::<HpkeCiphertext>(s3);
                    if let Ok((encrypted_input_shares, s4)) = items16_parse::<HpkeCiphertext>(s3) {
                        let e1 = Id::encoding(task_id);
                        let e2 = ReportMetadata::encoding(metadata);
                        let e3 = bytes16_encoding(ignored_extensions);
                        let e4 = items16_encoding::<HpkeCiphertext>(encrypted_input_shares);
                        lemma_concat_assoc(e3, e4, s4);
                        lemma_concat_assoc(e2, e3 + e4, s4);
                        lemma_concat_assoc(e1, e2 + (e3 + e4), s4);
                    }
                }
            }
        }
    }

    proof fn lemma_parse_truncated(v: ReportView, k: int) {
        let e1 = Id::encoding(v.task_id);
        let e2 = ReportMetadata::encoding(v.metadata);
        let e3 = bytes16_encoding(v.ignored_extensions);
        let e4 = items16_encoding::<HpkeCiphertext>(v.encrypted_input_shares);
        lemma_parse_cut::<Id>(v.task_id, e2 + (e3 + e4), k);
        if k >= e1.len() {
            let k1 = k - e1.len();
            lemma_parse_cut::<ReportMetadata>(v.metadata, e3 + e4, k1);
            if k1 >= e2.len() {
                let k2 = k1 - e2.len();
                lemma_bytes16_parse_cut(v.ignored_extensions, e4, k2);
                if k2 >= e3.len() {
                    let k3 = k2 - e3.len();
                    lemma_concat_empty(e4);
                    lemma_items16_parse_cut::<HpkeCiphertext>(
                        v.encrypted_input_shares,
                        Seq::<u8>::empty(),
                        k3,
                    );
                }
            }
        }
    }

    fn encode(&self, bytes: &mut Vec<u8>) -> (r: Result<(), CodecError>) {
        self.task_id.encode(bytes)?;
        self.metadata.encode(bytes)?;
        encode_u16_bytes(bytes, self.ignored_extensions.as_slice())?;
        encode_u16_items(bytes, &self.encrypted_input_shares)?;
        proof {
            let v = self@;
            let e1 = Id::encoding(v.task_id);
            let e2 = ReportMetadata::encoding(v.metadata);
            let e3 = bytes16_encoding(v.ignored_extensions);
            let e4 = items16_encoding::<HpkeCiphertext>(v.encrypted_input_shares);
            lemma_concat_assoc(old(bytes)@, e1, e2 + (e3 + e4));
            lemma_concat_assoc(old(bytes)@ + e1, e2, e3 + e4);
            lemma_concat_assoc(old(bytes)@ + e1 + e2, e3, e4);
        }
        Ok(())
    }

    fn decode(cur: &mut Cursor) -> (r: Result<Self, CodecError>) {
        let mut c = *cur;
        let task_id = Id::decode(&mut c)?;
        let metadata = ReportMetadata::decode(&mut c)?;
        let ignored_extensions = decode_u16_bytes(&mut c)?;
        let encrypted_input_shares = decode_u16_items::<HpkeCiphertext>(&mut c)?;
        *cur = c;
        Ok(Report { task_id, metadata, ignored_extensions, encrypted_input_shares })
    }
}

/// The part of a report that the Leader hands to the Helper.
#[derive(Clone, Debug, PartialEq, Eq)]
pub struct ReportShare {
    pub metadata: ReportMetadata,
    pub ignored_extensions: Vec<u8>,
    pub encrypted_input_share: HpkeCiphertext,
}

/// The model of [`ReportShare`].
pub ghost struct ReportShareView {
    pub metadata: ReportMetadataView,
    pub ignored_extensions: Seq<u8>,
    pub encrypted_input_share: HpkeCiphertextView,
}

impl View for ReportShare {
    type V = ReportShareView;

    open spec fn view(&self) -> ReportShareView {
        ReportShareView {
            metadata: self.metadata@,
            ignored_extensions: self.ignored_extensions@,
            encrypted_input_share: self.encrypted_input_share@,
        }
    }
}

impl Codec for ReportShare {
    open spec fn encodable(v: ReportShareView) -> bool {
        &&& ReportMetadata::encodable(v.metadata)
        &&& bytes16_encodable(v.ignored_extensions)
        &&& HpkeCiphertext::encodable(v.encrypted_input_share)
    }

    open spec fn encoding(v: ReportShareView) -> Seq<u8> {
        ReportMetadata::encoding(v.metadata)
            + (bytes16_encoding(v.ignored_extensions)
            + HpkeCiphertext::encoding(v.encrypted_input_share))
    }

    open spec fn parse(s: Seq<u8>) -> Result<(ReportShareView, Seq<u8>), CodecError> {
        match ReportMetadata::parse(s) {
            Err(e) => Err(e),
            Ok((metadata, s1)) => match bytes16_parse(s1) {
                Err(e) => Err(e),
                Ok((ignored_extensions, s2)) => match HpkeCiphertext::parse(s2) {
                    Err(e) => Err(e),
                    Ok((encrypted_input_share, s3)) => Ok(
                        (
                            ReportShareView {
                                metadata,
                                ignored_extensions,
                                encrypted_input_share,
                            },
                            s3,
                        ),
                    ),
                },
            },
        }
    }

    proof fn lemma_parse_encoding(v: ReportShareView, rest: Seq<u8>) {
        let e1 = ReportMetadata::encoding(v.metadata);
        let e2 = bytes16_encoding(v.ignored_extensions);
        let e3 = HpkeCiphertext::encoding(v.encrypted_input_share);
        ReportMetadata::lemma_parse_encoding(v.metadata, (e2 + e3) + rest);
        lemma_bytes16_parse_encoding(v.ignored_extensions, e3 + rest);
        HpkeCiphertext::lemma_parse_encoding(v.encrypted_input_share, rest);
        lemma_concat_assoc(e1, e2 + e3, rest);
        lemma_concat_assoc(e2, e3, rest);
    }

    proof fn lemma_encoding_parse(s: Seq<u8>) {
        ReportMetadata::lemma_encoding_parse(s);
        if let Ok((metadata, s1)) = ReportMetadata::parse(s) {
            lemma_bytes16_encoding_parse(s1);
            if let Ok((ignored_extensions, s2)) = bytes16_parse(s1) {
                HpkeCiphertext::lemma_encoding_parse(s2);
                if let Ok((encrypted_input_share, s3)) = HpkeCiphertext::parse(s2) {
                    let e1 = ReportMetadata::encoding(metadata);
                    let e2 = bytes16_encoding(ignored_extensions);
                    let e3 = HpkeCiphertext::encoding(encrypted_input_share);
                    lemma_concat_assoc(e2, e3, s3);
                    lemma_concat_assoc(e1, e2 + e3, s3);
                }
            }
        }
    }

    proof fn lemma_parse_truncated(v: ReportShareView, k: int) {
        let e1 = ReportMetadata::encoding(v.metadata);
        let e2 = bytes16_encoding(v.ignored_extensions);
        let e3 = HpkeCiphertext::encoding(v.encrypted_input_share);
        lemma_parse_cut::<ReportMetadata>(v.metadata, e2 + e3, k);
        if k >= e1.len() {
            let k1 = k - e1.len();
            lemma_bytes16_parse_cut(v.ignored_extensions, e3, k1);
            if k1 >= e2.len() {
                let k2 = k1 - e2.len();
                lemma_concat_empty(e3);
                lemma_parse_cut::<HpkeCiphertext>(v.encrypted_input_share, Seq::<u8>::empty(), k2);
            }
        }
    }

    fn encode(&self, bytes: &mut Vec<u8>) -> (r: Result<(), CodecError>) {
        self.metadata.encode(bytes)?;
        encode_u16_bytes(bytes, self.ignored_extensions.as_slice())?;
        self.encrypted_input_share.encode(bytes)?;
        proof {
            let v = self@;
            let e1 = ReportMetadata::encoding(v.metadata);
            let e2 = bytes16_encoding(v.ignored_extensions);
            let e3 = HpkeCiphertext::encoding(v.encrypted_input_share);
            lemma_concat_assoc(old(bytes)@, e1, e2 + e3);
            lemma_concat_assoc(old(bytes)@ + e1, e2, e3);
        }
        Ok(())
    }

    fn decode(cur: &mut Cursor) -> (r: Result<Self, CodecError>) {
        let mut c = *cur;
        let metadata = ReportMetadata::decode(&mut c)?;
        let ignored_extensions = decode_u16_bytes(&mut c)?;
        let encrypted_input_share = HpkeCiphertext::decode(&mut c)?;
        *cur = c;
        Ok(ReportShare { metadata, ignored_extensions, encrypted_input_share })
    }
}

/// What became of one report in a round of an aggregation job.
#[derive(Debug, PartialEq, Eq)]
pub struct Transition {
    pub report_id: ReportId,
    pub var: TransitionVar,
}

/// The model of [`Transition`].
pub ghost struct TransitionView {
    pub report_id: Seq<u8>,
    pub var: TransitionVarView,
}

impl View for Transition {
    type V = TransitionView;

    open spec fn view(&self) -> TransitionView {
        TransitionView {
            report_id: self.report_id@,
            var: self.var@,
        }
    }
}

impl Clone for Transition {
    fn clone(&self) -> (copy: Self)
        ensures
            copy@ == self@,
    {
        Transition { report_id: self.report_id, var: self.var.clone() }
    }
}

impl Codec for Transition {
    open spec fn encodable(v: TransitionView) -> bool {
        &&& Id::encodable(v.report_id)
        &&& TransitionVar::encodable(v.var)
    }

    open spec fn encoding(v: TransitionView) -> Seq<u8> {
        Id::encoding(v.report_id) + TransitionVar::encoding(v.var)
    }

    open spec fn parse(s: Seq<u8>) -> Result<(TransitionView, Seq<u8>), CodecError> {
        match Id::parse(s) {
            Err(e) => Err(e),
            Ok((report_id, s1)) => match TransitionVar::parse(s1) {
                Err(e) => Err(e),
                Ok((var, s2)) => Ok((TransitionView { report_id, var }, s2)),
            },
        }
    }

    proof fn lemma_parse_encoding(v: TransitionView, rest: Seq<u8>) {
        let e1 = Id::encoding(v.report_id);
        let e2 = TransitionVar::encoding(v.var);
        Id::lemma_parse_encoding(v.report_id, e2 + rest);
        TransitionVar::lemma_parse_encoding(v.var, rest);
        lemma_concat_assoc(e1, e2, rest);
    }

    proof fn lemma_encoding_parse(s: Seq<u8>) {
        Id::lemma_encoding_parse(s);
        if let Ok((report_id, s1)) = Id::parse(s) {
            TransitionVar::lemma_encoding_parse(s1);
            if let Ok((var, s2)) = TransitionVar::parse(s1) {
                let e1 = Id::encoding(report_id);
                let e2 = TransitionVar::encoding(var);
                lemma_concat_assoc(e1, e2, s2);
            }
        }
    }

    proof fn lemma_parse_truncated(v: TransitionView, k: int) {
        let e1 = Id::encoding(v.report_id);
        let e2 = TransitionVar::encoding(v.var);
        lemma_parse_cut::<Id>(v.report_id, e2, k);
        if k >= e1.len() {
            let k1 = k - e1.len();
            lemma_concat_empty(e2);
            lemma_parse_cut::<TransitionVar>(v.var, Seq::<u8>::empty(), k1);
        }
    }

    fn encode(&self, bytes: &mut Vec<u8>) -> (r: Result<(), CodecError>) {
        self.report_id.encode(bytes)?;
        self.var.encode(bytes)?;
        proof {
            let v = self@;
            let e1 = Id::encoding(v.report_id);
            let e2 = TransitionVar::encoding(v.var);
            lemma_concat_assoc(old(bytes)@, e1, e2);
        }
        Ok(())
    }

    fn decode(cur: &mut Cursor) -> (r: Result<Self, CodecError>) {
        let mut c = *cur;
        let report_id = Id::decode(&mut c)?;
        let var = TransitionVar::decode(&mut c)?;
        *cur = c;
        Ok(Transition { report_id, var })
    }
}

/// A request of the Leader in an aggregation job: the first one, or a later
/// one.
#[derive(Clone, Debug, PartialEq, Eq)]
pub struct AggregateReq {
    pub task_id: TaskId,
    pub agg_job_id: AggregationJobId,
    pub var: AggregateReqVar,
}

/// The model of [`AggregateReq`].
pub ghost struct AggregateReqView {
    pub task_id: Seq<u8>,
    pub agg_job_id: Seq<u8>,
    pub var: AggregateReqVarView,
}

impl View for AggregateReq {
    type V = AggregateReqView;

    open spec fn view(&self) -> AggregateReqView {
        AggregateReqView {
            task_id: self.task_id@,
            agg_job_id: self.agg_job_id@,
            var: self.var@,
        }
    }
}

impl Codec for AggregateReq {
    open spec fn encodable(v: AggregateReqView) -> bool {
        &&& Id::encodable(v.task_id)
        &&& Id::encodable(v.agg_job_id)
        &&& AggregateReqVar::encodable(v.var)
    }

    open spec fn encoding(v: AggregateReqView) -> Seq<u8> {
        Id::encoding(v.task_id) + (Id::encoding(v.agg_job_id) + AggregateReqVar::encoding(v.var))
    }

    open spec fn parse(s: Seq<u8>) -> Result<(AggregateReqView, Seq<u8>), CodecError> {
        match Id::parse(s) {
            Err(e) => Err(e),
            Ok((task_id, s1)) => match Id::parse(s1) {
                Err(e) => Err(e),
                Ok((agg_job_id, s2)) => match AggregateReqVar::parse(s2) {
                    Err(e) => Err(e),
                    Ok((var, s3)) => Ok((AggregateReqView { task_id, agg_job_id, var }, s3)),
                },
            },
        }
    }

    proof fn lemma_parse_encoding(v: AggregateReqView, rest: Seq<u8>) {
        let e1 = Id::encoding(v.task_id);
        let e2 = Id::encoding(v.agg_job_id);
        let e3 = AggregateReqVar::encoding(v.var);
        Id::lemma_parse_encoding(v.task_id, (e2 + e3) + rest);
        Id::lemma_parse_encoding(v.agg_job_id, e3 + rest);
        AggregateReqVar::lemma_parse_encoding(v.var, rest);
        lemma_concat_assoc(e1, e2 + e3, rest);
        lemma_concat_assoc(e2, e3, rest);
    }

    proof fn lemma_encoding_parse(s: Seq<u8>) {
        Id::lemma_encoding_parse(s);
        if let Ok((task_id, s1)) = Id::parse(s) {
            Id::lemma_encoding_parse(s1);
            if let Ok((agg_job_id, s2)) = Id::parse(s1) {
                AggregateReqVar::lemma_encoding_parse(s2);
                if let Ok((var, s3)) = AggregateReqVar::parse(s2) {
                    let e1 = Id::encoding(task_id);
                    let e2 = Id::encoding(agg_job_id);
                    let e3 = AggregateReqVar::encoding(var);
                    lemma_concat_assoc(e2, e3, s3);
                    lemma_concat_assoc(e1, e2 + e3, s3);
                }
            }
        }
    }

    proof fn lemma_parse_truncated(v: AggregateReqView, k: int) {
        let e1 = Id::encoding(v.task_id);
        let e2 = Id::encoding(v.agg_job_id);
        let e3 = AggregateReqVar::encoding(v.var);
        lemma_parse_cut::<Id>(v.task_id, e2 + e3, k);
        if k >= e1.len() {
            let k1 = k - e1.len();
            lemma_parse_cut::<Id>(v.agg_job_id, e3, k1);
            if k1 >= e2.len() {
                let k2 = k1 - e2.len();
                lemma_concat_empty(e3);
                lemma_parse_cut::<AggregateReqVar>(v.var, Seq::<u8>::empty(), k2);
            }
        }
    }

    fn encode(&self, bytes: &mut Vec<u8>) -> (r: Result<(), CodecError>) {
        self.task_id.encode(bytes)?;
        self.agg_job_id.encode(bytes)?;
        self.var.encode(bytes)?;
        proof {
            let v = self@;
            let e1 = Id::encoding(v.task_id);
            let e2 = Id::encoding(v.agg_job_id);
            let e3 = AggregateReqVar::encoding(v.var);
            lemma_concat_assoc(old(bytes)@, e1, e2 + e3);
            lemma_concat_assoc(old(bytes)@ + e1, e2, e3);
        }
        Ok(())
    }

    fn decode(cur: &mut Cursor) -> (r: Result<Self, CodecError>) {
        let mut c = *cur;
        let task_id = Id::decode(&mut c)?;
        let agg_job_id = Id::decode(&mut c)?;
        let var = AggregateReqVar::decode(&mut c)?;
        *cur = c;
        Ok(AggregateReq { task_id, agg_job_id, var })
    }
}

/// The Helper's answer in an aggregation job: one transition for each report,
/// in the order of the request.
#[derive(Debug, PartialEq, Eq, Default)]
pub struct AggregateResp {
    pub seq: Vec<Transition>,
}

impl View for AggregateResp {
    type V = Seq<TransitionView>;

    open spec fn view(&self) -> Seq<TransitionView> {
        views(self.seq@)
    }
}

impl Clone for AggregateResp {
    fn clone(&self) -> (copy: Self)
        ensures
            copy@ == self@,
    {
        let mut seq: Vec<Transition> = Vec::new();
        let mut i: usize = 0;
        assert(views(seq@) =~= views(self.seq@.take(0)));
        while i < self.seq.len()
            invariant
                i <= self.seq@.len(),
                views(seq@) == views(self.seq@.take(i as int)),
            decreases self.seq@.len() - i,
        {
            let ghost before = seq@;
            let transition = self.seq[i].clone();
            seq.push(transition);
            proof {
                let all = self.seq@;
                assert(all.take(i + 1) =~= all.take(i as int).push(all[i as int]));
                assert(views(seq@) =~= views(before).push(transition@));
                assert(views(all.take(i + 1)) =~= views(all.take(i as int)).push(all[i as int]@));
            }
            i = i + 1;
        }
        assert(self.seq@.take(i as int) =~= self.seq@);
        AggregateResp { seq }
    }
}

impl Codec for AggregateResp {
    open spec fn encodable(v: Seq<TransitionView>) -> bool {
        items16_encodable::<Transition>(v)
    }

    open spec fn encoding(v: Seq<TransitionView>) -> Seq<u8> {
        items16_encoding::<Transition>(v)
    }

    open spec fn parse(s: Seq<u8>) -> Result<(Seq<TransitionView>, Seq<u8>), CodecError> {
        items16_parse::<Transition>(s)
    }

    proof fn lemma_parse_encoding(v: Seq<TransitionView>, rest: Seq<u8>) {
        lemma_items16_parse_encoding::<Transition>(v, rest);
    }

    proof fn lemma_encoding_parse(s: Seq<u8>) {
        lemma_items16_encoding_parse::<Transition>(s);
    }

    proof fn lemma_parse_truncated(v: Seq<TransitionView>, k: int) {
        let e1 = items16_encoding::<Transition>(v);
        lemma_concat_empty(e1);
        lemma_items16_parse_cut::<Transition>(v, Seq::<u8>::empty(), k);
    }

    fn encode(&self, bytes: &mut Vec<u8>) -> (r: Result<(), CodecError>) {
        encode_u16_items(bytes, &self.seq)?;
        Ok(())
    }

    fn decode(cur: &mut Cursor) -> (r: Result<Self, CodecError>) {
        let mut c = *cur;
        let seq = decode_u16_items::<Transition>(&mut c)?;
        *cur = c;
        Ok(AggregateResp { seq })
    }
}

/// A batch interval: the times from `start` up to, not including, `start +
/// duration`.
#[derive(Clone, Copy, Debug, Default, PartialEq, Eq)]
pub struct Interval {
    pub start: Time,
    pub duration: Time,
}

impl View for Interval {
    type V = Interval;

    open spec fn view(&self) -> Interval {
        *self
    }
}

impl Codec for Interval {
    open spec fn encodable(v: Interval) -> bool {
        true
    }

    open spec fn encoding(v: Interval) -> Seq<u8> {
        u64::encoding(v.start) + u64::encoding(v.duration)
    }

    open spec fn parse(s: Seq<u8>) -> Result<(Interval, Seq<u8>), CodecError> {
        match u64::parse(s) {
            Err(e) => Err(e),
            Ok((start, s1)) => match u64::parse(s1) {
                Err(e) => Err(e),
                Ok((duration, s2)) => Ok((Interval { start, duration }, s2)),
            },
        }
    }

    proof fn lemma_parse_encoding(v: Interval, rest: Seq<u8>) {
        let e1 = u64::encoding(v.start);
        let e2 = u64::encoding(v.duration);
        u64::lemma_parse_encoding(v.start, e2 + rest);
        u64::lemma_parse_encoding(v.duration, rest);
        lemma_concat_assoc(e1, e2, rest);
    }

    proof fn lemma_encoding_parse(s: Seq<u8>) {
        u64::lemma_encoding_parse(s);
        if let Ok((start, s1)) = u64::parse(s) {
            u64::lemma_encoding_parse(s1);
            if let Ok((duration, s2)) = u64::parse(s1) {
                let e1 = u64::encoding(start);
                let e2 = u64::encoding(duration);
                lemma_concat_assoc(e1, e2, s2);
            }
        }
    }

    proof fn lemma_parse_truncated(v: Interval, k: int) {
        let e1 = u64::encoding(v.start);
        let e2 = u64::encoding(v.duration);
        lemma_parse_cut::<u64>(v.start, e2, k);
        if k >= e1.len() {
            let k1 = k - e1.len();
            lemma_concat_empty(e2);
            lemma_parse_cut::<u64>(v.duration, Seq::<u8>::empty(), k1);
        }
    }

    fn encode(&self, bytes: &mut Vec<u8>) -> (r: Result<(), CodecError>) {
        self.start.encode(bytes)?;
        self.duration.encode(bytes)?;
        proof {
            let v = self@;
            let e1 = u64::encoding(v.start);
            let e2 = u64::encoding(v.duration);
            lemma_concat_assoc(old(bytes)@, e1, e2);
        }
        Ok(())
    }

    fn decode(cur: &mut Cursor) -> (r: Result<Self, CodecError>) {
        let mut c = *cur;
        let start = u64::decode(&mut c)?;
        let duration = u64::decode(&mut c)?;
        *cur = c;
        Ok(Interval { start, duration })
    }
}

/// A collector's request for the aggregate of a batch interval.
#[derive(Clone, Debug, PartialEq, Eq)]
pub struct CollectReq {
    pub task_id: TaskId,
    pub batch_interval: Interval,
    pub agg_param: Vec<u8>,
}

/// The model of [`CollectReq`].
pub ghost struct CollectReqView {
    pub task_id: Seq<u8>,
    pub batch_interval: Interval,
    pub agg_param: Seq<u8>,
}

impl View for CollectReq {
    type V = CollectReqView;

    open spec fn view(&self) -> CollectReqView {
        CollectReqView {
            task_id: self.task_id@,
            batch_interval: self.batch_interval,
            agg_param: self.agg_param@,
        }
    }
}

impl Codec for CollectReq {
    open spec fn encodable(v: CollectReqView) -> bool {
        &&& Id::encodable(v.task_id)
        &&& bytes16_encodable(v.agg_param)
    }

    open spec fn encoding(v: CollectReqView) -> Seq<u8> {
        Id::encoding(v.task_id)
            + (Interval::encoding(v.batch_interval)
            + bytes16_encoding(v.agg_param))
    }

    open spec fn parse(s: Seq<u8>) -> Result<(CollectReqView, Seq<u8>), CodecError> {
        match Id::parse(s) {
            Err(e) => Err(e),
            Ok((task_id, s1)) => match Interval::parse(s1) {
                Err(e) => Err(e),
                Ok((batch_interval, s2)) => match bytes16_parse(s2) {
                    Err(e) => Err(e),
                    Ok((agg_param, s3)) => Ok(
                        (
                            CollectReqView {
                                task_id,
                                batch_interval,
                                agg_param,
                            },
                            s3,
                        ),
                    ),
                },
            },
        }
    }

    proof fn lemma_parse_encoding(v: CollectReqView, rest: Seq<u8>) {
        let e1 = Id::encoding(v.task_id);
        let e2 = Interval::encoding(v.batch_interval);
        let e3 = bytes16_encoding(v.agg_param);
        Id::lemma_parse_encoding(v.task_id, (e2 + e3) + rest);
        Interval::lemma_parse_encoding(v.batch_interval, e3 + rest);
        lemma_bytes16_parse_encoding(v.agg_param, rest);
        lemma_concat_assoc(e1, e2 + e3, rest);
        lemma_concat_assoc(e2, e3, rest);
    }

    proof fn lemma_encoding_parse(s: Seq<u8>) {
        Id::lemma_encoding_parse(s);
        if let Ok((task_id, s1)) = Id::parse(s) {
            Interval::lemma_encoding_parse(s1);
            if let Ok((batch_interval, s2)) = Interval::parse(s1) {
                lemma_bytes16_encoding_parse(s2);
                if let Ok((agg_param, s3)) = bytes16_parse(s2) {
                    let e1 = Id::encoding(task_id);
                    let e2 = Interval::encoding(batch_interval);
                    let e3 = bytes16_encoding(agg_param);
                    lemma_concat_assoc(e2, e3, s3);
                    lemma_concat_assoc(e1, e2 + e3, s3);
                }
            }
        }
    }

    proof fn lemma_parse_truncated(v: CollectReqView, k: int) {
        let e1 = Id::encoding(v.task_id);
        let e2 = Interval::encoding(v.batch_interval);
        let e3 = bytes16_encoding(v.agg_param);
        lemma_parse_cut::<Id>(v.task_id, e2 + e3, k);
        if k >= e1.len() {
            let k1 = k - e1.len();
            lemma_parse_cut::<Interval>(v.batch_interval, e3, k1);
            if k1 >= e2.len() {
                let k2 = k1 - e2.len();
                lemma_concat_empty(e3);
                lemma_bytes16_parse_cut(v.agg_param, Seq::<u8>::empty(), k2);
            }
        }
    }

    fn encode(&self, bytes: &mut Vec<u8>) -> (r: Result<(), CodecError>) {
        self.task_id.encode(bytes)?;
        self.batch_interval.encode(bytes)?;
        encode_u16_bytes(bytes, self.agg_param.as_slice())?;
        proof {
            let v = self@;
            let e1 = Id::encoding(v.task_id);
            let e2 = Interval::encoding(v.batch_interval);
            let e3 = bytes16_encoding(v.agg_param);
            lemma_concat_assoc(old(bytes)@, e1, e2 + e3);
            lemma_concat_assoc(old(bytes)@ + e1, e2, e3);
        }
        Ok(())
    }

    fn decode(cur: &mut Cursor) -> (r: Result<Self, CodecError>) {
        let mut c = *cur;
        let task_id = Id::decode(&mut c)?;
        let batch_interval = Interval::decode(&mut c)?;
        let agg_param = decode_u16_bytes(&mut c)?;
        *cur = c;
        Ok(CollectReq { task_id, batch_interval, agg_param })
    }
}

/// The answer to a collector: one encrypted aggregate share for each
/// aggregator.
#[derive(Clone, Debug, PartialEq, Eq)]
pub struct CollectResp {
    pub encrypted_agg_shares: Vec<HpkeCiphertext>,
}

impl View for CollectResp {
    type V = Seq<HpkeCiphertextView>;

    open spec fn view(&self) -> Seq<HpkeCiphertextView> {
        views(self.encrypted_agg_shares@)
    }
}

impl Codec for CollectResp {
    open spec fn encodable(v: Seq<HpkeCiphertextView>) -> bool {
        items16_encodable::<HpkeCiphertext>(v)
    }

    open spec fn encoding(v: Seq<HpkeCiphertextView>) -> Seq<u8> {
        items16_encoding::<HpkeCiphertext>(v)
    }

    open spec fn parse(s: Seq<u8>) -> Result<(Seq<HpkeCiphertextView>, Seq<u8>), CodecError> {
        items16_parse::<HpkeCiphertext>(s)
    }

    proof fn lemma_parse_encoding(v: Seq<HpkeCiphertextView>, rest: Seq<u8>) {
        lemma_items16_parse_encoding::<HpkeCiphertext>(v, rest);
    }

    proof fn lemma_encoding_parse(s: Seq<u8>) {
        lemma_items16_encoding_parse::<HpkeCiphertext>(s);
    }

    proof fn lemma_parse_truncated(v: Seq<HpkeCiphertextView>, k: int) {
        let e1 = items16_encoding::<HpkeCiphertext>(v);
        lemma_concat_empty(e1);
        lemma_items16_parse_cut::<HpkeCiphertext>(v, Seq::<u8>::empty(), k);
    }

    fn encode(&self, bytes: &mut Vec<u8>) -> (r: Result<(), CodecError>) {
        encode_u16_items(bytes, &self.encrypted_agg_shares)?;
        Ok(())
    }

    fn decode(cur: &mut Cursor) -> (r: Result<Self, CodecError>) {
        let mut c = *cur;
        let encrypted_agg_shares = decode_u16_items::<HpkeCiphertext>(&mut c)?;
        *cur = c;
        Ok(CollectResp { encrypted_agg_shares })
    }
}

/// The Leader's request for the Helper's aggregate share, with the count and
/// checksum of the reports that the Leader aggregated.
#[derive(Clone, Debug, Default, PartialEq, Eq)]
pub struct AggregateShareReq {
    pub task_id: TaskId,
    pub batch_interval: Interval,
    pub agg_param: Vec<u8>,
    pub report_count: u64,
    pub checksum: [u8; 32],
}

/// The model of [`AggregateShareReq`].
pub ghost struct AggregateShareReqView {
    pub task_id: Seq<u8>,
    pub batch_interval: Interval,
    pub agg_param: Seq<u8>,
    pub report_count: u64,
    pub checksum: Seq<u8>,
}

impl View for AggregateShareReq {
    type V = AggregateShareReqView;

    open spec fn view(&self) -> AggregateShareReqView {
        AggregateShareReqView {
            task_id: self.task_id@,
            batch_interval: self.batch_interval,
            agg_param: self.agg_param@,
            report_count: self.report_count,
            checksum: self.checksum@,
        }
    }
}

impl Codec for AggregateShareReq {
    open spec fn encodable(v: AggregateShareReqView) -> bool {
        &&& Id::encodable(v.task_id)
        &&& bytes16_encodable(v.agg_param)
        &&& v.checksum.len() == 32
    }

    open spec fn encoding(v: AggregateShareReqView) -> Seq<u8> {
        Id::encoding(v.task_id)
            + (Interval::encoding(v.batch_interval)
            + (bytes16_encoding(v.agg_param)
            + (u64::encoding(v.report_count)
            + v.checksum)))
    }

    open spec fn parse(s: Seq<u8>) -> Result<(AggregateShareReqView, Seq<u8>), CodecError> {
        match Id::parse(s) {
            Err(e) => Err(e),
            Ok((task_id, s1)) => match Interval::parse(s1) {
                Err(e) => Err(e),
                Ok((batch_interval, s2)) => match bytes16_parse(s2) {
                    Err(e) => Err(e),
                    Ok((agg_param, s3)) => match u64::parse(s3) {
                        Err(e) => Err(e),
                        Ok((report_count, s4)) => match parse_fixed(s4, 32) {
                            Err(e) => Err(e),
                            Ok((checksum, s5)) => Ok(
                                (
                                    AggregateShareReqView {
                                        task_id,
                                        batch_interval,
                                        agg_param,
                                        report_count,
                                        checksum,
                                    },
                                    s5,
                                ),
                            ),
                        },
                    },
                },
            },
        }
    }

    proof fn lemma_parse_encoding(v: AggregateShareReqView, rest: Seq<u8>) {
        let e1 = Id::encoding(v.task_id);
        let e2 = Interval::encoding(v.batch_interval);
        let e3 = bytes16_encoding(v.agg_param);
        let e4 = u64::encoding(v.report_count);
        let e5 = v.checksum;
        Id::lemma_parse_encoding(v.task_id, (e2 + (e3 + (e4 + e5))) + rest);
        Interval::lemma_parse_encoding(v.batch_interval, (e3 + (e4 + e5)) + rest);
        lemma_bytes16_parse_encoding(v.agg_param, (e4 + e5) + rest);
        u64::lemma_parse_encoding(v.report_count, e5 + rest);
        lemma_parse_fixed_encoding(v.checksum, rest);
        lemma_concat_assoc(e1, e2 + (e3 + (e4 + e5)), rest);
        lemma_concat_assoc(e2, e3 + (e4 + e5), rest);
        lemma_concat_assoc(e3, e4 + e5, rest);
        lemma_concat_assoc(e4, e5, rest);
    }

    proof fn lemma_encoding_parse(s: Seq<u8>) {
        Id::lemma_encoding_parse(s);
        if let Ok((task_id, s1)) = Id::parse(s) {
            Interval::lemma_encoding_parse(s1);
            if let Ok((batch_interval, s2)) = Interval::parse(s1) {
                lemma_bytes16_encoding_parse(s2);
                if let Ok((agg_param, s3)) = bytes16_parse(s2) {
                    u64::lemma_encoding_parse(s3);
                    if let Ok((report_count, s4)) = u64::parse(s3) {
                        lemma_fixed_encoding_parse(s4, 32);
                        if let Ok((checksum, s5)) = parse_fixed(s4, 32) {
                            let e1 = Id::encoding(task_id);
                            let e2 = Interval::encoding(batch_interval);
                            let e3 = bytes16_encoding(agg_param);
                            let e4 = u64::encoding(report_count);
                            let e5 = checksum;
                            lemma_concat_assoc(e4, e5, s5);
                            lemma_concat_assoc(e3, e4 + e5, s5);
                            lemma_concat_assoc(e2, e3 + (e4 + e5), s5);
                            lemma_concat_assoc(e1, e2 + (e3 + (e4 + e5)), s5);
                        }
                    }
                }
            }
        }
    }

    proof fn lemma_parse_truncated(v: AggregateShareReqView, k: int) {
        let e1 = Id::encoding(v.task_id);
        let e2 = Interval::encoding(v.batch_interval);
        let e3 = bytes16_encoding(v.agg_param);
        let e4 = u64::encoding(v.report_count);
        let e5 = v.checksum;
        lemma_parse_cut::<Id>(v.task_id, e2 + (e3 + (e4 + e5)), k);
        if k >= e1.len() {
            let k1 = k - e1.len();
            lemma_parse_cut::<Interval>(v.batch_interval, e3 + (e4 + e5), k1);
            if k1 >= e2.len() {
                let k2 = k1 - e2.len();
                lemma_bytes16_parse_cut(v.agg_param, e4 + e5, k2);
                if k2 >= e3.len() {
                    let k3 = k2 - e3.len();
                    lemma_parse_cut::<u64>(v.report_count, e5, k3);
                    if k3 >= e4.len() {
                        let k4 = k3 - e4.len();
                        lemma_concat_empty(e5);
                        lemma_parse_fixed_cut(v.checksum, Seq::<u8>::empty(), k4);
                    }
                }
            }
        }
    }

    fn encode(&self, bytes: &mut Vec<u8>) -> (r: Result<(), CodecError>) {
        self.task_id.encode(bytes)?;
        self.batch_interval.encode(bytes)?;
        encode_u16_bytes(bytes, self.agg_param.as_slice())?;
        self.report_count.encode(bytes)?;
        encode_array32(bytes, &self.checksum);
        proof {
            let v = self@;
            let e1 = Id::encoding(v.task_id);
            let e2 = Interval::encoding(v.batch_interval);
            let e3 = bytes16_encoding(v.agg_param);
            let e4 = u64::encoding(v.report_count);
            let e5 = v.checksum;
            lemma_concat_assoc(old(bytes)@, e1, e2 + (e3 + (e4 + e5)));
            lemma_concat_assoc(old(bytes)@ + e1, e2, e3 + (e4 + e5));
            lemma_concat_assoc(old(bytes)@ + e1 + e2, e3, e4 + e5);
            lemma_concat_assoc(old(bytes)@ + e1 + e2 + e3, e4, e5);
        }
        Ok(())
    }

    fn decode(cur: &mut Cursor) -> (r: Result<Self, CodecError>) {
        let mut c = *cur;
        let task_id = Id::decode(&mut c)?;
        let batch_interval = Interval::decode(&mut c)?;
        let agg_param = decode_u16_bytes(&mut c)?;
        let report_count = u64::decode(&mut c)?;
        let checksum = decode_array32(&mut c)?;
        *cur = c;
        Ok(AggregateShareReq { task_id, batch_interval, agg_param, report_count, checksum })
    }
}

/// The Helper's encrypted aggregate share.
#[derive(Clone, Debug, PartialEq, Eq)]
pub struct AggregateShareResp {
    pub encrypted_agg_share: HpkeCiphertext,
}

impl View for AggregateShareResp {
    type V = HpkeCiphertextView;

    open spec fn view(&self) -> HpkeCiphertextView {
        self.encrypted_agg_share@
    }
}

impl Codec for AggregateShareResp {
    open spec fn encodable(v: HpkeCiphertextView) -> bool {
        HpkeCiphertext::encodable(v)
    }

    open spec fn encoding(v: HpkeCiphertextView) -> Seq<u8> {
        HpkeCiphertext::encoding(v)
    }

    open spec fn parse(s: Seq<u8>) -> Result<(HpkeCiphertextView, Seq<u8>), CodecError> {
        HpkeCiphertext::parse(s)
    }

    proof fn lemma_parse_encoding(v: HpkeCiphertextView, rest: Seq<u8>) {
        HpkeCiphertext::lemma_parse_encoding(v, rest);
    }

    proof fn lemma_encoding_parse(s: Seq<u8>) {
        HpkeCiphertext::lemma_encoding_parse(s);
    }

    proof fn lemma_parse_truncated(v: HpkeCiphertextView, k: int) {
        let e1 = HpkeCiphertext::encoding(v);
        lemma_concat_empty(e1);
        lemma_parse_cut::<HpkeCiphertext>(v, Seq::<u8>::empty(), k);
    }

    fn encode(&self, bytes: &mut Vec<u8>) -> (r: Result<(), CodecError>) {
        self.encrypted_agg_share.encode(bytes)?;
        Ok(())
    }

    fn decode(cur: &mut Cursor) -> (r: Result<Self, CodecError>) {
        let mut c = *cur;
        let encrypted_agg_share = HpkeCiphertext::decode(&mut c)?;
        *cur = c;
        Ok(AggregateShareResp { encrypted_agg_share })
    }
}

/// The public key of an aggregator or collector and the algorithms to use
/// with it.
#[derive(Debug, PartialEq, Eq)]
pub struct HpkeConfig {
    pub id: u8,
    pub kem_id: HpkeKemId,
    pub kdf_id: HpkeKdfId,
    pub aead_id: HpkeAeadId,
    pub public_key: Vec<u8>,
}

/// The model of [`HpkeConfig`].
pub ghost struct HpkeConfigView {
    pub id: u8,
    pub kem_id: u16,
    pub kdf_id: u16,
    pub aead_id: u16,
    pub public_key: Seq<u8>,
}

impl View for HpkeConfig {
    type V = HpkeConfigView;

    open spec fn view(&self) -> HpkeConfigView {
        HpkeConfigView {
            id: self.id,
            kem_id: self.kem_id@,
            kdf_id: self.kdf_id@,
            aead_id: self.aead_id@,
            public_key: self.public_key@,
        }
    }
}

impl HpkeConfig {
    /// Whether the two configurations are alike: the same identifier, the
    /// same algorithms, each written in the same form, and the same key.
    pub open spec fn same_as(&self, other: &HpkeConfig) -> bool {
        &&& self.id == other.id
        &&& self.kem_id == other.kem_id
        &&& self.kdf_id == other.kdf_id
        &&& self.aead_id == other.aead_id
        &&& self.public_key@ == other.public_key@
    }

    /// Two configurations with the same model whose algorithms stand in the
    /// form that decoding gives are alike: what is decoded from the
    /// encoding of such a configuration is that configuration.
    pub proof fn lemma_canonical_is_same(&self, other: &HpkeConfig)
        requires
            self@ == other@,
            self.is_canonical(),
            other.is_canonical(),
        ensures
            self.same_as(other),
    {
    }
}

impl Clone for HpkeConfig {
    fn clone(&self) -> (copy: Self)
        ensures
            copy@ == self@,
            copy.same_as(self),
    {
        HpkeConfig {
            id: self.id,
            kem_id: self.kem_id,
            kdf_id: self.kdf_id,
            aead_id: self.aead_id,
            public_key: clone_bytes(&self.public_key),
        }
    }
}

impl Codec for HpkeConfig {
    open spec fn encodable(v: HpkeConfigView) -> bool {
        bytes16_encodable(v.public_key)
    }

    open spec fn is_canonical(&self) -> bool {
        &&& self.kem_id.is_canonical()
        &&& self.kdf_id.is_canonical()
        &&& self.aead_id.is_canonical()
    }

    open spec fn encoding(v: HpkeConfigView) -> Seq<u8> {
        u8::encoding(v.id)
            + (HpkeKemId::encoding(v.kem_id)
            + (HpkeKdfId::encoding(v.kdf_id)
            + (HpkeAeadId::encoding(v.aead_id)
            + bytes16_encoding(v.public_key))))
    }

    open spec fn parse(s: Seq<u8>) -> Result<(HpkeConfigView, Seq<u8>), CodecError> {
        match u8::parse(s) {
            Err(e) => Err(e),
            Ok((id, s1)) => match HpkeKemId::parse(s1) {
                Err(e) => Err(e),
                Ok((kem_id, s2)) => match HpkeKdfId::parse(s2) {
                    Err(e) => Err(e),
                    Ok((kdf_id, s3)) => match HpkeAeadId::parse(s3) {
                        Err(e) => Err(e),
                        Ok((aead_id, s4)) => match bytes16_parse(s4) {
                            Err(e) => Err(e),
                            Ok((public_key, s5)) => Ok(
                                (
                                    HpkeConfigView {
                                        id,
                                        kem_id,
                                        kdf_id,
                                        aead_id,
                                        public_key,
                                    },
                                    s5,
                                ),
                            ),
                        },
                    },
                },
            },
        }
    }

    proof fn lemma_parse_encoding(v: HpkeConfigView, rest: Seq<u8>) {
        let e1 = u8::encoding(v.id);
        let e2 = HpkeKemId::encoding(v.kem_id);
        let e3 = HpkeKdfId::encoding(v.kdf_id);
        let e4 = HpkeAeadId::encoding(v.aead_id);
        let e5 = bytes16_encoding(v.public_key);
        u8::lemma_parse_encoding(v.id, (e2 + (e3 + (e4 + e5))) + rest);
        HpkeKemId::lemma_parse_encoding(v.kem_id, (e3 + (e4 + e5)) + rest);
        HpkeKdfId::lemma_parse_encoding(v.kdf_id, (e4 + e5) + rest);
        HpkeAeadId::lemma_parse_encoding(v.aead_id, e5 + rest);
        lemma_bytes16_parse_encoding(v.public_key, rest);
        lemma_concat_assoc(e1, e2 + (e3 + (e4 + e5)), rest);
        lemma_concat_assoc(e2, e3 + (e4 + e5), rest);
        lemma_concat_assoc(e3, e4 + e5, rest);
        lemma_concat_assoc(e4, e5, rest);
    }

    proof fn lemma_encoding_parse(s: Seq<u8>) {
        u8::lemma_encoding_parse(s);
        if let Ok((id, s1)) = u8::parse(s) {
            HpkeKemId::lemma_encoding_parse(s1);
            if let Ok((kem_id, s2)) = HpkeKemId::parse(s1) {
                HpkeKdfId::lemma_encoding_parse(s2);
                if let Ok((kdf_id, s3)) = HpkeKdfId::parse(s2) {
                    HpkeAeadId::lemma_encoding_parse(s3);
                    if let Ok((aead_id, s4)) = HpkeAeadId::parse(s3) {
                        lemma_bytes16_encoding_parse(s4);
                        if let Ok((public_key, s5)) = bytes16_parse(s4) {
                            let e1 = u8::encoding(id);
                            let e2 = HpkeKemId::encoding(kem_id);
                            let e3 = HpkeKdfId::encoding(kdf_id);
                            let e4 = HpkeAeadId::encoding(aead_id);
                            let e5 = bytes16_encoding(public_key);
                            lemma_concat_assoc(e4, e5, s5);
                            lemma_concat_assoc(e3, e4 + e5, s5);
                            lemma_concat_assoc(e2, e3 + (e4 + e5), s5);
                            lemma_concat_assoc(e1, e2 + (e3 + (e4 + e5)), s5);
                        }
                    }
                }
            }
        }
    }

    proof fn lemma_parse_truncated(v: HpkeConfigView, k: int) {
        let e1 = u8::encoding(v.id);
        let e2 = HpkeKemId::encoding(v.kem_id);
        let e3 = HpkeKdfId::encoding(v.kdf_id);
        let e4 = HpkeAeadId::encoding(v.aead_id);
        let e5 = bytes16_encoding(v.public_key);
        lemma_parse_cut::<u8>(v.id, e2 + (e3 + (e4 + e5)), k);
        if k >= e1.len() {
            let k1 = k - e1.len();
            lemma_parse_cut::<HpkeKemId>(v.kem_id, e3 + (e4 + e5), k1);
            if k1 >= e2.len() {
                let k2 = k1 - e2.len();
                lemma_parse_cut::<HpkeKdfId>(v.kdf_id, e4 + e5, k2);
                if k2 >= e3.len() {
                    let k3 = k2 - e3.len();
                    lemma_parse_cut::<HpkeAeadId>(v.aead_id, e5, k3);
                    if k3 >= e4.len() {
                        let k4 = k3 - e4.len();
                        lemma_concat_empty(e5);
                        lemma_bytes16_parse_cut(v.public_key, Seq::<u8>::empty(), k4);
                    }
                }
            }
        }
    }

    fn encode(&self, bytes: &mut Vec<u8>) -> (r: Result<(), CodecError>) {
        self.id.encode(bytes)?;
        self.kem_id.encode(bytes)?;
        self.kdf_id.encode(bytes)?;
        self.aead_id.encode(bytes)?;
        encode_u16_bytes(bytes, self.public_key.as_slice())?;
        proof {
            let v = self@;
            let e1 = u8::encoding(v.id);
            let e2 = HpkeKemId::encoding(v.kem_id);
            let e3 = HpkeKdfId::encoding(v.kdf_id);
            let e4 = HpkeAeadId::encoding(v.aead_id);
            let e5 = bytes16_encoding(v.public_key);
            lemma_concat_assoc(old(bytes)@, e1, e2 + (e3 + (e4 + e5)));
            lemma_concat_assoc(old(bytes)@ + e1, e2, e3 + (e4 + e5));
            lemma_concat_assoc(old(bytes)@ + e1 + e2, e3, e4 + e5);
            lemma_concat_assoc(old(bytes)@ + e1 + e2 + e3, e4, e5);
        }
        Ok(())
    }

    fn decode(cur: &mut Cursor) -> (r: Result<Self, CodecError>) {
        let mut c = *cur;
        let id = u8::decode(&mut c)?;
        let kem_id = HpkeKemId::decode(&mut c)?;
        let kdf_id = HpkeKdfId::decode(&mut c)?;
        let aead_id = HpkeAeadId::decode(&mut c)?;
        let public_key = decode_u16_bytes(&mut c)?;
        *cur = c;
        Ok(HpkeConfig { id, kem_id, kdf_id, aead_id, public_key })
    }
}


/// Why an aggregator gives up on a report.
#[derive(Clone, Copy, Debug, PartialEq, Eq, Structural)]
pub enum TransitionFailure {
    BatchCollected,
    ReportReplayed,
    ReportDropped,
    HpkeUnknownConfigId,
    HpkeDecryptError,
    VdafPrepError,
}

impl View for TransitionFailure {
    type V = TransitionFailure;

    open spec fn view(&self) -> TransitionFailure {
        *self
    }
}

impl TransitionFailure {
    /// The number that stands for the failure on the wire.
    pub open spec fn spec_code(self) -> u8 {
        match self {
            TransitionFailure::BatchCollected => 0,
            TransitionFailure::ReportReplayed => 1,
            TransitionFailure::ReportDropped => 2,
            TransitionFailure::HpkeUnknownConfigId => 3,
            TransitionFailure::HpkeDecryptError => 4,
            TransitionFailure::VdafPrepError => 5,
        }
    }

    /// The failure that a number stands for. Numbers above 5 stand for none.
    pub open spec fn spec_from_code(code: u8) -> Result<TransitionFailure, CodecError> {
        if code == 0 {
            Ok(TransitionFailure::BatchCollected)
        } else if code == 1 {
            Ok(TransitionFailure::ReportReplayed)
        } else if code == 2 {
            Ok(TransitionFailure::ReportDropped)
        } else if code == 3 {
            Ok(TransitionFailure::HpkeUnknownConfigId)
        } else if code == 4 {
            Ok(TransitionFailure::HpkeDecryptError)
        } else if code == 5 {
            Ok(TransitionFailure::VdafPrepError)
        } else {
            Err(CodecError::UnexpectedValue)
        }
    }

    /// The number that stands for the failure on the wire.
    pub fn code(self) -> (c: u8)
        ensures
            c == self.spec_code(),
    {
        match self {
            TransitionFailure::BatchCollected => 0,
            TransitionFailure::ReportReplayed => 1,
            TransitionFailure::ReportDropped => 2,
            TransitionFailure::HpkeUnknownConfigId => 3,
            TransitionFailure::HpkeDecryptError => 4,
            TransitionFailure::VdafPrepError => 5,
        }
    }

    /// The failure that `v` stands for.
    pub fn try_from(v: u8) -> (r: Result<TransitionFailure, CodecError>)
        ensures
            r == Self::spec_from_code(v),
    {
        if v == 0 {
            Ok(TransitionFailure::BatchCollected)
        } else if v == 1 {
            Ok(TransitionFailure::ReportReplayed)
        } else if v == 2 {
            Ok(TransitionFailure::ReportDropped)
        } else if v == 3 {
            Ok(TransitionFailure::HpkeUnknownConfigId)
        } else if v == 4 {
            Ok(TransitionFailure::HpkeDecryptError)
        } else if v == 5 {
            Ok(TransitionFailure::VdafPrepError)
        } else {
            Err(CodecError::UnexpectedValue)
        }
    }

    /// The name of the failure with its number in brackets.
    pub open spec fn spec_text(self) -> Seq<char> {
        match self {
            TransitionFailure::BatchCollected => "batch-collected(0)"@,
            TransitionFailure::ReportReplayed => "report-replayed(1)"@,
            TransitionFailure::ReportDropped => "report-dropped(2)"@,
            TransitionFailure::HpkeUnknownConfigId => "hpke-unknown-config-id(3)"@,
            TransitionFailure::HpkeDecryptError => "hpke-decrypt-error(4)"@,
            TransitionFailure::VdafPrepError => "vdaf-prep-error(5)"@,
        }
    }

    /// The name of the failure with its number in brackets.
    pub fn to_string(&self) -> (text: String)
        ensures
            text@ == self.spec_text(),
    {
        match self {
            TransitionFailure::BatchCollected => "batch-collected(0)".to_owned(),
            TransitionFailure::ReportReplayed => "report-replayed(1)".to_owned(),
            TransitionFailure::ReportDropped => "report-dropped(2)".to_owned(),
            TransitionFailure::HpkeUnknownConfigId => "hpke-unknown-config-id(3)".to_owned(),
            TransitionFailure::HpkeDecryptError => "hpke-decrypt-error(4)".to_owned(),
            TransitionFailure::VdafPrepError => "vdaf-prep-error(5)".to_owned(),
        }
    }

    /// A number and the failure it stands for give each other.
    pub proof fn lemma_code_roundtrip(self)
        ensures
            Self::spec_from_code(self.spec_code()) == Ok::<TransitionFailure, CodecError>(self),
    {
    }

    /// No failure stands behind a number above 5.
    pub proof fn lemma_from_code(code: u8)
        ensures
            Self::spec_from_code(code) matches Ok(f) ==> f.spec_code() == code,
            code > 5 ==> Self::spec_from_code(code) == Err::<TransitionFailure, CodecError>(
                CodecError::UnexpectedValue,
            ),
    {
    }
}

impl Codec for TransitionFailure {
    open spec fn encodable(v: TransitionFailure) -> bool {
        true
    }

    open spec fn encoding(v: TransitionFailure) -> Seq<u8> {
        u8::encoding(v.spec_code())
    }

    open spec fn parse(s: Seq<u8>) -> Result<(TransitionFailure, Seq<u8>), CodecError> {
        match u8::parse(s) {
            Err(e) => Err(e),
            Ok((code, s1)) => match Self::spec_from_code(code) {
                Err(e) => Err(e),
                Ok(failure) => Ok((failure, s1)),
            },
        }
    }

    proof fn lemma_parse_encoding(v: TransitionFailure, rest: Seq<u8>) {
        u8::lemma_parse_encoding(v.spec_code(), rest);
    }

    proof fn lemma_encoding_parse(s: Seq<u8>) {
        u8::lemma_encoding_parse(s);
    }

    proof fn lemma_parse_truncated(v: TransitionFailure, k: int) {
        u8::lemma_parse_truncated(v.spec_code(), k);
    }

    fn encode(&self, bytes: &mut Vec<u8>) -> (r: Result<(), CodecError>) {
        self.code().encode(bytes)
    }

    fn decode(cur: &mut Cursor) -> (r: Result<Self, CodecError>) {
        let mut c = *cur;
        let code = u8::decode(&mut c)?;
        let failure = TransitionFailure::try_from(code)?;
        *cur = c;
        Ok(failure)
    }
}

/// What a transition says of its report: the next message of the
/// preparation, that the preparation is done, or why it failed.
#[derive(Debug, PartialEq, Eq)]
pub enum TransitionVar {
    Continued(Vec<u8>),
    Finished,
    Failed(TransitionFailure),
}

/// The model of [`TransitionVar`].
pub ghost enum TransitionVarView {
    Continued(Seq<u8>),
    Finished,
    Failed(TransitionFailure),
}

impl View for TransitionVar {
    type V = TransitionVarView;

    open spec fn view(&self) -> TransitionVarView {
        match self {
            TransitionVar::Continued(message) => TransitionVarView::Continued(message@),
            TransitionVar::Finished => TransitionVarView::Finished,
            TransitionVar::Failed(failure) => TransitionVarView::Failed(*failure),
        }
    }
}

impl Clone for TransitionVar {
    fn clone(&self) -> (copy: Self)
        ensures
            copy@ == self@,
    {
        match self {
            TransitionVar::Continued(message) => TransitionVar::Continued(clone_bytes(message)),
            TransitionVar::Finished => TransitionVar::Finished,
            TransitionVar::Failed(failure) => TransitionVar::Failed(*failure),
        }
    }
}

impl Codec for TransitionVar {
    open spec fn encodable(v: TransitionVarView) -> bool {
        match v {
            TransitionVarView::Continued(message) => bytes16_encodable(message),
            TransitionVarView::Finished => true,
            TransitionVarView::Failed(_) => true,
        }
    }

    open spec fn encoding(v: TransitionVarView) -> Seq<u8> {
        match v {
            TransitionVarView::Continued(message) => u8::encoding(0) + bytes16_encoding(message),
            TransitionVarView::Finished => u8::encoding(1),
            TransitionVarView::Failed(failure) => u8::encoding(2) + TransitionFailure::encoding(
                failure,
            ),
        }
    }

    open spec fn parse(s: Seq<u8>) -> Result<(TransitionVarView, Seq<u8>), CodecError> {
        match u8::parse(s) {
            Err(e) => Err(e),
            Ok((tag, s1)) => if tag == 0 {
                match bytes16_parse(s1) {
                    Err(e) => Err(e),
                    Ok((message, s2)) => Ok((TransitionVarView::Continued(message), s2)),
                }
            } else if tag == 1 {
                Ok((TransitionVarView::Finished, s1))
            } else if tag == 2 {
                match TransitionFailure::parse(s1) {
                    Err(e) => Err(e),
                    Ok((failure, s2)) => Ok((TransitionVarView::Failed(failure), s2)),
                }
            } else {
                Err(CodecError::UnexpectedValue)
            },
        }
    }

    proof fn lemma_parse_encoding(v: TransitionVarView, rest: Seq<u8>) {
        match v {
            TransitionVarView::Continued(message) => {
                let body = bytes16_encoding(message);
                u8::lemma_parse_encoding(0, body + rest);
                lemma_bytes16_parse_encoding(message, rest);
                lemma_concat_assoc(u8::encoding(0), body, rest);
            },
            TransitionVarView::Finished => {
                u8::lemma_parse_encoding(1, rest);
            },
            TransitionVarView::Failed(failure) => {
                let body = TransitionFailure::encoding(failure);
                u8::lemma_parse_encoding(2, body + rest);
                TransitionFailure::lemma_parse_encoding(failure, rest);
                lemma_concat_assoc(u8::encoding(2), body, rest);
            },
        }
    }

    proof fn lemma_encoding_parse(s: Seq<u8>) {
        u8::lemma_encoding_parse(s);
        if let Ok((tag, s1)) = u8::parse(s) {
            if tag == 0 {
                lemma_bytes16_encoding_parse(s1);
                if let Ok((message, s2)) = bytes16_parse(s1) {
                    lemma_concat_assoc(u8::encoding(0), bytes16_encoding(message), s2);
                }
            } else if tag == 2 {
                TransitionFailure::lemma_encoding_parse(s1);
                if let Ok((failure, s2)) = TransitionFailure::parse(s1) {
                    lemma_concat_assoc(u8::encoding(2), TransitionFailure::encoding(failure), s2);
                }
            }
        }
    }

    proof fn lemma_parse_truncated(v: TransitionVarView, k: int) {
        match v {
            TransitionVarView::Continued(message) => {
                let body = bytes16_encoding(message);
                lemma_parse_cut::<u8>(0, body, k);
                if k >= u8::encoding(0).len() {
                    lemma_concat_empty(body);
                    lemma_bytes16_parse_cut(message, Seq::<u8>::empty(), k - u8::encoding(0).len());
                }
            },
            TransitionVarView::Finished => {
                u8::lemma_parse_truncated(1, k);
            },
            TransitionVarView::Failed(failure) => {
                let body = TransitionFailure::encoding(failure);
                lemma_parse_cut::<u8>(2, body, k);
                if k >= u8::encoding(2).len() {
                    TransitionFailure::lemma_parse_truncated(failure, k - u8::encoding(2).len());
                }
            },
        }
    }

    fn encode(&self, bytes: &mut Vec<u8>) -> (r: Result<(), CodecError>) {
        match self {
            TransitionVar::Continued(message) => {
                0u8.encode(bytes)?;
                encode_u16_bytes(bytes, message.as_slice())?;
                proof {
                    lemma_concat_assoc(old(bytes)@, u8::encoding(0), bytes16_encoding(message@));
                }
            },
            TransitionVar::Finished => {
                1u8.encode(bytes)?;
            },
            TransitionVar::Failed(failure) => {
                2u8.encode(bytes)?;
                failure.encode(bytes)?;
                proof {
                    lemma_concat_assoc(
                        old(bytes)@,
                        u8::encoding(2),
                        TransitionFailure::encoding(*failure),
                    );
                }
            },
        }
        Ok(())
    }

    fn decode(cur: &mut Cursor) -> (r: Result<Self, CodecError>) {
        let mut c = *cur;
        let tag = u8::decode(&mut c)?;
        let var = if tag == 0 {
            TransitionVar::Continued(decode_u16_bytes(&mut c)?)
        } else if tag == 1 {
            TransitionVar::Finished
        } else if tag == 2 {
            TransitionVar::Failed(TransitionFailure::decode(&mut c)?)
        } else {
            return Err(CodecError::UnexpectedValue);
        };
        *cur = c;
        Ok(var)
    }
}

/// What an aggregation request carries: in the first request of a job the
/// aggregation parameter and the report shares, later on the transitions.
#[derive(Clone, Debug, PartialEq, Eq)]
#[allow(inconsistent_fields)]
pub enum AggregateReqVar {
    Init { agg_param: Vec<u8>, seq: Vec<ReportShare> },
    Continue { seq: Vec<Transition> },
}

/// The model of [`AggregateReqVar`].
#[allow(inconsistent_fields)]
pub ghost enum AggregateReqVarView {
    Init { agg_param: Seq<u8>, seq: Seq<ReportShareView> },
    Continue { seq: Seq<TransitionView> },
}

impl View for AggregateReqVar {
    type V = AggregateReqVarView;

    open spec fn view(&self) -> AggregateReqVarView {
        match self {
            AggregateReqVar::Init { agg_param, seq } => AggregateReqVarView::Init {
                agg_param: agg_param@,
                seq: views(seq@),
            },
            AggregateReqVar::Continue { seq } => AggregateReqVarView::Continue { seq: views(seq@) },
        }
    }
}

impl Default for AggregateReqVar {
    fn default() -> (var: Self)
        ensures
            var@ == (AggregateReqVarView::Init { agg_param: Seq::empty(), seq: Seq::empty() }),
    {
        let var = AggregateReqVar::Init { agg_param: Vec::new(), seq: Vec::new() };
        assert(views(Seq::<ReportShare>::empty()) =~= Seq::<ReportShareView>::empty());
        var
    }
}

proof fn lemma_init_parse_encoding(agg_param: Seq<u8>, seq: Seq<ReportShareView>, rest: Seq<u8>)
    requires
        bytes16_encodable(agg_param),
        items16_encodable::<ReportShare>(seq),
    ensures
        AggregateReqVar::parse(
            AggregateReqVar::encoding(AggregateReqVarView::Init { agg_param, seq }) + rest,
        ) == Ok::<(AggregateReqVarView, Seq<u8>), CodecError>(
            (AggregateReqVarView::Init { agg_param, seq }, rest),
        ),
{
    let tag = u8::encoding(0);
    let e1 = bytes16_encoding(agg_param);
    let e2 = items16_encoding::<ReportShare>(seq);
    let s1 = e1 + (e2 + rest);
    lemma_concat_assoc(tag, e1 + e2, rest);
    lemma_concat_assoc(e1, e2, rest);
    u8::lemma_parse_encoding(0, s1);
    lemma_bytes16_parse_encoding(agg_param, e2 + rest);
    lemma_items16_parse_encoding::<ReportShare>(seq, rest);
}

proof fn lemma_continue_parse_encoding(seq: Seq<TransitionView>, rest: Seq<u8>)
    requires
        items16_encodable::<Transition>(seq),
    ensures
        AggregateReqVar::parse(
            AggregateReqVar::encoding(AggregateReqVarView::Continue { seq }) + rest,
        ) == Ok::<(AggregateReqVarView, Seq<u8>), CodecError>(
            (AggregateReqVarView::Continue { seq }, rest),
        ),
{
    let tag = u8::encoding(1);
    let e1 = items16_encoding::<Transition>(seq);
    lemma_concat_assoc(tag, e1, rest);
    u8::lemma_parse_encoding(1, e1 + rest);
    lemma_items16_parse_encoding::<Transition>(seq, rest);
}

impl Codec for AggregateReqVar {
    open spec fn encodable(v: AggregateReqVarView) -> bool {
        match v {
            AggregateReqVarView::Init { agg_param, seq } => {
                &&& bytes16_encodable(agg_param)
                &&& items16_encodable::<ReportShare>(seq)
            },
            AggregateReqVarView::Continue { seq } => items16_encodable::<Transition>(seq),
        }
    }

    open spec fn encoding(v: AggregateReqVarView) -> Seq<u8> {
        match v {
            AggregateReqVarView::Init { agg_param, seq } => u8::encoding(0) + (bytes16_encoding(
                agg_param,
            ) + items16_encoding::<ReportShare>(seq)),
            AggregateReqVarView::Continue { seq } => u8::encoding(1) + items16_encoding::<
                Transition,
            >(seq),
        }
    }

    open spec fn parse(s: Seq<u8>) -> Result<(AggregateReqVarView, Seq<u8>), CodecError> {
        match u8::parse(s) {
            Err(e) => Err(e),
            Ok((tag, s1)) => if tag == 0 {
                match bytes16_parse(s1) {
                    Err(e) => Err(e),
                    Ok((agg_param, s2)) => match items16_parse::<ReportShare>(s2) {
                        Err(e) => Err(e),
                        Ok((seq, s3)) => Ok((AggregateReqVarView::Init { agg_param, seq }, s3)),
                    },
                }
            } else if tag == 1 {
                match items16_parse::<Transition>(s1) {
                    Err(e) => Err(e),
                    Ok((seq, s2)) => Ok((AggregateReqVarView::Continue { seq }, s2)),
                }
            } else {
                Err(CodecError::UnexpectedValue)
            },
        }
    }

    proof fn lemma_parse_encoding(v: AggregateReqVarView, rest: Seq<u8>) {
        match v {
            AggregateReqVarView::Init { agg_param, seq } => {
                lemma_init_parse_encoding(agg_param, seq, rest);
            },
            AggregateReqVarView::Continue { seq } => {
                lemma_continue_parse_encoding(seq, rest);
            },
        }
    }

    proof fn lemma_encoding_parse(s: Seq<u8>) {
        u8::lemma_encoding_parse(s);
        if let Ok((tag, s1)) = u8::parse(s) {
            if tag == 0 {
                lemma_bytes16_encoding_parse(s1);
                if let Ok((agg_param, s2)) = bytes16_parse(s1) {
                    lemma_items16_encoding_parse::<ReportShare>(s2);
                    if let Ok((seq, s3)) = items16_parse::<ReportShare>(s2) {
                        let e1 = bytes16_encoding(agg_param);
                        let e2 = items16_encoding::<ReportShare>(seq);
                        lemma_concat_assoc(e1, e2, s3);
                        lemma_concat_assoc(u8::encoding(0), e1 + e2, s3);
                    }
                }
            } else if tag == 1 {
                lemma_items16_encoding_parse::<Transition>(s1);
                if let Ok((seq, s2)) = items16_parse::<Transition>(s1) {
                    lemma_concat_assoc(u8::encoding(1), items16_encoding::<Transition>(seq), s2);
                }
            }
        }
    }

    proof fn lemma_parse_truncated(v: AggregateReqVarView, k: int) {
        match v {
            AggregateReqVarView::Init { agg_param, seq } => {
                let e1 = bytes16_encoding(agg_param);
                let e2 = items16_encoding::<ReportShare>(seq);
                lemma_parse_cut::<u8>(0, e1 + e2, k);
                if k >= u8::encoding(0).len() {
                    let k1 = k - u8::encoding(0).len();
                    lemma_bytes16_parse_cut(agg_param, e2, k1);
                    if k1 >= e1.len() {
                        lemma_concat_empty(e2);
                        lemma_items16_parse_cut::<ReportShare>(
                            seq,
                            Seq::<u8>::empty(),
                            k1 - e1.len(),
                        );
                    }
                }
            },
            AggregateReqVarView::Continue { seq } => {
                let e1 = items16_encoding::<Transition>(seq);
                lemma_parse_cut::<u8>(1, e1, k);
                if k >= u8::encoding(1).len() {
                    lemma_concat_empty(e1);
                    lemma_items16_parse_cut::<Transition>(
                        seq,
                        Seq::<u8>::empty(),
                        k - u8::encoding(1).len(),
                    );
                }
            },
        }
    }

    fn encode(&self, bytes: &mut Vec<u8>) -> (r: Result<(), CodecError>) {
        match self {
            AggregateReqVar::Init { agg_param, seq } => {
                0u8.encode(bytes)?;
                encode_u16_bytes(bytes, agg_param.as_slice())?;
                encode_u16_items(bytes, seq)?;
                proof {
                    let e1 = bytes16_encoding(agg_param@);
                    let e2 = items16_encoding::<ReportShare>(views(seq@));
                    lemma_concat_assoc(old(bytes)@, u8::encoding(0), e1 + e2);
                    lemma_concat_assoc(old(bytes)@ + u8::encoding(0), e1, e2);
                }
            },
            AggregateReqVar::Continue { seq } => {
                1u8.encode(bytes)?;
                encode_u16_items(bytes, seq)?;
                proof {
                    lemma_concat_assoc(
                        old(bytes)@,
                        u8::encoding(1),
                        items16_encoding::<Transition>(views(seq@)),
                    );
                }
            },
        }
        Ok(())
    }

    fn decode(cur: &mut Cursor) -> (r: Result<Self, CodecError>) {
        let mut c = *cur;
        let tag = u8::decode(&mut c)?;
        let var = if tag == 0 {
            let agg_param = decode_u16_bytes(&mut c)?;
            let seq = decode_u16_items::<ReportShare>(&mut c)?;
            AggregateReqVar::Init { agg_param, seq }
        } else if tag == 1 {
            AggregateReqVar::Continue { seq: decode_u16_items::<Transition>(&mut c)? }
        } else {
            return Err(CodecError::UnexpectedValue);
        };
        *cur = c;
        Ok(var)
    }
}

/// The codepoint of a key encapsulation mechanism. Its model is the codepoint's
/// number: an algorithm that has a name here is read as that name.
#[derive(Clone, Copy, Debug, PartialEq, Eq)]
pub enum HpkeKemId {
    X25519HkdfSha256,
    NotImplemented(u16),
}

impl View for HpkeKemId {
    type V = u16;

    open spec fn view(&self) -> u16 {
        match self {
            HpkeKemId::X25519HkdfSha256 => KEM_ID_X25519_HKDF_SHA256,
            HpkeKemId::NotImplemented(x) => *x,
        }
    }
}

impl HpkeKemId {
    /// The codepoint's number.
    pub fn code(self) -> (x: u16)
        ensures
            x == self@,
    {
        match self {
            HpkeKemId::X25519HkdfSha256 => KEM_ID_X25519_HKDF_SHA256,
            HpkeKemId::NotImplemented(x) => x,
        }
    }

    /// The codepoint with the number `x`, by its name where it has one.
    pub open spec fn spec_from_code(x: u16) -> Self {
        if x == KEM_ID_X25519_HKDF_SHA256 {
            HpkeKemId::X25519HkdfSha256
        } else {
            HpkeKemId::NotImplemented(x)
        }
    }

    /// The codepoint with the number `x`, by its name where it has one.
    pub fn from_code(x: u16) -> (id: Self)
        ensures
            id == Self::spec_from_code(x),
            id@ == x,
            id is NotImplemented <==> x != KEM_ID_X25519_HKDF_SHA256,
    {
        if x == KEM_ID_X25519_HKDF_SHA256 {
            HpkeKemId::X25519HkdfSha256
        } else {
            HpkeKemId::NotImplemented(x)
        }
    }
}

impl From<HpkeKemId> for u16 {
    fn from(id: HpkeKemId) -> (x: u16) {
        id.code()
    }
}

impl vstd::std_specs::convert::FromSpecImpl<HpkeKemId> for u16 {
    open spec fn obeys_from_spec() -> bool {
        true
    }

    open spec fn from_spec(id: HpkeKemId) -> u16 {
        id@
    }
}

impl Codec for HpkeKemId {
    open spec fn encodable(v: u16) -> bool {
        true
    }

    open spec fn is_canonical(&self) -> bool {
        *self == Self::spec_from_code(self@)
    }

    open spec fn encoding(v: u16) -> Seq<u8> {
        u16::encoding(v)
    }

    open spec fn parse(s: Seq<u8>) -> Result<(u16, Seq<u8>), CodecError> {
        u16::parse(s)
    }

    proof fn lemma_parse_encoding(v: u16, rest: Seq<u8>) {
        u16::lemma_parse_encoding(v, rest);
    }

    proof fn lemma_encoding_parse(s: Seq<u8>) {
        u16::lemma_encoding_parse(s);
    }

    proof fn lemma_parse_truncated(v: u16, k: int) {
        u16::lemma_parse_truncated(v, k);
    }

    fn encode(&self, bytes: &mut Vec<u8>) -> (r: Result<(), CodecError>) {
        self.code().encode(bytes)
    }

    fn decode(cur: &mut Cursor) -> (r: Result<Self, CodecError>) {
        let x = u16::decode(cur)?;
        Ok(HpkeKemId::from_code(x))
    }
}

/// The codepoint of a key derivation function. Its model is the codepoint's
/// number: an algorithm that has a name here is read as that name.
#[derive(Clone, Copy, Debug, PartialEq, Eq)]
pub enum HpkeKdfId {
    HkdfSha256,
    NotImplemented(u16),
}

impl View for HpkeKdfId {
    type V = u16;

    open spec fn view(&self) -> u16 {
        match self {
            HpkeKdfId::HkdfSha256 => KDF_ID_HKDF_SHA256,
            HpkeKdfId::NotImplemented(x) => *x,
        }
    }
}

impl HpkeKdfId {
    /// The codepoint's number.
    pub fn code(self) -> (x: u16)
        ensures
            x == self@,
    {
        match self {
            HpkeKdfId::HkdfSha256 => KDF_ID_HKDF_SHA256,
            HpkeKdfId::NotImplemented(x) => x,
        }
    }

    /// The codepoint with the number `x`, by its name where it has one.
    pub open spec fn spec_from_code(x: u16) -> Self {
        if x == KDF_ID_HKDF_SHA256 {
            HpkeKdfId::HkdfSha256
        } else {
            HpkeKdfId::NotImplemented(x)
        }
    }

    /// The codepoint with the number `x`, by its name where it has one.
    pub fn from_code(x: u16) -> (id: Self)
        ensures
            id == Self::spec_from_code(x),
            id@ == x,
            id is NotImplemented <==> x != KDF_ID_HKDF_SHA256,
    {
        if x == KDF_ID_HKDF_SHA256 {
            HpkeKdfId::HkdfSha256
        } else {
            HpkeKdfId::NotImplemented(x)
        }
    }
}

impl From<HpkeKdfId> for u16 {
    fn from(id: HpkeKdfId) -> (x: u16) {
        id.code()
    }
}

impl vstd::std_specs::convert::FromSpecImpl<HpkeKdfId> for u16 {
    open spec fn obeys_from_spec() -> bool {
        true
    }

    open spec fn from_spec(id: HpkeKdfId) -> u16 {
        id@
    }
}

impl Codec for HpkeKdfId {
    open spec fn encodable(v: u16) -> bool {
        true
    }

    open spec fn is_canonical(&self) -> bool {
        *self == Self::spec_from_code(self@)
    }

    open spec fn encoding(v: u16) -> Seq<u8> {
        u16::encoding(v)
    }

    open spec fn parse(s: Seq<u8>) -> Result<(u16, Seq<u8>), CodecError> {
        u16::parse(s)
    }

    proof fn lemma_parse_encoding(v: u16, rest: Seq<u8>) {
        u16::lemma_parse_encoding(v, rest);
    }

    proof fn lemma_encoding_parse(s: Seq<u8>) {
        u16::lemma_encoding_parse(s);
    }

    proof fn lemma_parse_truncated(v: u16, k: int) {
        u16::lemma_parse_truncated(v, k);
    }

    fn encode(&self, bytes: &mut Vec<u8>) -> (r: Result<(), CodecError>) {
        self.code().encode(bytes)
    }

    fn decode(cur: &mut Cursor) -> (r: Result<Self, CodecError>) {
        let x = u16::decode(cur)?;
        Ok(HpkeKdfId::from_code(x))
    }
}

/// The codepoint of an authenticated encryption scheme. Its model is the codepoint's
/// number: an algorithm that has a name here is read as that name.
#[derive(Clone, Copy, Debug, PartialEq, Eq)]
pub enum HpkeAeadId {
    Aes128Gcm,
    NotImplemented(u16),
}

impl View for HpkeAeadId {
    type V = u16;

    open spec fn view(&self) -> u16 {
        match self {
            HpkeAeadId::Aes128Gcm => AEAD_ID_AES128GCM,
            HpkeAeadId::NotImplemented(x) => *x,
        }
    }
}

impl HpkeAeadId {
    /// The codepoint's number.
    pub fn code(self) -> (x: u16)
        ensures
            x == self@,
    {
        match self {
            HpkeAeadId::Aes128Gcm => AEAD_ID_AES128GCM,
            HpkeAeadId::NotImplemented(x) => x,
        }
    }

    /// The codepoint with the number `x`, by its name where it has one.
    pub open spec fn spec_from_code(x: u16) -> Self {
        if x == AEAD_ID_AES128GCM {
            HpkeAeadId::Aes128Gcm
        } else {
            HpkeAeadId::NotImplemented(x)
        }
    }

    /// The codepoint with the number `x`, by its name where it has one.
    pub fn from_code(x: u16) -> (id: Self)
        ensures
            id == Self::spec_from_code(x),
            id@ == x,
            id is NotImplemented <==> x != AEAD_ID_AES128GCM,
    {
        if x == AEAD_ID_AES128GCM {
            HpkeAeadId::Aes128Gcm
        } else {
            HpkeAeadId::NotImplemented(x)
        }
    }
}

impl From<HpkeAeadId> for u16 {
    fn from(id: HpkeAeadId) -> (x: u16) {
        id.code()
    }
}

impl vstd::std_specs::convert::FromSpecImpl<HpkeAeadId> for u16 {
    open spec fn obeys_from_spec() -> bool {
        true
    }

    open spec fn from_spec(id: HpkeAeadId) -> u16 {
        id@
    }
}

impl Codec for HpkeAeadId {
    open spec fn encodable(v: u16) -> bool {
        true
    }

    open spec fn is_canonical(&self) -> bool {
        *self == Self::spec_from_code(self@)
    }

    open spec fn encoding(v: u16) -> Seq<u8> {
        u16::encoding(v)
    }

    open spec fn parse(s: Seq<u8>) -> Result<(u16, Seq<u8>), CodecError> {
        u16::parse(s)
    }

    proof fn lemma_parse_encoding(v: u16, rest: Seq<u8>) {
        u16::lemma_parse_encoding(v, rest);
    }

    proof fn lemma_encoding_parse(s: Seq<u8>) {
        u16::lemma_encoding_parse(s);
    }

    proof fn lemma_parse_truncated(v: u16, k: int) {
        u16::lemma_parse_truncated(v, k);
    }

    fn encode(&self, bytes: &mut Vec<u8>) -> (r: Result<(), CodecError>) {
        self.code().encode(bytes)
    }

    fn decode(cur: &mut Cursor) -> (r: Result<Self, CodecError>) {
        let x = u16::decode(cur)?;
        Ok(HpkeAeadId::from_code(x))
    }
}


impl AggregateReq {
    /// The report shares of a first request. A later request has none.
    pub fn get_report_shares_ref(&self) -> (r: Result<&[ReportShare], DapAbort>)
        ensures
            match self.var {
                AggregateReqVar::Init { seq, .. } => r matches Ok(shares) && shares@ == seq@,
                AggregateReqVar::Continue { .. } => r == Err::<&[ReportShare], DapAbort>(
                    DapAbort::UnrecognizedMessage,
                ),
            },
    {
        match &self.var {
            AggregateReqVar::Init { agg_param: _, seq } => Ok(seq.as_slice()),
            _ => Err(DapAbort::UnrecognizedMessage),
        }
    }

    /// The transitions of a later request. A first request has none.
    pub fn get_transitions_ref(&self) -> (r: Result<&[Transition], DapAbort>)
        ensures
            match self.var {
                AggregateReqVar::Continue { seq } => r matches Ok(transitions) && transitions@
                    == seq@,
                AggregateReqVar::Init { .. } => r == Err::<&[Transition], DapAbort>(
                    DapAbort::UnrecognizedMessage,
                ),
            },
    {
        match &self.var {
            AggregateReqVar::Continue { seq } => Ok(seq.as_slice()),
            _ => Err(DapAbort::UnrecognizedMessage),
        }
    }

    /// The aggregation parameter of a first request.
    pub fn unwrap_agg_param_ref(&self) -> (r: &[u8])
        requires
            self.var is Init,
        ensures
            self.var matches AggregateReqVar::Init { agg_param, .. } && r@ == agg_param@,
    {
        match &self.var {
            AggregateReqVar::Init { agg_param, seq: _ } => agg_param.as_slice(),
            AggregateReqVar::Continue { .. } => vstd::pervasive::unreached(),
        }
    }
}

/// The first request of an aggregation job.
pub type AggregationJobInitReq = AggregateReq;

/// A later request of an aggregation job.
pub type AggregationJobContinueReq = AggregateReq;

/// The Helper's answer in an aggregation job.
pub type AggregationJobResp = AggregateResp;

impl Interval {
    /// The end of the interval: the first time that is not in it.
    pub open spec fn spec_end(self) -> int {
        self.start + self.duration
    }

    /// The end of the interval: the first time that is not in it.
    pub fn end(&self) -> (end: u64)
        requires
            self.spec_end() <= u64::MAX,
        ensures
            end == self.spec_end(),
    {
        self.start + self.duration
    }

    /// Whether the interval starts on a multiple of `time_precision`, lasts
    /// for a multiple of it, and lasts at least as long.
    pub open spec fn spec_is_valid_for(self, time_precision: Time) -> bool {
        &&& self.start % time_precision == 0
        &&& self.duration % time_precision == 0
        &&& self.duration >= time_precision
    }

    /// Whether the interval is a batch interval of the task. A task with
    /// the time precision zero has no batch interval.
    pub fn is_valid_for(&self, task_config: &DapTaskConfig) -> (valid: bool)
        ensures
            task_config.time_precision > 0 ==> valid == self.spec_is_valid_for(
                task_config.time_precision,
            ),
            task_config.time_precision == 0 ==> !valid,
    {
        if task_config.time_precision == 0 {
            return false;
        }
        if self.start % task_config.time_precision != 0 || self.duration
            % task_config.time_precision != 0 || self.duration < task_config.time_precision {
            return false;
        }
        true
    }
}

/// Which batch a collector asks for.
#[derive(Clone, Copy, Debug, PartialEq, Eq)]
pub enum BatchSelector {
    TimeInterval { batch_interval: Interval },
    FixedSizeByBatchId { batch_id: BatchId },
}

/// Which kind of batch the reports of an aggregation job go to. The batch
/// of a time-interval task follows from each report's own time.
#[derive(Clone, Copy, Debug, PartialEq, Eq)]
pub enum PartialBatchSelector {
    TimeInterval,
    FixedSizeByBatchId { batch_id: BatchId },
}

impl From<BatchSelector> for PartialBatchSelector {
    fn from(batch_sel: BatchSelector) -> (part: PartialBatchSelector) {
        batch_sel.to_partial()
    }
}

impl vstd::std_specs::convert::FromSpecImpl<BatchSelector> for PartialBatchSelector {
    open spec fn obeys_from_spec() -> bool {
        true
    }

    open spec fn from_spec(batch_sel: BatchSelector) -> PartialBatchSelector {
        match batch_sel {
            BatchSelector::TimeInterval { .. } => PartialBatchSelector::TimeInterval,
            BatchSelector::FixedSizeByBatchId { batch_id } => {
                PartialBatchSelector::FixedSizeByBatchId { batch_id }
            },
        }
    }
}

impl BatchSelector {
    /// The selector without its bounds.
    pub fn to_partial(&self) -> (part: PartialBatchSelector)
        ensures
            part == match *self {
                BatchSelector::TimeInterval { .. } => PartialBatchSelector::TimeInterval,
                BatchSelector::FixedSizeByBatchId { batch_id } => {
                    PartialBatchSelector::FixedSizeByBatchId { batch_id }
                },
            },
    {
        match self {
            BatchSelector::TimeInterval { .. } => PartialBatchSelector::TimeInterval,
            BatchSelector::FixedSizeByBatchId { batch_id } => {
                PartialBatchSelector::FixedSizeByBatchId { batch_id: *batch_id }
            },
        }
    }
}

/// What a collector gets: the encrypted aggregate shares of a batch and the
/// number of reports in it.
#[derive(Debug, PartialEq, Eq)]
pub struct Collection {
    pub part_batch_sel: PartialBatchSelector,
    pub report_count: u64,
    pub interval: Interval,
    pub encrypted_agg_shares: Vec<HpkeCiphertext>,
}

/// The model of [`Collection`].
pub ghost struct CollectionView {
    pub part_batch_sel: PartialBatchSelector,
    pub report_count: u64,
    pub interval: Interval,
    pub encrypted_agg_shares: Seq<HpkeCiphertextView>,
}

impl View for Collection {
    type V = CollectionView;

    open spec fn view(&self) -> CollectionView {
        CollectionView {
            part_batch_sel: self.part_batch_sel,
            report_count: self.report_count,
            interval: self.interval,
            encrypted_agg_shares: views(self.encrypted_agg_shares@),
        }
    }
}

impl Clone for Collection {
    fn clone(&self) -> (copy: Self)
        ensures
            copy@ == self@,
    {
        Collection {
            part_batch_sel: self.part_batch_sel,
            report_count: self.report_count,
            interval: self.interval,
            encrypted_agg_shares: clone_ciphertexts(&self.encrypted_agg_shares),
        }
    }
}

/// A copy of each ciphertext.
pub fn clone_ciphertexts(shares: &Vec<HpkeCiphertext>) -> (copy: Vec<HpkeCiphertext>)
    ensures
        views(copy@) == views(shares@),
{
    let mut copy: Vec<HpkeCiphertext> = Vec::new();
    let mut i: usize = 0;
    assert(views(copy@) =~= views(shares@.take(0)));
    while i < shares.len()
        invariant
            i <= shares@.len(),
            views(copy@) == views(shares@.take(i as int)),
        decreases shares@.len() - i,
    {
        let ghost before = copy@;
        let share = shares[i].clone();
        copy.push(share);
        proof {
            let all = shares@;
            assert(all.take(i + 1) =~= all.take(i as int).push(all[i as int]));
            assert(views(copy@) =~= views(before).push(share@));
            assert(views(all.take(i + 1)) =~= views(all.take(i as int)).push(all[i as int]@));
        }
        i = i + 1;
    }
    assert(shares@.take(i as int) =~= shares@);
    copy
}

/// A tag that no variant of a transition has is an unexpected value.
pub proof fn lemma_transition_var_unknown_tag(s: Seq<u8>)
    requires
        s.len() > 0,
        s[0] > 2,
    ensures
        TransitionVar::parse(s) == Err::<(TransitionVarView, Seq<u8>), CodecError>(
            CodecError::UnexpectedValue,
        ),
{
    lemma_parse_u8(s);
}

/// A tag that no variant of an aggregation request has is an unexpected
/// value.
pub proof fn lemma_aggregate_req_var_unknown_tag(s: Seq<u8>)
    requires
        s.len() > 0,
        s[0] > 1,
    ensures
        AggregateReqVar::parse(s) == Err::<(AggregateReqVarView, Seq<u8>), CodecError>(
            CodecError::UnexpectedValue,
        ),
{
    lemma_parse_u8(s);
}

/// A code that no transition failure has is an unexpected value.
pub proof fn lemma_transition_failure_unknown_code(s: Seq<u8>)
    requires
        s.len() > 0,
        s[0] > 5,
    ensures
        TransitionFailure::parse(s) == Err::<(TransitionFailure, Seq<u8>), CodecError>(
            CodecError::UnexpectedValue,
        ),
{
    lemma_parse_u8(s);
}

} // verus!
