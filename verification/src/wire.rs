//! The envelope that travels inside one frame, and the body of a store request.
//!
//! Layout, all integers little-endian: a string or a byte field is a `u64` length followed
//! by that many bytes (a string in UTF-8); a message kind is a `u32` tag, `Store` being 0.

use vstd::prelude::*;
use vstd::bytes::*;
use vstd::slice::*;
use vstd::string::*;
use vstd::utf8::*;

verus! {

/// What an envelope asks the receiver to do.
#[derive(Clone, Copy, Debug, PartialEq, Eq, Structural)]
pub enum MessageType {
    Store,
}

/// Why a buffer is not an envelope or a body.
#[derive(Clone, Copy, Debug, PartialEq, Eq, Structural)]
pub enum DecodeError {
    /// The buffer ends inside a length, a tag or a field.
    Truncated,
    /// A string field is not UTF-8.
    InvalidUtf8,
    /// The kind tag names no known message kind.
    UnknownKind,
}

/// The envelope: who sent it, what kind it is, and the kind's encoded body.
#[derive(Debug)]
pub struct Payload {
    pub from: String,
    pub msg_type: MessageType,
    pub msg: Vec<u8>,
}

/// Body of a `Store` envelope: a key and the blob to keep under it.
#[derive(Debug)]
pub struct MessageData {
    pub key: String,
    pub data: Vec<u8>,
}

pub ghost struct PayloadView {
    pub from: Seq<char>,
    pub msg_type: MessageType,
    pub msg: Seq<u8>,
}

pub ghost struct MessageDataView {
    pub key: Seq<char>,
    pub data: Seq<u8>,
}

impl View for Payload {
    type V = PayloadView;

    open spec fn view(&self) -> PayloadView {
        PayloadView { from: self.from@, msg_type: self.msg_type, msg: self.msg@ }
    }
}

impl View for MessageData {
    type V = MessageDataView;

    open spec fn view(&self) -> MessageDataView {
        MessageDataView { key: self.key@, data: self.data@ }
    }
}

/// The tag that stands for a message kind on the wire.
pub open spec fn kind_tag(kind: MessageType) -> u32 {
    match kind {
        MessageType::Store => 0,
    }
}

/// A byte field on the wire: its length as a little-endian `u64`, then the bytes.
pub open spec fn len_prefixed(bytes: Seq<u8>) -> Seq<u8> {
    spec_u64_to_le_bytes(bytes.len() as u64) + bytes
}

/// Reads one length-prefixed field from the head of `buf`: the field and the number of
/// bytes it occupies with its prefix, or `None` where `buf` ends too early.
pub open spec fn parse_len_prefixed(buf: Seq<u8>) -> Option<(Seq<u8>, int)> {
    if buf.len() < 8 {
        None
    } else {
        let n = spec_u64_from_le_bytes(buf.subrange(0, 8)) as int;
        if n > buf.len() - 8 {
            None
        } else {
            Some((buf.subrange(8, 8 + n), 8 + n))
        }
    }
}

/// The bytes of an envelope.
pub open spec fn encode_payload(p: PayloadView) -> Seq<u8> {
    len_prefixed(encode_utf8(p.from)) + spec_u32_to_le_bytes(kind_tag(p.msg_type)) + len_prefixed(
        p.msg,
    )
}

/// The envelope at the head of a buffer; bytes after it are ignored.
pub open spec fn decode_payload(buf: Seq<u8>) -> Result<PayloadView, DecodeError> {
    match parse_len_prefixed(buf) {
        None => Err(DecodeError::Truncated),
        Some((from_bytes, used)) => {
            let rest = buf.skip(used);
            if !valid_utf8(from_bytes) {
                Err(DecodeError::InvalidUtf8)
            } else if rest.len() < 4 {
                Err(DecodeError::Truncated)
            } else if spec_u32_from_le_bytes(rest.subrange(0, 4)) != 0 {
                Err(DecodeError::UnknownKind)
            } else {
                match parse_len_prefixed(rest.skip(4)) {
                    None => Err(DecodeError::Truncated),
                    Some((msg, _)) => Ok(
                        PayloadView {
                            from: decode_utf8(from_bytes),
                            msg_type: MessageType::Store,
                            msg,
                        },
                    ),
                }
            }
        },
    }
}

/// The bytes of a store request.
pub open spec fn encode_message_data(d: MessageDataView) -> Seq<u8> {
    len_prefixed(encode_utf8(d.key)) + len_prefixed(d.data)
}

/// The store request at the head of a buffer; bytes after it are ignored.
pub open spec fn decode_message_data(buf: Seq<u8>) -> Result<MessageDataView, DecodeError> {
    match parse_len_prefixed(buf) {
        None => Err(DecodeError::Truncated),
        Some((key_bytes, used)) => {
            if !valid_utf8(key_bytes) {
                Err(DecodeError::InvalidUtf8)
            } else {
                match parse_len_prefixed(buf.skip(used)) {
                    None => Err(DecodeError::Truncated),
                    Some((data, _)) => Ok(
                        MessageDataView { key: decode_utf8(key_bytes), data },
                    ),
                }
            }
        },
    }
}

/// Calls `String::from_utf8` of std. Believed, not proved: it accepts exactly the byte
/// sequences that are valid UTF-8, and the string it gives holds the characters they
/// encode.
#[verifier::external_body]
fn string_from_utf8(bytes: Vec<u8>) -> (text: Option<String>)
    ensures
        match text {
            Some(s) => valid_utf8(bytes@) && s@ == decode_utf8(bytes@),
            None => !valid_utf8(bytes@),
        },
{
    match String::from_utf8(bytes) {
        Ok(s) => Some(s),
        Err(_) => None,
    }
}

/// Appends `bytes` to `buf`.
fn put_bytes(buf: &mut Vec<u8>, bytes: &[u8])
    ensures
        final(buf)@ == old(buf)@ + bytes@,
{
    buf.extend_from_slice(bytes);
    assert(buf@ =~= old(buf)@ + bytes@);
}

/// Appends a length-prefixed field holding `bytes` to `buf`.
fn put_len_prefixed(buf: &mut Vec<u8>, bytes: &[u8])
    ensures
        final(buf)@ == old(buf)@ + len_prefixed(bytes@),
{
    let prefix = u64_to_le_bytes(bytes.len() as u64);
    put_bytes(buf, prefix.as_slice());
    put_bytes(buf, bytes);
    assert(buf@ =~= old(buf)@ + len_prefixed(bytes@));
}

/// Reads the length-prefixed field that starts at `at`.
fn take_len_prefixed(buf: &[u8], at: usize) -> (field: Option<(Vec<u8>, usize)>)
    requires
        at <= buf@.len(),
    ensures
        match field {
            Some((bytes, next)) => parse_len_prefixed(buf@.skip(at as int)) == Some(
                (bytes@, next - at),
            ) && at <= next <= buf@.len(),
            None => parse_len_prefixed(buf@.skip(at as int)) is None,
        },
{
    let remaining: usize = buf.len() - at;
    if remaining < 8 {
        return None;
    }
    let ghost tail = buf@.skip(at as int);
    let prefix = slice_subrange(buf, at, at + 8);
    assert(prefix@ =~= tail.subrange(0, 8));
    let n: u64 = u64_from_le_bytes(prefix);
    if n > (remaining - 8) as u64 {
        return None;
    }
    let start: usize = at + 8;
    let end: usize = start + n as usize;
    let bytes = slice_to_vec(slice_subrange(buf, start, end));
    assert(bytes@ =~= tail.subrange(8, 8 + n as int));
    Some((bytes, end))
}

impl Payload {
    /// Decodes an envelope; fails where the buffer is no envelope.
    pub fn from_buffer(buf: Vec<u8>) -> (r: Result<Payload, DecodeError>)
        ensures
            match r {
                Ok(p) => decode_payload(buf@) == Ok::<PayloadView, DecodeError>(p@),
                Err(e) => decode_payload(buf@) == Err::<PayloadView, DecodeError>(e),
            },
    {
        let bytes = buf.as_slice();
        let (from_bytes, at) = match take_len_prefixed(bytes, 0) {
            Some(field) => field,
            None => {
                assert(buf@.skip(0) =~= buf@);
                return Err(DecodeError::Truncated);
            },
        };
        assert(buf@.skip(0) =~= buf@);
        let from = match string_from_utf8(from_bytes) {
            Some(s) => s,
            None => {
                return Err(DecodeError::InvalidUtf8);
            },
        };
        if bytes.len() - at < 4 {
            return Err(DecodeError::Truncated);
        }
        let ghost rest = buf@.skip(at as int);
        let tag_bytes = slice_subrange(bytes, at, at + 4);
        assert(tag_bytes@ =~= rest.subrange(0, 4));
        let tag: u32 = u32_from_le_bytes(tag_bytes);
        if tag != 0 {
            return Err(DecodeError::UnknownKind);
        }
        assert(rest.skip(4) =~= buf@.skip(at + 4));
        match take_len_prefixed(bytes, at + 4) {
            Some((msg, _)) => Ok(Payload { from, msg_type: MessageType::Store, msg }),
            None => Err(DecodeError::Truncated),
        }
    }

    /// Encodes the envelope.
    pub fn to_buffer(&self) -> (buf: Vec<u8>)
        ensures
            buf@ == encode_payload(self@),
    {
        let mut buf: Vec<u8> = Vec::new();
        put_len_prefixed(&mut buf, self.from.as_str().as_bytes());
        let tag: u32 = match self.msg_type {
            MessageType::Store => 0,
        };
        let tag_bytes = u32_to_le_bytes(tag);
        put_bytes(&mut buf, tag_bytes.as_slice());
        put_len_prefixed(&mut buf, self.msg.as_slice());
        assert(buf@ =~= encode_payload(self@));
        buf
    }
}

impl MessageData {
    /// Decodes a store request; fails where the buffer is none.
    pub fn from_buffer(buf: Vec<u8>) -> (r: Result<MessageData, DecodeError>)
        ensures
            match r {
                Ok(d) => decode_message_data(buf@) == Ok::<MessageDataView, DecodeError>(d@),
                Err(e) => decode_message_data(buf@) == Err::<MessageDataView, DecodeError>(e),
            },
    {
        let bytes = buf.as_slice();
        assert(buf@.skip(0) =~= buf@);
        let (key_bytes, at) = match take_len_prefixed(bytes, 0) {
            Some(field) => field,
            None => {
                return Err(DecodeError::Truncated);
            },
        };
        let key = match string_from_utf8(key_bytes) {
            Some(s) => s,
            None => {
                return Err(DecodeError::InvalidUtf8);
            },
        };
        match take_len_prefixed(bytes, at) {
            Some((data, _)) => Ok(MessageData { key, data }),
            None => Err(DecodeError::Truncated),
        }
    }

    /// Encodes the store request.
    pub fn to_buffer(&self) -> (buf: Vec<u8>)
        ensures
            buf@ == encode_message_data(self@),
    {
        let mut buf: Vec<u8> = Vec::new();
        put_len_prefixed(&mut buf, self.key.as_str().as_bytes());
        put_len_prefixed(&mut buf, self.data.as_slice());
        assert(buf@ =~= encode_message_data(self@));
        buf
    }
}

/// A field that was written is the field that is read back, whatever follows it.
pub proof fn lemma_len_prefixed_parses(bytes: Seq<u8>, rest: Seq<u8>)
    requires
        bytes.len() <= u64::MAX,
    ensures
        parse_len_prefixed(len_prefixed(bytes) + rest) == Some((bytes, 8 + bytes.len() as int)),
        (len_prefixed(bytes) + rest).skip(8 + bytes.len() as int) == rest,
{
    lemma_auto_spec_u64_to_from_le_bytes();
    let n = bytes.len() as u64;
    let buf = len_prefixed(bytes) + rest;
    assert(spec_u64_to_le_bytes(n).len() == 8);
    assert(buf.subrange(0, 8) =~= spec_u64_to_le_bytes(n));
    assert(buf.subrange(8, 8 + bytes.len() as int) =~= bytes);
    assert(buf.skip(8 + bytes.len() as int) =~= rest);
}

/// Decoding inverts encoding: every envelope whose fields fit a `u64` length is read back
/// from its own bytes, whatever bytes follow them.
pub proof fn lemma_payload_round_trip(p: PayloadView, trailing: Seq<u8>)
    requires
        encode_utf8(p.from).len() <= u64::MAX,
        p.msg.len() <= u64::MAX,
    ensures
        decode_payload(encode_payload(p) + trailing) == Ok::<PayloadView, DecodeError>(p),
{
    let from_bytes = encode_utf8(p.from);
    let tag = spec_u32_to_le_bytes(kind_tag(p.msg_type));
    let tail = tag + len_prefixed(p.msg) + trailing;
    let after_tag = len_prefixed(p.msg) + trailing;
    let buf = encode_payload(p) + trailing;
    lemma_auto_spec_u32_to_from_le_bytes();
    encode_utf8_valid_utf8(p.from);
    encode_utf8_decode_utf8(p.from);
    assert(buf =~= len_prefixed(from_bytes) + tail);
    lemma_len_prefixed_parses(from_bytes, tail);
    assert(tail.subrange(0, 4) =~= tag);
    assert(tail.skip(4) =~= after_tag);
    lemma_len_prefixed_parses(p.msg, trailing);
}

/// Decoding inverts encoding for store requests too.
pub proof fn lemma_message_data_round_trip(d: MessageDataView, trailing: Seq<u8>)
    requires
        encode_utf8(d.key).len() <= u64::MAX,
        d.data.len() <= u64::MAX,
    ensures
        decode_message_data(encode_message_data(d) + trailing) == Ok::<
            MessageDataView,
            DecodeError,
        >(d),
{
    let key_bytes = encode_utf8(d.key);
    let tail = len_prefixed(d.data) + trailing;
    let buf = encode_message_data(d) + trailing;
    encode_utf8_valid_utf8(d.key);
    encode_utf8_decode_utf8(d.key);
    assert(buf =~= len_prefixed(key_bytes) + tail);
    lemma_len_prefixed_parses(key_bytes, tail);
    lemma_len_prefixed_parses(d.data, trailing);
}

} // verus!
