//! The wire envelope of an intent and the codec that reads and writes it.
//!
//! An envelope is laid out as
//!
//! ```text
//! [version: 1][tag length: 1][tag: UTF-8][payload length: 4, big-endian][payload]
//! ```
//!
//! Bytes that follow the payload belong to no field and are ignored. The
//! identifier of an intent is its envelope, so two messages carry the same
//! identifier exactly when they carry the same version, tag and payload.

use crate::bytes::{
    append_be32, append_bytes, be32, be32_value, copy_range, lemma_be32_of_be32_value,
    lemma_be32_value_of_be32, read_be32,
};
use crate::tag::{valid_tag, ActionTag, MAX_ACTION_TAG_LEN};
use vstd::prelude::*;
use vstd::slice::slice_subrange;

verus! {

/// The schema version this codec reads and writes.
pub const SCHEMA_VERSION: u8 = 1;

/// Bytes taken by the version and the tag length.
pub const HEADER_LEN: usize = 2;

/// Bytes taken by the payload length.
pub const LENGTH_FIELD_LEN: usize = 4;

/// Whether `version` names a schema this codec understands.
pub open spec fn supported_version(version: u8) -> bool {
    version == SCHEMA_VERSION
}

/// Why a byte string was not accepted as an envelope.
#[derive(Debug, Clone, Copy, PartialEq, Eq, Structural)]
pub enum CodecError {
    /// The version byte names no supported schema.
    UnknownVersion,
    /// A field runs past the end of the message, or the declared payload is
    /// longer than the codec allows.
    Truncated,
    /// The action tag is longer than allowed or is not UTF-8.
    InvalidAction,
}

/// What an intent holds, as mathematical values.
pub ghost struct IntentView {
    pub id: Seq<u8>,
    pub action: Seq<u8>,
    pub version: u8,
    pub payload: Seq<u8>,
}

/// The envelope that carries `action` and `payload` under `version`.
pub open spec fn envelope(version: u8, action: Seq<u8>, payload: Seq<u8>) -> Seq<u8> {
    seq![version, action.len() as u8] + action + be32(payload.len()) + payload
}

/// The intent that an envelope with these fields stands for.
pub open spec fn intent_of(version: u8, action: Seq<u8>, payload: Seq<u8>) -> IntentView {
    IntentView { id: envelope(version, action, payload), action, version, payload }
}

/// Whether the fields can be carried by an envelope: a supported version, a
/// valid tag, and a payload whose length fits the four-byte length field.
pub open spec fn encodable(version: u8, action: Seq<u8>, payload: Seq<u8>) -> bool {
    &&& supported_version(version)
    &&& valid_tag(action)
    &&& payload.len() <= u32::MAX
}

/// Index one past the action tag, going by the tag length in `raw[1]`.
pub open spec fn tag_end(raw: Seq<u8>) -> int {
    HEADER_LEN + raw[1]
}

/// Index of the first payload byte.
pub open spec fn payload_start(raw: Seq<u8>) -> int {
    tag_end(raw) + LENGTH_FIELD_LEN
}

/// The payload length that `raw` declares.
pub open spec fn declared_payload_len(raw: Seq<u8>) -> nat {
    be32_value(raw.subrange(tag_end(raw), payload_start(raw)))
}

/// What reading `raw` as an envelope gives, with payloads of up to
/// `max_payload_len` bytes allowed.
///
/// The fields are examined in wire order and the first defect decides the
/// error.
pub open spec fn parse(raw: Seq<u8>, max_payload_len: nat) -> Result<IntentView, CodecError> {
    if raw.len() < HEADER_LEN {
        Err(CodecError::Truncated)
    } else if !supported_version(raw[0]) {
        Err(CodecError::UnknownVersion)
    } else if raw[1] > MAX_ACTION_TAG_LEN {
        Err(CodecError::InvalidAction)
    } else if raw.len() < tag_end(raw) {
        Err(CodecError::Truncated)
    } else if !valid_tag(raw.subrange(HEADER_LEN as int, tag_end(raw))) {
        Err(CodecError::InvalidAction)
    } else if raw.len() < payload_start(raw) {
        Err(CodecError::Truncated)
    } else if declared_payload_len(raw) > max_payload_len {
        Err(CodecError::Truncated)
    } else if raw.len() < payload_start(raw) + declared_payload_len(raw) {
        Err(CodecError::Truncated)
    } else {
        let end = payload_start(raw) + declared_payload_len(raw);
        Ok(
            IntentView {
                id: raw.subrange(0, end),
                action: raw.subrange(HEADER_LEN as int, tag_end(raw)),
                version: raw[0],
                payload: raw.subrange(payload_start(raw), end),
            },
        )
    }
}

/// A decoded, validated instruction for a downstream action.
///
/// Every `Intent` has a supported version, a payload short enough for the
/// length field, and the envelope of its fields as its identifier.
#[derive(Debug)]
pub struct Intent {
    id: Vec<u8>,
    action: ActionTag,
    version: u8,
    payload: Vec<u8>,
}

impl View for Intent {
    type V = IntentView;

    closed spec fn view(&self) -> IntentView {
        IntentView {
            id: self.id@,
            action: self.action@,
            version: self.version,
            payload: self.payload@,
        }
    }
}

/// The mathematical content of a decoding result.
pub open spec fn result_view(res: Result<Intent, CodecError>) -> Result<IntentView, CodecError> {
    match res {
        Ok(intent) => Ok(intent@),
        Err(e) => Err(e),
    }
}

/// Appends the envelope of the given fields to `out`.
fn write_envelope(out: &mut Vec<u8>, version: u8, action: &ActionTag, payload: &[u8])
    requires
        payload@.len() <= u32::MAX,
    ensures
        final(out)@ == old(out)@ + envelope(version, action@, payload@),
        valid_tag(action@),
{
    let tag = action.as_bytes();
    out.push(version);
    out.push(tag.len() as u8);
    append_bytes(out, tag);
    append_be32(out, payload.len() as u32);
    append_bytes(out, payload);
    assert(out@ =~= old(out)@ + envelope(version, action@, payload@));
}

impl Intent {
    #[verifier::type_invariant]
    spec fn well_formed(self) -> bool {
        &&& encodable(self.version, self.action@, self.payload@)
        &&& self.id@ == envelope(self.version, self.action@, self.payload@)
    }

    /// Makes the intent that asks for `action` with `payload` under
    /// `version`.
    ///
    /// Fails with `UnknownVersion` where the version is not supported, and
    /// otherwise with `Truncated` where the payload is too long for the
    /// length field to hold its length.
    pub fn new(version: u8, action: ActionTag, payload: Vec<u8>) -> (res: Result<Intent, CodecError>)
        ensures
            result_view(res) == if !supported_version(version) {
                Err::<IntentView, CodecError>(CodecError::UnknownVersion)
            } else if payload@.len() > u32::MAX {
                Err(CodecError::Truncated)
            } else {
                Ok(intent_of(version, action@, payload@))
            },
    {
        if version != SCHEMA_VERSION {
            return Err(CodecError::UnknownVersion);
        }
        if payload.len() > u32::MAX as usize {
            return Err(CodecError::Truncated);
        }
        let mut id: Vec<u8> = Vec::new();
        write_envelope(&mut id, version, &action, payload.as_slice());
        assert(id@ =~= envelope(version, action@, payload@));
        Ok(Intent { id, action, version, payload })
    }

    /// The intent's identifier: its envelope.
    pub fn id(&self) -> (id: &[u8])
        ensures
            id@ == self@.id,
            self@.id == envelope(self@.version, self@.action, self@.payload),
    {
        proof {
            use_type_invariant(self);
        }
        self.id.as_slice()
    }

    /// The tag of the requested action.
    pub fn action(&self) -> (action: &ActionTag)
        ensures
            action@ == self@.action,
            valid_tag(self@.action),
    {
        proof {
            use_type_invariant(self);
        }
        &self.action
    }

    /// The schema version, which is always a supported one.
    pub fn version(&self) -> (version: u8)
        ensures
            version == self@.version,
            supported_version(version),
    {
        proof {
            use_type_invariant(self);
        }
        self.version
    }

    /// Takes the intent apart into its identifier and its payload.
    pub fn into_id_and_payload(self) -> (parts: (Vec<u8>, Vec<u8>))
        ensures
            parts.0@ == self@.id,
            parts.1@ == self@.payload,
    {
        (self.id, self.payload)
    }

    /// The opaque payload handed to the adapter.
    pub fn payload(&self) -> (payload: &[u8])
        ensures
            payload@ == self@.payload,
            payload@.len() <= u32::MAX,
    {
        proof {
            use_type_invariant(self);
        }
        self.payload.as_slice()
    }
}

/// Reads and writes envelopes.
#[derive(Debug, Clone, Copy)]
pub struct MessageCodec {
    /// Longest payload, in bytes, that `decode` accepts.
    pub max_payload_len: u32,
}

impl MessageCodec {
    /// A codec that accepts payloads of up to `max_payload_len` bytes.
    pub fn new(max_payload_len: u32) -> (codec: MessageCodec)
        ensures
            codec.max_payload_len == max_payload_len,
    {
        MessageCodec { max_payload_len }
    }

    /// Reads `raw` as an envelope.
    ///
    /// The result is exactly what [`parse`] says of the bytes: the intent
    /// they carry, or the error of the first field that is defective.
    pub fn decode(&self, raw: &[u8]) -> (res: Result<Intent, CodecError>)
        ensures
            result_view(res) == parse(raw@, self.max_payload_len as nat),
    {
        if raw.len() < HEADER_LEN {
            return Err(CodecError::Truncated);
        }
        let version: u8 = raw[0];
        if version != SCHEMA_VERSION {
            return Err(CodecError::UnknownVersion);
        }
        let tag_len: usize = raw[1] as usize;
        if tag_len > MAX_ACTION_TAG_LEN {
            return Err(CodecError::InvalidAction);
        }
        if raw.len() - HEADER_LEN < tag_len {
            return Err(CodecError::Truncated);
        }
        let tag_end: usize = HEADER_LEN + tag_len;
        let action = match ActionTag::from_bytes(slice_subrange(raw, HEADER_LEN, tag_end)) {
            Some(tag) => tag,
            None => {
                return Err(CodecError::InvalidAction);
            },
        };
        if raw.len() - tag_end < LENGTH_FIELD_LEN {
            return Err(CodecError::Truncated);
        }
        let payload_len: u32 = read_be32(raw, tag_end);
        if payload_len > self.max_payload_len {
            return Err(CodecError::Truncated);
        }
        let start: usize = tag_end + LENGTH_FIELD_LEN;
        if raw.len() - start < payload_len as usize {
            return Err(CodecError::Truncated);
        }
        let end: usize = start + payload_len as usize;
        let payload = copy_range(raw, start, end);
        let id = copy_range(raw, 0, end);
        proof {
            lemma_envelope_of_parse(raw@, self.max_payload_len as nat);
        }
        Ok(Intent { id, action, version, payload })
    }

    /// Writes the envelope of `intent`, which is also its identifier.
    pub fn encode(&self, intent: &Intent) -> (out: Vec<u8>)
        ensures
            out@ == envelope(intent@.version, intent@.action, intent@.payload),
            out@ == intent@.id,
    {
        proof {
            use_type_invariant(intent);
        }
        let mut out: Vec<u8> = Vec::new();
        write_envelope(&mut out, intent.version, &intent.action, intent.payload.as_slice());
        assert(out@ =~= envelope(intent@.version, intent@.action, intent@.payload));
        out
    }
}

/// What `parse` accepts is made of encodable fields, and the identifier it
/// gives is the envelope of those fields, found at the front of the bytes.
pub proof fn lemma_envelope_of_parse(raw: Seq<u8>, max_payload_len: nat)
    ensures
        parse(raw, max_payload_len) matches Ok(v) ==> {
            &&& encodable(v.version, v.action, v.payload)
            &&& v.payload.len() <= max_payload_len
            &&& v.id == envelope(v.version, v.action, v.payload)
            &&& v.id.len() <= raw.len()
            &&& v.id == raw.subrange(0, v.id.len() as int)
        },
{
    if let Ok(v) = parse(raw, max_payload_len) {
        let length_field = raw.subrange(tag_end(raw), payload_start(raw));
        lemma_be32_of_be32_value(length_field);
        assert(v.id =~= envelope(v.version, v.action, v.payload));
    }
}

/// Reading an envelope gives back the fields it was written from, whatever
/// bytes follow it.
pub proof fn lemma_parse_of_envelope(
    version: u8,
    action: Seq<u8>,
    payload: Seq<u8>,
    rest: Seq<u8>,
    max_payload_len: nat,
)
    requires
        encodable(version, action, payload),
        payload.len() <= max_payload_len,
    ensures
        parse(envelope(version, action, payload) + rest, max_payload_len) == Ok::<
            IntentView,
            CodecError,
        >(intent_of(version, action, payload)),
{
    let raw = envelope(version, action, payload) + rest;
    lemma_be32_value_of_be32(payload.len());
    assert(raw[0] == version);
    assert(raw[1] == action.len());
    assert(raw.subrange(HEADER_LEN as int, tag_end(raw)) =~= action);
    assert(raw.subrange(tag_end(raw), payload_start(raw)) =~= be32(payload.len()));
    assert(declared_payload_len(raw) == payload.len());
    let end = payload_start(raw) + declared_payload_len(raw);
    assert(raw.subrange(payload_start(raw), end) =~= payload);
    assert(raw.subrange(0, end) =~= envelope(version, action, payload));
}

/// `parse` accepts exactly the byte strings that begin with the envelope of
/// encodable fields whose payload is within the limit, and what it gives
/// is the intent of that envelope.
pub proof fn lemma_parse_accepts_envelopes_only(
    raw: Seq<u8>,
    max_payload_len: nat,
    intent: IntentView,
)
    ensures
        parse(raw, max_payload_len) == Ok::<IntentView, CodecError>(intent) <==> {
            &&& encodable(intent.version, intent.action, intent.payload)
            &&& intent.payload.len() <= max_payload_len
            &&& intent.id == envelope(intent.version, intent.action, intent.payload)
            &&& intent.id.len() <= raw.len()
            &&& raw.subrange(0, intent.id.len() as int) == intent.id
        },
{
    lemma_envelope_of_parse(raw, max_payload_len);
    if encodable(intent.version, intent.action, intent.payload) && intent.payload.len()
        <= max_payload_len && intent.id == envelope(intent.version, intent.action, intent.payload)
        && intent.id.len() <= raw.len() && raw.subrange(0, intent.id.len() as int) == intent.id {
        let rest = raw.subrange(intent.id.len() as int, raw.len() as int);
        assert(raw =~= intent.id + rest);
        lemma_parse_of_envelope(
            intent.version,
            intent.action,
            intent.payload,
            rest,
            max_payload_len,
        );
    }
}

/// Decoding, encoding and decoding again gives the intent of the first
/// decoding: nothing is lost on the way through the wire format.
pub proof fn lemma_decode_encode_round_trip(raw: Seq<u8>, max_payload_len: nat)
    ensures
        parse(raw, max_payload_len) matches Ok(v) ==> parse(
            envelope(v.version, v.action, v.payload),
            max_payload_len,
        ) == Ok::<IntentView, CodecError>(v),
{
    if let Ok(v) = parse(raw, max_payload_len) {
        lemma_envelope_of_parse(raw, max_payload_len);
        lemma_parse_of_envelope(v.version, v.action, v.payload, Seq::empty(), max_payload_len);
        assert(envelope(v.version, v.action, v.payload) + Seq::<u8>::empty() =~= envelope(
            v.version,
            v.action,
            v.payload,
        ));
    }
}

/// Two sets of encodable fields with the same envelope are the same fields:
/// an identifier names one intent only.
pub proof fn lemma_envelope_is_injective(
    version_a: u8,
    action_a: Seq<u8>,
    payload_a: Seq<u8>,
    version_b: u8,
    action_b: Seq<u8>,
    payload_b: Seq<u8>,
)
    requires
        encodable(version_a, action_a, payload_a),
        encodable(version_b, action_b, payload_b),
        envelope(version_a, action_a, payload_a) == envelope(version_b, action_b, payload_b),
    ensures
        version_a == version_b,
        action_a == action_b,
        payload_a == payload_b,
{
    let none = Seq::<u8>::empty();
    lemma_parse_of_envelope(version_a, action_a, payload_a, none, u32::MAX as nat);
    lemma_parse_of_envelope(version_b, action_b, payload_b, none, u32::MAX as nat);
}

/// A message with a supported version whose tag length byte is above
/// [`MAX_ACTION_TAG_LEN`] is rejected as `InvalidAction`.
pub proof fn lemma_oversize_tag_is_invalid(raw: Seq<u8>, max_payload_len: nat)
    requires
        raw.len() >= HEADER_LEN,
        supported_version(raw[0]),
        raw[1] > MAX_ACTION_TAG_LEN,
    ensures
        parse(raw, max_payload_len) == Err::<IntentView, CodecError>(CodecError::InvalidAction),
{
}

/// An envelope that was cut short anywhere is rejected as `Truncated`.
pub proof fn lemma_cut_envelope_is_truncated(
    version: u8,
    action: Seq<u8>,
    payload: Seq<u8>,
    kept: int,
    max_payload_len: nat,
)
    requires
        encodable(version, action, payload),
        payload.len() <= max_payload_len,
        0 <= kept < envelope(version, action, payload).len(),
    ensures
        parse(envelope(version, action, payload).subrange(0, kept), max_payload_len) == Err::<
            IntentView,
            CodecError,
        >(CodecError::Truncated),
{
    let whole = envelope(version, action, payload);
    let raw = whole.subrange(0, kept);
    lemma_be32_value_of_be32(payload.len());
    if kept >= HEADER_LEN {
        assert(raw[0] == version);
        assert(raw[1] == action.len());
        if kept >= tag_end(raw) {
            assert(raw.subrange(HEADER_LEN as int, tag_end(raw)) =~= action);
            if kept >= payload_start(raw) {
                assert(raw.subrange(tag_end(raw), payload_start(raw)) =~= be32(payload.len()));
            }
        }
    }
}

} // verus!
