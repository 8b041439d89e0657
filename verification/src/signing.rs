//! Signing intent messages.
//!
//! Both entry points build the same envelope from the caller's payload,
//! timestamp and intent code, and sign its canonical bytes. They differ in what
//! they hand back beside the signature: the envelope itself, or its canonical
//! bytes in hex.

use vstd::prelude::*;

use crate::canonical::{
    envelope_bytes, lemma_parse_inverts_canonical_bytes, parse_envelope, MAX_SEQUENCE_LENGTH,
};
use crate::codec::encode_envelope;
use crate::hex::{hex_encode, hex_string, lemma_hex_string_injective};
use crate::intent::{IntentMessage, IntentMessageBytes, IntentMessageView, IntentScope};
use crate::keys::{ed25519_verifies, FfiKeyPair};

verus! {

/// A response together with the signature over what it stands for, in hex.
#[derive(Clone, Debug, PartialEq, Eq)]
pub struct ProcessedDataResponse<T> {
    pub response: T,
    pub signature: String,
}

/// What a signed response says.
pub struct ProcessedDataResponseView<V> {
    pub response: V,
    pub signature: Seq<char>,
}

impl<T> ProcessedDataResponse<T> {
    /// Pairs a response with the signature over what it stands for, written
    /// in hex.
    pub fn with_signature(response: T, signature: &[u8]) -> (signed: ProcessedDataResponse<T>)
        ensures
            signed.response == response,
            signed.signature@ == hex_string(signature@),
    {
        ProcessedDataResponse { response, signature: hex_encode(signature) }
    }
}

impl<T: View> View for ProcessedDataResponse<T> {
    type V = ProcessedDataResponseView<T::V>;

    open spec fn view(&self) -> ProcessedDataResponseView<T::V> {
        ProcessedDataResponseView { response: self.response@, signature: self.signature@ }
    }
}

/// The canonical bytes of an envelope in hex, and the signature over them in
/// hex.
#[derive(Clone, Debug, PartialEq, Eq)]
pub struct SignedBcsResponse {
    pub intent_message_bcs: String,
    pub signature: String,
}

impl SignedBcsResponse {
    /// Pairs signed bytes with the signature over them, both written in hex.
    pub fn with_signature(message: &[u8], signature: &[u8]) -> (signed: SignedBcsResponse)
        ensures
            signed@ == (SignedBcsResponseView {
                intent_message_bcs: hex_string(message@),
                signature: hex_string(signature@),
            }),
    {
        SignedBcsResponse { intent_message_bcs: hex_encode(message), signature: hex_encode(signature) }
    }
}

/// What a flat signed response says.
pub struct SignedBcsResponseView {
    pub intent_message_bcs: Seq<char>,
    pub signature: Seq<char>,
}

impl View for SignedBcsResponse {
    type V = SignedBcsResponseView;

    open spec fn view(&self) -> SignedBcsResponseView {
        SignedBcsResponseView { intent_message_bcs: self.intent_message_bcs@, signature: self.signature@ }
    }
}

/// The envelope that is signed for a payload, a timestamp and an intent code.
/// A code that names no scope is signed as `ProcessData`.
pub open spec fn intent_envelope(payload: Seq<u8>, timestamp_ms: u64, intent: u8) -> IntentMessageView {
    IntentMessageView { intent: IntentScope::spec_resolve(intent).scope, timestamp_ms, data: payload }
}

/// The structured response for a payload: the envelope, and the signature of
/// `kp` over its canonical bytes in hex.
pub open spec fn signed_structured(kp: &FfiKeyPair, payload: Seq<u8>, timestamp_ms: u64, intent: u8)
    -> ProcessedDataResponseView<IntentMessageView> {
    let envelope = intent_envelope(payload, timestamp_ms, intent);
    ProcessedDataResponseView {
        response: envelope,
        signature: hex_string(kp.signature_for(envelope.canonical_bytes())),
    }
}

/// The flat response for a payload: the canonical bytes of the envelope in
/// hex, and the signature of `kp` over them in hex.
pub open spec fn signed_flat(kp: &FfiKeyPair, payload: Seq<u8>, timestamp_ms: u64, intent: u8)
    -> SignedBcsResponseView {
    let envelope = intent_envelope(payload, timestamp_ms, intent);
    SignedBcsResponseView {
        intent_message_bcs: hex_string(envelope.canonical_bytes()),
        signature: hex_string(kp.signature_for(envelope.canonical_bytes())),
    }
}

/// Signs the envelope over a payload of any shape. The caller hands in the
/// payload together with its canonical bytes; the envelope's canonical bytes
/// are framed around them and signed. The signature verifies under the public
/// key of `kp`.
pub fn to_signed_response<T>(
    kp: &FfiKeyPair,
    payload: T,
    payload_bytes: &[u8],
    timestamp_ms: u64,
    intent: IntentScope,
) -> (signed: ProcessedDataResponse<IntentMessage<T>>)
    ensures
        signed.response.intent == intent,
        signed.response.timestamp_ms == timestamp_ms,
        signed.response.data == payload,
        signed.signature@ == hex_string(
            kp.signature_for(envelope_bytes(intent, timestamp_ms, payload_bytes@)),
        ),
        ed25519_verifies(
            kp.public_key(),
            envelope_bytes(intent, timestamp_ms, payload_bytes@),
            kp.signature_for(envelope_bytes(intent, timestamp_ms, payload_bytes@)),
        ),
{
    let intent_msg = IntentMessage { intent, timestamp_ms, data: payload };
    let signing_payload = encode_envelope(intent, timestamp_ms, payload_bytes);
    let sig = kp.sign(signing_payload.as_slice());
    ProcessedDataResponse::with_signature(intent_msg, sig.as_slice())
}

/// Signs an intent message over raw bytes and hands back the envelope with
/// the signature in hex. The signature is over the canonical bytes of the
/// envelope and verifies under the public key of `kp`. The payload is at most
/// `MAX_SEQUENCE_LENGTH` bytes long: a longer one has no canonical bytes.
pub fn nautilus_sign_intent_message_json(kp: &FfiKeyPair, payload: &[u8], timestamp_ms: u64, intent: u8)
    -> (signed: ProcessedDataResponse<IntentMessageBytes>)
    requires
        payload@.len() <= MAX_SEQUENCE_LENGTH,
    ensures
        signed@ == signed_structured(kp, payload@, timestamp_ms, intent),
        ed25519_verifies(
            kp.public_key(),
            signed@.response.canonical_bytes(),
            kp.signature_for(signed@.response.canonical_bytes()),
        ),
{
    let intent_scope = IntentScope::resolve(intent).scope;
    let intent_msg = IntentMessageBytes {
        intent: intent_scope,
        timestamp_ms,
        data: vstd::slice::slice_to_vec(payload),
    };
    let signing_payload = intent_msg.canonical_bytes();
    let sig = kp.sign(signing_payload.as_slice());
    ProcessedDataResponse::with_signature(intent_msg, sig.as_slice())
}

/// Signs an intent message over raw bytes and hands back its canonical bytes
/// and the signature, both in hex. The signature is over those bytes and
/// verifies under the public key of `kp`. The payload is at most
/// `MAX_SEQUENCE_LENGTH` bytes long: a longer one has no canonical bytes.
pub fn nautilus_sign_intent_message_bcs(kp: &FfiKeyPair, payload: &[u8], timestamp_ms: u64, intent: u8)
    -> (signed: SignedBcsResponse)
    requires
        payload@.len() <= MAX_SEQUENCE_LENGTH,
    ensures
        signed@ == signed_flat(kp, payload@, timestamp_ms, intent),
        ed25519_verifies(
            kp.public_key(),
            intent_envelope(payload@, timestamp_ms, intent).canonical_bytes(),
            kp.signature_for(intent_envelope(payload@, timestamp_ms, intent).canonical_bytes()),
        ),
{
    let intent_scope = IntentScope::resolve(intent).scope;
    let intent_msg = IntentMessageBytes {
        intent: intent_scope,
        timestamp_ms,
        data: vstd::slice::slice_to_vec(payload),
    };
    let signing_payload = intent_msg.canonical_bytes();
    let sig = kp.sign(signing_payload.as_slice());
    SignedBcsResponse::with_signature(signing_payload.as_slice(), sig.as_slice())
}

/// A code that names no scope is signed exactly as the code of `ProcessData`
/// is, and resolving it says that the default was taken.
pub proof fn lemma_unknown_code_is_signed_as_default(payload: Seq<u8>, timestamp_ms: u64, intent: u8)
    requires
        IntentScope::spec_from_code(intent) is None,
    ensures
        IntentScope::spec_resolve(intent).defaulted,
        intent_envelope(payload, timestamp_ms, intent) == intent_envelope(
            payload,
            timestamp_ms,
            IntentScope::ProcessData.spec_code(),
        ),
{
}

/// On the same key, payload, timestamp and intent code the two entry points
/// sign the same bytes and give the same signature; the flat response holds
/// the canonical bytes of the structured response's envelope; and whatever
/// bytes have the flat response's hex text parse back to that envelope.
pub proof fn lemma_entry_points_agree(kp: &FfiKeyPair, payload: Seq<u8>, timestamp_ms: u64, intent: u8)
    requires
        payload.len() <= MAX_SEQUENCE_LENGTH,
    ensures
        ({
            let structured = signed_structured(kp, payload, timestamp_ms, intent);
            let flat = signed_flat(kp, payload, timestamp_ms, intent);
            &&& structured.signature == flat.signature
            &&& flat.intent_message_bcs == hex_string(structured.response.canonical_bytes())
            &&& forall|bytes: Seq<u8>| #[trigger]
                hex_string(bytes) == flat.intent_message_bcs ==> parse_envelope(bytes) == Some(
                    structured.response,
                )
        }),
{
    let structured = signed_structured(kp, payload, timestamp_ms, intent);
    let flat = signed_flat(kp, payload, timestamp_ms, intent);
    lemma_parse_inverts_canonical_bytes(structured.response);
    assert forall|bytes: Seq<u8>| #[trigger]
        hex_string(bytes) == flat.intent_message_bcs implies parse_envelope(bytes) == Some(
        structured.response,
    ) by {
        lemma_hex_string_injective(bytes, structured.response.canonical_bytes());
    }
}

} // verus!
