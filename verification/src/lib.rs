//! Attested signing: an ephemeral Ed25519 key behind a handle, signed intent
//! messages over caller data, and the exchange that binds the key to an
//! attestation document.

pub mod attestation;
pub mod canonical;
pub mod codec;
pub mod hex;
pub mod intent;
pub mod keys;
pub mod signing;

pub use crate::attestation::nautilus_get_attestation;
pub use crate::intent::{IntentMessage, IntentMessageBytes, IntentScope};
pub use crate::keys::{
    nautilus_free_keypair, nautilus_generate_ed25519_keypair, nautilus_get_public_key_hex,
    FfiKeyPair,
};
pub use crate::signing::{
    nautilus_sign_intent_message_bcs, nautilus_sign_intent_message_json, to_signed_response,
    ProcessedDataResponse, SignedBcsResponse,
};
