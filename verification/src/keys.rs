//! The signing key behind a handle, and the Ed25519 operations on it.

use fastcrypto::ed25519::{Ed25519KeyPair, Ed25519PublicKey, Ed25519Signature};
use fastcrypto::traits::{KeyPair, Signer, ToFromBytes, VerifyingKey};
use vstd::prelude::*;

use crate::hex::{hex_encode, hex_string, is_lower_hex_digit};

verus! {

/// Bytes in a secret key.
pub const SECRET_KEY_LENGTH: usize = 32;

/// Bytes in a public key.
pub const PUBLIC_KEY_LENGTH: usize = 32;

/// Bytes in a signature.
pub const SIGNATURE_LENGTH: usize = 64;

/// The public key that Ed25519 derives from a secret key.
pub uninterp spec fn ed25519_public_key(secret: Seq<u8>) -> Seq<u8>;

/// The signature that Ed25519 gives for a message under a secret key.
pub uninterp spec fn ed25519_signature(secret: Seq<u8>, message: Seq<u8>) -> Seq<u8>;

/// Whether Ed25519 accepts a signature for a message under a public key.
pub uninterp spec fn ed25519_verifies(public_key: Seq<u8>, message: Seq<u8>, signature: Seq<u8>) -> bool;

/// `Ed25519KeyPair::generate` on `rand::thread_rng()`, read back through
/// `as_bytes`: the 32 random bytes from which the pair was made. Which bytes
/// is up to the generator, so only their number is stated.
#[verifier::external_body]
fn fresh_secret_key() -> (secret: Vec<u8>)
    ensures
        secret@.len() == SECRET_KEY_LENGTH,
{
    Ed25519KeyPair::generate(&mut rand::thread_rng()).as_bytes().to_vec()
}

/// `Ed25519KeyPair::from_bytes` and `public`: the 32-byte public key of the
/// pair that a 32-byte secret key expands to. `from_bytes` fails on any other
/// length only, which the precondition leaves out.
#[verifier::external_body]
fn derive_public_key(secret: &[u8]) -> (public_key: Vec<u8>)
    requires
        secret@.len() == SECRET_KEY_LENGTH,
    ensures
        public_key@ == ed25519_public_key(secret@),
        public_key@.len() == PUBLIC_KEY_LENGTH,
{
    Ed25519KeyPair::from_bytes(secret).unwrap().public().as_bytes().to_vec()
}

/// `Signer::sign` of the pair that `Ed25519KeyPair::from_bytes` makes of the
/// secret key: a 64-byte signature that depends on the key and the message
/// alone, and that `verify` accepts under the pair's public key.
#[verifier::external_body]
fn sign_with_secret(secret: &[u8], message: &[u8]) -> (signature: Vec<u8>)
    requires
        secret@.len() == SECRET_KEY_LENGTH,
    ensures
        signature@ == ed25519_signature(secret@, message@),
        signature@.len() == SIGNATURE_LENGTH,
        ed25519_verifies(ed25519_public_key(secret@), message@, signature@),
{
    Ed25519KeyPair::from_bytes(secret).unwrap().sign(message).as_bytes().to_vec()
}

/// `VerifyingKey::verify` of `Ed25519PublicKey`, on a key and a signature read
/// with `from_bytes`. Bytes that are no key or no signature are not accepted.
#[verifier::external_body]
fn verify_with_public(public_key: &[u8], message: &[u8], signature: &[u8]) -> (accepted: bool)
    ensures
        accepted == ed25519_verifies(public_key@, message@, signature@),
{
    match (Ed25519PublicKey::from_bytes(public_key), Ed25519Signature::from_bytes(signature)) {
        (Ok(key), Ok(sig)) => key.verify(message, &sig).is_ok(),
        _ => false,
    }
}

/// One ephemeral signing key pair. The value is the handle: whoever owns it
/// owns the key, and it is neither copied nor printed.
pub struct FfiKeyPair {
    secret: Vec<u8>,
    public: Vec<u8>,
}

impl FfiKeyPair {
    /// The secret key.
    pub closed spec fn secret_key(&self) -> Seq<u8> {
        self.secret@
    }

    /// The public key.
    pub closed spec fn public_key(&self) -> Seq<u8> {
        self.public@
    }

    /// A pair holds a secret key of the right length and the public key that
    /// belongs to it.
    #[verifier::type_invariant]
    pub open spec fn wf(&self) -> bool {
        &&& self.secret_key().len() == SECRET_KEY_LENGTH
        &&& self.public_key().len() == PUBLIC_KEY_LENGTH
        &&& self.public_key() == ed25519_public_key(self.secret_key())
    }

    /// The signature of this pair for `message`.
    pub open spec fn signature_for(&self, message: Seq<u8>) -> Seq<u8> {
        ed25519_signature(self.secret_key(), message)
    }

    /// The pair of a given secret key.
    fn of_secret(secret: Vec<u8>) -> (kp: FfiKeyPair)
        requires
            secret@.len() == SECRET_KEY_LENGTH,
        ensures
            kp.wf(),
            kp.secret_key() == secret@,
    {
        let public = derive_public_key(secret.as_slice());
        FfiKeyPair { secret, public }
    }

    /// The pair of a given secret key, or nothing if `secret` does not have
    /// the length of one.
    pub fn from_secret_bytes(secret: &[u8]) -> (pair: Option<FfiKeyPair>)
        ensures
            pair is Some <==> secret@.len() == SECRET_KEY_LENGTH,
            pair matches Some(kp) ==> kp.wf() && kp.secret_key() == secret@,
    {
        if secret.len() != SECRET_KEY_LENGTH {
            return None;
        }
        Some(FfiKeyPair::of_secret(vstd::slice::slice_to_vec(secret)))
    }

    /// A copy of the public key.
    pub fn public_key_bytes(&self) -> (bytes: Vec<u8>)
        ensures
            bytes@ == self.public_key(),
            bytes@.len() == PUBLIC_KEY_LENGTH,
    {
        proof {
            use_type_invariant(self);
        }
        self.public.clone()
    }

    /// Signs `message`. The signature is fixed by the key and the message, and
    /// it verifies under this pair's public key.
    pub fn sign(&self, message: &[u8]) -> (signature: Vec<u8>)
        ensures
            signature@ == self.signature_for(message@),
            signature@.len() == SIGNATURE_LENGTH,
            ed25519_verifies(self.public_key(), message@, signature@),
    {
        proof {
            use_type_invariant(self);
        }
        sign_with_secret(self.secret.as_slice(), message)
    }
}

/// Whether `signature` is a valid Ed25519 signature of `message` under
/// `public_key`. Malformed keys and signatures are not valid.
pub fn verify_signature(public_key: &[u8], message: &[u8], signature: &[u8]) -> (accepted: bool)
    ensures
        accepted == ed25519_verifies(public_key@, message@, signature@),
{
    verify_with_public(public_key, message, signature)
}

/// Creates a handle with a fresh key pair from the thread's secure random
/// generator.
pub fn nautilus_generate_ed25519_keypair() -> (kp: FfiKeyPair)
    ensures
        kp.wf(),
{
    FfiKeyPair::of_secret(fresh_secret_key())
}

/// Overwrites every byte of `buffer` with zero.
fn zero_fill(buffer: &mut Vec<u8>)
    ensures
        final(buffer)@ == Seq::new(old(buffer)@.len(), |i: int| 0u8),
{
    let n: usize = buffer.len();
    let mut i: usize = 0;
    while i < n
        invariant
            n == buffer@.len(),
            i <= n,
            forall|j: int| 0 <= j < i ==> buffer@[j] == 0u8,
        decreases n - i,
    {
        buffer.set(i, 0u8);
        i += 1;
    }
    assert(buffer@ =~= Seq::new(n as nat, |i: int| 0u8));
}

/// Releases a handle: the key is wiped and the slot is left empty. On an
/// empty slot nothing happens.
pub fn nautilus_free_keypair(handle: &mut Option<FfiKeyPair>)
    ensures
        *final(handle) is None,
        *old(handle) is None ==> *final(handle) == *old(handle),
{
    match handle.take() {
        Some(kp) => {
            let FfiKeyPair { secret, public: _ } = kp;
            let mut secret = secret;
            zero_fill(&mut secret);
        },
        None => {},
    }
}

/// The public key of a handle as 64 lowercase hexadecimal digits.
pub fn nautilus_get_public_key_hex(kp: &FfiKeyPair) -> (text: String)
    ensures
        text@ == hex_string(kp.public_key()),
        text@.len() == 2 * PUBLIC_KEY_LENGTH,
        forall|i: int| 0 <= i < text@.len() ==> is_lower_hex_digit(#[trigger] text@[i]),
{
    proof {
        use_type_invariant(kp);
    }
    hex_encode(kp.public.as_slice())
}

} // verus!
