use vstd::prelude::*;
use crate::bytesutil::{be32_of, u64_be_bytes, u64_to_be_bytes, u32_from_be};
use crate::hexfmt::{hex_decode, hex_decoded, hex_encode, hex_of, is_valid_hex};

verus! {

/// Errors of the cipher layer. An authentication failure is routine: every
/// packet not addressed to the local node fails this way.
#[derive(Clone, Copy, Debug, PartialEq, Eq)]
pub enum CryptoError {
    AuthenticationFailed,
}

/// The HMAC-SHA256 tag of a message under a key.
pub uninterp spec fn hmac_sha256_of(key: Seq<u8>, msg: Seq<u8>) -> Seq<u8>;

/// Relies on the hmac crate's `Hmac<Sha256>` (`new_from_slice`, `update`,
/// `finalize`): the tag is a function of key and message alone and is 32
/// bytes long. HMAC accepts keys of any length, so `new_from_slice` cannot
/// fail here.
#[verifier::external_body]
fn hmac_sha256(key: &[u8], msg: &[u8]) -> (r: Vec<u8>)
    ensures
        r@ == hmac_sha256_of(key@, msg@),
        r@.len() == 32,
{
    let mut mac = <hmac::Hmac<sha2::Sha256> as hmac::Mac>::new_from_slice(key)
        .expect("HMAC accepts any key length");
    hmac::Mac::update(&mut mac, msg);
    hmac::Mac::finalize(mac).into_bytes().to_vec()
}

/// The 32-byte AEAD key that the key-derivation function yields for a salt
/// (the nonce) and input key material (the root secret).
pub uninterp spec fn hkdf_key_of(salt: Seq<u8>, ikm: Seq<u8>) -> Seq<u8>;

/// Relies on the hkdf crate's `Hkdf<Sha256>` (`new`, `expand` with a fixed
/// info string): the output is a function of salt and key material alone and
/// is 32 bytes long; `expand` only fails for outputs longer than 255 hash
/// blocks, so not here.
#[verifier::external_body]
fn hkdf_derive_key(salt: &[u8], ikm: &[u8]) -> (r: Vec<u8>)
    ensures
        r@ == hkdf_key_of(salt@, ikm@),
        r@.len() == 32,
{
    let hk = hkdf::Hkdf::<sha2::Sha256>::new(Some(salt), ikm);
    let mut key = [0u8; 32];
    hk.expand(b"gossamer_enc", &mut key).expect("32 bytes is a valid HKDF-SHA256 output length");
    key.to_vec()
}

/// The XChaCha20-Poly1305 ciphertext (with appended tag) for a key, nonce and
/// plaintext.
pub uninterp spec fn aead_seal(key: Seq<u8>, nonce: Seq<u8>, plaintext: Seq<u8>) -> Seq<u8>;

/// What XChaCha20-Poly1305 decryption yields for a key, nonce and ciphertext:
/// the plaintext where the tag verifies, nothing otherwise.
pub uninterp spec fn aead_open(key: Seq<u8>, nonce: Seq<u8>, ct: Seq<u8>) -> Option<Seq<u8>>;

/// Relies on chacha20poly1305's `XChaCha20Poly1305::encrypt`: deterministic in
/// key, nonce and plaintext; appends the 16-byte tag; what it produces, the
/// same cipher decrypts back to the plaintext. With an in-memory buffer the
/// call cannot fail.
#[verifier::external_body]
fn aead_encrypt(key: &[u8], nonce: &[u8], data: &[u8]) -> (r: Vec<u8>)
    requires
        key@.len() == 32,
        nonce@.len() == 24,
    ensures
        r@ == aead_seal(key@, nonce@, data@),
        r@.len() == data@.len() + 16,
        aead_open(key@, nonce@, r@) == Some(data@),
{
    let cipher = <chacha20poly1305::XChaCha20Poly1305 as chacha20poly1305::KeyInit>::new_from_slice(
        key,
    ).expect("key is 32 bytes");
    chacha20poly1305::aead::Aead::encrypt(
        &cipher,
        chacha20poly1305::XNonce::from_slice(nonce),
        data,
    ).expect("encryption into a fresh buffer cannot fail")
}

/// Relies on chacha20poly1305's `XChaCha20Poly1305::decrypt`: deterministic in
/// key, nonce and ciphertext; succeeds exactly when the authentication tag
/// verifies, and inverts `encrypt` under the same key and nonce.
#[verifier::external_body]
fn aead_decrypt(key: &[u8], nonce: &[u8], ct: &[u8]) -> (r: Option<Vec<u8>>)
    requires
        key@.len() == 32,
        nonce@.len() == 24,
    ensures
        r is Some <==> aead_open(key@, nonce@, ct@) is Some,
        r is Some ==> r->Some_0@ == aead_open(key@, nonce@, ct@)->Some_0,
        forall|pt: Seq<u8>|
            ct@ == aead_seal(key@, nonce@, pt) ==> r is Some && r->Some_0@ == pt,
{
    let cipher = <chacha20poly1305::XChaCha20Poly1305 as chacha20poly1305::KeyInit>::new_from_slice(
        key,
    ).expect("key is 32 bytes");
    chacha20poly1305::aead::Aead::decrypt(
        &cipher,
        chacha20poly1305::XNonce::from_slice(nonce),
        ct,
    ).ok()
}

/// Relies on rand's `thread_rng().fill_bytes`: fills the buffer from a secure
/// source; nothing is promised of the values beyond the length.
#[verifier::external_body]
fn random_bytes(n: usize) -> (r: Vec<u8>)
    ensures
        r@.len() == n,
{
    let mut buf = vec![0u8; n];
    rand::RngCore::fill_bytes(&mut rand::thread_rng(), &mut buf);
    buf
}

#[verifier::external_type_specification]
#[verifier::external_body]
pub struct ExKeyPair(secp256k1::KeyPair);

#[verifier::external_type_specification]
#[verifier::external_body]
pub struct ExXOnlyPublicKey(secp256k1::XOnlyPublicKey);

/// Relies on secp256k1's `KeyPair::new` with a fresh random secret key: an
/// ephemeral signer, one per relay send, so successive sends cannot be
/// linked. The pair is random, so nothing is promised of it.
#[verifier::external_body]
pub fn get_ephemeral_signer() -> (secp256k1::KeyPair, secp256k1::XOnlyPublicKey) {
    let secp = secp256k1::Secp256k1::new();
    let kp = secp256k1::KeyPair::new(&secp, &mut rand::thread_rng());
    let (xonly, _parity) = kp.x_only_public_key();
    (kp, xonly)
}

/// Relies on secp256k1's `XOnlyPublicKey::serialize`: the 32-byte x-only
/// public key encoding.
#[verifier::external_body]
pub(crate) fn serialize_xonly(pk: &secp256k1::XOnlyPublicKey) -> (r: Vec<u8>)
    ensures
        r@.len() == 32,
{
    pk.serialize().to_vec()
}

/// Relies on secp256k1's `sign_schnorr_with_rng` over a 32-byte digest
/// (`Message::from_slice` rejects any other length): a 64-byte signature.
/// The signature is randomized, so nothing more is promised.
#[verifier::external_body]
pub(crate) fn schnorr_sign(kp: &secp256k1::KeyPair, digest: &[u8]) -> (r: Vec<u8>)
    requires
        digest@.len() == 32,
    ensures
        r@.len() == 64,
{
    let secp = secp256k1::Secp256k1::new();
    let msg = secp256k1::Message::from_slice(digest).expect("digest is 32 bytes");
    let sig = secp.sign_schnorr_with_rng(&msg, kp, &mut rand::thread_rng());
    sig.as_ref().to_vec()
}

/// The SHA-256 digest of a text's UTF-8 bytes.
pub uninterp spec fn sha256_of(msg: Seq<char>) -> Seq<u8>;

/// Relies on sha2's `Sha256` digesting the UTF-8 bytes of the text: 32
/// bytes, a function of the text alone.
#[verifier::external_body]
pub(crate) fn sha256_str(msg: &str) -> (r: Vec<u8>)
    ensures
        r@ == sha256_of(msg@),
        r@.len() == 32,
{
    let mut h = <sha2::Sha256 as sha2::Digest>::new();
    sha2::Digest::update(&mut h, msg.as_bytes());
    <sha2::Sha256 as sha2::Digest>::finalize(h).to_vec()
}

/// A fresh 32-byte root secret for a new local identity.
pub fn generate_identity() -> (r: Vec<u8>)
    ensures
        r@.len() == 32,
{
    random_bytes(32)
}

/// The raw 32-byte mailbox digest for a secret at a timestamp:
/// HMAC-SHA256 over the big-endian hour slot.
pub open spec fn mailbox_digest_of(root: Seq<u8>, timestamp: u64) -> Seq<u8> {
    hmac_sha256_of(root, u64_be_bytes((timestamp / 3600) as u64))
}

/// The mailbox tag: the digest, hex-encoded.
pub open spec fn mailbox_of(root: Seq<u8>, timestamp: u64) -> Seq<char> {
    hex_of(mailbox_digest_of(root, timestamp))
}

/// The 4-byte truncated mailbox: the big-endian prefix of the digest.
pub open spec fn mailbox_short_of(root: Seq<u8>, timestamp: u64) -> u32 {
    be32_of(mailbox_digest_of(root, timestamp))
}

/// The raw mailbox digest for a secret at a timestamp.
pub fn mailbox_digest(root: &[u8], timestamp: u64) -> (r: Vec<u8>)
    ensures
        r@ == mailbox_digest_of(root@, timestamp),
        r@.len() == 32,
{
    let slot_bytes = u64_to_be_bytes(timestamp / 3600);
    hmac_sha256(root, slot_bytes.as_slice())
}

/// The hex mailbox tag for a secret at a timestamp. Deterministic in the
/// secret and the hour slot; rotates exactly on hour boundaries.
pub fn generate_mailbox(root: &[u8], timestamp: u64) -> (r: String)
    ensures
        r@ == mailbox_of(root@, timestamp),
{
    let digest = mailbox_digest(root, timestamp);
    hex_encode(digest.as_slice())
}

/// The truncated 4-byte mailbox for a secret at a timestamp.
pub fn mailbox_short(root: &[u8], timestamp: u64) -> (r: u32)
    ensures
        r == mailbox_short_of(root@, timestamp),
{
    let digest = mailbox_digest(root, timestamp);
    let r = u32_from_be(digest[0], digest[1], digest[2], digest[3]);
    proof {
        assert(seq![digest@[0], digest@[1], digest@[2], digest@[3]] =~= digest@.subrange(0, 4));
        assert(be32_of(seq![digest@[0], digest@[1], digest@[2], digest@[3]])
            == be32_of(digest@));
    }
    r
}

/// The 4-byte truncated mailbox read back from a hex mailbox tag; nothing
/// where the tag is not hex or shorter than four bytes.
pub fn mailbox_short_from_tag(mailbox: &str) -> (r: Option<u32>)
    ensures
        r is Some <==> (is_valid_hex(mailbox@) && hex_decoded(mailbox@).len() >= 4),
        r is Some ==> r->Some_0 == be32_of(hex_decoded(mailbox@)),
{
    let bytes = match hex_decode(mailbox) {
        Some(b) => b,
        None => {
            return None;
        },
    };
    if bytes.len() < 4 {
        return None;
    }
    Some(u32_from_be(bytes[0], bytes[1], bytes[2], bytes[3]))
}

/// Reading the truncated mailbox back from the hex tag gives the truncated
/// mailbox computed from the secret: the tag decodes to the digest.
pub proof fn lemma_short_from_tag_matches(root: Seq<u8>, timestamp: u64)
    ensures
        is_valid_hex(mailbox_of(root, timestamp)),
        hex_decoded(mailbox_of(root, timestamp)) == mailbox_digest_of(root, timestamp),
        be32_of(hex_decoded(mailbox_of(root, timestamp))) == mailbox_short_of(root, timestamp),
{
    crate::hexfmt::lemma_hex_round_trip(mailbox_digest_of(root, timestamp));
}

/// Mailbox determinism: timestamps in the same hour slot give the same
/// mailbox, digest and truncated form.
pub proof fn lemma_mailbox_deterministic(root: Seq<u8>, t1: u64, t2: u64)
    requires
        t1 / 3600 == t2 / 3600,
    ensures
        mailbox_of(root, t1) == mailbox_of(root, t2),
        mailbox_digest_of(root, t1) == mailbox_digest_of(root, t2),
        mailbox_short_of(root, t1) == mailbox_short_of(root, t2),
{
}

/// The ciphertext of the envelope encryption: AEAD under the key that the
/// key-derivation function yields for this nonce and secret.
pub open spec fn envelope_ct_of(root: Seq<u8>, nonce: Seq<u8>, data: Seq<u8>) -> Seq<u8> {
    aead_seal(hkdf_key_of(nonce, root), nonce, data)
}

/// What envelope decryption yields for a secret, nonce and ciphertext.
pub open spec fn envelope_open_of(root: Seq<u8>, nonce: Seq<u8>, ct: Seq<u8>) -> Option<Seq<u8>> {
    aead_open(hkdf_key_of(nonce, root), nonce, ct)
}

/// Encrypts under a caller-supplied 24-byte nonce given as a slice.
pub(crate) fn envelope_encrypt(root: &[u8], data: &[u8], nonce: &[u8]) -> (r: Vec<u8>)
    requires
        nonce@.len() == 24,
    ensures
        r@ == envelope_ct_of(root@, nonce@, data@),
        r@.len() == data@.len() + 16,
        envelope_open_of(root@, nonce@, r@) == Some(data@),
{
    let key = hkdf_derive_key(nonce, root);
    aead_encrypt(key.as_slice(), nonce, data)
}

/// Encrypts under a caller-supplied 24-byte nonce (the mesh path, where the
/// nonce must be reconstructible). The caller owns the nonce-uniqueness
/// policy. Returns `(ciphertext, nonce)`.
pub fn encrypt_with_fixed_nonce(root: &[u8], data: &[u8], nonce_bytes: &[u8; 24]) -> (r: (
    Vec<u8>,
    Vec<u8>,
))
    ensures
        r.0@ == envelope_ct_of(root@, nonce_bytes@, data@),
        r.0@.len() == data@.len() + 16,
        r.1@ == nonce_bytes@,
        envelope_open_of(root@, nonce_bytes@, r.0@) == Some(data@),
{
    let ct = envelope_encrypt(root, data, nonce_bytes.as_slice());
    let nonce_vec = vstd::slice::slice_to_vec(nonce_bytes.as_slice());
    (ct, nonce_vec)
}

/// Encrypts under a fresh random 24-byte nonce. Returns `(ciphertext, nonce)`.
pub fn encrypt(root: &[u8], data: &[u8]) -> (r: (Vec<u8>, Vec<u8>))
    ensures
        r.1@.len() == 24,
        r.0@ == envelope_ct_of(root@, r.1@, data@),
        r.0@.len() == data@.len() + 16,
        envelope_open_of(root@, r.1@, r.0@) == Some(data@),
{
    let nonce = random_bytes(24);
    let key = hkdf_derive_key(nonce.as_slice(), root);
    let ct = aead_encrypt(key.as_slice(), nonce.as_slice(), data);
    (ct, nonce)
}

/// Decrypts an envelope. Fails with `AuthenticationFailed` exactly when the
/// tag does not verify — the routine outcome for traffic addressed elsewhere.
/// Whatever `encrypt` or `encrypt_with_fixed_nonce` produced under the same
/// secret and nonce decrypts back to its plaintext.
pub fn decrypt(root: &[u8], nonce: &[u8], data: &[u8]) -> (r: Result<Vec<u8>, CryptoError>)
    requires
        nonce@.len() == 24,
    ensures
        r is Ok <==> envelope_open_of(root@, nonce@, data@) is Some,
        r is Ok ==> r->Ok_0@ == envelope_open_of(root@, nonce@, data@)->Some_0,
        r is Err ==> r->Err_0 == CryptoError::AuthenticationFailed,
        forall|pt: Seq<u8>|
            data@ == envelope_ct_of(root@, nonce@, pt) ==> r is Ok && r->Ok_0@ == pt,
{
    let key = hkdf_derive_key(nonce, root);
    match aead_decrypt(key.as_slice(), nonce, data) {
        Some(plain) => Ok(plain),
        None => Err(CryptoError::AuthenticationFailed),
    }
}

/// Round-trip law: decrypting what `encrypt` produced, under the same secret
/// and the nonce it returned, yields the original plaintext.
pub fn encrypt_decrypt_round_trip(root: &[u8], data: &[u8]) -> (r: Vec<u8>)
    ensures
        r@ == data@,
{
    let (ct, nonce) = encrypt(root, data);
    match decrypt(root, nonce.as_slice(), ct.as_slice()) {
        Ok(plain) => plain,
        Err(_) => {
            proof {
                assert(false);
            }
            Vec::new()
        },
    }
}

} // verus!
