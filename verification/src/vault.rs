//! The credential vault: a 256-bit master key and authenticated encryption of
//! opaque byte payloads (OAuth tokens).  Every blob is `nonce ‖ ciphertext`,
//! with a fresh random 12-byte nonce per call.

use vstd::prelude::*;

use aes_gcm::aead::{Aead, AeadCore, KeyInit, OsRng};
use aes_gcm::{Aes256Gcm, Key, Nonce};

use crate::errors::GitSockError;

verus! {

/// Number of bytes in the symmetric master key.
pub const KEY_LEN: usize = 32;

/// Number of bytes in the nonce that is prepended to every ciphertext blob.
pub const NONCE_LEN: usize = 12;

/// Number of bytes the authentication tag adds to a ciphertext.
pub const TAG_LEN: usize = 16;

/// Largest plaintext the vault accepts.  The cipher itself only refuses
/// payloads above 2^36 bytes; staying below that bound means encryption can
/// never fail.
pub const MAX_PLAINTEXT_LEN: usize = 0xFFFF_FFFF;

/// What AES-256-GCM produces for a given key, nonce and plaintext.  The
/// cipher is deterministic once those three are fixed, so the ciphertext can
/// be given a name even though spelling out the algorithm is out of reach.
pub uninterp spec fn seal_of(key: Seq<u8>, nonce: Seq<u8>, plaintext: Seq<u8>) -> Seq<u8>;

/// Relies on aes_gcm's `Aead::encrypt` for `Aes256Gcm`: the ciphertext is a
/// function of key, nonce and plaintext alone, and is the plaintext plus a
/// 16-byte authentication tag.  Counter mode is a bijection for a fixed key
/// and nonce, so no other plaintext of accepted length seals to the same
/// ciphertext.  Inputs within `MAX_PLAINTEXT_LEN` are far below the cipher's
/// own limit, so encryption cannot fail.
#[verifier::external_body]
fn aead_seal(key: &Vec<u8>, nonce: &Vec<u8>, plaintext: &Vec<u8>) -> (r: Vec<u8>)
    requires
        key@.len() == KEY_LEN,
        nonce@.len() == NONCE_LEN,
        plaintext@.len() <= MAX_PLAINTEXT_LEN,
    ensures
        r@ == seal_of(key@, nonce@, plaintext@),
        r@.len() == plaintext@.len() + TAG_LEN,
        r@ == seal_of(key@, nonce@, plaintext@) && (forall|p: Seq<u8>|
            p.len() <= MAX_PLAINTEXT_LEN && r@ == seal_of(key@, nonce@, p) ==> p == plaintext@),
{
    let cipher = Aes256Gcm::new(Key::<Aes256Gcm>::from_slice(key));
    cipher
        .encrypt(Nonce::from_slice(nonce), plaintext.as_slice())
        .expect("payload below the cipher's size limit")
}

/// Relies on aes_gcm's `Aead::decrypt` for `Aes256Gcm`: decryption checks the
/// authentication tag against the ciphertext and succeeds exactly on
/// ciphertexts that the same key and nonce seal to, returning the sealed
/// plaintext.
#[verifier::external_body]
fn aead_open(key: &Vec<u8>, nonce: &Vec<u8>, ciphertext: &Vec<u8>) -> (r: Option<Vec<u8>>)
    requires
        key@.len() == KEY_LEN,
        nonce@.len() == NONCE_LEN,
    ensures
        r is None ==> forall|p: Seq<u8>|
            p.len() <= MAX_PLAINTEXT_LEN ==> ciphertext@ != seal_of(key@, nonce@, p),
        r matches Some(v) ==> ciphertext@ == seal_of(key@, nonce@, v@)
            && v@.len() + TAG_LEN == ciphertext@.len()
            && (forall|p: Seq<u8>|
                p.len() <= MAX_PLAINTEXT_LEN && ciphertext@ == seal_of(key@, nonce@, p)
                    ==> p == v@),
{
    let cipher = Aes256Gcm::new(Key::<Aes256Gcm>::from_slice(key));
    match cipher.decrypt(Nonce::from_slice(nonce), ciphertext.as_slice()) {
        Ok(p) => Some(p),
        Err(_) => None,
    }
}

/// Relies on `Aes256Gcm::generate_nonce` with the OS RNG: 12 random bytes.
/// Nothing is promised of their values.
#[verifier::external_body]
fn generate_nonce_bytes() -> (r: Vec<u8>)
    ensures
        r@.len() == NONCE_LEN,
{
    Aes256Gcm::generate_nonce(&mut OsRng).to_vec()
}

/// Relies on `Aes256Gcm::generate_key` with the OS RNG: 32 random bytes.
/// Nothing is promised of their values.
#[verifier::external_body]
fn generate_key_bytes() -> (r: Vec<u8>)
    ensures
        r@.len() == KEY_LEN,
{
    Aes256Gcm::generate_key(&mut OsRng).to_vec()
}

/// The process master key.  Generated once, persisted by the caller, loaded
/// unchanged thereafter; all encryption and decryption for the lifetime of
/// the process uses this same key.
pub struct KeyState {
    key: Vec<u8>,
}

impl View for KeyState {
    type V = Seq<u8>;

    closed spec fn view(&self) -> Seq<u8> {
        self.key@
    }
}

impl KeyState {
    /// A key is well formed when it holds exactly 32 bytes.
    pub open spec fn wf(&self) -> bool {
        self@.len() == KEY_LEN
    }

    /// Generate a fresh random master key (first vault access with no key on
    /// disk).  The caller is responsible for persisting the exported bytes.
    pub fn generate() -> (r: KeyState)
        ensures
            r.wf(),
    {
        KeyState { key: generate_key_bytes() }
    }

    /// Adopt the bytes loaded from the key file.  A wrong length is a fatal
    /// configuration error: silently regenerating would orphan every stored
    /// token, so it is never done here.
    pub fn from_bytes(bytes: Vec<u8>) -> (r: Result<KeyState, GitSockError>)
        ensures
            bytes@.len() == KEY_LEN ==> (r matches Ok(k) && k@ == bytes@ && k.wf()),
            bytes@.len() != KEY_LEN ==> (r matches Err(e) && e == GitSockError::Config),
    {
        if bytes.len() == KEY_LEN {
            Ok(KeyState { key: bytes })
        } else {
            Err(GitSockError::Config)
        }
    }

    /// The raw key bytes, for the caller that persists the key file.
    pub fn as_bytes(&self) -> (r: &Vec<u8>)
        ensures
            r@ == self@,
    {
        &self.key
    }
}

/// The shape of every blob `encrypt` can return for plaintext `p` under
/// `key`: a 12-byte nonce followed by the seal of `p` under that nonce, which
/// seals no other plaintext of accepted length.
pub open spec fn encrypt_post(key: Seq<u8>, p: Seq<u8>, blob: Seq<u8>) -> bool {
    &&& blob.len() == p.len() + (NONCE_LEN + TAG_LEN)
    &&& blob.skip(NONCE_LEN as int) == seal_of(key, blob.take(NONCE_LEN as int), p)
    &&& forall|q: Seq<u8>|
        q.len() <= MAX_PLAINTEXT_LEN && blob.skip(NONCE_LEN as int) == seal_of(
            key,
            blob.take(NONCE_LEN as int),
            q,
        ) ==> q == p
}

/// `decrypt` accepts `blob` with plaintext `p` when the blob splits as a
/// nonce followed by the seal of `p` under that nonce.
pub open spec fn decrypt_accepts(key: Seq<u8>, blob: Seq<u8>, p: Seq<u8>) -> bool {
    &&& blob.len() >= NONCE_LEN
    &&& blob.skip(NONCE_LEN as int) == seal_of(key, blob.take(NONCE_LEN as int), p)
}

/// Authenticated encryption of `plaintext` with the master key: a fresh
/// random nonce, then `nonce ‖ ciphertext`.  Never touches disk.
pub fn encrypt(key_state: &KeyState, plaintext: &Vec<u8>) -> (r: Vec<u8>)
    requires
        key_state.wf(),
        plaintext@.len() <= MAX_PLAINTEXT_LEN,
    ensures
        encrypt_post(key_state@, plaintext@, r@),
{
    let nonce = generate_nonce_bytes();
    let mut blob = aead_seal(&key_state.key, &nonce, plaintext);
    let ghost nonce_bytes = nonce@;
    let ghost sealed_bytes = blob@;
    let mut result = nonce;
    result.append(&mut blob);
    proof {
        assert(result@.take(NONCE_LEN as int) =~= nonce_bytes);
        assert(result@.skip(NONCE_LEN as int) =~= sealed_bytes);
    }
    result
}

/// Authenticated decryption of a stored blob: the first 12 bytes are the
/// nonce, the rest the ciphertext.  Fails with `Integrity` when the blob is
/// truncated or does not authenticate — it never returns altered data.
pub fn decrypt(key_state: &KeyState, blob: &Vec<u8>) -> (r: Result<Vec<u8>, GitSockError>)
    requires
        key_state.wf(),
    ensures
        r matches Ok(p) ==> decrypt_accepts(key_state@, blob@, p@),
        r matches Err(e) ==> e == GitSockError::Integrity && forall|p: Seq<u8>|
            p.len() <= MAX_PLAINTEXT_LEN ==> !decrypt_accepts(key_state@, blob@, p),
        forall|p: Seq<u8>|
            p.len() <= MAX_PLAINTEXT_LEN && decrypt_accepts(key_state@, blob@, p)
                ==> (r matches Ok(v) && v@ == p),
{
    if blob.len() < NONCE_LEN {
        return Err(GitSockError::Integrity);
    }
    let mut nonce: Vec<u8> = Vec::new();
    let mut rest: Vec<u8> = Vec::new();
    let mut i: usize = 0;
    while i < blob.len()
        invariant
            i <= blob@.len(),
            blob@.len() >= NONCE_LEN,
            nonce@ == blob@.take(NONCE_LEN as int).take(if i < NONCE_LEN {
                i as int
            } else {
                NONCE_LEN as int
            }),
            rest@ == blob@.skip(NONCE_LEN as int).take(if i < NONCE_LEN {
                0
            } else {
                i - NONCE_LEN
            }),
        decreases blob@.len() - i,
    {
        if i < NONCE_LEN {
            nonce.push(blob[i]);
        } else {
            rest.push(blob[i]);
        }
        i += 1;
        proof {
            let full_nonce = blob@.take(NONCE_LEN as int);
            let full_rest = blob@.skip(NONCE_LEN as int);
            if i <= NONCE_LEN {
                assert(nonce@ =~= full_nonce.take(i as int));
            } else {
                assert(rest@ =~= full_rest.take(i - NONCE_LEN));
            }
        }
    }
    proof {
        assert(nonce@ =~= blob@.take(NONCE_LEN as int));
        assert(rest@ =~= blob@.skip(NONCE_LEN as int));
    }
    match aead_open(&key_state.key, &nonce, &rest) {
        Some(p) => Ok(p),
        None => Err(GitSockError::Integrity),
    }
}

/// Law: whatever blob `encrypt` returns for plaintext `p`, `decrypt` under
/// the same key accepts that blob with `p` and with no other plaintext of
/// accepted length.  Together with `decrypt`'s own contract this forces
/// `decrypt(encrypt(p)) == Ok(p)`.
pub proof fn lemma_encrypt_decrypt_round_trip(key: Seq<u8>, p: Seq<u8>, blob: Seq<u8>)
    requires
        p.len() <= MAX_PLAINTEXT_LEN,
        encrypt_post(key, p, blob),
    ensures
        decrypt_accepts(key, blob, p),
        forall|q: Seq<u8>|
            q.len() <= MAX_PLAINTEXT_LEN && decrypt_accepts(key, blob, q) ==> q == p,
{
}

/// Law: two encrypted blobs whose nonces differ are different blobs, whatever
/// their plaintexts; so as long as fresh nonces never repeat, `encrypt` never
/// produces the same blob twice.
pub proof fn lemma_distinct_nonces_distinct_blobs(
    key: Seq<u8>,
    p1: Seq<u8>,
    p2: Seq<u8>,
    b1: Seq<u8>,
    b2: Seq<u8>,
)
    requires
        encrypt_post(key, p1, b1),
        encrypt_post(key, p2, b2),
        b1.take(NONCE_LEN as int) != b2.take(NONCE_LEN as int),
    ensures
        b1 != b2,
{
}

} // verus!
