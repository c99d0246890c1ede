//! SSH key material: the OpenSSH wire format for an RSA public key —
//! length-prefixed string, length-prefixed big-endian integers padded with a
//! leading zero when their top bit is set — and the generation of a fresh
//! key pair, delegated to the RSA crate as an opaque capability whose output
//! encoding is what matters here.

use vstd::prelude::*;
use vstd::string::StringExecFns;

use rsa::pkcs1::EncodeRsaPrivateKey;
use rsa::traits::PublicKeyParts;

use crate::errors::GitSockError;

verus! {

/// Largest integer blob the encoders accept; far above any RSA modulus and
/// safely below the format's 32-bit length prefix.
pub const MAX_SSH_BLOB_LEN: usize = 0x00FF_FFFF;

/// The four big-endian bytes of a 32-bit length.
pub open spec fn be32(n: u32) -> Seq<u8> {
    seq![(n >> 24) as u8, (n >> 16) as u8, (n >> 8) as u8, n as u8]
}

/// A length-prefixed SSH string: four length bytes, then the data.
pub open spec fn ssh_string_enc(data: Seq<u8>) -> Seq<u8>
    recommends
        data.len() <= u32::MAX,
{
    be32(data.len() as u32) + data
}

/// An SSH mpint: a leading zero byte is prepended when the most significant
/// bit is set, so the integer is never misread as negative.
pub open spec fn ssh_mpint_enc(data: Seq<u8>) -> Seq<u8> {
    if data.len() > 0 && data[0] >= 0x80 {
        ssh_string_enc(seq![0u8] + data)
    } else {
        ssh_string_enc(data)
    }
}

/// The bytes of the `ssh-rsa` algorithm tag.
pub open spec fn ssh_rsa_tag() -> Seq<u8> {
    seq![115u8, 115u8, 104u8, 45u8, 114u8, 115u8, 97u8]
}

/// The OpenSSH public-key blob: the tag, then exponent and modulus as
/// mpints.
pub open spec fn ssh_rsa_blob(e: Seq<u8>, n: Seq<u8>) -> Seq<u8> {
    ssh_string_enc(ssh_rsa_tag()) + ssh_mpint_enc(e) + ssh_mpint_enc(n)
}

/// What AES has in `seal_of`, base64 has here: the STANDARD engine's output
/// is a function of the input bytes alone.
pub uninterp spec fn base64_of(data: Seq<u8>) -> Seq<char>;

/// The single-line public key as tools expect it: the tag, a space, and the
/// base64 of the blob.
pub open spec fn openssh_rsa_public(e: Seq<u8>, n: Seq<u8>) -> Seq<char> {
    "ssh-rsa "@ + base64_of(ssh_rsa_blob(e, n))
}

/// Relies on base64's STANDARD engine: the encoding is a function of the
/// input bytes alone, four characters for every started group of three
/// bytes, padded.
#[verifier::external_body]
fn base64_encode(data: &Vec<u8>) -> (r: String)
    ensures
        r@ == base64_of(data@),
        r@.len() == 4 * ((data@.len() + 2) / 3),
{
    base64::Engine::encode(&base64::engine::general_purpose::STANDARD, data)
}

/// Append a length-prefixed SSH string to the buffer.
pub fn write_ssh_string(buf: &mut Vec<u8>, data: &[u8])
    requires
        data@.len() <= u32::MAX,
    ensures
        final(buf)@ == old(buf)@ + ssh_string_enc(data@),
{
    let n = data.len() as u32;
    buf.push((n >> 24) as u8);
    buf.push((n >> 16) as u8);
    buf.push((n >> 8) as u8);
    buf.push(n as u8);
    let ghost with_len = buf@;
    let mut i: usize = 0;
    while i < data.len()
        invariant
            i <= data@.len(),
            buf@ == with_len + data@.take(i as int),
        decreases data@.len() - i,
    {
        buf.push(data[i]);
        i += 1;
        proof {
            assert(buf@ =~= with_len + data@.take(i as int));
        }
    }
    proof {
        assert(buf@ =~= old(buf)@ + ssh_string_enc(data@));
    }
}

/// Append an SSH mpint to the buffer: pad with one zero byte when the top
/// bit of the first byte is set.
pub fn write_ssh_mpint(buf: &mut Vec<u8>, data: &[u8])
    requires
        data@.len() + 1 <= u32::MAX,
    ensures
        final(buf)@ == old(buf)@ + ssh_mpint_enc(data@),
{
    if data.len() > 0 && data[0] >= 0x80 {
        let mut padded: Vec<u8> = Vec::new();
        padded.push(0);
        let mut i: usize = 0;
        while i < data.len()
            invariant
                i <= data@.len(),
                padded@ == seq![0u8] + data@.take(i as int),
            decreases data@.len() - i,
        {
            padded.push(data[i]);
            i += 1;
            proof {
                assert(padded@ =~= seq![0u8] + data@.take(i as int));
            }
        }
        proof {
            assert(padded@ =~= seq![0u8] + data@);
        }
        write_ssh_string(buf, padded.as_slice());
    } else {
        write_ssh_string(buf, data);
    }
}

/// The `ssh-rsa` tag as bytes.
fn ssh_rsa_tag_bytes() -> (r: Vec<u8>)
    ensures
        r@ == ssh_rsa_tag(),
{
    let mut r: Vec<u8> = Vec::new();
    r.push(115);
    r.push(115);
    r.push(104);
    r.push(45);
    r.push(114);
    r.push(115);
    r.push(97);
    proof {
        assert(r@ =~= ssh_rsa_tag());
    }
    r
}

/// Encode an RSA public key, given as big-endian exponent and modulus
/// bytes, in the single-line OpenSSH form.
pub fn encode_openssh_public(e_bytes: &Vec<u8>, n_bytes: &Vec<u8>) -> (r: String)
    requires
        e_bytes@.len() <= MAX_SSH_BLOB_LEN,
        n_bytes@.len() <= MAX_SSH_BLOB_LEN,
    ensures
        r@ == openssh_rsa_public(e_bytes@, n_bytes@),
{
    let tag = ssh_rsa_tag_bytes();
    let mut blob: Vec<u8> = Vec::new();
    write_ssh_string(&mut blob, tag.as_slice());
    write_ssh_mpint(&mut blob, e_bytes.as_slice());
    write_ssh_mpint(&mut blob, n_bytes.as_slice());
    proof {
        assert(blob@ =~= ssh_rsa_blob(e_bytes@, n_bytes@));
    }
    let b64 = base64_encode(&blob);
    let mut r = ("ssh-rsa ").to_owned();
    r.append(b64.as_str());
    r
}

/// The RSA crate's private key, declared so that it can pass through the
/// functions below; it is opaque here.
#[verifier::external_type_specification]
#[verifier::external_body]
pub struct ExRsaPrivateKey(rsa::RsaPrivateKey);

/// Relies on rsa's `RsaPrivateKey::new` with the OS RNG: a fresh random key
/// pair of the given bit size.  Nothing can be promised of a random key; a
/// generation failure is surfaced, never a panic, and bit sizes in this
/// range are ones the generator accepts.
#[verifier::external_body]
fn rsa_generate_private_key(bits: usize) -> (r: Result<rsa::RsaPrivateKey, GitSockError>)
    requires
        512 <= bits <= 8192,
{
    rsa::RsaPrivateKey::new(&mut rand::rngs::OsRng, bits).map_err(|_| GitSockError::Config)
}

/// Relies on pkcs1's `EncodeRsaPrivateKey::to_pkcs1_pem`: the private key's
/// standard PEM serialization, whose text is not modeled here.
#[verifier::external_body]
fn rsa_private_pem(key: &rsa::RsaPrivateKey) -> (r: Result<String, GitSockError>)
{
    match key.to_pkcs1_pem(Default::default()) {
        Ok(pem) => Ok(pem.to_string()),
        Err(_) => Err(GitSockError::Config),
    }
}

/// Relies on `PublicKeyParts::e` and num_bigint's `to_bytes_be`: the public
/// exponent's big-endian bytes, at least one byte long.
#[verifier::external_body]
fn rsa_public_exponent_bytes(key: &rsa::RsaPrivateKey) -> (r: Vec<u8>)
    ensures
        r@.len() >= 1,
{
    key.e().to_bytes_be()
}

/// Relies on `PublicKeyParts::n` and num_bigint's `to_bytes_be`: the
/// modulus's big-endian bytes, at least one byte long.
#[verifier::external_body]
fn rsa_modulus_bytes(key: &rsa::RsaPrivateKey) -> (r: Vec<u8>)
    ensures
        r@.len() >= 1,
{
    key.n().to_bytes_be()
}

/// Generate an RSA key pair of the given size: the private key in PEM form,
/// and the public key encoded in the single-line OpenSSH form.
pub fn generate_key_pair_bits(bits: usize) -> (r: Result<(String, String), GitSockError>)
    requires
        512 <= bits <= 8192,
    ensures
        r matches Ok(p) ==> (exists|e: Seq<u8>, n: Seq<u8>|
            e.len() >= 1 && n.len() >= 1 && p.1@ == openssh_rsa_public(e, n)),
{
    let key = rsa_generate_private_key(bits)?;
    let pem = rsa_private_pem(&key)?;
    let e_bytes = rsa_public_exponent_bytes(&key);
    let n_bytes = rsa_modulus_bytes(&key);
    if e_bytes.len() > MAX_SSH_BLOB_LEN || n_bytes.len() > MAX_SSH_BLOB_LEN {
        return Err(GitSockError::Config);
    }
    let public_ssh = encode_openssh_public(&e_bytes, &n_bytes);
    proof {
        assert(e_bytes@.len() >= 1 && n_bytes@.len() >= 1 && public_ssh@ == openssh_rsa_public(
            e_bytes@,
            n_bytes@,
        ));
    }
    Ok((pem, public_ssh))
}

/// Generate the 4096-bit key pair that SSH provisioning uses.
pub fn generate_rsa_key_pair() -> (r: Result<(String, String), GitSockError>)
    ensures
        r matches Ok(p) ==> (exists|e: Seq<u8>, n: Seq<u8>|
            e.len() >= 1 && n.len() >= 1 && p.1@ == openssh_rsa_public(e, n)),
{
    generate_key_pair_bits(4096)
}

} // verus!
