//! The two AEAD ciphers, behind one interface keyed by the negotiated suite.

use vstd::prelude::*;

use crate::crypto::AeadSuite;

verus! {

/// What AES-256-GCM makes of a message under a key, a nonce and associated data.
pub uninterp spec fn aes256gcm_seal(key: Seq<u8>, nonce: Seq<u8>, aad: Seq<u8>, msg: Seq<u8>) -> Seq<u8>;

/// What AES-256-GCM recovers from a ciphertext; `None` when it does not authenticate.
pub uninterp spec fn aes256gcm_open(key: Seq<u8>, nonce: Seq<u8>, aad: Seq<u8>, sealed: Seq<u8>) -> Option<Seq<u8>>;

/// What ChaCha20-Poly1305 makes of a message under a key, a nonce and associated data.
pub uninterp spec fn chacha20poly1305_seal(key: Seq<u8>, nonce: Seq<u8>, aad: Seq<u8>, msg: Seq<u8>) -> Seq<u8>;

/// What ChaCha20-Poly1305 recovers from a ciphertext; `None` when it does not authenticate.
pub uninterp spec fn chacha20poly1305_open(key: Seq<u8>, nonce: Seq<u8>, aad: Seq<u8>, sealed: Seq<u8>) -> Option<Seq<u8>>;

/// Length of the authentication tag that both suites append to the ciphertext.
pub const TAG_LEN: usize = 16;

/// The longest message that a suite encrypts, and the longest associated data it takes with one.
pub open spec fn sealable(suite: AeadSuite, aad_len: nat, msg_len: nat) -> bool {
    &&& msg_len + 16 <= isize::MAX
    &&& match suite {
        AeadSuite::Aes256Gcm => msg_len <= 0x10_0000_0000 && aad_len <= 0x10_0000_0000,
        AeadSuite::ChaCha20Poly1305 => msg_len <= 0x3f_ffff_ff80,
    }
}

/// What a suite can be asked to encrypt and to open: all that its own limit and memory allow.
pub proof fn law_limits_of_the_suites(aad_len: nat, len: nat)
    ensures
        sealable(AeadSuite::Aes256Gcm, aad_len, len) <==> len + 16 <= isize::MAX && len <= 0x10_0000_0000 && aad_len
            <= 0x10_0000_0000,
        sealable(AeadSuite::ChaCha20Poly1305, aad_len, len) <==> len + 16 <= isize::MAX && len <= 0x3f_ffff_ff80,
        openable(AeadSuite::Aes256Gcm, len),
        openable(AeadSuite::ChaCha20Poly1305, len) <==> len <= 0x3f_ffff_ff90 || len >= 0x3f_ffff_ffd0,
{
}

/// Whether a suite encrypts a message of this length with associated data of this length.
pub fn can_seal(suite: AeadSuite, aad_len: usize, msg_len: usize) -> (r: bool)
    ensures
        r == sealable(suite, aad_len as nat, msg_len as nat),
{
    msg_len <= isize::MAX as usize - 16 && match suite {
        AeadSuite::Aes256Gcm => msg_len as u64 <= 0x10_0000_0000 && aad_len as u64 <= 0x10_0000_0000,
        AeadSuite::ChaCha20Poly1305 => msg_len as u64 <= 0x3f_ffff_ff80,
    }
}

/// The ciphertext lengths that a suite can be asked to open. Only lengths at the very end of the
/// ChaCha20 key stream, some 256 GiB, are left out.
pub open spec fn openable(suite: AeadSuite, sealed_len: nat) -> bool {
    suite is ChaCha20Poly1305 ==> !(0x3f_ffff_ff90 < sealed_len < 0x3f_ffff_ffd0)
}

/// The ciphertext, tag included, of `msg` under the given suite.
pub open spec fn aead_seal(suite: AeadSuite, key: Seq<u8>, nonce: Seq<u8>, aad: Seq<u8>, msg: Seq<u8>) -> Seq<u8> {
    match suite {
        AeadSuite::Aes256Gcm => aes256gcm_seal(key, nonce, aad, msg),
        AeadSuite::ChaCha20Poly1305 => chacha20poly1305_seal(key, nonce, aad, msg),
    }
}

/// The message that `sealed` authenticates to under the given suite, if it does.
pub open spec fn aead_open(suite: AeadSuite, key: Seq<u8>, nonce: Seq<u8>, aad: Seq<u8>, sealed: Seq<u8>) -> Option<
    Seq<u8>,
> {
    match suite {
        AeadSuite::Aes256Gcm => aes256gcm_open(key, nonce, aad, sealed),
        AeadSuite::ChaCha20Poly1305 => chacha20poly1305_open(key, nonce, aad, sealed),
    }
}

/// `Aead::encrypt` of `aes_gcm::Aes256Gcm`: fails only on over-long input, appends a 16-byte tag,
/// and yields a ciphertext that `Aead::decrypt` turns back into the message.
#[verifier::external_body]
fn aes256gcm_encrypt(key: &[u8; 32], nonce: &[u8; 12], aad: &[u8], msg: &[u8]) -> (r: Option<Vec<u8>>)
    requires
        sealable(AeadSuite::Aes256Gcm, aad@.len(), msg@.len()),
    ensures
        r is Some,
        r.unwrap()@ == aes256gcm_seal(key@, nonce@, aad@, msg@),
        r.unwrap()@.len() == msg@.len() + 16,
        aes256gcm_open(key@, nonce@, aad@, r.unwrap()@) == Some(msg@),
{
    let cipher = <aes_gcm::Aes256Gcm as aead::KeyInit>::new(key.into());
    aead::Aead::encrypt(&cipher, nonce.into(), aead::Payload { msg, aad }).ok()
}

/// `Aead::decrypt` of `aes_gcm::Aes256Gcm`: the message without its 16-byte tag, or nothing.
#[verifier::external_body]
fn aes256gcm_decrypt(key: &[u8; 32], nonce: &[u8; 12], aad: &[u8], sealed: &[u8]) -> (r: Option<Vec<u8>>)
    ensures
        r is Some <==> aes256gcm_open(key@, nonce@, aad@, sealed@) is Some,
        r matches Some(m) ==> aes256gcm_open(key@, nonce@, aad@, sealed@) == Some(m@),
        r matches Some(m) ==> m@.len() + 16 == sealed@.len(),
{
    let cipher = <aes_gcm::Aes256Gcm as aead::KeyInit>::new(key.into());
    aead::Aead::decrypt(&cipher, nonce.into(), aead::Payload { msg: sealed, aad }).ok()
}

/// `Aead::encrypt` of `chacha20poly1305::ChaCha20Poly1305`: fails only on over-long input, appends
/// a 16-byte tag, and yields a ciphertext that `Aead::decrypt` turns back into the message.
#[verifier::external_body]
fn chacha20poly1305_encrypt(key: &[u8; 32], nonce: &[u8; 12], aad: &[u8], msg: &[u8]) -> (r: Option<Vec<u8>>)
    requires
        sealable(AeadSuite::ChaCha20Poly1305, aad@.len(), msg@.len()),
    ensures
        r is Some,
        r.unwrap()@ == chacha20poly1305_seal(key@, nonce@, aad@, msg@),
        r.unwrap()@.len() == msg@.len() + 16,
        chacha20poly1305_open(key@, nonce@, aad@, r.unwrap()@) == Some(msg@),
{
    let cipher = <chacha20poly1305::ChaCha20Poly1305 as aead::KeyInit>::new(key.into());
    aead::Aead::encrypt(&cipher, nonce.into(), aead::Payload { msg, aad }).ok()
}

/// `Aead::decrypt` of `chacha20poly1305::ChaCha20Poly1305`: the message without its 16-byte tag,
/// or nothing.
#[verifier::external_body]
fn chacha20poly1305_decrypt(key: &[u8; 32], nonce: &[u8; 12], aad: &[u8], sealed: &[u8]) -> (r: Option<Vec<u8>>)
    requires
        openable(AeadSuite::ChaCha20Poly1305, sealed@.len()),
    ensures
        r is Some <==> chacha20poly1305_open(key@, nonce@, aad@, sealed@) is Some,
        r matches Some(m) ==> chacha20poly1305_open(key@, nonce@, aad@, sealed@) == Some(m@),
        r matches Some(m) ==> m@.len() + 16 == sealed@.len(),
{
    let cipher = <chacha20poly1305::ChaCha20Poly1305 as aead::KeyInit>::new(key.into());
    aead::Aead::decrypt(&cipher, nonce.into(), aead::Payload { msg: sealed, aad }).ok()
}

/// Encrypt `msg` under the negotiated suite; the tag is appended to the ciphertext.
///
/// What comes out opens, under the same suite, key, nonce and associated data, to `msg`.
pub fn aead_encrypt(suite: AeadSuite, key: &[u8; 32], nonce: &[u8; 12], aad: &[u8], msg: &[u8]) -> (c: Vec<u8>)
    requires
        sealable(suite, aad@.len(), msg@.len()),
    ensures
        c@ == aead_seal(suite, key@, nonce@, aad@, msg@),
        c@.len() == msg@.len() + TAG_LEN,
        aead_open(suite, key@, nonce@, aad@, c@) == Some(msg@),
{
    let r = match suite {
        AeadSuite::Aes256Gcm => aes256gcm_encrypt(key, nonce, aad, msg),
        AeadSuite::ChaCha20Poly1305 => chacha20poly1305_encrypt(key, nonce, aad, msg),
    };
    r.unwrap()
}

/// Decrypt `sealed` under the negotiated suite; `None` when it does not authenticate.
pub fn aead_decrypt(suite: AeadSuite, key: &[u8; 32], nonce: &[u8; 12], aad: &[u8], sealed: &[u8]) -> (r: Option<Vec<u8>>)
    requires
        openable(suite, sealed@.len()),
    ensures
        r is Some <==> aead_open(suite, key@, nonce@, aad@, sealed@) is Some,
        r matches Some(m) ==> aead_open(suite, key@, nonce@, aad@, sealed@) == Some(m@) && m@.len() + TAG_LEN
            == sealed@.len(),
{
    match suite {
        AeadSuite::Aes256Gcm => aes256gcm_decrypt(key, nonce, aad, sealed),
        AeadSuite::ChaCha20Poly1305 => chacha20poly1305_decrypt(key, nonce, aad, sealed),
    }
}

} // verus!
