//! The pre-shared secret at rest: passphrase wrapping, and the policy by which a stored secret is
//! loaded, unlocked, migrated or created.
//!
//! A wrapped secret is `magic | version | salt[16] | nonce[12] | ciphertext[48]`. The ciphertext is
//! AES-256-GCM under the Argon2id hash of the passphrase, and everything in front of it is
//! authenticated with it.

use vstd::prelude::*;
use vstd::utf8::*;

use crate::aead::{aead_decrypt, aead_encrypt, aead_open, aead_seal, aes256gcm_open, aes256gcm_seal};
use crate::bytes::{array32, copy_range, put_slice};
use crate::config::opt_view;
use crate::crypto::{random_32, wipe_32, wipe_vec, AeadSuite, Psk};
use crate::error::{outcome, Error, ErrorView, Result};
use crate::text::{decimal, put, put_decimal, trim_end, trim_end_of};

verus! {

/// Bytes in front of the ciphertext of a wrapped secret.
pub const WRAP_HEADER_LEN: usize = 33;

/// Bytes of a wrapped secret.
pub const WRAPPED_LEN: usize = 81;

/// The longest passphrase that Argon2 takes, in bytes.
pub const MAX_PASSPHRASE_LEN: u64 = 0xffff_ffff;

/// The magic number and the format version that every wrapped secret starts with.
pub open spec fn wrap_magic() -> Seq<u8> {
    seq![0x54u8, 0x50u8, 0x53u8, 0x4bu8, 0x01u8]
}

fn wrap_magic_bytes() -> (m: [u8; 5])
    ensures
        m@ == wrap_magic(),
{
    let m: [u8; 5] = [0x54, 0x50, 0x53, 0x4b, 0x01];
    assert(m@ =~= wrap_magic());
    m
}

/// The Argon2id hash of a passphrase and a salt: 32 bytes, version 19, 19 MiB, two passes, one lane.
pub uninterp spec fn argon2id(pass: Seq<u8>, salt: Seq<u8>) -> Seq<u8>;

/// `argon2::Argon2::default().hash_password_into` to 32 bytes: with a salt of 16 bytes it fails
/// exactly on a passphrase of more than `0xffff_ffff` bytes.
#[verifier::external_body]
fn argon2id_32(pass: &[u8], salt: &[u8; 16]) -> (r: Option<[u8; 32]>)
    ensures
        r is Some <==> pass@.len() <= 0xffff_ffff,
        r matches Some(h) ==> h@ == argon2id(pass@, salt@),
{
    let mut out = [0u8;32];
    argon2::Argon2::default().hash_password_into(pass, salt, &mut out).ok()?;
    Some(out)
}

/// The part of a wrapped secret in front of its ciphertext.
pub open spec fn wrap_header(salt: Seq<u8>, nonce: Seq<u8>) -> Seq<u8> {
    wrap_magic() + salt + nonce
}

/// A secret wrapped under a passphrase with a given salt and nonce.
pub open spec fn wrapped(psk: Seq<u8>, pass: Seq<char>, salt: Seq<u8>, nonce: Seq<u8>) -> Seq<u8> {
    wrap_header(salt, nonce) + aead_seal(
        AeadSuite::Aes256Gcm,
        argon2id(encode_utf8(pass), salt),
        nonce,
        wrap_header(salt, nonce),
        psk,
    )
}

/// Whether stored bytes are a wrapped secret: they have its length and start with its magic.
pub open spec fn looks_wrapped(bytes: Seq<u8>) -> bool {
    bytes.len() == WRAPPED_LEN && bytes.take(5) == wrap_magic()
}

/// The secret that a wrapped one unlocks to with a passphrase, if it does.
pub open spec fn unlocked(blob: Seq<u8>, pass: Seq<char>) -> Option<Seq<u8>> {
    aead_open(
        AeadSuite::Aes256Gcm,
        argon2id(encode_utf8(pass), blob.subrange(5, 21)),
        blob.subrange(21, 33),
        blob.take(33),
        blob.skip(33),
    )
}

/// Whether a passphrase is short enough to be hashed.
pub open spec fn hashable(pass: Seq<char>) -> bool {
    encode_utf8(pass).len() <= MAX_PASSPHRASE_LEN
}

/// The error for a passphrase that is too long.
pub open spec fn pass_too_long() -> ErrorView {
    ErrorView::Crypto("the passphrase is too long"@)
}

/// A wrapped secret is 81 bytes that start with the letters TPSK and the format version 1; nothing else is
/// taken for one.
pub proof fn law_wrapped_secrets_are_recognized(bytes: Seq<u8>)
    ensures
        looks_wrapped(bytes) <==> bytes.len() == 81 && bytes[0] == 0x54 && bytes[1] == 0x50 && bytes[2] == 0x53
            && bytes[3] == 0x4b && bytes[4] == 1,
{
    if bytes.len() == 81 {
        let head = bytes.take(5);
        assert(head[0] == bytes[0] && head[1] == bytes[1] && head[2] == bytes[2] && head[3] == bytes[3] && head[4]
            == bytes[4]);
        if bytes[0] == 0x54 && bytes[1] == 0x50 && bytes[2] == 0x53 && bytes[3] == 0x4b && bytes[4] == 1 {
            assert(head =~= wrap_magic());
        }
    }
}

/// How a secret is wrapped: the five bytes that mark it, the salt, the nonce, and then the secret under
/// AES-256-GCM with the Argon2id hash of passphrase and salt as the key and all that stands in front as
/// authenticated data. It is unlocked the same way, from its own salt and nonce.
pub proof fn law_wrapping_format(psk: Seq<u8>, pass: Seq<char>, salt: Seq<u8>, nonce: Seq<u8>, blob: Seq<u8>)
    ensures
        ({
            let head = seq![0x54u8, 0x50u8, 0x53u8, 0x4bu8, 1u8] + salt + nonce;
            wrapped(psk, pass, salt, nonce) == head + aes256gcm_seal(
                argon2id(encode_utf8(pass), salt),
                nonce,
                head,
                psk,
            )
        }),
        unlocked(blob, pass) == aes256gcm_open(
            argon2id(encode_utf8(pass), blob.subrange(5, 21)),
            blob.subrange(21, 33),
            blob.take(33),
            blob.skip(33),
        ),
{
}

/// A bare 32-byte key is never taken for a wrapped secret.
pub proof fn law_bare_key_is_not_wrapped(bytes: Seq<u8>)
    requires
        bytes.len() == 32,
    ensures
        !looks_wrapped(bytes),
{
}

fn crypto_err(msg: &str) -> (e: Error)
    ensures
        e@ == ErrorView::Crypto(msg@),
{
    Error::Crypto(msg.to_owned())
}

/// Whether stored bytes are a passphrase-wrapped secret.
pub fn is_wrapped(bytes: &[u8]) -> (r: bool)
    ensures
        r == looks_wrapped(bytes@),
{
    if bytes.len() != WRAPPED_LEN {
        return false;
    }
    let m = wrap_magic_bytes();
    let head = copy_range(bytes, 0, 5);
    assert(head@ =~= bytes@.take(5));
    crate::bytes::same_bytes(head.as_slice(), m.as_slice())
}

/// Wrap `psk` under `pass` with the given salt and nonce.
///
/// What comes out is recognized as a wrapped secret and unlocks, with the same passphrase, to
/// `psk`.
pub fn wrap_psk_with(psk: &Psk, pass: &str, salt: &[u8; 16], nonce: &[u8; 12]) -> (r: Result<Vec<u8>>)
    ensures
        r is Ok <==> hashable(pass@),
        r matches Ok(blob) ==> blob@ == wrapped(psk@, pass@, salt@, nonce@) && looks_wrapped(blob@) && unlocked(
            blob@,
            pass@,
        ) == Some(psk@),
        r matches Err(e) ==> e@ == pass_too_long(),
{
    let mut kek = match argon2id_32(pass.as_bytes(), salt) {
        Some(k) => k,
        None => {
            return Err(crypto_err("the passphrase is too long"));
        },
    };
    let mut head: Vec<u8> = Vec::new();
    put_slice(&mut head, wrap_magic_bytes().as_slice());
    put_slice(&mut head, salt.as_slice());
    put_slice(&mut head, nonce.as_slice());
    assert(head@ =~= wrap_header(salt@, nonce@));
    let ct = aead_encrypt(AeadSuite::Aes256Gcm, &kek, nonce, head.as_slice(), psk.0.as_slice());
    wipe_32(&mut kek);
    let mut blob: Vec<u8> = Vec::new();
    put_slice(&mut blob, head.as_slice());
    put_slice(&mut blob, ct.as_slice());
    proof {
        let b = blob@;
        assert(b =~= wrapped(psk@, pass@, salt@, nonce@));
        assert(b.take(5) =~= wrap_magic());
        assert(b.subrange(5, 21) =~= salt@);
        assert(b.subrange(21, 33) =~= nonce@);
        assert(b.take(33) =~= wrap_header(salt@, nonce@));
        assert(b.skip(33) =~= ct@);
    }
    Ok(blob)
}

fn array16(s: &[u8], from: usize) -> (out: [u8; 16])
    requires
        from + 16 <= s@.len(),
    ensures
        out@ == s@.subrange(from as int, from + 16),
{
    let mut out: [u8; 16] = [0u8;16];
    let mut i: usize = 0;
    while i < 16
        invariant
            i <= 16,
            from + 16 <= s.len(),
            out@.len() == 16,
            forall|k: int| 0 <= k < i ==> out@[k] == s@[from + k],
        decreases 16 - i,
    {
        out[i] = s[from + i];
        i = i + 1;
    }
    assert(out@ =~= s@.subrange(from as int, from + 16));
    out
}

fn array12(s: &[u8], from: usize) -> (out: [u8; 12])
    requires
        from + 12 <= s@.len(),
    ensures
        out@ == s@.subrange(from as int, from + 12),
{
    let mut out: [u8; 12] = [0u8;12];
    let mut i: usize = 0;
    while i < 12
        invariant
            i <= 12,
            from + 12 <= s.len(),
            out@.len() == 12,
            forall|k: int| 0 <= k < i ==> out@[k] == s@[from + k],
        decreases 12 - i,
    {
        out[i] = s[from + i];
        i = i + 1;
    }
    assert(out@ =~= s@.subrange(from as int, from + 12));
    out
}

/// Wrap `psk` under `pass` with a fresh random salt and nonce.
pub fn wrap_psk(psk: &Psk, pass: &str) -> (r: Result<Vec<u8>>)
    ensures
        r is Ok <==> hashable(pass@),
        r matches Ok(blob) ==> looks_wrapped(blob@) && unlocked(blob@, pass@) == Some(psk@),
        r matches Ok(blob) ==> exists|salt: Seq<u8>, nonce: Seq<u8>|
            salt.len() == 16 && nonce.len() == 12 && blob@ == #[trigger] wrapped(psk@, pass@, salt, nonce),
        r matches Err(e) ==> e@ == pass_too_long(),
{
    let drawn = random_32();
    let salt = array16(drawn.as_slice(), 0);
    let nonce = array12(drawn.as_slice(), 16);
    let r = wrap_psk_with(psk, pass, &salt, &nonce);
    assert(r matches Ok(blob) ==> salt@.len() == 16 && nonce@.len() == 12 && blob@ == wrapped(
        psk@,
        pass@,
        salt@,
        nonce@,
    ));
    r
}

/// The outcome of unlocking stored bytes with a passphrase.
pub open spec fn unlock_outcome(blob: Seq<u8>, pass: Seq<char>) -> core::result::Result<Seq<u8>, ErrorView> {
    if !looks_wrapped(blob) {
        Err(ErrorView::Crypto("not a wrapped secret"@))
    } else if !hashable(pass) {
        Err(pass_too_long())
    } else {
        match unlocked(blob, pass) {
            Some(psk) => Ok(psk),
            None => Err(ErrorView::AuthFailed),
        }
    }
}

/// Unlock a wrapped secret. A passphrase that does not fit, or a blob that was changed, is
/// [`Error::AuthFailed`].
pub fn unwrap_psk(blob: &[u8], pass: &str) -> (r: Result<Psk>)
    ensures
        outcome(r) == unlock_outcome(blob@, pass@),
        r matches Ok(psk) ==> looks_wrapped(blob@) && unlocked(blob@, pass@) == Some(psk.0@),
        r matches Err(e) ==> !looks_wrapped(blob@) || encode_utf8(pass@).len() > 0xffff_ffff || (e is AuthFailed
            && unlocked(blob@, pass@) is None),
{
    if !is_wrapped(blob) {
        return Err(crypto_err("not a wrapped secret"));
    }
    let salt = array16(blob, 5);
    let nonce = array12(blob, 21);
    let mut kek = match argon2id_32(pass.as_bytes(), &salt) {
        Some(k) => k,
        None => {
            return Err(crypto_err("the passphrase is too long"));
        },
    };
    let head = copy_range(blob, 0, WRAP_HEADER_LEN);
    let ct = copy_range(blob, WRAP_HEADER_LEN, blob.len());
    assert(head@ =~= blob@.take(33));
    assert(ct@ =~= blob@.skip(33));
    let opened = aead_decrypt(AeadSuite::Aes256Gcm, &kek, &nonce, head.as_slice(), ct.as_slice());
    wipe_32(&mut kek);
    match opened {
        None => Err(Error::AuthFailed),
        Some(mut plain) => {
            let mut key = array32(plain.as_slice(), 0);
            assert(key@ =~= plain@);
            wipe_vec(&mut plain);
            let psk = Psk::from_bytes(key);
            wipe_32(&mut key);
            Ok(psk)
        },
    }
}

/// What [`resolve_psk`] decided to do.
#[derive(Debug, Clone, Copy, PartialEq, Eq, Structural)]
pub enum PskAction {
    /// An existing wrapped secret was unlocked.
    LoadedWrapped,
    /// An existing plaintext secret was used as it is.
    LoadedPlaintext,
    /// A plaintext secret was wrapped in place.
    Migrated,
    /// A new PSK was generated and wrapped.
    GeneratedWrapped,
    /// A new PSK was generated in plaintext.
    GeneratedPlaintext,
}

impl PskAction {
    /// What is logged about the action.
    pub open spec fn notice_view(self) -> Option<Seq<char>> {
        match self {
            PskAction::LoadedWrapped => None,
            PskAction::LoadedPlaintext => Some(
                "secret stored in plaintext; set TERMINALPHONE_PASSPHRASE to wrap it at rest"@,
            ),
            PskAction::Migrated => Some("migrated plaintext secret to passphrase-wrapped (Argon2id)"@),
            PskAction::GeneratedWrapped => Some("generated new PSK (passphrase-wrapped); share it out of band"@),
            PskAction::GeneratedPlaintext => Some("generated new PSK (plaintext at rest); share it out of band"@),
        }
    }

    /// What is logged about the action, if anything.
    pub fn notice(self) -> (r: Option<&'static str>)
        ensures
            opt_view(r) == self.notice_view(),
            r is None <==> self is LoadedWrapped,
    {
        match self {
            PskAction::LoadedWrapped => None,
            PskAction::LoadedPlaintext => Some(
                "secret stored in plaintext; set TERMINALPHONE_PASSPHRASE to wrap it at rest",
            ),
            PskAction::Migrated => Some("migrated plaintext secret to passphrase-wrapped (Argon2id)"),
            PskAction::GeneratedWrapped => Some("generated new PSK (passphrase-wrapped); share it out of band"),
            PskAction::GeneratedPlaintext => Some("generated new PSK (plaintext at rest); share it out of band"),
        }
    }
}

/// The outcome of [`resolve_psk`]: the key, bytes to persist if anything changed, and what happened.
pub struct PskResolution {
    /// The key.
    pub psk: Psk,
    /// Bytes to write back to the secret file, if anything is to change there.
    pub write_back: Option<Vec<u8>>,
    /// What happened.
    pub action: PskAction,
}

/// The salt that drawn bytes give: the first 16 of them.
pub open spec fn drawn_salt(drawn: Seq<u8>) -> Seq<u8> {
    drawn.subrange(0, 16)
}

/// The nonce that drawn bytes give: the 12 behind the salt.
pub open spec fn drawn_nonce(drawn: Seq<u8>) -> Seq<u8> {
    drawn.subrange(16, 28)
}

/// Stored bytes by their view.
pub open spec fn stored(existing: Option<&[u8]>) -> Option<Seq<u8>> {
    match existing {
        Some(b) => Some(b@),
        None => None,
    }
}

impl PskResolution {
    /// Whether this resolution holds `psk`, did `action`, and changes nothing on disk.
    pub open spec fn keeps(&self, psk: Seq<u8>, action: PskAction) -> bool {
        self.psk@ == psk && self.write_back is None && self.action == action
    }

    /// Whether this resolution holds `psk`, did `action`, and writes `psk` wrapped with the salt and
    /// nonce at the front of `drawn`, which unlocks to `psk`.
    pub open spec fn writes_wrapped(&self, psk: Seq<u8>, pass: Seq<char>, drawn: Seq<u8>, action: PskAction) -> bool {
        &&& self.psk@ == psk
        &&& self.action == action
        &&& self.write_back matches Some(b) && b@ == wrapped(psk, pass, drawn_salt(drawn), drawn_nonce(drawn))
            && looks_wrapped(b@) && unlocked(b@, pass) == Some(psk)
    }

    /// Whether this resolution holds `psk`, did `action`, and writes the bare key.
    pub open spec fn writes_bare(&self, psk: Seq<u8>, action: PskAction) -> bool {
        &&& self.psk@ == psk
        &&& self.action == action
        &&& self.write_back matches Some(b) && b@ == psk
    }
}

/// Whether `r` is what the policy makes of the stored bytes and the passphrase, with `fresh` as the
/// key if one is to be generated and `drawn` as the source of salt and nonce if one is to be wrapped:
///
/// * nothing stored: a new key, wrapped if there is a passphrase;
/// * a wrapped secret: unlocked with the passphrase, which must be there and fit;
/// * a bare 32-byte key: used, and wrapped in place if there is a passphrase;
/// * anything else: refused.
pub open spec fn resolves(
    existing: Option<Seq<u8>>,
    pass: Option<Seq<char>>,
    fresh: Seq<u8>,
    drawn: Seq<u8>,
    r: Result<PskResolution>,
) -> bool {
    match existing {
        None => match pass {
            None => r matches Ok(v) && v.writes_bare(fresh, PskAction::GeneratedPlaintext),
            Some(p) => if hashable(p) {
                r matches Ok(v) && v.writes_wrapped(fresh, p, drawn, PskAction::GeneratedWrapped)
            } else {
                r matches Err(e) && e@ == pass_too_long()
            },
        },
        Some(bytes) => if looks_wrapped(bytes) {
            match pass {
                None => r matches Err(e) && e@ == ErrorView::Crypto(
                    "a passphrase is required to unlock the secret"@,
                ),
                Some(p) => match unlock_outcome(bytes, p) {
                    Ok(psk) => r matches Ok(v) && v.keeps(psk, PskAction::LoadedWrapped),
                    Err(ErrorView::AuthFailed) => r matches Err(e) && e@ == ErrorView::Crypto(
                        "wrong passphrase: secret did not unlock"@,
                    ),
                    Err(other) => r matches Err(e) && e@ == other,
                },
            }
        } else if bytes.len() == 32 {
            match pass {
                None => r matches Ok(v) && v.keeps(bytes, PskAction::LoadedPlaintext),
                Some(p) => if hashable(p) {
                    r matches Ok(v) && v.writes_wrapped(bytes, p, drawn, PskAction::Migrated)
                } else {
                    r matches Err(e) && e@ == pass_too_long()
                },
            }
        } else {
            r matches Err(e) && e@ == ErrorView::Crypto(
                "secret is "@ + decimal(bytes.len())
                    + " bytes: not a bare 32-byte PSK nor a recognized wrapped blob"@,
            )
        },
    }
}

/// Secret-resolution policy, with `fresh` as the key if one is to be generated and `drawn` as the
/// source of salt and nonce if one is to be wrapped. No I/O, no prompting.
pub fn resolve_psk_with(existing: Option<&[u8]>, pass: Option<&str>, fresh: [u8; 32], drawn: [u8; 32]) -> (r: Result<
    PskResolution,
>)
    ensures
        resolves(stored(existing), opt_view(pass), fresh@, drawn@, r),
        existing is None && pass is None ==> resolves(None, None, fresh@, drawn@, r),
        existing is None && pass is Some ==> resolves(None, Some(pass.unwrap()@), fresh@, drawn@, r),
        existing is Some && pass is None ==> resolves(Some(existing.unwrap()@), None, fresh@, drawn@, r),
        existing is Some && pass is Some ==> resolves(
            Some(existing.unwrap()@),
            Some(pass.unwrap()@),
            fresh@,
            drawn@,
            r,
        ),
{
    let salt = array16(drawn.as_slice(), 0);
    let nonce = array12(drawn.as_slice(), 16);
    match existing {
        None => {
            let psk = Psk::from_bytes(fresh);
            match pass {
                Some(p) => match wrap_psk_with(&psk, p, &salt, &nonce) {
                    Ok(blob) => Ok(
                        PskResolution { psk, write_back: Some(blob), action: PskAction::GeneratedWrapped },
                    ),
                    Err(e) => Err(e),
                },
                None => {
                    let bare = copy_range(psk.0.as_slice(), 0, 32);
                    assert(bare@ =~= fresh@);
                    Ok(PskResolution { psk, write_back: Some(bare), action: PskAction::GeneratedPlaintext })
                },
            }
        },
        Some(bytes) => {
            if is_wrapped(bytes) {
                let p = match pass {
                    Some(p) => p,
                    None => {
                        return Err(crypto_err("a passphrase is required to unlock the secret"));
                    },
                };
                return match unwrap_psk(bytes, p) {
                    Ok(psk) => Ok(PskResolution { psk, write_back: None, action: PskAction::LoadedWrapped }),
                    Err(Error::AuthFailed) => Err(crypto_err("wrong passphrase: secret did not unlock")),
                    Err(other) => Err(other),
                };
            }
            if bytes.len() == 32 {
                let mut key = array32(bytes, 0);
                assert(key@ =~= bytes@);
                let psk = Psk::from_bytes(key);
                wipe_32(&mut key);
                return match pass {
                    Some(p) => match wrap_psk_with(&psk, p, &salt, &nonce) {
                        Ok(blob) => Ok(
                            PskResolution { psk, write_back: Some(blob), action: PskAction::Migrated },
                        ),
                        Err(e) => Err(e),
                    },
                    None => Ok(PskResolution { psk, write_back: None, action: PskAction::LoadedPlaintext }),
                };
            }
            let mut m = "secret is ".to_owned();
            put_decimal(&mut m, bytes.len() as u64);
            put(&mut m, " bytes: not a bare 32-byte PSK nor a recognized wrapped blob");
            Err(Error::Crypto(m))
        },
    }
}

/// Secret-resolution policy over the stored bytes (`None` on first run) and the passphrase (if
/// there is one). A key that is generated, and the salt and nonce of a secret that is wrapped, are
/// random.
pub fn resolve_psk(existing: Option<&[u8]>, pass: Option<&str>) -> (r: Result<PskResolution>)
    ensures
        exists|fresh: Seq<u8>, drawn: Seq<u8>|
            fresh.len() == 32 && drawn.len() == 32 && #[trigger] resolves(
                stored(existing),
                opt_view(pass),
                fresh,
                drawn,
                r,
            ),
{
    let mut fresh = random_32();
    let drawn = random_32();
    let r = resolve_psk_with(existing, pass, fresh, drawn);
    assert(fresh@.len() == 32 && drawn@.len() == 32 && resolves(
        stored(existing),
        opt_view(pass),
        fresh@,
        drawn@,
        r,
    ));
    wipe_32(&mut fresh);
    r
}

/// What the policy makes of what is stored and of the passphrase. Nothing stored: a fresh key, written
/// bare, or wrapped so that the passphrase unlocks it. A bare key: that key, written only to wrap it.
/// Anything else that is not wrapped is refused.
pub proof fn law_policy_on_bare_secrets(
    existing: Option<Seq<u8>>,
    pass: Option<Seq<char>>,
    fresh: Seq<u8>,
    drawn: Seq<u8>,
    r: Result<PskResolution>,
)
    requires
        resolves(existing, pass, fresh, drawn, r),
        pass matches Some(p) ==> encode_utf8(p).len() <= 0xffff_ffff,
    ensures
        existing is None && pass is None ==> (r matches Ok(v) && v.psk.0@ == fresh && v.action
            == PskAction::GeneratedPlaintext && (v.write_back matches Some(b) && b@ == fresh)),
        existing is None && pass is Some ==> (r matches Ok(v) && v.psk.0@ == fresh && v.action
            == PskAction::GeneratedWrapped && (v.write_back matches Some(b) && b@ == wrapped(
            fresh,
            pass.unwrap(),
            drawn.subrange(0, 16),
            drawn.subrange(16, 28),
        ) && b@.len() == 81 && unlocked(b@, pass.unwrap()) == Some(fresh))),
        existing matches Some(bytes) ==> {
            &&& bytes.len() == 32 && pass is None ==> (r matches Ok(v) && v.psk.0@ == bytes && v.action
                == PskAction::LoadedPlaintext && v.write_back is None)
            &&& bytes.len() == 32 && pass is Some ==> (r matches Ok(v) && v.psk.0@ == bytes && v.action
                == PskAction::Migrated && (v.write_back matches Some(b) && b@ == wrapped(
                bytes,
                pass.unwrap(),
                drawn.subrange(0, 16),
                drawn.subrange(16, 28),
            ) && b@.len() == 81 && unlocked(b@, pass.unwrap()) == Some(bytes)))
            &&& bytes.len() != 32 && bytes.len() != 81 ==> (r matches Err(e) && e@ == ErrorView::Crypto(
                "secret is "@ + decimal(bytes.len())
                    + " bytes: not a bare 32-byte PSK nor a recognized wrapped blob"@,
            ))
        },
{
}

/// A wrapped secret gives its key exactly when the passphrase is there and unlocks it; it is never
/// written again. Without a passphrase, or with a wrong one, there is no key.
pub proof fn law_policy_on_wrapped_secrets(
    bytes: Seq<u8>,
    pass: Option<Seq<char>>,
    fresh: Seq<u8>,
    drawn: Seq<u8>,
    r: Result<PskResolution>,
)
    requires
        resolves(Some(bytes), pass, fresh, drawn, r),
        looks_wrapped(bytes),
        pass matches Some(p) ==> encode_utf8(p).len() <= 0xffff_ffff,
    ensures
        pass is None ==> (r matches Err(e) && e@ == ErrorView::Crypto(
            "a passphrase is required to unlock the secret"@,
        )),
        pass matches Some(p) ==> {
            &&& unlocked(bytes, p) matches Some(key) ==> (r matches Ok(v) && v.psk.0@ == key && v.action
                == PskAction::LoadedWrapped && v.write_back is None)
            &&& unlocked(bytes, p) is None ==> (r matches Err(e) && e@ == ErrorView::Crypto(
                "wrong passphrase: secret did not unlock"@,
            ))
        },
{
}

/// A passphrase too long to be hashed is refused wherever one would be used.
pub proof fn law_policy_on_long_passphrases(
    existing: Option<Seq<u8>>,
    pass: Seq<char>,
    fresh: Seq<u8>,
    drawn: Seq<u8>,
    r: Result<PskResolution>,
)
    requires
        resolves(existing, Some(pass), fresh, drawn, r),
        encode_utf8(pass).len() > 0xffff_ffff,
        existing matches Some(b) ==> b.len() == 32 || looks_wrapped(b),
    ensures
        r matches Err(e) && e@ == ErrorView::Crypto("the passphrase is too long"@),
{
}

/// What one run writes, the next run loads: resolving the written bytes with the same passphrase,
/// or with none if there was none, gives the same key and writes nothing more.
pub proof fn law_written_secret_loads_back(
    existing: Option<Seq<u8>>,
    pass: Option<Seq<char>>,
    fresh: Seq<u8>,
    drawn: Seq<u8>,
    r: Result<PskResolution>,
    fresh2: Seq<u8>,
    drawn2: Seq<u8>,
    again: Result<PskResolution>,
)
    requires
        resolves(existing, pass, fresh, drawn, r),
        fresh.len() == 32,
        r is Ok,
        r->Ok_0.write_back is Some,
        resolves(Some(r->Ok_0.write_back.unwrap()@), pass, fresh2, drawn2, again),
    ensures
        again is Ok,
        again->Ok_0.psk@ == r->Ok_0.psk@,
        again->Ok_0.write_back is None,
{
}

/// Migration keeps the key: a bare key that is wrapped in place stays the same key.
pub proof fn law_migration_keeps_key(
    key: Seq<u8>,
    pass: Seq<char>,
    fresh: Seq<u8>,
    drawn: Seq<u8>,
    r: Result<PskResolution>,
)
    requires
        key.len() == 32,
        hashable(pass),
        resolves(Some(key), Some(pass), fresh, drawn, r),
    ensures
        r is Ok,
        r->Ok_0.psk@ == key,
        r->Ok_0.action == PskAction::Migrated,
{
}

/// The passphrase that an environment variable holds: none if it is unset or empty.
pub fn env_passphrase(value: Option<String>) -> (r: Option<String>)
    ensures
        value matches Some(v) && v@.len() > 0 ==> r == value,
        (value is None || value.unwrap()@.len() == 0) ==> r is None,
{
    match value {
        Some(v) => if v.as_str().is_empty() {
            None
        } else {
            Some(v)
        },
        None => None,
    }
}

/// Whether the passphrase has to be asked for: a wrapped secret is stored and none is there yet.
pub fn needs_prompt(existing: Option<&[u8]>, pass: Option<&str>) -> (r: bool)
    ensures
        r == (pass is None && (stored(existing) matches Some(b) && looks_wrapped(b))),
        r == (pass is None && existing is Some && looks_wrapped(existing.unwrap()@)),
{
    match existing {
        Some(bytes) => is_wrapped(bytes) && pass.is_none(),
        None => false,
    }
}

/// The passphrase on a line of input: without the line ending.
pub fn passphrase_from_line(line: &str) -> (p: String)
    ensures
        p@ == trim_end(line@, |c: char| c == '\r' || c == '\n'),
{
    trim_end_of(line, '\r', '\n')
}

/// The error when a passphrase is needed but there is no terminal to ask on.
pub fn no_terminal_error() -> (e: Error)
    ensures
        e@ == ErrorView::Crypto(
            "secret is passphrase-wrapped but no TTY is available; set TERMINALPHONE_PASSPHRASE to unlock it non-interactively"@,
        ),
{
    crypto_err(
        "secret is passphrase-wrapped but no TTY is available; set TERMINALPHONE_PASSPHRASE to unlock it non-interactively",
    )
}

} // verus!
