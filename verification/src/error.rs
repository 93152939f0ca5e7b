//! The crate's error type and its user-facing messages.

use vstd::prelude::*;

use crate::crypto::AeadSuite;
use crate::text::{join2, put};

verus! {

/// The single error type returned across the crate's public surface.
#[derive(Debug, Clone)]
pub enum Error {
    /// Onion transport failures: bootstrap, hosting, dialing, circuit teardown.
    Transport(String),
    /// Key handling failures: sealing, unlocking, malformed secrets.
    Crypto(String),
    /// The peer offered an AEAD suite other than ours; the call is aborted.
    CipherMismatch {
        /// The suite this side requested in HELLO.
        local: AeadSuite,
        /// The suite the peer advertised in HELLO.
        peer: AeadSuite,
    },
    /// Wire-protocol violations: bad version or type byte, oversized frame, truncated payload.
    Proto(String),
    /// A frame failed authentication or fell outside the replay window; it is dropped.
    AuthFailed,
    /// Capture, playback and codec errors.
    Audio(String),
    /// Configuration errors.
    Config(String),
    /// An identity that cannot be drawn as a QR code.
    Qr(String),
    /// Byte I/O on a connection or a local file, as the text of the underlying error.
    Io(String),
    /// The connection closed cleanly.
    Closed,
    /// Anything else, as the text of the underlying error.
    Other(String),
}

/// Crate-wide `Result` alias bound to [`Error`].
pub type Result<T> = core::result::Result<T, Error>;

/// An [`Error`] with its message as a sequence of characters.
pub enum ErrorView {
    Transport(Seq<char>),
    Crypto(Seq<char>),
    CipherMismatch { local: AeadSuite, peer: AeadSuite },
    Proto(Seq<char>),
    AuthFailed,
    Audio(Seq<char>),
    Config(Seq<char>),
    Qr(Seq<char>),
    Io(Seq<char>),
    Closed,
    Other(Seq<char>),
}

impl View for Error {
    type V = ErrorView;

    open spec fn view(&self) -> ErrorView {
        match *self {
            Error::Transport(m) => ErrorView::Transport(m@),
            Error::Crypto(m) => ErrorView::Crypto(m@),
            Error::CipherMismatch { local, peer } => ErrorView::CipherMismatch { local, peer },
            Error::Proto(m) => ErrorView::Proto(m@),
            Error::AuthFailed => ErrorView::AuthFailed,
            Error::Audio(m) => ErrorView::Audio(m@),
            Error::Config(m) => ErrorView::Config(m@),
            Error::Qr(m) => ErrorView::Qr(m@),
            Error::Io(m) => ErrorView::Io(m@),
            Error::Closed => ErrorView::Closed,
            Error::Other(m) => ErrorView::Other(m@),
        }
    }
}

/// The outcome of a fallible call, value and error both taken by their views.
pub open spec fn outcome<T: View>(r: core::result::Result<T, Error>) -> core::result::Result<
    T::V,
    ErrorView,
> {
    match r {
        Ok(v) => Ok(v@),
        Err(e) => Err(e@),
    }
}

impl ErrorView {
    /// The message shown to the user for this error.
    pub open spec fn message(self) -> Seq<char> {
        match self {
            ErrorView::Transport(m) => "transport error: "@ + m,
            ErrorView::Crypto(m) => "crypto error: "@ + m,
            ErrorView::CipherMismatch { local, peer } => "cipher suite mismatch: local "@
                + local.name_view() + ", peer "@ + peer.name_view(),
            ErrorView::Proto(m) => "protocol error: "@ + m,
            ErrorView::AuthFailed => "frame authentication failed (forged, modified, or replayed)"@,
            ErrorView::Audio(m) => "audio error: "@ + m,
            ErrorView::Config(m) => "config error: "@ + m,
            ErrorView::Qr(m) => "qr error: "@ + m,
            ErrorView::Io(m) => "io error: "@ + m,
            ErrorView::Closed => "connection closed by peer"@,
            ErrorView::Other(m) => m,
        }
    }
}

/// Every message names the kind of its error and then what happened, word for word.
pub proof fn law_messages_name_the_error(e: ErrorView)
    ensures
        e matches ErrorView::Transport(m) ==> e.message() == "transport error: "@ + m,
        e matches ErrorView::Crypto(m) ==> e.message() == "crypto error: "@ + m,
        e matches ErrorView::Proto(m) ==> e.message() == "protocol error: "@ + m,
        e matches ErrorView::Audio(m) ==> e.message() == "audio error: "@ + m,
        e matches ErrorView::Config(m) ==> e.message() == "config error: "@ + m,
        e matches ErrorView::Qr(m) ==> e.message() == "qr error: "@ + m,
        e matches ErrorView::Io(m) ==> e.message() == "io error: "@ + m,
        e matches ErrorView::Other(m) ==> e.message() == m,
        e is AuthFailed ==> e.message() == "frame authentication failed (forged, modified, or replayed)"@,
        e is Closed ==> e.message() == "connection closed by peer"@,
        e matches ErrorView::CipherMismatch { local, peer } ==> e.message() == "cipher suite mismatch: local "@
            + local.name_view() + ", peer "@ + peer.name_view(),
{
}

/// An outcome tells success from failure and keeps what it holds.
pub proof fn law_outcomes_are_told_apart<T: View>(r: core::result::Result<T, Error>)
    ensures
        r matches Ok(v) ==> outcome(r) == Ok::<T::V, ErrorView>(v@),
        r matches Err(e) ==> outcome(r) == Err::<T::V, ErrorView>(e@),
{
}

impl Error {
    /// The message shown to the user.
    pub fn message(&self) -> (s: String)
        ensures
            s@ == self@.message(),
    {
        match self {
            Error::Transport(m) => join2("transport error: ", m.as_str()),
            Error::Crypto(m) => join2("crypto error: ", m.as_str()),
            Error::CipherMismatch { local, peer } => {
                let mut s = join2("cipher suite mismatch: local ", local.name());
                put(&mut s, ", peer ");
                put(&mut s, peer.name());
                s
            },
            Error::Proto(m) => join2("protocol error: ", m.as_str()),
            Error::AuthFailed => "frame authentication failed (forged, modified, or replayed)".to_owned(),
            Error::Audio(m) => join2("audio error: ", m.as_str()),
            Error::Config(m) => join2("config error: ", m.as_str()),
            Error::Qr(m) => join2("qr error: ", m.as_str()),
            Error::Io(m) => join2("io error: ", m.as_str()),
            Error::Closed => "connection closed by peer".to_owned(),
            Error::Other(m) => m.as_str().to_owned(),
        }
    }
}

} // verus!
