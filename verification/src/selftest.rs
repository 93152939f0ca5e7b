//! The headless self-test: its inputs, and the check of what came through the pipeline.

use vstd::prelude::*;

use crate::config::OpusParams;
use crate::crypto::{AeadSuite, CallNonce};
use crate::error::{Error, ErrorView, Result};
use crate::proto::Hello;
use crate::text::{decimal, put, put_decimal, same_text};
use crate::transport::OnionAddr;

verus! {

/// Number of tone frames pushed through the pipeline.
pub const TONE_FRAMES: usize = 25;

/// Text message round-tripped alongside the audio.
pub const TEST_MESSAGE: &'static str = "selftest-roundtrip";

/// What `Debug` formatting makes of a string.
pub uninterp spec fn debug_text(s: Seq<char>) -> Seq<char>;

/// The standard library's `Debug` formatting of `str`: the string in quotes, special characters
/// escaped.
#[verifier::external_body]
fn quoted(s: &str) -> (r: String)
    ensures
        r@ == debug_text(s@),
{
    format!("{s:?}")
}

/// Build a HELLO for one side.
pub fn hello(onion: &str, nonce: u8, opus: OpusParams) -> (h: Hello)
    ensures
        h@.onion == onion@,
        h@.suite == AeadSuite::Aes256Gcm,
        h@.opus == opus,
        h@.nonce == Seq::new(32, |i: int| nonce),
{
    let bytes: [u8; 32] = [nonce;32];
    assert(bytes@ =~= Seq::new(32, |i: int| nonce));
    Hello { onion: OnionAddr(onion.to_owned()), suite: AeadSuite::Aes256Gcm, opus, nonce: CallNonce(bytes) }
}

/// Require the message that arrived to be the one that was sent.
pub fn check_message(got: &str) -> (r: Result<()>)
    ensures
        r is Ok <==> got@ == TEST_MESSAGE@,
        r matches Err(e) ==> e@ == ErrorView::Audio(
            "selftest: message mismatch: got "@ + debug_text(got@) + ", expected "@ + debug_text(TEST_MESSAGE@),
        ),
{
    if same_text(got, TEST_MESSAGE) {
        return Ok(());
    }
    let mut m = "selftest: message mismatch: got ".to_owned();
    put(&mut m, quoted(got).as_str());
    put(&mut m, ", expected ");
    put(&mut m, quoted(TEST_MESSAGE).as_str());
    Err(Error::Audio(m))
}

/// Why played samples are not the reference.
pub open spec fn samples_error(played: Seq<i16>, reference: Seq<i16>) -> ErrorView {
    if played.len() != reference.len() {
        ErrorView::Audio(
            "selftest: sample count mismatch: played "@ + decimal(played.len()) + ", expected "@ + decimal(
                reference.len(),
            ),
        )
    } else {
        ErrorView::Audio("selftest: round-trip PCM differs from the codec reference"@)
    }
}

/// Require the samples that were played to be exactly the reference.
pub fn check_samples(played: &[i16], reference: &[i16]) -> (r: Result<()>)
    ensures
        r is Ok <==> played@ == reference@,
        r matches Err(e) ==> e@ == samples_error(played@, reference@),
{
    if played.len() != reference.len() {
        let mut m = "selftest: sample count mismatch: played ".to_owned();
        put_decimal(&mut m, played.len() as u64);
        put(&mut m, ", expected ");
        put_decimal(&mut m, reference.len() as u64);
        return Err(Error::Audio(m));
    }
    let mut i: usize = 0;
    while i < played.len()
        invariant
            i <= played@.len(),
            played@.len() == reference@.len(),
            forall|k: int| 0 <= k < i ==> played@[k] == reference@[k],
        decreases played@.len() - i,
    {
        if played[i] != reference[i] {
            return Err(Error::Audio("selftest: round-trip PCM differs from the codec reference".to_owned()));
        }
        i = i + 1;
    }
    assert(played@ =~= reference@);
    Ok(())
}

/// Require the message and the samples to have come through, looking at the message first.
pub fn check_round_trip(message: &str, played: &[i16], reference: &[i16]) -> (r: Result<()>)
    ensures
        r is Ok <==> message@ == TEST_MESSAGE@ && played@ == reference@,
        r matches Err(e) ==> e@ == (if message@ != TEST_MESSAGE@ {
            ErrorView::Audio(
                "selftest: message mismatch: got "@ + debug_text(message@) + ", expected "@ + debug_text(TEST_MESSAGE@),
            )
        } else {
            samples_error(played@, reference@)
        }),
{
    match check_message(message) {
        Err(e) => Err(e),
        Ok(()) => check_samples(played, reference),
    }
}

/// The error when time runs out with `played` of the tone frames played.
fn timed_out_playing(played: usize) -> (e: Error)
    ensures
        e@ == playing_timeout(played as nat),
{
    let mut m = "selftest: timed out playing audio: played ".to_owned();
    put_decimal(&mut m, played as u64);
    put(&mut m, " of ");
    put_decimal(&mut m, TONE_FRAMES as u64);
    put(&mut m, " frames");
    Error::Audio(m)
}

/// Why playing failed with `played` of the tone frames played.
pub open spec fn playing_timeout(played: nat) -> ErrorView {
    ErrorView::Audio(
        "selftest: timed out playing audio: played "@ + decimal(played) + " of "@ + decimal(TONE_FRAMES as nat)
            + " frames"@,
    )
}

/// Whether to await one more frame with `played` of them played; `expired` says that time is up.
pub fn awaits_frame(played: usize, expired: bool) -> (r: Result<bool>)
    ensures
        r is Err <==> played < TONE_FRAMES && expired,
        r matches Ok(more) ==> more == (played < TONE_FRAMES),
        r matches Err(e) ==> e@ == playing_timeout(played as nat),
{
    if played >= TONE_FRAMES {
        return Ok(false);
    }
    if expired {
        return Err(timed_out_playing(played));
    }
    Ok(true)
}

/// The error when time runs out with `have` of `n` samples played.
fn timed_out_waiting(have: usize, n: usize) -> (e: Error)
    ensures
        e@ == waiting_timeout(have as nat, n as nat),
{
    let mut m = "selftest: timed out waiting for playback: have ".to_owned();
    put_decimal(&mut m, have as u64);
    put(&mut m, " of ");
    put_decimal(&mut m, n as u64);
    put(&mut m, " samples");
    Error::Audio(m)
}

/// Why waiting failed with `have` of `n` samples played.
pub open spec fn waiting_timeout(have: nat, n: nat) -> ErrorView {
    ErrorView::Audio(
        "selftest: timed out waiting for playback: have "@ + decimal(have) + " of "@ + decimal(n) + " samples"@,
    )
}

/// Whether to await more samples with `have` of `n` played; `expired` says that time is up.
pub fn awaits_samples(have: usize, n: usize, expired: bool) -> (r: Result<bool>)
    ensures
        r is Err <==> have < n && expired,
        r matches Ok(more) ==> more == (have < n),
        r matches Err(e) ==> e@ == waiting_timeout(have as nat, n as nat),
{
    if have >= n {
        return Ok(false);
    }
    if expired {
        return Err(timed_out_waiting(have, n));
    }
    Ok(true)
}

} // verus!
