//! Onion addresses, transport settings, and the rules on which streams and postures are allowed.

use std::collections::VecDeque;
use vstd::prelude::*;
use vstd::utf8::*;

use crate::config::SpeedMode;
use crate::error::{outcome, Error, ErrorView, Result};
use crate::text::{
    is_space, join2, law_trim_end_is_exact, law_trimmed_is_exact, lossy_text, text_from_utf8,
    text_from_utf8_lossy, trim, trim_end, trim_end_of, trimmed,
};

verus! {

/// Default of the application port carried inside the onion circuit.
pub const APP_PORT: u16 = 7777;

/// A remote onion address to dial (e.g. `abc…xyz.onion`).
#[derive(Debug, PartialEq, Eq)]
pub struct OnionAddr(pub String);

impl View for OnionAddr {
    type V = Seq<char>;

    open spec fn view(&self) -> Seq<char> {
        self.0@
    }
}

impl Clone for OnionAddr {
    fn clone(&self) -> (r: OnionAddr)
        ensures
            r == *self,
    {
        OnionAddr(self.0.clone())
    }
}

/// The address that user input denotes: without surrounding white space, and then without
/// trailing slashes.
pub open spec fn onion_of(input: Seq<char>) -> Seq<char> {
    trim_end(trimmed(input), |c: char| c == '/')
}

impl OnionAddr {
    /// Construct from a user-supplied string, trimming white space and trailing slashes. Every
    /// string is accepted.
    pub fn parse(s: &str) -> (r: Result<OnionAddr>)
        ensures
            outcome(r) == Ok::<Seq<char>, ErrorView>(onion_of(s@)),
    {
        let inner = trim(s);
        let bare = trim_end_of(inner.as_str(), '/', '/');
        assert((|c: char| c == '/' || c == '/') =~= (|c: char| c == '/'));
        Ok(OnionAddr(bare))
    }

    /// The bare host portion (no port).
    pub fn host(&self) -> (s: &str)
        ensures
            s@ == self@,
    {
        self.0.as_str()
    }
}

/// The address that input denotes is one piece of it: no white space in front, nothing in front but white
/// space, no slash at its end, and nothing behind but slashes and then white space.
pub proof fn law_address_is_the_bare_host(input: Seq<char>)
    ensures
        exists|from: int, to: int, end: int|
            #![trigger input.subrange(from, to), input.subrange(to, end)]
            0 <= from <= to <= end <= input.len() && onion_of(input) == input.subrange(from, to) && (from < to
                ==> !is_space(input[from]) && input[to - 1] != '/') && (forall|i: int|
                0 <= i < from || end <= i < input.len() ==> is_space(input[i])) && (forall|i: int|
                to <= i < end ==> input[i] == '/'),
{
    law_trimmed_is_exact(input);
    let (from, end) = choose|from: int, end: int|
        0 <= from <= end <= input.len() && trimmed(input) == #[trigger] input.subrange(from, end) && (from < end
            ==> !is_space(input[from]) && !is_space(input[end - 1])) && (forall|i: int|
            (0 <= i < from || end <= i < input.len()) ==> is_space(input[i]));
    let inner = trimmed(input);
    let slash = |c: char| c == '/';
    law_trim_end_is_exact(inner, slash);
    let t = trim_end(inner, slash);
    let to = from + t.len();
    assert(onion_of(input) == t);
    assert(t =~= input.subrange(from, to));
    if from < to {
        assert(t.last() == input[to - 1]);
        assert(!slash(t.last()));
    }
    assert forall|i: int| to <= i < end implies input[i] == '/' by {
        assert(inner[i - from] == input[i]);
        assert(slash(inner[i - from]));
    }
    let tail = input.subrange(to, end);
    assert(0 <= from <= to <= end <= input.len() && onion_of(input) == input.subrange(from, to));
}

/// Parsing an address that was already parsed and has no white space left at its end changes
/// nothing.
pub proof fn law_parsed_address_is_stable(input: Seq<char>)
    requires
        trimmed(onion_of(input)) == onion_of(input),
    ensures
        onion_of(onion_of(input)) == onion_of(input),
{
    lemma_trim_end_stable(trimmed(input), |c: char| c == '/');
}

proof fn lemma_trim_end_stable(s: Seq<char>, drop: spec_fn(char) -> bool)
    ensures
        trim_end(trim_end(s, drop), drop) == trim_end(s, drop),
    decreases s.len(),
{
    if s.len() > 0 && drop(s.last()) {
        lemma_trim_end_stable(s.drop_last(), drop);
    }
}

/// Our long-term onion-service identity.
#[derive(Debug, Clone)]
pub struct Identity {
    /// Directory holding the key material.
    pub key_dir: String,
    /// Onion-service nickname.
    pub nickname: String,
}

/// Transport-layer settings projected from [`crate::config::Config`].
#[derive(Debug, Clone)]
pub struct TorConfig {
    /// Hop and speed posture.
    pub speed_mode: SpeedMode,
    /// Directory cache path.
    pub cache_dir: String,
    /// State path.
    pub state_dir: String,
    /// Application port carried inside the onion circuit.
    pub app_port: u16,
}

/// Whether an inbound stream that asks for `port` is accepted where `app_port` is configured. All
/// others are turned away.
pub fn accepts_port(port: u16, app_port: u16) -> (r: bool)
    ensures
        r == (port == app_port),
{
    port == app_port
}

/// The reason given when hosting is refused.
pub open spec fn hosting_refusal() -> Seq<char> {
    "hosting is refused in single_hop_service mode: it would reveal the host's IP address"@
}

/// Whether a posture may host an onion service: the IP-revealing one may not.
pub fn check_hosting(mode: SpeedMode) -> (r: Result<()>)
    ensures
        mode is SingleHopService <==> r is Err,
        r matches Err(e) ==> e@ == ErrorView::Transport(hosting_refusal()),
        r matches Err(e) ==> e@ == ErrorView::Transport(
            "hosting is refused in single_hop_service mode: it would reveal the host's IP address"@,
        ),
{
    match mode {
        SpeedMode::SingleHopService => Err(
            Error::Transport(
                "hosting is refused in single_hop_service mode: it would reveal the host's IP address".to_owned(),
            ),
        ),
        _ => Ok(()),
    }
}

/// Whether a posture needs an explicit warning and a confirmation before it is used.
pub fn needs_confirmation(mode: SpeedMode) -> (r: bool)
    ensures
        r == (mode is SingleHopService),
{
    match mode {
        SpeedMode::SingleHopService => true,
        _ => false,
    }
}

/// Render a path, given as its raw bytes, as a string. A path that is not UTF-8 is rejected rather
/// than transcoded.
pub fn path_to_string(path: &[u8]) -> (r: Result<String>)
    ensures
        valid_utf8(path@) ==> (r matches Ok(s) && encode_utf8(s@) == path@),
        !valid_utf8(path@) ==> (r matches Err(e) && e@ == ErrorView::Transport(
            "non-UTF-8 path in TorConfig: "@ + lossy_text(path@),
        )),
{
    match text_from_utf8(path) {
        Some(s) => Ok(s),
        None => {
            let shown = text_from_utf8_lossy(path);
            Err(Error::Transport(join2("non-UTF-8 path in TorConfig: ", shown.as_str())))
        },
    }
}

/// Bytes that arrived in chunks and wait to be read: the receiving half of an in-memory pipe.
#[derive(Debug)]
pub struct ReadBuffer {
    leftover: VecDeque<u8>,
}

impl View for ReadBuffer {
    type V = Seq<u8>;

    closed spec fn view(&self) -> Seq<u8> {
        self.leftover@
    }
}

impl ReadBuffer {
    /// An empty buffer.
    pub fn new() -> (b: ReadBuffer)
        ensures
            b@ == Seq::<u8>::empty(),
    {
        ReadBuffer { leftover: VecDeque::new() }
    }

    /// Whether a chunk has to be awaited before anything can be read.
    pub fn is_empty(&self) -> (r: bool)
        ensures
            r == (self@.len() == 0),
    {
        self.leftover.len() == 0
    }

    /// Take a chunk that arrived.
    pub fn refill(&mut self, chunk: &[u8])
        ensures
            final(self)@ == old(self)@ + chunk@,
    {
        let mut i: usize = 0;
        assert(self@ =~= old(self)@ + chunk@.take(0));
        while i < chunk.len()
            invariant
                i <= chunk@.len(),
                self@ == old(self)@ + chunk@.take(i as int),
            decreases chunk@.len() - i,
        {
            self.leftover.push_back(chunk[i]);
            i = i + 1;
            assert(self@ =~= old(self)@ + chunk@.take(i as int));
        }
        assert(chunk@.take(chunk@.len() as int) =~= chunk@);
    }

    /// Read as much as fits into `buf`; what does not fit stays. The bytes behind those that were read
    /// keep their values.
    pub fn read(&mut self, buf: &mut [u8]) -> (n: usize)
        ensures
            n == (if old(self)@.len() < old(buf)@.len() {
                old(self)@.len()
            } else {
                old(buf)@.len()
            }),
            final(self)@ == old(self)@.skip(n as int),
            final(buf)@ == old(self)@.take(n as int) + old(buf)@.skip(n as int),
    {
        let n: usize = if self.leftover.len() < buf.len() {
            self.leftover.len()
        } else {
            buf.len()
        };
        let mut i: usize = 0;
        while i < n
            invariant
                i <= n <= old(self)@.len(),
                n <= buf@.len(),
                buf@.len() == old(buf)@.len(),
                self@ == old(self)@.skip(i as int),
                forall|k: int| 0 <= k < i ==> buf@[k] == old(self)@[k],
                forall|k: int| i <= k < buf@.len() ==> buf@[k] == old(buf)@[k],
            decreases n - i,
        {
            if let Some(b) = self.leftover.pop_front() {
                buf[i] = b;
            }
            i = i + 1;
            assert(self@ =~= old(self)@.skip(i as int));
        }
        assert(buf@ =~= old(self)@.take(n as int) + old(buf)@.skip(n as int));
        n
    }
}

} // verus!
