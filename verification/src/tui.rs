//! The call screen: key mapping, the talk gesture, and what the screen shows.

use vstd::prelude::*;

use crate::cli::texts;
use crate::config::{Config, SpeedMode};
use crate::crypto::AeadSuite;
use crate::double::{law_doubles_are_close, nearest_double, nearest_double_exec, round_even, round_even_exec};
use crate::proto::PeerInfo;
use crate::text::{decimal, digit, join2, law_decimal_digits, put, put_decimal};

verus! {

/// A UI intent surfaced to the call loop.
#[derive(Debug, Clone, PartialEq, Eq)]
pub enum UiEvent {
    /// Begin capture and signal PTT-start to the peer.
    PttStart,
    /// Stop capture and flush the utterance.
    PttStop,
    /// Seal and send this text line.
    SendText(String),
    /// The line being composed changed (`None` once composing ends).
    Compose(Option<String>),
    /// Hang up gracefully.
    Hangup,
}

/// What a [`UiEvent`] says.
pub enum UiEventView {
    PttStart,
    PttStop,
    SendText(Seq<char>),
    Compose(Option<Seq<char>>),
    Hangup,
}

impl View for UiEvent {
    type V = UiEventView;

    open spec fn view(&self) -> UiEventView {
        match *self {
            UiEvent::PttStart => UiEventView::PttStart,
            UiEvent::PttStop => UiEventView::PttStop,
            UiEvent::SendText(t) => UiEventView::SendText(t@),
            UiEvent::Compose(c) => UiEventView::Compose(crate::cli::opt_text(c)),
            UiEvent::Hangup => UiEventView::Hangup,
        }
    }
}

/// Events by their views.
pub open spec fn event_views(v: Seq<UiEvent>) -> Seq<UiEventView> {
    v.map_values(|e: UiEvent| e@)
}

/// A key, as far as the call screen tells keys apart.
#[derive(Debug, Clone, Copy, PartialEq, Eq, Structural)]
pub enum KeyCode {
    /// A key that types a character.
    Char(char),
    /// Enter.
    Enter,
    /// Backspace.
    Backspace,
    /// Escape.
    Esc,
    /// Any other key.
    Other,
}

/// The modifiers held with a key, as far as the call screen tells them apart.
#[derive(Debug, Clone, Copy, PartialEq, Eq, Structural)]
pub enum KeyModifiers {
    /// No control key.
    Plain,
    /// The control key, alone or with others.
    Control,
}

/// What happened to a key.
#[derive(Debug, Clone, Copy, PartialEq, Eq, Structural)]
pub enum KeyEventKind {
    /// It went down.
    Press,
    /// It is held down.
    Repeat,
    /// It went up.
    Release,
}

/// Compose-mode state threaded through [`map_key`].
#[derive(Debug, Clone, PartialEq, Eq)]
pub struct InputState {
    /// The line being typed, while composing.
    compose: Option<String>,
}

impl View for InputState {
    type V = Option<Seq<char>>;

    closed spec fn view(&self) -> Option<Seq<char>> {
        crate::cli::opt_text(self.compose)
    }
}

impl Default for InputState {
    fn default() -> (s: InputState)
        ensures
            s@ is None,
    {
        InputState { compose: None }
    }
}

impl InputState {
    /// A fresh state in normal (push-to-talk) mode.
    pub fn new() -> (s: InputState)
        ensures
            s@ is None,
    {
        InputState { compose: None }
    }

    /// Whether the user is composing a text line.
    pub fn composing(&self) -> (r: bool)
        ensures
            r == self@ is Some,
    {
        self.compose.is_some()
    }

    /// The line being composed, if any.
    pub fn compose_buffer(&self) -> (r: Option<&str>)
        ensures
            crate::config::opt_view(r) == self@,
    {
        match &self.compose {
            Some(b) => Some(b.as_str()),
            None => None,
        }
    }

    /// A copy of the line being composed, if any.
    fn copy_buffer(&self) -> (r: Option<String>)
        ensures
            crate::cli::opt_text(r) == self@,
    {
        match &self.compose {
            Some(b) => Some(b.clone()),
            None => None,
        }
    }
}

/// Whether a key event is Ctrl-C going down.
pub open spec fn is_ctrl_c(code: KeyCode, modifiers: KeyModifiers, kind: KeyEventKind) -> bool {
    !(kind is Release) && code == KeyCode::Char('c') && modifiers is Control
}

/// The line being composed after a key event.
pub open spec fn compose_after(
    compose: Option<Seq<char>>,
    ptt_key: char,
    code: KeyCode,
    modifiers: KeyModifiers,
    kind: KeyEventKind,
) -> Option<Seq<char>> {
    if is_ctrl_c(code, modifiers, kind) || kind is Release {
        compose
    } else {
        match compose {
            Some(line) => match code {
                KeyCode::Char(c) => Some(line.push(c)),
                KeyCode::Backspace => Some(
                    if line.len() > 0 {
                        line.drop_last()
                    } else {
                        line
                    },
                ),
                KeyCode::Enter => None,
                KeyCode::Esc => None,
                KeyCode::Other => Some(line),
            },
            None => if (code == KeyCode::Char('t') || code == KeyCode::Char('T')) && code != KeyCode::Char(ptt_key)
                && ptt_key != 't' && ptt_key != 'T' {
                Some(Seq::empty())
            } else {
                None
            },
        }
    }
}

/// The events that a key event gives rise to.
pub open spec fn events_of(
    compose: Option<Seq<char>>,
    ptt_key: char,
    code: KeyCode,
    modifiers: KeyModifiers,
    kind: KeyEventKind,
) -> Seq<UiEventView> {
    if is_ctrl_c(code, modifiers, kind) {
        seq![UiEventView::Hangup]
    } else {
        match compose {
            Some(line) => if !(kind is Release) && code is Enter && line.len() > 0 {
                seq![UiEventView::SendText(line)]
            } else {
                Seq::empty()
            },
            None => if code == KeyCode::Char(ptt_key) {
                if kind is Release {
                    seq![UiEventView::PttStop]
                } else {
                    seq![UiEventView::PttStart]
                }
            } else if !(kind is Release) && code == KeyCode::Char('q') {
                seq![UiEventView::Hangup]
            } else {
                Seq::empty()
            },
        }
    }
}

/// Ctrl-C hangs up in every mode, whatever is being composed and whatever the talk key is.
pub proof fn law_ctrl_c_always_hangs_up(compose: Option<Seq<char>>, ptt_key: char, kind: KeyEventKind)
    requires
        !(kind is Release),
    ensures
        events_of(compose, ptt_key, KeyCode::Char('c'), KeyModifiers::Control, kind) == seq![UiEventView::Hangup],
{
}

/// Going up, a key other than the talk key does nothing at all.
pub proof fn law_release_of_other_keys_is_inert(
    compose: Option<Seq<char>>,
    ptt_key: char,
    code: KeyCode,
    modifiers: KeyModifiers,
)
    requires
        code != KeyCode::Char(ptt_key),
    ensures
        events_of(compose, ptt_key, code, modifiers, KeyEventKind::Release) == Seq::<UiEventView>::empty(),
        compose_after(compose, ptt_key, code, modifiers, KeyEventKind::Release) == compose,
{
}

/// While a line is composed the talk key types: it neither starts nor stops talking.
pub proof fn law_no_talking_while_composing(
    line: Seq<char>,
    ptt_key: char,
    code: KeyCode,
    modifiers: KeyModifiers,
    kind: KeyEventKind,
    i: int,
)
    requires
        0 <= i < events_of(Some(line), ptt_key, code, modifiers, kind).len(),
    ensures
        !(events_of(Some(line), ptt_key, code, modifiers, kind)[i] is PttStart),
        !(events_of(Some(line), ptt_key, code, modifiers, kind)[i] is PttStop),
{
}

/// An empty line is never sent.
pub proof fn law_empty_line_is_not_sent(
    compose: Option<Seq<char>>,
    ptt_key: char,
    code: KeyCode,
    modifiers: KeyModifiers,
    kind: KeyEventKind,
    i: int,
)
    requires
        0 <= i < events_of(compose, ptt_key, code, modifiers, kind).len(),
    ensures
        events_of(compose, ptt_key, code, modifiers, kind)[i] matches UiEventView::SendText(t) ==> t.len() > 0,
{
}

/// The line after typing the characters of `text` one by one.
pub open spec fn typed(compose: Option<Seq<char>>, ptt_key: char, text: Seq<char>) -> Option<Seq<char>>
    decreases text.len(),
{
    if text.len() == 0 {
        compose
    } else {
        compose_after(
            typed(compose, ptt_key, text.drop_last()),
            ptt_key,
            KeyCode::Char(text.last()),
            KeyModifiers::Plain,
            KeyEventKind::Press,
        )
    }
}

/// What is typed is what is sent: opening the compose line, typing `text` and pressing Enter sends
/// exactly `text` and closes the line.
pub proof fn law_typed_text_is_sent(ptt_key: char, text: Seq<char>)
    requires
        ptt_key != 't',
        ptt_key != 'T',
        text.len() > 0,
    ensures
        ({
            let opened = compose_after(None, ptt_key, KeyCode::Char('t'), KeyModifiers::Plain, KeyEventKind::Press);
            let line = typed(opened, ptt_key, text);
            &&& events_of(line, ptt_key, KeyCode::Enter, KeyModifiers::Plain, KeyEventKind::Press)
                == seq![UiEventView::SendText(text)]
            &&& compose_after(line, ptt_key, KeyCode::Enter, KeyModifiers::Plain, KeyEventKind::Press) is None
        }),
{
    lemma_typed(Seq::empty(), ptt_key, text);
    assert(Seq::<char>::empty() + text =~= text);
}

proof fn lemma_typed(line: Seq<char>, ptt_key: char, text: Seq<char>)
    ensures
        typed(Some(line), ptt_key, text) == Some(line + text),
    decreases text.len(),
{
    if text.len() == 0 {
        assert(line + text =~= line);
    } else {
        lemma_typed(line, ptt_key, text.drop_last());
        assert((line + text.drop_last()).push(text.last()) =~= line + text);
    }
}

/// In normal mode the talk key talks, `q` hangs up, `t` and `T` open a line, and no other key does
/// anything; a key that is the talk key is nothing else. Modifiers do not matter, but for Ctrl-C.
pub proof fn law_keys_in_normal_mode(ptt_key: char, code: KeyCode, modifiers: KeyModifiers, kind: KeyEventKind)
    requires
        !(code == KeyCode::Char('c') && modifiers is Control && !(kind is Release)),
    ensures
        ({
            let evs = events_of(None, ptt_key, code, modifiers, kind);
            let line = compose_after(None, ptt_key, code, modifiers, kind);
            let opens = (code == KeyCode::Char('t') || code == KeyCode::Char('T')) && ptt_key != 't' && ptt_key != 'T'
                && !(kind is Release);
            &&& code == KeyCode::Char(ptt_key) && kind is Release ==> evs == seq![UiEventView::PttStop]
            &&& code == KeyCode::Char(ptt_key) && !(kind is Release) ==> evs == seq![UiEventView::PttStart]
            &&& code == KeyCode::Char('q') && ptt_key != 'q' && !(kind is Release) ==> evs == seq![UiEventView::Hangup]
            &&& code != KeyCode::Char(ptt_key) && (code != KeyCode::Char('q') || kind is Release) ==> evs.len() == 0
            &&& opens ==> line == Some(Seq::<char>::empty())
            &&& !opens ==> line is None
        }),
{
}

/// In compose mode a character goes behind the line, Backspace takes the last one away, Enter sends
/// the line unless it is empty and closes it, Esc closes it without sending, and no other key does
/// anything; nor does a key that goes up.
pub proof fn law_keys_in_compose_mode(
    line: Seq<char>,
    ptt_key: char,
    code: KeyCode,
    modifiers: KeyModifiers,
    kind: KeyEventKind,
)
    requires
        !(code == KeyCode::Char('c') && modifiers is Control && !(kind is Release)),
    ensures
        ({
            let evs = events_of(Some(line), ptt_key, code, modifiers, kind);
            let after = compose_after(Some(line), ptt_key, code, modifiers, kind);
            &&& kind is Release ==> evs.len() == 0 && after == Some(line)
            &&& !(kind is Release) ==> {
                &&& code matches KeyCode::Char(c) ==> evs.len() == 0 && after == Some(line.push(c))
                &&& code is Backspace && line.len() > 0 ==> evs.len() == 0 && after == Some(line.drop_last())
                &&& code is Backspace && line.len() == 0 ==> evs.len() == 0 && after == Some(line)
                &&& code is Enter && line.len() > 0 ==> evs == seq![UiEventView::SendText(line)] && after is None
                &&& code is Enter && line.len() == 0 ==> evs.len() == 0 && after is None
                &&& code is Esc ==> evs.len() == 0 && after is None
                &&& code is Other ==> evs.len() == 0 && after == Some(line)
            }
        }),
{
}

/// Ctrl-C leaves the line as it is.
pub proof fn law_ctrl_c_keeps_the_line(compose: Option<Seq<char>>, ptt_key: char, kind: KeyEventKind)
    ensures
        compose_after(compose, ptt_key, KeyCode::Char('c'), KeyModifiers::Control, kind) == compose,
{
}

/// Backspace undoes typing: whatever was typed last is gone, and the line is what it was.
pub proof fn law_backspace_undoes_typing(line: Seq<char>, ptt_key: char, c: char)
    ensures
        ({
            let longer = compose_after(
                Some(line),
                ptt_key,
                KeyCode::Char(c),
                KeyModifiers::Plain,
                KeyEventKind::Press,
            );
            compose_after(longer, ptt_key, KeyCode::Backspace, KeyModifiers::Plain, KeyEventKind::Press) == Some(line)
        }),
{
    assert(line.push(c).drop_last() =~= line);
}

fn one_event(e: UiEvent) -> (v: Vec<UiEvent>)
    ensures
        event_views(v@) == seq![e@],
{
    let mut v: Vec<UiEvent> = Vec::new();
    v.push(e);
    assert(event_views(v@) =~= seq![e@]);
    v
}

fn no_events() -> (v: Vec<UiEvent>)
    ensures
        event_views(v@) == Seq::<UiEventView>::empty(),
{
    let v: Vec<UiEvent> = Vec::new();
    assert(event_views(v@) =~= Seq::<UiEventView>::empty());
    v
}

/// Map one key event to zero or more [`UiEvent`]s, advancing the compose state.
///
/// * Normal mode: the talk key starts and stops talking; `t` or `T` opens the compose line, unless
///   it is the talk key; `q` or Ctrl-C hangs up.
/// * Compose mode: characters append, Backspace deletes, Enter sends the line unless it is empty,
///   Esc cancels; Ctrl-C still hangs up.
pub fn map_key(
    state: &mut InputState,
    ptt_key: char,
    code: KeyCode,
    modifiers: KeyModifiers,
    kind: KeyEventKind,
) -> (evs: Vec<UiEvent>)
    ensures
        final(state)@ == compose_after(old(state)@, ptt_key, code, modifiers, kind),
        event_views(evs@) == events_of(old(state)@, ptt_key, code, modifiers, kind),
{
    if kind != KeyEventKind::Release && code == KeyCode::Char('c') && modifiers == KeyModifiers::Control {
        return one_event(UiEvent::Hangup);
    }
    if state.composing() {
        return map_key_compose(state, code, kind);
    }
    map_key_normal(state, ptt_key, code, kind)
}

/// Key mapping in normal mode.
fn map_key_normal(state: &mut InputState, ptt_key: char, code: KeyCode, kind: KeyEventKind) -> (evs: Vec<UiEvent>)
    requires
        old(state)@ is None,
    ensures
        final(state)@ == compose_after(None, ptt_key, code, KeyModifiers::Plain, kind),
        event_views(evs@) == events_of(None, ptt_key, code, KeyModifiers::Plain, kind),
{
    if code == KeyCode::Char(ptt_key) {
        return match kind {
            KeyEventKind::Release => one_event(UiEvent::PttStop),
            _ => one_event(UiEvent::PttStart),
        };
    }
    if kind == KeyEventKind::Release {
        return no_events();
    }
    if (code == KeyCode::Char('t') || code == KeyCode::Char('T')) && ptt_key != 't' && ptt_key != 'T' {
        state.compose = Some(String::new());
        return no_events();
    }
    if code == KeyCode::Char('q') {
        return one_event(UiEvent::Hangup);
    }
    no_events()
}

/// Key mapping while composing a text line.
fn map_key_compose(state: &mut InputState, code: KeyCode, kind: KeyEventKind) -> (evs: Vec<UiEvent>)
    requires
        old(state)@ is Some,
    ensures
        final(state)@ == compose_after(old(state)@, ' ', code, KeyModifiers::Plain, kind),
        event_views(evs@) == events_of(old(state)@, ' ', code, KeyModifiers::Plain, kind),
{
    if kind == KeyEventKind::Release {
        return no_events();
    }
    let mut line = match state.compose.take() {
        Some(l) => l,
        None => String::new(),
    };
    match code {
        KeyCode::Char(c) => {
            line.push(c);
            state.compose = Some(line);
            no_events()
        },
        KeyCode::Backspace => {
            let _ = line.pop();
            state.compose = Some(line);
            no_events()
        },
        KeyCode::Enter => {
            if line.as_str().is_empty() {
                no_events()
            } else {
                one_event(UiEvent::SendText(line))
            }
        },
        KeyCode::Esc => no_events(),
        KeyCode::Other => {
            state.compose = Some(line);
            no_events()
        },
    }
}

/// The keyboard of a call: the compose line, and the talk gesture.
///
/// On a terminal that reports keys going up, the talk key is held to talk. On one that does not, a
/// tap starts talking and the next tap stops.
pub struct Keyboard {
    state: InputState,
    hold: bool,
    talking: bool,
}

/// What a [`Keyboard`] holds.
pub struct KeyboardView {
    pub compose: Option<Seq<char>>,
    pub hold: bool,
    pub talking: bool,
}

impl View for Keyboard {
    type V = KeyboardView;

    closed spec fn view(&self) -> KeyboardView {
        KeyboardView { compose: self.state@, hold: self.hold, talking: self.talking }
    }
}

impl KeyboardView {
    /// What the talk gesture makes of an event: on a terminal without key-up a tap toggles.
    pub open spec fn gesture(self, e: UiEventView) -> Option<UiEventView> {
        if self.hold {
            Some(e)
        } else {
            match e {
                UiEventView::PttStart => if self.talking {
                    Some(UiEventView::PttStop)
                } else {
                    Some(UiEventView::PttStart)
                },
                UiEventView::PttStop => None,
                _ => Some(e),
            }
        }
    }

    /// Whether the user is talking after an event went through the gesture.
    pub open spec fn talking_after(self, e: UiEventView) -> bool {
        match self.gesture(e) {
            Some(UiEventView::PttStart) => true,
            Some(UiEventView::PttStop) => false,
            _ => self.talking,
        }
    }

    /// The keyboard after a key event.
    pub open spec fn after_key(self, ptt_key: char, code: KeyCode, modifiers: KeyModifiers, kind: KeyEventKind) -> KeyboardView {
        let evs = events_of(self.compose, ptt_key, code, modifiers, kind);
        KeyboardView {
            compose: compose_after(self.compose, ptt_key, code, modifiers, kind),
            hold: self.hold,
            talking: if evs.len() > 0 {
                self.talking_after(evs[0])
            } else {
                self.talking
            },
        }
    }

    /// The events that a key event gives rise to: the mapped one through the gesture, and the
    /// compose line if it changed.
    pub open spec fn key_events(
        self,
        ptt_key: char,
        code: KeyCode,
        modifiers: KeyModifiers,
        kind: KeyEventKind,
    ) -> Seq<UiEventView> {
        let evs = events_of(self.compose, ptt_key, code, modifiers, kind);
        let after = compose_after(self.compose, ptt_key, code, modifiers, kind);
        let first = if evs.len() > 0 {
            match self.gesture(evs[0]) {
                Some(e) => seq![e],
                None => Seq::empty(),
            }
        } else {
            Seq::empty()
        };
        if after != self.compose {
            first.push(UiEventView::Compose(after))
        } else {
            first
        }
    }
}

/// At every keyboard, held or tapped, talking or not: Ctrl-C going down hangs up whatever is composed,
/// and so does `q` while no line is composed and it is not the talk key. Neither changes who talks.
pub proof fn law_hanging_up_always_works(k: KeyboardView, ptt_key: char, modifiers: KeyModifiers, kind: KeyEventKind)
    requires
        !(kind is Release),
    ensures
        k.key_events(ptt_key, KeyCode::Char('c'), KeyModifiers::Control, kind) == seq![UiEventView::Hangup],
        k.after_key(ptt_key, KeyCode::Char('c'), KeyModifiers::Control, kind) == k,
        k.compose is None && ptt_key != 'q' ==> k.key_events(ptt_key, KeyCode::Char('q'), modifiers, kind)
            == seq![UiEventView::Hangup],
        k.compose is None && ptt_key != 'q' ==> k.after_key(ptt_key, KeyCode::Char('q'), modifiers, kind) == k,
{
}

/// The talk gesture passes every event other than the start and the stop of talking on unchanged, and
/// on a terminal that reports keys going up it passes these on too.
pub proof fn law_gesture_touches_talking_only(k: KeyboardView, e: UiEventView)
    ensures
        !(e is PttStart) && !(e is PttStop) ==> k.gesture(e) == Some(e) && k.talking_after(e) == k.talking,
        k.hold ==> k.gesture(e) == Some(e),
{
}

/// Held to talk: the talk key going down starts talking, and going up stops it.
pub proof fn law_hold_to_talk(k: KeyboardView, ptt_key: char, modifiers: KeyModifiers, kind: KeyEventKind)
    requires
        k.hold,
        k.compose is None,
        !(ptt_key == 'c' && modifiers is Control && !(kind is Release)),
    ensures
        ({
            let evs = k.key_events(ptt_key, KeyCode::Char(ptt_key), modifiers, kind);
            let after = k.after_key(ptt_key, KeyCode::Char(ptt_key), modifiers, kind);
            &&& kind is Release ==> evs == seq![UiEventView::PttStop] && !after.talking
            &&& !(kind is Release) ==> evs == seq![UiEventView::PttStart] && after.talking
            &&& after == (KeyboardView { talking: after.talking, ..k })
        }),
{
}

/// Tapped to talk: each tap turns talking on or off, and a key going up does nothing.
pub proof fn law_tap_to_talk(k: KeyboardView, ptt_key: char, modifiers: KeyModifiers, kind: KeyEventKind)
    requires
        !k.hold,
        k.compose is None,
        !(ptt_key == 'c' && modifiers is Control && !(kind is Release)),
    ensures
        ({
            let evs = k.key_events(ptt_key, KeyCode::Char(ptt_key), modifiers, kind);
            let after = k.after_key(ptt_key, KeyCode::Char(ptt_key), modifiers, kind);
            &&& kind is Release ==> evs.len() == 0 && after == k
            &&& !(kind is Release) && k.talking ==> evs == seq![UiEventView::PttStop]
            &&& !(kind is Release) && !k.talking ==> evs == seq![UiEventView::PttStart]
            &&& !(kind is Release) ==> after == (KeyboardView { talking: !k.talking, ..k })
        }),
{
}

/// What is typed at a keyboard, held or tapped, talking or not: every change of the line is reported,
/// the line that Enter closes is sent just before, and nothing else happens.
pub proof fn law_keyboard_composes(
    k: KeyboardView,
    line: Seq<char>,
    ptt_key: char,
    code: KeyCode,
    modifiers: KeyModifiers,
    kind: KeyEventKind,
)
    requires
        k.compose == Some(line),
        !(code == KeyCode::Char('c') && modifiers is Control && !(kind is Release)),
    ensures
        ({
            let evs = k.key_events(ptt_key, code, modifiers, kind);
            let after = k.after_key(ptt_key, code, modifiers, kind);
            &&& after.hold == k.hold && after.talking == k.talking
            &&& kind is Release ==> evs.len() == 0 && after == k
            &&& !(kind is Release) ==> {
                &&& code matches KeyCode::Char(c) ==> evs == seq![UiEventView::Compose(Some(line.push(c)))]
                    && after.compose == Some(line.push(c))
                &&& code is Backspace && line.len() > 0 ==> evs == seq![UiEventView::Compose(Some(line.drop_last()))]
                    && after.compose == Some(line.drop_last())
                &&& code is Backspace && line.len() == 0 ==> evs.len() == 0 && after == k
                &&& code is Enter && line.len() > 0 ==> evs == seq![
                    UiEventView::SendText(line),
                    UiEventView::Compose(None),
                ] && after.compose is None
                &&& code is Enter && line.len() == 0 ==> evs == seq![UiEventView::Compose(None)]
                    && after.compose is None
                &&& code is Esc ==> evs == seq![UiEventView::Compose(None)] && after.compose is None
                &&& code is Other ==> evs.len() == 0 && after == k
            }
        }),
{
    if let KeyCode::Char(c) = code {
        assert(line.push(c).len() == line.len() + 1);
        assert(line.push(c) != line);
    }
    if line.len() > 0 {
        assert(line.drop_last().len() == line.len() - 1);
        assert(line.drop_last() != line);
    }
    let evs = k.key_events(ptt_key, code, modifiers, kind);
    assert(Seq::<UiEventView>::empty().push(UiEventView::Compose(None)) =~= seq![UiEventView::Compose(None)]);
    if !(kind is Release) && code is Enter && line.len() > 0 {
        assert(evs =~= seq![UiEventView::SendText(line), UiEventView::Compose(None)]);
    }
}

/// While no line is composed, a key other than the talk key, `q` and Ctrl-C opens a line if it is `t`
/// or `T`, and else does nothing.
pub proof fn law_keyboard_opens_a_line(
    k: KeyboardView,
    ptt_key: char,
    code: KeyCode,
    modifiers: KeyModifiers,
    kind: KeyEventKind,
)
    requires
        k.compose is None,
        !(code == KeyCode::Char('c') && modifiers is Control && !(kind is Release)),
        code != KeyCode::Char(ptt_key),
        code != KeyCode::Char('q') || kind is Release,
    ensures
        ({
            let evs = k.key_events(ptt_key, code, modifiers, kind);
            let after = k.after_key(ptt_key, code, modifiers, kind);
            if (code == KeyCode::Char('t') || code == KeyCode::Char('T')) && ptt_key != 't' && ptt_key != 'T' && !(
            kind is Release) {
                evs == seq![UiEventView::Compose(Some(Seq::<char>::empty()))] && after == (KeyboardView {
                    compose: Some(Seq::empty()),
                    ..k
                })
            } else {
                evs.len() == 0 && after == k
            }
        }),
{
}

/// Who talks is told: talking starts exactly with the event that says so, and stops exactly with the
/// event that says so.
pub proof fn law_talking_is_announced(
    k: KeyboardView,
    ptt_key: char,
    code: KeyCode,
    modifiers: KeyModifiers,
    kind: KeyEventKind,
)
    ensures
        ({
            let evs = k.key_events(ptt_key, code, modifiers, kind);
            let after = k.after_key(ptt_key, code, modifiers, kind);
            &&& after.hold == k.hold
            &&& !k.talking && after.talking ==> evs.contains(UiEventView::PttStart)
            &&& k.talking && !after.talking ==> evs.contains(UiEventView::PttStop)
            &&& evs.contains(UiEventView::PttStart) ==> after.talking
            &&& evs.contains(UiEventView::PttStop) ==> !after.talking
        }),
{
    let evs = k.key_events(ptt_key, code, modifiers, kind);
    if evs.len() > 0 {
        assert(evs.contains(evs[0]));
    }
}

/// On a terminal without key-up, two taps of the talk key start and stop talking.
pub proof fn law_two_taps_start_and_stop(k: KeyboardView, ptt_key: char, modifiers: KeyModifiers)
    requires
        !k.hold,
        !k.talking,
        k.compose is None,
        !is_ctrl_c(KeyCode::Char(ptt_key), modifiers, KeyEventKind::Press),
    ensures
        ({
            let key = KeyCode::Char(ptt_key);
            let first = k.key_events(ptt_key, key, modifiers, KeyEventKind::Press);
            let between = k.after_key(ptt_key, key, modifiers, KeyEventKind::Press);
            let second = between.key_events(ptt_key, key, modifiers, KeyEventKind::Press);
            &&& first == seq![UiEventView::PttStart]
            &&& second == seq![UiEventView::PttStop]
            &&& between.after_key(ptt_key, key, modifiers, KeyEventKind::Press) == k
        }),
{
}

fn same_line(a: &Option<String>, b: &Option<String>) -> (r: bool)
    ensures
        r == (crate::cli::opt_text(*a) == crate::cli::opt_text(*b)),
{
    match a {
        Some(x) => match b {
            Some(y) => crate::text::same_text(x.as_str(), y.as_str()),
            None => false,
        },
        None => b.is_none(),
    }
}

impl Keyboard {
    /// A keyboard at the start of a call; `hold` says whether the terminal reports keys going up.
    pub fn new(hold: bool) -> (k: Keyboard)
        ensures
            k@ == (KeyboardView { compose: None, hold, talking: false }),
    {
        Keyboard { state: InputState::new(), hold, talking: false }
    }

    /// Take one key event.
    pub fn on_key(&mut self, ptt_key: char, code: KeyCode, modifiers: KeyModifiers, kind: KeyEventKind) -> (evs: Vec<
        UiEvent,
    >)
        ensures
            final(self)@ == old(self)@.after_key(ptt_key, code, modifiers, kind),
            event_views(evs@) == old(self)@.key_events(ptt_key, code, modifiers, kind),
            code == KeyCode::Char('c') && modifiers is Control && !(kind is Release) ==> evs@.len() == 1
                && evs@[0] is Hangup,
            code == KeyCode::Char('q') && ptt_key != 'q' && old(self)@.compose is None && !(kind is Release) ==> evs@.len()
                == 1 && evs@[0] is Hangup,
    {
        let before = self.state.copy_buffer();
        let mut mapped = map_key(&mut self.state, ptt_key, code, modifiers, kind);
        let ghost evs = events_of(old(self)@.compose, ptt_key, code, modifiers, kind);
        assert(event_views(mapped@) == evs);
        assert(mapped@.len() == evs.len());
        let mut out: Vec<UiEvent> = Vec::new();
        assert(event_views(out@) =~= Seq::<UiEventView>::empty());
        if mapped.len() > 0 {
            assert(evs[0] == mapped@[0]@);
            let e = mapped.remove(0);
            let passed: Option<UiEvent> = if self.hold {
                Some(e)
            } else {
                match e {
                    UiEvent::PttStart => if self.talking {
                        Some(UiEvent::PttStop)
                    } else {
                        Some(UiEvent::PttStart)
                    },
                    UiEvent::PttStop => None,
                    other => Some(other),
                }
            };
            if let Some(p) = passed {
                match &p {
                    UiEvent::PttStart => {
                        self.talking = true;
                    },
                    UiEvent::PttStop => {
                        self.talking = false;
                    },
                    _ => {},
                }
                let ghost pv = p@;
                out.push(p);
                assert(event_views(out@) =~= seq![pv]);
            }
        }
        let after = self.state.copy_buffer();
        if !same_line(&before, &after) {
            let ghost so_far = event_views(out@);
            let change = UiEvent::Compose(after);
            let ghost cv = change@;
            out.push(change);
            assert(event_views(out@) =~= so_far.push(cv));
        }
        proof {
            if !(kind is Release) {
                law_hanging_up_always_works(old(self)@, ptt_key, modifiers, kind);
            }
            if out@.len() > 0 {
                assert(event_views(out@)[0] == out@[0]@);
            }
            assert(event_views(out@).len() == out@.len());
        }
        out
    }
}

/// Whether an event ends the input loop.
pub fn ends_input(e: &UiEvent) -> (r: bool)
    ensures
        r == (e@ is Hangup),
{
    match e {
        UiEvent::Hangup => true,
        _ => false,
    }
}

/// A render snapshot of the call screen.
#[derive(Debug, Clone)]
pub struct CallScreen {
    /// Our own onion address.
    pub local_onion: String,
    /// The peer's onion address.
    pub remote_onion: String,
    /// Whether our suite matched the peer's.
    pub suite_match: bool,
    /// Human label of the negotiated AEAD suite.
    pub suite_label: String,
    /// Human label of the hop and anonymity posture.
    pub hop_mode: String,
    /// Whether the remote is transmitting.
    pub remote_ptt: bool,
    /// Whether we are transmitting.
    pub local_ptt: bool,
    /// One-way latency estimate in milliseconds (0 until measured).
    pub latency_ms: u32,
    /// Bytes sent so far this call.
    pub bytes_sent: u64,
    /// Bytes received so far this call.
    pub bytes_recv: u64,
    /// Whether the user is composing a text line.
    pub composing: bool,
    /// The line being composed.
    pub compose_buffer: String,
    /// Text messages, oldest first.
    pub messages: Vec<String>,
    /// Whether the talk key is held to talk (else tapped).
    pub ptt_hold: bool,
}

/// What a [`CallScreen`] holds.
#[verifier::ext_equal]
pub struct ScreenView {
    pub local_onion: Seq<char>,
    pub remote_onion: Seq<char>,
    pub suite_match: bool,
    pub suite_label: Seq<char>,
    pub hop_mode: Seq<char>,
    pub remote_ptt: bool,
    pub local_ptt: bool,
    pub latency_ms: u32,
    pub bytes_sent: u64,
    pub bytes_recv: u64,
    pub composing: bool,
    pub compose_buffer: Seq<char>,
    pub messages: Seq<Seq<char>>,
    pub ptt_hold: bool,
}

impl View for CallScreen {
    type V = ScreenView;

    open spec fn view(&self) -> ScreenView {
        ScreenView {
            local_onion: self.local_onion@,
            remote_onion: self.remote_onion@,
            suite_match: self.suite_match,
            suite_label: self.suite_label@,
            hop_mode: self.hop_mode@,
            remote_ptt: self.remote_ptt,
            local_ptt: self.local_ptt,
            latency_ms: self.latency_ms,
            bytes_sent: self.bytes_sent,
            bytes_recv: self.bytes_recv,
            composing: self.composing,
            compose_buffer: self.compose_buffer@,
            messages: texts(self.messages@),
            ptt_hold: self.ptt_hold,
        }
    }
}

impl ScreenView {
    /// The screen before anything is known.
    pub open spec fn blank() -> ScreenView {
        ScreenView {
            local_onion: Seq::empty(),
            remote_onion: Seq::empty(),
            suite_match: true,
            suite_label: Seq::empty(),
            hop_mode: Seq::empty(),
            remote_ptt: false,
            local_ptt: false,
            latency_ms: 0,
            bytes_sent: 0,
            bytes_recv: 0,
            composing: false,
            compose_buffer: Seq::empty(),
            messages: Seq::empty(),
            ptt_hold: true,
        }
    }
}

impl Default for CallScreen {
    fn default() -> (s: CallScreen)
        ensures
            s@ == ScreenView::blank(),
    {
        let s = CallScreen {
            local_onion: String::new(),
            remote_onion: String::new(),
            suite_match: true,
            suite_label: String::new(),
            hop_mode: String::new(),
            remote_ptt: false,
            local_ptt: false,
            latency_ms: 0,
            bytes_sent: 0,
            bytes_recv: 0,
            composing: false,
            compose_buffer: String::new(),
            messages: Vec::new(),
            ptt_hold: true,
        };
        assert(texts(s.messages@) =~= Seq::<Seq<char>>::empty());
        s
    }
}

/// Human label of an AEAD suite.
pub open spec fn suite_text(suite: AeadSuite) -> Seq<char> {
    match suite {
        AeadSuite::Aes256Gcm => "AES-256-GCM"@,
        AeadSuite::ChaCha20Poly1305 => "ChaCha20-Poly1305"@,
    }
}

/// Human label of a posture.
pub open spec fn hop_text(mode: SpeedMode) -> Seq<char> {
    match mode {
        SpeedMode::FullAnonymity => "full anonymity (3+3)"@,
        SpeedMode::SpeedFirst => "speed-first (reduced hops)"@,
        SpeedMode::SingleHopService => "single-hop service (IP-revealing!)"@,
    }
}

/// Human-readable AEAD suite label for the header.
pub fn suite_label(suite: AeadSuite) -> (s: String)
    ensures
        s@ == suite_text(suite),
        suite is Aes256Gcm ==> s@ == "AES-256-GCM"@,
        suite is ChaCha20Poly1305 ==> s@ == "ChaCha20-Poly1305"@,
{
    match suite {
        AeadSuite::Aes256Gcm => "AES-256-GCM".to_owned(),
        AeadSuite::ChaCha20Poly1305 => "ChaCha20-Poly1305".to_owned(),
    }
}

/// Human-readable hop and anonymity label from the configuration.
pub fn hop_mode_label(cfg: &Config) -> (s: String)
    ensures
        s@ == hop_text(cfg.speed_mode),
        cfg.speed_mode is FullAnonymity ==> s@ == "full anonymity (3+3)"@,
        cfg.speed_mode is SpeedFirst ==> s@ == "speed-first (reduced hops)"@,
        cfg.speed_mode is SingleHopService ==> s@ == "single-hop service (IP-revealing!)"@,
{
    match cfg.speed_mode {
        SpeedMode::FullAnonymity => "full anonymity (3+3)".to_owned(),
        SpeedMode::SpeedFirst => "speed-first (reduced hops)".to_owned(),
        SpeedMode::SingleHopService => "single-hop service (IP-revealing!)".to_owned(),
    }
}

impl CallScreen {
    /// Seed a screen from the configuration, our address and what the handshake learned; the rest
    /// starts blank.
    pub fn from_peer(cfg: &Config, local_onion: &str, peer: &PeerInfo) -> (s: CallScreen)
        ensures
            s@ == (ScreenView {
                local_onion: local_onion@,
                remote_onion: peer.onion@,
                suite_match: cfg.aead_suite == peer.suite,
                suite_label: suite_text(peer.suite),
                hop_mode: hop_text(cfg.speed_mode),
                ..ScreenView::blank()
            }),
            s.local_onion@ == local_onion@ && s.remote_onion@ == peer.onion.0@,
            s.suite_match == (cfg.aead_suite == peer.suite),
            !s.local_ptt && !s.remote_ptt && !s.composing && s.ptt_hold,
            s.bytes_sent == 0 && s.bytes_recv == 0 && s.latency_ms == 0,
            s.messages@.len() == 0 && s.compose_buffer@.len() == 0,
    {
        let s = CallScreen {
            local_onion: local_onion.to_owned(),
            remote_onion: peer.onion.host().to_owned(),
            suite_match: cfg.aead_suite == peer.suite,
            suite_label: suite_label(peer.suite),
            hop_mode: hop_mode_label(cfg),
            ..CallScreen::default()
        };
        assert(texts(s.messages@).len() == s.messages@.len());
        s
    }
}

/// `t` tenths with one decimal place.
pub open spec fn tenths_text(t: nat) -> Seq<char> {
    decimal(t / 10) + "."@ + seq![digit(t % 10)]
}

/// A byte count as shown: plain up to 1023, then in KiB or MiB to one decimal place.
pub open spec fn bytes_text(n: u64) -> Seq<char> {
    if n >= 0x10_0000 {
        tenths_text(round_even(nearest_double(n as nat) * 10, 0x10_0000)) + " MiB"@
    } else if n >= 0x400 {
        tenths_text(round_even(n as nat * 10, 0x400)) + " KiB"@
    } else {
        decimal(n as nat) + " B"@
    }
}

/// A byte count is shown as it is below 1 KiB. Above, it is shown in KiB, or from 1 MiB on in MiB, with
/// one decimal place, and is at most half a unit of that place off. From 2^53 bytes on it may be off by
/// one part in 2^53 more.
pub proof fn law_byte_counts_are_rounded(n: u64)
    ensures
        n < 0x400 ==> bytes_text(n) == decimal(n as nat) + " B"@,
        0x400 <= n < 0x10_0000 ==> exists|t: nat| #[trigger]
            tenths_text(t) + " KiB"@ == bytes_text(n) && -512 <= t * 0x400 - n * 10 <= 512,
        0x10_0000 <= n ==> exists|t: nat| #[trigger]
            tenths_text(t) + " MiB"@ == bytes_text(n) && (n < 0x20_0000_0000_0000 ==> -0x8_0000 <= t * 0x10_0000 - n * 10
                <= 0x8_0000) && -0x8_5000 <= t * 0x10_0000 - n * 10 <= 0x8_5000,
{
    law_doubles_are_close(n as nat);
    if 0x400 <= n < 0x10_0000 {
        let t = round_even(n as nat * 10, 0x400);
        assert(tenths_text(t) + " KiB"@ == bytes_text(n) && -512 <= t * 0x400 - n * 10 <= 512);
    } else if 0x10_0000 <= n {
        let t = round_even(nearest_double(n as nat) * 10, 0x10_0000);
        assert(tenths_text(t) + " MiB"@ == bytes_text(n));
    }
}

/// Tenths are shown as the whole part, a point and one digit.
pub proof fn law_tenths_have_one_place(t: nat)
    ensures
        tenths_text(t).len() >= 3,
        tenths_text(t).take(tenths_text(t).len() - 2) == decimal(t / 10),
        tenths_text(t)[tenths_text(t).len() - 2] == '.',
        tenths_text(t).last() as u32 == 0x30 + t % 10,
{
    reveal_strlit(".");
    law_decimal_digits(t / 10);
    assert(tenths_text(t).take(tenths_text(t).len() - 2) =~= decimal(t / 10));
}

fn put_tenths(s: &mut String, t: u64)
    ensures
        final(s)@ == old(s)@ + tenths_text(t as nat),
{
    put_decimal(s, t / 10);
    put(s, ".");
    let d: u64 = t % 10;
    assert(decimal(d as nat) =~= seq![digit(d as nat)]);
    put_decimal(s, d);
    assert(s@ =~= old(s)@ + tenths_text(t as nat));
}

/// Compact human-readable byte count for the stats line.
pub fn human_bytes(n: u64) -> (s: String)
    ensures
        s@ == bytes_text(n),
{
    let mut s = String::new();
    if n >= 0x10_0000 {
        let near: u128 = nearest_double_exec(n as u128);
        let t: u128 = round_even_exec(near * 10, 0x10_0000);
        put_tenths(&mut s, t as u64);
        put(&mut s, " MiB");
        assert(s@ =~= bytes_text(n));
    } else if n >= 0x400 {
        let t: u128 = round_even_exec(n as u128 * 10, 0x400);
        put_tenths(&mut s, t as u64);
        put(&mut s, " KiB");
        assert(s@ =~= bytes_text(n));
    } else {
        put_decimal(&mut s, n);
        put(&mut s, " B");
        assert(s@ =~= bytes_text(n));
    }
    s
}

/// A rule of `n` dashes.
pub open spec fn rule(n: nat) -> Seq<char> {
    Seq::new(n, |i: int| '\u{2500}')
}

fn rule_of(n: usize) -> (s: String)
    ensures
        s@ == rule(n as nat),
{
    let mut s = String::new();
    let mut i: usize = 0;
    while i < n
        invariant
            i <= n,
            s@ == rule(i as nat),
        decreases n - i,
    {
        s.push('\u{2500}');
        i = i + 1;
        assert(s@ =~= rule(i as nat));
    }
    s
}

impl ScreenView {
    /// The fixed lines at the top of the screen.
    pub open spec fn header(self) -> Seq<Seq<char>> {
        seq![
            "TerminalPhone \u{2014} secure push-to-talk"@,
            "you   : "@ + self.local_onion,
            "peer  : "@ + self.remote_onion,
            "cipher: "@ + self.suite_label + " ["@ + (if self.suite_match {
                "OK"@
            } else {
                "MISMATCH"@
            }) + "]   hops: "@ + self.hop_mode,
            "stats : "@ + decimal(self.latency_ms as nat) + " ms   tx "@ + bytes_text(self.bytes_sent) + "   rx "@
                + bytes_text(self.bytes_recv),
            "ptt   : local "@ + (if self.local_ptt {
                "[REC]"@
            } else {
                " --- "@
            }) + "   remote "@ + (if self.remote_ptt {
                "[RECORDING]"@
            } else {
                "  idle     "@
            }),
            rule(60),
        ]
    }

    /// The line at the bottom: the line being composed, or the key hints.
    pub open spec fn footer(self) -> Seq<char> {
        if self.composing {
            "msg> "@ + self.compose_buffer
        } else if self.ptt_hold {
            "[hold PTT key = talk]   [t = text]   [q / Ctrl-C = hangup]"@
        } else {
            "[tap PTT key = talk]   [t = text]   [q / Ctrl-C = hangup]"@
        }
    }

    /// The newest messages that fit on a screen of `rows` rows between header and footer.
    pub open spec fn shown(self, rows: nat) -> Seq<Seq<char>> {
        let room = if rows > 9 {
            (rows - 9) as nat
        } else {
            0
        };
        if self.messages.len() <= room {
            self.messages
        } else {
            self.messages.skip(self.messages.len() - room)
        }
    }

    /// The screen, line by line: header, messages, an empty line, footer.
    pub open spec fn lines(self, rows: nat) -> Seq<Seq<char>> {
        self.header() + self.shown(rows) + seq![Seq::<char>::empty(), self.footer()]
    }
}

/// What stands on each line of the screen: title, both addresses, cipher and hops, the counters, who
/// talks, a rule of 60 dashes, and then the messages, an empty line and the footer.
pub proof fn law_screen_shows_the_call(s: ScreenView, rows: nat)
    ensures
        ({
            let l = s.lines(rows);
            let n = l.len();
            &&& n >= 9
            &&& l[0] == "TerminalPhone \u{2014} secure push-to-talk"@
            &&& l[1] == "you   : "@ + s.local_onion
            &&& l[2] == "peer  : "@ + s.remote_onion
            &&& s.suite_match ==> l[3] == "cipher: "@ + s.suite_label + " ["@ + "OK"@ + "]   hops: "@ + s.hop_mode
            &&& !s.suite_match ==> l[3] == "cipher: "@ + s.suite_label + " ["@ + "MISMATCH"@ + "]   hops: "@ + s.hop_mode
            &&& l[4] == "stats : "@ + decimal(s.latency_ms as nat) + " ms   tx "@ + bytes_text(s.bytes_sent) + "   rx "@
                + bytes_text(s.bytes_recv)
            &&& s.local_ptt && s.remote_ptt ==> l[5] == "ptt   : local "@ + "[REC]"@ + "   remote "@ + "[RECORDING]"@
            &&& s.local_ptt && !s.remote_ptt ==> l[5] == "ptt   : local "@ + "[REC]"@ + "   remote "@ + "  idle     "@
            &&& !s.local_ptt && s.remote_ptt ==> l[5] == "ptt   : local "@ + " --- "@ + "   remote "@ + "[RECORDING]"@
            &&& !s.local_ptt && !s.remote_ptt ==> l[5] == "ptt   : local "@ + " --- "@ + "   remote "@
                + "  idle     "@
            &&& l[6].len() == 60
            &&& forall|i: int| 0 <= i < 60 ==> #[trigger] l[6][i] == '\u{2500}'
            &&& l[n - 2].len() == 0
            &&& s.composing ==> l[n - 1] == "msg> "@ + s.compose_buffer
            &&& !s.composing && s.ptt_hold ==> l[n - 1]
                == "[hold PTT key = talk]   [t = text]   [q / Ctrl-C = hangup]"@
            &&& !s.composing && !s.ptt_hold ==> l[n - 1]
                == "[tap PTT key = talk]   [t = text]   [q / Ctrl-C = hangup]"@
        }),
{
}

/// The messages on the screen are the newest ones, in order: all of them if there is room, else as many
/// as fit beside the nine other lines.
pub proof fn law_screen_shows_the_newest_messages(s: ScreenView, rows: nat, i: int)
    requires
        0 <= i < s.lines(rows).len() - 9,
    ensures
        ({
            let shown = s.lines(rows).len() - 9;
            &&& shown <= s.messages.len()
            &&& s.lines(rows)[7 + i] == s.messages[s.messages.len() - shown + i]
        }),
{
}

/// No message is left out while there is room for it.
pub proof fn law_screen_uses_its_room(s: ScreenView, rows: nat)
    ensures
        rows >= 9 + s.messages.len() ==> s.lines(rows).len() == 9 + s.messages.len(),
        9 <= rows < 9 + s.messages.len() ==> s.lines(rows).len() == rows,
        rows < 9 ==> s.lines(rows).len() == 9,
{
}

/// The screen never takes more rows than the terminal has, given at least nine.
pub proof fn law_screen_fits(s: ScreenView, rows: nat)
    requires
        rows >= 9,
    ensures
        s.lines(rows).len() <= rows,
{
}

/// The lines to paint for `s` on a terminal of `rows` rows, from the top.
pub fn render_screen(s: &CallScreen, rows: usize) -> (lines: Vec<String>)
    ensures
        texts(lines@) == s@.lines(rows as nat),
{
    let title = "TerminalPhone \u{2014} secure push-to-talk".to_owned();
    let you = join2("you   : ", s.local_onion.as_str());
    let peer = join2("peer  : ", s.remote_onion.as_str());
    let mut cipher = join2("cipher: ", s.suite_label.as_str());
    put(&mut cipher, " [");
    put(
        &mut cipher,
        if s.suite_match {
            "OK"
        } else {
            "MISMATCH"
        },
    );
    put(&mut cipher, "]   hops: ");
    put(&mut cipher, s.hop_mode.as_str());
    let mut stats = "stats : ".to_owned();
    put_decimal(&mut stats, s.latency_ms as u64);
    put(&mut stats, " ms   tx ");
    put(&mut stats, human_bytes(s.bytes_sent).as_str());
    put(&mut stats, "   rx ");
    put(&mut stats, human_bytes(s.bytes_recv).as_str());
    let mut ptt = "ptt   : local ".to_owned();
    put(
        &mut ptt,
        if s.local_ptt {
            "[REC]"
        } else {
            " --- "
        },
    );
    put(&mut ptt, "   remote ");
    put(
        &mut ptt,
        if s.remote_ptt {
            "[RECORDING]"
        } else {
            "  idle     "
        },
    );
    let bar = rule_of(60);
    let footer = if s.composing {
        join2("msg> ", s.compose_buffer.as_str())
    } else if s.ptt_hold {
        "[hold PTT key = talk]   [t = text]   [q / Ctrl-C = hangup]".to_owned()
    } else {
        "[tap PTT key = talk]   [t = text]   [q / Ctrl-C = hangup]".to_owned()
    };
    let room: usize = if rows > 9 {
        rows - 9
    } else {
        0
    };
    let from: usize = if s.messages.len() <= room {
        0
    } else {
        s.messages.len() - room
    };
    let ghost fv = footer@;
    let mut lines: Vec<String> = Vec::new();
    lines.push(title);
    lines.push(you);
    lines.push(peer);
    lines.push(cipher);
    lines.push(stats);
    lines.push(ptt);
    lines.push(bar);
    assert(texts(lines@) =~= s@.header());
    assert(s@.header() + s@.messages.subrange(from as int, from as int) =~= s@.header());
    let mut i: usize = from;
    while i < s.messages.len()
        invariant
            from <= i <= s.messages@.len(),
            texts(lines@) == s@.header() + s@.messages.subrange(from as int, i as int),
        decreases s.messages@.len() - i,
    {
        let ghost before = lines@;
        lines.push(s.messages[i].clone());
        i = i + 1;
        proof {
            let m = s.messages@[i - 1]@;
            assert(s@.messages[i - 1] == m);
            assert(texts(lines@) =~= texts(before).push(m));
            assert(s@.header() + s@.messages.subrange(from as int, i as int) =~= (s@.header() + s@.messages.subrange(
                from as int,
                i - 1,
            )).push(m));
        }
    }
    assert(s@.messages.subrange(from as int, s@.messages.len() as int) =~= s@.shown(rows as nat));
    let ghost before = lines@;
    lines.push(String::new());
    lines.push(footer);
    assert(texts(lines@) =~= texts(before) + seq![Seq::<char>::empty(), fv]);
    assert(texts(lines@) =~= s@.lines(rows as nat));
    lines
}

} // verus!
