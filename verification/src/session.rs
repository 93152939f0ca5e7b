//! The interactive call: what each event of the user, the peer or the call does to the screen, and
//! what it makes the program do.

use vstd::prelude::*;

use crate::app::{CallEvent, CallStats};
use crate::cli::texts;
use crate::text::join2;
use crate::tui::{CallScreen, ScreenView, UiEvent, UiEventView};

verus! {

/// The number of text messages kept.
pub const MAX_MESSAGES: usize = 100;

/// Something that the interactive call reacts to.
#[derive(Debug, Clone)]
pub enum SessionEvent {
    /// The user did something.
    Ui(UiEvent),
    /// No more input comes.
    InputClosed,
    /// Capture was started, as asked for.
    CaptureStarted,
    /// Capture could not be started.
    CaptureFailed,
    /// The peer sent a text message.
    PeerText(String),
    /// The call core reports something.
    Call(CallEvent),
    /// The byte counters, looked at now and then.
    Stats(CallStats),
    /// The call core has finished.
    CallFinished,
}

/// What a [`SessionEvent`] says.
pub enum SessionEventView {
    Ui(UiEventView),
    InputClosed,
    CaptureStarted,
    CaptureFailed,
    PeerText(Seq<char>),
    Call(CallEvent),
    Stats(CallStats),
    CallFinished,
}

impl View for SessionEvent {
    type V = SessionEventView;

    open spec fn view(&self) -> SessionEventView {
        match *self {
            SessionEvent::Ui(e) => SessionEventView::Ui(e@),
            SessionEvent::InputClosed => SessionEventView::InputClosed,
            SessionEvent::CaptureStarted => SessionEventView::CaptureStarted,
            SessionEvent::CaptureFailed => SessionEventView::CaptureFailed,
            SessionEvent::PeerText(t) => SessionEventView::PeerText(t@),
            SessionEvent::Call(e) => SessionEventView::Call(e),
            SessionEvent::Stats(s) => SessionEventView::Stats(s),
            SessionEvent::CallFinished => SessionEventView::CallFinished,
        }
    }
}

/// What the program does about an event.
#[derive(Debug, Clone)]
pub enum SessionAction {
    /// Nothing.
    Nothing,
    /// Start capture and report how that went.
    StartCapture,
    /// Tell the peer that we talk.
    AnnounceTalking,
    /// Stop capture and tell the peer that we do not talk any more.
    StopCapture,
    /// Send this text.
    SendText(String),
    /// Ask the call core to hang up, and leave.
    Hangup,
    /// Leave.
    Leave,
}

/// What a [`SessionAction`] says.
pub enum SessionActionView {
    Nothing,
    StartCapture,
    AnnounceTalking,
    StopCapture,
    SendText(Seq<char>),
    Hangup,
    Leave,
}

impl View for SessionAction {
    type V = SessionActionView;

    open spec fn view(&self) -> SessionActionView {
        match *self {
            SessionAction::Nothing => SessionActionView::Nothing,
            SessionAction::StartCapture => SessionActionView::StartCapture,
            SessionAction::AnnounceTalking => SessionActionView::AnnounceTalking,
            SessionAction::StopCapture => SessionActionView::StopCapture,
            SessionAction::SendText(t) => SessionActionView::SendText(t@),
            SessionAction::Hangup => SessionActionView::Hangup,
            SessionAction::Leave => SessionActionView::Leave,
        }
    }
}

/// The outcome of an event: what to do, and whether the screen changed.
#[derive(Debug, Clone)]
pub struct SessionStep {
    /// What to do.
    pub action: SessionAction,
    /// Whether to repaint.
    pub render: bool,
}

/// What the interactive call holds.
#[verifier::ext_equal]
pub struct SessionView {
    pub screen: ScreenView,
    pub capturing: bool,
}

/// The message history with one more message: beyond the limit the oldest goes.
pub open spec fn with_message(messages: Seq<Seq<char>>, m: Seq<char>) -> Seq<Seq<char>> {
    if messages.len() + 1 > MAX_MESSAGES {
        messages.push(m).drop_first()
    } else {
        messages.push(m)
    }
}

impl SessionView {
    /// The state after an event.
    pub open spec fn after(self, ev: SessionEventView) -> SessionView {
        let s = self.screen;
        match ev {
            SessionEventView::Ui(UiEventView::PttStop) => SessionView {
                screen: ScreenView { local_ptt: false, ..s },
                capturing: false,
            },
            SessionEventView::Ui(UiEventView::SendText(t)) => SessionView {
                screen: ScreenView {
                    composing: false,
                    compose_buffer: Seq::empty(),
                    messages: with_message(s.messages, "you : "@ + t),
                    ..s
                },
                ..self
            },
            SessionEventView::Ui(UiEventView::Compose(line)) => SessionView {
                screen: ScreenView {
                    composing: line is Some,
                    compose_buffer: match line {
                        Some(l) => l,
                        None => Seq::empty(),
                    },
                    ..s
                },
                ..self
            },
            SessionEventView::CaptureStarted => SessionView {
                screen: ScreenView { local_ptt: true, ..s },
                capturing: true,
            },
            SessionEventView::PeerText(t) => SessionView {
                screen: ScreenView { messages: with_message(s.messages, "peer: "@ + t), ..s },
                ..self
            },
            SessionEventView::Call(CallEvent::RemotePtt(on)) => SessionView {
                screen: ScreenView { remote_ptt: on, ..s },
                ..self
            },
            SessionEventView::Stats(stats) => SessionView {
                screen: ScreenView { bytes_sent: stats.bytes_sent, bytes_recv: stats.bytes_recv, ..s },
                ..self
            },
            _ => self,
        }
    }

    /// What to do about an event. A talk key that goes down while we talk already starts nothing.
    pub open spec fn action(self, ev: SessionEventView) -> SessionActionView {
        match ev {
            SessionEventView::Ui(UiEventView::PttStart) => if self.capturing {
                SessionActionView::Nothing
            } else {
                SessionActionView::StartCapture
            },
            SessionEventView::Ui(UiEventView::PttStop) => SessionActionView::StopCapture,
            SessionEventView::Ui(UiEventView::SendText(t)) => SessionActionView::SendText(t),
            SessionEventView::Ui(UiEventView::Hangup) => SessionActionView::Hangup,
            SessionEventView::InputClosed => SessionActionView::Hangup,
            SessionEventView::CaptureStarted => SessionActionView::AnnounceTalking,
            SessionEventView::CallFinished => SessionActionView::Leave,
            _ => SessionActionView::Nothing,
        }
    }

    /// Whether an event calls for a repaint. Counters that did not move do not.
    pub open spec fn renders(self, ev: SessionEventView) -> bool {
        match ev {
            SessionEventView::Ui(UiEventView::PttStop) => true,
            SessionEventView::Ui(UiEventView::SendText(_)) => true,
            SessionEventView::Ui(UiEventView::Compose(_)) => true,
            SessionEventView::CaptureStarted => true,
            SessionEventView::PeerText(_) => true,
            SessionEventView::Call(_) => true,
            SessionEventView::Stats(stats) => stats.bytes_sent != self.screen.bytes_sent || stats.bytes_recv
                != self.screen.bytes_recv,
            _ => false,
        }
    }

    /// The state after a history of events, oldest first.
    pub open spec fn run(self, evs: Seq<SessionEventView>) -> SessionView
        decreases evs.len(),
    {
        if evs.len() == 0 {
            self
        } else {
            self.run(evs.drop_last()).after(evs.last())
        }
    }
}

/// The message history stays bounded, whatever happens in the call.
pub proof fn law_history_is_bounded(s: SessionView, evs: Seq<SessionEventView>)
    requires
        s.screen.messages.len() <= MAX_MESSAGES,
    ensures
        s.run(evs).screen.messages.len() <= MAX_MESSAGES,
    decreases evs.len(),
{
    if evs.len() > 0 {
        law_history_is_bounded(s, evs.drop_last());
    }
}

/// The newest message is the last one, and those that stay keep their order.
pub proof fn law_history_keeps_order(messages: Seq<Seq<char>>, m: Seq<char>)
    requires
        messages.len() <= MAX_MESSAGES,
    ensures
        with_message(messages, m).last() == m,
        messages.len() < MAX_MESSAGES ==> with_message(messages, m).drop_last() == messages,
        messages.len() == MAX_MESSAGES ==> with_message(messages, m).drop_last() == messages.drop_first(),
{
    if messages.len() < MAX_MESSAGES {
        assert(with_message(messages, m).drop_last() =~= messages);
    } else {
        assert(with_message(messages, m).drop_last() =~= messages.drop_first());
    }
}

/// Every text is recorded, whatever the state of the call and of the screen: what the peer sends and
/// what we send becomes the last message, with its author in front. The messages before it stay, in
/// order, but for the oldest once there are 100.
pub proof fn law_every_text_is_recorded(s: SessionView, t: Seq<char>)
    ensures
        ({
            let before = s.screen.messages;
            let theirs = s.after(SessionEventView::PeerText(t)).screen.messages;
            let ours = s.after(SessionEventView::Ui(UiEventView::SendText(t))).screen.messages;
            &&& theirs.len() > 0 && theirs.last() == "peer: "@ + t
            &&& ours.len() > 0 && ours.last() == "you : "@ + t
            &&& before.len() < 100 ==> theirs.drop_last() == before && ours.drop_last() == before
            &&& before.len() >= 100 ==> theirs.drop_last() == before.drop_first() && ours.drop_last()
                == before.drop_first()
        }),
{
    let before = s.screen.messages;
    let theirs = s.after(SessionEventView::PeerText(t)).screen.messages;
    let ours = s.after(SessionEventView::Ui(UiEventView::SendText(t))).screen.messages;
    if before.len() < 100 {
        assert(theirs.drop_last() =~= before);
        assert(ours.drop_last() =~= before);
    } else {
        assert(theirs.drop_last() =~= before.drop_first());
        assert(ours.drop_last() =~= before.drop_first());
    }
}

/// Nothing but a text touches the messages, and a text of the peer touches nothing else.
pub proof fn law_only_texts_are_recorded(s: SessionView, ev: SessionEventView)
    ensures
        !(ev is PeerText) && !(ev matches SessionEventView::Ui(UiEventView::SendText(_))) ==> s.after(
            ev,
        ).screen.messages == s.screen.messages,
        ev is PeerText ==> s.after(ev) == (SessionView {
            screen: ScreenView { messages: s.after(ev).screen.messages, ..s.screen },
            ..s
        }),
{
}

/// All that was said in a history of events, oldest first, each with its author in front.
pub open spec fn said(evs: Seq<SessionEventView>) -> Seq<Seq<char>>
    decreases evs.len(),
{
    if evs.len() == 0 {
        Seq::empty()
    } else {
        match evs.last() {
            SessionEventView::PeerText(t) => said(evs.drop_last()).push("peer: "@ + t),
            SessionEventView::Ui(UiEventView::SendText(t)) => said(evs.drop_last()).push("you : "@ + t),
            _ => said(evs.drop_last()),
        }
    }
}

/// What a further event adds to what was said: its text if it is one, and else nothing.
pub proof fn law_said_grows_by_texts(evs: Seq<SessionEventView>, ev: SessionEventView)
    ensures
        ev matches SessionEventView::PeerText(t) ==> said(evs.push(ev)) == said(evs).push("peer: "@ + t),
        ev matches SessionEventView::Ui(UiEventView::SendText(t)) ==> said(evs.push(ev)) == said(evs).push(
            "you : "@ + t,
        ),
        !(ev is PeerText) && !(ev matches SessionEventView::Ui(UiEventView::SendText(_))) ==> said(evs.push(ev))
            == said(evs),
        said(Seq::empty()) == Seq::<Seq<char>>::empty(),
{
    assert(evs.push(ev).drop_last() =~= evs);
}

/// Over a whole call the messages are the newest 100 of all that was said, in order, or all of it while
/// there is no more.
pub proof fn law_messages_are_what_was_said(s: SessionView, evs: Seq<SessionEventView>)
    requires
        s.screen.messages.len() == 0,
    ensures
        said(evs).len() <= 100 ==> s.run(evs).screen.messages == said(evs),
        said(evs).len() > 100 ==> s.run(evs).screen.messages == said(evs).skip(said(evs).len() - 100),
    decreases evs.len(),
{
    if evs.len() > 0 {
        law_messages_are_what_was_said(s, evs.drop_last());
        let before = s.run(evs.drop_last()).screen.messages;
        let after = s.run(evs).screen.messages;
        if said(evs).len() <= 100 {
            assert(after =~= said(evs));
        } else {
            assert(after =~= said(evs).skip(said(evs).len() - 100));
        }
    } else {
        assert(s.screen.messages =~= Seq::<Seq<char>>::empty());
    }
}

/// A history is taken event by event.
pub proof fn law_history_is_taken_in_order(s: SessionView, evs: Seq<SessionEventView>, ev: SessionEventView)
    ensures
        s.run(Seq::empty()) == s,
        s.run(evs.push(ev)) == s.run(evs).after(ev),
{
    assert(evs.push(ev).drop_last() =~= evs);
}

/// The line being typed is shown as it is, and goes when it is closed or sent; nothing else touches it.
pub proof fn law_typed_line_is_shown(s: SessionView, line: Seq<char>, t: Seq<char>, ev: SessionEventView)
    ensures
        ({
            let typing = s.after(SessionEventView::Ui(UiEventView::Compose(Some(line)))).screen;
            let closed = s.after(SessionEventView::Ui(UiEventView::Compose(None))).screen;
            let sent = s.after(SessionEventView::Ui(UiEventView::SendText(t))).screen;
            &&& typing.composing && typing.compose_buffer == line
            &&& !closed.composing && closed.compose_buffer.len() == 0
            &&& !sent.composing && sent.compose_buffer.len() == 0
        }),
        !(ev matches SessionEventView::Ui(UiEventView::Compose(_))) && !(ev matches SessionEventView::Ui(
            UiEventView::SendText(_),
        )) ==> s.after(ev).screen.composing == s.screen.composing && s.after(ev).screen.compose_buffer
            == s.screen.compose_buffer,
{
}

/// Who talks is shown: the peer as it reports, we from the moment capture has started until talking
/// stops; nothing else changes it.
pub proof fn law_talking_is_shown(s: SessionView, on: bool, ev: SessionEventView)
    ensures
        s.after(SessionEventView::Call(CallEvent::RemotePtt(on))).screen.remote_ptt == on,
        !(ev is Call) ==> s.after(ev).screen.remote_ptt == s.screen.remote_ptt,
        s.after(SessionEventView::CaptureStarted).screen.local_ptt && s.after(
            SessionEventView::CaptureStarted,
        ).capturing,
        !s.after(SessionEventView::Ui(UiEventView::PttStop)).screen.local_ptt && !s.after(
            SessionEventView::Ui(UiEventView::PttStop),
        ).capturing,
        !(ev is CaptureStarted) && !(ev matches SessionEventView::Ui(UiEventView::PttStop)) ==> s.after(
            ev,
        ).screen.local_ptt == s.screen.local_ptt && s.after(ev).capturing == s.capturing,
{
}

/// The byte counters are shown as they were last looked at, and what the handshake learned never
/// changes.
pub proof fn law_counters_are_shown(s: SessionView, stats: CallStats, ev: SessionEventView)
    ensures
        s.after(SessionEventView::Stats(stats)).screen.bytes_sent == stats.bytes_sent,
        s.after(SessionEventView::Stats(stats)).screen.bytes_recv == stats.bytes_recv,
        !(ev is Stats) ==> s.after(ev).screen.bytes_sent == s.screen.bytes_sent && s.after(ev).screen.bytes_recv
            == s.screen.bytes_recv,
        s.after(ev).screen.local_onion == s.screen.local_onion,
        s.after(ev).screen.remote_onion == s.screen.remote_onion,
        s.after(ev).screen.suite_match == s.screen.suite_match,
        s.after(ev).screen.suite_label == s.screen.suite_label,
        s.after(ev).screen.hop_mode == s.screen.hop_mode,
        s.after(ev).screen.latency_ms == s.screen.latency_ms,
        s.after(ev).screen.ptt_hold == s.screen.ptt_hold,
{
}

/// What the program does: it starts capture when talking starts and capture does not run, tells the
/// peer once it runs, stops it when talking stops, sends what is to be sent, hangs up when asked to or
/// when no more input comes, leaves when the call has finished, and does nothing else.
pub proof fn law_actions_follow_events(s: SessionView, ev: SessionEventView, t: Seq<char>)
    ensures
        s.action(ev) is StartCapture <==> ev == SessionEventView::Ui(UiEventView::PttStart) && !s.capturing,
        s.action(ev) is AnnounceTalking <==> ev is CaptureStarted,
        s.action(ev) is StopCapture <==> ev == SessionEventView::Ui(UiEventView::PttStop),
        s.action(ev) == SessionActionView::SendText(t) <==> ev == SessionEventView::Ui(UiEventView::SendText(t)),
        s.action(ev) is SendText ==> ev matches SessionEventView::Ui(UiEventView::SendText(_)),
        s.action(ev) is Hangup <==> ev == SessionEventView::Ui(UiEventView::Hangup) || ev is InputClosed,
        s.action(ev) is Leave <==> ev is CallFinished,
{
}

/// What comes in is painted: texts, the line being typed, who talks, and counters that moved. What
/// changes nothing on the screen is not.
pub proof fn law_events_are_painted(s: SessionView, ev: SessionEventView)
    ensures
        ev is PeerText || ev is Call || ev is CaptureStarted ==> s.renders(ev),
        ev matches SessionEventView::Ui(UiEventView::SendText(_)) ==> s.renders(ev),
        ev matches SessionEventView::Ui(UiEventView::Compose(_)) ==> s.renders(ev),
        ev matches SessionEventView::Ui(UiEventView::PttStop) ==> s.renders(ev),
        ev matches SessionEventView::Stats(stats) ==> (s.renders(ev) <==> stats.bytes_sent != s.screen.bytes_sent
            || stats.bytes_recv != s.screen.bytes_recv),
        ev is InputClosed || ev is CaptureFailed || ev is CallFinished ==> !s.renders(ev) && s.after(ev) == s,
        ev matches SessionEventView::Ui(UiEventView::PttStart) ==> !s.renders(ev) && s.after(ev) == s,
        ev matches SessionEventView::Ui(UiEventView::Hangup) ==> !s.renders(ev) && s.after(ev) == s,
{
}

/// The screen says that we talk exactly while capture runs.
pub proof fn law_talk_indicator_is_honest(s: SessionView, evs: Seq<SessionEventView>)
    requires
        s.screen.local_ptt == s.capturing,
    ensures
        s.run(evs).screen.local_ptt == s.run(evs).capturing,
    decreases evs.len(),
{
    if evs.len() > 0 {
        law_talk_indicator_is_honest(s, evs.drop_last());
    }
}

/// A change of the screen is always painted.
pub proof fn law_every_change_is_painted(s: SessionView, ev: SessionEventView)
    ensures
        s.after(ev).screen != s.screen ==> s.renders(ev),
{
    if let SessionEventView::Stats(stats) = ev {
        if !s.renders(ev) {
            assert(s.after(ev).screen =~= s.screen);
        }
    }
}

/// The interactive call.
#[derive(Debug)]
pub struct Session {
    /// What the screen shows.
    pub screen: CallScreen,
    /// Whether capture runs.
    pub capturing: bool,
}

impl View for Session {
    type V = SessionView;

    open spec fn view(&self) -> SessionView {
        SessionView { screen: self.screen@, capturing: self.capturing }
    }
}

impl Session {
    /// The interactive call at its start.
    pub fn new(screen: CallScreen) -> (s: Session)
        ensures
            s@ == (SessionView { screen: screen@, capturing: false }),
    {
        Session { screen, capturing: false }
    }

    /// Add a message to the history.
    fn add_message(&mut self, m: String)
        ensures
            final(self)@ == (SessionView {
                screen: ScreenView {
                    messages: with_message(old(self)@.screen.messages, m@),
                    ..old(self)@.screen
                },
                ..old(self)@
            }),
            final(self).screen.messages@.len() > 0,
            final(self).screen.messages@.last()@ == m@,
    {
        let ghost mv = m@;
        self.screen.messages.push(m);
        assert(texts(self.screen.messages@) =~= old(self)@.screen.messages.push(mv));
        if self.screen.messages.len() > MAX_MESSAGES {
            let _ = self.screen.messages.remove(0);
            assert(texts(self.screen.messages@) =~= old(self)@.screen.messages.push(mv).drop_first());
        }
    }

    /// React to an event.
    pub fn on(&mut self, ev: SessionEvent) -> (step: SessionStep)
        ensures
            final(self)@ == old(self)@.after(ev@),
            step.action@ == old(self)@.action(ev@),
            step.render == old(self)@.renders(ev@),
            ev matches SessionEvent::PeerText(t) ==> final(self).screen.messages@.len() > 0
                && final(self).screen.messages@.last()@ == "peer: "@ + t@ && step.render,
            ev matches SessionEvent::Ui(UiEvent::SendText(t)) ==> final(self).screen.messages@.len() > 0
                && final(self).screen.messages@.last()@ == "you : "@ + t@ && step.render,
            ev matches SessionEvent::Ui(UiEvent::SendText(t)) ==> (step.action matches SessionAction::SendText(sent)
                && sent@ == t@),
            step.action is Hangup <==> ev is InputClosed || (ev matches SessionEvent::Ui(e) && e is Hangup),
            step.action is StartCapture <==> !old(self).capturing && (ev matches SessionEvent::Ui(e) && e is PttStart),
            step.action is StopCapture <==> (ev matches SessionEvent::Ui(e) && e is PttStop),
            step.action is AnnounceTalking <==> ev is CaptureStarted,
            step.action is Leave <==> ev is CallFinished,
            final(self).capturing == (ev is CaptureStarted || (old(self).capturing && !(ev matches SessionEvent::Ui(e)
                && e is PttStop))),
    {
        match ev {
            SessionEvent::Ui(UiEvent::PttStart) => if self.capturing {
                SessionStep { action: SessionAction::Nothing, render: false }
            } else {
                SessionStep { action: SessionAction::StartCapture, render: false }
            },
            SessionEvent::Ui(UiEvent::PttStop) => {
                self.capturing = false;
                self.screen.local_ptt = false;
                SessionStep { action: SessionAction::StopCapture, render: true }
            },
            SessionEvent::Ui(UiEvent::SendText(text)) => {
                self.screen.composing = false;
                self.screen.compose_buffer = String::new();
                self.add_message(join2("you : ", text.as_str()));
                SessionStep { action: SessionAction::SendText(text), render: true }
            },
            SessionEvent::Ui(UiEvent::Compose(line)) => {
                match line {
                    Some(l) => {
                        self.screen.composing = true;
                        self.screen.compose_buffer = l;
                    },
                    None => {
                        self.screen.composing = false;
                        self.screen.compose_buffer = String::new();
                    },
                }
                SessionStep { action: SessionAction::Nothing, render: true }
            },
            SessionEvent::Ui(UiEvent::Hangup) => SessionStep { action: SessionAction::Hangup, render: false },
            SessionEvent::InputClosed => SessionStep { action: SessionAction::Hangup, render: false },
            SessionEvent::CaptureStarted => {
                self.capturing = true;
                self.screen.local_ptt = true;
                SessionStep { action: SessionAction::AnnounceTalking, render: true }
            },
            SessionEvent::CaptureFailed => SessionStep { action: SessionAction::Nothing, render: false },
            SessionEvent::PeerText(text) => {
                self.add_message(join2("peer: ", text.as_str()));
                SessionStep { action: SessionAction::Nothing, render: true }
            },
            SessionEvent::Call(CallEvent::RemotePtt(on)) => {
                self.screen.remote_ptt = on;
                SessionStep { action: SessionAction::Nothing, render: true }
            },
            SessionEvent::Stats(stats) => {
                let moved = stats.bytes_sent != self.screen.bytes_sent || stats.bytes_recv != self.screen.bytes_recv;
                self.screen.bytes_sent = stats.bytes_sent;
                self.screen.bytes_recv = stats.bytes_recv;
                SessionStep { action: SessionAction::Nothing, render: moved }
            },
            SessionEvent::CallFinished => SessionStep { action: SessionAction::Leave, render: false },
        }
    }
}

} // verus!
