use vstd::prelude::*;

use crate::message::{err, IncomingMessage, MessageView, OutgoingMessage, ProxyRequest};

verus! {

/// One inbound frame of a client's socket, as far as the session reads it.
pub enum InboundFrame {
    /// A frame that could not be read as text.
    NotText,
    /// Text that is no well-formed incoming message.
    Malformed,
    /// A well-formed incoming message.
    Message(IncomingMessage),
    /// A frame that carries no message: a control frame, or one that the
    /// transport failed to deliver.
    Skipped,
    /// The client closed the socket.
    Ended,
}

/// What a session waits on: an inbound frame, the next entry of its outbound
/// queue, or the failure of a write to the socket.
pub enum SessionEvent {
    Inbound(InboundFrame),
    Outbound(OutgoingMessage),
    WriteFailed,
}

/// What a session asks its driver to do.
pub enum SessionAction {
    /// Write the message on the socket.
    Write(OutgoingMessage),
    /// Run the request on a task of its own that shares the outbound queue.
    Dispatch(ProxyRequest),
    /// Release the socket and the outbound queue.
    Close,
}

/// What an action says.
pub enum ActionView {
    Write(MessageView),
    Dispatch(ProxyRequest),
    Close,
}

impl View for SessionAction {
    type V = ActionView;

    open spec fn view(&self) -> ActionView {
        match self {
            SessionAction::Write(m) => ActionView::Write(m@),
            SessionAction::Dispatch(p) => ActionView::Dispatch(*p),
            SessionAction::Close => ActionView::Close,
        }
    }
}

/// The views of a sequence of actions.
pub open spec fn actions_view(s: Seq<SessionAction>) -> Seq<ActionView> {
    s.map_values(|a: SessionAction| a@)
}

/// Whether the session is open after an event, and what it does on it.
pub open spec fn step_of(open: bool, ev: SessionEvent) -> (bool, Seq<ActionView>) {
    if !open {
        (false, Seq::empty())
    } else {
        match ev {
            SessionEvent::Inbound(InboundFrame::NotText) => (
                true,
                seq![ActionView::Write(MessageView::Error("could not decode message as text"@))],
            ),
            SessionEvent::Inbound(InboundFrame::Malformed) => (
                false,
                seq![
                    ActionView::Write(MessageView::Error("unknown message type"@)),
                    ActionView::Close,
                ],
            ),
            SessionEvent::Inbound(InboundFrame::Message(IncomingMessage::Proxy(req))) => (
                true,
                seq![ActionView::Dispatch(req)],
            ),
            SessionEvent::Inbound(InboundFrame::Skipped) => (true, Seq::empty()),
            SessionEvent::Inbound(InboundFrame::Ended) => (false, seq![ActionView::Close]),
            SessionEvent::Outbound(m) => (true, seq![ActionView::Write(m@)]),
            SessionEvent::WriteFailed => (false, seq![ActionView::Close]),
        }
    }
}

/// The actions of a session that starts open or closed, over a sequence of
/// events.
pub open spec fn session_trace(open: bool, evs: Seq<SessionEvent>) -> Seq<ActionView>
    decreases evs.len(),
{
    if evs.len() == 0 {
        Seq::empty()
    } else {
        let step = step_of(open, evs[0]);
        step.1 + session_trace(step.0, evs.drop_first())
    }
}

/// The state of one client's session: open until the client leaves, sends a
/// malformed message, or a write fails.
pub struct Session {
    open: bool,
}

impl View for Session {
    type V = bool;

    closed spec fn view(&self) -> bool {
        self.open
    }
}

impl Session {
    /// A session that has just been opened.
    pub fn new() -> (r: Session)
        ensures
            r@,
    {
        Session { open: true }
    }

    /// Whether the session is still open.
    pub fn is_open(&self) -> (r: bool)
        ensures
            r == self@,
    {
        self.open
    }

    /// Handles one event and returns what the driver must do for it.
    pub fn handle(&mut self, ev: SessionEvent) -> (r: Vec<SessionAction>)
        ensures
            final(self)@ == step_of(old(self)@, ev).0,
            actions_view(r@) == step_of(old(self)@, ev).1,
    {
        let mut r: Vec<SessionAction> = Vec::new();
        if !self.open {
            assert(actions_view(r@) =~= step_of(old(self)@, ev).1);
            return r;
        }
        match ev {
            SessionEvent::Inbound(InboundFrame::NotText) => {
                r.push(SessionAction::Write(err("could not decode message as text")));
            },
            SessionEvent::Inbound(InboundFrame::Malformed) => {
                r.push(SessionAction::Write(err("unknown message type")));
                r.push(SessionAction::Close);
                self.open = false;
            },
            SessionEvent::Inbound(InboundFrame::Message(IncomingMessage::Proxy(req))) => {
                r.push(SessionAction::Dispatch(req));
            },
            SessionEvent::Inbound(InboundFrame::Skipped) => {},
            SessionEvent::Inbound(InboundFrame::Ended) => {
                r.push(SessionAction::Close);
                self.open = false;
            },
            SessionEvent::Outbound(m) => {
                r.push(SessionAction::Write(m));
            },
            SessionEvent::WriteFailed => {
                r.push(SessionAction::Close);
                self.open = false;
            },
        }
        assert(actions_view(r@) =~= step_of(old(self)@, ev).1);
        r
    }
}

/// Runs a fresh session over a sequence of events and returns all that it
/// asks its driver to do.
pub fn run_session(events: Vec<SessionEvent>) -> (r: Vec<SessionAction>)
    ensures
        actions_view(r@) == session_trace(true, events@),
{
    let ghost all = events@;
    let mut events = events;
    let mut session = Session::new();
    let mut out: Vec<SessionAction> = Vec::new();
    while events.len() > 0
        invariant
            actions_view(out@) + session_trace(session@, events@) == session_trace(true, all),
        decreases events@.len(),
    {
        let ghost rest = events@;
        let ghost open = session@;
        let ev = events.remove(0);
        assert(rest.drop_first() =~= events@);
        let mut acts = session.handle(ev);
        let ghost before = actions_view(out@);
        let ghost step = actions_view(acts@);
        out.append(&mut acts);
        assert(actions_view(out@) =~= before + step);
        assert(session_trace(open, rest) == step + session_trace(session@, events@));
        assert(actions_view(out@) + session_trace(session@, events@) =~= before + session_trace(
            open,
            rest,
        ));
    }
    assert(actions_view(out@) + session_trace(session@, events@) =~= actions_view(out@));
    out
}

/// A closed session does nothing more, whatever comes.
pub proof fn lemma_closed_session_is_silent(evs: Seq<SessionEvent>)
    ensures
        session_trace(false, evs) == Seq::<ActionView>::empty(),
    decreases evs.len(),
{
    if evs.len() > 0 {
        lemma_closed_session_is_silent(evs.drop_first());
        assert(session_trace(false, evs) =~= Seq::<ActionView>::empty());
    }
}

/// A frame that is not text is answered with one error, and the session goes
/// on with the frames after it as if it had not come.
pub proof fn lemma_undecodable_frame_keeps_session(rest: Seq<SessionEvent>)
    ensures
        session_trace(true, seq![SessionEvent::Inbound(InboundFrame::NotText)] + rest) == seq![
            ActionView::Write(MessageView::Error("could not decode message as text"@)),
        ] + session_trace(true, rest),
{
    let evs = seq![SessionEvent::Inbound(InboundFrame::NotText)] + rest;
    assert(evs.drop_first() =~= rest);
}

/// A malformed message is answered with one error and ends the session: no
/// later event is acted on.
pub proof fn lemma_malformed_frame_ends_session(rest: Seq<SessionEvent>)
    ensures
        session_trace(true, seq![SessionEvent::Inbound(InboundFrame::Malformed)] + rest) == seq![
            ActionView::Write(MessageView::Error("unknown message type"@)),
            ActionView::Close,
        ],
{
    let evs = seq![SessionEvent::Inbound(InboundFrame::Malformed)] + rest;
    assert(evs.drop_first() =~= rest);
    lemma_closed_session_is_silent(rest);
    assert(session_trace(true, evs) =~= seq![
        ActionView::Write(MessageView::Error("unknown message type"@)),
        ActionView::Close,
    ]);
}

/// A proxy request is handed off to a task of its own and the session goes
/// on at once: the events after it, outbound messages of other requests
/// among them, are served as if the request had not come.
pub proof fn lemma_request_does_not_block(req: ProxyRequest, rest: Seq<SessionEvent>)
    ensures
        session_trace(
            true,
            seq![SessionEvent::Inbound(InboundFrame::Message(IncomingMessage::Proxy(req)))] + rest,
        ) == seq![ActionView::Dispatch(req)] + session_trace(true, rest),
{
    let evs = seq![SessionEvent::Inbound(InboundFrame::Message(IncomingMessage::Proxy(req)))]
        + rest;
    assert(evs.drop_first() =~= rest);
}

} // verus!
