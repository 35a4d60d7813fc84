use vstd::prelude::*;

use crate::message::{messages_view, MessageView, OutgoingMessage, ProxyResponse};

verus! {

/// The value that a text denotes as a JSON document, if it is one.
pub uninterp spec fn json_of(text: Seq<char>) -> Option<serde_json::Value>;

/// Relies on `serde_json::from_str` into a `Value`: the result is the
/// document that the text denotes, and a text that is no JSON document fails.
#[verifier::external_body]
fn parse_json(text: &str) -> (r: Option<serde_json::Value>)
    ensures
        r == json_of(text@),
{
    serde_json::from_str::<serde_json::Value>(text).ok()
}

/// The payload by which the upstream ends its stream.
pub const DONE: &'static str = "[DONE]";

/// One event read from the upstream stream.
pub enum UpstreamEvent {
    /// The stream was opened, or kept alive.
    Opened,
    /// A data event and its payload.
    Message(String),
    /// The transport failed.
    Failed,
}

/// What an upstream event says.
pub enum EventView {
    Opened,
    Message(Seq<char>),
    Failed,
}

impl View for UpstreamEvent {
    type V = EventView;

    open spec fn view(&self) -> EventView {
        match self {
            UpstreamEvent::Opened => EventView::Opened,
            UpstreamEvent::Message(s) => EventView::Message(s@),
            UpstreamEvent::Failed => EventView::Failed,
        }
    }
}

/// The views of a sequence of events.
pub open spec fn events_view(s: Seq<UpstreamEvent>) -> Seq<EventView> {
    s.map_values(|e: UpstreamEvent| e@)
}

/// What the relay does on one upstream event: the message it passes on, if
/// any, and whether it stops reading the stream.
pub struct RelayStep {
    pub emit: Option<OutgoingMessage>,
    pub stop: bool,
}

impl View for RelayStep {
    type V = (Option<MessageView>, bool);

    open spec fn view(&self) -> (Option<MessageView>, bool) {
        (
            match self.emit {
                Some(m) => Some(m@),
                None => None,
            },
            self.stop,
        )
    }
}

/// The step for a data event with the given payload, `parsed` being what the
/// payload denotes as JSON.
pub open spec fn translation(payload: Seq<char>, parsed: Option<serde_json::Value>) -> (
    Option<MessageView>,
    bool,
) {
    if payload == DONE@ {
        (None, true)
    } else {
        match parsed {
            Some(v) => (Some(MessageView::Data(v)), false),
            None => (Some(MessageView::Error("unexpected response"@)), false),
        }
    }
}

/// The step for one upstream event, `opened` telling whether the stream has
/// been opened before it. A failure before the stream opened ends the relay
/// silently; one after it is reported.
pub open spec fn step_of(opened: bool, ev: EventView) -> (Option<MessageView>, bool) {
    match ev {
        EventView::Opened => (None, false),
        EventView::Failed => if opened {
            (Some(MessageView::Error("bad response"@)), true)
        } else {
            (None, true)
        },
        EventView::Message(s) => translation(s, json_of(s)),
    }
}

/// Whether the stream is open after an event.
pub open spec fn opened_after(opened: bool, ev: EventView) -> bool {
    opened || ev is Opened || ev is Message
}

/// The messages that the relay passes on for a stream of upstream events.
pub open spec fn relay_trace(opened: bool, evs: Seq<EventView>) -> Seq<MessageView>
    decreases evs.len(),
{
    if evs.len() == 0 {
        Seq::empty()
    } else {
        let step = step_of(opened, evs[0]);
        let head = match step.0 {
            Some(m) => seq![m],
            None => Seq::empty(),
        };
        if step.1 {
            head
        } else {
            head + relay_trace(opened_after(opened, evs[0]), evs.drop_first())
        }
    }
}

fn same_text(a: &str, b: &str) -> (r: bool)
    ensures
        r == (a@ == b@),
{
    String::from_str(a) == String::from_str(b)
}

/// Translates a data event whose payload denotes `parsed` as JSON.
pub fn translate_parsed(payload: &str, parsed: Option<serde_json::Value>) -> (r: RelayStep)
    ensures
        r@ == translation(payload@, parsed),
{
    if same_text(payload, DONE) {
        RelayStep { emit: None, stop: true }
    } else {
        match parsed {
            Some(v) => RelayStep {
                emit: Some(OutgoingMessage::Proxy(ProxyResponse { data: v })),
                stop: false,
            },
            None => RelayStep { emit: Some(crate::message::err("unexpected response")), stop: false },
        }
    }
}

/// Translates a data event: the sentinel ends the stream, a JSON document is
/// relayed, anything else is reported as an unexpected response.
pub fn translate(payload: &str) -> (r: RelayStep)
    ensures
        r@ == translation(payload@, json_of(payload@)),
{
    if same_text(payload, DONE) {
        translate_parsed(payload, None)
    } else {
        let parsed = parse_json(payload);
        translate_parsed(payload, parsed)
    }
}

/// The relay of one upstream stream.
pub struct Relay {
    opened: bool,
}

impl View for Relay {
    type V = bool;

    /// Whether the stream has been opened.
    closed spec fn view(&self) -> bool {
        self.opened
    }
}

impl Relay {
    /// The relay of a stream that has not been opened yet.
    pub fn new() -> (r: Relay)
        ensures
            !r@,
    {
        Relay { opened: false }
    }

    /// What the relay does on the next upstream event.
    pub fn on_event(&mut self, ev: &UpstreamEvent) -> (r: RelayStep)
        ensures
            r@ == step_of(old(self)@, ev@),
            final(self)@ == opened_after(old(self)@, ev@),
    {
        let r = match ev {
            UpstreamEvent::Opened => RelayStep { emit: None, stop: false },
            UpstreamEvent::Failed => if self.opened {
                RelayStep { emit: Some(crate::message::err("bad response")), stop: true }
            } else {
                RelayStep { emit: None, stop: true }
            },
            UpstreamEvent::Message(s) => translate(s.as_str()),
        };
        match ev {
            UpstreamEvent::Failed => {},
            _ => {
                self.opened = true;
            },
        }
        r
    }
}

/// The messages relayed for a whole stream of upstream events, up to the
/// point where the relay stops reading it.
pub fn relay_events(events: &Vec<UpstreamEvent>) -> (r: Vec<OutgoingMessage>)
    ensures
        messages_view(r@) == relay_trace(false, events_view(events@)),
{
    let ghost evs = events_view(events@);
    let mut out: Vec<OutgoingMessage> = Vec::new();
    let mut relay = Relay::new();
    let mut i: usize = 0;
    assert(evs.subrange(0, evs.len() as int) =~= evs);
    assert(messages_view(out@) + relay_trace(false, evs) =~= relay_trace(false, evs));
    while i < events.len()
        invariant
            0 <= i <= events@.len(),
            evs == events_view(events@),
            messages_view(out@) + relay_trace(relay@, evs.subrange(i as int, evs.len() as int))
                == relay_trace(false, evs),
        decreases events@.len() - i,
    {
        let ghost rest = evs.subrange(i as int, evs.len() as int);
        assert(rest.drop_first() =~= evs.subrange(i + 1, evs.len() as int));
        assert(rest[0] == events@[i as int]@);
        let ghost opened = relay@;
        let step = relay.on_event(&events[i]);
        let ghost head = match step@.0 {
            Some(m) => seq![m],
            None => Seq::<MessageView>::empty(),
        };
        let ghost before = messages_view(out@);
        match step.emit {
            Some(m) => {
                out.push(m);
            },
            None => {},
        }
        assert(messages_view(out@) =~= before + head);
        if step.stop {
            assert(relay_trace(opened, rest) == head);
            return out;
        }
        assert(relay_trace(opened, rest) == head + relay_trace(relay@, rest.drop_first()));
        assert(messages_view(out@) + relay_trace(relay@, evs.subrange(i + 1, evs.len() as int))
            =~= before + relay_trace(opened, rest));
        i = i + 1;
    }
    assert(evs.subrange(i as int, evs.len() as int) =~= Seq::<EventView>::empty());
    assert(messages_view(out@) + Seq::<MessageView>::empty() =~= messages_view(out@));
    out
}

/// Nothing is relayed after the sentinel: a stream relays what the events
/// before the sentinel relay, and no more.
pub proof fn lemma_nothing_after_sentinel(
    opened: bool,
    pre: Seq<EventView>,
    post: Seq<EventView>,
)
    ensures
        relay_trace(opened, pre + seq![EventView::Message(DONE@)] + post) == relay_trace(
            opened,
            pre,
        ),
    decreases pre.len(),
{
    let evs = pre + seq![EventView::Message(DONE@)] + post;
    if pre.len() == 0 {
        assert(evs[0] == EventView::Message(DONE@));
        assert(relay_trace(opened, evs) =~= Seq::<MessageView>::empty());
    } else {
        lemma_nothing_after_sentinel(opened_after(opened, pre[0]), pre.drop_first(), post);
        assert(evs.drop_first() =~= pre.drop_first() + seq![EventView::Message(DONE@)] + post);
        assert(evs[0] == pre[0]);
    }
}

/// A stream without transport failures whose payloads are all JSON documents
/// or the sentinel relays data messages only.
pub proof fn lemma_well_formed_stream_relays_data(opened: bool, evs: Seq<EventView>)
    requires
        forall|i: int| 0 <= i < evs.len() ==> !(#[trigger] evs[i] is Failed),
        forall|i: int|
            0 <= i < evs.len() && #[trigger] evs[i] is Message && evs[i]->Message_0 != DONE@
                ==> json_of(evs[i]->Message_0) is Some,
    ensures
        forall|k: int|
            0 <= k < relay_trace(opened, evs).len() ==> #[trigger] relay_trace(opened, evs)[k] is Data,
    decreases evs.len(),
{
    if evs.len() > 0 {
        let tail = evs.drop_first();
        assert forall|i: int| 0 <= i < tail.len() implies !(#[trigger] tail[i] is Failed) by {
            assert(tail[i] == evs[i + 1]);
        }
        assert forall|i: int|
            0 <= i < tail.len() && #[trigger] tail[i] is Message && tail[i]->Message_0 != DONE@
                implies json_of(tail[i]->Message_0) is Some by {
            assert(tail[i] == evs[i + 1]);
        }
        lemma_well_formed_stream_relays_data(opened_after(opened, evs[0]), tail);
        assert(!(evs[0] is Failed));
    }
}

/// A payload that is no JSON document is reported as an unexpected response,
/// and the relay goes on with the events after it.
pub proof fn lemma_bad_payload_continues(opened: bool, payload: Seq<char>, rest: Seq<EventView>)
    requires
        payload != DONE@,
        json_of(payload) is None,
    ensures
        relay_trace(opened, seq![EventView::Message(payload)] + rest) == seq![
            MessageView::Error("unexpected response"@),
        ] + relay_trace(true, rest),
{
    let evs = seq![EventView::Message(payload)] + rest;
    assert(evs.drop_first() =~= rest);
    assert(evs[0] == EventView::Message(payload));
}

} // verus!
