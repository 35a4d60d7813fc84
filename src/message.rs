use vstd::prelude::*;

verus! {

/// Declares `serde_json::Value`, carried through the relay unread.
#[verifier::external_type_specification]
#[verifier::external_body]
pub struct ExValue(serde_json::Value);

/// A request to relay `body` to `destination` as a streaming POST.
pub struct ProxyRequest {
    pub destination: String,
    pub headers: Vec<(String, String)>,
    pub body: serde_json::Value,
}

/// A message that a client sends on its socket.
pub enum IncomingMessage {
    Proxy(ProxyRequest),
}

/// One relayed upstream event.
pub struct ProxyResponse {
    pub data: serde_json::Value,
}

/// A message that the relay writes on a client's socket.
pub enum OutgoingMessage {
    Proxy(ProxyResponse),
    Error { reason: String },
}

/// What an outgoing message says: relayed data, or an error and its reason.
pub enum MessageView {
    Data(serde_json::Value),
    Error(Seq<char>),
}

impl View for OutgoingMessage {
    type V = MessageView;

    open spec fn view(&self) -> MessageView {
        match self {
            OutgoingMessage::Proxy(p) => MessageView::Data(p.data),
            OutgoingMessage::Error { reason } => MessageView::Error(reason@),
        }
    }
}

/// The views of a sequence of messages.
pub open spec fn messages_view(s: Seq<OutgoingMessage>) -> Seq<MessageView> {
    s.map_values(|m: OutgoingMessage| m@)
}

/// The error message whose reason is `s`.
pub fn err(s: &str) -> (r: OutgoingMessage)
    ensures
        r@ == MessageView::Error(s@),
{
    OutgoingMessage::Error { reason: String::from_str(s) }
}

} // verus!
