//! Chat events and their fixed client-facing rendering.

use vstd::prelude::*;
use vstd::string::StringExecFns;

use crate::server_id::ServerId;

verus! {

/// One chat event, produced by a connection session and relayed to every
/// process sharing the bus.
#[derive(Debug, Clone, PartialEq)]
pub enum ChatMessage {
    Join { username: String, room_name: String },
    Leave { username: String, room_name: String },
    Chat { username: String, room_name: String, context: String },
}

/// The mathematical model of a chat event: the same three variants over
/// character sequences.
pub enum ChatMessageView {
    Join { username: Seq<char>, room_name: Seq<char> },
    Leave { username: Seq<char>, room_name: Seq<char> },
    Chat { username: Seq<char>, room_name: Seq<char>, context: Seq<char> },
}

impl View for ChatMessage {
    type V = ChatMessageView;

    open spec fn view(&self) -> ChatMessageView {
        match self {
            ChatMessage::Join { username, room_name } => ChatMessageView::Join {
                username: username@,
                room_name: room_name@,
            },
            ChatMessage::Leave { username, room_name } => ChatMessageView::Leave {
                username: username@,
                room_name: room_name@,
            },
            ChatMessage::Chat { username, room_name, context } => ChatMessageView::Chat {
                username: username@,
                room_name: room_name@,
                context: context@,
            },
        }
    }
}

/// The fixed rendering rule: `Join` becomes "<username> joined.", `Leave`
/// becomes "<username> left.", `Chat` becomes "<username>: <text>".
pub open spec fn spec_message_context(m: ChatMessageView) -> Seq<char> {
    match m {
        ChatMessageView::Join { username, .. } => username + " joined."@,
        ChatMessageView::Leave { username, .. } => username + " left."@,
        ChatMessageView::Chat { username, context, .. } => username + ": "@ + context,
    }
}

impl ChatMessage {
    /// The human-readable line shown to clients for this event.
    pub fn message_context(&self) -> (r: String)
        ensures
            r@ == spec_message_context(self@),
    {
        match self {
            ChatMessage::Join { username, .. } => {
                let mut line = username.clone();
                line.append(" joined.");
                line
            }
            ChatMessage::Leave { username, .. } => {
                let mut line = username.clone();
                line.append(" left.");
                line
            }
            ChatMessage::Chat { username, context, .. } => {
                let mut line = username.clone();
                line.append(": ");
                line.append(context.as_str());
                line
            }
        }
    }
}

/// A chat event stamped with the identifier of the process that published
/// it, the unit exchanged on the shared bus.
#[derive(Debug, Clone, PartialEq)]
pub struct IdLabeledMessage {
    pub id: ServerId,
    pub msg: ChatMessage,
}

/// The model of an envelope: the origin token and the event.
pub struct EnvelopeView {
    pub id: Seq<char>,
    pub msg: ChatMessageView,
}

impl View for IdLabeledMessage {
    type V = EnvelopeView;

    open spec fn view(&self) -> EnvelopeView {
        EnvelopeView { id: self.id@, msg: self.msg@ }
    }
}

} // verus!
