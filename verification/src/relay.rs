//! The cross-process relay: stamping outbound events and filtering
//! inbound ones.
//!
//! The publisher side turns each locally produced event into the line for
//! the local hub and the stamped payload for the shared bus. The
//! subscriber side turns each payload from the bus into at most one line
//! for the local hub: undecodable payloads are dropped silently, and so
//! is anything stamped with this process's own origin, which the
//! publisher already delivered locally.

use vstd::prelude::*;

use crate::codec::decode_envelope;
use crate::codec::encode_envelope;
use crate::codec::lemma_decode_encode;
use crate::codec::spec_decode_envelope;
use crate::codec::spec_encode_envelope;
use crate::message::ChatMessage;
use crate::message::ChatMessageView;
use crate::message::EnvelopeView;
use crate::message::spec_message_context;
use crate::server_id::ServerId;

verus! {

/// What one inbound bus payload becomes on a process whose origin stamp
/// is `local`: nothing for undecodable or own traffic, the rendered line
/// otherwise.
pub open spec fn spec_subscriber_step(local: Seq<char>, payload: Seq<char>) -> Option<
    Seq<char>,
> {
    match spec_decode_envelope(payload) {
        Some(env) => if env.id == local {
            None
        } else {
            Some(spec_message_context(env.msg))
        },
        None => None,
    }
}

/// Drains the queue of locally produced events: renders each one for the
/// local hub and stamps it for the shared bus.
pub struct ChatRoomPublisherService {
    server_id: ServerId,
    channel_name: String,
}

impl ChatRoomPublisherService {
    /// This process's origin stamp.
    pub closed spec fn spec_server_id(self) -> Seq<char> {
        self.server_id@
    }

    /// The bus channel this publisher posts on.
    pub closed spec fn spec_channel_name(self) -> Seq<char> {
        self.channel_name@
    }

    pub fn new(server_id: ServerId, channel_name: String) -> (r: Self)
        ensures
            r.spec_server_id() == server_id@,
            r.spec_channel_name() == channel_name@,
    {
        ChatRoomPublisherService { server_id, channel_name }
    }

    /// One step of the publisher loop, for one dequeued event: the
    /// rendered line to post on the local hub, and the stamped payload to
    /// publish on the bus, in that order.
    pub fn prepare(&self, msg: &ChatMessage) -> (r: (String, String))
        ensures
            r.0@ == spec_message_context(msg@),
            r.1@ == spec_encode_envelope(EnvelopeView { id: self.spec_server_id(), msg: msg@ }),
    {
        let line = msg.message_context();
        let payload = encode_envelope(&self.server_id, msg);
        (line, payload)
    }

    /// The channel to publish on.
    pub fn channel_name(&self) -> (r: &str)
        ensures
            r@ == self.spec_channel_name(),
    {
        self.channel_name.as_str()
    }
}

/// Receives every payload from the shared bus channel and forwards the
/// lines of other processes' events to the local hub.
pub struct ChatRoomSubscriberService {
    server_id: ServerId,
    channel_name: String,
}

impl ChatRoomSubscriberService {
    /// This process's origin stamp.
    pub closed spec fn spec_server_id(self) -> Seq<char> {
        self.server_id@
    }

    /// The bus channel this subscriber listens on.
    pub closed spec fn spec_channel_name(self) -> Seq<char> {
        self.channel_name@
    }

    pub fn new(server_id: ServerId, channel_name: String) -> (r: Self)
        ensures
            r.spec_server_id() == server_id@,
            r.spec_channel_name() == channel_name@,
    {
        ChatRoomSubscriberService { server_id, channel_name }
    }

    /// One step of the subscriber loop, for one inbound payload: the line
    /// to post on the local hub, or nothing for undecodable payloads and
    /// for this process's own traffic.
    pub fn handle_payload(&self, payload: &str) -> (r: Option<String>)
        ensures
            match r {
                Some(line) => spec_subscriber_step(self.spec_server_id(), payload@) == Some(
                    line@,
                ),
                None => spec_subscriber_step(self.spec_server_id(), payload@) is None,
            },
    {
        match decode_envelope(payload) {
            Some(envelope) => {
                if envelope.id.same_origin(&self.server_id) {
                    None
                } else {
                    Some(envelope.msg.message_context())
                }
            }
            None => None,
        }
    }

    /// The channel to subscribe on.
    pub fn channel_name(&self) -> (r: &str)
        ensures
            r@ == self.spec_channel_name(),
    {
        self.channel_name.as_str()
    }
}

/// Self-filtering: a payload stamped with a process's own origin is never
/// delivered back to that process's local hub through the subscriber; the
/// publisher's direct local post stays the only delivery there.
pub proof fn lemma_self_filtering(id: Seq<char>, msg: ChatMessageView)
    ensures
        spec_subscriber_step(id, spec_encode_envelope(EnvelopeView { id, msg })) is None,
{
    lemma_decode_encode(EnvelopeView { id, msg });
}

/// Foreign delivery: the same payload on any process with a different
/// origin stamp is delivered exactly as the event's rendered line, so an
/// event reaches every other process's local hub once.
pub proof fn lemma_foreign_delivery(local: Seq<char>, origin: Seq<char>, msg: ChatMessageView)
    requires
        origin != local,
    ensures
        spec_subscriber_step(local, spec_encode_envelope(EnvelopeView { id: origin, msg }))
            == Some(spec_message_context(msg)),
{
    lemma_decode_encode(EnvelopeView { id: origin, msg });
}

} // verus!
