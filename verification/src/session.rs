//! The per-connection session state machine.
//!
//! A session owns one socket (held outside this crate), claims one
//! (room, username) pair on its first text frame, and runs two pumps while
//! joined. The transitions here decide everything; the surrounding runtime
//! only performs I/O and reports what happened. Every path out of `Joined`
//! runs through a release of the claim, so a closed session never leaves
//! its pair behind in the registry.

use vstd::prelude::*;
use vstd::string::StringExecFns;

use crate::message::ChatMessage;
use crate::message::ChatMessageView;
use crate::registry::ChatRoomUser;
use crate::registry::RoomRegistry;

verus! {

/// Where a session stands in its lifecycle.
#[derive(Clone, Copy, Debug, PartialEq, Eq, Structural)]
pub enum SessionPhase {
    /// Reading frames until the first text frame names the user.
    AwaitingIdentity,
    /// Claim held, pumps running.
    Joined,
    /// Pumps stopped, leave event emitted, claim still to release.
    Closing,
    /// Everything released.
    Closed,
}

/// The line sent to a client whose chosen username is already live.
pub open spec fn spec_rejection_line() -> Seq<char> {
    "Username already taken."@
}

/// What the session tells its runtime after the identity frame.
pub enum JoinOutcome {
    /// The claim succeeded: announce this event and start the pumps.
    Accepted { join_event: ChatMessage },
    /// The username is taken: send this line, close the socket, done.
    Rejected { rejection_line: String },
}

/// One connection's state machine.
pub struct Session {
    phase: SessionPhase,
    room_name: String,
    username: Option<String>,
    guard: Option<ChatRoomUser>,
}

impl Session {
    /// The session's current phase.
    pub closed spec fn spec_phase(self) -> SessionPhase {
        self.phase
    }

    /// The room this session serves.
    pub closed spec fn spec_room(self) -> Seq<char> {
        self.room_name@
    }

    /// The username claimed by this session; meaningful from `Joined` on.
    pub closed spec fn spec_username(self) -> Seq<char> {
        match self.username {
            Some(u) => u@,
            None => Seq::empty(),
        }
    }

    /// Whether the session still holds its membership claim.
    pub closed spec fn holds_claim(self) -> bool {
        self.guard is Some
    }

    /// The session's structural invariant: a claim is held exactly while
    /// the session is `Joined` or `Closing`, and it names this session's
    /// room and username.
    pub closed spec fn wf(self) -> bool {
        match self.phase {
            SessionPhase::AwaitingIdentity => self.guard is None && self.username is None,
            SessionPhase::Joined | SessionPhase::Closing => match (self.username, self.guard) {
                (Some(u), Some(g)) => g@ == (self.room_name@, u@),
                _ => false,
            },
            SessionPhase::Closed => self.guard is None,
        }
    }

    /// A fresh session for one just-accepted socket.
    pub fn new(room_name: String) -> (s: Session)
        ensures
            s.wf(),
            s.spec_phase() == SessionPhase::AwaitingIdentity,
            s.spec_room() == room_name@,
            !s.holds_claim(),
    {
        Session { phase: SessionPhase::AwaitingIdentity, room_name, username: None, guard: None }
    }

    /// The first text frame named the desired username: claim it. On
    /// success the session is joined and hands back the join event to
    /// announce; the runtime then subscribes to the hub and starts the
    /// pumps. When the username is already live anywhere, nothing is
    /// claimed, no event exists to announce, and the session is closed
    /// after the single rejection line.
    pub fn on_identity_frame(&mut self, registry: &mut RoomRegistry, username: String) -> (r:
        JoinOutcome)
        requires
            old(self).wf(),
            old(self).spec_phase() == SessionPhase::AwaitingIdentity,
        ensures
            final(self).wf(),
            final(self).spec_room() == old(self).spec_room(),
            if old(registry)@.contains((old(self).spec_room(), username@)) {
                &&& final(registry)@ == old(registry)@
                &&& final(self).spec_phase() == SessionPhase::Closed
                &&& !final(self).holds_claim()
                &&& (r matches JoinOutcome::Rejected { rejection_line } && rejection_line@
                    == spec_rejection_line())
            } else {
                &&& final(registry)@ == old(registry)@.insert(
                    (old(self).spec_room(), username@),
                )
                &&& final(self).spec_phase() == SessionPhase::Joined
                &&& final(self).holds_claim()
                &&& final(self).spec_username() == username@
                &&& (r matches JoinOutcome::Accepted { join_event } && join_event@
                    == ChatMessageView::Join {
                    username: username@,
                    room_name: old(self).spec_room(),
                })
            },
    {
        match ChatRoomUser::try_new(registry, self.room_name.as_str(), username.as_str()) {
            Some(guard) => {
                let join_event = ChatMessage::Join {
                    username: username.clone(),
                    room_name: self.room_name.clone(),
                };
                self.username = Some(username);
                self.guard = Some(guard);
                self.phase = SessionPhase::Joined;
                JoinOutcome::Accepted { join_event }
            }
            None => {
                self.phase = SessionPhase::Closed;
                JoinOutcome::Rejected {
                    rejection_line: String::from_str("Username already taken."),
                }
            }
        }
    }

    /// The receive pump got a text frame from the client: the chat event
    /// to enqueue for the publisher, in the client's send order.
    pub fn chat_event(&self, context: String) -> (r: ChatMessage)
        requires
            self.wf(),
            self.spec_phase() == SessionPhase::Joined,
        ensures
            r@ == (ChatMessageView::Chat {
                username: self.spec_username(),
                room_name: self.spec_room(),
                context: context@,
            }),
    {
        ChatMessage::Chat {
            username: self.username.as_ref().unwrap().clone(),
            room_name: self.room_name.clone(),
            context,
        }
    }

    /// Both pumps have stopped, by error, disconnect or cancellation: the
    /// session starts closing and hands back the leave event to announce.
    pub fn on_pumps_finished(&mut self) -> (r: ChatMessage)
        requires
            old(self).wf(),
            old(self).spec_phase() == SessionPhase::Joined,
        ensures
            final(self).wf(),
            final(self).spec_phase() == SessionPhase::Closing,
            final(self).spec_room() == old(self).spec_room(),
            final(self).spec_username() == old(self).spec_username(),
            final(self).holds_claim(),
            r@ == (ChatMessageView::Leave {
                username: old(self).spec_username(),
                room_name: old(self).spec_room(),
            }),
    {
        let leave_event = ChatMessage::Leave {
            username: self.username.as_ref().unwrap().clone(),
            room_name: self.room_name.clone(),
        };
        self.phase = SessionPhase::Closing;
        leave_event
    }

    /// Release the claim and close. After this, the registry no longer
    /// holds the session's pair, whatever happened to the pumps before.
    pub fn finish(&mut self, registry: &mut RoomRegistry)
        requires
            old(self).wf(),
            old(self).spec_phase() == SessionPhase::Closing,
        ensures
            final(self).wf(),
            final(self).spec_phase() == SessionPhase::Closed,
            !final(self).holds_claim(),
            final(registry)@ == old(registry)@.remove(
                (old(self).spec_room(), old(self).spec_username()),
            ),
            !final(registry)@.contains((old(self).spec_room(), old(self).spec_username())),
    {
        let guard_opt = self.guard.take();
        match guard_opt {
            Some(guard) => guard.release(registry),
            None => {
                proof {
                    assert(false);
                }
            }
        }
        self.phase = SessionPhase::Closed;
    }

    /// Tear the session down from any phase: the single cleanup path for
    /// abrupt transport errors, cancellation, or a panicking pump. A claim
    /// that was held is gone from the registry afterwards.
    pub fn abort(&mut self, registry: &mut RoomRegistry)
        requires
            old(self).wf(),
        ensures
            final(self).wf(),
            final(self).spec_phase() == SessionPhase::Closed,
            !final(self).holds_claim(),
            old(self).holds_claim() ==> final(registry)@ == old(registry)@.remove(
                (old(self).spec_room(), old(self).spec_username()),
            ) && !final(registry)@.contains(
                (old(self).spec_room(), old(self).spec_username()),
            ),
            !old(self).holds_claim() ==> final(registry)@ == old(registry)@,
    {
        let guard_opt = self.guard.take();
        match guard_opt {
            Some(guard) => guard.release(registry),
            None => {}
        }
        self.phase = SessionPhase::Closed;
    }
}

} // verus!
