//! Peer lifecycle policy.
//!
//! The decisions of the transport peers — what each connection-state change
//! triggers, when a sustained outage tears the session down, where an
//! outbound packet is routed, and how a transport session request is answered
//! — are pure functions of the observed state.  The asynchronous work around
//! them performs the actions these functions hand back.

use vstd::prelude::*;

use crate::packets::{CHANNEL_GENERAL, CHANNEL_STATS, TransportChannel};

verus! {

/// Milliseconds a peer may stay disconnected before the session is closed.
pub const TIMEOUT_MS: u64 = 10_000;

/// Extra delay of the one-shot timer beyond the timeout.
pub const TIMEOUT_SLACK_MS: u64 = 200;

/// The observed state of a peer connection.
#[derive(Clone, Copy, Debug, PartialEq, Eq, Structural)]
pub enum PeerConnectionState {
    New,
    Connecting,
    Connected,
    Disconnected,
    Failed,
    Closed,
    Unspecified,
}

/// What a primary-peer state change emits.
#[derive(Clone, Copy, Debug, PartialEq, Eq, Structural)]
pub enum PeerEmission {
    /// The peer connected: start streaming with the pinned settings.
    StartStream,
    /// The peer closed: report the session closed.
    ConnectionClosed,
    /// Nothing to emit.
    Nothing,
}

/// What a primary-peer state change does to the termination timer.
#[derive(Clone, Copy, Debug, PartialEq, Eq, Structural)]
pub enum TimerEffect {
    /// A failure or disconnect: arm the timer.
    Arm,
    /// A recovery state: clear the pending disconnect.
    Clear,
    /// Leave the timer as it stands.
    Keep,
}

/// What a primary-peer state change triggers: connecting both starts the
/// stream and, being a recovery, clears the pending disconnect; closing
/// reports closure; a failure or disconnect arms the termination timer; every
/// other state clears it.
pub fn peer_state_action(state: PeerConnectionState) -> (r: (PeerEmission, TimerEffect))
    ensures
        r == match state {
            PeerConnectionState::Connected => (PeerEmission::StartStream, TimerEffect::Clear),
            PeerConnectionState::Closed => (PeerEmission::ConnectionClosed, TimerEffect::Keep),
            PeerConnectionState::Failed => (PeerEmission::Nothing, TimerEffect::Arm),
            PeerConnectionState::Disconnected => (PeerEmission::Nothing, TimerEffect::Arm),
            _ => (PeerEmission::Nothing, TimerEffect::Clear),
        },
{
    match state {
        PeerConnectionState::Connected => (PeerEmission::StartStream, TimerEffect::Clear),
        PeerConnectionState::Closed => (PeerEmission::ConnectionClosed, TimerEffect::Keep),
        PeerConnectionState::Failed => (PeerEmission::Nothing, TimerEffect::Arm),
        PeerConnectionState::Disconnected => (PeerEmission::Nothing, TimerEffect::Arm),
        _ => (PeerEmission::Nothing, TimerEffect::Clear),
    }
}

/// Law: a brief flap that recovers is never torn down.  A connected recovery
/// clears the pending disconnect (the clearing effect is part of
/// `peer_state_action`'s contract on the connected state), and a cleared
/// timer closes nothing at any later instant.
pub proof fn lemma_flap_does_not_close(t: TerminationTimer, now: u64)
    requires
        t.slot is None,
    ensures
        !(t.slot is Some && now >= t.slot->0 && now - t.slot->0 > TIMEOUT_MS),
{
}

/// What an input-peer state change triggers.
#[derive(Clone, Copy, Debug, PartialEq, Eq, Structural)]
pub enum InputPeerAction {
    /// The input peer connected: report it ready.
    EmitInputReady,
    /// The input peer ended: clear the input slots; the primary continues.
    ClearInputPeer,
    /// Nothing to do.
    NoAction,
}

/// The action an input-peer state change triggers.  An input peer that fails
/// never tears the session down.
pub fn input_peer_state_action(state: PeerConnectionState) -> (r: InputPeerAction)
    ensures
        r == match state {
            PeerConnectionState::Connected => InputPeerAction::EmitInputReady,
            PeerConnectionState::Failed => InputPeerAction::ClearInputPeer,
            PeerConnectionState::Disconnected => InputPeerAction::ClearInputPeer,
            PeerConnectionState::Closed => InputPeerAction::ClearInputPeer,
            _ => InputPeerAction::NoAction,
        },
{
    match state {
        PeerConnectionState::Connected => InputPeerAction::EmitInputReady,
        PeerConnectionState::Failed => InputPeerAction::ClearInputPeer,
        PeerConnectionState::Disconnected => InputPeerAction::ClearInputPeer,
        PeerConnectionState::Closed => InputPeerAction::ClearInputPeer,
        _ => InputPeerAction::NoAction,
    }
}

/// The termination slot: the instant at which a disconnect was observed.
pub struct TerminationTimer {
    /// The instant (milliseconds) the pending disconnect was recorded, if
    /// one is pending.
    pub slot: Option<u64>,
}

impl TerminationTimer {
    /// A timer with no pending disconnect.
    pub fn new() -> (r: TerminationTimer)
        ensures
            r.slot is None,
    {
        TerminationTimer { slot: None }
    }

    /// Record a disconnect observed now.
    pub fn arm(&mut self, now: u64)
        ensures
            final(self).slot == Some(now),
    {
        self.slot = Some(now);
    }

    /// A recovery state clears the pending disconnect.
    pub fn clear(&mut self)
        ensures
            final(self).slot is None,
    {
        self.slot = None;
    }

    /// Whether the one-shot check must close the session: a disconnect is
    /// still pending and it is older than the timeout.
    pub fn should_close(&self, now: u64) -> (r: bool)
        ensures
            r == (self.slot is Some && now >= self.slot->0 && now - self.slot->0 > TIMEOUT_MS),
    {
        match self.slot {
            Some(at) => now >= at && now - at > TIMEOUT_MS,
            None => false,
        }
    }
}

/// Where an outbound packet goes.
#[derive(Clone, Copy, Debug, PartialEq, Eq, Structural)]
pub enum RouteDecision {
    /// Send on the primary peer's general channel.
    PrimaryGeneral,
    /// Send on the input peer's statistics channel.
    InputStats,
    /// Send on the primary peer's statistics channel.
    PrimaryStats,
    /// No open channel can carry the packet.
    ChannelClosed,
}

/// Route an outbound packet: general traffic goes to the primary peer; in
/// hybrid mode statistics prefer the input peer's channel and fall back to
/// the primary's; anything else has no outbound channel.
pub fn route_outbound(
    channel: TransportChannel,
    input_stats_open: bool,
    primary_stats_open: bool,
) -> (r: RouteDecision)
    ensures
        r == (if channel.0 == CHANNEL_GENERAL {
            RouteDecision::PrimaryGeneral
        } else if channel.0 == CHANNEL_STATS {
            if input_stats_open {
                RouteDecision::InputStats
            } else if primary_stats_open {
                RouteDecision::PrimaryStats
            } else {
                RouteDecision::ChannelClosed
            }
        } else {
            RouteDecision::ChannelClosed
        }),
{
    if channel.0 == CHANNEL_GENERAL {
        RouteDecision::PrimaryGeneral
    } else if channel.0 == CHANNEL_STATS {
        if input_stats_open {
            RouteDecision::InputStats
        } else if primary_stats_open {
            RouteDecision::PrimaryStats
        } else {
            RouteDecision::ChannelClosed
        }
    } else {
        RouteDecision::ChannelClosed
    }
}

/// How an incoming transport session request is answered.
#[derive(Clone, Copy, Debug, PartialEq, Eq, Structural)]
pub enum SessionRequestDecision {
    /// Accept as the main (video and audio) session.
    AcceptMain,
    /// Accept as the input session.
    AcceptInput,
    /// Refuse: input requested but no session token is configured.
    Forbidden,
    /// Refuse: a session of that kind is already bound.
    TooManyRequests,
}

/// What an accepted session owes beyond being stored.
#[derive(Clone, Copy, Debug, PartialEq, Eq, Structural)]
pub enum SessionAcceptNotice {
    /// The main session was bound: emit one start-stream event carrying the
    /// session's pinned settings, and hand the connection to the video path.
    EmitStartStreamWithSettings,
    /// The input session was bound: emit one input-ready notice over IPC.
    EmitInputReady,
    /// The request was refused: nothing is owed.
    NoNotice,
}

/// Decide an incoming session request.  An input request needs a configured
/// session token and a free input slot; a main request needs a free main
/// slot.  An acceptance names the one notice it owes; a refusal owes nothing.
pub fn session_request_decision(
    input_path: bool,
    token_configured: bool,
    main_bound: bool,
    input_bound: bool,
) -> (r: (SessionRequestDecision, SessionAcceptNotice))
    ensures
        r == (if input_path {
            if !token_configured {
                (SessionRequestDecision::Forbidden, SessionAcceptNotice::NoNotice)
            } else if input_bound {
                (SessionRequestDecision::TooManyRequests, SessionAcceptNotice::NoNotice)
            } else {
                (SessionRequestDecision::AcceptInput, SessionAcceptNotice::EmitInputReady)
            }
        } else {
            if main_bound {
                (SessionRequestDecision::TooManyRequests, SessionAcceptNotice::NoNotice)
            } else {
                (
                    SessionRequestDecision::AcceptMain,
                    SessionAcceptNotice::EmitStartStreamWithSettings,
                )
            }
        }),
{
    if input_path {
        if !token_configured {
            (SessionRequestDecision::Forbidden, SessionAcceptNotice::NoNotice)
        } else if input_bound {
            (SessionRequestDecision::TooManyRequests, SessionAcceptNotice::NoNotice)
        } else {
            (SessionRequestDecision::AcceptInput, SessionAcceptNotice::EmitInputReady)
        }
    } else {
        if main_bound {
            (SessionRequestDecision::TooManyRequests, SessionAcceptNotice::NoNotice)
        } else {
            (SessionRequestDecision::AcceptMain, SessionAcceptNotice::EmitStartStreamWithSettings)
        }
    }
}

/// A message from the parent over the session's IPC link.
pub enum ServerIpcMessage {
    /// The forwarded session configuration; consumed by the session's
    /// bootstrap before any transport exists.
    Init(crate::settings::StreamSettings),
    /// Signaling payload relayed from the primary leg.
    WebSocket(String),
    /// The input connection joined the session.
    InputJoined,
    /// Signaling payload relayed from the input leg.
    InputWebSocket(String),
    /// The input connection disconnected.
    InputDisconnected,
    /// Stop the session.
    Stop,
}

/// What the transport does with an IPC message.
pub enum TransportDirective {
    /// Handle primary-leg signaling with this payload.
    HandleSignaling(String),
    /// Create the input-only peer and send it an offer.
    CreateInputPeer,
    /// Handle input-leg signaling with this payload.
    HandleInputSignaling(String),
    /// Close and drop the input peer.
    CloseInputPeer,
    /// Nothing for the transport: handled elsewhere.
    NoDirective,
}

/// Dispatch an IPC message to the media-and-signaling transport's own
/// concern; the session configuration and the stop order are handled by the
/// session's bootstrap and teardown, not by the transport.
pub fn ipc_directive(message: ServerIpcMessage) -> (r: TransportDirective)
    ensures
        match message {
            ServerIpcMessage::Init(_) => r == TransportDirective::NoDirective,
            ServerIpcMessage::WebSocket(payload) => r == TransportDirective::HandleSignaling(
                payload,
            ),
            ServerIpcMessage::InputJoined => r == TransportDirective::CreateInputPeer,
            ServerIpcMessage::InputWebSocket(payload) => r
                == TransportDirective::HandleInputSignaling(payload),
            ServerIpcMessage::InputDisconnected => r == TransportDirective::CloseInputPeer,
            ServerIpcMessage::Stop => r == TransportDirective::NoDirective,
        },
{
    match message {
        ServerIpcMessage::Init(_) => TransportDirective::NoDirective,
        ServerIpcMessage::WebSocket(payload) => TransportDirective::HandleSignaling(payload),
        ServerIpcMessage::InputJoined => TransportDirective::CreateInputPeer,
        ServerIpcMessage::InputWebSocket(payload) => TransportDirective::HandleInputSignaling(
            payload,
        ),
        ServerIpcMessage::InputDisconnected => TransportDirective::CloseInputPeer,
        ServerIpcMessage::Stop => TransportDirective::NoDirective,
    }
}

/// The one IPC message the datagram-and-stream transport acts on: an input
/// disconnect clears the input channels; every other message is the concern
/// of the bootstrap or needs no transport work, since signaling happens over
/// the transport's own session requests.
pub fn datagram_transport_clears_input(message: &ServerIpcMessage) -> (r: bool)
    ensures
        r == (message is InputDisconnected),
{
    match message {
        ServerIpcMessage::InputDisconnected => true,
        _ => false,
    }
}

/// The shutdown state of a transport.
pub struct TransportShutdown {
    /// Whether the accept loop has been signalled to exit.
    pub shutdown_signalled: bool,
    /// Whether the main session has been closed.
    pub main_closed: bool,
    /// Whether the input session has been closed.
    pub input_closed: bool,
}

impl TransportShutdown {
    /// A transport that has not begun shutting down.
    pub fn new() -> (r: TransportShutdown)
        ensures
            !r.shutdown_signalled,
            !r.main_closed,
            !r.input_closed,
    {
        TransportShutdown { shutdown_signalled: false, main_closed: false, input_closed: false }
    }

    /// Close the transport: signal the accept loop and close both sessions.
    /// Closing always succeeds, and closing an already-closed transport
    /// changes nothing.
    pub fn close(&mut self) -> (r: Result<(), ()>)
        ensures
            r is Ok,
            final(self).shutdown_signalled,
            final(self).main_closed,
            final(self).input_closed,
            old(self).closed() ==> *final(self) == *old(self),
    {
        self.shutdown_signalled = true;
        self.main_closed = true;
        self.input_closed = true;
        Ok(())
    }

    /// Whether the transport is fully closed.
    pub open spec fn closed(&self) -> bool {
        self.shutdown_signalled && self.main_closed && self.input_closed
    }
}

/// Law: `close` is idempotent — on an already-closed transport the effect of
/// closing, setting all three shutdown marks, is the identity, so a repeated
/// close succeeds and changes nothing.
pub proof fn lemma_close_idempotent(t: TransportShutdown)
    requires
        t.closed(),
    ensures
        (TransportShutdown { shutdown_signalled: true, main_closed: true, input_closed: true })
            == t,
{
}

/// One data channel the server creates on the input peer before the offer.
pub struct ChannelSpec {
    /// The channel's label.
    pub label: &'static str,
    /// Whether the channel is ordered and reliable; an unordered channel is
    /// created with zero retransmits.
    pub ordered: bool,
}

/// The full set of data channels the server creates on the input-only peer,
/// in creation order.  They must all exist before the offer is created, since
/// streams are not advertised in a description made after channel creation.
/// Mouse and controller channels are unordered for latency; keyboard, touch
/// and statistics are ordered.
pub fn input_channel_plan() -> (r: Vec<ChannelSpec>)
    ensures
        r@.len() == 23,
        r@[0].label@ == "mouse_reliable"@ && r@[0].ordered,
        r@[1].label@ == "mouse_absolute"@ && !r@[1].ordered,
        r@[2].label@ == "mouse_relative"@ && !r@[2].ordered,
        r@[3].label@ == "keyboard"@ && r@[3].ordered,
        r@[4].label@ == "touch"@ && r@[4].ordered,
        r@[5].label@ == "controllers"@ && !r@[5].ordered,
        r@[6].label@ == "controller0"@ && !r@[6].ordered,
        r@[7].label@ == "controller1"@ && !r@[7].ordered,
        r@[8].label@ == "controller2"@ && !r@[8].ordered,
        r@[9].label@ == "controller3"@ && !r@[9].ordered,
        r@[10].label@ == "controller4"@ && !r@[10].ordered,
        r@[11].label@ == "controller5"@ && !r@[11].ordered,
        r@[12].label@ == "controller6"@ && !r@[12].ordered,
        r@[13].label@ == "controller7"@ && !r@[13].ordered,
        r@[14].label@ == "controller8"@ && !r@[14].ordered,
        r@[15].label@ == "controller9"@ && !r@[15].ordered,
        r@[16].label@ == "controller10"@ && !r@[16].ordered,
        r@[17].label@ == "controller11"@ && !r@[17].ordered,
        r@[18].label@ == "controller12"@ && !r@[18].ordered,
        r@[19].label@ == "controller13"@ && !r@[19].ordered,
        r@[20].label@ == "controller14"@ && !r@[20].ordered,
        r@[21].label@ == "controller15"@ && !r@[21].ordered,
        r@[22].label@ == "stats"@ && r@[22].ordered,
{
    let mut r: Vec<ChannelSpec> = Vec::new();
    r.push(ChannelSpec { label: "mouse_reliable", ordered: true });
    r.push(ChannelSpec { label: "mouse_absolute", ordered: false });
    r.push(ChannelSpec { label: "mouse_relative", ordered: false });
    r.push(ChannelSpec { label: "keyboard", ordered: true });
    r.push(ChannelSpec { label: "touch", ordered: true });
    r.push(ChannelSpec { label: "controllers", ordered: false });
    r.push(ChannelSpec { label: "controller0", ordered: false });
    r.push(ChannelSpec { label: "controller1", ordered: false });
    r.push(ChannelSpec { label: "controller2", ordered: false });
    r.push(ChannelSpec { label: "controller3", ordered: false });
    r.push(ChannelSpec { label: "controller4", ordered: false });
    r.push(ChannelSpec { label: "controller5", ordered: false });
    r.push(ChannelSpec { label: "controller6", ordered: false });
    r.push(ChannelSpec { label: "controller7", ordered: false });
    r.push(ChannelSpec { label: "controller8", ordered: false });
    r.push(ChannelSpec { label: "controller9", ordered: false });
    r.push(ChannelSpec { label: "controller10", ordered: false });
    r.push(ChannelSpec { label: "controller11", ordered: false });
    r.push(ChannelSpec { label: "controller12", ordered: false });
    r.push(ChannelSpec { label: "controller13", ordered: false });
    r.push(ChannelSpec { label: "controller14", ordered: false });
    r.push(ChannelSpec { label: "controller15", ordered: false });
    r.push(ChannelSpec { label: "stats", ordered: true });
    r
}

/// Whether a transport path names the input session: it contains the
/// `/input` segment.
pub open spec fn spec_is_input_path(path: Seq<char>) -> bool {
    exists|i: int| 0 <= i && i + 6 <= path.len() && (#[trigger] path.subrange(i, i + 6)) == "/input"@
}

/// Dispatch a session request by its path: a path containing the `/input`
/// segment asks for the input session, any other for the main session.
pub fn is_input_path(path: &str) -> (r: bool)
    ensures
        r == spec_is_input_path(path@),
{
    proof {
        reveal_strlit("/input");
    }
    let n = path.unicode_len();
    if n < 6 {
        proof {
            if spec_is_input_path(path@) {
                let i = choose|i: int|
                    0 <= i && i + 6 <= path@.len() && (#[trigger] path@.subrange(i, i + 6))
                        == "/input"@;
                assert(path@.subrange(i, i + 6).len() == 6);
            }
        }
        return false;
    }
    let mut i: usize = 0;
    while i <= n - 6
        invariant
            n == path@.len(),
            n >= 6,
            i <= n - 5,
            forall|k: int| 0 <= k < i ==> (#[trigger] path@.subrange(k, k + 6)) != "/input"@,
        decreases n - i,
    {
        proof {
            reveal_strlit("/input");
        }
        let needle = "/input";
        let mut j: usize = 0;
        let mut matches = true;
        while j < 6
            invariant_except_break
                matches,
                forall|k: int| 0 <= k < j ==> (#[trigger] path@[i + k]) == "/input"@[k],
            invariant
                n == path@.len(),
                i + 6 <= n,
                j <= 6,
                needle@ == "/input"@,
            ensures
                n == path@.len(),
                i + 6 <= n,
                matches ==> forall|k: int| 0 <= k < 6 ==> (#[trigger] path@[i + k]) == "/input"@[k],
                !matches ==> path@.subrange(i as int, i as int + 6) != "/input"@,
            decreases 6 - j,
        {
            proof {
                reveal_strlit("/input");
            }
            if path.get_char(i + j) != needle.get_char(j) {
                matches = false;
                proof {
                    assert(path@.subrange(i as int, i as int + 6) != "/input"@) by {
                        if path@.subrange(i as int, i as int + 6) == "/input"@ {
                            assert(path@.subrange(i as int, i as int + 6)[j as int] == path@[
                            i as int + j as int]);
                        }
                    }
                }
                break;
            }
            j = j + 1;
        }
        if matches {
            proof {
                reveal_strlit("/input");
                assert forall|k: int| 0 <= k < 6 implies path@.subrange(
                    i as int,
                    i as int + 6,
                )[k] == "/input"@[k] by {
                    assert(path@[i + k] == "/input"@[k]);
                }
                assert(path@.subrange(i as int, i as int + 6) =~= "/input"@);
            }
            return true;
        }
        i = i + 1;
    }
    proof {
        if spec_is_input_path(path@) {
            let w = choose|w: int|
                0 <= w && w + 6 <= path@.len() && (#[trigger] path@.subrange(w, w + 6))
                    == "/input"@;
            assert(w < i);
        }
    }
    false
}

} // verus!


