//! The decision logic of the two serving loops, as pure state machines.
//!
//! The loop around the library performs one socket operation per step, hands
//! the outcome in as an event, and carries out the action it gets back. All
//! policy — what is forwarded where, which replies are discarded, which
//! failures abandon only the current iteration and which end the service —
//! lives here, where it is verified; the loop itself stays a thin shell.
//!
//! The address type `A` is opaque to the engine: addresses are only carried
//! from the event that produced them to the action that answers them.

use vstd::prelude::*;

verus! {

/// Where the relay stands between two socket operations.
#[derive(Debug, PartialEq)]
pub enum RelayState<A> {
    /// Waiting for the next client Ping.
    AwaitPing,
    /// A Ping is being forwarded to the real server for this client.
    Forwarding { client: A },
    /// The forward went out; waiting for the real server's reply.
    AwaitPong { client: A },
    /// The reply is being sent back to the client.
    Replying,
}

/// The outcome of the socket operation the relay asked for last.
#[derive(Debug, PartialEq)]
pub enum RelayEvent<A> {
    /// A datagram arrived on the client-facing socket.
    ClientPing { ping: Vec<u8>, client: A },
    /// Reading the client-facing socket failed.
    ClientRecvFailed,
    /// The forward to the real server was sent.
    ServerSendOk,
    /// The forward to the real server could not be sent.
    ServerSendFailed,
    /// A datagram arrived on the server-facing socket, from `source_port`.
    ServerReply { pong: Vec<u8>, source_port: u16 },
    /// Reading the server-facing socket failed or timed out.
    ServerRecvFailed,
    /// The reply reached the client-facing socket.
    ClientSendOk,
    /// The reply could not be sent on the client-facing socket.
    ClientSendFailed,
}

/// What the loop around the relay must do next.
#[derive(Debug, PartialEq)]
pub enum RelayAction<A> {
    /// Block on the client-facing socket for the next Ping.
    RecvClient,
    /// Send these bytes to the real server's port.
    SendServer { ping: Vec<u8> },
    /// Block on the server-facing socket, with its configured timeout.
    RecvServer,
    /// Send these bytes to this client on the client-facing socket.
    SendClient { pong: Vec<u8>, client: A },
    /// Stop serving: the client-facing socket is unusable.
    Shutdown,
}

/// One step of the relay: from the current state and the latest event to the
/// next state and the next action.
///
/// The policy, in order of the states:
/// - a received Ping is forwarded to the real server unmodified; a failed
///   client read is retried;
/// - once the forward is reported sent, the relay waits for the server's
///   reply; a failed forward abandons the iteration, and that client simply
///   gets no reply — clients retry their Pings on their own;
/// - a reply is relayed to the client unmodified, but only when it arrives
///   from the real server's own port; a reply from any other port, a timeout
///   or a read failure abandons the iteration silently;
/// - a failure to send the reply to the client ends the service, since an
///   unusable client-facing socket invalidates it entirely; a successful
///   send completes the iteration.
///
/// An event that does not belong to the current state abandons the iteration
/// and starts over awaiting a client.
pub open spec fn spec_relay_step<A>(
    server_port: u16,
    state: RelayState<A>,
    event: RelayEvent<A>,
) -> (RelayState<A>, RelayAction<A>) {
    match (state, event) {
        (RelayState::AwaitPing, RelayEvent::ClientPing { ping, client }) => (
            RelayState::Forwarding { client },
            RelayAction::SendServer { ping },
        ),
        (RelayState::Forwarding { client }, RelayEvent::ServerSendOk) => (
            RelayState::AwaitPong { client },
            RelayAction::RecvServer,
        ),
        (RelayState::AwaitPong { client }, RelayEvent::ServerReply { pong, source_port }) => {
            if source_port == server_port {
                (RelayState::Replying, RelayAction::SendClient { pong, client })
            } else {
                (RelayState::AwaitPing, RelayAction::RecvClient)
            }
        },
        (RelayState::Replying, RelayEvent::ClientSendFailed) => (
            RelayState::AwaitPing,
            RelayAction::Shutdown,
        ),
        _ => (RelayState::AwaitPing, RelayAction::RecvClient),
    }
}

/// Executes [`spec_relay_step`].
pub fn relay_step<A>(server_port: u16, state: RelayState<A>, event: RelayEvent<A>) -> (r: (
    RelayState<A>,
    RelayAction<A>,
))
    ensures
        r == spec_relay_step(server_port, state, event),
{
    match (state, event) {
        (RelayState::AwaitPing, RelayEvent::ClientPing { ping, client }) => (
            RelayState::Forwarding { client },
            RelayAction::SendServer { ping },
        ),
        (RelayState::Forwarding { client }, RelayEvent::ServerSendOk) => (
            RelayState::AwaitPong { client },
            RelayAction::RecvServer,
        ),
        (RelayState::AwaitPong { client }, RelayEvent::ServerReply { pong, source_port }) => {
            if source_port == server_port {
                (RelayState::Replying, RelayAction::SendClient { pong, client })
            } else {
                (RelayState::AwaitPing, RelayAction::RecvClient)
            }
        },
        (RelayState::Replying, RelayEvent::ClientSendFailed) => (
            RelayState::AwaitPing,
            RelayAction::Shutdown,
        ),
        _ => (RelayState::AwaitPing, RelayAction::RecvClient),
    }
}

/// Law: a client's Ping is forwarded to the real server byte-for-byte.
pub proof fn lemma_relay_forwards_verbatim<A>(server_port: u16, ping: Vec<u8>, client: A)
    ensures
        ({
            let event = RelayEvent::ClientPing { ping, client };
            let want = RelayAction::<A>::SendServer { ping };
            spec_relay_step(server_port, RelayState::AwaitPing, event).1 == want
        }),
{
}

/// Law: the real server's reply is relayed to the waiting client
/// byte-for-byte when it arrives from the server's own port.
pub proof fn lemma_relay_relays_verbatim<A>(server_port: u16, pong: Vec<u8>, client: A)
    ensures
        ({
            let state = RelayState::AwaitPong { client };
            let event = RelayEvent::ServerReply { pong, source_port: server_port };
            let want = RelayAction::<A>::SendClient { pong, client };
            spec_relay_step(server_port, state, event).1 == want
        }),
{
}

/// Law: a reply from any port other than the real server's never produces a
/// datagram to a client, whatever state the relay is in; the iteration is
/// abandoned.
pub proof fn lemma_relay_discards_wrong_origin<A>(
    server_port: u16,
    state: RelayState<A>,
    pong: Vec<u8>,
    source_port: u16,
)
    requires
        source_port != server_port,
    ensures
        ({
            let event = RelayEvent::ServerReply { pong, source_port };
            let r = spec_relay_step(server_port, state, event);
            !(r.1 is SendClient) && r.0 is AwaitPing
        }),
{
}

/// Law: of all the failures the relay can see, only a failed send to the
/// client-facing socket ends the service; every other failure leaves the
/// relay awaiting the next client.
pub proof fn lemma_relay_failures_non_fatal<A>(
    server_port: u16,
    state: RelayState<A>,
    event: RelayEvent<A>,
)
    requires
        !(state is Replying && event is ClientSendFailed),
    ensures
        !(spec_relay_step(server_port, state, event).1 is Shutdown),
{
}

/// The outcome of the socket operation the synthesizer asked for last.
#[derive(Debug, PartialEq)]
pub enum SynthEvent<A> {
    /// A datagram arrived; its contents are deliberately not validated.
    ClientPing { ping: Vec<u8>, client: A },
    /// Reading the socket failed.
    ClientRecvFailed,
    /// The cached Pong reached the client.
    ClientSendOk,
    /// The cached Pong could not be sent to this client.
    ClientSendFailed,
}

/// What the loop around the synthesizer must do next. There is no fatal
/// outcome: a failed reply to one client must not affect the next.
#[derive(Debug, PartialEq)]
pub enum SynthAction<A> {
    /// Block on the socket for the next datagram.
    RecvClient,
    /// Send these bytes to this client.
    SendClient { pong: Vec<u8>, client: A },
}

/// What a synthesize step answers: any received datagram — validated no
/// further — is answered with the cached Pong bytes; everything else, a
/// successful send and both failures alike, just waits for the next
/// datagram.
pub open spec fn spec_synth_reply<A>(pong: Seq<u8>, event: SynthEvent<A>) -> Option<(Seq<u8>, A)> {
    match event {
        SynthEvent::ClientPing { ping, client } => Some((pong, client)),
        _ => None,
    }
}

/// One step of the synthesizer: answers every datagram with the one cached
/// Pong, unchanged, and treats every failure as local to its iteration.
pub fn synth_step<A>(pong: &Vec<u8>, event: SynthEvent<A>) -> (r: SynthAction<A>)
    ensures
        match r {
            SynthAction::SendClient { pong: p, client: c } => spec_synth_reply(pong@, event)
                == Some((p@, c)),
            SynthAction::RecvClient => spec_synth_reply(pong@, event) is None,
        },
{
    match event {
        SynthEvent::ClientPing { ping: _, client } => {
            let copy = copy_bytes(pong);
            SynthAction::SendClient { pong: copy, client }
        },
        _ => SynthAction::RecvClient,
    }
}

/// Law: in one run, every client's Ping is answered with the same cached
/// Pong bytes — two distinct clients receive byte-identical replies.
pub proof fn lemma_synth_uniform_replies<A>(
    pong: Seq<u8>,
    ping1: Vec<u8>,
    client1: A,
    ping2: Vec<u8>,
    client2: A,
)
    ensures
        ({
            let r1 = spec_synth_reply(pong, SynthEvent::ClientPing { ping: ping1, client: client1 });
            let r2 = spec_synth_reply(pong, SynthEvent::ClientPing { ping: ping2, client: client2 });
            &&& r1 is Some
            &&& r2 is Some
            &&& r1->Some_0.0 == r2->Some_0.0
            &&& r1->Some_0.0 == pong
        }),
{
}

/// A fresh copy of the bytes.
fn copy_bytes(v: &Vec<u8>) -> (r: Vec<u8>)
    ensures
        r@ == v@,
{
    let mut r: Vec<u8> = Vec::new();
    let mut i: usize = 0;
    while i < v.len()
        invariant
            i <= v@.len(),
            r@ =~= v@.take(i as int),
        decreases v@.len() - i,
    {
        r.push(v[i]);
        i = i + 1;
    }
    proof {
        assert(v@.take(v@.len() as int) =~= v@);
    }
    r
}

} // verus!
