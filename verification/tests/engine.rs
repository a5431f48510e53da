//! Tests of the relay and synthesize state machines.

use mcbe_lan_advertizer::engine::{
    relay_step, synth_step, RelayAction, RelayEvent, RelayState, SynthAction, SynthEvent,
};

type Addr = &'static str;

#[test]
fn relay_forwards_ping_verbatim() {
    let ping = vec![0x01, 0x02, 0x03];
    let (state, action) = relay_step::<Addr>(
        19132,
        RelayState::AwaitPing,
        RelayEvent::ClientPing {
            ping: ping.clone(),
            client: "client-a",
        },
    );
    assert_eq!(state, RelayState::Forwarding { client: "client-a" });
    assert_eq!(action, RelayAction::SendServer { ping });
}

#[test]
fn relay_waits_for_server_after_send() {
    let (state, action) = relay_step::<Addr>(
        19132,
        RelayState::Forwarding { client: "client-a" },
        RelayEvent::ServerSendOk,
    );
    assert_eq!(state, RelayState::AwaitPong { client: "client-a" });
    assert_eq!(action, RelayAction::RecvServer);
}

#[test]
fn relay_relays_pong_verbatim() {
    let pong = vec![0x1c, 0xaa, 0xbb];
    let (state, action) = relay_step::<Addr>(
        19132,
        RelayState::AwaitPong { client: "client-a" },
        RelayEvent::ServerReply {
            pong: pong.clone(),
            source_port: 19132,
        },
    );
    assert_eq!(state, RelayState::Replying);
    assert_eq!(
        action,
        RelayAction::SendClient {
            pong,
            client: "client-a",
        }
    );
}

#[test]
fn relay_discards_wrong_origin_silently() {
    let pong = vec![0x1c, 0xaa, 0xbb];
    let (state, action) = relay_step::<Addr>(
        19132,
        RelayState::AwaitPong { client: "client-a" },
        RelayEvent::ServerReply {
            pong,
            source_port: 19133,
        },
    );
    assert_eq!(state, RelayState::AwaitPing);
    assert_eq!(action, RelayAction::RecvClient);
}

#[test]
fn relay_retries_after_client_read_error() {
    let (state, action) =
        relay_step::<Addr>(19132, RelayState::AwaitPing, RelayEvent::ClientRecvFailed);
    assert_eq!(state, RelayState::AwaitPing);
    assert_eq!(action, RelayAction::RecvClient);
}

#[test]
fn relay_abandons_iteration_on_server_send_error() {
    let (state, action) = relay_step::<Addr>(
        19132,
        RelayState::Forwarding { client: "client-a" },
        RelayEvent::ServerSendFailed,
    );
    assert_eq!(state, RelayState::AwaitPing);
    assert_eq!(action, RelayAction::RecvClient);
}

#[test]
fn relay_abandons_iteration_on_server_timeout() {
    let (state, action) = relay_step::<Addr>(
        19132,
        RelayState::AwaitPong { client: "client-a" },
        RelayEvent::ServerRecvFailed,
    );
    assert_eq!(state, RelayState::AwaitPing);
    assert_eq!(action, RelayAction::RecvClient);
}

#[test]
fn relay_shuts_down_when_client_send_fails() {
    let (_, action) =
        relay_step::<Addr>(19132, RelayState::Replying, RelayEvent::ClientSendFailed);
    assert_eq!(action, RelayAction::Shutdown);
}

#[test]
fn relay_completes_iteration_on_client_send_ok() {
    let (state, action) =
        relay_step::<Addr>(19132, RelayState::Replying, RelayEvent::ClientSendOk);
    assert_eq!(state, RelayState::AwaitPing);
    assert_eq!(action, RelayAction::RecvClient);
}

#[test]
fn synth_answers_any_datagram_with_cached_bytes() {
    let cached = vec![0x1c, 0x01, 0x02];
    let action = synth_step::<Addr>(
        &cached,
        SynthEvent::ClientPing {
            ping: vec![0xff, 0xee],
            client: "client-a",
        },
    );
    assert_eq!(
        action,
        SynthAction::SendClient {
            pong: cached.clone(),
            client: "client-a",
        }
    );
}

#[test]
fn synth_gives_identical_replies_to_distinct_clients() {
    let cached = vec![0x1c, 0x09, 0x08, 0x07];
    let a1 = synth_step::<Addr>(
        &cached,
        SynthEvent::ClientPing {
            ping: vec![1],
            client: "client-a",
        },
    );
    let a2 = synth_step::<Addr>(
        &cached,
        SynthEvent::ClientPing {
            ping: vec![2, 3],
            client: "client-b",
        },
    );
    let p1 = match a1 {
        SynthAction::SendClient { pong, client } => {
            assert_eq!(client, "client-a");
            pong
        }
        other => panic!("expected a reply, got {:?}", other),
    };
    let p2 = match a2 {
        SynthAction::SendClient { pong, client } => {
            assert_eq!(client, "client-b");
            pong
        }
        other => panic!("expected a reply, got {:?}", other),
    };
    assert_eq!(p1, p2);
    assert_eq!(p1, cached);
}

#[test]
fn synth_failures_are_non_fatal() {
    let cached = vec![0x1c];
    assert_eq!(
        synth_step::<Addr>(&cached, SynthEvent::ClientRecvFailed),
        SynthAction::RecvClient
    );
    assert_eq!(
        synth_step::<Addr>(&cached, SynthEvent::ClientSendFailed),
        SynthAction::RecvClient
    );
    assert_eq!(
        synth_step::<Addr>(&cached, SynthEvent::ClientSendOk),
        SynthAction::RecvClient
    );
}
