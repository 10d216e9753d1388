//! Matching, disconnect, heartbeat and scenario behaviour of the session
//! and the server facade, with simulated kernel traffic.

use jute_kernel::codec;
use jute_kernel::codec::WireMessage;
use jute_kernel::descriptor::{ChannelRole, ConnectionDescriptor, TransportKind};
use jute_kernel::errors::Error;
use jute_kernel::messages;
use jute_kernel::router::{Delivery, Router};
use jute_kernel::server::Server;
use jute_kernel::session::{ChannelOutcomes, ConnectionState, Session};

const KEY: &[u8] = b"test-signing-key";

fn all_ok() -> ChannelOutcomes {
    ChannelOutcomes { shell: true, iopub: true, stdin: true, control: true, heartbeat: true }
}

fn started_server() -> Server {
    let mut server = Server::new(jute_kernel::heartbeat::DEFAULT_MISS_THRESHOLD);
    server.start_begin().expect("fresh handle must begin start");
    server
        .start_complete(&KEY.to_vec(), &b"sess".to_vec(), all_ok())
        .expect("all channels up must connect");
    server
}

/// A kernel-side message whose header is `header_id`, replying to
/// `parent`, encoded under the session key.
fn kernel_frame(header_id: &str, content: &str) -> jute_kernel::codec::Frame {
    let header = messages::render_header(
        &header_id.as_bytes().to_vec(),
        &b"kernel".to_vec(),
        &b"ksess".to_vec(),
        &b"2026-01-01T00:00:00Z".to_vec(),
        &b"execute_reply".to_vec(),
        &b"5.3".to_vec(),
    );
    let m = messages::request_message(header, content.as_bytes().to_vec());
    codec::encode(&m, &KEY.to_vec())
}

#[test]
fn router_matches_any_permutation() {
    let mut router = Router::new();
    let ids: Vec<Vec<u8>> = vec![b"r-0".to_vec(), b"r-1".to_vec(), b"r-2".to_vec()];
    for id in &ids {
        assert!(router.submit(id));
    }
    // A duplicate identifier cannot shadow the pending request.
    assert!(!router.submit(&ids[0]));
    assert_eq!(router.outstanding(), 3);
    // Replies arrive in a different order than submission.
    assert_eq!(router.deliver(&Some(b"r-1".to_vec())), Delivery::Resolved);
    assert_eq!(router.deliver(&Some(b"r-2".to_vec())), Delivery::Resolved);
    // A second reply for an already-resolved request matches nothing.
    assert_eq!(router.deliver(&Some(b"r-1".to_vec())), Delivery::Unsolicited);
    // An unknown parent matches nothing.
    assert_eq!(router.deliver(&Some(b"r-9".to_vec())), Delivery::Unsolicited);
    // No parent at all matches nothing.
    assert_eq!(router.deliver(&None), Delivery::Unsolicited);
    assert_eq!(router.outstanding(), 1);
    assert_eq!(router.deliver(&Some(b"r-0".to_vec())), Delivery::Resolved);
    assert_eq!(router.outstanding(), 0);
}

#[test]
fn session_open_requires_all_required_channels() {
    let key = KEY.to_vec();
    let sid = b"sess".to_vec();
    for missing in ["shell", "iopub", "control", "heartbeat"] {
        let outcomes = ChannelOutcomes {
            shell: missing != "shell",
            iopub: missing != "iopub",
            stdin: true,
            control: missing != "control",
            heartbeat: missing != "heartbeat",
        };
        match Session::open(&key, &sid, 3, outcomes) {
            Err(Error::KernelConnect) => {},
            other => panic!("expected KernelConnect, got {:?}", other.is_ok()),
        }
    }
    // Stdin is optional: its absence only degrades functionality.
    let outcomes = ChannelOutcomes { stdin: false, ..all_ok() };
    let session = Session::open(&key, &sid, 3, outcomes).expect("stdin is optional");
    assert!(!session.stdin_available());
    assert_eq!(session.state(), ConnectionState::Connected);
}

#[test]
fn session_pending_queries_and_idempotent_close() {
    let mut session = Session::open(&KEY.to_vec(), &b"s".to_vec(), 3, all_ok()).unwrap();
    let id = b"q-1".to_vec();
    assert!(session.submit_request(&id));
    assert!(session.is_pending(&id));
    // A duplicate identifier is refused, never shadowed.
    assert!(!session.submit_request(&id));
    assert_eq!(session.outstanding(), 1);
    assert!(session.cancel_request(&id));
    assert!(!session.is_pending(&id));
    let cancelled = session.close();
    assert!(cancelled.is_empty());
    assert_eq!(session.state(), ConnectionState::Disconnected);
    // Closed sessions accept nothing; closing again changes nothing.
    assert!(!session.submit_request(&b"q-2".to_vec()));
    assert!(session.close().is_empty());
}

#[test]
fn disconnect_resolves_every_pending_request() {
    let mut server = started_server();
    let (id1, _f1) = server.execute(&b"1+1".to_vec(), &b"t0".to_vec(), false).unwrap();
    let (id2, _f2) = server.execute(&b"2+2".to_vec(), &b"t1".to_vec(), false).unwrap();
    assert_ne!(id1, id2);
    // A required channel reports ChannelClosed: every outstanding request
    // comes back to be resolved with KernelDisconnect, at once.
    let cancelled = server.on_channel_closed();
    assert_eq!(cancelled, vec![id1, id2]);
    assert_eq!(server.connection_state(), ConnectionState::Disconnected);
    // Idempotent: nothing further to cancel.
    assert_eq!(server.on_channel_closed(), Vec::<Vec<u8>>::new());
}

#[test]
fn heartbeat_degradation_reaches_dead_after_three_misses() {
    let mut server = started_server();
    let (id, _f) = server.execute(&b"1+1".to_vec(), &b"t0".to_vec(), false).unwrap();
    assert!(server.on_heartbeat_miss().is_none());
    assert!(server.on_heartbeat_miss().is_none());
    let cancelled = server.on_heartbeat_miss().expect("third consecutive miss is fatal");
    assert_eq!(cancelled, vec![id]);
    assert_eq!(server.connection_state(), ConnectionState::Disconnected);
}

#[test]
fn heartbeat_single_miss_then_echo_stays_connected() {
    let mut server = started_server();
    assert!(server.on_heartbeat_miss().is_none());
    server.on_heartbeat_echo();
    assert!(server.on_heartbeat_miss().is_none());
    server.on_heartbeat_echo();
    assert!(server.on_heartbeat_miss().is_none());
    assert!(server.on_heartbeat_miss().is_none());
    assert_eq!(server.connection_state(), ConnectionState::Connected);
}

#[test]
fn second_start_fails_already_connected() {
    let mut server = started_server();
    assert_eq!(server.start_begin(), Err(Error::AlreadyConnected));
    assert_eq!(server.connection_state(), ConnectionState::Connected);
}

#[test]
fn start_complete_failure_leaves_no_session() {
    let mut server = Server::new(3);
    server.start_begin().unwrap();
    let outcomes = ChannelOutcomes { heartbeat: false, ..all_ok() };
    assert_eq!(
        server.start_complete(&KEY.to_vec(), &b"sess".to_vec(), outcomes),
        Err(Error::KernelConnect)
    );
    assert_eq!(server.connection_state(), ConnectionState::Disconnected);
    // The failed attempt left nothing half-open: a new start works.
    server.start_begin().unwrap();
    server.start_complete(&KEY.to_vec(), &b"sess".to_vec(), all_ok()).unwrap();
    assert_eq!(server.connection_state(), ConnectionState::Connected);
}

#[test]
fn execute_scenario_one_reply_and_busy_idle_events() {
    let mut server = started_server();
    let (id, frame) = server.execute(&b"1+1".to_vec(), &b"t0".to_vec(), false).unwrap();
    // The signed frame decodes back to the message that was built.
    let decoded = codec::decode(&frame, &KEY.to_vec()).unwrap();
    let header_text = String::from_utf8(decoded.header.clone()).unwrap();
    assert!(header_text.contains("\"msg_type\":\"execute_request\""));
    assert!(header_text.contains(&format!("\"msg_id\":\"{}\"", String::from_utf8(id.clone()).unwrap())));
    let content_text = String::from_utf8(decoded.content.clone()).unwrap();
    assert!(content_text.contains("\"code\":\"1+1\""));

    // The kernel signals busy on iopub: unsolicited even though it names
    // the request as parent, because iopub traffic is never matched.
    let busy = kernel_frame("k-busy", "{\"execution_state\":\"busy\"}");
    let (d, _) = server.deliver(&busy, ChannelRole::Iopub, &Some(id.clone())).unwrap();
    assert_eq!(d, Delivery::Unsolicited);

    // The reply arrives on shell and resolves the request, exactly once.
    let reply = kernel_frame("k-reply", "{\"status\":\"ok\",\"execution_count\":1}");
    let (d, m) = server.deliver(&reply, ChannelRole::Shell, &Some(id.clone())).unwrap();
    assert_eq!(d, Delivery::Resolved);
    assert!(String::from_utf8(m.content).unwrap().contains("\"status\":\"ok\""));

    // The kernel goes idle again.
    let idle = kernel_frame("k-idle", "{\"execution_state\":\"idle\"}");
    let (d, _) = server.deliver(&idle, ChannelRole::Iopub, &Some(id.clone())).unwrap();
    assert_eq!(d, Delivery::Unsolicited);

    // Exactly one resolution: a duplicate reply matches nothing.
    let dup = kernel_frame("k-dup", "{\"status\":\"ok\"}");
    let (d, _) = server.deliver(&dup, ChannelRole::Shell, &Some(id.clone())).unwrap();
    assert_eq!(d, Delivery::Unsolicited);

    // The event stream saw busy then idle, in that order.
    let events = server.take_events();
    let states: Vec<String> = events
        .iter()
        .map(|e| String::from_utf8(e.content.clone()).unwrap())
        .collect();
    assert_eq!(states.len(), 3);
    assert!(states[0].contains("busy"));
    assert!(states[1].contains("idle"));
}

#[test]
fn cancel_then_late_reply_is_unsolicited() {
    let mut server = started_server();
    let (id, _frame) = server.execute(&b"1+1".to_vec(), &b"t0".to_vec(), false).unwrap();
    assert!(server.cancel(&id));
    // Cancelling again finds nothing: the handle cannot resolve twice.
    assert!(!server.cancel(&id));
    // A late reply with the matching parent is unsolicited and goes to
    // the event stream instead of the cancelled handle.
    let reply = kernel_frame("k-late", "{\"status\":\"ok\"}");
    let (d, _) = server.deliver(&reply, ChannelRole::Shell, &Some(id.clone())).unwrap();
    assert_eq!(d, Delivery::Unsolicited);
    let events = server.take_events();
    assert_eq!(events.len(), 1);
}

#[test]
fn bad_frame_is_dropped_without_tearing_down() {
    let mut server = started_server();
    let (id, _frame) = server.execute(&b"1+1".to_vec(), &b"t0".to_vec(), false).unwrap();
    let mut corrupt = kernel_frame("k-x", "{}");
    corrupt.segments[0][0] ^= 1;
    match server.deliver(&corrupt, ChannelRole::Shell, &Some(id.clone())) {
        Err(e) => assert_eq!(e, Error::SignatureMismatch),
        Ok(_) => panic!("a tampered frame must be rejected"),
    }
    // The session survives and the request is still pending.
    assert_eq!(server.connection_state(), ConnectionState::Connected);
    let reply = kernel_frame("k-ok", "{\"status\":\"ok\"}");
    let (d, _) = server.deliver(&reply, ChannelRole::Shell, &Some(id)).unwrap();
    assert_eq!(d, Delivery::Resolved);
}

#[test]
fn stop_walks_through_disconnecting() {
    let mut server = started_server();
    let (id, _frame) = server.execute(&b"1+1".to_vec(), &b"t0".to_vec(), false).unwrap();
    let cancelled = server.stop_begin();
    assert_eq!(cancelled, vec![id]);
    assert_eq!(server.connection_state(), ConnectionState::Disconnecting);
    server.stop_complete();
    assert_eq!(server.connection_state(), ConnectionState::Disconnected);
    let log = server.state_history().clone();
    assert_eq!(
        log,
        vec![
            ConnectionState::Disconnected,
            ConnectionState::Connecting,
            ConnectionState::Connected,
            ConnectionState::Disconnecting,
            ConnectionState::Disconnected,
        ]
    );
}

#[test]
fn endpoints_render_for_both_transports() {
    let mut d = ConnectionDescriptor {
        transport: TransportKind::Tcp,
        ip: b"127.0.0.1".to_vec(),
        shell_port: 53001,
        iopub_port: 53002,
        stdin_port: 53003,
        control_port: 53004,
        hb_port: 53005,
        signature_scheme: b"hmac-sha256".to_vec(),
        key: KEY.to_vec(),
        session_id: b"sess".to_vec(),
    };
    assert_eq!(d.endpoint_for(ChannelRole::Shell), b"tcp://127.0.0.1:53001".to_vec());
    assert_eq!(d.endpoint_for(ChannelRole::Heartbeat), b"tcp://127.0.0.1:53005".to_vec());
    d.transport = TransportKind::Ipc;
    d.ip = b"/tmp/kernel".to_vec();
    assert_eq!(d.endpoint_for(ChannelRole::Iopub), b"ipc:///tmp/kernel-53002".to_vec());
}

#[test]
fn request_channel_by_message_type() {
    assert_eq!(
        messages::request_channel(&b"execute_request".to_vec()),
        ChannelRole::Shell
    );
    assert_eq!(
        messages::request_channel(&b"shutdown_request".to_vec()),
        ChannelRole::Control
    );
    assert_eq!(
        messages::request_channel(&b"interrupt_request".to_vec()),
        ChannelRole::Control
    );
}

#[test]
fn rendered_segments_are_valid_json() {
    let header = messages::render_header(
        &b"id-1".to_vec(),
        &b"jute".to_vec(),
        &b"sess".to_vec(),
        &b"2026-01-01T00:00:00Z".to_vec(),
        &b"execute_request".to_vec(),
        &b"5.3".to_vec(),
    );
    let v: serde_json::Value = serde_json::from_slice(&header).unwrap();
    assert_eq!(v["msg_id"], "id-1");
    assert_eq!(v["msg_type"], "execute_request");
    assert_eq!(v["session"], "sess");
    assert_eq!(v["version"], "5.3");

    // Escaping round-trips through a real JSON parser, controls included.
    let tricky = "say \"hi\"\\\n\tdone";
    let content = messages::render_execute_content(&tricky.as_bytes().to_vec(), true);
    let v: serde_json::Value = serde_json::from_slice(&content).unwrap();
    assert_eq!(v["code"], tricky);
    assert_eq!(v["silent"], false);
    assert_eq!(v["allow_stdin"], true);

    // Every control byte survives escaping.
    let controls: Vec<u8> = (0u8..32).collect();
    let content = messages::render_execute_content(&controls, false);
    let v: serde_json::Value = serde_json::from_slice(&content).unwrap();
    assert_eq!(v["code"].as_str().unwrap().as_bytes(), controls.as_slice());
}

#[test]
fn decimal_rendering_is_exact() {
    assert_eq!(jute_kernel::text::decimal_bytes(0), b"0".to_vec());
    assert_eq!(jute_kernel::text::decimal_bytes(42), b"42".to_vec());
    assert_eq!(jute_kernel::text::decimal_bytes(65535), b"65535".to_vec());
    assert_eq!(
        jute_kernel::text::decimal_bytes(u64::MAX),
        b"18446744073709551615".to_vec()
    );
}

#[test]
fn request_ids_are_distinct_and_sequential() {
    let mut server = started_server();
    let (id0, _) = server.execute(&b"a".to_vec(), &b"t".to_vec(), false).unwrap();
    let (id1, _) = server.execute(&b"b".to_vec(), &b"t".to_vec(), false).unwrap();
    let (id2, _) = server.execute(&b"c".to_vec(), &b"t".to_vec(), false).unwrap();
    assert_eq!(id0, b"sess-0".to_vec());
    assert_eq!(id1, b"sess-1".to_vec());
    assert_eq!(id2, b"sess-2".to_vec());
}
