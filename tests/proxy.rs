use bytes::Bytes;
use phantom::actor::{ActorCore, ActorPhase, ActorSignal, ActorStep};
use phantom::api::{unknown_error, ActorError, ClientError, PhantomError};
use phantom::client::{elapsed_millis_bytes, pong_from_reply};
use phantom::lifecycle::{Lifecycle, ProxyPhase};
use phantom::pong::{PongData, UnconnectedPong};
use phantom::router::{relay_to_client, PeerAddr, RoutingTable};
use phantom::task::{ShutdownPlan, ShutdownStep, TaskRegistry};

fn pong_with_payload(text: &str) -> Vec<u8> {
    let mut packet = UnconnectedPong::new().build().to_vec();
    packet.truncate(33);
    packet.push((text.len() / 256) as u8);
    packet.push((text.len() % 256) as u8);
    packet.extend_from_slice(text.as_bytes());
    packet
}

#[test]
fn distinct_clients_get_distinct_slots() {
    let mut table = RoutingTable::new(40000);
    let a = PeerAddr { ip: 0x7f000001, port: 50000 };
    let b = PeerAddr { ip: 0x7f000001, port: 50001 };
    let fa = table.handle_packet(a, Bytes::from(vec![1, 2, 3]));
    let fb = table.handle_packet(b, Bytes::from(vec![4, 5]));
    assert!(fa.connect);
    assert!(fb.connect);
    assert_eq!(fa.slot, 0);
    assert_eq!(fb.slot, 1);
    assert_ne!(fa.slot, fb.slot);
    assert_eq!(table.len(), 2);
}

#[test]
fn known_client_keeps_its_slot() {
    let mut table = RoutingTable::new(40000);
    let a = PeerAddr { ip: 0x0a000002, port: 19132 };
    let b = PeerAddr { ip: 0x0a000003, port: 19132 };
    let first = table.handle_packet(a, Bytes::from(vec![1]));
    table.handle_packet(b, Bytes::from(vec![2]));
    let again = table.handle_packet(a, Bytes::from(vec![3]));
    assert!(!again.connect);
    assert_eq!(again.slot, first.slot);
    assert_eq!(table.len(), 2);
    assert_eq!(table.slot_of(&a), Some(0));
    assert_eq!(table.slot_of(&b), Some(1));
    assert_eq!(table.slot_of(&PeerAddr { ip: 1, port: 1 }), None);
}

#[test]
fn forwarded_payload_is_unchanged() {
    let mut table = RoutingTable::new(40000);
    let data = vec![0x84, 0x00, 0x01, 0xff, 0x7e];
    let f = table.handle_packet(PeerAddr { ip: 1, port: 2 }, Bytes::from(data.clone()));
    assert_eq!(f.payload.to_vec(), data);
    assert_eq!(table.proxy_port(), 40000);
}

#[test]
fn gameplay_bytes_round_trip_through_both_relays() {
    let mut table = RoutingTable::new(40000);
    let data = vec![0x84, 0x00, 0x00, 0x00, 0x40, 0x00, 0x90, 0x00, 0x00, 0x00, 0x09];
    let forward = table.handle_packet(PeerAddr { ip: 5, port: 6 }, Bytes::from(data.clone()));
    let back = relay_to_client(forward.payload, table.proxy_port());
    assert_eq!(back.to_vec(), data);
}

#[test]
fn ping_bytes_pass_through_the_reply_relay() {
    let ping = phantom::ping::UnconnectedPing::new([1; 8], [2; 8]).build();
    let data = ping.to_vec();
    assert_eq!(relay_to_client(ping, 1234).to_vec(), data);
}

#[test]
fn empty_datagram_passes_through() {
    assert_eq!(relay_to_client(Bytes::from(Vec::new()), 1234).to_vec(), Vec::<u8>::new());
}

#[test]
fn pong_reply_advertises_the_proxy_port() {
    let text = "MCPE;Dedicated Server;800;1.21.83;0;10;11675972934497731543;Bedrock level;Survival;1;19132;19133;0;";
    let packet = pong_with_payload(text);
    let out = relay_to_client(Bytes::from(packet.clone()), 25565);
    let expected_text =
        "MCPE;Dedicated Server;800;1.21.83;0;10;11675972934497731543;Bedrock level;Survival;1;25565;19133;";
    let expected = pong_with_payload(expected_text);
    assert_eq!(out.to_vec(), expected);
    let decoded = UnconnectedPong::from_bytes(out).unwrap();
    assert_eq!(decoded.pong.port4, "25565");
    assert_eq!(decoded.pong.port6, "19133");
    assert_eq!(&decoded.magic[..], &packet[17..33]);
}

#[test]
fn pong_reply_port_zero_and_max() {
    let packet = pong_with_payload("MCPE;A;1;2;3;4;5;6;7;8;19132;19133;");
    let out = UnconnectedPong::from_bytes(relay_to_client(Bytes::from(packet.clone()), 0)).unwrap();
    assert_eq!(out.pong.port4, "0");
    let out = UnconnectedPong::from_bytes(relay_to_client(Bytes::from(packet), 65535)).unwrap();
    assert_eq!(out.pong.port4, "65535");
}

#[test]
fn second_listen_is_refused_and_keeps_listening() {
    let mut life = Lifecycle::new();
    assert!(!life.is_running());
    assert!(life.begin_listen().is_ok());
    life.finish_listen(true);
    assert_eq!(life.phase(), ProxyPhase::Listening);
    assert!(life.join_waits());
    let second = life.begin_listen();
    assert!(matches!(second, Err(PhantomError::AlreadyRunning)));
    assert_eq!(life.phase(), ProxyPhase::Listening);
    life.finish_shutdown();
    assert_eq!(life.phase(), ProxyPhase::Stopped);
    assert!(!life.join_waits());
}

#[test]
fn listen_while_starting_is_refused() {
    let mut life = Lifecycle::new();
    assert!(life.begin_listen().is_ok());
    assert!(life.is_running());
    assert!(matches!(life.begin_listen(), Err(PhantomError::AlreadyRunning)));
    assert_eq!(life.phase(), ProxyPhase::Starting);
}

#[test]
fn failed_start_releases_the_instance() {
    let mut life = Lifecycle::new();
    assert!(life.begin_listen().is_ok());
    life.finish_listen(false);
    assert_eq!(life.phase(), ProxyPhase::Stopped);
    assert!(life.begin_listen().is_ok());
}

#[test]
fn shutdown_plan_cancels_all_then_joins_each_once() {
    // Three per-client children, two listening-socket readers and the router.
    let mut plan = ShutdownPlan::new(6);
    let mut steps = Vec::new();
    while let Some(s) = plan.next_step() {
        steps.push(s);
    }
    let mut expected: Vec<ShutdownStep> = (0..6).map(ShutdownStep::Cancel).collect();
    expected.extend((0..6).map(ShutdownStep::Join));
    assert_eq!(steps, expected);
    assert_eq!(plan.next_step(), None);
}

#[test]
fn shutdown_plan_with_no_tasks() {
    let mut plan = ShutdownPlan::new(0);
    assert_eq!(plan.next_step(), None);
}

#[test]
fn registry_hands_out_all_tasks_in_order() {
    let mut reg = TaskRegistry::new();
    reg.add("reader-19132");
    reg.add("reader-proxy");
    reg.add("router");
    assert_eq!(reg.len(), 3);
    let all = reg.take_all();
    assert_eq!(all, vec!["reader-19132", "reader-proxy", "router"]);
    assert_eq!(reg.len(), 0);
    assert!(reg.take_all().is_empty());
}

#[test]
fn actor_records_children_and_drains_them() {
    let mut core: ActorCore<u32> = ActorCore::new();
    assert!(matches!(core.on_signal::<&str>(Some(ActorSignal::SpawnChild(7))), ActorStep::Continue));
    assert!(matches!(core.on_signal(Some(ActorSignal::Message("hello"))), ActorStep::Handle("hello")));
    assert!(matches!(core.on_signal::<&str>(Some(ActorSignal::SpawnChild(8))), ActorStep::Continue));
    assert_eq!(core.phase(), ActorPhase::Running);
    assert!(matches!(core.on_signal::<&str>(Some(ActorSignal::Shutdown)), ActorStep::Drain));
    assert_eq!(core.phase(), ActorPhase::Draining);
    assert_eq!(core.take_children(), vec![7, 8]);
    core.finish();
    assert_eq!(core.phase(), ActorPhase::Terminated);
}

#[test]
fn actor_drains_when_mailbox_closes() {
    let mut core: ActorCore<u32> = ActorCore::new();
    assert!(matches!(core.on_signal::<()>(None), ActorStep::Drain));
    assert!(core.take_children().is_empty());
}

#[test]
fn ping_time_is_big_endian_millis() {
    assert_eq!(elapsed_millis_bytes(0x0999a6), [0, 0, 0, 0, 0, 0x09, 0x99, 0xa6]);
    assert_eq!(elapsed_millis_bytes(0x0102030405060708), [1, 2, 3, 4, 5, 6, 7, 8]);
    assert_eq!(elapsed_millis_bytes((1u128 << 64) + 5), [0, 0, 0, 0, 0, 0, 0, 5]);
}

#[test]
fn reply_with_wrong_id_is_invalid() {
    let r = pong_from_reply(Bytes::from(vec![0x01, 0x02]));
    match r {
        Err(ClientError::InvalidResponse(m)) => assert_eq!(m, "Invalid response packet ID"),
        _ => panic!("expected an invalid response"),
    }
    assert!(matches!(pong_from_reply(Bytes::from(Vec::new())), Err(ClientError::InvalidResponse(_))));
}

#[test]
fn truncated_pong_reply_is_invalid() {
    let r = pong_from_reply(Bytes::from(vec![0x1c, 0, 0]));
    match r {
        Err(ClientError::InvalidResponse(m)) => assert_eq!(m, "Data too short for packet"),
        _ => panic!("expected an invalid response"),
    }
}

#[test]
fn pong_reply_gives_the_fields() {
    let mut packet = UnconnectedPong::new();
    packet.pong = PongData::from_string("MCPE;Hub;800;1.21.83;3;30;42;Lobby;Survival;0;19132;19133;").unwrap();
    let p = pong_from_reply(packet.build()).unwrap();
    assert_eq!(p.motd, "Hub");
    assert_eq!(p.players, "3");
    assert_eq!(p.sub_motd, "Lobby");
    assert_eq!(p.port6, "19133");
}

#[test]
fn error_messages() {
    assert_eq!(PhantomError::AlreadyRunning.message(), "Phantom is already running");
    assert_eq!(
        PhantomError::FailedToBind("in use".to_string()).message(),
        "Failed to bind to address: in use"
    );
    assert_eq!(
        ActorError::FailedToSend("closed".to_string()).message(),
        "Failed to send message: closed"
    );
    assert_eq!(
        ClientError::Timeout.message(),
        "Client encountered a timeout while waiting for a ping response"
    );
}

#[test]
fn unknown_error_keeps_the_text() {
    let e = std::io::Error::new(std::io::ErrorKind::Other, "boom");
    match unknown_error(e) {
        PhantomError::UnknownError(m) => assert_eq!(m, "boom"),
        _ => panic!("expected an unknown error"),
    }
}
