//! Peers, links, configuration, streams and commands.

use rover::bus::command::{CommandReceiver, CommandSender};
use rover::bus::config::{
    BusConfig, ConfigError, MirrorEntry, RawConfig, RouteEntry, ServiceEntry,
};
use rover::bus::streams::{fan_out_result, Bus};
use rover::link::peer::PeerId;
use rover::link::udp::{Addr, LinkClass, LinkError, PeerTable, UdpLink, LAN_MTU};
use rover::msgs::boards::{ChassisCommand, ImuSample};
use rover::msgs::frame::encode_frame;
use rover::msgs::gnss::GnssFix;
use rover::msgs::mission::{Command, CommandFrame, MissionGoal};
use rover::msgs::telemetry::Telemetry;
use rover::msgs::wire::Wire;
use rover::reals::{Real32, Real64};

fn r32(v: f32) -> Real32 {
    Real32(v.to_bits())
}

fn addr(text: &str) -> Option<Addr> {
    let (host, port) = text.rsplit_once(':')?;
    let octets: Option<Vec<u8>> = host.split('.').map(|o| o.parse().ok()).collect();
    let octets: [u8; 4] = octets?.try_into().ok()?;
    Some(Addr {
        ip: u128::from(u32::from_be_bytes(octets)),
        v6: false,
        port: port.parse().ok()?,
        flow: 0,
        scope: 0,
    })
}

// ---- peers -----------------------------------------------------------------------

#[test]
fn round_trips_every_name() {
    for peer in PeerId::all() {
        assert_eq!(PeerId::parse(peer.as_str()), Some(peer));
        assert_eq!(peer.as_str().parse::<PeerId>(), Ok(peer));
    }
}

#[test]
fn rejects_unknown_and_wrong_case() {
    assert_eq!(
        PeerId::parse("rpi"),
        None,
        "the old host-based name is gone"
    );
    assert_eq!(PeerId::parse("Control"), None);
    assert!("nonsense".parse::<PeerId>().is_err());
    assert_eq!(
        "nonsense".parse::<PeerId>().unwrap_err().message(),
        "unknown service name `nonsense`"
    );
}

// ---- links -----------------------------------------------------------------------

fn linked_pair() -> (UdpLink, Addr, UdpLink, Addr) {
    let a_addr = addr("127.0.0.1:4001").unwrap();
    let b_addr = addr("127.0.0.1:4002").unwrap();
    let mut a = UdpLink::bind(PeerId::Control, PeerTable::empty());
    let mut b = UdpLink::bind(PeerId::Chassis, PeerTable::empty());
    a.set_peer(PeerId::Chassis, b_addr);
    b.set_peer(PeerId::Control, a_addr);
    (a, a_addr, b, b_addr)
}

#[test]
fn send_recv_round_trips_a_frame() {
    let (a, a_addr, b, b_addr) = linked_pair();
    let msg = ImuSample {
        accel_mps2: [r32(1.0), r32(2.0), r32(3.0)],
        gyro_radps: [r32(0.1), r32(0.2), r32(0.3)],
        t_us: 42,
    };
    let mut buf = [0u8; 256];
    let n = encode_frame(&msg, 7, &mut buf);
    assert_eq!(a.send(PeerId::Chassis, n), Ok(b_addr));

    let (peer, frame) = b.recv(a_addr, &buf[..n]).expect("frame never arrived");
    assert_eq!(peer, PeerId::Control);
    assert_eq!(frame.header.seq, 7);
    assert_eq!(ImuSample::decode(frame.body), Ok(msg));
}

#[test]
fn datagrams_of_strangers_and_without_a_header_are_dropped() {
    let (_, a_addr, b, _) = linked_pair();
    let frame = [0u8; 8];
    assert!(b.recv(a_addr, &frame).is_some());
    assert!(b.recv(addr("127.0.0.1:4999").unwrap(), &frame).is_none());
    assert!(b.recv(a_addr, &frame[..3]).is_none());
}

#[test]
fn link_local_addresses_keep_their_interface() {
    let local = Addr {
        ip: 0xfe80_0000_0000_0000_0000_0000_0000_0001,
        v6: true,
        port: 4001,
        flow: 0,
        scope: 3,
    };
    let mut a = UdpLink::bind(PeerId::Control, PeerTable::empty());
    a.set_peer(PeerId::Chassis, local);
    assert_eq!(a.send(PeerId::Chassis, 8), Ok(local));
    let frame = [0u8; 8];
    assert!(a.recv(local, &frame).is_some());
    assert!(a.recv(Addr { scope: 2, ..local }, &frame).is_none());
    assert!(a.recv(Addr { flow: 1, ..local }, &frame).is_none());
}

#[test]
fn send_to_unknown_peer_is_a_typed_error() {
    let a = UdpLink::bind(PeerId::Control, PeerTable::empty());
    let err = a.send(PeerId::Base, 4).unwrap_err();
    assert!(matches!(err, LinkError::UnknownPeer(PeerId::Base)));
}

#[test]
fn oversized_frame_is_rejected_before_the_socket_sees_it() {
    let (a, _, _, _) = linked_pair();
    let err = a.send(PeerId::Chassis, LAN_MTU + 1).unwrap_err();
    assert!(matches!(err, LinkError::FrameTooLarge { .. }));
    assert!(a.send(PeerId::Chassis, LAN_MTU).is_ok());
}

#[test]
fn send_to_addr_reaches_a_raw_address_outside_the_peer_table() {
    let a = UdpLink::bind(PeerId::Control, PeerTable::empty());
    let mirror = addr("127.0.0.1:9").unwrap();
    assert_eq!(a.send_to_addr(mirror, 4), Ok(mirror));
}

#[test]
fn send_to_addr_oversized_frame_is_rejected_the_same_way_as_send() {
    let a = UdpLink::bind(PeerId::Control, PeerTable::empty());
    let err = a
        .send_to_addr(addr("127.0.0.1:9").unwrap(), LAN_MTU + 1)
        .unwrap_err();
    assert!(matches!(err, LinkError::FrameTooLarge { .. }));
}

#[test]
fn a_lan_link_says_so_and_errors_speak() {
    let a = UdpLink::bind(PeerId::Control, PeerTable::empty());
    assert_eq!(a.class(), LinkClass::Lan);
    assert_eq!(a.mtu(), 1472);
    assert_eq!(a.self_id(), PeerId::Control);
    assert_eq!(
        LinkError::UnknownPeer(PeerId::Base).message(),
        "no address configured for peer `base`"
    );
    assert_eq!(
        LinkError::FrameTooLarge {
            len: 1473,
            mtu: 1472
        }
        .message(),
        "frame of 1473 bytes exceeds link MTU of 1472"
    );
    assert_eq!(
        LinkError::Unsupported.message(),
        "operation not supported by this link"
    );
    assert_eq!(
        LinkError::Io("broken".to_string()).message(),
        "link I/O error: broken"
    );
}

// ---- configuration ------------------------------------------------------------------

fn service(name: &str, text: &str) -> ServiceEntry {
    let a = addr(text);
    ServiceEntry {
        name: name.to_string(),
        reason: if a.is_some() { "" } else { "invalid socket address syntax" }.to_string(),
        addr: a,
    }
}

fn route(name: &str, dests: &[&str]) -> RouteEntry {
    RouteEntry {
        name: name.to_string(),
        dests: dests.iter().map(|d| d.to_string()).collect(),
    }
}

fn mirror(text: &str) -> MirrorEntry {
    let a = addr(text.trim());
    MirrorEntry {
        text: text.to_string(),
        reason: if a.is_some() { "" } else { "invalid socket address syntax" }.to_string(),
        addr: a,
    }
}

fn sample() -> RawConfig {
    RawConfig {
        services: vec![
            service("control", "192.168.1.1:7001"),
            service("chassis", "192.168.1.2:7002"),
            service("base", "192.168.1.10:7005"),
        ],
        routes: vec![
            route("ImuSample", &["control"]),
            route("ChassisCommand", &["chassis"]),
            route("Telemetry", &["base"]),
        ],
        mirror: mirror(""),
    }
}

#[test]
fn resolves_hosts_to_socket_addrs() {
    let cfg = BusConfig::parse(&sample()).unwrap();
    assert_eq!(cfg.addr_of(PeerId::Control), addr("192.168.1.1:7001"));
    assert_eq!(cfg.addr_of(PeerId::Base), addr("192.168.1.10:7005"));
    assert_eq!(cfg.addr_of(PeerId::Perception), None);
}

#[test]
fn resolves_routes_by_wire_name() {
    let cfg = BusConfig::parse(&sample()).unwrap();
    assert_eq!(cfg.route_for::<ImuSample>(), &[PeerId::Control]);
    assert_eq!(cfg.route_for::<ChassisCommand>(), &[PeerId::Chassis]);
    assert_eq!(cfg.route_for::<Telemetry>(), &[PeerId::Base]);
}

#[test]
fn unrouted_type_resolves_to_no_destinations() {
    let cfg = BusConfig::parse(&sample()).unwrap();
    assert!(cfg.route_for::<GnssFix>().is_empty());
}

#[test]
fn unknown_host_in_hosts_table_is_rejected() {
    let mut bad = sample();
    bad.services[0] = service("rover", "192.168.1.1:7001");
    let err = BusConfig::parse(&bad).unwrap_err();
    assert_eq!(
        err.message(),
        "`rover` is not a known host (see PeerId::ALL)"
    );
    assert!(matches!(err, ConfigError::UnknownHost(h) if h == "rover"));
}

#[test]
fn unknown_host_in_routes_is_rejected() {
    let mut bad = sample();
    bad.routes[0] = route("ImuSample", &["groundstation"]);
    let err = BusConfig::parse(&bad).unwrap_err();
    assert!(matches!(err, ConfigError::UnknownHost(h) if h == "groundstation"));
}

#[test]
fn bad_ip_address_is_rejected() {
    let mut bad = sample();
    bad.services[0] = service("control", "not-an-ip");
    let err = BusConfig::parse(&bad).unwrap_err();
    assert_eq!(
        err.message(),
        "host `control` has an invalid address: invalid socket address syntax"
    );
    assert!(matches!(err, ConfigError::BadAddress(h, _) if h == "control"));
}

#[test]
fn mirror_absent_section_is_none() {
    let cfg = BusConfig::parse(&sample()).unwrap();
    assert_eq!(cfg.mirror(), None);
}

#[test]
fn mirror_empty_string_is_none() {
    let mut raw = sample();
    raw.mirror = mirror("  ");
    let cfg = BusConfig::parse(&raw).unwrap();
    assert_eq!(cfg.mirror(), None);
}

#[test]
fn mirror_present_resolves_to_socket_addr() {
    let mut raw = sample();
    raw.mirror = mirror("192.168.1.100:7099");
    let cfg = BusConfig::parse(&raw).unwrap();
    assert_eq!(cfg.mirror(), addr("192.168.1.100:7099"));
}

#[test]
fn mirror_malformed_address_is_a_hard_error_not_a_silent_none() {
    let mut raw = sample();
    raw.mirror = mirror("not-an-address");
    let err = BusConfig::parse(&raw).unwrap_err();
    assert_eq!(
        err.message(),
        "[debug] mirror = \"not-an-address\" is not a valid address: invalid socket address syntax"
    );
    assert!(matches!(err, ConfigError::BadMirrorAddress(a, _) if a == "not-an-address"));
}

// ---- commands --------------------------------------------------------------------

#[test]
fn receiver_applies_the_first_command() {
    let mut rx = CommandReceiver::new();
    let frame = CommandFrame {
        cmd_seq: 1,
        body: Command::EStop,
    };
    assert_eq!(rx.apply(frame), Some(Command::EStop));
    assert_eq!(rx.last_applied(), 1);
}

#[test]
fn the_first_command_is_applied_whatever_its_number() {
    for seq in [2, 32_767, 32_768, 40_000, u16::MAX] {
        let mut rx = CommandReceiver::new();
        assert_eq!(rx.last_applied(), 0);
        let frame = CommandFrame {
            cmd_seq: seq,
            body: Command::EStop,
        };
        assert_eq!(rx.apply(frame), Some(Command::EStop), "{seq}");
        assert_eq!(rx.last_applied(), seq);
        assert_eq!(rx.apply(frame), None, "{seq} again");
    }
}

#[test]
fn a_command_without_a_number_is_not_a_first_command() {
    let mut rx = CommandReceiver::default();
    let unnumbered = CommandFrame {
        cmd_seq: 0,
        body: Command::EStop,
    };
    assert_eq!(rx.apply(unnumbered), None);
    assert_eq!(rx.last_applied(), 0);
    let first = CommandFrame {
        cmd_seq: 50_000,
        body: Command::CancelMission,
    };
    assert_eq!(rx.apply(first), Some(Command::CancelMission));
}

#[test]
fn a_restarted_receiver_follows_a_sender_that_counted_on() {
    let mut tx = CommandSender::new(10);
    for _ in 0..40_000 {
        tx.set(Command::Nop);
    }
    tx.set(Command::EStop);
    let mut rx = CommandReceiver::new();
    assert_eq!(rx.apply(tx.poll(0).unwrap()), Some(Command::EStop));
    tx.on_telemetry(rx.last_applied());
    assert!(tx.is_acked());
}

#[test]
fn receiver_ignores_exact_duplicates() {
    let mut rx = CommandReceiver::new();
    let frame = CommandFrame {
        cmd_seq: 5,
        body: Command::SetSpeedLimit(40),
    };
    assert_eq!(rx.apply(frame), Some(Command::SetSpeedLimit(40)));
    assert_eq!(rx.apply(frame), None);
    assert_eq!(rx.apply(frame), None);
    assert_eq!(rx.last_applied(), 5);
}

#[test]
fn receiver_ignores_stale_out_of_order_frames() {
    let mut rx = CommandReceiver::new();
    rx.apply(CommandFrame {
        cmd_seq: 10,
        body: Command::CancelMission,
    });
    let stale = CommandFrame {
        cmd_seq: 7,
        body: Command::EStop,
    };
    assert_eq!(rx.apply(stale), None);
    assert_eq!(rx.last_applied(), 10);
}

#[test]
fn receiver_handles_u16_wraparound() {
    let mut rx = CommandReceiver::new();
    rx.apply(CommandFrame {
        cmd_seq: 32_767,
        body: Command::Nop,
    });
    rx.apply(CommandFrame {
        cmd_seq: u16::MAX - 1,
        body: Command::Nop,
    });
    assert_eq!(rx.last_applied(), u16::MAX - 1);

    let wrapped = CommandFrame {
        cmd_seq: 0,
        body: Command::SetSpeedLimit(10),
    };
    assert_eq!(rx.apply(wrapped), Some(Command::SetSpeedLimit(10)));
    assert_eq!(rx.last_applied(), 0);

    let next = CommandFrame {
        cmd_seq: 1,
        body: Command::SetSpeedLimit(20),
    };
    assert_eq!(rx.apply(next), Some(Command::SetSpeedLimit(20)));

    let late = CommandFrame {
        cmd_seq: u16::MAX - 2,
        body: Command::EStop,
    };
    assert_eq!(rx.apply(late), None);
    assert_eq!(rx.last_applied(), 1);
}

#[test]
fn sender_sends_immediately_then_waits_for_the_interval() {
    let mut tx = CommandSender::new(100_000);
    let t0 = 5_000_000;
    tx.set(Command::EStop);

    let first = tx.poll(t0).expect("must send immediately after set()");
    assert_eq!(first.cmd_seq, 1);
    assert!(tx.poll(t0 + 50_000).is_none());
    let second = tx.poll(t0 + 150_000).unwrap();
    assert_eq!(second, first);
}

#[test]
fn sender_stops_once_acked() {
    let mut tx = CommandSender::new(10_000);
    let t0 = 0;
    tx.set(Command::SetMissionGoal(MissionGoal {
        lat_deg: Real64(7.0f64.to_bits()),
        lon_deg: Real64(100.0f64.to_bits()),
    }));
    let sent = tx.poll(t0).unwrap();
    assert!(!tx.is_acked());

    tx.on_telemetry(sent.cmd_seq);
    assert!(tx.is_acked());
    assert!(tx.poll(t0 + 10_000_000).is_none());
}

#[test]
fn sender_ignores_an_ack_for_a_different_seq() {
    let mut tx = CommandSender::new(10_000);
    tx.set(Command::EStop);
    tx.on_telemetry(999);
    assert!(!tx.is_acked());
}

#[test]
fn full_handshake_between_sender_and_receiver() {
    let mut tx = CommandSender::new(10_000);
    let mut rx = CommandReceiver::new();
    let mut t = 0;

    tx.set(Command::SetSpeedLimit(50));

    let mut applied = None;
    for _ in 0..3 {
        if let Some(frame) = tx.poll(t) {
            if let Some(body) = rx.apply(frame) {
                applied = Some(body);
            }
        }
        t += 20_000;
    }
    assert_eq!(applied, Some(Command::SetSpeedLimit(50)));

    tx.on_telemetry(rx.last_applied());
    assert!(tx.is_acked());
    assert!(tx.poll(t + 1_000_000).is_none());
}

#[test]
fn the_handshake_survives_losses_and_repeats() {
    let mut tx = CommandSender::new(10);
    let mut rx = CommandReceiver::new();
    tx.set(Command::EStop);
    let lost = tx.poll(0).unwrap();
    tx.on_telemetry(rx.last_applied());
    assert!(!tx.is_acked(), "nothing was applied yet");
    assert!(tx.poll(9).is_none());
    let arrived = tx.poll(10).unwrap();
    assert_eq!(arrived, lost);
    assert_eq!(rx.apply(arrived), Some(Command::EStop));
    assert_eq!(rx.apply(lost), None, "a late copy is not applied again");
    assert!(tx.poll(20).is_some(), "the echo was lost");
    tx.on_telemetry(rx.last_applied());
    assert!(tx.is_acked());
    assert!(tx.poll(1_000).is_none());
}

#[test]
fn cmd_seq_skips_zero_on_wraparound() {
    let mut s = CommandSender::new(1_000_000);
    for _ in 0..u16::MAX {
        s.set(Command::Nop);
    }
    assert_eq!(s.cmd_seq(), u16::MAX, "should be at the wrap boundary");
    s.set(Command::Nop);
    assert_eq!(
        s.cmd_seq(),
        1,
        "wraparound must skip the reserved sentinel 0"
    );
}

// ---- streams ---------------------------------------------------------------------

fn bus() -> Bus {
    let raw = RawConfig {
        services: vec![
            service("control", "127.0.0.1:7001"),
            service("base", "127.0.0.1:7005"),
        ],
        routes: vec![
            route("ImuSample", &["base"]),
            route("Telemetry", &["base"]),
            route("CommandFrame", &["control"]),
        ],
        mirror: mirror(""),
    };
    Bus::new(BusConfig::parse(&raw).unwrap())
}

fn imu(t_us: u32) -> ImuSample {
    ImuSample {
        accel_mps2: [r32(0.0), r32(0.0), r32(9.81)],
        gyro_radps: [r32(0.0), r32(0.0), r32(0.0)],
        t_us,
    }
}

#[test]
fn published_frames_are_numbered_routed_and_received_newest_first() {
    let mut a = bus();
    let mut b = bus();
    let one = a.publish(&imu(1));
    let two = a.publish(&imu(2));
    assert_eq!(one.dests, [PeerId::Base]);
    assert_eq!(one.mirror, None);
    assert!(b.latest::<ImuSample>().is_none());
    let batch = vec![one.frame, vec![1, 2, 3], two.frame];
    assert_eq!(b.subscribe::<ImuSample>(&batch), [imu(1), imu(2)]);
    b.poll(&batch);
    assert_eq!(b.latest::<ImuSample>(), Some(imu(2)));
    assert_eq!(b.latest_seq::<ImuSample>(), Some(1));
    assert_eq!(b.latest::<Telemetry>(), None);
    assert_eq!(b.config().addr_of(PeerId::Base), addr("127.0.0.1:7005"));
}

#[test]
fn every_destination_is_tried_and_the_first_failure_reported() {
    assert_eq!(fan_out_result(&vec![Ok(()), Ok(())]), Ok(()));
    assert_eq!(
        fan_out_result(&vec![
            Ok(()),
            Err(LinkError::UnknownPeer(PeerId::Base)),
            Err(LinkError::Unsupported)
        ]),
        Err(LinkError::UnknownPeer(PeerId::Base))
    );
}

#[test]
fn command_handshake_and_stream_complete() {
    let mut rover_bus = bus();
    let mut base_bus = bus();
    let mut cmd_tx = CommandSender::new(20_000);
    cmd_tx.set(Command::SetSpeedLimit(42));
    let mut cmd_rx = CommandReceiver::new();
    let mut to_base: Vec<Vec<u8>> = Vec::new();
    let mut stream_seen = false;
    for tick in 0..5u64 {
        let mut to_rover: Vec<Vec<u8>> = Vec::new();
        if let Some(frame) = cmd_tx.poll(tick * 2_000) {
            to_rover.push(base_bus.publish(&frame).frame);
        }
        base_bus.poll(&to_base);
        if let Some(t) = base_bus.latest::<Telemetry>() {
            cmd_tx.on_telemetry(t.last_cmd_seq);
        }
        stream_seen |= base_bus.latest::<ImuSample>().is_some();
        to_base.clear();
        to_base.push(rover_bus.publish(&imu(1)).frame);
        rover_bus.poll(&to_rover);
        if let Some(frame) = rover_bus.latest::<CommandFrame>() {
            cmd_rx.apply(frame);
        }
        let t = Telemetry {
            last_cmd_seq: cmd_rx.last_applied(),
            ..Default::default()
        };
        to_base.push(rover_bus.publish(&t).frame);
    }
    assert!(stream_seen);
    assert!(cmd_tx.is_acked());
    assert_eq!(cmd_rx.last_applied(), cmd_tx.cmd_seq());
    assert!(cmd_tx.poll(10_000_000).is_none());
}
