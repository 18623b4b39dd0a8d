//! End-to-end session scenarios: handshake, readiness gating, chat routing
//! and the cipher.
use rblitz::chat::ChatPacket;
use rblitz::cipher::CipherContext;
use rblitz::config::PlayerConfig;
use rblitz::dispatch::SyncTimer;
use rblitz::frame::{Channel, KeyCheck};
use rblitz::session::{ClientId, ClientMap, ClientStatus, Command, PacketSender};
use rblitz::world::{GameState, Team};

fn entry(name: &str, key: &str, player_id: u64, team: Team, champion: &str) -> PlayerConfig {
    PlayerConfig {
        name: name.as_bytes().to_vec(),
        key: key.as_bytes().to_vec(),
        player_id,
        team,
        champion: champion.as_bytes().to_vec(),
        skin_id: 0,
        summoner_level: 30,
        summoner_spell0: 4,
        summoner_spell1: 7,
        profile_icon: 0,
    }
}

fn two_player_roster() -> ClientMap {
    ClientMap::init_from_config(vec![
        entry("PlayerA", "AAAAAAAAAAAAAAAA", 100, Team::Order, "Garen"),
        entry("PlayerB", "BBBBBBBBBBBBBBBB", 200, Team::Chaos, "Ashe"),
    ])
}

fn encrypt_pid(key: &str, pid: u64) -> Vec<u8> {
    let ctx = CipherContext::new(&key.as_bytes()[..16]);
    ctx.encrypt_check(&pid.to_le_bytes().to_vec())
}

#[test]
fn two_player_handshake() {
    let mut map = two_player_roster();
    let mut out = PacketSender::new();
    let kc = KeyCheck {
        action: 0,
        client_id: 0,
        player_id: 100,
        check_id: encrypt_pid("AAAAAAAAAAAAAAAA", 100),
    };
    let accepted = map.handle_connect(&kc, 17, &mut out);
    assert_eq!(accepted, Some((ClientId(0), None)));
    assert_eq!(map.clients[0].status, ClientStatus::Loading);
    assert_eq!(map.clients[0].peer, Some(17));
    // the echo plus one key-check for the other slot
    assert_eq!(out.cmds.len(), 2);
    match &out.cmds[0] {
        Command::Single(Channel::Handshake, cid, bytes) => {
            assert_eq!(*cid, ClientId(0));
            let (echo, _) = KeyCheck::decode(bytes, 0).expect("echo decodes");
            assert_eq!(echo.client_id, 0);
            assert_eq!(echo.player_id, 100);
            assert_eq!(echo.check_id, kc.check_id);
        },
        _ => panic!("expected an echoed key-check"),
    }
    match &out.cmds[1] {
        Command::Single(Channel::Handshake, cid, bytes) => {
            assert_eq!(*cid, ClientId(0));
            let (other, _) = KeyCheck::decode(bytes, 0).expect("key-check decodes");
            assert_eq!(other.client_id, 1);
            assert_eq!(other.player_id, 200);
            assert_eq!(other.check_id, encrypt_pid("BBBBBBBBBBBBBBBB", 200));
        },
        _ => panic!("expected the other slot's key-check"),
    }
}

#[test]
fn reconnect_replaces_the_old_peer() {
    let mut map = two_player_roster();
    let mut out = PacketSender::new();
    let kc = KeyCheck {
        action: 0,
        client_id: 0,
        player_id: 100,
        check_id: encrypt_pid("AAAAAAAAAAAAAAAA", 100),
    };
    assert_eq!(map.handle_connect(&kc, 17, &mut out), Some((ClientId(0), None)));
    // the same player authenticates again from a new peer: the old handle
    // is handed back for a graceful disconnect
    let kc2 = KeyCheck { check_id: encrypt_pid("AAAAAAAAAAAAAAAA", 100), ..kc };
    assert_eq!(map.handle_connect(&kc2, 99, &mut out), Some((ClientId(0), Some(17))));
    assert_eq!(map.clients[0].peer, Some(99));
}

#[test]
fn bad_auth_disconnects() {
    let mut map = two_player_roster();
    let mut out = PacketSender::new();
    let kc = KeyCheck { action: 0, client_id: 0, player_id: 100, check_id: vec![0; 8] };
    let accepted = map.handle_connect(&kc, 17, &mut out);
    assert_eq!(accepted, None);
    assert_eq!(map.clients[0].status, ClientStatus::Disconnected);
    assert_eq!(map.clients[0].peer, None);
    assert!(out.cmds.is_empty());
}

#[test]
fn unknown_player_id_disconnects() {
    let mut map = two_player_roster();
    let mut out = PacketSender::new();
    let kc = KeyCheck {
        action: 0,
        client_id: 0,
        player_id: 999,
        check_id: encrypt_pid("AAAAAAAAAAAAAAAA", 999),
    };
    assert_eq!(map.handle_connect(&kc, 17, &mut out), None);
    assert!(out.cmds.is_empty());
}

#[test]
fn ready_gate() {
    let mut map = two_player_roster();
    let mut out = PacketSender::new();
    let mut state = GameState::Loading;
    // both peers are loading
    let kc_a = KeyCheck {
        action: 0,
        client_id: 0,
        player_id: 100,
        check_id: encrypt_pid("AAAAAAAAAAAAAAAA", 100),
    };
    let kc_b = KeyCheck {
        action: 0,
        client_id: 0,
        player_id: 200,
        check_id: encrypt_pid("BBBBBBBBBBBBBBBB", 200),
    };
    map.handle_connect(&kc_a, 1, &mut out).expect("A connects");
    map.handle_connect(&kc_b, 2, &mut out).expect("B connects");
    let mut out = PacketSender::new();
    // the first ready report broadcasts nothing
    map.handle_client_ready(ClientId(0), &mut state, &mut out);
    assert_eq!(state, GameState::Loading);
    assert!(out.cmds.is_empty());
    assert_eq!(map.clients[0].status, ClientStatus::Ready);
    // the second one starts the game
    map.handle_client_ready(ClientId(1), &mut state, &mut out);
    assert_eq!(state, GameState::Running);
    assert_eq!(out.cmds.len(), 4);
    match &out.cmds[0] {
        Command::BroadcastAll(Channel::Broadcast, bytes) => {
            assert_eq!(bytes[0], 0x5F);  // start game
            assert_eq!(bytes[5], 0);  // tournament pause off
        },
        _ => panic!("expected the start-game broadcast"),
    }
    match &out.cmds[1] {
        Command::BroadcastAll(Channel::Broadcast, bytes) => {
            assert_eq!(bytes[0], 0xCA);  // mission start time
            // 1.0f32, little endian
            assert_eq!(&bytes[5..9], &[0x00, 0x00, 0x80, 0x3F]);
        },
        _ => panic!("expected the mission-time broadcast"),
    }
    // one visibility frame per slot, stamped with the champion's net id
    for k in 0..2usize {
        match &out.cmds[2 + k] {
            Command::Single(Channel::Broadcast, cid, bytes) => {
                assert_eq!(*cid, ClientId(k as u32));
                assert_eq!(bytes[0], 0xC2);
                let net = map.clients[k].net_id.id();
                assert_eq!(&bytes[1..5], &net.to_le_bytes());
            },
            _ => panic!("expected a visibility frame"),
        }
        assert_eq!(map.clients[k].status, ClientStatus::Connected);
    }
}

#[test]
fn chat_team_routing() {
    let mut players = Vec::new();
    for k in 0..5u64 {
        let team = if k < 3 { Team::Order } else { Team::Chaos };
        players.push(entry(&format!("P{}", k), "CCCCCCCCCCCCCCCC", 100 + k, team, "Garen"));
    }
    let map = ClientMap::init_from_config(players);
    let mut out = PacketSender::new();
    let frame = ChatPacket { client_id: 1, typ: 1, message: b"hi".to_vec() }.to_bytes();
    map.handle_chat(ClientId(1), &frame, &mut out);
    assert_eq!(out.cmds.len(), 1);
    match &out.cmds[0] {
        Command::BroadcastGroup(Channel::Chat, cids, bytes) => {
            assert_eq!(cids, &vec![ClientId(0), ClientId(1), ClientId(2)]);
            assert_eq!(bytes, &frame);
        },
        _ => panic!("expected a team broadcast"),
    }
}

#[test]
fn chat_all_routing_and_bad_type() {
    let map = two_player_roster();
    let mut out = PacketSender::new();
    let frame = ChatPacket { client_id: 0, typ: 0, message: b"all".to_vec() }.to_bytes();
    map.handle_chat(ClientId(0), &frame, &mut out);
    assert_eq!(out.cmds.len(), 1);
    assert!(matches!(&out.cmds[0], Command::BroadcastAll(Channel::Chat, b) if b == &frame));
    // an unknown chat type is dropped
    let bad = ChatPacket { client_id: 0, typ: 9, message: b"x".to_vec() }.to_bytes();
    map.handle_chat(ClientId(0), &bad, &mut out);
    assert_eq!(out.cmds.len(), 1);
}

#[test]
fn cipher_round_trip_and_tail() {
    let ctx = CipherContext::new(b"AAAAAAAAAAAAAAAA");
    let plain: Vec<u8> = (0u8..21).collect();
    let mut buf = plain.clone();
    ctx.encrypt_data(&mut buf);
    assert_eq!(buf.len(), plain.len());
    // the whole-block prefix really is transformed
    assert_ne!(&buf[..16], &plain[..16]);
    // the 5 trailing bytes pass through untouched
    assert_eq!(&buf[16..], &plain[16..]);
    ctx.decrypt_data(&mut buf);
    assert_eq!(buf, plain);
}

#[test]
fn cipher_short_buffer_is_untouched() {
    let ctx = CipherContext::new(b"AAAAAAAAAAAAAAAA");
    let mut buf = vec![1, 2, 3, 4, 5, 6, 7];
    ctx.encrypt_data(&mut buf);
    assert_eq!(buf, vec![1, 2, 3, 4, 5, 6, 7]);
}

#[test]
fn dispatch_decrypts_and_routes_chat() {
    let mut map = two_player_roster();
    let mut state = GameState::Loading;
    let mut out = PacketSender::new();
    let frame = ChatPacket { client_id: 0, typ: 0, message: b"hello".to_vec() }.to_bytes();
    let mut wire = frame.clone();
    // the peer encrypts with its own key; dispatch must undo it
    CipherContext::new(b"AAAAAAAAAAAAAAAA").encrypt_data(&mut wire);
    let disconnect = map.handle_packet(&mut state, 5, ClientId(0), &wire, &mut out);
    assert!(!disconnect);
    assert_eq!(out.cmds.len(), 1);
    assert!(matches!(&out.cmds[0], Command::BroadcastAll(Channel::Chat, b) if b == &frame));
}

#[test]
fn dispatch_query_status_and_exit() {
    let mut map = two_player_roster();
    let mut state = GameState::Loading;
    let mut out = PacketSender::new();
    let key = CipherContext::new(b"AAAAAAAAAAAAAAAA");
    // a query-status frame on the broadcast channel
    let mut frame = vec![0x17u8, 0, 0, 0, 0];
    key.encrypt_data(&mut frame);
    assert!(!map.handle_packet(&mut state, 3, ClientId(0), &frame, &mut out));
    assert_eq!(out.cmds.len(), 1);
    match &out.cmds[0] {
        Command::Single(Channel::Broadcast, cid, bytes) => {
            assert_eq!(*cid, ClientId(0));
            assert_eq!(bytes[0], 0x8D);
            assert_eq!(bytes[5], 1);  // is_ok
        },
        _ => panic!("expected the status answer"),
    }
    // an exit request asks for a disconnect
    let mut exit = vec![0x94u8, 0, 0, 0, 0];
    key.encrypt_data(&mut exit);
    assert!(map.handle_packet(&mut state, 3, ClientId(0), &exit, &mut out));
}

#[test]
fn dispatch_roster_request() {
    let mut map = two_player_roster();
    let mut state = GameState::Loading;
    let mut out = PacketSender::new();
    let key = CipherContext::new(b"AAAAAAAAAAAAAAAA");
    let mut frame = rblitz::packets_loading::RequestJoinTeam { client_id: 0, team_id: 100 }
        .to_bytes();
    key.encrypt_data(&mut frame);
    assert!(!map.handle_packet(&mut state, 6, ClientId(0), &frame, &mut out));
    // the roster plus a reskin and a rename per slot
    assert_eq!(out.cmds.len(), 1 + 2 * 2);
    match &out.cmds[0] {
        Command::Single(Channel::LoadingScreen, cid, bytes) => {
            assert_eq!(*cid, ClientId(0));
            assert_eq!(bytes[0], 0x67);
            let (roster, _) =
                rblitz::packets_loading::TeamRosterUpdate::decode(&bytes[1..], 0).unwrap();
            assert_eq!(roster.order_player_ids[0], 100);
            assert_eq!(roster.chaos_player_ids[0], 200);
            assert_eq!(roster.current_team_size_order, 1);
            assert_eq!(roster.current_team_size_chaos, 1);
            assert_eq!(roster.team_size_order, 6);
        },
        _ => panic!("expected the roster frame"),
    }
}

#[test]
fn spawn_sequence_order() {
    let map = two_player_roster();
    let mut out = PacketSender::new();
    map.handle_char_selected(ClientId(0), &mut out);
    assert_eq!(out.cmds.len(), 2 + 2 * 2);
    let ids: Vec<u8> = out
        .cmds
        .iter()
        .map(|c| match c {
            Command::Single(Channel::Broadcast, _, b) => b[0],
            _ => panic!("expected single commands"),
        })
        .collect();
    assert_eq!(ids, vec![0x65, 0x4F, 0x2C, 0x4F, 0x2C, 0x12]);
    // each avatar frame is stamped with its hero's net id
    for k in 0..2usize {
        match &out.cmds[2 + 2 * k] {
            Command::Single(Channel::Broadcast, _, b) => {
                assert_eq!(&b[1..5], &map.clients[k].net_id.id().to_le_bytes());
            },
            _ => unreachable!(),
        }
    }
}

#[test]
fn roster_names_are_clipped_to_the_wire_buffer() {
    let mut long = entry("x", "EEEEEEEEEEEEEEEE", 1, Team::Order, "Garen");
    long.name = vec![b'a'; 60];
    // a name with a byte outside the printable seven-bit range is clipped
    // before it, keeping every outgoing frame well-formed
    let mut accented = entry("y", "FFFFFFFFFFFFFFFF", 2, Team::Order, "Ashe");
    accented.name = vec![b'J', b'o', 0xC3, 0xA3, b'o'];
    let map = ClientMap::init_from_config(vec![long, accented]);
    assert_eq!(map.clients[0].name, vec![b'a'; 39]);
    assert_eq!(map.clients[1].name, b"Jo".to_vec());
}

#[test]
fn disconnect_tracks_shutdown() {
    let mut map = two_player_roster();
    assert!(map.handle_disconnect(ClientId(0)));
    // both slots start Disconnected, so one disconnect already reports all gone
    let mut map = two_player_roster();
    map.clients[1].status = ClientStatus::Loading;
    assert!(!map.handle_disconnect(ClientId(0)));
}

#[test]
fn sync_timer_fires_every_period() {
    let mut timer = SyncTimer::new();
    let mut out = PacketSender::new();
    // loading: nothing counts down
    timer.run(GameState::Loading, 0, &mut out);
    assert!(out.cmds.is_empty());
    // running: the fresh timer fires at once, then reloads
    timer.run(GameState::Running, 0x3F80_0000, &mut out);
    assert_eq!(out.cmds.len(), 1);
    assert_eq!(timer.0, 300);
    match &out.cmds[0] {
        Command::BroadcastAll(Channel::Broadcast, bytes) => {
            assert_eq!(bytes[0], 0xC9);
            assert_eq!(&bytes[5..9], &[0x00, 0x00, 0x80, 0x3F]);
        },
        _ => panic!("expected the clock broadcast"),
    }
    // and then stays quiet for the next 299 ticks
    for _ in 0..299 {
        timer.run(GameState::Running, 0, &mut out);
    }
    assert_eq!(out.cmds.len(), 1);
    timer.run(GameState::Running, 0, &mut out);
    assert_eq!(out.cmds.len(), 2);
}

#[test]
fn roster_drops_extra_and_bad_entries() {
    let mut players = Vec::new();
    for k in 0..14u64 {
        players.push(entry(&format!("P{}", k), "DDDDDDDDDDDDDDDD", k, Team::Order, "Garen"));
    }
    // a short key and a duplicate player id are dropped too
    players[3].key = b"short".to_vec();
    players[4].player_id = 0;
    let map = ClientMap::init_from_config(players);
    assert_eq!(map.clients.len(), 12);
    assert_eq!(map.clients[0].player_id, 0);
    // slot 3 (short key) and slot 4 (duplicate of player 0) are skipped
    assert_eq!(map.clients[3].player_id, 5);
}

#[test]
fn dispatch_ping_and_version() {
    let mut map = two_player_roster();
    let mut state = GameState::Loading;
    let mut out = PacketSender::new();
    let key = CipherContext::new(b"AAAAAAAAAAAAAAAA");
    // a version handshake is answered with the roster and map mode
    let ver = rblitz::packets_game::CSyncVersion {
        time_last_client_bits: 0,
        client_id: 0,
        version: b"4.20.0.315".to_vec(),
    };
    let mut frame = ver.to_bytes(0);
    key.encrypt_data(&mut frame);
    assert!(!map.handle_packet(&mut state, 3, ClientId(0), &frame, &mut out));
    assert_eq!(out.cmds.len(), 1);
    match &out.cmds[0] {
        Command::Single(Channel::Broadcast, cid, bytes) => {
            assert_eq!(*cid, ClientId(0));
            assert_eq!(bytes[0], 0x57);
            let (ans, _) = rblitz::packets_game::SSyncVersion::decode(&bytes[5..], 0).unwrap();
            assert!(ans.is_version_ok);
            assert_eq!(ans.map, 8);
            assert_eq!(ans.map_mode, b"ODIN");
            assert_eq!(ans.version_string, b"4.20.0.315");
            assert_eq!(ans.player_info[0].player_id, 100);
            assert_eq!(ans.player_info[0].team_id, 100);
            assert_eq!(ans.player_info[1].player_id, 200);
            assert_eq!(ans.player_info[1].team_id, 200);
            assert_eq!(ans.player_info[2].player_id, 0);
        },
        _ => panic!("expected the version answer"),
    }
    // a load report is fanned out with the sender's player id patched in
    let mut out = PacketSender::new();
    let ping = rblitz::packets_game::CPingLoadInfo {
        connection_info: rblitz::packets_game::ConnectionInfo {
            client_id: 0,
            player_id: 0,
            percentage_bits: 0,
            eta_bits: 0,
            count: 0,
            ping: 35,
            ready: false,
        },
    };
    let mut frame = ping.to_bytes(0);
    key.encrypt_data(&mut frame);
    assert!(!map.handle_packet(&mut state, 3, ClientId(0), &frame, &mut out));
    assert_eq!(out.cmds.len(), 1);
    match &out.cmds[0] {
        Command::BroadcastAll(Channel::Broadcast, bytes) => {
            assert_eq!(bytes[0], 0x9D);
            let (fanned, _) = rblitz::packets_game::SPingLoadInfo::decode(&bytes[5..], 0).unwrap();
            assert_eq!(fanned.connection_info.player_id, 100);
            assert_eq!(fanned.connection_info.ping, 35);
        },
        _ => panic!("expected the load fan-out"),
    }
}

#[test]
fn dispatch_move_order_broadcasts_waypoints() {
    let mut map = two_player_roster();
    let mut state = GameState::Loading;
    let mut out = PacketSender::new();
    let key = CipherContext::new(b"AAAAAAAAAAAAAAAA");
    let order = rblitz::packets_game::CNpcIssueOrderReq {
        order_type: rblitz::packets_game::OrderType::Move,
        position: rblitz::movement::Vector3 { x_bits: 0, y_bits: 0, z_bits: 0 },
        target_net_id: 0,
        movement_data: rblitz::movement::MovementDataNormal {
            teleport_id: None,
            teleport_net_id: Some(0x4000_0001),
            waypoints: vec![
                rblitz::waypoint::CompressedWaypoint { x: 10, z: 20 },
                rblitz::waypoint::CompressedWaypoint { x: 12, z: 18 },
            ],
        },
    };
    let mut frame = order.to_bytes(0x4000_0001);
    key.encrypt_data(&mut frame);
    assert!(!map.handle_packet(&mut state, 3, ClientId(0), &frame, &mut out));
    assert_eq!(out.cmds.len(), 1);
    match &out.cmds[0] {
        Command::BroadcastAll(Channel::Broadcast, bytes) => {
            assert_eq!(bytes[0], 0x64);
        },
        _ => panic!("expected the waypoint group broadcast"),
    }
}
