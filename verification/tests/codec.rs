//! Round trips and exact wire images of the packet codecs.
use rblitz::bitfield::{
    CastInfoBitfield, CharSpawnPetBitfield, MapPingBitfield, ShieldProperties, SpawnMinionBitfield,
    SpellSlotBitfield, TeamSurrenderVoteBitfield,
};
use rblitz::chat::ChatPacket;
use rblitz::frame::KeyCheck;
use rblitz::movement::{
    MovementData, MovementDataNormal, MovementDataStop, Vector2, Vector3,
};
use rblitz::packets_game::{
    CNpcIssueOrderReq, ConnectionInfo, CPingLoadInfo, CSyncVersion, ItemData, OrderType,
    PlayerLoadInfo, RemoveItemReq, SAvatarInfo, SCreateHero, SDampenerSwitch, SEndGame,
    SNpcInstantStopAttack, SOnEnterVisibilityClient, SReconnect, SStopAnimation, SSyncVersion,
    Talent,
};
use rblitz::packets_loading::{RequestJoinTeam, RequestRename, RequestReskin, TeamRosterUpdate};
use rblitz::waypoint::{decode_waypoints, encode_waypoints, CompressedWaypoint};
use rblitz::frame::Channel;
use rblitz::world::{NetId, NetNodeId};
use rblitz::error::Error;

fn wp(x: i16, z: i16) -> CompressedWaypoint {
    CompressedWaypoint { x, z }
}

#[test]
fn waypoint_round_trip_mixed_deltas() {
    // three delta-coded coordinates pairs, then one absolute pair
    let list = vec![wp(10, 20), wp(11, 21), wp(10, 19), wp(500, -500)];
    let mut out = Vec::new();
    encode_waypoints(&mut out, &list);
    // one flag byte: waypoints 1 and 2 fit as deltas (bits 0..3 set),
    // waypoint 3 does not (bits 4 and 5 clear)
    assert_eq!(out[0], 0b0000_1111);
    let (back, used) = decode_waypoints(&out, 0, 4).expect("decodes");
    assert_eq!(back, list);
    assert_eq!(used, out.len());
}

#[test]
fn waypoint_round_trip_single() {
    let list = vec![wp(-3, 7)];
    let mut out = Vec::new();
    encode_waypoints(&mut out, &list);
    // one (all-clear) flag byte plus two absolute coordinates
    assert_eq!(out.len(), 1 + 4);
    let (back, _) = decode_waypoints(&out, 0, 1).expect("decodes");
    assert_eq!(back, list);
}

#[test]
fn waypoint_encoded_size_all_deltas() {
    // when all deltas fit, the size is flags + 2 + (n - 1) * 2 coordinates
    let list = vec![wp(0, 0), wp(1, -1), wp(2, -2), wp(3, -3), wp(4, -4)];
    let mut out = Vec::new();
    encode_waypoints(&mut out, &list);
    let flag_bytes = (list.len() - 2) / 4 + 1;
    assert_eq!(out.len(), flag_bytes + 2 + 2 + (list.len() - 1) * 2);
    let (back, _) = decode_waypoints(&out, 0, list.len()).expect("decodes");
    assert_eq!(back, list);
}

#[test]
fn movement_normal_round_trip() {
    let md = MovementDataNormal {
        teleport_id: Some(9),
        teleport_net_id: Some(0x4000_0001),
        waypoints: vec![wp(100, 200), wp(101, 199)],
    };
    let mut out = Vec::new();
    md.encode(&mut out);
    let (back, used) = MovementDataNormal::decode(&out, 0).expect("decodes");
    assert_eq!(back, md);
    assert_eq!(used, out.len());
}

#[test]
fn movement_normal_empty_round_trip() {
    let md = MovementDataNormal { teleport_id: None, teleport_net_id: None, waypoints: vec![] };
    let mut out = Vec::new();
    md.encode(&mut out);
    assert_eq!(out.len(), 4);
    let (back, _) = MovementDataNormal::decode(&out, 0).expect("decodes");
    assert_eq!(back, md);
}

#[test]
fn movement_tagged_union_round_trip() {
    let stop = MovementData::Stop(MovementDataStop {
        position: Vector2 { x_bits: 1, y_bits: 2 },
        forward: Vector2 { x_bits: 3, y_bits: 4 },
    });
    let mut out = Vec::new();
    stop.encode(&mut out);
    assert_eq!(out[0], 3);
    let (back, _) = MovementData::decode(&out, 0).expect("decodes");
    assert_eq!(back, stop);

    let bare = MovementData::Bare(-77);
    let mut out2 = Vec::new();
    bare.encode(&mut out2);
    assert_eq!(out2[0], 0);
    let (back2, _) = MovementData::decode(&out2, 0).expect("decodes");
    assert_eq!(back2, bare);
}

#[test]
fn map_ping_bitfield_is_0x55() {
    let ping = MapPingBitfield {
        ping_category: 5,
        play_audio: true,
        show_chat: false,
        ping_throttled: true,
    };
    let mut out = Vec::new();
    ping.encode(&mut out);
    assert_eq!(out, vec![0x55]);
    let (back, used) = MapPingBitfield::decode(&out, 0).expect("decodes");
    assert_eq!(back, ping);
    assert_eq!(used, 1);
}

#[test]
fn bitfields_round_trip_all_combinations() {
    for byte in 0u16..=255 {
        let b = [byte as u8];
        let (v, _) = TeamSurrenderVoteBitfield::decode(&b, 0).unwrap();
        let mut out = Vec::new();
        v.encode(&mut out);
        let (v2, _) = TeamSurrenderVoteBitfield::decode(&out, 0).unwrap();
        assert_eq!(v, v2);

        let (c, _) = CastInfoBitfield::decode(&b, 0).unwrap();
        let mut out = Vec::new();
        c.encode(&mut out);
        let (c2, _) = CastInfoBitfield::decode(&out, 0).unwrap();
        assert_eq!(c, c2);

        let (m, _) = SpawnMinionBitfield::decode(&b, 0).unwrap();
        let mut out = Vec::new();
        m.encode(&mut out);
        let (m2, _) = SpawnMinionBitfield::decode(&out, 0).unwrap();
        assert_eq!(m, m2);

        let (s, _) = ShieldProperties::decode(&b, 0).unwrap();
        let mut out = Vec::new();
        s.encode(&mut out);
        let (s2, _) = ShieldProperties::decode(&out, 0).unwrap();
        assert_eq!(s, s2);

        let (p, _) = CharSpawnPetBitfield::decode(&b, 0).unwrap();
        let mut out = Vec::new();
        p.encode(&mut out);
        let (p2, _) = CharSpawnPetBitfield::decode(&out, 0).unwrap();
        assert_eq!(p, p2);
    }
}

#[test]
fn spell_slot_round_trip_and_width() {
    for slot in 0u8..128 {
        for is_summoner in [false, true] {
            let v = SpellSlotBitfield { slot, is_summoner_spell: is_summoner };
            let mut out = Vec::new();
            v.encode(&mut out);
            assert_eq!(out.len(), 1);
            let (back, _) = SpellSlotBitfield::decode(&out, 0).unwrap();
            assert_eq!(back, v);
        }
    }
}

#[test]
fn packed_packets_round_trip() {
    let a = SStopAnimation { fade: true, ignore_lock: false, stop_all: true };
    let mut out = Vec::new();
    a.encode(&mut out);
    assert_eq!(out.len(), 1);
    assert_eq!(SStopAnimation::decode(&out, 0).unwrap().0, a);

    let d = SDampenerSwitch { duration: 0x7ABC, state: true };
    let mut out = Vec::new();
    d.encode(&mut out);
    assert_eq!(out.len(), 2);
    assert_eq!(SDampenerSwitch::decode(&out, 0).unwrap().0, d);

    let e = SEndGame { is_team_order_win: true, is_surrender: false };
    let mut out = Vec::new();
    e.encode(&mut out);
    assert_eq!(out, vec![0x02]);
    assert_eq!(SEndGame::decode(&out, 0).unwrap().0, e);

    let n = SNpcInstantStopAttack {
        keep_animating: true,
        force_spell_cast: false,
        force_stop: true,
        avatar_spell: false,
        destroy_missile: true,
    };
    let mut out = Vec::new();
    n.encode(&mut out);
    assert_eq!(SNpcInstantStopAttack::decode(&out, 0).unwrap().0, n);

    let r = RemoveItemReq { slot: 6, sell: true };
    let mut out = Vec::new();
    r.encode(&mut out);
    assert_eq!(out, vec![0x86]);
    assert_eq!(RemoveItemReq::decode(&out, 0).unwrap().0, r);
}

#[test]
fn keycheck_frame_is_24_bytes_and_round_trips() {
    let kc = KeyCheck {
        action: 0,
        client_id: 3,
        player_id: 0x1122_3344_5566_7788,
        check_id: vec![1, 2, 3, 4, 5, 6, 7, 8],
    };
    let bytes = kc.to_bytes();
    assert_eq!(bytes.len(), 24);
    // little-endian player id at offset 8
    assert_eq!(&bytes[8..16], &[0x88, 0x77, 0x66, 0x55, 0x44, 0x33, 0x22, 0x11]);
    let (back, used) = KeyCheck::decode(&bytes, 0).expect("decodes");
    assert_eq!(used, 24);
    assert_eq!(back, kc);
    // a short frame is rejected
    assert!(KeyCheck::decode(&bytes[..23], 0).is_none());
}

#[test]
fn chat_packet_round_trip() {
    let pkt = ChatPacket { client_id: 1, typ: 1, message: b"hi".to_vec() };
    let bytes = pkt.to_bytes();
    // u32 client, u32 type, u32 length, "hi", terminator
    assert_eq!(bytes.len(), 4 + 4 + 4 + 2 + 1);
    let (back, used) = ChatPacket::decode(&bytes, 0).expect("decodes");
    assert_eq!(back, pkt);
    assert_eq!(used, bytes.len());
}

#[test]
fn reconnect_frame_layout() {
    let bytes = SReconnect { client_id: 7 }.to_bytes(0x4000_0005);
    assert_eq!(bytes[0], 0x10);
    assert_eq!(&bytes[1..5], &[0x05, 0x00, 0x00, 0x40]);
    assert_eq!(&bytes[5..9], &[7, 0, 0, 0]);
}

#[test]
fn connection_info_round_trip_masks_ping() {
    let ci = ConnectionInfo {
        client_id: 2,
        player_id: 200,
        percentage_bits: 0x3F00_0000,
        eta_bits: 0,
        count: -5,
        ping: 0x7FFF,
        ready: true,
    };
    let pkt = CPingLoadInfo { connection_info: ci };
    let mut out = Vec::new();
    pkt.encode(&mut out);
    let (back, _) = CPingLoadInfo::decode(&out, 0).expect("decodes");
    assert_eq!(back, pkt);
}

#[test]
fn sync_version_round_trip() {
    let pkt = CSyncVersion {
        time_last_client_bits: 0,
        client_id: 1,
        version: b"4.20.0.315".to_vec(),
    };
    let mut out = Vec::new();
    pkt.encode(&mut out);
    // two u32 words then the fixed 128-byte buffer
    assert_eq!(out.len(), 4 + 4 + 128);
    let (back, _) = CSyncVersion::decode(&out, 0).expect("decodes");
    assert_eq!(back, pkt);

    let ans = SSyncVersion {
        is_version_ok: true,
        map: 8,
        player_info: vec![
            PlayerLoadInfo {
                player_id: 9,
                summoner_level: 30,
                summoner_spell1: 4,
                summoner_spell2: 7,
                is_bot: false,
                team_id: 100,
                bot_difficulty: 0,
                profile_icon_id: 1,
            };
            12
        ],
        version_string: b"4.20.0.315".to_vec(),
        map_mode: b"ODIN".to_vec(),
    };
    let mut out = Vec::new();
    ans.encode(&mut out);
    let (back, _) = SSyncVersion::decode(&out, 0).expect("decodes");
    assert_eq!(back, ans);
}

#[test]
fn create_hero_and_avatar_round_trip() {
    let hero = SCreateHero {
        unit_net_id: 0x4000_0001,
        client_id: 0,
        net_node_id: 0x40,
        skill_level: 0,
        team_is_order: true,
        is_bot: false,
        bot_rank: 0,
        spawn_position_index: 0,
        skin_id: 2,
        name: b"PlayerOne".to_vec(),
        skin: b"Garen".to_vec(),
    };
    let mut out = Vec::new();
    hero.encode(&mut out);
    let (back, _) = SCreateHero::decode(&out, 0).expect("decodes");
    assert_eq!(back, hero);

    let avatar = SAvatarInfo {
        item_ids: vec![0; 30],
        summoner_spell_ids: vec![4, 7],
        talents: vec![Talent { hash: 0, level: 0 }; 30],
        level: 1,
    };
    let mut out = Vec::new();
    avatar.encode(&mut out);
    let (back, _) = SAvatarInfo::decode(&out, 0).expect("decodes");
    assert_eq!(back, avatar);
}

#[test]
fn npc_issue_order_round_trip() {
    let pkt = CNpcIssueOrderReq {
        order_type: OrderType::Move,
        position: Vector3 { x_bits: 10, y_bits: 20, z_bits: 30 },
        target_net_id: 0,
        movement_data: MovementDataNormal {
            teleport_id: None,
            teleport_net_id: Some(0x4000_0001),
            waypoints: vec![wp(10, 20), wp(500, -500)],
        },
    };
    let mut out = Vec::new();
    pkt.encode(&mut out);
    let (back, used) = CNpcIssueOrderReq::decode(&out, 0).expect("decodes");
    assert_eq!(back, pkt);
    assert_eq!(used, out.len());
}

#[test]
fn visibility_round_trip() {
    let vis = SOnEnterVisibilityClient {
        entries: vec![ItemData { slot: 1, items_in_slot: 2, spell_charges: 0, item_id: 1001 }],
        look_at_pos: Some(Vector2 { x_bits: 5, y_bits: 6 }),
        movement_data: MovementData::Stop(MovementDataStop {
            position: Vector2 { x_bits: 0x41D0_0000, y_bits: 0x438C_0000 },
            forward: Vector2 { x_bits: 0x41D0_0000, y_bits: 0x438C_0000 },
        }),
    };
    let mut out = Vec::new();
    vis.encode(&mut out);
    let (back, _) = SOnEnterVisibilityClient::decode(&out, 0).expect("decodes");
    assert_eq!(back, vis);
}

#[test]
fn loading_screen_round_trips() {
    let join = RequestJoinTeam { client_id: 1, team_id: 100 };
    let mut out = Vec::new();
    join.encode(&mut out);
    assert_eq!(out.len(), 11);
    assert_eq!(RequestJoinTeam::decode(&out, 0).unwrap().0, join);
    assert_eq!(join.to_bytes()[0], 0x64);

    let reskin = RequestReskin { player_id: 100, skin_id: 2, name: b"Garen".to_vec() };
    let mut out = Vec::new();
    reskin.encode(&mut out);
    assert_eq!(RequestReskin::decode(&out, 0).unwrap().0, reskin);

    let rename = RequestRename { player_id: 100, skin_id: 2, name: b"PlayerOne".to_vec() };
    let mut out = Vec::new();
    rename.encode(&mut out);
    assert_eq!(RequestRename::decode(&out, 0).unwrap().0, rename);

    let roster = TeamRosterUpdate {
        team_size_order: 6,
        team_size_chaos: 6,
        order_player_ids: {
            let mut v = vec![0u64; 24];
            v[0] = 100;
            v
        },
        chaos_player_ids: {
            let mut v = vec![0u64; 24];
            v[0] = 200;
            v
        },
        current_team_size_order: 1,
        current_team_size_chaos: 1,
    };
    let mut out = Vec::new();
    roster.encode(&mut out);
    assert_eq!(out.len(), 3 + 4 + 4 + 4 + 24 * 8 + 24 * 8 + 4 + 4);
    assert_eq!(TeamRosterUpdate::decode(&out, 0).unwrap().0, roster);
}

#[test]
fn string_flavours_round_trip() {
    // unbounded null-terminated bytes
    let mut out = Vec::new();
    rblitz::text::put_zbytes(&mut out, &b"hello".to_vec());
    assert_eq!(out, b"hello\0");
    let (c, used) = rblitz::text::take_zbytes(&out, 0).expect("decodes");
    assert_eq!(c, b"hello");
    assert_eq!(used, 6);
    // fixed zero-padded buffer
    let mut out = Vec::new();
    rblitz::text::put_fixed(&mut out, &b"ab".to_vec(), 8);
    assert_eq!(out, b"ab\0\0\0\0\0\0");
    let (c, used) = rblitz::text::take_fixed(&out, 0, 8).expect("decodes");
    assert_eq!(c, b"ab");
    assert_eq!(used, 8);
    // length-prefixed with trailing terminator
    let mut out = Vec::new();
    rblitz::text::put_sized_nul(&mut out, &b"xy".to_vec());
    assert_eq!(out, &[2, 0, 0, 0, b'x', b'y', 0]);
    let (c, used) = rblitz::text::take_sized_nul(&out, 0).expect("decodes");
    assert_eq!(c, b"xy");
    assert_eq!(used, 7);
}

#[test]
fn channel_and_net_id_helpers() {
    assert_eq!(Channel::try_from(0), Some(Channel::Handshake));
    assert_eq!(Channel::try_from(5), Some(Channel::Chat));
    assert_eq!(Channel::try_from(7), None);
    assert_eq!(Channel::Broadcast.as_u8(), 3);
    let spawned = NetId::new_spawned(3);
    assert_eq!(spawned.id(), 0x4000_0003);
    assert_eq!(spawned.node_id(), NetNodeId::Spawned);
    let map_obj = NetId::new_map(1);
    assert_eq!(map_obj.id(), 0xFF00_0001);
    assert_eq!(map_obj.node_id(), NetNodeId::MapObject);
}

#[test]
fn malformed_frames_are_rejected() {
    // a truncated movement body
    let md = MovementDataNormal {
        teleport_id: None,
        teleport_net_id: Some(1),
        waypoints: vec![wp(1, 2), wp(3, 4)],
    };
    let mut out = Vec::new();
    md.encode(&mut out);
    assert!(MovementDataNormal::decode(&out[..out.len() - 1], 0).is_none());
    // the with-speed tag has no codec and is refused
    assert!(MovementData::decode(&[1u8, 0, 0, 0, 0], 0).is_none());
    // a chat frame whose length prefix overruns the buffer
    assert!(ChatPacket::decode(&[0, 0, 0, 0, 0, 0, 0, 0, 9, 0, 0, 0, b'a'], 0).is_none());
}

#[test]
fn checked_chat_frame_accepts_ordinary_messages() {
    let pkt = ChatPacket { client_id: 0, typ: 0, message: b"gg".to_vec() };
    let bytes = pkt.try_to_bytes().expect("fits the length prefix");
    assert_eq!(bytes, pkt.to_bytes());
}

#[test]
fn checked_encoders_refuse_bad_text() {
    let pkt = ChatPacket { client_id: 0, typ: 0, message: vec![0xFF, 0x20] };
    assert_eq!(pkt.try_to_bytes(), Err(Error::BadText));
    let reskin = RequestReskin { player_id: 1, skin_id: 0, name: vec![0xC0] };
    assert_eq!(reskin.try_to_bytes(), Err(Error::BadText));
    let rename = RequestRename { player_id: 1, skin_id: 0, name: "Garçon".as_bytes().to_vec() };
    assert!(rename.try_to_bytes().is_ok());
}

#[test]
fn invalid_utf8_strings_are_rejected_on_decode() {
    // a chat frame whose message bytes are not UTF-8
    let mut frame = Vec::new();
    frame.extend_from_slice(&[1, 0, 0, 0]);  // client id
    frame.extend_from_slice(&[0, 0, 0, 0]);  // type
    frame.extend_from_slice(&[2, 0, 0, 0]);  // length
    frame.extend_from_slice(&[0xFF, 0xFE]);  // not UTF-8
    frame.push(0);
    assert!(ChatPacket::decode(&frame, 0).is_none());
    // multi-byte text is accepted
    let ok = ChatPacket { client_id: 1, typ: 0, message: "héllo ✓".as_bytes().to_vec() };
    let bytes = ok.to_bytes();
    assert_eq!(ChatPacket::decode(&bytes, 0).unwrap().0, ok);
    // a version record whose fixed buffer holds a truncated code point
    let mut ver = Vec::new();
    ver.extend_from_slice(&[0, 0, 0, 0, 0, 0, 0, 0]);  // two u32 words
    let mut buf = vec![0u8; 128];
    buf[0] = 0xC3;  // lead byte with no continuation before the terminator
    ver.extend_from_slice(&buf);
    assert!(CSyncVersion::decode(&ver, 0).is_none());
}
