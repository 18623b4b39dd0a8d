//! The per-packet handlers of the game and loading-screen channels.
use vstd::prelude::*;

verus! {

use crate::frame::{game_frame, loading_frame, Channel};
use crate::packets_game::{
    ConnectionInfo,
    CNpcIssueOrderReq,
    CPingLoadInfo,
    CSyncVersion,
    OrderType,
    PlayerLoadInfo,
    SAvatarInfo,
    SAvatarInfoView,
    SCreateHero,
    SCreateHeroView,
    SEndSpawn,
    SPingLoadInfo,
    SQueryStatusAns,
    SReconnect,
    SStartSpawn,
    SSyncSimTime,
    SSyncVersion,
    SSyncVersionView,
    SWaypointGroup,
    SWaypointGroupView,
    Talent,
};
use crate::packets_loading::{
    RequestRename,
    RequestRenameView,
    RequestReskin,
    RequestReskinView,
    TeamRosterUpdate,
    TeamRosterUpdateView,
};
use crate::session::{ClientId, ClientMap, ClientView, CommandView, PacketSender};
use crate::world::{GameState, Team};

/// The status answer frame.
pub open spec fn query_status_bytes() -> Seq<u8> {
    game_frame(0x8D, 0, SQueryStatusAns { is_ok: true }.wire())
}

/// The reconnect answer frame for one slot.
pub open spec fn reconnect_bytes(cid: ClientId) -> Seq<u8> {
    game_frame(0x10, 0, SReconnect { client_id: cid.0 }.wire())
}

/// The roster entry of the version answer for one slot.
pub open spec fn load_info_of(c: ClientView) -> PlayerLoadInfo {
    PlayerLoadInfo {
        player_id: c.player_id,
        summoner_level: c.summoner_level,
        summoner_spell1: c.summoner_spells.0,
        summoner_spell2: c.summoner_spells.1,
        is_bot: false,
        team_id: c.team.team_id(),
        bot_difficulty: 0,
        profile_icon_id: c.profile_icon,
    }
}

/// The empty roster entry filling unused version-answer slots.
pub open spec fn blank_load_info() -> PlayerLoadInfo {
    PlayerLoadInfo {
        player_id: 0,
        summoner_level: 0,
        summoner_spell1: 0,
        summoner_spell2: 0,
        is_bot: false,
        team_id: 0,
        bot_difficulty: 0,
        profile_icon_id: 0,
    }
}

/// The twelve version-answer entries: one per slot, blanks after.
pub open spec fn load_infos(v: Seq<ClientView>) -> Seq<PlayerLoadInfo> {
    Seq::new(
        12,
        |k: int|
            if k < v.len() {
                load_info_of(v[k])
            } else {
                blank_load_info()
            },
    )
}

/// The fixed map mode name.
pub open spec fn map_mode_odin() -> Seq<u8> {
    seq![79u8, 68u8, 73u8, 78u8]
}

/// The version answer frame: version accepted, map 8, the roster, the
/// echoed version string and the fixed map mode.
pub open spec fn sync_version_bytes(v: Seq<ClientView>, version: Seq<u8>) -> Seq<u8> {
    game_frame(
        0x57,
        0,
        SSyncVersionView {
            is_version_ok: true,
            map: 8,
            player_info: load_infos(v),
            version_string: version,
            map_mode: map_mode_odin(),
        }.wire(),
    )
}

/// The hero-creation frame of the spawn sequence for slot `k`.
pub open spec fn create_hero_bytes(c: ClientView, k: int) -> Seq<u8> {
    game_frame(
        0x4F,
        0,
        SCreateHeroView {
            unit_net_id: c.net_id.0,
            client_id: k as u32,
            net_node_id: (c.net_id.0 >> 24) as u8,
            skill_level: 0,
            team_is_order: c.team == Team::Order,
            is_bot: false,
            bot_rank: 0,
            spawn_position_index: (k % 5) as u8,
            skin_id: c.champ_skin_id,
            name: c.name,
            skin: c.unit_name,
        }.wire(),
    )
}

/// The avatar frame of the spawn sequence: no items, the slot's summoner
/// spells, no talents, level one.  Its frame header carries the hero's
/// net id.
pub open spec fn avatar_bytes(c: ClientView) -> Seq<u8> {
    game_frame(
        0x2C,
        c.net_id.0,
        SAvatarInfoView {
            item_ids: Seq::new(30, |_k: int| 0u32),
            summoner_spell_ids: seq![c.summoner_spells.0, c.summoner_spells.1],
            talents: Seq::new(30, |_k: int| Talent { hash: 0, level: 0 }),
            level: 1,
        }.wire(),
    )
}

pub open spec fn start_spawn_bytes() -> Seq<u8> {
    game_frame(0x65, 0, SStartSpawn { bot_count_order: 0, bot_count_chaos: 0 }.wire())
}

pub open spec fn end_spawn_bytes() -> Seq<u8> {
    game_frame(0x12, 0, SEndSpawn {  }.wire())
}

/// The load-progress fan-out frame with the sender's player id patched in.
pub open spec fn ping_load_bytes(ci: ConnectionInfo, pid: u64) -> Seq<u8> {
    game_frame(
        0x9D,
        0,
        SPingLoadInfo { connection_info: ConnectionInfo { player_id: pid, ..ci } }.wire(),
    )
}

/// The waypoint-group broadcast carrying one movement body.
pub open spec fn waypoint_group_bytes(md: crate::movement::MovementDataNormalView) -> Seq<u8> {
    game_frame(0x64, 0, SWaypointGroupView { sync_id: 0, movements: seq![md] }.wire())
}

/// The player ids of one team among the first `n` slots, in roster order.
pub open spec fn team_pids_upto(v: Seq<ClientView>, t: Team, n: int) -> Seq<u64>
    decreases n,
{
    if n <= 0 {
        Seq::empty()
    } else {
        let p = team_pids_upto(v, t, n - 1);
        if v[n - 1].team == t {
            p.push(v[n - 1].player_id)
        } else {
            p
        }
    }
}

pub open spec fn team_pids(v: Seq<ClientView>, t: Team) -> Seq<u64> {
    team_pids_upto(v, t, v.len() as int)
}

/// A team's id column padded with zeros to the 24 wire slots.
pub open spec fn roster_ids(v: Seq<ClientView>, t: Team) -> Seq<u64> {
    team_pids(v, t) + Seq::new((24 - team_pids(v, t).len()) as nat, |_k: int| 0u64)
}

/// The roster frame: both id columns, the live sizes and the fixed 6/6
/// team caps.
pub open spec fn roster_bytes(v: Seq<ClientView>) -> Seq<u8> {
    loading_frame(
        0x67,
        TeamRosterUpdateView {
            team_size_order: 6,
            team_size_chaos: 6,
            order_player_ids: roster_ids(v, Team::Order),
            chaos_player_ids: roster_ids(v, Team::Chaos),
            current_team_size_order: team_pids(v, Team::Order).len() as u32,
            current_team_size_chaos: team_pids(v, Team::Chaos).len() as u32,
        }.wire(),
    )
}

/// The loading-screen reskin frame for one slot.
pub open spec fn reskin_bytes(c: ClientView) -> Seq<u8> {
    loading_frame(
        0x65,
        RequestReskinView {
            player_id: c.player_id,
            skin_id: c.champ_skin_id,
            name: c.unit_name,
        }.wire(),
    )
}

/// The loading-screen rename frame for one slot.
pub open spec fn rename_bytes(c: ClientView) -> Seq<u8> {
    loading_frame(
        0x66,
        RequestRenameView { player_id: c.player_id, skin_id: c.champ_skin_id, name: c.name }.wire(),
    )
}

/// What a character-selected request leaves behind: the spawn sequence
/// to the sender.
pub open spec fn spawn_post(
    v: Seq<ClientView>,
    cid: ClientId,
    oldq: Seq<CommandView>,
    newq: Seq<CommandView>,
) -> bool {
    &&& newq.len() == oldq.len() + 2 + 2 * v.len()
    &&& newq[oldq.len() as int] == CommandView::Single(Channel::Broadcast, cid, start_spawn_bytes())
    &&& forall|k: int|
        0 <= k < v.len() ==> newq[oldq.len() + 1int + 2 * k] == CommandView::Single(
            Channel::Broadcast,
            cid,
            create_hero_bytes(v[k], k),
        )
    &&& forall|k: int|
        0 <= k < v.len() ==> newq[oldq.len() + 2int + 2 * k] == CommandView::Single(
            Channel::Broadcast,
            cid,
            avatar_bytes(v[k]),
        )
    &&& newq[oldq.len() + 1int + 2 * v.len()] == CommandView::Single(
        Channel::Broadcast,
        cid,
        end_spawn_bytes(),
    )
}

/// What a roster request leaves behind: the roster frame, then a reskin
/// and a rename frame per slot, all to the requester.
pub open spec fn roster_post(
    v: Seq<ClientView>,
    cid: ClientId,
    oldq: Seq<CommandView>,
    newq: Seq<CommandView>,
) -> bool {
    &&& newq.len() == oldq.len() + 1 + 2 * v.len()
    &&& newq[oldq.len() as int] == CommandView::Single(Channel::LoadingScreen, cid, roster_bytes(v))
    &&& forall|k: int|
        0 <= k < v.len() ==> newq[oldq.len() + 1int + 2 * k] == CommandView::Single(
            Channel::LoadingScreen,
            cid,
            reskin_bytes(v[k]),
        )
    &&& forall|k: int|
        0 <= k < v.len() ==> newq[oldq.len() + 2int + 2 * k] == CommandView::Single(
            Channel::LoadingScreen,
            cid,
            rename_bytes(v[k]),
        )
}

impl ClientMap {
    /// Status query: answer the sender that the server is up.
    pub fn handle_query_status(&self, cid: ClientId, out: &mut PacketSender)
        ensures
            final(out)@ == old(out)@.push(
                CommandView::Single(Channel::Broadcast, cid, query_status_bytes()),
            ),
    {
        let ans = SQueryStatusAns { is_ok: true };
        out.single(Channel::Broadcast, cid, ans.to_bytes(0));
    }

    /// Reconnect request: answer the sender with its own slot number.
    pub fn handle_reconnect(&self, cid: ClientId, out: &mut PacketSender)
        ensures
            final(out)@ == old(out)@.push(
                CommandView::Single(Channel::ClientToServer, cid, reconnect_bytes(cid)),
            ),
    {
        let ans = SReconnect { client_id: cid.0 };
        out.single(Channel::ClientToServer, cid, ans.to_bytes(0));
    }

    /// Version handshake: answer the sender with the accepted version, the
    /// map, and the roster of every slot.
    #[verifier::loop_isolation(false)]
    pub fn handle_sync_version(&self, cid: ClientId, pkt: &CSyncVersion, out: &mut PacketSender)
        requires
            self.wf(),
            crate::text::fixed_fits(pkt@.version, 128),
        ensures
            final(out)@ == old(out)@.push(
                CommandView::Single(Channel::Broadcast, cid, sync_version_bytes(self@, pkt@.version)),
            ),
    {
        let n = self.clients.len();
        let mut infos: Vec<PlayerLoadInfo> = Vec::new();
        let mut k: usize = 0;
        while k < 12
            invariant
                k <= 12,
                infos@ == load_infos(self@).subrange(0, k as int),
            decreases 12 - k,
        {
            let e = if k < n {
                let c = &self.clients[k];
                proof {
                    assert(self@[k as int] == self.clients@[k as int]@);
                }
                PlayerLoadInfo {
                    player_id: c.player_id,
                    summoner_level: c.summoner_level,
                    summoner_spell1: c.summoner_spells.0,
                    summoner_spell2: c.summoner_spells.1,
                    is_bot: false,
                    team_id: c.team.to_u32(),
                    bot_difficulty: 0,
                    profile_icon_id: c.profile_icon,
                }
            } else {
                PlayerLoadInfo {
                    player_id: 0,
                    summoner_level: 0,
                    summoner_spell1: 0,
                    summoner_spell2: 0,
                    is_bot: false,
                    team_id: 0,
                    bot_difficulty: 0,
                    profile_icon_id: 0,
                }
            };
            infos.push(e);
            proof {
                assert(infos@ =~= load_infos(self@).subrange(0, k + 1 as int));
            }
            k += 1;
        }
        proof {
            assert(infos@ =~= load_infos(self@));
        }
        let mut mode: Vec<u8> = Vec::new();
        mode.push(79);
        mode.push(68);
        mode.push(73);
        mode.push(78);
        proof {
            assert(mode@ =~= map_mode_odin());
            assert(forall|m: int| 0 <= m < mode@.len() ==> (#[trigger] mode@[m]) < 0x80);
            crate::utf8::lemma_ascii_is_utf8(mode@);
        }
        let ans = SSyncVersion {
            is_version_ok: true,
            map: 8,
            player_info: infos,
            version_string: crate::session::copy_bytes(&pkt.version),
            map_mode: mode,
        };
        proof {
            assert(ans@.valid());
        }
        out.single(Channel::Broadcast, cid, ans.to_bytes(0));
    }

    /// Character selected: run the spawn sequence to the sender, one
    /// hero-creation and one avatar frame per slot between the start and
    /// end markers.
    #[verifier::loop_isolation(false)]
    pub fn handle_char_selected(&self, cid: ClientId, out: &mut PacketSender)
        requires
            self.wf(),
        ensures
            spawn_post(self@, cid, old(out)@, final(out)@),
    {
        let ghost base = out@.len() as int;
        out.single(
            Channel::Broadcast,
            cid,
            SStartSpawn { bot_count_order: 0, bot_count_chaos: 0 }.to_bytes(0),
        );
        let n = self.clients.len();
        let mut k: usize = 0;
        while k < n
            invariant
                k <= n,
                n == self@.len(),
                out@.len() == base + 1 + 2 * k,
                out@[base] == CommandView::Single(Channel::Broadcast, cid, start_spawn_bytes()),
                forall|m: int|
                    0 <= m < k ==> out@[base + 1 + 2 * m] == CommandView::Single(
                        Channel::Broadcast,
                        cid,
                        create_hero_bytes(self@[m], m),
                    ),
                forall|m: int|
                    0 <= m < k ==> out@[base + 2 + 2 * m] == CommandView::Single(
                        Channel::Broadcast,
                        cid,
                        avatar_bytes(self@[m]),
                    ),
            decreases n - k,
        {
            let c = &self.clients[k];
            proof {
                assert(self@[k as int] == self.clients@[k as int]@);
                assert(crate::text::fixed_fits(self@[k as int].name, 40));
                assert(crate::text::fixed_fits(self@[k as int].unit_name, 40));
            }
            let net = c.net_id.id();
            let node_byte: u8 = {
                let v = net;
                let b: u8 = ((v & 0xFF000000) >> 24) as u8;
                assert(((v & 0xFF000000) >> 24) as u8 == (v >> 24) as u8) by (bit_vector);
                b
            };
            let is_order = match c.team {
                Team::Order => true,
                Team::Chaos => false,
            };
            let hero = SCreateHero {
                unit_net_id: net,
                client_id: k as u32,
                net_node_id: node_byte,
                skill_level: 0,
                team_is_order: is_order,
                is_bot: false,
                bot_rank: 0,
                spawn_position_index: (k % 5) as u8,
                skin_id: c.champ_skin_id,
                name: crate::session::copy_bytes(&c.name),
                skin: crate::session::copy_bytes(&c.unit_name.0),
            };
            proof {
                assert(hero@.valid());
                assert(hero@ == SCreateHeroView {
                    unit_net_id: self@[k as int].net_id.0,
                    client_id: k as u32,
                    net_node_id: (self@[k as int].net_id.0 >> 24) as u8,
                    skill_level: 0,
                    team_is_order: self@[k as int].team == Team::Order,
                    is_bot: false,
                    bot_rank: 0,
                    spawn_position_index: (k as int % 5) as u8,
                    skin_id: self@[k as int].champ_skin_id,
                    name: self@[k as int].name,
                    skin: self@[k as int].unit_name,
                });
            }
            out.single(Channel::Broadcast, cid, hero.to_bytes(0));
            let sums = c.summoner_spells;
            let item_ids: Vec<u32> = make_zero_u32s(30);
            let mut spells: Vec<u32> = Vec::new();
            spells.push(sums.0);
            spells.push(sums.1);
            let talents: Vec<Talent> = make_blank_talents(30);
            let avatar = SAvatarInfo {
                item_ids,
                summoner_spell_ids: spells,
                talents,
                level: 1,
            };
            proof {
                assert(avatar@.valid());
                assert(avatar@.summoner_spell_ids =~= seq![
                    self@[k as int].summoner_spells.0,
                    self@[k as int].summoner_spells.1,
                ]);
                assert(avatar@ == SAvatarInfoView {
                    item_ids: Seq::new(30, |_k: int| 0u32),
                    summoner_spell_ids: seq![
                        self@[k as int].summoner_spells.0,
                        self@[k as int].summoner_spells.1,
                    ],
                    talents: Seq::new(30, |_k: int| Talent { hash: 0, level: 0 }),
                    level: 1,
                });
            }
            out.single(Channel::Broadcast, cid, avatar.to_bytes(net));
            k += 1;
        }
        out.single(Channel::Broadcast, cid, SEndSpawn {  }.to_bytes(0));
    }

    /// Load-progress report: fan the record out to every client with the
    /// sender's player id patched in.
    pub fn handle_ping_load_info(&self, cid: ClientId, pkt: &CPingLoadInfo, out: &mut PacketSender)
        requires
            self.wf(),
            cid.0 < self@.len(),
            pkt.valid(),
        ensures
            final(out)@ == old(out)@.push(
                CommandView::BroadcastAll(
                    Channel::Broadcast,
                    ping_load_bytes(pkt.connection_info, self@[cid.0 as int].player_id),
                ),
            ),
    {
        proof {
            assert(self@[cid.0 as int] == self.clients@[cid.0 as int]@);
        }
        let pid = self.clients[cid.0 as usize].player_id;
        let ans = SPingLoadInfo {
            connection_info: ConnectionInfo { player_id: pid, ..pkt.connection_info },
        };
        out.broadcast_all(Channel::Broadcast, ans.to_bytes(0));
    }

    /// A movement order: a move is echoed to every client as a waypoint
    /// group; other order kinds have no broadcast.
    pub fn handle_npc_issue_order(&self, pkt: &CNpcIssueOrderReq, out: &mut PacketSender)
        requires
            pkt@.valid(),
        ensures
            pkt@.order_type == OrderType::Move ==> final(out)@ == old(out)@.push(
                CommandView::BroadcastAll(
                    Channel::Broadcast,
                    waypoint_group_bytes(pkt@.movement_data),
                ),
            ),
            pkt@.order_type != OrderType::Move ==> final(out)@ == old(out)@,
    {
        let is_move = match pkt.order_type {
            OrderType::Move => true,
            _ => false,
        };
        if is_move {
            let md = crate::movement::MovementDataNormal {
                teleport_id: pkt.movement_data.teleport_id,
                teleport_net_id: pkt.movement_data.teleport_net_id,
                waypoints: pkt.movement_data.waypoints.clone(),
            };
            proof {
                assert(md.waypoints@ =~= pkt.movement_data.waypoints@);
                assert(md@ == pkt@.movement_data);
            }
            let mut movements: Vec<crate::movement::MovementDataNormal> = Vec::new();
            movements.push(md);
            let grp = SWaypointGroup { sync_id: 0, movements };
            proof {
                assert(grp@.movements =~= seq![pkt@.movement_data]);
                assert(grp@.valid());
                assert(grp@ == SWaypointGroupView {
                    sync_id: 0,
                    movements: seq![pkt@.movement_data],
                });
            }
            out.broadcast_all(Channel::Broadcast, grp.to_bytes(0));
        }
    }

    /// Roster broadcast: the team roster to the requester, then a reskin
    /// and a rename frame per slot, all on the loading-screen channel.
    #[verifier::loop_isolation(false)]
    pub fn send_roster_update(&self, cid: ClientId, out: &mut PacketSender)
        requires
            self.wf(),
        ensures
            roster_post(self@, cid, old(out)@, final(out)@),
    {
        let n = self.clients.len();
        // the two padded id columns
        let mut ord: Vec<u64> = Vec::new();
        let mut cha: Vec<u64> = Vec::new();
        let mut k: usize = 0;
        while k < n
            invariant
                k <= n,
                ord@ == team_pids_upto(self@, Team::Order, k as int),
                cha@ == team_pids_upto(self@, Team::Chaos, k as int),
            decreases n - k,
        {
            proof {
                assert(self@[k as int] == self.clients@[k as int]@);
            }
            let c = &self.clients[k];
            match c.team {
                Team::Order => {
                    ord.push(c.player_id);
                },
                Team::Chaos => {
                    cha.push(c.player_id);
                },
            }
            k += 1;
        }
        let cur_order = ord.len() as u32;
        let cur_chaos = cha.len() as u32;
        proof {
            lemma_team_pids_len(self@, Team::Order, n as int);
            lemma_team_pids_len(self@, Team::Chaos, n as int);
        }
        while ord.len() < 24
            invariant
                team_pids(self@, Team::Order).len() <= ord@.len() <= 24,
                ord@ == team_pids(self@, Team::Order) + Seq::new(
                    (ord@.len() - team_pids(self@, Team::Order).len()) as nat,
                    |_k: int| 0u64,
                ),
            decreases 24 - ord@.len(),
        {
            ord.push(0);
            proof {
                assert(ord@ =~= team_pids(self@, Team::Order) + Seq::new(
                    (ord@.len() - team_pids(self@, Team::Order).len()) as nat,
                    |_k: int| 0u64,
                ));
            }
        }
        while cha.len() < 24
            invariant
                team_pids(self@, Team::Chaos).len() <= cha@.len() <= 24,
                cha@ == team_pids(self@, Team::Chaos) + Seq::new(
                    (cha@.len() - team_pids(self@, Team::Chaos).len()) as nat,
                    |_k: int| 0u64,
                ),
            decreases 24 - cha@.len(),
        {
            cha.push(0);
            proof {
                assert(cha@ =~= team_pids(self@, Team::Chaos) + Seq::new(
                    (cha@.len() - team_pids(self@, Team::Chaos).len()) as nat,
                    |_k: int| 0u64,
                ));
            }
        }
        let roster = TeamRosterUpdate {
            team_size_order: 6,
            team_size_chaos: 6,
            order_player_ids: ord,
            chaos_player_ids: cha,
            current_team_size_order: cur_order,
            current_team_size_chaos: cur_chaos,
        };
        proof {
            assert(roster@.order_player_ids =~= roster_ids(self@, Team::Order));
            assert(roster@.chaos_player_ids =~= roster_ids(self@, Team::Chaos));
            assert(roster@.valid());
            assert(roster@ == TeamRosterUpdateView {
                team_size_order: 6,
                team_size_chaos: 6,
                order_player_ids: roster_ids(self@, Team::Order),
                chaos_player_ids: roster_ids(self@, Team::Chaos),
                current_team_size_order: team_pids(self@, Team::Order).len() as u32,
                current_team_size_chaos: team_pids(self@, Team::Chaos).len() as u32,
            });
        }
        let ghost base = out@.len() as int;
        out.single(Channel::LoadingScreen, cid, roster.to_bytes());
        let mut j: usize = 0;
        while j < n
            invariant
                j <= n,
                n == self@.len(),
                out@.len() == base + 1 + 2 * j,
                out@[base] == CommandView::Single(Channel::LoadingScreen, cid, roster_bytes(self@)),
                forall|m: int|
                    0 <= m < j ==> out@[base + 1 + 2 * m] == CommandView::Single(
                        Channel::LoadingScreen,
                        cid,
                        reskin_bytes(self@[m]),
                    ),
                forall|m: int|
                    0 <= m < j ==> out@[base + 2 + 2 * m] == CommandView::Single(
                        Channel::LoadingScreen,
                        cid,
                        rename_bytes(self@[m]),
                    ),
            decreases n - j,
        {
            proof {
                assert(self@[j as int] == self.clients@[j as int]@);
                assert(crate::text::fixed_fits(self@[j as int].name, 40));
                assert(crate::text::fixed_fits(self@[j as int].unit_name, 40));
            }
            let c = &self.clients[j];
            let reskin = RequestReskin {
                player_id: c.player_id,
                skin_id: c.champ_skin_id,
                name: crate::session::copy_bytes(&c.unit_name.0),
            };
            proof {
                assert(reskin@.valid());
                assert(reskin@ == RequestReskinView {
                    player_id: self@[j as int].player_id,
                    skin_id: self@[j as int].champ_skin_id,
                    name: self@[j as int].unit_name,
                });
            }
            out.single(Channel::LoadingScreen, cid, reskin.to_bytes());
            let rename = RequestRename {
                player_id: c.player_id,
                skin_id: c.champ_skin_id,
                name: crate::session::copy_bytes(&c.name),
            };
            proof {
                assert(rename@.valid());
                assert(rename@ == RequestRenameView {
                    player_id: self@[j as int].player_id,
                    skin_id: self@[j as int].champ_skin_id,
                    name: self@[j as int].name,
                });
            }
            out.single(Channel::LoadingScreen, cid, rename.to_bytes());
            j += 1;
        }
    }
}

/// A team column never outgrows the roster.
proof fn lemma_team_pids_len(v: Seq<ClientView>, t: Team, n: int)
    requires
        0 <= n <= v.len(),
    ensures
        team_pids_upto(v, t, n).len() <= n,
    decreases n,
{
    if n > 0 {
        lemma_team_pids_len(v, t, n - 1);
    }
}

/// A vector of `n` zero words.
fn make_zero_u32s(n: usize) -> (r: Vec<u32>)
    ensures
        r@ == Seq::new(n as nat, |_k: int| 0u32),
{
    let mut out: Vec<u32> = Vec::new();
    let mut k: usize = 0;
    while k < n
        invariant
            k <= n,
            out@ == Seq::new(k as nat, |_m: int| 0u32),
        decreases n - k,
    {
        out.push(0);
        proof {
            assert(out@ =~= Seq::new((k + 1) as nat, |_m: int| 0u32));
        }
        k += 1;
    }
    out
}

/// A vector of `n` blank talents.
fn make_blank_talents(n: usize) -> (r: Vec<Talent>)
    ensures
        r@ == Seq::new(n as nat, |_k: int| Talent { hash: 0, level: 0 }),
{
    let mut out: Vec<Talent> = Vec::new();
    let mut k: usize = 0;
    while k < n
        invariant
            k <= n,
            out@ == Seq::new(k as nat, |_m: int| Talent { hash: 0, level: 0 }),
        decreases n - k,
    {
        out.push(Talent { hash: 0, level: 0 });
        proof {
            assert(out@ =~= Seq::new((k + 1) as nat, |_m: int| Talent { hash: 0, level: 0 }));
        }
        k += 1;
    }
    out
}

} // verus!
