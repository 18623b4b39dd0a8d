//! Channel-multiplexed dispatch: decrypt a received frame and route it to
//! its handler, plus the periodic clock fan-out.
use vstd::prelude::*;

verus! {

use crate::chat::ChatPacketView;
use crate::cipher::ecb_decrypt;
use crate::frame::Channel;
use crate::handlers::{
    ping_load_bytes,
    query_status_bytes,
    reconnect_bytes,
    roster_post,
    spawn_post,
    sync_version_bytes,
    waypoint_group_bytes,
};
use crate::packets_game::{
    CNpcIssueOrderReq,
    CNpcIssueOrderReqView,
    CPingLoadInfo,
    CSyncVersion,
    CSyncVersionView,
    OrderType,
    SSyncSimTime,
};
use crate::session::{
    chat_post,
    ready_post,
    ClientId,
    ClientMap,
    ClientStatus,
    ClientView,
    CommandView,
    PacketSender,
};
use crate::world::GameState;

/// The periodic clock fan-out: counts ticks down and broadcasts the
/// simulation time every three hundred ticks while the game runs or is
/// paused.
pub struct SyncTimer(pub u32);

/// The clock broadcast frame.
pub open spec fn sync_time_bytes(bits: u32) -> Seq<u8> {
    crate::frame::game_frame(0xC9, 0, SSyncSimTime { sync_time_bits: bits }.wire())
}

impl SyncTimer {
    pub fn new() -> (r: SyncTimer)
        ensures
            r.0 == 1,
    {
        SyncTimer(1)
    }

    /// One tick: while the game is not loading the counter falls, and on
    /// reaching zero it reloads to ten seconds of ticks and broadcasts the
    /// game clock.
    pub fn run(&mut self, state: GameState, sync_time_bits: u32, out: &mut PacketSender)
        requires
            old(self).0 >= 1,
        ensures
            final(self).0 >= 1,
            state == GameState::Loading ==> final(self).0 == old(self).0 && final(out)@ == old(out)@,
            state != GameState::Loading && old(self).0 > 1 ==> final(self).0 == old(self).0 - 1
                && final(out)@ == old(out)@,
            state != GameState::Loading && old(self).0 == 1 ==> final(self).0 == 300
                && final(out)@ == old(out)@.push(
                CommandView::BroadcastAll(Channel::Broadcast, sync_time_bytes(sync_time_bits)),
            ),
    {
        match state {
            GameState::Loading => {},
            _ => {
                self.0 = self.0 - 1;
                if self.0 == 0 {
                    self.0 = 300;
                    out.broadcast_all(
                        Channel::Broadcast,
                        SSyncSimTime { sync_time_bits }.to_bytes(0),
                    );
                }
            },
        }
    }
}

/// Route one decrypted game-channel frame.  `dec` is the frame after the
/// per-peer cipher, `v` the roster before, `w` after.
pub open spec fn game_dispatch_post(
    v: Seq<ClientView>,
    w: Seq<ClientView>,
    olds: GameState,
    news: GameState,
    oldq: Seq<CommandView>,
    newq: Seq<CommandView>,
    cid: ClientId,
    dec: Seq<u8>,
    disconnect: bool,
) -> bool {
    if dec.len() < 5 {
        w == v && news == olds && newq == oldq && !disconnect
    } else {
        let id = dec[0];
        if id == 0x17 {
            w == v && news == olds && !disconnect && newq == oldq.push(
                CommandView::Single(Channel::Broadcast, cid, query_status_bytes()),
            )
        } else if id == 0xAC {
            w == v && news == olds && !disconnect && newq == oldq.push(
                CommandView::Single(Channel::ClientToServer, cid, reconnect_bytes(cid)),
            )
        } else if id == 0xC5 {
            w == v && news == olds && !disconnect && (match CSyncVersionView::parse(dec, 5) {
                Some((pkt, _)) => newq == oldq.push(
                    CommandView::Single(Channel::Broadcast, cid, sync_version_bytes(v, pkt.version)),
                ),
                None => newq == oldq,
            })
        } else if id == 0xC6 {
            w == v && news == olds && !disconnect && spawn_post(v, cid, oldq, newq)
        } else if id == 0x55 {
            !disconnect && ready_post(v, w, olds, news, oldq, newq, cid)
        } else if id == 0x19 {
            w == v && news == olds && !disconnect && (match CPingLoadInfo::parse(dec, 5) {
                Some((pkt, _)) => newq == oldq.push(
                    CommandView::BroadcastAll(
                        Channel::Broadcast,
                        ping_load_bytes(pkt.connection_info, v[cid.0 as int].player_id),
                    ),
                ),
                None => newq == oldq,
            })
        } else if id == 0x94 {
            news == olds && newq == oldq && disconnect && w == v.update(
                cid.0 as int,
                ClientView { peer: None, ..v[cid.0 as int] },
            )
        } else if id == 0x75 {
            w == v && news == olds && !disconnect && (match CNpcIssueOrderReqView::parse(dec, 5) {
                Some((pkt, _)) => if pkt.order_type == OrderType::Move {
                    newq == oldq.push(
                        CommandView::BroadcastAll(
                            Channel::Broadcast,
                            waypoint_group_bytes(pkt.movement_data),
                        ),
                    )
                } else {
                    newq == oldq
                },
                None => newq == oldq,
            })
        } else {
            w == v && news == olds && newq == oldq && !disconnect
        }
    }
}

impl ClientMap {
    /// Decrypt a received frame with the sender's cipher and route it by
    /// channel: game channels through the handler table, chat through the
    /// fan-out, the loading screen through the roster broadcast.  Returns
    /// whether the sender asked to leave.
    pub fn handle_packet(
        &mut self,
        state: &mut GameState,
        channel_byte: u8,
        cid: ClientId,
        data: &Vec<u8>,
        out: &mut PacketSender,
    ) -> (disconnect: bool)
        requires
            old(self).wf(),
            cid.0 < old(self)@.len(),
        ensures
            final(self).wf(),
            ({
                let dec = ecb_decrypt(old(self)@[cid.0 as int].key, data@);
                let unchanged = final(self)@ == old(self)@ && *final(state) == *old(state)
                    && final(out)@ == old(out)@ && !disconnect;
                if channel_byte == 1 || channel_byte == 2 || channel_byte == 3 || channel_byte
                    == 4 {
                    game_dispatch_post(
                        old(self)@,
                        final(self)@,
                        *old(state),
                        *final(state),
                        old(out)@,
                        final(out)@,
                        cid,
                        dec,
                        disconnect,
                    )
                } else if channel_byte == 5 {
                    final(self)@ == old(self)@ && *final(state) == *old(state) && !disconnect
                        && chat_post(old(self)@, cid, dec, old(out)@, final(out)@)
                } else if channel_byte == 6 {
                    final(self)@ == old(self)@ && *final(state) == *old(state) && !disconnect && (
                    if dec.len() >= 1 && dec[0] == 0x64 {
                        roster_post(old(self)@, cid, old(out)@, final(out)@)
                    } else {
                        final(out)@ == old(out)@
                    })
                } else {
                    unchanged
                }
            }),
    {
        proof {
            assert(self@[cid.0 as int] == self.clients@[cid.0 as int]@);
        }
        let mut buf = crate::session::copy_bytes(data);
        self.clients[cid.0 as usize].cipher.decrypt_data(&mut buf);
        let ghost dec = buf@;
        let channel = match Channel::try_from(channel_byte) {
            Some(c) => c,
            None => {
                return false;
            },
        };
        match channel {
            Channel::Handshake => false,
            Channel::ClientToServer | Channel::SyncClock | Channel::Broadcast
                | Channel::BroadcastUnreliable => {
                let raw = match crate::frame::RawGamePacket::from_slice(buf.as_slice()) {
                    Some(r) => r,
                    None => {
                        return false;
                    },
                };
                proof {
                    assert(dec.len() >= 5 && raw.id == dec[0]);
                }
                if raw.id == 0x17 {
                    self.handle_query_status(cid, out);
                    false
                } else if raw.id == 0xAC {
                    self.handle_reconnect(cid, out);
                    false
                } else if raw.id == 0xC5 {
                    match CSyncVersion::decode(buf.as_slice(), 5) {
                        Some((pkt, _)) => {
                            proof {
                                crate::text::lemma_parse_fixed_fits(dec, 13int, 128int);
                            }
                            self.handle_sync_version(cid, &pkt, out);
                        },
                        None => {},
                    }
                    false
                } else if raw.id == 0xC6 {
                    self.handle_char_selected(cid, out);
                    false
                } else if raw.id == 0x55 {
                    self.handle_client_ready(cid, state, out);
                    false
                } else if raw.id == 0x19 {
                    match CPingLoadInfo::decode(buf.as_slice(), 5) {
                        Some((pkt, _)) => {
                            self.handle_ping_load_info(cid, &pkt, out);
                        },
                        None => {},
                    }
                    false
                } else if raw.id == 0x94 {
                    let ghost before = self@;
                    let k = cid.0 as usize;
                    let mut c = self.clients.remove(k);
                    c.peer = None;
                    self.clients.insert(k, c);
                    proof {
                        assert(self@ =~= before.update(
                            k as int,
                            ClientView { peer: None, ..before[k as int] },
                        ));
                    }
                    true
                } else if raw.id == 0x75 {
                    match CNpcIssueOrderReq::decode(buf.as_slice(), 5) {
                        Some((pkt, _)) => {
                            proof {
                                crate::movement::lemma_parse_normal_valid(dec, 22int);
                            }
                            self.handle_npc_issue_order(&pkt, out);
                        },
                        None => {},
                    }
                    false
                } else {
                    false
                }
            },
            Channel::Chat => {
                self.handle_chat(cid, &buf, out);
                false
            },
            Channel::LoadingScreen => {
                if buf.len() >= 1 {
                    let first = *vstd::slice::slice_index_get(buf.as_slice(), 0);
                    if first == 0x64 {
                        self.send_roster_update(cid, out);
                    }
                }
                false
            },
        }
    }
}

} // verus!
