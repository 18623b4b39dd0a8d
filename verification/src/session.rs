//! The session layer: client slots, handshake authentication, lifecycle
//! state and the outbound command queue.
use vstd::prelude::*;

verus! {

use crate::chat::ChatPacketView;
use crate::cipher::{dec_block8, enc_block8, CipherContext};
use crate::config::{PlayerConfig, PlayerConfigView};
use crate::frame::{game_frame, Channel, KeyCheck, KeyCheckView};
use crate::movement::{MovementData, MovementDataStop, MovementDataView, Vector2};
use crate::packets_game::{
    SOnEnterVisibilityClient,
    SOnEnterVisibilityClientView,
    SStartGame,
    SSyncMissionStartTime,
};
use crate::world::{GameState, NetId, SummonerSpells, Team, UnitName};
use vstd::bytes::spec_u64_to_le_bytes;

/// Connection lifecycle of one slot.
#[derive(Clone, Copy, Debug, PartialEq, Eq, Structural)]
pub enum ClientStatus {
    Connected,
    Disconnected,
    Loading,
    Ready,
}

/// A stable dense index into the roster.
#[derive(Clone, Copy, Debug, PartialEq, Eq, Hash, Structural)]
pub struct ClientId(pub u32);

/// One roster slot: identity, connection state, cipher, and the champion
/// the slot owns.
pub struct Client {
    pub name: Vec<u8>,
    pub player_id: u64,
    pub summoner_level: u16,
    pub profile_icon: i32,
    pub status: ClientStatus,
    pub champ_skin_id: u32,
    pub peer: Option<u64>,
    pub cipher: CipherContext,
    pub net_id: NetId,
    pub team: Team,
    pub unit_name: UnitName,
    pub summoner_spells: SummonerSpells,
}

pub struct ClientView {
    pub name: Seq<u8>,
    pub player_id: u64,
    pub summoner_level: u16,
    pub profile_icon: i32,
    pub status: ClientStatus,
    pub champ_skin_id: u32,
    pub peer: Option<u64>,
    pub key: Seq<u8>,
    pub net_id: NetId,
    pub team: Team,
    pub unit_name: Seq<u8>,
    pub summoner_spells: SummonerSpells,
}

impl View for Client {
    type V = ClientView;

    open spec fn view(&self) -> ClientView {
        ClientView {
            name: self.name@,
            player_id: self.player_id,
            summoner_level: self.summoner_level,
            profile_icon: self.profile_icon,
            status: self.status,
            champ_skin_id: self.champ_skin_id,
            peer: self.peer,
            key: self.cipher.key_bytes(),
            net_id: self.net_id,
            team: self.team,
            unit_name: self.unit_name.0@,
            summoner_spells: self.summoner_spells,
        }
    }
}

/// An outbound transmission order drained once per tick.
pub enum Command {
    Single(Channel, ClientId, Vec<u8>),
    BroadcastGroup(Channel, Vec<ClientId>, Vec<u8>),
    BroadcastAll(Channel, Vec<u8>),
}

pub enum CommandView {
    Single(Channel, ClientId, Seq<u8>),
    BroadcastGroup(Channel, Seq<ClientId>, Seq<u8>),
    BroadcastAll(Channel, Seq<u8>),
}

impl View for Command {
    type V = CommandView;

    open spec fn view(&self) -> CommandView {
        match self {
            Command::Single(ch, cid, d) => CommandView::Single(*ch, *cid, d@),
            Command::BroadcastGroup(ch, cids, d) => CommandView::BroadcastGroup(*ch, cids@, d@),
            Command::BroadcastAll(ch, d) => CommandView::BroadcastAll(*ch, d@),
        }
    }
}

/// The outbound queue handlers push commands into; it is drained in
/// insertion order after the handler phase.
pub struct PacketSender {
    pub cmds: Vec<Command>,
}

impl View for PacketSender {
    type V = Seq<CommandView>;

    open spec fn view(&self) -> Seq<CommandView> {
        self.cmds@.map_values(|c: Command| c@)
    }
}

impl PacketSender {
    pub fn new() -> (r: PacketSender)
        ensures
            r@ == Seq::<CommandView>::empty(),
    {
        let r = PacketSender { cmds: Vec::new() };
        proof {
            assert(r@ =~= Seq::<CommandView>::empty());
        }
        r
    }

    /// Queue bytes for one client.
    pub fn single(&mut self, channel: Channel, cid: ClientId, data: Vec<u8>)
        ensures
            final(self)@ == old(self)@.push(CommandView::Single(channel, cid, data@)),
    {
        let ghost dv = data@;
        self.cmds.push(Command::Single(channel, cid, data));
        proof {
            assert(self@ =~= old(self)@.push(CommandView::Single(channel, cid, dv)));
        }
    }

    /// Queue bytes for a group of clients.
    pub fn broadcast_group(&mut self, channel: Channel, cids: Vec<ClientId>, data: Vec<u8>)
        ensures
            final(self)@ == old(self)@.push(CommandView::BroadcastGroup(channel, cids@, data@)),
    {
        let ghost dv = data@;
        let ghost cv = cids@;
        self.cmds.push(Command::BroadcastGroup(channel, cids, data));
        proof {
            assert(self@ =~= old(self)@.push(CommandView::BroadcastGroup(channel, cv, dv)));
        }
    }

    /// Queue bytes for every client.
    pub fn broadcast_all(&mut self, channel: Channel, data: Vec<u8>)
        ensures
            final(self)@ == old(self)@.push(CommandView::BroadcastAll(channel, data@)),
    {
        let ghost dv = data@;
        self.cmds.push(Command::BroadcastAll(channel, data));
        proof {
            assert(self@ =~= old(self)@.push(CommandView::BroadcastAll(channel, dv)));
        }
    }
}

/// The slot views of a client vector.
pub open spec fn slot_views(cs: Seq<Client>) -> Seq<ClientView> {
    cs.map_values(|c: Client| c@)
}

/// The roster table, indexed by [`ClientId`].
pub struct ClientMap {
    pub clients: Vec<Client>,
}

impl View for ClientMap {
    type V = Seq<ClientView>;

    open spec fn view(&self) -> Seq<ClientView> {
        slot_views(self.clients@)
    }
}

/// The little-endian image of a player id, as carried in a check block.
pub open spec fn player_id_le(pid: u64) -> Seq<u8> {
    spec_u64_to_le_bytes(pid)
}

/// A handshake passes for slot `c` exactly when its player id matches and
/// the challenge is that id encrypted under the slot's key.
pub open spec fn auth_ok(c: ClientView, kc: KeyCheckView) -> bool {
    c.player_id == kc.player_id && kc.check_id == enc_block8(c.key, player_id_le(kc.player_id))
}

/// The first slot holding a player id, if any.
pub open spec fn find_player(v: Seq<ClientView>, pid: u64) -> Option<int>
    decreases v.len(),
{
    if v.len() == 0 {
        None
    } else if v[0].player_id == pid {
        Some(0)
    } else {
        match find_player(v.drop_first(), pid) {
            Some(k) => Some(k + 1),
            None => None,
        }
    }
}

pub proof fn lemma_find_player_props(v: Seq<ClientView>, pid: u64)
    ensures
        match find_player(v, pid) {
            Some(k) => 0 <= k < v.len() && v[k].player_id == pid && forall|m: int|
                0 <= m < k ==> (#[trigger] v[m]).player_id != pid,
            None => forall|m: int| 0 <= m < v.len() ==> (#[trigger] v[m]).player_id != pid,
        },
    decreases v.len(),
{
    if v.len() > 0 {
        lemma_find_player_props(v.drop_first(), pid);
        assert(forall|m: int| 1 <= m < v.len() ==> v[m] == v.drop_first()[m - 1]);
    }
}

/// Where a roster name is clipped so it can travel in a 40-byte buffer:
/// at the first terminator, the first byte outside the printable
/// seven-bit range, or the 39-byte cap, whichever comes first.
pub open spec fn clip_point(s: Seq<u8>, k: int) -> int
    decreases s.len() - k,
{
    if k < 0 || k >= s.len() || k >= 39 {
        k
    } else if s[k] == 0 || s[k] >= 0x80 {
        k
    } else {
        clip_point(s, k + 1)
    }
}

/// What a roster name is clipped to before it travels: its longest
/// printable seven-bit prefix, at most 39 bytes.  Seven-bit text is the
/// character set roster names use; clipping to it keeps the result valid
/// UTF-8 whatever the configuration holds.
pub open spec fn clip_name(s: Seq<u8>) -> Seq<u8> {
    s.subrange(0, clip_point(s, 0))
}

/// The sequential spawned-class net id of roster slot `i`.
pub open spec fn spawned_net_id(i: int) -> NetId {
    NetId(0x40000000u32 | (((i + 1) as u32) & 0x00FFFFFF))
}

/// The slot built for one kept roster entry at position `i`.
pub open spec fn slot_of(p: PlayerConfigView, i: int) -> ClientView {
    ClientView {
        name: clip_name(p.name),
        player_id: p.player_id,
        summoner_level: p.summoner_level,
        profile_icon: p.profile_icon,
        status: ClientStatus::Disconnected,
        champ_skin_id: p.skin_id,
        peer: None,
        key: p.key.subrange(0, 16),
        net_id: spawned_net_id(i),
        team: p.team,
        unit_name: clip_name(p.champion),
        summoner_spells: SummonerSpells(p.summoner_spell0, p.summoner_spell1),
    }
}

/// A player id already owned by one of the built slots.
pub open spec fn roster_taken(acc: Seq<ClientView>, pid: u64) -> bool {
    exists|m: int| 0 <= m < acc.len() && (#[trigger] acc[m]).player_id == pid
}

/// The roster built from the remaining entries: an entry is kept when the
/// cap is not reached, its key has at least sixteen bytes, and its player
/// id is still free; kept entries become slots in input order.
pub open spec fn build_roster(ps: Seq<PlayerConfigView>, acc: Seq<ClientView>) -> Seq<ClientView>
    decreases ps.len(),
{
    if ps.len() == 0 || acc.len() >= 12 {
        acc
    } else {
        let p = ps[0];
        if p.key.len() >= 16 && !roster_taken(acc, p.player_id) {
            build_roster(ps.drop_first(), acc.push(slot_of(p, acc.len() as int)))
        } else {
            build_roster(ps.drop_first(), acc)
        }
    }
}

/// The slots that a run of configuration entries produces.
pub open spec fn roster_slots(ps: Seq<PlayerConfigView>) -> Seq<ClientView> {
    build_roster(ps, Seq::empty())
}

/// The views of a configuration vector.
pub open spec fn config_views(ps: Seq<PlayerConfig>) -> Seq<PlayerConfigView> {
    ps.map_values(|p: PlayerConfig| p@)
}

impl ClientMap {
    /// Roster well-formedness: at most twelve slots, Blowfish-sized keys,
    /// and pairwise distinct player ids.
    pub open spec fn wf(self) -> bool {
        &&& self@.len() <= 12
        &&& forall|k: int| 0 <= k < self@.len() ==> 4 <= (#[trigger] self@[k]).key.len() <= 56
        &&& forall|k: int|
            0 <= k < self@.len() ==> crate::text::fixed_fits((#[trigger] self@[k]).name, 40)
                && crate::text::fixed_fits(self@[k].unit_name, 40)
        &&& forall|k1: int, k2: int|
            0 <= k1 < k2 < self@.len() ==> (#[trigger] self@[k1]).player_id != (
            #[trigger] self@[k2]).player_id
    }

    /// Build the roster from the parsed configuration: the kept entries
    /// are, in order, the first up to twelve whose key has at least
    /// sixteen bytes and whose player id is still free.  Slot `i` holds
    /// that entry's data with its name and champion clipped to the wire
    /// buffer, status Disconnected, no peer, the cipher keyed by the first
    /// sixteen key bytes, and the sequential spawned net id `i + 1`.
    #[verifier::loop_isolation(false)]
    pub fn init_from_config(players: Vec<PlayerConfig>) -> (r: ClientMap)
        ensures
            r.wf(),
            r@ == roster_slots(config_views(players@)),
    {
        let ghost psv = config_views(players@);
        let mut clients: Vec<Client> = Vec::new();
        let mut i: usize = 0;
        proof {
            assert(psv.skip(0) =~= psv);
            assert(slot_views(clients@) =~= Seq::<ClientView>::empty());
        }
        while i < players.len() && clients.len() < 12
            invariant
                i <= players@.len(),
                clients@.len() <= 12,
                psv == config_views(players@),
                build_roster(psv.skip(i as int), slot_views(clients@)) == roster_slots(psv),
                forall|k: int|
                    0 <= k < clients@.len() ==> 4 <= (#[trigger] slot_views(clients@)[k]).key.len()
                        <= 56,
                forall|k: int|
                    0 <= k < clients@.len() ==> crate::text::fixed_fits(
                        (#[trigger] slot_views(clients@)[k]).name,
                        40,
                    ) && crate::text::fixed_fits(slot_views(clients@)[k].unit_name, 40),
                forall|k1: int, k2: int|
                    0 <= k1 < k2 < clients@.len() ==> (#[trigger] slot_views(clients@)[k1]).player_id
                        != (#[trigger] slot_views(clients@)[k2]).player_id,
            decreases players@.len() - i,
        {
            let p = &players[i];
            proof {
                assert(psv[i as int] == players@[i as int]@);
                assert(psv.skip(i as int)[0] == psv[i as int]);
                assert(psv.skip(i as int).drop_first() =~= psv.skip(i + 1 as int));
            }
            if p.key.len() >= 16 {
                let pid = p.player_id;
                let mut dup = false;
                let mut k: usize = 0;
                while k < clients.len()
                    invariant
                        k <= clients@.len(),
                        !dup ==> forall|m: int|
                            0 <= m < k ==> (#[trigger] slot_views(clients@)[m]).player_id != pid,
                        dup ==> roster_taken(slot_views(clients@), pid),
                    decreases clients@.len() - k,
                {
                    if clients[k].player_id == pid {
                        proof {
                            assert(slot_views(clients@)[k as int].player_id == pid);
                        }
                        dup = true;
                    } else {
                        proof {
                            assert(slot_views(clients@)[k as int].player_id != pid);
                        }
                    }
                    k += 1;
                }
                if !dup {
                    let name40 = sanitize40(&p.name);
                    let champ40 = sanitize40(&p.champion);
                    let key16 = vstd::slice::slice_subrange(p.key.as_slice(), 0, 16);
                    let cid32 = clients.len() as u32;
                    let ghost before = clients@;
                    let c = Client {
                        name: name40,
                        player_id: p.player_id,
                        summoner_level: p.summoner_level,
                        profile_icon: p.profile_icon,
                        status: ClientStatus::Disconnected,
                        champ_skin_id: p.skin_id,
                        peer: None,
                        cipher: CipherContext::new(key16),
                        net_id: NetId::new_spawned(cid32 + 1),
                        team: p.team,
                        unit_name: UnitName(champ40),
                        summoner_spells: SummonerSpells(p.summoner_spell0, p.summoner_spell1),
                    };
                    let ghost cv = c@;
                    clients.push(c);
                    proof {
                        assert(!roster_taken(slot_views(before), pid));
                        assert(cv == slot_of(psv[i as int], before.len() as int));
                        assert(slot_views(clients@) =~= slot_views(before).push(cv));
                        assert(build_roster(psv.skip(i as int), slot_views(before))
                            == build_roster(psv.skip(i + 1 as int), slot_views(clients@)));
                    }
                } else {
                    proof {
                        assert(build_roster(psv.skip(i as int), slot_views(clients@))
                            == build_roster(psv.skip(i + 1 as int), slot_views(clients@)));
                    }
                }
            } else {
                proof {
                    assert(psv[i as int].key.len() < 16);
                    assert(build_roster(psv.skip(i as int), slot_views(clients@))
                        == build_roster(psv.skip(i + 1 as int), slot_views(clients@)));
                }
            }
            i += 1;
        }
        proof {
            if i == players@.len() {
                assert(psv.skip(i as int) =~= Seq::<PlayerConfigView>::empty());
            }
            assert(build_roster(psv.skip(i as int), slot_views(clients@)) == slot_views(clients@));
        }
        ClientMap { clients }
    }
}

/// Byte-for-byte equality of two eight-byte blocks.
fn eq8(a: &Vec<u8>, b: &Vec<u8>) -> (r: bool)
    requires
        a@.len() == 8,
        b@.len() == 8,
    ensures
        r == (a@ == b@),
{
    let mut k: usize = 0;
    let mut same = true;
    while k < 8
        invariant
            k <= 8,
            a@.len() == 8,
            b@.len() == 8,
            same == (forall|m: int| 0 <= m < k ==> a@[m] == b@[m]),
        decreases 8 - k,
    {
        if a[k] != b[k] {
            same = false;
        }
        k += 1;
    }
    proof {
        if same {
            assert(a@ =~= b@);
        }
    }
    same
}

/// The echoed key-check frame: the request with the accepted slot filled in.
pub open spec fn echo_keycheck(kc: KeyCheckView, k: int) -> Seq<u8> {
    KeyCheckView {
        action: kc.action,
        client_id: k as u32,
        player_id: kc.player_id,
        check_id: kc.check_id,
    }.wire()
}

/// The key-check frame announcing another slot to the new peer.
pub open spec fn slot_keycheck(c: ClientView, j: int) -> Seq<u8> {
    KeyCheckView {
        action: 0,
        client_id: j as u32,
        player_id: c.player_id,
        check_id: enc_block8(c.key, player_id_le(c.player_id)),
    }.wire()
}

impl ClientMap {
    /// Handshake on a fresh connection.  The slot owning the claimed
    /// player id accepts exactly when the challenge is that id encrypted
    /// under the slot's key; it then turns Loading, keeps the peer, and
    /// the new peer is sent the echoed key-check plus one key-check per
    /// other slot.  On success the slot's previous peer handle, if any,
    /// rides along so the caller can gracefully disconnect it.  Any other
    /// frame leaves every slot unchanged and the caller disconnects the
    /// peer.
    #[verifier::loop_isolation(false)]
    pub fn handle_connect(&mut self, kc: &KeyCheck, peer: u64, out: &mut PacketSender) -> (r:
        Option<(ClientId, Option<u64>)>)
        requires
            old(self).wf(),
            kc@.valid(),
        ensures
            final(self).wf(),
            final(self)@.len() == old(self)@.len(),
            match find_player(old(self)@, kc@.player_id) {
                Some(k) => {
                    if auth_ok(old(self)@[k], kc@) {
                        &&& r == Some((ClientId(k as u32), old(self)@[k].peer))
                        &&& final(self)@ == old(self)@.update(
                            k,
                            ClientView { status: ClientStatus::Loading, peer: Some(peer), ..old(self)@[k] },
                        )
                        &&& final(out)@.len() == old(out)@.len() + old(self)@.len()
                        &&& final(out)@[old(out)@.len() as int] == CommandView::Single(
                            Channel::Handshake,
                            ClientId(k as u32),
                            echo_keycheck(kc@, k),
                        )
                        &&& forall|j: int|
                            0 <= j < k ==> final(out)@[old(out)@.len() + 1int + j]
                                == CommandView::Single(
                                Channel::Handshake,
                                ClientId(k as u32),
                                slot_keycheck(old(self)@[j], j),
                            )
                        &&& forall|j: int|
                            k < j < old(self)@.len() ==> final(out)@[old(out)@.len() as int + j]
                                == CommandView::Single(
                                Channel::Handshake,
                                ClientId(k as u32),
                                slot_keycheck(old(self)@[j], j),
                            )
                    } else {
                        r is None && final(self)@ == old(self)@ && final(out)@ == old(out)@
                    }
                },
                None => r is None && final(self)@ == old(self)@ && final(out)@ == old(out)@,
            },
    {
        proof {
            lemma_find_player_props(self@, kc@.player_id);
        }
        let n = self.clients.len();
        // find the slot owning the claimed player id
        let mut k: usize = 0;
        let mut found = false;
        while k < n && !found
            invariant
                n == self@.len(),
                k <= n,
                !found ==> forall|m: int|
                    0 <= m < k ==> (#[trigger] self@[m]).player_id != kc@.player_id,
                found ==> k < n && self@[k as int].player_id == kc@.player_id && forall|m: int|
                    0 <= m < k ==> (#[trigger] self@[m]).player_id != kc@.player_id,
            decreases n - k + (if found { 0int } else { 1int }),
        {
            if self.clients[k].player_id == kc.player_id {
                found = true;
            } else {
                k += 1;
            }
        }
        if !found {
            proof {
                lemma_find_player_props(self@, kc@.player_id);
            }
            return None;
        }
        proof {
            lemma_find_player_props(self@, kc@.player_id);
        }
        assert(find_player(self@, kc@.player_id) == Some(k as int));
        // test the challenge under the slot's key
        let dec = self.clients[k].cipher.decrypt_check(&kc.check_id);
        let pid_bytes = vstd::bytes::u64_to_le_bytes(kc.player_id);
        let ok = eq8(&dec, &pid_bytes);
        proof {
            if ok {
                assert(kc@.check_id == enc_block8(self@[k as int].key, player_id_le(kc@.player_id)));
            } else {
                if kc@.check_id == enc_block8(self@[k as int].key, player_id_le(kc@.player_id)) {
                    assert(dec@ == player_id_le(kc@.player_id));
                    assert(false);
                }
            }
        }
        if !ok {
            return None;
        }
        // attach the peer and mark the slot Loading; remember the peer it
        // replaces
        let ghost before = self@;
        let mut c = self.clients.remove(k);
        let old_peer = c.peer;
        c.status = ClientStatus::Loading;
        c.peer = Some(peer);
        self.clients.insert(k, c);
        proof {
            assert(self@ =~= before.update(
                k as int,
                ClientView { status: ClientStatus::Loading, peer: Some(peer), ..before[k as int] },
            ));
        }
        // echo the key-check with the slot filled in
        let echo = KeyCheck {
            action: kc.action,
            client_id: k as u32,
            player_id: kc.player_id,
            check_id: copy_bytes(&kc.check_id),
        };
        let ghost base = out@.len() as int;
        out.single(Channel::Handshake, ClientId(k as u32), echo.to_bytes());
        // announce every other slot to the new peer
        let mut j: usize = 0;
        while j < n
            invariant
                n == self@.len(),
                n == before.len(),
                k < n,
                j <= n,
                self.wf(),
                self@ == before.update(
                    k as int,
                    ClientView {
                        status: ClientStatus::Loading,
                        peer: Some(peer),
                        ..before[k as int]
                    },
                ),
                forall|m: int| 0 <= m < n ==> (#[trigger] self@[m]).key == before[m].key,
                forall|m: int|
                    0 <= m < n ==> (#[trigger] self@[m]).player_id == before[m].player_id,
                out@.len() == base + 1 + (if j <= k {
                    j as int
                } else {
                    j - 1
                }),
                out@[base] == CommandView::Single(
                    Channel::Handshake,
                    ClientId(k as u32),
                    echo_keycheck(kc@, k as int),
                ),
                forall|m: int|
                    0 <= m < j && m < k ==> out@[base + 1 + m] == CommandView::Single(
                        Channel::Handshake,
                        ClientId(k as u32),
                        slot_keycheck(before[m], m),
                    ),
                forall|m: int|
                    k < m < j ==> out@[base + m] == CommandView::Single(
                        Channel::Handshake,
                        ClientId(k as u32),
                        slot_keycheck(before[m], m),
                    ),
            decreases n - j,
        {
            if j != k {
                proof {
                    assert(self@[j as int] == self.clients@[j as int]@);
                    assert(4 <= self.clients@[j as int]@.key.len() <= 56);
                }
                let pid_j = self.clients[j].player_id;
                let block = vstd::bytes::u64_to_le_bytes(pid_j);
                let check_j = self.clients[j].cipher.encrypt_check(&block);
                proof {
                    assert(check_j@ == enc_block8(
                        before[j as int].key,
                        player_id_le(before[j as int].player_id),
                    ));
                }
                let kcj = KeyCheck {
                    action: 0,
                    client_id: j as u32,
                    player_id: pid_j,
                    check_id: check_j,
                };
                proof {
                    assert(kcj@ == KeyCheckView {
                        action: 0,
                        client_id: j as u32,
                        player_id: before[j as int].player_id,
                        check_id: enc_block8(
                            before[j as int].key,
                            player_id_le(before[j as int].player_id),
                        ),
                    });
                    assert(kcj@.wire() == slot_keycheck(before[j as int], j as int));
                }
                let ghost prev = out@;
                out.single(Channel::Handshake, ClientId(k as u32), kcj.to_bytes());
                proof {
                    assert(forall|ix: int| 0 <= ix < prev.len() ==> #[trigger] out@[ix] == prev[ix]);
                    assert(out@[prev.len() as int] == CommandView::Single(
                        Channel::Handshake,
                        ClientId(k as u32),
                        slot_keycheck(before[j as int], j as int),
                    ));
                }
            }
            j += 1;
        }
        Some((ClientId(k as u32), old_peer))
    }

    /// A transport-level disconnect: the slot loses its peer and turns
    /// Disconnected.  Returns whether every slot is now disconnected, the
    /// signal for an orderly shutdown.
    pub fn handle_disconnect(&mut self, cid: ClientId) -> (all_gone: bool)
        requires
            old(self).wf(),
            cid.0 < old(self)@.len(),
        ensures
            final(self).wf(),
            final(self)@ == old(self)@.update(
                cid.0 as int,
                ClientView {
                    status: ClientStatus::Disconnected,
                    peer: None,
                    ..old(self)@[cid.0 as int]
                },
            ),
            all_gone == (forall|m: int|
                0 <= m < final(self)@.len() ==> (#[trigger] final(self)@[m]).status
                    == ClientStatus::Disconnected),
    {
        let ghost before = self@;
        let k = cid.0 as usize;
        let mut c = self.clients.remove(k);
        c.status = ClientStatus::Disconnected;
        c.peer = None;
        self.clients.insert(k, c);
        proof {
            assert(self@ =~= before.update(
                k as int,
                ClientView {
                    status: ClientStatus::Disconnected,
                    peer: None,
                    ..before[k as int]
                },
            ));
        }
        let n = self.clients.len();
        let mut m: usize = 0;
        let mut all = true;
        while m < n
            invariant
                n == self@.len(),
                m <= n,
                all == (forall|q: int|
                    0 <= q < m ==> (#[trigger] self@[q]).status == ClientStatus::Disconnected),
            decreases n - m,
        {
            let is_disc = match self.clients[m].status {
                ClientStatus::Disconnected => true,
                _ => false,
            };
            if !is_disc {
                proof {
                    assert(self@[m as int].status != ClientStatus::Disconnected);
                }
                all = false;
            }
            m += 1;
        }
        all
    }
}

/// Truncate a name to what a 40-byte wire buffer can carry: its longest
/// printable seven-bit prefix, at most 39 bytes.
fn sanitize40(v: &Vec<u8>) -> (r: Vec<u8>)
    ensures
        r@ == clip_name(v@),
        crate::text::fixed_fits(r@, 40),
{
    let mut out: Vec<u8> = Vec::new();
    let mut k: usize = 0;
    while k < v.len() && k < 39
        invariant
            out@ == v@.subrange(0, k as int),
            k <= 39,
            k <= v@.len(),
            clip_point(v@, 0) == clip_point(v@, k as int),
            forall|m: int| 0 <= m < k ==> 0 < (#[trigger] v@[m]) < 0x80,
        decreases v@.len() - k,
    {
        let b = v[k];
        if b == 0 || b >= 0x80 {
            proof {
                assert(clip_point(v@, k as int) == k);
                lemma_clip_prefix(v@, out@);
            }
            return out;
        }
        out.push(b);
        proof {
            assert(out@ =~= v@.subrange(0, k + 1 as int));
        }
        k += 1;
    }
    proof {
        assert(clip_point(v@, k as int) == k);
        lemma_clip_prefix(v@, out@);
    }
    out
}

/// A clipped name fits its wire buffer.
proof fn lemma_clip_prefix(s: Seq<u8>, c: Seq<u8>)
    requires
        c == s.subrange(0, clip_point(s, 0)),
        0 <= clip_point(s, 0) <= s.len(),
        forall|m: int| 0 <= m < clip_point(s, 0) ==> 0 < (#[trigger] s[m]) < 0x80,
        clip_point(s, 0) <= 39,
    ensures
        crate::text::fixed_fits(c, 40),
{
    assert(forall|m: int| 0 <= m < c.len() ==> (#[trigger] c[m]) == s[m]);
    crate::utf8::lemma_ascii_is_utf8(c);
}

/// Clone a byte vector.
pub fn copy_bytes(v: &Vec<u8>) -> (r: Vec<u8>)
    ensures
        r@ == v@,
{
    vstd::slice::slice_to_vec(v.as_slice())
}

/// Every slot has reported ready.
pub open spec fn all_ready(v: Seq<ClientView>) -> bool {
    forall|k: int| 0 <= k < v.len() ==> (#[trigger] v[k]).status == ClientStatus::Ready
}

/// The bit pattern of the single-precision mission start second.
pub open spec fn mission_start_bits() -> u32 {
    0x3F800000
}

/// The spawn point every champion is stopped at when the game starts.
pub open spec fn start_stop_point() -> MovementDataStop {
    MovementDataStop {
        position: Vector2 { x_bits: 0x41D00000, y_bits: 0x438C0000 },
        forward: Vector2 { x_bits: 0x41D00000, y_bits: 0x438C0000 },
    }
}

/// The start-game broadcast frame.
pub open spec fn start_game_bytes() -> Seq<u8> {
    game_frame(0x5F, 0, SStartGame { tournament_pause_enabled: false }.wire())
}

/// The mission-start-time broadcast frame.
pub open spec fn mission_time_bytes() -> Seq<u8> {
    game_frame(0xCA, 0, SSyncMissionStartTime { start_time_bits: mission_start_bits() }.wire())
}

/// The per-slot visibility frame sent when the game starts; its header
/// carries the slot's champion net id and its body a stopped movement.
pub open spec fn enter_vis_bytes(c: ClientView) -> Seq<u8> {
    game_frame(
        0xC2,
        c.net_id.0,
        SOnEnterVisibilityClientView {
            entries: Seq::empty(),
            look_at_pos: None,
            movement_data: MovementDataView::Stop(start_stop_point()),
        }.wire(),
    )
}

/// The slots of one team, in roster order, among the first `n`.
pub open spec fn team_members_upto(v: Seq<ClientView>, t: Team, n: int) -> Seq<ClientId>
    decreases n,
{
    if n <= 0 {
        Seq::empty()
    } else {
        let p = team_members_upto(v, t, n - 1);
        if v[n - 1].team == t {
            p.push(ClientId((n - 1) as u32))
        } else {
            p
        }
    }
}

/// The slots of one team, in roster order.
pub open spec fn team_members(v: Seq<ClientView>, t: Team) -> Seq<ClientId> {
    team_members_upto(v, t, v.len() as int)
}

/// What a ready report leaves behind: the slot turns Ready, and when that
/// completes the roster while the game is Loading, the game starts.
pub open spec fn ready_post(
    oldv: Seq<ClientView>,
    newv: Seq<ClientView>,
    olds: GameState,
    news: GameState,
    oldq: Seq<CommandView>,
    newq: Seq<CommandView>,
    cid: ClientId,
) -> bool {
    let marked = oldv.update(
        cid.0 as int,
        ClientView { status: ClientStatus::Ready, ..oldv[cid.0 as int] },
    );
    if all_ready(marked) && olds == GameState::Loading {
        &&& news == GameState::Running
        &&& newv.len() == marked.len()
        &&& forall|k: int|
            0 <= k < marked.len() ==> newv[k] == (ClientView {
                status: ClientStatus::Connected,
                ..marked[k]
            })
        &&& newq.len() == oldq.len() + 2 + marked.len()
        &&& newq[oldq.len() as int] == CommandView::BroadcastAll(
            Channel::Broadcast,
            start_game_bytes(),
        )
        &&& newq[oldq.len() + 1int] == CommandView::BroadcastAll(
            Channel::Broadcast,
            mission_time_bytes(),
        )
        &&& forall|k: int|
            0 <= k < marked.len() ==> newq[oldq.len() + 2int + k] == CommandView::Single(
                Channel::Broadcast,
                ClientId(k as u32),
                enter_vis_bytes(marked[k]),
            )
    } else {
        &&& news == olds
        &&& newv == marked
        &&& newq == oldq
    }
}

/// What a chat frame leaves behind: type 0 to everyone, type 1 to the
/// sender's team, anything else dropped.
pub open spec fn chat_post(
    v: Seq<ClientView>,
    cid: ClientId,
    data: Seq<u8>,
    oldq: Seq<CommandView>,
    newq: Seq<CommandView>,
) -> bool {
    match ChatPacketView::parse(data, 0) {
        Some((pkt, _)) => if pkt.typ == 0 {
            newq == oldq.push(CommandView::BroadcastAll(Channel::Chat, data))
        } else if pkt.typ == 1 {
            newq == oldq.push(
                CommandView::BroadcastGroup(
                    Channel::Chat,
                    team_members(v, v[cid.0 as int].team),
                    data,
                ),
            )
        } else {
            newq == oldq
        },
        None => newq == oldq,
    }
}

impl ClientMap {
    /// A client finished loading.  The slot turns Ready; when that makes
    /// every slot Ready while the game is Loading, the game turns Running,
    /// a start-game and a mission-start-time frame are broadcast, every
    /// slot drops back to Connected, and each slot is sent one visibility
    /// frame stamped with its champion's net id.
    #[verifier::loop_isolation(false)]
    pub fn handle_client_ready(
        &mut self,
        cid: ClientId,
        state: &mut GameState,
        out: &mut PacketSender,
    )
        requires
            old(self).wf(),
            cid.0 < old(self)@.len(),
        ensures
            final(self).wf(),
            ready_post(
                old(self)@,
                final(self)@,
                *old(state),
                *final(state),
                old(out)@,
                final(out)@,
                cid,
            ),
    {
        let ghost before = self@;
        let k = cid.0 as usize;
        let mut c = self.clients.remove(k);
        c.status = ClientStatus::Ready;
        self.clients.insert(k, c);
        let ghost marked = self@;
        proof {
            assert(marked =~= before.update(
                k as int,
                ClientView { status: ClientStatus::Ready, ..before[k as int] },
            ));
        }
        let n = self.clients.len();
        // are all slots ready?
        let mut m: usize = 0;
        let mut all = true;
        while m < n
            invariant
                m <= n,
                all == (forall|q: int|
                    0 <= q < m ==> (#[trigger] self@[q]).status == ClientStatus::Ready),
            decreases n - m,
        {
            let is_ready = match self.clients[m].status {
                ClientStatus::Ready => true,
                _ => false,
            };
            proof {
                assert(self@[m as int] == self.clients@[m as int]@);
            }
            if !is_ready {
                proof {
                    assert(self@[m as int].status != ClientStatus::Ready);
                }
                all = false;
            } else {
                proof {
                    assert(self@[m as int].status == ClientStatus::Ready);
                }
            }
            m += 1;
        }
        let loading = match *state {
            GameState::Loading => true,
            _ => false,
        };
        if !(all && loading) {
            return ;
        }
        *state = GameState::Running;
        out.broadcast_all(
            Channel::Broadcast,
            SStartGame { tournament_pause_enabled: false }.to_bytes(0),
        );
        out.broadcast_all(
            Channel::Broadcast,
            SSyncMissionStartTime { start_time_bits: 0x3F800000 }.to_bytes(0),
        );
        let ghost base = old(out)@.len() as int;
        let mut i: usize = 0;
        while i < n
            invariant
                i <= n,
                n == self@.len(),
                self@.len() == marked.len(),
                forall|k2: int|
                    0 <= k2 < i ==> self@[k2] == (ClientView {
                        status: ClientStatus::Connected,
                        ..marked[k2]
                    }),
                forall|k2: int| i <= k2 < n ==> self@[k2] == marked[k2],
                out@.len() == base + 2 + i,
                out@[base] == CommandView::BroadcastAll(Channel::Broadcast, start_game_bytes()),
                out@[base + 1] == CommandView::BroadcastAll(
                    Channel::Broadcast,
                    mission_time_bytes(),
                ),
                forall|k2: int|
                    0 <= k2 < i ==> out@[base + 2 + k2] == CommandView::Single(
                        Channel::Broadcast,
                        ClientId(k2 as u32),
                        enter_vis_bytes(marked[k2]),
                    ),
            decreases n - i,
        {
            let ghost before_i = self@;
            let mut ci = self.clients.remove(i);
            let net = ci.net_id.id();
            ci.status = ClientStatus::Connected;
            self.clients.insert(i, ci);
            proof {
                assert(self@ =~= before_i.update(
                    i as int,
                    ClientView { status: ClientStatus::Connected, ..before_i[i as int] },
                ));
            }
            let vis = SOnEnterVisibilityClient {
                entries: Vec::new(),
                look_at_pos: None,
                movement_data: MovementData::Stop(
                    MovementDataStop {
                        position: Vector2 { x_bits: 0x41D00000, y_bits: 0x438C0000 },
                        forward: Vector2 { x_bits: 0x41D00000, y_bits: 0x438C0000 },
                    },
                ),
            };
            proof {
                assert(vis@.entries =~= Seq::<crate::packets_game::ItemData>::empty());
                assert(vis@ == SOnEnterVisibilityClientView {
                    entries: Seq::empty(),
                    look_at_pos: None,
                    movement_data: MovementDataView::Stop(start_stop_point()),
                });
            }
            out.single(Channel::Broadcast, ClientId(i as u32), vis.to_bytes(net));
            i += 1;
        }
    }

    /// Route a raw chat frame.  Type 0 goes to every client, type 1 to the
    /// sender's team only, byte for byte; other types and malformed frames
    /// are dropped.
    #[verifier::loop_isolation(false)]
    pub fn handle_chat(&self, cid: ClientId, data: &Vec<u8>, out: &mut PacketSender)
        requires
            self.wf(),
            cid.0 < self@.len(),
        ensures
            chat_post(self@, cid, data@, old(out)@, final(out)@),
    {
        let pkt = match crate::chat::ChatPacket::decode(data.as_slice(), 0) {
            Some((p, _)) => p,
            None => {
                return ;
            },
        };
        if pkt.typ == 0 {
            out.broadcast_all(Channel::Chat, copy_bytes(data));
        } else if pkt.typ == 1 {
            let team = self.clients[cid.0 as usize].team;
            proof {
                assert(self@[cid.0 as int].team == team);
            }
            let n = self.clients.len();
            let mut members: Vec<ClientId> = Vec::new();
            let mut k: usize = 0;
            while k < n
                invariant
                    k <= n,
                    members@ == team_members_upto(self@, team, k as int),
                decreases n - k,
            {
                let same = match (self.clients[k].team, team) {
                    (Team::Order, Team::Order) => true,
                    (Team::Chaos, Team::Chaos) => true,
                    _ => false,
                };
                if same {
                    members.push(ClientId(k as u32));
                }
                k += 1;
            }
            out.broadcast_group(Channel::Chat, members, copy_bytes(data));
        }
    }
}

} // verus!
