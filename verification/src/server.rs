use vstd::prelude::*;

use crate::text::{lossy_text, utf8_lossy};
use crate::types::{PeerAddr, Vec3};

verus! {

/// Lives that every player has when it joins.
pub const STARTING_LIVES: u32 = 3;

/// Players needed before the start countdown runs.
pub const MIN_PLAYERS: usize = 2;

/// Time, in nanoseconds, that the lobby waits with enough players before the
/// game starts: ten seconds.
pub const START_DELAY_NANOS: u128 = 10_000_000_000;

/// A player as the server knows it.
#[derive(Debug)]
pub struct Player {
    pub id: u32,
    pub position: Option<Vec3>,
    pub addr: PeerAddr,
    pub username: String,
    pub lives: u32,
}

impl Clone for Player {
    fn clone(&self) -> (res: Self)
        ensures
            res == *self,
    {
        Player {
            id: self.id,
            position: self.position,
            addr: self.addr,
            username: self.username.clone(),
            lives: self.lives,
        }
    }
}

/// A message between server and clients.
#[derive(Debug)]
pub struct Message {
    pub action: String,
    pub level: Option<u32>,
    pub players: Option<Vec<Player>>,
    pub curr_player: Option<Player>,
    pub position: Option<Vec3>,
    pub senderid: Option<u32>,
}

impl Message {
    /// A message with no current player and no sender.
    pub fn new(
        action: String,
        level: Option<u32>,
        players: Option<Vec<Player>>,
        position: Option<Vec3>,
    ) -> (m: Message)
        ensures
            m.action == action,
            m.level == level,
            m.players == players,
            m.position == position,
            m.curr_player is None,
            m.senderid is None,
    {
        Message { action, level, players, position, curr_player: None, senderid: None }
    }
}

/// What the lobby loop hands to `Server::accept`.
pub enum AcceptEvent {
    /// A datagram arrived: its sender and its bytes, the sender's name.
    Received { from: PeerAddr, payload: Vec<u8> },
    /// Receiving failed.
    ReceiveFailed,
    /// A second passed without a datagram; `waited_nanos` is the time since
    /// the countdown was last restarted.
    TimedOut { waited_nanos: u128 },
}

/// What the lobby loop does next.
pub enum AcceptAction {
    /// Keep waiting.
    Wait,
    /// Restart the countdown and keep waiting.
    RestartTimer,
    /// Send the message to every client and leave the lobby.
    Start(Message),
}

/// The server's view of the game: the clients, in the order in which they
/// joined.
#[derive(Debug)]
pub struct Server {
    pub clients: Vec<Player>,
}

/// The clients are numbered 1, 2, 3, ... in the order in which they joined.
pub open spec fn ids_in_join_order(clients: Seq<Player>) -> bool {
    forall|i: int| 0 <= i < clients.len() ==> #[trigger] clients[i].id == i + 1
}

/// Whether some client has the given address.
pub open spec fn is_client(clients: Seq<Player>, from: PeerAddr) -> bool {
    exists|i: int| 0 <= i < clients.len() && clients[i].addr == from
}

/// The addresses of the clients other than the sender, in order.
pub open spec fn relay_addrs(clients: Seq<Player>, sender_id: u32) -> Seq<PeerAddr> {
    clients.filter_map(|c: Player| if c.id != sender_id { Some(c.addr) } else { None })
}

/// The addresses of all clients, in order.
pub open spec fn all_addrs(clients: Seq<Player>) -> Seq<PeerAddr> {
    clients.map_values(|c: Player| c.addr)
}

/// Whether `p` is the player that joins as number `n` from `from`, under the
/// name decoded from `payload`.
pub open spec fn is_new_client(p: Player, n: nat, from: PeerAddr, payload: Seq<u8>) -> bool {
    &&& p.id == n + 1
    &&& p.position is None
    &&& p.addr == from
    &&& p.username@ == utf8_lossy(payload)
    &&& p.lives == STARTING_LIVES
}

/// Whether `m` is the message that starts the game at `level` with `clients`.
pub open spec fn is_start_message(m: Message, level: Option<u32>, clients: Seq<Player>) -> bool {
    &&& m.action@ == "start"@
    &&& m.level == level
    &&& m.players matches Some(ps) && ps@ == clients
    &&& m.curr_player is None
    &&& m.position == Some(Vec3 { x_bits: 0, y_bits: 0, z_bits: 0 })
    &&& m.senderid is None
}

fn copy_players(players: &Vec<Player>) -> (res: Vec<Player>)
    ensures
        res@ == players@,
{
    let mut res: Vec<Player> = Vec::new();
    let mut i: usize = 0;
    while i < players.len()
        invariant
            i <= players.len(),
            res@ == players@.subrange(0, i as int),
        decreases players.len() - i,
    {
        res.push(players[i].clone());
        proof {
            assert(res@ =~= players@.subrange(0, i + 1));
        }
        i = i + 1;
    }
    proof {
        assert(res@ =~= players@);
    }
    res
}

impl Server {
    /// A server with no clients yet.
    pub fn new() -> (s: Server)
        ensures
            s.clients@ == Seq::<Player>::empty(),
    {
        Server { clients: Vec::new() }
    }

    /// One turn of the lobby loop. A datagram makes its sender a client,
    /// numbered after those before it, named by the datagram's text, with
    /// three lives; the join that brings the clients to two starts the
    /// countdown afresh. A timeout with fewer than two clients restarts the
    /// countdown; with two or more, once more than ten seconds have passed,
    /// it starts the game at `level` with every client.
    pub fn accept(&mut self, event: AcceptEvent, level: Option<u32>) -> (action: AcceptAction)
        requires
            event is Received ==> old(self).clients.len() < u32::MAX,
        ensures
            match event {
                AcceptEvent::Received { from, payload } => {
                    &&& if old(self).clients@.len() + 1 == MIN_PLAYERS {
                        action is RestartTimer
                    } else {
                        action is Wait
                    }
                    &&& final(self).clients@.len() == old(self).clients@.len() + 1
                    &&& final(self).clients@.drop_last() == old(self).clients@
                    &&& is_new_client(
                        final(self).clients@.last(),
                        old(self).clients@.len(),
                        from,
                        payload@,
                    )
                },
                AcceptEvent::ReceiveFailed => {
                    &&& action is Wait
                    &&& final(self).clients@ == old(self).clients@
                },
                AcceptEvent::TimedOut { waited_nanos } => {
                    &&& final(self).clients@ == old(self).clients@
                    &&& if old(self).clients@.len() < MIN_PLAYERS {
                        action is RestartTimer
                    } else if waited_nanos > START_DELAY_NANOS {
                        action matches AcceptAction::Start(m) && is_start_message(
                            m,
                            level,
                            old(self).clients@,
                        )
                    } else {
                        action is Wait
                    }
                },
            },
            ids_in_join_order(old(self).clients@) ==> ids_in_join_order(final(self).clients@),
            action matches AcceptAction::Start(m) ==> (m.players matches Some(ps) && ps@.len()
                == old(self).clients@.len() && forall|i: int|
                0 <= i < ps@.len() ==> #[trigger] ps@[i] == old(self).clients@[i]),
    {
        match event {
            AcceptEvent::Received { from, payload } => {
                let username = lossy_text(payload.as_slice());
                let new_player = Player {
                    id: self.clients.len() as u32 + 1,
                    position: None,
                    addr: from,
                    username,
                    lives: STARTING_LIVES,
                };
                self.clients.push(new_player);
                proof {
                    assert(self.clients@.drop_last() =~= old(self).clients@);
                }
                if self.clients.len() == MIN_PLAYERS {
                    AcceptAction::RestartTimer
                } else {
                    AcceptAction::Wait
                }
            },
            AcceptEvent::ReceiveFailed => AcceptAction::Wait,
            AcceptEvent::TimedOut { waited_nanos } => {
                if self.clients.len() < MIN_PLAYERS {
                    AcceptAction::RestartTimer
                } else if waited_nanos > START_DELAY_NANOS {
                    let players = copy_players(&self.clients);
                    let m = Message::new(
                        String::from_str("start"),
                        level,
                        Some(players),
                        Some(Vec3::zero()),
                    );
                    AcceptAction::Start(m)
                } else {
                    AcceptAction::Wait
                }
            },
        }
    }

    /// Whether a datagram from `from` is relayed: it is when `from` is the
    /// address of a client.
    pub fn listen(&self, from: &PeerAddr) -> (known: bool)
        ensures
            known == is_client(self.clients@, *from),
    {
        let mut i: usize = 0;
        while i < self.clients.len()
            invariant
                i <= self.clients.len(),
                forall|j: int| 0 <= j < i ==> self.clients@[j].addr != *from,
            decreases self.clients.len() - i,
        {
            if self.clients[i].addr == *from {
                return true;
            }
            i = i + 1;
        }
        false
    }

    /// The addresses that a message goes to when it is sent to everyone.
    pub fn broadcast_targets(&self) -> (addrs: Vec<PeerAddr>)
        ensures
            addrs@ == all_addrs(self.clients@),
            addrs@.len() == self.clients@.len(),
            forall|i: int| 0 <= i < addrs@.len() ==> #[trigger] addrs@[i] == self.clients@[i].addr,
    {
        proof {
            lemma_broadcast_reaches_all(self.clients@);
        }
        let mut addrs: Vec<PeerAddr> = Vec::new();
        let mut i: usize = 0;
        while i < self.clients.len()
            invariant
                i <= self.clients.len(),
                addrs@ == all_addrs(self.clients@.subrange(0, i as int)),
            decreases self.clients.len() - i,
        {
            addrs.push(self.clients[i].addr);
            proof {
                assert(addrs@ =~= all_addrs(self.clients@.subrange(0, i + 1)));
            }
            i = i + 1;
        }
        proof {
            assert(self.clients@.subrange(0, i as int) =~= self.clients@);
        }
        addrs
    }

    /// The addresses that a message relayed from the client `sender_id`
    /// goes to: every client but the sender, in order.
    pub fn relay_targets(&self, sender_id: u32) -> (addrs: Vec<PeerAddr>)
        ensures
            addrs@ == relay_addrs(self.clients@, sender_id),
    {
        let mut addrs: Vec<PeerAddr> = Vec::new();
        let mut i: usize = 0;
        while i < self.clients.len()
            invariant
                i <= self.clients.len(),
                addrs@ == relay_addrs(self.clients@.subrange(0, i as int), sender_id),
            decreases self.clients.len() - i,
        {
            proof {
                assert(self.clients@.subrange(0, i + 1).drop_last() =~= self.clients@.subrange(
                    0,
                    i as int,
                ));
            }
            if self.clients[i].id != sender_id {
                addrs.push(self.clients[i].addr);
            }
            proof {
                assert(addrs@ =~= relay_addrs(self.clients@.subrange(0, i + 1), sender_id));
            }
            i = i + 1;
        }
        proof {
            assert(self.clients@.subrange(0, i as int) =~= self.clients@);
        }
        addrs
    }
}

/// Whether `a` is the address of a client other than the sender.
pub open spec fn is_other_client_addr(clients: Seq<Player>, sender_id: u32, a: PeerAddr) -> bool {
    exists|j: int| 0 <= j < clients.len() && clients[j].id != sender_id && clients[j].addr == a
}

/// A relayed message goes back to no one but the clients other than its
/// sender, and reaches every one of them: each relay address is the address
/// of a client whose id is not the sender's, and each such client's address
/// is among them.
pub proof fn lemma_relay_skips_sender(clients: Seq<Player>, sender_id: u32)
    ensures
        forall|i: int|
            0 <= i < relay_addrs(clients, sender_id).len() ==> is_other_client_addr(
                clients,
                sender_id,
                #[trigger] relay_addrs(clients, sender_id)[i],
            ),
        forall|j: int|
            0 <= j < clients.len() && clients[j].id != sender_id ==> relay_addrs(
                clients,
                sender_id,
            ).contains(#[trigger] clients[j].addr),
    decreases clients.len(),
{
    if clients.len() > 0 {
        let rest = clients.drop_last();
        lemma_relay_skips_sender(rest, sender_id);
        let r = relay_addrs(clients, sender_id);
        let rr = relay_addrs(rest, sender_id);
        assert forall|i: int| 0 <= i < r.len() implies is_other_client_addr(
            clients,
            sender_id,
            #[trigger] r[i],
        ) by {
            if i < rr.len() {
                assert(r[i] == rr[i]);
                assert(is_other_client_addr(rest, sender_id, rr[i]));
                let j = choose|j: int|
                    0 <= j < rest.len() && rest[j].id != sender_id && rest[j].addr == rr[i];
                assert(clients[j] == rest[j]);
            } else {
                assert(clients[clients.len() - 1].addr == r[i]);
            }
        }
        assert forall|j: int| 0 <= j < clients.len() && clients[j].id != sender_id implies r.contains(
            #[trigger] clients[j].addr,
        ) by {
            if j < rest.len() {
                assert(rest[j] == clients[j]);
                assert(rr.contains(rest[j].addr));
                let k = choose|k: int| 0 <= k < rr.len() && rr[k] == rest[j].addr;
                assert(r[k] == rr[k]);
            } else {
                assert(r[r.len() - 1] == clients[j].addr);
            }
        }
    }
}

/// A peer that has joined is a client: datagrams from its address are
/// relayed from then on, whatever joins after it.
pub proof fn lemma_joined_is_known(clients: Seq<Player>, later: Seq<Player>, i: int)
    requires
        0 <= i < clients.len(),
    ensures
        is_client(clients + later, clients[i].addr),
{
    assert((clients + later)[i] == clients[i]);
}

/// A broadcast goes to every client, once each and in join order: the i-th
/// target is the i-th client's address. A relay from an id that no client
/// has goes to the same addresses as a broadcast.
pub proof fn lemma_broadcast_reaches_all(clients: Seq<Player>)
    ensures
        all_addrs(clients).len() == clients.len(),
        forall|i: int| 0 <= i < clients.len() ==> #[trigger] all_addrs(clients)[i] == clients[i].addr,
        forall|sender_id: u32|
            (forall|j: int| 0 <= j < clients.len() ==> (#[trigger] clients[j]).id != sender_id)
                ==> #[trigger] relay_addrs(clients, sender_id) == all_addrs(clients),
{
    assert forall|sender_id: u32|
        (forall|j: int| 0 <= j < clients.len() ==> (#[trigger] clients[j]).id != sender_id) implies #[trigger] relay_addrs(
        clients,
        sender_id,
    ) == all_addrs(clients) by {
        lemma_relay_without_sender(clients, sender_id);
    }
}

proof fn lemma_relay_without_sender(clients: Seq<Player>, sender_id: u32)
    requires
        forall|j: int| 0 <= j < clients.len() ==> (#[trigger] clients[j]).id != sender_id,
    ensures
        relay_addrs(clients, sender_id) == all_addrs(clients),
    decreases clients.len(),
{
    if clients.len() > 0 {
        let rest = clients.drop_last();
        assert forall|j: int| 0 <= j < rest.len() implies (#[trigger] rest[j]).id != sender_id by {
            assert(rest[j] == clients[j]);
        }
        lemma_relay_without_sender(rest, sender_id);
        assert(clients[clients.len() - 1].id != sender_id);
        assert(all_addrs(clients) =~= all_addrs(rest).push(clients.last().addr));
    }
}

/// The start message lists the clients unchanged, element for element: each
/// keeps its id, address, name and lives.
pub proof fn lemma_start_lists_clients(m: Message, level: Option<u32>, clients: Seq<Player>)
    requires
        is_start_message(m, level, clients),
    ensures
        m.players is Some,
        m.players->0@.len() == clients.len(),
        forall|i: int|
            0 <= i < clients.len() ==> (#[trigger] m.players->0@[i]).lives == clients[i].lives
                && m.players->0@[i].id == clients[i].id && m.players->0@[i].addr == clients[i].addr
                && m.players->0@[i].username == clients[i].username,
{
}

} // verus!
