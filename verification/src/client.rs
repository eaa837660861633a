use vstd::prelude::*;
use vstd::string::StrSliceExecFns;

use crate::seq_facts::lemma_filter_all;
use crate::types::{Quat, Vec3};

verus! {

/// A player as a client knows it. `addr` is the text of the player's network
/// address, `ip:port`.
#[derive(Debug)]
pub struct Player {
    pub id: u32,
    pub position: Option<Vec3>,
    pub addr: String,
    pub username: String,
    pub rotation: Option<Quat>,
    pub lives: u32,
}

impl Clone for Player {
    fn clone(&self) -> (res: Self)
        ensures
            res == *self,
    {
        Player {
            id: self.id,
            position: self.position,
            addr: self.addr.clone(),
            username: self.username.clone(),
            rotation: self.rotation,
            lives: self.lives,
        }
    }
}

/// The players of a game and whether it is running.
#[derive(Debug)]
pub struct GameState {
    pub players: Vec<Player>,
    pub playing: bool,
}

/// A message between server and clients.
#[derive(Debug)]
pub struct Message {
    pub action: String,
    pub level: Option<u32>,
    pub players: Option<Vec<Player>>,
    pub curr_player: Option<Player>,
    pub position: Option<Vec3>,
    pub senderid: Option<u32>,
    pub rotation: Option<Quat>,
}

/// Where a laser hit a player, and which player.
#[derive(Debug, Clone, Copy)]
pub struct HitInfo {
    pub point: Vec3,
    pub playerid: u32,
}

/// The message that announces a shot.
#[derive(Debug)]
pub struct ShootMessage {
    pub action: String,
    pub origin: Vec3,
    pub direction: Vec3,
    pub senderid: u32,
    pub hitpoint: Option<HitInfo>,
}

// ---------------------------------------------------------------------------
// Text of addresses

/// Where the last `:`-separated segment of `s` starts: just after its last
/// `:`, or at 0 when it has none.
pub open spec fn segment_start(s: Seq<char>) -> int
    decreases s.len(),
{
    if s.len() == 0 {
        0
    } else if s.last() == ':' {
        s.len() as int
    } else {
        segment_start(s.drop_last())
    }
}

/// The part of `s` after its last `:`; all of `s` when it has none.
pub open spec fn last_segment(s: Seq<char>) -> Seq<char> {
    s.subrange(segment_start(s), s.len() as int)
}

/// Whether `text` ends with `suffix`.
pub open spec fn ends_with(text: Seq<char>, suffix: Seq<char>) -> bool {
    &&& suffix.len() <= text.len()
    &&& text.subrange(text.len() - suffix.len(), text.len() as int) == suffix
}

proof fn lemma_segment_start(s: Seq<char>, i: int)
    requires
        0 <= i <= s.len(),
        i == 0 || s[i - 1] == ':',
        forall|j: int| i <= j < s.len() ==> s[j] != ':',
    ensures
        segment_start(s) == i,
    decreases s.len(),
{
    if s.len() > 0 && s.last() != ':' {
        lemma_segment_start(s.drop_last(), i);
    }
}

proof fn lemma_segment_start_bounds(s: Seq<char>)
    ensures
        0 <= segment_start(s) <= s.len(),
    decreases s.len(),
{
    if s.len() > 0 && s.last() != ':' {
        lemma_segment_start_bounds(s.drop_last());
    }
}

/// Where the last `:`-separated segment of `s` starts.
fn find_segment_start(s: &str) -> (start: usize)
    ensures
        start == segment_start(s@),
{
    let len = s.unicode_len();
    let mut i: usize = len;
    while i > 0 && s.get_char(i - 1) != ':'
        invariant
            i <= len,
            len == s@.len(),
            forall|j: int| i <= j < len ==> s@[j] != ':',
        decreases i,
    {
        i = i - 1;
    }
    proof {
        lemma_segment_start(s@, i as int);
    }
    i
}

/// Whether `text` ends with the part of `s` from `start` on.
fn ends_with_tail(text: &str, s: &str, start: usize) -> (b: bool)
    requires
        start <= s@.len(),
    ensures
        b == ends_with(text@, s@.subrange(start as int, s@.len() as int)),
{
    let tlen = text.unicode_len();
    let slen = s.unicode_len();
    let n = slen - start;
    if n > tlen {
        return false;
    }
    let offset = tlen - n;
    let ghost ta = text@.subrange(offset as int, tlen as int);
    let ghost tb = s@.subrange(start as int, s@.len() as int);
    let mut k: usize = 0;
    while k < n
        invariant
            k <= n,
            n == slen - start,
            offset == tlen - n,
            tlen == text@.len(),
            slen == s@.len(),
            start <= slen,
            n <= tlen,
            ta == text@.subrange(offset as int, tlen as int),
            tb == s@.subrange(start as int, s@.len() as int),
            forall|j: int| 0 <= j < k ==> #[trigger] ta[j] == tb[j],
        decreases n - k,
    {
        if text.get_char(offset + k) != s.get_char(start + k) {
            proof {
                assert(ta[k as int] != tb[k as int]);
            }
            return false;
        }
        proof {
            assert(ta[k as int] == tb[k as int]);
        }
        k = k + 1;
    }
    proof {
        assert(ta =~= tb);
    }
    true
}

// ---------------------------------------------------------------------------
// Finding players

/// Whether `k` is the first index of a player whose address ends with `tail`.
pub open spec fn is_first_addr_match(players: Seq<Player>, tail: Seq<char>, k: int) -> bool {
    &&& 0 <= k < players.len()
    &&& ends_with(players[k].addr@, tail)
    &&& forall|j: int| 0 <= j < k ==> !ends_with(players[j].addr@, tail)
}

/// The player that a client recognises as itself when its own address is
/// `local`: the first player whose address ends with the port part of
/// `local`, i.e. what follows its last `:`.
pub open spec fn local_player_spec(players: Seq<Player>, local: Seq<char>) -> Option<Player> {
    let tail = last_segment(local);
    if exists|k: int| is_first_addr_match(players, tail, k) {
        Some(players[choose|k: int| is_first_addr_match(players, tail, k)])
    } else {
        None
    }
}

proof fn lemma_first_addr_match_unique(players: Seq<Player>, tail: Seq<char>, a: int, b: int)
    requires
        is_first_addr_match(players, tail, a),
        is_first_addr_match(players, tail, b),
    ensures
        a == b,
{
}

fn find_local_player(players: &Vec<Player>, local: &String) -> (found: Option<Player>)
    ensures
        found == local_player_spec(players@, local@),
{
    let start = find_segment_start(local.as_str());
    proof {
        lemma_segment_start_bounds(local@);
    }
    let ghost tail = last_segment(local@);
    let mut i: usize = 0;
    while i < players.len()
        invariant
            i <= players.len(),
            start == segment_start(local@),
            start <= local@.len(),
            tail == local@.subrange(start as int, local@.len() as int),
            forall|j: int| 0 <= j < i ==> !ends_with(players@[j].addr@, tail),
        decreases players.len() - i,
    {
        if ends_with_tail(players[i].addr.as_str(), local.as_str(), start) {
            proof {
                assert(is_first_addr_match(players@, tail, i as int));
                let k = choose|k: int| is_first_addr_match(players@, tail, k);
                lemma_first_addr_match_unique(players@, tail, k, i as int);
                assert(tail == last_segment(local@));
            }
            let found = players[i].clone();
            assert(found == players@[i as int]);
            return Some(found);
        }
        i = i + 1;
    }
    None
}

/// The current player of a client whose own address is `s`: the first of the
/// message's players whose address ends with the port part of `s`.
pub fn getcurrplayer(m: Message, s: String) -> (found: Option<Player>)
    requires
        m.players is Some,
    ensures
        found == local_player_spec(m.players->0@, s@),
{
    let players = m.players.unwrap();
    find_local_player(&players, &s)
}

/// Whether `k` is the first index of a player with the given id.
pub open spec fn is_first_with_id(players: Seq<Player>, player_id: u32, k: int) -> bool {
    &&& 0 <= k < players.len()
    &&& players[k].id == player_id
    &&& forall|j: int| 0 <= j < k ==> players[j].id != player_id
}

/// Whether some player has the given id.
pub open spec fn has_id(players: Seq<Player>, player_id: u32) -> bool {
    exists|k: int| 0 <= k < players.len() && players[k].id == player_id
}

/// The index of the first player with the given id, when there is one.
pub open spec fn first_with_id(players: Seq<Player>, player_id: u32) -> int {
    choose|k: int| is_first_with_id(players, player_id, k)
}

proof fn lemma_first_with_id(players: Seq<Player>, player_id: u32, k: int)
    requires
        is_first_with_id(players, player_id, k),
    ensures
        first_with_id(players, player_id) == k,
{
    let c = first_with_id(players, player_id);
    assert(is_first_with_id(players, player_id, c));
}

fn find_id(players: &Vec<Player>, player_id: u32) -> (idx: Option<usize>)
    ensures
        match idx {
            Some(k) => is_first_with_id(players@, player_id, k as int) && first_with_id(
                players@,
                player_id,
            ) == k,
            None => !has_id(players@, player_id),
        },
{
    let mut i: usize = 0;
    while i < players.len()
        invariant
            i <= players.len(),
            forall|j: int| 0 <= j < i ==> players@[j].id != player_id,
        decreases players.len() - i,
    {
        if players[i].id == player_id {
            proof {
                lemma_first_with_id(players@, player_id, i as int);
            }
            return Some(i);
        }
        i = i + 1;
    }
    None
}

// ---------------------------------------------------------------------------
// Lives

/// Whether the client's own player is alive: the message names a current
/// player, lists the players, and the first listed player with the current
/// player's id has lives left.
pub open spec fn alive_spec(mess: Message) -> bool {
    match (mess.curr_player, mess.players) {
        (Some(curr), Some(players)) => has_id(players@, curr.id) && players@[first_with_id(
            players@,
            curr.id,
        )].lives > 0,
        _ => false,
    }
}

/// Whether the client's own player is alive.
pub fn player_is_alive(mess: &Message) -> (alive: bool)
    ensures
        alive == alive_spec(*mess),
{
    match &mess.curr_player {
        Some(curr) => match &mess.players {
            Some(players) => match find_id(players, curr.id) {
                Some(k) => players[k].lives > 0,
                None => false,
            },
            None => false,
        },
        None => false,
    }
}

/// Whether the client's own player is dead: exactly when it is not alive.
pub fn player_is_dead(mess: &Message) -> (dead: bool)
    ensures
        dead == !alive_spec(*mess),
{
    !player_is_alive(mess)
}

/// Whether `k` is the first index of a player with the given id that still
/// has lives.
pub open spec fn is_first_hittable(players: Seq<Player>, player_id: u32, k: int) -> bool {
    &&& 0 <= k < players.len()
    &&& players[k].id == player_id
    &&& players[k].lives > 0
    &&& forall|j: int| 0 <= j < k ==> !(players[j].id == player_id && players[j].lives > 0)
}

/// The players once the player with the given id that a hit reaches has lost
/// one life: the first player with that id that still has lives. Unchanged
/// when there is none.
pub open spec fn after_hit(players: Seq<Player>, player_id: u32) -> Seq<Player> {
    if exists|k: int| is_first_hittable(players, player_id, k) {
        let k = choose|k: int| is_first_hittable(players, player_id, k);
        players.update(k, Player { lives: (players[k].lives - 1) as u32, ..players[k] })
    } else {
        players
    }
}

/// Takes one life from the player that a shot hit: the first player with the
/// given id that still has lives.
pub fn register_hit(players: &mut Vec<Player>, player_id: u32)
    ensures
        final(players)@ == after_hit(old(players)@, player_id),
{
    let mut i: usize = 0;
    while i < players.len()
        invariant
            i <= players.len(),
            players@ == old(players)@,
            forall|j: int|
                0 <= j < i ==> !(#[trigger] players@[j].id == player_id && players@[j].lives > 0),
        decreases players.len() - i,
    {
        if players[i].id == player_id && players[i].lives > 0 {
            let mut hit = players[i].clone();
            hit.lives = hit.lives - 1;
            proof {
                assert(is_first_hittable(old(players)@, player_id, i as int));
                let k = choose|k: int| is_first_hittable(old(players)@, player_id, k);
                assert(is_first_hittable(old(players)@, player_id, k));
                if k < i {
                    assert(!(players@[k].id == player_id && players@[k].lives > 0));
                }
                if i < k {
                    assert(!(players@[i as int].id == player_id && players@[i as int].lives > 0));
                }
            }
            players.set(i, hit);
            return;
        }
        i = i + 1;
    }
}

/// Whether the player shown for `player_id` has died: some listed player
/// with that id has no lives left.
pub open spec fn is_dead_spec(players: Seq<Player>, player_id: u32) -> bool {
    exists|k: int| 0 <= k < players.len() && players[k].id == player_id && players[k].lives == 0
}

/// Whether the player shown for `player_id` has died.
pub fn is_dead_player(players: &Vec<Player>, player_id: u32) -> (dead: bool)
    ensures
        dead == is_dead_spec(players@, player_id),
        dead <==> exists|k: int|
            0 <= k < players@.len() && (#[trigger] players@[k]).id == player_id
                && players@[k].lives == 0,
{
    proof {
        lemma_dead_means_no_lives(players@, player_id);
    }
    let mut i: usize = 0;
    while i < players.len()
        invariant
            i <= players.len(),
            forall|j: int| 0 <= j < i ==> !(players@[j].id == player_id && players@[j].lives == 0),
        decreases players.len() - i,
    {
        if players[i].id == player_id && players[i].lives == 0 {
            return true;
        }
        i = i + 1;
    }
    false
}

/// The players that still have lives, in order.
pub open spec fn survivors(players: Seq<Player>) -> Seq<Player> {
    players.filter(|p: Player| p.lives > 0)
}

/// What is left of a player list once the dead are dropped: `None` when no
/// player has lives left, and a list that is absent stays absent.
pub open spec fn pruned(players: Option<Seq<Player>>) -> Option<Seq<Player>> {
    match players {
        None => None,
        Some(ps) => if survivors(ps).len() == 0 {
            None
        } else {
            Some(survivors(ps))
        },
    }
}

/// The view of an optional player list.
pub open spec fn list_view(players: Option<Vec<Player>>) -> Option<Seq<Player>> {
    match players {
        None => None,
        Some(ps) => Some(ps@),
    }
}

fn survivors_of(players: &Vec<Player>) -> (kept: Vec<Player>)
    ensures
        kept@ == survivors(players@),
{
    let ghost pred = |p: Player| p.lives > 0;
    let mut kept: Vec<Player> = Vec::new();
    let mut i: usize = 0;
    while i < players.len()
        invariant
            i <= players.len(),
            pred == (|p: Player| p.lives > 0),
            kept@ == players@.subrange(0, i as int).filter(pred),
        decreases players.len() - i,
    {
        proof {
            reveal(Seq::filter);
            assert(players@.subrange(0, i + 1).drop_last() =~= players@.subrange(0, i as int));
        }
        if players[i].lives > 0 {
            kept.push(players[i].clone());
        }
        i = i + 1;
    }
    proof {
        assert(players@.subrange(0, i as int) =~= players@);
    }
    kept
}

/// Drops the players that have no lives left; the list becomes absent when
/// nobody is left.
pub fn delete_dead_players(players: &mut Option<Vec<Player>>)
    ensures
        list_view(*final(players)) == pruned(list_view(*old(players))),
{
    let next = match players {
        Some(ps) => {
            let kept = survivors_of(ps);
            if kept.len() == 0 {
                None
            } else {
                Some(kept)
            }
        },
        None => None,
    };
    *players = next;
}

/// The player list once a shot's hit, if any, has been taken into account:
/// the hit player loses a life as `register_hit` says; without a hit or a
/// list nothing changes.
pub open spec fn after_shot(players: Option<Seq<Player>>, hitpoint: Option<HitInfo>) -> Option<
    Seq<Player>,
> {
    match (hitpoint, players) {
        (Some(hit), Some(ps)) => Some(after_hit(ps, hit.playerid)),
        _ => players,
    }
}

/// Takes the life that a shot's hit costs, when the shot hit a player and
/// the players are known.
pub fn apply_shot(players: &mut Option<Vec<Player>>, hitpoint: Option<HitInfo>)
    ensures
        list_view(*final(players)) == after_shot(list_view(*old(players)), hitpoint),
{
    if let Some(hit) = hitpoint {
        match players {
            Some(ps) => register_hit(ps, hit.playerid),
            None => {},
        }
    }
}

// ---------------------------------------------------------------------------
// Positions of the other players

/// Whether `k` is the last index of a player with the given id that has a
/// position.
pub open spec fn is_last_placed(players: Seq<Player>, player_id: u32, k: int) -> bool {
    &&& 0 <= k < players.len()
    &&& players[k].id == player_id
    &&& players[k].position is Some
    &&& forall|j: int|
        k < j < players.len() ==> !(players[j].id == player_id && players[j].position is Some)
}

/// Where the player shown for `player_id` is put, and how it is turned: the
/// position and rotation of the last listed player with that id that has a
/// position; `None` when there is none.
pub open spec fn pose_spec(players: Seq<Player>, player_id: u32) -> Option<(Vec3, Option<Quat>)> {
    if exists|k: int| is_last_placed(players, player_id, k) {
        let k = choose|k: int| is_last_placed(players, player_id, k);
        Some((players[k].position->0, players[k].rotation))
    } else {
        None
    }
}

/// Where the player shown for `player_id` is put, and how it is turned.
pub fn update_position(players: &Vec<Player>, player_id: u32) -> (pose: Option<(Vec3, Option<Quat>)>)
    ensures
        pose == pose_spec(players@, player_id),
        pose matches Some((pos, rot)) ==> exists|k: int|
            0 <= k < players@.len() && (#[trigger] players@[k]).id == player_id
                && players@[k].position == Some(pos) && players@[k].rotation == rot,
        pose is None ==> forall|k: int|
            0 <= k < players@.len() && (#[trigger] players@[k]).id == player_id
                ==> players@[k].position is None,
{
    proof {
        lemma_pose_of_requested_player(players@, player_id);
    }
    let mut i: usize = players.len();
    while i > 0
        invariant
            i <= players.len(),
            forall|j: int|
                i <= j < players.len() ==> !(players@[j].id == player_id
                    && players@[j].position is Some),
        decreases i,
    {
        let k = i - 1;
        if players[k].id == player_id {
            match players[k].position {
                Some(p) => {
                    proof {
                        assert(is_last_placed(players@, player_id, k as int));
                        let c = choose|c: int| is_last_placed(players@, player_id, c);
                        assert(is_last_placed(players@, player_id, c));
                        if c < k {
                            assert(!(players@[k as int].id == player_id
                                && players@[k as int].position is Some));
                        }
                        if k < c {
                            assert(!(players@[c].id == player_id && players@[c].position is Some));
                        }
                    }
                    return Some((p, players[k].rotation));
                },
                None => {},
            }
        }
        i = k;
    }
    None
}

// ---------------------------------------------------------------------------
// Waiting for the game to start

/// Whether `mess` is the message that starts the game.
pub open spec fn is_start(mess: Message) -> bool {
    mess.action@ == "start"@
}

/// Whether `m` is the start message `mess` with the current player set to
/// the player that a client at address `local` recognises as itself.
pub open spec fn is_joined_start(m: Message, mess: Message, local: Seq<char>) -> bool {
    &&& m.action == mess.action
    &&& m.level == mess.level
    &&& m.players == mess.players
    &&& m.position == mess.position
    &&& m.senderid == mess.senderid
    &&& m.rotation == mess.rotation
    &&& m.curr_player == local_player_spec(mess.players->0@, local)
}

/// One message received while waiting for the game. The message that starts
/// the game comes back with the client's own player filled in, the first
/// listed player whose address ends with the port part of `local`; any other
/// message is passed over.
pub fn handle_lobby_message(mess: Message, local: &String) -> (started: Option<Message>)
    requires
        is_start(mess) ==> mess.players is Some,
    ensures
        is_start(mess) ==> (started matches Some(m) && is_joined_start(m, mess, local@)),
        !is_start(mess) ==> started is None,
{
    let start = String::from_str("start");
    if mess.action == start {
        let curr = match &mess.players {
            Some(players) => find_local_player(players, local),
            None => None,
        };
        Some(
            Message {
                action: mess.action,
                level: mess.level,
                players: mess.players,
                curr_player: curr,
                position: mess.position,
                senderid: mess.senderid,
                rotation: mess.rotation,
            },
        )
    } else {
        None
    }
}

// ---------------------------------------------------------------------------
// Movement and shots

/// The movement keys held down in a frame.
#[derive(Debug, Clone, Copy)]
pub struct MovementKeys {
    pub w: bool,
    pub z: bool,
    pub s: bool,
    pub a: bool,
    pub q: bool,
    pub d: bool,
}

/// One for a held key, zero otherwise.
pub open spec fn held(b: bool) -> int {
    if b {
        1
    } else {
        0
    }
}

/// The direction that the keyboard asks for, before the gamepad adds its
/// part: `x` is one to the right (D) less one to the left (A or Q), `z` is
/// one backwards (S) less one forwards (W or Z).
pub fn keyboard_direction(keys: MovementKeys) -> (dir: (i8, i8))
    ensures
        dir.0 == held(keys.d) - held(keys.a || keys.q),
        dir.1 == held(keys.s) - held(keys.w || keys.z),
{
    let mut x: i8 = 0;
    let mut z: i8 = 0;
    if keys.w || keys.z {
        z = z - 1;
    }
    if keys.s {
        z = z + 1;
    }
    if keys.a || keys.q {
        x = x - 1;
    }
    if keys.d {
        x = x + 1;
    }
    (x, z)
}

/// The message that tells the server where the client's own player moved.
pub fn move_message(mess: &Message, position: Vec3, rotation: Quat) -> (m: Message)
    requires
        mess.curr_player is Some,
    ensures
        m.action@ == "move"@,
        m.level is None,
        m.players is None,
        m.curr_player is None,
        m.position == Some(position),
        m.senderid == Some(mess.curr_player->0.id),
        m.rotation == Some(rotation),
{
    let sender = match &mess.curr_player {
        Some(p) => p.id,
        None => 0,
    };
    Message {
        action: String::from_str("move"),
        level: None,
        players: None,
        curr_player: None,
        position: Some(position),
        senderid: Some(sender),
        rotation: Some(rotation),
    }
}

/// The message that announces a shot of the client's own player.
pub fn shoot_message(mess: &Message, origin: Vec3, direction: Vec3, hitpoint: Option<HitInfo>) -> (m:
    ShootMessage)
    requires
        mess.curr_player is Some,
    ensures
        m.action@ == "shoot"@,
        m.origin == origin,
        m.direction == direction,
        m.senderid == mess.curr_player->0.id,
        m.hitpoint == hitpoint,
{
    let sender = match &mess.curr_player {
        Some(p) => p.id,
        None => 0,
    };
    ShootMessage { action: String::from_str("shoot"), origin, direction, senderid: sender, hitpoint }
}

// ---------------------------------------------------------------------------
// Laws

/// The lives of all the players together.
pub open spec fn total_lives(players: Seq<Player>) -> int
    decreases players.len(),
{
    if players.len() == 0 {
        0
    } else {
        total_lives(players.drop_last()) + players.last().lives
    }
}

proof fn lemma_total_lives_update(players: Seq<Player>, k: int, p: Player)
    requires
        0 <= k < players.len(),
    ensures
        total_lives(players.update(k, p)) == total_lives(players) - players[k].lives + p.lives,
    decreases players.len(),
{
    let u = players.update(k, p);
    if k < players.len() - 1 {
        lemma_total_lives_update(players.drop_last(), k, p);
        assert(u.drop_last() =~= players.drop_last().update(k, p));
    } else {
        assert(u.drop_last() =~= players.drop_last());
    }
}

/// A hit costs exactly one life in all, and only when some player with the
/// hit id still has lives; otherwise nobody loses anything. No count of
/// lives goes below zero, and every player keeps its id.
pub proof fn lemma_hit_costs_one_life(players: Seq<Player>, player_id: u32)
    ensures
        total_lives(after_hit(players, player_id)) == total_lives(players) - if exists|k: int|
            is_first_hittable(players, player_id, k) {
            1int
        } else {
            0int
        },
        after_hit(players, player_id).len() == players.len(),
        forall|i: int|
            0 <= i < players.len() ==> (#[trigger] after_hit(players, player_id)[i]).id
                == players[i].id,
{
    if exists|k: int| is_first_hittable(players, player_id, k) {
        let k = choose|k: int| is_first_hittable(players, player_id, k);
        lemma_total_lives_update(
            players,
            k,
            Player { lives: (players[k].lives - 1) as u32, ..players[k] },
        );
    }
}

/// Dropping the dead twice is the same as dropping them once, and what is
/// left holds only players with lives, every listed player with lives among
/// them.
pub proof fn lemma_prune_dead(players: Option<Seq<Player>>)
    ensures
        pruned(pruned(players)) == pruned(players),
        pruned(players) matches Some(ps) ==> forall|i: int|
            0 <= i < ps.len() ==> (#[trigger] ps[i]).lives > 0,
        players matches Some(ps) ==> forall|i: int|
            0 <= i < ps.len() && ps[i].lives > 0 ==> (pruned(players) matches Some(qs)
                && qs.contains(#[trigger] ps[i])),
{
    broadcast use Seq::lemma_filter_pred, Seq::lemma_filter_contains;

    if let Some(ps) = players {
        let pred = |p: Player| p.lives > 0;
        let once = ps.filter(pred);
        assert forall|i: int| 0 <= i < once.len() implies pred(#[trigger] once[i]) by {}
        lemma_filter_all(once, pred);
        assert forall|i: int| 0 <= i < ps.len() && ps[i].lives > 0 implies (pruned(players) matches Some(qs)
            && qs.contains(#[trigger] ps[i])) by {
            assert(pred(ps[i]));
            assert(once.contains(ps[i]));
        }
    }
}

/// The player that a client recognises as itself is one of the listed
/// players, and its address ends with the port part of the client's own.
pub proof fn lemma_local_player_listed(players: Seq<Player>, local: Seq<char>)
    ensures
        local_player_spec(players, local) matches Some(p) ==> players.contains(p) && ends_with(
            p.addr@,
            last_segment(local),
        ),
{
    let tail = last_segment(local);
    if exists|k: int| is_first_addr_match(players, tail, k) {
        let k = choose|k: int| is_first_addr_match(players, tail, k);
        assert(players[k] == local_player_spec(players, local)->0);
    }
}

/// The pose given for a player is that of a listed player with exactly the
/// requested id: its position and rotation, and no later entry with that id
/// has a position. There is no pose exactly when no entry with that id has
/// a position.
pub proof fn lemma_pose_of_requested_player(players: Seq<Player>, player_id: u32)
    ensures
        pose_spec(players, player_id) matches Some((pos, rot)) ==> exists|k: int|
            0 <= k < players.len() && (#[trigger] players[k]).id == player_id
                && players[k].position == Some(pos) && players[k].rotation == rot && (forall|
                j: int,
            |
                k < j < players.len() && (#[trigger] players[j]).id == player_id
                    ==> players[j].position is None),
        pose_spec(players, player_id) is None <==> forall|k: int|
            0 <= k < players.len() && (#[trigger] players[k]).id == player_id
                ==> players[k].position is None,
{
    if exists|k: int| is_last_placed(players, player_id, k) {
        let k = choose|k: int| is_last_placed(players, player_id, k);
        assert(is_last_placed(players, player_id, k));
        assert forall|j: int|
            k < j < players.len() && (#[trigger] players[j]).id == player_id implies players[j].position is None by {
            assert(!(players[j].id == player_id && players[j].position is Some));
        }
    } else {
        assert forall|k: int|
            0 <= k < players.len() && (#[trigger] players[k]).id == player_id implies players[k].position is None by {
            if players[k].position is Some {
                lemma_last_placed_exists(players, player_id, k);
            }
        }
    }
}

proof fn lemma_last_placed_exists(players: Seq<Player>, player_id: u32, j: int)
    requires
        0 <= j < players.len(),
        players[j].id == player_id,
        players[j].position is Some,
    ensures
        exists|k: int| is_last_placed(players, player_id, k),
    decreases players.len() - j,
{
    if exists|i: int| j < i < players.len() && players[i].id == player_id && players[i].position is Some {
        let i = choose|i: int|
            j < i < players.len() && players[i].id == player_id && players[i].position is Some;
        lemma_last_placed_exists(players, player_id, i);
    } else {
        assert(is_last_placed(players, player_id, j));
    }
}

/// A player is reported dead exactly when one of the listed entries with
/// exactly its id has no lives left; when all of them have lives it is not
/// dead, whatever other players' lives are.
pub proof fn lemma_dead_means_no_lives(players: Seq<Player>, player_id: u32)
    ensures
        is_dead_spec(players, player_id) <==> exists|k: int|
            0 <= k < players.len() && (#[trigger] players[k]).id == player_id
                && players[k].lives == 0,
        (forall|k: int|
            0 <= k < players.len() && (#[trigger] players[k]).id == player_id
                ==> players[k].lives > 0) ==> !is_dead_spec(players, player_id),
{
}

/// Once the dead are dropped, no player left is reported dead.
pub proof fn lemma_no_dead_after_prune(players: Seq<Player>, player_id: u32)
    ensures
        pruned(Some(players)) matches Some(qs) ==> !is_dead_spec(qs, player_id),
{
    broadcast use Seq::lemma_filter_pred;

    let qs = survivors(players);
    assert forall|k: int| 0 <= k < qs.len() implies (#[trigger] qs[k]).lives > 0 by {
        assert((|p: Player| p.lives > 0)(qs[k]));
    }
    lemma_dead_means_no_lives(qs, player_id);
}

} // verus!
