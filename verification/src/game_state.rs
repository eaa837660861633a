use vstd::prelude::*;

use crate::seq_facts::lemma_filter_all;

verus! {

/// A player of the shared game state: its id, its name and its position on
/// the floor plane, given as the bit patterns of two `f32` values.
#[derive(Debug)]
pub struct Player {
    pub id: u32,
    pub username: String,
    pub position: (u32, u32),
}

impl Clone for Player {
    fn clone(&self) -> (res: Self)
        ensures
            res == *self,
    {
        Player { id: self.id, username: self.username.clone(), position: self.position }
    }
}

/// The shared game state: the players, in the order in which they joined.
#[derive(Debug)]
pub struct GameState {
    pub players: Vec<Player>,
}

/// The players that remain once every player with the given id is removed.
pub open spec fn without_player(players: Seq<Player>, player_id: u32) -> Seq<Player> {
    players.filter(|p: Player| p.id != player_id)
}

/// Whether `k` is the first index of a player with the given id.
pub open spec fn is_first_with_id(players: Seq<Player>, player_id: u32, k: int) -> bool {
    &&& 0 <= k < players.len()
    &&& players[k].id == player_id
    &&& forall|j: int| 0 <= j < k ==> players[j].id != player_id
}

/// Whether some player has the given id.
pub open spec fn has_player(players: Seq<Player>, player_id: u32) -> bool {
    exists|j: int| 0 <= j < players.len() && players[j].id == player_id
}

/// The players once the first player with the given id has been moved to
/// `position`; unchanged when no player has that id.
pub open spec fn with_position(players: Seq<Player>, player_id: u32, position: (u32, u32)) -> Seq<
    Player,
> {
    if has_player(players, player_id) {
        let k = choose|k: int| is_first_with_id(players, player_id, k);
        players.update(k, Player { position, ..players[k] })
    } else {
        players
    }
}

proof fn lemma_first_unique(players: Seq<Player>, player_id: u32, a: int, b: int)
    requires
        is_first_with_id(players, player_id, a),
        is_first_with_id(players, player_id, b),
    ensures
        a == b,
{
}

impl GameState {
    /// An empty game.
    pub fn new() -> (gs: Self)
        ensures
            gs.players@ == Seq::<Player>::empty(),
    {
        GameState { players: Vec::new() }
    }

    /// Appends a player.
    pub fn add_player(&mut self, player: Player)
        ensures
            final(self).players@ == old(self).players@.push(player),
    {
        self.players.push(player);
    }

    /// Removes every player with the given id, keeping the others in order.
    pub fn remove_player(&mut self, player_id: u32)
        ensures
            final(self).players@ == without_player(old(self).players@, player_id),
            forall|i: int|
                0 <= i < old(self).players@.len() && (#[trigger] old(self).players@[i]).id
                    != player_id ==> final(self).players@.contains(old(self).players@[i]),
            forall|i: int|
                0 <= i < final(self).players@.len() ==> (#[trigger] final(self).players@[i]).id
                    != player_id,
            final(self).players@.len() + count_with_id(old(self).players@, player_id) == old(
                self,
            ).players@.len(),
    {
        proof {
            lemma_remove_keeps_others(old(self).players@, player_id);
        }
        let ghost pred = |p: Player| p.id != player_id;
        let mut kept: Vec<Player> = Vec::new();
        let mut i: usize = 0;
        while i < self.players.len()
            invariant
                i <= self.players.len(),
                self.players@ == old(self).players@,
                pred == (|p: Player| p.id != player_id),
                kept@ == self.players@.subrange(0, i as int).filter(pred),
            decreases self.players.len() - i,
        {
            proof {
                reveal(Seq::filter);
                assert(self.players@.subrange(0, i + 1).drop_last() =~= self.players@.subrange(
                    0,
                    i as int,
                ));
            }
            if self.players[i].id != player_id {
                kept.push(self.players[i].clone());
            }
            i = i + 1;
        }
        proof {
            assert(self.players@.subrange(0, i as int) =~= self.players@);
        }
        self.players = kept;
    }

    /// Moves the first player with the given id to `position`; does nothing
    /// when no player has that id.
    pub fn update_player_position(&mut self, player_id: u32, position: (u32, u32))
        ensures
            final(self).players@ == with_position(old(self).players@, player_id, position),
    {
        let mut i: usize = 0;
        while i < self.players.len()
            invariant
                i <= self.players.len(),
                self.players@ == old(self).players@,
                forall|j: int| 0 <= j < i ==> self.players@[j].id != player_id,
            decreases self.players.len() - i,
        {
            if self.players[i].id == player_id {
                let mut moved = self.players[i].clone();
                moved.position = position;
                proof {
                    let k = choose|k: int| is_first_with_id(old(self).players@, player_id, k);
                    assert(is_first_with_id(old(self).players@, player_id, i as int));
                    lemma_first_unique(old(self).players@, player_id, k, i as int);
                }
                self.players.set(i, moved);
                return;
            }
            i = i + 1;
        }
    }
}

/// Removing a player that was just added removes it and nothing else: the
/// players are those there were before, without that id.
pub proof fn lemma_remove_after_add(players: Seq<Player>, player: Player)
    ensures
        without_player(players.push(player), player.id) == without_player(players, player.id),
{
    reveal(Seq::filter);
    assert(players.push(player).drop_last() =~= players);
}

/// After a removal no player has the removed id.
pub proof fn lemma_removed_is_gone(players: Seq<Player>, player_id: u32)
    ensures
        !has_player(without_player(players, player_id), player_id),
{
    broadcast use Seq::lemma_filter_pred;

    let rest = without_player(players, player_id);
    if has_player(rest, player_id) {
        let j = choose|j: int| 0 <= j < rest.len() && rest[j].id == player_id;
        assert((|p: Player| p.id != player_id)(rest[j]));
    }
}

/// Removing the same id twice is the same as removing it once.
pub proof fn lemma_remove_idempotent(players: Seq<Player>, player_id: u32)
    ensures
        without_player(without_player(players, player_id), player_id) == without_player(
            players,
            player_id,
        ),
{
    broadcast use Seq::lemma_filter_pred;

    let pred = |p: Player| p.id != player_id;
    let once = players.filter(pred);
    assert forall|i: int| 0 <= i < once.len() implies pred(#[trigger] once[i]) by {}
    lemma_filter_all(once, pred);
}

/// Moving a player keeps every player's id and name and the number of
/// players; when a player has the id, the first such player is now at the
/// new position.
pub proof fn lemma_update_keeps_players(players: Seq<Player>, player_id: u32, position: (u32, u32))
    ensures
        with_position(players, player_id, position).len() == players.len(),
        forall|i: int|
            0 <= i < players.len() ==> (#[trigger] with_position(players, player_id, position)[i]).id
                == players[i].id && with_position(players, player_id, position)[i].username
                == players[i].username,
        has_player(players, player_id) ==> with_position(players, player_id, position)[choose|
            k: int,
        | is_first_with_id(players, player_id, k)].position == position,
{
    if has_player(players, player_id) {
        let j = choose|j: int| 0 <= j < players.len() && players[j].id == player_id;
        lemma_first_exists(players, player_id, j);
    }
}

/// When some player has the id, there is a first one.
proof fn lemma_first_exists(players: Seq<Player>, player_id: u32, j: int)
    requires
        0 <= j < players.len(),
        players[j].id == player_id,
    ensures
        exists|k: int| is_first_with_id(players, player_id, k),
    decreases j,
{
    if exists|i: int| 0 <= i < j && players[i].id == player_id {
        let i = choose|i: int| 0 <= i < j && players[i].id == player_id;
        lemma_first_exists(players, player_id, i);
    } else {
        assert(is_first_with_id(players, player_id, j));
    }
}

/// How many players have the given id.
pub open spec fn count_with_id(players: Seq<Player>, player_id: u32) -> nat
    decreases players.len(),
{
    if players.len() == 0 {
        0
    } else {
        count_with_id(players.drop_last(), player_id) + if players.last().id == player_id {
            1nat
        } else {
            0nat
        }
    }
}

/// A removal keeps every player whose id differs from the removed one and
/// drops exactly the players with that id: every other player is still
/// there, no player with the id is, and the players lost are as many as had
/// the id. Removing an id that nobody has changes nothing.
pub proof fn lemma_remove_keeps_others(players: Seq<Player>, player_id: u32)
    ensures
        forall|i: int|
            0 <= i < players.len() && (#[trigger] players[i]).id != player_id ==> without_player(
                players,
                player_id,
            ).contains(players[i]),
        forall|i: int|
            0 <= i < without_player(players, player_id).len() ==> (#[trigger] without_player(
                players,
                player_id,
            )[i]).id != player_id,
        without_player(players, player_id).len() + count_with_id(players, player_id)
            == players.len(),
        !has_player(players, player_id) ==> without_player(players, player_id) == players,
    decreases players.len(),
{
    broadcast use Seq::lemma_filter_pred, Seq::lemma_filter_contains;

    let pred = |p: Player| p.id != player_id;
    let w = without_player(players, player_id);
    assert forall|i: int| 0 <= i < players.len() && (#[trigger] players[i]).id != player_id implies w.contains(
        players[i],
    ) by {
        assert(pred(players[i]));
    }
    assert forall|i: int| 0 <= i < w.len() implies (#[trigger] w[i]).id != player_id by {
        assert(pred(w[i]));
    }
    reveal(Seq::filter);
    if players.len() > 0 {
        lemma_remove_keeps_others(players.drop_last(), player_id);
    }
    if !has_player(players, player_id) {
        assert forall|i: int| 0 <= i < players.len() implies pred(#[trigger] players[i]) by {}
        lemma_filter_all(players, pred);
    }
}

} // verus!
