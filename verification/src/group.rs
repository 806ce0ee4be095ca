//! Groups of players that travel together.

use vstd::prelude::*;

verus! {

/// Players who are routed to an instance together, and the queue they wait in.
#[derive(Debug, Clone)]
pub struct Group {
    pub players: Vec<String>,
    pub queue: String,
}

/// A group as plain values.
pub struct GroupView {
    /// The identifiers of the players, in order.
    pub players: Seq<Seq<char>>,
    /// The name of the queue the group waits in.
    pub queue: Seq<char>,
}

impl View for Group {
    type V = GroupView;

    open spec fn view(&self) -> GroupView {
        GroupView { players: self.player_ids(), queue: self.queue@ }
    }
}

impl GroupView {
    /// Whether the two groups have a player in common.
    pub open spec fn shares_player_with(self, other: GroupView) -> bool {
        exists|p: Seq<char>| self.players.contains(p) && other.players.contains(p)
    }
}

impl Group {
    /// The identifiers of the group's players, in order.
    pub open spec fn player_ids(&self) -> Seq<Seq<char>> {
        self.players@.map_values(|p: String| p@)
    }

    /// Whether `player` is one of the group's players.
    pub open spec fn has_player(&self, player: Seq<char>) -> bool {
        self.player_ids().contains(player)
    }

    /// The number of players in the group.
    pub open spec fn size(&self) -> nat {
        self.players@.len()
    }

    /// Decides whether `player` is one of the group's players.
    pub fn contains(&self, player: &String) -> (found: bool)
        ensures
            found == self.has_player(player@),
    {
        let mut i: usize = 0;
        while i < self.players.len()
            invariant
                i <= self.players@.len(),
                forall|k: int| 0 <= k < i ==> self.player_ids()[k] != player@,
            decreases self.players@.len() - i,
        {
            if self.players[i] == *player {
                assert(self.player_ids()[i as int] == player@);
                return true;
            }
            i += 1;
        }
        false
    }
}

} // verus!
