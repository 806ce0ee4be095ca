//! Per-template queue of player groups.
//!
//! A queue is a FIFO of groups together with the set of players that were
//! ever pushed. A player waits in at most one group: pushing a group removes
//! every waiting group that shares a player with it.

use crate::group::{Group, GroupView};
use vstd::multiset::Multiset;
use vstd::prelude::*;

verus! {

/// A queue as plain values.
pub struct QueueView {
    /// The waiting groups, head first.
    pub fifo: Seq<GroupView>,
    /// The players that were pushed so far.
    pub members: Set<Seq<char>>,
}

/// The players of the groups of `fifo`, each as often as it occurs.
pub open spec fn waiting_players(fifo: Seq<GroupView>) -> Multiset<Seq<char>>
    decreases fifo.len(),
{
    if fifo.len() == 0 {
        Multiset::empty()
    } else {
        waiting_players(fifo.drop_last()).add(fifo.last().players.to_multiset())
    }
}

impl QueueView {
    /// The queue that nobody has entered yet.
    pub open spec fn empty() -> QueueView {
        QueueView { fifo: Seq::empty(), members: Set::empty() }
    }

    /// What holds of every queue: the member set is finite, every waiting
    /// player is a member, and no player waits in two groups.
    pub open spec fn wf(self) -> bool {
        &&& self.members.finite()
        &&& forall|i: int, p: Seq<char>|
            0 <= i < self.fifo.len() && #[trigger] self.fifo[i].players.contains(p)
                ==> self.members.contains(p)
        &&& forall|i: int, j: int|
            0 <= i < j < self.fifo.len() ==> !(#[trigger] self.fifo[i]).shares_player_with(
                #[trigger] self.fifo[j],
            )
    }

    /// The queue after `group` was pushed: the waiting groups that share no
    /// player with it, in their old order, then `group`; its players are
    /// members from now on.
    pub open spec fn push(self, group: GroupView) -> QueueView {
        QueueView {
            fifo: self.fifo.filter(|h: GroupView| !h.shares_player_with(group)).push(group),
            members: self.members.union(group.players.to_set()),
        }
    }

    /// The queue after its head left. Members stay members.
    pub open spec fn pop(self) -> QueueView {
        if self.fifo.len() == 0 {
            self
        } else {
            QueueView { fifo: self.fifo.drop_first(), members: self.members }
        }
    }

    /// Whether the waiting players, counted as often as they occur, are
    /// exactly the members.
    pub open spec fn balanced(self) -> bool {
        waiting_players(self.fifo) =~= Multiset::from_set(self.members)
    }

    /// Whether `group` takes over every group it displaces: each waiting
    /// group that shares a player with it has all its players in it.
    pub open spec fn absorbed_by(self, group: GroupView) -> bool {
        forall|i: int, p: Seq<char>|
            0 <= i < self.fifo.len() && (#[trigger] self.fifo[i]).shares_player_with(group)
                && #[trigger] self.fifo[i].players.contains(p) ==> group.players.contains(p)
    }
}

/// Pushing keeps a queue well formed.
pub proof fn lemma_push_preserves_wf(q: QueueView, group: GroupView)
    requires
        q.wf(),
    ensures
        q.push(group).wf(),
{
    let keep = |h: GroupView| !h.shares_player_with(group);
    let kept = q.fifo.filter(keep);
    let next = q.push(group);
    broadcast use vstd::seq_lib::group_filter_ensures;
    broadcast use vstd::seq_lib::seq_to_set_is_finite;

    lemma_filter_is_ordered_subsequence(q.fifo, keep);
    assert forall|i: int, p: Seq<char>|
        0 <= i < next.fifo.len() && #[trigger] next.fifo[i].players.contains(p) implies next.members.contains(
        p,
    ) by {
        if i < kept.len() {
            let k = choose|k: int| 0 <= k < q.fifo.len() && q.fifo[k] == kept[i];
            assert(q.fifo[k].players.contains(p));
        } else {
            assert(group.players.to_set().contains(p));
        }
    }
    assert forall|i: int, j: int| 0 <= i < j < next.fifo.len() implies !(#[trigger] next.fifo[i]).shares_player_with(
        #[trigger] next.fifo[j],
    ) by {
        if j < kept.len() {
            let (a, b) = choose|a: int, b: int|
                0 <= a < b < q.fifo.len() && q.fifo[a] == kept[i] && q.fifo[b] == kept[j];
            assert(!q.fifo[a].shares_player_with(q.fifo[b]));
        } else {
            assert(keep(kept[i]));
        }
    }
}

/// A filtered sequence holds elements of the sequence it was taken from, in
/// their old order.
proof fn lemma_filter_is_ordered_subsequence(s: Seq<GroupView>, keep: spec_fn(GroupView) -> bool)
    ensures
        forall|i: int|
            0 <= i < s.filter(keep).len() ==> keep(#[trigger] s.filter(keep)[i]) && exists|k: int|
                0 <= k < s.len() && s[k] == s.filter(keep)[i],
        forall|i: int, j: int|
            0 <= i < j < s.filter(keep).len() ==> exists|a: int, b: int|
                0 <= a < b < s.len() && s[a] == #[trigger] s.filter(keep)[i] && s[b]
                    == #[trigger] s.filter(keep)[j],
    decreases s.len(),
{
    reveal(Seq::filter);
    if s.len() > 0 {
        let front = s.drop_last();
        lemma_filter_is_ordered_subsequence(front, keep);
        let f = s.filter(keep);
        let ff = front.filter(keep);
        assert forall|i: int| 0 <= i < f.len() implies keep(#[trigger] f[i]) && exists|k: int|
            0 <= k < s.len() && s[k] == f[i] by {
            if i < ff.len() {
                let k = choose|k: int| 0 <= k < front.len() && front[k] == ff[i];
                assert(s[k] == f[i]);
            } else {
                assert(s[s.len() - 1] == f[i]);
            }
        }
        assert forall|i: int, j: int| 0 <= i < j < f.len() implies exists|a: int, b: int|
            0 <= a < b < s.len() && s[a] == #[trigger] f[i] && s[b] == #[trigger] f[j] by {
            if j < ff.len() {
                let (a, b) = choose|a: int, b: int|
                    0 <= a < b < front.len() && front[a] == ff[i] && front[b] == ff[j];
                assert(s[a] == f[i] && s[b] == f[j]);
            } else {
                let a = choose|k: int| 0 <= k < front.len() && front[k] == ff[i];
                assert(s[a] == f[i] && s[s.len() - 1] == f[j]);
            }
        }
    }
}

/// After `group` was pushed it stands last, and no group before it holds
/// any of its players.
pub proof fn lemma_push_displaces_shared_players(q: QueueView, group: GroupView)
    ensures
        q.push(group).fifo.len() > 0,
        q.push(group).fifo.last() == group,
        forall|i: int, p: Seq<char>|
            0 <= i < q.push(group).fifo.len() - 1 && group.players.contains(p)
                ==> !#[trigger] q.push(group).fifo[i].players.contains(p),
{
    let keep = |h: GroupView| !h.shares_player_with(group);
    let kept = q.fifo.filter(keep);
    lemma_filter_is_ordered_subsequence(q.fifo, keep);
    assert forall|i: int, p: Seq<char>|
        0 <= i < q.push(group).fifo.len() - 1 && group.players.contains(p)
        implies !#[trigger] q.push(group).fifo[i].players.contains(p) by {
        assert(q.push(group).fifo[i] == kept[i]);
        assert(keep(kept[i]));
    }
}

/// How often `p` waits in a filtered queue: as often as before where the
/// filter keeps every group that holds `p`, never where it keeps none of them.
proof fn lemma_waiting_count_filtered(
    fifo: Seq<GroupView>,
    keep: spec_fn(GroupView) -> bool,
    p: Seq<char>,
)
    ensures
        (forall|i: int| 0 <= i < fifo.len() && (#[trigger] fifo[i]).players.contains(p) ==> keep(fifo[i]))
            ==> waiting_players(fifo.filter(keep)).count(p) == waiting_players(fifo).count(p),
        (forall|i: int| 0 <= i < fifo.len() && (#[trigger] fifo[i]).players.contains(p) ==> !keep(fifo[i]))
            ==> waiting_players(fifo.filter(keep)).count(p) == 0,
    decreases fifo.len(),
{
    broadcast use vstd::multiset::group_multiset_axioms;
    broadcast use vstd::seq_lib::to_multiset_contains;

    reveal(Seq::filter);
    if fifo.len() > 0 {
        let front = fifo.drop_last();
        let last = fifo.last();
        lemma_waiting_count_filtered(front, keep, p);
        assert forall|i: int| 0 <= i < front.len() implies #[trigger] front[i] == fifo[i] by {}
        if keep(last) {
            assert(front.filter(keep).push(last).drop_last() =~= front.filter(keep));
        }
        if (forall|i: int| 0 <= i < fifo.len() && (#[trigger] fifo[i]).players.contains(p) ==> keep(fifo[i])) {
            assert forall|i: int| 0 <= i < front.len() && (#[trigger] front[i]).players.contains(
                p,
            ) implies keep(front[i]) by {
                assert(fifo[i].players.contains(p));
            }
            if !keep(last) {
                assert(!fifo[fifo.len() - 1].players.contains(p));
            }
        }
        if (forall|i: int| 0 <= i < fifo.len() && (#[trigger] fifo[i]).players.contains(p) ==> !keep(fifo[i])) {
            assert forall|i: int| 0 <= i < front.len() && (#[trigger] front[i]).players.contains(
                p,
            ) implies !keep(front[i]) by {
                assert(fifo[i].players.contains(p));
            }
            if keep(last) {
                assert(!fifo[fifo.len() - 1].players.contains(p));
            }
        }
    }
}

/// A queue that nobody has entered is balanced.
pub proof fn lemma_empty_is_balanced()
    ensures
        QueueView::empty().wf(),
        QueueView::empty().balanced(),
{
    broadcast use vstd::multiset::group_multiset_axioms;

    let members = Set::<Seq<char>>::empty();
    let counts = Map::<Seq<char>, nat>::new(|k: Seq<char>| members.contains(k), |v: Seq<char>| 1nat);
    assert(counts.dom() =~= members);
    assert(waiting_players(Seq::<GroupView>::empty()) =~= Multiset::from_set(members));
}

/// A push keeps a balanced queue balanced when the group names no player
/// twice and takes over every group it displaces. So after any sequence of
/// such pushes onto a new queue, the players that wait, counted as often as
/// they occur, are exactly the members.
pub proof fn lemma_push_preserves_balance(q: QueueView, group: GroupView)
    requires
        q.wf(),
        q.balanced(),
        group.players.no_duplicates(),
        q.absorbed_by(group),
    ensures
        q.push(group).balanced(),
{
    broadcast use vstd::multiset::group_multiset_axioms;
    broadcast use vstd::seq_lib::to_multiset_contains;
    broadcast use vstd::seq_lib::seq_to_set_is_finite;

    let keep = |h: GroupView| !h.shares_player_with(group);
    let kept = q.fifo.filter(keep);
    let next = q.push(group);
    let old_counts = Map::<Seq<char>, nat>::new(|k: Seq<char>| q.members.contains(k), |v: Seq<char>| 1nat);
    let new_counts = Map::<Seq<char>, nat>::new(
        |k: Seq<char>| next.members.contains(k),
        |v: Seq<char>| 1nat,
    );
    assert(old_counts.dom() =~= q.members);
    assert(new_counts.dom() =~= next.members);
    assert(next.fifo.drop_last() =~= kept);
    group.players.lemma_multiset_has_no_duplicates();
    assert forall|p: Seq<char>|
        waiting_players(next.fifo).count(p) == Multiset::from_set(next.members).count(p) by {
        lemma_waiting_count_filtered(q.fifo, keep, p);
        if group.players.contains(p) {
            assert forall|i: int| 0 <= i < q.fifo.len() && (#[trigger] q.fifo[i]).players.contains(
                p,
            ) implies !keep(q.fifo[i]) by {}
            assert(group.players.to_set().contains(p));
        } else {
            assert forall|i: int| 0 <= i < q.fifo.len() && (#[trigger] q.fifo[i]).players.contains(
                p,
            ) implies keep(q.fifo[i]) by {}
            assert(waiting_players(q.fifo).count(p) == Multiset::from_set(q.members).count(p));
        }
    }
}

/// The groups of a vector as plain values.
pub open spec fn group_views(groups: Seq<Group>) -> Seq<GroupView> {
    groups.map_values(|g: Group| g@)
}

/// The strings of a vector as plain values.
pub open spec fn string_views(strings: Seq<String>) -> Seq<Seq<char>> {
    strings.map_values(|s: String| s@)
}

/// Whether `h` holds none of the first `k` of `players`.
spec fn avoids_prefix(h: GroupView, players: Seq<Seq<char>>, k: int) -> bool {
    forall|j: int| 0 <= j < k ==> !h.players.contains(#[trigger] players[j])
}

/// Filters that agree on every element of a sequence select the same elements.
proof fn lemma_filter_agree(
    s: Seq<GroupView>,
    f: spec_fn(GroupView) -> bool,
    g: spec_fn(GroupView) -> bool,
)
    requires
        forall|i: int| 0 <= i < s.len() ==> f(#[trigger] s[i]) == g(s[i]),
    ensures
        s.filter(f) == s.filter(g),
    decreases s.len(),
{
    reveal(Seq::filter);
    if s.len() > 0 {
        lemma_filter_agree(s.drop_last(), f, g);
    }
}

/// A filter that every element passes changes nothing.
proof fn lemma_filter_keeps_all(s: Seq<GroupView>, f: spec_fn(GroupView) -> bool)
    requires
        forall|i: int| 0 <= i < s.len() ==> f(#[trigger] s[i]),
    ensures
        s.filter(f) == s,
    decreases s.len(),
{
    reveal(Seq::filter);
    if s.len() > 0 {
        lemma_filter_keeps_all(s.drop_last(), f);
        assert(s.drop_last().push(s.last()) =~= s);
    }
}

/// Filtering twice is filtering once by both conditions.
proof fn lemma_filter_twice(
    s: Seq<GroupView>,
    f: spec_fn(GroupView) -> bool,
    g: spec_fn(GroupView) -> bool,
)
    ensures
        s.filter(f).filter(g) == s.filter(|h: GroupView| f(h) && g(h)),
    decreases s.len(),
{
    reveal(Seq::filter);
    let both = |h: GroupView| f(h) && g(h);
    if s.len() > 0 {
        let front = s.drop_last();
        lemma_filter_twice(front, f, g);
        if f(s.last()) {
            front.filter(f).lemma_filter_push(s.last(), g);
        }
    }
}

/// Removes from `fifo` every group that holds `player`, keeping the order
/// of the others.
fn drop_groups_with(fifo: &mut Vec<Group>, player: &String)
    ensures
        group_views(final(fifo)@) == group_views(old(fifo)@).filter(
            |h: GroupView| !h.players.contains(player@),
        ),
{
    let ghost before = group_views(fifo@);
    let ghost keep = |h: GroupView| !h.players.contains(player@);
    let ghost seen: int = 0;
    let mut i: usize = 0;
    proof {
        reveal(Seq::filter);
        assert(before.take(0) =~= Seq::<GroupView>::empty());
        assert(group_views(fifo@).take(0) =~= Seq::<GroupView>::empty());
        assert(before.skip(0) =~= before);
        assert(group_views(fifo@).skip(0) =~= group_views(fifo@));
    }
    while i < fifo.len()
        invariant
            i <= fifo@.len(),
            0 <= seen <= before.len(),
            seen - i == before.len() - fifo@.len(),
            keep == (|h: GroupView| !h.players.contains(player@)),
            group_views(fifo@).take(i as int) == before.take(seen).filter(keep),
            group_views(fifo@).skip(i as int) == before.skip(seen),
        decreases fifo@.len() - i,
    {
        let ghost current = group_views(fifo@);
        proof {
            assert(current.skip(i as int)[0] == before.skip(seen)[0]);
            assert(before.take(seen + 1) =~= before.take(seen).push(before[seen]));
            before.take(seen).lemma_filter_push(before[seen], keep);
            assert(current[i as int] == fifo@[i as int]@);
        }
        if fifo[i].contains(player) {
            let _ = fifo.remove(i);
            proof {
                assert(group_views(fifo@).take(i as int) =~= current.take(i as int));
                assert(group_views(fifo@).skip(i as int) =~= current.skip(i as int).skip(1));
                assert(before.skip(seen + 1) =~= before.skip(seen).skip(1));
                seen = seen + 1;
            }
        } else {
            proof {
                assert(current.take(i + 1) =~= current.take(i as int).push(current[i as int]));
                assert(current.skip(i + 1) =~= current.skip(i as int).skip(1));
                assert(before.skip(seen + 1) =~= before.skip(seen).skip(1));
                seen = seen + 1;
            }
            i += 1;
        }
    }
    proof {
        assert(group_views(fifo@).take(i as int) =~= group_views(fifo@));
        assert(before.take(seen) =~= before);
    }
}

/// Decides whether `player` is one of `members`.
fn is_member(members: &Vec<String>, player: &String) -> (found: bool)
    ensures
        found == string_views(members@).to_set().contains(player@),
{
    let mut i: usize = 0;
    while i < members.len()
        invariant
            i <= members@.len(),
            forall|k: int| 0 <= k < i ==> string_views(members@)[k] != player@,
        decreases members@.len() - i,
    {
        if members[i] == *player {
            assert(string_views(members@)[i as int] == player@);
            return true;
        }
        i += 1;
    }
    false
}

/// A FIFO of player groups in which a player waits at most once.
pub struct Queue {
    queue: Vec<Group>,
    in_queue: Vec<String>,
}

impl View for Queue {
    type V = QueueView;

    closed spec fn view(&self) -> QueueView {
        QueueView {
            fifo: group_views(self.queue@),
            members: string_views(self.in_queue@).to_set(),
        }
    }
}

impl Queue {
    #[verifier::type_invariant]
    spec fn inv(&self) -> bool {
        self@.wf() && string_views(self.in_queue@).no_duplicates()
    }

    /// A queue that nobody has entered yet.
    pub fn new() -> (q: Self)
        ensures
            q@ == QueueView::empty(),
            q@.wf(),
    {
        let q = Queue { queue: Vec::new(), in_queue: Vec::new() };
        proof {
            assert(q@.fifo =~= Seq::<GroupView>::empty());
            assert(q@.members =~= Set::<Seq<char>>::empty());
        }
        q
    }

    /// Appends `group`, after removing every waiting group that shares a
    /// player with it.
    pub fn push(&mut self, group: Group)
        ensures
            final(self)@ == old(self)@.push(group@),
            final(self)@.wf(),
    {
        proof {
            use_type_invariant(&*self);
        }
        let ghost before = self@;
        let ghost players = group@.players;
        let mut fifo: Vec<Group> = Vec::new();
        let mut members: Vec<String> = Vec::new();
        std::mem::swap(&mut fifo, &mut self.queue);
        std::mem::swap(&mut members, &mut self.in_queue);
        let mut k: usize = 0;
        proof {
            lemma_filter_keeps_all(before.fifo, |h: GroupView| avoids_prefix(h, players, 0));
            assert(players.take(0).to_set() =~= Set::<Seq<char>>::empty());
            assert(before.members.union(Set::<Seq<char>>::empty()) =~= before.members);
        }
        while k < group.players.len()
            invariant
                k <= group.players@.len(),
                players == group@.players,
                before.wf(),
                group_views(fifo@) == before.fifo.filter(
                    |h: GroupView| avoids_prefix(h, players, k as int),
                ),
                string_views(members@).to_set() == before.members.union(
                    players.take(k as int).to_set(),
                ),
                string_views(members@).no_duplicates(),
            decreases group.players@.len() - k,
        {
            let player = &group.players[k];
            let ghost seen = |h: GroupView| avoids_prefix(h, players, k as int);
            let ghost next = |h: GroupView| avoids_prefix(h, players, k + 1);
            let ghost without = |h: GroupView| !h.players.contains(player@);
            proof {
                assert(player@ == players[k as int]);
                assert(players.take(k + 1) =~= players.take(k as int).push(player@));
                players.take(k as int).lemma_push_to_set_commute(player@);
                assert forall|i: int| 0 <= i < before.fifo.len() implies next(
                    #[trigger] before.fifo[i],
                ) == (seen(before.fifo[i]) && without(before.fifo[i])) by {
                    let h = before.fifo[i];
                    if seen(h) && without(h) {
                        assert forall|j: int| 0 <= j < k + 1 implies !h.players.contains(
                            #[trigger] players[j],
                        ) by {}
                    }
                    if next(h) {
                        assert(!h.players.contains(players[k as int]));
                    }
                }
            }
            if is_member(&members, player) {
                drop_groups_with(&mut fifo, player);
                proof {
                    lemma_filter_twice(before.fifo, seen, without);
                    lemma_filter_agree(before.fifo, |h: GroupView| seen(h) && without(h), next);
                    assert(string_views(members@).to_set().insert(player@) =~= string_views(
                        members@,
                    ).to_set());
                }
            } else {
                proof {
                    assert(!before.members.contains(player@));
                    assert forall|i: int| 0 <= i < before.fifo.len() implies seen(
                        #[trigger] before.fifo[i],
                    ) == next(before.fifo[i]) by {
                        assert(!before.fifo[i].players.contains(player@));
                    }
                    lemma_filter_agree(before.fifo, seen, next);
                }
                let ghost old_members = string_views(members@);
                members.push(player.clone());
                proof {
                    assert(string_views(members@) =~= old_members.push(player@));
                    old_members.lemma_push_to_set_commute(player@);
                }
            }
            k += 1;
        }
        proof {
            assert(players.take(k as int) =~= players);
            assert forall|i: int| 0 <= i < before.fifo.len() implies avoids_prefix(
                #[trigger] before.fifo[i],
                players,
                k as int,
            ) == !before.fifo[i].shares_player_with(group@) by {
                let h = before.fifo[i];
                if h.shares_player_with(group@) {
                    let p = choose|p: Seq<char>| h.players.contains(p) && players.contains(p);
                    let j = choose|j: int| 0 <= j < players.len() && players[j] == p;
                    assert(h.players.contains(players[j]));
                }
                if !avoids_prefix(h, players, k as int) {
                    let j = choose|j: int| 0 <= j < k && h.players.contains(#[trigger] players[j]);
                    assert(players.contains(players[j]));
                }
            }
            lemma_filter_agree(
                before.fifo,
                |h: GroupView| avoids_prefix(h, players, k as int),
                |h: GroupView| !h.shares_player_with(group@),
            );
            lemma_push_preserves_wf(before, group@);
        }
        let ghost kept = group_views(fifo@);
        fifo.push(group);
        proof {
            assert(group_views(fifo@) =~= kept.push(group@));
        }
        self.in_queue = members;
        self.queue = fifo;
    }

    /// Removes the head of the queue and returns it; `None` when nobody
    /// waits. The players of the group stay members.
    pub fn pop(&mut self) -> (head: Option<Group>)
        ensures
            final(self)@ == old(self)@.pop(),
            final(self)@.wf(),
            match head {
                Some(group) => old(self)@.fifo.len() > 0 && group@ == old(self)@.fifo.first(),
                None => old(self)@.fifo.len() == 0,
            },
    {
        proof {
            use_type_invariant(&*self);
        }
        if self.queue.len() == 0 {
            return None;
        }
        let ghost before = self@;
        let mut fifo: Vec<Group> = Vec::new();
        std::mem::swap(&mut fifo, &mut self.queue);
        let group = fifo.remove(0);
        proof {
            assert(group_views(fifo@) =~= before.fifo.drop_first());
            assert(group@ == before.fifo[0]);
            assert forall|i: int, j: int| 0 <= i < j < before.pop().fifo.len() implies !(
            #[trigger] before.pop().fifo[i]).shares_player_with(
                #[trigger] before.pop().fifo[j],
            ) by {
                assert(!before.fifo[i + 1].shares_player_with(before.fifo[j + 1]));
            }
            assert forall|i: int, p: Seq<char>|
                0 <= i < before.pop().fifo.len() && #[trigger] before.pop().fifo[i].players.contains(
                    p,
                ) implies before.members.contains(p) by {
                assert(before.fifo[i + 1].players.contains(p));
            }
        }
        self.queue = fifo;
        Some(group)
    }

    /// The head of the queue, left in place; `None` when nobody waits.
    pub fn peek(&self) -> (head: Option<&Group>)
        ensures
            match head {
                Some(group) => self@.fifo.len() > 0 && group@ == self@.fifo.first(),
                None => self@.fifo.len() == 0,
            },
    {
        if self.queue.len() == 0 {
            None
        } else {
            Some(&self.queue[0])
        }
    }

    /// Whether `player` was ever pushed.
    pub fn has_member(&self, player: &str) -> (member: bool)
        ensures
            member == self@.members.contains(player@),
    {
        let name = String::from_str(player);
        is_member(&self.in_queue, &name)
    }

    /// The number of players that were ever pushed.
    pub fn member_count(&self) -> (n: usize)
        ensures
            n == self@.members.len(),
    {
        proof {
            use_type_invariant(&*self);
            string_views(self.in_queue@).unique_seq_to_set();
        }
        self.in_queue.len()
    }

    /// The number of waiting groups.
    pub fn len(&self) -> (n: usize)
        ensures
            n == self@.fifo.len(),
    {
        self.queue.len()
    }

    /// Whether no group waits.
    pub fn is_empty(&self) -> (empty: bool)
        ensures
            empty == (self@.fifo.len() == 0),
    {
        self.queue.len() == 0
    }
}

} // verus!
