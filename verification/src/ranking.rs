//! The final ranking: the players in ascending order of score, so that the
//! winner comes last. Players with equal scores keep the order of their seats.

use crate::player::{views, Player, PlayerView};
use vstd::prelude::*;

verus! {

/// The player on seat `i` is ranked before the player on seat `j`: with
/// fewer points, or with as many points and an earlier seat.
pub open spec fn ranks_before(players: Seq<PlayerView>, i: int, j: int) -> bool {
    players[i].score < players[j].score || (players[i].score == players[j].score && i < j)
}

/// `order` lists the seats of `players` from the lowest rank to the highest:
/// every seat occurs in it, and each entry ranks before those after it.
pub open spec fn is_ranking_order(players: Seq<PlayerView>, order: Seq<int>) -> bool {
    &&& order.len() == players.len()
    &&& forall|k: int| 0 <= k < order.len() ==> 0 <= #[trigger] order[k] < players.len()
    &&& forall|seat: int| 0 <= seat < players.len() ==> #[trigger] order.contains(seat)
    &&& forall|k: int, l: int|
        0 <= k < l < order.len() ==> ranks_before(players, #[trigger] order[k], #[trigger] order[l])
}

/// The players taken in the order that `order` lists their seats in.
pub open spec fn arranged(players: Seq<PlayerView>, order: Seq<int>) -> Seq<PlayerView> {
    Seq::new(order.len(), |k: int| players[order[k]])
}

/// `after` holds the players of `before` in ranking order.
pub open spec fn is_ranking(before: Seq<PlayerView>, after: Seq<PlayerView>) -> bool {
    exists|order: Seq<int>|
        is_ranking_order(before, order) && #[trigger] arranged(before, order) == after
}

/// The players have only one ranking order.
pub proof fn lemma_ranking_order_unique(players: Seq<PlayerView>, a: Seq<int>, b: Seq<int>)
    requires
        is_ranking_order(players, a),
        is_ranking_order(players, b),
    ensures
        a == b,
{
    assert forall|k: int| 0 <= k < a.len() implies a[k] == b[k] by {
        lemma_agree_up_to(players, a, b, k);
    }
    assert(a =~= b);
}

/// Two ranking orders agree on position `k`, given that they agree before it.
proof fn lemma_agree_up_to(players: Seq<PlayerView>, a: Seq<int>, b: Seq<int>, k: int)
    requires
        is_ranking_order(players, a),
        is_ranking_order(players, b),
        0 <= k < a.len(),
    ensures
        a[k] == b[k],
    decreases k,
{
    assert forall|j: int| 0 <= j < k implies a[j] == b[j] by {
        lemma_agree_up_to(players, a, b, j);
    }
    if a[k] != b[k] {
        // Each of the two seats occurs in the other order, and only after `k`.
        assert(b.contains(a[k]));
        assert(a.contains(b[k]));
        let in_b: int = choose|m: int| 0 <= m < b.len() && b[m] == a[k];
        let in_a: int = choose|m: int| 0 <= m < a.len() && a[m] == b[k];
        if in_b < k {
            assert(ranks_before(players, a[in_b], a[k]));
        }
        if in_a < k {
            assert(ranks_before(players, b[in_a], b[k]));
        }
        assert(ranks_before(players, b[k], b[in_b]));
        assert(ranks_before(players, a[k], a[in_a]));
    }
}

/// A ranking is settled by the players and their seats: there is only one.
pub proof fn lemma_ranking_unique(before: Seq<PlayerView>, a: Seq<PlayerView>, b: Seq<PlayerView>)
    requires
        is_ranking(before, a),
        is_ranking(before, b),
    ensures
        a == b,
{
    let order_a: Seq<int> = choose|order: Seq<int>|
        is_ranking_order(before, order) && #[trigger] arranged(before, order) == a;
    let order_b: Seq<int> = choose|order: Seq<int>|
        is_ranking_order(before, order) && #[trigger] arranged(before, order) == b;
    lemma_ranking_order_unique(before, order_a, order_b);
}

/// A ranking holds the same players, each as often as before, in ascending
/// order of score: the last one has the highest score.
pub proof fn lemma_ranking_sorted(before: Seq<PlayerView>, after: Seq<PlayerView>)
    requires
        is_ranking(before, after),
    ensures
        after.len() == before.len(),
        forall|k: int, l: int| 0 <= k <= l < after.len() ==> after[k].score <= after[l].score,
        forall|seat: int| 0 <= seat < before.len() ==> #[trigger] after.contains(before[seat]),
        forall|k: int| 0 <= k < after.len() ==> #[trigger] before.contains(after[k]),
{
    let order: Seq<int> = choose|order: Seq<int>|
        is_ranking_order(before, order) && #[trigger] arranged(before, order) == after;
    assert forall|k: int, l: int| 0 <= k <= l < after.len() implies after[k].score
        <= after[l].score by {
        if k < l {
            assert(ranks_before(before, order[k], order[l]));
        }
    }
    assert forall|seat: int| 0 <= seat < before.len() implies #[trigger] after.contains(
        before[seat],
    ) by {
        assert(order.contains(seat));
        let k: int = choose|k: int| 0 <= k < order.len() && order[k] == seat;
        assert(after[k] == before[seat]);
    }
    assert forall|k: int| 0 <= k < after.len() implies #[trigger] before.contains(after[k]) by {
        assert(after[k] == before[order[k]]);
    }
}

/// Puts the players in ranking order: ascending by score, players with equal
/// scores in the order they had.
pub fn sort_by_score(players: &mut Vec<Player>)
    ensures
        is_ranking(views(old(players)@), views(final(players)@)),
{
    let ghost before: Seq<Player> = players@;
    let ghost mut order: Seq<int> = Seq::empty();
    let mut ranked: Vec<Player> = Vec::new();
    let n: usize = players.len();
    let mut taken: usize = 0;
    while taken < n
        invariant
            before.len() == n,
            taken <= n,
            players@ =~= before.subrange(taken as int, n as int),
            ranked@.len() == taken,
            order.len() == taken,
            forall|k: int|
                0 <= k < taken ==> {
                    &&& 0 <= #[trigger] order[k] < taken
                    &&& ranked@[k] == before[order[k]]
                },
            forall|seat: int| 0 <= seat < taken ==> #[trigger] order.contains(seat),
            forall|k: int, l: int|
                0 <= k < l < taken ==> ranks_before(
                    views(before),
                    #[trigger] order[k],
                    #[trigger] order[l],
                ),
        decreases n - taken,
    {
        let player: Player = players.remove(0);
        assert(player == before[taken as int]);
        let mut at: usize = ranked.len();
        while at > 0 && ranked[at - 1].score() > player.score()
            invariant
                at <= ranked@.len(),
                forall|k: int|
                    at <= k < ranked@.len() ==> (#[trigger] ranked@[k])@.score > player@.score,
            decreases at,
        {
            at -= 1;
        }
        proof {
            let seats: Seq<PlayerView> = views(before);
            let grown: Seq<int> = order.insert(at as int, taken as int);
            assert forall|k: int| 0 <= k < at implies ranks_before(
                seats,
                #[trigger] order[k],
                taken as int,
            ) by {
                if k < at - 1 {
                    assert(ranks_before(seats, order[k], order[at - 1]));
                }
                assert(ranked@[at - 1]@.score <= player@.score);
            }
            assert forall|k: int| at <= k < taken implies ranks_before(
                seats,
                taken as int,
                #[trigger] order[k],
            ) by {
                assert(ranked@[k]@.score > player@.score);
            }
            assert forall|seat: int| 0 <= seat < taken + 1 implies #[trigger] grown.contains(
                seat,
            ) by {
                if seat == taken {
                    assert(grown[at as int] == seat);
                } else {
                    assert(order.contains(seat));
                    let k: int = choose|k: int| 0 <= k < taken && order[k] == seat;
                    if k < at {
                        assert(grown[k] == seat);
                    } else {
                        assert(grown[k + 1] == seat);
                    }
                }
            }
            assert forall|k: int, l: int| 0 <= k < l < taken + 1 implies ranks_before(
                seats,
                #[trigger] grown[k],
                #[trigger] grown[l],
            ) by {
                let from_k: int = if k < at { k } else { k - 1 };
                let from_l: int = if l < at { l } else { l - 1 };
                if k != at && l != at {
                    assert(grown[k] == order[from_k]);
                    assert(grown[l] == order[from_l]);
                    assert(ranks_before(seats, order[from_k], order[from_l]));
                } else if k == at {
                    assert(grown[l] == order[from_l]);
                } else {
                    assert(grown[k] == order[from_k]);
                }
            }
            order = grown;
        }
        ranked.insert(at, player);
        taken += 1;
    }
    proof {
        assert(views(ranked@) =~= arranged(views(before), order));
        assert(is_ranking_order(views(before), order));
    }
    *players = ranked;
}

} // verus!
