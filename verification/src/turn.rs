//! Whose turn it is: the players sit in a ring, and the turn passes to the
//! next player who is still in the game.

use crate::player::{views, Player, PlayerView};
use vstd::arithmetic::div_mod::{lemma_fundamental_div_mod, lemma_fundamental_div_mod_converse};
use vstd::prelude::*;

verus! {

/// The seat reached from seat `idx` by `steps + 1` moves round a ring of `n` seats.
pub open spec fn seat_after(n: int, idx: int, steps: int) -> int {
    (idx + 1 + steps) % n
}

/// No player is in the game any more.
pub open spec fn no_one_active(players: Seq<PlayerView>) -> bool {
    forall|i: int| 0 <= i < players.len() ==> !(#[trigger] players[i]).active
}

/// `next` is the first active player met when going round the ring from the
/// seat after `idx`; the round ends with seat `idx` itself.
pub open spec fn is_next_active(players: Seq<PlayerView>, idx: int, next: int) -> bool {
    exists|steps: int|
        {
            &&& 0 <= steps < players.len()
            &&& #[trigger] seat_after(players.len() as int, idx, steps) == next
            &&& players[next].active
            &&& forall|earlier: int|
                0 <= earlier < steps ==> !players[#[trigger] seat_after(
                    players.len() as int,
                    idx,
                    earlier,
                )].active
        }
}

/// `next` is who plays after `current`: nobody once the game is over or when
/// every player has left, else the next active player round the ring.
pub open spec fn is_next_turn(
    players: Seq<PlayerView>,
    current: Option<usize>,
    next: Option<usize>,
) -> bool {
    match next {
        Some(j) => current is Some && j < players.len() && is_next_active(
            players,
            current->0 as int,
            j as int,
        ),
        None => current is None || no_one_active(players),
    }
}

/// Moving one seat on from `x` lands on the seat after `x % n`, or on seat 0
/// from the last seat.
pub proof fn lemma_next_seat(x: int, n: int)
    requires
        n > 0,
    ensures
        0 <= x % n < n,
        (x + 1) % n == if x % n == n - 1 {
            0
        } else {
            x % n + 1
        },
{
    lemma_fundamental_div_mod(x, n);
    let q: int = x / n;
    let r: int = x % n;
    if r == n - 1 {
        assert(x + 1 == (q + 1) * n + 0) by (nonlinear_arith)
            requires
                x == n * q + r,
                r == n - 1,
        ;
        lemma_fundamental_div_mod_converse(x + 1, n, q + 1, 0);
    } else {
        assert(x + 1 == q * n + (r + 1)) by (nonlinear_arith)
            requires
                x == n * q + r,
        ;
        lemma_fundamental_div_mod_converse(x + 1, n, q, r + 1);
    }
}

/// A full round from any seat passes every seat of the ring.
pub proof fn lemma_round_reaches(n: int, idx: int, seat: int)
    requires
        0 <= seat < n,
    ensures
        0 <= (seat - idx - 1) % n < n,
        seat_after(n, idx, (seat - idx - 1) % n) == seat,
{
    let x: int = seat - idx - 1;
    lemma_fundamental_div_mod(x, n);
    let q: int = x / n;
    let steps: int = x % n;
    assert(idx + 1 + steps == (-q) * n + seat) by (nonlinear_arith)
        requires
            x == n * q + steps,
            x == seat - idx - 1,
    ;
    lemma_fundamental_div_mod_converse(idx + 1 + steps, n, -q, seat);
}

/// The index of the player whose turn comes after `current_idx`.
///
/// The search starts at the seat after `current_idx` and goes once round the
/// ring, so that a player who alone is left keeps the turn. There is no next
/// player when `current_idx` is `None`, and none when every player has left.
pub fn next_player_idx(players: &[Player], current_idx: Option<usize>) -> (next: Option<usize>)
    ensures
        is_next_turn(views(players@), current_idx, next),
{
    let idx: usize = match current_idx {
        Some(idx) => idx,
        None => { return None; },
    };
    let n: usize = players.len();
    if n == 0 {
        return None;
    }
    let before: usize = idx % n;
    let mut seat: usize = if before + 1 == n {
        0
    } else {
        before + 1
    };
    let mut steps: usize = 0;
    proof {
        lemma_next_seat(idx as int, n as int);
    }
    while steps < n
        invariant
            current_idx == Some(idx),
            n == players.len(),
            0 < n,
            steps <= n,
            seat < n,
            seat == seat_after(n as int, idx as int, steps as int),
            forall|earlier: int|
                0 <= earlier < steps ==> !views(players@)[#[trigger] seat_after(
                    n as int,
                    idx as int,
                    earlier,
                )].active,
        decreases n - steps,
    {
        if players[seat].active() {
            proof {
                let seated: Seq<PlayerView> = views(players@);
                assert(seated.len() == n);
                assert(seat_after(seated.len() as int, idx as int, steps as int) == seat);
                assert(seated[seat as int].active);
                assert(is_next_active(seated, idx as int, seat as int));
            }
            return Some(seat);
        }
        proof {
            lemma_next_seat(idx + 1 + steps, n as int);
        }
        seat = if seat + 1 == n {
            0
        } else {
            seat + 1
        };
        steps += 1;
    }
    proof {
        assert forall|i: int| 0 <= i < n implies !(#[trigger] views(players@)[i]).active by {
            lemma_round_reaches(n as int, idx as int, i);
        }
    }
    None
}

/// For each player, whether the player's controls are switched off: those of
/// every player but the one whose turn it is.
pub fn disable_other_players(
    players: &[Player],
    current_idx: Option<usize>,
) -> (disabled: Vec<bool>)
    ensures
        disabled@.len() == players@.len(),
        forall|i: int|
            0 <= i < players@.len() ==> (#[trigger] disabled@[i] == (current_idx != Some(
                i as usize,
            ))),
{
    let mut disabled: Vec<bool> = Vec::new();
    let mut i: usize = 0;
    while i < players.len()
        invariant
            i <= players.len(),
            disabled@.len() == i,
            forall|j: int|
                0 <= j < i ==> (#[trigger] disabled@[j] == (current_idx != Some(j as usize))),
        decreases players.len() - i,
    {
        let mine: bool = match current_idx {
            Some(idx) => idx == i,
            None => false,
        };
        disabled.push(!mine);
        i += 1;
    }
    disabled
}

/// At most one player can be next.
pub proof fn lemma_next_turn_unique(
    players: Seq<PlayerView>,
    current: Option<usize>,
    a: Option<usize>,
    b: Option<usize>,
)
    requires
        is_next_turn(players, current, a),
        is_next_turn(players, current, b),
    ensures
        a == b,
{
    let n: int = players.len() as int;
    if a is Some && b is Some {
        let idx: int = current->0 as int;
        let sa: int = choose|steps: int|
            {
                &&& 0 <= steps < players.len()
                &&& #[trigger] seat_after(n, idx, steps) == a->0 as int
                &&& players[a->0 as int].active
                &&& forall|earlier: int|
                    0 <= earlier < steps ==> !players[#[trigger] seat_after(n, idx, earlier)].active
            };
        let sb: int = choose|steps: int|
            {
                &&& 0 <= steps < players.len()
                &&& #[trigger] seat_after(n, idx, steps) == b->0 as int
                &&& players[b->0 as int].active
                &&& forall|earlier: int|
                    0 <= earlier < steps ==> !players[#[trigger] seat_after(n, idx, earlier)].active
            };
        if sa < sb {
            assert(!players[seat_after(n, idx, sa)].active);
        } else if sb < sa {
            assert(!players[seat_after(n, idx, sb)].active);
        }
    } else if a is Some {
        assert(players[a->0 as int].active);
    } else if b is Some {
        assert(players[b->0 as int].active);
    }
}

/// While every player is in the game the turn goes round the ring in order:
/// after player `i` comes player `i + 1`, and after the last the first.
pub proof fn lemma_round_robin(players: Seq<PlayerView>, i: usize)
    requires
        i < players.len() <= usize::MAX,
        forall|j: int| 0 <= j < players.len() ==> (#[trigger] players[j]).active,
    ensures
        is_next_turn(
            players,
            Some(i),
            Some(
                if i + 1 == players.len() {
                    0usize
                } else {
                    (i + 1) as usize
                },
            ),
        ),
{
    let n: int = players.len() as int;
    lemma_next_seat(i as int, n);
    vstd::arithmetic::div_mod::lemma_small_mod(i as nat, n as nat);
    let j: int = if i + 1 == n {
        0
    } else {
        i + 1
    };
    assert(seat_after(n, i as int, 0) == j);
    assert(players[j].active);
    assert(is_next_active(players, i as int, j));
}

/// A retired player is passed over: the turn goes to the first player after
/// `current` who is still active, and to nobody exactly when no one is.
pub proof fn lemma_next_turn_skips_retired(
    players: Seq<PlayerView>,
    current: usize,
    next: Option<usize>,
)
    requires
        is_next_turn(players, Some(current), next),
    ensures
        next is None <==> no_one_active(players),
        next matches Some(j) ==> players[j as int].active,
{
    if next is Some {
        assert(players[next->0 as int].active);
    }
}

/// When the only player still in the game retires, nobody is next.
pub proof fn lemma_last_retirement_ends_game(
    players: Seq<PlayerView>,
    current: usize,
    next: Option<usize>,
)
    requires
        current < players.len(),
        forall|j: int| 0 <= j < players.len() && j != current ==> !(#[trigger] players[j]).active,
        is_next_turn(
            players.update(current as int, players[current as int].retired()),
            Some(current),
            next,
        ),
    ensures
        next is None,
{
    let after: Seq<PlayerView> = players.update(current as int, players[current as int].retired());
    if next is Some {
        assert(after[next->0 as int].active);
    }
}

} // verus!
