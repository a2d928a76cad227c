//! One game, from the first turn to the final ranking.
//!
//! A session takes the players' gestures one at a time: a drag begins, moves,
//! and is released or aborted; the player whose turn it is may retire. Once
//! the game is over, no gesture changes the board, the players or the turn.

use crate::color::Color;
use crate::placement::{validate, verdict, PlacementError};
use crate::player::{views, Player, PlayerView};
use crate::ranking::{is_ranking, lemma_ranking_sorted, sort_by_score};
use crate::shape::{Circle, Position2d, Rect};
use crate::turn::{is_next_turn, next_player_idx, no_one_active};
use vstd::prelude::*;

verus! {

/// What became of a gesture.
#[derive(Debug, Clone, Copy, PartialEq, Eq, Structural)]
pub enum Feedback {
    /// The gesture had no effect: the game is over, or no drag is under way.
    Ignored,
    /// The circle that is being drawn breaks no rule.
    Accepted,
    /// The circle that is being drawn breaks a rule.
    Rejected(PlacementError),
}

/// What a player can do to a session.
pub enum Gesture {
    /// A drag begins at the point.
    Begin(Position2d),
    /// The drag moves to the point.
    Move(Position2d),
    /// The drag is aborted.
    Abort,
    /// The drag is released.
    Release,
    /// The player whose turn it is retires.
    Retire,
}

/// The circle that stands for "nothing is being drawn": radius 0 at the origin.
pub open spec fn no_circle() -> Circle {
    Circle { position: Position2d { x: 0, y: 0 }, radius: 0 }
}

/// The points that placing `circle` is worth: its area rounded to the
/// nearest whole number, and no more than a score can hold.
pub open spec fn points_for(circle: Circle) -> u32 {
    if circle.spec_rounded_area() > u32::MAX {
        u32::MAX
    } else {
        circle.spec_rounded_area() as u32
    }
}

/// The radius of a circle drawn out to `distance` from its centre: the
/// distance itself, and no more than a radius can hold.
pub open spec fn radius_for(distance: nat) -> u32 {
    if distance > u32::MAX {
        u32::MAX
    } else {
        distance as u32
    }
}

/// `first` is who opens the game: the first player who is in the game, or
/// nobody if there is none.
pub open spec fn is_opening_turn(players: Seq<PlayerView>, first: Option<usize>) -> bool {
    match first {
        Some(i) => {
            &&& i < players.len()
            &&& players[i as int].active
            &&& forall|j: int| 0 <= j < i ==> !(#[trigger] players[j]).active
        },
        None => no_one_active(players),
    }
}

/// The state of a session, as plain values.
pub struct SessionView {
    /// The play area.
    pub board: Rect,
    /// The smallest radius a placed circle may have.
    pub min_radius: u32,
    /// The largest radius a placed circle may have.
    pub max_radius: u32,
    /// The circles placed so far, oldest first.
    pub circles: Seq<Circle>,
    /// For each placed circle, the colour of the player who placed it.
    pub fill_styles: Seq<Color>,
    /// The players, by seat; in ranking order once the game is over.
    pub players: Seq<PlayerView>,
    /// The seat of the player whose turn it is; `None` once the game is over.
    pub current: Option<usize>,
    /// The circle that is being drawn.
    pub pending: Circle,
    /// Whether the circle that is being drawn broke no rule when last tried.
    pub pending_valid: bool,
    /// Whether a drag is under way.
    pub drawing: bool,
}

impl SessionView {
    /// Whether the game is over.
    pub open spec fn finished(self) -> bool {
        self.current is None
    }

    /// The verdict of the placement rules on `circle`, on this board and
    /// beside the circles placed so far.
    pub open spec fn verdict_on(self, circle: Circle) -> Result<(), PlacementError> {
        verdict(self.board, self.circles, circle, self.min_radius, self.max_radius)
    }

    /// Every placed circle has an owner's colour, lies on the board with a
    /// radius in the allowed range, and no two placed circles overlap or
    /// touch.
    pub open spec fn board_wf(self) -> bool {
        &&& self.fill_styles.len() == self.circles.len()
        &&& forall|i: int|
            0 <= i < self.circles.len() ==> {
                &&& !self.board.excludes(#[trigger] self.circles[i])
                &&& self.min_radius <= self.circles[i].radius <= self.max_radius
            }
        &&& forall|i: int, j: int|
            0 <= i < j < self.circles.len() ==> !(#[trigger] self.circles[i]).overlaps(
                #[trigger] self.circles[j],
            )
    }

    /// There is a current player exactly while some player is in the game,
    /// and the current player is in the game.
    pub open spec fn turn_wf(self) -> bool {
        match self.current {
            Some(i) => i < self.players.len() && self.players[i as int].active,
            None => no_one_active(self.players),
        }
    }

    /// What holds of every session.
    pub open spec fn wf(self) -> bool {
        self.board_wf() && self.turn_wf()
    }

    /// A session at its start: an empty board, nothing being drawn, and
    /// `first` to play.
    pub open spec fn opening(
        board: Rect,
        min_radius: u32,
        max_radius: u32,
        players: Seq<PlayerView>,
        first: Option<usize>,
    ) -> SessionView {
        SessionView {
            board,
            min_radius,
            max_radius,
            circles: Seq::empty(),
            fill_styles: Seq::empty(),
            players,
            current: first,
            pending: no_circle(),
            pending_valid: true,
            drawing: false,
        }
    }

    /// The session after a drag has begun at `point`.
    pub open spec fn begun(self, point: Position2d) -> SessionView {
        if self.finished() {
            self
        } else {
            SessionView { pending: Circle { position: point, radius: 0 }, drawing: true, ..self }
        }
    }

    /// The circle that is being drawn, drawn out to `point`.
    pub open spec fn stretched(self, point: Position2d) -> Circle {
        Circle {
            position: self.pending.position,
            radius: radius_for(self.pending.position.spec_distance(point)),
        }
    }

    /// The session after the drag has moved to `point`.
    pub open spec fn updated(self, point: Position2d) -> SessionView {
        if self.finished() || !self.drawing {
            self
        } else {
            SessionView {
                pending: self.stretched(point),
                pending_valid: self.verdict_on(self.stretched(point)) is Ok,
                ..self
            }
        }
    }

    /// The session after the drag has been aborted.
    pub open spec fn aborted(self) -> SessionView {
        SessionView { pending: no_circle(), drawing: false, ..self }
    }

    /// What releasing the drag comes to.
    pub open spec fn commit_outcome(self) -> Feedback {
        if self.finished() || !self.drawing {
            Feedback::Ignored
        } else {
            match self.verdict_on(self.pending) {
                Ok(_) => Feedback::Accepted,
                Err(reason) => Feedback::Rejected(reason),
            }
        }
    }

    /// The session after the circle that was being drawn has been turned down.
    pub open spec fn rejected(self) -> SessionView {
        SessionView { pending: no_circle(), pending_valid: false, drawing: false, ..self }
    }

    /// The players after the current player has been given the points for
    /// the circle that is being drawn.
    pub open spec fn scored(self) -> Seq<PlayerView> {
        let seat = self.current->0 as int;
        self.players.update(seat, self.players[seat].credited(points_for(self.pending)))
    }

    /// The session after the circle that was being drawn has been placed
    /// for the current player, with `next` to play.
    pub open spec fn placed(self, next: Option<usize>) -> SessionView {
        SessionView {
            circles: self.circles.push(self.pending),
            fill_styles: self.fill_styles.push(self.players[self.current->0 as int].color),
            players: self.scored(),
            current: next,
            pending: no_circle(),
            pending_valid: true,
            drawing: false,
            ..self
        }
    }

    /// Whether the points for the circle that is being drawn, if it is
    /// placed now, fit in the current player's score.
    pub open spec fn score_fits(self) -> bool {
        self.commit_outcome() is Accepted ==> self.players[self.current->0 as int].score
            + points_for(self.pending) <= u32::MAX
    }

    /// The players after the current player has retired.
    pub open spec fn forfeited(self) -> Seq<PlayerView> {
        let seat = self.current->0 as int;
        self.players.update(seat, self.players[seat].retired())
    }

    /// `after` is this session with the turn passed on from the current
    /// player, other things being equal: to the next player in the game, or,
    /// if there is none, the game is over and the players stand in ranking
    /// order.
    pub open spec fn passes_turn_to(self, after: SessionView) -> bool {
        &&& is_next_turn(self.players, self.current, after.current)
        &&& if after.current is Some {
            after.players == self.players
        } else {
            is_ranking(self.players, after.players)
        }
        &&& after == SessionView { players: after.players, current: after.current, ..self }
    }

    /// `after` is the session once the drag has been released: unchanged if
    /// no drag was under way; without the circle if it breaks a rule; else
    /// with the circle placed, its points given to the current player, and
    /// the turn passed on.
    pub open spec fn commits_to(self, after: SessionView) -> bool {
        match self.commit_outcome() {
            Feedback::Ignored => after == self,
            Feedback::Rejected(_) => after == self.rejected(),
            Feedback::Accepted => self.placed(self.current).passes_turn_to(after),
        }
    }

    /// `after` is the session once the current player has retired: the
    /// player is out of the game and the turn has passed on. Nothing changes
    /// once the game is over.
    pub open spec fn retires_to(self, after: SessionView) -> bool {
        if self.finished() {
            after == self
        } else {
            (SessionView { players: self.forfeited(), ..self }).passes_turn_to(after)
        }
    }

    /// `after` is the session once it has taken `gesture`.
    pub open spec fn steps_to(self, gesture: Gesture, after: SessionView) -> bool {
        match gesture {
            Gesture::Begin(point) => after == self.begun(point),
            Gesture::Move(point) => after == self.updated(point),
            Gesture::Abort => after == self.aborted(),
            Gesture::Release => self.commits_to(after),
            Gesture::Retire => self.retires_to(after),
        }
    }

    /// Every placed circle of this session is still in `after`, in its
    /// place and with its colour.
    pub open spec fn circles_kept_in(self, after: SessionView) -> bool {
        &&& self.circles.len() <= after.circles.len()
        &&& after.circles.subrange(0, self.circles.len() as int) == self.circles
        &&& self.fill_styles.len() <= after.fill_styles.len()
        &&& after.fill_styles.subrange(0, self.fill_styles.len() as int) == self.fill_styles
    }
}

/// `later` is `earlier` further on in the game: the same name and colour,
/// no fewer points, and in the game only if `earlier` was.
pub open spec fn grown_from(earlier: PlayerView, later: PlayerView) -> bool {
    &&& later.name == earlier.name
    &&& later.color == earlier.color
    &&& later.score >= earlier.score
    &&& later.active ==> earlier.active
}

/// A gesture keeps what holds of every session.
pub proof fn lemma_step_keeps_wf(before: SessionView, gesture: Gesture, after: SessionView)
    requires
        before.wf(),
        before.steps_to(gesture, after),
    ensures
        after.wf(),
{
    match gesture {
        Gesture::Release => {
            if before.commit_outcome() is Accepted {
                let seat = before.current->0 as int;
                let placed = before.placed(before.current);
                assert(placed.players[seat].active);
                assert(placed.wf());
                lemma_turn_keeps_wf(placed, after);
            }
        },
        Gesture::Retire => {
            if !before.finished() {
                lemma_turn_keeps_wf(SessionView { players: before.forfeited(), ..before }, after);
            }
        },
        _ => {},
    }
}

/// Passing the turn on keeps what holds of every session, but for who is
/// to play, which it sets right.
proof fn lemma_turn_keeps_wf(before: SessionView, after: SessionView)
    requires
        before.board_wf(),
        before.current is Some,
        before.passes_turn_to(after),
    ensures
        after.wf(),
{
    if after.current is None {
        lemma_ranking_sorted(before.players, after.players);
    } else {
        assert(after.players[after.current->0 as int].active);
    }
}

/// A session never loses what the game has built up: the board and the
/// range of radii stay, the number of players stays, the placed circles stay
/// where they are, and while the game goes on each seat keeps its player,
/// who loses no points and does not come back after retiring. When the game
/// ends, every player of the ranking is one of the players as they were when
/// the last one retired.
pub proof fn lemma_step_keeps_history(before: SessionView, gesture: Gesture, after: SessionView)
    requires
        before.wf(),
        gesture is Release ==> before.score_fits(),
        before.steps_to(gesture, after),
    ensures
        after.board == before.board,
        after.min_radius == before.min_radius,
        after.max_radius == before.max_radius,
        after.players.len() == before.players.len(),
        before.circles_kept_in(after),
        after.current is Some ==> before.current is Some && forall|seat: int|
            0 <= seat < before.players.len() ==> grown_from(
                #[trigger] before.players[seat],
                after.players[seat],
            ),
        before.current is Some && after.current is None ==> gesture is Retire && forall|k: int|
            0 <= k < after.players.len() ==> before.forfeited().contains(
                #[trigger] after.players[k],
            ),
{
    assert(after.circles.subrange(0, before.circles.len() as int) =~= before.circles);
    assert(after.fill_styles.subrange(0, before.fill_styles.len() as int) =~= before.fill_styles);
    match gesture {
        Gesture::Release => {
            if before.commit_outcome() is Accepted {
                let seat = before.current->0 as int;
                assert(before.scored()[seat].active);
            }
        },
        Gesture::Retire => {
            if !before.finished() && after.current is None {
                lemma_ranking_sorted(before.forfeited(), after.players);
            }
        },
        _ => {},
    }
}

/// A finished game stays finished: no gesture changes the circles, the
/// players, their ranking, or brings back a current player.
pub proof fn lemma_finished_is_final(before: SessionView, gesture: Gesture, after: SessionView)
    requires
        before.finished(),
        before.steps_to(gesture, after),
    ensures
        after.finished(),
        after.circles == before.circles,
        after.fill_styles == before.fill_styles,
        after.players == before.players,
        !(gesture is Abort) ==> after == before,
{
}

/// A release that is turned down leaves the game as it was: the circles,
/// the players with their scores, and whose turn it is. Only the circle that
/// was being drawn is gone.
pub proof fn lemma_rejected_release_keeps_game(before: SessionView, after: SessionView)
    requires
        before.commit_outcome() is Rejected,
        before.commits_to(after),
    ensures
        after.circles == before.circles,
        after.fill_styles == before.fill_styles,
        after.players == before.players,
        after.current == before.current,
        after == (SessionView {
            pending: no_circle(),
            pending_valid: false,
            drawing: false,
            ..before
        }),
{
}

/// A release that is accepted puts the circle on the board in the current
/// player's colour, gives that player its points and nobody else any, and
/// leaves the game running.
pub proof fn lemma_accepted_release_scores(before: SessionView, after: SessionView)
    requires
        before.wf(),
        before.score_fits(),
        before.commit_outcome() is Accepted,
        before.commits_to(after),
    ensures
        before.verdict_on(before.pending) is Ok,
        after.circles == before.circles.push(before.pending),
        after.fill_styles == before.fill_styles.push(
            before.players[before.current->0 as int].color,
        ),
        after.current is Some,
        after.players.len() == before.players.len(),
        forall|seat: int|
            0 <= seat < before.players.len() ==> (#[trigger] after.players[seat]).score
                == before.players[seat].score + if seat == before.current->0 {
                points_for(before.pending) as int
            } else {
                0
            },
{
    let seat = before.current->0 as int;
    assert(before.scored()[seat].active);
}

/// The game ends exactly when the last player in it retires.
pub proof fn lemma_game_ends_with_last_player(before: SessionView, after: SessionView)
    requires
        before.wf(),
        !before.finished(),
        before.retires_to(after),
    ensures
        after.finished() <==> forall|seat: int|
            0 <= seat < before.players.len() && seat != before.current->0 ==> !(
            #[trigger] before.players[seat]).active,
{
    let left = before.forfeited();
    if after.current is Some {
        let next = after.current->0 as int;
        assert(left[next].active);
        assert(before.players[next].active);
    } else {
        assert forall|seat: int|
            0 <= seat < before.players.len() && seat != before.current->0 implies !(
        #[trigger] before.players[seat]).active by {
            assert(!left[seat].active);
        }
    }
}

/// A game in progress or finished.
pub struct Session {
    board: Rect,
    min_radius: u32,
    max_radius: u32,
    circles: Vec<Circle>,
    circle_fill_styles: Vec<Color>,
    players: Vec<Player>,
    current_player_idx: Option<usize>,
    current_circle: Circle,
    current_circle_valid: bool,
    pressed: bool,
}

impl View for Session {
    type V = SessionView;

    closed spec fn view(&self) -> SessionView {
        SessionView {
            board: self.board,
            min_radius: self.min_radius,
            max_radius: self.max_radius,
            circles: self.circles@,
            fill_styles: self.circle_fill_styles@,
            players: views(self.players@),
            current: self.current_player_idx,
            pending: self.current_circle,
            pending_valid: self.current_circle_valid,
            drawing: self.pressed,
        }
    }
}

/// The points that placing `circle` is worth.
pub fn score_for(circle: &Circle) -> (points: u32)
    ensures
        points == points_for(*circle),
{
    let area: u128 = circle.rounded_area();
    if area > u32::MAX as u128 {
        u32::MAX
    } else {
        area as u32
    }
}

/// The seat of the first player who is in the game.
fn opening_turn(players: &Vec<Player>) -> (first: Option<usize>)
    ensures
        is_opening_turn(views(players@), first),
{
    let mut i: usize = 0;
    while i < players.len()
        invariant
            i <= players.len(),
            forall|j: int| 0 <= j < i ==> !(#[trigger] views(players@)[j]).active,
        decreases players.len() - i,
    {
        if players[i].active() {
            return Some(i);
        }
        i += 1;
    }
    None
}

impl Session {
    /// Starts a game on `board` for `players`, with the range of radii that
    /// a placed circle may have. The first player who is in the game opens:
    /// the player on seat 0, when the players are new.
    pub fn new(
        board: Rect,
        min_radius: u32,
        max_radius: u32,
        players: Vec<Player>,
    ) -> (session: Session)
        ensures
            session@.wf(),
            is_opening_turn(views(players@), session@.current),
            players@.len() == 0 ==> session@.current is None,
            players@.len() > 0 && views(players@)[0].active ==> session@.current == Some(0usize),
            session@ == SessionView::opening(
                board,
                min_radius,
                max_radius,
                views(players@),
                session@.current,
            ),
    {
        let first: Option<usize> = opening_turn(&players);
        Session {
            board,
            min_radius,
            max_radius,
            circles: Vec::new(),
            circle_fill_styles: Vec::new(),
            players,
            current_player_idx: first,
            current_circle: Circle::default(),
            current_circle_valid: true,
            pressed: false,
        }
    }

    /// The play area.
    pub fn board(&self) -> (board: &Rect)
        ensures
            *board == self@.board,
    {
        &self.board
    }

    /// The smallest radius a placed circle may have.
    pub fn min_radius(&self) -> (radius: u32)
        ensures
            radius == self@.min_radius,
    {
        self.min_radius
    }

    /// The largest radius a placed circle may have.
    pub fn max_radius(&self) -> (radius: u32)
        ensures
            radius == self@.max_radius,
    {
        self.max_radius
    }

    /// The circles placed so far, oldest first.
    pub fn circles(&self) -> (circles: &Vec<Circle>)
        ensures
            circles@ == self@.circles,
    {
        &self.circles
    }

    /// For each placed circle, the colour of the player who placed it.
    pub fn circle_fill_styles(&self) -> (colors: &Vec<Color>)
        ensures
            colors@ == self@.fill_styles,
    {
        &self.circle_fill_styles
    }

    /// The players, by seat; in ranking order once the game is over.
    pub fn players(&self) -> (players: &Vec<Player>)
        ensures
            views(players@) == self@.players,
    {
        &self.players
    }

    /// The seat of the player whose turn it is; `None` once the game is over.
    pub fn current_player_idx(&self) -> (current: Option<usize>)
        ensures
            current == self@.current,
    {
        self.current_player_idx
    }

    /// The circle that is being drawn.
    pub fn current_circle(&self) -> (circle: &Circle)
        ensures
            *circle == self@.pending,
    {
        &self.current_circle
    }

    /// Whether the circle that is being drawn broke no rule when last tried.
    pub fn current_circle_valid(&self) -> (valid: bool)
        ensures
            valid == self@.pending_valid,
    {
        self.current_circle_valid
    }

    /// Whether a drag is under way.
    pub fn pressed(&self) -> (pressed: bool)
        ensures
            pressed == self@.drawing,
    {
        self.pressed
    }

    /// Whether the game is over.
    pub fn finished(&self) -> (over: bool)
        ensures
            over == self@.finished(),
    {
        self.current_player_idx.is_none()
    }
}

impl Session {
    /// Passes the turn on from the current player. If nobody is left in the
    /// game, the game is over and the players are put in ranking order.
    fn pass_turn(&mut self)
        requires
            old(self)@.current is Some,
        ensures
            old(self)@.passes_turn_to(final(self)@),
    {
        let next: Option<usize> = next_player_idx(self.players.as_slice(), self.current_player_idx);
        if next.is_none() {
            sort_by_score(&mut self.players);
        }
        self.current_player_idx = next;
    }

    /// A drag begins at `point`: a circle of radius 0 is being drawn there.
    /// Nothing happens once the game is over.
    pub fn begin_draw(&mut self, point: Position2d)
        requires
            old(self)@.wf(),
        ensures
            final(self)@ == old(self)@.begun(point),
            final(self)@.wf(),
    {
        if self.current_player_idx.is_some() {
            self.current_circle = Circle::new(point.x, point.y, 0);
            self.pressed = true;
        }
    }

    /// The drag moves to `point`: the circle that is being drawn reaches out
    /// to it, and the rules are tried on it. The feedback is what releasing
    /// the drag here would come to. Nothing happens while no drag is under
    /// way, nor once the game is over.
    pub fn update_draw(&mut self, point: Position2d) -> (feedback: Feedback)
        requires
            old(self)@.wf(),
        ensures
            final(self)@ == old(self)@.updated(point),
            final(self)@.wf(),
            feedback == final(self)@.commit_outcome(),
    {
        if self.current_player_idx.is_none() || !self.pressed {
            return Feedback::Ignored;
        }
        let center: Position2d = self.current_circle.position();
        let distance: u64 = center.distance(&point);
        let radius: u32 = if distance > u32::MAX as u64 {
            u32::MAX
        } else {
            distance as u32
        };
        self.current_circle.set_radius(radius);
        match validate(
            &self.board,
            self.circles.as_slice(),
            &self.current_circle,
            self.min_radius,
            self.max_radius,
        ) {
            Ok(_) => {
                self.current_circle_valid = true;
                Feedback::Accepted
            },
            Err(reason) => {
                self.current_circle_valid = false;
                Feedback::Rejected(reason)
            },
        }
    }

    /// The drag is aborted: the circle that was being drawn is dropped
    /// without being tried, and the turn stays where it is.
    pub fn abort_draw(&mut self)
        requires
            old(self)@.wf(),
        ensures
            final(self)@ == old(self)@.aborted(),
            final(self)@.wf(),
    {
        self.current_circle = Circle::default();
        self.pressed = false;
    }

    /// Whether the points for the circle that is being drawn would fit in
    /// the current player's score, were the drag released now.
    pub fn score_fits(&self) -> (fits: bool)
        requires
            self@.wf(),
        ensures
            fits == self@.score_fits(),
    {
        let seat: usize = match self.current_player_idx {
            Some(seat) => seat,
            None => { return true; },
        };
        if !self.pressed {
            return true;
        }
        match validate(
            &self.board,
            self.circles.as_slice(),
            &self.current_circle,
            self.min_radius,
            self.max_radius,
        ) {
            Ok(_) => {
                let points: u32 = score_for(&self.current_circle);
                points <= u32::MAX - self.players[seat].score()
            },
            Err(_) => true,
        }
    }

    /// The drag is released: the rules are tried on the circle that is being
    /// drawn. If it breaks none, it is placed on the board in the current
    /// player's colour, the player gets its points, and the turn passes on.
    /// If it breaks one, it is dropped and the game stays as it was.
    pub fn commit_draw(&mut self) -> (feedback: Feedback)
        requires
            old(self)@.wf(),
            old(self)@.score_fits(),
        ensures
            feedback == old(self)@.commit_outcome(),
            old(self)@.commits_to(final(self)@),
            final(self)@.wf(),
            feedback is Accepted ==> final(self)@.current is Some,
    {
        let seat: usize = match self.current_player_idx {
            Some(seat) => seat,
            None => { return Feedback::Ignored; },
        };
        if !self.pressed {
            return Feedback::Ignored;
        }
        match validate(
            &self.board,
            self.circles.as_slice(),
            &self.current_circle,
            self.min_radius,
            self.max_radius,
        ) {
            Ok(_) => {
                let points: u32 = score_for(&self.current_circle);
                let color: Color = *self.players[seat].color();
                self.circles.push(self.current_circle);
                self.circle_fill_styles.push(color);
                self.players[seat].add_score(points);
                self.current_circle = Circle::default();
                self.current_circle_valid = true;
                self.pressed = false;
                proof {
                    assert(views(self.players@) =~= old(self)@.scored());
                    assert(self@ == old(self)@.placed(old(self)@.current));
                    assert(self@.wf());
                }
                self.pass_turn();
                proof {
                    assert(old(self)@.scored()[seat as int].active);
                }
                Feedback::Accepted
            },
            Err(reason) => {
                self.current_circle = Circle::default();
                self.current_circle_valid = false;
                self.pressed = false;
                Feedback::Rejected(reason)
            },
        }
    }

    /// The player whose turn it is leaves the game, and the turn passes on.
    /// When the last player has left, the game is over and the players stand
    /// in ranking order. Nothing happens once the game is over.
    pub fn retire_current_player(&mut self)
        requires
            old(self)@.wf(),
        ensures
            old(self)@.retires_to(final(self)@),
            final(self)@.wf(),
    {
        let seat: usize = match self.current_player_idx {
            Some(seat) => seat,
            None => { return ; },
        };
        self.players[seat].deactivate();
        proof {
            assert(views(self.players@) =~= old(self)@.forfeited());
        }
        self.pass_turn();
        proof {
            if self@.current is None {
                lemma_ranking_sorted(old(self)@.forfeited(), self@.players);
            }
        }
    }
}

} // verus!
