use vstd::prelude::*;

use crate::model::{moved_to_front, Action, ActionKind, Card, Deck, DrawSource, GameOutcome};

verus! {

/// Per-seat opt-in configuration for the interactive control plane.
///
/// With `override_draws` set, the seat's turn-start and opening-hand draws pause for an
/// explicit card choice instead of resolving from the top of the deck. Without it, the seat
/// still pauses for every real decision (two or more legal moves), but its draws resolve
/// normally.
#[derive(Clone, Copy, Debug, PartialEq, Eq, Structural)]
pub struct InteractiveConfig {
    pub override_draws: bool,
}

impl Default for InteractiveConfig {
    fn default() -> (c: InteractiveConfig)
        ensures
            !c.override_draws,
    {
        InteractiveConfig { override_draws: false }
    }
}

/// How a seat is driven.
#[derive(Clone, Copy, Debug, PartialEq, Eq, Structural)]
pub enum SeatMode {
    /// Driven by the seat's own player (a bot), exactly as in bulk simulation.
    Scripted,
    /// Driven by an outside caller through `step` / `submit_action` / `submit_draw`; the
    /// seat's player must never be asked for a decision.
    Interactive(InteractiveConfig),
}

/// What the engine shows at a decision point: whether the game is over (and how), whose
/// turn it is to act, and the legal moves.
#[derive(Clone, Debug)]
pub struct Position {
    pub game_over: bool,
    pub winner: Option<GameOutcome>,
    pub actor: usize,
    pub actions: Vec<Action>,
}

pub struct PositionView {
    pub game_over: bool,
    pub winner: Option<GameOutcome>,
    pub actor: usize,
    pub actions: Seq<Action>,
}

impl View for Position {
    type V = PositionView;

    open spec fn view(&self) -> PositionView {
        PositionView {
            game_over: self.game_over,
            winner: self.winner,
            actor: self.actor,
            actions: self.actions@,
        }
    }
}

/// The next point in the game that needs outside input.
#[derive(Clone, Debug)]
pub enum PendingDecision {
    /// `actor` must choose one of `actions`; answered with `submit_action`.
    AwaitingAction { actor: usize, actions: Vec<Action> },
    /// `actor`'s queued draw is paused so the card can be chosen; answered with
    /// `submit_draw`.
    AwaitingDraw { actor: usize, source: DrawSource, amount: u8 },
    /// The game has ended, with this outcome.
    GameOver(Option<GameOutcome>),
}

pub enum PendingDecisionView {
    AwaitingAction { actor: usize, actions: Seq<Action> },
    AwaitingDraw { actor: usize, source: DrawSource, amount: u8 },
    GameOver(Option<GameOutcome>),
}

impl View for PendingDecision {
    type V = PendingDecisionView;

    open spec fn view(&self) -> PendingDecisionView {
        match self {
            PendingDecision::AwaitingAction { actor, actions } => PendingDecisionView::AwaitingAction {
                actor: *actor,
                actions: actions@,
            },
            PendingDecision::AwaitingDraw { actor, source, amount } => PendingDecisionView::AwaitingDraw {
                actor: *actor,
                source: *source,
                amount: *amount,
            },
            PendingDecision::GameOver(o) => PendingDecisionView::GameOver(*o),
        }
    }
}

/// Why a submitted decision was refused. A refused submission changes nothing.
#[derive(Clone, Copy, Debug, PartialEq, Eq, Structural)]
pub enum SubmitError {
    GameOver,
    /// The submitted action is not one of the current legal actions.
    IllegalAction,
    /// The current decision is not a draw-override point: the one legal move is not a
    /// turn-start or opening-hand draw of a seat under outside control that chooses its
    /// draws.
    NotAwaitingDraw,
    /// The submitted card is not in the player's remaining deck.
    CardNotInRemainingDeck,
}

pub open spec fn submit_error_text(e: SubmitError) -> Seq<char> {
    match e {
        SubmitError::GameOver => "the game has already ended"@,
        SubmitError::IllegalAction => "action is not a member of the current legal action set"@,
        SubmitError::NotAwaitingDraw => "the current pending decision is not a draw-override point"@,
        SubmitError::CardNotInRemainingDeck => "card is not present in the player's remaining deck"@,
    }
}

impl SubmitError {
    /// The human-readable message for this error.
    pub fn message(&self) -> (s: String)
        ensures
            s@ == submit_error_text(*self),
    {
        match self {
            SubmitError::GameOver => String::from_str("the game has already ended"),
            SubmitError::IllegalAction => String::from_str(
                "action is not a member of the current legal action set",
            ),
            SubmitError::NotAwaitingDraw => String::from_str(
                "the current pending decision is not a draw-override point",
            ),
            SubmitError::CardNotInRemainingDeck => String::from_str(
                "card is not present in the player's remaining deck",
            ),
        }
    }
}

/// What the resolve loop does at one decision point.
#[derive(Clone, Debug)]
pub enum Resolution {
    /// Stop and hand this decision back to the caller.
    Pause(PendingDecision),
    /// The only legal move: apply it.
    Apply(Action),
    /// A scripted seat must choose among the legal moves: ask its player, then apply the
    /// move it returns.
    AskPlayer(usize),
}

pub enum ResolutionView {
    Pause(PendingDecisionView),
    Apply(Action),
    AskPlayer(usize),
}

impl View for Resolution {
    type V = ResolutionView;

    open spec fn view(&self) -> ResolutionView {
        match self {
            Resolution::Pause(p) => ResolutionView::Pause(p@),
            Resolution::Apply(a) => ResolutionView::Apply(*a),
            Resolution::AskPlayer(s) => ResolutionView::AskPlayer(*s),
        }
    }
}

/// The interactive control plane of a game: which seats are driven from outside, and the
/// decisions that follow from it at each point of the game.
#[derive(Clone, Debug)]
pub struct Game {
    interactive_seats: [SeatMode; 2],
}

pub open spec fn is_interactive_mode(m: SeatMode) -> bool {
    m is Interactive
}

pub open spec fn overrides_draws(m: SeatMode) -> bool {
    match m {
        SeatMode::Interactive(cfg) => cfg.override_draws,
        SeatMode::Scripted => false,
    }
}

/// Whether a draw from `source` by a seat in mode `m` pauses for a card choice.
pub open spec fn spec_wants_draw_override(m: SeatMode, source: DrawSource) -> bool {
    (source == DrawSource::TurnStart || source == DrawSource::InitialHand) && overrides_draws(m)
}

/// The decision the resolve loop takes at position `pos`, given the seat modes.
pub open spec fn spec_resolve(seats: Seq<SeatMode>, pos: PositionView) -> ResolutionView {
    if pos.game_over {
        ResolutionView::Pause(PendingDecisionView::GameOver(pos.winner))
    } else if pos.actions.len() == 1 {
        match pos.actions[0].kind {
            ActionKind::DrawCard { amount, source } => {
                if spec_wants_draw_override(seats[pos.actor as int], source) {
                    ResolutionView::Pause(
                        PendingDecisionView::AwaitingDraw { actor: pos.actor, source, amount },
                    )
                } else {
                    ResolutionView::Apply(pos.actions[0])
                }
            },
            _ => ResolutionView::Apply(pos.actions[0]),
        }
    } else if is_interactive_mode(seats[pos.actor as int]) {
        ResolutionView::Pause(
            PendingDecisionView::AwaitingAction { actor: pos.actor, actions: pos.actions },
        )
    } else {
        ResolutionView::AskPlayer(pos.actor)
    }
}

/// Whether the one legal move at `pos` is a draw.
pub open spec fn is_draw_point(pos: PositionView) -> bool {
    pos.actions.len() == 1 && pos.actions[0].kind is DrawCard
}

/// Whether `pos` is a draw-override point (the only kind of point `submit_draw` accepts):
/// its one legal move is a draw from a source that the seat to act, in mode
/// `seats[pos.actor]`, chooses itself.
pub open spec fn is_override_point(seats: Seq<SeatMode>, pos: PositionView) -> bool {
    is_draw_point(pos) && match pos.actions[0].kind {
        ActionKind::DrawCard { source, .. } => spec_wants_draw_override(seats[pos.actor as int], source),
        _ => false,
    }
}

impl Game {
    pub closed spec fn seats(&self) -> Seq<SeatMode> {
        self.interactive_seats@
    }

    /// A game whose seats are both driven by their own players.
    pub fn new() -> (g: Game)
        ensures
            g.seats() == seq![SeatMode::Scripted, SeatMode::Scripted],
            g.seats().len() == 2,
    {
        let g = Game { interactive_seats: [SeatMode::Scripted, SeatMode::Scripted] };
        assert(g.seats() =~= seq![SeatMode::Scripted, SeatMode::Scripted]);
        g
    }

    /// Puts `seat` under outside control with `config`.
    pub fn set_interactive(&mut self, seat: usize, config: InteractiveConfig)
        requires
            seat < 2,
        ensures
            final(self).seats().len() == 2,
            final(self).seats()[seat as int] == SeatMode::Interactive(config),
            final(self).seats()[1 - seat] == old(self).seats()[1 - seat],
            final(self).seats() == old(self).seats().update(seat as int, SeatMode::Interactive(config)),
    {
        self.interactive_seats[seat] = SeatMode::Interactive(config);
    }

    /// Hands `seat` back to its own player. Seats can move between the two modes at any
    /// point of the game.
    pub fn set_scripted(&mut self, seat: usize)
        requires
            seat < 2,
        ensures
            final(self).seats().len() == 2,
            final(self).seats()[seat as int] == SeatMode::Scripted,
            final(self).seats()[1 - seat] == old(self).seats()[1 - seat],
            final(self).seats() == old(self).seats().update(seat as int, SeatMode::Scripted),
    {
        self.interactive_seats[seat] = SeatMode::Scripted;
    }

    pub fn is_interactive(&self, seat: usize) -> (b: bool)
        requires
            seat < 2,
        ensures
            b == is_interactive_mode(self.seats()[seat as int]),
    {
        match self.interactive_seats[seat] {
            SeatMode::Interactive(_) => true,
            SeatMode::Scripted => false,
        }
    }

    fn wants_draw_override(&self, actor: usize, source: DrawSource) -> (b: bool)
        requires
            actor < 2,
        ensures
            b == spec_wants_draw_override(self.seats()[actor as int], source),
    {
        let wanted_source = match source {
            DrawSource::TurnStart | DrawSource::InitialHand => true,
            _ => false,
        };
        let overrides = match self.interactive_seats[actor] {
            SeatMode::Interactive(cfg) => cfg.override_draws,
            SeatMode::Scripted => false,
        };
        wanted_source && overrides
    }

    /// One turn of the resolve loop behind `step`, `submit_action` and `submit_draw`: at
    /// `pos`, either stop for outside input (game over; an interactive seat's real
    /// decision; an override-enabled interactive seat's turn-start or opening-hand draw),
    /// or name the move to apply (the single legal move), or name the scripted seat whose
    /// player must choose. The caller applies the move and calls this again until it
    /// pauses.
    pub fn resolve_step(&self, pos: &Position) -> (r: Resolution)
        requires
            pos.actor < 2,
        ensures
            r@ == spec_resolve(self.seats(), pos@),
    {
        if pos.game_over {
            return Resolution::Pause(PendingDecision::GameOver(pos.winner));
        }
        let actor = pos.actor;
        if pos.actions.len() == 1 {
            let only = pos.actions[0];
            if let ActionKind::DrawCard { amount, source } = only.kind {
                if self.wants_draw_override(actor, source) {
                    return Resolution::Pause(PendingDecision::AwaitingDraw { actor, source, amount });
                }
            }
            Resolution::Apply(only)
        } else if self.is_interactive(actor) {
            Resolution::Pause(PendingDecision::AwaitingAction { actor, actions: pos.actions.clone() })
        } else {
            Resolution::AskPlayer(actor)
        }
    }

    /// Where the game stands for an outside caller: the same as `resolve_step`. Safe to
    /// call any number of times, and after the state was replaced.
    pub fn step(&self, pos: &Position) -> (r: Resolution)
        requires
            pos.actor < 2,
        ensures
            r@ == spec_resolve(self.seats(), pos@),
    {
        self.resolve_step(pos)
    }

    /// Answers an `AwaitingAction` decision: the submitted move is accepted, and returned
    /// to be applied, exactly when the game is not over and the move is one of the legal
    /// moves at `pos`.
    pub fn submit_action(&self, pos: &Position, action: Action) -> (res: Result<Action, SubmitError>)
        ensures
            pos.game_over ==> res == Err::<Action, SubmitError>(SubmitError::GameOver),
            !pos.game_over && !pos.actions@.contains(action) ==> res == Err::<Action, SubmitError>(
                SubmitError::IllegalAction,
            ),
            !pos.game_over && pos.actions@.contains(action) ==> res == Ok::<Action, SubmitError>(
                action,
            ),
    {
        if pos.game_over {
            return Err(SubmitError::GameOver);
        }
        let n = pos.actions.len();
        let mut i: usize = 0;
        while i < n
            invariant
                n == pos.actions@.len(),
                i <= n,
                !pos.game_over,
                forall|j: int| 0 <= j < i ==> pos.actions@[j] != action,
            decreases n - i,
        {
            if pos.actions[i] == action {
                return Ok(action);
            }
            i = i + 1;
        }
        Err(SubmitError::IllegalAction)
    }

    /// Answers an `AwaitingDraw` decision for the deciding seat, whose remaining deck is
    /// `deck`. `None` draws normally from the top; `Some(card)` first puts the first copy
    /// of `card` on top. On success returns the draw move to apply; on failure changes
    /// nothing. Checks, in order: game over; `pos` must be a draw-override point (see
    /// `is_override_point`); the chosen card must be in the deck.
    pub fn submit_draw(&self, pos: &Position, deck: &mut Deck, card: Option<Card>) -> (res: Result<
        Action,
        SubmitError,
    >)
        requires
            pos.actor < 2,
        ensures
            pos.game_over ==> res == Err::<Action, SubmitError>(SubmitError::GameOver),
            !pos.game_over && !is_override_point(self.seats(), pos@) ==> res == Err::<
                Action,
                SubmitError,
            >(SubmitError::NotAwaitingDraw),
            !pos.game_over && is_override_point(self.seats(), pos@) && card is Some
                && !old(deck).cards@.contains(card->0) ==> res == Err::<Action, SubmitError>(
                SubmitError::CardNotInRemainingDeck,
            ),
            !pos.game_over && is_override_point(self.seats(), pos@) && (card is None || old(
                deck,
            ).cards@.contains(card->0)) ==> res == Ok::<Action, SubmitError>(pos.actions@[0]),
            res is Err ==> final(deck).cards@ == old(deck).cards@,
            res is Ok && card is None ==> final(deck).cards@ == old(deck).cards@,
            res is Ok && card is Some ==> final(deck).cards@ == moved_to_front(
                old(deck).cards@,
                card->0,
            ),
    {
        if pos.game_over {
            return Err(SubmitError::GameOver);
        }
        if pos.actions.len() != 1 {
            return Err(SubmitError::NotAwaitingDraw);
        }
        let only = pos.actions[0];
        match only.kind {
            ActionKind::DrawCard { source, .. } => {
                if !self.wants_draw_override(pos.actor, source) {
                    return Err(SubmitError::NotAwaitingDraw);
                }
            },
            _ => {
                return Err(SubmitError::NotAwaitingDraw);
            },
        }
        if let Some(c) = card {
            match deck.move_card_to_front(c) {
                Ok(()) => {},
                Err(()) => {
                    return Err(SubmitError::CardNotInRemainingDeck);
                },
            }
        }
        Ok(only)
    }
}

/// A game always has exactly two seats, whatever was set on it.
pub proof fn lemma_game_has_two_seats(g: Game)
    ensures
        g.seats().len() == 2,
{
}

/// `submit_draw` accepts exactly the draws at which the game pauses: a position is a
/// draw-override point exactly when the loop stops there with `AwaitingDraw`.
pub proof fn lemma_override_points_are_the_paused_draws(g: Game, pos: PositionView)
    requires
        pos.actor < 2,
        !pos.game_over,
    ensures
        is_override_point(g.seats(), pos) <==> (spec_resolve(g.seats(), pos) matches ResolutionView::Pause(
            PendingDecisionView::AwaitingDraw { .. },
        )),
{
}

/// A seat that is not under outside control never stops the game: when it is the seat to
/// act, the loop applies the only legal move or asks the seat's player. So a game whose
/// seats are both scripted, as every new game's are, stops only once it is over.
pub proof fn lemma_scripted_seat_never_pauses(g: Game, pos: PositionView)
    requires
        pos.actor < 2,
        !pos.game_over,
        !is_interactive_mode(g.seats()[pos.actor as int]),
    ensures
        !(spec_resolve(g.seats(), pos) is Pause),
{
}

/// Only the seat to act is ever asked for a decision, only when it has something other than
/// a single legal move, and never when it is under outside control.
pub proof fn lemma_player_asked_only_for_scripted_seats(g: Game, pos: PositionView)
    requires
        pos.actor < 2,
        spec_resolve(g.seats(), pos) is AskPlayer,
    ensures
        spec_resolve(g.seats(), pos) == ResolutionView::AskPlayer(pos.actor),
        !pos.game_over,
        pos.actions.len() != 1,
        !is_interactive_mode(g.seats()[pos.actor as int]),
{
}

/// The game pauses for an action only for a seat under outside control that has a real
/// choice (not exactly one legal move), and pauses for a draw only for such a seat that
/// asked to choose its draws, at a turn-start or opening-hand draw that is the only legal
/// move; the paused draw names that move's seat, source and amount.
pub proof fn lemma_pauses_only_where_asked(g: Game, pos: PositionView)
    requires
        pos.actor < 2,
    ensures
        spec_resolve(g.seats(), pos) matches ResolutionView::Pause(
            PendingDecisionView::AwaitingAction { actor, actions },
        ) ==> {
            &&& !pos.game_over
            &&& actor == pos.actor
            &&& actions == pos.actions
            &&& pos.actions.len() != 1
            &&& is_interactive_mode(g.seats()[pos.actor as int])
        },
        spec_resolve(g.seats(), pos) matches ResolutionView::Pause(
            PendingDecisionView::AwaitingDraw { actor, source, amount },
        ) ==> {
            &&& !pos.game_over
            &&& actor == pos.actor
            &&& is_draw_point(pos)
            &&& pos.actions[0].kind == (ActionKind::DrawCard { amount, source })
            &&& (source == DrawSource::TurnStart || source == DrawSource::InitialHand)
            &&& overrides_draws(g.seats()[pos.actor as int])
        },
        spec_resolve(g.seats(), pos) matches ResolutionView::Pause(
            PendingDecisionView::GameOver(w),
        ) ==> pos.game_over && w == pos.winner,
{
}

/// Drawing normally at a paused draw (`submit_draw` without a card) applies the very move
/// the loop applies on its own when the seat does not choose its draws, whether that seat
/// is scripted or interactive without draw override.
pub proof fn lemma_default_draw_matches_automatic_draw(g: Game, pos: PositionView)
    requires
        pos.actor < 2,
        spec_resolve(g.seats(), pos) matches ResolutionView::Pause(
            PendingDecisionView::AwaitingDraw { .. },
        ),
    ensures
        !pos.game_over,
        is_draw_point(pos),
        spec_resolve(g.seats().update(pos.actor as int, SeatMode::Scripted), pos)
            == ResolutionView::Apply(pos.actions[0]),
        spec_resolve(
            g.seats().update(
                pos.actor as int,
                SeatMode::Interactive(InteractiveConfig { override_draws: false }),
            ),
            pos,
        ) == ResolutionView::Apply(pos.actions[0]),
{
}

/// Checks a seat index given from outside: only 0 and 1 name a seat.
pub fn check_seat(seat: usize) -> (r: Result<(), String>)
    ensures
        seat <= 1 ==> r is Ok,
        seat > 1 ==> (r matches Err(m) && m@ == "seat must be 0 or 1"@),
{
    if seat > 1 {
        return Err(String::from_str("seat must be 0 or 1"));
    }
    Ok(())
}

/// `c` with an ASCII capital letter made small.
pub open spec fn ascii_lower(c: char) -> char {
    if 'A' <= c && c <= 'Z' {
        ((c as int) + 32) as char
    } else {
        c
    }
}

/// Whether a player entry is the sentinel "interactive", in any ASCII case: the seat is then
/// driven through the control plane rather than by a bot.
pub open spec fn is_interactive_sentinel(s: Seq<char>) -> bool {
    s.len() == "interactive"@.len() && forall|i: int| 0 <= i < s.len() ==> ascii_lower(#[trigger] s[i])
        == "interactive"@[i]
}

fn lower(c: char) -> (r: char)
    ensures
        r == ascii_lower(c),
{
    if 'A' <= c && c <= 'Z' {
        ((c as u32) + 32) as u8 as char
    } else {
        c
    }
}

fn interactive_sentinel(s: &str) -> (b: bool)
    ensures
        b == is_interactive_sentinel(s@),
{
    let word = "interactive";
    proof {
        reveal_strlit("interactive");
    }
    let n = s.unicode_len();
    if n != word.unicode_len() {
        return false;
    }
    let mut i: usize = 0;
    while i < n
        invariant
            n == s@.len(),
            n == word@.len(),
            word@ == "interactive"@,
            i <= n,
            forall|j: int| 0 <= j < i ==> ascii_lower(#[trigger] s@[j]) == "interactive"@[j],
        decreases n - i,
    {
        if lower(s.get_char(i)) != word.get_char(i) {
            return false;
        }
        i = i + 1;
    }
    true
}

/// Which seats a list of player entries puts under outside control: those given as the
/// sentinel "interactive" (any ASCII case). Only the two seats can take it.
pub fn interactive_seats_from_players(players: &Vec<String>) -> (r: [bool; 2])
    requires
        forall|i: int| 2 <= i < players@.len() ==> !is_interactive_sentinel(#[trigger] players@[i]@),
    ensures
        r[0] == (players@.len() > 0 && is_interactive_sentinel(players@[0]@)),
        r[1] == (players@.len() > 1 && is_interactive_sentinel(players@[1]@)),
{
    let first = players.len() > 0 && interactive_sentinel(players[0].as_str());
    let second = players.len() > 1 && interactive_sentinel(players[1].as_str());
    [first, second]
}

impl Game {
    /// A hot-seat game: both seats under outside control, each choosing its own draws.
    pub fn hotseat() -> (g: Game)
        ensures
            g.seats() == seq![
                SeatMode::Interactive(InteractiveConfig { override_draws: true }),
                SeatMode::Interactive(InteractiveConfig { override_draws: true }),
            ],
    {
        let mut g = Game::new();
        g.set_interactive(0, InteractiveConfig { override_draws: true });
        g.set_interactive(1, InteractiveConfig { override_draws: true });
        assert(g.seats() =~= seq![
            SeatMode::Interactive(InteractiveConfig { override_draws: true }),
            SeatMode::Interactive(InteractiveConfig { override_draws: true }),
        ]);
        g
    }
}

} // verus!
