use vstd::prelude::*;

use crate::model::{Action, Card};
use crate::text::str_eq;
use crate::tui::listing::{
    lemma_tui_order_is_stable_sort, maybe_offer_draw_choice, opt_vec_view, sort_actions_for_tui, spec_draw_choice, tui_order,
    ITEMS_PER_PAGE,
};

verus! {

/// One state of a game as the viewer sees it: the engine's state itself, and what the viewer
/// reads off it (turn number, whether the game is over, the seat to act and its legal moves,
/// both hand sizes, and the remaining deck of the seat to act).
pub struct Frame<S> {
    pub state: S,
    pub turn_count: u8,
    pub game_over: bool,
    pub actor: usize,
    pub actions: Vec<Action>,
    pub hand_sizes: [usize; 2],
    pub actor_deck: Vec<Card>,
}

pub struct FrameView<S> {
    pub state: S,
    pub turn_count: u8,
    pub game_over: bool,
    pub actor: usize,
    pub actions: Seq<Action>,
    pub hand_sizes: [usize; 2],
    pub actor_deck: Seq<Card>,
}

impl<S> View for Frame<S> {
    type V = FrameView<S>;

    open spec fn view(&self) -> FrameView<S> {
        FrameView {
            state: self.state,
            turn_count: self.turn_count,
            game_over: self.game_over,
            actor: self.actor,
            actions: self.actions@,
            hand_sizes: self.hand_sizes,
            actor_deck: self.actor_deck@,
        }
    }
}

pub open spec fn frames_view<S>(v: Seq<Frame<S>>) -> Seq<FrameView<S>> {
    v.map_values(|f: Frame<S>| f@)
}

/// What the viewer shows: a finished game stepped through state by state, or a live game.
pub enum AppMode<S> {
    Replay { states: Vec<Frame<S>>, actions: Vec<Action>, current_index: usize },
    Interactive {
        /// The live game's current state.
        live: Frame<S>,
        current_actor: usize,
        /// The legal moves, in viewer order.
        possible_actions: Vec<Action>,
        /// Every move applied so far, human or bot.
        action_history: Vec<Action>,
        /// The turn number at which each entry of `action_history` was made.
        turn_history: Vec<u8>,
        /// The state just before each entry of `action_history` was applied (same length and
        /// indices); undo restores the last one.
        state_history: Vec<Frame<S>>,
        /// Which seats are human-controlled (any number, including both for hot-seat play).
        human_seats: [bool; 2],
        /// Whether human seats choose the card for their opening-hand and turn-start draws.
        draw_override_enabled: bool,
        /// The cards offered when the human to act must pick which card to draw.
        draw_choice: Option<Vec<Card>>,
    },
}

pub enum AppModeView<S> {
    Replay { states: Seq<FrameView<S>>, actions: Seq<Action>, current_index: usize },
    Interactive {
        live: FrameView<S>,
        current_actor: usize,
        possible_actions: Seq<Action>,
        action_history: Seq<Action>,
        turn_history: Seq<u8>,
        state_history: Seq<FrameView<S>>,
        human_seats: [bool; 2],
        draw_override_enabled: bool,
        draw_choice: Option<Seq<Card>>,
    },
}

#[derive(Clone, Copy, Debug, PartialEq, Eq, Structural)]
pub enum SelectionState {
    AwaitingActionSelection,
    /// The human picked the item at this absolute index of the current list.
    ActionSelected { action_index: usize },
}

/// The viewer's state: what it shows, the pending selection, and its scroll and paging
/// positions.
pub struct App<S> {
    pub mode: AppMode<S>,
    pub selection_state: SelectionState,
    pub scroll_offset: u16,
    pub player_hand_scroll: usize,
    pub opponent_hand_scroll: usize,
    pub lock_actions_center: bool,
    /// Which page of the current action or draw-choice list is shown; back to 0 whenever a
    /// new list is presented.
    pub action_page: usize,
}

pub struct AppView<S> {
    pub mode: AppModeView<S>,
    pub selection_state: SelectionState,
    pub scroll_offset: u16,
    pub player_hand_scroll: usize,
    pub opponent_hand_scroll: usize,
    pub lock_actions_center: bool,
    pub action_page: usize,
}

impl<S> View for App<S> {
    type V = AppView<S>;

    open spec fn view(&self) -> AppView<S> {
        AppView {
            mode: match &self.mode {
                AppMode::Replay { states, actions, current_index } => AppModeView::Replay {
                    states: frames_view(states@),
                    actions: actions@,
                    current_index: *current_index,
                },
                AppMode::Interactive {
                    live,
                    current_actor,
                    possible_actions,
                    action_history,
                    turn_history,
                    state_history,
                    human_seats,
                    draw_override_enabled,
                    draw_choice,
                } => AppModeView::Interactive {
                    live: live@,
                    current_actor: *current_actor,
                    possible_actions: possible_actions@,
                    action_history: action_history@,
                    turn_history: turn_history@,
                    state_history: frames_view(state_history@),
                    human_seats: *human_seats,
                    draw_override_enabled: *draw_override_enabled,
                    draw_choice: opt_vec_view(*draw_choice),
                },
            },
            selection_state: self.selection_state,
            scroll_offset: self.scroll_offset,
            player_hand_scroll: self.player_hand_scroll,
            opponent_hand_scroll: self.opponent_hand_scroll,
            lock_actions_center: self.lock_actions_center,
            action_page: self.action_page,
        }
    }
}

/// Number of items in the list currently up for selection: the draw candidates if a draw
/// choice is offered, else the legal moves; 0 in replay.
pub open spec fn spec_selectable_count<S>(v: AppView<S>) -> nat {
    match v.mode {
        AppModeView::Replay { .. } => 0,
        AppModeView::Interactive { possible_actions, draw_choice, .. } => match draw_choice {
            Some(c) => c.len(),
            None => possible_actions.len(),
        },
    }
}

/// The well-formedness of the viewer's state.
pub open spec fn app_wf<S>(v: AppView<S>) -> bool {
    match v.mode {
        AppModeView::Replay { states, actions, current_index } => {
            &&& states.len() >= 1
            &&& states.len() == actions.len() + 1
            &&& current_index < states.len()
            &&& forall|i: int| 0 <= i < states.len() ==> #[trigger] states[i].actor < 2
        },
        AppModeView::Interactive {
            live,
            current_actor,
            possible_actions,
            action_history,
            turn_history,
            state_history,
            draw_choice,
            ..
        } => {
            &&& live.actor < 2
            &&& current_actor == live.actor
            &&& possible_actions == tui_order(live.actions)
            &&& action_history.len() == turn_history.len()
            &&& turn_history.len() == state_history.len()
            &&& forall|i: int| 0 <= i < turn_history.len() ==> #[trigger] turn_history[i]
                == state_history[i].turn_count
            &&& forall|i: int| 0 <= i < state_history.len() ==> #[trigger] state_history[i].actor < 2
            &&& (draw_choice matches Some(c) ==> {
                &&& c.len() > 0
                &&& c == live.actor_deck
                &&& possible_actions.len() == 1
                &&& possible_actions[0].kind is DrawCard
            })
            &&& (v.selection_state matches SelectionState::ActionSelected { action_index }
                ==> action_index < spec_selectable_count(v))
        },
    }
}

/// The frame on screen: the replay's current state, or the live state.
pub open spec fn spec_current_frame<S>(v: AppView<S>) -> FrameView<S> {
    match v.mode {
        AppModeView::Replay { states, current_index, .. } => states[current_index as int],
        AppModeView::Interactive { live, .. } => live,
    }
}

/// The seat drawn at the bottom ("your side"): the only human seat if exactly one seat is
/// human, else seat 1.
pub open spec fn spec_bottom_seat<S>(v: AppView<S>) -> usize {
    match v.mode {
        AppModeView::Replay { .. } => 1,
        AppModeView::Interactive { human_seats, .. } => if human_seats[0] && !human_seats[1] {
            0
        } else {
            1
        },
    }
}

pub open spec fn saturating_sub5(n: usize) -> usize {
    if n >= 5 {
        (n - 5) as usize
    } else {
        0
    }
}

pub open spec fn with_replay_index<S>(v: AppView<S>, i: usize) -> AppView<S> {
    match v.mode {
        AppModeView::Replay { states, actions, .. } => AppView {
            mode: AppModeView::Replay { states, actions, current_index: i },
            ..v
        },
        _ => v,
    }
}

/// Moves the replay one state forward, stopping at the last state.
pub open spec fn spec_next_state<S>(v: AppView<S>) -> AppView<S> {
    match v.mode {
        AppModeView::Replay { states, current_index, .. } => if current_index + 1 < states.len() {
            with_replay_index(v, (current_index + 1) as usize)
        } else {
            v
        },
        _ => v,
    }
}

/// Moves the replay one state back, stopping at the first state.
pub open spec fn spec_prev_state<S>(v: AppView<S>) -> AppView<S> {
    match v.mode {
        AppModeView::Replay { current_index, .. } => if current_index > 0 {
            with_replay_index(v, (current_index - 1) as usize)
        } else {
            v
        },
        _ => v,
    }
}

/// The last page of the current list.
pub open spec fn spec_max_page<S>(v: AppView<S>) -> nat {
    (if spec_selectable_count(v) >= 1 {
        (spec_selectable_count(v) - 1) as nat
    } else {
        0nat
    }) / (ITEMS_PER_PAGE as nat)
}

/// What the game driver must do after a tick of the viewer.
#[derive(Clone, Copy, Debug, PartialEq, Eq, Structural)]
pub enum TickCommand {
    /// Nothing this tick (a human has yet to choose, or the viewer is a replay).
    Wait,
    /// Apply this move: the human's pick, or the only legal move of a human seat.
    Apply(Action),
    /// Put `card` on top of the seat's deck, then apply the draw move `action`.
    DrawChosen { card: Card, action: Action },
    /// Let the seat to act, a bot, choose and apply its own move.
    BotPlay,
}

pub open spec fn set_draw_choice<S>(m: AppModeView<S>, dc: Option<Seq<Card>>) -> AppModeView<S> {
    match m {
        AppModeView::Interactive {
            live,
            current_actor,
            possible_actions,
            action_history,
            turn_history,
            state_history,
            human_seats,
            draw_override_enabled,
            ..
        } => AppModeView::Interactive {
            live,
            current_actor,
            possible_actions,
            action_history,
            turn_history,
            state_history,
            human_seats,
            draw_override_enabled,
            draw_choice: dc,
        },
        _ => m,
    }
}

/// One tick of the live viewer: the viewer's next state and what the driver must do.
/// A pending pick is turned into its move (the picked draw candidate goes on top of the deck
/// before the draw), and the selection, page and draw choice are cleared. Otherwise a bot
/// seat plays; a human seat is offered a draw choice when one is due, has its only legal move
/// applied for it, or is waited for.
pub open spec fn spec_tick<S>(v: AppView<S>) -> (AppView<S>, TickCommand) {
    match v.mode {
        AppModeView::Replay { .. } => (v, TickCommand::Wait),
        AppModeView::Interactive {
            live,
            current_actor,
            possible_actions,
            human_seats,
            draw_override_enabled,
            draw_choice,
            ..
        } => match v.selection_state {
            SelectionState::ActionSelected { action_index } => (
                AppView {
                    mode: set_draw_choice(v.mode, None),
                    selection_state: SelectionState::AwaitingActionSelection,
                    action_page: 0,
                    ..v
                },
                match draw_choice {
                    Some(c) => TickCommand::DrawChosen {
                        card: c[action_index as int],
                        action: possible_actions[0],
                    },
                    None => TickCommand::Apply(possible_actions[action_index as int]),
                },
            ),
            SelectionState::AwaitingActionSelection => {
                if !human_seats[current_actor as int] {
                    (v, TickCommand::BotPlay)
                } else if draw_choice is None {
                    let offer = spec_draw_choice(
                        true,
                        possible_actions,
                        draw_override_enabled,
                        live.actor_deck,
                    );
                    if offer is Some {
                        (
                            AppView { mode: set_draw_choice(v.mode, offer), action_page: 0, ..v },
                            TickCommand::Wait,
                        )
                    } else if possible_actions.len() == 1 {
                        (v, TickCommand::Apply(possible_actions[0]))
                    } else {
                        (v, TickCommand::Wait)
                    }
                } else {
                    (v, TickCommand::Wait)
                }
            },
        },
    }
}

/// Records that the driver applied `applied` to the live state, giving the state `next`: the
/// old live state, its turn number and the move join the histories, and `next` is shown
/// with its legal moves, on the first page, with no selection or draw choice pending.
pub open spec fn spec_complete_tick<S>(v: AppView<S>, applied: Action, next: FrameView<S>) -> AppView<S> {
    match v.mode {
        AppModeView::Replay { .. } => v,
        AppModeView::Interactive {
            live,
            action_history,
            turn_history,
            state_history,
            human_seats,
            draw_override_enabled,
            ..
        } => AppView {
            mode: AppModeView::Interactive {
                live: next,
                current_actor: next.actor,
                possible_actions: tui_order(next.actions),
                action_history: action_history.push(applied),
                turn_history: turn_history.push(live.turn_count),
                state_history: state_history.push(live),
                human_seats,
                draw_override_enabled,
                draw_choice: None,
            },
            selection_state: SelectionState::AwaitingActionSelection,
            action_page: 0,
            ..v
        },
    }
}

/// Rolls the live game back one applied move (human or bot, whichever came last): the state
/// before it is shown again with its legal moves and, when due, its draw choice; the last
/// entry of each history is dropped. No change when nothing was applied, or in replay.
pub open spec fn spec_undo<S>(v: AppView<S>) -> AppView<S> {
    match v.mode {
        AppModeView::Interactive {
            action_history,
            turn_history,
            state_history,
            human_seats,
            draw_override_enabled,
            ..
        } => if state_history.len() > 0 {
            let prev = state_history.last();
            let pa = tui_order(prev.actions);
            AppView {
                mode: AppModeView::Interactive {
                    live: prev,
                    current_actor: prev.actor,
                    possible_actions: pa,
                    action_history: action_history.drop_last(),
                    turn_history: turn_history.drop_last(),
                    state_history: state_history.drop_last(),
                    human_seats,
                    draw_override_enabled,
                    draw_choice: spec_draw_choice(
                        human_seats[prev.actor as int],
                        pa,
                        draw_override_enabled,
                        prev.actor_deck,
                    ),
                },
                selection_state: SelectionState::AwaitingActionSelection,
                action_page: 0,
                ..v
            }
        } else {
            v
        },
        _ => v,
    }
}

/// The first index in `lo..hi` where `p` holds, if any.
pub open spec fn first_where(lo: int, hi: int, p: spec_fn(int) -> bool) -> Option<int> {
    if exists|j: int| lo <= j < hi && #[trigger] p(j) {
        Some(choose|j: int| #![trigger p(j)] lo <= j < hi && p(j) && forall|k: int| lo <= k < j ==> !#[trigger] p(k))
    } else {
        None
    }
}

/// The last index in `lo..hi` where `p` holds, if any.
pub open spec fn last_where(lo: int, hi: int, p: spec_fn(int) -> bool) -> Option<int> {
    if exists|j: int| lo <= j < hi && #[trigger] p(j) {
        Some(choose|j: int| #![trigger p(j)] lo <= j < hi && p(j) && forall|k: int| j < k < hi ==> !#[trigger] p(k))
    } else {
        None
    }
}

proof fn lemma_first_where_is(lo: int, hi: int, p: spec_fn(int) -> bool, j: int)
    requires
        lo <= j < hi,
        p(j),
        forall|k: int| lo <= k < j ==> !#[trigger] p(k),
    ensures
        first_where(lo, hi, p) == Some(j),
{
    let w = choose|w: int| #![trigger p(w)] lo <= w < hi && p(w) && forall|k: int| lo <= k < w ==> !#[trigger] p(k);
    assert(lo <= w < hi && p(w) && forall|k: int| lo <= k < w ==> !#[trigger] p(k));
    if w < j {
        assert(!p(w));
    } else if w > j {
        assert(!p(j));
    }
}

proof fn lemma_last_where_is(lo: int, hi: int, p: spec_fn(int) -> bool, j: int)
    requires
        lo <= j < hi,
        p(j),
        forall|k: int| j < k < hi ==> !#[trigger] p(k),
    ensures
        last_where(lo, hi, p) == Some(j),
{
    let w = choose|w: int| #![trigger p(w)] lo <= w < hi && p(w) && forall|k: int| w < k < hi ==> !#[trigger] p(k);
    assert(lo <= w < hi && p(w) && forall|k: int| w < k < hi ==> !#[trigger] p(k));
    if w < j {
        assert(!p(j));
    } else if w > j {
        assert(!p(w));
    }
}

/// Layout of the live battle log after its first `k` moves, whose turn numbers are `turns`:
/// one header line opens the log, each move takes a line, and when the turn changes between
/// two consecutive moves a blank line and a new header line come before the later move.
/// Gives the number of lines and the line numbers of the headers.
pub open spec fn live_log(turns: Seq<u8>, k: nat) -> (int, Seq<int>)
    decreases k,
{
    if k == 0 {
        (1, seq![0])
    } else {
        let (lines, headers) = live_log(turns, (k - 1) as nat);
        let i = k - 1;
        if i + 1 < turns.len() && turns[i + 1] != turns[i] {
            (lines + 3, headers.push(lines + 2))
        } else {
            (lines + 1, headers)
        }
    }
}

/// Layout of a replay's battle log after its first `k` moves, for states with turn numbers
/// `turns`, `n_actions` moves and the cursor before move `cursor`: a header opens the log,
/// a cursor line comes before move `cursor`, each move takes a line, and when the turn
/// changes between a move and the next one, a blank line and a header come before the next
/// one. Gives the number of lines and the line numbers of the headers.
pub open spec fn replay_log(turns: Seq<u8>, n_actions: nat, cursor: int, k: nat) -> (int, Seq<int>)
    decreases k,
{
    if k == 0 {
        (1, seq![0])
    } else {
        let (lines, headers) = replay_log(turns, n_actions, cursor, (k - 1) as nat);
        let i = k - 1;
        let after_move = lines + (if i == cursor {
            1int
        } else {
            0int
        }) + 1;
        if i + 1 < n_actions && i + 1 < turns.len() && turns[i + 1] != turns[i] {
            (after_move + 2, headers.push(after_move + 1))
        } else {
            (after_move, headers)
        }
    }
}

pub open spec fn frame_turns<S>(frames: Seq<FrameView<S>>) -> Seq<u8> {
    frames.map_values(|f: FrameView<S>| f.turn_count)
}

/// The battle log's layout for the viewer's current content (line count, header lines).
pub open spec fn spec_log_layout<S>(v: AppView<S>) -> (int, Seq<int>) {
    match v.mode {
        AppModeView::Interactive { turn_history, action_history, .. } => live_log(
            turn_history,
            action_history.len(),
        ),
        AppModeView::Replay { states, actions, current_index } => replay_log(
            frame_turns(states),
            actions.len(),
            current_index as int,
            actions.len(),
        ),
    }
}

/// The line numbers of the battle log's turn headers.
pub open spec fn spec_turn_boundaries<S>(v: AppView<S>) -> Seq<int> {
    spec_log_layout(v).1
}

/// Whether the battle log's line numbers fit in a `usize`.
pub open spec fn log_fits<S>(v: AppView<S>) -> bool {
    spec_log_layout(v).0 <= usize::MAX
}

pub open spec fn header_below(b: Seq<int>, line: int) -> spec_fn(int) -> bool {
    |k: int| b[k] > line
}

pub open spec fn header_above(b: Seq<int>, line: int) -> spec_fn(int) -> bool {
    |k: int| b[k] < line
}

pub open spec fn as_ints(b: Seq<usize>) -> Seq<int> {
    b.map_values(|x: usize| x as int)
}

/// Scrolls the battle log to the next turn header below the current top line (forward) or
/// the previous one above it (backward); no change when there is none.
pub open spec fn scroll_to_header<S>(v: AppView<S>, forward: bool) -> AppView<S> {
    let b = spec_turn_boundaries(v);
    let cur = v.scroll_offset as int;
    let found = if forward {
        first_where(0, b.len() as int, header_below(b, cur))
    } else {
        last_where(0, b.len() as int, header_above(b, cur))
    };
    match found {
        Some(k) => AppView { scroll_offset: b[k] as u16, ..v },
        None => v,
    }
}

pub open spec fn turn_differs(turns: Seq<u8>, c: int) -> spec_fn(int) -> bool {
    |j: int| turns[j] != turns[c]
}

pub open spec fn turn_equals(turns: Seq<u8>, c: int) -> spec_fn(int) -> bool {
    |j: int| turns[j] == turns[c]
}

/// The replay index a turn jump lands on from `cur`: the first state of the nearest turn
/// after (forward) or before (backward) the current state's turn; `cur` itself when there
/// is none.
pub open spec fn spec_replay_jump_index(turns: Seq<u8>, cur: int, forward: bool) -> int {
    let valid = if forward {
        cur < turns.len()
    } else {
        cur > 0
    };
    if valid {
        let target = if forward {
            first_where(cur + 1, turns.len() as int, turn_differs(turns, cur))
        } else {
            last_where(0, cur, turn_differs(turns, cur))
        };
        match target {
            Some(t) => match first_where(0, turns.len() as int, turn_equals(turns, t)) {
                Some(i) => i,
                None => cur,
            },
            None => cur,
        }
    } else {
        cur
    }
}

/// A turn jump: with the view centered on the current move, a replay moves to the first state
/// of the next (previous) turn; otherwise, and in a live game, the battle log scrolls to the
/// next (previous) turn header.
pub open spec fn spec_jump_turn<S>(v: AppView<S>, forward: bool) -> AppView<S> {
    if v.lock_actions_center {
        match v.mode {
            AppModeView::Replay { states, current_index, .. } => with_replay_index(
                v,
                spec_replay_jump_index(frame_turns(states), current_index as int, forward) as usize,
            ),
            AppModeView::Interactive { .. } => scroll_to_header(v, forward),
        }
    } else {
        scroll_to_header(v, forward)
    }
}

/// The view after the actions list's centering lock is toggled.
pub open spec fn spec_toggle_lock<S>(v: AppView<S>) -> AppView<S> {
    AppView { lock_actions_center: !v.lock_actions_center, ..v }
}

/// The view after the battle log scrolls up ten lines, stopping at the top.
pub open spec fn spec_scroll_page_up<S>(v: AppView<S>) -> AppView<S> {
    AppView {
        scroll_offset: if v.scroll_offset >= 10 {
            (v.scroll_offset - 10) as u16
        } else {
            0
        },
        ..v
    }
}

/// The view after the battle log scrolls down ten lines, stopping at the largest offset.
pub open spec fn spec_scroll_page_down<S>(v: AppView<S>) -> AppView<S> {
    AppView {
        scroll_offset: if v.scroll_offset as int + 10 <= u16::MAX {
            (v.scroll_offset + 10) as u16
        } else {
            u16::MAX
        },
        ..v
    }
}

/// The view after the bottom seat's hand scrolls one card left, stopping at the first.
pub open spec fn spec_scroll_player_left<S>(v: AppView<S>) -> AppView<S> {
    AppView {
        player_hand_scroll: if v.player_hand_scroll >= 1 {
            (v.player_hand_scroll - 1) as usize
        } else {
            0
        },
        ..v
    }
}

/// The view after the bottom seat's hand scrolls one card right, as long as five cards stay
/// in view.
pub open spec fn spec_scroll_player_right<S>(v: AppView<S>) -> AppView<S> {
    AppView {
        player_hand_scroll: if v.player_hand_scroll < saturating_sub5(
            spec_current_frame(v).hand_sizes[spec_bottom_seat(v) as int],
        ) {
            (v.player_hand_scroll + 1) as usize
        } else {
            v.player_hand_scroll
        },
        ..v
    }
}

/// The view after the top seat's hand scrolls one card left, stopping at the first.
pub open spec fn spec_scroll_opponent_left<S>(v: AppView<S>) -> AppView<S> {
    AppView {
        opponent_hand_scroll: if v.opponent_hand_scroll >= 1 {
            (v.opponent_hand_scroll - 1) as usize
        } else {
            0
        },
        ..v
    }
}

/// The view after the top seat's hand scrolls one card right, as long as five cards stay in
/// view.
pub open spec fn spec_scroll_opponent_right<S>(v: AppView<S>) -> AppView<S> {
    AppView {
        opponent_hand_scroll: if v.opponent_hand_scroll < saturating_sub5(
            spec_current_frame(v).hand_sizes[1 - spec_bottom_seat(v)],
        ) {
            (v.opponent_hand_scroll + 1) as usize
        } else {
            v.opponent_hand_scroll
        },
        ..v
    }
}

/// The view after the human picks the item at `index` of the current page: the item at
/// that place of the whole list is selected, if there is one (and never in replay).
pub open spec fn spec_select<S>(v: AppView<S>, index: int) -> AppView<S> {
    if v.mode is Interactive && v.action_page * ITEMS_PER_PAGE + index < spec_selectable_count(v) {
        AppView {
            selection_state: SelectionState::ActionSelected {
                action_index: (v.action_page * ITEMS_PER_PAGE + index) as usize,
            },
            ..v
        }
    } else {
        v
    }
}

/// The view after paging forward through the current list, if there is a next page.
pub open spec fn spec_next_page<S>(v: AppView<S>) -> AppView<S> {
    if v.action_page < spec_max_page(v) {
        AppView { action_page: (v.action_page + 1) as usize, ..v }
    } else {
        v
    }
}

/// The view after paging back through the current list, stopping at the first page.
pub open spec fn spec_prev_page<S>(v: AppView<S>) -> AppView<S> {
    AppView {
        action_page: if v.action_page >= 1 {
            (v.action_page - 1) as usize
        } else {
            0
        },
        ..v
    }
}

/// Whether a turn jump from `v` keeps its line numbers within `usize` (always so for a
/// centered replay, which does not count lines).
pub open spec fn jump_fits<S>(v: AppView<S>) -> bool {
    (v.lock_actions_center && v.mode is Replay) || log_fits(v)
}

impl<S> App<S> {
    pub open spec fn wf(&self) -> bool {
        app_wf(self@)
    }

    /// A viewer for a live game whose current state is `first`. Seats listed in
    /// `human_seats` pause for clicks; with `draw_override_enabled`, their opening-hand and
    /// turn-start draws offer a card choice.
    pub fn new_interactive(first: Frame<S>, human_seats: [bool; 2], draw_override_enabled: bool) -> (app: App<S>)
        requires
            first.actor < 2,
        ensures
            app.wf(),
            app@.mode == (AppModeView::Interactive {
                live: first@,
                current_actor: first.actor,
                possible_actions: tui_order(first@.actions),
                action_history: Seq::<Action>::empty(),
                turn_history: Seq::<u8>::empty(),
                state_history: Seq::<FrameView<S>>::empty(),
                human_seats,
                draw_override_enabled,
                draw_choice: spec_draw_choice(
                    human_seats[first.actor as int],
                    tui_order(first@.actions),
                    draw_override_enabled,
                    first@.actor_deck,
                ),
            }),
            app.selection_state == SelectionState::AwaitingActionSelection,
            app.scroll_offset == 0,
            app.player_hand_scroll == 0,
            app.opponent_hand_scroll == 0,
            app.lock_actions_center,
            app.action_page == 0,
    {
        let mut possible_actions = first.actions.clone();
        assert(possible_actions@ =~= first.actions@);
        sort_actions_for_tui(&mut possible_actions);
        let draw_choice = maybe_offer_draw_choice(
            human_seats[first.actor],
            &possible_actions,
            draw_override_enabled,
            &first.actor_deck,
        );
        let current_actor = first.actor;
        let app = App {
            mode: AppMode::Interactive {
                live: first,
                current_actor,
                possible_actions,
                action_history: Vec::new(),
                turn_history: Vec::new(),
                state_history: Vec::new(),
                human_seats,
                draw_override_enabled,
                draw_choice,
            },
            selection_state: SelectionState::AwaitingActionSelection,
            scroll_offset: 0,
            player_hand_scroll: 0,
            opponent_hand_scroll: 0,
            lock_actions_center: true,
            action_page: 0,
        };
        assert(frames_view(Seq::<Frame<S>>::empty()) =~= Seq::<FrameView<S>>::empty());
        app
    }

    /// A viewer stepping through a finished game: `states[i + 1]` is the state after
    /// `actions[i]` was applied to `states[i]`.
    pub fn new_replay(states: Vec<Frame<S>>, actions: Vec<Action>) -> (app: App<S>)
        requires
            states@.len() == actions@.len() + 1,
            forall|i: int| 0 <= i < states@.len() ==> #[trigger] states@[i].actor < 2,
        ensures
            app.wf(),
            app@.mode == (AppModeView::Replay {
                states: frames_view(states@),
                actions: actions@,
                current_index: 0,
            }),
            app.selection_state == SelectionState::AwaitingActionSelection,
            app.scroll_offset == 0,
            app.player_hand_scroll == 0,
            app.opponent_hand_scroll == 0,
            app.lock_actions_center,
            app.action_page == 0,
    {
        App {
            mode: AppMode::Replay { states, actions, current_index: 0 },
            selection_state: SelectionState::AwaitingActionSelection,
            scroll_offset: 0,
            player_hand_scroll: 0,
            opponent_hand_scroll: 0,
            lock_actions_center: true,
            action_page: 0,
        }
    }

    /// The state on screen.
    pub fn get_state(&self) -> (s: &S)
        requires
            self.wf(),
        ensures
            *s == spec_current_frame(self@).state,
    {
        match &self.mode {
            AppMode::Replay { states, current_index, .. } => &states[*current_index].state,
            AppMode::Interactive { live, .. } => &live.state,
        }
    }

    fn current_frame(&self) -> (f: &Frame<S>)
        requires
            self.wf(),
        ensures
            f@ == spec_current_frame(self@),
    {
        match &self.mode {
            AppMode::Replay { states, current_index, .. } => &states[*current_index],
            AppMode::Interactive { live, .. } => live,
        }
    }

    /// Steps the replay forward one state (no-op at the last state, or in a live game).
    pub fn next_state(&mut self)
        requires
            old(self).wf(),
        ensures
            final(self).wf(),
            final(self)@ == spec_next_state(old(self)@),
    {
        if let AppMode::Replay { current_index, states, .. } = &mut self.mode {
            if *current_index < states.len() - 1 {
                *current_index = *current_index + 1;
            }
        }
    }

    /// Steps the replay back one state (no-op at the first state, or in a live game).
    pub fn prev_state(&mut self)
        requires
            old(self).wf(),
        ensures
            final(self).wf(),
            final(self)@ == spec_prev_state(old(self)@),
    {
        if let AppMode::Replay { current_index, .. } = &mut self.mode {
            if *current_index > 0 {
                *current_index = *current_index - 1;
            }
        }
    }

    pub fn toggle_lock_actions_center(&mut self)
        requires
            old(self).wf(),
        ensures
            final(self).wf(),
            final(self)@ == spec_toggle_lock(old(self)@),
    {
        self.lock_actions_center = !self.lock_actions_center;
    }

    pub fn scroll_page_up(&mut self)
        requires
            old(self).wf(),
        ensures
            final(self).wf(),
            final(self)@ == spec_scroll_page_up(old(self)@),
    {
        self.scroll_offset = self.scroll_offset.saturating_sub(10);
    }

    pub fn scroll_page_down(&mut self)
        requires
            old(self).wf(),
        ensures
            final(self).wf(),
            final(self)@ == spec_scroll_page_down(old(self)@),
    {
        self.scroll_offset = self.scroll_offset.saturating_add(10);
    }

    pub fn scroll_player_hand_left(&mut self)
        requires
            old(self).wf(),
        ensures
            final(self).wf(),
            final(self)@ == spec_scroll_player_left(old(self)@),
    {
        self.player_hand_scroll = self.player_hand_scroll.saturating_sub(1);
    }

    /// Scrolls the bottom seat's hand one card right, as long as five cards stay in view.
    pub fn scroll_player_hand_right(&mut self)
        requires
            old(self).wf(),
        ensures
            final(self).wf(),
            final(self)@ == spec_scroll_player_right(old(self)@),
    {
        let bottom_seat = self.bottom_seat();
        let player_hand_size = self.current_frame().hand_sizes[bottom_seat];
        if self.player_hand_scroll < player_hand_size.saturating_sub(5) {
            self.player_hand_scroll = self.player_hand_scroll + 1;
        }
    }

    pub fn scroll_opponent_hand_left(&mut self)
        requires
            old(self).wf(),
        ensures
            final(self).wf(),
            final(self)@ == spec_scroll_opponent_left(old(self)@),
    {
        self.opponent_hand_scroll = self.opponent_hand_scroll.saturating_sub(1);
    }

    /// Scrolls the top seat's hand one card right, as long as five cards stay in view.
    pub fn scroll_opponent_hand_right(&mut self)
        requires
            old(self).wf(),
        ensures
            final(self).wf(),
            final(self)@ == spec_scroll_opponent_right(old(self)@),
    {
        let top_seat = 1 - self.bottom_seat();
        let opponent_hand_size = self.current_frame().hand_sizes[top_seat];
        if self.opponent_hand_scroll < opponent_hand_size.saturating_sub(5) {
            self.opponent_hand_scroll = self.opponent_hand_scroll + 1;
        }
    }

    fn current_selectable_count(&self) -> (n: usize)
        ensures
            n == spec_selectable_count(self@),
    {
        match &self.mode {
            AppMode::Interactive { possible_actions, draw_choice, .. } => match draw_choice {
                Some(candidates) => candidates.len(),
                None => possible_actions.len(),
            },
            AppMode::Replay { .. } => 0,
        }
    }

    /// Records the human's pick of the item at `index` within the current page (what keys
    /// 1-9 mean on screen), turned into its absolute index in the whole list; ignored when
    /// no such item exists, or in replay.
    pub fn handle_action_selection(&mut self, index: usize)
        requires
            old(self).wf(),
        ensures
            final(self).wf(),
            final(self)@ == spec_select(old(self)@, index as int),
    {
        if let AppMode::Interactive { .. } = &self.mode {
            let count = self.current_selectable_count();
            // An index past `usize` is past the list as well.
            if let Some(first) = self.action_page.checked_mul(ITEMS_PER_PAGE) {
                if let Some(absolute_index) = first.checked_add(index) {
                    if absolute_index < count {
                        self.selection_state = SelectionState::ActionSelected {
                            action_index: absolute_index,
                        };
                    }
                }
            }
        }
    }

    /// Shows the next page of the current list, if there is one.
    pub fn next_action_page(&mut self)
        requires
            old(self).wf(),
        ensures
            final(self).wf(),
            final(self)@ == spec_next_page(old(self)@),
    {
        let total = self.current_selectable_count();
        let max_page = total.saturating_sub(1) / ITEMS_PER_PAGE;
        if self.action_page < max_page {
            self.action_page = self.action_page + 1;
        }
    }

    /// Shows the previous page of the current list, stopping at the first.
    pub fn prev_action_page(&mut self)
        requires
            old(self).wf(),
        ensures
            final(self).wf(),
            final(self)@ == spec_prev_page(old(self)@),
    {
        self.action_page = self.action_page.saturating_sub(1);
    }

    /// Whether there is an applied move to roll back; never in replay.
    pub fn can_undo(&self) -> (b: bool)
        ensures
            b == (self@.mode matches AppModeView::Interactive { state_history, .. }
                && state_history.len() > 0),
    {
        match &self.mode {
            AppMode::Replay { .. } => false,
            AppMode::Interactive { state_history, .. } => state_history.len() > 0,
        }
    }

    /// Whether the live game has ended; a replay never ends on its own.
    pub fn is_game_over(&self) -> (b: bool)
        ensures
            b == (self@.mode matches AppModeView::Interactive { live, .. } && live.game_over),
    {
        match &self.mode {
            AppMode::Replay { .. } => false,
            AppMode::Interactive { live, .. } => live.game_over,
        }
    }

    /// The legal moves at the state on screen, in viewer order.
    pub fn get_possible_actions(&self) -> (r: Vec<Action>)
        requires
            self.wf(),
        ensures
            r@ == tui_order(spec_current_frame(self@).actions),
    {
        match &self.mode {
            AppMode::Replay { states, current_index, .. } => {
                let mut actions = states[*current_index].actions.clone();
                assert(actions@ =~= states@[*current_index as int].actions@);
                sort_actions_for_tui(&mut actions);
                actions
            },
            AppMode::Interactive { possible_actions, .. } => {
                let r = possible_actions.clone();
                assert(r@ =~= possible_actions@);
                r
            },
        }
    }

    /// The cards offered when the human to act must pick which card to draw; never in
    /// replay.
    pub fn get_draw_choice(&self) -> (r: Option<&[Card]>)
        ensures
            match self@.mode {
                AppModeView::Replay { .. } => r is None,
                AppModeView::Interactive { draw_choice, .. } => match draw_choice {
                    Some(c) => r is Some && r->0@ == c,
                    None => r is None,
                },
            },
    {
        match &self.mode {
            AppMode::Replay { .. } => None,
            AppMode::Interactive { draw_choice, .. } => match draw_choice {
                Some(c) => Some(c.as_slice()),
                None => None,
            },
        }
    }

    /// The seat to act at the state on screen.
    pub fn get_current_actor(&self) -> (a: usize)
        requires
            self.wf(),
        ensures
            a == spec_current_frame(self@).actor,
            a < 2,
    {
        match &self.mode {
            AppMode::Replay { states, current_index, .. } => {
                assert(frames_view(states@)[*current_index as int] == states@[*current_index as int]@);
                assert(frames_view(states@)[*current_index as int].actor < 2);
                states[*current_index].actor
            },
            AppMode::Interactive { current_actor, .. } => *current_actor,
        }
    }

    /// Whether the seat to act is human (waits for a key press); never in replay.
    pub fn is_current_actor_human(&self) -> (b: bool)
        requires
            self.wf(),
        ensures
            b == (self@.mode matches AppModeView::Interactive { current_actor, human_seats, .. }
                && human_seats[current_actor as int]),
    {
        match &self.mode {
            AppMode::Replay { .. } => false,
            AppMode::Interactive { current_actor, human_seats, .. } => human_seats[*current_actor],
        }
    }

    /// The seat drawn at the bottom of the board: see `spec_bottom_seat`.
    pub fn bottom_seat(&self) -> (s: usize)
        ensures
            s == spec_bottom_seat(self@),
            s < 2,
    {
        match &self.mode {
            AppMode::Replay { .. } => 1,
            AppMode::Interactive { human_seats, .. } => {
                if human_seats[0] && !human_seats[1] {
                    0
                } else {
                    1
                }
            },
        }
    }

    /// Whether `seat`'s hand is shown face up: a human seat's always; in replay only the
    /// bottom seat's.
    pub fn is_hand_revealed(&self, seat: usize) -> (b: bool)
        requires
            seat < 2,
        ensures
            b == match self@.mode {
                AppModeView::Replay { .. } => seat == spec_bottom_seat(self@),
                AppModeView::Interactive { human_seats, .. } => human_seats[seat as int],
            },
    {
        match &self.mode {
            AppMode::Replay { .. } => seat == self.bottom_seat(),
            AppMode::Interactive { human_seats, .. } => human_seats[seat],
        }
    }

    pub fn get_current_state_index(&self) -> (i: usize)
        ensures
            i == match self@.mode {
                AppModeView::Replay { current_index, .. } => current_index,
                AppModeView::Interactive { .. } => 0,
            },
    {
        match &self.mode {
            AppMode::Replay { current_index, .. } => *current_index,
            AppMode::Interactive { .. } => 0,
        }
    }

    pub fn get_states_len(&self) -> (n: usize)
        ensures
            n == match self@.mode {
                AppModeView::Replay { states, .. } => states.len(),
                AppModeView::Interactive { .. } => 1,
            },
    {
        match &self.mode {
            AppMode::Replay { states, .. } => states.len(),
            AppMode::Interactive { .. } => 1,
        }
    }

    /// The moves made: the whole game in replay, the moves applied so far in a live game.
    pub fn get_actions(&self) -> (r: Vec<Action>)
        ensures
            r@ == match self@.mode {
                AppModeView::Replay { actions, .. } => actions,
                AppModeView::Interactive { action_history, .. } => action_history,
            },
    {
        match &self.mode {
            AppMode::Replay { actions, .. } => {
                let r = actions.clone();
                assert(r@ =~= actions@);
                r
            },
            AppMode::Interactive { action_history, .. } => {
                let r = action_history.clone();
                assert(r@ =~= action_history@);
                r
            },
        }
    }

    /// The turn number of each applied move of a live game; none in replay.
    pub fn get_turn_history(&self) -> (r: Option<Vec<u8>>)
        ensures
            match self@.mode {
                AppModeView::Replay { .. } => r is None,
                AppModeView::Interactive { turn_history, .. } => r is Some && r->0@ == turn_history,
            },
    {
        match &self.mode {
            AppMode::Interactive { turn_history, .. } => {
                let r = turn_history.clone();
                assert(r@ =~= turn_history@);
                Some(r)
            },
            _ => None,
        }
    }

    /// One tick of the live viewer; see `spec_tick`. The driver carries out the returned
    /// command and, for every command but `Wait`, reports the result with `complete_tick`.
    pub fn tick_game(&mut self) -> (cmd: TickCommand)
        requires
            old(self).wf(),
        ensures
            final(self).wf(),
            (final(self)@, cmd) == spec_tick(old(self)@),
    {
        let selection = self.selection_state;
        let mut page_reset = false;
        let mut selection_reset = false;
        let cmd = if let AppMode::Interactive {
            live,
            current_actor,
            possible_actions,
            human_seats,
            draw_override_enabled,
            draw_choice,
            ..
        } = &mut self.mode {
            match selection {
                SelectionState::ActionSelected { action_index } => {
                    selection_reset = true;
                    page_reset = true;
                    if let Some(candidates) = draw_choice.take() {
                        TickCommand::DrawChosen {
                            card: candidates[action_index],
                            action: possible_actions[0],
                        }
                    } else {
                        TickCommand::Apply(possible_actions[action_index])
                    }
                },
                SelectionState::AwaitingActionSelection => {
                    if !human_seats[*current_actor] {
                        TickCommand::BotPlay
                    } else if draw_choice.is_none() {
                        let offer = maybe_offer_draw_choice(
                            true,
                            possible_actions,
                            *draw_override_enabled,
                            &live.actor_deck,
                        );
                        if offer.is_some() {
                            *draw_choice = offer;
                            page_reset = true;
                            TickCommand::Wait
                        } else if possible_actions.len() == 1 {
                            TickCommand::Apply(possible_actions[0])
                        } else {
                            TickCommand::Wait
                        }
                    } else {
                        TickCommand::Wait
                    }
                },
            }
        } else {
            TickCommand::Wait
        };
        if selection_reset {
            self.selection_state = SelectionState::AwaitingActionSelection;
        }
        if page_reset {
            self.action_page = 0;
        }
        cmd
    }

    /// Records the move the driver applied after a tick, and the resulting state; see
    /// `spec_complete_tick`. No change in replay.
    pub fn complete_tick(&mut self, applied: Action, next: Frame<S>)
        requires
            old(self).wf(),
            next.actor < 2,
        ensures
            final(self).wf(),
            final(self)@ == spec_complete_tick(old(self)@, applied, next@),
    {
        let ghost old_view = self@;
        let ghost next_view = next@;
        let mut reset = false;
        if let AppMode::Interactive {
            live,
            current_actor,
            possible_actions,
            action_history,
            turn_history,
            state_history,
            draw_choice,
            ..
        } = &mut self.mode {
            let mut new_actions = next.actions.clone();
            assert(new_actions@ =~= next.actions@);
            sort_actions_for_tui(&mut new_actions);
            let new_actor = next.actor;
            let mut previous = next;
            std::mem::swap(live, &mut previous);
            turn_history.push(previous.turn_count);
            let ghost old_states = state_history@;
            state_history.push(previous);
            assert(frames_view(state_history@) =~= frames_view(old_states).push(previous@));
            action_history.push(applied);
            *current_actor = new_actor;
            *possible_actions = new_actions;
            *draw_choice = None;
            reset = true;
        }
        if reset {
            self.selection_state = SelectionState::AwaitingActionSelection;
            self.action_page = 0;
        }
    }

    /// Rolls the live game back one applied move; see `spec_undo`. The driver then resets its
    /// game to `get_state()`.
    pub fn undo(&mut self)
        requires
            old(self).wf(),
        ensures
            final(self).wf(),
            final(self)@ == spec_undo(old(self)@),
    {
        let mut reset = false;
        if let AppMode::Interactive {
            live,
            current_actor,
            possible_actions,
            action_history,
            turn_history,
            state_history,
            human_seats,
            draw_override_enabled,
            draw_choice,
        } = &mut self.mode {
            let ghost old_states = state_history@;
            let popped = state_history.pop();
            if let Some(previous) = popped {
                assert(frames_view(state_history@) =~= frames_view(old_states).drop_last());
                assert(previous@ == frames_view(old_states).last());
                action_history.pop();
                turn_history.pop();
                let mut new_actions = previous.actions.clone();
                assert(new_actions@ =~= previous.actions@);
                sort_actions_for_tui(&mut new_actions);
                let offer = maybe_offer_draw_choice(
                    human_seats[previous.actor],
                    &new_actions,
                    *draw_override_enabled,
                    &previous.actor_deck,
                );
                *current_actor = previous.actor;
                *possible_actions = new_actions;
                *draw_choice = offer;
                *live = previous;
                reset = true;
            }
        }
        if reset {
            self.selection_state = SelectionState::AwaitingActionSelection;
            self.action_page = 0;
        }
    }

    fn jump_turn(&mut self, forward: bool)
        requires
            old(self).wf(),
            jump_fits(old(self)@),
        ensures
            final(self).wf(),
            final(self)@ == spec_jump_turn(old(self)@, forward),
    {
        if self.lock_actions_center {
            if let AppMode::Replay { states, current_index, .. } = &mut self.mode {
                let idx = replay_jump_index(states, *current_index, forward);
                *current_index = idx;
                return;
            }
        }
        let boundaries = self.calculate_turn_boundaries();
        let current_line = self.scroll_offset as usize;
        let found = if forward {
            header_after(&boundaries, current_line)
        } else {
            header_before(&boundaries, current_line)
        };
        if let Some(line) = found {
            self.scroll_offset = line as u16;
        }
    }

    /// Jumps to the next turn; see `spec_jump_turn`.
    pub fn jump_to_next_turn(&mut self)
        requires
            old(self).wf(),
            jump_fits(old(self)@),
        ensures
            final(self).wf(),
            final(self)@ == spec_jump_turn(old(self)@, true),
    {
        self.jump_turn(true);
    }

    /// Jumps to the previous turn; see `spec_jump_turn`.
    pub fn jump_to_prev_turn(&mut self)
        requires
            old(self).wf(),
            jump_fits(old(self)@),
        ensures
            final(self).wf(),
            final(self)@ == spec_jump_turn(old(self)@, false),
    {
        self.jump_turn(false);
    }

    /// The line numbers of the battle log's turn headers; see `spec_log_layout`.
    fn calculate_turn_boundaries(&self) -> (r: Vec<usize>)
        requires
            self.wf(),
            log_fits(self@),
        ensures
            as_ints(r@) == spec_turn_boundaries(self@),
    {
        let mut boundaries: Vec<usize> = Vec::new();
        let mut line_count: usize = 0;
        match &self.mode {
            AppMode::Interactive { action_history, turn_history, live, .. } => {
                let ghost th = turn_history@;
                let n = action_history.len();
                let mut current_turn: u8 = if turn_history.len() > 0 {
                    turn_history[0]
                } else {
                    live.turn_count
                };
                boundaries.push(line_count);
                line_count = line_count + 1;
                proof {
                    let total = live_log(th, n as nat).0;
                    lemma_live_log_monotone(th, 0, n as nat);
                }
                let mut i: usize = 0;
                while i < n
                    invariant
                        n == action_history@.len(),
                        th == turn_history@,
                        th.len() == n,
                        i <= n,
                        live_log(th, n as nat).0 <= usize::MAX,
                        line_count as int == live_log(th, i as nat).0,
                        boundaries@.len() == live_log(th, i as nat).1.len(),
                        forall|j: int| 0 <= j < boundaries@.len() ==> boundaries@[j] as int == live_log(th, i as nat).1[j],
                        i < n ==> current_turn == th[i as int],
                    decreases n - i,
                {
                    proof {
                        lemma_live_log_monotone(th, (i + 1) as nat, n as nat);
                    }
                    line_count = line_count + 1;
                    if i + 1 < turn_history.len() {
                        let next_turn = turn_history[i + 1];
                        if next_turn != current_turn {
                            line_count = line_count + 1;
                            boundaries.push(line_count);
                            line_count = line_count + 1;
                            current_turn = next_turn;
                        } else {
                            current_turn = next_turn;
                        }
                    }
                    i = i + 1;
                }
            },
            AppMode::Replay { states, actions, current_index } => {
                let ghost turns = frame_turns(frames_view(states@));
                let n = actions.len();
                let ci = *current_index;
                let mut current_turn = states[0].turn_count;
                boundaries.push(line_count);
                line_count = line_count + 1;
                proof {
                    lemma_replay_log_monotone(turns, n as nat, ci as int, 0, n as nat);
                }
                let mut i: usize = 0;
                while i < n
                    invariant
                        n == actions@.len(),
                        states@.len() == n + 1,
                        turns == frame_turns(frames_view(states@)),
                        turns.len() == n + 1,
                        i <= n,
                        replay_log(turns, n as nat, ci as int, n as nat).0 <= usize::MAX,
                        line_count as int == replay_log(turns, n as nat, ci as int, i as nat).0,
                        boundaries@.len() == replay_log(turns, n as nat, ci as int, i as nat).1.len(),
                        forall|j: int| 0 <= j < boundaries@.len() ==> boundaries@[j] as int == replay_log(turns, n as nat, ci as int, i as nat).1[j],
                        current_turn == turns[i as int],
                    decreases n - i,
                {
                    proof {
                        lemma_replay_log_monotone(turns, n as nat, ci as int, (i + 1) as nat, n as nat);
                        assert(turns[i as int + 1] == states@[i as int + 1].turn_count);
                    }
                    if i == ci {
                        line_count = line_count + 1;
                    }
                    line_count = line_count + 1;
                    if i + 1 < states.len() {
                        let next_turn = states[i + 1].turn_count;
                        if next_turn != current_turn && i + 1 < n {
                            line_count = line_count + 1;
                            boundaries.push(line_count);
                            line_count = line_count + 1;
                        }
                        current_turn = next_turn;
                    }
                    i = i + 1;
                }
            },
        }
        assert(as_ints(boundaries@) =~= spec_turn_boundaries(self@));
        boundaries
    }
}

proof fn lemma_live_log_monotone(turns: Seq<u8>, i: nat, k: nat)
    requires
        i <= k,
    ensures
        live_log(turns, i).0 <= live_log(turns, k).0,
        live_log(turns, i).0 >= 1,
    decreases k,
{
    if k > i {
        lemma_live_log_monotone(turns, i, (k - 1) as nat);
    } else if k > 0 {
        lemma_live_log_monotone(turns, 0, (k - 1) as nat);
    }
}

proof fn lemma_replay_log_monotone(turns: Seq<u8>, n: nat, cursor: int, i: nat, k: nat)
    requires
        i <= k,
    ensures
        replay_log(turns, n, cursor, i).0 <= replay_log(turns, n, cursor, k).0,
        replay_log(turns, n, cursor, i).0 >= 1,
    decreases k,
{
    if k > i {
        lemma_replay_log_monotone(turns, n, cursor, i, (k - 1) as nat);
    } else if k > 0 {
        lemma_replay_log_monotone(turns, n, cursor, 0, (k - 1) as nat);
    }
}

/// The first header line below `line`, if any.
fn header_after(b: &Vec<usize>, line: usize) -> (r: Option<usize>)
    ensures
        match first_where(0, b@.len() as int, header_below(as_ints(b@), line as int)) {
            Some(k) => 0 <= k < b@.len() && r == Some(b@[k]),
            None => r is None,
        },
{
    let ghost p = header_below(as_ints(b@), line as int);
    let n = b.len();
    let mut i: usize = 0;
    while i < n
        invariant
            n == b@.len(),
            i <= n,
            p == header_below(as_ints(b@), line as int),
            forall|k: int| 0 <= k < i ==> !#[trigger] p(k),
        decreases n - i,
    {
        if b[i] > line {
            proof {
                assert(as_ints(b@)[i as int] == b@[i as int] as int);
                lemma_first_where_is(0, n as int, p, i as int);
            }
            return Some(b[i]);
        }
        assert(as_ints(b@)[i as int] == b@[i as int] as int);
        i = i + 1;
    }
    assert(!exists|j: int| 0 <= j < n && #[trigger] p(j));
    None
}

/// The last header line above `line`, if any.
fn header_before(b: &Vec<usize>, line: usize) -> (r: Option<usize>)
    ensures
        match last_where(0, b@.len() as int, header_above(as_ints(b@), line as int)) {
            Some(k) => 0 <= k < b@.len() && r == Some(b@[k]),
            None => r is None,
        },
{
    let ghost p = header_above(as_ints(b@), line as int);
    let n = b.len();
    let mut i: usize = n;
    while i > 0
        invariant
            n == b@.len(),
            i <= n,
            p == header_above(as_ints(b@), line as int),
            forall|k: int| i <= k < n ==> !#[trigger] p(k),
        decreases i,
    {
        i = i - 1;
        if b[i] < line {
            proof {
                assert(as_ints(b@)[i as int] == b@[i as int] as int);
                lemma_last_where_is(0, n as int, p, i as int);
            }
            return Some(b[i]);
        }
        assert(as_ints(b@)[i as int] == b@[i as int] as int);
    }
    assert(!exists|j: int| 0 <= j < n && #[trigger] p(j));
    None
}

/// The turn number of each state.
fn state_turn<S>(states: &Vec<Frame<S>>, j: usize) -> (t: u8)
    requires
        j < states@.len(),
    ensures
        t == frame_turns(frames_view(states@))[j as int],
{
    states[j].turn_count
}

/// The first index after `cur` whose turn differs from the turn at `cur`, if any.
fn next_turn_start<S>(states: &Vec<Frame<S>>, cur: usize) -> (r: Option<usize>)
    requires
        cur < states@.len(),
    ensures
        match first_where(
            cur + 1,
            states@.len() as int,
            turn_differs(frame_turns(frames_view(states@)), cur as int),
        ) {
            Some(t) => cur < t < states@.len() && r == Some(t as usize),
            None => r is None,
        },
{
    let ghost pt = turn_differs(frame_turns(frames_view(states@)), cur as int);
    let n = states.len();
    let current_turn = state_turn(states, cur);
    let mut j: usize = cur + 1;
    while j < n
        invariant
            n == states@.len(),
            cur < n,
            current_turn == frame_turns(frames_view(states@))[cur as int],
            pt == turn_differs(frame_turns(frames_view(states@)), cur as int),
            cur + 1 <= j <= n,
            forall|k: int| cur + 1 <= k < j ==> !#[trigger] pt(k),
        decreases n - j,
    {
        if state_turn(states, j) != current_turn {
            proof {
                lemma_first_where_is(cur + 1, n as int, pt, j as int);
            }
            return Some(j);
        }
        j = j + 1;
    }
    assert(!exists|j: int| cur + 1 <= j < n && #[trigger] pt(j));
    None
}

/// The last index before `cur` whose turn differs from the turn at `cur`, if any.
fn prev_turn_state<S>(states: &Vec<Frame<S>>, cur: usize) -> (r: Option<usize>)
    requires
        cur < states@.len(),
    ensures
        match last_where(0, cur as int, turn_differs(frame_turns(frames_view(states@)), cur as int)) {
            Some(t) => 0 <= t < cur && r == Some(t as usize),
            None => r is None,
        },
{
    let ghost pt = turn_differs(frame_turns(frames_view(states@)), cur as int);
    let n = states.len();
    let current_turn = state_turn(states, cur);
    let mut j: usize = cur;
    while j > 0
        invariant
            n == states@.len(),
            cur < n,
            current_turn == frame_turns(frames_view(states@))[cur as int],
            pt == turn_differs(frame_turns(frames_view(states@)), cur as int),
            j <= cur,
            forall|k: int| j <= k < cur ==> !#[trigger] pt(k),
        decreases j,
    {
        j = j - 1;
        if state_turn(states, j) != current_turn {
            proof {
                lemma_last_where_is(0, cur as int, pt, j as int);
            }
            return Some(j);
        }
    }
    assert(!exists|j: int| 0 <= j < cur && #[trigger] pt(j));
    None
}

/// The first index whose turn is the turn at `t`.
fn first_state_of_turn<S>(states: &Vec<Frame<S>>, t: usize) -> (r: usize)
    requires
        t < states@.len(),
    ensures
        first_where(0, states@.len() as int, turn_equals(frame_turns(frames_view(states@)), t as int))
            == Some(r as int),
        r <= t,
{
    let ghost pi = turn_equals(frame_turns(frames_view(states@)), t as int);
    let n = states.len();
    let turn = state_turn(states, t);
    let mut i: usize = 0;
    while i < t
        invariant
            n == states@.len(),
            t < n,
            turn == frame_turns(frames_view(states@))[t as int],
            pi == turn_equals(frame_turns(frames_view(states@)), t as int),
            i <= t,
            forall|k: int| 0 <= k < i ==> !#[trigger] pi(k),
        decreases t - i,
    {
        if state_turn(states, i) == turn {
            proof {
                lemma_first_where_is(0, n as int, pi, i as int);
            }
            return i;
        }
        i = i + 1;
    }
    proof {
        lemma_first_where_is(0, n as int, pi, t as int);
    }
    t
}

/// The replay index a turn jump lands on; see `spec_replay_jump_index`.
fn replay_jump_index<S>(states: &Vec<Frame<S>>, cur: usize, forward: bool) -> (r: usize)
    requires
        cur < states@.len(),
    ensures
        r as int == spec_replay_jump_index(frame_turns(frames_view(states@)), cur as int, forward),
        r < states@.len(),
{
    let n = states.len();
    let valid = if forward {
        cur < n
    } else {
        cur > 0
    };
    if !valid {
        return cur;
    }
    let target = if forward {
        next_turn_start(states, cur)
    } else {
        prev_turn_state(states, cur)
    };
    match target {
        None => cur,
        Some(t) => first_state_of_turn(states, t),
    }
}

/// Whether `seat`'s hand is shown face up.
pub open spec fn spec_is_hand_revealed<S>(v: AppView<S>, seat: usize) -> bool {
    match v.mode {
        AppModeView::Replay { .. } => seat == spec_bottom_seat(v),
        AppModeView::Interactive { human_seats, .. } => human_seats[seat as int],
    }
}

/// Undoing right after a move was recorded brings back everything the move changed: the
/// live state, the seat to act, its legal moves, and all three histories; the selection and
/// the page start afresh, and the draw choice is offered again when due.
pub proof fn lemma_undo_reverts_recorded_move<S>(v: AppView<S>, applied: Action, next: FrameView<S>)
    requires
        app_wf(v),
        v.mode is Interactive,
        next.actor < 2,
    ensures
        ({
            let u = spec_undo(spec_complete_tick(v, applied, next));
            match (u.mode, v.mode) {
                (
                    AppModeView::Interactive {
                        live: l1,
                        current_actor: a1,
                        possible_actions: p1,
                        action_history: ah1,
                        turn_history: th1,
                        state_history: sh1,
                        human_seats: h1,
                        draw_override_enabled: d1,
                        draw_choice: c1,
                    },
                    AppModeView::Interactive {
                        live: l0,
                        current_actor: a0,
                        possible_actions: p0,
                        action_history: ah0,
                        turn_history: th0,
                        state_history: sh0,
                        human_seats: h0,
                        draw_override_enabled: d0,
                        ..
                    },
                ) => {
                    &&& l1 == l0
                    &&& a1 == a0
                    &&& p1 == p0
                    &&& ah1 == ah0
                    &&& th1 == th0
                    &&& sh1 == sh0
                    &&& h1 == h0
                    &&& d1 == d0
                    &&& c1 == spec_draw_choice(h0[a0 as int], p0, d0, l0.actor_deck)
                    &&& u.selection_state == SelectionState::AwaitingActionSelection
                    &&& u.action_page == 0
                    &&& u.scroll_offset == v.scroll_offset
                    &&& u.player_hand_scroll == v.player_hand_scroll
                    &&& u.opponent_hand_scroll == v.opponent_hand_scroll
                    &&& u.lock_actions_center == v.lock_actions_center
                },
                _ => false,
            }
        }),
{
    let c = spec_complete_tick(v, applied, next);
    if let AppModeView::Interactive { action_history, turn_history, state_history, .. } = v.mode {
        if let AppModeView::Interactive {
            action_history: ah,
            turn_history: th,
            state_history: sh,
            ..
        } = c.mode {
            assert(ah.drop_last() =~= action_history);
            assert(th.drop_last() =~= turn_history);
            assert(sh.drop_last() =~= state_history);
        }
    }
}

/// A live viewer whose draw override is off shows no draw choice.
pub open spec fn no_choice_without_override<S>(v: AppView<S>) -> bool {
    v.mode matches AppModeView::Interactive { draw_override_enabled, draw_choice, .. }
        && !draw_override_enabled && draw_choice is None
}

/// With draw override off, no draw choice is ever offered: a live viewer starts without one
/// (see `new_interactive`), and keeps none through every tick, recorded move, undo and key
/// press; no tick ever hands a chosen draw to the driver.
pub proof fn lemma_no_draw_choice_without_override<S>(v: AppView<S>, applied: Action, next: FrameView<S>, key: Key)
    requires
        app_wf(v),
        no_choice_without_override(v),
    ensures
        no_choice_without_override(spec_tick(v).0),
        spec_tick(v).1 !is DrawChosen,
        no_choice_without_override(spec_complete_tick(v, applied, next)),
        no_choice_without_override(spec_undo(v)),
        no_choice_without_override(spec_handle_key(v, key).0),
{
}

/// A picked draw candidate is always a card of the deciding seat's remaining deck, and the
/// move applied after it is the pending draw; so putting it on top of the deck never fails.
pub proof fn lemma_chosen_draw_card_is_in_deck<S>(v: AppView<S>)
    requires
        app_wf(v),
        spec_tick(v).1 is DrawChosen,
    ensures
        v.mode matches AppModeView::Interactive { live, possible_actions, .. } && ({
            let (card, action) = (spec_tick(v).1->card, spec_tick(v).1->action);
            &&& live.actor_deck.contains(card)
            &&& action == possible_actions[0]
            &&& possible_actions.len() == 1
            &&& action.kind is DrawCard
        }),
{
    if let AppModeView::Interactive { live, draw_choice, .. } = v.mode {
        if let SelectionState::ActionSelected { action_index } = v.selection_state {
            let c = draw_choice->0;
            assert(live.actor_deck[action_index as int] == c[action_index as int]);
        }
    }
}

/// In hot-seat play (both seats human) every move comes from a click or is forced: the
/// viewer never hands a decision to a bot.
pub proof fn lemma_hot_seat_never_hands_over_to_a_bot<S>(v: AppView<S>)
    requires
        app_wf(v),
        v.mode matches AppModeView::Interactive { human_seats, .. } && human_seats[0]
            && human_seats[1],
    ensures
        spec_tick(v).1 != TickCommand::BotPlay,
{
}

/// A human seat's own hand is always shown face up, and when exactly one seat is human it is
/// drawn at the bottom, whichever seat it is.
pub proof fn lemma_human_hand_shown_at_bottom<S>(v: AppView<S>, seat: usize)
    requires
        seat < 2,
        v.mode matches AppModeView::Interactive { human_seats, .. } && human_seats[seat as int],
    ensures
        spec_is_hand_revealed(v, seat),
        (v.mode matches AppModeView::Interactive { human_seats, .. } && !human_seats[1 - seat])
            ==> spec_bottom_seat(v) == seat,
{
}

/// A key press, as the viewer reads it.
#[derive(Clone, Copy, Debug, PartialEq, Eq, Structural)]
pub enum Key {
    Char(char),
    Esc,
    Up,
    Down,
    Left,
    Right,
    Backspace,
    PageUp,
    PageDown,
    Other,
}

/// Whether the viewer goes on after a key press.
#[derive(Clone, Copy, Debug, PartialEq, Eq, Structural)]
pub enum KeyOutcome {
    Quit,
    Continue,
}

/// How many moves the viewer's history holds (the live game's, or the replay's).
pub open spec fn history_len<S>(v: AppView<S>) -> nat {
    match v.mode {
        AppModeView::Interactive { action_history, .. } => action_history.len(),
        AppModeView::Replay { actions, .. } => actions.len(),
    }
}

/// Turn jumps are taken while the history is short enough that the battle log's line
/// numbers surely fit in a `usize` (a history longer than that cannot be held in memory).
pub open spec fn jump_allowed<S>(v: AppView<S>) -> bool {
    history_len(v) <= (usize::MAX - 1) / 4
}

pub open spec fn spec_jump_key<S>(v: AppView<S>, forward: bool) -> AppView<S> {
    if jump_allowed(v) {
        spec_jump_turn(v, forward)
    } else {
        v
    }
}

/// What a key press does: q or Esc quits; 1-9 pick an item of the current page; Down and Up
/// step a replay; s and w jump a turn forward and back; Left and Right scroll the bottom
/// hand, A and D the top hand; c toggles the actions list's centering; u or Backspace undo;
/// PageDown and PageUp page through the list; any other key does nothing.
pub open spec fn spec_handle_key<S>(v: AppView<S>, key: Key) -> (AppView<S>, KeyOutcome) {
    match key {
        Key::Esc => (v, KeyOutcome::Quit),
        Key::Char(c) => if c == 'q' {
            (v, KeyOutcome::Quit)
        } else if '1' <= c && c <= '9' {
            (spec_select(v, c as int - '1' as int), KeyOutcome::Continue)
        } else if c == 'w' {
            (spec_jump_key(v, false), KeyOutcome::Continue)
        } else if c == 's' {
            (spec_jump_key(v, true), KeyOutcome::Continue)
        } else if c == 'c' {
            (spec_toggle_lock(v), KeyOutcome::Continue)
        } else if c == 'A' {
            (spec_scroll_opponent_left(v), KeyOutcome::Continue)
        } else if c == 'D' {
            (spec_scroll_opponent_right(v), KeyOutcome::Continue)
        } else if c == 'u' {
            (spec_undo(v), KeyOutcome::Continue)
        } else {
            (v, KeyOutcome::Continue)
        },
        Key::Down => (spec_next_state(v), KeyOutcome::Continue),
        Key::Up => (spec_prev_state(v), KeyOutcome::Continue),
        Key::Left => (spec_scroll_player_left(v), KeyOutcome::Continue),
        Key::Right => (spec_scroll_player_right(v), KeyOutcome::Continue),
        Key::Backspace => (spec_undo(v), KeyOutcome::Continue),
        Key::PageDown => (spec_next_page(v), KeyOutcome::Continue),
        Key::PageUp => (spec_prev_page(v), KeyOutcome::Continue),
        Key::Other => (v, KeyOutcome::Continue),
    }
}

proof fn lemma_live_log_lines(turns: Seq<u8>, k: nat)
    ensures
        live_log(turns, k).0 <= 3 * k + 1,
    decreases k,
{
    if k > 0 {
        lemma_live_log_lines(turns, (k - 1) as nat);
    }
}

proof fn lemma_replay_log_lines(turns: Seq<u8>, n_actions: nat, cursor: int, k: nat)
    ensures
        replay_log(turns, n_actions, cursor, k).0 <= 4 * k + 1,
    decreases k,
{
    if k > 0 {
        lemma_replay_log_lines(turns, n_actions, cursor, (k - 1) as nat);
    }
}

proof fn lemma_jump_allowed_fits<S>(v: AppView<S>)
    requires
        jump_allowed(v),
    ensures
        jump_fits(v),
{
    match v.mode {
        AppModeView::Interactive { turn_history, action_history, .. } => {
            lemma_live_log_lines(turn_history, action_history.len());
        },
        AppModeView::Replay { states, actions, current_index } => {
            lemma_replay_log_lines(frame_turns(states), actions.len(), current_index as int, actions.len());
        },
    }
}

impl<S> App<S> {
    fn history_length(&self) -> (n: usize)
        ensures
            n == history_len(self@),
    {
        match &self.mode {
            AppMode::Interactive { action_history, .. } => action_history.len(),
            AppMode::Replay { actions, .. } => actions.len(),
        }
    }

    /// Applies a key press; see `spec_handle_key`.
    pub fn handle_key(&mut self, key: Key) -> (out: KeyOutcome)
        requires
            old(self).wf(),
        ensures
            final(self).wf(),
            (final(self)@, out) == spec_handle_key(old(self)@, key),
    {
        match key {
            Key::Esc => KeyOutcome::Quit,
            Key::Char(c) => {
                if c == 'q' {
                    return KeyOutcome::Quit;
                } else if '1' <= c && c <= '9' {
                    let index = (c as u32 - '1' as u32) as usize;
                    self.handle_action_selection(index);
                } else if c == 'w' || c == 's' {
                    if self.history_length() <= (usize::MAX - 1) / 4 {
                        proof {
                            lemma_jump_allowed_fits(self@);
                        }
                        if c == 's' {
                            self.jump_to_next_turn();
                        } else {
                            self.jump_to_prev_turn();
                        }
                    }
                } else if c == 'c' {
                    self.toggle_lock_actions_center();
                } else if c == 'A' {
                    self.scroll_opponent_hand_left();
                } else if c == 'D' {
                    self.scroll_opponent_hand_right();
                } else if c == 'u' {
                    self.undo();
                }
                KeyOutcome::Continue
            },
            Key::Down => {
                self.next_state();
                KeyOutcome::Continue
            },
            Key::Up => {
                self.prev_state();
                KeyOutcome::Continue
            },
            Key::Left => {
                self.scroll_player_hand_left();
                KeyOutcome::Continue
            },
            Key::Right => {
                self.scroll_player_hand_right();
                KeyOutcome::Continue
            },
            Key::Backspace => {
                self.undo();
                KeyOutcome::Continue
            },
            Key::PageDown => {
                self.next_action_page();
                KeyOutcome::Continue
            },
            Key::PageUp => {
                self.prev_action_page();
                KeyOutcome::Continue
            },
            Key::Other => KeyOutcome::Continue,
        }
    }
}

/// Which seats a human plays: those whose player code is "h" (a seat without a code is
/// played by a bot).
pub fn human_seats_from_codes(codes: &Vec<String>) -> (r: [bool; 2])
    ensures
        r[0] == (codes@.len() > 0 && codes@[0]@ == "h"@),
        r[1] == (codes@.len() > 1 && codes@[1]@ == "h"@),
{
    let first = codes.len() > 0 && str_eq(codes[0].as_str(), "h");
    let second = codes.len() > 1 && str_eq(codes[1].as_str(), "h");
    [first, second]
}

/// Whether the viewer follows a live game (some seat is human) rather than simulating the
/// game to its end and replaying it.
pub fn is_live_viewer(human_seats: [bool; 2]) -> (b: bool)
    ensures
        b == (human_seats[0] || human_seats[1]),
{
    human_seats[0] || human_seats[1]
}

/// Every item of a list longer than a page can be picked: item `i` sits on page `i / 9`,
/// which paging forward reaches, under key `i % 9 + 1`.
pub proof fn lemma_paging_reaches_every_item<S>(v: AppView<S>, i: usize)
    requires
        v.mode is Interactive,
        i < spec_selectable_count(v),
    ensures
        i / ITEMS_PER_PAGE <= spec_max_page(v),
        i % ITEMS_PER_PAGE < ITEMS_PER_PAGE,
        spec_select(AppView { action_page: i / ITEMS_PER_PAGE, ..v }, (i % ITEMS_PER_PAGE) as int).selection_state
            == (SelectionState::ActionSelected { action_index: i }),
{
    let count = spec_selectable_count(v);
    vstd::arithmetic::div_mod::lemma_div_is_ordered(i as int, (count - 1) as int, ITEMS_PER_PAGE as int);
    vstd::arithmetic::div_mod::lemma_fundamental_div_mod(i as int, ITEMS_PER_PAGE as int);
    assert((i / ITEMS_PER_PAGE) * ITEMS_PER_PAGE + i % ITEMS_PER_PAGE == i) by (nonlinear_arith)
        requires
            ITEMS_PER_PAGE * (i as int / ITEMS_PER_PAGE as int) + (i as int % ITEMS_PER_PAGE as int)
                == i,
    ;
}

proof fn lemma_least_exists(lo: int, hi: int, p: spec_fn(int) -> bool)
    requires
        exists|j: int| lo <= j < hi && #[trigger] p(j),
    ensures
        exists|j: int| #![trigger p(j)] lo <= j < hi && p(j) && forall|k: int| lo <= k < j ==> !#[trigger] p(k),
    decreases hi - lo,
{
    if p(lo) {
        assert(lo <= lo < hi && p(lo) && forall|k: int| lo <= k < lo ==> !#[trigger] p(k));
    } else {
        let w = choose|j: int| lo <= j < hi && #[trigger] p(j);
        assert(lo + 1 <= w < hi && p(w));
        lemma_least_exists(lo + 1, hi, p);
        let j = choose|j: int| #![trigger p(j)] lo + 1 <= j < hi && p(j) && forall|k: int| lo + 1 <= k < j ==> !#[trigger] p(k);
        assert forall|k: int| lo <= k < j implies !#[trigger] p(k) by {
            if k > lo {
                assert(lo + 1 <= k < j);
            }
        }
    }
}

proof fn lemma_greatest_exists(lo: int, hi: int, p: spec_fn(int) -> bool)
    requires
        exists|j: int| lo <= j < hi && #[trigger] p(j),
    ensures
        exists|j: int| #![trigger p(j)] lo <= j < hi && p(j) && forall|k: int| j < k < hi ==> !#[trigger] p(k),
    decreases hi - lo,
{
    if p(hi - 1) {
        assert(lo <= hi - 1 < hi && p(hi - 1) && forall|k: int| hi - 1 < k < hi ==> !#[trigger] p(k));
    } else {
        let w = choose|j: int| lo <= j < hi && #[trigger] p(j);
        assert(lo <= w < hi - 1 && p(w));
        lemma_greatest_exists(lo, hi - 1, p);
        let j = choose|j: int| #![trigger p(j)] lo <= j < hi - 1 && p(j) && forall|k: int| j < k < hi - 1 ==> !#[trigger] p(k);
        assert forall|k: int| j < k < hi implies !#[trigger] p(k) by {
            if k < hi - 1 {
                assert(j < k < hi - 1);
            }
        }
    }
}

/// A centered replay's turn jump lands on the first state of the nearest other turn in the
/// direction of the jump: the state it reaches belongs to another turn than the current
/// one, no earlier state belongs to that turn, and some state of that turn lies in the
/// jump's direction with only states of the current turn in between. When there is no
/// other turn in that direction the replay stays where it is.
pub proof fn lemma_replay_turn_jump_lands_on_turn_start<S>(v: AppView<S>, forward: bool)
    requires
        app_wf(v),
        v.lock_actions_center,
        v.mode is Replay,
        v.mode->Replay_states.len() <= usize::MAX,
    ensures
        ({
            let states = v.mode->Replay_states;
            let cur = v.mode->Replay_current_index as int;
            let w = spec_jump_turn(v, forward);
            &&& w.mode is Replay
            &&& w.mode->Replay_states == states
            &&& w.mode->Replay_actions == v.mode->Replay_actions
            &&& ({
                let n = w.mode->Replay_current_index as int;
                &&& 0 <= n < states.len()
                &&& n != cur ==> {
                    &&& states[n].turn_count != states[cur].turn_count
                    &&& forall|k: int| 0 <= k < n ==> #[trigger] states[k].turn_count != states[n].turn_count
                    &&& forward ==> exists|t: int| cur < t < states.len() && #[trigger] states[t].turn_count
                        == states[n].turn_count && forall|j: int| cur < j < t ==> #[trigger] states[j].turn_count
                        == states[cur].turn_count
                    &&& !forward ==> exists|t: int| 0 <= t < cur && #[trigger] states[t].turn_count
                        == states[n].turn_count && forall|j: int| t < j < cur ==> #[trigger] states[j].turn_count
                        == states[cur].turn_count
                }
                &&& n == cur ==> {
                    &&& forward ==> forall|j: int| cur < j < states.len() ==> #[trigger] states[j].turn_count
                        == states[cur].turn_count
                    &&& !forward ==> forall|j: int| 0 <= j < cur ==> #[trigger] states[j].turn_count
                        == states[cur].turn_count
                }
            })
        }),
{
    let states = v.mode->Replay_states;
    let cur = v.mode->Replay_current_index as int;
    let turns = frame_turns(states);
    let len = turns.len() as int;
    assert(len == states.len());
    assert forall|k: int| 0 <= k < len implies #[trigger] turns[k] == states[k].turn_count by {}
    let d = turn_differs(turns, cur);
    assert(0 <= cur < len);
    if forward {
        if exists|j: int| cur + 1 <= j < len && #[trigger] d(j) {
            lemma_least_exists(cur + 1, len, d);
            let t = first_where(cur + 1, len, d)->0;
            assert(turns[t] == states[t].turn_count);
            let e = turn_equals(turns, t);
            assert(e(t));
            lemma_least_exists(0, len, e);
            let n = first_where(0, len, e)->0;
            assert(turns[n] == states[n].turn_count);
            assert forall|k: int| 0 <= k < n implies #[trigger] states[k].turn_count != states[n].turn_count by {
                assert(!e(k));
                assert(turns[k] == states[k].turn_count);
            }
            assert forall|j: int| cur < j < t implies #[trigger] states[j].turn_count == states[cur].turn_count by {
                assert(!d(j));
                assert(turns[j] == states[j].turn_count);
            }
            assert(cur < t < states.len() && states[t].turn_count == states[n].turn_count);
            assert(spec_replay_jump_index(turns, cur, forward) == n);
            assert(spec_jump_turn(v, forward).mode->Replay_current_index == n);
        } else {
            assert(spec_replay_jump_index(turns, cur, forward) == cur);
            assert forall|j: int| cur < j < states.len() implies #[trigger] states[j].turn_count
                == states[cur].turn_count by {
                assert(!d(j));
                assert(turns[j] == states[j].turn_count);
            }
        }
    } else if cur > 0 {
        if exists|j: int| 0 <= j < cur && #[trigger] d(j) {
            lemma_greatest_exists(0, cur, d);
            let t = last_where(0, cur, d)->0;
            assert(turns[t] == states[t].turn_count);
            let e = turn_equals(turns, t);
            assert(e(t));
            lemma_least_exists(0, len, e);
            let n = first_where(0, len, e)->0;
            assert(turns[n] == states[n].turn_count);
            assert forall|k: int| 0 <= k < n implies #[trigger] states[k].turn_count != states[n].turn_count by {
                assert(!e(k));
                assert(turns[k] == states[k].turn_count);
            }
            assert forall|j: int| t < j < cur implies #[trigger] states[j].turn_count == states[cur].turn_count by {
                assert(!d(j));
                assert(turns[j] == states[j].turn_count);
            }
            assert(0 <= t < cur && states[t].turn_count == states[n].turn_count);
            assert(spec_replay_jump_index(turns, cur, forward) == n);
            assert(spec_jump_turn(v, forward).mode->Replay_current_index == n);
        } else {
            assert(spec_replay_jump_index(turns, cur, forward) == cur);
            assert forall|j: int| 0 <= j < cur implies #[trigger] states[j].turn_count
                == states[cur].turn_count by {
                assert(!d(j));
                assert(turns[j] == states[j].turn_count);
            }
        }
    }
}

/// Scrolling a hand right moves it one card exactly while more than five of that hand's
/// own cards lie from the current position on: the bottom hand (Right) by the bottom
/// seat's hand size, the top hand (D) by the top seat's; nothing else changes. Left and A
/// move one card back, stopping at the first card.
pub proof fn lemma_hand_scrolling_follows_each_hand<S>(v: AppView<S>)
    ensures
        ({
            let f = spec_current_frame(v);
            let b = spec_bottom_seat(v) as int;
            &&& spec_handle_key(v, Key::Right).0 == AppView {
                player_hand_scroll: if v.player_hand_scroll + 5 < f.hand_sizes[b] {
                    (v.player_hand_scroll + 1) as usize
                } else {
                    v.player_hand_scroll
                },
                ..v
            }
            &&& spec_handle_key(v, Key::Char('D')).0 == AppView {
                opponent_hand_scroll: if v.opponent_hand_scroll + 5 < f.hand_sizes[1 - b] {
                    (v.opponent_hand_scroll + 1) as usize
                } else {
                    v.opponent_hand_scroll
                },
                ..v
            }
            &&& spec_handle_key(v, Key::Left).0 == AppView {
                player_hand_scroll: if v.player_hand_scroll > 0 {
                    (v.player_hand_scroll - 1) as usize
                } else {
                    0
                },
                ..v
            }
            &&& spec_handle_key(v, Key::Char('A')).0 == AppView {
                opponent_hand_scroll: if v.opponent_hand_scroll > 0 {
                    (v.opponent_hand_scroll - 1) as usize
                } else {
                    0
                },
                ..v
            }
        }),
{
}

/// Recording a move files it under the turn in which it was made: the turn of the state it
/// was applied to, which is the state that joins the state history, not the turn of the
/// state it led to; the resulting state becomes the live one. So every recorded move's turn
/// is the turn of the state kept for it.
pub proof fn lemma_recorded_move_keeps_its_turn<S>(v: AppView<S>, applied: Action, next: FrameView<S>)
    requires
        app_wf(v),
        v.mode is Interactive,
        next.actor < 2,
    ensures
        ({
            let old_live = v.mode->Interactive_live;
            let c = spec_complete_tick(v, applied, next);
            &&& c.mode is Interactive
            &&& c.mode->Interactive_live == next
            &&& c.mode->Interactive_action_history == v.mode->Interactive_action_history.push(applied)
            &&& c.mode->Interactive_state_history == v.mode->Interactive_state_history.push(old_live)
            &&& c.mode->Interactive_turn_history == v.mode->Interactive_turn_history.push(old_live.turn_count)
            &&& forall|i: int| 0 <= i < c.mode->Interactive_turn_history.len()
                ==> #[trigger] c.mode->Interactive_turn_history[i]
                == c.mode->Interactive_state_history[i].turn_count
        }),
{
}

/// What the other keys do. q and Esc quit and change nothing; every other key goes on.
/// Down and Up step a replay one state forward or back within its states (a live game does
/// not move). A digit key d picks, in a live game, the item at place 9 * page + d - 1 of the
/// list shown (the draw candidates when a draw choice is offered, else the legal moves),
/// when the list has that many items; otherwise nothing changes. PageDown shows the next
/// page when items lie beyond the current one; PageUp goes back a page, stopping at the
/// first. c flips the centering lock. An unknown key changes nothing.
pub proof fn lemma_viewer_keys<S>(v: AppView<S>, d: char)
    requires
        app_wf(v),
        '1' <= d <= '9',
    ensures
        (spec_handle_key(v, Key::Esc) == (v, KeyOutcome::Quit)),
        (spec_handle_key(v, Key::Char('q')) == (v, KeyOutcome::Quit)),
        (spec_handle_key(v, Key::Other) == (v, KeyOutcome::Continue)),
        (spec_handle_key(v, Key::Down).1 == KeyOutcome::Continue),
        (spec_handle_key(v, Key::Up).1 == KeyOutcome::Continue),
        (spec_handle_key(v, Key::Char(d)).1 == KeyOutcome::Continue),
        (v.mode matches AppModeView::Replay { states, actions, current_index } ==> {
            &&& spec_handle_key(v, Key::Down).0 == AppView {
                mode: AppModeView::Replay {
                    states,
                    actions,
                    current_index: if current_index + 1 < states.len() {
                        (current_index + 1) as usize
                    } else {
                        current_index
                    },
                },
                ..v
            }
            &&& spec_handle_key(v, Key::Up).0 == AppView {
                mode: AppModeView::Replay {
                    states,
                    actions,
                    current_index: if current_index >= 1 {
                        (current_index - 1) as usize
                    } else {
                        0
                    },
                },
                ..v
            }
            &&& spec_handle_key(v, Key::Char(d)).0 == v
        }),
        (v.mode is Interactive ==> {
            &&& spec_handle_key(v, Key::Down).0 == v
            &&& spec_handle_key(v, Key::Up).0 == v
            &&& ({
                let list_len = match v.mode->Interactive_draw_choice {
                    Some(c) => c.len(),
                    None => v.mode->Interactive_possible_actions.len(),
                };
                let place = 9 * v.action_page + (d as int - '1' as int);
                spec_handle_key(v, Key::Char(d)).0 == if place < list_len {
                    AppView {
                        selection_state: SelectionState::ActionSelected { action_index: place as usize },
                        ..v
                    }
                } else {
                    v
                }
            })
        }),
        (spec_handle_key(v, Key::PageDown).0 == if 9 * (v.action_page + 1) < spec_selectable_count(v) {
            AppView { action_page: (v.action_page + 1) as usize, ..v }
        } else {
            v
        }),
        (spec_handle_key(v, Key::PageUp).0 == AppView {
            action_page: if v.action_page >= 1 {
                (v.action_page - 1) as usize
            } else {
                0
            },
            ..v
        }),
        (spec_handle_key(v, Key::Char('c')).0 == AppView { lock_actions_center: !v.lock_actions_center, ..v }),
{
    let count = spec_selectable_count(v);
    let p = v.action_page as int;
    if count >= 1 {
        let m = (count - 1) as int;
        vstd::arithmetic::div_mod::lemma_fundamental_div_mod(m, 9);
        assert(p < m / 9 <==> 9 * (p + 1) < count) by (nonlinear_arith)
            requires
                m == 9 * (m / 9) + m % 9,
                0 <= m % 9 < 9,
                count == m + 1,
                p >= 0,
        ;
    }
}

/// A tick of a live game moves only for the seat to act, and only with a legal move: it
/// hands the decision to the bot exactly when that seat is not human and nothing is
/// selected; it applies only a legal move of the live state, the one the human selected or
/// the only one there is; a chosen draw puts a card of the seat's own remaining deck on top
/// before its only move, a draw; otherwise it waits, for a human. Once a selection is
/// handed out, the selection and the page start afresh and no draw choice is left.
pub proof fn lemma_tick_plays_only_legal_moves<S>(v: AppView<S>)
    requires
        app_wf(v),
        v.mode is Interactive,
    ensures
        ({
            let live = v.mode->Interactive_live;
            let seat = v.mode->Interactive_current_actor;
            let human = v.mode->Interactive_human_seats[seat as int];
            let (w, cmd) = spec_tick(v);
            &&& (cmd == TickCommand::BotPlay) == (!human && v.selection_state
                == SelectionState::AwaitingActionSelection)
            &&& cmd matches TickCommand::Apply(a) ==> {
                &&& live.actions.contains(a)
                &&& (v.selection_state matches SelectionState::ActionSelected { action_index }
                    ==> a == v.mode->Interactive_possible_actions[action_index as int])
                &&& (v.selection_state == SelectionState::AwaitingActionSelection ==> live.actions.len()
                    == 1 && a == live.actions[0])
            }
            &&& cmd matches TickCommand::DrawChosen { card, action } ==> {
                &&& live.actor_deck.contains(card)
                &&& live.actions == seq![action]
                &&& action.kind is DrawCard
            }
            &&& cmd == TickCommand::Wait ==> human && w.selection_state == v.selection_state
            &&& v.selection_state is ActionSelected ==> {
                &&& w.selection_state == SelectionState::AwaitingActionSelection
                &&& w.action_page == 0
                &&& w.mode->Interactive_draw_choice is None
            }
        }),
{
    broadcast use vstd::seq_lib::group_to_multiset_ensures;

    let live = v.mode->Interactive_live;
    let pa = v.mode->Interactive_possible_actions;
    lemma_tui_order_is_stable_sort(live.actions);
    assert(pa.to_multiset() == live.actions.to_multiset());
    assert forall|i: int| 0 <= i < pa.len() implies live.actions.contains(#[trigger] pa[i]) by {
        assert(pa.contains(pa[i]));
        assert(pa.to_multiset().count(pa[i]) > 0);
    }
    assert(pa.len() == live.actions.len()) by {
        assert(pa.to_multiset().len() == live.actions.to_multiset().len());
    }
    if pa.len() == 1 {
        assert(live.actions.contains(pa[0]));
        let k = choose|k: int| 0 <= k < live.actions.len() && live.actions[k] == pa[0];
        assert(k == 0);
        assert(live.actions =~= seq![pa[0]]);
    }
    if let SelectionState::ActionSelected { action_index } = v.selection_state {
        if let Some(c) = v.mode->Interactive_draw_choice {
            assert(live.actor_deck[action_index as int] == c[action_index as int]);
        }
    }
}

} // verus!
