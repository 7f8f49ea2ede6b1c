//! The control plane and the viewer driven end to end by a small two-seat card game: each
//! seat draws an opening hand of three, then on each turn draws one card and places cards
//! from its hand until it ends its turn; after six turns the seat with more placed cards wins.

use deckgym::interactive::{
    check_seat, interactive_seats_from_players, Game, InteractiveConfig, PendingDecision,
    Position, Resolution, SubmitError,
};
use deckgym::model::{Action, ActionKind, Card, Deck, DrawSource, GameOutcome};
use deckgym::players::{get_player_types, InteractivePlayer};
use deckgym::simulation::tally_outcome;
use deckgym::tui::app::{
    human_seats_from_codes, is_live_viewer, App, AppMode, Frame, Key, KeyOutcome,
    SelectionState, TickCommand,
};
use deckgym::tui::listing::{sort_actions_for_tui, ITEMS_PER_PAGE};

const OPENING_HAND: usize = 3;
const LAST_TURN: u8 = 6;

#[derive(Clone, Debug, PartialEq)]
struct Table {
    decks: [Vec<Card>; 2],
    hands: [Vec<Card>; 2],
    boards: [Vec<Card>; 2],
    turn: u8,
    actor: usize,
    queued_draws: Vec<(usize, DrawSource)>,
    ended: bool,
}

fn deck(first_id: u32) -> Vec<Card> {
    (0..20).map(|i| Card { id: first_id + i }).collect()
}

impl Table {
    fn new() -> Table {
        let mut queued_draws = Vec::new();
        for seat in 0..2 {
            for _ in 0..OPENING_HAND {
                queued_draws.push((seat, DrawSource::InitialHand));
            }
        }
        queued_draws.push((0, DrawSource::TurnStart));
        Table {
            decks: [deck(1), deck(101)],
            hands: [vec![], vec![]],
            boards: [vec![], vec![]],
            turn: 1,
            actor: 0,
            queued_draws,
            ended: false,
        }
    }

    fn to_act(&self) -> usize {
        match self.queued_draws.first() {
            Some((seat, _)) => *seat,
            None => self.actor,
        }
    }

    fn legal(&self) -> Vec<Action> {
        if self.ended {
            return vec![];
        }
        if let Some((seat, source)) = self.queued_draws.first() {
            return vec![Action {
                actor: *seat,
                kind: ActionKind::DrawCard { amount: 1, source: *source },
                code: 0,
            }];
        }
        let mut actions: Vec<Action> = vec![Action {
            actor: self.actor,
            kind: ActionKind::EndTurn,
            code: 0,
        }];
        for c in &self.hands[self.actor] {
            actions.push(Action { actor: self.actor, kind: ActionKind::Place, code: c.id as u64 });
        }
        actions
    }

    fn apply(&mut self, a: Action) {
        assert!(self.legal().contains(&a), "the driver only applies legal moves");
        match a.kind {
            ActionKind::DrawCard { .. } => {
                let (seat, _) = self.queued_draws.remove(0);
                if !self.decks[seat].is_empty() {
                    let c = self.decks[seat].remove(0);
                    self.hands[seat].push(c);
                }
            }
            ActionKind::Place => {
                let at = self.hands[a.actor].iter().position(|c| c.id as u64 == a.code).unwrap();
                let c = self.hands[a.actor].remove(at);
                self.boards[a.actor].push(c);
            }
            ActionKind::EndTurn => {
                if self.turn >= LAST_TURN {
                    self.ended = true;
                } else {
                    self.turn += 1;
                    self.actor = 1 - self.actor;
                    self.queued_draws.push((self.actor, DrawSource::TurnStart));
                }
            }
            _ => unreachable!(),
        }
    }

    fn winner(&self) -> Option<GameOutcome> {
        if !self.ended {
            return None;
        }
        let (a, b) = (self.boards[0].len(), self.boards[1].len());
        Some(if a > b {
            GameOutcome::Win(0)
        } else if b > a {
            GameOutcome::Win(1)
        } else {
            GameOutcome::Tie
        })
    }

    fn position(&self) -> Position {
        Position {
            game_over: self.ended,
            winner: self.winner(),
            actor: self.to_act(),
            actions: self.legal(),
        }
    }

    fn frame(&self) -> Frame<Table> {
        Frame {
            state: self.clone(),
            turn_count: self.turn,
            game_over: self.ended,
            actor: self.to_act(),
            actions: self.legal(),
            hand_sizes: [self.hands[0].len(), self.hands[1].len()],
            actor_deck: self.decks[self.to_act()].clone(),
        }
    }
}

/// A game under the control plane, with bots that always take the first legal move.
struct Driven {
    game: Game,
    table: Table,
}

impl Driven {
    fn new() -> Driven {
        Driven { game: Game::new(), table: Table::new() }
    }

    fn step(&mut self) -> PendingDecision {
        for _ in 0..10_000 {
            match self.game.step(&self.table.position()) {
                Resolution::Pause(p) => return p,
                Resolution::Apply(a) => self.table.apply(a),
                Resolution::AskPlayer(_) => {
                    let a = self.table.legal()[0];
                    self.table.apply(a);
                }
            }
        }
        panic!("no decision within the ply budget");
    }

    fn submit_action(&mut self, action: Action) -> Result<PendingDecision, SubmitError> {
        let a = self.game.submit_action(&self.table.position(), action)?;
        self.table.apply(a);
        Ok(self.step())
    }

    fn submit_draw(&mut self, card: Option<Card>) -> Result<PendingDecision, SubmitError> {
        let pos = self.table.position();
        let seat = pos.actor;
        let mut d = Deck { cards: self.table.decks[seat].clone() };
        let a = self.game.submit_draw(&pos, &mut d, card)?;
        self.table.decks[seat] = d.cards;
        self.table.apply(a);
        Ok(self.step())
    }
}

fn drive_seat_zero_to_completion(g: &mut Driven) -> Option<GameOutcome> {
    let mut pending = g.step();
    for _ in 0..10_000 {
        pending = match pending {
            PendingDecision::AwaitingAction { actions, .. } => {
                g.submit_action(actions[0]).expect("submit_action should succeed")
            }
            PendingDecision::AwaitingDraw { .. } => {
                g.submit_draw(None).expect("submit_draw should succeed")
            }
            PendingDecision::GameOver(outcome) => return outcome,
        };
    }
    panic!("game did not terminate within the ply budget");
}

#[test]
fn test_interactive_seat_awaiting_action_and_submit_resumes_game() {
    let mut g = Driven::new();
    g.game.set_interactive(0, InteractiveConfig::default());
    let outcome = drive_seat_zero_to_completion(&mut g);
    assert!(outcome.is_some(), "game should not time out");
}

#[test]
fn test_turn_start_draw_override_picks_non_top_of_deck_card() {
    let mut g = Driven::new();
    g.game.set_interactive(0, InteractiveConfig { override_draws: true });

    let mut pending = g.step();
    let mut iterations = 0;
    loop {
        match pending {
            PendingDecision::AwaitingDraw { actor: 0, source: DrawSource::TurnStart, .. } => break,
            PendingDecision::AwaitingDraw { .. } => {
                pending = g.submit_draw(None).expect("submit_draw should succeed");
            }
            PendingDecision::AwaitingAction { ref actions, .. } => {
                let action = actions[0];
                pending = g.submit_action(action).expect("submit_action should succeed");
            }
            PendingDecision::GameOver(_) => panic!("game ended before player 0's TurnStart draw"),
        }
        iterations += 1;
        assert!(iterations < 1_000, "did not reach a TurnStart draw for player 0 in time");
    }

    let before = g.table.clone();
    let deck_size_before = before.decks[0].len();
    let chosen = before.decks[0][3];
    assert_ne!(chosen, before.decks[0][0], "test setup should pick a card not already on top");

    g.submit_draw(Some(chosen)).expect("submit_draw should succeed");

    assert!(g.table.hands[0].contains(&chosen), "the chosen card should be drawn into hand");
    assert_eq!(g.table.decks[0].len(), deck_size_before - 1);
}

#[test]
fn test_initial_hand_draw_override_produces_exact_chosen_hand() {
    let mut g = Driven::new();
    g.game.set_interactive(0, InteractiveConfig { override_draws: true });

    let mut chosen: Vec<Card> = Vec::new();
    let mut pending = g.step();
    loop {
        match pending {
            PendingDecision::AwaitingDraw { actor: 0, source: DrawSource::InitialHand, .. } => {
                let candidate = g.table.decks[0][2];
                chosen.push(candidate);
                pending = g.submit_draw(Some(candidate)).expect("submit_draw should succeed");
                if chosen.len() == OPENING_HAND {
                    break;
                }
            }
            PendingDecision::AwaitingDraw { .. } => {
                pending = g.submit_draw(None).expect("submit_draw should succeed");
            }
            PendingDecision::AwaitingAction { ref actions, .. } => {
                let action = actions[0];
                pending = g.submit_action(action).expect("submit_action should succeed");
            }
            PendingDecision::GameOver(_) => panic!("game ended before the opening hand was drawn"),
        }
    }
    assert_eq!(g.table.decks[0].len(), 20 - OPENING_HAND);
    assert_eq!(g.table.hands[0], chosen);
    assert_eq!(chosen, vec![Card { id: 3 }, Card { id: 4 }, Card { id: 5 }]);
    assert_eq!(g.table.hands[1].len(), OPENING_HAND);
}

#[test]
fn test_mixed_interactive_and_ai_seat_full_game() {
    let mut g = Driven::new();
    g.game.set_interactive(0, InteractiveConfig::default());
    let outcome = drive_seat_zero_to_completion(&mut g);
    assert!(
        matches!(outcome, Some(GameOutcome::Win(_)) | Some(GameOutcome::Tie)),
        "expected a valid game outcome, got {outcome:?}"
    );
}

#[test]
fn test_submit_draw_errors_when_card_not_in_deck() {
    let mut g = Driven::new();
    g.game.set_interactive(0, InteractiveConfig { override_draws: true });

    let mut pending = g.step();
    loop {
        match pending {
            PendingDecision::AwaitingDraw { actor: 0, .. } => break,
            PendingDecision::AwaitingDraw { .. } => {
                pending = g.submit_draw(None).expect("submit_draw should succeed");
            }
            PendingDecision::AwaitingAction { ref actions, .. } => {
                let action = actions[0];
                pending = g.submit_action(action).expect("submit_action should succeed");
            }
            PendingDecision::GameOver(_) => panic!("game ended before player 0's first draw"),
        }
    }

    let before = g.table.clone();
    let card_not_in_deck = Card { id: 999 };
    assert!(!before.decks[0].contains(&card_not_in_deck));

    let result = g.submit_draw(Some(card_not_in_deck));
    assert!(matches!(result, Err(SubmitError::CardNotInRemainingDeck)));
    assert_eq!(g.table, before, "state must be unchanged after a failed submit_draw");
    assert_eq!(
        SubmitError::CardNotInRemainingDeck.message(),
        "card is not present in the player's remaining deck"
    );
}

#[test]
fn test_submit_action_rejects_illegal_action() {
    let mut g = Driven::new();
    g.game.set_interactive(0, InteractiveConfig::default());

    let mut pending = g.step();
    loop {
        match pending {
            PendingDecision::AwaitingAction { .. } => break,
            PendingDecision::AwaitingDraw { .. } => {
                pending = g.submit_draw(None).expect("submit_draw should succeed");
            }
            PendingDecision::GameOver(_) => panic!("game ended before any AwaitingAction"),
        }
    }

    let before = g.table.clone();
    let bogus = Action { actor: 0, kind: ActionKind::Retreat, code: 99 };
    let result = g.submit_action(bogus);
    assert!(matches!(result, Err(SubmitError::IllegalAction)));
    assert_eq!(g.table, before, "state must be unchanged after a failed submit_action");
    assert_eq!(
        SubmitError::IllegalAction.message(),
        "action is not a member of the current legal action set"
    );
}

#[test]
fn submit_draw_outside_a_draw_point_is_refused() {
    let mut g = Driven::new();
    g.game.set_interactive(0, InteractiveConfig::default());
    let pending = g.step();
    assert!(matches!(pending, PendingDecision::AwaitingAction { actor: 0, .. }));
    let before = g.table.clone();
    assert!(matches!(g.submit_draw(None), Err(SubmitError::NotAwaitingDraw)));
    assert_eq!(g.table, before);
}

#[test]
fn submit_draw_refuses_draws_that_are_not_override_points() {
    // A fresh game: both seats scripted, the first move is seat 0's opening-hand draw.
    let mut g = Driven::new();
    let before = g.table.clone();
    assert!(matches!(g.submit_draw(None), Err(SubmitError::NotAwaitingDraw)));
    assert_eq!(g.table, before);
    // Interactive without draw override: still not an override point.
    g.game.set_interactive(0, InteractiveConfig::default());
    assert!(matches!(g.submit_draw(Some(Card { id: 2 })), Err(SubmitError::NotAwaitingDraw)));
    assert_eq!(g.table, before);
    // With draw override, an ability draw is not an override point either.
    g.game.set_interactive(0, InteractiveConfig { override_draws: true });
    let ability = Position {
        game_over: false,
        winner: None,
        actor: 0,
        actions: vec![Action {
            actor: 0,
            kind: ActionKind::DrawCard { amount: 1, source: DrawSource::Ability },
            code: 0,
        }],
    };
    let mut d = Deck { cards: deck(1) };
    assert!(matches!(g.game.submit_draw(&ability, &mut d, Some(Card { id: 5 })), Err(SubmitError::NotAwaitingDraw)));
    assert_eq!(d.cards, deck(1));
    // The opening-hand draw of that seat is one.
    assert!(g.submit_draw(Some(Card { id: 5 })).is_ok());
    assert_eq!(g.table.hands[0], vec![Card { id: 5 }]);
    assert_eq!(
        SubmitError::NotAwaitingDraw.message(),
        "the current pending decision is not a draw-override point"
    );
}

#[test]
fn changing_one_seat_leaves_the_other() {
    let mut game = Game::new();
    game.set_interactive(1, InteractiveConfig { override_draws: true });
    assert!(game.is_interactive(1) && !game.is_interactive(0));
    game.set_interactive(0, InteractiveConfig::default());
    game.set_scripted(1);
    assert!(game.is_interactive(0) && !game.is_interactive(1));
}

#[test]
fn simulated_outcomes_are_tallied() {
    let mut counts = [0u32, 0, 0];
    assert!(tally_outcome(&mut counts, Some(GameOutcome::Win(1))).is_ok());
    assert!(tally_outcome(&mut counts, Some(GameOutcome::Tie)).is_ok());
    assert!(tally_outcome(&mut counts, None).is_ok());
    assert!(tally_outcome(&mut counts, Some(GameOutcome::Win(0))).is_ok());
    assert_eq!(counts, [1, 1, 2]);
    assert_eq!(
        tally_outcome(&mut counts, Some(GameOutcome::Win(2))),
        Err("Invalid winner index: 2".to_string())
    );
    assert_eq!(counts, [1, 1, 2]);
}

#[test]
fn submissions_after_the_game_ended_are_refused() {
    let mut g = Driven::new();
    g.game.set_interactive(0, InteractiveConfig::default());
    drive_seat_zero_to_completion(&mut g);
    assert!(g.table.ended);
    let any = Action { actor: 0, kind: ActionKind::EndTurn, code: 0 };
    assert!(matches!(g.submit_action(any), Err(SubmitError::GameOver)));
    assert!(matches!(g.submit_draw(None), Err(SubmitError::GameOver)));
    assert_eq!(SubmitError::GameOver.message(), "the game has already ended");
}

#[test]
fn scripted_seats_never_pause_and_draws_without_override_resolve() {
    let mut g = Driven::new();
    g.game.set_interactive(1, InteractiveConfig::default());
    assert!(g.game.is_interactive(1));
    assert!(!g.game.is_interactive(0));
    // Seat 1's opening draws resolve by themselves; the first pause is seat 1's first real
    // choice, after seat 0 has played its whole first turn as a bot.
    match g.step() {
        PendingDecision::AwaitingAction { actor, actions } => {
            assert_eq!(actor, 1);
            assert!(actions.len() > 1);
        }
        other => panic!("unexpected {other:?}"),
    }
    assert_eq!(g.table.turn, 2);
    g.game.set_scripted(1);
    assert!(!g.game.is_interactive(1));
    assert!(matches!(g.step(), PendingDecision::GameOver(_)));
}

#[test]
fn the_interactive_sentinel_selects_seats() {
    let players: Vec<String> = vec!["Interactive".to_string(), "r".to_string()];
    assert_eq!(interactive_seats_from_players(&players), [true, false]);
    let players: Vec<String> = vec!["aa".to_string(), "INTERACTIVE".to_string()];
    assert_eq!(interactive_seats_from_players(&players), [false, true]);
    let players: Vec<String> = vec!["interactiv".to_string()];
    assert_eq!(interactive_seats_from_players(&players), [false, false]);
    assert_eq!(interactive_seats_from_players(&vec![]), [false, false]);
}

#[test]
fn a_hotseat_game_pauses_for_every_draw_of_both_seats() {
    let mut g = Driven { game: Game::hotseat(), table: Table::new() };
    assert!(g.game.is_interactive(0) && g.game.is_interactive(1));
    let mut seats_drawing = [0, 0];
    let mut pending = g.step();
    for _ in 0..200 {
        pending = match pending {
            PendingDecision::AwaitingDraw { actor, .. } => {
                seats_drawing[actor] += 1;
                g.submit_draw(None).expect("submit_draw should succeed")
            }
            PendingDecision::AwaitingAction { actions, .. } => {
                g.submit_action(actions[0]).expect("submit_action should succeed")
            }
            PendingDecision::GameOver(_) => break,
        };
    }
    assert!(matches!(pending, PendingDecision::GameOver(Some(_))));
    // Three opening draws each, then one per turn: three turns each.
    assert_eq!(seats_drawing, [6, 6]);
}

#[test]
fn seats_are_checked_before_use() {
    assert!(check_seat(0).is_ok());
    assert!(check_seat(1).is_ok());
    assert_eq!(check_seat(2), Err("seat must be 0 or 1".to_string()));
}

#[test]
fn move_card_to_front_keeps_the_other_cards_in_order() {
    let mut d = Deck { cards: vec![Card { id: 1 }, Card { id: 2 }, Card { id: 3 }, Card { id: 2 }] };
    assert!(d.move_card_to_front(Card { id: 2 }).is_ok());
    assert_eq!(d.cards, vec![Card { id: 2 }, Card { id: 1 }, Card { id: 3 }, Card { id: 2 }]);
    assert!(d.move_card_to_front(Card { id: 9 }).is_err());
    assert_eq!(d.cards, vec![Card { id: 2 }, Card { id: 1 }, Card { id: 3 }, Card { id: 2 }]);
}

#[test]
fn interactive_player_hands_out_its_deck() {
    let p = InteractivePlayer { deck: Deck { cards: deck(1) } };
    assert_eq!(p.get_deck().cards, deck(1));
}

#[test]
fn player_types_list_every_code() {
    let types = get_player_types();
    assert_eq!(types.len(), 8);
    assert_eq!(types[0], ("r", "Random Player"));
    assert_eq!(types[3], ("h", "Human Player"));
    assert_eq!(types[7], ("e", "Expectiminimax Player"));
}

// ---- the viewer ----

fn new_app(codes: &[&str], override_draws: bool) -> (App<Table>, Table) {
    let codes: Vec<String> = codes.iter().map(|c| c.to_string()).collect();
    let human = human_seats_from_codes(&codes);
    assert!(is_live_viewer(human));
    let table = Table::new();
    (App::new_interactive(table.frame(), human, override_draws), table)
}

fn tick(app: &mut App<Table>, table: &mut Table) {
    match app.tick_game() {
        TickCommand::Wait => {}
        TickCommand::Apply(a) => {
            table.apply(a);
            app.complete_tick(a, table.frame());
        }
        TickCommand::DrawChosen { card, action } => {
            let seat = action.actor;
            let mut d = Deck { cards: table.decks[seat].clone() };
            d.move_card_to_front(card).expect("the candidate comes from the deck");
            table.decks[seat] = d.cards;
            table.apply(action);
            app.complete_tick(action, table.frame());
        }
        TickCommand::BotPlay => {
            let a = table.legal()[0];
            table.apply(a);
            app.complete_tick(a, table.frame());
        }
    }
}

#[test]
fn sorts_actions_for_tui_in_expected_priority_order() {
    let kinds = [
        ActionKind::EndTurn,
        ActionKind::Retreat,
        ActionKind::Attack,
        ActionKind::Attach,
        ActionKind::Play,
        ActionKind::Evolve,
        ActionKind::Place,
    ];
    let mut actions: Vec<Action> =
        kinds.iter().map(|k| Action { actor: 1, kind: *k, code: 0 }).collect();
    sort_actions_for_tui(&mut actions);
    let sorted: Vec<ActionKind> = actions.iter().map(|a| a.kind).collect();
    assert_eq!(
        sorted,
        vec![
            ActionKind::Place,
            ActionKind::Evolve,
            ActionKind::Play,
            ActionKind::Attach,
            ActionKind::Attack,
            ActionKind::Retreat,
            ActionKind::EndTurn,
        ]
    );
}

#[test]
fn test_draw_override_flow_lets_human_pick_a_card_to_draw() {
    let (mut app, mut table) = new_app(&["r", "h"], true);
    let mut saw_draw_choice = false;
    let mut resolved_a_draw_choice = false;
    for _ in 0..2_000 {
        if app.is_game_over() {
            break;
        }
        if let Some(candidates) = app.get_draw_choice() {
            assert!(!candidates.is_empty(), "draw choice should offer at least one candidate");
            saw_draw_choice = true;
            app.handle_action_selection(0);
            tick(&mut app, &mut table);
            if app.get_draw_choice().is_none() {
                resolved_a_draw_choice = true;
            }
            continue;
        }
        let possible_actions = app.get_possible_actions();
        if app.is_current_actor_human() && possible_actions.len() > 1 {
            app.handle_action_selection(0);
        }
        tick(&mut app, &mut table);
    }
    assert!(app.is_game_over());
    assert!(saw_draw_choice, "the human seat should have been offered a draw choice");
    assert!(resolved_a_draw_choice, "picking a candidate should resolve the draw");
}

#[test]
fn test_draw_choice_never_offered_when_override_disabled() {
    let (mut app, mut table) = new_app(&["r", "h"], false);
    for _ in 0..2_000 {
        if app.is_game_over() {
            break;
        }
        assert!(app.get_draw_choice().is_none());
        let possible_actions = app.get_possible_actions();
        if app.is_current_actor_human() && possible_actions.len() > 1 {
            app.handle_action_selection(0);
        }
        tick(&mut app, &mut table);
    }
    assert!(app.is_game_over());
}

#[test]
fn test_human_player_code_selects_interactive_mode() {
    let (app, _) = new_app(&["r", "h"], true);
    assert!(matches!(app.mode, AppMode::Interactive { .. }));
    let codes: Vec<String> = vec!["r".to_string(), "aa".to_string()];
    assert!(!is_live_viewer(human_seats_from_codes(&codes)));
    assert_eq!(human_seats_from_codes(&vec!["h".to_string()]), [true, false]);
}

#[test]
fn test_both_seats_human_plays_via_clicks_only() {
    let (mut app, mut table) = new_app(&["h", "h"], true);
    let mut saw_actor_0_turn = false;
    let mut saw_actor_1_turn = false;
    for _ in 0..2_000 {
        if app.is_game_over() {
            break;
        }
        assert!(app.is_current_actor_human());
        match app.get_current_actor() {
            0 => saw_actor_0_turn = true,
            1 => saw_actor_1_turn = true,
            other => panic!("unexpected actor {other}"),
        }
        if let Some(candidates) = app.get_draw_choice() {
            if !candidates.is_empty() {
                app.handle_action_selection(0);
            }
            tick(&mut app, &mut table);
            continue;
        }
        let possible_actions = app.get_possible_actions();
        if possible_actions.len() > 1 {
            app.handle_action_selection(0);
        }
        tick(&mut app, &mut table);
    }
    assert!(app.is_game_over());
    assert!(saw_actor_0_turn, "seat 0 should have taken at least one turn");
    assert!(saw_actor_1_turn, "seat 1 should have taken at least one turn");
}

#[test]
fn test_undo_reverts_state_history_and_action_history_together() {
    let (mut app, mut table) = new_app(&["r", "h"], false);
    assert!(!app.can_undo(), "nothing has happened yet");
    for _ in 0..5 {
        tick(&mut app, &mut table);
    }
    assert!(app.can_undo(), "several actions have been applied by now");

    let state_before_undo = app.get_state().clone();
    let actions_before_undo = app.get_actions();
    assert!(!actions_before_undo.is_empty());

    app.undo();
    table = app.get_state().clone();

    let state_after_undo = app.get_state().clone();
    let actions_after_undo = app.get_actions();
    assert_eq!(actions_after_undo.len(), actions_before_undo.len() - 1);
    assert_eq!(actions_after_undo, actions_before_undo[..actions_before_undo.len() - 1]);
    assert_ne!(state_after_undo, state_before_undo);

    while app.can_undo() {
        app.undo();
    }
    assert!(app.get_actions().is_empty());
    let state_at_start = app.get_state().clone();
    assert_eq!(state_at_start, Table::new());
    app.undo();
    assert_eq!(app.get_state(), &state_at_start);
    table = app.get_state().clone();
    tick(&mut app, &mut table);
    assert_eq!(app.get_actions().len(), 1, "play resumes from the restored state");
}

#[test]
fn test_draw_choice_paging_reaches_items_past_page_one() {
    let (mut app, mut table) = new_app(&["r", "h"], true);
    for _ in 0..100 {
        if app.get_draw_choice().is_some() {
            break;
        }
        tick(&mut app, &mut table);
    }
    let candidates = app.get_draw_choice().expect("should have reached a draw choice").to_vec();
    assert!(candidates.len() > ITEMS_PER_PAGE);
    assert_eq!(app.action_page, 0);

    app.prev_action_page();
    assert_eq!(app.action_page, 0, "paging before the first page should be a no-op");

    app.next_action_page();
    assert_eq!(app.action_page, 1);

    app.handle_action_selection(2);
    assert!(matches!(app.selection_state, SelectionState::ActionSelected { action_index: 11 }));

    tick(&mut app, &mut table);
    let expected_card = candidates[11];
    assert!(app.get_state().hands[1].contains(&expected_card));
    assert_eq!(expected_card, Card { id: 112 });
    assert_eq!(app.action_page, 0, "the page resets for the next decision");
}

#[test]
fn keys_drive_the_viewer() {
    let (mut app, mut table) = new_app(&["r", "h"], true);
    for _ in 0..100 {
        if app.get_draw_choice().is_some() {
            break;
        }
        tick(&mut app, &mut table);
    }
    assert_eq!(app.handle_key(Key::PageDown), KeyOutcome::Continue);
    assert_eq!(app.action_page, 1);
    assert_eq!(app.handle_key(Key::PageDown), KeyOutcome::Continue);
    assert_eq!(app.action_page, 2);
    assert_eq!(app.handle_key(Key::PageDown), KeyOutcome::Continue);
    assert_eq!(app.action_page, 2, "20 candidates make three pages");
    assert_eq!(app.handle_key(Key::PageUp), KeyOutcome::Continue);
    assert_eq!(app.handle_key(Key::Char('9')), KeyOutcome::Continue);
    assert!(matches!(app.selection_state, SelectionState::ActionSelected { action_index: 17 }));
    let lock = app.lock_actions_center;
    app.handle_key(Key::Char('c'));
    assert_eq!(app.lock_actions_center, !lock);
    assert_eq!(app.handle_key(Key::Other), KeyOutcome::Continue);
    assert_eq!(app.handle_key(Key::Char('q')), KeyOutcome::Quit);
    assert_eq!(app.handle_key(Key::Esc), KeyOutcome::Quit);
    tick(&mut app, &mut table);
    assert!(app.get_state().hands[1].contains(&Card { id: 118 }));
    assert!(app.can_undo());
    let n = app.get_actions().len();
    app.handle_key(Key::Char('u'));
    assert_eq!(app.get_actions().len(), n - 1);
    app.handle_key(Key::Backspace);
    assert_eq!(app.get_actions().len(), n - 2);
}
