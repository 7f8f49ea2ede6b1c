//! What the terminal viewer draws, on concrete values.

use deckgym::tui::listing::{paginate, ITEMS_PER_PAGE};
use deckgym::tui::view::{
    active_slot_title, bench_slot_title, bot_waiting_line, centered_log_top, decimal,
    hand_window, human_controls_line, interactive_header, list_title, replay_header, HandWindow,
};

#[test]
fn hand_windows_show_five_cards_with_arrows_where_cards_hide() {
    assert_eq!(
        hand_window(7, 0),
        HandWindow { start: 0, end: 5, left_arrow: false, right_arrow: true }
    );
    assert_eq!(
        hand_window(7, 2),
        HandWindow { start: 2, end: 7, left_arrow: true, right_arrow: false }
    );
    assert_eq!(
        hand_window(3, 0),
        HandWindow { start: 0, end: 3, left_arrow: false, right_arrow: false }
    );
    assert_eq!(
        hand_window(2, 4),
        HandWindow { start: 4, end: 2, left_arrow: false, right_arrow: false }
    );
}

#[test]
fn the_centered_log_keeps_its_marker_in_view() {
    // 20 lines inside a 10-line pane (8 visible): line 10 sits at the middle.
    assert_eq!(centered_log_top(10, 20, 10), 6);
    // Near the start the log does not scroll above its first line.
    assert_eq!(centered_log_top(2, 20, 10), 0);
    // Near the end it does not scroll past its last line.
    assert_eq!(centered_log_top(19, 20, 10), 12);
    // A pane too small for its borders still shows one line.
    assert_eq!(centered_log_top(5, 20, 1), 5);
}

#[test]
fn numbers_and_titles() {
    assert_eq!(decimal(0), "0");
    assert_eq!(decimal(7), "7");
    assert_eq!(decimal(1234567890), "1234567890");
    assert_eq!(decimal(usize::MAX), usize::MAX.to_string());
    assert_eq!(active_slot_title(0), "P1 Active");
    assert_eq!(bench_slot_title(1, 2), "P2 Bench 3");
    assert_eq!(list_title(1, true, 2, 3), "P2 TURN - Choose a card to draw (page 2/3):");
    assert_eq!(list_title(0, false, 1, 1), "P1 TURN - Select Action:");
    assert_eq!(bot_waiting_line(0), "P1 (BOT) TURN - Waiting...");
    assert_eq!(interactive_header(3, [1, 2]), "DeckGym [INTERACTIVE] | Turn: 3 | P1: 1 pts | P2: 2 pts");
    assert_eq!(
        replay_header(0, 12, 1, [0, 0]),
        "DeckGym [REPLAY] State: 1/12 | Turn: 1 | P1: 0 pts | P2: 0 pts"
    );
    assert!(human_controls_line(ITEMS_PER_PAGE + 1).contains("PageUp/PageDown=more"));
    assert!(!human_controls_line(ITEMS_PER_PAGE).contains("PageUp/PageDown"));
}

#[test]
fn pages_hold_nine_items_and_clamp_to_the_last() {
    let items: Vec<u32> = (0..20).collect();
    let (page, shown, total) = paginate(&items, 1);
    assert_eq!(page, &items[9..18]);
    assert_eq!((shown, total), (2, 3));
    let (page, shown, total) = paginate(&items, 7);
    assert_eq!(page, &items[18..20]);
    assert_eq!((shown, total), (3, 3));
    let empty: Vec<u32> = vec![];
    let (page, shown, total) = paginate(&empty, 0);
    assert!(page.is_empty());
    assert_eq!((shown, total), (1, 1));
}
