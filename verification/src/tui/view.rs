use vstd::prelude::*;

use crate::text::concat2;

verus! {

/// Most cards of a hand shown at once.
pub const HAND_WINDOW: usize = 5;

/// The cards of a hand shown on screen: positions `start..end`, with an arrow on the first
/// shown card when cards are hidden to its left, and on the last when cards are hidden to
/// its right.
#[derive(Clone, Copy, Debug, PartialEq, Eq, Structural)]
pub struct HandWindow {
    pub start: usize,
    pub end: usize,
    pub left_arrow: bool,
    pub right_arrow: bool,
}

pub open spec fn spec_hand_window(total: nat, scroll: nat) -> HandWindow {
    let end = vstd::math::min((scroll + HAND_WINDOW) as int, total as int);
    HandWindow {
        start: scroll as usize,
        end: end as usize,
        left_arrow: scroll > 0 && scroll < end,
        right_arrow: scroll < end && end < total,
    }
}

/// The part of a hand of `total` cards shown when scrolled to `scroll`.
pub fn hand_window(total: usize, scroll: usize) -> (w: HandWindow)
    requires
        scroll + HAND_WINDOW <= usize::MAX,
    ensures
        w == spec_hand_window(total as nat, scroll as nat),
{
    let end = if scroll + HAND_WINDOW < total {
        scroll + HAND_WINDOW
    } else {
        total
    };
    HandWindow {
        start: scroll,
        end,
        left_arrow: scroll > 0 && scroll < end,
        right_arrow: scroll < end && end < total,
    }
}

/// The scroll limit that the hand scrolling keeps to (`saturating_sub(total, 5)`) always
/// leaves a full window: as many cards as fit, or the whole hand when it is smaller; the
/// arrows show exactly when cards lie beyond each side.
pub proof fn lemma_scrolled_hand_window_is_full(total: usize, scroll: usize)
    requires
        scroll + HAND_WINDOW <= total || scroll == 0,
    ensures
        ({
            let w = spec_hand_window(total as nat, scroll as nat);
            &&& w.end - w.start == vstd::math::min(HAND_WINDOW as int, total as int)
            &&& w.left_arrow == (scroll > 0)
            &&& w.right_arrow == (scroll + HAND_WINDOW < total)
        }),
{
}

/// The first battle-log line shown when the log is centered on line `marker`: the marker in
/// the middle of the `area_height - 2` lines inside the borders (at least one), but never
/// scrolled past the end of the log.
pub open spec fn spec_centered_log_top(marker: nat, total_lines: nat, area_height: nat) -> nat {
    let visible = if area_height >= 3 {
        (area_height - 2) as nat
    } else {
        1nat
    };
    let desired = if marker >= visible / 2 {
        (marker - visible / 2) as nat
    } else {
        0nat
    };
    let max_top = if total_lines >= visible {
        (total_lines - visible) as nat
    } else {
        0nat
    };
    if desired < max_top {
        desired
    } else {
        max_top
    }
}

/// See `spec_centered_log_top`.
pub fn centered_log_top(marker: usize, total_lines: usize, area_height: usize) -> (top: usize)
    ensures
        top == spec_centered_log_top(marker as nat, total_lines as nat, area_height as nat),
{
    let visible = if area_height >= 3 {
        area_height - 2
    } else {
        1
    };
    let desired = marker.saturating_sub(visible / 2);
    let max_top = total_lines.saturating_sub(visible);
    if desired < max_top {
        desired
    } else {
        max_top
    }
}

/// A centered log always shows its marker line.
pub proof fn lemma_centered_log_shows_marker(marker: nat, total_lines: nat, area_height: nat)
    requires
        marker < total_lines,
    ensures
        ({
            let visible = if area_height >= 3 {
                area_height - 2
            } else {
                1
            };
            let top = spec_centered_log_top(marker, total_lines, area_height);
            top <= marker < top + visible
        }),
{
}

/// The decimal digit of `d` (from 0 to 9).
pub open spec fn digit_char(d: nat) -> char {
    (d + 48) as char
}

/// The decimal numeral of `n`, without leading zeros.
pub open spec fn spec_decimal(n: nat) -> Seq<char>
    decreases n,
{
    if n < 10 {
        seq![digit_char(n)]
    } else {
        spec_decimal(n / 10).push(digit_char(n % 10))
    }
}

fn digit_str(d: usize) -> (s: &'static str)
    requires
        d < 10,
    ensures
        s@ == seq![digit_char(d as nat)],
{
    proof {
        reveal_strlit("0");
        reveal_strlit("1");
        reveal_strlit("2");
        reveal_strlit("3");
        reveal_strlit("4");
        reveal_strlit("5");
        reveal_strlit("6");
        reveal_strlit("7");
        reveal_strlit("8");
        reveal_strlit("9");
    }
    match d {
        0 => "0",
        1 => "1",
        2 => "2",
        3 => "3",
        4 => "4",
        5 => "5",
        6 => "6",
        7 => "7",
        8 => "8",
        _ => "9",
    }
}

/// See `spec_decimal`.
pub fn decimal(n: usize) -> (s: String)
    ensures
        s@ == spec_decimal(n as nat),
    decreases n,
{
    if n < 10 {
        String::from_str(digit_str(n))
    } else {
        let head = decimal(n / 10);
        concat2(head.as_str(), digit_str(n % 10))
    }
}

/// How a seat is named on screen: "P1" for seat 0, "P2" for seat 1.
pub open spec fn spec_seat_name(seat: nat) -> Seq<char> {
    "P"@ + spec_decimal(seat + 1)
}

fn seat_name(seat: usize) -> (s: String)
    requires
        seat < usize::MAX,
    ensures
        s@ == spec_seat_name(seat as nat),
{
    concat2("P", decimal(seat + 1).as_str())
}

/// The title of a seat's active spot.
pub fn active_slot_title(seat: usize) -> (s: String)
    requires
        seat < usize::MAX,
    ensures
        s@ == spec_seat_name(seat as nat) + " Active"@,
{
    concat2(seat_name(seat).as_str(), " Active")
}

/// The title of bench spot `bench_pos` (counted from 0) of a seat.
pub fn bench_slot_title(seat: usize, bench_pos: usize) -> (s: String)
    requires
        seat < usize::MAX,
        bench_pos < usize::MAX,
    ensures
        s@ == spec_seat_name(seat as nat) + " Bench "@ + spec_decimal((bench_pos + 1) as nat),
{
    let with_bench = concat2(seat_name(seat).as_str(), " Bench ");
    concat2(with_bench.as_str(), decimal(bench_pos + 1).as_str())
}

/// The title above the list the human picks from: a draw's candidates or the legal moves,
/// with "(page x/y)" when the list spans several pages.
pub open spec fn spec_list_title(actor: nat, choosing_draw: bool, page_num: nat, total_pages: nat) -> Seq<
    char,
> {
    let what = if choosing_draw {
        " TURN - Choose a card to draw"@
    } else {
        " TURN - Select Action"@
    };
    let paging = if total_pages > 1 {
        " (page "@ + spec_decimal(page_num) + "/"@ + spec_decimal(total_pages) + ")"@
    } else {
        Seq::empty()
    };
    spec_seat_name(actor) + what + paging + ":"@
}

/// See `spec_list_title`.
pub fn list_title(actor: usize, choosing_draw: bool, page_num: usize, total_pages: usize) -> (s:
    String)
    requires
        actor < usize::MAX,
    ensures
        s@ == spec_list_title(actor as nat, choosing_draw, page_num as nat, total_pages as nat),
{
    let who = seat_name(actor);
    let mut s = if choosing_draw {
        concat2(who.as_str(), " TURN - Choose a card to draw")
    } else {
        concat2(who.as_str(), " TURN - Select Action")
    };
    if total_pages > 1 {
        s.append(" (page ");
        s.append(decimal(page_num).as_str());
        s.append("/");
        s.append(decimal(total_pages).as_str());
        s.append(")");
    }
    s.append(":");
    s
}

/// The footer's title for a live game: the turn and both seats' points.
pub fn interactive_header(turn: u8, points: [u8; 2]) -> (s: String)
    ensures
        s@ == "DeckGym [INTERACTIVE] | Turn: "@ + spec_decimal(turn as nat) + " | P1: "@
            + spec_decimal(points[0] as nat) + " pts | P2: "@ + spec_decimal(points[1] as nat)
            + " pts"@,
{
    let mut s = String::from_str("DeckGym [INTERACTIVE] | Turn: ");
    s.append(decimal(turn as usize).as_str());
    s.append(" | P1: ");
    s.append(decimal(points[0] as usize).as_str());
    s.append(" pts | P2: ");
    s.append(decimal(points[1] as usize).as_str());
    s.append(" pts");
    s
}

/// The footer's title for a replay: the state shown (counted from 1) of all states, the
/// turn and both seats' points.
pub fn replay_header(index: usize, states: usize, turn: u8, points: [u8; 2]) -> (s: String)
    requires
        index < usize::MAX,
    ensures
        s@ == "DeckGym [REPLAY] State: "@ + spec_decimal((index + 1) as nat) + "/"@ + spec_decimal(
            states as nat,
        ) + " | Turn: "@ + spec_decimal(turn as nat) + " | P1: "@ + spec_decimal(points[0] as nat)
            + " pts | P2: "@ + spec_decimal(points[1] as nat) + " pts"@,
{
    let mut s = String::from_str("DeckGym [REPLAY] State: ");
    s.append(decimal(index + 1).as_str());
    s.append("/");
    s.append(decimal(states).as_str());
    s.append(" | Turn: ");
    s.append(decimal(turn as usize).as_str());
    s.append(" | P1: ");
    s.append(decimal(points[0] as usize).as_str());
    s.append(" pts | P2: ");
    s.append(decimal(points[1] as usize).as_str());
    s.append(" pts");
    s
}

/// The waiting line shown while a bot seat decides.
pub fn bot_waiting_line(actor: usize) -> (s: String)
    requires
        actor < usize::MAX,
    ensures
        s@ == spec_seat_name(actor as nat) + " (BOT) TURN - Waiting..."@,
{
    concat2(seat_name(actor).as_str(), " (BOT) TURN - Waiting...")
}

/// The controls line shown to a human at a decision: the paging keys are listed only when
/// the list is longer than a page.
pub fn human_controls_line(list_len: usize) -> (s: String)
    ensures
        s@ == "Controls: ESC/q=quit, 1-9=select"@ + (if list_len > crate::tui::listing::ITEMS_PER_PAGE {
            ", PageUp/PageDown=more"@
        } else {
            Seq::empty()
        }) + ", u/Backspace=undo, W/S=jump turn, Left/Right=scroll player hand, A/D=scroll opp hand"@,
{
    let mut s = String::from_str("Controls: ESC/q=quit, 1-9=select");
    if list_len > crate::tui::listing::ITEMS_PER_PAGE {
        s.append(", PageUp/PageDown=more");
    } else {
        proof {
            assert(s@ + Seq::<char>::empty() =~= s@);
        }
    }
    s.append(", u/Backspace=undo, W/S=jump turn, Left/Right=scroll player hand, A/D=scroll opp hand");
    s
}

} // verus!
