use vstd::prelude::*;

use crate::text::{concat2, str_eq};
use crate::web::error::{bad_request, RequestError};
use crate::tui::view::{digit_char, spec_decimal};
use crate::web::session::{spec_uuid_text, uuid_text};

verus! {

/// Whether `s` is a stored game outcome: "win", "loss" or "tie" (seen from the first deck).
pub open spec fn spec_is_outcome(s: Seq<char>) -> bool {
    s == "win"@ || s == "loss"@ || s == "tie"@
}

pub fn is_valid_outcome(s: &str) -> (b: bool)
    ensures
        b == spec_is_outcome(s@),
{
    str_eq(s, "win") || str_eq(s, "loss") || str_eq(s, "tie")
}

pub open spec fn is_ascii_digit(c: char) -> bool {
    '0' <= c && c <= '9'
}

/// The value of a run of decimal digits.
pub open spec fn digits_value(d: Seq<char>) -> int
    decreases d.len(),
{
    if d.len() == 0 {
        0
    } else {
        digits_value(d.drop_last()) * 10 + (d.last() as int - '0' as int)
    }
}

/// How many leading characters of `s` are a sign: one for a leading '+' or '-', else none.
pub open spec fn sign_len(s: Seq<char>) -> int {
    if s.len() > 0 && (s[0] == '+' || s[0] == '-') {
        1
    } else {
        0
    }
}

/// What follows the sign.
pub open spec fn unsigned_part(s: Seq<char>) -> Seq<char> {
    s.subrange(sign_len(s), s.len() as int)
}

pub open spec fn all_digits(d: Seq<char>) -> bool {
    forall|i: int| 0 <= i < d.len() ==> is_ascii_digit(#[trigger] d[i])
}

/// The integer that `s` spells, its sign taken into account.
pub open spec fn signed_value(s: Seq<char>) -> int {
    if s.len() > 0 && s[0] == '-' {
        -digits_value(unsigned_part(s))
    } else {
        digits_value(unsigned_part(s))
    }
}

/// The `i64` that `s` spells, as `str::parse::<i64>` reads it: an optional '+' or '-', then
/// one or more ASCII digits and nothing else, within the range of `i64`.
pub open spec fn spec_parse_i64(s: Seq<char>) -> Option<i64> {
    if unsigned_part(s).len() > 0 && all_digits(unsigned_part(s)) && i64::MIN <= signed_value(s)
        <= i64::MAX {
        Some(signed_value(s) as i64)
    } else {
        None
    }
}

proof fn lemma_digits_value_grows(d: Seq<char>, k: int)
    requires
        0 <= k <= d.len(),
        all_digits(d),
    ensures
        0 <= digits_value(d.subrange(0, k)) <= digits_value(d),
    decreases d.len(),
{
    if d.len() == 0 {
        assert(d.subrange(0, k) =~= d);
    } else {
        let t = d.drop_last();
        assert forall|i: int| 0 <= i < t.len() implies is_ascii_digit(#[trigger] t[i]) by {
            assert(t[i] == d[i]);
        }
        assert(is_ascii_digit(d[d.len() - 1]));
        if k == d.len() {
            lemma_digits_value_grows(t, t.len() as int);
            assert(t.subrange(0, t.len() as int) =~= t);
            assert(d.subrange(0, k) =~= d);
            assert(0 <= digits_value(t) * 10) by (nonlinear_arith)
                requires
                    digits_value(t) >= 0,
            ;
        } else {
            lemma_digits_value_grows(t, k);
            assert(t.subrange(0, k) =~= d.subrange(0, k));
            assert(digits_value(t) <= digits_value(t) * 10) by (nonlinear_arith)
                requires
                    digits_value(t) >= 0,
            ;
        }
    }
}

/// See `spec_parse_i64`.
pub fn parse_i64(s: &str) -> (r: Option<i64>)
    ensures
        r == spec_parse_i64(s@),
{
    let n = s.unicode_len();
    let mut start: usize = 0;
    let mut negative = false;
    if n > 0 {
        let c = s.get_char(0);
        if c == '+' {
            start = 1;
        } else if c == '-' {
            start = 1;
            negative = true;
        }
    }
    let ghost digits = unsigned_part(s@);
    assert(start == sign_len(s@));
    assert(negative == (s@.len() > 0 && s@[0] == '-'));
    if start == n {
        return None;
    }
    let mut value: i64 = 0;
    let mut i: usize = start;
    while i < n
        invariant
            n == s@.len(),
            start <= i <= n,
            start < n,
            start == sign_len(s@),
            digits == unsigned_part(s@),
            negative == (s@.len() > 0 && s@[0] == '-'),
            forall|j: int| start <= j < i ==> is_ascii_digit(#[trigger] s@[j]),
            value as int == if negative {
                -digits_value(s@.subrange(start as int, i as int))
            } else {
                digits_value(s@.subrange(start as int, i as int))
            },
        decreases n - i,
    {
        let c = s.get_char(i);
        let ghost prefix = s@.subrange(start as int, i as int);
        assert(s@.subrange(start as int, i + 1) =~= prefix.push(c));
        assert(s@.subrange(start as int, i + 1).drop_last() =~= prefix);
        if !('0' <= c && c <= '9') {
            proof {
                assert(digits[i - start] == s@[i as int]);
                assert(!all_digits(digits));
            }
            return None;
        }
        assert(digits_value(prefix.push(c)) == digits_value(prefix) * 10 + (c as int - '0' as int));
        let d = (c as u32 - '0' as u32) as i64;
        let next = if negative {
            match value.checked_mul(10) {
                Some(v) => v.checked_sub(d),
                None => None,
            }
        } else {
            match value.checked_mul(10) {
                Some(v) => v.checked_add(d),
                None => None,
            }
        };
        match next {
            Some(v) => {
                value = v;
            },
            None => {
                proof {
                    let ghost longer = s@.subrange(start as int, i + 1);
                    assert(all_digits(prefix));
                    lemma_digits_value_grows(prefix, prefix.len() as int);
                    assert(prefix.subrange(0, prefix.len() as int) =~= prefix);
                    assert(digits_value(prefix) >= 0);
                    assert(digits_value(longer) == digits_value(prefix) * 10 + (c as int
                        - '0' as int));
                    if negative {
                        assert(-digits_value(longer) < i64::MIN);
                    } else {
                        assert(digits_value(longer) > i64::MAX);
                    }
                    if all_digits(digits) {
                        lemma_digits_value_grows(digits, i + 1 - start);
                        assert(digits.subrange(0, i + 1 - start) =~= longer);
                    }
                }
                return None;
            },
        }
        i = i + 1;
    }
    assert(s@.subrange(start as int, n as int) =~= digits);
    Some(value)
}

proof fn lemma_decimal_digits(n: nat)
    ensures
        spec_decimal(n).len() > 0,
        all_digits(spec_decimal(n)),
        digits_value(spec_decimal(n)) == n,
    decreases n,
{
    if n < 10 {
        let d = spec_decimal(n);
        assert(d.drop_last() =~= Seq::<char>::empty());
        assert(d.last() as int == n + 48);
        assert(digits_value(d) == digits_value(d.drop_last()) * 10 + (d.last() as int - '0' as int));
        assert(digits_value(d.drop_last()) == 0);
        assert(digits_value(d) == n);
    } else {
        lemma_decimal_digits(n / 10);
        let d = spec_decimal(n);
        let head = spec_decimal(n / 10);
        assert(d.drop_last() =~= head);
        assert(d.last() == digit_char((n % 10) as nat));
        assert(d.last() as int == (n % 10) + 48);
        vstd::arithmetic::div_mod::lemma_fundamental_div_mod(n as int, 10);
        assert(digits_value(d) == digits_value(head) * 10 + (n % 10));
        assert(digits_value(head) == n / 10);
        assert((n / 10) * 10 == 10 * (n / 10)) by (nonlinear_arith);
        assert(digits_value(d) == n);
        assert forall|i: int| 0 <= i < d.len() implies is_ascii_digit(#[trigger] d[i]) by {
            if i < head.len() {
                assert(d[i] == head[i]);
            }
        }
    }
}

/// Seeds read back from their decimal text: every `i64`, written in decimal (with a '-'
/// before a negative one), parses to itself.
pub proof fn lemma_seed_text_round_trip(v: i64)
    ensures
        v >= 0 ==> spec_parse_i64(spec_decimal(v as nat)) == Some(v),
        v < 0 ==> spec_parse_i64("-"@ + spec_decimal((-v) as nat)) == Some(v),
{
    if v >= 0 {
        let t = spec_decimal(v as nat);
        lemma_decimal_digits(v as nat);
        assert(is_ascii_digit(t[0]));
        assert(sign_len(t) == 0);
        assert(unsigned_part(t) =~= t);
    } else {
        let d = spec_decimal((-v) as nat);
        lemma_decimal_digits((-v) as nat);
        reveal_strlit("-");
        let t = "-"@ + d;
        assert(t[0] == '-');
        assert(sign_len(t) == 1);
        assert(unsigned_part(t) =~= d);
    }
}

/// A new game, created before its first move is recorded.
pub struct CreateGameRequest {
    pub deck_a_id: u128,
    pub deck_b_id: u128,
    /// "hotseat" or "ai".
    pub mode: String,
    /// The engine's seed, written as a decimal integer.
    pub seed: String,
}

/// The outcome of checking a new game's request: the seed, or the reason for refusing it.
pub open spec fn spec_check_create_game(mode: Seq<char>, seed: Seq<char>) -> Result<i64, Seq<char>> {
    if mode != "hotseat"@ && mode != "ai"@ {
        Err("mode must be 'hotseat' or 'ai'"@)
    } else {
        match spec_parse_i64(seed) {
            Some(v) => Ok(v),
            None => Err("seed must be an integer"@),
        }
    }
}

impl CreateGameRequest {
    /// Checks the mode, then reads the seed; see `spec_check_create_game`.
    pub fn validate(&self) -> (r: Result<i64, RequestError>)
        ensures
            match spec_check_create_game(self.mode@, self.seed@) {
                Ok(v) => r == Ok::<i64, RequestError>(v),
                Err(msg) => r matches Err(RequestError::BadRequest(m)) && m@ == msg,
            },
    {
        if !str_eq(self.mode.as_str(), "hotseat") && !str_eq(self.mode.as_str(), "ai") {
            return Err(bad_request("mode must be 'hotseat' or 'ai'"));
        }
        match parse_i64(self.seed.as_str()) {
            Some(v) => Ok(v),
            None => Err(bad_request("seed must be an integer")),
        }
    }
}

/// The refusal of a new game naming a deck that the user can neither own nor see as a
/// reference deck.
pub fn inaccessible_deck(deck_id: u128) -> (e: RequestError)
    ensures
        e matches RequestError::BadRequest(m) && m@ == "deck "@ + spec_uuid_text(deck_id)
            + " not found or not accessible"@,
{
    let with_id = concat2("deck ", uuid_text(deck_id).as_str());
    RequestError::BadRequest(concat2(with_id.as_str(), " not found or not accessible"))
}

/// A game's outcome being set (at its natural end, or declared by hand).
pub struct UpdateGameRequest {
    pub outcome: String,
}

impl UpdateGameRequest {
    /// Accepted exactly when the outcome is "win", "loss" or "tie".
    pub fn validate(&self) -> (r: Result<(), RequestError>)
        ensures
            spec_is_outcome(self.outcome@) ==> r is Ok,
            !spec_is_outcome(self.outcome@) ==> (r matches Err(RequestError::BadRequest(m)) && m@
                == "outcome must be one of: win, loss, tie"@),
    {
        if !is_valid_outcome(self.outcome.as_str()) {
            return Err(bad_request("outcome must be one of: win, loss, tie"));
        }
        Ok(())
    }
}

/// Removing every recorded move from number `from` on (after an undo).
pub struct DeletePliesQuery {
    pub from: i32,
}

/// The filters of the game history list.
pub struct ListGamesQuery {
    /// "win", "loss", "tie", "incomplete" (no outcome yet) or "completed" (any outcome);
    /// win and loss are seen from `deck_id` when it is given.
    pub outcome: Option<String>,
    /// Only games this deck played, on either side.
    pub deck_id: Option<u128>,
    /// With `deck_id`: only games between exactly these two decks, either way round.
    pub opponent_deck_id: Option<u128>,
}

/// The outcome of checking the history filters: accepted, or the reason for refusing them.
pub open spec fn spec_check_list_query(outcome: Option<Seq<char>>, deck_id: Option<u128>, opponent: Option<u128>) -> Result<
    (),
    Seq<char>,
> {
    if outcome matches Some(o) && o != "incomplete"@ && o != "completed"@ && !spec_is_outcome(o) {
        Err("outcome must be one of: incomplete, completed, win, loss, tie"@)
    } else if opponent is Some && deck_id is None {
        Err("opponent_deck_id requires deck_id"@)
    } else {
        Ok(())
    }
}

pub open spec fn opt_string_view(o: Option<String>) -> Option<Seq<char>> {
    match o {
        Some(s) => Some(s@),
        None => None,
    }
}

/// A recorded game, as far as the history filters look at it.
pub struct GameSummary {
    /// The account that played the game; none once that account's data was removed.
    pub user_id: Option<u128>,
    pub deck_a_id: u128,
    pub deck_b_id: u128,
    /// "win", "loss" or "tie", seen from deck A; none while the game is unfinished.
    pub outcome: Option<String>,
}

/// A game's outcome seen from deck `deck`: win and loss swap when `deck` played side B.
pub open spec fn spec_relative_outcome(
    a: u128,
    b: u128,
    outcome: Option<Seq<char>>,
    deck: Option<u128>,
) -> Option<Seq<char>> {
    if deck matches Some(d) && b == d {
        match outcome {
            Some(o) => if o == "win"@ {
                Some("loss"@)
            } else if o == "loss"@ {
                Some("win"@)
            } else {
                Some(o)
            },
            None => None,
        }
    } else {
        outcome
    }
}

/// Whether a game with decks `a` and `b` and stored outcome `outcome` is listed under the
/// filters: the deck filter (either side, or exactly the pair either way round), and the
/// outcome filter applied to the outcome seen from the filtered deck.
pub open spec fn spec_game_listed(
    a: u128,
    b: u128,
    outcome: Option<Seq<char>>,
    q_outcome: Option<Seq<char>>,
    q_deck: Option<u128>,
    q_opponent: Option<u128>,
) -> bool {
    let decks_match = match q_opponent {
        None => match q_deck {
            None => true,
            Some(d) => a == d || b == d,
        },
        Some(o) => match q_deck {
            Some(d) => (a == d && b == o) || (a == o && b == d),
            None => false,
        },
    };
    let rel = spec_relative_outcome(a, b, outcome, q_deck);
    let outcome_matches = match q_outcome {
        None => true,
        Some(f) => (f == "incomplete"@ && rel is None) || (f == "completed"@ && rel is Some) || rel
            == Some(f),
    };
    decks_match && outcome_matches
}

fn relative_outcome(game: &GameSummary, deck: Option<u128>) -> (r: Option<String>)
    ensures
        opt_string_view(r) == spec_relative_outcome(
            game.deck_a_id,
            game.deck_b_id,
            opt_string_view(game.outcome),
            deck,
        ),
{
    let flip = match deck {
        Some(d) => game.deck_b_id == d,
        None => false,
    };
    match &game.outcome {
        None => None,
        Some(o) => {
            if flip && str_eq(o.as_str(), "win") {
                Some(String::from_str("loss"))
            } else if flip && str_eq(o.as_str(), "loss") {
                Some(String::from_str("win"))
            } else {
                Some(o.clone())
            }
        },
    }
}

impl ListGamesQuery {
    /// Checks the filters; see `spec_check_list_query`.
    pub fn validate(&self) -> (r: Result<(), RequestError>)
        ensures
            match spec_check_list_query(
                opt_string_view(self.outcome),
                self.deck_id,
                self.opponent_deck_id,
            ) {
                Ok(()) => r is Ok,
                Err(msg) => r matches Err(RequestError::BadRequest(m)) && m@ == msg,
            },
    {
        if let Some(outcome) = &self.outcome {
            if !str_eq(outcome.as_str(), "incomplete") && !str_eq(outcome.as_str(), "completed")
                && !is_valid_outcome(outcome.as_str()) {
                return Err(bad_request("outcome must be one of: incomplete, completed, win, loss, tie"));
            }
        }
        if self.opponent_deck_id.is_some() && self.deck_id.is_none() {
            return Err(bad_request("opponent_deck_id requires deck_id"));
        }
        Ok(())
    }

    /// Whether `game` is listed to the user `caller` under these filters: only the caller's
    /// own games, and among them those `spec_game_listed` keeps.
    pub fn lists(&self, caller: u128, game: &GameSummary) -> (b: bool)
        ensures
            b == (game.user_id == Some(caller) && spec_game_listed(
                game.deck_a_id,
                game.deck_b_id,
                opt_string_view(game.outcome),
                opt_string_view(self.outcome),
                self.deck_id,
                self.opponent_deck_id,
            )),
    {
        match game.user_id {
            Some(owner) => {
                if owner != caller {
                    return false;
                }
            },
            None => {
                return false;
            },
        }
        let a = game.deck_a_id;
        let b = game.deck_b_id;
        let decks_match = match self.opponent_deck_id {
            None => match self.deck_id {
                None => true,
                Some(d) => a == d || b == d,
            },
            Some(o) => match self.deck_id {
                Some(d) => (a == d && b == o) || (a == o && b == d),
                None => false,
            },
        };
        if !decks_match {
            return false;
        }
        let rel = relative_outcome(game, self.deck_id);
        match &self.outcome {
            None => true,
            Some(f) => {
                if str_eq(f.as_str(), "incomplete") && rel.is_none() {
                    true
                } else if str_eq(f.as_str(), "completed") && rel.is_some() {
                    true
                } else {
                    match &rel {
                        Some(r) => str_eq(r.as_str(), f.as_str()),
                        None => false,
                    }
                }
            },
        }
    }
}

/// Wins and losses belong to decks, not seats: under the filter for deck `d`, a finished game
/// between two different decks is listed as a loss exactly when `d` lost it, on whichever
/// side `d` played, and as a win exactly when `d` won it.
pub proof fn lemma_outcome_filter_follows_the_deck(a: u128, b: u128, outcome: Seq<char>, d: u128)
    requires
        a != b,
        a == d || b == d,
        spec_is_outcome(outcome),
    ensures
        spec_game_listed(a, b, Some(outcome), Some("loss"@), Some(d), None) <==> (if a == d {
            outcome == "loss"@
        } else {
            outcome == "win"@
        }),
        spec_game_listed(a, b, Some(outcome), Some("win"@), Some(d), None) <==> (if a == d {
            outcome == "win"@
        } else {
            outcome == "loss"@
        }),
{
    reveal_strlit("win");
    reveal_strlit("loss");
    reveal_strlit("tie");
    reveal_strlit("incomplete");
    reveal_strlit("completed");
    assert("win"@.len() == 3 && "loss"@.len() == 4 && "tie"@.len() == 3);
    assert("win"@[0] != "tie"@[0]);
    assert("incomplete"@.len() == 10 && "completed"@.len() == 9);
}

/// "incomplete" lists exactly the unfinished games and "completed" exactly the finished
/// ones, whatever deck filter is set.
pub proof fn lemma_incomplete_and_completed_split_the_list(
    a: u128,
    b: u128,
    outcome: Option<Seq<char>>,
    deck: Option<u128>,
    opponent: Option<u128>,
)
    requires
        outcome matches Some(o) ==> spec_is_outcome(o),
    ensures
        spec_game_listed(a, b, outcome, Some("incomplete"@), deck, opponent) <==> (spec_game_listed(
            a,
            b,
            outcome,
            None,
            deck,
            opponent,
        ) && outcome is None),
        spec_game_listed(a, b, outcome, Some("completed"@), deck, opponent) <==> (spec_game_listed(
            a,
            b,
            outcome,
            None,
            deck,
            opponent,
        ) && outcome is Some),
{
    reveal_strlit("win");
    reveal_strlit("loss");
    reveal_strlit("incomplete");
    reveal_strlit("completed");
    reveal_strlit("tie");
    assert("incomplete"@.len() == 10 && "completed"@.len() == 9);
    assert("win"@.len() == 3 && "loss"@.len() == 4 && "tie"@.len() == 3);
}

} // verus!
