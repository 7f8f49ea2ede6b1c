use vstd::prelude::*;

use crate::text::{
    concat2, lemma_lex_lt_irreflexive, lemma_lex_lt_total, lemma_lex_lt_transitive, lex_lt, spec_trim,
    str_eq, str_lt, trim,
};
use crate::web::error::{bad_request, is_bad_request, RequestError};

verus! {

/// A deck being saved: its name and its list in the engine's text format.
pub struct DeckRequest {
    pub name: String,
    pub deck_text: String,
}

impl DeckRequest {
    /// The name to store, trimmed; a name that is blank once trimmed is refused.
    pub fn validated_name(&self) -> (r: Result<String, RequestError>)
        ensures
            spec_trim(self.name@).len() == 0 ==> is_bad_request(r, "deck name is required"@),
            spec_trim(self.name@).len() > 0 ==> (r matches Ok(n) && n@ == spec_trim(self.name@)),
    {
        let t = trim(self.name.as_str());
        if t.unicode_len() == 0 {
            return Err(bad_request("deck name is required"));
        }
        Ok(t.to_string())
    }
}

/// What the engine reports of one card of a parsed deck list.
#[derive(Debug)]
pub struct DeckCard {
    pub name: String,
    /// A Basic Pokémon.
    pub basic: bool,
    /// Every effect of the card is implemented by the engine.
    pub implemented: bool,
    /// The engine's description of how far the card is implemented.
    pub status: String,
}

/// Number of cards in a deck.
pub const DECK_SIZE: usize = 20;

/// Most copies of one card name that a deck may hold.
pub const MAX_COPIES: usize = 2;

/// How many of `cards` carry the name `name`.
pub open spec fn count_named(cards: Seq<DeckCard>, name: Seq<char>) -> nat
    decreases cards.len(),
{
    if cards.len() == 0 {
        0
    } else {
        count_named(cards.drop_last(), name) + if cards.last().name@ == name {
            1nat
        } else {
            0nat
        }
    }
}

/// The engine's deck rules: exactly `DECK_SIZE` cards, at least one Basic Pokémon, and no
/// name more than `MAX_COPIES` times.
pub open spec fn spec_deck_rules_hold(cards: Seq<DeckCard>) -> bool {
    &&& cards.len() == DECK_SIZE
    &&& exists|i: int| 0 <= i < cards.len() && #[trigger] cards[i].basic
    &&& forall|i: int| 0 <= i < cards.len() ==> count_named(cards, #[trigger] cards[i].name@) <= MAX_COPIES
}

pub open spec fn deck_rules_message() -> Seq<char> {
    "deck must have exactly 20 cards, at least 1 Basic Pokémon, and at most 2 copies of any card name"@
}

/// How an unimplemented card is named in a refusal: its name, then its status in brackets.
pub open spec fn spec_card_label(c: DeckCard) -> Seq<char> {
    c.name@ + " ("@ + c.status@ + ")"@
}

/// Whether `label` names some unimplemented card of `cards`.
pub open spec fn is_unimplemented_label(cards: Seq<DeckCard>, label: Seq<char>) -> bool {
    exists|i: int| 0 <= i < cards.len() && !cards[i].implemented && #[trigger] spec_card_label(cards[i]) == label
}

/// Strictly increasing in `lex_lt`, hence without repeats.
pub open spec fn strictly_sorted(s: Seq<Seq<char>>) -> bool {
    forall|i: int, j: int| 0 <= i < j < s.len() ==> lex_lt(#[trigger] s[i], #[trigger] s[j])
}

pub open spec fn views(v: Seq<String>) -> Seq<Seq<char>> {
    v.map_values(|s: String| s@)
}

/// `parts` written one after the other with `sep` between each two.
pub open spec fn join(parts: Seq<Seq<char>>, sep: Seq<char>) -> Seq<char>
    decreases parts.len(),
{
    if parts.len() == 0 {
        Seq::empty()
    } else if parts.len() == 1 {
        parts[0]
    } else {
        join(parts.drop_last(), sep) + sep + parts.last()
    }
}

/// Adds `x` to a strictly sorted list of strings, in its place, unless it is there already.
fn insert_sorted(v: &mut Vec<String>, x: String)
    requires
        strictly_sorted(views(old(v)@)),
    ensures
        strictly_sorted(views(final(v)@)),
        forall|l: Seq<char>| views(final(v)@).contains(l) <==> (views(old(v)@).contains(l) || l == x@),
{
    let ghost before = views(v@);
    let n = v.len();
    let mut p: usize = 0;
    while p < n
        invariant_except_break
            n == v.len(),
            v@ == old(v)@,
            p <= n,
            forall|j: int| 0 <= j < p ==> lex_lt(#[trigger] views(v@)[j], x@),
        ensures
            n == v.len(),
            v@ == old(v)@,
            p <= n,
            forall|j: int| 0 <= j < p ==> lex_lt(#[trigger] views(v@)[j], x@),
            p < n ==> !lex_lt(views(v@)[p as int], x@),
        decreases n - p,
    {
        if !str_lt(v[p].as_str(), x.as_str()) {
            break;
        }
        p = p + 1;
    }
    if p < n && str_eq(v[p].as_str(), x.as_str()) {
        proof {
            assert(before[p as int] == x@);
        }
        return;
    }
    proof {
        if p < n {
            lemma_lex_lt_total(before[p as int], x@);
        }
    }
    let ghost xv = x@;
    v.insert(p, x);
    proof {
        let after = views(v@);
        assert(after =~= before.insert(p as int, xv));
        assert forall|i: int, j: int| 0 <= i < j < after.len() implies lex_lt(
            #[trigger] after[i],
            #[trigger] after[j],
        ) by {
            if j < p {
                assert(after[i] == before[i] && after[j] == before[j]);
            } else if j == p {
                assert(after[i] == before[i]);
            } else if i == p {
                assert(after[j] == before[j - 1]);
                if j - 1 > p {
                    lemma_lex_lt_transitive(xv, before[p as int], before[j - 1]);
                }
            } else if i < p {
                assert(after[i] == before[i] && after[j] == before[j - 1]);
            } else {
                assert(after[i] == before[i - 1] && after[j] == before[j - 1]);
            }
        }
        assert forall|l: Seq<char>| after.contains(l) <==> (before.contains(l) || l == xv) by {
            if after.contains(l) {
                let k = choose|k: int| 0 <= k < after.len() && after[k] == l;
                if k < p {
                    assert(before[k] == l);
                } else if k > p {
                    assert(before[k - 1] == l);
                }
            }
            if before.contains(l) {
                let k = choose|k: int| 0 <= k < before.len() && before[k] == l;
                if k < p {
                    assert(after[k] == l);
                } else {
                    assert(after[k + 1] == l);
                }
            }
            if l == xv {
                assert(after[p as int] == l);
            }
        }
    }
}

/// The strings of `parts` joined by `sep`.
pub fn join_strings(parts: &Vec<String>, sep: &str) -> (r: String)
    ensures
        r@ == join(views(parts@), sep@),
{
    let n = parts.len();
    if n == 0 {
        return String::new();
    }
    let mut r = parts[0].clone();
    let mut i: usize = 1;
    assert(views(parts@).subrange(0, 1).len() == 1);
    while i < n
        invariant
            n == parts.len(),
            1 <= i <= n,
            r@ == join(views(parts@).subrange(0, i as int), sep@),
        decreases n - i,
    {
        let ghost ps = views(parts@);
        assert(ps.subrange(0, i + 1).drop_last() =~= ps.subrange(0, i as int));
        let with_sep = concat2(r.as_str(), sep);
        r = concat2(with_sep.as_str(), parts[i].as_str());
        i = i + 1;
    }
    assert(views(parts@).subrange(0, n as int) =~= views(parts@));
    r
}

/// The label of each unimplemented card of `cards`, each once, in `lex_lt` order.
pub fn unimplemented_card_labels(cards: &Vec<DeckCard>) -> (r: Vec<String>)
    ensures
        strictly_sorted(views(r@)),
        forall|l: Seq<char>| views(r@).contains(l) <==> is_unimplemented_label(cards@, l),
{
    let mut r: Vec<String> = Vec::new();
    let n = cards.len();
    let mut i: usize = 0;
    while i < n
        invariant
            n == cards.len(),
            i <= n,
            strictly_sorted(views(r@)),
            forall|l: Seq<char>| views(r@).contains(l) <==> exists|k: int| 0 <= k < i && !cards@[k].implemented && #[trigger] spec_card_label(cards@[k]) == l,
        decreases n - i,
    {
        let c = &cards[i];
        if !c.implemented {
            let with_open = concat2(c.name.as_str(), " (");
            let with_status = concat2(with_open.as_str(), c.status.as_str());
            let label = concat2(with_status.as_str(), ")");
            assert(label@ == spec_card_label(cards@[i as int]));
            insert_sorted(&mut r, label);
        }
        i = i + 1;
    }
    r
}

/// How many of `cards` carry the name `name`.
fn count_named_cards(cards: &Vec<DeckCard>, name: &str) -> (k: usize)
    ensures
        k == count_named(cards@, name@),
{
    let n = cards.len();
    let mut k: usize = 0;
    let mut i: usize = 0;
    while i < n
        invariant
            n == cards.len(),
            i <= n,
            k <= i,
            k == count_named(cards@.subrange(0, i as int), name@),
        decreases n - i,
    {
        assert(cards@.subrange(0, i + 1).drop_last() =~= cards@.subrange(0, i as int));
        if str_eq(cards[i].name.as_str(), name) {
            k = k + 1;
        }
        i = i + 1;
    }
    assert(cards@.subrange(0, n as int) =~= cards@);
    k
}

/// Whether `cards` keep the deck rules; see `spec_deck_rules_hold`.
pub fn deck_rules_hold(cards: &Vec<DeckCard>) -> (b: bool)
    ensures
        b == spec_deck_rules_hold(cards@),
{
    let n = cards.len();
    if n != DECK_SIZE {
        return false;
    }
    let mut has_basic = false;
    let mut i: usize = 0;
    while i < n
        invariant
            n == cards.len(),
            i <= n,
            has_basic == exists|k: int| 0 <= k < i && #[trigger] cards@[k].basic,
        decreases n - i,
    {
        if cards[i].basic {
            has_basic = true;
        }
        i = i + 1;
    }
    if !has_basic {
        return false;
    }
    let mut i: usize = 0;
    while i < n
        invariant
            n == cards.len(),
            i <= n,
            forall|k: int| 0 <= k < i ==> count_named(cards@, #[trigger] cards@[k].name@) <= MAX_COPIES,
        decreases n - i,
    {
        if count_named_cards(cards, cards[i].name.as_str()) > MAX_COPIES {
            return false;
        }
        i = i + 1;
    }
    true
}

/// The prefix of the refusal that lists unimplemented cards.
pub open spec fn unimplemented_prefix() -> Seq<char> {
    "deck contains unimplemented cards: "@
}

/// Checks the cards of a parsed deck as the service stores it: the deck rules first, then
/// that every card is implemented. The refusal for unimplemented cards lists their labels
/// once each, in `lex_lt` order, joined by ", ".
pub fn validate_deck_cards(cards: &Vec<DeckCard>) -> (r: Result<(), RequestError>)
    ensures
        !spec_deck_rules_hold(cards@) ==> is_bad_request(r, deck_rules_message()),
        spec_deck_rules_hold(cards@) && (forall|l: Seq<char>| !is_unimplemented_label(cards@, l))
            ==> r is Ok,
        spec_deck_rules_hold(cards@) && (exists|l: Seq<char>| is_unimplemented_label(cards@, l))
            ==> exists|labels: Seq<Seq<char>>|
            {
                &&& strictly_sorted(labels)
                &&& forall|l: Seq<char>| labels.contains(l) <==> is_unimplemented_label(cards@, l)
                &&& is_bad_request(r, unimplemented_prefix() + join(labels, ", "@))
            },
{
    if !deck_rules_hold(cards) {
        return Err(
            bad_request(
                "deck must have exactly 20 cards, at least 1 Basic Pokémon, and at most 2 copies of any card name",
            ),
        );
    }
    let labels = unimplemented_card_labels(cards);
    if labels.len() == 0 {
        proof {
            assert forall|l: Seq<char>| !is_unimplemented_label(cards@, l) by {
                if is_unimplemented_label(cards@, l) {
                    assert(views(labels@).contains(l));
                }
            }
        }
        return Ok(());
    }
    let joined = join_strings(&labels, ", ");
    let msg = concat2("deck contains unimplemented cards: ", joined.as_str());
    let r = Err(bad_request(msg.as_str()));
    proof {
        assert(is_bad_request(r, unimplemented_prefix() + join(views(labels@), ", "@)));
        let first = views(labels@)[0];
        assert(views(labels@).contains(first));
        assert(is_unimplemented_label(cards@, first));
    }
    r
}

/// Checks a deck list as the engine parsed it (its cards, or the parser's complaint): a
/// list that does not parse is refused with the parser's message; one that does is checked
/// by `validate_deck_cards`, and its cards are handed back when accepted.
pub fn validate_deck_text(parsed: Result<Vec<DeckCard>, String>) -> (r: Result<
    Vec<DeckCard>,
    RequestError,
>)
    ensures
        match parsed {
            Err(m) => is_bad_request(r, m@),
            Ok(cards) => {
                &&& (r is Ok) == (spec_deck_rules_hold(cards@) && (forall|l: Seq<char>|
                    !is_unimplemented_label(cards@, l)))
                &&& (r matches Ok(c) ==> c@ == cards@)
                &&& !spec_deck_rules_hold(cards@) ==> is_bad_request(r, deck_rules_message())
                &&& spec_deck_rules_hold(cards@) && (exists|l: Seq<char>|
                    is_unimplemented_label(cards@, l)) ==> exists|labels: Seq<Seq<char>>|
                    {
                        &&& strictly_sorted(labels)
                        &&& forall|l: Seq<char>| labels.contains(l) <==> is_unimplemented_label(cards@, l)
                        &&& is_bad_request(r, unimplemented_prefix() + join(labels, ", "@))
                    }
            },
        },
{
    match parsed {
        Err(m) => Err(RequestError::BadRequest(m)),
        Ok(cards) => match validate_deck_cards(&cards) {
            Ok(()) => Ok(cards),
            Err(e) => Err(e),
        },
    }
}

/// A deck that has been played may not be edited: its games must stay attributable to the
/// list that played them.
pub fn check_deck_editable(already_played: bool) -> (r: Result<(), RequestError>)
    ensures
        !already_played ==> r is Ok,
        already_played ==> (r matches Err(RequestError::Conflict(m)) && m@
            == "deck can't be edited because it's already been used in a game"@),
{
    if already_played {
        return Err(
            RequestError::Conflict(
                String::from_str("deck can't be edited because it's already been used in a game"),
            ),
        );
    }
    Ok(())
}

/// The refusal of deleting a deck that games refer to, when the database reports a foreign
/// key violation; none for any other error.
pub fn map_foreign_key_violation(is_foreign_key_violation: bool) -> (r: Option<RequestError>)
    ensures
        is_foreign_key_violation ==> (r matches Some(RequestError::Conflict(m)) && m@
            == "deck can't be modified because it's already been used in a game"@),
        !is_foreign_key_violation ==> r is None,
{
    if is_foreign_key_violation {
        Some(
            RequestError::Conflict(
                String::from_str("deck can't be modified because it's already been used in a game"),
            ),
        )
    } else {
        None
    }
}

/// Whether a card carries the name `name`.
pub open spec fn named(name: Seq<char>) -> spec_fn(DeckCard) -> bool {
    |c: DeckCard| c.name@ == name
}

proof fn lemma_count_named_is_filter_len(cards: Seq<DeckCard>, name: Seq<char>)
    ensures
        count_named(cards, name) == cards.filter(named(name)).len(),
    decreases cards.len(),
{
    if cards.len() == 0 {
        cards.lemma_filter_len(named(name));
    } else {
        let front = cards.drop_last();
        lemma_count_named_is_filter_len(front, name);
        front.lemma_filter_push(cards.last(), named(name));
        assert(front.push(cards.last()) =~= cards);
    }
}

/// The deck rules hold exactly for a deck of 20 cards, some of them a Basic Pokémon, that
/// holds no card name more than twice; any other number of cards is refused, by
/// `validate_deck_cards` with `deck_rules_message()`.
pub proof fn lemma_deck_rules_are_the_engine_rules(cards: Seq<DeckCard>)
    ensures
        spec_deck_rules_hold(cards) <==> {
            &&& cards.len() == 20
            &&& exists|i: int| 0 <= i < cards.len() && #[trigger] cards[i].basic
            &&& forall|i: int| 0 <= i < cards.len() ==> #[trigger] cards.filter(named(cards[i].name@)).len() <= 2
        },
        cards.len() != 20 ==> !spec_deck_rules_hold(cards),
{
    let by_count = forall|i: int| 0 <= i < cards.len() ==> count_named(cards, #[trigger] cards[i].name@) <= MAX_COPIES;
    let by_filter = forall|i: int| 0 <= i < cards.len() ==> #[trigger] cards.filter(named(cards[i].name@)).len() <= 2;
    if by_count {
        assert forall|i: int| 0 <= i < cards.len() implies #[trigger] cards.filter(named(cards[i].name@)).len() <= 2 by {
            lemma_count_named_is_filter_len(cards, cards[i].name@);
            assert(count_named(cards, cards[i].name@) <= MAX_COPIES);
        }
    }
    if by_filter {
        assert forall|i: int| 0 <= i < cards.len() implies count_named(cards, #[trigger] cards[i].name@) <= MAX_COPIES by {
            lemma_count_named_is_filter_len(cards, cards[i].name@);
            assert(cards.filter(named(cards[i].name@)).len() <= 2);
        }
    }
}

/// Two strictly sorted lists holding the same strings are the same list: the refusal for
/// unimplemented cards is determined by the cards.
pub proof fn lemma_sorted_listing_unique(a: Seq<Seq<char>>, b: Seq<Seq<char>>)
    requires
        strictly_sorted(a),
        strictly_sorted(b),
        forall|l: Seq<char>| a.contains(l) <==> b.contains(l),
    ensures
        a == b,
    decreases a.len(),
{
    if a.len() == 0 {
        if b.len() > 0 {
            assert(b.contains(b[0]));
        }
        assert(a =~= b);
    } else {
        assert(a.contains(a[0]));
        assert(b.len() > 0);
        assert(b.contains(b[0]));
        let k = choose|k: int| 0 <= k < b.len() && b[k] == a[0];
        let m = choose|m: int| 0 <= m < a.len() && a[m] == b[0];
        if k > 0 && m > 0 {
            assert(lex_lt(b[0], b[k]));
            assert(lex_lt(a[0], a[m]));
            lemma_lex_lt_total(a[0], b[0]);
        } else if k > 0 {
            assert(lex_lt(b[0], b[k]));
            lemma_lex_lt_irreflexive(a[0]);
        } else if m > 0 {
            assert(lex_lt(a[0], a[m]));
            lemma_lex_lt_irreflexive(b[0]);
        }
        assert(a[0] == b[0]);
        let ta = a.drop_first();
        let tb = b.drop_first();
        assert forall|l: Seq<char>| ta.contains(l) <==> tb.contains(l) by {
            if ta.contains(l) {
                let i = choose|i: int| 0 <= i < ta.len() && ta[i] == l;
                assert(a[i + 1] == l);
                assert(lex_lt(a[0], a[i + 1]));
                lemma_lex_lt_irreflexive(l);
                assert(b.contains(l));
                let j = choose|j: int| 0 <= j < b.len() && b[j] == l;
                assert(j != 0);
                assert(tb[j - 1] == l);
            }
            if tb.contains(l) {
                let i = choose|i: int| 0 <= i < tb.len() && tb[i] == l;
                assert(b[i + 1] == l);
                assert(lex_lt(b[0], b[i + 1]));
                lemma_lex_lt_irreflexive(l);
                assert(a.contains(l));
                let j = choose|j: int| 0 <= j < a.len() && a[j] == l;
                assert(j != 0);
                assert(ta[j - 1] == l);
            }
        }
        assert forall|i: int, j: int| 0 <= i < j < ta.len() implies lex_lt(#[trigger] ta[i], #[trigger] ta[j]) by {
            assert(ta[i] == a[i + 1] && ta[j] == a[j + 1]);
        }
        assert forall|i: int, j: int| 0 <= i < j < tb.len() implies lex_lt(#[trigger] tb[i], #[trigger] tb[j]) by {
            assert(tb[i] == b[i + 1] && tb[j] == b[j + 1]);
        }
        lemma_sorted_listing_unique(ta, tb);
        assert(a =~= seq![a[0]] + ta);
        assert(b =~= seq![b[0]] + tb);
    }
}

} // verus!
