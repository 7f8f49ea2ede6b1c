use vstd::prelude::*;

use crate::model::{Action, ActionKind, Card};

verus! {

/// How many items (actions or draw candidates) one page of the viewer shows; keys 1-9 pick
/// within the page, and longer lists are paged rather than cut.
pub const ITEMS_PER_PAGE: usize = 9;

/// Where a move of this kind is listed in the viewer: placing first, then evolving, playing
/// trainers, attaching, attacking, retreating, other moves, and ending the turn last.
pub open spec fn spec_priority(k: ActionKind) -> u8 {
    match k {
        ActionKind::Place => 0,
        ActionKind::Evolve => 1,
        ActionKind::Play => 2,
        ActionKind::Attach | ActionKind::AttachFromDiscard | ActionKind::AttachTool => 3,
        ActionKind::Attack => 4,
        ActionKind::Retreat => 5,
        ActionKind::EndTurn => 255,
        _ => 6,
    }
}

pub open spec fn has_priority(p: u8) -> spec_fn(Action) -> bool {
    |a: Action| spec_priority(a.kind) == p
}

/// The moves of `s` in viewer order: grouped by priority, lowest first, keeping the
/// engine's order within a group (a stable sort by priority).
pub open spec fn tui_order(s: Seq<Action>) -> Seq<Action> {
    s.filter(has_priority(0)) + s.filter(has_priority(1)) + s.filter(has_priority(2)) + s.filter(
        has_priority(3),
    ) + s.filter(has_priority(4)) + s.filter(has_priority(5)) + s.filter(has_priority(6))
        + s.filter(has_priority(255))
}

pub fn action_priority_for_tui(action: &Action) -> (p: u8)
    ensures
        p == spec_priority(action.kind),
{
    match action.kind {
        ActionKind::Place => 0,
        ActionKind::Evolve => 1,
        ActionKind::Play => 2,
        ActionKind::Attach | ActionKind::AttachFromDiscard | ActionKind::AttachTool => 3,
        ActionKind::Attack => 4,
        ActionKind::Retreat => 5,
        ActionKind::EndTurn => 255,
        _ => 6,
    }
}

/// Appends to `out` the moves of `src` with priority `p`, in their order in `src`.
fn append_with_priority(src: &Vec<Action>, p: u8, out: &mut Vec<Action>)
    ensures
        final(out)@ == old(out)@ + src@.filter(has_priority(p)),
{
    let n = src.len();
    let mut j: usize = 0;
    while j < n
        invariant
            n == src@.len(),
            j <= n,
            out@ == old(out)@ + src@.take(j as int).filter(has_priority(p)),
        decreases n - j,
    {
        proof {
            assert(src@.take(j + 1) =~= src@.take(j as int).push(src@[j as int]));
            src@.take(j as int).lemma_filter_push(src@[j as int], has_priority(p));
        }
        if action_priority_for_tui(&src[j]) == p {
            out.push(src[j]);
        }
        j = j + 1;
    }
    assert(src@.take(n as int) =~= src@);
}

/// Reorders the legal moves for display: stably by priority (see `spec_priority`).
pub fn sort_actions_for_tui(actions: &mut Vec<Action>)
    ensures
        final(actions)@ == tui_order(old(actions)@),
{
    let mut out: Vec<Action> = Vec::new();
    append_with_priority(actions, 0, &mut out);
    append_with_priority(actions, 1, &mut out);
    append_with_priority(actions, 2, &mut out);
    append_with_priority(actions, 3, &mut out);
    append_with_priority(actions, 4, &mut out);
    append_with_priority(actions, 5, &mut out);
    append_with_priority(actions, 6, &mut out);
    append_with_priority(actions, 255, &mut out);
    assert(out@ =~= tui_order(actions@));
    *actions = out;
}

/// The draw candidates offered to the deciding seat, if any: the seat's whole remaining
/// deck, offered exactly when the seat is human, draw override is on, the only legal move is
/// a draw, and the deck is not empty (an empty deck lets the draw resolve as a no-op).
pub open spec fn spec_draw_choice(
    actor_is_human: bool,
    possible_actions: Seq<Action>,
    draw_override_enabled: bool,
    actor_deck: Seq<Card>,
) -> Option<Seq<Card>> {
    if actor_is_human && draw_override_enabled && possible_actions.len() == 1
        && possible_actions[0].kind is DrawCard && actor_deck.len() > 0 {
        Some(actor_deck)
    } else {
        None
    }
}

pub open spec fn opt_vec_view(o: Option<Vec<Card>>) -> Option<Seq<Card>> {
    match o {
        Some(v) => Some(v@),
        None => None,
    }
}

/// See `spec_draw_choice`; `actor_deck` is the deciding seat's remaining deck, top first.
pub fn maybe_offer_draw_choice(
    actor_is_human: bool,
    possible_actions: &Vec<Action>,
    draw_override_enabled: bool,
    actor_deck: &Vec<Card>,
) -> (res: Option<Vec<Card>>)
    ensures
        opt_vec_view(res) == spec_draw_choice(
            actor_is_human,
            possible_actions@,
            draw_override_enabled,
            actor_deck@,
        ),
{
    if !actor_is_human || !draw_override_enabled {
        return None;
    }
    if possible_actions.len() != 1 {
        return None;
    }
    match possible_actions[0].kind {
        ActionKind::DrawCard { .. } => {},
        _ => {
            return None;
        },
    }
    if actor_deck.len() == 0 {
        return None;
    }
    let candidates = actor_deck.clone();
    assert(candidates@ =~= actor_deck@);
    Some(candidates)
}

/// Number of pages a list of `len` items takes (at least one, even when empty).
pub open spec fn spec_total_pages(len: nat) -> nat {
    if len == 0 {
        1
    } else {
        (((len as int) + (ITEMS_PER_PAGE as int) - 1) / (ITEMS_PER_PAGE as int)) as nat
    }
}

/// The page actually shown when `page` is asked for: the last page if `page` lies beyond it.
pub open spec fn spec_clamped_page(len: nat, page: nat) -> nat {
    if page < spec_total_pages(len) {
        page
    } else {
        (spec_total_pages(len) - 1) as nat
    }
}

/// The items on page `page` of `items` (clamped to the last page), with the 1-based page
/// number shown and the number of pages.
pub fn paginate<T>(items: &[T], page: usize) -> (res: (&[T], usize, usize))
    ensures
        res.2 == spec_total_pages(items@.len()),
        res.1 == spec_clamped_page(items@.len(), page as nat) + 1,
        res.0@ == items@.subrange(
            (spec_clamped_page(items@.len(), page as nat) * ITEMS_PER_PAGE) as int,
            vstd::math::min(
                ((spec_clamped_page(items@.len(), page as nat) + 1) * ITEMS_PER_PAGE) as int,
                items@.len() as int,
            ),
        ),
{
    let len = items.len();
    let total_pages: usize = if len == 0 {
        1
    } else {
        len / ITEMS_PER_PAGE + if len % ITEMS_PER_PAGE == 0 {
            0
        } else {
            1
        }
    };
    assert(total_pages == spec_total_pages(len as nat)) by (nonlinear_arith)
        requires
            total_pages == (if len == 0 {
                1
            } else {
                len / 9 + if len % 9 == 0 {
                    0int
                } else {
                    1int
                }
            }),
            ITEMS_PER_PAGE == 9,
    ;
    let page = if page < total_pages {
        page
    } else {
        total_pages - 1
    };
    assert(page * 9 <= len || len == 0) by (nonlinear_arith)
        requires
            page < total_pages,
            total_pages == (if len == 0 {
                1
            } else {
                len / 9 + if len % 9 == 0 {
                    0int
                } else {
                    1int
                }
            }),
    ;
    let start = page * ITEMS_PER_PAGE;
    let end = if len - start < ITEMS_PER_PAGE {
        len
    } else {
        start + ITEMS_PER_PAGE
    };
    (&items[start..end], page + 1, total_pages)
}

/// The moves of `r` come in non-decreasing priority.
pub open spec fn sorted_by_priority(r: Seq<Action>) -> bool {
    forall|i: int, j: int|
        0 <= i < j < r.len() ==> spec_priority(#[trigger] r[i].kind) <= spec_priority(
            #[trigger] r[j].kind,
        )
}

proof fn lemma_filter_of_group(s: Seq<Action>, p: u8, q: u8)
    ensures
        s.filter(has_priority(q)).filter(has_priority(p)) == if p == q {
            s.filter(has_priority(q))
        } else {
            Seq::<Action>::empty()
        },
    decreases s.len(),
{
    reveal(Seq::filter);
    if s.len() > 0 {
        let rest = s.drop_last();
        let x = s.last();
        lemma_filter_of_group(rest, p, q);
        assert(rest.push(x) =~= s);
        rest.lemma_filter_push(x, has_priority(q));
        if spec_priority(x.kind) == q {
            rest.filter(has_priority(q)).lemma_filter_push(x, has_priority(p));
        }
    } else {
        assert(s.filter(has_priority(q)).filter(has_priority(p)) =~= Seq::<Action>::empty());
    }
}

proof fn lemma_append_group(a: Seq<Action>, g: Seq<Action>, p: u8)
    requires
        sorted_by_priority(a),
        forall|i: int| 0 <= i < a.len() ==> spec_priority(#[trigger] a[i].kind) <= p,
        forall|i: int| 0 <= i < g.len() ==> spec_priority(#[trigger] g[i].kind) == p,
    ensures
        sorted_by_priority(a + g),
        forall|i: int| 0 <= i < (a + g).len() ==> spec_priority(#[trigger] (a + g)[i].kind) <= p,
{
    assert forall|i: int, j: int| 0 <= i < j < (a + g).len() implies spec_priority(
        #[trigger] (a + g)[i].kind,
    ) <= spec_priority(#[trigger] (a + g)[j].kind) by {
        if j < a.len() {
            assert(a[i] == (a + g)[i] && a[j] == (a + g)[j]);
        } else if i < a.len() {
            assert(a[i] == (a + g)[i] && g[j - a.len()] == (a + g)[j]);
        } else {
            assert(g[i - a.len()] == (a + g)[i] && g[j - a.len()] == (a + g)[j]);
        }
    }
    assert forall|i: int| 0 <= i < (a + g).len() implies spec_priority(
        #[trigger] (a + g)[i].kind,
    ) <= p by {
        if i < a.len() {
            assert(a[i] == (a + g)[i]);
        } else {
            assert(g[i - a.len()] == (a + g)[i]);
        }
    }
}

proof fn lemma_group_has_priority(s: Seq<Action>, p: u8)
    ensures
        forall|i: int|
            0 <= i < s.filter(has_priority(p)).len() ==> spec_priority(
                #[trigger] s.filter(has_priority(p))[i].kind,
            ) == p,
{
    assert forall|i: int| 0 <= i < s.filter(has_priority(p)).len() implies spec_priority(
        #[trigger] s.filter(has_priority(p))[i].kind,
    ) == p by {
        s.lemma_filter_pred(has_priority(p), i);
    }
}

proof fn lemma_tui_order_sorted(s: Seq<Action>)
    ensures
        sorted_by_priority(tui_order(s)),
{
    let g0 = s.filter(has_priority(0));
    let g1 = s.filter(has_priority(1));
    let g2 = s.filter(has_priority(2));
    let g3 = s.filter(has_priority(3));
    let g4 = s.filter(has_priority(4));
    let g5 = s.filter(has_priority(5));
    let g6 = s.filter(has_priority(6));
    let g7 = s.filter(has_priority(255));
    lemma_group_has_priority(s, 0);
    lemma_group_has_priority(s, 1);
    lemma_group_has_priority(s, 2);
    lemma_group_has_priority(s, 3);
    lemma_group_has_priority(s, 4);
    lemma_group_has_priority(s, 5);
    lemma_group_has_priority(s, 6);
    lemma_group_has_priority(s, 255);
    let e = Seq::<Action>::empty();
    lemma_append_group(e, g0, 0);
    assert(e + g0 =~= g0);
    lemma_append_group(g0, g1, 1);
    lemma_append_group(g0 + g1, g2, 2);
    lemma_append_group(g0 + g1 + g2, g3, 3);
    lemma_append_group(g0 + g1 + g2 + g3, g4, 4);
    lemma_append_group(g0 + g1 + g2 + g3 + g4, g5, 5);
    lemma_append_group(g0 + g1 + g2 + g3 + g4 + g5, g6, 6);
    lemma_append_group(g0 + g1 + g2 + g3 + g4 + g5 + g6, g7, 255);
}

proof fn lemma_tui_order_multiset(s: Seq<Action>)
    ensures
        tui_order(s).to_multiset() == s.to_multiset(),
    decreases s.len(),
{
    broadcast use vstd::seq_lib::group_to_multiset_ensures, vstd::multiset::group_multiset_axioms;
    broadcast use vstd::seq_lib::lemma_multiset_commutative;

    if s.len() == 0 {
        reveal(Seq::filter);
        assert(tui_order(s) =~= s);
    } else {
        let rest = s.drop_last();
        let x = s.last();
        assert(rest.push(x) =~= s);
        lemma_tui_order_multiset(rest);
        rest.lemma_filter_push(x, has_priority(0));
        rest.lemma_filter_push(x, has_priority(1));
        rest.lemma_filter_push(x, has_priority(2));
        rest.lemma_filter_push(x, has_priority(3));
        rest.lemma_filter_push(x, has_priority(4));
        rest.lemma_filter_push(x, has_priority(5));
        rest.lemma_filter_push(x, has_priority(6));
        rest.lemma_filter_push(x, has_priority(255));
        let a = tui_order(s).to_multiset();
        let b = tui_order(rest).to_multiset().insert(x);
        assert(a =~= b);
    }
}

/// The viewer lists every legal move exactly once (the same moves, as a multiset), in
/// non-decreasing priority, and keeps the engine's order among moves of equal priority.
pub proof fn lemma_tui_order_is_stable_sort(s: Seq<Action>)
    ensures
        tui_order(s).to_multiset() == s.to_multiset(),
        sorted_by_priority(tui_order(s)),
        forall|p: u8| #[trigger] tui_order(s).filter(has_priority(p)) == s.filter(has_priority(p)),
{
    lemma_tui_order_multiset(s);
    lemma_tui_order_sorted(s);
    assert forall|p: u8| #[trigger] tui_order(s).filter(has_priority(p)) == s.filter(
        has_priority(p),
    ) by {
        broadcast use Seq::filter_distributes_over_add;

        lemma_filter_of_group(s, p, 0);
        lemma_filter_of_group(s, p, 1);
        lemma_filter_of_group(s, p, 2);
        lemma_filter_of_group(s, p, 3);
        lemma_filter_of_group(s, p, 4);
        lemma_filter_of_group(s, p, 5);
        lemma_filter_of_group(s, p, 6);
        lemma_filter_of_group(s, p, 255);
        if p != 0 && p != 1 && p != 2 && p != 3 && p != 4 && p != 5 && p != 6 && p != 255 {
            s.lemma_all_neg_filter_empty(has_priority(p));
            assert(s.filter(has_priority(p)) =~= Seq::<Action>::empty());
        }
        assert(tui_order(s).filter(has_priority(p)) =~= s.filter(has_priority(p)));
    }
}

/// The viewer lists moves in this order of kinds: placing, evolving, playing trainers,
/// attaching (energy, energy from the discard pile and tools alike), attacking, retreating,
/// any other move, and ending the turn last.
pub proof fn lemma_viewer_kind_order(amount: u8, source: crate::model::DrawSource)
    ensures
        spec_priority(ActionKind::Place) < spec_priority(ActionKind::Evolve),
        spec_priority(ActionKind::Evolve) < spec_priority(ActionKind::Play),
        spec_priority(ActionKind::Play) < spec_priority(ActionKind::Attach),
        spec_priority(ActionKind::AttachFromDiscard) == spec_priority(ActionKind::Attach),
        spec_priority(ActionKind::AttachTool) == spec_priority(ActionKind::Attach),
        spec_priority(ActionKind::Attach) < spec_priority(ActionKind::Attack),
        spec_priority(ActionKind::Attack) < spec_priority(ActionKind::Retreat),
        spec_priority(ActionKind::Retreat) < spec_priority(ActionKind::Other),
        spec_priority(ActionKind::DrawCard { amount, source }) == spec_priority(ActionKind::Other),
        spec_priority(ActionKind::Other) < spec_priority(ActionKind::EndTurn),
{
}

/// In the viewer's list, a move of an earlier kind (see `lemma_viewer_kind_order`) always
/// comes before a move of a later kind: for instance every attach move, tools included,
/// comes before every attack and every retreat.
pub proof fn lemma_earlier_kinds_listed_first(s: Seq<Action>, i: int, j: int)
    requires
        0 <= i < tui_order(s).len(),
        0 <= j < tui_order(s).len(),
        spec_priority(tui_order(s)[i].kind) < spec_priority(tui_order(s)[j].kind),
    ensures
        i < j,
{
    lemma_tui_order_is_stable_sort(s);
}

} // verus!
