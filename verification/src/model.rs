use vstd::prelude::*;

verus! {

/// A card, identified by its number in the engine's card database.
#[derive(Clone, Copy, Debug, PartialEq, Eq, Structural)]
pub struct Card {
    pub id: u32,
}

/// Why a card draw was queued.
#[derive(Clone, Copy, Debug, PartialEq, Eq, Structural)]
pub enum DrawSource {
    /// One of the opening-hand draws made before the first turn.
    InitialHand,
    /// The draw at the start of a player's turn.
    TurnStart,
    /// A draw caused by a Pokemon ability.
    Ability,
    /// A draw caused by an attack.
    Attack,
}

/// How a finished game ended.
#[derive(Clone, Copy, Debug, PartialEq, Eq, Structural)]
pub enum GameOutcome {
    /// The given seat won.
    Win(usize),
    Tie,
}

/// The kind of a legal move, as far as the control plane and the viewer tell moves apart.
#[derive(Clone, Copy, Debug, PartialEq, Eq, Structural)]
pub enum ActionKind {
    /// Put a Basic Pokemon from the hand into play.
    Place,
    Evolve,
    /// Play a trainer card.
    Play,
    /// Attach energy from the energy zone.
    Attach,
    AttachFromDiscard,
    AttachTool,
    Attack,
    Retreat,
    EndTurn,
    /// Draw `amount` cards from the top of the deck.
    DrawCard { amount: u8, source: DrawSource },
    /// Any other move (abilities, switches, forced choices, no-ops).
    Other,
}

/// One legal move: who makes it, what kind of move it is, and the engine's number for
/// the concrete move (which card, which slot, which attack), which tells apart moves
/// of the same kind.
#[derive(Clone, Copy, Debug, PartialEq, Eq, Structural)]
pub struct Action {
    pub actor: usize,
    pub kind: ActionKind,
    pub code: u64,
}

/// The cards left in a player's deck, top of the deck first.
#[derive(Debug)]
pub struct Deck {
    pub cards: Vec<Card>,
}

impl Clone for Deck {
    fn clone(&self) -> (d: Deck)
        ensures
            d.cards@ == self.cards@,
    {
        let cards = self.cards.clone();
        assert(cards@ =~= self.cards@);
        Deck { cards }
    }
}

/// Index of the first occurrence of `c` in `s` (meaningful when `s` contains `c`).
pub open spec fn first_index_of(s: Seq<Card>, c: Card) -> int {
    choose|i: int| 0 <= i < s.len() && s[i] == c && forall|j: int| 0 <= j < i ==> s[j] != c
}

/// `s` with the first occurrence of `c` taken out and put on top.
pub open spec fn moved_to_front(s: Seq<Card>, c: Card) -> Seq<Card> {
    seq![c] + s.remove(first_index_of(s, c))
}

/// A deck that holds `c` has a first copy of it.
pub proof fn lemma_first_index_of(s: Seq<Card>, c: Card)
    requires
        s.contains(c),
    ensures
        0 <= first_index_of(s, c) < s.len(),
        s[first_index_of(s, c)] == c,
        forall|j: int| 0 <= j < first_index_of(s, c) ==> s[j] != c,
{
    s.index_of_first_ensures(c);
    let k = s.index_of_first(c)->0;
    assert(0 <= k < s.len() && s[k] == c && forall|j: int| 0 <= j < k ==> s[j] != c);
}

/// Putting a chosen card on top of the deck neither adds nor removes cards: the deck keeps
/// its size and its cards (as a multiset), the chosen card is on top, and the other cards
/// keep their order.
pub proof fn lemma_move_to_front_keeps_cards(s: Seq<Card>, c: Card)
    requires
        s.contains(c),
    ensures
        moved_to_front(s, c).len() == s.len(),
        moved_to_front(s, c)[0] == c,
        moved_to_front(s, c).to_multiset() == s.to_multiset(),
        moved_to_front(s, c).drop_first() == s.remove(first_index_of(s, c)),
{
    broadcast use vstd::seq_lib::group_to_multiset_ensures;

    lemma_first_index_of(s, c);
    let i = first_index_of(s, c);
    let rest = s.remove(i);
    vstd::seq_lib::lemma_multiset_commutative(seq![c], rest);
    assert(rest.to_multiset() =~= s.to_multiset().remove(c));
    assert(seq![c].to_multiset() =~= vstd::multiset::Multiset::empty().insert(c)) by {
        assert(seq![c] =~= Seq::<Card>::empty().push(c));
    }
    assert(moved_to_front(s, c).drop_first() =~= rest);
}

impl Deck {
    /// Puts the first copy of `card` on top of the deck, keeping the order of the
    /// other cards. Fails, changing nothing, when the deck holds no copy of `card`.
    pub fn move_card_to_front(&mut self, card: Card) -> (res: Result<(), ()>)
        ensures
            res is Ok <==> old(self).cards@.contains(card),
            res is Ok ==> final(self).cards@ == moved_to_front(old(self).cards@, card),
            res is Err ==> final(self).cards@ == old(self).cards@,
    {
        let n = self.cards.len();
        let mut i: usize = 0;
        while i < n
            invariant
                n == self.cards@.len(),
                self.cards@ == old(self).cards@,
                i <= n,
                forall|j: int| 0 <= j < i ==> self.cards@[j] != card,
            decreases n - i,
        {
            if self.cards[i] == card {
                proof {
                    let s = old(self).cards@;
                    assert(s[i as int] == card && forall|j: int| 0 <= j < i ==> s[j] != card);
                    assert(first_index_of(s, card) == i) by {
                        let k = first_index_of(s, card);
                        assert(0 <= k < s.len() && s[k] == card && forall|j: int| 0 <= j < k ==> s[j] != card);
                        if k < i {
                        } else if k > i {
                            assert(s[i as int] != card);
                        }
                    }
                }
                let c = self.cards.remove(i);
                self.cards.insert(0, c);
                assert(self.cards@ =~= moved_to_front(old(self).cards@, card));
                return Ok(());
            }
            i = i + 1;
        }
        Err(())
    }
}

} // verus!
