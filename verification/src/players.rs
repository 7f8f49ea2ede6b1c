use vstd::prelude::*;

use crate::model::Deck;

verus! {

/// The player of a seat driven from outside through the interactive control plane. It only
/// supplies the seat's deck: it never makes a decision, since the control plane never asks
/// an interactive seat's player (see `interactive::lemma_player_asked_only_for_scripted_seats`).
pub struct InteractivePlayer {
    pub deck: Deck,
}

impl InteractivePlayer {
    /// A copy of the seat's deck.
    pub fn get_deck(&self) -> (d: Deck)
        ensures
            d.cards@ == self.deck.cards@,
    {
        self.deck.clone()
    }
}

/// The player types that can sit at a seat, by the code that selects them.
pub open spec fn spec_player_types() -> Seq<(Seq<char>, Seq<char>)> {
    seq![
        ("r"@, "Random Player"@),
        ("aa"@, "Attach-Attack Player"@),
        ("et"@, "End Turn Player"@),
        ("h"@, "Human Player"@),
        ("w"@, "Weighted Random Player"@),
        ("m"@, "MCTS Player"@),
        ("v"@, "Value Function Player"@),
        ("e"@, "Expectiminimax Player"@),
    ]
}

/// Each player type's code and description; see `spec_player_types`.
pub fn get_player_types() -> (r: Vec<(&'static str, &'static str)>)
    ensures
        r@.len() == spec_player_types().len(),
        forall|i: int|
            0 <= i < r@.len() ==> (#[trigger] r@[i]).0@ == spec_player_types()[i].0 && r@[i].1@
                == spec_player_types()[i].1,
{
    let mut r: Vec<(&'static str, &'static str)> = Vec::new();
    r.push(("r", "Random Player"));
    r.push(("aa", "Attach-Attack Player"));
    r.push(("et", "End Turn Player"));
    r.push(("h", "Human Player"));
    r.push(("w", "Weighted Random Player"));
    r.push(("m", "MCTS Player"));
    r.push(("v", "Value Function Player"));
    r.push(("e", "Expectiminimax Player"));
    r
}

} // verus!
