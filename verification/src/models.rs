//! The records the library works on: cards, decks, and the cards of a session.

use vstd::prelude::*;
use crate::revision::valid_weight;
use crate::FlipMode;

verus! {

/// A card: two sides of text and the weight that steers how often it comes up.
#[derive(Debug)]
pub struct Card {
    pub id: i32,
    pub deck_id: i32,
    pub front: String,
    pub back: String,
    pub revision_weight: i16,
}

/// What a `Card` holds, as plain mathematical values.
pub struct CardView {
    pub id: int,
    pub deck_id: int,
    pub front: Seq<char>,
    pub back: Seq<char>,
    pub revision_weight: int,
}

impl View for Card {
    type V = CardView;

    open spec fn view(&self) -> CardView {
        CardView {
            id: self.id as int,
            deck_id: self.deck_id as int,
            front: self.front@,
            back: self.back@,
            revision_weight: self.revision_weight as int,
        }
    }
}

impl Clone for Card {
    fn clone(&self) -> (copy: Self)
        ensures
            copy == *self,
    {
        Card {
            id: self.id,
            deck_id: self.deck_id,
            front: self.front.clone(),
            back: self.back.clone(),
            revision_weight: self.revision_weight,
        }
    }
}

impl PartialEq for Card {
    fn eq(&self, other: &Self) -> (equal: bool) {
        self.id == other.id && self.deck_id == other.deck_id && self.front == other.front
            && self.back == other.back && self.revision_weight == other.revision_weight
    }
}

impl vstd::std_specs::cmp::PartialEqSpecImpl for Card {
    open spec fn obeys_eq_spec() -> bool {
        true
    }

    open spec fn eq_spec(&self, other: &Self) -> bool {
        self@ == other@
    }
}

impl Card {
    /// A card is well formed when its weight is one a stored card may carry.
    pub open spec fn wf(&self) -> bool {
        valid_weight(self.revision_weight as int)
    }
}

/// A deck: a named set of cards with the settings of its revision sessions.
pub struct Deck {
    pub id: i32,
    pub name: String,
    pub user_id: i32,
    pub revision_length: i16,
    pub flip_mode: FlipMode,
}

/// What a `Deck` holds, as plain mathematical values.
pub struct DeckView {
    pub id: int,
    pub name: Seq<char>,
    pub user_id: int,
    pub revision_length: int,
    pub flip_mode: FlipMode,
}

impl View for Deck {
    type V = DeckView;

    open spec fn view(&self) -> DeckView {
        DeckView {
            id: self.id as int,
            name: self.name@,
            user_id: self.user_id as int,
            revision_length: self.revision_length as int,
            flip_mode: self.flip_mode,
        }
    }
}

impl Clone for Deck {
    fn clone(&self) -> (copy: Self)
        ensures
            copy == *self,
    {
        Deck {
            id: self.id,
            name: self.name.clone(),
            user_id: self.user_id,
            revision_length: self.revision_length,
            flip_mode: self.flip_mode,
        }
    }
}

impl PartialEq for Deck {
    fn eq(&self, other: &Self) -> (equal: bool) {
        self.id == other.id && self.name == other.name && self.user_id == other.user_id
            && self.revision_length == other.revision_length && self.flip_mode == other.flip_mode
    }
}

impl vstd::std_specs::cmp::PartialEqSpecImpl for Deck {
    open spec fn obeys_eq_spec() -> bool {
        true
    }

    open spec fn eq_spec(&self, other: &Self) -> bool {
        self@ == other@
    }
}

impl Deck {
    /// A deck is well formed when a session of it draws at least one card.
    pub open spec fn wf(&self) -> bool {
        self.revision_length > 0
    }
}

/// A card as one turn of a session shows it: the side shown first and the
/// side revealed after it.
#[derive(Debug)]
pub struct RevisionCard {
    pub id: i32,
    pub deck_id: i32,
    pub first: String,
    pub second: String,
}

/// What a `RevisionCard` holds, as plain mathematical values.
pub struct RevisionCardView {
    pub id: int,
    pub deck_id: int,
    pub first: Seq<char>,
    pub second: Seq<char>,
}

impl View for RevisionCard {
    type V = RevisionCardView;

    open spec fn view(&self) -> RevisionCardView {
        RevisionCardView {
            id: self.id as int,
            deck_id: self.deck_id as int,
            first: self.first@,
            second: self.second@,
        }
    }
}

impl Clone for RevisionCard {
    fn clone(&self) -> (copy: Self)
        ensures
            copy == *self,
    {
        RevisionCard {
            id: self.id,
            deck_id: self.deck_id,
            first: self.first.clone(),
            second: self.second.clone(),
        }
    }
}

impl PartialEq for RevisionCard {
    fn eq(&self, other: &Self) -> (equal: bool) {
        self.id == other.id && self.deck_id == other.deck_id && self.first == other.first
            && self.second == other.second
    }
}

impl vstd::std_specs::cmp::PartialEqSpecImpl for RevisionCard {
    open spec fn obeys_eq_spec() -> bool {
        true
    }

    open spec fn eq_spec(&self, other: &Self) -> bool {
        self@ == other@
    }
}

} // verus!
