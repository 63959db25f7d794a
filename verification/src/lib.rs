//! Flashcard revision: the rule that turns a learner's feedback into a new
//! card weight, the weighted draw that picks the cards of a study session,
//! and the small amount of session state a client keeps while studying.

use vstd::prelude::*;

pub mod api;
pub mod models;
pub mod query_params;
mod random;
pub mod revision;
pub mod sampling;
pub mod study;
pub mod text;
pub mod utils;

use crate::text::same_text;

verus! {

/// Which side of a card a revision session shows first.
#[derive(Clone, Copy, PartialEq, Eq, Structural)]
pub enum FlipMode {
    Front,
    Back,
    Both,
}

impl FlipMode {
    /// The lower-case word that stands for this mode.
    pub open spec fn word(self) -> Seq<char> {
        match self {
            FlipMode::Front => "front"@,
            FlipMode::Back => "back"@,
            FlipMode::Both => "both"@,
        }
    }

    /// The mode that `text` stands for, if it is one of the three words.
    pub open spec fn from_word(text: Seq<char>) -> Option<FlipMode> {
        if text == "front"@ {
            Some(FlipMode::Front)
        } else if text == "back"@ {
            Some(FlipMode::Back)
        } else if text == "both"@ {
            Some(FlipMode::Both)
        } else {
            None
        }
    }

    /// The lower-case word that stands for this mode.
    pub fn name(&self) -> (word: &'static str)
        ensures
            word@ == self.word(),
    {
        match self {
            FlipMode::Front => "front",
            FlipMode::Back => "back",
            FlipMode::Both => "both",
        }
    }

    /// Reads a mode from its word. Any other text is no mode.
    pub fn parse(text: &str) -> (parsed: Option<FlipMode>)
        ensures
            parsed == FlipMode::from_word(text@),
    {
        if same_text(text, "front") {
            Some(FlipMode::Front)
        } else if same_text(text, "back") {
            Some(FlipMode::Back)
        } else if same_text(text, "both") {
            Some(FlipMode::Both)
        } else {
            None
        }
    }
}

/// The three words are three different texts, so each stands for one mode.
pub proof fn lemma_words_are_read_back(mode: FlipMode)
    ensures
        FlipMode::from_word(mode.word()) == Some(mode),
{
    reveal_strlit("front");
    reveal_strlit("back");
    reveal_strlit("both");
    assert("back"@[0] != "front"@[0]);
    assert("both"@[0] != "front"@[0]);
    assert("both"@[1] != "back"@[1]);
}

} // verus!
