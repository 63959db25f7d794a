//! What a client keeps while a learner works through a session.
//!
//! The cards of a session are served in one list and studied from its end:
//! the last card is shown with its first side up, the learner reveals the
//! second side and rates the card, the rating is sent off for that card, and
//! the card leaves the list. The session is over when the list is empty.
//! The functions here decide; showing, and sending a rating, is the caller's.

use vstd::prelude::*;
use crate::models::RevisionCard;
use crate::revision::Feedback;

verus! {

/// The state of a study session on the client.
#[derive(Debug)]
pub struct StudySession {
    queue: Option<Vec<RevisionCard>>,
    length: usize,
    flipped: bool,
}

/// What a `StudySession` holds, as plain mathematical values: the cards still
/// to be studied, once they have arrived, the number of cards that were
/// served, and whether the current card shows its second side.
pub struct StudyView {
    pub queue: Option<Seq<RevisionCard>>,
    pub length: nat,
    pub flipped: bool,
}

/// A rating to send off: the card it is about and what the learner said.
#[derive(Clone, Copy, Debug, PartialEq, Eq, Structural)]
pub struct FeedbackPost {
    pub card_id: i32,
    pub feedback: Feedback,
}

/// What the client shows.
#[derive(Clone, Copy, Debug, PartialEq, Eq, Structural)]
pub enum Screen {
    /// The cards have not arrived yet: nothing.
    Loading,
    /// One card: the `position`-th of `length`, with its second side and the
    /// rating buttons only once it is `revealed`.
    Turn { position: usize, length: usize, revealed: bool },
    /// No card is left: back to the deck.
    Done,
}

impl StudyView {
    /// A session is well formed when no more cards are left than were served.
    pub open spec fn wf(self) -> bool {
        self.queue matches Some(cards) ==> cards.len() <= self.length
    }

    /// The card being studied: the last of those left.
    pub open spec fn current(self) -> Option<RevisionCard> {
        match self.queue {
            Some(cards) if cards.len() > 0 => Some(cards.last()),
            _ => None,
        }
    }

    /// The session once `cards` have arrived.
    pub open spec fn loaded(self, cards: Seq<RevisionCard>) -> StudyView {
        StudyView { queue: Some(cards), length: cards.len(), flipped: self.flipped }
    }

    /// The session once the learner has asked for the second side.
    pub open spec fn turned_over(self) -> StudyView {
        StudyView { flipped: true, ..self }
    }

    /// The session once the learner has rated the current card: the card has
    /// left, and the next one shows its first side. Before the cards have
    /// arrived a rating changes nothing.
    pub open spec fn answered(self) -> StudyView {
        match self.queue {
            Some(cards) => StudyView {
                queue: Some(if cards.len() > 0 { cards.drop_last() } else { cards }),
                length: self.length,
                flipped: false,
            },
            None => self,
        }
    }

    /// The rating to send off when the learner says `feedback`: one for the
    /// current card, none where there is no card.
    pub open spec fn post(self, feedback: Feedback) -> Option<FeedbackPost> {
        match self.current() {
            Some(card) => Some(FeedbackPost { card_id: card.id, feedback }),
            None => None,
        }
    }

    /// What the client shows in this state.
    pub open spec fn screen(self) -> Screen {
        match self.queue {
            None => Screen::Loading,
            Some(cards) => if cards.len() > 0 {
                Screen::Turn {
                    position: (self.length - cards.len() + 1) as usize,
                    length: self.length as usize,
                    revealed: self.flipped,
                }
            } else {
                Screen::Done
            },
        }
    }

    /// The session after `count` ratings.
    pub open spec fn answered_times(self, count: nat) -> StudyView
        decreases count,
    {
        if count == 0 {
            self
        } else {
            self.answered_times((count - 1) as nat).answered()
        }
    }
}

impl View for StudySession {
    type V = StudyView;

    closed spec fn view(&self) -> StudyView {
        StudyView {
            queue: match self.queue {
                Some(cards) => Some(cards@),
                None => None,
            },
            length: self.length as nat,
            flipped: self.flipped,
        }
    }
}

impl Clone for StudySession {
    fn clone(&self) -> (copy: Self)
        ensures
            copy@ == self@,
    {
        proof {
            use_type_invariant(self);
        }
        match &self.queue {
            Some(cards) => {
                let mut copies: Vec<RevisionCard> = Vec::new();
                let mut i: usize = 0;
                while i < cards.len()
                    invariant
                        i <= cards.len(),
                        copies@ == cards@.take(i as int),
                    decreases cards.len() - i,
                {
                    copies.push(cards[i].clone());
                    assert(cards@.take(i as int).push(cards@[i as int]) =~= cards@.take(i + 1));
                    i += 1;
                }
                assert(cards@.take(cards@.len() as int) =~= cards@);
                StudySession { queue: Some(copies), length: self.length, flipped: self.flipped }
            },
            None => StudySession { queue: None, length: self.length, flipped: self.flipped },
        }
    }
}

impl StudySession {
    #[verifier::type_invariant]
    closed spec fn well_formed(self) -> bool {
        self@.wf()
    }

    /// A session whose cards have not arrived yet.
    pub fn new() -> (session: Self)
        ensures
            session@ == (StudyView { queue: None, length: 0, flipped: false }),
    {
        StudySession { queue: None, length: 0, flipped: false }
    }

    /// Takes the cards the server has drawn for this session.
    pub fn load(&mut self, cards: Vec<RevisionCard>)
        ensures
            final(self)@ == old(self)@.loaded(cards@),
    {
        let flipped = self.flipped;
        *self = StudySession { length: cards.len(), queue: Some(cards), flipped };
    }

    /// The learner asks for the second side of the current card.
    pub fn turn_over(&mut self)
        ensures
            final(self)@ == old(self)@.turned_over(),
    {
        proof {
            use_type_invariant(&*self);
        }
        self.flipped = true;
    }

    /// The learner rates the current card. The card leaves the session, and
    /// what comes back is the rating to send off for it, if there was a card.
    pub fn answer(&mut self, feedback: Feedback) -> (post: Option<FeedbackPost>)
        ensures
            final(self)@ == old(self)@.answered(),
            post == old(self)@.post(feedback),
    {
        proof {
            use_type_invariant(&*self);
        }
        let length = self.length;
        let mut taken: Option<Vec<RevisionCard>> = None;
        std::mem::swap(&mut self.queue, &mut taken);
        match taken {
            Some(mut cards) => {
                let popped = cards.pop();
                *self = StudySession { queue: Some(cards), length, flipped: false };
                match popped {
                    Some(card) => Some(FeedbackPost { card_id: card.id, feedback }),
                    None => None,
                }
            },
            None => None,
        }
    }

    /// The card being studied, if there is one.
    pub fn current(&self) -> (card: Option<&RevisionCard>)
        ensures
            match card {
                Some(card) => self@.current() == Some(*card),
                None => self@.current() is None,
            },
    {
        match &self.queue {
            Some(cards) => if cards.len() > 0 {
                Some(&cards[cards.len() - 1])
            } else {
                None
            },
            None => None,
        }
    }

    /// What the client shows in this state.
    pub fn screen(&self) -> (screen: Screen)
        ensures
            screen == self@.screen(),
    {
        proof {
            use_type_invariant(self);
        }
        match &self.queue {
            None => Screen::Loading,
            Some(cards) => if cards.len() > 0 {
                Screen::Turn {
                    position: self.length - cards.len() + 1,
                    length: self.length,
                    revealed: self.flipped,
                }
            } else {
                Screen::Done
            },
        }
    }
}

/// A session is studied from its end: after `count` ratings the last `count`
/// of the served cards have left, the card that was served just before them
/// is the `count + 1`-th to be shown, first side up, and after as many
/// ratings as there were cards the session is done.
pub proof fn lemma_session_runs_backwards(start: StudyView, cards: Seq<RevisionCard>, count: nat)
    requires
        0 < count <= cards.len() <= usize::MAX,
    ensures
        start.loaded(cards).answered_times(count) == (StudyView {
            queue: Some(cards.take(cards.len() - count)),
            length: cards.len(),
            flipped: false,
        }),
        start.loaded(cards).answered_times((count - 1) as nat).current() == Some(
            cards[cards.len() - count],
        ),
        count < cards.len() ==> start.loaded(cards).answered_times(count).screen() == (
        Screen::Turn {
            position: (count + 1) as usize,
            length: cards.len() as usize,
            revealed: false,
        }),
        count == cards.len() ==> start.loaded(cards).answered_times(count).screen()
            == Screen::Done,
    decreases count,
{
    let loaded = start.loaded(cards);
    let left = cards.take(cards.len() - count + 1);
    if count == 1 {
        assert(loaded.answered_times(0) == loaded);
        assert(left =~= cards);
    } else {
        lemma_session_runs_backwards(start, cards, (count - 1) as nat);
    }
    assert(left.drop_last() =~= cards.take(cards.len() - count));
}

} // verus!
