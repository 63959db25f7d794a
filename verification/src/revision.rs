//! Revision: the feedback rule, by which a learner's verdict on a card
//! changes its weight, and the building of a study session from the cards of
//! a deck.
//!
//! A weight is a priority. Failing a card quadruples it, finding it easy
//! quarters it, and the result always stays within `MIN_WEIGHT..=MAX_WEIGHT`.
//! A session draws its cards by weight, shuffles them, and shows each with
//! the side first that the deck's flip mode asks for.

use vstd::prelude::*;
use crate::models::{Card, CardView, Deck, RevisionCard, RevisionCardView};
use crate::random::random_flip;
use crate::sampling::{shuffle, weighted_sample};
use crate::text::same_text;
use crate::FlipMode;

verus! {

/// The smallest weight a card can carry.
pub const MIN_WEIGHT: i16 = 1;

/// The largest weight a card can carry; it is what a 16-bit signed column holds.
pub const MAX_WEIGHT: i16 = 32767;

/// Whether `w` is a weight a stored card may carry.
pub open spec fn valid_weight(w: int) -> bool {
    MIN_WEIGHT as int <= w <= MAX_WEIGHT as int
}

/// `x` brought into the range of valid weights.
pub open spec fn clamp_weight(x: int) -> int {
    if x < MIN_WEIGHT as int {
        MIN_WEIGHT as int
    } else if x > MAX_WEIGHT as int {
        MAX_WEIGHT as int
    } else {
        x
    }
}

/// `x` brought into the range of valid weights.
pub fn clamp(x: i32) -> (w: i16)
    ensures
        w == clamp_weight(x as int),
        valid_weight(w as int),
{
    if x < MIN_WEIGHT as i32 {
        MIN_WEIGHT
    } else if x > MAX_WEIGHT as i32 {
        MAX_WEIGHT
    } else {
        x as i16
    }
}

/// A learner's verdict on one card.
#[derive(Clone, Copy, PartialEq, Eq, Structural, Debug)]
pub enum Feedback {
    Fail,
    Hard,
    Good,
    Easy,
}

impl Feedback {
    /// The token that stands for this verdict on the wire.
    pub open spec fn token(self) -> Seq<char> {
        match self {
            Feedback::Fail => "fail"@,
            Feedback::Hard => "hard"@,
            Feedback::Good => "good"@,
            Feedback::Easy => "easy"@,
        }
    }

    /// The verdict that `label` stands for, if it is one of the four tokens.
    pub open spec fn from_token(label: Seq<char>) -> Option<Feedback> {
        if label == "fail"@ {
            Some(Feedback::Fail)
        } else if label == "hard"@ {
            Some(Feedback::Hard)
        } else if label == "good"@ {
            Some(Feedback::Good)
        } else if label == "easy"@ {
            Some(Feedback::Easy)
        } else {
            None
        }
    }

    /// The weight `w` after this verdict, before it is clamped: four times
    /// or twice `w`, or the half or the quarter of it, rounded down.
    pub open spec fn scaled(self, w: int) -> int {
        match self {
            Feedback::Fail => w * 4,
            Feedback::Hard => w * 2,
            Feedback::Good => w / 2,
            Feedback::Easy => w / 4,
        }
    }

    /// The weight that follows `w` after this verdict.
    pub open spec fn next_weight(self, w: int) -> int {
        clamp_weight(self.scaled(w))
    }

    /// The token that stands for this verdict on the wire.
    pub fn label(&self) -> (s: &'static str)
        ensures
            s@ == self.token(),
    {
        match self {
            Feedback::Fail => "fail",
            Feedback::Hard => "hard",
            Feedback::Good => "good",
            Feedback::Easy => "easy",
        }
    }

    /// Reads a verdict from its token. Any other text is no verdict.
    pub fn parse(label: &str) -> (parsed: Option<Feedback>)
        ensures
            parsed == Feedback::from_token(label@),
    {
        if same_text(label, "fail") {
            Some(Feedback::Fail)
        } else if same_text(label, "hard") {
            Some(Feedback::Hard)
        } else if same_text(label, "good") {
            Some(Feedback::Good)
        } else if same_text(label, "easy") {
            Some(Feedback::Easy)
        } else {
            None
        }
    }

    /// The weight that follows `current_weight` after this verdict. The
    /// product is taken in 32 bits, so that it is clamped and never wraps.
    pub fn apply(&self, current_weight: i16) -> (new_weight: i16)
        ensures
            new_weight == self.next_weight(current_weight as int),
            valid_weight(new_weight as int),
    {
        let w: i32 = current_weight as i32;
        let scaled: i32 = match self {
            Feedback::Fail => w * 4,
            Feedback::Hard => w * 2,
            Feedback::Good => w / 2,
            Feedback::Easy => w / 4,
        };
        clamp(scaled)
    }
}

/// The weight that follows `w` after feedback `label`: scaled by the verdict
/// that `label` stands for, unchanged by any other text, and then clamped.
pub open spec fn feedback_weight(w: int, label: Seq<char>) -> int {
    match Feedback::from_token(label) {
        Some(feedback) => feedback.next_weight(w),
        None => clamp_weight(w),
    }
}

/// The weight that follows `current_weight` after feedback `label`.
///
/// `label` is one of `fail`, `hard`, `good`, `easy`; any other text leaves
/// a valid weight as it is. The result is always a valid weight: one that
/// would leave the range stops at its end, and a weight that was not valid
/// to begin with comes back as the nearest valid one.
pub fn apply_feedback(current_weight: i16, label: &str) -> (new_weight: i16)
    ensures
        new_weight == feedback_weight(current_weight as int, label@),
        valid_weight(new_weight as int),
{
    match Feedback::parse(label) {
        Some(feedback) => feedback.apply(current_weight),
        None => clamp(current_weight as i32),
    }
}

/// Takes the learner's rating of `card` and changes its weight accordingly.
/// Storing the new weight is left to the caller.
pub fn add_feedback(card: &mut Card, feedback: &str)
    ensures
        final(card)@ == (CardView {
            revision_weight: feedback_weight(old(card).revision_weight as int, feedback@),
            ..old(card)@
        }),
        final(card).wf(),
{
    card.revision_weight = apply_feedback(card.revision_weight, feedback);
}

impl Card {
    /// Takes the learner's rating of this card and changes its weight
    /// accordingly. Storing the new weight is left to the caller.
    pub fn add_feedback(&mut self, feedback: &str)
        ensures
            final(self)@ == (CardView {
                revision_weight: feedback_weight(old(self).revision_weight as int, feedback@),
                ..old(self)@
            }),
            final(self).wf(),
    {
        add_feedback(self, feedback);
    }
}

/// The four tokens are four different texts, so each stands for one verdict.
pub proof fn lemma_tokens_are_read_back(feedback: Feedback)
    ensures
        Feedback::from_token(feedback.token()) == Some(feedback),
{
    reveal_strlit("fail");
    reveal_strlit("hard");
    reveal_strlit("good");
    reveal_strlit("easy");
    assert("hard"@[0] != "fail"@[0]);
    assert("good"@[0] != "fail"@[0]);
    assert("good"@[0] != "hard"@[0]);
    assert("easy"@[0] != "fail"@[0]);
    assert("easy"@[0] != "hard"@[0]);
    assert("easy"@[0] != "good"@[0]);
}

/// Failing a card quadruples its weight, finding it hard doubles it, good
/// halves it and easy quarters it, each time rounded down and then clamped.
pub proof fn lemma_feedback_formulas(w: int)
    ensures
        feedback_weight(w, "fail"@) == clamp_weight(w * 4),
        feedback_weight(w, "hard"@) == clamp_weight(w * 2),
        feedback_weight(w, "good"@) == clamp_weight(w / 2),
        feedback_weight(w, "easy"@) == clamp_weight(w / 4),
{
    lemma_tokens_are_read_back(Feedback::Fail);
    lemma_tokens_are_read_back(Feedback::Hard);
    lemma_tokens_are_read_back(Feedback::Good);
    lemma_tokens_are_read_back(Feedback::Easy);
}

/// A text that is none of the four tokens leaves a valid weight as it is.
pub proof fn lemma_unknown_label_keeps_weight(w: int, label: Seq<char>)
    requires
        valid_weight(w),
        Feedback::from_token(label) is None,
    ensures
        feedback_weight(w, label) == w,
{
}

/// Clamping gives a valid weight, leaves a valid weight alone, and so
/// changes nothing when done twice.
pub proof fn lemma_clamp_idempotent(x: int)
    ensures
        valid_weight(clamp_weight(x)),
        valid_weight(x) ==> clamp_weight(x) == x,
        clamp_weight(clamp_weight(x)) == clamp_weight(x),
{
}

/// Whatever the feedback, the weight that follows is a valid one, and a
/// heavier card never ends up lighter than a lighter card given the same
/// feedback.
pub proof fn lemma_feedback_keeps_order(w1: int, w2: int, label: Seq<char>)
    requires
        w1 <= w2,
    ensures
        valid_weight(feedback_weight(w1, label)),
        feedback_weight(w1, label) <= feedback_weight(w2, label),
{
}

/// `card` as a session shows it: front first, or back first if `flip`.
pub open spec fn shaped(card: CardView, flip: bool) -> RevisionCardView {
    RevisionCardView {
        id: card.id,
        deck_id: card.deck_id,
        first: if flip { card.back } else { card.front },
        second: if flip { card.front } else { card.back },
    }
}

/// Whether `shown` is `card` as a session with `flip_mode` may show it:
/// front first under `Front`, back first under `Back`, either under `Both`.
pub open spec fn shows(card: CardView, flip_mode: FlipMode, shown: RevisionCardView) -> bool {
    match flip_mode {
        FlipMode::Front => shown == shaped(card, false),
        FlipMode::Back => shown == shaped(card, true),
        FlipMode::Both => shown == shaped(card, false) || shown == shaped(card, true),
    }
}

/// `card` as a session shows it: front first, or back first if `flip`.
pub fn shape_revision_card(card: &Card, flip: bool) -> (shown: RevisionCard)
    ensures
        shown@ == shaped(card@, flip),
{
    let first;
    let second;
    if flip {
        first = card.back.clone();
        second = card.front.clone();
    } else {
        first = card.front.clone();
        second = card.back.clone();
    }
    RevisionCard { id: card.id, deck_id: card.deck_id, first, second }
}

/// `card` as a session with `flip_mode` shows it. Under `Both` a coin flip
/// decides which side comes first.
pub fn make_revision_card(card: &Card, flip_mode: FlipMode) -> (shown: RevisionCard)
    ensures
        shows(card@, flip_mode, shown@),
{
    let flip = match flip_mode {
        FlipMode::Front => false,
        FlipMode::Back => true,
        FlipMode::Both => random_flip(),
    };
    shape_revision_card(card, flip)
}

/// How many cards a session of `revision_length` draws from `card_count`
/// cards: `revision_length` of them, or all where there are fewer, and none
/// for a length that is not positive.
pub open spec fn session_length(card_count: int, revision_length: int) -> int {
    if revision_length <= 0 {
        0
    } else if revision_length <= card_count {
        revision_length
    } else {
        card_count
    }
}

/// Whether `session` shows, turn by turn, the cards of `cards` at the
/// positions `picks`, no position taken twice.
pub open spec fn is_session_of(
    cards: Seq<Card>,
    flip_mode: FlipMode,
    picks: Seq<int>,
    session: Seq<RevisionCard>,
) -> bool {
    &&& picks.len() == session.len()
    &&& picks.no_duplicates()
    &&& forall|k: int|
        0 <= k < picks.len() ==> 0 <= #[trigger] picks[k] < cards.len() && shows(
            cards[picks[k]]@,
            flip_mode,
            session[k]@,
        )
}

/// Whether no two of `cards` share an identity.
pub open spec fn distinct_card_ids(cards: Seq<Card>) -> bool {
    forall|i: int, j: int| 0 <= i < j < cards.len() ==> cards[i].id != cards[j].id
}

/// Whether no two turns of `session` show the same card.
pub open spec fn distinct_session_ids(session: Seq<RevisionCard>) -> bool {
    forall|i: int, j: int| 0 <= i < j < session.len() ==> session[i].id != session[j].id
}

/// A session is never longer than asked for nor longer than the deck, and
/// is exactly the shorter of the two where a positive length is asked for.
pub proof fn lemma_session_length_bounds(card_count: nat, revision_length: int)
    ensures
        0 <= session_length(card_count as int, revision_length) <= card_count,
        revision_length >= 0 ==> session_length(card_count as int, revision_length)
            <= revision_length,
        revision_length > 0 ==> session_length(card_count as int, revision_length) == if card_count
            < revision_length {
            card_count as int
        } else {
            revision_length
        },
{
}

/// Under `Front` every turn of a session shows the front of its card first
/// and the back second, under `Back` the back first and the front second,
/// and under `Both` one of the two.
pub proof fn lemma_session_sides(
    cards: Seq<Card>,
    flip_mode: FlipMode,
    picks: Seq<int>,
    session: Seq<RevisionCard>,
    turn: int,
)
    requires
        is_session_of(cards, flip_mode, picks, session),
        0 <= turn < session.len(),
    ensures
        session[turn].id == cards[picks[turn]].id,
        session[turn].deck_id == cards[picks[turn]].deck_id,
        flip_mode == FlipMode::Front ==> session[turn].first@ == cards[picks[turn]].front@
            && session[turn].second@ == cards[picks[turn]].back@,
        flip_mode == FlipMode::Back ==> session[turn].first@ == cards[picks[turn]].back@
            && session[turn].second@ == cards[picks[turn]].front@,
        flip_mode == FlipMode::Both ==> (session[turn].first@ == cards[picks[turn]].front@
            && session[turn].second@ == cards[picks[turn]].back@) || (session[turn].first@
            == cards[picks[turn]].back@ && session[turn].second@ == cards[picks[turn]].front@),
{
    assert(shows(cards[picks[turn]]@, flip_mode, session[turn]@));
}

/// A session of cards with distinct identities shows no identity twice.
pub proof fn lemma_session_has_distinct_ids(
    cards: Seq<Card>,
    flip_mode: FlipMode,
    picks: Seq<int>,
    session: Seq<RevisionCard>,
)
    requires
        is_session_of(cards, flip_mode, picks, session),
        distinct_card_ids(cards),
    ensures
        distinct_session_ids(session),
{
    assert forall|i: int, j: int| 0 <= i < j < session.len() implies session[i].id
        != session[j].id by {
        let a = picks[i];
        let b = picks[j];
        assert(a != b);
        assert(shows(cards[a]@, flip_mode, session[i]@));
        assert(shows(cards[b]@, flip_mode, session[j]@));
        if a < b {
            assert(cards[a].id != cards[b].id);
        } else {
            assert(cards[b].id != cards[a].id);
        }
    }
}

/// Builds a study session from the cards of a deck.
///
/// The session holds `revision_length` of the cards, or all of them where the
/// deck has fewer, each at most once. They are drawn by weight, a heavier card
/// being the likelier draw, then shuffled, so that a card's place tells
/// nothing of its weight, and each is shown with the side first that
/// `flip_mode` asks for. An empty deck gives an empty session.
pub fn build_session(cards: &Vec<Card>, revision_length: i16, flip_mode: FlipMode) -> (session:
    Vec<RevisionCard>)
    ensures
        session@.len() == session_length(cards@.len() as int, revision_length as int),
        exists|picks: Seq<int>| is_session_of(cards@, flip_mode, picks, session@),
        distinct_card_ids(cards@) ==> distinct_session_ids(session@),
{
    let count: usize = if revision_length > 0 { revision_length as usize } else { 0 };
    let mut weights: Vec<i16> = Vec::new();
    let mut i: usize = 0;
    while i < cards.len()
        invariant
            i <= cards.len(),
            weights@.len() == i,
        decreases cards.len() - i,
    {
        weights.push(cards[i].revision_weight);
        i += 1;
    }
    let mut order = weighted_sample(&weights, count);
    let ghost drawn = order@;
    shuffle(&mut order);
    proof {
        lemma_shuffled_picks(drawn, order@, cards@.len());
    }
    let mut session: Vec<RevisionCard> = Vec::new();
    let mut k: usize = 0;
    while k < order.len()
        invariant
            k <= order.len(),
            session@.len() == k,
            forall|m: int| 0 <= m < order@.len() ==> order@[m] < cards@.len(),
            forall|m: int|
                0 <= m < k ==> shows(cards@[order@[m] as int]@, flip_mode, #[trigger] session@[m]@),
        decreases order.len() - k,
    {
        session.push(make_revision_card(&cards[order[k]], flip_mode));
        k += 1;
    }
    proof {
        let picks = order@.map_values(|p: usize| p as int);
        assert(picks.no_duplicates());
        assert(is_session_of(cards@, flip_mode, picks, session@));
        if distinct_card_ids(cards@) {
            lemma_session_has_distinct_ids(cards@, flip_mode, picks, session@);
        }
    }
    session
}

impl Deck {
    /// Builds a study session of this deck from its cards `cards`, of the
    /// length and with the flip mode that the deck is set to.
    pub fn build_session(&self, cards: &Vec<Card>) -> (session: Vec<RevisionCard>)
        ensures
            session@.len() == session_length(cards@.len() as int, self.revision_length as int),
            self.wf() ==> session@.len() == if cards@.len() < self.revision_length {
                cards@.len() as int
            } else {
                self.revision_length as int
            },
            exists|picks: Seq<int>| is_session_of(cards@, self.flip_mode, picks, session@),
            distinct_card_ids(cards@) ==> distinct_session_ids(session@),
    {
        build_session(cards, self.revision_length, self.flip_mode)
    }
}

/// Shuffling keeps what a draw promised: as many positions, all of them
/// within the deck, none of them twice.
proof fn lemma_shuffled_picks(drawn: Seq<usize>, shuffled: Seq<usize>, card_count: nat)
    requires
        shuffled.to_multiset() == drawn.to_multiset(),
        drawn.no_duplicates(),
        forall|k: int| 0 <= k < drawn.len() ==> drawn[k] < card_count,
    ensures
        shuffled.len() == drawn.len(),
        shuffled.no_duplicates(),
        forall|k: int| 0 <= k < shuffled.len() ==> shuffled[k] < card_count,
{
    broadcast use vstd::seq_lib::group_to_multiset_ensures;

    vstd::seq_lib::to_multiset_len(drawn);
    vstd::seq_lib::to_multiset_len(shuffled);
    drawn.lemma_multiset_has_no_duplicates();
    shuffled.lemma_multiset_has_no_duplicates_conv();
    assert forall|k: int| 0 <= k < shuffled.len() implies shuffled[k] < card_count by {
        assert(shuffled.contains(shuffled[k]));
        assert(drawn.to_multiset().count(shuffled[k]) > 0);
        assert(drawn.contains(shuffled[k]));
    }
}

} // verus!
