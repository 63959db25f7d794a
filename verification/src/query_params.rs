//! The query a client sends to read the cards of a deck page by page, and
//! how the pages that come back add up to the list it shows.

use vstd::prelude::*;
use crate::models::Card;

verus! {

/// How many cards a page holds where the query does not say.
pub open spec fn spec_default_per_page() -> i64 {
    36
}

/// How many cards a page holds where the query does not say.
#[verifier::when_used_as_spec(spec_default_per_page)]
pub fn default_per_page() -> (per_page: i64)
    ensures
        per_page == spec_default_per_page(),
{
    36
}

/// Which page of a deck's cards to read, how long a page is, and the text
/// the cards must match.
#[derive(Debug)]
pub struct CardReadQuery {
    pub page: i64,
    pub per_page: i64,
    pub search_term: String,
}

/// What a `CardReadQuery` holds, as plain mathematical values.
pub struct CardReadQueryView {
    pub page: int,
    pub per_page: int,
    pub search_term: Seq<char>,
}

impl View for CardReadQuery {
    type V = CardReadQueryView;

    open spec fn view(&self) -> CardReadQueryView {
        CardReadQueryView {
            page: self.page as int,
            per_page: self.per_page as int,
            search_term: self.search_term@,
        }
    }
}

impl CardReadQueryView {
    /// The query that looks for `term`: it starts over at the first page.
    pub open spec fn searching(self, term: Seq<char>) -> CardReadQueryView {
        CardReadQueryView { page: 0, per_page: self.per_page, search_term: term }
    }

    /// The query for the page after this one.
    pub open spec fn following(self) -> CardReadQueryView {
        CardReadQueryView { page: self.page + 1, ..self }
    }
}

impl CardReadQuery {
    /// The query that looks for `term`, from the first page on.
    pub fn search(&self, term: String) -> (query: Self)
        ensures
            query@ == self@.searching(term@),
    {
        CardReadQuery { page: 0, per_page: self.per_page, search_term: term }
    }

    /// The query for the page after this one.
    pub fn next_page(&self) -> (query: Self)
        requires
            self.page < i64::MAX,
        ensures
            query@ == self@.following(),
    {
        CardReadQuery {
            page: self.page + 1,
            per_page: self.per_page,
            search_term: self.search_term.clone(),
        }
    }
}

/// The cards a list shows once page `page` has arrived: a later page is
/// added to what is shown already, the first page replaces it.
pub open spec fn merged(shown: Option<Seq<Card>>, arrived: Seq<Card>, page: int) -> Seq<Card> {
    match shown {
        Some(cards) if page > 0 => cards + arrived,
        _ => arrived,
    }
}

/// The cards a list shows once page `page` has arrived: a later page is
/// added to what is shown already, the first page replaces it.
pub fn merge_page(shown: Option<Vec<Card>>, arrived: Vec<Card>, page: i64) -> (cards: Vec<Card>)
    ensures
        cards@ == merged(
            match shown {
                Some(cards) => Some(cards@),
                None => None,
            },
            arrived@,
            page as int,
        ),
{
    match shown {
        Some(mut cards) => {
            if page > 0 {
                let mut arrived = arrived;
                cards.append(&mut arrived);
                cards
            } else {
                arrived
            }
        },
        None => arrived,
    }
}

impl Clone for CardReadQuery {
    fn clone(&self) -> (copy: Self)
        ensures
            copy == *self,
    {
        CardReadQuery {
            page: self.page,
            per_page: self.per_page,
            search_term: self.search_term.clone(),
        }
    }
}

impl PartialEq for CardReadQuery {
    fn eq(&self, other: &Self) -> (equal: bool) {
        self.page == other.page && self.per_page == other.per_page && self.search_term
            == other.search_term
    }
}

impl vstd::std_specs::cmp::PartialEqSpecImpl for CardReadQuery {
    open spec fn obeys_eq_spec() -> bool {
        true
    }

    open spec fn eq_spec(&self, other: &Self) -> bool {
        self@ == other@
    }
}

impl Default for CardReadQuery {
    /// The first page, of the default length, with no text to match.
    fn default() -> (query: Self)
        ensures
            query@ == (CardReadQueryView {
                page: 0,
                per_page: default_per_page() as int,
                search_term: Seq::<char>::empty(),
            }),
    {
        Self { page: 0, per_page: default_per_page(), search_term: String::new() }
    }
}

} // verus!
