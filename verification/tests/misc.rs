use anqui::api::ApiError;
use anqui::models::{Card, Deck, RevisionCard};
use anqui::query_params::{default_per_page, merge_page, CardReadQuery};
use anqui::text::same_text;
use anqui::utils::truncate;
use anqui::FlipMode;

#[test]
fn truncate_cuts_long_text() {
    assert_eq!(truncate("string is way too long.", 15), "string is wa...");
    assert_eq!(truncate("abcdefgh", 4), "a...");
    assert_eq!(truncate("abcdefgh", 7), "abcd...");
}

#[test]
fn truncate_keeps_short_text() {
    assert_eq!(truncate("short", 15), "short");
    assert_eq!(truncate("", 4), "");
    assert_eq!(truncate("abcd", 4), "abcd");
    assert_eq!(truncate("exactly fifteen", 15), "exactly fifteen");
}

#[test]
fn truncate_counts_bytes() {
    assert_eq!(truncate("\u{e9}abcd", 5), "\u{e9}...");
    assert_eq!(truncate("\u{e9}abc", 5), "\u{e9}abc");
    assert_eq!(truncate("\u{e9}\u{e9}", 4), "\u{e9}\u{e9}");
    assert_eq!(truncate("a\u{20ac}bcdefgh", 7), "a\u{20ac}...");
}

#[test]
fn default_query_reads_the_first_page() {
    assert_eq!(default_per_page(), 36);
    let query = CardReadQuery::default();
    assert_eq!(query.page, 0);
    assert_eq!(query.per_page, 36);
    assert_eq!(query.search_term, "");
}

#[test]
fn api_error_carries_its_message() {
    let error = ApiError::new(String::from("Mot de passe invalide"));
    assert_eq!(error.to_string(), "Mot de passe invalide");
    assert_eq!(ApiError::new(String::new()).to_string(), "");
}

#[test]
fn same_text_compares_characters() {
    assert!(same_text("", ""));
    assert!(same_text("fail", "fail"));
    assert!(!same_text("fail", "fall"));
    assert!(!same_text("fail", "fai"));
    assert!(!same_text("fai", "fail"));
    assert!(same_text("\u{e9}t\u{e9}", "\u{e9}t\u{e9}"));
    assert!(!same_text("\u{e9}t\u{e9}", "ete"));
}

#[test]
fn search_starts_over_at_the_first_page() {
    let query = CardReadQuery { page: 4, per_page: 12, search_term: String::from("chat") };
    let next = query.search(String::from("chien"));
    assert_eq!(next.page, 0);
    assert_eq!(next.per_page, 12);
    assert_eq!(next.search_term, "chien");
    assert_eq!(query.page, 4);
    assert_eq!(query.search_term, "chat");
}

#[test]
fn next_page_moves_one_page_on() {
    let query = CardReadQuery { page: 4, per_page: 12, search_term: String::from("chat") };
    let next = query.next_page();
    assert_eq!(next.page, 5);
    assert_eq!(next.per_page, 12);
    assert_eq!(next.search_term, "chat");
    assert_eq!(CardReadQuery::default().next_page().next_page().page, 2);
    let last = CardReadQuery { page: i64::MAX - 1, per_page: 1, search_term: String::new() };
    assert_eq!(last.next_page().page, i64::MAX);
}

#[test]
fn queries_compare_by_what_they_hold() {
    let a = CardReadQuery { page: 1, per_page: 36, search_term: String::from("x") };
    assert!(a == a.clone());
    assert!(a != a.next_page());
    assert!(a != a.search(String::from("y")));
    assert!(CardReadQuery::default() == CardReadQuery::default());
}

fn plain_card(id: i32) -> Card {
    Card { id, deck_id: 1, front: format!("f{}", id), back: format!("b{}", id), revision_weight: 1 }
}

#[test]
fn later_pages_are_added_to_what_is_shown() {
    let shown = vec![plain_card(1), plain_card(2)];
    let arrived = vec![plain_card(3)];
    let cards = merge_page(Some(shown), arrived, 1);
    let ids: Vec<i32> = cards.iter().map(|c| c.id).collect();
    assert_eq!(ids, vec![1, 2, 3]);
}

#[test]
fn first_page_replaces_what_is_shown() {
    let cards = merge_page(Some(vec![plain_card(1), plain_card(2)]), vec![plain_card(9)], 0);
    assert_eq!(cards, vec![plain_card(9)]);
    let cards = merge_page(Some(vec![plain_card(1)]), vec![plain_card(9)], -3);
    assert_eq!(cards, vec![plain_card(9)]);
}

#[test]
fn a_page_is_shown_alone_where_nothing_was_shown() {
    let cards = merge_page(None, vec![plain_card(4), plain_card(5)], 3);
    assert_eq!(cards, vec![plain_card(4), plain_card(5)]);
    let cards = merge_page(None, Vec::new(), 0);
    assert!(cards.is_empty());
    let cards = merge_page(Some(Vec::new()), vec![plain_card(4)], 2);
    assert_eq!(cards, vec![plain_card(4)]);
}

#[test]
fn flip_modes_have_lower_case_names() {
    assert_eq!(FlipMode::Front.name(), "front");
    assert_eq!(FlipMode::Back.name(), "back");
    assert_eq!(FlipMode::Both.name(), "both");
}

#[test]
fn flip_modes_are_read_from_their_names() {
    assert!(FlipMode::parse("front") == Some(FlipMode::Front));
    assert!(FlipMode::parse("back") == Some(FlipMode::Back));
    assert!(FlipMode::parse("both") == Some(FlipMode::Both));
    assert!(FlipMode::parse("Front").is_none());
    assert!(FlipMode::parse("").is_none());
    assert!(FlipMode::parse("bot").is_none());
    assert!(FlipMode::parse("both ").is_none());
    for mode in [FlipMode::Front, FlipMode::Back, FlipMode::Both] {
        assert!(FlipMode::parse(mode.name()) == Some(mode));
    }
}

#[test]
fn records_compare_by_what_they_hold() {
    let card = plain_card(3);
    assert!(card == card.clone());
    let mut heavier = card.clone();
    heavier.revision_weight = 2;
    assert!(card != heavier);
    let mut other_text = card.clone();
    other_text.back = String::from("else");
    assert!(card != other_text);

    let shown = RevisionCard { id: 1, deck_id: 2, first: String::from("a"), second: String::from("b") };
    assert!(shown == shown.clone());
    let turned = RevisionCard { id: 1, deck_id: 2, first: String::from("b"), second: String::from("a") };
    assert!(shown != turned);

    let deck = Deck {
        id: 1,
        name: String::from("Paquet"),
        user_id: 5,
        revision_length: 10,
        flip_mode: FlipMode::Both,
    };
    assert!(deck == deck.clone());
    let mut other = deck.clone();
    other.flip_mode = FlipMode::Front;
    assert!(deck != other);
}
