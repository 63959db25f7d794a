use anqui::sampling::{draw_weights, pick_by_ticket, shuffle, swap_items, total, weighted_sample};

#[test]
fn total_adds_up() {
    assert_eq!(total(&vec![]), 0);
    assert_eq!(total(&vec![5]), 5);
    assert_eq!(total(&vec![1, 1, 32767]), 32769);
    assert_eq!(total(&vec![65535, 65535, 65535]), 196605);
}

#[test]
fn ticket_finds_its_stretch() {
    let weights: Vec<u16> = vec![3, 1, 4];
    assert_eq!(pick_by_ticket(&weights, 0), 0);
    assert_eq!(pick_by_ticket(&weights, 1), 0);
    assert_eq!(pick_by_ticket(&weights, 2), 0);
    assert_eq!(pick_by_ticket(&weights, 3), 1);
    assert_eq!(pick_by_ticket(&weights, 4), 2);
    assert_eq!(pick_by_ticket(&weights, 7), 2);
}

#[test]
fn ticket_skips_cards_out_of_play() {
    let weights: Vec<u16> = vec![0, 2, 0, 0, 5, 0];
    assert_eq!(pick_by_ticket(&weights, 0), 1);
    assert_eq!(pick_by_ticket(&weights, 1), 1);
    assert_eq!(pick_by_ticket(&weights, 2), 4);
    assert_eq!(pick_by_ticket(&weights, 6), 4);
}

#[test]
fn each_card_owns_as_many_tickets_as_it_weighs() {
    let weights: Vec<u16> = vec![1, 1, 32767, 10];
    let mut hits = vec![0u32; 4];
    for ticket in 0..total(&weights) {
        hits[pick_by_ticket(&weights, ticket)] += 1;
    }
    assert_eq!(hits, vec![1, 1, 32767, 10]);
}

#[test]
fn draw_weights_are_valid_weights() {
    assert_eq!(draw_weights(&vec![]), Vec::<u16>::new());
    assert_eq!(
        draw_weights(&vec![1, 2, 32767, 0, -1, i16::MIN]),
        vec![1u16, 2, 32767, 1, 1, 1]
    );
}

fn assert_is_sample(picks: &[usize], population: usize, count: usize) {
    assert_eq!(picks.len(), count.min(population));
    let mut seen = vec![false; population];
    for &p in picks {
        assert!(p < population);
        assert!(!seen[p]);
        seen[p] = true;
    }
}

#[test]
fn sample_has_the_asked_size_and_no_repeats() {
    let weights: Vec<i16> = vec![1, 50, 32767, 7, 7, 1, 900, 32767, 2, 3];
    for count in 0..=12 {
        for _ in 0..50 {
            let picks = weighted_sample(&weights, count);
            assert_is_sample(&picks, weights.len(), count);
        }
    }
}

#[test]
fn sample_of_everything_is_everything() {
    let weights: Vec<i16> = vec![5, 1, 32767, 0, -3];
    for _ in 0..50 {
        let mut picks = weighted_sample(&weights, 5);
        picks.sort();
        assert_eq!(picks, vec![0, 1, 2, 3, 4]);
        let mut more = weighted_sample(&weights, usize::MAX);
        more.sort();
        assert_eq!(more, vec![0, 1, 2, 3, 4]);
    }
}

#[test]
fn sample_of_nothing_is_empty() {
    assert_eq!(weighted_sample(&vec![], 0), Vec::<usize>::new());
    assert_eq!(weighted_sample(&vec![], 10), Vec::<usize>::new());
    assert_eq!(weighted_sample(&vec![4, 4], 0), Vec::<usize>::new());
}

#[test]
fn heavy_card_is_drawn_far_more_often() {
    let mut weights: Vec<i16> = vec![1; 10];
    weights[6] = 32767;
    let mut hits = vec![0u32; 10];
    for _ in 0..300 {
        let picks = weighted_sample(&weights, 1);
        assert_eq!(picks.len(), 1);
        hits[picks[0]] += 1;
    }
    assert!(hits[6] >= 270);
    for (i, &h) in hits.iter().enumerate() {
        if i != 6 {
            assert!(h < hits[6]);
        }
    }
}

#[test]
fn heavier_card_is_drawn_more_often() {
    let weights: Vec<i16> = vec![100, 900];
    let mut heavy = 0u32;
    for _ in 0..2000 {
        if weighted_sample(&weights, 1)[0] == 1 {
            heavy += 1;
        }
    }
    assert!(heavy > 1500);
    assert!(heavy < 2000);
}

#[test]
fn swap_exchanges_two_items() {
    let mut items = vec![10, 20, 30, 40];
    swap_items(&mut items, 0, 3);
    assert_eq!(items, vec![40, 20, 30, 10]);
    swap_items(&mut items, 1, 1);
    assert_eq!(items, vec![40, 20, 30, 10]);
    swap_items(&mut items, 2, 1);
    assert_eq!(items, vec![40, 30, 20, 10]);
}

#[test]
fn shuffle_keeps_the_items() {
    for _ in 0..100 {
        let mut items: Vec<usize> = vec![4, 8, 15, 16, 23, 42, 8];
        shuffle(&mut items);
        items.sort();
        assert_eq!(items, vec![4, 8, 8, 15, 16, 23, 42]);
    }
    let mut none: Vec<usize> = vec![];
    shuffle(&mut none);
    assert!(none.is_empty());
    let mut one: Vec<usize> = vec![9];
    shuffle(&mut one);
    assert_eq!(one, vec![9]);
}

#[test]
fn shuffle_reaches_every_order() {
    let mut seen = std::collections::HashSet::new();
    for _ in 0..600 {
        let mut items: Vec<usize> = vec![0, 1, 2];
        shuffle(&mut items);
        seen.insert(items);
    }
    assert_eq!(seen.len(), 6);
}

#[test]
fn shuffle_puts_each_item_first_about_as_often() {
    let mut first = vec![0u32; 4];
    for _ in 0..4000 {
        let mut items: Vec<usize> = vec![0, 1, 2, 3];
        shuffle(&mut items);
        first[items[0]] += 1;
    }
    for &f in &first {
        assert!(f > 700);
        assert!(f < 1300);
    }
}
