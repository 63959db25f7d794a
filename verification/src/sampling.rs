//! Drawing cards by weight, without drawing any card twice, and shuffling
//! what was drawn.
//!
//! One draw lays the weights of the cards still in play end to end and asks
//! for a ticket, a number below their total. The card on whose stretch the
//! ticket falls is drawn and leaves the play. A card therefore owns as many
//! tickets as its weight says, and a heavier card is the likelier draw.

use vstd::prelude::*;
use crate::random::random_below;
use crate::revision::{clamp, clamp_weight};

verus! {

/// The sum of `weights`.
pub open spec fn total_weight(weights: Seq<u16>) -> int
    decreases weights.len(),
{
    if weights.len() == 0 {
        0
    } else {
        total_weight(weights.drop_last()) + weights.last() as int
    }
}

/// The sum of the weights in front of `position`.
pub open spec fn weight_before(weights: Seq<u16>, position: int) -> int {
    total_weight(weights.take(position))
}

/// Whether `ticket` falls on the stretch of `position` when the weights are
/// laid end to end.
pub open spec fn ticket_falls_on(weights: Seq<u16>, ticket: int, position: int) -> bool {
    &&& 0 <= position < weights.len()
    &&& weight_before(weights, position) <= ticket
    &&& ticket < weight_before(weights, position) + weights[position] as int
}

/// How many of `weights` are not zero: the cards still in play.
pub open spec fn in_play(weights: Seq<u16>) -> int
    decreases weights.len(),
{
    if weights.len() == 0 {
        0
    } else {
        in_play(weights.drop_last()) + if weights.last() > 0 { 1int } else { 0int }
    }
}

/// The weight with which a card of stored weight `w` takes part in a draw:
/// `w` itself if it is valid, else the nearest valid weight.
pub open spec fn draw_weight(w: i16) -> u16 {
    clamp_weight(w as int) as u16
}

/// The weight in front of the next position is the weight in front of this
/// one plus this one's own.
pub proof fn lemma_weight_before_step(weights: Seq<u16>, position: int)
    requires
        0 <= position < weights.len(),
    ensures
        weight_before(weights, position + 1) == weight_before(weights, position)
            + weights[position] as int,
{
    assert(weights.take(position + 1).drop_last() =~= weights.take(position));
}

/// The weight in front of a position never shrinks as the position moves on,
/// and never exceeds what a `u16` can hold times the number of positions.
pub proof fn lemma_weight_before_grows(weights: Seq<u16>, i: int, j: int)
    requires
        0 <= i <= j <= weights.len(),
    ensures
        0 <= weight_before(weights, i) <= weight_before(weights, j) <= 65535 * j,
    decreases j,
{
    if j == 0 {
        assert(weights.take(0).len() == 0);
    } else if i == j {
        lemma_weight_before_grows(weights, i - 1, j - 1);
        lemma_weight_before_step(weights, j - 1);
    } else {
        lemma_weight_before_grows(weights, i, j - 1);
        lemma_weight_before_step(weights, j - 1);
    }
}

/// A ticket falls on one position only.
pub proof fn lemma_ticket_position_unique(weights: Seq<u16>, ticket: int, i: int, j: int)
    requires
        ticket_falls_on(weights, ticket, i),
        ticket_falls_on(weights, ticket, j),
    ensures
        i == j,
{
    if i < j {
        lemma_weight_before_step(weights, i);
        lemma_weight_before_grows(weights, i + 1, j);
    } else if j < i {
        lemma_weight_before_step(weights, j);
        lemma_weight_before_grows(weights, j + 1, i);
    }
}

/// Every ticket below the total falls on some position, and only a position
/// whose weight is not zero is ever hit.
pub proof fn lemma_ticket_finds_position(weights: Seq<u16>, ticket: int)
    requires
        0 <= ticket < total_weight(weights),
    ensures
        exists|position: int| ticket_falls_on(weights, ticket, position),
        forall|position: int|
            ticket_falls_on(weights, ticket, position) ==> weights[position] > 0,
    decreases weights.len(),
{
    if weights.len() > 0 {
        let head = weights.drop_last();
        let last = weights.len() - 1;
        assert(weights.take(last) =~= head);
        if ticket < total_weight(head) {
            lemma_ticket_finds_position(head, ticket);
            let position = choose|position: int| ticket_falls_on(head, ticket, position);
            assert(head.take(position) =~= weights.take(position));
            assert(ticket_falls_on(weights, ticket, position));
        } else {
            assert(ticket_falls_on(weights, ticket, last));
        }
    }
}

/// The tickets that fall on `position`.
pub open spec fn tickets_of(weights: Seq<u16>, position: int) -> Set<int> {
    Set::new(|ticket: int| ticket_falls_on(weights, ticket, position))
}

/// A position owns as many tickets as its weight says, so that with tickets
/// drawn evenly its chance of being drawn is its share of the total weight.
pub proof fn lemma_tickets_by_weight(weights: Seq<u16>, position: int)
    requires
        0 <= position < weights.len(),
    ensures
        tickets_of(weights, position).finite(),
        tickets_of(weights, position).len() == weights[position],
{
    let low = weight_before(weights, position);
    let high = low + weights[position] as int;
    vstd::set_lib::lemma_int_range(low, high);
    assert(tickets_of(weights, position) =~= vstd::set_lib::set_int_range(low, high));
}

/// Of two positions the heavier owns at least as many tickets.
pub proof fn lemma_heavier_owns_more_tickets(weights: Seq<u16>, lighter: int, heavier: int)
    requires
        0 <= lighter < weights.len(),
        0 <= heavier < weights.len(),
        weights[lighter] <= weights[heavier],
    ensures
        tickets_of(weights, lighter).len() <= tickets_of(weights, heavier).len(),
{
    lemma_tickets_by_weight(weights, lighter);
    lemma_tickets_by_weight(weights, heavier);
}

/// Changing one weight changes the total by the difference.
pub proof fn lemma_total_after_update(weights: Seq<u16>, position: int, weight: u16)
    requires
        0 <= position < weights.len(),
    ensures
        total_weight(weights.update(position, weight)) == total_weight(weights)
            - weights[position] as int + weight as int,
    decreases weights.len(),
{
    let changed = weights.update(position, weight);
    if position == weights.len() - 1 {
        assert(changed.drop_last() =~= weights.drop_last());
    } else {
        assert(changed.drop_last() =~= weights.drop_last().update(position, weight));
        lemma_total_after_update(weights.drop_last(), position, weight);
    }
}

/// Taking a card out of play, by setting its weight to zero, leaves one card
/// fewer in play.
pub proof fn lemma_in_play_after_draw(weights: Seq<u16>, position: int)
    requires
        0 <= position < weights.len(),
        weights[position] > 0,
    ensures
        in_play(weights.update(position, 0u16)) == in_play(weights) - 1,
    decreases weights.len(),
{
    let changed = weights.update(position, 0u16);
    if position == weights.len() - 1 {
        assert(changed.drop_last() =~= weights.drop_last());
    } else {
        assert(changed.drop_last() =~= weights.drop_last().update(position, 0u16));
        lemma_in_play_after_draw(weights.drop_last(), position);
    }
}

/// While a card is in play the total is not zero: each card in play weighs
/// at least one.
pub proof fn lemma_in_play_bounds(weights: Seq<u16>)
    ensures
        0 <= in_play(weights) <= total_weight(weights),
        in_play(weights) <= weights.len(),
        (forall|i: int| 0 <= i < weights.len() ==> weights[i] > 0) ==> in_play(weights)
            == weights.len(),
    decreases weights.len(),
{
    if weights.len() > 0 {
        lemma_in_play_bounds(weights.drop_last());
    }
}

/// The sum of `weights`.
pub fn total(weights: &Vec<u16>) -> (sum: u128)
    ensures
        sum == total_weight(weights@),
{
    let mut sum: u128 = 0;
    let mut i: usize = 0;
    proof {
        lemma_weight_before_grows(weights@, 0, 0);
    }
    while i < weights.len()
        invariant
            i <= weights.len(),
            sum == weight_before(weights@, i as int),
            sum <= 65535 * i,
        decreases weights.len() - i,
    {
        proof {
            lemma_weight_before_step(weights@, i as int);
            lemma_weight_before_grows(weights@, i as int + 1, i as int + 1);
        }
        sum = sum + weights[i] as u128;
        i += 1;
    }
    assert(weights@.take(weights@.len() as int) =~= weights@);
    sum
}

/// The position on whose stretch `ticket` falls.
pub fn pick_by_ticket(weights: &Vec<u16>, ticket: u128) -> (position: usize)
    requires
        ticket < total_weight(weights@),
    ensures
        ticket_falls_on(weights@, ticket as int, position as int),
{
    let mut before: u128 = 0;
    let mut i: usize = 0;
    proof {
        assert(weights@.take(weights@.len() as int) =~= weights@);
        lemma_weight_before_grows(weights@, 0, weights@.len() as int);
    }
    while ticket >= before + weights[i] as u128
        invariant
            i < weights.len(),
            before == weight_before(weights@, i as int),
            before <= ticket,
            ticket < total_weight(weights@),
            total_weight(weights@) == weight_before(weights@, weights@.len() as int),
            total_weight(weights@) <= 65535 * weights.len(),
        decreases weights.len() - i,
    {
        proof {
            lemma_weight_before_step(weights@, i as int);
            lemma_weight_before_grows(weights@, i as int + 1, weights@.len() as int);
        }
        before = before + weights[i] as u128;
        i += 1;
    }
    i
}

/// The weights with which the cards take part in a draw, none of them zero.
pub fn draw_weights(weights: &Vec<i16>) -> (live: Vec<u16>)
    ensures
        live@.len() == weights@.len(),
        forall|i: int| 0 <= i < live@.len() ==> live@[i] == draw_weight(weights@[i]),
        forall|i: int| 0 <= i < live@.len() ==> live@[i] > 0,
{
    let mut live: Vec<u16> = Vec::new();
    let mut i: usize = 0;
    while i < weights.len()
        invariant
            i <= weights.len(),
            live@.len() == i,
            forall|j: int| 0 <= j < i ==> live@[j] == draw_weight(weights@[j]),
            forall|j: int| 0 <= j < i ==> live@[j] > 0,
        decreases weights.len() - i,
    {
        live.push(clamp(weights[i] as i32) as u16);
        i += 1;
    }
    live
}

/// Draws `count` positions by weight, or all of them where there are fewer.
///
/// Each draw takes a ticket below the total weight of the positions still in
/// play and draws the position it falls on, so a position is drawn with a
/// chance in proportion to its weight among those left. A stored weight that
/// is not valid takes part with the nearest valid weight. Which positions
/// come back is left to chance; that none comes back twice is not.
pub fn weighted_sample(weights: &Vec<i16>, count: usize) -> (picks: Vec<usize>)
    ensures
        picks@.len() == if count <= weights@.len() { count as nat } else { weights@.len() },
        forall|k: int| 0 <= k < picks@.len() ==> picks@[k] < weights@.len(),
        picks@.no_duplicates(),
{
    let n = weights.len();
    let target: usize = if count <= n { count } else { n };
    let mut live = draw_weights(weights);
    let mut sum = total(&live);
    let mut picks: Vec<usize> = Vec::new();
    proof {
        lemma_in_play_bounds(live@);
    }
    while picks.len() < target
        invariant
            live@.len() == n,
            target <= n,
            picks@.len() <= target,
            sum == total_weight(live@),
            in_play(live@) + picks@.len() == n,
            forall|k: int| 0 <= k < picks@.len() ==> picks@[k] < n && live@[picks@[k] as int] == 0,
            picks@.no_duplicates(),
        decreases target - picks@.len(),
    {
        proof {
            lemma_in_play_bounds(live@);
        }
        let ticket = random_below(sum);
        let position = pick_by_ticket(&live, ticket);
        let weight = live[position];
        proof {
            lemma_total_after_update(live@, position as int, 0u16);
            lemma_in_play_after_draw(live@, position as int);
            lemma_in_play_bounds(live@.update(position as int, 0u16));
        }
        live.set(position, 0);
        sum = sum - weight as u128;
        picks.push(position);
    }
    picks
}

/// `items` with the items at `i` and `j` exchanged.
pub open spec fn swapped(items: Seq<usize>, i: int, j: int) -> Seq<usize> {
    items.update(i, items[j]).update(j, items[i])
}

/// Whether `draws` can be the draws of one shuffle of `len` items: one draw
/// for each place from the last down to the second, and the draw for a place
/// is that place or one before it.
pub open spec fn shuffle_draws(len: nat, draws: Seq<int>) -> bool {
    &&& draws.len() == if len == 0 { 0 } else { len - 1 }
    &&& forall|k: int| 0 <= k < draws.len() ==> 0 <= #[trigger] draws[k] <= len - 1 - k
}

/// `items` after the first `steps` steps of a shuffle with `draws`: step by
/// step, from the last place down, the item of a place is exchanged with the
/// item of the place drawn for it.
pub open spec fn shuffled_by(items: Seq<usize>, draws: Seq<int>, steps: nat) -> Seq<usize>
    decreases steps,
{
    if steps == 0 {
        items
    } else {
        swapped(
            shuffled_by(items, draws, (steps - 1) as nat),
            items.len() - steps,
            draws[steps - 1],
        )
    }
}

/// The first steps of a shuffle depend on the first draws only.
pub proof fn lemma_shuffled_by_first_draws(
    items: Seq<usize>,
    draws: Seq<int>,
    more: Seq<int>,
    steps: nat,
)
    requires
        steps <= draws.len() <= more.len(),
        forall|k: int| 0 <= k < steps ==> draws[k] == more[k],
    ensures
        shuffled_by(items, draws, steps) == shuffled_by(items, more, steps),
    decreases steps,
{
    if steps > 0 {
        lemma_shuffled_by_first_draws(items, draws, more, (steps - 1) as nat);
    }
}

/// Exchanges the items at `i` and `j`.
pub fn swap_items(items: &mut Vec<usize>, i: usize, j: usize)
    requires
        i < old(items)@.len(),
        j < old(items)@.len(),
    ensures
        final(items)@ == swapped(old(items)@, i as int, j as int),
        final(items)@.to_multiset() == old(items)@.to_multiset(),
{
    let a = items[i];
    let b = items[j];
    proof {
        broadcast use vstd::multiset::group_multiset_axioms;

        let before = items@;
        let halfway = before.update(i as int, b);
        vstd::seq_lib::to_multiset_update(before, i as int, b);
        vstd::seq_lib::to_multiset_update(halfway, j as int, a);
        vstd::seq_lib::to_multiset_contains(before, a);
        vstd::seq_lib::to_multiset_contains(before, b);
        assert(before.contains(a));
        assert(before.contains(b));
        assert(before.to_multiset().insert(b).remove(a).insert(a).remove(b)
            =~= before.to_multiset());
    }
    items.set(i, b);
    items.set(j, a);
}

/// Puts `items` in an order left to chance.
///
/// From the last place down to the second, a place is drawn evenly from
/// those at or before the place in turn, and the items of the two places are
/// exchanged. What comes out is what these exchanges make of `items` for the
/// draws that were taken: the same items, each as often as before. Which
/// draws are taken is left to chance.
pub fn shuffle(items: &mut Vec<usize>)
    ensures
        exists|draws: Seq<int>|
            shuffle_draws(old(items)@.len(), draws) && final(items)@ == shuffled_by(
                old(items)@,
                draws,
                draws.len(),
            ),
        final(items)@.to_multiset() == old(items)@.to_multiset(),
{
    let n: usize = items.len();
    let mut i: usize = n;
    let ghost mut draws: Seq<int> = Seq::empty();
    while i > 1
        invariant
            i <= n,
            n > 0 ==> i >= 1,
            n == old(items)@.len(),
            items@.len() == n,
            draws.len() == n - i,
            forall|k: int| 0 <= k < draws.len() ==> 0 <= #[trigger] draws[k] <= n - 1 - k,
            items@ == shuffled_by(old(items)@, draws, draws.len()),
            items@.to_multiset() == old(items)@.to_multiset(),
        decreases i,
    {
        let j = random_below(i as u128) as usize;
        i -= 1;
        proof {
            lemma_shuffled_by_first_draws(old(items)@, draws, draws.push(j as int), draws.len());
            draws = draws.push(j as int);
        }
        swap_items(items, i, j);
    }
    assert(shuffle_draws(n as nat, draws));
}

} // verus!
