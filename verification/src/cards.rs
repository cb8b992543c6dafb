//! Card encoding and the pure card helpers of the Sixty-six rules.
//!
//! A card is `suit * 100 + rank_value`. Suits: Clubs=0, Diamonds=1, Hearts=2,
//! Spades=3. Rank values: A=11, 10=10, K=4, Q=3, J=2, 9=0. Suit and value are
//! read back with Rust's truncating `/` and `%`.

use vstd::prelude::*;
use crate::sort::{sort_by_key, lemma_insert_by_key_at, lemma_sort_by_key_props};

verus! {

pub const CLUBS: i32 = 0;
pub const DIAMONDS: i32 = 1;
pub const HEARTS: i32 = 2;
pub const SPADES: i32 = 3;

/// Whether an integer fits in an `i32`.
pub open spec fn fits_i32(x: int) -> bool {
    i32::MIN <= x <= i32::MAX
}

/// Division by 100 rounding toward zero, as Rust's `/` on integers does.
pub open spec fn div100(c: int) -> int {
    if c >= 0 {
        c / 100
    } else {
        -((-c) / 100)
    }
}

/// The suit a card encodes.
pub open spec fn suit_of(c: int) -> int {
    div100(c)
}

/// The rank value a card encodes (Rust's `%`: the sign follows the card).
pub open spec fn value_of(c: int) -> int {
    c - 100 * div100(c)
}

/// The card of a suit and a rank value.
pub open spec fn card_of(suit: int, rank_val: int) -> int {
    suit * 100 + rank_val
}

/// Whether `hand` holds a card of `suit`.
pub open spec fn holds_suit(hand: Seq<i32>, suit: int) -> bool {
    exists|i: int| 0 <= i < hand.len() && suit_of(hand[i] as int) == suit
}

/// The index of the first occurrence of `x` in `s` (meaningful when `s` holds `x`).
pub open spec fn first_index(s: Seq<i32>, x: i32) -> int {
    choose|j: int| 0 <= j < s.len() && s[j] == x && forall|k: int| 0 <= k < j ==> s[k] != x
}

/// When `s` holds `x`, `first_index` is the position of its first occurrence.
pub proof fn lemma_first_index(s: Seq<i32>, x: i32)
    requires
        s.contains(x),
    ensures
        0 <= first_index(s, x) < s.len(),
        s[first_index(s, x)] == x,
        forall|k: int| 0 <= k < first_index(s, x) ==> s[k] != x,
        remove_first(s, x).len() == s.len() - 1,
    decreases s.len(),
{
    if s[0] == x {
        assert(0 <= 0int < s.len() && s[0] == x && forall|k: int| 0 <= k < 0int ==> s[k] != x);
    } else {
        let t = s.drop_first();
        let i = choose|i: int| 0 <= i < s.len() && s[i] == x;
        assert(t[i - 1] == x);
        lemma_first_index(t, x);
        let j = first_index(t, x) + 1;
        assert(0 <= j < s.len() && s[j] == x && forall|k: int| 0 <= k < j ==> s[k] != x) by {
            assert forall|k: int| 0 <= k < j implies s[k] != x by {
                if k > 0 {
                    assert(s[k] == t[k - 1]);
                }
            }
        }
    }
}

/// `s` without the first occurrence of `x`; `s` itself when `x` does not occur.
pub open spec fn remove_first(s: Seq<i32>, x: i32) -> Seq<i32> {
    if s.contains(x) {
        s.remove(first_index(s, x))
    } else {
        s
    }
}

/// 0 when the lead card takes the trick, 1 when the follower's card does.
pub open spec fn winner_of_trick(lead: i32, follow: i32, trump: i32) -> usize {
    if suit_of(follow as int) == suit_of(lead as int) {
        if value_of(follow as int) > value_of(lead as int) { 1 } else { 0 }
    } else if suit_of(follow as int) == trump && suit_of(lead as int) != trump {
        1
    } else {
        0
    }
}

/// The rank values in deck order: A, 10, K, Q, J, 9.
pub open spec fn rank_at(r: int) -> int {
    if r == 0 { 11 } else if r == 1 { 10 } else if r == 2 { 4 } else if r == 3 { 3 } else if r == 4 { 2 } else { 0 }
}

/// The unshuffled 24-card deck: suits in order, each with ranks A 10 K Q J 9.
pub open spec fn fresh_deck() -> Seq<i32> {
    Seq::new(24, |i: int| (100 * (i / 6) + rank_at(i % 6)) as i32)
}

/// The order in which a hand is kept: by suit, then by rank value.
pub open spec fn hand_order_key(c: i32) -> int {
    200 * suit_of(c as int) + value_of(c as int)
}

/// The key function of the hand order.
pub open spec fn hand_key() -> spec_fn(i32) -> int {
    |c: i32| hand_order_key(c)
}

/// Encodes a card; the arithmetic must not overflow.
pub fn card(suit: i32, rank_val: i32) -> (c: i32)
    requires
        fits_i32(suit * 100),
        fits_i32(card_of(suit as int, rank_val as int)),
    ensures
        c == card_of(suit as int, rank_val as int),
{
    suit * 100 + rank_val
}

/// The suit of a card.
pub fn card_suit(c: i32) -> (s: i32)
    ensures
        s == suit_of(c as int),
{
    c / 100
}

/// The rank value of a card.
pub fn card_val(c: i32) -> (v: i32)
    ensures
        v == value_of(c as int),
        -100 < v < 100,
{
    let q = c / 100;
    let r = c % 100;
    assert(q == div100(c as int));
    assert(r == c - 100 * q);
    r
}

/// The points a card is worth in a trick: its rank value.
pub fn trick_points(c: i32) -> (p: i32)
    ensures
        p == value_of(c as int),
        -100 < p < 100,
{
    card_val(c)
}

/// Whether `hand` holds a card of `suit`.
pub fn has_suit(hand: &[i32], suit: i32) -> (b: bool)
    ensures
        b == holds_suit(hand@, suit as int),
{
    let mut i: usize = 0;
    while i < hand.len()
        invariant
            i <= hand@.len(),
            forall|k: int| 0 <= k < i ==> suit_of(hand@[k] as int) != suit,
        decreases hand@.len() - i,
    {
        if card_suit(hand[i]) == suit {
            return true;
        }
        i = i + 1;
    }
    false
}

/// Whether `hand` holds `c`.
pub fn hand_contains(hand: &[i32], c: i32) -> (b: bool)
    ensures
        b == hand@.contains(c),
{
    let mut i: usize = 0;
    while i < hand.len()
        invariant
            i <= hand@.len(),
            forall|k: int| 0 <= k < i ==> hand@[k] != c,
        decreases hand@.len() - i,
    {
        if hand[i] == c {
            assert(hand@[i as int] == c);
            return true;
        }
        i = i + 1;
    }
    false
}

/// A copy of `hand` without the first occurrence of `card`.
pub fn remove(hand: &[i32], card: i32) -> (r: Vec<i32>)
    ensures
        r@ == remove_first(hand@, card),
{
    let mut result: Vec<i32> = Vec::with_capacity(hand.len());
    let mut removed = false;
    let mut i: usize = 0;
    let ghost mut at: int = 0;
    while i < hand.len()
        invariant
            i <= hand@.len(),
            !removed ==> result@ == hand@.take(i as int),
            !removed ==> forall|k: int| 0 <= k < i ==> hand@[k] != card,
            removed ==> 0 <= at < i && hand@[at] == card,
            removed ==> forall|k: int| 0 <= k < at ==> hand@[k] != card,
            removed ==> result@ == hand@.take(i as int).remove(at),
        decreases hand@.len() - i,
    {
        let c = hand[i];
        if c == card && !removed {
            removed = true;
            proof {
                at = i as int;
                assert(hand@.take(i + 1).remove(at) =~= hand@.take(i as int));
            }
        } else {
            result.push(c);
            proof {
                if removed {
                    assert(hand@.take(i + 1).remove(at) =~= hand@.take(i as int).remove(at).push(c));
                } else {
                    assert(hand@.take(i + 1) =~= hand@.take(i as int).push(c));
                }
            }
        }
        i = i + 1;
    }
    proof {
        assert(hand@.take(hand@.len() as int) =~= hand@);
        if removed {
            assert(hand@.contains(card));
            let j = first_index(hand@, card);
            assert(0 <= j < hand@.len() && hand@[j] == card && forall|k: int| 0 <= k < j ==> hand@[k] != card);
            if j < at {
            } else if at < j {
                assert(hand@[at] == card);
            }
            assert(j == at);
        } else {
            assert(!hand@.contains(card));
        }
    }
    result
}

/// Which card takes the trick: 0 for the lead, 1 for the follower. The
/// higher card of the suit led wins, unless a trump is played to a non-trump lead.
pub fn trick_winner(lead: i32, follow: i32, trump: i32) -> (w: usize)
    ensures
        w == winner_of_trick(lead, follow, trump),
{
    let ls = card_suit(lead);
    let fs = card_suit(follow);
    if fs == ls {
        if card_val(follow) > card_val(lead) {
            return 1;
        }
        return 0;
    }
    if fs == trump && ls != trump {
        return 1;
    }
    0
}

/// The rank value at position `r` of the deck order A, 10, K, Q, J, 9.
fn rank_value(r: usize) -> (v: i32)
    requires
        r < 6,
    ensures
        v == rank_at(r as int),
{
    if r == 0 { 11 } else if r == 1 { 10 } else if r == 2 { 4 } else if r == 3 { 3 } else if r == 4 { 2 } else { 0 }
}

/// The unshuffled 24-card deck.
pub fn new_deck() -> (deck: Vec<i32>)
    ensures
        deck@ == fresh_deck(),
{
    let mut deck: Vec<i32> = Vec::with_capacity(24);
    let mut s: usize = 0;
    while s < 4
        invariant
            s <= 4,
            deck@ == fresh_deck().take(6 * s as int),
        decreases 4 - s,
    {
        let mut r: usize = 0;
        while r < 6
            invariant
                s < 4,
                r <= 6,
                deck@ == fresh_deck().take(6 * s + r as int),
            decreases 6 - r,
        {
            let c = card(s as i32, rank_value(r));
            proof {
                let i = 6 * s + r as int;
                assert(i / 6 == s as int && i % 6 == r as int);
                assert(fresh_deck()[i] == c);
                assert(fresh_deck().take(i + 1) =~= fresh_deck().take(i).push(c));
            }
            deck.push(c);
            r = r + 1;
        }
        s = s + 1;
    }
    assert(fresh_deck().take(24) =~= fresh_deck());
    deck
}

/// The hand sorted by suit, then by rank value (a stable sort).
pub fn sort_hand(hand: &[i32]) -> (r: Vec<i32>)
    ensures
        r@ == sort_by_key(hand@, hand_key()),
{
    let mut res: Vec<i32> = Vec::with_capacity(hand.len());
    let mut i: usize = 0;
    while i < hand.len()
        invariant
            i <= hand@.len(),
            res@ == sort_by_key(hand@.take(i as int), hand_key()),
        decreases hand@.len() - i,
    {
        let x = hand[i];
        let kx = 200 * (card_suit(x) as i64) + (card_val(x) as i64);
        proof {
            lemma_sort_by_key_props(hand@.take(i as int), hand_key());
        }
        let mut j: usize = res.len();
        while j > 0 && 200 * (card_suit(res[j - 1]) as i64) + (card_val(res[j - 1]) as i64) > kx
            invariant
                j <= res@.len(),
                kx == hand_order_key(x),
                forall|k: int| j <= k < res@.len() ==> hand_order_key(#[trigger] res@[k]) > hand_order_key(x),
            decreases j,
        {
            j = j - 1;
        }
        proof {
            let key = hand_key();
            assert forall|k: int| j <= k < res@.len() implies key(#[trigger] res@[k]) > key(x) by {
                assert(hand_order_key(res@[k]) > hand_order_key(x));
            }
            lemma_insert_by_key_at(res@, x, key, j as int);
            assert(hand@.take(i + 1).drop_last() =~= hand@.take(i as int));
            assert(hand@.take(i + 1).last() == x);
        }
        res.insert(j, x);
        i = i + 1;
    }
    assert(hand@.take(hand@.len() as int) =~= hand@);
    res
}

} // verus!
