//! Properties of the rules, the engine and the store that span functions or
//! all inputs, proved over the specifications the functions are verified against.

use vstd::prelude::*;
use vstd::multiset::Multiset;
use crate::cards::{
    suit_of, value_of, card_of, holds_suit, remove_first, fresh_deck, hand_key,
    winner_of_trick, lemma_first_index,
};
use crate::engine::{
    time_key, ActionView, EngineErrorView, SessionView, Timestamp, payload_int, ids_unique, has_id,
    position_of, session_with_id, after_update, after_delete, matches_game, matching_sessions,
    created_key, listing, next_session_rules, game_named, has_game, Game, ViewOf,
};
use crate::game::{
    StateView, ACTION_PLAY, ACTION_CLOSE_STOCK, ACTION_DECLARE, ACTION_EXCHANGE, validate_rules,
    apply_rules, apply_defined_rules, play_card,
    card_played, trick_taker, trick_value, trick_gain, hands_after_draw, hands_empty,
    declare_marriage, exchange_trump, trump_nine, dealt_state, first_hand_dealt,
    second_hand_dealt, stock_open, seeded_shuffle, initial_state_for,
};
use crate::sort::{sort_by_key, sorted_by_key, lemma_sort_by_key_props};

verus! {

// ---------------------------------------------------------------------------
// Cards
// ---------------------------------------------------------------------------

/// A card's suit and rank value are read back from its encoding.
pub proof fn law_card_encoding_round_trip(suit: int, rank_val: int)
    requires
        suit >= 0,
        0 <= rank_val < 100,
    ensures
        suit_of(card_of(suit, rank_val)) == suit,
        value_of(card_of(suit, rank_val)) == rank_val,
{
    let c = card_of(suit, rank_val);
    assert(c / 100 == suit) by (nonlinear_arith)
        requires
            c == suit * 100 + rank_val,
            0 <= rank_val < 100,
            suit >= 0,
    ;
}

/// The sum of the rank values of a list of cards.
pub open spec fn total_points(cards: Seq<i32>) -> int
    decreases cards.len(),
{
    if cards.len() == 0 {
        0
    } else {
        total_points(cards.drop_last()) + value_of(cards.last() as int)
    }
}

/// The deck holds 24 distinct cards, six of each suit, worth 120 points in all.
pub proof fn law_fresh_deck()
    ensures
        fresh_deck().len() == 24,
        fresh_deck().no_duplicates(),
        forall|i: int| 0 <= i < 24 ==> 0 <= #[trigger] suit_of(fresh_deck()[i] as int) < 4,
        total_points(fresh_deck()) == 120,
{
    let d = fresh_deck();
    assert forall|i: int| 0 <= i < 24 implies suit_of(#[trigger] d[i] as int) == i / 6 && value_of(
        d[i] as int,
    ) == crate::cards::rank_at(i % 6) by {
        law_card_encoding_round_trip(i / 6, crate::cards::rank_at(i % 6));
    }
    assert forall|i: int, j: int| 0 <= i < j < 24 implies d[i] != d[j] by {
        if d[i] == d[j] {
            assert(i / 6 == j / 6);
            assert(i % 6 == j % 6);
        }
    }
    assert(d =~= seq![
        11i32, 10, 4, 3, 2, 0, 111, 110, 104, 103, 102, 100, 211, 210, 204, 203, 202, 200, 311,
        310, 304, 303, 302, 300,
    ]);
    reveal_with_fuel(total_points, 25);
    assert(total_points(d) == 120);
}

/// The follower takes a trick only with a higher card of the suit led, or
/// with a trump against a lead that is not trump.
pub proof fn law_trick_winner(lead: i32, follow: i32, trump: i32)
    ensures
        winner_of_trick(lead, follow, trump) == 1 <==> ((suit_of(follow as int) == suit_of(
            lead as int,
        ) && value_of(follow as int) > value_of(lead as int)) || (suit_of(follow as int)
            == trump && suit_of(lead as int) != trump)),
{
}

// ---------------------------------------------------------------------------
// Dealing
// ---------------------------------------------------------------------------

/// A deal keeps every card of the deck: the two hands, the stock and the
/// trump card hold exactly the deck's cards; with 24 cards, hands of six and
/// a stock of eleven.
pub proof fn law_deal_keeps_cards(deck: Seq<i32>)
    requires
        deck.len() >= 13,
    ensures
        ({
            let st = dealt_state(deck);
            &&& (st.hands[0] + st.hands[1] + st.stock).push(st.trump_card).to_multiset()
                == deck.to_multiset()
            &&& st.hands[0].len() == 6
            &&& st.hands[1].len() == 6
            &&& st.stock.len() == deck.len() - 13
        }),
{
    broadcast use vstd::seq_lib::group_to_multiset_ensures;
    let st = dealt_state(deck);
    lemma_sort_by_key_props(first_hand_dealt(deck), hand_key());
    lemma_sort_by_key_props(second_hand_dealt(deck), hand_key());
    let a = first_hand_dealt(deck);
    let b = second_hand_dealt(deck);
    let s = deck.subrange(12, deck.len() - 1);
    vstd::seq_lib::lemma_multiset_commutative(st.hands[0], st.hands[1]);
    vstd::seq_lib::lemma_multiset_commutative(st.hands[0] + st.hands[1], s);
    vstd::seq_lib::lemma_multiset_commutative(a, b);
    vstd::seq_lib::lemma_multiset_commutative(a + b, s);
    let p0 = deck.subrange(0, 3);
    let p1 = deck.subrange(3, 6);
    let p2 = deck.subrange(6, 9);
    let p3 = deck.subrange(9, 12);
    vstd::seq_lib::lemma_multiset_commutative(p0, p2);
    vstd::seq_lib::lemma_multiset_commutative(p1, p3);
    let whole = ((p0 + p1) + (p2 + p3)) + s;
    vstd::seq_lib::lemma_multiset_commutative(p0, p1);
    vstd::seq_lib::lemma_multiset_commutative(p2, p3);
    vstd::seq_lib::lemma_multiset_commutative(p0 + p1, p2 + p3);
    vstd::seq_lib::lemma_multiset_commutative((p0 + p1) + (p2 + p3), s);
    assert(whole.push(deck.last()) =~= deck);
    assert(a.to_multiset().add(b.to_multiset()) =~= (p0 + p1).to_multiset().add(
        (p2 + p3).to_multiset(),
    ));
    assert((st.hands[0] + st.hands[1] + st.stock).push(st.trump_card) =~= (st.hands[0]
        + st.hands[1] + s).push(deck.last()));
}

/// The deal for a seed, given that the seeded shuffle keeps the deck's cards
/// (as `SixtySix::initial_state` finds): two sorted hands of six, a stock of
/// eleven and the trump card, together exactly the 24 cards of the deck.
pub proof fn law_initial_deal(seed: i64)
    requires
        seeded_shuffle(seed as u64, fresh_deck()).to_multiset() == fresh_deck().to_multiset(),
    ensures
        ({
            let st = initial_state_for(seed);
            &&& st.hands[0].len() == 6
            &&& st.hands[1].len() == 6
            &&& st.stock.len() == 11
            &&& (st.hands[0] + st.hands[1] + st.stock).push(st.trump_card).to_multiset()
                == fresh_deck().to_multiset()
            &&& sorted_by_key(st.hands[0], hand_key())
            &&& sorted_by_key(st.hands[1], hand_key())
        }),
{
    broadcast use vstd::seq_lib::group_to_multiset_ensures;
    let deck = seeded_shuffle(seed as u64, fresh_deck());
    assert(deck.len() == deck.to_multiset().len());
    assert(fresh_deck().len() == 24);
    law_deal_keeps_cards(deck);
    lemma_sort_by_key_props(first_hand_dealt(deck), hand_key());
    lemma_sort_by_key_props(second_hand_dealt(deck), hand_key());
}

// ---------------------------------------------------------------------------
// Validation
// ---------------------------------------------------------------------------

/// Once a player has won, every action is refused with "game over".
pub proof fn law_game_over_is_final(st: StateView, a: ActionView)
    requires
        st.winner != -1,
    ensures
        validate_rules(st, a) == Err::<(), Seq<char>>("game over"@),
{
}

/// With the stock closed or empty, the follower must follow the suit led when
/// able: an off-suit card is refused when the hand holds the suit led.
pub proof fn law_follow_suit_enforced(st: StateView, a: ActionView, c: i32)
    requires
        st.winner == -1,
        a.action_type == ACTION_PLAY@,
        payload_int(a, "card"@) == Some(c),
        st.hands[st.current as int].contains(c),
        st.trick.len() == 1,
        st.closed || st.stock.len() == 0,
        suit_of(c as int) != suit_of(st.trick[0] as int),
        holds_suit(st.hands[st.current as int], suit_of(st.trick[0] as int)),
    ensures
        validate_rules(st, a) == Err::<(), Seq<char>>("must follow suit"@),
{
}

/// While the stock is open, the follower may play any card held.
pub proof fn law_free_play_while_stock_open(st: StateView, a: ActionView, c: i32)
    requires
        st.winner == -1,
        a.action_type == ACTION_PLAY@,
        payload_int(a, "card"@) == Some(c),
        st.hands[st.current as int].contains(c),
        stock_open(st),
    ensures
        validate_rules(st, a) is Ok,
{
}

// ---------------------------------------------------------------------------
// Applying actions
// ---------------------------------------------------------------------------

/// Playing the second card of a trick resolves it: the trick is emptied, the
/// taker scores the trick's points (plus 10 for the last trick) and leads next.
pub proof fn law_trick_resolution(st: StateView, c: i32)
    requires
        st.trick.len() == 1,
        st.current < 2,
        st.scores.len() == 2,
        st.hands.len() == 2,
    ensures
        ({
            let mid = card_played(st, c);
            let after = play_card(st, c);
            let w = trick_taker(mid);
            &&& after.trick.len() == 0
            &&& after.current == w
            &&& w < 2
            &&& after.scores[w as int] == (st.scores[w as int] + trick_gain(mid)) as i32
            &&& after.scores[1 - w] == st.scores[1 - w]
        }),
{
}

/// With the stock closed, a trick is resolved without drawing: the stock and
/// the hands stay as they were after the card was played.
pub proof fn law_closed_stock_no_draw(st: StateView, c: i32)
    requires
        st.closed,
        st.trick.len() == 1,
        st.current < 2,
        st.hands.len() == 2,
    ensures
        play_card(st, c).stock == st.stock,
        play_card(st, c).hands == card_played(st, c).hands,
{
}

/// The last trick, after which both hands are empty, is worth 10 more points.
pub proof fn law_last_trick_bonus(st: StateView, c: i32)
    requires
        st.trick.len() == 1,
        st.current < 2,
        st.scores.len() == 2,
        st.hands.len() == 2,
        hands_empty(play_card(st, c).hands),
    ensures
        trick_gain(card_played(st, c)) == trick_value(card_played(st, c)) + 10,
{
    let mid = card_played(st, c);
    assert(hands_after_draw(mid, trick_taker(mid)) == play_card(st, c).hands);
}

/// Leading a card passes the turn to the other player and keeps scores.
pub proof fn law_lead_passes_turn(st: StateView, c: i32)
    requires
        st.trick.len() == 0,
        st.current < 2,
        st.hands.len() == 2,
    ensures
        play_card(st, c).current == 1 - st.current,
        play_card(st, c).trick == seq![c],
        play_card(st, c).scores == st.scores,
        play_card(st, c).hands[st.current as int] == remove_first(st.hands[st.current as int], c),
{
    assert(st.trick.push(c) =~= seq![c]);
}

/// A marriage is worth 40 in trump and 20 otherwise, to the player to act.
pub proof fn law_marriage_points(st: StateView, suit: i32)
    requires
        st.current < 2,
        st.scores.len() == 2,
        crate::cards::fits_i32(st.scores[st.current as int] + 40),
    ensures
        declare_marriage(st, suit).scores[st.current as int] == st.scores[st.current as int]
            + if suit == st.trump_suit { 40int } else { 20int },
        declare_marriage(st, suit).scores[1 - st.current] == st.scores[1 - st.current],
{
}

/// Exchanging puts the nine of trump face up and the old trump card in the
/// hand: the hand keeps its size when it held the nine.
pub proof fn law_exchange_trump(st: StateView)
    requires
        st.current < 2,
        st.hands.len() == 2,
        st.hands[st.current as int].contains(trump_nine(st)),
        st.trump_suit >= 0,
        crate::cards::fits_i32(st.trump_suit * 100),
    ensures
        suit_of(exchange_trump(st).trump_card as int) == exchange_trump(st).trump_suit,
        value_of(exchange_trump(st).trump_card as int) == 0,
        exchange_trump(st).hands[st.current as int].contains(st.trump_card),
        exchange_trump(st).hands[st.current as int].len() == st.hands[st.current as int].len(),
{
    law_card_encoding_round_trip(st.trump_suit as int, 0);
    lemma_first_index(st.hands[st.current as int], trump_nine(st));
    let h = remove_first(st.hands[st.current as int], trump_nine(st)).push(st.trump_card);
    assert(h[h.len() - 1] == st.trump_card);
}

/// Exchanging keeps the cards: the hand and the face-up card together hold
/// the same cards before and after.
pub proof fn law_exchange_keeps_cards(st: StateView)
    requires
        st.current < 2,
        st.hands.len() == 2,
        st.hands[st.current as int].contains(trump_nine(st)),
    ensures
        exchange_trump(st).hands[st.current as int].push(exchange_trump(st).trump_card).to_multiset()
            == st.hands[st.current as int].push(st.trump_card).to_multiset(),
{
    broadcast use vstd::seq_lib::group_to_multiset_ensures;
    broadcast use vstd::multiset::group_multiset_axioms;
    let h = st.hands[st.current as int];
    let nine = trump_nine(st);
    lemma_first_index(h, nine);
    let j = crate::cards::first_index(h, nine);
    assert(h.remove(j).to_multiset() == h.to_multiset().remove(nine));
    assert(h.to_multiset().count(nine) > 0);
    assert(h.to_multiset().remove(nine).insert(st.trump_card).insert(nine) =~= h.to_multiset().insert(
        st.trump_card,
    ));
}

/// Playing a held card moves it from the hand to the trick: hand and trick
/// together hold the same cards.
pub proof fn law_play_moves_card(st: StateView, c: i32)
    requires
        st.current < 2,
        st.hands.len() == 2,
        st.hands[st.current as int].contains(c),
    ensures
        (card_played(st, c).hands[st.current as int] + card_played(st, c).trick).to_multiset()
            == (st.hands[st.current as int] + st.trick).to_multiset(),
{
    broadcast use vstd::seq_lib::group_to_multiset_ensures;
    broadcast use vstd::multiset::group_multiset_axioms;
    let h = st.hands[st.current as int];
    lemma_first_index(h, c);
    let j = crate::cards::first_index(h, c);
    let h2 = remove_first(h, c);
    vstd::seq_lib::lemma_multiset_commutative(h2, st.trick.push(c));
    vstd::seq_lib::lemma_multiset_commutative(h, st.trick);
    assert(h2.to_multiset() == h.to_multiset().remove(c));
    assert(h.to_multiset().count(c) > 0);
    assert(h.to_multiset().remove(c).add(st.trick.to_multiset().insert(c)) =~= h.to_multiset().add(
        st.trick.to_multiset(),
    ));
}

/// The cards still in play: both hands, the stock, the trick and the
/// face-up trump card.
pub open spec fn cards_in_play(st: StateView) -> Multiset<i32> {
    st.hands[0].to_multiset().add(st.hands[1].to_multiset()).add(st.stock.to_multiset()).add(
        st.trick.to_multiset(),
    ).insert(st.trump_card)
}

/// The cards an action takes out of play: the two cards of a trick that it
/// completes, none otherwise.
pub open spec fn cards_captured(st: StateView, a: ActionView) -> Multiset<i32> {
    if a.action_type == ACTION_PLAY@ && st.trick.len() == 1 {
        seq![st.trick[0], payload_int(a, "card"@).unwrap()].to_multiset()
    } else {
        Multiset::empty()
    }
}

/// A valid action neither creates nor loses a card: the cards in play after
/// it, together with the cards of a trick it completes, are the cards in play
/// before.
pub proof fn law_cards_kept(st: StateView, a: ActionView)
    requires
        st.current < 2,
        st.hands.len() == 2,
        validate_rules(st, a) is Ok,
        apply_rules(st, a) is Ok,
    ensures
        cards_in_play(apply_rules(st, a)->Ok_0).add(cards_captured(st, a)) == cards_in_play(st),
{
    broadcast use vstd::seq_lib::group_to_multiset_ensures;
    broadcast use vstd::multiset::group_multiset_axioms;
    let after = apply_rules(st, a)->Ok_0;
    if a.action_type == ACTION_PLAY@ {
        let c = payload_int(a, "card"@).unwrap();
        let h = st.hands[st.current as int];
        lemma_first_index(h, c);
        let mid = card_played(st, c);
        let mh = remove_first(h, c);
        assert(mh.to_multiset() == h.to_multiset().remove(c));
        assert(h.to_multiset().count(c) > 0);
        assert(mid.hands[0].to_multiset().add(mid.hands[1].to_multiset()).add(
            mid.trick.to_multiset(),
        ) =~= st.hands[0].to_multiset().add(st.hands[1].to_multiset()).add(st.trick.to_multiset()));
        assert(cards_in_play(mid) =~= cards_in_play(st));
        if st.trick.len() == 1 {
            let w = trick_taker(mid);
            let hs = hands_after_draw(mid, w);
            assert(mid.trick =~= seq![st.trick[0], c]);
            if stock_open(mid) && mid.stock.len() >= 2 {
                let s0 = mid.stock[0];
                let s1 = mid.stock[1];
                assert(mid.stock =~= seq![s0, s1] + mid.stock.skip(2));
                vstd::seq_lib::lemma_multiset_commutative(seq![s0, s1], mid.stock.skip(2));
                assert(seq![s0, s1] =~= seq![s0].push(s1));
                assert(seq![s0] =~= Seq::<i32>::empty().push(s0));
                assert(hs[w as int].to_multiset() == mid.hands[w as int].to_multiset().insert(s0));
                assert(hs[1 - w].to_multiset() == mid.hands[1 - w].to_multiset().insert(s1));
                if w == 0 {
                    assert(cards_in_play(after).add(mid.trick.to_multiset()) =~= cards_in_play(mid));
                } else {
                    assert(cards_in_play(after).add(mid.trick.to_multiset()) =~= cards_in_play(mid));
                }
            } else if stock_open(mid) {
                let s0 = mid.stock[0];
                assert(mid.stock =~= Seq::<i32>::empty().push(s0));
                assert(hs[w as int].to_multiset() == mid.hands[w as int].to_multiset().insert(s0));
                if w == 0 {
                    assert(hs[1] == mid.hands[1]);
                    assert(cards_in_play(after).add(mid.trick.to_multiset()) =~= cards_in_play(mid));
                } else {
                    assert(hs[0] == mid.hands[0]);
                    assert(cards_in_play(after).add(mid.trick.to_multiset()) =~= cards_in_play(mid));
                }
            } else {
                assert(cards_in_play(after).add(mid.trick.to_multiset()) =~= cards_in_play(mid));
            }
        } else {
            assert(cards_in_play(after) =~= cards_in_play(mid));
        }
    } else if a.action_type == ACTION_CLOSE_STOCK@ {
        assert(cards_in_play(after) =~= cards_in_play(st));
    } else if a.action_type == ACTION_DECLARE@ {
        assert(cards_in_play(after) =~= cards_in_play(st));
    } else {
        let h = st.hands[st.current as int];
        let nine = trump_nine(st);
        lemma_first_index(h, nine);
        assert(h.to_multiset().count(nine) > 0);
        let nh = remove_first(h, nine).push(st.trump_card);
        assert(nh.to_multiset() == h.to_multiset().remove(nine).insert(st.trump_card));
        assert(cards_in_play(after) =~= cards_in_play(st));
    }
}

/// Once the player to act holds no card, no card can be played: every play
/// is refused.
pub proof fn law_no_play_from_empty_hand(st: StateView, a: ActionView)
    requires
        st.hands[st.current as int].len() == 0,
        a.action_type == ACTION_PLAY@,
    ensures
        validate_rules(st, a) is Err,
{
}

/// Scores never go down when the cards in play have non-negative values (as
/// every card of the deck has).
pub proof fn law_scores_never_decrease(st: StateView, a: ActionView)
    requires
        st.current < 2,
        st.scores.len() == 2,
        st.hands.len() == 2,
        apply_defined_rules(st, a),
        forall|i: int| 0 <= i < st.trick.len() ==> #[trigger] st.trick[i] >= 0,
        a.action_type == ACTION_PLAY@ ==> payload_int(a, "card"@).unwrap() >= 0,
        apply_rules(st, a) is Ok,
    ensures
        apply_rules(st, a)->Ok_0.scores[0] >= st.scores[0],
        apply_rules(st, a)->Ok_0.scores[1] >= st.scores[1],
{
    if a.action_type == ACTION_PLAY@ {
        let c = payload_int(a, "card"@).unwrap();
        let mid = card_played(st, c);
        if mid.trick.len() == 2 {
            assert(mid.trick[0] >= 0 && mid.trick[1] >= 0);
            assert(value_of(mid.trick[0] as int) >= 0);
            assert(value_of(mid.trick[1] as int) >= 0);
        }
    }
}

/// A player is declared the winner only on reaching 66 points.
pub proof fn law_winner_has_66(st: StateView, a: ActionView)
    requires
        st.winner == -1,
        st.current < 2,
        st.scores.len() == 2,
        st.hands.len() == 2,
        apply_defined_rules(st, a),
        apply_rules(st, a) is Ok,
        apply_rules(st, a)->Ok_0.winner != -1,
    ensures
        0 <= apply_rules(st, a)->Ok_0.winner < 2,
        apply_rules(st, a)->Ok_0.scores[apply_rules(st, a)->Ok_0.winner as int] >= 66,
{
}

// ---------------------------------------------------------------------------
// Engine
// ---------------------------------------------------------------------------

/// Each applied action advances the version by one and keeps the session's
/// id, game and creation time.
pub proof fn law_version_advances<G: Game>(
    games: Seq<G>,
    s: SessionView<ViewOf<G>>,
    a: ActionView,
    now: Timestamp,
)
    requires
        next_session_rules(games, s, a, now) is Ok,
        s.version < u64::MAX,
    ensures
        ({
            let n = next_session_rules(games, s, a, now)->Ok_0;
            &&& n.version == s.version + 1
            &&& n.id == s.id
            &&& n.game_name == s.game_name
            &&& n.created_at == s.created_at
            &&& n.updated_at == now
        }),
{
}

/// An action the game refuses leaves no new session, and the refusal is the
/// game's message.
pub proof fn law_refused_action<G: Game>(
    games: Seq<G>,
    s: SessionView<ViewOf<G>>,
    a: ActionView,
    now: Timestamp,
)
    requires
        has_game(games, s.game_name),
        game_named(games, s.game_name).spec_validate(s.state, a) matches Err(m),
    ensures
        next_session_rules(games, s, a, now) == Err::<SessionView<ViewOf<G>>, EngineErrorView>(
            EngineErrorView::Validation(
                game_named(games, s.game_name).spec_validate(s.state, a)->Err_0,
            ),
        ),
{
}

// ---------------------------------------------------------------------------
// Store
// ---------------------------------------------------------------------------

/// The position of an id is the one index holding it when ids are distinct.
proof fn lemma_position_of<V>(s: Seq<SessionView<V>>, i: int)
    requires
        ids_unique(s),
        0 <= i < s.len(),
    ensures
        has_id(s, s[i].id),
        position_of(s, s[i].id) == i,
{
    let j = position_of(s, s[i].id);
    if j != i {
        if j < i {
            assert(s[j].id != s[i].id);
        } else {
            assert(s[i].id != s[j].id);
        }
    }
}

/// A created session is read back as created; other sessions are unchanged.
pub proof fn law_read_after_create<V>(s: Seq<SessionView<V>>, x: SessionView<V>, other: Seq<char>)
    requires
        ids_unique(s),
        !has_id(s, x.id),
    ensures
        ids_unique(s.push(x)),
        session_with_id(s.push(x), x.id) == Some(x),
        other != x.id ==> session_with_id(s.push(x), other) == session_with_id(s, other),
{
    let t = s.push(x);
    assert(ids_unique(t));
    lemma_position_of(t, s.len() as int);
    if other != x.id && has_id(s, other) {
        let i = position_of(s, other);
        lemma_position_of(s, i);
        lemma_position_of(t, i);
    }
    if other != x.id && has_id(t, other) {
        let i = position_of(t, other);
        assert(s[i].id == other);
    }
}

/// An updated session is read back as updated; other sessions are unchanged.
pub proof fn law_read_after_update<V>(s: Seq<SessionView<V>>, x: SessionView<V>, other: Seq<char>)
    requires
        ids_unique(s),
        has_id(s, x.id),
    ensures
        ids_unique(after_update(s, x)),
        session_with_id(after_update(s, x), x.id) == Some(x),
        other != x.id ==> session_with_id(after_update(s, x), other) == session_with_id(s, other),
{
    let p = position_of(s, x.id);
    let t = after_update(s, x);
    assert forall|i: int, j: int| 0 <= i < j < t.len() implies t[i].id != t[j].id by {
        if i == p {
            lemma_position_of(s, j);
        } else if j == p {
            lemma_position_of(s, i);
        }
    }
    lemma_position_of(t, p);
    if other != x.id && has_id(s, other) {
        let i = position_of(s, other);
        lemma_position_of(s, i);
        lemma_position_of(t, i);
    }
    if other != x.id && has_id(t, other) {
        let i = position_of(t, other);
        assert(s[i].id == other);
    }
}

/// A deleted session is no longer found; other sessions are unchanged.
pub proof fn law_read_after_delete<V>(s: Seq<SessionView<V>>, id: Seq<char>, other: Seq<char>)
    requires
        ids_unique(s),
        has_id(s, id),
    ensures
        ids_unique(after_delete(s, id)),
        session_with_id(after_delete(s, id), id) == None::<SessionView<V>>,
        other != id ==> session_with_id(after_delete(s, id), other) == session_with_id(s, other),
{
    let p = position_of(s, id);
    let t = after_delete(s, id);
    assert forall|i: int, j: int| 0 <= i < j < t.len() implies t[i].id != t[j].id by {
        let i2 = if i < p { i } else { i + 1 };
        let j2 = if j < p { j } else { j + 1 };
        assert(t[i] == s[i2] && t[j] == s[j2]);
    }
    if has_id(t, id) {
        let i = position_of(t, id);
        let i2 = if i < p { i } else { i + 1 };
        assert(s[i2].id == id);
        lemma_position_of(s, i2);
    }
    if other != id && has_id(s, other) {
        let i = position_of(s, other);
        lemma_position_of(s, i);
        let i2 = if i < p { i } else { i - 1 };
        assert(t[i2] == s[i]);
        lemma_position_of(t, i2);
    }
    if other != id && has_id(t, other) {
        let i = position_of(t, other);
        let i2 = if i < p { i } else { i + 1 };
        assert(s[i2].id == other);
    }
}

/// Every session in a listing belongs to the game asked for (or the name was
/// empty).
proof fn lemma_matching_sessions<V>(s: Seq<SessionView<V>>, g: Seq<char>)
    ensures
        forall|i: int| 0 <= i < matching_sessions(s, g).len() ==> matches_game(
            #[trigger] matching_sessions(s, g)[i],
            g,
        ),
        matching_sessions(s, g).len() <= s.len(),
    decreases s.len(),
{
    if s.len() > 0 {
        lemma_matching_sessions(s.drop_last(), g);
    }
}

/// A listing is oldest first and holds only sessions of the game asked for;
/// the whole listing (offset 0, no limit) holds every such session once.
pub proof fn law_listing<V>(s: Seq<SessionView<V>>, g: Seq<char>, offset: int, limit: int)
    requires
        offset >= 0,
        limit >= 0,
    ensures
        sorted_by_key(listing(s, g, offset, limit), created_key()),
        forall|i: int| 0 <= i < listing(s, g, offset, limit).len() ==> matches_game(
            #[trigger] listing(s, g, offset, limit)[i],
            g,
        ),
        listing(s, g, 0, 0).to_multiset() == matching_sessions(s, g).to_multiset(),
{
    broadcast use vstd::seq_lib::group_to_multiset_ensures;
    let m = matching_sessions(s, g);
    let all = sort_by_key(m, created_key());
    lemma_sort_by_key_props(m, created_key());
    lemma_matching_sessions(s, g);
    let l = listing(s, g, offset, limit);
    if offset < all.len() {
        let end = crate::engine::page_end(all.len() as int, offset, limit);
        assert forall|i: int| 0 <= i < l.len() implies matches_game(#[trigger] l[i], g) by {
            assert(l[i] == all[offset + i]);
            assert(all.contains(all[offset + i]));
            assert(all.to_multiset().count(all[offset + i]) > 0);
            assert(m.to_multiset().count(all[offset + i]) > 0);
            assert(m.contains(all[offset + i]));
            let k = choose|k: int| 0 <= k < m.len() && m[k] == all[offset + i];
            assert(matches_game(m[k], g));
        }
    }
    if all.len() > 0 {
        assert(listing(s, g, 0, 0) =~= all);
    } else {
        assert(listing(s, g, 0, 0) =~= all);
    }
}


// ---------------------------------------------------------------------------
// What each action does, in terms of the cards, scores and turn
// ---------------------------------------------------------------------------

/// The action names are distinct.
proof fn lemma_action_names_distinct()
    ensures
        ACTION_PLAY@ != ACTION_CLOSE_STOCK@,
        ACTION_PLAY@ != ACTION_DECLARE@,
        ACTION_PLAY@ != ACTION_EXCHANGE@,
        ACTION_CLOSE_STOCK@ != ACTION_DECLARE@,
        ACTION_CLOSE_STOCK@ != ACTION_EXCHANGE@,
        ACTION_DECLARE@ != ACTION_EXCHANGE@,
{
    reveal_strlit("play");
    reveal_strlit("closeStock");
    reveal_strlit("declare");
    reveal_strlit("exchangeTrump");
    assert(ACTION_PLAY@.len() != ACTION_CLOSE_STOCK@.len());
    assert(ACTION_PLAY@.len() != ACTION_EXCHANGE@.len());
    assert(ACTION_PLAY@[0] != ACTION_DECLARE@[0]);
    assert(ACTION_CLOSE_STOCK@.len() != ACTION_DECLARE@.len());
    assert(ACTION_CLOSE_STOCK@.len() != ACTION_EXCHANGE@.len());
    assert(ACTION_DECLARE@.len() != ACTION_EXCHANGE@.len());
}

/// Completing a trick: the follower's card `c` answers the lead. The card
/// that takes the trick is the higher card of the suit led, or a trump on a
/// lead that is not trump; its player takes the points of both cards (10 more
/// when both hands are then empty), leads next, and wins the deal on reaching
/// 66. The other player's score is unchanged and the trick is emptied.
pub proof fn law_completed_trick(st: StateView, a: ActionView)
    requires
        a.action_type == ACTION_PLAY@,
        st.trick.len() == 1,
        st.current < 2,
        st.hands.len() == 2,
        st.scores.len() == 2,
        apply_defined_rules(st, a),
    ensures
        ({
            let c = payload_int(a, "card"@).unwrap();
            let lead = st.trick[0];
            let follower_takes = (suit_of(c as int) == suit_of(lead as int) && value_of(c as int)
                > value_of(lead as int)) || (suit_of(c as int) == st.trump_suit && suit_of(
                lead as int,
            ) != st.trump_suit);
            let w: int = if follower_takes { st.current as int } else { 1 - st.current };
            let after = apply_rules(st, a)->Ok_0;
            let bonus: int = if after.hands[0].len() == 0 && after.hands[1].len() == 0 {
                10
            } else {
                0
            };
            &&& apply_rules(st, a) is Ok
            &&& after.current == w
            &&& after.trick.len() == 0
            &&& after.scores[w] == st.scores[w] + value_of(lead as int) + value_of(c as int) + bonus
            &&& after.scores[1 - w] == st.scores[1 - w]
            &&& after.scores[w] >= 66 ==> after.winner == w
            &&& after.scores[w] < 66 ==> after.winner == st.winner
            &&& after.closed == st.closed
            &&& after.trump_suit == st.trump_suit
            &&& after.trump_card == st.trump_card
        }),
{
    let c = payload_int(a, "card"@).unwrap();
    let mid = card_played(st, c);
    assert(mid.trick[0] == st.trick[0] && mid.trick[1] == c);
    law_trick_winner(st.trick[0], c, st.trump_suit);
}

/// Completing a trick draws from an open stock: the taker draws the top card,
/// then the other player the next (the taker alone when one card is left);
/// a closed or empty stock is not drawn from.
pub proof fn law_completed_trick_draws(st: StateView, a: ActionView)
    requires
        a.action_type == ACTION_PLAY@,
        st.trick.len() == 1,
        st.current < 2,
        st.hands.len() == 2,
        st.scores.len() == 2,
        apply_defined_rules(st, a),
    ensures
        ({
            let c = payload_int(a, "card"@).unwrap();
            let after = apply_rules(st, a)->Ok_0;
            let w = after.current as int;
            let hand_played = remove_first(st.hands[st.current as int], c);
            let before_draw = |p: int| if p == st.current { hand_played } else { st.hands[p] };
            &&& w == 0 || w == 1
            &&& (st.closed || st.stock.len() == 0) ==> {
                &&& after.stock == st.stock
                &&& after.hands[w] == before_draw(w)
                &&& after.hands[1 - w] == before_draw(1 - w)
            }
            &&& (!st.closed && st.stock.len() >= 2) ==> {
                &&& after.stock == st.stock.subrange(2, st.stock.len() as int)
                &&& after.hands[w] == before_draw(w).push(st.stock[0])
                &&& after.hands[1 - w] == before_draw(1 - w).push(st.stock[1])
            }
            &&& (!st.closed && st.stock.len() == 1) ==> {
                &&& after.stock.len() == 0
                &&& after.hands[w] == before_draw(w).push(st.stock[0])
                &&& after.hands[1 - w] == before_draw(1 - w)
            }
        }),
{
}

/// Leading a card: the card leaves the hand of the player to act and starts
/// the trick; the turn passes to the other player; scores, stock and winner
/// are unchanged.
pub proof fn law_lead_card(st: StateView, a: ActionView)
    requires
        a.action_type == ACTION_PLAY@,
        st.trick.len() == 0,
        st.current < 2,
        st.hands.len() == 2,
        apply_defined_rules(st, a),
    ensures
        ({
            let c = payload_int(a, "card"@).unwrap();
            let after = apply_rules(st, a)->Ok_0;
            &&& apply_rules(st, a) is Ok
            &&& after.trick == seq![c]
            &&& after.current == 1 - st.current
            &&& after.hands[st.current as int] == remove_first(st.hands[st.current as int], c)
            &&& after.hands[1 - st.current] == st.hands[1 - st.current]
            &&& after.scores == st.scores
            &&& after.stock == st.stock
            &&& after.winner == st.winner
            &&& after.closed == st.closed
        }),
{
    assert(st.trick.push(payload_int(a, "card"@).unwrap()) =~= seq![payload_int(a, "card"@).unwrap()]);
}

/// A play is accepted exactly when the game is not over, the card is given
/// and held by the player to act, and, when it answers a lead after the stock
/// is closed or empty, it follows the suit led or the hand holds none of it.
pub proof fn law_play_accepted(st: StateView, a: ActionView)
    requires
        a.action_type == ACTION_PLAY@,
    ensures
        validate_rules(st, a) is Ok <==> {
            &&& st.winner == -1
            &&& payload_int(a, "card"@) is Some
            &&& st.hands[st.current as int].contains(payload_int(a, "card"@).unwrap())
            &&& (st.trick.len() == 1 && (st.closed || st.stock.len() == 0)) ==> (suit_of(
                payload_int(a, "card"@).unwrap() as int,
            ) == suit_of(st.trick[0] as int) || !holds_suit(
                st.hands[st.current as int],
                suit_of(st.trick[0] as int),
            ))
        },
{
}

/// Closing the stock is accepted exactly when the game is not over, the stock
/// is neither closed nor empty, and no trick is under way.
pub proof fn law_close_accepted(st: StateView, a: ActionView)
    requires
        a.action_type == ACTION_CLOSE_STOCK@,
    ensures
        validate_rules(st, a) is Ok <==> (st.winner == -1 && !st.closed && st.stock.len() > 0
            && st.trick.len() == 0),
{
    lemma_action_names_distinct();
}

/// Closing the stock changes nothing but `closed`: the same player leads, and
/// hands, stock, trick, scores, trump and winner stay as they were.
pub proof fn law_close_stock(st: StateView, a: ActionView)
    requires
        a.action_type == ACTION_CLOSE_STOCK@,
    ensures
        apply_rules(st, a) is Ok,
        apply_rules(st, a)->Ok_0.closed,
        apply_rules(st, a)->Ok_0.current == st.current,
        apply_rules(st, a)->Ok_0.hands == st.hands,
        apply_rules(st, a)->Ok_0.stock == st.stock,
        apply_rules(st, a)->Ok_0.trick == st.trick,
        apply_rules(st, a)->Ok_0.scores == st.scores,
        apply_rules(st, a)->Ok_0.trump_suit == st.trump_suit,
        apply_rules(st, a)->Ok_0.trump_card == st.trump_card,
        apply_rules(st, a)->Ok_0.winner == st.winner,
{
    lemma_action_names_distinct();
}

/// A marriage is accepted exactly when the game is not over, a suit is given,
/// the player to act holds both the king (value 4) and the queen (value 3) of
/// that suit, and no trick is under way.
pub proof fn law_declare_accepted(st: StateView, a: ActionView)
    requires
        a.action_type == ACTION_DECLARE@,
    ensures
        validate_rules(st, a) is Ok <==> {
            &&& st.winner == -1
            &&& payload_int(a, "suit"@) is Some
            &&& st.hands[st.current as int].contains(
                (payload_int(a, "suit"@).unwrap() * 100 + 4) as i32,
            )
            &&& st.hands[st.current as int].contains(
                (payload_int(a, "suit"@).unwrap() * 100 + 3) as i32,
            )
            &&& st.trick.len() == 0
        },
{
    lemma_action_names_distinct();
}

/// Declaring a marriage scores 40 in trump and 20 otherwise for the player to
/// act, who wins on reaching 66; nothing else changes.
pub proof fn law_declare_scores(st: StateView, a: ActionView)
    requires
        a.action_type == ACTION_DECLARE@,
        st.current < 2,
        st.scores.len() == 2,
        apply_defined_rules(st, a),
    ensures
        ({
            let s = payload_int(a, "suit"@).unwrap();
            let p = st.current as int;
            let after = apply_rules(st, a)->Ok_0;
            &&& apply_rules(st, a) is Ok
            &&& after.scores[p] == st.scores[p] + if s == st.trump_suit { 40int } else { 20int }
            &&& after.scores[1 - p] == st.scores[1 - p]
            &&& after.scores[p] >= 66 ==> after.winner == p
            &&& after.scores[p] < 66 ==> after.winner == st.winner
            &&& after.current == st.current
            &&& after.hands == st.hands
            &&& after.stock == st.stock
            &&& after.trick == st.trick
            &&& after.closed == st.closed
            &&& after.trump_card == st.trump_card
        }),
{
    lemma_action_names_distinct();
}

/// The exchange is accepted exactly when the game is not over, the stock is
/// neither closed nor empty, no trick is under way, and the player to act
/// holds the nine (value 0) of trump.
pub proof fn law_exchange_accepted(st: StateView, a: ActionView)
    requires
        a.action_type == ACTION_EXCHANGE@,
    ensures
        validate_rules(st, a) is Ok <==> {
            &&& st.winner == -1
            &&& !st.closed
            &&& st.stock.len() > 0
            &&& st.trick.len() == 0
            &&& st.hands[st.current as int].contains((st.trump_suit * 100) as i32)
        },
{
    lemma_action_names_distinct();
}

/// The exchange puts the nine of trump face up and the former face-up card in
/// the hand of the player to act, in place of the nine; the same player acts
/// next and nothing else changes.
pub proof fn law_exchange_result(st: StateView, a: ActionView)
    requires
        a.action_type == ACTION_EXCHANGE@,
        st.current < 2,
        st.hands.len() == 2,
    ensures
        ({
            let p = st.current as int;
            let nine = (st.trump_suit * 100) as i32;
            let after = apply_rules(st, a)->Ok_0;
            &&& apply_rules(st, a) is Ok
            &&& after.trump_card == nine
            &&& after.hands[p] == remove_first(st.hands[p], nine).push(st.trump_card)
            &&& after.hands[1 - p] == st.hands[1 - p]
            &&& after.current == st.current
            &&& after.scores == st.scores
            &&& after.stock == st.stock
            &&& after.trick == st.trick
            &&& after.closed == st.closed
            &&& after.winner == st.winner
        }),
{
    lemma_action_names_distinct();
}

/// A listing is ordered by creation time: earlier sessions come first.
pub proof fn law_listing_by_creation<V>(s: Seq<SessionView<V>>, g: Seq<char>, offset: int, limit: int)
    requires
        offset >= 0,
        limit >= 0,
    ensures
        forall|i: int, j: int|
            0 <= i <= j < listing(s, g, offset, limit).len() ==> time_key(
                #[trigger] listing(s, g, offset, limit)[i].created_at,
            ) <= time_key(#[trigger] listing(s, g, offset, limit)[j].created_at),
{
    law_listing(s, g, offset, limit);
    let l = listing(s, g, offset, limit);
    assert forall|i: int, j: int| 0 <= i <= j < l.len() implies time_key(
        #[trigger] l[i].created_at,
    ) <= time_key(#[trigger] l[j].created_at) by {
        let key = created_key::<V>();
        assert(key(l[i]) <= key(l[j]));
    }
}

/// The matching sessions are the sessions of the game asked for (all, when
/// the name is empty).
proof fn lemma_matching_contains<V>(s: Seq<SessionView<V>>, g: Seq<char>, x: SessionView<V>)
    ensures
        matching_sessions(s, g).contains(x) <==> (s.contains(x) && (g.len() == 0
            || x.game_name == g)),
    decreases s.len(),
{
    if s.len() > 0 {
        lemma_matching_contains(s.drop_last(), g, x);
        let t = s.drop_last();
        assert(s =~= t.push(s.last()));
        if s.contains(x) && !t.contains(x) {
            let i = choose|i: int| 0 <= i < s.len() && s[i] == x;
            if i < t.len() {
                assert(t[i] == x);
            }
        }
        if t.contains(x) {
            let i = choose|i: int| 0 <= i < t.len() && t[i] == x;
            assert(s[i] == x);
        }
        let m = matching_sessions(t, g);
        if matches_game(s.last(), g) {
            assert(matching_sessions(s, g) == m.push(s.last()));
            if m.push(s.last()).contains(x) && x != s.last() {
                let i = choose|i: int| 0 <= i < m.len() + 1 && m.push(s.last())[i] == x;
                assert(m[i] == x);
            }
            if m.contains(x) {
                let i = choose|i: int| 0 <= i < m.len() && m[i] == x;
                assert(m.push(s.last())[i] == x);
            }
            assert(m.push(s.last())[m.len() as int] == s.last());
        }
    }
}

/// The whole listing (offset 0, no limit) holds exactly the sessions of the
/// game asked for, every session when the name is empty.
pub proof fn law_listing_members<V>(s: Seq<SessionView<V>>, g: Seq<char>, x: SessionView<V>)
    ensures
        listing(s, g, 0, 0).contains(x) <==> (s.contains(x) && (g.len() == 0 || x.game_name == g)),
{
    broadcast use vstd::seq_lib::group_to_multiset_ensures;
    law_listing(s, g, 0, 0);
    lemma_matching_contains(s, g, x);
    assert(listing(s, g, 0, 0).contains(x) <==> listing(s, g, 0, 0).to_multiset().count(x) > 0);
    assert(matching_sessions(s, g).contains(x) <==> matching_sessions(s, g).to_multiset().count(x)
        > 0);
}

/// A page of a listing is the part of the whole listing that starts at
/// `offset`: at most `limit` sessions (all the rest when `limit` is 0), none
/// when `offset` is past the end.
pub proof fn law_listing_pages<V>(s: Seq<SessionView<V>>, g: Seq<char>, offset: int, limit: int)
    requires
        offset >= 0,
        limit >= 0,
    ensures
        ({
            let full = listing(s, g, 0, 0);
            let p = listing(s, g, offset, limit);
            let n = full.len() as int;
            &&& p.len() == if offset >= n {
                0
            } else if limit == 0 || offset + limit >= n {
                n - offset
            } else {
                limit
            }
            &&& forall|i: int| 0 <= i < p.len() ==> #[trigger] p[i] == full[offset + i]
        }),
{
    let all = sort_by_key(matching_sessions(s, g), created_key::<V>());
    if all.len() > 0 {
        assert(listing(s, g, 0, 0) =~= all);
    } else {
        assert(listing(s, g, 0, 0) =~= all);
    }
}

/// A new session: the id and game name given, version 1, the game's starting
/// state for the seed, created and updated at the same time.
pub proof fn law_new_session<G: Game>(game: G, game_name: Seq<char>, seed: i64, id: Seq<char>, now: Timestamp)
    ensures
        ({
            let s = crate::engine::new_session(game, game_name, seed, id, now);
            &&& s.id == id
            &&& s.game_name == game_name
            &&& s.version == 1
            &&& s.state == game.spec_initial_state(seed)
            &&& s.created_at == now
            &&& s.updated_at == now
        }),
{
}

/// The deal: player 0 gets the first and third packets of three cards,
/// player 1 the second and fourth; the stock is the cards after the deal but
/// the last; the last card is the face-up trump card, whose suit is trump;
/// player 0 leads, with no score, trick or winner, and the stock open.
pub proof fn law_deal_layout(deck: Seq<i32>)
    requires
        deck.len() >= 13,
    ensures
        ({
            let st = dealt_state(deck);
            &&& st.hands[0].to_multiset() == seq![deck[0], deck[1], deck[2], deck[6], deck[7], deck[8]].to_multiset()
            &&& st.hands[1].to_multiset() == seq![deck[3], deck[4], deck[5], deck[9], deck[10], deck[11]].to_multiset()
            &&& st.stock == deck.subrange(12, deck.len() - 1)
            &&& st.trump_card == deck[deck.len() - 1]
            &&& st.trump_suit == suit_of(deck[deck.len() - 1] as int)
            &&& st.current == 0
            &&& st.scores == seq![0i32, 0i32]
            &&& st.trick.len() == 0
            &&& st.winner == -1
            &&& !st.closed
        }),
{
    lemma_sort_by_key_props(first_hand_dealt(deck), hand_key());
    lemma_sort_by_key_props(second_hand_dealt(deck), hand_key());
    assert(first_hand_dealt(deck) =~= seq![deck[0], deck[1], deck[2], deck[6], deck[7], deck[8]]);
    assert(second_hand_dealt(deck) =~= seq![deck[3], deck[4], deck[5], deck[9], deck[10], deck[11]]);
    let d = deck[deck.len() - 1];
    assert(suit_of(d as int) == suit_of(d as int) as i32) by {
        lemma_value_bounds(d as int);
    }
}

/// A card's value lies strictly between -100 and 100, and its suit times 100
/// plus its value is the card.
pub proof fn lemma_value_bounds(c: int)
    ensures
        -100 < value_of(c) < 100,
        100 * suit_of(c) + value_of(c) == c,
        c >= 0 ==> value_of(c) >= 0 && suit_of(c) >= 0,
        c >= i32::MIN ==> suit_of(c) >= i32::MIN / 100 - 1,
        c <= i32::MAX ==> suit_of(c) <= i32::MAX / 100,
{
}

/// Hands are kept by suit, then by rank value: in a hand in hand order, a
/// card of a lower suit comes first, and within a suit the lower value.
pub proof fn law_hand_order(h: Seq<i32>)
    requires
        sorted_by_key(h, hand_key()),
    ensures
        forall|i: int, j: int|
            0 <= i <= j < h.len() ==> suit_of(#[trigger] h[i] as int) < suit_of(
                #[trigger] h[j] as int,
            ) || (suit_of(h[i] as int) == suit_of(h[j] as int) && value_of(h[i] as int)
                <= value_of(h[j] as int)),
{
    assert forall|i: int, j: int| 0 <= i <= j < h.len() implies suit_of(#[trigger] h[i] as int)
        < suit_of(#[trigger] h[j] as int) || (suit_of(h[i] as int) == suit_of(h[j] as int)
        && value_of(h[i] as int) <= value_of(h[j] as int)) by {
        let key = hand_key();
        assert(key(h[i]) <= key(h[j]));
        lemma_value_bounds(h[i] as int);
        lemma_value_bounds(h[j] as int);
    }
}

/// Removing a card takes one copy of it out of the hand when the hand holds
/// it, and leaves the hand as it is otherwise.
pub proof fn law_remove_card(s: Seq<i32>, x: i32)
    ensures
        s.contains(x) ==> remove_first(s, x).to_multiset() == s.to_multiset().remove(x),
        s.contains(x) ==> remove_first(s, x).len() == s.len() - 1,
        !s.contains(x) ==> remove_first(s, x) == s,
{
    broadcast use vstd::seq_lib::group_to_multiset_ensures;
    if s.contains(x) {
        lemma_first_index(s, x);
    }
}

/// Timestamps are ordered by seconds, then by nanoseconds.
pub proof fn law_time_order(a: Timestamp, b: Timestamp)
    ensures
        time_key(a) < time_key(b) <==> (a.secs < b.secs || (a.secs == b.secs && a.nanos < b.nanos)),
        time_key(a) == time_key(b) <==> a == b,
{
}

/// A payload is read by key: the first entry with the key gives the value,
/// and a key with no entry gives nothing.
pub proof fn law_payload_lookup(p: Seq<(Seq<char>, Option<i64>)>, key: Seq<char>, i: int)
    requires
        0 <= i < p.len(),
        p[i].0 == key,
        forall|k: int| 0 <= k < i ==> p[k].0 != key,
    ensures
        crate::engine::payload_lookup(p, key) == Some(p[i].1),
    decreases i,
{
    if i > 0 {
        law_payload_lookup(p.drop_first(), key, i - 1);
    }
}

/// A payload without the key gives nothing.
pub proof fn law_payload_missing(p: Seq<(Seq<char>, Option<i64>)>, key: Seq<char>)
    requires
        forall|k: int| 0 <= k < p.len() ==> p[k].0 != key,
    ensures
        crate::engine::payload_lookup(p, key) == None::<Option<i64>>,
    decreases p.len(),
{
    if p.len() > 0 {
        law_payload_missing(p.drop_first(), key);
    }
}

} // verus!
