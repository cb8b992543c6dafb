//! Sixty-six game rules implementation.
//!
//! Card encoding: `suit * 100 + rank_value` (see [`crate::cards`]).

use vstd::prelude::*;
use rand::seq::SliceRandom;
use rand::SeedableRng;
use rand_chacha::ChaCha8Rng;
use crate::cards::{
    card, card_suit, trick_points, has_suit, hand_contains, remove, trick_winner,
    new_deck, sort_hand, fits_i32, suit_of, value_of, card_of, holds_suit, remove_first,
    winner_of_trick, fresh_deck, hand_key,
};
use crate::engine::{Action, ActionView, Game, GameError, GameState, get_int, payload_int};
use crate::sort::{sort_by_key, sorted_by_key, lemma_sort_by_key_props};

verus! {

pub const ACTION_PLAY: &'static str = "play";
pub const ACTION_CLOSE_STOCK: &'static str = "closeStock";
pub const ACTION_DECLARE: &'static str = "declare";
pub const ACTION_EXCHANGE: &'static str = "exchangeTrump";

// ---------------------------------------------------------------------------
// State
// ---------------------------------------------------------------------------

/// The state of a deal.
#[derive(Debug, Clone)]
pub struct State {
    pub current: usize,
    pub scores: [i32; 2],
    pub hands: [Vec<i32>; 2],
    pub stock: Vec<i32>,
    pub closed: bool,
    pub trump_suit: i32,
    pub trump_card: i32,
    pub trick: Vec<i32>,
    pub winner: i32,
}

/// The mathematical view of a [`State`]: `scores` and `hands` have length 2.
pub struct StateView {
    pub current: usize,
    pub scores: Seq<i32>,
    pub hands: Seq<Seq<i32>>,
    pub stock: Seq<i32>,
    pub closed: bool,
    pub trump_suit: i32,
    pub trump_card: i32,
    pub trick: Seq<i32>,
    pub winner: i32,
}

impl View for State {
    type V = StateView;

    open spec fn view(&self) -> StateView {
        StateView {
            current: self.current,
            scores: self.scores@,
            hands: seq![self.hands[0]@, self.hands[1]@],
            stock: self.stock@,
            closed: self.closed,
            trump_suit: self.trump_suit,
            trump_card: self.trump_card,
            trick: self.trick@,
            winner: self.winner,
        }
    }
}

/// A copy of a list of cards.
fn copy_cards(v: &Vec<i32>) -> (r: Vec<i32>)
    ensures
        r@ == v@,
{
    let mut r: Vec<i32> = Vec::with_capacity(v.len());
    let mut i: usize = 0;
    while i < v.len()
        invariant
            i <= v@.len(),
            r@ == v@.take(i as int),
        decreases v@.len() - i,
    {
        r.push(v[i]);
        assert(v@.take(i + 1) =~= v@.take(i as int).push(v@[i as int]));
        i = i + 1;
    }
    assert(v@.take(v@.len() as int) =~= v@);
    r
}

impl GameState for State {
    fn duplicate(&self) -> (r: State) {
        let r = State {
            current: self.current,
            scores: [self.scores[0], self.scores[1]],
            hands: [copy_cards(&self.hands[0]), copy_cards(&self.hands[1])],
            stock: copy_cards(&self.stock),
            closed: self.closed,
            trump_suit: self.trump_suit,
            trump_card: self.trump_card,
            trick: copy_cards(&self.trick),
            winner: self.winner,
        };
        assert(r.scores@ =~= self.scores@);
        assert(r@.hands =~= self@.hands);
        r
    }
}

// ---------------------------------------------------------------------------
// Rules as mathematics
// ---------------------------------------------------------------------------

/// The hand of the player to act.
pub open spec fn hand_to_act(st: StateView) -> Seq<i32> {
    st.hands[st.current as int]
}

/// Playing `c` breaks the follow-suit rule: it answers a lead after the stock
/// is closed or empty, leaves the suit led and the hand holds that suit.
pub open spec fn breaks_follow_suit(st: StateView, c: i32) -> bool {
    &&& st.trick.len() == 1
    &&& st.closed || st.stock.len() == 0
    &&& suit_of(c as int) != suit_of(st.trick[0] as int)
    &&& holds_suit(hand_to_act(st), suit_of(st.trick[0] as int))
}

/// The stock can be drawn from: it is neither closed nor empty.
pub open spec fn stock_open(st: StateView) -> bool {
    !st.closed && st.stock.len() > 0
}

/// What `validate` answers for a state and an action.
pub open spec fn validate_rules(st: StateView, a: ActionView) -> Result<(), Seq<char>> {
    if st.winner != -1 {
        Err("game over"@)
    } else if a.action_type == ACTION_PLAY@ {
        match payload_int(a, "card"@) {
            None => Err("missing card"@),
            Some(c) => if !hand_to_act(st).contains(c) {
                Err("card not in hand"@)
            } else if breaks_follow_suit(st, c) {
                Err("must follow suit"@)
            } else {
                Ok(())
            },
        }
    } else if a.action_type == ACTION_CLOSE_STOCK@ {
        if !stock_open(st) {
            Err("cannot close"@)
        } else if st.trick.len() != 0 {
            Err("cannot close mid-trick"@)
        } else {
            Ok(())
        }
    } else if a.action_type == ACTION_DECLARE@ {
        match payload_int(a, "suit"@) {
            None => Err("missing suit"@),
            Some(s) => if !(hand_to_act(st).contains(card_of(s as int, 4) as i32)
                && hand_to_act(st).contains(card_of(s as int, 3) as i32)) {
                Err("no marriage"@)
            } else if st.trick.len() != 0 {
                Err("declare only on lead"@)
            } else {
                Ok(())
            },
        }
    } else if a.action_type == ACTION_EXCHANGE@ {
        if !stock_open(st) {
            Err("cannot exchange when stock closed or empty"@)
        } else if st.trick.len() != 0 {
            Err("exchange only at lead"@)
        } else if !hand_to_act(st).contains(card_of(st.trump_suit as int, 0) as i32) {
            Err("no nine of trump to exchange"@)
        } else {
            Ok(())
        }
    } else {
        Err("unknown action"@)
    }
}

/// The card of `suit` and rank value `v` can be computed without overflow.
pub open spec fn card_fits(suit: int, v: int) -> bool {
    fits_i32(suit * 100) && fits_i32(card_of(suit, v))
}

/// The inputs on which `validate` runs without overflow or a bad index.
pub open spec fn validate_defined_rules(st: StateView, a: ActionView) -> bool {
    if st.winner != -1 {
        true
    } else if a.action_type == ACTION_PLAY@ {
        payload_int(a, "card"@) is Some ==> st.current < 2
    } else if a.action_type == ACTION_CLOSE_STOCK@ {
        true
    } else if a.action_type == ACTION_DECLARE@ {
        match payload_int(a, "suit"@) {
            Some(s) => card_fits(s as int, 4) && card_fits(s as int, 3) && st.current < 2,
            None => true,
        }
    } else if a.action_type == ACTION_EXCHANGE@ {
        (stock_open(st) && st.trick.len() == 0) ==> (card_fits(st.trump_suit as int, 0)
            && st.current < 2)
    } else {
        true
    }
}

/// The player who takes a full trick; `st.current` is the follower.
pub open spec fn trick_taker(st: StateView) -> usize {
    if winner_of_trick(st.trick[0], st.trick[1], st.trump_suit) == 0 {
        (1 - st.current) as usize
    } else {
        st.current
    }
}

/// The points of a full trick.
pub open spec fn trick_value(st: StateView) -> int {
    value_of(st.trick[0] as int) + value_of(st.trick[1] as int)
}

/// The hands after the taker, then the other player, draw from an open stock.
pub open spec fn hands_after_draw(st: StateView, w: usize) -> Seq<Seq<i32>> {
    if !stock_open(st) {
        st.hands
    } else if st.stock.len() >= 2 {
        st.hands.update(w as int, st.hands[w as int].push(st.stock[0])).update(
            1 - w,
            st.hands[1 - w].push(st.stock[1]),
        )
    } else {
        st.hands.update(w as int, st.hands[w as int].push(st.stock[0]))
    }
}

/// The stock after the draws.
pub open spec fn stock_after_draw(st: StateView) -> Seq<i32> {
    if !stock_open(st) {
        st.stock
    } else if st.stock.len() >= 2 {
        st.stock.skip(2)
    } else {
        Seq::empty()
    }
}

/// Both hands are empty.
pub open spec fn hands_empty(hands: Seq<Seq<i32>>) -> bool {
    hands[0].len() == 0 && hands[1].len() == 0
}

/// The points the taker of a full trick gains: the trick's value, plus 10 for
/// the last trick.
pub open spec fn trick_gain(st: StateView) -> int {
    let w = trick_taker(st);
    trick_value(st) + if hands_empty(hands_after_draw(st, w)) { 10int } else { 0int }
}

/// Resolves a full trick: the taker scores it, both draw, the taker leads, and
/// reaching 66 ends the game.
pub open spec fn resolve_trick(st: StateView) -> StateView {
    let w = trick_taker(st);
    let scores = st.scores.update(w as int, (st.scores[w as int] + trick_gain(st)) as i32);
    StateView {
        current: w,
        scores: scores,
        hands: hands_after_draw(st, w),
        stock: stock_after_draw(st),
        trick: Seq::empty(),
        winner: if scores[w as int] >= 66 { w as i32 } else { st.winner },
        ..st
    }
}

/// The state once the player to act has played `c`, before a full trick is resolved.
pub open spec fn card_played(st: StateView, c: i32) -> StateView {
    StateView {
        hands: st.hands.update(st.current as int, remove_first(hand_to_act(st), c)),
        trick: st.trick.push(c),
        ..st
    }
}

/// The state after the player to act plays `c`.
pub open spec fn play_card(st: StateView, c: i32) -> StateView {
    let mid = card_played(st, c);
    if mid.trick.len() == 2 {
        resolve_trick(mid)
    } else {
        StateView { current: (1 - st.current) as usize, ..mid }
    }
}

/// The points a marriage of `suit` is worth.
pub open spec fn marriage_points(st: StateView, suit: i32) -> int {
    if suit == st.trump_suit { 40 } else { 20 }
}

/// The state after the player to act declares the marriage of `suit`.
pub open spec fn declare_marriage(st: StateView, suit: i32) -> StateView {
    let p = st.current as int;
    let scores = st.scores.update(p, (st.scores[p] + marriage_points(st, suit)) as i32);
    StateView {
        scores: scores,
        winner: if scores[p] >= 66 { st.current as i32 } else { st.winner },
        ..st
    }
}

/// The nine of trump.
pub open spec fn trump_nine(st: StateView) -> i32 {
    card_of(st.trump_suit as int, 0) as i32
}

/// The state after the player to act exchanges the nine of trump for the trump card.
pub open spec fn exchange_trump(st: StateView) -> StateView {
    StateView {
        hands: st.hands.update(
            st.current as int,
            remove_first(hand_to_act(st), trump_nine(st)).push(st.trump_card),
        ),
        trump_card: trump_nine(st),
        ..st
    }
}

/// What `apply` answers for a state and an action.
pub open spec fn apply_rules(st: StateView, a: ActionView) -> Result<StateView, Seq<char>> {
    if a.action_type == ACTION_PLAY@ {
        Ok(play_card(st, payload_int(a, "card"@).unwrap()))
    } else if a.action_type == ACTION_CLOSE_STOCK@ {
        Ok(StateView { closed: true, ..st })
    } else if a.action_type == ACTION_DECLARE@ {
        Ok(declare_marriage(st, payload_int(a, "suit"@).unwrap()))
    } else if a.action_type == ACTION_EXCHANGE@ {
        Ok(exchange_trump(st))
    } else {
        Err("unknown action"@)
    }
}

/// The inputs on which `apply` runs without a missing payload value, overflow
/// or a bad index.
pub open spec fn apply_defined_rules(st: StateView, a: ActionView) -> bool {
    if a.action_type == ACTION_PLAY@ {
        &&& payload_int(a, "card"@) is Some
        &&& st.current < 2
        &&& {
            let mid = card_played(st, payload_int(a, "card"@).unwrap());
            let w = trick_taker(mid);
            mid.trick.len() == 2 ==> {
                &&& fits_i32(mid.scores[w as int] + trick_value(mid))
                &&& fits_i32(mid.scores[w as int] + trick_gain(mid))
            }
        }
    } else if a.action_type == ACTION_CLOSE_STOCK@ {
        true
    } else if a.action_type == ACTION_DECLARE@ {
        &&& payload_int(a, "suit"@) is Some
        &&& st.current < 2
        &&& fits_i32(st.scores[st.current as int] + marriage_points(
            st,
            payload_int(a, "suit"@).unwrap(),
        ))
    } else if a.action_type == ACTION_EXCHANGE@ {
        card_fits(st.trump_suit as int, 0) && st.current < 2
    } else {
        true
    }
}


// ---------------------------------------------------------------------------
// Dealing
// ---------------------------------------------------------------------------

/// The cards dealt to player 0: the first and third packets of three.
pub open spec fn first_hand_dealt(deck: Seq<i32>) -> Seq<i32> {
    deck.subrange(0, 3) + deck.subrange(6, 9)
}

/// The cards dealt to player 1: the second and fourth packets of three.
pub open spec fn second_hand_dealt(deck: Seq<i32>) -> Seq<i32> {
    deck.subrange(3, 6) + deck.subrange(9, 12)
}

/// The state dealt from a deck of at least 13 cards: 3 cards to player 0, 3 to
/// player 1, 3 to player 0, 3 to player 1, hands sorted by suit then rank
/// value; the last card is the face-up trump card, the cards between the deal
/// and the trump card form the stock.
pub open spec fn dealt_state(deck: Seq<i32>) -> StateView {
    StateView {
        current: 0,
        scores: seq![0i32, 0i32],
        hands: seq![
            sort_by_key(first_hand_dealt(deck), hand_key()),
            sort_by_key(second_hand_dealt(deck), hand_key()),
        ],
        stock: deck.subrange(12, deck.len() - 1),
        closed: false,
        trump_suit: suit_of(deck.last() as int) as i32,
        trump_card: deck.last(),
        trick: Seq::empty(),
        winner: -1i32,
    }
}

/// The order the deck is in after the seeded shuffle: a function of the seed
/// and the deck alone.
pub uninterp spec fn seeded_shuffle(seed: u64, deck: Seq<i32>) -> Seq<i32>;

/// Shuffles `deck` with a `rand_chacha::ChaCha8Rng` built by
/// `SeedableRng::seed_from_u64(seed)`, through `rand`'s `SliceRandom::shuffle`.
/// The generator is made and used up inside, so the order is a function of the
/// seed and the deck, named `seeded_shuffle`; since shuffle only swaps elements,
/// the result holds the same cards. Which order comes out is left unsaid.
#[verifier::external_body]
fn shuffle_with_seed(deck: Vec<i32>, seed: u64) -> (r: Vec<i32>)
    ensures
        r@ == seeded_shuffle(seed, deck@),
        r@.to_multiset() == deck@.to_multiset(),
{
    let mut deck = deck;
    let mut rng = ChaCha8Rng::seed_from_u64(seed);
    deck.shuffle(&mut rng);
    deck
}

/// Appends `deck[from..to]` to `v`.
fn push_range(v: &mut Vec<i32>, deck: &Vec<i32>, from: usize, to: usize)
    requires
        from <= to <= deck@.len(),
    ensures
        final(v)@ == old(v)@ + deck@.subrange(from as int, to as int),
{
    let mut i = from;
    while i < to
        invariant
            from <= i <= to <= deck@.len(),
            v@ == old(v)@ + deck@.subrange(from as int, i as int),
        decreases to - i,
    {
        v.push(deck[i]);
        assert(deck@.subrange(from as int, i + 1) =~= deck@.subrange(from as int, i as int).push(
            deck@[i as int],
        ));
        assert(old(v)@ + deck@.subrange(from as int, i + 1) =~= (old(v)@ + deck@.subrange(
            from as int,
            i as int,
        )).push(deck@[i as int]));
        i = i + 1;
    }
}

/// Deals a shuffled deck: two hands of six, the stock, and the face-up trump
/// card (the deck's last card).
pub fn deal(deck: Vec<i32>) -> (st: State)
    requires
        deck@.len() >= 13,
    ensures
        st@ == dealt_state(deck@),
{
    let trump_card = deck[deck.len() - 1];
    let trump_suit = card_suit(trump_card);
    let mut first: Vec<i32> = Vec::new();
    let mut second: Vec<i32> = Vec::new();
    push_range(&mut first, &deck, 0, 3);
    push_range(&mut second, &deck, 3, 6);
    push_range(&mut first, &deck, 6, 9);
    push_range(&mut second, &deck, 9, 12);
    let mut stock: Vec<i32> = Vec::new();
    push_range(&mut stock, &deck, 12, deck.len() - 1);
    assert(first@ =~= first_hand_dealt(deck@));
    assert(second@ =~= second_hand_dealt(deck@));
    assert(stock@ =~= deck@.subrange(12, deck@.len() - 1));
    let st = State {
        current: 0,
        scores: [0, 0],
        hands: [sort_hand(first.as_slice()), sort_hand(second.as_slice())],
        stock: stock,
        closed: false,
        trump_suit: trump_suit,
        trump_card: trump_card,
        trick: Vec::new(),
        winner: -1i32,
    };
    assert(st.scores@ =~= seq![0i32, 0i32]);
    assert(st@.hands =~= dealt_state(deck@).hands);
    st
}

/// The starting state for a seed: the fresh deck shuffled with the seed, then dealt.
pub open spec fn initial_state_for(seed: i64) -> StateView {
    dealt_state(seeded_shuffle(seed as u64, fresh_deck()))
}

// ---------------------------------------------------------------------------
// Checks
// ---------------------------------------------------------------------------

/// Whether the action's type is `name`.
fn is_action(action: &Action, name: &str) -> (b: bool)
    ensures
        b == (action@.action_type == name@),
{
    action.action_type == name.to_owned()
}

/// Whether the card of `suit` and rank value `v` can be computed without overflow.
fn card_fits_exec(suit: i32, v: i32) -> (b: bool)
    ensures
        b == card_fits(suit as int, v as int),
{
    let x: i64 = (suit as i64) * 100;
    let y: i64 = x + (v as i64);
    x >= (i32::MIN as i64) && x <= (i32::MAX as i64) && y >= (i32::MIN as i64) && y <= (
    i32::MAX as i64)
}

/// Whether `x` fits in an `i32`.
fn fits_exec(x: i64) -> (b: bool)
    ensures
        b == fits_i32(x as int),
{
    x >= (i32::MIN as i64) && x <= (i32::MAX as i64)
}

// ---------------------------------------------------------------------------
// SixtySix game
// ---------------------------------------------------------------------------

/// The Sixty-six game implementing the [`Game`] trait.
pub struct SixtySix;

impl Game for SixtySix {
    type State = State;

    open spec fn spec_name(&self) -> Seq<char> {
        "sixtysix"@
    }

    open spec fn spec_initial_state(&self, seed: i64) -> StateView {
        initial_state_for(seed)
    }

    /// The seeded shuffle keeps the cards of the deck.
    open spec fn spec_initial_state_facts(&self, seed: i64) -> bool {
        seeded_shuffle(seed as u64, fresh_deck()).to_multiset() == fresh_deck().to_multiset()
    }

    open spec fn spec_validate(&self, st: StateView, a: ActionView) -> Result<(), Seq<char>> {
        validate_rules(st, a)
    }

    open spec fn spec_apply(&self, st: StateView, a: ActionView) -> Result<StateView, Seq<char>> {
        apply_rules(st, a)
    }

    open spec fn spec_validate_defined(&self, st: StateView, a: ActionView) -> bool {
        validate_defined_rules(st, a)
    }

    open spec fn spec_apply_defined(&self, st: StateView, a: ActionView) -> bool {
        apply_defined_rules(st, a)
    }

    fn name(&self) -> (n: &str) {
        "sixtysix"
    }

    /// Shuffles the fresh deck with the seed, then deals it: two hands of six
    /// cards, each in hand order, a stock of eleven and the face-up trump
    /// card, together exactly the 24 cards of the deck.
    fn initial_state(&self, seed: i64) -> (s: State)
        ensures
            s@.hands[0].len() == 6,
            s@.hands[1].len() == 6,
            s@.stock.len() == 11,
            (s@.hands[0] + s@.hands[1] + s@.stock).push(s@.trump_card).to_multiset()
                == fresh_deck().to_multiset(),
            sorted_by_key(s@.hands[0], hand_key()),
            sorted_by_key(s@.hands[1], hand_key()),
    {
        let deck = new_deck();
        let deck = shuffle_with_seed(deck, #[verifier::truncate] (seed as u64));
        proof {
            broadcast use vstd::seq_lib::group_to_multiset_ensures;
            assert(deck@.len() == deck@.to_multiset().len());
            crate::laws::law_initial_deal(seed);
        }
        deal(deck)
    }

    fn validate(&self, state: &State, action: &Action) -> (r: Result<(), GameError>) {
        let st = state;
        if st.winner != -1 {
            return Err(GameError("game over".to_owned()));
        }
        if is_action(action, ACTION_PLAY) {
            let c = match get_int(action, "card") {
                Some(c) => c,
                None => {
                    return Err(GameError("missing card".to_owned()));
                },
            };
            if !hand_contains(st.hands[st.current].as_slice(), c) {
                return Err(GameError("card not in hand".to_owned()));
            }
            if st.trick.len() == 1 && (st.closed || st.stock.len() == 0) {
                let lead = st.trick[0];
                let ls = card_suit(lead);
                if card_suit(c) != ls && has_suit(st.hands[st.current].as_slice(), ls) {
                    return Err(GameError("must follow suit".to_owned()));
                }
            }
            Ok(())
        } else if is_action(action, ACTION_CLOSE_STOCK) {
            if st.closed || st.stock.len() == 0 {
                return Err(GameError("cannot close".to_owned()));
            }
            if st.trick.len() != 0 {
                return Err(GameError("cannot close mid-trick".to_owned()));
            }
            Ok(())
        } else if is_action(action, ACTION_DECLARE) {
            let suit = match get_int(action, "suit") {
                Some(s) => s,
                None => {
                    return Err(GameError("missing suit".to_owned()));
                },
            };
            let k = card(suit, 4);
            let q = card(suit, 3);
            if !(hand_contains(st.hands[st.current].as_slice(), k) && hand_contains(
                st.hands[st.current].as_slice(),
                q,
            )) {
                return Err(GameError("no marriage".to_owned()));
            }
            if st.trick.len() != 0 {
                return Err(GameError("declare only on lead".to_owned()));
            }
            Ok(())
        } else if is_action(action, ACTION_EXCHANGE) {
            if st.closed || st.stock.len() == 0 {
                return Err(GameError("cannot exchange when stock closed or empty".to_owned()));
            }
            if st.trick.len() != 0 {
                return Err(GameError("exchange only at lead".to_owned()));
            }
            let nine = card(st.trump_suit, 0);
            if !hand_contains(st.hands[st.current].as_slice(), nine) {
                return Err(GameError("no nine of trump to exchange".to_owned()));
            }
            Ok(())
        } else {
            Err(GameError("unknown action".to_owned()))
        }
    }

    fn apply(&self, state: &State, action: &Action) -> (r: Result<State, GameError>) {
        let mut st = state.duplicate();
        if is_action(action, ACTION_PLAY) {
            let c = get_int(action, "card").unwrap();
            let actor = st.current;
            let new_hand = remove(st.hands[actor].as_slice(), c);
            st.hands[actor] = new_hand;
            st.trick.push(c);
            let ghost mid = card_played(state@, c);
            assert(st@.hands =~= mid.hands);
            assert(st@ == mid);
            if st.trick.len() == 2 {
                let winner_idx = trick_winner(st.trick[0], st.trick[1], st.trump_suit);
                let leader = 1 - actor;
                let actual_winner = if winner_idx == 0 {
                    leader
                } else {
                    actor
                };
                assert(actual_winner == trick_taker(mid));
                let pts = trick_points(st.trick[0]) + trick_points(st.trick[1]);
                st.scores[actual_winner] = st.scores[actual_winner] + pts;
                st.trick.clear();
                if !st.closed && !st.stock.is_empty() {
                    if st.stock.len() >= 2 {
                        let first = st.stock[0];
                        let second = st.stock[1];
                        st.hands[actual_winner].push(first);
                        st.hands[1 - actual_winner].push(second);
                        let rest = st.stock.split_off(2);
                        st.stock = rest;
                    } else {
                        let first = st.stock[0];
                        st.hands[actual_winner].push(first);
                        st.stock.clear();
                    }
                }
                st.current = actual_winner;
                assert(st@.hands =~= hands_after_draw(mid, actual_winner));
                assert(st@.stock =~= stock_after_draw(mid));
                if st.hands[0].is_empty() && st.hands[1].is_empty() {
                    st.scores[actual_winner] = st.scores[actual_winner] + 10;
                }
                if st.scores[actual_winner] >= 66 {
                    st.winner = actual_winner as i32;
                }
                assert(st@.scores =~= resolve_trick(mid).scores);
                assert(st@.trick =~= resolve_trick(mid).trick);
            } else {
                st.current = 1 - actor;
            }
            Ok(st)
        } else if is_action(action, ACTION_CLOSE_STOCK) {
            st.closed = true;
            Ok(st)
        } else if is_action(action, ACTION_DECLARE) {
            let suit = get_int(action, "suit").unwrap();
            let pts = if suit == st.trump_suit {
                40
            } else {
                20
            };
            let p = st.current;
            st.scores[p] = st.scores[p] + pts;
            if st.scores[p] >= 66 {
                st.winner = p as i32;
            }
            assert(st@.scores =~= declare_marriage(state@, suit).scores);
            Ok(st)
        } else if is_action(action, ACTION_EXCHANGE) {
            let nine = card(st.trump_suit, 0);
            let p = st.current;
            let mut new_hand = remove(st.hands[p].as_slice(), nine);
            new_hand.push(st.trump_card);
            st.hands[p] = new_hand;
            st.trump_card = nine;
            assert(st@.hands =~= exchange_trump(state@).hands);
            Ok(st)
        } else {
            Err(GameError("unknown action".to_owned()))
        }
    }

    fn validate_defined(&self, state: &State, action: &Action) -> (b: bool) {
        if state.winner != -1 {
            true
        } else if is_action(action, ACTION_PLAY) {
            match get_int(action, "card") {
                Some(_) => state.current < 2,
                None => true,
            }
        } else if is_action(action, ACTION_CLOSE_STOCK) {
            true
        } else if is_action(action, ACTION_DECLARE) {
            match get_int(action, "suit") {
                Some(s) => card_fits_exec(s, 4) && card_fits_exec(s, 3) && state.current < 2,
                None => true,
            }
        } else if is_action(action, ACTION_EXCHANGE) {
            if !state.closed && state.stock.len() > 0 && state.trick.len() == 0 {
                card_fits_exec(state.trump_suit, 0) && state.current < 2
            } else {
                true
            }
        } else {
            true
        }
    }

    fn apply_defined(&self, state: &State, action: &Action) -> (b: bool) {
        if is_action(action, ACTION_PLAY) {
            let c = match get_int(action, "card") {
                Some(c) => c,
                None => {
                    return false;
                },
            };
            if state.current >= 2 {
                return false;
            }
            if state.trick.len() != 1 {
                return true;
            }
            let ghost mid = card_played(state@, c);
            let actor = state.current;
            let lead = state.trick[0];
            let w = if trick_winner(lead, c, state.trump_suit) == 0 {
                1 - actor
            } else {
                actor
            };
            assert(mid.trick[0] == lead && mid.trick[1] == c);
            assert(w == trick_taker(mid));
            let value: i64 = (trick_points(lead) as i64) + (trick_points(c) as i64);
            let held = hand_contains(state.hands[actor].as_slice(), c);
            let actor_left: usize = if held {
                state.hands[actor].len() - 1
            } else {
                state.hands[actor].len()
            };
            let other_left: usize = state.hands[1 - actor].len();
            proof {
                let h = hand_to_act(state@);
                if h.contains(c) {
                    crate::cards::lemma_first_index(h, c);
                }
                assert(mid.hands[actor as int].len() == actor_left);
                assert(mid.hands[1 - actor].len() == other_left);
            }
            let draws = !state.closed && state.stock.len() > 0;
            let last = !draws && actor_left == 0 && other_left == 0;
            proof {
                let hs = hands_after_draw(mid, w);
                assert(stock_open(mid) == draws);
                if draws {
                    assert(hs[w as int].len() > 0);
                } else if actor == 0 {
                    assert(hs[0].len() == actor_left && hs[1].len() == other_left);
                } else {
                    assert(hs[1].len() == actor_left && hs[0].len() == other_left);
                }
                assert(last == hands_empty(hs));
            }
            let gain: i64 = if last {
                value + 10
            } else {
                value
            };
            let score: i64 = state.scores[w] as i64;
            fits_exec(score + value) && fits_exec(score + gain)
        } else if is_action(action, ACTION_CLOSE_STOCK) {
            true
        } else if is_action(action, ACTION_DECLARE) {
            match get_int(action, "suit") {
                Some(suit) => {
                    if state.current >= 2 {
                        return false;
                    }
                    let pts: i64 = if suit == state.trump_suit {
                        40
                    } else {
                        20
                    };
                    fits_exec(state.scores[state.current] as i64 + pts)
                },
                None => false,
            }
        } else if is_action(action, ACTION_EXCHANGE) {
            card_fits_exec(state.trump_suit, 0) && state.current < 2
        } else {
            true
        }
    }
}

} // verus!
