use sixtysix::cards::{card, card_suit, card_val, has_suit, HEARTS, SPADES};
use sixtysix::engine::{Action, Game};
use sixtysix::game::{SixtySix, State, ACTION_DECLARE, ACTION_EXCHANGE, ACTION_PLAY};

fn action_play(card: i32) -> Action {
    Action {
        action_type: ACTION_PLAY.to_string(),
        actor: None,
        payload: Some(vec![("card".to_string(), Some(card as i64))]),
        idempotency_key: None,
    }
}

#[test]
fn initial_deal_deterministic() {
    let g = SixtySix;
    let a = g.initial_state(42);
    let b = g.initial_state(42);
    assert_eq!(a.trump_suit, b.trump_suit);
    assert_eq!(a.trump_card, b.trump_card);
    assert_eq!(a.hands[0].len(), 6);
    assert_eq!(a.hands[1].len(), 6);
    // deck=24, trump=1, dealt=12 => stock=11
    assert_eq!(a.stock.len(), 11);
}

#[test]
fn play_and_trick_resolution() {
    let g = SixtySix;
    let st = g.initial_state(1);

    let lead = st.hands[st.current][0];
    g.validate(&st, &action_play(lead)).unwrap();
    let st2 = g.apply(&st, &action_play(lead)).unwrap();

    let follow = st2.hands[st2.current][0];
    g.validate(&st2, &action_play(follow)).unwrap();
    let st3 = g.apply(&st2, &action_play(follow)).unwrap();

    assert!(st3.trick.is_empty(), "trick should be resolved");
}

#[test]
fn close_stock_enforces_follow_suit() {
    let g = SixtySix;
    let mut st = g.initial_state(7);
    st.closed = true;

    let lead = st.hands[st.current][0];
    let st2 = g.apply(&st, &action_play(lead)).unwrap();

    let ls = card_suit(lead);
    let follower = st2.current;
    // Find an off-suit card in follower's hand
    if let Some(&off) = st2.hands[follower].iter().find(|&&c| card_suit(c) != ls) {
        let result = g.validate(&st2, &action_play(off));
        // Should fail if they also have a same-suit card
        if has_suit(&st2.hands[follower], ls) {
            assert!(
                result.is_err(),
                "expected follow-suit requirement when closed"
            );
        }
    }
}

#[test]
fn declare_marriage_and_exchange() {
    let g = SixtySix;
    let state = g.initial_state(99);

    // Try to declare trump marriage
    let declare_action = Action {
        action_type: ACTION_DECLARE.to_string(),
        actor: None,
        payload: Some(vec![("suit".to_string(), Some(state.trump_suit as i64))]),
        idempotency_key: None,
    };

    let state = if g.validate(&state, &declare_action).is_ok() {
        g.apply(&state, &declare_action).unwrap()
    } else {
        state
    };

    // Try exchange
    let exchange_action = Action {
        action_type: ACTION_EXCHANGE.to_string(),
        actor: None,
        payload: None,
        idempotency_key: None,
    };

    if g.validate(&state, &exchange_action).is_ok() {
        let st2 = g.apply(&state, &exchange_action).unwrap();
        assert_eq!(card_suit(st2.trump_card), st2.trump_suit);
        assert_eq!(card_val(st2.trump_card), 0);
    }
}

#[test]
fn last_trick_bonus() {
    let g = SixtySix;
    let st = State {
        current: 0,
        scores: [0, 0],
        hands: [vec![card(HEARTS, 0)], vec![card(HEARTS, 11)]],
        stock: vec![],
        closed: true,
        trump_suit: SPADES,
        trump_card: card(SPADES, 0),
        trick: vec![],
        winner: -1,
    };

    // Player 0 leads 9 of hearts
    let ns = g.apply(&st, &action_play(card(HEARTS, 0))).unwrap();
    // Player 1 follows with ace of hearts
    let final_st = g.apply(&ns, &action_play(card(HEARTS, 11))).unwrap();

    assert!(final_st.hands[0].is_empty() && final_st.hands[1].is_empty());
    // Player 1 wins the trick (ace > 9), gets 11+0+10(bonus)=21
    assert!(
        final_st.scores[1] >= 21,
        "expected last trick bonus, scores={:?}",
        final_st.scores
    );
}
