use sixtysix::cards::{card, new_deck, CLUBS, DIAMONDS, HEARTS, SPADES};
use sixtysix::engine::{Action, Game};
use sixtysix::game::{
    deal, SixtySix, State, ACTION_CLOSE_STOCK, ACTION_DECLARE, ACTION_EXCHANGE, ACTION_PLAY,
};

fn action(kind: &str, key: Option<(&str, i64)>) -> Action {
    Action {
        action_type: kind.to_string(),
        actor: None,
        payload: key.map(|(k, v)| vec![(k.to_string(), Some(v))]),
        idempotency_key: None,
    }
}

fn base_state() -> State {
    State {
        current: 0,
        scores: [0, 0],
        hands: [
            vec![card(HEARTS, 4), card(HEARTS, 3), card(CLUBS, 0), card(SPADES, 0)],
            vec![card(HEARTS, 11), card(DIAMONDS, 10), card(CLUBS, 11)],
        ],
        stock: vec![card(DIAMONDS, 2), card(DIAMONDS, 3), card(DIAMONDS, 4)],
        closed: false,
        trump_suit: SPADES,
        trump_card: card(SPADES, 11),
        trick: vec![],
        winner: -1,
    }
}

fn err_of(r: Result<(), sixtysix::engine::GameError>) -> String {
    r.unwrap_err().message()
}

#[test]
fn validate_reports_each_refusal() {
    let g = SixtySix;
    let st = base_state();

    let mut over = base_state();
    over.winner = 1;
    assert_eq!(err_of(g.validate(&over, &action(ACTION_PLAY, Some(("card", 0))))), "game over");

    assert_eq!(err_of(g.validate(&st, &action(ACTION_PLAY, None))), "missing card");
    assert_eq!(err_of(g.validate(&st, &action(ACTION_PLAY, Some(("suit", 0))))), "missing card");
    assert_eq!(
        err_of(g.validate(&st, &action(ACTION_PLAY, Some(("card", 211))))),
        "card not in hand"
    );
    assert!(g.validate(&st, &action(ACTION_PLAY, Some(("card", 0)))).is_ok());

    let mut closed = base_state();
    closed.closed = true;
    assert_eq!(err_of(g.validate(&closed, &action(ACTION_CLOSE_STOCK, None))), "cannot close");
    let mut empty_stock = base_state();
    empty_stock.stock = vec![];
    assert_eq!(err_of(g.validate(&empty_stock, &action(ACTION_CLOSE_STOCK, None))), "cannot close");
    let mut mid_trick = base_state();
    mid_trick.trick = vec![card(DIAMONDS, 0)];
    assert_eq!(
        err_of(g.validate(&mid_trick, &action(ACTION_CLOSE_STOCK, None))),
        "cannot close mid-trick"
    );
    assert!(g.validate(&st, &action(ACTION_CLOSE_STOCK, None)).is_ok());

    assert_eq!(err_of(g.validate(&st, &action(ACTION_DECLARE, None))), "missing suit");
    assert_eq!(
        err_of(g.validate(&st, &action(ACTION_DECLARE, Some(("suit", CLUBS as i64))))),
        "no marriage"
    );
    let mut declare_mid = base_state();
    declare_mid.trick = vec![card(DIAMONDS, 0)];
    assert_eq!(
        err_of(g.validate(&declare_mid, &action(ACTION_DECLARE, Some(("suit", HEARTS as i64))))),
        "declare only on lead"
    );
    assert!(g.validate(&st, &action(ACTION_DECLARE, Some(("suit", HEARTS as i64)))).is_ok());

    assert_eq!(
        err_of(g.validate(&closed, &action(ACTION_EXCHANGE, None))),
        "cannot exchange when stock closed or empty"
    );
    assert_eq!(
        err_of(g.validate(&mid_trick, &action(ACTION_EXCHANGE, None))),
        "exchange only at lead"
    );
    let mut no_nine = base_state();
    no_nine.hands[0] = vec![card(HEARTS, 4)];
    assert_eq!(
        err_of(g.validate(&no_nine, &action(ACTION_EXCHANGE, None))),
        "no nine of trump to exchange"
    );
    assert!(g.validate(&st, &action(ACTION_EXCHANGE, None)).is_ok());

    assert_eq!(err_of(g.validate(&st, &action("pass", None))), "unknown action");
}

#[test]
fn follow_suit_only_after_stock_closes() {
    let g = SixtySix;
    let mut st = base_state();
    st.current = 1;
    st.trick = vec![card(HEARTS, 0)];
    // stock open: any card
    assert!(g.validate(&st, &action(ACTION_PLAY, Some(("card", card(CLUBS, 11) as i64)))).is_ok());
    st.closed = true;
    assert_eq!(
        err_of(g.validate(&st, &action(ACTION_PLAY, Some(("card", card(CLUBS, 11) as i64))))),
        "must follow suit"
    );
    assert!(g.validate(&st, &action(ACTION_PLAY, Some(("card", card(HEARTS, 11) as i64)))).is_ok());
}

#[test]
fn payload_value_is_narrowed_like_as() {
    let g = SixtySix;
    let st = base_state();
    // 2^32 + 0 narrows to card 0 (nine of clubs), which player 0 holds
    assert!(g.validate(&st, &action(ACTION_PLAY, Some(("card", 4294967296)))).is_ok());
    // a payload value that is not an integer counts as missing
    let a = Action {
        action_type: ACTION_PLAY.to_string(),
        actor: None,
        payload: Some(vec![("card".to_string(), None)]),
        idempotency_key: None,
    };
    assert_eq!(err_of(g.validate(&st, &a)), "missing card");
}

#[test]
fn apply_resolves_trick_with_draws() {
    let g = SixtySix;
    let st = base_state();
    // player 0 leads nine of clubs, player 1 takes it with the ace of clubs
    let s1 = g.apply(&st, &action(ACTION_PLAY, Some(("card", 0)))).unwrap();
    assert_eq!(s1.current, 1);
    assert_eq!(s1.trick, vec![0]);
    assert_eq!(s1.hands[0], vec![204, 203, 300]);
    let s2 = g.apply(&s1, &action(ACTION_PLAY, Some(("card", 11)))).unwrap();
    assert!(s2.trick.is_empty());
    assert_eq!(s2.current, 1);
    assert_eq!(s2.scores, [0, 11]);
    // the taker draws first, then the other player
    assert_eq!(s2.hands[1], vec![211, 110, 102]);
    assert_eq!(s2.hands[0], vec![204, 203, 300, 103]);
    assert_eq!(s2.stock, vec![104]);
}

#[test]
fn trump_takes_trick_and_single_card_stock() {
    let g = SixtySix;
    let mut st = base_state();
    st.stock = vec![card(DIAMONDS, 2)];
    st.current = 1;
    st.trick = vec![card(CLUBS, 11)];
    st.hands[1] = vec![card(DIAMONDS, 10)];
    // player 0 follows the ace of clubs with the nine of trump (spades) and takes it
    st.current = 0;
    let s = g.apply(&st, &action(ACTION_PLAY, Some(("card", card(SPADES, 0) as i64)))).unwrap();
    assert_eq!(s.current, 0);
    assert_eq!(s.scores, [11, 0]);
    assert_eq!(s.hands[0], vec![204, 203, 0, 102]);
    assert!(s.stock.is_empty());
}

#[test]
fn declare_scores_and_can_win() {
    let g = SixtySix;
    let st = base_state();
    let s = g.apply(&st, &action(ACTION_DECLARE, Some(("suit", HEARTS as i64)))).unwrap();
    assert_eq!(s.scores, [20, 0]);
    assert_eq!(s.winner, -1);
    let mut rich = base_state();
    rich.scores = [30, 0];
    let s = g.apply(&rich, &action(ACTION_DECLARE, Some(("suit", SPADES as i64)))).unwrap();
    assert_eq!(s.scores, [70, 0]);
    assert_eq!(s.winner, 0);
}

#[test]
fn exchange_and_close() {
    let g = SixtySix;
    let st = base_state();
    let s = g.apply(&st, &action(ACTION_EXCHANGE, None)).unwrap();
    assert_eq!(s.trump_card, card(SPADES, 0));
    assert_eq!(s.hands[0], vec![204, 203, 0, 311]);
    let c = g.apply(&st, &action(ACTION_CLOSE_STOCK, None)).unwrap();
    assert!(c.closed);
    assert_eq!(c.stock, st.stock);
    assert_eq!(g.apply(&st, &action("pass", None)).unwrap_err().message(), "unknown action");
}

#[test]
fn definedness_checks() {
    let g = SixtySix;
    let st = base_state();
    assert!(g.validate_defined(&st, &action(ACTION_DECLARE, Some(("suit", HEARTS as i64)))));
    // card(suit, 4) would overflow
    assert!(!g.validate_defined(&st, &action(ACTION_DECLARE, Some(("suit", 30_000_000)))));
    // apply needs the card in the payload
    assert!(!g.apply_defined(&st, &action(ACTION_PLAY, None)));
    assert!(g.apply_defined(&st, &action(ACTION_PLAY, Some(("card", 0)))));
    let mut huge = base_state();
    huge.scores = [i32::MAX - 5, 0];
    assert!(!g.apply_defined(&huge, &action(ACTION_DECLARE, Some(("suit", HEARTS as i64)))));
    let mut bad = base_state();
    bad.current = 2;
    assert!(!g.apply_defined(&bad, &action(ACTION_EXCHANGE, None)));
    assert!(g.apply_defined(&bad, &action(ACTION_CLOSE_STOCK, None)));
}

#[test]
fn deal_of_unshuffled_deck() {
    let st = deal(new_deck());
    assert_eq!(st.hands[0], vec![4, 10, 11, 104, 110, 111]);
    assert_eq!(st.hands[1], vec![0, 2, 3, 100, 102, 103]);
    assert_eq!(st.stock, vec![211, 210, 204, 203, 202, 200, 311, 310, 304, 303, 302]);
    assert_eq!(st.trump_card, 300);
    assert_eq!(st.trump_suit, SPADES);
    assert_eq!(st.current, 0);
    assert_eq!(st.scores, [0, 0]);
    assert_eq!(st.winner, -1);
    assert!(!st.closed);
    assert!(st.trick.is_empty());
}

#[test]
fn initial_state_is_shuffled_and_keeps_all_cards() {
    let g = SixtySix;
    let st = g.initial_state(42);
    let unshuffled = deal(new_deck());
    assert!(st.hands != unshuffled.hands || st.stock != unshuffled.stock);
    let mut all: Vec<i32> = Vec::new();
    all.extend(st.hands[0].iter());
    all.extend(st.hands[1].iter());
    all.extend(st.stock.iter());
    all.push(st.trump_card);
    all.sort();
    let mut deck = new_deck();
    deck.sort();
    assert_eq!(all, deck);
    assert_eq!(st.trump_suit, st.trump_card / 100);
    // determinism, also for a negative seed
    assert_eq!(g.initial_state(-3).hands, g.initial_state(-3).hands);
    assert_eq!(g.name(), "sixtysix");
}

#[test]
fn game_over_refuses_everything() {
    let g = SixtySix;
    let mut st = base_state();
    st.winner = 0;
    for kind in [ACTION_PLAY, ACTION_CLOSE_STOCK, ACTION_DECLARE, ACTION_EXCHANGE, "other"] {
        assert_eq!(err_of(g.validate(&st, &action(kind, Some(("card", 0))))), "game over");
    }
}
