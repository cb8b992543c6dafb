use sixtysix::cards::{card, CLUBS, HEARTS, SPADES};
use sixtysix::engine::{Action, Game};
use sixtysix::game::{SixtySix, State, ACTION_PLAY};

fn play(c: i32) -> Action {
    Action {
        action_type: ACTION_PLAY.to_string(),
        actor: None,
        payload: Some(vec![("card".to_string(), Some(c as i64))]),
        idempotency_key: None,
    }
}

fn in_play(st: &State) -> Vec<i32> {
    let mut v: Vec<i32> = Vec::new();
    v.extend(st.hands[0].iter());
    v.extend(st.hands[1].iter());
    v.extend(st.stock.iter());
    v.extend(st.trick.iter());
    v.push(st.trump_card);
    v.sort();
    v
}

#[test]
fn empty_hand_cannot_play() {
    let g = SixtySix;
    let st = State {
        current: 0,
        scores: [0, 0],
        hands: [vec![], vec![card(HEARTS, 10)]],
        stock: vec![],
        closed: false,
        trump_suit: SPADES,
        trump_card: card(SPADES, 0),
        trick: vec![],
        winner: -1,
    };
    assert!(g.validate(&st, &play(card(HEARTS, 10))).is_err());
}

#[test]
fn closed_stock_resolves_without_drawing() {
    let g = SixtySix;
    let st = State {
        current: 1,
        scores: [0, 0],
        hands: [vec![card(CLUBS, 2)], vec![card(HEARTS, 10), card(CLUBS, 3)]],
        stock: vec![card(HEARTS, 2), card(HEARTS, 3)],
        closed: true,
        trump_suit: SPADES,
        trump_card: card(SPADES, 0),
        trick: vec![card(CLUBS, 2)],
        winner: -1,
    };
    let s = g.apply(&st, &play(card(CLUBS, 3))).unwrap();
    assert_eq!(s.stock, st.stock);
    assert_eq!(s.hands[1], vec![card(HEARTS, 10)]);
    assert_eq!(s.hands[0], vec![card(CLUBS, 2)]);
    assert_eq!(s.current, 1);
    assert_eq!(s.scores, [0, 5]);
}

#[test]
fn whole_deals_keep_scores_rising_and_end() {
    let g = SixtySix;
    for seed in 0..20 {
        let mut st = g.initial_state(seed);
        let mut steps = 0;
        while st.winner == -1 && !st.hands[st.current].is_empty() {
            let hand = st.hands[st.current].clone();
            let c = *hand
                .iter()
                .find(|&&c| g.validate(&st, &play(c)).is_ok())
                .expect("some card can always be played");
            let next = g.apply(&st, &play(c)).unwrap();
            assert!(next.scores[0] >= st.scores[0] && next.scores[1] >= st.scores[1]);
            let mut after = in_play(&next);
            if st.trick.len() == 1 {
                after.push(st.trick[0]);
                after.push(c);
            }
            after.sort();
            assert_eq!(after, in_play(&st));
            if next.winner != -1 {
                assert!(next.scores[next.winner as usize] >= 66);
            }
            st = next;
            steps += 1;
            assert!(steps <= 24);
        }
        if st.winner != -1 {
            assert!(g.validate(&st, &play(0)).is_err());
        }
    }
}

#[test]
fn exchange_and_play_keep_cards() {
    let g = SixtySix;
    let st = State {
        current: 0,
        scores: [0, 0],
        hands: [vec![card(SPADES, 0), card(HEARTS, 4)], vec![card(CLUBS, 3)]],
        stock: vec![card(HEARTS, 2), card(HEARTS, 3)],
        closed: false,
        trump_suit: SPADES,
        trump_card: card(SPADES, 11),
        trick: vec![],
        winner: -1,
    };
    let exchange = Action {
        action_type: "exchangeTrump".to_string(),
        actor: None,
        payload: None,
        idempotency_key: None,
    };
    let s = g.apply(&st, &exchange).unwrap();
    let mut before = st.hands[0].clone();
    before.push(st.trump_card);
    before.sort();
    let mut after = s.hands[0].clone();
    after.push(s.trump_card);
    after.sort();
    assert_eq!(before, after);

    let p = g.apply(&s, &play(card(HEARTS, 4))).unwrap();
    let mut held_before = s.hands[0].clone();
    held_before.extend(s.trick.iter());
    held_before.sort();
    let mut held_after = p.hands[0].clone();
    held_after.extend(p.trick.iter());
    held_after.sort();
    assert_eq!(held_before, held_after);
}
