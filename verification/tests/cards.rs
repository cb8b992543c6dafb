use sixtysix::cards::{
    card, card_suit, card_val, has_suit, hand_contains, new_deck, remove, sort_hand,
    trick_points, trick_winner, CLUBS, DIAMONDS, HEARTS, SPADES,
};

#[test]
fn card_encoding_examples() {
    assert_eq!(card(HEARTS, 11), 211);
    assert_eq!(card(CLUBS, 0), 0);
    assert_eq!(card(SPADES, 4), 304);
    assert_eq!(card_suit(211), 2);
    assert_eq!(card_val(211), 11);
    assert_eq!(card_suit(304), 3);
    assert_eq!(card_val(304), 4);
    assert_eq!(trick_points(110), 10);
}

#[test]
fn card_decoding_truncates_toward_zero() {
    assert_eq!(card_suit(-150), -1);
    assert_eq!(card_val(-150), -50);
    assert_eq!(card_suit(99), 0);
    assert_eq!(card_val(99), 99);
}

#[test]
fn has_suit_and_contains() {
    let hand = vec![11, 104, 303];
    assert!(has_suit(&hand, CLUBS));
    assert!(has_suit(&hand, DIAMONDS));
    assert!(!has_suit(&hand, HEARTS));
    assert!(!has_suit(&[], SPADES));
    assert!(hand_contains(&hand, 104));
    assert!(!hand_contains(&hand, 103));
}

#[test]
fn remove_takes_only_first_occurrence() {
    assert_eq!(remove(&[5, 3, 5], 5), vec![3, 5]);
    assert_eq!(remove(&[1, 2, 3], 4), vec![1, 2, 3]);
    assert_eq!(remove(&[], 4), Vec::<i32>::new());
    assert_eq!(remove(&[7], 7), Vec::<i32>::new());
}

#[test]
fn trick_winner_rules() {
    // same suit: the higher value wins
    assert_eq!(trick_winner(200, 211, SPADES), 1);
    assert_eq!(trick_winner(211, 200, SPADES), 0);
    // follower trumps a non-trump lead
    assert_eq!(trick_winner(211, 300, SPADES), 1);
    // off-suit, non-trump follower loses
    assert_eq!(trick_winner(200, 111, SPADES), 0);
    // trump lead answered by another suit
    assert_eq!(trick_winner(300, 211, SPADES), 0);
}

#[test]
fn fresh_deck_order_and_points() {
    let deck = new_deck();
    assert_eq!(
        deck,
        vec![
            11, 10, 4, 3, 2, 0, 111, 110, 104, 103, 102, 100, 211, 210, 204, 203, 202, 200, 311,
            310, 304, 303, 302, 300
        ]
    );
    let total: i32 = deck.iter().map(|&c| card_val(c)).sum();
    assert_eq!(total, 120);
}

#[test]
fn hands_sort_by_suit_then_value() {
    assert_eq!(sort_hand(&[311, 0, 104, 11, 100, 300]), vec![0, 11, 100, 104, 300, 311]);
    assert_eq!(sort_hand(&[]), Vec::<i32>::new());
}
