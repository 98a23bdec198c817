use bjo::card::Card;
use bjo::deck::{playing_cards_only, Deck};
use bjo::hand::Hand;

const ACE: Card = Card::Maybe(1, 11);

fn drain(deck: &mut Deck) -> Vec<Card> {
    let mut cards = Vec::new();
    while deck.cards_left() > 0 {
        cards.push(deck.draw());
    }
    cards
}

#[test]
fn new_deck_has_nothing_to_draw() {
    let deck = Deck::new(6).unwrap();
    assert_eq!(deck.cards_left(), 0);
    assert_eq!(deck.count(), 0);
}

#[test]
fn shuffle_samples_the_subset_size() {
    let mut deck = Deck::new(6).unwrap();
    deck.shuffle(260);
    assert_eq!(deck.cards_left(), 260);
    assert_eq!(deck.count(), 0);
    let cards = drain(&mut deck);
    assert_eq!(cards.len(), 260);
    assert!(playing_cards_only(&cards));
}

#[test]
fn shuffle_of_everything_is_the_population() {
    let mut deck = Deck::new(2).unwrap();
    deck.shuffle(1000);
    assert_eq!(deck.cards_left(), 104);
    let cards = drain(&mut deck);
    assert_eq!(cards.iter().filter(|c| **c == ACE).count(), 8);
    assert_eq!(cards.iter().filter(|c| **c == Card::Def(10)).count(), 32);
    for n in 2..=9 {
        assert_eq!(cards.iter().filter(|c| **c == Card::Def(n)).count(), 8);
    }
    assert_eq!(deck.count(), 8 + 32 - 5 * 8);
}

#[test]
fn shuffle_never_takes_a_card_twice() {
    let mut deck = Deck::new(1).unwrap();
    for _ in 0..50 {
        deck.shuffle(40);
        let cards = drain(&mut deck);
        assert_eq!(cards.len(), 40);
        assert!(cards.iter().filter(|c| **c == ACE).count() <= 4);
        assert!(cards.iter().filter(|c| **c == Card::Def(10)).count() <= 16);
        for n in 2..=9 {
            assert!(cards.iter().filter(|c| **c == Card::Def(n)).count() <= 4);
        }
    }
}

#[test]
fn shuffle_starts_the_count_again() {
    let mut deck = Deck::new(1).unwrap();
    assert!(deck.stack(vec![Card::Def(2), Card::Def(3)]));
    deck.draw();
    assert_eq!(deck.count(), -1);
    deck.shuffle(10);
    assert_eq!(deck.count(), 0);
    assert_eq!(deck.cards_left(), 10);
}

#[test]
fn draw_takes_the_last_card_and_counts() {
    let mut deck = Deck::new(1).unwrap();
    assert!(deck.stack(vec![Card::Def(7), Card::Def(9), Card::Def(6), Card::Def(2), Card::Def(10), ACE]));
    assert_eq!(deck.cards_left(), 6);
    assert_eq!(deck.draw(), ACE);
    assert_eq!(deck.count(), 1);
    assert_eq!(deck.draw(), Card::Def(10));
    assert_eq!(deck.count(), 2);
    assert_eq!(deck.draw(), Card::Def(2));
    assert_eq!(deck.count(), 1);
    assert_eq!(deck.draw(), Card::Def(6));
    assert_eq!(deck.count(), 0);
    assert_eq!(deck.draw(), Card::Def(9));
    assert_eq!(deck.count(), 0);
    assert_eq!(deck.draw(), Card::Def(7));
    assert_eq!(deck.count(), 0);
    assert_eq!(deck.cards_left(), 0);
}

#[test]
fn stack_refuses_what_is_no_playing_card() {
    let mut deck = Deck::new(1).unwrap();
    assert!(deck.stack(vec![Card::Def(5)]));
    assert!(!deck.stack(vec![Card::Def(5), Card::Def(1)]));
    assert!(!deck.stack(vec![Card::Maybe(2, 12)]));
    assert_eq!(deck.cards_left(), 1);
    assert_eq!(deck.draw(), Card::Def(5));
}

#[test]
fn seeded_decks_shuffle_alike() {
    let mut one = Deck::seeded(6, 2024);
    let mut two = Deck::seeded(6, 2024);
    for _ in 0..3 {
        one.shuffle(260);
        two.shuffle(260);
        assert_eq!(drain(&mut one), drain(&mut two));
    }
}

#[test]
fn shuffles_differ_from_the_population_order() {
    let mut deck = Deck::seeded(6, 7);
    deck.shuffle(260);
    let first = drain(&mut deck);
    deck.shuffle(260);
    let second = drain(&mut deck);
    assert_ne!(first, second);
}

#[test]
fn fits_bounds_the_number_of_decks() {
    let most = std::cmp::min(isize::MAX as usize, u32::MAX as usize) / 52;
    assert!(Deck::fits(0));
    assert!(Deck::fits(6));
    assert!(Deck::fits(most));
    assert!(!Deck::fits(most + 1));
    assert!(!Deck::fits(usize::MAX));
}

#[test]
fn seeded_deck_needs_no_randomness_of_the_system() {
    let mut deck = Deck::seeded(1, 5);
    assert_eq!(deck.cards_left(), 0);
    deck.shuffle(52);
    assert_eq!(deck.cards_left(), 52);
}

#[test]
fn new_hand_draws_two_cards() {
    let mut deck = Deck::new(1).unwrap();
    assert!(deck.stack(vec![Card::Def(4), Card::Def(10), ACE]));
    let hand = Hand::new(&mut deck);
    assert_eq!(hand.len(), 2);
    assert_eq!(hand.card(0), ACE);
    assert_eq!(hand.card(1), Card::Def(10));
    assert_eq!(hand.sum(), Card::Maybe(11, 21));
    assert_eq!(hand.real_sum(), 21);
    assert!(!hand.busted());
    assert_eq!(deck.cards_left(), 1);
}

#[test]
fn hit_appends_and_recombines() {
    let mut deck = Deck::new(1).unwrap();
    assert!(deck.stack(vec![Card::Def(9), Card::Def(5), Card::Def(10), ACE]));
    let mut hand = Hand::new(&mut deck);
    hand.hit(&mut deck);
    assert_eq!(hand.len(), 3);
    assert_eq!(hand.card(2), Card::Def(5));
    assert_eq!(hand.sum(), Card::Def(16));
    hand.hit(&mut deck);
    assert_eq!(hand.sum(), Card::Def(25));
    assert_eq!(hand.real_sum(), 25);
    assert!(!hand.busted());
    hand.bust();
    assert!(hand.busted());
}

#[test]
fn split_leaves_the_first_card() {
    let mut deck = Deck::new(1).unwrap();
    assert!(deck.stack(vec![Card::Def(3), ACE, ACE]));
    let mut hand = Hand::new(&mut deck);
    assert_eq!(hand.sum(), Card::Maybe(2, 12));
    assert_eq!(hand.split(), ACE);
    assert_eq!(hand.len(), 1);
    assert_eq!(hand.sum(), ACE);
    let mut other = Hand::from_card(ACE);
    assert_eq!(other.sum(), ACE);
    other.hit(&mut deck);
    assert_eq!(other.sum(), Card::Maybe(4, 14));
}
