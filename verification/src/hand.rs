//! Hands: the cards drawn, their running total and the bust flag.

use crate::card::{plus_card_bounds, total_of, Card, Value};
use crate::deck::{all_playing_cards, count_step, Deck};
use vstd::prelude::*;

verus! {

/// The total of playing cards is ordered, counts at least 1 for each card
/// on its low branch and at most 11 for each on its high branch.
pub proof fn total_of_playing_cards(cards: Seq<Card>)
    requires
        all_playing_cards(cards),
    ensures
        total_of(cards).ordered(),
        cards.len() <= total_of(cards).low(),
        total_of(cards).high() <= 11 * cards.len(),
    decreases cards.len(),
{
    if cards.len() > 0 {
        total_of_playing_cards(cards.drop_last());
        plus_card_bounds(total_of(cards.drop_last()), cards.last());
    }
}

/// Two playing cards never make a definite total over 21.
pub proof fn two_cards_are_not_bust(cards: Seq<Card>)
    requires
        all_playing_cards(cards),
        cards.len() == 2,
    ensures
        !total_of(cards).is_bust(),
{
    let one = cards.drop_last();
    assert(cards[0].is_playing_card() && cards[1].is_playing_card());
    assert(one.drop_last() =~= Seq::<Card>::empty());
    assert(total_of(one.drop_last()) == Value::Fixed(0));
    assert(total_of(one) == cards[0]@);
}

/// A playing card joins an ordered total of at most 244 within `u8`.
pub proof fn card_joins_within_u8(total: Value, card: Card)
    requires
        total.ordered(),
        total.high() + 11 <= u8::MAX,
        card.is_playing_card(),
    ensures
        total.plus(card@).fits(),
{
    plus_card_bounds(total, card);
}

/// A run of cards.
#[derive(Clone, Debug)]
pub struct Cards {
    pub cards: Vec<Card>,
}

impl View for Cards {
    type V = Seq<Card>;

    open spec fn view(&self) -> Seq<Card> {
        self.cards@
    }
}

impl Cards {
    /// The total of every front part of `cards` is made of `u8`s.
    pub open spec fn summable(cards: Seq<Card>) -> bool {
        forall|k: int| 0 <= k <= cards.len() ==> (#[trigger] total_of(cards.take(k))).fits()
    }

    /// The total of the cards, each joined to the total of those before it.
    pub fn sum(&self) -> (total: Card)
        requires
            Cards::summable(self@),
        ensures
            total@ == total_of(self@),
    {
        let mut total = Card::Def(0);
        let mut i: usize = 0;
        assert(self@.take(0) =~= Seq::<Card>::empty());
        while i < self.cards.len()
            invariant
                i <= self.cards.len(),
                Cards::summable(self@),
                total@ == total_of(self@.take(i as int)),
            decreases self.cards.len() - i,
        {
            assert(self@.take(i + 1).drop_last() =~= self@.take(i as int));
            assert(total_of(self@.take(i + 1)).fits());
            total = total.add(self.cards[i]);
            i += 1;
        }
        assert(self@.take(i as int) =~= self@);
        total
    }
}

/// What a hand holds, for contracts.
pub struct HandState {
    pub cards: Seq<Card>,
    pub total: Value,
    pub busted: bool,
}

/// The cards drawn into a hand, their total, and whether the hand was found
/// over 21.
#[derive(Debug)]
pub struct Hand {
    cards: Cards,
    sum: Card,
    busted: bool,
}

impl View for Hand {
    type V = HandState;

    closed spec fn view(&self) -> HandState {
        HandState { cards: self.cards@, total: self.sum@, busted: self.busted }
    }
}

impl Hand {
    /// The hand holds playing cards, at least one, its total is theirs, and
    /// it is flagged bust only on a definite total over 21.
    pub open spec fn wf(&self) -> bool {
        &&& self@.cards.len() >= 1
        &&& all_playing_cards(self@.cards)
        &&& self@.total == total_of(self@.cards)
        &&& self@.busted ==> self@.total.is_bust()
    }

    /// A hand of the next two cards of the shoe.
    pub fn new(deck: &mut Deck) -> (hand: Hand)
        requires
            old(deck).wf(),
            old(deck).remaining().len() >= 2,
        ensures
            hand.wf(),
            hand@.cards == seq![
                old(deck).remaining().last(),
                old(deck).remaining().drop_last().last(),
            ],
            !hand@.busted,
            final(deck).wf(),
            final(deck).remaining() == old(deck).remaining().drop_last().drop_last(),
            final(deck).shuffled() == old(deck).shuffled(),
            final(deck).population() == old(deck).population(),
    {
        let first = deck.draw();
        let second = deck.draw();
        let mut drawn: Vec<Card> = Vec::new();
        drawn.push(first);
        drawn.push(second);
        let cards = Cards { cards: drawn };
        proof {
            assert(cards@ =~= seq![first, second]);
            assert forall|k: int| 0 <= k <= cards@.len() implies (#[trigger] total_of(
                cards@.take(k),
            )).fits() by {
                total_of_playing_cards(cards@.take(k));
            }
        }
        let sum = cards.sum();
        Hand { cards, sum, busted: false }
    }

    /// A hand of one card: the second hand of a split before its next card.
    pub fn from_card(card: Card) -> (hand: Hand)
        requires
            card.is_playing_card(),
        ensures
            hand.wf(),
            hand@.cards == seq![card],
            !hand@.busted,
    {
        let mut drawn: Vec<Card> = Vec::new();
        drawn.push(card);
        let sum = card.add(Card::Def(0));
        proof {
            assert(drawn@ =~= seq![card]);
            assert(drawn@.drop_last() =~= Seq::<Card>::empty());
            assert(total_of(drawn@.drop_last()) == Value::Fixed(0));
        }
        Hand { cards: Cards { cards: drawn }, sum, busted: false }
    }

    /// Draws one card, appends it and joins it to the total.
    pub fn hit(&mut self, deck: &mut Deck)
        requires
            old(self).wf(),
            old(deck).wf(),
            old(deck).remaining().len() > 0,
            old(self)@.total.plus(old(deck).remaining().last()@).fits(),
        ensures
            final(self).wf(),
            final(self)@.cards == old(self)@.cards.push(old(deck).remaining().last()),
            final(self)@.total == old(self)@.total.plus(old(deck).remaining().last()@),
            final(self)@.busted == old(self)@.busted,
            final(deck).wf(),
            final(deck).remaining() == old(deck).remaining().drop_last(),
            final(deck).shuffled() == old(deck).shuffled(),
            final(deck).population() == old(deck).population(),
            final(deck).running_count() == old(deck).running_count() + count_step(
                old(deck).remaining().last(),
            ),
    {
        let card = deck.draw();
        proof {
            total_of_playing_cards(self@.cards);
            plus_card_bounds(self@.total, card);
            assert(self@.cards.push(card).drop_last() =~= self@.cards);
        }
        self.cards.cards.push(card);
        self.sum = self.sum.add(card);
    }

    /// Takes the second card out of a hand of two and starts the hand again
    /// from the first.
    pub fn split(&mut self) -> (second: Card)
        requires
            old(self).wf(),
            old(self)@.cards.len() == 2,
        ensures
            final(self).wf(),
            final(self)@.cards == seq![old(self)@.cards[0]],
            final(self)@.busted == old(self)@.busted,
            second == old(self)@.cards[1],
            second.is_playing_card(),
    {
        proof {
            two_cards_are_not_bust(self@.cards);
        }
        let second = self.cards.cards.remove(1);
        let first = self.cards.cards[0];
        self.sum = first;
        proof {
            assert(self@.cards =~= seq![first]);
            assert(self@.cards.drop_last() =~= Seq::<Card>::empty());
            assert(total_of(self@.cards.drop_last()) == Value::Fixed(0));
        }
        second
    }

    /// Flags the hand as over 21, which its total must be.
    pub fn bust(&mut self)
        requires
            old(self)@.total.is_bust(),
        ensures
            final(self)@.cards == old(self)@.cards,
            final(self)@.total == old(self)@.total,
            final(self)@.busted,
    {
        self.busted = true;
    }

    /// The running total.
    pub fn sum(&self) -> (total: Card)
        ensures
            total@ == self@.total,
    {
        self.sum
    }

    /// The total that thresholds are compared with: an ambiguous total
    /// counts as its high branch.
    pub fn real_sum(&self) -> (n: u8)
        ensures
            n == self@.total.high(),
    {
        self.sum.resolved()
    }

    /// Whether the hand was found over 21.
    pub fn busted(&self) -> (flag: bool)
        ensures
            flag == self@.busted,
    {
        self.busted
    }

    /// How many cards the hand holds.
    pub fn len(&self) -> (n: usize)
        ensures
            n == self@.cards.len(),
    {
        self.cards.cards.len()
    }

    /// The card at place `i`, in the order drawn.
    pub fn card(&self, i: usize) -> (card: Card)
        requires
            i < self@.cards.len(),
        ensures
            card == self@.cards[i as int],
    {
        self.cards.cards[i]
    }
}

} // verus!
