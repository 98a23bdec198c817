//! Card values and the arithmetic of hand totals with an unresolved ace.

use vstd::prelude::*;

verus! {

/// What a card, or a run of cards, counts for, over the integers.
///
/// `Fixed(n)` is a definite total. `Ambiguous(low, high)` is a total that
/// still holds an ace counted as either 1 or 11.
pub enum Value {
    Fixed(int),
    Ambiguous(int, int),
}

impl Value {
    /// The total that thresholds are compared with: the high branch of an
    /// ambiguous total.
    pub open spec fn high(self) -> int {
        match self {
            Value::Fixed(n) => n,
            Value::Ambiguous(_, high) => high,
        }
    }

    /// The total with every ace counted as 1.
    pub open spec fn low(self) -> int {
        match self {
            Value::Fixed(n) => n,
            Value::Ambiguous(low, _) => low,
        }
    }

    /// The total still holds an ace that may count either way.
    pub open spec fn is_ambiguous(self) -> bool {
        self is Ambiguous
    }

    /// A definite total over 21.
    pub open spec fn is_bust(self) -> bool {
        self matches Value::Fixed(n) && n > 21
    }

    /// No component is negative.
    pub open spec fn non_negative(self) -> bool {
        match self {
            Value::Fixed(n) => 0 <= n,
            Value::Ambiguous(low, high) => 0 <= low && 0 <= high,
        }
    }

    /// No component is negative, and the low branch is not above the high one.
    pub open spec fn ordered(self) -> bool {
        match self {
            Value::Fixed(n) => 0 <= n,
            Value::Ambiguous(low, high) => 0 <= low <= high,
        }
    }

    /// Every component is a `u8`.
    pub open spec fn fits(self) -> bool {
        match self {
            Value::Fixed(n) => 0 <= n <= u8::MAX,
            Value::Ambiguous(low, high) => 0 <= low <= u8::MAX && 0 <= high <= u8::MAX,
        }
    }

    /// The running total `self` after `other` joins it.
    ///
    /// Two definite values add up. A definite and an ambiguous value add up
    /// branch by branch, and the result becomes definite, on the low branch,
    /// as soon as the high branch passes 21. An ambiguous total that meets
    /// another ambiguous value only moves up by 1 on both branches, whatever
    /// the other value holds.
    pub open spec fn plus(self, other: Value) -> Value {
        match (self, other) {
            (Value::Fixed(a), Value::Fixed(b)) => Value::Fixed(a + b),
            (Value::Fixed(a), Value::Ambiguous(low, high)) => Value::mixed(a, low, high),
            (Value::Ambiguous(low, high), Value::Fixed(a)) => Value::mixed(a, low, high),
            (Value::Ambiguous(low, high), Value::Ambiguous(_, _)) => Value::Ambiguous(
                low + 1,
                high + 1,
            ),
        }
    }

    /// A definite `a` together with an ambiguous `(low, high)`.
    pub open spec fn mixed(a: int, low: int, high: int) -> Value {
        if a + high > 21 {
            Value::Fixed(a + low)
        } else {
            Value::Ambiguous(a + low, a + high)
        }
    }
}

/// A card value as the engine stores it.
#[derive(Clone, Copy, Debug, PartialEq, Eq, Structural)]
pub enum Card {
    /// A definite contribution.
    Def(u8),
    /// A contribution that counts as the first or as the second number.
    Maybe(u8, u8),
}

impl View for Card {
    type V = Value;

    open spec fn view(&self) -> Value {
        match *self {
            Card::Def(n) => Value::Fixed(n as int),
            Card::Maybe(low, high) => Value::Ambiguous(low as int, high as int),
        }
    }
}

impl Card {
    /// The cards of a deck: 2 to 10 as definite values, and the ace.
    pub open spec fn is_playing_card(self) -> bool {
        match self {
            Card::Def(n) => 2 <= n <= 10,
            Card::Maybe(low, high) => low == 1 && high == 11,
        }
    }

    /// Tells whether `self` is a card of a deck.
    pub fn playing_card(self) -> (r: bool)
        ensures
            r == self.is_playing_card(),
    {
        match self {
            Card::Def(n) => 2 <= n && n <= 10,
            Card::Maybe(low, high) => low == 1 && high == 11,
        }
    }

    /// The total `self` after `other` joins it.
    pub fn add(self, other: Card) -> (r: Card)
        requires
            self@.plus(other@).fits(),
        ensures
            r@ == self@.plus(other@),
    {
        match (self, other) {
            (Card::Def(a), Card::Def(b)) => Card::Def(a + b),
            (Card::Def(a), Card::Maybe(low, high)) => Card::join(a, low, high),
            (Card::Maybe(low, high), Card::Def(a)) => Card::join(a, low, high),
            (Card::Maybe(low, high), Card::Maybe(_, _)) => Card::Maybe(low + 1, high + 1),
        }
    }

    fn join(a: u8, low: u8, high: u8) -> (r: Card)
        requires
            Value::mixed(a as int, low as int, high as int).fits(),
        ensures
            r@ == Value::mixed(a as int, low as int, high as int),
    {
        if a as u16 + high as u16 > 21 {
            Card::Def(a + low)
        } else {
            Card::Maybe(a + low, a + high)
        }
    }

    /// The number that thresholds are compared with: the value itself, or
    /// the high branch of an ambiguous one.
    pub fn resolved(self) -> (n: u8)
        ensures
            n == self@.high(),
    {
        match self {
            Card::Def(n) => n,
            Card::Maybe(_, high) => high,
        }
    }

    /// Tells whether `self` is a definite total over 21.
    pub fn is_over(self) -> (r: bool)
        ensures
            r == self@.is_bust(),
    {
        match self {
            Card::Def(n) => n > 21,
            Card::Maybe(_, _) => false,
        }
    }
}

/// The total of a run of cards: each card joins the total of those before
/// it, starting from a definite 0.
pub open spec fn total_of(cards: Seq<Card>) -> Value
    decreases cards.len(),
{
    if cards.len() == 0 {
        Value::Fixed(0)
    } else {
        total_of(cards.drop_last()).plus(cards.last()@)
    }
}

/// Joining values is associative as long as at most one of the three is
/// ambiguous: however they are grouped, the total is the same.
pub proof fn plus_associative(a: Value, b: Value, c: Value)
    requires
        a.non_negative(),
        b.non_negative(),
        c.non_negative(),
        !(a.is_ambiguous() && b.is_ambiguous()),
        !(a.is_ambiguous() && c.is_ambiguous()),
        !(b.is_ambiguous() && c.is_ambiguous()),
    ensures
        a.plus(b).plus(c) == a.plus(b.plus(c)),
{
}

/// Among the cards of a deck, grouping three of them either way gives the
/// same total exactly when at most one of them is an ace, or when a card of
/// 9 or less is followed by two aces.
pub proof fn plus_associative_on_cards(a: Card, b: Card, c: Card)
    requires
        a.is_playing_card(),
        b.is_playing_card(),
        c.is_playing_card(),
    ensures
        a@.plus(b@).plus(c@) == a@.plus(b@.plus(c@)) <==> {
            ||| !(a@.is_ambiguous() && b@.is_ambiguous()) && !(a@.is_ambiguous()
                && c@.is_ambiguous()) && !(b@.is_ambiguous() && c@.is_ambiguous())
            ||| !a@.is_ambiguous() && a@.high() <= 9 && b@.is_ambiguous() && c@.is_ambiguous()
        },
{
}

/// A card of a deck adds at least 1 to the low branch of a total and at
/// most 11 to either branch, and an ordered total stays ordered.
pub proof fn plus_card_bounds(total: Value, card: Card)
    requires
        total.ordered(),
        card.is_playing_card(),
    ensures
        total.low() + 1 <= total.plus(card@).low() <= total.low() + 11,
        total.plus(card@).high() <= total.high() + 11,
        total.plus(card@).ordered(),
{
}

} // verus!
