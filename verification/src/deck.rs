//! The shoe: the card population, the sample that a cycle draws from, and
//! the running count.

use crate::card::Card;
use rand::rngs::{OsRng, StdRng};
use rand::seq::SliceRandom;
use rand::SeedableRng;
use vstd::prelude::*;

verus! {

/// `rand::rngs::StdRng`, the generator behind every shuffle, as an opaque
/// value.
#[verifier::external_type_specification]
#[verifier::external_body]
pub struct ExStdRng(StdRng);

/// `StdRng::from_rng` on `OsRng`: a generator seeded by the operating
/// system, or `None` where the system has no randomness to give. Nothing
/// is claimed of the generator, nor of when there is one.
#[verifier::external_body]
fn os_seeded_rng() -> Option<StdRng> {
    StdRng::from_rng(OsRng).ok()
}

/// `StdRng::seed_from_u64`: a generator that starts from `seed`. Nothing is
/// claimed of it.
#[verifier::external_body]
fn seeded_rng(seed: u64) -> StdRng {
    StdRng::seed_from_u64(seed)
}

/// `SliceRandom::choose_multiple`, collected: `amount` cards of `pool`, or
/// all of them if there are fewer, no place of `pool` taken twice, in an
/// order that depends on the generator. The pool is kept within `u32`:
/// beyond it the crate samples by a routine that does not take the whole
/// pool.
#[verifier::external_body]
fn choose_multiple(pool: &Vec<Card>, rng: &mut StdRng, amount: usize) -> (picked: Vec<Card>)
    requires
        pool@.len() <= u32::MAX,
    ensures
        picked@.len() == sample_len(pool@.len(), amount as nat),
        sampled_from(pool@, picked@),
{
    pool.choose_multiple(rng, amount).copied().collect()
}

/// The population of `number_of_decks` decks can be held and sampled: its
/// size is within `isize` and within `u32`.
pub open spec fn decks_fit(number_of_decks: nat) -> bool {
    52 * number_of_decks <= isize::MAX && 52 * number_of_decks <= u32::MAX
}

/// How many cards a sample of `amount` holds when the pool has `pool_len`.
pub open spec fn sample_len(pool_len: nat, amount: nat) -> nat {
    if amount <= pool_len {
        amount
    } else {
        pool_len
    }
}

/// `at` gives, for each card of `picked`, a place of `pool` that holds it,
/// and no place twice.
pub open spec fn picked_at(pool: Seq<Card>, picked: Seq<Card>, at: Seq<int>) -> bool {
    &&& at.len() == picked.len()
    &&& at.no_duplicates()
    &&& forall|k: int|
        0 <= k < at.len() ==> 0 <= #[trigger] at[k] < pool.len() && pool[at[k]] == picked[k]
}

/// `picked` is a sample of `pool` without replacement, in some order.
pub open spec fn sampled_from(pool: Seq<Card>, picked: Seq<Card>) -> bool {
    exists|at: Seq<int>| picked_at(pool, picked, at)
}

/// Every card of `cards` is a card of a deck.
pub open spec fn all_playing_cards(cards: Seq<Card>) -> bool {
    forall|i: int| 0 <= i < cards.len() ==> (#[trigger] cards[i]).is_playing_card()
}

/// The card at place `rank` of a suit: the ace first, then 2 to 9, then
/// the four cards that count 10.
pub open spec fn card_of_rank(rank: int) -> Card {
    if rank == 0 {
        Card::Maybe(1, 11)
    } else if rank <= 8 {
        Card::Def((rank + 1) as u8)
    } else {
        Card::Def(10)
    }
}

/// The population of `number_of_decks` decks: suit after suit of 13 cards.
pub open spec fn standard_population(number_of_decks: nat) -> Seq<Card> {
    Seq::new(52 * number_of_decks, |i: int| card_of_rank(i % 13))
}

/// What a drawn card adds to the running count.
pub open spec fn count_step(card: Card) -> int {
    match card {
        Card::Maybe(_, _) => 1,
        Card::Def(n) => if n == 10 {
            1
        } else if n < 7 {
            -1
        } else {
            0
        },
    }
}

/// The running count after `drawn` has left the shoe.
pub open spec fn count_of(drawn: Seq<Card>) -> int
    decreases drawn.len(),
{
    if drawn.len() == 0 {
        0
    } else {
        count_step(drawn[0]) + count_of(drawn.skip(1))
    }
}

fn rank_card(rank: usize) -> (card: Card)
    requires
        rank < 13,
    ensures
        card == card_of_rank(rank as int),
        card.is_playing_card(),
{
    if rank == 0 {
        Card::Maybe(1, 11)
    } else if rank <= 8 {
        Card::Def((rank + 1) as u8)
    } else {
        Card::Def(10)
    }
}

/// Tells whether every card of `cards` is a card of a deck.
pub fn playing_cards_only(cards: &Vec<Card>) -> (r: bool)
    ensures
        r == all_playing_cards(cards@),
{
    let mut i: usize = 0;
    while i < cards.len()
        invariant
            i <= cards.len(),
            forall|k: int| 0 <= k < i ==> (#[trigger] cards@[k]).is_playing_card(),
        decreases cards.len() - i,
    {
        if !cards[i].playing_card() {
            return false;
        }
        i += 1;
    }
    true
}

/// A sample of a pool of playing cards holds playing cards only.
pub proof fn sample_of_playing_cards(pool: Seq<Card>, picked: Seq<Card>)
    requires
        all_playing_cards(pool),
        sampled_from(pool, picked),
    ensures
        all_playing_cards(picked),
{
    let at = choose|at: Seq<int>| picked_at(pool, picked, at);
    assert forall|i: int| 0 <= i < picked.len() implies (#[trigger] picked[i]).is_playing_card(
    ) by {
        assert(pool[at[i]] == picked[i]);
    }
}

/// A shoe.
pub struct Deck {
    cards: Vec<Card>,
    drawables: Vec<Card>,
    counter: isize,
    rng: StdRng,
    dealt_from: Ghost<Seq<Card>>,
}

impl Deck {
    /// The full population that every cycle samples from.
    pub closed spec fn population(&self) -> Seq<Card> {
        self.cards@
    }

    /// The cards still to be drawn; the last one is drawn first.
    pub closed spec fn remaining(&self) -> Seq<Card> {
        self.drawables@
    }

    /// The cards of this cycle as they stood before any was drawn.
    pub closed spec fn shuffled(&self) -> Seq<Card> {
        self.dealt_from@
    }

    /// The running count of the cards drawn in this cycle.
    pub closed spec fn running_count(&self) -> int {
        self.counter as int
    }

    /// The shoe holds playing cards only; what remains is the front of what
    /// the cycle started with; and the running count is that of the cards
    /// that have left.
    pub open spec fn wf(&self) -> bool {
        &&& all_playing_cards(self.population())
        &&& self.population().len() <= isize::MAX
        &&& self.population().len() <= u32::MAX
        &&& all_playing_cards(self.shuffled())
        &&& self.shuffled().len() <= isize::MAX
        &&& self.remaining().len() <= self.shuffled().len()
        &&& self.remaining() == self.shuffled().take(self.remaining().len() as int)
        &&& self.running_count() == count_of(self.shuffled().skip(self.remaining().len() as int))
        &&& -(self.shuffled().len() - self.remaining().len()) <= self.running_count()
            <= self.shuffled().len() - self.remaining().len()
    }

    /// The card that is drawn next is a playing card.
    pub proof fn next_card_is_playing(&self)
        requires
            self.wf(),
            self.remaining().len() > 0,
        ensures
            self.remaining().last().is_playing_card(),
    {
        let left = self.remaining().len() - 1;
        assert(self.remaining()[left] == self.shuffled()[left]);
    }

    fn build(number_of_decks: usize, rng: StdRng) -> (deck: Deck)
        requires
            decks_fit(number_of_decks as nat),
        ensures
            deck.wf(),
            deck.population() == standard_population(number_of_decks as nat),
            deck.remaining().len() == 0,
            deck.shuffled().len() == 0,
            deck.running_count() == 0,
    {
        let size: usize = 52 * number_of_decks;
        let mut cards: Vec<Card> = Vec::new();
        let mut i: usize = 0;
        while i < size
            invariant
                i <= size,
                cards@.len() == i,
                forall|k: int| 0 <= k < i ==> #[trigger] cards@[k] == card_of_rank(k % 13),
                forall|k: int| 0 <= k < i ==> (#[trigger] cards@[k]).is_playing_card(),
            decreases size - i,
        {
            cards.push(rank_card(i % 13));
            i += 1;
        }
        assert(cards@ =~= standard_population(number_of_decks as nat));
        let deck = Deck {
            cards,
            drawables: Vec::new(),
            counter: 0,
            rng,
            dealt_from: Ghost(Seq::empty()),
        };
        assert(deck.shuffled().skip(0) =~= Seq::<Card>::empty());
        assert(deck.remaining() =~= deck.shuffled().take(0));
        deck
    }

    /// The shoe of `number_of_decks` decks, with nothing to draw yet, that
    /// shuffles from the operating system's randomness; `None` where the
    /// system has none to give.
    pub fn new(number_of_decks: usize) -> (made: Option<Deck>)
        requires
            decks_fit(number_of_decks as nat),
        ensures
            made matches Some(deck) ==> {
                &&& deck.wf()
                &&& deck.population() == standard_population(number_of_decks as nat)
                &&& deck.remaining().len() == 0
                &&& deck.running_count() == 0
            },
    {
        match os_seeded_rng() {
            Some(rng) => Some(Deck::build(number_of_decks, rng)),
            None => None,
        }
    }

    /// As `new`, but every shuffle follows from `seed`, and there is always
    /// a shoe.
    pub fn seeded(number_of_decks: usize, seed: u64) -> (deck: Deck)
        requires
            decks_fit(number_of_decks as nat),
        ensures
            deck.wf(),
            deck.population() == standard_population(number_of_decks as nat),
            deck.remaining().len() == 0,
            deck.running_count() == 0,
    {
        Deck::build(number_of_decks, seeded_rng(seed))
    }

    /// Tells whether `new` and `seeded` take this number of decks.
    pub fn fits(number_of_decks: usize) -> (r: bool)
        ensures
            r == decks_fit(number_of_decks as nat),
    {
        number_of_decks <= (isize::MAX as usize) / 52 && number_of_decks <= (u32::MAX as usize)
            / 52
    }

    /// Puts `order` in place of a shuffle, so that its last card is drawn
    /// first. Nothing changes, and `false` comes back, if `order` holds
    /// anything but playing cards or is longer than `isize::MAX`.
    pub fn stack(&mut self, order: Vec<Card>) -> (stacked: bool)
        requires
            old(self).wf(),
        ensures
            final(self).wf(),
            final(self).population() == old(self).population(),
            stacked == (all_playing_cards(order@) && order@.len() <= isize::MAX),
            stacked ==> final(self).shuffled() == order@ && final(self).remaining() == order@
                && final(self).running_count() == 0,
            !stacked ==> final(self).shuffled() == old(self).shuffled() && final(self).remaining()
                == old(self).remaining() && final(self).running_count() == old(
                self).running_count(),
    {
        if order.len() > isize::MAX as usize || !playing_cards_only(&order) {
            return false;
        }
        self.dealt_from = Ghost(order@);
        self.drawables = order;
        self.counter = 0;
        assert(self.shuffled().skip(self.remaining().len() as int) =~= Seq::<Card>::empty());
        assert(self.remaining() =~= self.shuffled().take(self.remaining().len() as int));
        true
    }

    /// Samples `size` cards of the population, or all of it if it is
    /// smaller, as the cards of a new cycle, and starts the count again.
    pub fn shuffle(&mut self, size: usize)
        requires
            old(self).wf(),
        ensures
            final(self).wf(),
            final(self).population() == old(self).population(),
            final(self).remaining() == final(self).shuffled(),
            final(self).remaining().len() == sample_len(old(self).population().len(), size as nat),
            sampled_from(final(self).population(), final(self).remaining()),
            final(self).running_count() == 0,
    {
        let picked = choose_multiple(&self.cards, &mut self.rng, size);
        proof {
            sample_of_playing_cards(self.cards@, picked@);
        }
        self.dealt_from = Ghost(picked@);
        self.drawables = picked;
        self.counter = 0;
        assert(self.shuffled().skip(self.remaining().len() as int) =~= Seq::<Card>::empty());
        assert(self.remaining() =~= self.shuffled().take(self.remaining().len() as int));
    }

    /// How many cards are left to draw.
    pub fn cards_left(&self) -> (n: usize)
        ensures
            n == self.remaining().len(),
    {
        self.drawables.len()
    }

    /// The running count.
    pub fn count(&self) -> (n: isize)
        ensures
            n == self.running_count(),
    {
        self.counter
    }

    /// Takes the last of the remaining cards and moves the running count: up
    /// by 1 for an ace or a card that counts 10, down by 1 for a card under
    /// 7.
    pub fn draw(&mut self) -> (card: Card)
        requires
            old(self).wf(),
            old(self).remaining().len() > 0,
        ensures
            final(self).wf(),
            card == old(self).remaining().last(),
            card.is_playing_card(),
            final(self).remaining() == old(self).remaining().drop_last(),
            final(self).shuffled() == old(self).shuffled(),
            final(self).population() == old(self).population(),
            final(self).running_count() == old(self).running_count() + count_step(card),
    {
        let ghost before = self.drawables@;
        let ghost left = self.drawables@.len() - 1;
        let card = self.drawables.pop().unwrap();
        proof {
            let all = self.dealt_from@;
            assert(before[left] == all[left]);
            assert(all.skip(left).skip(1) =~= all.skip(left + 1));
            assert(all.skip(left)[0] == card);
            assert(self.drawables@ =~= all.take(left));
        }
        let step: isize = match card {
            Card::Maybe(_, _) => 1,
            Card::Def(n) => if n == 10 {
                1
            } else if n < 7 {
                -1
            } else {
                0
            },
        };
        self.counter = self.counter + step;
        card
    }
}

} // verus!
