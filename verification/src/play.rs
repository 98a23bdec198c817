//! Turns, rounds and shoes: the dealer's and the player's play of a hand,
//! the settlement of a round, and the rounds of one shoe.

use crate::card::{total_of, Card, Value};
use crate::deck::{all_playing_cards, Deck};
use crate::hand::{card_joins_within_u8, total_of_playing_cards, Hand};
use crate::rules::{
    bust_is_flagged, dealer_action, dealer_choice, is_natural, player_action, player_choice,
    split_needs_every_condition,
};
use crate::table::{Action, SimError, Strategy, Tables};
use crate::wallet::Wallet;
use vstd::prelude::*;

verus! {

/// How the play of a hand stands.
pub enum Stop {
    /// The hand plays on.
    Open,
    /// The hand stands.
    Stood,
    /// The hand is over 21.
    Busted,
    /// The hand was a pair and has been split.
    Split,
    /// The play could not go on.
    Failed(SimError),
}

/// The dealer's hand and the shoe after the dealer's play.
pub struct DealerEnd {
    pub cards: Seq<Card>,
    pub shoe: Seq<Card>,
    pub stop: Stop,
}

/// The player's hand, the shoe and the wallet in the play of a hand.
pub struct Seat {
    pub cards: Seq<Card>,
    pub shoe: Seq<Card>,
    pub funds: nat,
    pub stake: nat,
    pub stop: Stop,
}

/// The dealer's play from `cards`: draw from the end of `shoe` as long as
/// the policy says hit.
pub open spec fn dealer_run(cards: Seq<Card>, shoe: Seq<Card>) -> DealerEnd
    decreases shoe.len(),
{
    match dealer_choice(total_of(cards)) {
        Action::Hit => if shoe.len() == 0 {
            DealerEnd { cards, shoe, stop: Stop::Failed(SimError::ShoeExhausted) }
        } else {
            dealer_run(cards.push(shoe.last()), shoe.drop_last())
        },
        Action::Bust => DealerEnd { cards, shoe, stop: Stop::Busted },
        _ => DealerEnd { cards, shoe, stop: Stop::Stood },
    }
}

/// What one action does to a hand.
///
/// Stand and bust end the hand as it is. A hit draws the last card of the
/// shoe, and the hand plays on. A double that the balance covers stakes the
/// stake once more, draws one card and ends the hand, bust if that card
/// takes it over 21; one that the balance does not cover is played as a
/// hit. A split, once the second card has left the hand, is played as a
/// hit. An action that draws fails on an empty shoe.
pub open spec fn step(
    action: Action,
    cards: Seq<Card>,
    shoe: Seq<Card>,
    funds: nat,
    stake: nat,
) -> Seat {
    match action {
        Action::Stand => Seat { cards, shoe, funds, stake, stop: Stop::Stood },
        Action::Bust => Seat { cards, shoe, funds, stake, stop: Stop::Busted },
        _ => if shoe.len() == 0 {
            Seat { cards, shoe, funds, stake, stop: Stop::Failed(SimError::ShoeExhausted) }
        } else if action == Action::Double && funds >= stake {
            Seat {
                cards: cards.push(shoe.last()),
                shoe: shoe.drop_last(),
                funds: (funds - stake) as nat,
                stake: 2 * stake,
                stop: if total_of(cards.push(shoe.last())).is_bust() {
                    Stop::Busted
                } else {
                    Stop::Stood
                },
            }
        } else {
            Seat {
                cards: cards.push(shoe.last()),
                shoe: shoe.drop_last(),
                funds,
                stake,
                stop: Stop::Open,
            }
        },
    }
}

/// The player's play of one hand from `cards`: the strategy's action is
/// taken, as `step` says, until the hand does not play on.
///
/// On a split the second card of the pair leaves the hand, the hand draws
/// one card, and the play ends for the caller to deal the second hand.
pub open spec fn player_run(
    cards: Seq<Card>,
    shoe: Seq<Card>,
    funds: nat,
    stake: nat,
    dealer_up: Card,
    rules: Tables,
    split_used: bool,
) -> Seat
    decreases shoe.len(),
{
    match player_choice(cards, dealer_up, rules, funds, stake, split_used) {
        None => Seat { cards, shoe, funds, stake, stop: Stop::Failed(SimError::NoTableRow) },
        Some(Action::Split) => {
            let next = step(Action::Split, seq![cards[0]], shoe, funds, stake);
            match next.stop {
                Stop::Open => Seat {
                    cards: next.cards,
                    shoe: next.shoe,
                    funds,
                    stake,
                    stop: Stop::Split,
                },
                _ => next,
            }
        },
        Some(action) => {
            let next = step(action, cards, shoe, funds, stake);
            match next.stop {
                Stop::Open => player_run(
                    next.cards,
                    next.shoe,
                    next.funds,
                    next.stake,
                    dealer_up,
                    rules,
                    split_used,
                ),
                _ => next,
            }
        },
    }
}

/// The dealer never stops under 17 while cards are left, and never plays
/// on from 17: the play ends standing on 17 or more, bust exactly when the
/// total is over 21, or under 17 on an empty shoe.
pub proof fn dealer_plays_to_17(cards: Seq<Card>, shoe: Seq<Card>)
    ensures
        ({
            let end = dealer_run(cards, shoe);
            let total = total_of(end.cards);
            &&& end.stop == Stop::Stood <==> total.high() >= 17 && !total.is_bust()
            &&& end.stop == Stop::Busted <==> total.is_bust()
            &&& end.stop == Stop::Failed(SimError::ShoeExhausted) <==> total.high() < 17
            &&& end.stop is Failed ==> end.shoe.len() == 0 && end.stop == Stop::Failed(
                SimError::ShoeExhausted,
            )
            &&& end.shoe.len() <= shoe.len()
        }),
    decreases shoe.len(),
{
    if dealer_choice(total_of(cards)) == Action::Hit && shoe.len() > 0 {
        dealer_plays_to_17(cards.push(shoe.last()), shoe.drop_last());
    }
}

/// A hand over 21 is never played on and never stands: however the
/// player's play ends, the hand is flagged bust exactly when its total is
/// over 21.
pub proof fn player_bust_is_flagged(
    cards: Seq<Card>,
    shoe: Seq<Card>,
    funds: nat,
    stake: nat,
    dealer_up: Card,
    rules: Tables,
    split_used: bool,
)
    requires
        rules.wf(),
        all_playing_cards(cards),
        all_playing_cards(shoe),
        dealer_up.is_playing_card(),
    ensures
        ({
            let end = player_run(cards, shoe, funds, stake, dealer_up, rules, split_used);
            &&& end.stop != Stop::Open
            &&& end.stop == Stop::Busted <==> total_of(end.cards).is_bust()
            &&& end.stop == Stop::Split ==> !split_used
            &&& end.shoe.len() <= shoe.len()
        }),
    decreases shoe.len(),
{
    bust_is_flagged(cards, dealer_up, rules, funds, stake, split_used);
    split_needs_every_condition(cards, dealer_up, rules, funds, stake, split_used);
    match player_choice(cards, dealer_up, rules, funds, stake, split_used) {
        None => {},
        Some(Action::Split) => {
            let one = seq![cards[0]];
            assert(cards[0].is_playing_card());
            assert(one.drop_last() =~= Seq::<Card>::empty());
            assert(total_of(one.drop_last()) == Value::Fixed(0));
            assert(total_of(one) == cards[0]@);
            if shoe.len() > 0 {
                assert(one.push(shoe.last()).drop_last() =~= one);
                assert(shoe.last().is_playing_card());
            }
        },
        Some(action) => {
            let next = step(action, cards, shoe, funds, stake);
            if next.stop == Stop::Open {
                assert(shoe.last().is_playing_card());
                player_bust_is_flagged(
                    next.cards,
                    next.shoe,
                    next.funds,
                    next.stake,
                    dealer_up,
                    rules,
                    split_used,
                );
            }
        },
    }
}

/// The errors that the play of a hand, a round or a shoe can end in.
pub open spec fn is_play_error(error: SimError) -> bool {
    error == SimError::ShoeExhausted || error == SimError::NoTableRow || error
        == SimError::BankrollOverflow
}

/// The player's play fails only on an empty shoe or for want of a row.
pub proof fn player_run_fails_only_in_play(
    cards: Seq<Card>,
    shoe: Seq<Card>,
    funds: nat,
    stake: nat,
    dealer_up: Card,
    rules: Tables,
    split_used: bool,
)
    ensures
        player_run(cards, shoe, funds, stake, dealer_up, rules, split_used).stop matches Stop::Failed(
            error,
        ) ==> error == SimError::ShoeExhausted || error == SimError::NoTableRow,
    decreases shoe.len(),
{
    match player_choice(cards, dealer_up, rules, funds, stake, split_used) {
        None => {},
        Some(Action::Split) => {},
        Some(action) => {
            let next = step(action, cards, shoe, funds, stake);
            if next.stop == Stop::Open {
                player_run_fails_only_in_play(
                    next.cards,
                    next.shoe,
                    next.funds,
                    next.stake,
                    dealer_up,
                    rules,
                    split_used,
                );
            }
        },
    }
}

/// What a call returns for the end of a play that cannot ask for a split.
pub open spec fn turn_result(stop: Stop) -> Result<(), SimError> {
    match stop {
        Stop::Failed(error) => Err(error),
        _ => Ok(()),
    }
}

/// Plays the dealer's hand to its end: the dealer draws under 17 and is
/// flagged bust over 21.
pub fn dealer_turn(dealer: &mut Hand, deck: &mut Deck) -> (done: Result<(), SimError>)
    requires
        old(dealer).wf(),
        old(deck).wf(),
    ensures
        final(dealer).wf(),
        final(deck).wf(),
        final(deck).shuffled() == old(deck).shuffled(),
        final(deck).population() == old(deck).population(),
        final(deck).remaining().len() <= old(deck).remaining().len(),
        final(dealer)@.cards == dealer_run(old(dealer)@.cards, old(deck).remaining()).cards,
        final(deck).remaining() == dealer_run(old(dealer)@.cards, old(deck).remaining()).shoe,
        final(dealer)@.busted == (old(dealer)@.busted || dealer_run(
            old(dealer)@.cards,
            old(deck).remaining(),
        ).stop == Stop::Busted),
        done == turn_result(dealer_run(old(dealer)@.cards, old(deck).remaining()).stop),
{
    let ghost end = dealer_run(dealer@.cards, deck.remaining());
    loop
        invariant
            dealer.wf(),
            deck.wf(),
            deck.shuffled() == old(deck).shuffled(),
            deck.population() == old(deck).population(),
            deck.remaining().len() <= old(deck).remaining().len(),
            dealer@.busted == old(dealer)@.busted,
            dealer_run(dealer@.cards, deck.remaining()) == end,
            end == dealer_run(old(dealer)@.cards, old(deck).remaining()),
        decreases deck.remaining().len(),
    {
        match dealer_action(dealer.sum()) {
            Action::Hit => {
                if deck.cards_left() == 0 {
                    return Err(SimError::ShoeExhausted);
                }
                proof {
                    total_of_playing_cards(dealer@.cards);
                    deck.next_card_is_playing();
                    card_joins_within_u8(dealer@.total, deck.remaining().last());
                }
                dealer.hit(deck);
            },
            Action::Bust => {
                dealer.bust();
                return Ok(());
            },
            _ => {
                return Ok(());
            },
        }
    }
}

/// What `choice` returns for a hand that stands as `stop` says: whether it
/// plays on.
pub open spec fn choice_result(stop: Stop) -> Result<bool, SimError> {
    match stop {
        Stop::Failed(error) => Err(error),
        Stop::Open => Ok(true),
        _ => Ok(false),
    }
}

/// Takes `action` on `hand` and tells whether the hand plays on.
///
/// A double is made only if the balance covers the stake; if not, the
/// hand takes a card as on a hit and plays on. The bust flag stays as it
/// is: it is for the caller to set, where a total over 21 is seen.
pub fn choice(action: Action, deck: &mut Deck, hand: &mut Hand, wallet: &mut Wallet) -> (more:
    Result<bool, SimError>)
    requires
        old(hand).wf(),
        old(deck).wf(),
        old(wallet).wf(),
        action != Action::Stand && action != Action::Bust && old(deck).remaining().len() > 0
            ==> old(hand)@.total.plus(old(deck).remaining().last()@).fits(),
    ensures
        final(hand).wf(),
        final(deck).wf(),
        final(wallet).wf(),
        final(deck).shuffled() == old(deck).shuffled(),
        final(deck).population() == old(deck).population(),
        final(hand)@.busted == old(hand)@.busted,
        ({
            let next = step(
                action,
                old(hand)@.cards,
                old(deck).remaining(),
                old(wallet).funds(),
                old(wallet).stake(),
            );
            &&& final(hand)@.cards == next.cards
            &&& final(deck).remaining() == next.shoe
            &&& final(wallet).funds() == next.funds
            &&& final(wallet).stake() == next.stake
            &&& more == choice_result(next.stop)
        }),
{
    match action {
        Action::Stand => Ok(false),
        Action::Bust => Ok(false),
        _ => {
            if deck.cards_left() == 0 {
                return Err(SimError::ShoeExhausted);
            }
            if action == Action::Double {
                match wallet.double() {
                    Ok(_) => {
                        hand.hit(deck);
                        return Ok(false);
                    },
                    Err(_) => {},
                }
            }
            hand.hit(deck);
            Ok(true)
        },
    }
}

/// What `player_turn` returns for the end of a play: on a split, the card
/// taken out of the hand, which equals the one that stays.
pub open spec fn player_result(stop: Stop, second: Card) -> Result<Option<Card>, SimError> {
    match stop {
        Stop::Failed(error) => Err(error),
        Stop::Split => Ok(Some(second)),
        _ => Ok(None),
    }
}

/// Plays one hand of the player by the strategy until it stands, is bust
/// or has been split.
///
/// On a split the second card leaves the hand and is returned, and the
/// hand has drawn one card; the caller deals the second hand. With
/// `split_used` no split is made.
pub fn player_turn(
    hand: &mut Hand,
    deck: &mut Deck,
    wallet: &mut Wallet,
    dealer_up: Card,
    rules: &Strategy,
    split_used: bool,
) -> (done: Result<Option<Card>, SimError>)
    requires
        old(hand).wf(),
        old(deck).wf(),
        old(wallet).wf(),
        dealer_up.is_playing_card(),
        rules.wf(),
    ensures
        final(hand).wf(),
        final(deck).wf(),
        final(wallet).wf(),
        final(deck).shuffled() == old(deck).shuffled(),
        final(deck).population() == old(deck).population(),
        final(deck).remaining().len() <= old(deck).remaining().len(),
        ({
            let end = player_run(
                old(hand)@.cards,
                old(deck).remaining(),
                old(wallet).funds(),
                old(wallet).stake(),
                dealer_up,
                rules@,
                split_used,
            );
            &&& final(hand)@.cards == end.cards
            &&& final(deck).remaining() == end.shoe
            &&& final(wallet).funds() == end.funds
            &&& final(wallet).stake() == end.stake
            &&& final(hand)@.busted == (old(hand)@.busted || end.stop == Stop::Busted)
            &&& end.stop != Stop::Open
            &&& end.stop == Stop::Split ==> !split_used && end.cards.len() == 2
            &&& done == player_result(end.stop, end.cards[0])
        }),
{
    let ghost end = player_run(
        hand@.cards,
        deck.remaining(),
        wallet.funds(),
        wallet.stake(),
        dealer_up,
        rules@,
        split_used,
    );
    loop
        invariant
            hand.wf(),
            deck.wf(),
            wallet.wf(),
            dealer_up.is_playing_card(),
            rules.wf(),
            deck.shuffled() == old(deck).shuffled(),
            deck.population() == old(deck).population(),
            deck.remaining().len() <= old(deck).remaining().len(),
            hand@.busted == old(hand)@.busted,
            player_run(
                hand@.cards,
                deck.remaining(),
                wallet.funds(),
                wallet.stake(),
                dealer_up,
                rules@,
                split_used,
            ) == end,
            end == player_run(
                old(hand)@.cards,
                old(deck).remaining(),
                old(wallet).funds(),
                old(wallet).stake(),
                dealer_up,
                rules@,
                split_used,
            ),
        decreases deck.remaining().len(),
    {
        match player_action(hand, dealer_up, rules, wallet, split_used) {
            None => {
                return Err(SimError::NoTableRow);
            },
            Some(Action::Split) => {
                let pair = hand.split();
                proof {
                    total_of_playing_cards(hand@.cards);
                    if deck.remaining().len() > 0 {
                        deck.next_card_is_playing();
                        card_joins_within_u8(hand@.total, deck.remaining().last());
                    }
                }
                return match choice(Action::Split, deck, hand, wallet) {
                    Err(error) => Err(error),
                    Ok(_) => Ok(Some(pair)),
                };
            },
            Some(action) => {
                proof {
                    total_of_playing_cards(hand@.cards);
                    if deck.remaining().len() > 0 && (action == Action::Hit || action
                        == Action::Double) {
                        deck.next_card_is_playing();
                        card_joins_within_u8(hand@.total, deck.remaining().last());
                    }
                }
                match choice(action, deck, hand, wallet) {
                    Err(error) => {
                        return Err(error);
                    },
                    Ok(false) => {
                        if hand.sum().is_over() {
                            hand.bust();
                        }
                        return Ok(None);
                    },
                    Ok(true) => {},
                }
            },
        }
    }
}

/// What a settled hand is paid, as a multiple of the stake: 0 for a loss, 1
/// for a push, 2 for a win.
///
/// A hand that is bust loses. Else it wins if the dealer is bust or its
/// total, an ambiguous one counted as its high branch, is above the
/// dealer's; on equal totals it pushes; under the dealer's it loses.
pub open spec fn payout_multiplier(
    hand: Value,
    hand_busted: bool,
    dealer: Value,
    dealer_busted: bool,
) -> nat {
    if !hand_busted && (hand.high() >= dealer.high() || dealer_busted) {
        if hand.high() == dealer.high() {
            1
        } else {
            2
        }
    } else {
        0
    }
}

/// The balance after `multiplier` times the stake is credited, or `None`
/// where that is more than a `usize`.
pub open spec fn paid(funds: nat, stake: nat, multiplier: nat) -> Option<nat> {
    if funds + multiplier * stake <= usize::MAX {
        Some(funds + multiplier * stake)
    } else {
        None
    }
}

/// How a round, or the rounds of a shoe, ended.
pub enum RoundEnd {
    /// Every hand is settled; the shoe and the wallet are as given.
    Settled { shoe: Seq<Card>, funds: nat, stake: nat },
    /// A bet could not be placed; the shoe and the wallet are as given.
    Ruined { shoe: Seq<Card>, funds: nat, stake: nat },
    /// The play could not go on.
    Failed(SimError),
}

/// The end of a round whose last hand is paid `multiplier` times the stake.
pub open spec fn settled(shoe: Seq<Card>, funds: nat, stake: nat, multiplier: nat) -> RoundEnd {
    match paid(funds, stake, multiplier) {
        Some(held) => RoundEnd::Settled { shoe, funds: held, stake: 0 },
        None => RoundEnd::Failed(SimError::BankrollOverflow),
    }
}

/// The two cards that a new hand draws from `shoe`.
pub open spec fn dealt(shoe: Seq<Card>) -> Seq<Card> {
    seq![shoe.last(), shoe.drop_last().last()]
}

/// The shoe after a new hand has drawn its two cards.
pub open spec fn after_deal(shoe: Seq<Card>) -> Seq<Card> {
    shoe.drop_last().drop_last()
}

/// What a finished hand is paid against the dealer's.
pub open spec fn seat_multiplier(seat: Seat, house: DealerEnd) -> nat {
    payout_multiplier(
        total_of(seat.cards),
        seat.stop == Stop::Busted,
        total_of(house.cards),
        house.stop == Stop::Busted,
    )
}

/// The rest of a round after the player's hand has been split.
///
/// The second hand starts from the other card of the pair and draws one.
/// It is played to its end, then the first hand; neither can split again.
/// The second hand is settled against the stake as it then stands; the
/// stake as it stood at the split is placed again, and the first hand is
/// settled against it. Where the balance does not cover that bet the round
/// ends in ruin.
pub open spec fn split_run(
    seat: Seat,
    house: DealerEnd,
    dealer_up: Card,
    rules: Tables,
) -> RoundEnd {
    if seat.shoe.len() == 0 {
        RoundEnd::Failed(SimError::ShoeExhausted)
    } else {
        let two = player_run(
            seq![seat.cards[0]].push(seat.shoe.last()),
            seat.shoe.drop_last(),
            seat.funds,
            seat.stake,
            dealer_up,
            rules,
            true,
        );
        match two.stop {
            Stop::Failed(error) => RoundEnd::Failed(error),
            _ => {
                let one = player_run(
                    seat.cards,
                    two.shoe,
                    two.funds,
                    two.stake,
                    dealer_up,
                    rules,
                    true,
                );
                match one.stop {
                    Stop::Failed(error) => RoundEnd::Failed(error),
                    _ => match paid(one.funds, one.stake, seat_multiplier(two, house)) {
                        None => RoundEnd::Failed(SimError::BankrollOverflow),
                        Some(held) => if held < seat.stake {
                            RoundEnd::Ruined { shoe: one.shoe, funds: held, stake: 0 }
                        } else {
                            settled(
                                one.shoe,
                                (held - seat.stake) as nat,
                                seat.stake,
                                seat_multiplier(one, house),
                            )
                        },
                    },
                }
            },
        }
    }
}

/// One round from a shoe and a wallet.
///
/// The bet of `unit` is placed, or the round ends in ruin. The player's
/// hand is dealt, then the dealer's. A natural is paid 3 times the stake at
/// once. Else the dealer plays, then the player against the dealer's first
/// card, and the hands are settled.
pub open spec fn round_run(
    shoe: Seq<Card>,
    funds: nat,
    stake: nat,
    rules: Tables,
    unit: nat,
) -> RoundEnd {
    if funds < unit {
        RoundEnd::Ruined { shoe, funds, stake }
    } else if shoe.len() < 4 {
        RoundEnd::Failed(SimError::ShoeExhausted)
    } else {
        let player = dealt(shoe);
        let dealer = dealt(after_deal(shoe));
        let left = after_deal(after_deal(shoe));
        let held = (funds - unit) as nat;
        let open = stake + unit;
        if is_natural(total_of(player)) {
            settled(left, held, open, 3)
        } else {
            let house = dealer_run(dealer, left);
            match house.stop {
                Stop::Failed(error) => RoundEnd::Failed(error),
                _ => {
                    let seat = player_run(player, house.shoe, held, open, dealer[0], rules, false);
                    match seat.stop {
                        Stop::Failed(error) => RoundEnd::Failed(error),
                        Stop::Split => split_run(seat, house, dealer[0], rules),
                        _ => settled(
                            seat.shoe,
                            seat.funds,
                            seat.stake,
                            seat_multiplier(seat, house),
                        ),
                    }
                },
            }
        }
    }
}

/// The rounds of one shoe: rounds are played while the shoe holds at least
/// `threshold` cards, and a round that does not settle ends them.
pub open spec fn shoe_run(
    shoe: Seq<Card>,
    funds: nat,
    stake: nat,
    rules: Tables,
    unit: nat,
    threshold: nat,
) -> RoundEnd
    decreases shoe.len(),
{
    if shoe.len() < threshold {
        RoundEnd::Settled { shoe, funds, stake }
    } else {
        match round_run(shoe, funds, stake, rules, unit) {
            RoundEnd::Settled { shoe: left, funds: held, stake: open } => if left.len()
                < shoe.len() {
                shoe_run(left, held, open, rules, unit, threshold)
            } else {
                RoundEnd::Settled { shoe: left, funds: held, stake: open }
            },
            other => other,
        }
    }
}

/// A round fails only on an empty shoe, for want of a row, or on a balance
/// that does not fit.
pub proof fn round_run_fails_only_in_play(
    shoe: Seq<Card>,
    funds: nat,
    stake: nat,
    rules: Tables,
    unit: nat,
)
    ensures
        round_run(shoe, funds, stake, rules, unit) matches RoundEnd::Failed(error)
            ==> is_play_error(error),
{
    if funds >= unit && shoe.len() >= 4 {
        let player = dealt(shoe);
        let dealer = dealt(after_deal(shoe));
        let left = after_deal(after_deal(shoe));
        let held = (funds - unit) as nat;
        let open = stake + unit;
        dealer_plays_to_17(dealer, left);
        let house = dealer_run(dealer, left);
        player_run_fails_only_in_play(player, house.shoe, held, open, dealer[0], rules, false);
        let seat = player_run(player, house.shoe, held, open, dealer[0], rules, false);
        if seat.shoe.len() > 0 {
            player_run_fails_only_in_play(
                seq![seat.cards[0]].push(seat.shoe.last()),
                seat.shoe.drop_last(),
                seat.funds,
                seat.stake,
                dealer[0],
                rules,
                true,
            );
            let two = player_run(
                seq![seat.cards[0]].push(seat.shoe.last()),
                seat.shoe.drop_last(),
                seat.funds,
                seat.stake,
                dealer[0],
                rules,
                true,
            );
            player_run_fails_only_in_play(
                seat.cards,
                two.shoe,
                two.funds,
                two.stake,
                dealer[0],
                rules,
                true,
            );
        }
    }
}

/// The rounds of a shoe fail only as a round does.
pub proof fn shoe_run_fails_only_in_play(
    shoe: Seq<Card>,
    funds: nat,
    stake: nat,
    rules: Tables,
    unit: nat,
    threshold: nat,
)
    ensures
        shoe_run(shoe, funds, stake, rules, unit, threshold) matches RoundEnd::Failed(error)
            ==> is_play_error(error),
    decreases shoe.len(),
{
    if shoe.len() >= threshold {
        round_run_fails_only_in_play(shoe, funds, stake, rules, unit);
        match round_run(shoe, funds, stake, rules, unit) {
            RoundEnd::Settled { shoe: left, funds: held, stake: open } => {
                if left.len() < shoe.len() {
                    shoe_run_fails_only_in_play(left, held, open, rules, unit, threshold);
                }
            },
            _ => {},
        }
    }
}

/// Whether play goes on.
#[derive(Clone, Copy, Debug, PartialEq, Eq, Structural)]
pub enum Outcome {
    /// Every hand is settled.
    Settled,
    /// A bet could not be placed: the simulation is over.
    Ruined,
}

/// Pays the stake `multiplier` times into the balance, unless that is more
/// than a `usize`: then nothing changes.
pub fn pay(wallet: &mut Wallet, multiplier: usize) -> (done: Result<(), SimError>)
    requires
        old(wallet).wf(),
    ensures
        final(wallet).wf(),
        match paid(old(wallet).funds(), old(wallet).stake(), multiplier as nat) {
            Some(held) => done is Ok && final(wallet).funds() == held && final(wallet).stake()
                == 0,
            None => done == Err::<(), SimError>(SimError::BankrollOverflow) && final(
                wallet).funds() == old(wallet).funds() && final(wallet).stake() == old(
                wallet).stake(),
        },
{
    if !wallet.can_pay(multiplier) {
        return Err(SimError::BankrollOverflow);
    }
    if multiplier == 0 {
        assert(0 * wallet.stake() == 0);
        wallet.lose();
    } else {
        wallet.pay_out(multiplier);
    }
    Ok(())
}

/// Settles `hand` against the dealer's: a loss clears the stake, a push
/// returns it, a win returns it twice.
pub fn settle(hand: &Hand, dealer: &Hand, wallet: &mut Wallet) -> (done: Result<(), SimError>)
    requires
        old(wallet).wf(),
    ensures
        final(wallet).wf(),
        match paid(
            old(wallet).funds(),
            old(wallet).stake(),
            payout_multiplier(hand@.total, hand@.busted, dealer@.total, dealer@.busted),
        ) {
            Some(held) => done is Ok && final(wallet).funds() == held && final(wallet).stake()
                == 0,
            None => done == Err::<(), SimError>(SimError::BankrollOverflow) && final(
                wallet).funds() == old(wallet).funds() && final(wallet).stake() == old(
                wallet).stake(),
        },
{
    let hand_final = hand.real_sum();
    let dealer_final = dealer.real_sum();
    if !hand.busted() && (hand_final >= dealer_final || dealer.busted()) {
        if hand_final == dealer_final {
            pay(wallet, 1)
        } else {
            pay(wallet, 2)
        }
    } else {
        pay(wallet, 0)
    }
}

/// What `play_round` and `play_shoe` leave behind for an end `end`.
pub open spec fn leaves(
    end: RoundEnd,
    deck: &Deck,
    wallet: &Wallet,
    done: Result<Outcome, SimError>,
) -> bool {
    match end {
        RoundEnd::Settled { shoe, funds, stake } => {
            &&& done == Ok::<Outcome, SimError>(Outcome::Settled)
            &&& deck.remaining() == shoe
            &&& wallet.funds() == funds
            &&& wallet.stake() == stake
        },
        RoundEnd::Ruined { shoe, funds, stake } => {
            &&& done == Ok::<Outcome, SimError>(Outcome::Ruined)
            &&& deck.remaining() == shoe
            &&& wallet.funds() == funds
            &&& wallet.stake() == stake
        },
        RoundEnd::Failed(error) => done == Err::<Outcome, SimError>(error),
    }
}

/// Plays the two hands of a split to their end and settles them.
fn play_split(
    hand: &mut Hand,
    pair: Card,
    dealer: &Hand,
    dealer_up: Card,
    deck: &mut Deck,
    wallet: &mut Wallet,
    rules: &Strategy,
    Ghost(seat): Ghost<Seat>,
    Ghost(house): Ghost<DealerEnd>,
) -> (done: Result<Outcome, SimError>)
    requires
        old(hand).wf(),
        !old(hand)@.busted,
        pair == old(hand)@.cards[0],
        dealer.wf(),
        dealer_up.is_playing_card(),
        old(deck).wf(),
        old(wallet).wf(),
        rules.wf(),
        seat.cards == old(hand)@.cards,
        seat.shoe == old(deck).remaining(),
        seat.funds == old(wallet).funds(),
        seat.stake == old(wallet).stake(),
        house.cards == dealer@.cards,
        (house.stop == Stop::Busted) == dealer@.busted,
    ensures
        final(deck).wf(),
        final(wallet).wf(),
        final(deck).shuffled() == old(deck).shuffled(),
        final(deck).population() == old(deck).population(),
        final(deck).remaining().len() <= old(deck).remaining().len(),
        leaves(split_run(seat, house, dealer_up, rules@), final(deck), final(wallet), done),
{
    if deck.cards_left() == 0 {
        return Err(SimError::ShoeExhausted);
    }
    let second_bet = wallet.bet();
    let mut hand2 = Hand::from_card(pair);
    proof {
        total_of_playing_cards(hand2@.cards);
        deck.next_card_is_playing();
        card_joins_within_u8(hand2@.total, deck.remaining().last());
    }
    hand2.hit(deck);
    match player_turn(&mut hand2, deck, wallet, dealer_up, rules, true) {
        Err(error) => {
            return Err(error);
        },
        Ok(_) => {},
    }
    match player_turn(hand, deck, wallet, dealer_up, rules, true) {
        Err(error) => {
            return Err(error);
        },
        Ok(_) => {},
    }
    match settle(&hand2, dealer, wallet) {
        Err(error) => {
            return Err(error);
        },
        Ok(_) => {},
    }
    match wallet.place_bet(second_bet) {
        Err(_) => {
            return Ok(Outcome::Ruined);
        },
        Ok(_) => {},
    }
    match settle(hand, dealer, wallet) {
        Err(error) => Err(error),
        Ok(_) => Ok(Outcome::Settled),
    }
}

/// Plays one round: bet, deal, the dealer's play, the player's play with
/// at most one split, and settlement.
///
/// `Ruined` comes back, and nothing has been dealt, where the balance does
/// not cover `bet_unit`. A round that settles has taken at least four cards
/// from the shoe.
pub fn play_round(deck: &mut Deck, wallet: &mut Wallet, rules: &Strategy, bet_unit: usize) -> (done:
    Result<Outcome, SimError>)
    requires
        old(deck).wf(),
        old(wallet).wf(),
        rules.wf(),
    ensures
        final(deck).wf(),
        final(wallet).wf(),
        final(deck).shuffled() == old(deck).shuffled(),
        final(deck).population() == old(deck).population(),
        final(deck).remaining().len() <= old(deck).remaining().len(),
        done == Ok::<Outcome, SimError>(Outcome::Settled) ==> final(deck).remaining().len() + 4
            <= old(deck).remaining().len(),
        leaves(
            round_run(
                old(deck).remaining(),
                old(wallet).funds(),
                old(wallet).stake(),
                rules@,
                bet_unit as nat,
            ),
            final(deck),
            final(wallet),
            done,
        ),
{
    match wallet.place_bet(bet_unit) {
        Err(_) => {
            return Ok(Outcome::Ruined);
        },
        Ok(_) => {},
    }
    if deck.cards_left() < 4 {
        return Err(SimError::ShoeExhausted);
    }
    let mut hand = Hand::new(deck);
    let mut dealer = Hand::new(deck);
    if hand.sum() == Card::Maybe(11, 21) {
        return match pay(wallet, 3) {
            Err(error) => Err(error),
            Ok(_) => Ok(Outcome::Settled),
        };
    }
    let dealer_up = dealer.card(0);
    let ghost house = dealer_run(dealer@.cards, deck.remaining());
    match dealer_turn(&mut dealer, deck) {
        Err(error) => {
            return Err(error);
        },
        Ok(_) => {},
    }
    let ghost seat = player_run(
        hand@.cards,
        deck.remaining(),
        wallet.funds(),
        wallet.stake(),
        dealer_up,
        rules@,
        false,
    );
    match player_turn(&mut hand, deck, wallet, dealer_up, rules, false) {
        Err(error) => Err(error),
        Ok(Some(pair)) => play_split(
            &mut hand,
            pair,
            &dealer,
            dealer_up,
            deck,
            wallet,
            rules,
            Ghost(seat),
            Ghost(house),
        ),
        Ok(None) => match settle(&hand, &dealer, wallet) {
            Err(error) => Err(error),
            Ok(_) => Ok(Outcome::Settled),
        },
    }
}

/// Plays rounds from the shoe while it holds at least `threshold` cards.
///
/// `Settled` comes back when the shoe is due for a shuffle, `Ruined` when
/// a bet could not be placed.
pub fn play_shoe(
    deck: &mut Deck,
    wallet: &mut Wallet,
    rules: &Strategy,
    bet_unit: usize,
    threshold: usize,
) -> (done: Result<Outcome, SimError>)
    requires
        old(deck).wf(),
        old(wallet).wf(),
        rules.wf(),
    ensures
        final(deck).wf(),
        final(wallet).wf(),
        final(deck).shuffled() == old(deck).shuffled(),
        final(deck).population() == old(deck).population(),
        leaves(
            shoe_run(
                old(deck).remaining(),
                old(wallet).funds(),
                old(wallet).stake(),
                rules@,
                bet_unit as nat,
                threshold as nat,
            ),
            final(deck),
            final(wallet),
            done,
        ),
{
    let ghost end = shoe_run(
        deck.remaining(),
        wallet.funds(),
        wallet.stake(),
        rules@,
        bet_unit as nat,
        threshold as nat,
    );
    while deck.cards_left() >= threshold
        invariant
            deck.wf(),
            wallet.wf(),
            rules.wf(),
            deck.shuffled() == old(deck).shuffled(),
            deck.population() == old(deck).population(),
            shoe_run(
                deck.remaining(),
                wallet.funds(),
                wallet.stake(),
                rules@,
                bet_unit as nat,
                threshold as nat,
            ) == end,
            end == shoe_run(
                old(deck).remaining(),
                old(wallet).funds(),
                old(wallet).stake(),
                rules@,
                bet_unit as nat,
                threshold as nat,
            ),
        decreases deck.remaining().len(),
    {
        match play_round(deck, wallet, rules, bet_unit) {
            Err(error) => {
                return Err(error);
            },
            Ok(Outcome::Ruined) => {
                return Ok(Outcome::Ruined);
            },
            Ok(Outcome::Settled) => {},
        }
    }
    Ok(Outcome::Settled)
}

} // verus!
