//! The decision procedures: what the dealer and the player do next.

use crate::card::{total_of, Card, Value};
use crate::deck::all_playing_cards;
use crate::hand::{total_of_playing_cards, Hand};
use crate::table::{is_table_action, Action, Strategy, Tables, SIDE};
use crate::wallet::Wallet;
use vstd::prelude::*;

verus! {

/// The place of a card on a table's axis: 2 to 9 stand at 0 to 7, a card
/// that counts 10 at 8, the ace at 9.
pub open spec fn index_of(card: Card) -> int {
    card@.high() - 2
}

/// The place of a playing card on a table's axis.
pub fn to_index(card: Card) -> (i: usize)
    requires
        card.is_playing_card(),
    ensures
        i == index_of(card),
        i < SIDE,
{
    (card.resolved() - 2) as usize
}

/// The dealer's fixed policy: draw under 17, counting an ambiguous total
/// as its high branch; over 21, bust; else stand.
pub open spec fn dealer_choice(total: Value) -> Action {
    if total.high() < 17 {
        Action::Hit
    } else if total.is_bust() {
        Action::Bust
    } else {
        Action::Stand
    }
}

/// What the dealer does on `total`.
pub fn dealer_action(total: Card) -> (action: Action)
    ensures
        action == dealer_choice(total@),
        total@.high() < 17 ==> action == Action::Hit,
        total@.high() >= 17 && !total@.is_bust() ==> action == Action::Stand,
        total@.is_bust() ==> action == Action::Bust,
{
    if total.resolved() < 17 {
        Action::Hit
    } else if total.is_over() {
        Action::Bust
    } else {
        Action::Stand
    }
}

/// An ace with a card that counts 10.
pub open spec fn is_natural(total: Value) -> bool {
    total == Value::Ambiguous(11, 21)
}

/// The soft table's row for a soft total: 13 to 22 stand at 0 to 9, and a
/// pair of aces, 12, at the last row.
pub open spec fn soft_row(high: int) -> int {
    if high == 12 {
        9
    } else {
        high - 13
    }
}

/// A hand of exactly two equal cards may be split once, while the balance
/// covers the stake, where the split table says so.
pub open spec fn may_split(
    cards: Seq<Card>,
    dealer_up: Card,
    rules: Tables,
    funds: nat,
    stake: nat,
    split_used: bool,
) -> bool {
    &&& cards.len() == 2
    &&& cards[0] == cards[1]
    &&& !split_used
    &&& funds >= stake
    &&& rules.split_at(index_of(cards[0]), index_of(dealer_up))
}

/// The player's next action, or `None` where a soft total has no row.
///
/// A definite total over 21 is bust. Else a pair is split where
/// `may_split` allows. Else a soft 21 stands, another soft total follows
/// the soft table, a hard total up to 8 hits, one from 19 stands, and one
/// between follows the hard table.
pub open spec fn player_choice(
    cards: Seq<Card>,
    dealer_up: Card,
    rules: Tables,
    funds: nat,
    stake: nat,
    split_used: bool,
) -> Option<Action> {
    let total = total_of(cards);
    if total.is_bust() {
        Some(Action::Bust)
    } else if may_split(cards, dealer_up, rules, funds, stake, split_used) {
        Some(Action::Split)
    } else {
        match total {
            Value::Ambiguous(_, high) => if high == 21 {
                Some(Action::Stand)
            } else if 12 <= high <= 22 {
                Some(rules.soft_at(soft_row(high), index_of(dealer_up)))
            } else {
                None
            },
            Value::Fixed(n) => if n <= 8 {
                Some(Action::Hit)
            } else if n >= 19 {
                Some(Action::Stand)
            } else {
                Some(rules.hard_at(n - 9, index_of(dealer_up)))
            },
        }
    }
}

/// What the player does next with `hand` against the dealer's first card.
pub fn player_action(
    hand: &Hand,
    dealer_up: Card,
    rules: &Strategy,
    wallet: &Wallet,
    split_used: bool,
) -> (action: Option<Action>)
    requires
        hand.wf(),
        dealer_up.is_playing_card(),
        rules.wf(),
    ensures
        action == player_choice(
            hand@.cards,
            dealer_up,
            rules@,
            wallet.funds(),
            wallet.stake(),
            split_used,
        ),
        hand@.total.is_bust() <==> action == Some(Action::Bust),
        action == Some(Action::Split) <==> !hand@.total.is_bust() && may_split(
            hand@.cards,
            dealer_up,
            rules@,
            wallet.funds(),
            wallet.stake(),
            split_used,
        ),
        action == Some(Action::Hit) || action == Some(Action::Double) ==> hand@.total.high() <= 22,
{
    let total = hand.sum();
    let column = to_index(dealer_up);
    if total.is_over() {
        return Some(Action::Bust);
    }
    if hand.len() == 2 && !split_used && wallet.balance() >= wallet.bet() {
        let first = hand.card(0);
        if first == hand.card(1) && rules.split(to_index(first), column) {
            return Some(Action::Split);
        }
    }
    match total {
        Card::Maybe(_, high) => {
            if high == 21 {
                Some(Action::Stand)
            } else if 12 <= high && high <= 22 {
                let row: usize = if high == 12 {
                    9
                } else {
                    (high - 13) as usize
                };
                Some(rules.soft(row, column))
            } else {
                None
            }
        },
        Card::Def(n) => {
            if n <= 8 {
                Some(Action::Hit)
            } else if n >= 19 {
                Some(Action::Stand)
            } else {
                Some(rules.hard((n - 9) as usize, column))
            }
        },
    }
}

/// A hand is split only if every condition holds: two equal cards, no
/// split before in the round, a balance that covers the stake, and a yes in
/// the split table; and then, unless it is bust, it is split.
pub proof fn split_needs_every_condition(
    cards: Seq<Card>,
    dealer_up: Card,
    rules: Tables,
    funds: nat,
    stake: nat,
    split_used: bool,
)
    requires
        rules.wf(),
        all_playing_cards(cards),
        dealer_up.is_playing_card(),
    ensures
        player_choice(cards, dealer_up, rules, funds, stake, split_used) == Some(Action::Split)
            <==> {
            &&& !total_of(cards).is_bust()
            &&& cards.len() == 2
            &&& cards[0] == cards[1]
            &&& !split_used
            &&& funds >= stake
            &&& rules.split_at(index_of(cards[0]), index_of(dealer_up))
        },
{
    table_actions_only(cards, dealer_up, rules, funds, stake, split_used);
}

/// A definite total over 21 is always answered with bust, and nothing else
/// is.
pub proof fn bust_is_flagged(
    cards: Seq<Card>,
    dealer_up: Card,
    rules: Tables,
    funds: nat,
    stake: nat,
    split_used: bool,
)
    requires
        rules.wf(),
        all_playing_cards(cards),
        dealer_up.is_playing_card(),
    ensures
        total_of(cards).is_bust() <==> player_choice(
            cards,
            dealer_up,
            rules,
            funds,
            stake,
            split_used,
        ) == Some(Action::Bust),
{
    table_actions_only(cards, dealer_up, rules, funds, stake, split_used);
}

/// Where the choice comes from the hard or the soft table, it is stand, hit
/// or double.
proof fn table_actions_only(
    cards: Seq<Card>,
    dealer_up: Card,
    rules: Tables,
    funds: nat,
    stake: nat,
    split_used: bool,
)
    requires
        rules.wf(),
        all_playing_cards(cards),
        dealer_up.is_playing_card(),
    ensures
        !total_of(cards).is_bust() && !may_split(cards, dealer_up, rules, funds, stake, split_used)
            ==> match player_choice(cards, dealer_up, rules, funds, stake, split_used) {
            Some(action) => is_table_action(action),
            None => true,
        },
{
    total_of_playing_cards(cards);
    let column = index_of(dealer_up);
    match total_of(cards) {
        Value::Ambiguous(_, high) => {
            if 12 <= high <= 22 {
                assert(is_table_action(rules.soft_at(soft_row(high), column)));
            }
        },
        Value::Fixed(n) => {
            if 9 <= n <= 18 {
                assert(is_table_action(rules.hard_at(n - 9, column)));
            }
        },
    }
}

} // verus!
