//! The simulation: many shoes played one after another with one bankroll.

use crate::card::Card;
use crate::deck::{decks_fit, sample_len, sampled_from, standard_population, Deck};
use crate::play::{
    is_play_error, play_shoe, shoe_run, shoe_run_fails_only_in_play, Outcome, RoundEnd,
};
use crate::table::{
    grid_of, grids_coded, grids_square, spelled, Grid, SimError, Strategy, Tables,
};
use crate::wallet::Wallet;
use vstd::prelude::*;

verus! {

/// Cards sampled for each shoe in the standard simulation.
pub const SHUFFLE_SIZE: usize = 260;

/// Cards below which the standard simulation shuffles again.
pub const RESHUFFLE: usize = 18;

/// Decks in the population of the standard simulation.
pub const NUM_DECKS: usize = 6;

/// The bankroll that the standard simulation starts with.
pub const STARTING_MONEY: usize = 1_000_000;

/// Shoes played in the standard simulation.
pub const NUM_LOOPS: usize = 50_000;

/// The bet of every round in the standard simulation.
pub const BET_UNIT: usize = 1;

/// The parameters of a simulation.
#[derive(Clone, Copy, Debug)]
pub struct Config {
    /// Number of 52-card decks in the population.
    pub deck_count: usize,
    /// Cards sampled from the population for each shoe.
    pub shuffle_subset_size: usize,
    /// A round starts only while the shoe holds at least this many cards.
    pub reshuffle_threshold: usize,
    /// The balance at the start.
    pub starting_bankroll: usize,
    /// The bet placed at the start of every round.
    pub bet_unit: usize,
    /// Number of shoes to play.
    pub cycle_count: usize,
}

/// Six decks, shoes of 260 cards played down to 18, a million to start
/// with, bets of 1, and fifty thousand shoes.
pub open spec fn standard_config() -> Config {
    Config {
        deck_count: NUM_DECKS,
        shuffle_subset_size: SHUFFLE_SIZE,
        reshuffle_threshold: RESHUFFLE,
        starting_bankroll: STARTING_MONEY,
        bet_unit: BET_UNIT,
        cycle_count: NUM_LOOPS,
    }
}

impl Default for Config {
    fn default() -> (config: Config)
        ensures
            config == standard_config(),
    {
        Config {
            deck_count: NUM_DECKS,
            shuffle_subset_size: SHUFFLE_SIZE,
            reshuffle_threshold: RESHUFFLE,
            starting_bankroll: STARTING_MONEY,
            bet_unit: BET_UNIT,
            cycle_count: NUM_LOOPS,
        }
    }
}

/// The simulation over `shoes`, one shoe per cycle: each shoe is played
/// with what the one before left in the wallet, and a shoe that does not
/// end settled ends the simulation.
pub open spec fn cycles_run(shoes: Seq<Seq<Card>>, config: Config, rules: Tables) -> RoundEnd
    decreases shoes.len(),
{
    if shoes.len() == 0 {
        RoundEnd::Settled { shoe: Seq::empty(), funds: config.starting_bankroll as nat, stake: 0 }
    } else {
        match cycles_run(shoes.drop_last(), config, rules) {
            RoundEnd::Settled { shoe: _, funds, stake } => shoe_run(
                shoes.last(),
                funds,
                stake,
                rules,
                config.bet_unit as nat,
                config.reshuffle_threshold as nat,
            ),
            other => other,
        }
    }
}

/// `shoe` is what a shuffle can give under `config`: a sample of the
/// population of the size asked for, or all of it.
pub open spec fn is_cycle_shoe(shoe: Seq<Card>, config: Config) -> bool {
    &&& sampled_from(standard_population(config.deck_count as nat), shoe)
    &&& shoe.len() == sample_len(
        standard_population(config.deck_count as nat).len(),
        config.shuffle_subset_size as nat,
    )
}

/// `result` is what the simulation gives when the shuffles come out as
/// `shoes`: the balance after the last cycle, or at the round whose bet
/// could not be placed; or the error that stopped it.
pub open spec fn explains(
    shoes: Seq<Seq<Card>>,
    config: Config,
    rules: Tables,
    result: Result<usize, SimError>,
) -> bool {
    &&& shoes.len() <= config.cycle_count
    &&& forall|i: int| 0 <= i < shoes.len() ==> is_cycle_shoe(#[trigger] shoes[i], config)
    &&& match cycles_run(shoes, config, rules) {
        RoundEnd::Settled { shoe: _, funds, stake: _ } => shoes.len() == config.cycle_count
            && result == Ok::<usize, SimError>(funds as usize),
        RoundEnd::Ruined { shoe: _, funds, stake: _ } => result == Ok::<usize, SimError>(
            funds as usize,
        ),
        RoundEnd::Failed(error) => result == Err::<usize, SimError>(error),
    }
}

/// A simulation over given shoes fails only as the play of a shoe does:
/// on an empty shoe, for want of a row, or on a balance that does not fit.
pub proof fn cycles_run_fails_only_in_play(shoes: Seq<Seq<Card>>, config: Config, rules: Tables)
    ensures
        cycles_run(shoes, config, rules) matches RoundEnd::Failed(error) ==> is_play_error(error),
    decreases shoes.len(),
{
    if shoes.len() > 0 {
        cycles_run_fails_only_in_play(shoes.drop_last(), config, rules);
        match cycles_run(shoes.drop_last(), config, rules) {
            RoundEnd::Settled { shoe: _, funds, stake } => {
                shoe_run_fails_only_in_play(
                    shoes.last(),
                    funds,
                    stake,
                    rules,
                    config.bet_unit as nat,
                    config.reshuffle_threshold as nat,
                );
            },
            _ => {},
        }
    }
}

/// The shuffles decide the result: two runs with the same parameters and
/// the same tables whose shuffles come out alike end alike.
pub proof fn same_shuffles_same_result(
    shoes: Seq<Seq<Card>>,
    config: Config,
    rules: Tables,
    one: Result<usize, SimError>,
    other: Result<usize, SimError>,
)
    requires
        explains(shoes, config, rules, one),
        explains(shoes, config, rules, other),
    ensures
        one == other,
{
}

/// The result depends on nothing but what the tables hold, the parameters
/// and the shuffles: two runs on tables that hold the same codes, with the
/// same parameters, whose shuffles come out alike, end alike.
pub proof fn same_tables_same_result(
    hard: &Grid,
    soft: &Grid,
    split: &Grid,
    hard_again: &Grid,
    soft_again: &Grid,
    split_again: &Grid,
    shoes: Seq<Seq<Card>>,
    config: Config,
    one: Result<usize, SimError>,
    other: Result<usize, SimError>,
)
    requires
        grid_of(hard) == grid_of(hard_again),
        grid_of(soft) == grid_of(soft_again),
        grid_of(split) == grid_of(split_again),
        explains(shoes, config, spelled(hard, soft, split), one),
        explains(shoes, config, spelled(hard_again, soft_again, split_again), other),
    ensures
        one == other,
{
}

/// What `simulate` may return when the population can be held: the
/// outcome of some shoes; or, without a seed, `NoEntropy`.
pub open spec fn simulated(
    config: Config,
    rules: Tables,
    seed: Option<u64>,
    result: Result<usize, SimError>,
) -> bool {
    ||| seed is None && result == Err::<usize, SimError>(SimError::NoEntropy)
    ||| exists|shoes: Seq<Seq<Card>>| explains(shoes, config, rules, result)
}

/// Runs the simulation that `config` describes with the strategy `rules`.
/// With a seed the shuffles follow from it; without one they are random.
///
/// The result is the final balance. Whatever the shuffles give, it is the
/// balance that playing those shoes in turn leaves. Without a seed, and
/// with at least one shoe to play, the simulation fails with `NoEntropy`
/// where the operating system has no randomness to give.
pub fn simulate(config: &Config, rules: &Strategy, seed: Option<u64>) -> (result: Result<
    usize,
    SimError,
>)
    requires
        rules.wf(),
    ensures
        !decks_fit(config.deck_count as nat) ==> result == Err::<usize, SimError>(
            SimError::TooManyDecks,
        ),
        decks_fit(config.deck_count as nat) && config.cycle_count == 0 ==> result == Ok::<
            usize,
            SimError,
        >(config.starting_bankroll),
        decks_fit(config.deck_count as nat) ==> simulated(*config, rules@, seed, result),
        result == Err::<usize, SimError>(SimError::TooManyDecks) <==> !decks_fit(
            config.deck_count as nat,
        ),
        result == Err::<usize, SimError>(SimError::NoEntropy) ==> seed is None
            && config.cycle_count > 0,
        result matches Err(error) ==> error == SimError::TooManyDecks || error
            == SimError::NoEntropy || is_play_error(error),
{
    if !Deck::fits(config.deck_count) {
        return Err(SimError::TooManyDecks);
    }
    let ghost mut shoes: Seq<Seq<Card>> = Seq::empty();
    if config.cycle_count == 0 {
        let result = Ok(config.starting_bankroll);
        assert(explains(shoes, *config, rules@, result));
        return result;
    }
    let mut deck = match seed {
        Some(seed) => Deck::seeded(config.deck_count, seed),
        None => match Deck::new(config.deck_count) {
            Some(deck) => deck,
            None => {
                return Err(SimError::NoEntropy);
            },
        },
    };
    let mut wallet = Wallet::new(config.starting_bankroll);
    let mut cycle: usize = 0;
    assert(deck.remaining() =~= Seq::<Card>::empty());
    while cycle < config.cycle_count
        invariant
            cycle <= config.cycle_count,
            shoes.len() == cycle,
            rules.wf(),
            deck.wf(),
            wallet.wf(),
            deck.population() == standard_population(config.deck_count as nat),
            forall|i: int| 0 <= i < shoes.len() ==> is_cycle_shoe(#[trigger] shoes[i], *config),
            cycles_run(shoes, *config, rules@) == (RoundEnd::Settled {
                shoe: deck.remaining(),
                funds: wallet.funds(),
                stake: wallet.stake(),
            }),
        decreases config.cycle_count - cycle,
    {
        deck.shuffle(config.shuffle_subset_size);
        proof {
            let before = shoes;
            shoes = shoes.push(deck.remaining());
            assert(shoes.drop_last() =~= before);
        }
        match play_shoe(
            &mut deck,
            &mut wallet,
            rules,
            config.bet_unit,
            config.reshuffle_threshold,
        ) {
            Err(error) => {
                let result = Err(error);
                proof {
                    cycles_run_fails_only_in_play(shoes, *config, rules@);
                }
                assert(explains(shoes, *config, rules@, result));
                return result;
            },
            Ok(Outcome::Ruined) => {
                let result = Ok(wallet.balance());
                assert(explains(shoes, *config, rules@, result));
                return result;
            },
            Ok(Outcome::Settled) => {},
        }
        cycle += 1;
    }
    let result = Ok(wallet.balance());
    assert(explains(shoes, *config, rules@, result));
    result
}

/// Reads the three tables and runs the simulation that `config` describes.
///
/// Tables that are not 10 by 10 give `TableShape`, and a cell that does not
/// hold a code of its table gives `TableCode`; else the result is that of
/// `simulate` with the strategy that the tables spell.
pub fn play_with(
    config: &Config,
    rule_hard: &Grid,
    rule_soft: &Grid,
    rule_split: &Grid,
    seed: Option<u64>,
) -> (result: Result<usize, SimError>)
    ensures
        !grids_square(rule_hard, rule_soft, rule_split) ==> result == Err::<usize, SimError>(
            SimError::TableShape,
        ),
        grids_square(rule_hard, rule_soft, rule_split) && !grids_coded(
            rule_hard,
            rule_soft,
            rule_split,
        ) ==> result == Err::<usize, SimError>(SimError::TableCode),
        grids_square(rule_hard, rule_soft, rule_split) && grids_coded(
            rule_hard,
            rule_soft,
            rule_split,
        ) && !decks_fit(config.deck_count as nat) ==> result == Err::<usize, SimError>(
            SimError::TooManyDecks,
        ),
        grids_square(rule_hard, rule_soft, rule_split) && grids_coded(
            rule_hard,
            rule_soft,
            rule_split,
        ) && decks_fit(config.deck_count as nat) && config.cycle_count == 0 ==> result == Ok::<
            usize,
            SimError,
        >(config.starting_bankroll),
        grids_square(rule_hard, rule_soft, rule_split) && grids_coded(
            rule_hard,
            rule_soft,
            rule_split,
        ) && decks_fit(config.deck_count as nat) ==> simulated(
            *config,
            spelled(rule_hard, rule_soft, rule_split),
            seed,
            result,
        ),
        result == Err::<usize, SimError>(SimError::TableShape) <==> !grids_square(
            rule_hard,
            rule_soft,
            rule_split,
        ),
        result == Err::<usize, SimError>(SimError::TableCode) <==> grids_square(
            rule_hard,
            rule_soft,
            rule_split,
        ) && !grids_coded(rule_hard, rule_soft, rule_split),
        result == Err::<usize, SimError>(SimError::TooManyDecks) <==> grids_square(
            rule_hard,
            rule_soft,
            rule_split,
        ) && grids_coded(rule_hard, rule_soft, rule_split) && !decks_fit(
            config.deck_count as nat,
        ),
        result == Err::<usize, SimError>(SimError::NoEntropy) ==> seed is None
            && config.cycle_count > 0,
{
    match Strategy::from_grids(rule_hard, rule_soft, rule_split) {
        Err(error) => Err(error),
        Ok(rules) => simulate(config, &rules, seed),
    }
}

/// Plays the strategy that the three tables spell through the standard
/// simulation, with random shuffles, and returns the final balance.
pub fn play(rule_hard: &Grid, rule_soft: &Grid, rule_split: &Grid) -> (result: Result<
    usize,
    SimError,
>)
    ensures
        !grids_square(rule_hard, rule_soft, rule_split) ==> result == Err::<usize, SimError>(
            SimError::TableShape,
        ),
        grids_square(rule_hard, rule_soft, rule_split) && !grids_coded(
            rule_hard,
            rule_soft,
            rule_split,
        ) ==> result == Err::<usize, SimError>(SimError::TableCode),
        grids_square(rule_hard, rule_soft, rule_split) && grids_coded(
            rule_hard,
            rule_soft,
            rule_split,
        ) ==> simulated(
            standard_config(),
            spelled(rule_hard, rule_soft, rule_split),
            None,
            result,
        ),
        result == Err::<usize, SimError>(SimError::TableShape) <==> !grids_square(
            rule_hard,
            rule_soft,
            rule_split,
        ),
        result == Err::<usize, SimError>(SimError::TableCode) <==> grids_square(
            rule_hard,
            rule_soft,
            rule_split,
        ) && !grids_coded(rule_hard, rule_soft, rule_split),
        result != Err::<usize, SimError>(SimError::TooManyDecks),
{
    let config = Config::default();
    play_with(&config, rule_hard, rule_soft, rule_split, None)
}

} // verus!
