//! The score of a game in progress: crystals, coins, moves and keys.
use crate::highscores::highscore::Highscore;
use vstd::prelude::*;

verus! {

/// What the player has collected and done so far in a game.
#[derive(Clone, Copy, Debug, PartialEq, Eq, Structural)]
pub struct Scoreboard {
    pub crystals: usize,
    pub coins: i32,
    pub moves: usize,
    pub keys: usize,
}

impl Scoreboard {
    pub fn new(coins: i32, crystals: usize, moves: usize, keys: usize) -> (r: Self)
        ensures
            r == (Scoreboard { crystals, coins, moves, keys }),
    {
        Scoreboard { coins, crystals, moves, keys }
    }
}

/// The scoreboard that a highscore stands for: its coins, as an `i32` (wrapping above
/// `i32::MAX`), and its moves; no crystals and no keys.
pub open spec fn scoreboard_of(h: Highscore) -> Scoreboard {
    Scoreboard { crystals: 0, coins: h.num_coins as i32, moves: h.num_moves as usize, keys: 0 }
}

impl From<&Highscore> for Scoreboard {
    fn from(value: &Highscore) -> (r: Self) {
        Scoreboard::new(value.coins() as i32, 0usize, value.moves() as usize, 0usize)
    }
}

impl vstd::std_specs::convert::FromSpecImpl<&Highscore> for Scoreboard {
    open spec fn obeys_from_spec() -> bool {
        true
    }

    open spec fn from_spec(v: &Highscore) -> Scoreboard {
        scoreboard_of(*v)
    }
}

/// What a key costs in crystals at a vending machine.
pub const COST_KEY: usize = 3;

/// What five coins cost in crystals at a vending machine.
pub const COST_COINS: usize = 1;

/// The crystals left after paying `cost`: the count taken as an `i32` (wrapping above
/// `i32::MAX`), less the cost, and no fewer than none.
pub open spec fn crystals_after(crystals: usize, cost: usize) -> usize {
    let left = (crystals as i32) - (cost as int);
    if left < 0 {
        0
    } else {
        left as usize
    }
}

/// Pay `cost` crystals.
fn pay_crystals(scoreboard: &mut Scoreboard, cost: usize)
    requires
        cost <= 3,
        (old(scoreboard).crystals as i32) - cost >= i32::MIN,
    ensures
        *final(scoreboard) == (Scoreboard { crystals: crystals_after(old(scoreboard).crystals, cost), ..*old(scoreboard) }),
{
    let left: i32 = (scoreboard.crystals as i32) - (cost as i32);
    scoreboard.crystals = if left < 0 {
        0
    } else {
        left as usize
    };
}

/// A key, sold at vending machines.
pub struct KeysItem;

impl KeysItem {
    pub fn cost(&self) -> (r: usize)
        ensures
            r == COST_KEY,
    {
        COST_KEY
    }

    /// Buy a key: pay its cost in crystals and get one more key.
    pub fn purchase(&self, scoreboard: &mut Scoreboard)
        requires
            (old(scoreboard).crystals as i32) - COST_KEY >= i32::MIN,
            old(scoreboard).keys < usize::MAX,
        ensures
            *final(scoreboard) == (Scoreboard {
                crystals: crystals_after(old(scoreboard).crystals, COST_KEY),
                keys: (old(scoreboard).keys + 1) as usize,
                ..*old(scoreboard)
            }),
    {
        pay_crystals(scoreboard, COST_KEY);
        scoreboard.keys = scoreboard.keys + 1;
    }
}

/// Five coins, sold at vending machines.
pub struct CoinsItem;

impl CoinsItem {
    pub fn cost(&self) -> (r: usize)
        ensures
            r == COST_COINS,
    {
        COST_COINS
    }

    /// Buy coins: pay their cost in crystals and get five more coins.
    pub fn purchase(&self, scoreboard: &mut Scoreboard)
        requires
            (old(scoreboard).crystals as i32) - COST_COINS >= i32::MIN,
            old(scoreboard).coins <= i32::MAX - 5,
        ensures
            *final(scoreboard) == (Scoreboard {
                crystals: crystals_after(old(scoreboard).crystals, COST_COINS),
                coins: (old(scoreboard).coins + 5) as i32,
                ..*old(scoreboard)
            }),
    {
        pay_crystals(scoreboard, COST_COINS);
        scoreboard.coins = scoreboard.coins + 5;
    }
}

} // verus!
