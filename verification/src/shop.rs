//! A shirt store's inventory and the value of coins.
use crate::stats::count_of;
use crate::stats::lemma_count_of_prefix_step;
use vstd::prelude::*;

verus! {

/// A shirt color.
#[derive(Clone, Copy, Debug, PartialEq, Eq, Structural)]
pub enum Color {
    Red,
    Green,
    Blue,
}

/// The color the store holds the most shirts of; of equally stocked colors,
/// red before green before blue.
pub open spec fn spec_most_stocked(shirts: Seq<Color>) -> Color {
    let r = count_of(shirts, Color::Red);
    let g = count_of(shirts, Color::Green);
    let b = count_of(shirts, Color::Blue);
    if r >= g && r >= b {
        Color::Red
    } else if g >= r && g >= b {
        Color::Green
    } else {
        Color::Blue
    }
}

/// Counts the shirts of one color.
fn count_color(shirts: &Vec<Color>, target: Color) -> (c: usize)
    ensures
        c == count_of(shirts@, target),
{
    let mut c: usize = 0;
    let n = shirts.len();
    proof {
        assert(shirts@.subrange(0, 0) =~= Seq::<Color>::empty());
    }
    let mut i: usize = 0;
    while i < n
        invariant
            0 <= i <= n,
            n == shirts@.len(),
            c <= i,
            c == count_of(shirts@.subrange(0, i as int), target),
        decreases n - i,
    {
        proof {
            lemma_count_of_prefix_step(shirts@, i as int, target);
            crate::stats::lemma_count_of_bounds(shirts@.subrange(0, i as int), target);
        }
        if shirts[i] == target {
            c = c + 1;
        }
        i = i + 1;
    }
    proof {
        assert(shirts@.subrange(0, n as int) =~= shirts@);
    }
    c
}

/// A store's shirt inventory.
pub struct Inventory {
    pub shirts: Vec<Color>,
}

impl Inventory {
    /// The color with the most shirts in stock; of equally stocked colors,
    /// red before green before blue.
    pub fn most_stocked(&self) -> (c: Color)
        ensures
            c == spec_most_stocked(self.shirts@),
    {
        let red = count_color(&self.shirts, Color::Red);
        let green = count_color(&self.shirts, Color::Green);
        let blue = count_color(&self.shirts, Color::Blue);
        if red >= green && red >= blue {
            Color::Red
        } else if green >= red && green >= blue {
            Color::Green
        } else {
            Color::Blue
        }
    }

    /// The shirt a customer gets: their favorite color if they chose one,
    /// else the color the store has the most of.
    pub fn give_away(&self, favorite: Option<Color>) -> (c: Color)
        ensures
            favorite matches Some(f) ==> c == f,
            favorite is None ==> c == spec_most_stocked(self.shirts@),
    {
        match favorite {
            Some(c) => c,
            None => self.most_stocked(),
        }
    }
}

/// A US state a quarter can commemorate.
#[derive(Clone, Copy, Debug, PartialEq, Eq, Structural)]
pub enum UsState {
    Alabama,
    Alaska,
}

/// A coin.
#[derive(Clone, Copy, Debug, PartialEq, Eq, Structural)]
pub enum Coin {
    Penny,
    Nickel,
    Dime,
    Quarter(UsState),
}

/// A coin's value in cents.
pub open spec fn spec_coin_value(c: Coin) -> int {
    match c {
        Coin::Penny => 1,
        Coin::Nickel => 5,
        Coin::Dime => 10,
        Coin::Quarter(_) => 25,
    }
}

impl Coin {
    /// The coin's value in cents.
    pub fn value(&self) -> (v: u8)
        ensures
            v == spec_coin_value(*self),
    {
        match self {
            Coin::Penny => 1,
            Coin::Nickel => 5,
            Coin::Dime => 10,
            Coin::Quarter(_) => 25,
        }
    }
}

} // verus!
