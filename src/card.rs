//! Card ranks. Suits play no part in scoring, so a card is just its rank.
use vstd::prelude::*;

verus! {

/// One of the thirteen ranks of a standard deck.
#[derive(Clone, Copy, Debug, PartialEq, Eq, Structural)]
pub enum Rank {
    Ace,
    Two,
    Three,
    Four,
    Five,
    Six,
    Seven,
    Eight,
    Nine,
    Ten,
    Jack,
    Queen,
    King,
}

/// Number of distinct ranks.
pub const RANK_COUNT: usize = 13;

/// Value of a card before any Ace is counted as one: an Ace counts eleven,
/// a face card ten, a numeral its face value.
pub open spec fn rank_value(r: Rank) -> nat {
    match r {
        Rank::Ace => 11,
        Rank::Two => 2,
        Rank::Three => 3,
        Rank::Four => 4,
        Rank::Five => 5,
        Rank::Six => 6,
        Rank::Seven => 7,
        Rank::Eight => 8,
        Rank::Nine => 9,
        Rank::Ten | Rank::Jack | Rank::Queen | Rank::King => 10,
    }
}

/// Ten, Jack, Queen and King: the cards that make a blackjack with an Ace.
pub open spec fn is_ten_valued(r: Rank) -> bool {
    r == Rank::Ten || r == Rank::Jack || r == Rank::Queen || r == Rank::King
}

/// Position of a rank in the order Ace, Two, ..., King.
pub open spec fn rank_index(r: Rank) -> nat {
    match r {
        Rank::Ace => 0,
        Rank::Two => 1,
        Rank::Three => 2,
        Rank::Four => 3,
        Rank::Five => 4,
        Rank::Six => 5,
        Rank::Seven => 6,
        Rank::Eight => 7,
        Rank::Nine => 8,
        Rank::Ten => 9,
        Rank::Jack => 10,
        Rank::Queen => 11,
        Rank::King => 12,
    }
}

/// The rank at position `k` of the order Ace, Two, ..., King.
pub open spec fn rank_at(k: nat) -> Rank
    recommends
        k < 13,
{
    if k == 0 {
        Rank::Ace
    } else if k == 1 {
        Rank::Two
    } else if k == 2 {
        Rank::Three
    } else if k == 3 {
        Rank::Four
    } else if k == 4 {
        Rank::Five
    } else if k == 5 {
        Rank::Six
    } else if k == 6 {
        Rank::Seven
    } else if k == 7 {
        Rank::Eight
    } else if k == 8 {
        Rank::Nine
    } else if k == 9 {
        Rank::Ten
    } else if k == 10 {
        Rank::Jack
    } else if k == 11 {
        Rank::Queen
    } else {
        Rank::King
    }
}

/// `rank_at` and `rank_index` are inverse to each other.
pub proof fn lemma_rank_index_round_trip(r: Rank, k: nat)
    requires
        k < 13,
    ensures
        rank_at(rank_index(r)) == r,
        rank_index(rank_at(k)) == k,
        rank_index(r) < 13,
{
}

impl Rank {
    /// The rank at position `k` of the order Ace, Two, ..., King.
    pub fn from_index(k: usize) -> (r: Rank)
        requires
            k < RANK_COUNT,
        ensures
            r == rank_at(k as nat),
    {
        if k == 0 {
            Rank::Ace
        } else if k == 1 {
            Rank::Two
        } else if k == 2 {
            Rank::Three
        } else if k == 3 {
            Rank::Four
        } else if k == 4 {
            Rank::Five
        } else if k == 5 {
            Rank::Six
        } else if k == 6 {
            Rank::Seven
        } else if k == 7 {
            Rank::Eight
        } else if k == 8 {
            Rank::Nine
        } else if k == 9 {
            Rank::Ten
        } else if k == 10 {
            Rank::Jack
        } else if k == 11 {
            Rank::Queen
        } else {
            Rank::King
        }
    }

    /// Position of this rank in the order Ace, Two, ..., King.
    pub fn index(&self) -> (k: usize)
        ensures
            k == rank_index(*self),
            k < RANK_COUNT,
    {
        match self {
            Rank::Ace => 0,
            Rank::Two => 1,
            Rank::Three => 2,
            Rank::Four => 3,
            Rank::Five => 4,
            Rank::Six => 5,
            Rank::Seven => 6,
            Rank::Eight => 7,
            Rank::Nine => 8,
            Rank::Ten => 9,
            Rank::Jack => 10,
            Rank::Queen => 11,
            Rank::King => 12,
        }
    }

    /// Value before any Ace is counted as one.
    pub fn value(&self) -> (v: u32)
        ensures
            v == rank_value(*self),
    {
        match self {
            Rank::Ace => 11,
            Rank::Two => 2,
            Rank::Three => 3,
            Rank::Four => 4,
            Rank::Five => 5,
            Rank::Six => 6,
            Rank::Seven => 7,
            Rank::Eight => 8,
            Rank::Nine => 9,
            Rank::Ten | Rank::Jack | Rank::Queen | Rank::King => 10,
        }
    }

    pub fn is_ace(&self) -> (b: bool)
        ensures
            b == (*self == Rank::Ace),
    {
        match self {
            Rank::Ace => true,
            _ => false,
        }
    }

    pub fn is_ten_valued(&self) -> (b: bool)
        ensures
            b == is_ten_valued(*self),
    {
        match self {
            Rank::Ten | Rank::Jack | Rank::Queen | Rank::King => true,
            _ => false,
        }
    }
}

} // verus!
