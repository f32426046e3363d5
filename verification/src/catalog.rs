//! The card catalog: the fixed enumeration of the 52 (suit, rank)
//! identities, their display names, and the keys under which their face
//! images are looked up by the asset collaborator.

use vstd::prelude::*;
use vstd::string::StringExecFns;

verus! {

/// One of the four French suits.
#[derive(Clone, Copy, PartialEq, Eq, Structural, Debug)]
pub enum Suit {
    Hearts,
    Clubs,
    Spades,
    Diamonds,
}

/// One of the thirteen ranks, ordered by their layout column and by
/// gameplay value: `Two` is lowest, `Ace` is highest.
#[derive(Clone, Copy, PartialEq, Eq, Structural, Debug)]
pub enum Rank {
    Two,
    Three,
    Four,
    Five,
    Six,
    Seven,
    Eight,
    Nine,
    Ten,
    Jack,
    Queen,
    King,
    Ace,
}

/// The stable display name of a suit, used to build asset keys.
pub open spec fn suit_name_spec(s: Suit) -> Seq<char> {
    match s {
        Suit::Hearts => "Hearts"@,
        Suit::Clubs => "Clubs"@,
        Suit::Spades => "Spades"@,
        Suit::Diamonds => "Diamonds"@,
    }
}

/// The printed symbol of a rank, used to build asset keys.
pub open spec fn rank_symbol_spec(r: Rank) -> Seq<char> {
    match r {
        Rank::Two => "2"@,
        Rank::Three => "3"@,
        Rank::Four => "4"@,
        Rank::Five => "5"@,
        Rank::Six => "6"@,
        Rank::Seven => "7"@,
        Rank::Eight => "8"@,
        Rank::Nine => "9"@,
        Rank::Ten => "10"@,
        Rank::Jack => "J"@,
        Rank::Queen => "Q"@,
        Rank::King => "K"@,
        Rank::Ace => "A"@,
    }
}

/// The integer value of a rank: its zero-based position in the rank
/// order, 0 for `Two` up to 12 for `Ace`.
pub open spec fn rank_value_spec(r: Rank) -> int {
    match r {
        Rank::Two => 0,
        Rank::Three => 1,
        Rank::Four => 2,
        Rank::Five => 3,
        Rank::Six => 4,
        Rank::Seven => 5,
        Rank::Eight => 6,
        Rank::Nine => 7,
        Rank::Ten => 8,
        Rank::Jack => 9,
        Rank::Queen => 10,
        Rank::King => 11,
        Rank::Ace => 12,
    }
}

impl Suit {
    /// The stable display name of this suit.
    pub fn name(&self) -> (r: &'static str)
        ensures
            r@ == suit_name_spec(*self),
    {
        match *self {
            Suit::Hearts => "Hearts",
            Suit::Clubs => "Clubs",
            Suit::Spades => "Spades",
            Suit::Diamonds => "Diamonds",
        }
    }
}

impl Rank {
    /// The printed symbol of this rank.
    pub fn symbol(&self) -> (r: &'static str)
        ensures
            r@ == rank_symbol_spec(*self),
    {
        match *self {
            Rank::Two => "2",
            Rank::Three => "3",
            Rank::Four => "4",
            Rank::Five => "5",
            Rank::Six => "6",
            Rank::Seven => "7",
            Rank::Eight => "8",
            Rank::Nine => "9",
            Rank::Ten => "10",
            Rank::Jack => "J",
            Rank::Queen => "Q",
            Rank::King => "K",
            Rank::Ace => "A",
        }
    }

    /// The gameplay value of this rank, also its layout column in the
    /// standard rank order.
    pub fn value(&self) -> (v: u8)
        ensures
            v as int == rank_value_spec(*self),
    {
        match *self {
            Rank::Two => 0,
            Rank::Three => 1,
            Rank::Four => 2,
            Rank::Five => 3,
            Rank::Six => 4,
            Rank::Seven => 5,
            Rank::Eight => 6,
            Rank::Nine => 7,
            Rank::Ten => 8,
            Rank::Jack => 9,
            Rank::Queen => 10,
            Rank::King => 11,
            Rank::Ace => 12,
        }
    }
}

/// The suit order of the standard catalog, top row first.
pub open spec fn standard_suits_spec() -> Seq<Suit> {
    seq![Suit::Hearts, Suit::Clubs, Suit::Spades, Suit::Diamonds]
}

/// The rank order of the standard catalog, leftmost column first.
pub open spec fn standard_ranks_spec() -> Seq<Rank> {
    seq![
        Rank::Two,
        Rank::Three,
        Rank::Four,
        Rank::Five,
        Rank::Six,
        Rank::Seven,
        Rank::Eight,
        Rank::Nine,
        Rank::Ten,
        Rank::Jack,
        Rank::Queen,
        Rank::King,
        Rank::Ace,
    ]
}

/// The four suits in the standard catalog order.
pub fn standard_suits() -> (v: Vec<Suit>)
    ensures
        v@ == standard_suits_spec(),
{
    let mut v: Vec<Suit> = Vec::new();
    v.push(Suit::Hearts);
    v.push(Suit::Clubs);
    v.push(Suit::Spades);
    v.push(Suit::Diamonds);
    proof {
        assert(v@ =~= standard_suits_spec());
    }
    v
}

/// The thirteen ranks in the standard catalog order.
pub fn standard_ranks() -> (v: Vec<Rank>)
    ensures
        v@ == standard_ranks_spec(),
{
    let mut v: Vec<Rank> = Vec::new();
    v.push(Rank::Two);
    v.push(Rank::Three);
    v.push(Rank::Four);
    v.push(Rank::Five);
    v.push(Rank::Six);
    v.push(Rank::Seven);
    v.push(Rank::Eight);
    v.push(Rank::Nine);
    v.push(Rank::Ten);
    v.push(Rank::Jack);
    v.push(Rank::Queen);
    v.push(Rank::King);
    v.push(Rank::Ace);
    proof {
        assert(v@ =~= standard_ranks_spec());
    }
    v
}

/// The asset key of a card's front face image, built from the fixed
/// template around the suit name and the rank symbol.
pub open spec fn front_key_spec(s: Suit, r: Rank) -> Seq<char> {
    "cards/card"@ + suit_name_spec(s) + rank_symbol_spec(r) + ".png"@
}

/// The asset key shared by every card's back face image.
pub open spec fn back_key_spec() -> Seq<char> {
    "cards/cardBack_blue2.png"@
}

/// The asset key of the front face image of the card (suit, rank).
pub fn front_key(suit: Suit, rank: Rank) -> (k: String)
    ensures
        k@ == front_key_spec(suit, rank),
{
    let mut k = String::from_str("cards/card");
    k.append(suit.name());
    k.append(rank.symbol());
    k.append(".png");
    k
}

/// The asset key of the shared back face image.
pub fn back_key() -> (k: String)
    ensures
        k@ == back_key_spec(),
{
    String::from_str("cards/cardBack_blue2.png")
}

} // verus!
