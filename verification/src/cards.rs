//! The card model: suits, the role a suit stands for, single cards and
//! the equipped weapon with its dulling state.

use vstd::prelude::*;
use vstd::string::StringExecFns;
use crate::text::{spec_dec, u32_string};

verus! {

/// The four suits of the reduced deck.
#[derive(Clone, Copy, PartialEq, Eq, Structural, Debug)]
pub enum Suit {
    Spades,
    Clubs,
    Hearts,
    Diamonds,
}

/// What a card does, fixed by its suit: black suits are monsters,
/// diamonds are weapons, hearts are potions.
#[derive(Clone, Copy, PartialEq, Eq, Structural, Debug)]
pub enum Role {
    Monster,
    Weapon,
    Potion,
}

impl Suit {
    /// The role every card of this suit plays.
    pub open spec fn spec_role(self) -> Role {
        match self {
            Suit::Spades => Role::Monster,
            Suit::Clubs => Role::Monster,
            Suit::Hearts => Role::Potion,
            Suit::Diamonds => Role::Weapon,
        }
    }

    pub open spec fn spec_symbol(self) -> Seq<char> {
        match self {
            Suit::Spades => "♠"@,
            Suit::Clubs => "♣"@,
            Suit::Hearts => "♥"@,
            Suit::Diamonds => "♦"@,
        }
    }

    /// The suit's glyph, used in card displays and log entries.
    pub fn symbol(&self) -> (r: &'static str)
        ensures
            r@ == self.spec_symbol(),
    {
        match self {
            Suit::Spades => "♠",
            Suit::Clubs => "♣",
            Suit::Hearts => "♥",
            Suit::Diamonds => "♦",
        }
    }
}

/// One card: a suit and a rank.  Ranks run 2 to 14, where 11 to 14
/// stand for jack, queen, king and ace.
#[derive(Clone, Copy, PartialEq, Eq, Structural, Debug)]
pub struct Card {
    pub suit: Suit,
    pub rank: u8,
}

impl Card {
    pub open spec fn role(self) -> Role {
        self.suit.spec_role()
    }

    /// Rank bounds by role: monster ranks run 2 to 14, weapon and
    /// potion ranks only 2 to 10.
    pub open spec fn valid(self) -> bool {
        match self.role() {
            Role::Monster => 2 <= self.rank <= 14,
            Role::Weapon => 2 <= self.rank <= 10,
            Role::Potion => 2 <= self.rank <= 10,
        }
    }

    pub open spec fn spec_rank_str(self) -> Seq<char> {
        if self.rank == 11 {
            "J"@
        } else if self.rank == 12 {
            "Q"@
        } else if self.rank == 13 {
            "K"@
        } else if self.rank == 14 {
            "A"@
        } else {
            spec_dec(self.rank as int)
        }
    }

    /// The rank as shown to the player: `J`, `Q`, `K`, `A` for the
    /// face ranks, decimal digits otherwise.
    pub fn rank_str(&self) -> (r: String)
        ensures
            r@ == self.spec_rank_str(),
    {
        if self.rank == 11 {
            "J".to_owned()
        } else if self.rank == 12 {
            "Q".to_owned()
        } else if self.rank == 13 {
            "K".to_owned()
        } else if self.rank == 14 {
            "A".to_owned()
        } else {
            u32_string(self.rank as u32)
        }
    }

    pub open spec fn spec_display(self) -> Seq<char> {
        self.spec_rank_str() + self.suit.spec_symbol()
    }

    /// Rank followed by suit glyph, e.g. the display of the queen of
    /// spades is `Q♠`.
    pub fn display(&self) -> (r: String)
        ensures
            r@ == self.spec_display(),
    {
        let s = self.rank_str();
        s.concat(self.suit.symbol())
    }

    pub fn is_monster(&self) -> (r: bool)
        ensures
            r == (self.role() == Role::Monster),
    {
        matches!(self.suit, Suit::Spades | Suit::Clubs)
    }

    pub fn is_weapon(&self) -> (r: bool)
        ensures
            r == (self.role() == Role::Weapon),
    {
        matches!(self.suit, Suit::Diamonds)
    }

    pub fn is_potion(&self) -> (r: bool)
        ensures
            r == (self.role() == Role::Potion),
    {
        matches!(self.suit, Suit::Hearts)
    }

    /// The card's numeric value: damage dealt, attack power, or
    /// healing, depending on the role.
    pub fn value(&self) -> (r: u8)
        ensures
            r == self.rank,
    {
        self.rank
    }

    pub open spec fn spec_type_emoji(self) -> Seq<char> {
        match self.role() {
            Role::Monster => "👹"@,
            Role::Weapon => "⚔️"@,
            Role::Potion => "🧪"@,
        }
    }

    pub fn type_emoji(&self) -> (r: &'static str)
        ensures
            r@ == self.spec_type_emoji(),
    {
        if self.is_monster() {
            "👹"
        } else if self.is_weapon() {
            "⚔️"
        } else {
            "🧪"
        }
    }

    pub open spec fn spec_type_str(self) -> Seq<char> {
        match self.role() {
            Role::Monster => "Take "@ + spec_dec(self.rank as int) + " damage"@,
            Role::Weapon => spec_dec(self.rank as int) + " attack power"@,
            Role::Potion => "Heal "@ + spec_dec(self.rank as int) + " HP"@,
        }
    }

    /// A one-line description of what playing the card does.
    pub fn type_str(&self) -> (r: String)
        ensures
            r@ == self.spec_type_str(),
    {
        let v = u32_string(self.rank as u32);
        if self.is_monster() {
            let mut s = "Take ".to_owned();
            s.append(v.as_str());
            s.append(" damage");
            s
        } else if self.is_weapon() {
            let mut s = v;
            s.append(" attack power");
            s
        } else {
            let mut s = "Heal ".to_owned();
            s.append(v.as_str());
            s.append(" HP");
            s
        }
    }

    pub open spec fn spec_type_label(self) -> Seq<char> {
        match self.role() {
            Role::Monster => "MONSTER"@,
            Role::Weapon => "WEAPON"@,
            Role::Potion => "POTION"@,
        }
    }

    pub fn type_label(&self) -> (r: &'static str)
        ensures
            r@ == self.spec_type_label(),
    {
        if self.is_monster() {
            "MONSTER"
        } else if self.is_weapon() {
            "WEAPON"
        } else {
            "POTION"
        }
    }
}

/// The equipped weapon: the weapon card itself and the rank of the
/// last monster it slew, the ceiling for its next use.
#[derive(Clone, Copy, PartialEq, Debug)]
pub struct Weapon {
    pub card: Card,
    pub last_monster_slain: Option<u8>,
}

impl Weapon {
    /// Dulling rule: a fresh weapon hits anything; after a kill it
    /// only hits monsters of strictly lower rank than the last kill.
    pub open spec fn spec_can_use_against(self, monster_value: u8) -> bool {
        match self.last_monster_slain {
            Option::None => true,
            Option::Some(last) => monster_value < last,
        }
    }

    pub fn can_use_against(&self, monster_value: u8) -> (r: bool)
        ensures
            r == self.spec_can_use_against(monster_value),
    {
        match self.last_monster_slain {
            Option::None => true,
            Option::Some(last) => monster_value < last,
        }
    }
}

} // verus!
