//! An undead thrall and its statistics.

use vstd::prelude::*;
use crate::dice::{roll_dice, hit_points_from_rolls, rolls_within, sum_rolls, wrap_i8, lemma_sum_rolls_bounds, lemma_wrap_i8_fits};
use crate::input::str_equals;

verus! {

/// A summoned undead, as its configuration file describes it.
pub struct Undead {
    pub hp: i8,
    pub ac: u8,
    /// Challenge rating, counted against the necromancer's thrall budget.
    pub cr: u8,
    pub name: String,
    /// Attack bonus.
    pub hit: i8,
    /// Damage dice: number of dice, faces of each die, modifier.
    pub damage: (u8, u8, i8),
    /// Hit dice: number of dice, faces of each die, modifier.
    pub hit_dice: (u8, u8, i8),
}

/// The undead that Undead Fortitude can keep standing.
pub open spec fn is_zombie(u: Undead) -> bool {
    u.name@ == "Zombie"@
}

/// The undead that is asked whether it carries a bow.
pub open spec fn is_skeleton(u: Undead) -> bool {
    u.name@ == "Skeleton"@
}

impl Undead {
    /// Rolls the hit points: the hit dice plus their modifier, wrapped into
    /// `i8` as the release build's arithmetic wraps it.
    pub fn roll_hp(&self) -> (hp: i8)
        requires
            self.hit_dice.0 == 0 || self.hit_dice.1 >= 1,
        ensures
            exists|rolls: Seq<u8>|
                rolls.len() == self.hit_dice.0 && rolls_within(rolls, self.hit_dice.1) && hp
                    == wrap_i8(sum_rolls(rolls) + self.hit_dice.2),
            self.hit_dice.0 * self.hit_dice.1 + self.hit_dice.2 <= 127 ==> self.hit_dice.0
                + self.hit_dice.2 <= hp <= self.hit_dice.0 * self.hit_dice.1 + self.hit_dice.2,
    {
        let rolls = roll_dice(self.hit_dice.0, self.hit_dice.1);
        let hp = hit_points_from_rolls(&rolls, self.hit_dice.2);
        assert(rolls@.len() == self.hit_dice.0 && rolls_within(rolls@, self.hit_dice.1));
        proof {
            if self.hit_dice.0 * self.hit_dice.1 + self.hit_dice.2 <= 127 {
                lemma_sum_rolls_bounds(rolls@, self.hit_dice.1);
                lemma_wrap_i8_fits(sum_rolls(rolls@) + self.hit_dice.2);
            }
        }
        hp
    }

    /// Whether this undead is a zombie.
    pub fn is_zombie(&self) -> (b: bool)
        ensures
            b == is_zombie(*self),
    {
        str_equals(self.name.as_str(), "Zombie")
    }

    /// Whether this undead is a skeleton.
    pub fn is_skeleton(&self) -> (b: bool)
        ensures
            b == is_skeleton(*self),
    {
        str_equals(self.name.as_str(), "Skeleton")
    }

}

impl Clone for Undead {
    /// A field-by-field copy.
    fn clone(&self) -> (c: Undead)
        ensures
            c == *self,
    {
        Undead {
            hp: self.hp,
            ac: self.ac,
            cr: self.cr,
            name: self.name.clone(),
            hit: self.hit,
            damage: self.damage,
            hit_dice: self.hit_dice,
        }
    }
}

} // verus!
