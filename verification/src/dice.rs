//! Dice: the random rolls, and the totals that the game computes from them.
//!
//! Whether a dice total overflows depends on the dice, so no precondition can
//! rule it out: totals of hit points (`i8`), damage (`u16`) and attack rolls
//! (`i8`) wrap, as the release build that the program is installed with does.
//! Where the inputs alone decide an overflow (the damage of Undead Fortitude
//! plus 5), the contract leaves those inputs out with `requires`, as the debug
//! build panics on them.

use rand::Rng;
use vstd::prelude::*;
use vstd::arithmetic::div_mod::{lemma_add_mod_noop_right, lemma_mod_add_multiples_vanish};

verus! {

/// Rolls one die with `sides` faces through `rand::Rng::gen_range(1..=sides)` on
/// `rand::thread_rng()`. The value depends on chance: all that is claimed is
/// that it lies in `1..=sides`. `gen_range` panics on an empty range, hence
/// `sides >= 1`.
#[verifier::external_body]
pub(crate) fn roll_die(sides: u8) -> (r: u8)
    requires
        sides >= 1,
    ensures
        1 <= r <= sides,
{
    rand::thread_rng().gen_range(1..=sides)
}

/// The sum of a sequence of die results.
pub open spec fn sum_rolls(rolls: Seq<u8>) -> int
    decreases rolls.len(),
{
    if rolls.len() == 0 {
        0
    } else {
        sum_rolls(rolls.drop_last()) + rolls.last()
    }
}

/// Every die result lies in `1..=sides`.
pub open spec fn rolls_within(rolls: Seq<u8>, sides: u8) -> bool {
    forall|i: int| 0 <= i < rolls.len() ==> 1 <= #[trigger] rolls[i] <= sides
}

/// Each die adds between 1 and `sides`: the sum of `n` dice lies in `n..=n * sides`.
pub proof fn lemma_sum_rolls_bounds(rolls: Seq<u8>, sides: u8)
    requires
        rolls_within(rolls, sides),
    ensures
        rolls.len() <= sum_rolls(rolls) <= rolls.len() * sides,
    decreases rolls.len(),
{
    if rolls.len() > 0 {
        let rest = rolls.drop_last();
        assert(rolls_within(rest, sides)) by {
            assert forall|i: int| 0 <= i < rest.len() implies 1 <= #[trigger] rest[i] <= sides by {
                assert(rest[i] == rolls[i]);
            }
        }
        lemma_sum_rolls_bounds(rest, sides);
        assert(1 <= rolls[rolls.len() - 1] <= sides);
        assert((rest.len() + 1) * sides == rest.len() * sides + sides) by (nonlinear_arith);
    }
}

/// The dice drawn so far, in order. Only `roll` and `roll_many` add to it, so
/// a record stands for dice actually drawn.
pub struct DiceRecord {
    drawn: Ghost<Seq<u8>>,
}

impl DiceRecord {
    /// The results drawn so far, in order.
    pub closed spec fn drawn(self) -> Seq<u8> {
        self.drawn@
    }

    /// A record with nothing drawn yet.
    pub fn new() -> (r: DiceRecord)
        ensures
            r.drawn() == Seq::<u8>::empty(),
    {
        DiceRecord { drawn: Ghost(Seq::empty()) }
    }

    /// Draws one die with `sides` faces and records it.
    pub fn roll(&mut self, sides: u8) -> (r: u8)
        requires
            sides >= 1,
        ensures
            1 <= r <= sides,
            final(self).drawn() == old(self).drawn().push(r),
    {
        let r = roll_die(sides);
        self.drawn = Ghost(self.drawn@.push(r));
        r
    }

    /// Draws `count` dice with `sides` faces, in order, and records them.
    pub fn roll_many(&mut self, count: u8, sides: u8) -> (rolls: Vec<u8>)
        requires
            count == 0 || sides >= 1,
        ensures
            rolls@.len() == count,
            rolls_within(rolls@, sides),
            final(self).drawn() == old(self).drawn() + rolls@,
    {
        let mut rolls: Vec<u8> = Vec::new();
        let mut i: u8 = 0;
        while i < count
            invariant
                i <= count,
                count == 0 || sides >= 1,
                rolls@.len() == i,
                rolls_within(rolls@, sides),
                self.drawn() == old(self).drawn() + rolls@,
            decreases count - i,
        {
            let r = self.roll(sides);
            rolls.push(r);
            i = i + 1;
        }
        rolls
    }
}

/// Rolls `count` dice of `sides` faces, in order.
pub fn roll_dice(count: u8, sides: u8) -> (rolls: Vec<u8>)
    requires
        count == 0 || sides >= 1,
    ensures
        rolls@.len() == count,
        rolls_within(rolls@, sides),
{
    let mut rolls: Vec<u8> = Vec::new();
    let mut i: u8 = 0;
    while i < count
        invariant
            i <= count,
            count == 0 || sides >= 1,
            rolls@.len() == i,
            rolls_within(rolls@, sides),
        decreases count - i,
    {
        let r = roll_die(sides);
        rolls.push(r);
        i = i + 1;
    }
    rolls
}

/// `x` brought into the range of `i8` as two's complement wraps it.
pub open spec fn wrap_i8(x: int) -> int {
    (x + 128) % 256 - 128
}

/// `x` brought into the range of `u16` as unsigned arithmetic wraps it.
pub open spec fn wrap_u16(x: int) -> int {
    x % 65536
}

/// The sum of the die results, reduced modulo `modulus`.
fn sum_rolls_mod(rolls: &Vec<u8>, modulus: u32) -> (s: u32)
    requires
        256 <= modulus <= 65536,
    ensures
        s == sum_rolls(rolls@) % (modulus as int),
        s < modulus,
{
    let mut acc: u32 = 0;
    let mut i: usize = 0;
    while i < rolls.len()
        invariant
            0 <= i <= rolls@.len(),
            256 <= modulus <= 65536,
            acc < modulus,
            acc == sum_rolls(rolls@.take(i as int)) % (modulus as int),
        decreases rolls@.len() - i,
    {
        let r = rolls[i];
        proof {
            let m = modulus as int;
            let before = sum_rolls(rolls@.take(i as int));
            assert(rolls@.take(i + 1).drop_last() =~= rolls@.take(i as int));
            assert(sum_rolls(rolls@.take(i + 1)) == before + r);
            lemma_add_mod_noop_right(r as int, before, m);
        }
        acc = (acc + r as u32) % modulus;
        i = i + 1;
    }
    proof {
        assert(rolls@.take(rolls@.len() as int) =~= rolls@);
    }
    acc
}

/// Hit points from the hit-dice results and the modifier: their sum, wrapped
/// into `i8` as the arithmetic of the release build wraps it.
pub fn hit_points_from_rolls(rolls: &Vec<u8>, modifier: i8) -> (hp: i8)
    ensures
        hp == wrap_i8(sum_rolls(rolls@) + modifier),
{
    let acc = sum_rolls_mod(rolls, 256);
    let shifted: u32 = (modifier as i32 + 128) as u32;
    let w: u32 = (acc + shifted) % 256;
    proof {
        lemma_add_mod_noop_right(modifier + 128, sum_rolls(rolls@), 256);
    }
    (w as i32 - 128) as i8
}

/// Damage from the damage-dice results and the modifier: their sum, wrapped
/// into `u16` as the arithmetic of the release build wraps it.
pub fn damage_from_rolls(rolls: &Vec<u8>, modifier: i8) -> (damage: u16)
    ensures
        damage == wrap_u16(sum_rolls(rolls@) + modifier),
{
    let acc = sum_rolls_mod(rolls, 65536);
    let shifted: u64 = (modifier as i64 + 65536) as u64;
    let w: u64 = (acc as u64 + shifted) % 65536;
    proof {
        lemma_add_mod_noop_right(modifier + 65536, sum_rolls(rolls@), 65536);
        lemma_mod_add_multiples_vanish(sum_rolls(rolls@) + modifier, 65536);
    }
    w as u16
}

/// Wrapping leaves a value that already fits in `i8` as it is.
pub proof fn lemma_wrap_i8_fits(x: int)
    requires
        -128 <= x <= 127,
    ensures
        wrap_i8(x) == x,
{
    vstd::arithmetic::div_mod::lemma_small_mod((x + 128) as nat, 256);
}

/// Wrapped into `i8`, a value lies in the range of `i8`.
pub proof fn lemma_wrap_i8_range(x: int)
    ensures
        -128 <= wrap_i8(x) <= 127,
{
}

/// One attack roll: the d20 result plus the bonus, in `i8`.
pub open spec fn hit_of_roll(roll: u8, bonus: i8) -> int {
    wrap_i8(roll + bonus)
}

/// The attack result for an advantage code (0: one roll, 1: advantage, the
/// higher of two rolls, 2: disadvantage, the lower of two rolls).
pub open spec fn hit_total(bonus: i8, advantage: u8, first: u8, second: u8) -> int {
    let a = hit_of_roll(first, bonus);
    let b = hit_of_roll(second, bonus);
    if advantage == 1 {
        if a > b { a } else { b }
    } else if advantage == 2 {
        if a < b { a } else { b }
    } else {
        a
    }
}

fn hit_of_roll_exec(roll: u8, bonus: i8) -> (hit: i8)
    ensures
        hit == hit_of_roll(roll, bonus),
{
    let shifted: u32 = (roll as i32 + bonus as i32 + 128) as u32;
    let w: u32 = shifted % 256;
    (w as i32 - 128) as i8
}

/// The attack result from the d20 results `first` and `second` (the second is
/// read only with advantage or disadvantage).
pub fn hit_from_rolls(bonus: i8, advantage: u8, first: u8, second: u8) -> (hit: i8)
    requires
        advantage <= 2,
    ensures
        hit == hit_total(bonus, advantage, first, second),
{
    let a = hit_of_roll_exec(first, bonus);
    if advantage == 0 {
        return a;
    }
    let b = hit_of_roll_exec(second, bonus);
    if advantage == 1 {
        if a > b { a } else { b }
    } else {
        if a < b { a } else { b }
    }
}

/// Advantage never does worse than a single roll of the same first die and
/// disadvantage never better, whatever the dice show; which of the two dice
/// came first does not matter.
pub proof fn lemma_advantage_order(bonus: i8, first: u8, second: u8)
    ensures
        hit_total(bonus, 2, first, second) <= hit_total(bonus, 0, first, second),
        hit_total(bonus, 0, first, second) <= hit_total(bonus, 1, first, second),
        hit_total(bonus, 1, first, second) == hit_total(bonus, 1, second, first),
        hit_total(bonus, 2, first, second) == hit_total(bonus, 2, second, first),
{
}

/// Rolls an undead's attack with its hit bonus: one d20, or with advantage (1)
/// the higher and with disadvantage (2) the lower of two.
pub fn undead_hit(bonus: i8, advantage: u8) -> (hit: i8)
    requires
        advantage <= 2,
    ensures
        exists|first: u8, second: u8|
            1 <= first <= 20 && 1 <= second <= 20 && hit == hit_total(
                bonus,
                advantage,
                first,
                second,
            ),
        bonus <= 107 ==> bonus + 1 <= hit <= bonus + 20,
{
    let first = roll_die(20);
    let second = if advantage == 0 { first } else { roll_die(20) };
    let hit = hit_from_rolls(bonus, advantage, first, second);
    proof {
        if bonus <= 107 {
            lemma_wrap_i8_fits(first + bonus);
            lemma_wrap_i8_fits(second + bonus);
        }
    }
    hit
}

/// Rolls an undead's damage: `dice.0` dice of `dice.1` faces plus `dice.2`,
/// wrapped into `u16`.
pub fn undead_damage(dice: (u8, u8, i8)) -> (damage: u16)
    requires
        dice.0 == 0 || dice.1 >= 1,
    ensures
        exists|rolls: Seq<u8>|
            rolls.len() == dice.0 && rolls_within(rolls, dice.1) && damage == wrap_u16(
                sum_rolls(rolls) + dice.2,
            ),
        dice.2 >= 0 ==> dice.0 + dice.2 <= damage <= dice.0 * dice.1 + dice.2,
{
    let rolls = roll_dice(dice.0, dice.1);
    let damage = damage_from_rolls(&rolls, dice.2);
    assert(rolls@.len() == dice.0 && rolls_within(rolls@, dice.1));
    proof {
        if dice.2 >= 0 {
            lemma_sum_rolls_bounds(rolls@, dice.1);
            assert(dice.0 * dice.1 <= 255 * 255) by (nonlinear_arith)
                requires
                    dice.0 <= 255,
                    dice.1 <= 255,
            ;
            vstd::arithmetic::div_mod::lemma_small_mod(
                (sum_rolls(rolls@) + dice.2) as nat,
                65536,
            );
        }
    }
    damage
}

/// Undead Fortitude: whether a zombie brought to 0 hit points dies. Radiant
/// damage or a critical hit kills it; otherwise it dies unless the d20 roll
/// reaches the damage plus 5.
pub open spec fn fortitude_fails(damage: int, radiant_or_crit: bool, roll: u8) -> bool {
    radiant_or_crit || roll < damage + 5
}

/// Undead Fortitude, for every damage and every d20 result: radiant damage or
/// a critical hit always kills; otherwise the zombie dies exactly when the d20
/// falls short of the damage plus 5, so a higher roll never kills where a
/// lower one spares, and more damage never spares where less kills.
pub proof fn lemma_fortitude_rule(damage: int, radiant_or_crit: bool, roll: u8, other_roll: u8, other_damage: int)
    ensures
        radiant_or_crit ==> fortitude_fails(damage, radiant_or_crit, roll),
        !radiant_or_crit ==> (fortitude_fails(damage, radiant_or_crit, roll) <==> roll < damage + 5),
        roll <= other_roll && fortitude_fails(damage, radiant_or_crit, other_roll) ==> fortitude_fails(
            damage,
            radiant_or_crit,
            roll,
        ),
        damage <= other_damage && fortitude_fails(damage, radiant_or_crit, roll) ==> fortitude_fails(
            other_damage,
            radiant_or_crit,
            roll,
        ),
{
}

/// Undead Fortitude decided with a given d20 result.
pub fn fortitude_from_roll(damage: i8, radiant_or_crit: bool, roll: u8) -> (dies: bool)
    ensures
        dies == fortitude_fails(damage as int, radiant_or_crit, roll),
        dies == (radiant_or_crit || roll < damage + 5),
{
    if radiant_or_crit {
        return true;
    }
    (roll as i16) < (damage as i16 + 5)
}

/// Undead Fortitude: `true` when the zombie dies. The d20 is rolled only when
/// the damage was neither radiant nor a critical hit.
pub fn undead_fortitude(damage: i8, radiant_or_crit: bool) -> (dies: bool)
    requires
        radiant_or_crit || damage <= 122,
    ensures
        radiant_or_crit ==> dies,
        exists|roll: u8| 1 <= roll <= 20 && dies == fortitude_fails(damage as int, radiant_or_crit, roll),
        !radiant_or_crit && damage + 5 > 20 ==> dies,
        !radiant_or_crit && damage + 5 <= 1 ==> !dies,
{
    if radiant_or_crit {
        assert(fortitude_fails(damage as int, radiant_or_crit, 1));
        return true;
    }
    let roll = roll_die(20);
    fortitude_from_roll(damage, radiant_or_crit, roll)
}

} // verus!
