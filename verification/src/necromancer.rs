//! The necromancer: ability scores, level, and the undead thralls whose
//! challenge ratings must fit the budget that the level grants.
//!
//! Arithmetic whose overflow the inputs decide (a change of hit points, the
//! negated damage of Undead Fortitude, the total challenge rating) panics in
//! the debug build of the program: the contracts leave those inputs out with
//! `requires`. Totals that depend on the dice follow the release build and
//! wrap (see `dice`).

use vstd::prelude::*;
use vstd::string::*;
use vstd::multiset::Multiset;
use crate::undead::{Undead, is_zombie, is_skeleton};
use crate::dice::{
    fortitude_fails, fortitude_from_roll, roll_die, DiceRecord, hit_total, hit_from_rolls,
    damage_from_rolls, rolls_within, sum_rolls, wrap_u16,
};

verus! {

/// The player character.
#[derive(Clone)]
pub struct Necromancer {
    pub str: i8,
    pub dex: i8,
    pub con: i8,
    pub int: i8,
    pub wis: i8,
    pub cha: i8,
    pub summons: Vec<Undead>,
    pub level: u8,
    /// The largest total challenge rating of the thralls. Like the `cr` of
    /// each undead, it is counted in quarters of a challenge rating: the
    /// value is the rating multiplied by 4.
    pub cr_thrall_max: u8,
    pub spell_bonus: i8,
}

/// The total challenge rating of a list of undead.
pub open spec fn cr_total(summons: Seq<Undead>) -> int
    decreases summons.len(),
{
    if summons.len() == 0 {
        0
    } else {
        cr_total(summons.drop_last()) + summons.last().cr
    }
}

/// The thralls fit the budget.
pub open spec fn within_capacity(summons: Seq<Undead>, cr_thrall_max: u8) -> bool {
    cr_total(summons) <= cr_thrall_max
}

/// The total challenge rating of two lists put together is the sum of theirs.
pub proof fn lemma_cr_total_concat(a: Seq<Undead>, b: Seq<Undead>)
    ensures
        cr_total(a + b) == cr_total(a) + cr_total(b),
    decreases b.len(),
{
    if b.len() == 0 {
        assert(a + b =~= a);
    } else {
        lemma_cr_total_concat(a, b.drop_last());
        assert((a + b).drop_last() =~= a + b.drop_last());
    }
}

/// A prefix of a list never has a greater total than the whole list.
pub proof fn lemma_cr_total_prefix(s: Seq<Undead>, k: int)
    requires
        0 <= k <= s.len(),
    ensures
        0 <= cr_total(s.take(k)) <= cr_total(s),
    decreases s.len(),
{
    if s.len() > 0 {
        if k < s.len() {
            lemma_cr_total_prefix(s.drop_last(), k);
            assert(s.drop_last().take(k) =~= s.take(k));
        } else {
            lemma_cr_total_prefix(s.drop_last(), 0);
            assert(s.take(k) =~= s);
        }
    } else {
        assert(s.take(k) =~= s);
    }
}

/// The total of a single undead is its challenge rating.
pub proof fn lemma_cr_total_single(u: Undead)
    ensures
        cr_total(seq![u]) == u.cr,
{
    let single = seq![u];
    assert(single.len() == 1);
    assert(single.last() == u);
    assert(single.drop_last() =~= Seq::<Undead>::empty());
    assert(cr_total(single.drop_last()) == 0);
}

/// Taking one undead out of a list lowers the total by its challenge rating.
pub proof fn lemma_cr_total_remove(s: Seq<Undead>, i: int)
    requires
        0 <= i < s.len(),
    ensures
        cr_total(s.remove(i)) == cr_total(s) - s[i].cr,
{
    let front = s.take(i);
    let back = s.skip(i + 1);
    assert(s =~= front + seq![s[i]] + back);
    assert(s.remove(i) =~= front + back);
    lemma_cr_total_concat(front, back);
    lemma_cr_total_concat(front + seq![s[i]], back);
    lemma_cr_total_concat(front, seq![s[i]]);
    lemma_cr_total_single(s[i]);
}

/// Replacing an undead by one of the same challenge rating keeps the total.
pub proof fn lemma_cr_total_update(s: Seq<Undead>, i: int, u: Undead)
    requires
        0 <= i < s.len(),
        u.cr == s[i].cr,
    ensures
        cr_total(s.update(i, u)) == cr_total(s),
{
    let front = s.take(i);
    let back = s.skip(i + 1);
    assert(s =~= front + seq![s[i]] + back);
    assert(s.update(i, u) =~= front + seq![u] + back);
    lemma_cr_total_concat(front + seq![s[i]], back);
    lemma_cr_total_concat(front, seq![s[i]]);
    lemma_cr_total_concat(front + seq![u], back);
    lemma_cr_total_concat(front, seq![u]);
    lemma_cr_total_single(s[i]);
    lemma_cr_total_single(u);
}

/// Adding an undead at the end of a list raises the total by its rating.
pub proof fn lemma_cr_total_push(s: Seq<Undead>, u: Undead)
    ensures
        cr_total(s.push(u)) == cr_total(s) + u.cr,
{
    assert(s.push(u).drop_last() =~= s);
}

/// The order of the thralls does not matter to their total: two lists that
/// hold the same undead, each as often, have the same total.
pub proof fn lemma_cr_total_permutation(a: Seq<Undead>, b: Seq<Undead>)
    requires
        a.to_multiset() =~= b.to_multiset(),
    ensures
        cr_total(a) == cr_total(b),
    decreases a.len(),
{
    broadcast use vstd::seq_lib::group_to_multiset_ensures;

    if a.len() == 0 {
        assert(b.to_multiset().len() == 0);
        assert(b.len() == 0);
    } else {
        let x = a.last();
        let rest = a.drop_last();
        assert(a =~= rest.push(x));
        assert(a.to_multiset() =~= rest.to_multiset().insert(x));
        assert(b.to_multiset().count(x) > 0);
        assert(b.contains(x));
        let j = choose|j: int| 0 <= j < b.len() && b[j] == x;
        assert(b.remove(j).to_multiset() =~= b.to_multiset().remove(x));
        assert(rest.to_multiset() =~= a.to_multiset().remove(x));
        lemma_cr_total_permutation(rest, b.remove(j));
        lemma_cr_total_remove(b, j);
    }
}

/// What `add_summon_cr` computes depends only on which undead are summoned,
/// not on their order, and summoning one more raises it by that undead's
/// rating.
pub proof fn lemma_summon_cr_laws(summons: Seq<Undead>, reordered: Seq<Undead>, u: Undead)
    requires
        reordered.to_multiset() =~= summons.to_multiset(),
    ensures
        cr_total(reordered) == cr_total(summons),
        cr_total(summons.push(u)) == cr_total(summons) + u.cr,
{
    lemma_cr_total_permutation(reordered, summons);
    lemma_cr_total_push(summons, u);
}

/// The thrall budget that a level grants.
pub open spec fn thrall_budget(level: u8) -> int {
    if level == 1 {
        0
    } else if level == 2 {
        1
    } else if level <= 4 {
        2
    } else if level <= 8 {
        4
    } else if level <= 12 {
        8
    } else if level <= 16 {
        12
    } else {
        16
    }
}

/// The thrall budget of a level in `1..=20`.
pub fn calc_cr(level: u8) -> (cr: u8)
    requires
        1 <= level <= 20,
    ensures
        cr == thrall_budget(level),
{
    if level == 1 {
        0
    } else if level == 2 {
        1
    } else if level <= 4 {
        2
    } else if level <= 8 {
        4
    } else if level <= 12 {
        8
    } else if level <= 16 {
        12
    } else {
        16
    }
}

/// A higher level never grants a smaller thrall budget.
pub proof fn lemma_thrall_budget_monotonic(low: u8, high: u8)
    requires
        1 <= low <= high <= 20,
    ensures
        thrall_budget(low) <= thrall_budget(high),
{
}

/// `ceil(level / 4)`.
pub open spec fn level_quarter_up(level: u8) -> int {
    (level + 3) / 4
}

/// `level_quarter_up` is the ceiling of a quarter: the least `q` with
/// `4 * q >= level`.
pub proof fn lemma_level_quarter_up_is_ceiling(level: u8)
    ensures
        4 * level_quarter_up(level) >= level,
        4 * (level_quarter_up(level) - 1) < level,
{
}

/// The spell bonus: a quarter of the level, rounded up, plus one, plus the
/// Intelligence score.
pub fn spell_bonus(level: u8, intelligence: i8) -> (bonus: i8)
    requires
        level_quarter_up(level) + 1 + intelligence <= 127,
    ensures
        bonus == level_quarter_up(level) + 1 + intelligence,
        4 * (bonus - 1 - intelligence) >= level,
        4 * (bonus - 2 - intelligence) < level,
{
    proof {
        lemma_level_quarter_up_is_ceiling(level);
    }
    let quarter: i16 = ((level as u16 + 3) / 4) as i16;
    (quarter + 1 + intelligence as i16) as i8
}

/// A new necromancer from the six ability scores (Strength, Dexterity,
/// Constitution, Intelligence, Wisdom, Charisma), the level and the thralls
/// already summoned.
pub fn create_necromancer(stats: [i8; 6], level: u8, undead: Vec<Undead>) -> (n: Necromancer)
    requires
        1 <= level <= 20,
        level_quarter_up(level) + 1 + stats@[3] <= 127,
    ensures
        n.str == stats@[0],
        n.dex == stats@[1],
        n.con == stats@[2],
        n.int == stats@[3],
        n.wis == stats@[4],
        n.cha == stats@[5],
        n.summons@ == undead@,
        n.level == level,
        n.cr_thrall_max == thrall_budget(level),
        n.spell_bonus == level_quarter_up(level) + 1 + stats@[3],
{
    let cr_max = calc_cr(level);
    let bonus = spell_bonus(level, stats[3]);
    Necromancer {
        str: stats[0],
        dex: stats[1],
        con: stats[2],
        int: stats[3],
        wis: stats[4],
        cha: stats[5],
        summons: undead,
        level,
        cr_thrall_max: cr_max,
        spell_bonus: bonus,
    }
}

/// The names of the summoned undead, in order.
pub fn get_undead_list(necromancer: &Necromancer) -> (names: Vec<String>)
    ensures
        names@.len() == necromancer.summons@.len(),
        forall|i: int|
            0 <= i < names@.len() ==> #[trigger] names@[i]@ == necromancer.summons@[i].name@,
{
    let mut names: Vec<String> = Vec::new();
    let n = necromancer.summons.len();
    let mut i: usize = 0;
    while i < n
        invariant
            n == necromancer.summons@.len(),
            i <= n,
            names@.len() == i,
            forall|j: int|
                0 <= j < i ==> #[trigger] names@[j]@ == necromancer.summons@[j].name@,
        decreases n - i,
    {
        names.push(necromancer.summons[i].name.clone());
        i = i + 1;
    }
    names
}

impl Necromancer {
    /// The total challenge rating of the summoned undead.
    pub fn add_summon_cr(&self) -> (total: u8)
        requires
            cr_total(self.summons@) <= 255,
        ensures
            total == cr_total(self.summons@),
    {
        let n = self.summons.len();
        let mut total: u8 = 0;
        let mut i: usize = 0;
        while i < n
            invariant
                n == self.summons@.len(),
                i <= n,
                cr_total(self.summons@) <= 255,
                total == cr_total(self.summons@.take(i as int)),
            decreases n - i,
        {
            proof {
                assert(self.summons@.take(i + 1).drop_last() =~= self.summons@.take(i as int));
                lemma_cr_total_prefix(self.summons@, i + 1);
            }
            total = total + self.summons[i].cr;
            i = i + 1;
        }
        assert(self.summons@.take(n as int) =~= self.summons@);
        total
    }
}

/// The ability scores, level, thrall budget and spell bonus agree.
pub open spec fn same_character(a: Necromancer, b: Necromancer) -> bool {
    &&& a.str == b.str
    &&& a.dex == b.dex
    &&& a.con == b.con
    &&& a.int == b.int
    &&& a.wis == b.wis
    &&& a.cha == b.cha
    &&& a.level == b.level
    &&& a.cr_thrall_max == b.cr_thrall_max
    &&& a.spell_bonus == b.spell_bonus
}

/// An undead of challenge rating `cr` still fits the budget.
pub open spec fn fits_budget(summons: Seq<Undead>, cr_thrall_max: u8, cr: u8) -> bool {
    cr_total(summons) + cr <= cr_thrall_max
}

/// The name a summoned undead gets: a skeleton is named after its weapon.
pub open spec fn summon_name(u: Undead, has_bow: bool) -> Seq<char> {
    if is_skeleton(u) {
        if has_bow {
            "Skeleton with Bow"@
        } else {
            "Skeleton with Sword"@
        }
    } else {
        u.name@
    }
}

/// Only a skeleton is renamed when summoned, and then after its weapon; any
/// other undead keeps its name, whatever the answer about a bow.
pub proof fn lemma_summon_name_rule(u: Undead, has_bow: bool)
    ensures
        u.name@ != "Skeleton"@ ==> summon_name(u, has_bow) == u.name@,
        u.name@ == "Skeleton"@ && has_bow ==> summon_name(u, has_bow) == "Skeleton with Bow"@,
        u.name@ == "Skeleton"@ && !has_bow ==> summon_name(u, has_bow) == "Skeleton with Sword"@,
{
}

/// `v` is `u` under the name `name`.
pub open spec fn renamed(v: Undead, u: Undead, name: Seq<char>) -> bool {
    &&& v.hp == u.hp
    &&& v.ac == u.ac
    &&& v.cr == u.cr
    &&& v.name@ == name
    &&& v.hit == u.hit
    &&& v.damage == u.damage
    &&& v.hit_dice == u.hit_dice
}

/// The thralls after casting Animate Dead on `u`: it joins at the end of the
/// list when it fits the budget; otherwise nothing changes.
pub open spec fn summon_result(
    before: Seq<Undead>,
    cr_thrall_max: u8,
    u: Undead,
    has_bow: bool,
    after: Seq<Undead>,
) -> bool {
    if fits_budget(before, cr_thrall_max, u.cr) {
        &&& after.len() == before.len() + 1
        &&& after.drop_last() == before
        &&& renamed(after.last(), u, summon_name(u, has_bow))
    } else {
        after == before
    }
}

/// A summon that is let through leaves the thralls within the budget, and one
/// that is refused leaves them as they were: the budget, once kept, is never
/// broken by summoning.
pub proof fn lemma_summon_keeps_budget(
    before: Seq<Undead>,
    cr_thrall_max: u8,
    u: Undead,
    has_bow: bool,
    after: Seq<Undead>,
)
    requires
        summon_result(before, cr_thrall_max, u, has_bow, after),
    ensures
        fits_budget(before, cr_thrall_max, u.cr) ==> within_capacity(after, cr_thrall_max)
            && cr_total(after) == cr_total(before) + u.cr,
        within_capacity(before, cr_thrall_max) ==> within_capacity(after, cr_thrall_max),
{
}

/// What a change of hit points leads to.
#[derive(PartialEq, Eq, Structural, Debug, Clone, Copy)]
pub enum HealthOutcome {
    /// The undead still has hit points left.
    Standing,
    /// The undead dropped to 0 or below and is gone.
    Died,
    /// A zombie dropped to 0 or below from radiant damage or a critical hit, and is gone.
    ZombieDestroyed,
    /// A zombie dropped to 0 or below and failed its Undead Fortitude roll.
    ZombieFell,
    /// A zombie dropped to 0 or below and kept 1 hit point by Undead Fortitude.
    ZombieHeldOn,
}

/// The inputs on which a change of hit points runs without overflow: the new
/// hit points fit in `i8`, and for a zombie that drops, the damage can be
/// negated and, unless radiant or critical, increased by 5.
pub open spec fn health_change_allowed(
    summons: Seq<Undead>,
    index: int,
    change: i8,
    radiant_or_crit: bool,
) -> bool {
    &&& 0 <= index < summons.len()
    &&& -128 <= summons[index].hp + change <= 127
    &&& (summons[index].hp + change <= 0 && is_zombie(summons[index])) ==> {
        &&& change > -128
        &&& radiant_or_crit || change >= -122
    }
}

/// The outcome for undead `u` of a change of `change` hit points; `roll` is
/// the d20 of Undead Fortitude.
pub open spec fn health_outcome(u: Undead, change: i8, radiant_or_crit: bool, roll: u8) -> HealthOutcome {
    if u.hp + change > 0 {
        HealthOutcome::Standing
    } else if !is_zombie(u) {
        HealthOutcome::Died
    } else if radiant_or_crit {
        HealthOutcome::ZombieDestroyed
    } else if fortitude_fails(-change, false, roll) {
        HealthOutcome::ZombieFell
    } else {
        HealthOutcome::ZombieHeldOn
    }
}

/// What a change of hit points does, for every undead, change and d20: it
/// stands while its hit points stay above 0; at 0 or below anything but a
/// zombie dies; a zombie is destroyed by radiant damage or a critical hit,
/// and otherwise falls exactly when the d20 is below the damage plus 5, so
/// hit points of exactly 0 roll like any others.
pub proof fn lemma_health_outcome_rule(u: Undead, change: i8, radiant_or_crit: bool, roll: u8)
    ensures
        u.hp + change > 0 ==> health_outcome(u, change, radiant_or_crit, roll)
            == HealthOutcome::Standing,
        u.hp + change <= 0 && u.name@ != "Zombie"@ ==> health_outcome(
            u,
            change,
            radiant_or_crit,
            roll,
        ) == HealthOutcome::Died,
        u.hp + change <= 0 && u.name@ == "Zombie"@ && radiant_or_crit ==> health_outcome(
            u,
            change,
            radiant_or_crit,
            roll,
        ) == HealthOutcome::ZombieDestroyed,
        u.hp + change <= 0 && u.name@ == "Zombie"@ && !radiant_or_crit ==> {
            &&& (health_outcome(u, change, radiant_or_crit, roll) == HealthOutcome::ZombieFell
                <==> roll < 5 - change)
            &&& (health_outcome(u, change, radiant_or_crit, roll) == HealthOutcome::ZombieHeldOn
                <==> roll >= 5 - change)
        },
{
}

/// `u` with `hp` hit points.
pub open spec fn with_hp(u: Undead, hp: int) -> Undead {
    Undead {
        hp: hp as i8,
        ac: u.ac,
        cr: u.cr,
        name: u.name,
        hit: u.hit,
        damage: u.damage,
        hit_dice: u.hit_dice,
    }
}

/// The thralls after undead `index` gains `change` hit points (loses, when negative).
pub open spec fn summons_after_health_change(
    summons: Seq<Undead>,
    index: int,
    change: i8,
    radiant_or_crit: bool,
    roll: u8,
) -> Seq<Undead> {
    let u = summons[index];
    match health_outcome(u, change, radiant_or_crit, roll) {
        HealthOutcome::Standing => summons.update(index, with_hp(u, u.hp + change)),
        HealthOutcome::ZombieHeldOn => summons.update(index, with_hp(u, 1)),
        _ => summons.remove(index),
    }
}

/// A change of hit points never leaves an undead on the list at 0 hit points
/// or below: it either keeps a positive total, or it is taken off, or, only
/// for a zombie that passes Undead Fortitude, it stays at exactly 1.
pub proof fn lemma_no_fallen_undead_stays(
    summons: Seq<Undead>,
    index: int,
    change: i8,
    radiant_or_crit: bool,
    roll: u8,
)
    requires
        health_change_allowed(summons, index, change, radiant_or_crit),
    ensures
        ({
            let outcome = health_outcome(summons[index], change, radiant_or_crit, roll);
            let after = summons_after_health_change(summons, index, change, radiant_or_crit, roll);
            &&& outcome == HealthOutcome::Standing ==> after.len() == summons.len() && after[index].hp
                == summons[index].hp + change && after[index].hp >= 1
            &&& outcome == HealthOutcome::ZombieHeldOn ==> after.len() == summons.len()
                && after[index].hp == 1 && is_zombie(summons[index])
            &&& (outcome != HealthOutcome::Standing && outcome != HealthOutcome::ZombieHeldOn)
                ==> after.len() == summons.len() - 1 && summons[index].hp + change <= 0
        }),
{
}

/// A change of hit points never raises the total challenge rating: an undead
/// that stays keeps its rating and one that falls takes its rating away.
pub proof fn lemma_health_change_keeps_budget(
    summons: Seq<Undead>,
    cr_thrall_max: u8,
    index: int,
    change: i8,
    radiant_or_crit: bool,
    roll: u8,
)
    requires
        health_change_allowed(summons, index, change, radiant_or_crit),
    ensures
        cr_total(summons_after_health_change(summons, index, change, radiant_or_crit, roll))
            <= cr_total(summons),
        within_capacity(summons, cr_thrall_max) ==> within_capacity(
            summons_after_health_change(summons, index, change, radiant_or_crit, roll),
            cr_thrall_max,
        ),
{
    let u = summons[index];
    match health_outcome(u, change, radiant_or_crit, roll) {
        HealthOutcome::Standing => lemma_cr_total_update(summons, index, with_hp(u, u.hp + change)),
        HealthOutcome::ZombieHeldOn => lemma_cr_total_update(summons, index, with_hp(u, 1)),
        _ => lemma_cr_total_remove(summons, index),
    }
}

impl Necromancer {
    /// Whether `undead` would still fit the thrall budget.
    pub fn can_summon(&self, undead: &Undead) -> (fits: bool)
        requires
            cr_total(self.summons@) + undead.cr <= 255,
        ensures
            fits == fits_budget(self.summons@, self.cr_thrall_max, undead.cr),
    {
        let total = self.add_summon_cr();
        self.cr_thrall_max >= total + undead.cr
    }

    /// Casts Animate Dead on `undead`, whose configuration has been read and
    /// hit points rolled: it joins the thralls if its challenge rating fits
    /// the budget, a skeleton named after its weapon (`has_bow` is the
    /// player's answer, asked only for a skeleton that fits). Returns whether
    /// it joined.
    pub fn summon(&mut self, undead: Undead, has_bow: bool) -> (accepted: bool)
        requires
            cr_total(old(self).summons@) + undead.cr <= 255,
        ensures
            accepted == fits_budget(old(self).summons@, old(self).cr_thrall_max, undead.cr),
            summon_result(
                old(self).summons@,
                old(self).cr_thrall_max,
                undead,
                has_bow,
                final(self).summons@,
            ),
            accepted && undead.name@ != "Skeleton"@ ==> final(self).summons@.last().name@
                == undead.name@,
            same_character(*final(self), *old(self)),
    {
        if !self.can_summon(&undead) {
            return false;
        }
        let mut thrall = undead;
        if thrall.is_skeleton() {
            if has_bow {
                thrall.name = String::from_str("Skeleton with Bow");
            } else {
                thrall.name = String::from_str("Skeleton with Sword");
            }
        }
        let ghost before = self.summons@;
        self.summons.push(thrall);
        assert(self.summons@.drop_last() =~= before);
        true
    }

    /// Whether a change of hit points would bring a zombie to 0 or below, so
    /// that the player is asked about radiant damage or a critical hit.
    pub fn needs_fortitude_check(&self, index: usize, change: i8) -> (b: bool)
        requires
            index < self.summons@.len(),
        ensures
            b == (self.summons@[index as int].hp + change <= 0 && is_zombie(self.summons@[index as int])),
    {
        let u = &self.summons[index];
        (u.hp as i16 + change as i16) <= 0 && u.is_zombie()
    }

    /// Sets the hit points of undead `index`.
    fn set_hp(&mut self, index: usize, hp: i8)
        requires
            index < old(self).summons@.len(),
        ensures
            final(self).summons@ == old(self).summons@.update(
                index as int,
                with_hp(old(self).summons@[index as int], hp as int),
            ),
            same_character(*final(self), *old(self)),
    {
        let mut u = self.summons.remove(index);
        u.hp = hp;
        self.summons.insert(index, u);
        proof {
            let before = old(self).summons@;
            assert(self.summons@ =~= before.update(index as int, with_hp(before[index as int], hp as int)));
        }
    }

    /// Undead `index` gains `change` hit points (loses them, when negative),
    /// with `roll` as the d20 of Undead Fortitude should a zombie drop to 0.
    pub fn change_health_with_roll(
        &mut self,
        index: usize,
        change: i8,
        radiant_or_crit: bool,
        roll: u8,
    ) -> (outcome: HealthOutcome)
        requires
            health_change_allowed(old(self).summons@, index as int, change, radiant_or_crit),
        ensures
            outcome == health_outcome(old(self).summons@[index as int], change, radiant_or_crit, roll),
            old(self).summons@[index as int].hp + change <= 0 && is_zombie(
                old(self).summons@[index as int],
            ) && !radiant_or_crit ==> (outcome == HealthOutcome::ZombieFell <==> roll < 5 - change),
            final(self).summons@ == summons_after_health_change(
                old(self).summons@,
                index as int,
                change,
                radiant_or_crit,
                roll,
            ),
            same_character(*final(self), *old(self)),
    {
        let ghost before = self.summons@;
        let hp: i8 = self.summons[index].hp + change;
        self.set_hp(index, hp);
        if hp > 0 {
            return HealthOutcome::Standing;
        }
        if !self.summons[index].is_zombie() {
            let _fallen = self.summons.remove(index);
            assert(self.summons@ =~= before.remove(index as int));
            return HealthOutcome::Died;
        }
        let dies = fortitude_from_roll(0 - change, radiant_or_crit, roll);
        if dies {
            let _fallen = self.summons.remove(index);
            assert(self.summons@ =~= before.remove(index as int));
            if radiant_or_crit {
                HealthOutcome::ZombieDestroyed
            } else {
                HealthOutcome::ZombieFell
            }
        } else {
            self.set_hp(index, 1);
            assert(self.summons@ =~= before.update(index as int, with_hp(before[index as int], 1)));
            HealthOutcome::ZombieHeldOn
        }
    }

    /// Undead `index` gains `change` hit points (loses them, when negative). A
    /// zombie that drops to 0 or below rolls Undead Fortitude, unless the
    /// damage was radiant or a critical hit (`radiant_or_crit`, the player's
    /// answer, asked only when `needs_fortitude_check` holds).
    pub fn change_health(&mut self, index: usize, change: i8, radiant_or_crit: bool) -> (outcome: HealthOutcome)
        requires
            health_change_allowed(old(self).summons@, index as int, change, radiant_or_crit),
        ensures
            exists|roll: u8|
                1 <= roll <= 20 && outcome == health_outcome(
                    old(self).summons@[index as int],
                    change,
                    radiant_or_crit,
                    roll,
                ) && final(self).summons@ == summons_after_health_change(
                    old(self).summons@,
                    index as int,
                    change,
                    radiant_or_crit,
                    roll,
                ),
            same_character(*final(self), *old(self)),
    {
        let drops_zombie = self.needs_fortitude_check(index, change);
        let roll: u8 = if drops_zombie && !radiant_or_crit {
            roll_die(20)
        } else {
            1
        };
        self.change_health_with_roll(index, change, radiant_or_crit, roll)
    }
}

impl Necromancer {
    /// Begins an attack: every summoned undead is to strike once. Returns the
    /// undead still to strike, in the order of the list; `strike` takes them
    /// out one by one, in the order the player picks.
    pub fn attack(&self) -> (queue: Vec<Undead>)
        ensures
            queue@ == self.summons@,
    {
        let n = self.summons.len();
        let mut queue: Vec<Undead> = Vec::new();
        let mut i: usize = 0;
        while i < n
            invariant
                n == self.summons@.len(),
                i <= n,
                queue@ == self.summons@.take(i as int),
            decreases n - i,
        {
            queue.push(self.summons[i].clone());
            assert(queue@ =~= self.summons@.take(i + 1));
            i = i + 1;
        }
        assert(self.summons@.take(n as int) =~= self.summons@);
        queue
    }
}

/// The advantage code of an attack: 1 with advantage, 2 with disadvantage, 0
/// with neither.
pub fn advantage_code(has_advantage: bool, has_disadvantage: bool) -> (code: u8)
    ensures
        code == (if has_disadvantage { 2int } else { 0int }) + (if has_advantage { 1int } else { 0int }),
{
    let d: u8 = if has_disadvantage { 2 } else { 0 };
    let a: u8 = if has_advantage { 1 } else { 0 };
    d + a
}

/// Undead `index` of the queue strikes with the given dice: the attack roll
/// from the d20 results `first` and `second`, and the damage from
/// `damage_rolls`; it then leaves the queue.
pub fn strike_with_rolls(
    queue: &mut Vec<Undead>,
    index: usize,
    advantage: u8,
    first: u8,
    second: u8,
    damage_rolls: &Vec<u8>,
) -> (result: (i8, u16))
    requires
        index < old(queue)@.len(),
        advantage <= 2,
    ensures
        final(queue)@ == old(queue)@.remove(index as int),
        result.0 == hit_total(old(queue)@[index as int].hit, advantage, first, second),
        result.1 == wrap_u16(sum_rolls(damage_rolls@) + old(queue)@[index as int].damage.2),
{
    let u = queue.remove(index);
    let hit = hit_from_rolls(u.hit, advantage, first, second);
    let damage = damage_from_rolls(damage_rolls, u.damage.2);
    (hit, damage)
}

/// The dice of one strike: the d20 results and the damage dice.
pub struct StrikeDice {
    pub first: u8,
    pub second: u8,
    pub damage_rolls: Vec<u8>,
    /// Every die drawn for the strike, in the order drawn.
    pub record: DiceRecord,
}

/// Draws the dice for a strike of `undead`: a d20, a second d20 only with
/// advantage or disadvantage (otherwise `second` repeats `first`), then the
/// damage dice.
pub fn draw_strike_dice(undead: &Undead, advantage: u8) -> (dice: StrikeDice)
    requires
        undead.damage.0 == 0 || undead.damage.1 >= 1,
    ensures
        1 <= dice.first <= 20,
        1 <= dice.second <= 20,
        advantage == 0 ==> dice.second == dice.first,
        dice.damage_rolls@.len() == undead.damage.0,
        rolls_within(dice.damage_rolls@, undead.damage.1),
        dice.record.drawn() == seq![dice.first] + (if advantage == 0 {
            Seq::<u8>::empty()
        } else {
            seq![dice.second]
        }) + dice.damage_rolls@,
{
    let mut record = DiceRecord::new();
    let first = record.roll(20);
    let second = if advantage == 0 {
        first
    } else {
        record.roll(20)
    };
    let damage_rolls = record.roll_many(undead.damage.0, undead.damage.1);
    assert(record.drawn() =~= seq![first] + (if advantage == 0 {
        Seq::<u8>::empty()
    } else {
        seq![second]
    }) + damage_rolls@);
    StrikeDice { first, second, damage_rolls, record }
}

/// Undead `index` of the queue strikes: it rolls its attack with the given
/// advantage code and its damage dice, then leaves the queue.
pub fn strike(queue: &mut Vec<Undead>, index: usize, advantage: u8) -> (result: (i8, u16))
    requires
        index < old(queue)@.len(),
        advantage <= 2,
        old(queue)@[index as int].damage.0 == 0 || old(queue)@[index as int].damage.1 >= 1,
    ensures
        final(queue)@ == old(queue)@.remove(index as int),
        exists|first: u8, second: u8|
            1 <= first <= 20 && 1 <= second <= 20 && (advantage == 0 ==> first == second)
                && result.0 == hit_total(old(queue)@[index as int].hit, advantage, first, second),
        exists|rolls: Seq<u8>|
            rolls.len() == old(queue)@[index as int].damage.0 && rolls_within(
                rolls,
                old(queue)@[index as int].damage.1,
            ) && result.1 == wrap_u16(sum_rolls(rolls) + old(queue)@[index as int].damage.2),
{
    let dice = draw_strike_dice(&queue[index], advantage);
    let result = strike_with_rolls(queue, index, advantage, dice.first, dice.second, &dice.damage_rolls);
    assert(dice.damage_rolls@.len() == old(queue)@[index as int].damage.0);
    result
}

/// Who has struck, in order, and who is still to strike, after the player has
/// picked positions `picks` in the queue one after the other.
pub open spec fn attack_round(queue: Seq<Undead>, picks: Seq<int>) -> (Seq<Undead>, Seq<Undead>)
    decreases picks.len(),
{
    if picks.len() == 0 {
        (Seq::empty(), queue)
    } else {
        let (struck, left) = attack_round(queue, picks.drop_last());
        let i = picks.last();
        (struck.push(left[i]), left.remove(i))
    }
}

/// Each pick names a position among the undead still to strike.
pub open spec fn picks_valid(queue: Seq<Undead>, picks: Seq<int>) -> bool {
    forall|k: int| 0 <= k < picks.len() ==> 0 <= #[trigger] picks[k] < queue.len() - k
}

/// In an attack round the struck and the waiting undead are, together, the
/// undead the round began with, and each pick moves one from the second to
/// the first.
pub proof fn lemma_attack_round_partition(queue: Seq<Undead>, picks: Seq<int>)
    requires
        picks_valid(queue, picks),
        picks.len() <= queue.len(),
    ensures
        attack_round(queue, picks).0.len() == picks.len(),
        attack_round(queue, picks).1.len() == queue.len() - picks.len(),
        attack_round(queue, picks).0.to_multiset().add(attack_round(queue, picks).1.to_multiset())
            =~= queue.to_multiset(),
    decreases picks.len(),
{
    broadcast use vstd::seq_lib::group_to_multiset_ensures;

    if picks.len() == 0 {
        assert(Seq::<Undead>::empty().to_multiset() =~= Multiset::empty());
    } else {
        let rest = picks.drop_last();
        assert(picks_valid(queue, rest)) by {
            assert forall|k: int| 0 <= k < rest.len() implies 0 <= #[trigger] rest[k] < queue.len() - k by {
                assert(rest[k] == picks[k]);
            }
        }
        lemma_attack_round_partition(queue, rest);
        let (struck, left) = attack_round(queue, rest);
        let i = picks.last();
        assert(0 <= picks[picks.len() - 1] < queue.len() - (picks.len() - 1));
        assert(0 <= i < left.len());
        assert(struck.push(left[i]).to_multiset() =~= struck.to_multiset().insert(left[i]));
        assert(left.remove(i).to_multiset() =~= left.to_multiset().remove(left[i]));
        assert(left.to_multiset().count(left[i]) > 0) by {
            assert(left.contains(left[i]));
        }
    }
}

/// Once the player has picked as many times as there were undead, every one
/// of them has struck exactly once and none is left waiting.
pub proof fn lemma_attack_round_complete(queue: Seq<Undead>, picks: Seq<int>)
    requires
        picks_valid(queue, picks),
        picks.len() == queue.len(),
    ensures
        attack_round(queue, picks).1.len() == 0,
        attack_round(queue, picks).0.to_multiset() =~= queue.to_multiset(),
{
    broadcast use vstd::seq_lib::group_to_multiset_ensures;

    lemma_attack_round_partition(queue, picks);
    let left = attack_round(queue, picks).1;
    assert(left.to_multiset().len() == 0);
    assert(left.to_multiset() =~= Multiset::empty());
}

} // verus!
