use necrorust::necromancer::{
    advantage_code, calc_cr, create_necromancer, draw_strike_dice, get_undead_list, spell_bonus, strike,
    strike_with_rolls, HealthOutcome, Necromancer,
};
use necrorust::undead::Undead;

fn undead(name: &str, hp: i8, cr: u8) -> Undead {
    Undead {
        hp,
        ac: 8,
        cr,
        name: name.to_string(),
        hit: 3,
        damage: (1, 6, 1),
        hit_dice: (3, 8, 9),
    }
}

fn necromancer(level: u8, summons: Vec<Undead>) -> Necromancer {
    create_necromancer([1, 2, 3, 4, 0, -1], level, summons)
}

#[test]
fn thrall_budget_by_level() {
    let expected = [0, 1, 2, 2, 4, 4, 4, 4, 8, 8, 8, 8, 12, 12, 12, 12, 16, 16, 16, 16];
    for level in 1..=20u8 {
        assert_eq!(calc_cr(level), expected[(level - 1) as usize]);
    }
    for level in 1..20u8 {
        assert!(calc_cr(level) <= calc_cr(level + 1));
    }
}

#[test]
fn spell_bonus_rounds_up() {
    assert_eq!(spell_bonus(1, 0), 2);
    assert_eq!(spell_bonus(4, 0), 2);
    assert_eq!(spell_bonus(5, 0), 3);
    assert_eq!(spell_bonus(20, 5), 11);
    assert_eq!(spell_bonus(9, -5), -1);
}

#[test]
fn new_necromancer() {
    let n = create_necromancer([1, 2, 3, 4, 0, -1], 5, vec![undead("Zombie", 22, 1)]);
    assert_eq!((n.str, n.dex, n.con, n.int, n.wis, n.cha), (1, 2, 3, 4, 0, -1));
    assert_eq!(n.level, 5);
    assert_eq!(n.cr_thrall_max, 4);
    assert_eq!(n.spell_bonus, 3 + 4);
    assert_eq!(n.summons.len(), 1);
}

#[test]
fn cr_total_and_names() {
    let n = necromancer(9, vec![undead("Zombie", 22, 1), undead("Ghoul", 10, 2)]);
    assert_eq!(n.add_summon_cr(), 3);
    assert_eq!(get_undead_list(&n), vec!["Zombie".to_string(), "Ghoul".to_string()]);
    assert_eq!(necromancer(1, vec![]).add_summon_cr(), 0);
}

#[test]
fn summon_within_budget() {
    let mut n = necromancer(3, vec![undead("Zombie", 22, 1)]);
    assert!(n.can_summon(&undead("Zombie", 20, 1)));
    assert!(n.summon(undead("Zombie", 20, 1), false));
    assert_eq!(n.add_summon_cr(), 2);
    assert!(!n.can_summon(&undead("Ghoul", 20, 1)));
    assert!(!n.summon(undead("Ghoul", 20, 1), true));
    assert_eq!(n.summons.len(), 2);
    assert!(n.add_summon_cr() <= n.cr_thrall_max);
}

#[test]
fn skeleton_named_after_weapon() {
    let mut n = necromancer(20, vec![]);
    assert!(n.summon(undead("Skeleton", 13, 1), true));
    assert!(n.summon(undead("Skeleton", 13, 1), false));
    assert!(n.summon(undead("Zombie", 22, 1), true));
    assert_eq!(
        get_undead_list(&n),
        vec![
            "Skeleton with Bow".to_string(),
            "Skeleton with Sword".to_string(),
            "Zombie".to_string()
        ]
    );
    assert_eq!(n.summons[0].hp, 13);
}

#[test]
fn refused_summon_changes_nothing() {
    let mut n = necromancer(1, vec![]);
    assert!(!n.summon(undead("Skeleton", 13, 1), true));
    assert!(n.summons.is_empty());
    assert!(n.summon(undead("Crawling Claw", 2, 0), false));
    assert_eq!(n.summons.len(), 1);
}

#[test]
fn health_loss_and_healing() {
    let mut n = necromancer(5, vec![undead("Ghoul", 10, 1), undead("Zombie", 22, 1)]);
    assert_eq!(n.change_health_with_roll(0, -4, false, 1), HealthOutcome::Standing);
    assert_eq!(n.summons[0].hp, 6);
    assert_eq!(n.change_health_with_roll(0, 3, false, 1), HealthOutcome::Standing);
    assert_eq!(n.summons[0].hp, 9);
    assert_eq!(n.change_health_with_roll(0, -9, false, 1), HealthOutcome::Died);
    assert_eq!(get_undead_list(&n), vec!["Zombie".to_string()]);
}

#[test]
fn undead_fortitude_outcomes() {
    let mut n = necromancer(5, vec![undead("Zombie", 5, 1)]);
    assert!(n.needs_fortitude_check(0, -5));
    assert!(!n.needs_fortitude_check(0, -4));
    assert_eq!(n.change_health_with_roll(0, -8, false, 13), HealthOutcome::ZombieHeldOn);
    assert_eq!(n.summons[0].hp, 1);
    assert_eq!(n.change_health_with_roll(0, -3, false, 7), HealthOutcome::ZombieFell);
    assert!(n.summons.is_empty());

    let mut n = necromancer(5, vec![undead("Zombie", 5, 1)]);
    assert_eq!(n.change_health_with_roll(0, -5, true, 20), HealthOutcome::ZombieDestroyed);
    assert!(n.summons.is_empty());
}

#[test]
fn rolled_health_change() {
    let mut n = necromancer(5, vec![undead("Zombie", 5, 1), undead("Ghoul", 4, 1)]);
    assert_eq!(n.change_health(1, -4, false), HealthOutcome::Died);
    assert_eq!(n.change_health(0, -30, false), HealthOutcome::ZombieFell);
    assert!(n.summons.is_empty());
    let mut n = necromancer(5, vec![undead("Zombie", 5, 1)]);
    let outcome = n.change_health(0, -5, false);
    match outcome {
        HealthOutcome::ZombieHeldOn => assert_eq!(n.summons[0].hp, 1),
        HealthOutcome::ZombieFell => assert!(n.summons.is_empty()),
        other => panic!("unexpected outcome {:?}", other),
    }
}

#[test]
fn attack_round_strikes_each_once() {
    let n = necromancer(9, vec![undead("Zombie", 22, 1), undead("Ghoul", 10, 2), undead("Skeleton with Bow", 13, 1)]);
    let mut queue = n.attack();
    assert_eq!(queue.len(), 3);
    let mut names = Vec::new();
    for pick in [1usize, 1, 0] {
        names.push(queue[pick].name.clone());
        let (hit, damage) = strike(&mut queue, pick, advantage_code(false, false));
        assert!((4..=23).contains(&hit));
        assert!((2..=7).contains(&damage));
    }
    assert!(queue.is_empty());
    assert_eq!(names, vec!["Ghoul", "Skeleton with Bow", "Zombie"]);
    assert_eq!(n.summons.len(), 3);
}

#[test]
fn strike_with_given_dice() {
    let mut queue = vec![undead("Zombie", 22, 1), undead("Ghoul", 10, 2)];
    assert_eq!(strike_with_rolls(&mut queue, 1, 1, 4, 17, &vec![5]), (20, 6));
    assert_eq!(queue.len(), 1);
    assert_eq!(queue[0].name, "Zombie");
}

#[test]
fn advantage_codes() {
    assert_eq!(advantage_code(false, false), 0);
    assert_eq!(advantage_code(true, false), 1);
    assert_eq!(advantage_code(false, true), 2);
}

#[test]
fn rolled_hit_points() {
    let zombie = undead("Zombie", 0, 1);
    for _ in 0..200 {
        let hp = zombie.roll_hp();
        assert!((12..=33).contains(&hp));
    }
    assert!(undead("Zombie", 0, 1).is_zombie());
    assert!(!undead("Zombie Lord", 0, 1).is_zombie());
    assert!(undead("Skeleton", 0, 1).is_skeleton());
}

#[test]
fn thrall_total_ignores_order() {
    let a = necromancer(9, vec![undead("Zombie", 22, 1), undead("Ghoul", 10, 2), undead("Skeleton", 13, 3)]);
    let b = necromancer(9, vec![undead("Skeleton", 13, 3), undead("Zombie", 22, 1), undead("Ghoul", 10, 2)]);
    assert_eq!(a.add_summon_cr(), b.add_summon_cr());
    let mut c = necromancer(20, vec![undead("Zombie", 22, 1), undead("Ghoul", 10, 2)]);
    let before = c.add_summon_cr();
    assert!(c.summon(undead("Wight", 30, 4), false));
    assert_eq!(c.add_summon_cr(), before + 4);
}

#[test]
fn drawn_strike_dice() {
    let ghoul = undead("Ghoul", 10, 2);
    for advantage in 0..=2u8 {
        let dice = draw_strike_dice(&ghoul, advantage);
        assert!((1..=20).contains(&dice.first) && (1..=20).contains(&dice.second));
        if advantage == 0 {
            assert_eq!(dice.first, dice.second);
        }
        assert_eq!(dice.damage_rolls.len(), 1);
        assert!((1..=6).contains(&dice.damage_rolls[0]));
        let mut queue = vec![ghoul.clone()];
        let (hit, damage) = strike_with_rolls(&mut queue, 0, advantage, dice.first, dice.second, &dice.damage_rolls);
        let expected = match advantage {
            0 => dice.first as i8 + 3,
            1 => dice.first.max(dice.second) as i8 + 3,
            _ => dice.first.min(dice.second) as i8 + 3,
        };
        assert_eq!(hit, expected);
        assert_eq!(damage, dice.damage_rolls[0] as u16 + 1);
    }
}

#[test]
fn necromancer_clone_keeps_everything() {
    let n = necromancer(9, vec![undead("Zombie", 22, 1)]);
    let c = n.clone();
    assert_eq!((c.level, c.cr_thrall_max, c.spell_bonus, c.int), (n.level, n.cr_thrall_max, n.spell_bonus, n.int));
    assert_eq!(get_undead_list(&c), get_undead_list(&n));
}
