use necrorust::dice::{
    damage_from_rolls, fortitude_from_roll, hit_from_rolls, hit_points_from_rolls, roll_dice,
    undead_damage, undead_fortitude, undead_hit,
};

#[test]
fn hit_with_and_without_advantage() {
    assert_eq!(hit_from_rolls(3, 0, 10, 15), 13);
    assert_eq!(hit_from_rolls(3, 1, 10, 15), 18);
    assert_eq!(hit_from_rolls(3, 2, 10, 15), 13);
    assert_eq!(hit_from_rolls(-2, 1, 20, 1), 18);
}

#[test]
fn advantage_order_on_values() {
    for first in 1..=20u8 {
        for second in 1..=20u8 {
            let dis = hit_from_rolls(4, 2, first, second);
            let plain = hit_from_rolls(4, 0, first, second);
            let adv = hit_from_rolls(4, 1, first, second);
            assert!(dis <= plain && plain <= adv);
            assert_eq!(adv, hit_from_rolls(4, 1, second, first));
        }
    }
}

#[test]
fn hit_wraps_like_i8() {
    assert_eq!(hit_from_rolls(120, 0, 10, 0), 120i8.wrapping_add(10));
}

#[test]
fn damage_totals() {
    assert_eq!(damage_from_rolls(&vec![3, 4], 2), 9);
    assert_eq!(damage_from_rolls(&vec![3, 4], -1), 6);
    assert_eq!(damage_from_rolls(&vec![], 0), 0);
    assert_eq!(damage_from_rolls(&vec![], -1), 65535);
}

#[test]
fn hit_point_totals() {
    assert_eq!(hit_points_from_rolls(&vec![8, 8, 8], 9), 33);
    assert_eq!(hit_points_from_rolls(&vec![1, 1, 1], 9), 12);
    assert_eq!(hit_points_from_rolls(&vec![100, 100], 0), -56);
    assert_eq!(hit_points_from_rolls(&vec![], -3), -3);
}

#[test]
fn fortitude_threshold() {
    assert!(!fortitude_from_roll(3, false, 8));
    assert!(fortitude_from_roll(3, false, 7));
    assert!(fortitude_from_roll(3, true, 20));
    assert!(undead_fortitude(3, true));
    assert!(undead_fortitude(100, false));
}

#[test]
fn rolled_dice_stay_in_range() {
    let rolls = roll_dice(200, 20);
    assert_eq!(rolls.len(), 200);
    assert!(rolls.iter().all(|r| (1..=20).contains(r)));
    assert!(rolls.iter().any(|r| *r != 20));
    assert!(roll_dice(0, 0).is_empty());
}

#[test]
fn rolled_attacks_stay_in_range() {
    for _ in 0..200 {
        let h = undead_hit(3, 0);
        assert!((4..=23).contains(&h));
        let h = undead_hit(3, 1);
        assert!((4..=23).contains(&h));
        let h = undead_hit(-1, 2);
        assert!((0..=19).contains(&h));
    }
}

#[test]
fn rolled_damage_stays_in_range() {
    for _ in 0..200 {
        let d = undead_damage((1, 6, 1));
        assert!((2..=7).contains(&d));
        let d = undead_damage((2, 8, 0));
        assert!((2..=16).contains(&d));
    }
    assert_eq!(undead_damage((0, 0, 4)), 4);
}
