use necrorust::input::{
    parse_attack_choice, parse_i8, parse_level, parse_skill, parse_u8, parse_usize, parse_yes_no,
    select_from_vec, str_equals, Command, Selection,
};

#[test]
fn usize_literals() {
    assert_eq!(parse_usize("42"), Some(42));
    assert_eq!(parse_usize("+7"), Some(7));
    assert_eq!(parse_usize("0007"), Some(7));
    assert_eq!(parse_usize(""), None);
    assert_eq!(parse_usize("+"), None);
    assert_eq!(parse_usize("-1"), None);
    assert_eq!(parse_usize("1a"), None);
    assert_eq!(parse_usize(" 1"), None);
    assert_eq!(parse_usize("18446744073709551615"), Some(usize::MAX));
    assert_eq!(parse_usize("18446744073709551616"), None);
}

#[test]
fn usize_agrees_with_std() {
    for text in ["0", "12", "+3", "-3", "", "+", "x", "99999999999999999999", "٣", "1_000"] {
        assert_eq!(parse_usize(text), text.parse::<usize>().ok(), "{:?}", text);
    }
}

#[test]
fn u8_literals() {
    assert_eq!(parse_u8("255"), Some(255));
    assert_eq!(parse_u8("256"), None);
    assert_eq!(parse_u8("0"), Some(0));
    for text in ["1", "+20", "-0", "300", "abc", ""] {
        assert_eq!(parse_u8(text), text.parse::<u8>().ok(), "{:?}", text);
    }
}

#[test]
fn i8_literals() {
    assert_eq!(parse_i8("-128"), Some(-128));
    assert_eq!(parse_i8("127"), Some(127));
    assert_eq!(parse_i8("128"), None);
    assert_eq!(parse_i8("-129"), None);
    assert_eq!(parse_i8("-"), None);
    assert_eq!(parse_i8("+-5"), None);
    for text in ["-0", "+5", "-5", "--5", "12x", "", "-", "+"] {
        assert_eq!(parse_i8(text), text.parse::<i8>().ok(), "{:?}", text);
    }
}

#[test]
fn yes_no_answers() {
    assert_eq!(parse_yes_no("y"), Some(true));
    assert_eq!(parse_yes_no("n"), Some(false));
    assert_eq!(parse_yes_no("yes"), None);
    assert_eq!(parse_yes_no(""), None);
    assert_eq!(parse_yes_no("Y"), None);
}

#[test]
fn skill_range() {
    assert_eq!(parse_skill("-5"), Some(-5));
    assert_eq!(parse_skill("5"), Some(5));
    assert_eq!(parse_skill("6"), None);
    assert_eq!(parse_skill("-6"), None);
    assert_eq!(parse_skill("two"), None);
}

#[test]
fn level_range() {
    assert_eq!(parse_level("0"), None);
    assert_eq!(parse_level("1"), Some(1));
    assert_eq!(parse_level("20"), Some(20));
    assert_eq!(parse_level("21"), None);
}

#[test]
fn list_selection() {
    assert_eq!(select_from_vec("2", 3), Selection::Index(2));
    assert_eq!(select_from_vec("3", 3), Selection::OutOfRange);
    assert_eq!(select_from_vec("x", 3), Selection::NotANumber);
    assert_eq!(select_from_vec("0", 0), Selection::OutOfRange);
}

#[test]
fn attack_choice_defaults_to_first() {
    assert_eq!(parse_attack_choice(""), Some(0));
    assert_eq!(parse_attack_choice("4"), Some(4));
    assert_eq!(parse_attack_choice("four"), None);
}

#[test]
fn menu_commands() {
    assert_eq!(Command::parse("attack"), Some(Command::Attack));
    assert_eq!(Command::parse("health"), Some(Command::Health));
    assert_eq!(Command::parse("cast"), Some(Command::Cast));
    assert_eq!(Command::parse("level"), Some(Command::Level));
    assert_eq!(Command::parse("list"), Some(Command::List));
    assert_eq!(Command::parse("update"), Some(Command::Update));
    assert_eq!(Command::parse("save"), Some(Command::Save));
    assert_eq!(Command::parse("clear"), Some(Command::Clear));
    assert_eq!(Command::parse("Attack"), None);
    assert_eq!(Command::parse(""), None);
}

#[test]
fn string_equality() {
    assert!(str_equals("Zombie", "Zombie"));
    assert!(!str_equals("Zombie", "zombie"));
    assert!(!str_equals("Zomb", "Zombie"));
    assert!(str_equals("", ""));
}
