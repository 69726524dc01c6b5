//! What the player types: yes/no answers, numbers, list choices and commands,
//! read as `str::parse` reads them.

use vstd::prelude::*;
use vstd::string::*;

verus! {

/// Compares two strings character by character.
pub fn str_equals(a: &str, b: &str) -> (eq: bool)
    ensures
        eq == (a@ == b@),
{
    let n = a.unicode_len();
    if n != b.unicode_len() {
        return false;
    }
    let mut i: usize = 0;
    while i < n
        invariant
            n == a@.len(),
            n == b@.len(),
            i <= n,
            forall|j: int| 0 <= j < i ==> a@[j] == b@[j],
        decreases n - i,
    {
        if a.get_char(i) != b.get_char(i) {
            return false;
        }
        i = i + 1;
    }
    assert(a@ =~= b@);
    true
}

/// A decimal digit.
pub open spec fn is_digit(c: char) -> bool {
    '0' <= c <= '9'
}

/// Every character is a decimal digit.
pub open spec fn all_digits(s: Seq<char>) -> bool {
    forall|i: int| 0 <= i < s.len() ==> is_digit(#[trigger] s[i])
}

/// The value of a decimal digit.
pub open spec fn digit_value(c: char) -> int {
    (c as int) - ('0' as int)
}

/// The value of a string of decimal digits, most significant first.
pub open spec fn decimal_value(s: Seq<char>) -> int
    decreases s.len(),
{
    if s.len() == 0 {
        0
    } else {
        10 * decimal_value(s.drop_last()) + digit_value(s.last())
    }
}

/// An unsigned integer as `str::parse` reads it: an optional `+`, then one or
/// more decimal digits. `None` for any other text.
pub open spec fn unsigned_literal(s: Seq<char>) -> Option<int> {
    let digits = if s.len() > 0 && s[0] == '+' {
        s.drop_first()
    } else {
        s
    };
    if digits.len() > 0 && all_digits(digits) {
        Some(decimal_value(digits))
    } else {
        None
    }
}

/// A signed integer as `str::parse` reads it: an optional `+` or `-`, then one
/// or more decimal digits. `None` for any other text.
pub open spec fn signed_literal(s: Seq<char>) -> Option<int> {
    if s.len() > 0 && s[0] == '-' {
        let digits = s.drop_first();
        if digits.len() > 0 && all_digits(digits) {
            Some(-decimal_value(digits))
        } else {
            None
        }
    } else {
        unsigned_literal(s)
    }
}

/// A literal's value when it lies in `lo..=hi`: the integer type of that range
/// parses it; otherwise the parse fails.
pub open spec fn literal_within(literal: Option<int>, lo: int, hi: int) -> Option<int> {
    match literal {
        Some(v) => if lo <= v <= hi {
            Some(v)
        } else {
            None
        },
        None => None,
    }
}

/// A prefix of a string of digits has no greater value than the whole.
pub proof fn lemma_decimal_prefix(s: Seq<char>, k: int)
    requires
        all_digits(s),
        0 <= k <= s.len(),
    ensures
        0 <= decimal_value(s.take(k)) <= decimal_value(s),
    decreases s.len(),
{
    if s.len() > 0 {
        let rest = s.drop_last();
        assert(all_digits(rest)) by {
            assert forall|i: int| 0 <= i < rest.len() implies is_digit(#[trigger] rest[i]) by {
                assert(rest[i] == s[i]);
            }
        }
        assert(is_digit(s[s.len() - 1]));
        if k < s.len() {
            lemma_decimal_prefix(rest, k);
            assert(rest.take(k) =~= s.take(k));
        } else {
            lemma_decimal_prefix(rest, 0);
            assert(s.take(k) =~= s);
        }
    } else {
        assert(s.take(k) =~= s);
    }
}

/// A decimal value is never negative.
pub proof fn lemma_decimal_nonneg(s: Seq<char>)
    requires
        all_digits(s),
    ensures
        decimal_value(s) >= 0,
{
    lemma_decimal_prefix(s, 0);
}

/// An unsigned literal is never negative.
pub proof fn lemma_unsigned_nonneg(s: Seq<char>)
    ensures
        unsigned_literal(s) matches Some(v) ==> v >= 0,
{
    let digits = if s.len() > 0 && s[0] == '+' {
        s.drop_first()
    } else {
        s
    };
    if digits.len() > 0 && all_digits(digits) {
        lemma_decimal_nonneg(digits);
    }
}

/// Reads the characters of `s` from `start` on as decimal digits: `Some` of
/// their value when there is at least one, all are digits and the value is at
/// most `limit`; `None` otherwise.
fn parse_digits(s: &str, start: usize, limit: u64) -> (r: Option<u64>)
    requires
        start <= s@.len(),
    ensures
        ({
            let digits = s@.subrange(start as int, s@.len() as int);
            match r {
                Some(v) => digits.len() > 0 && all_digits(digits) && v == decimal_value(digits)
                    && v <= limit,
                None => !(digits.len() > 0 && all_digits(digits) && decimal_value(digits)
                    <= limit),
            }
        }),
{
    let n = s.unicode_len();
    let ghost digits = s@.subrange(start as int, s@.len() as int);
    if start >= n {
        return None;
    }
    let mut acc: u64 = 0;
    let mut i: usize = start;
    while i < n
        invariant
            n == s@.len(),
            start <= i <= n,
            start < n,
            digits == s@.subrange(start as int, n as int),
            all_digits(s@.subrange(start as int, i as int)),
            acc == decimal_value(s@.subrange(start as int, i as int)),
            acc <= limit,
        decreases n - i,
    {
        let c = s.get_char(i);
        let ghost before = s@.subrange(start as int, i as int);
        let ghost after = s@.subrange(start as int, i + 1);
        proof {
            assert(after.drop_last() =~= before);
            assert(after.last() == c);
            assert(digits.take(i + 1 - start) =~= after);
        }
        if !('0' <= c && c <= '9') {
            assert(!is_digit(digits[i - start]));
            return None;
        }
        proof {
            assert(all_digits(after)) by {
                assert forall|j: int| 0 <= j < after.len() implies is_digit(#[trigger] after[j]) by {
                    if j < before.len() {
                        assert(after[j] == before[j]);
                    }
                }
            }
        }
        let d: u64 = (c as u32 - '0' as u32) as u64;
        let next: u128 = acc as u128 * 10 + d as u128;
        if next > limit as u128 {
            proof {
                if all_digits(digits) {
                    lemma_decimal_prefix(digits, i + 1 - start);
                }
            }
            return None;
        }
        acc = next as u64;
        i = i + 1;
    }
    assert(s@.subrange(start as int, i as int) =~= digits);
    Some(acc)
}

/// Where the digits of an unsigned literal begin: after a leading `+`, if any.
fn unsigned_start(s: &str) -> (start: usize)
    ensures
        start <= s@.len(),
        start == (if s@.len() > 0 && s@[0] == '+' { 1int } else { 0int }),
{
    if s.unicode_len() > 0 && s.get_char(0) == '+' {
        1
    } else {
        0
    }
}

/// Reads an unsigned literal whose value is at most `limit`.
fn parse_unsigned(s: &str, limit: u64) -> (r: Option<u64>)
    ensures
        match r {
            Some(v) => literal_within(unsigned_literal(s@), 0, limit as int) == Some(v as int),
            None => literal_within(unsigned_literal(s@), 0, limit as int) is None,
        },
{
    let start = unsigned_start(s);
    let r = parse_digits(s, start, limit);
    proof {
        let digits = s@.subrange(start as int, s@.len() as int);
        if start == 1 {
            assert(digits =~= s@.drop_first());
        } else {
            assert(digits =~= s@);
        }
        if digits.len() > 0 && all_digits(digits) {
            lemma_decimal_prefix(digits, 0);
            assert(digits.take(0) =~= Seq::<char>::empty());
        }
    }
    r
}

/// `str::parse::<usize>`: `Some` of the number when the text is an unsigned
/// literal that fits in `usize`.
pub fn parse_usize(s: &str) -> (r: Option<usize>)
    ensures
        match r {
            Some(v) => literal_within(unsigned_literal(s@), 0, usize::MAX as int) == Some(v as int),
            None => literal_within(unsigned_literal(s@), 0, usize::MAX as int) is None,
        },
{
    match parse_unsigned(s, usize::MAX as u64) {
        Some(v) => Some(v as usize),
        None => None,
    }
}

/// `str::parse::<u8>`: `Some` of the number when the text is an unsigned
/// literal that fits in `u8`.
pub fn parse_u8(s: &str) -> (r: Option<u8>)
    ensures
        match r {
            Some(v) => literal_within(unsigned_literal(s@), 0, 255) == Some(v as int),
            None => literal_within(unsigned_literal(s@), 0, 255) is None,
        },
{
    match parse_unsigned(s, 255) {
        Some(v) => Some(v as u8),
        None => None,
    }
}

/// `str::parse::<i8>`: `Some` of the number when the text is a signed literal
/// that fits in `i8`.
pub fn parse_i8(s: &str) -> (r: Option<i8>)
    ensures
        match r {
            Some(v) => literal_within(signed_literal(s@), -128, 127) == Some(v as int),
            None => literal_within(signed_literal(s@), -128, 127) is None,
        },
{
    if s.unicode_len() > 0 && s.get_char(0) == '-' {
        let parsed = parse_digits(s, 1, 128);
        proof {
            let digits = s@.subrange(1, s@.len() as int);
            assert(digits =~= s@.drop_first());
            if digits.len() > 0 && all_digits(digits) {
                lemma_decimal_prefix(digits, 0);
                assert(digits.take(0) =~= Seq::<char>::empty());
            }
        }
        match parsed {
            Some(v) => {
                let neg: i16 = 0 - v as i16;
                Some(neg as i8)
            },
            None => None,
        }
    } else {
        assert(signed_literal(s@) == unsigned_literal(s@));
        proof {
            lemma_unsigned_nonneg(s@);
        }
        match parse_unsigned(s, 127) {
            Some(v) => Some(v as i8),
            None => None,
        }
    }
}

/// A yes/no answer: the single character `y` or `n`, as the player's input is
/// read with `str::parse::<char>`; anything else is refused.
pub fn parse_yes_no(s: &str) -> (r: Option<bool>)
    ensures
        r == (if s@ == seq!['y'] {
            Some(true)
        } else if s@ == seq!['n'] {
            Some(false)
        } else {
            None
        }),
{
    if s.unicode_len() != 1 {
        return None;
    }
    let c = s.get_char(0);
    if c == 'y' {
        assert(s@ =~= seq!['y']);
        Some(true)
    } else if c == 'n' {
        assert(s@ =~= seq!['n']);
        Some(false)
    } else {
        assert(s@ != seq!['y']);
        assert(s@ != seq!['n']);
        None
    }
}

/// The numbers that the player may give for an ability score: `-5..=5`.
pub fn parse_skill(s: &str) -> (r: Option<i8>)
    ensures
        match r {
            Some(v) => literal_within(signed_literal(s@), -5, 5) == Some(v as int),
            None => literal_within(signed_literal(s@), -5, 5) is None,
        },
{
    match parse_i8(s) {
        Some(v) => if -5 <= v && v <= 5 {
            Some(v)
        } else {
            None
        },
        None => None,
    }
}

/// The numbers that the player may give for a level: `1..=20`.
pub fn parse_level(s: &str) -> (r: Option<u8>)
    ensures
        match r {
            Some(v) => literal_within(unsigned_literal(s@), 1, 20) == Some(v as int),
            None => literal_within(unsigned_literal(s@), 1, 20) is None,
        },
{
    match parse_u8(s) {
        Some(v) => if 1 <= v && v <= 20 {
            Some(v)
        } else {
            None
        },
        None => None,
    }
}

/// The answer to a choice among `len` listed entries.
#[derive(PartialEq, Eq, Structural, Debug, Clone, Copy)]
pub enum Selection {
    /// A valid position in the list.
    Index(usize),
    /// The text is not a number.
    NotANumber,
    /// A number, but past the end of the list.
    OutOfRange,
}

/// What a typed choice among `len` entries selects.
pub open spec fn selection_of(s: Seq<char>, len: int) -> Selection {
    match literal_within(unsigned_literal(s), 0, usize::MAX as int) {
        Some(v) => if v < len {
            Selection::Index(v as usize)
        } else {
            Selection::OutOfRange
        },
        None => Selection::NotANumber,
    }
}

/// Reads the player's choice of an entry in a list of `len` entries.
pub fn select_from_vec(s: &str, len: usize) -> (r: Selection)
    ensures
        r == selection_of(s@, len as int),
{
    match parse_usize(s) {
        Some(v) => if v < len {
            Selection::Index(v)
        } else {
            Selection::OutOfRange
        },
        None => Selection::NotANumber,
    }
}

/// Reads which undead attacks next: an empty answer picks the first one,
/// anything else must be a number.
pub fn parse_attack_choice(s: &str) -> (r: Option<usize>)
    ensures
        s@.len() == 0 ==> r == Some(0usize),
        s@.len() > 0 ==> match r {
            Some(v) => literal_within(unsigned_literal(s@), 0, usize::MAX as int) == Some(v as int),
            None => literal_within(unsigned_literal(s@), 0, usize::MAX as int) is None,
        },
{
    if s.unicode_len() == 0 {
        Some(0)
    } else {
        parse_usize(s)
    }
}

/// The commands of the main menu.
#[derive(PartialEq, Eq, Structural, Debug, Clone, Copy)]
pub enum Command {
    /// Every undead rolls its attack.
    Attack,
    /// An undead loses or regains hit points.
    Health,
    /// Cast Animate Dead: summon an undead.
    Cast,
    /// Show the player's statistics.
    Level,
    /// List the summoned undead.
    List,
    /// Enter the player's statistics anew.
    Update,
    /// Save the current state.
    Save,
    /// Clear the terminal.
    Clear,
}

/// The command that a typed word names.
pub open spec fn command_named(s: Seq<char>) -> Option<Command> {
    if s == "attack"@ {
        Some(Command::Attack)
    } else if s == "health"@ {
        Some(Command::Health)
    } else if s == "cast"@ {
        Some(Command::Cast)
    } else if s == "level"@ {
        Some(Command::Level)
    } else if s == "list"@ {
        Some(Command::List)
    } else if s == "update"@ {
        Some(Command::Update)
    } else if s == "save"@ {
        Some(Command::Save)
    } else if s == "clear"@ {
        Some(Command::Clear)
    } else {
        None
    }
}

impl Command {
    /// Reads a menu command; `None` for an unknown one.
    pub fn parse(s: &str) -> (r: Option<Command>)
        ensures
            r == command_named(s@),
    {
        if str_equals(s, "attack") {
            Some(Command::Attack)
        } else if str_equals(s, "health") {
            Some(Command::Health)
        } else if str_equals(s, "cast") {
            Some(Command::Cast)
        } else if str_equals(s, "level") {
            Some(Command::Level)
        } else if str_equals(s, "list") {
            Some(Command::List)
        } else if str_equals(s, "update") {
            Some(Command::Update)
        } else if str_equals(s, "save") {
            Some(Command::Save)
        } else if str_equals(s, "clear") {
            Some(Command::Clear)
        } else {
            None
        }
    }
}

} // verus!
