//! Actions as short texts, for a command line or a log: "c" for a check,
//! "ca" for a call, "f" for a fold, "a" for all in, and "r-" followed by
//! the amount in decimal digits for a raise.

use crate::action::Action;
use vstd::prelude::*;
use vstd::string::{StrSliceExecFns, StringExecFns};

verus! {

/// The character of a decimal digit.
pub open spec fn digit_char(d: nat) -> char {
    if d == 0 {
        '0'
    } else if d == 1 {
        '1'
    } else if d == 2 {
        '2'
    } else if d == 3 {
        '3'
    } else if d == 4 {
        '4'
    } else if d == 5 {
        '5'
    } else if d == 6 {
        '6'
    } else if d == 7 {
        '7'
    } else if d == 8 {
        '8'
    } else {
        '9'
    }
}

/// Whether a character is a decimal digit.
pub open spec fn is_digit(c: char) -> bool {
    exists|d: nat| d < 10 && c == #[trigger] digit_char(d)
}

/// The digit that a character shows; 0 for any other character.
pub open spec fn digit_value(c: char) -> nat {
    if c == '1' {
        1
    } else if c == '2' {
        2
    } else if c == '3' {
        3
    } else if c == '4' {
        4
    } else if c == '5' {
        5
    } else if c == '6' {
        6
    } else if c == '7' {
        7
    } else if c == '8' {
        8
    } else if c == '9' {
        9
    } else {
        0
    }
}

/// A number in decimal digits, without leading zeros.
pub open spec fn decimal(n: nat) -> Seq<char>
    decreases n,
{
    if n < 10 {
        seq![digit_char(n)]
    } else {
        decimal(n / 10).push(digit_char(n % 10))
    }
}

/// Whether a text is made of decimal digits only.
pub open spec fn all_digits(s: Seq<char>) -> bool {
    forall|i: int| 0 <= i < s.len() ==> is_digit(#[trigger] s[i])
}

/// The number that decimal digits spell; leading zeros do not count.
pub open spec fn decimal_value(s: Seq<char>) -> nat
    decreases s.len(),
{
    if s.len() == 0 {
        0
    } else {
        10 * decimal_value(s.drop_last()) + digit_value(s.last())
    }
}

/// The amount of a raise as text: decimal, with a minus sign in front of
/// what is below zero.
pub open spec fn amount_text(amount: i32) -> Seq<char> {
    if amount >= 0 {
        decimal(amount as nat)
    } else {
        seq!['-'] + decimal((-amount) as nat)
    }
}

/// The short text of an action.
pub open spec fn notation(a: Action) -> Seq<char> {
    match a {
        Action::Check => seq!['c'],
        Action::Call => seq!['c', 'a'],
        Action::Raise(amount) => seq!['r', '-'] + amount_text(amount),
        Action::Fold => seq!['f'],
        Action::AllIn => seq!['a'],
    }
}

/// The action that a short text names, if it names one. The amount of a
/// raise is one or more decimal digits that spell at most the largest
/// 32-bit amount.
pub open spec fn read_notation(s: Seq<char>) -> Option<Action> {
    if s == seq!['c'] {
        Some(Action::Check)
    } else if s == seq!['c', 'a'] {
        Some(Action::Call)
    } else if s == seq!['f'] {
        Some(Action::Fold)
    } else if s == seq!['a'] {
        Some(Action::AllIn)
    } else if s.len() > 2 && s[0] == 'r' && s[1] == '-' && all_digits(s.skip(2))
        && decimal_value(s.skip(2)) <= i32::MAX {
        Some(Action::Raise(decimal_value(s.skip(2)) as i32))
    } else {
        None
    }
}

/// The digits of a number are digits, and spell the number.
pub proof fn lemma_decimal(n: nat)
    ensures
        decimal(n).len() > 0,
        all_digits(decimal(n)),
        decimal_value(decimal(n)) == n,
    decreases n,
{
    if n < 10 {
        assert(decimal_value(decimal(n).drop_last()) == 0);
    } else {
        lemma_decimal(n / 10);
        let s = decimal(n);
        assert(s.drop_last() =~= decimal(n / 10));
    }
}

/// Round trip of the short text: the text of an action names that action.
/// A raise below zero has a text, for a log, but that text names nothing:
/// no such raise is ever accepted.
pub proof fn lemma_notation_round_trip(a: Action)
    requires
        a matches Action::Raise(amount) ==> amount >= 0,
    ensures
        read_notation(notation(a)) == Some(a),
{
    let s = notation(a);
    match a {
        Action::Raise(amount) => {
            lemma_decimal(amount as nat);
            assert(s.skip(2) =~= decimal(amount as nat));
        },
        Action::Check => {},
        Action::Call => {
            assert(s[0] == 'c' && s.len() == 2);
        },
        Action::Fold => {
            assert(s[0] == 'f' && s.len() == 1);
        },
        Action::AllIn => {
            assert(s[0] == 'a' && s.len() == 1);
        },
    }
}

/// More digits never spell less.
pub proof fn lemma_decimal_value_grows(s: Seq<char>, k: int)
    requires
        0 <= k <= s.len(),
    ensures
        decimal_value(s.take(k)) <= decimal_value(s),
    decreases s.len() - k,
{
    if k < s.len() {
        lemma_decimal_value_grows(s, k + 1);
        assert(s.take(k + 1).drop_last() =~= s.take(k));
    } else {
        assert(s.take(k) =~= s);
    }
}

/// One decimal digit as text.
fn digit_text(d: u32) -> (t: &'static str)
    requires
        d < 10,
    ensures
        t@ == seq![digit_char(d as nat)],
{
    proof {
        reveal_strlit("0");
        reveal_strlit("1");
        reveal_strlit("2");
        reveal_strlit("3");
        reveal_strlit("4");
        reveal_strlit("5");
        reveal_strlit("6");
        reveal_strlit("7");
        reveal_strlit("8");
        reveal_strlit("9");
    }
    let t = if d == 0 {
        "0"
    } else if d == 1 {
        "1"
    } else if d == 2 {
        "2"
    } else if d == 3 {
        "3"
    } else if d == 4 {
        "4"
    } else if d == 5 {
        "5"
    } else if d == 6 {
        "6"
    } else if d == 7 {
        "7"
    } else if d == 8 {
        "8"
    } else {
        "9"
    };
    t
}

/// Appends a number in decimal digits.
fn push_decimal(text: &mut String, n: u32)
    ensures
        final(text)@ == old(text)@ + decimal(n as nat),
    decreases n,
{
    if n >= 10 {
        push_decimal(text, n / 10);
    }
    text.append(digit_text(n % 10));
}

/// The digit that a character shows, if it is one.
fn digit_of(c: char) -> (r: Option<u32>)
    ensures
        match r {
            Some(d) => d < 10 && is_digit(c) && d == digit_value(c),
            None => !is_digit(c),
        },
{
    let r = if c == '0' {
        Some(0)
    } else if c == '1' {
        Some(1)
    } else if c == '2' {
        Some(2)
    } else if c == '3' {
        Some(3)
    } else if c == '4' {
        Some(4)
    } else if c == '5' {
        Some(5)
    } else if c == '6' {
        Some(6)
    } else if c == '7' {
        Some(7)
    } else if c == '8' {
        Some(8)
    } else if c == '9' {
        Some(9)
    } else {
        None
    };
    proof {
        match r {
            Some(d) => {
                assert(c == digit_char(d as nat));
            },
            None => {},
        }
    }
    r
}

impl Action {
    /// The short text of the action.
    pub fn compile_action(&self) -> (text: String)
        ensures
            text@ == notation(*self),
            (*self matches Action::Raise(amount) ==> amount >= 0) ==> read_notation(text@)
                == Some(*self),
    {
        proof {
            reveal_strlit("c");
            reveal_strlit("ca");
            reveal_strlit("f");
            reveal_strlit("a");
            reveal_strlit("r-");
            reveal_strlit("-");
            if *self matches Action::Raise(amount) ==> amount >= 0 {
                lemma_notation_round_trip(*self);
            }
        }
        let text = match self {
            Action::Check => String::from_str("c"),
            Action::Call => String::from_str("ca"),
            Action::Fold => String::from_str("f"),
            Action::AllIn => String::from_str("a"),
            Action::Raise(amount) => {
                let mut text = String::from_str("r-");
                if *amount >= 0 {
                    push_decimal(&mut text, *amount as u32);
                } else {
                    text.append("-");
                    push_decimal(&mut text, (-(*amount as i64)) as u32);
                }
                text
            },
        };
        text
    }

    /// The action that a short text names; `None` where it names none.
    pub fn from_text(text: &str) -> (r: Option<Action>)
        ensures
            r == read_notation(text@),
    {
        let n = text.unicode_len();
        if n == 0 {
            return None;
        }
        let first = text.get_char(0);
        if n == 1 {
            return if first == 'c' {
                assert(text@ =~= seq!['c']);
                Some(Action::Check)
            } else if first == 'f' {
                assert(text@ =~= seq!['f']);
                Some(Action::Fold)
            } else if first == 'a' {
                assert(text@ =~= seq!['a']);
                Some(Action::AllIn)
            } else {
                None
            };
        }
        let second = text.get_char(1);
        if n == 2 {
            return if first == 'c' && second == 'a' {
                assert(text@ =~= seq!['c', 'a']);
                Some(Action::Call)
            } else {
                None
            };
        }
        if first != 'r' || second != '-' {
            return None;
        }
        let ghost digits = text@.skip(2);
        let mut value: u32 = 0;
        let mut i: usize = 2;
        while i < n
            invariant
                2 <= i <= n,
                n == text@.len(),
                digits == text@.skip(2),
                value == decimal_value(digits.take(i - 2)),
                value <= i32::MAX,
                forall|k: int| 0 <= k < i - 2 ==> is_digit(#[trigger] digits[k]),
            decreases n - i,
        {
            let c = text.get_char(i);
            proof {
                assert(digits.take(i - 1).drop_last() =~= digits.take(i - 2));
                lemma_decimal_value_grows(digits, i - 1);
            }
            match digit_of(c) {
                None => {
                    return None;
                },
                Some(d) => {
                    if value > (i32::MAX as u32 - d) / 10 {
                        return None;
                    }
                    value = 10 * value + d;
                },
            }
            i += 1;
        }
        assert(digits.take(n - 2) =~= digits);
        Some(Action::Raise(value as i32))
    }
}

} // verus!
