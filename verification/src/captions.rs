//! The lines of text that show the state of the session.

use crate::formula::rendered;
use crate::gradient_field::Gradient;
use crate::level::{total, GameState};
use vstd::prelude::*;

verus! {

/// The character of a digit.
pub open spec fn digit(d: nat) -> char {
    if d == 0 {
        '0'
    } else if d == 1 {
        '1'
    } else if d == 2 {
        '2'
    } else if d == 3 {
        '3'
    } else if d == 4 {
        '4'
    } else if d == 5 {
        '5'
    } else if d == 6 {
        '6'
    } else if d == 7 {
        '7'
    } else if d == 8 {
        '8'
    } else {
        '9'
    }
}

/// A number in decimal: its digits, the most significant first, with no
/// leading zero but for zero itself.
pub open spec fn decimal(n: nat) -> Seq<char>
    decreases n,
{
    if n < 10 {
        seq![digit(n)]
    } else {
        decimal(n / 10).push(digit(n % 10))
    }
}

/// What stands before the number of the level being played.
pub open spec fn level_prefix() -> Seq<char> {
    seq!['L', 'e', 'v', 'e', 'l', ':', ' ']
}

/// What stands before the number of a level that is announced.
pub open spec fn title_prefix() -> Seq<char> {
    seq!['L', 'e', 'v', 'e', 'l', ' ']
}

/// What stands before the count of gas cans collected.
pub open spec fn gas_prefix() -> Seq<char> {
    seq!['G', 'a', 's', ' ', 'C', 'o', 'l', 'l', 'e', 'c', 't', 'e', 'd', ':', ' ']
}

/// What stands before the formula of the x component.
pub open spec fn x_prefix() -> Seq<char> {
    seq!['x', ' ', '=', ' ']
}

/// What stands before the formula of the y component.
pub open spec fn y_prefix() -> Seq<char> {
    seq!['y', ' ', '=', ' ']
}

/// What stands between the cans collected and the cans there are.
pub open spec fn of_sign() -> Seq<char> {
    seq!['/']
}

/// The text of one digit.
fn digit_text(d: u64) -> (text: &'static str)
    requires
        d < 10,
    ensures
        text@ == seq![digit(d as nat)],
{
    proof {
        reveal_strlit("0");
        reveal_strlit("1");
        reveal_strlit("2");
        reveal_strlit("3");
        reveal_strlit("4");
        reveal_strlit("5");
        reveal_strlit("6");
        reveal_strlit("7");
        reveal_strlit("8");
        reveal_strlit("9");
    }
    let text = if d == 0 {
        "0"
    } else if d == 1 {
        "1"
    } else if d == 2 {
        "2"
    } else if d == 3 {
        "3"
    } else if d == 4 {
        "4"
    } else if d == 5 {
        "5"
    } else if d == 6 {
        "6"
    } else if d == 7 {
        "7"
    } else if d == 8 {
        "8"
    } else {
        "9"
    };
    assert(text@ =~= seq![digit(d as nat)]);
    text
}

/// A number in decimal.
pub fn decimal_text(n: u64) -> (text: String)
    ensures
        text@ == decimal(n as nat),
    decreases n,
{
    if n < 10 {
        String::from_str(digit_text(n))
    } else {
        let mut text = decimal_text(n / 10);
        let last = digit_text(n % 10);
        text.append(last);
        assert(text@ =~= decimal((n / 10) as nat).push(digit((n % 10) as nat)));
        text
    }
}

/// The title under which a level is announced.
pub fn level_title(level: u32) -> (text: String)
    ensures
        text@ == title_prefix() + decimal(level as nat),
{
    proof {
        reveal_strlit("Level ");
        assert("Level "@ =~= title_prefix());
    }
    let mut text = String::from_str("Level ");
    text.append(decimal_text(level as u64).as_str());
    text
}

impl<S, F> GameState<S, F> {
    /// The line that names the level being played, counting from one.
    pub fn level_text(&self) -> (text: String)
        requires
            self.well_formed(),
        ensures
            text@ == level_prefix() + decimal((self.current_level + 1) as nat),
    {
        proof {
            reveal_strlit("Level: ");
            assert("Level: "@ =~= level_prefix());
        }
        let mut text = String::from_str("Level: ");
        text.append(decimal_text(self.current_level as u64 + 1).as_str());
        text
    }

    /// The line that counts the gas cans collected, for a level that has gas
    /// cans; none for a level without.
    pub fn gas_collected_text(&self) -> (text: Option<String>)
        requires
            self.well_formed(),
            total(self.gas_collected@) <= u32::MAX,
        ensures
            text.is_some() == (self.gas_count() > 0),
            text.is_some() ==> text.unwrap()@ == gas_prefix() + decimal(total(self.gas_collected@))
                + of_sign() + decimal(self.gas_count()),
    {
        let cans = self.level_info[self.current_level as usize].gas_locations.len();
        if cans > 0 {
            let collected = match self.gas_collected_total() {
                Some(sum) => sum,
                None => 0,
            };
            proof {
                reveal_strlit("Gas Collected: ");
                reveal_strlit("/");
                assert("Gas Collected: "@ =~= gas_prefix());
                assert("/"@ =~= of_sign());
            }
            let mut text = String::from_str("Gas Collected: ");
            text.append(decimal_text(collected as u64).as_str());
            text.append("/");
            text.append(decimal_text(cans as u64).as_str());
            Some(text)
        } else {
            None
        }
    }
}

impl<F> Gradient<F> {
    /// The line that shows the x component of the field.
    pub fn x_equation(&self) -> (text: String)
        ensures
            text@ == x_prefix() + rendered(self.x_functions@),
    {
        proof {
            reveal_strlit("x = ");
            assert("x = "@ =~= x_prefix());
        }
        let mut text = String::from_str("x = ");
        text.append(self.x_text().as_str());
        text
    }

    /// The line that shows the y component of the field.
    pub fn y_equation(&self) -> (text: String)
        ensures
            text@ == y_prefix() + rendered(self.y_functions@),
    {
        proof {
            reveal_strlit("y = ");
            assert("y = "@ =~= y_prefix());
        }
        let mut text = String::from_str("y = ");
        text.append(self.y_text().as_str());
        text
    }
}

} // verus!
