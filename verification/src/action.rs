//! What a player may ask of the table, and how the table answers.

use vstd::prelude::*;
use vstd::string::StringExecFns;

verus! {

/// A player's intent for their turn. Only `Raise` carries an amount: the
/// chips put in on top of what the player has already staked this round.
#[derive(Clone, Copy, Debug, PartialEq, Eq, Structural)]
pub enum Action {
    Check,
    Call,
    Raise(i32),
    Fold,
    AllIn,
}

/// Why an action was turned down.
#[derive(Clone, Copy, Debug, PartialEq, Eq, Structural)]
pub enum ActionErrorCode {
    NotEnoughMoney,
    MustCallCurrentBet,
    MustRaiseToCurrentBet,
}

/// The table's answer to an action: it was carried out, or it was turned
/// down with a sentence for the player and the reason.
#[derive(Debug, PartialEq, Eq)]
pub enum ActionResult {
    Success,
    Error(String, ActionErrorCode),
}

/// The sentence that goes with a refusal of `action` for the reason `code`.
pub open spec fn refusal_text(action: Action, code: ActionErrorCode) -> Seq<char> {
    match code {
        ActionErrorCode::MustCallCurrentBet => "You must call the current bet"@,
        ActionErrorCode::MustRaiseToCurrentBet => "You must raise to the current bet"@,
        ActionErrorCode::NotEnoughMoney => if action is Call {
            "You don't have enough money to call"@
        } else {
            "You don't have enough money to raise"@
        },
    }
}

/// The refusal of `action` for the reason `code`.
pub fn refusal(action: Action, code: ActionErrorCode) -> (r: ActionResult)
    ensures
        r.code() == Some(code),
        r matches ActionResult::Error(text, _) && text@ == refusal_text(action, code),
{
    let text = match code {
        ActionErrorCode::MustCallCurrentBet => String::from_str("You must call the current bet"),
        ActionErrorCode::MustRaiseToCurrentBet => String::from_str(
            "You must raise to the current bet",
        ),
        ActionErrorCode::NotEnoughMoney => match action {
            Action::Call => String::from_str("You don't have enough money to call"),
            _ => String::from_str("You don't have enough money to raise"),
        },
    };
    ActionResult::Error(text, code)
}

impl ActionResult {
    /// The reason of a refusal; `None` for a success.
    pub open spec fn code(&self) -> Option<ActionErrorCode> {
        match self {
            ActionResult::Success => None,
            ActionResult::Error(_, code) => Some(*code),
        }
    }

    /// Whether the action was carried out.
    pub fn is_success(&self) -> (b: bool)
        ensures
            b == (self.code() is None),
    {
        match self {
            ActionResult::Success => true,
            ActionResult::Error(_, _) => false,
        }
    }

    /// The reason of a refusal; `None` for a success.
    pub fn error_code(&self) -> (c: Option<ActionErrorCode>)
        ensures
            c == self.code(),
    {
        match self {
            ActionResult::Success => None,
            ActionResult::Error(_, code) => Some(*code),
        }
    }
}

} // verus!
