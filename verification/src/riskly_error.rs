//! The reasons for which the engine turns a request down.

use vstd::prelude::*;
use vstd::string::StringExecFns;

verus! {

/// Why a request was refused. Each variant carries the values that
/// triggered it, so that a caller can render them as it likes.
#[derive(Debug, PartialEq, Eq)]
pub enum RisklyError {
    /// The global gate is off.
    TradingDisabled,
    /// The asset is not on the whitelist.
    DisallowedAsset(String),
    /// The quantity and the configured cap on a single trade.
    TradeTooLarge(i64, i64),
    /// The position that the trade would give, the cap, and the asset.
    ExceedsMaxPosition(i128, i64, String),
    /// The daily volume that the trade would give, the cap, and the asset.
    ExceedsDailyVolume(i128, i64, String),
    /// The share of the portfolio that the trade would give, the cap, and the asset.
    ExceedsMaxAllocation(i128, i64, String),
    /// The side code is neither buy nor sell: malformed input, not a risk decision.
    InvalidTradeSide(i32),
    /// No open order has this id.
    OrderNotFound(u64),
}

/// A refusal as a mathematical value.
pub enum Violation {
    TradingDisabled,
    DisallowedAsset(Seq<char>),
    TradeTooLarge(int, int),
    ExceedsMaxPosition(int, int, Seq<char>),
    ExceedsDailyVolume(int, int, Seq<char>),
    ExceedsMaxAllocation(int, int, Seq<char>),
    InvalidTradeSide(int),
    OrderNotFound(int),
}

impl View for RisklyError {
    type V = Violation;

    open spec fn view(&self) -> Violation {
        match *self {
            RisklyError::TradingDisabled => Violation::TradingDisabled,
            RisklyError::DisallowedAsset(asset) => Violation::DisallowedAsset(asset@),
            RisklyError::TradeTooLarge(quantity, max) => Violation::TradeTooLarge(
                quantity as int,
                max as int,
            ),
            RisklyError::ExceedsMaxPosition(position, max, asset) => Violation::ExceedsMaxPosition(
                position as int,
                max as int,
                asset@,
            ),
            RisklyError::ExceedsDailyVolume(volume, max, asset) => Violation::ExceedsDailyVolume(
                volume as int,
                max as int,
                asset@,
            ),
            RisklyError::ExceedsMaxAllocation(share, max, asset) => Violation::ExceedsMaxAllocation(
                share as int,
                max as int,
                asset@,
            ),
            RisklyError::InvalidTradeSide(side) => Violation::InvalidTradeSide(side as int),
            RisklyError::OrderNotFound(id) => Violation::OrderNotFound(id as int),
        }
    }
}

/// The character that writes one digit.
pub open spec fn digit_char(digit: int) -> char {
    if digit == 0 {
        '0'
    } else if digit == 1 {
        '1'
    } else if digit == 2 {
        '2'
    } else if digit == 3 {
        '3'
    } else if digit == 4 {
        '4'
    } else if digit == 5 {
        '5'
    } else if digit == 6 {
        '6'
    } else if digit == 7 {
        '7'
    } else if digit == 8 {
        '8'
    } else {
        '9'
    }
}

/// The decimal digits of a natural number, the highest first, without
/// leading zeros.
pub open spec fn natural_text(n: nat) -> Seq<char>
    decreases n,
{
    if n < 10 {
        seq![digit_char(n as int)]
    } else {
        natural_text(n / 10).push(digit_char((n % 10) as int))
    }
}

/// The decimal digits of a number, with a minus sign before a negative one.
pub open spec fn decimal_text(value: int) -> Seq<char> {
    if value < 0 {
        seq!['-'] + natural_text((-value) as nat)
    } else {
        natural_text(value as nat)
    }
}

/// Three pieces of text in a row.
pub open spec fn about(lead: Seq<char>, subject: Seq<char>, tail: Seq<char>) -> Seq<char> {
    lead + subject + tail
}

/// A number in decimal between two pieces of text.
pub open spec fn numbered(lead: Seq<char>, value: int, tail: Seq<char>) -> Seq<char> {
    lead + decimal_text(value) + tail
}

/// A value, the cap that it is held against, and the asset.
pub open spec fn limit_sentence(
    lead: Seq<char>,
    value: int,
    between: Seq<char>,
    max: int,
    asset: Seq<char>,
) -> Seq<char> {
    numbered(lead, value, numbered(between, max, about(" for "@, asset, ""@)))
}

/// The sentence that tells a refusal to people.
pub open spec fn sentence(violation: Violation) -> Seq<char> {
    match violation {
        Violation::TradingDisabled => about("Trading is disabled"@, ""@, "."@),
        Violation::DisallowedAsset(asset) => about(
            "Asset '"@,
            asset,
            "' is not allowed for trading."@,
        ),
        Violation::TradeTooLarge(quantity, max) => numbered(
            "Trade too large: "@,
            quantity,
            numbered(" > max "@, max, ""@),
        ),
        Violation::ExceedsMaxPosition(position, max, asset) => limit_sentence(
            "Exceeds max position: Projected position "@,
            position,
            " exceeds max "@,
            max,
            asset,
        ),
        Violation::ExceedsDailyVolume(volume, max, asset) => limit_sentence(
            "Exceeds daily volume: Daily volume "@,
            volume,
            " > max "@,
            max,
            asset,
        ),
        Violation::ExceedsMaxAllocation(share, max, asset) => limit_sentence(
            "Exceeds max allocation: Allocation "@,
            share,
            " > max "@,
            max,
            asset,
        ),
        Violation::InvalidTradeSide(side) => numbered("Unknown trade side: "@, side, ""@),
        Violation::OrderNotFound(id) => numbered("Order "@, id, " not found."@),
    }
}

/// Three pieces of text in a row.
fn about_text(lead: &str, subject: &str, tail: &str) -> (text: String)
    ensures
        text@ == about(lead@, subject@, tail@),
{
    lead.to_owned().concat(subject).concat(tail)
}

/// `format!` on a number: the text that `core::fmt::Display` writes for an
/// `i128`, which is its decimal digits after a minus sign if it is negative.
#[verifier::external_body]
fn digits(value: i128) -> (text: String)
    ensures
        text@ == decimal_text(value as int),
{
    format!("{value}")
}

/// A number in decimal between two pieces of text.
fn number_text(lead: &str, value: i128, tail: &str) -> (text: String)
    ensures
        text@ == numbered(lead@, value as int, tail@),
{
    let number = digits(value);
    lead.to_owned().concat(number.as_str()).concat(tail)
}

/// The lead, the value, the word between, the cap, and the asset at the end.
fn limit_text(lead: &str, value: i128, between: &str, max: i64, asset: &String) -> (text: String)
    ensures
        text@ == limit_sentence(lead@, value as int, between@, max as int, asset@),
{
    let tail = about_text(" for ", asset.as_str(), "");
    let cap = number_text(between, max as i128, tail.as_str());
    number_text(lead, value, cap.as_str())
}

impl RisklyError {
    /// A sentence for people that says what was refused and why.
    pub fn message(&self) -> (text: String)
        ensures
            text@ == sentence(self@),
    {
        match self {
            RisklyError::TradingDisabled => about_text("Trading is disabled", "", "."),
            RisklyError::DisallowedAsset(asset) => about_text(
                "Asset '",
                asset.as_str(),
                "' is not allowed for trading.",
            ),
            RisklyError::TradeTooLarge(quantity, max) => {
                let cap = number_text(" > max ", *max as i128, "");
                number_text("Trade too large: ", *quantity as i128, cap.as_str())
            },
            RisklyError::ExceedsMaxPosition(position, max, asset) => limit_text(
                "Exceeds max position: Projected position ",
                *position,
                " exceeds max ",
                *max,
                asset,
            ),
            RisklyError::ExceedsDailyVolume(volume, max, asset) => limit_text(
                "Exceeds daily volume: Daily volume ",
                *volume,
                " > max ",
                *max,
                asset,
            ),
            RisklyError::ExceedsMaxAllocation(share, max, asset) => limit_text(
                "Exceeds max allocation: Allocation ",
                *share,
                " > max ",
                *max,
                asset,
            ),
            RisklyError::InvalidTradeSide(side) => number_text(
                "Unknown trade side: ",
                *side as i128,
                "",
            ),
            RisklyError::OrderNotFound(id) => number_text("Order ", *id as i128, " not found."),
        }
    }
}

} // verus!
