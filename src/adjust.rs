//! The adjustment grammar, `[+|-]digits[%]`, and its resolution against a
//! device's current and maximum brightness.

use vstd::prelude::*;
use vstd::string::StrSliceExecFns;
use crate::device::{Device, DeviceModel};
use crate::text::{decimal_u32, parse_decimal};

verus! {

#[derive(Clone, Copy, Debug, PartialEq, Eq, Structural)]
pub enum Mode {
    Absolute,
    Increase,
    Decrease,
}

/// A parsed adjustment expression.
#[derive(Clone, Copy, Debug, PartialEq, Eq, Structural)]
pub struct Adjustment {
    pub mode: Mode,
    pub is_percentage: bool,
    pub magnitude: u32,
}

#[derive(Clone, Copy, Debug, PartialEq, Eq, Structural)]
pub enum ResolveError {
    /// The digits between the sign and the percent mark are missing, hold
    /// something else than a digit, or do not fit in 32 bits.
    NumericParse,
    /// A decrease goes below zero.
    Underflow,
}

pub open spec fn mode_of(s: Seq<char>) -> Mode {
    if s.len() > 0 && s[0] == '+' {
        Mode::Increase
    } else if s.len() > 0 && s[0] == '-' {
        Mode::Decrease
    } else {
        Mode::Absolute
    }
}

pub open spec fn has_percent(s: Seq<char>) -> bool {
    s.len() > 0 && s.last() == '%'
}

/// Where the digits start: after the sign, if there is one.
pub open spec fn digits_start(s: Seq<char>) -> int {
    if mode_of(s) == Mode::Absolute { 0 } else { 1 }
}

/// Where the digits end: before the percent mark, if there is one.
pub open spec fn digits_end(s: Seq<char>) -> int {
    if has_percent(s) { s.len() - 1 } else { s.len() as int }
}

/// The adjustment that an expression denotes, if it is well formed.
pub open spec fn adjustment_of(s: Seq<char>) -> Option<Adjustment> {
    if digits_start(s) <= digits_end(s) {
        match decimal_u32(s.subrange(digits_start(s), digits_end(s))) {
            Some(v) => Some(Adjustment { mode: mode_of(s), is_percentage: has_percent(s), magnitude: v }),
            None => None,
        }
    } else {
        None
    }
}

/// The amount of an adjustment in brightness units: a percentage of the
/// maximum is truncated.
pub open spec fn amount_of(a: Adjustment, max_brightness: u32) -> int {
    if a.is_percentage {
        a.magnitude * max_brightness / 100
    } else {
        a.magnitude as int
    }
}

pub open spec fn min(a: int, b: int) -> int {
    if a <= b { a } else { b }
}

/// The brightness an adjustment asks for; below zero when a decrease
/// takes away more than there is.
pub open spec fn target_of(a: Adjustment, brightness: u32, max_brightness: u32) -> int {
    match a.mode {
        Mode::Absolute => min(max_brightness as int, amount_of(a, max_brightness)),
        Mode::Increase => min(max_brightness as int, brightness + amount_of(a, max_brightness)),
        Mode::Decrease => brightness - amount_of(a, max_brightness),
    }
}

pub open spec fn outcome_of(target: int) -> Result<u32, ResolveError> {
    if target < 0 {
        Err(ResolveError::Underflow)
    } else {
        Ok(target as u32)
    }
}

/// What resolving `expression` against a device with these values gives.
pub open spec fn resolution(d: DeviceModel, expression: Seq<char>) -> Result<u32, ResolveError> {
    match adjustment_of(expression) {
        Some(a) => outcome_of(target_of(a, d.brightness, d.max_brightness)),
        None => Err(ResolveError::NumericParse),
    }
}

/// Parses an adjustment expression: an optional leading `+` or `-`, one or
/// more decimal digits, and an optional trailing `%`.
pub fn parse_adjustment(expression: &str) -> (r: Result<Adjustment, ResolveError>)
    ensures
        match adjustment_of(expression@) {
            Some(a) => r == Ok::<Adjustment, ResolveError>(a),
            None => r == Err::<Adjustment, ResolveError>(ResolveError::NumericParse),
        },
{
    let len = expression.unicode_len();
    if len == 0 {
        return Err(ResolveError::NumericParse);
    }
    let first = expression.get_char(0);
    let (mode, start) = if first == '+' {
        (Mode::Increase, 1usize)
    } else if first == '-' {
        (Mode::Decrease, 1usize)
    } else {
        (Mode::Absolute, 0usize)
    };
    let is_percentage = expression.get_char(len - 1) == '%';
    let end: usize = if is_percentage { len - 1 } else { len };
    if start > end {
        return Err(ResolveError::NumericParse);
    }
    match parse_decimal(expression, start, end) {
        Some(magnitude) => Ok(Adjustment { mode, is_percentage, magnitude }),
        None => Err(ResolveError::NumericParse),
    }
}

impl Adjustment {
    /// The brightness this adjustment asks for on a device at `brightness`
    /// out of `max_brightness`. Absolute values and increases are capped at
    /// the maximum; a decrease below zero is an error.
    pub fn apply(&self, brightness: u32, max_brightness: u32) -> (r: Result<u32, ResolveError>)
        ensures
            r == outcome_of(target_of(*self, brightness, max_brightness)),
    {
        let max = max_brightness as u64;
        let amount: u64 = if self.is_percentage {
            proof {
                assert((self.magnitude as int) * (max_brightness as int) <= 0xFFFF_FFFFint * 0xFFFF_FFFFint)
                    by (nonlinear_arith);
            }
            (self.magnitude as u64) * max / 100
        } else {
            self.magnitude as u64
        };
        assert(amount == amount_of(*self, max_brightness));
        match self.mode {
            Mode::Absolute => Ok(if amount < max { amount as u32 } else { max_brightness }),
            Mode::Increase => {
                let raised = brightness as u64 + amount;
                Ok(if raised < max { raised as u32 } else { max_brightness })
            },
            Mode::Decrease => {
                if amount > brightness as u64 {
                    Err(ResolveError::Underflow)
                } else {
                    Ok(brightness - amount as u32)
                }
            },
        }
    }
}

/// Resolves an adjustment expression against a device's current state.
pub fn resolve(device: &Device, expression: &str) -> (r: Result<u32, ResolveError>)
    ensures
        r == resolution(device@, expression@),
{
    match parse_adjustment(expression) {
        Ok(a) => a.apply(device.brightness, device.max_brightness),
        Err(e) => Err(e),
    }
}

/// Resolution is a function of the expression's text and of the device's
/// brightness and maximum: the same inputs always give the same result, and
/// the device's name and class play no part.
pub proof fn law_resolution_deterministic(
    d1: DeviceModel,
    d2: DeviceModel,
    e1: Seq<char>,
    e2: Seq<char>,
)
    requires
        d1.brightness == d2.brightness,
        d1.max_brightness == d2.max_brightness,
        e1 == e2,
    ensures
        resolution(d1, e1) == resolution(d2, e2),
{
}

/// A well-formed absolute value or increase always resolves, and never to
/// more than the device's maximum.
pub proof fn law_capped_at_maximum(d: DeviceModel, e: Seq<char>)
    requires
        adjustment_of(e) is Some,
        adjustment_of(e)->Some_0.mode != Mode::Decrease,
    ensures
        resolution(d, e) is Ok,
        resolution(d, e)->Ok_0 <= d.max_brightness,
{
}

} // verus!
