//! Saved brightness records: one per device, holding its brightness as
//! decimal text.

use vstd::prelude::*;
use vstd::string::StrSliceExecFns;
use crate::device::Device;
use crate::text::{
    decimal_digits, decimal_text, is_digit, lemma_decimal_digits_value, parse_unsigned, unsigned_u32,
};

verus! {

#[derive(Clone, Copy, Debug, PartialEq, Eq, Structural)]
pub enum RecordError {
    /// There is no record for the device, or it could not be read.
    Missing,
    /// The record does not hold a brightness.
    Malformed,
}

/// The text saved for a device: its current brightness in decimal.
pub open spec fn record_of(brightness: u32) -> Seq<char> {
    decimal_digits(brightness as nat)
}

/// What reading back a record gives, where one could be read.
pub open spec fn restored_value(content: Option<Seq<char>>) -> Result<u32, RecordError> {
    match content {
        None => Err(RecordError::Missing),
        Some(t) => match unsigned_u32(t) {
                Some(v) => Ok(v),
            None => Err(RecordError::Malformed),
        },
    }
}

/// The text to save for a device.
pub fn record_text(device: &Device) -> (r: String)
    ensures
        r@ == record_of(device.brightness),
{
    decimal_text(device.brightness)
}

/// The brightness a record holds. `content` is the record's text, or none
/// where it could not be read; the text must be exactly one unsigned number
/// (an optional `+`, then decimal digits), with nothing around it.
pub fn parse_record(content: Option<&str>) -> (r: Result<u32, RecordError>)
    ensures
        r == restored_value(
            match content {
                Some(t) => Some(t@),
                None => None,
            },
        ),
{
    match content {
        None => Err(RecordError::Missing),
        Some(t) => {
            let n = t.unicode_len();
            assert(t@.subrange(0, n as int) =~= t@);
            match parse_unsigned(t, 0, n) {
                Some(v) => Ok(v),
                None => Err(RecordError::Malformed),
            }
        },
    }
}

/// Saving a device's brightness and reading the record straight back gives
/// that brightness again.
pub proof fn law_save_restore_round_trip(brightness: u32)
    ensures
        restored_value(Some(record_of(brightness))) == Ok::<u32, RecordError>(brightness),
{
    lemma_decimal_digits_value(brightness as nat);
    assert(is_digit(record_of(brightness)[0]));
}

/// What to do with saved state in one invocation.
#[derive(Clone, Copy, Debug, PartialEq, Eq, Structural)]
pub enum StateOp {
    Keep,
    Save,
    Restore,
}

/// Saving and restoring in one invocation conflict: neither is done.
#[derive(Clone, Copy, Debug, PartialEq, Eq, Structural)]
pub struct StateConflict;

pub fn state_op(save: bool, restore: bool) -> (r: Result<StateOp, StateConflict>)
    ensures
        save && restore ==> r == Err::<StateOp, StateConflict>(StateConflict),
        save && !restore ==> r == Ok::<StateOp, StateConflict>(StateOp::Save),
        !save && restore ==> r == Ok::<StateOp, StateConflict>(StateOp::Restore),
        !save && !restore ==> r == Ok::<StateOp, StateConflict>(StateOp::Keep),
{
    if save && restore {
        Err(StateConflict)
    } else if save {
        Ok(StateOp::Save)
    } else if restore {
        Ok(StateOp::Restore)
    } else {
        Ok(StateOp::Keep)
    }
}

} // verus!
