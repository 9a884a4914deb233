//! One invocation on a selected device, as a state machine.
//!
//! The caller performs each `Action` it is handed (reading or writing the
//! saved record, asking the session manager for a write, printing) and
//! answers with the matching `Event`. Saved state is dealt with first: a
//! restore happens before the command, so that a `set` adjusts the restored
//! brightness; a save records the brightness found at the start. Any failure
//! ends the invocation, and no write follows it.

use vstd::prelude::*;
use crate::adjust::{resolve, resolution, ResolveError};
use crate::device::{Device, DeviceModel};
use crate::state::{parse_record, restored_value, state_op, RecordError, StateOp};

verus! {

pub enum Command {
    /// Show the device.
    Info,
    /// Show its brightness.
    Get,
    /// Show its maximum brightness.
    Max,
    /// Set its brightness from an adjustment expression.
    Adjust(String),
}

#[derive(Clone, Copy, Debug, PartialEq, Eq, Structural)]
pub enum Failure {
    /// Both a save and a restore were asked for.
    Conflict,
    /// The saved record could not be used.
    Record(RecordError),
    /// The record could not be saved.
    NotSaved,
    /// The expression of a `set` did not resolve.
    Resolve(ResolveError),
    /// The session manager refused the write.
    WriteFailed,
    /// An event came that the current stage does not wait for.
    OutOfOrder,
}

/// What the caller is to do next.
#[derive(Clone, Copy, Debug, PartialEq, Eq, Structural)]
pub enum Action {
    /// Read the device's saved record; answer with `Event::RecordRead`.
    ReadRecord,
    /// Save the device's record (see `state::record_text`); answer with
    /// `Event::RecordSaved`.
    SaveRecord,
    /// Ask the session manager to set the device to this brightness; answer
    /// with `Event::Written`.
    Write(u32),
    /// Show the device. The invocation is over.
    ShowDevice,
    /// Print this number. The invocation is over.
    ShowValue(u32),
    /// Report this failure. The invocation is over.
    Fail(Failure),
    /// Nothing more to do.
    Finish,
}

#[derive(Clone, Copy, Debug, PartialEq, Eq, Structural)]
pub enum Stage {
    Start,
    AwaitRecord,
    AwaitRestore(u32),
    AwaitSave,
    AwaitSet(u32),
    Done,
}

pub enum Event {
    Start,
    /// The record's text, or none where it could not be read.
    RecordRead(Option<String>),
    /// Whether the record was saved.
    RecordSaved(bool),
    /// Whether the session manager accepted the write.
    Written(bool),
}

pub struct Invocation {
    pub device: Device,
    pub save: bool,
    pub restore: bool,
    pub command: Option<Command>,
    pub stage: Stage,
}

pub open spec fn with_brightness(d: DeviceModel, brightness: u32) -> DeviceModel {
    DeviceModel { brightness, ..d }
}

/// The step that carries out the command on a device in state `d`.
pub open spec fn command_step(d: DeviceModel, command: Option<Command>) -> (Stage, Action) {
    match command {
        None => (Stage::Done, Action::ShowDevice),
        Some(Command::Info) => (Stage::Done, Action::ShowDevice),
        Some(Command::Get) => (Stage::Done, Action::ShowValue(d.brightness)),
        Some(Command::Max) => (Stage::Done, Action::ShowValue(d.max_brightness)),
        Some(Command::Adjust(e)) => match resolution(d, e@) {
            Ok(q) => (Stage::AwaitSet(q), Action::Write(q)),
            Err(err) => (Stage::Done, Action::Fail(Failure::Resolve(err))),
        },
    }
}

pub open spec fn content_text(content: Option<String>) -> Option<Seq<char>> {
    match content {
        Some(t) => Some(t@),
        None => None,
    }
}

/// The next stage, the action asked for, and the device's brightness after
/// `event` comes in state `inv`.
pub open spec fn transition(inv: Invocation, event: Event) -> (Stage, Action, u32) {
    let d = inv.device@;
    let b = d.brightness;
    match (inv.stage, event) {
        (Stage::Start, Event::Start) => if inv.save && inv.restore {
            (Stage::Done, Action::Fail(Failure::Conflict), b)
        } else if inv.restore {
            (Stage::AwaitRecord, Action::ReadRecord, b)
        } else if inv.save {
            (Stage::AwaitSave, Action::SaveRecord, b)
        } else {
            (command_step(d, inv.command).0, command_step(d, inv.command).1, b)
        },
        (Stage::AwaitRecord, Event::RecordRead(content)) => match restored_value(
            content_text(content),
        ) {
            Ok(v) => (Stage::AwaitRestore(v), Action::Write(v), b),
            Err(e) => (Stage::Done, Action::Fail(Failure::Record(e)), b),
        },
        (Stage::AwaitRestore(v), Event::Written(ok)) => if ok {
            let s = command_step(with_brightness(d, v), inv.command);
            (s.0, s.1, v)
        } else {
            (Stage::Done, Action::Fail(Failure::WriteFailed), b)
        },
        (Stage::AwaitSave, Event::RecordSaved(ok)) => if ok {
            (command_step(d, inv.command).0, command_step(d, inv.command).1, b)
        } else {
            (Stage::Done, Action::Fail(Failure::NotSaved), b)
        },
        (Stage::AwaitSet(q), Event::Written(ok)) => if ok {
            (Stage::Done, Action::Finish, q)
        } else {
            (Stage::Done, Action::Fail(Failure::WriteFailed), b)
        },
        _ => (Stage::Done, Action::Fail(Failure::OutOfOrder), b),
    }
}

/// Asking for both a save and a restore ends the invocation at once with a
/// conflict: the record is neither read nor written, and nothing is written
/// to the device, whatever comes after.
pub proof fn law_conflict_does_nothing(inv: Invocation, later: Event)
    requires
        inv.stage == Stage::Start,
        inv.save,
        inv.restore,
    ensures
        transition(inv, Event::Start) == (
            Stage::Done,
            Action::Fail(Failure::Conflict),
            inv.device.brightness,
        ),
        transition(Invocation { stage: Stage::Done, ..inv }, later) == (
            Stage::Done,
            Action::Fail(Failure::OutOfOrder),
            inv.device.brightness,
        ),
{
}

impl Invocation {
    pub fn new(device: Device, save: bool, restore: bool, command: Option<Command>) -> (r: Invocation)
        ensures
            r.device == device,
            r.save == save,
            r.restore == restore,
            r.command == command,
            r.stage == Stage::Start,
    {
        Invocation { device, save, restore, command, stage: Stage::Start }
    }

    fn run_command(&mut self) -> (a: Action)
        ensures
            (final(self).stage, a) == command_step(old(self).device@, old(self).command),
            final(self).device == old(self).device,
            final(self).command == old(self).command,
            final(self).save == old(self).save,
            final(self).restore == old(self).restore,
    {
        let (stage, action) = match &self.command {
            None => (Stage::Done, Action::ShowDevice),
            Some(Command::Info) => (Stage::Done, Action::ShowDevice),
            Some(Command::Get) => (Stage::Done, Action::ShowValue(self.device.brightness)),
            Some(Command::Max) => (Stage::Done, Action::ShowValue(self.device.max_brightness)),
            Some(Command::Adjust(e)) => match resolve(&self.device, e.as_str()) {
                Ok(q) => (Stage::AwaitSet(q), Action::Write(q)),
                Err(err) => (Stage::Done, Action::Fail(Failure::Resolve(err))),
            },
        };
        self.stage = stage;
        action
    }

    /// Takes in one event and says what to do next.
    pub fn step(&mut self, event: Event) -> (a: Action)
        ensures
            (final(self).stage, a, final(self).device.brightness) == transition(*old(self), event),
            final(self).device.id == old(self).device.id,
            final(self).device.class == old(self).device.class,
            final(self).device.max_brightness == old(self).device.max_brightness,
            final(self).command == old(self).command,
            final(self).save == old(self).save,
            final(self).restore == old(self).restore,
    {
        match (self.stage, event) {
            (Stage::Start, Event::Start) => match state_op(self.save, self.restore) {
                Err(_) => {
                    self.stage = Stage::Done;
                    Action::Fail(Failure::Conflict)
                },
                Ok(StateOp::Restore) => {
                    self.stage = Stage::AwaitRecord;
                    Action::ReadRecord
                },
                Ok(StateOp::Save) => {
                    self.stage = Stage::AwaitSave;
                    Action::SaveRecord
                },
                Ok(StateOp::Keep) => self.run_command(),
            },
            (Stage::AwaitRecord, Event::RecordRead(content)) => {
                let read = match &content {
                    Some(t) => parse_record(Some(t.as_str())),
                    None => parse_record(None),
                };
                match read {
                    Ok(v) => {
                        self.stage = Stage::AwaitRestore(v);
                        Action::Write(v)
                    },
                    Err(e) => {
                        self.stage = Stage::Done;
                        Action::Fail(Failure::Record(e))
                    },
                }
            },
            (Stage::AwaitRestore(v), Event::Written(ok)) => {
                if ok {
                    self.device.set_brightness(v);
                    self.run_command()
                } else {
                    self.stage = Stage::Done;
                    Action::Fail(Failure::WriteFailed)
                }
            },
            (Stage::AwaitSave, Event::RecordSaved(ok)) => {
                if ok {
                    self.run_command()
                } else {
                    self.stage = Stage::Done;
                    Action::Fail(Failure::NotSaved)
                }
            },
            (Stage::AwaitSet(q), Event::Written(ok)) => {
                if ok {
                    self.device.set_brightness(q);
                    self.stage = Stage::Done;
                    Action::Finish
                } else {
                    self.stage = Stage::Done;
                    Action::Fail(Failure::WriteFailed)
                }
            },
            _ => {
                self.stage = Stage::Done;
                Action::Fail(Failure::OutOfOrder)
            },
        }
    }
}

} // verus!
