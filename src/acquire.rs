use vstd::prelude::*;

verus! {

/// Milliseconds the sensor needs after starting periodic measurement.
pub const SETTLE_MS: u32 = 5000;

/// Milliseconds between two polls of the sensor's data-ready flag.
pub const POLL_MS: u32 = 100;

/// Where one acquisition from the sensor stands.
#[derive(Clone, Copy, Debug, PartialEq, Eq, Structural)]
pub enum Stage {
    Waking,
    Reinitialising,
    Starting,
    Settling,
    Polling,
    BackingOff,
    Reading,
    Stopping,
    /// The measurement was read and the sensor stopped.
    Done,
    /// A sensor command failed.
    Failed,
}

/// What the caller does on the sensor next.
#[derive(Clone, Copy, Debug, PartialEq, Eq, Structural)]
pub enum SensorAction {
    Wake,
    Reinit,
    StartPeriodic,
    /// Wait this many milliseconds.
    Delay(u32),
    /// Ask whether a measurement is ready.
    PollReady,
    ReadMeasurement,
    StopPeriodic,
    /// Hand over the measurement that was read.
    Finish,
    /// Hand over the error of the command that failed.
    Abort,
}

/// What came of the last action.
#[derive(Clone, Copy, Debug, PartialEq, Eq, Structural)]
pub enum Outcome {
    /// The command succeeded; for a poll, a measurement is ready.
    Succeeded,
    /// The poll succeeded, and no measurement is ready yet.
    NotReady,
    /// The command failed.
    Failed,
}

/// The stage and the action that follow `stage` once its action had `outcome`.
///
/// Waking and waiting cannot fail. A failed command ends the acquisition; a
/// poll that finds no measurement waits and polls again.
pub open spec fn after(stage: Stage, outcome: Outcome) -> (Stage, SensorAction) {
    match stage {
        Stage::Waking => (Stage::Reinitialising, SensorAction::Reinit),
        Stage::Settling | Stage::BackingOff => (Stage::Polling, SensorAction::PollReady),
        Stage::Done => (Stage::Done, SensorAction::Finish),
        Stage::Failed => (Stage::Failed, SensorAction::Abort),
        _ => match outcome {
            Outcome::Failed => (Stage::Failed, SensorAction::Abort),
            Outcome::NotReady if stage == Stage::Polling => (Stage::BackingOff, SensorAction::Delay(POLL_MS)),
            _ => match stage {
                Stage::Reinitialising => (Stage::Starting, SensorAction::StartPeriodic),
                Stage::Starting => (Stage::Settling, SensorAction::Delay(SETTLE_MS)),
                Stage::Polling => (Stage::Reading, SensorAction::ReadMeasurement),
                Stage::Reading => (Stage::Stopping, SensorAction::StopPeriodic),
                _ => (Stage::Done, SensorAction::Finish),
            },
        },
    }
}

/// One acquisition: wake the sensor, reinitialise it, start periodic
/// measurement, let it settle, poll until a measurement is ready, read it
/// and stop measuring.
pub struct Acquisition {
    stage: Stage,
}

impl Acquisition {
    pub closed spec fn stage_spec(&self) -> Stage {
        self.stage
    }

    /// A new acquisition and its first action.
    pub fn start() -> (r: (Acquisition, SensorAction))
        ensures
            r.0.stage_spec() == Stage::Waking,
            r.1 == SensorAction::Wake,
    {
        (Acquisition { stage: Stage::Waking }, SensorAction::Wake)
    }

    pub fn stage(&self) -> (r: Stage)
        ensures
            r == self.stage_spec(),
    {
        self.stage
    }

    /// Takes the outcome of the last action and gives the next one.
    pub fn advance(&mut self, outcome: Outcome) -> (r: SensorAction)
        ensures
            (final(self).stage_spec(), r) == after(old(self).stage_spec(), outcome),
    {
        let (stage, action) = match self.stage {
            Stage::Waking => (Stage::Reinitialising, SensorAction::Reinit),
            Stage::Settling | Stage::BackingOff => (Stage::Polling, SensorAction::PollReady),
            Stage::Done => (Stage::Done, SensorAction::Finish),
            Stage::Failed => (Stage::Failed, SensorAction::Abort),
            current => match outcome {
                Outcome::Failed => (Stage::Failed, SensorAction::Abort),
                Outcome::NotReady if current == Stage::Polling => (Stage::BackingOff, SensorAction::Delay(POLL_MS)),
                _ => match current {
                    Stage::Reinitialising => (Stage::Starting, SensorAction::StartPeriodic),
                    Stage::Starting => (Stage::Settling, SensorAction::Delay(SETTLE_MS)),
                    Stage::Polling => (Stage::Reading, SensorAction::ReadMeasurement),
                    Stage::Reading => (Stage::Stopping, SensorAction::StopPeriodic),
                    _ => (Stage::Done, SensorAction::Finish),
                },
            },
        };
        self.stage = stage;
        action
    }
}

/// The measurement is read only right after a poll found it ready, and the
/// acquisition finishes only after the sensor was stopped.
pub proof fn lemma_read_only_when_ready(stage: Stage, outcome: Outcome)
    ensures
        after(stage, outcome).1 == SensorAction::ReadMeasurement ==> stage == Stage::Polling
            && outcome == Outcome::Succeeded,
        after(stage, outcome).1 == SensorAction::Finish ==> stage == Stage::Stopping || stage == Stage::Done,
        outcome == Outcome::Failed && stage != Stage::Waking && stage != Stage::Settling
            && stage != Stage::BackingOff && stage != Stage::Done ==> after(stage, outcome) == (
            Stage::Failed,
            SensorAction::Abort,
        ),
{
}

} // verus!
