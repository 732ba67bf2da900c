//! The decisions of the antenna task.
//!
//! The task waits for commands and, while a processing pipeline runs, for
//! chunks of samples. Starting configures the receiver and replaces the
//! pipeline; a start that fails leaves whatever ran before running. The
//! caller performs the actions (talking to the receiver, processing the
//! samples) and reports what happened as the next event.
use vstd::prelude::*;

verus! {

/// What the antenna task is doing.
#[derive(Clone, Copy, Debug, PartialEq, Eq)]
pub struct AntennaState {
    /// Whether a processing pipeline runs.
    pub running: bool,
}

/// What happens to the antenna task.
#[derive(Clone, Copy, Debug, PartialEq, Eq)]
pub enum AntennaEvent {
    /// A start command arrived.
    Start,
    /// Configuring the receiver and opening its sample stream for a start
    /// command ended; `ok` where it succeeded.
    Started { ok: bool },
    /// A stop command arrived.
    Stop,
    /// The running pipeline has a chunk of samples.
    Samples,
    /// The command channel closed: every handle to the antenna is gone.
    CommandsClosed,
}

/// What the caller does next.
#[derive(Clone, Copy, Debug, PartialEq, Eq)]
pub enum AntennaAction {
    /// Configure the receiver and open its sample stream.
    Configure,
    /// Start a new pipeline on the new stream, replacing any that ran, and
    /// answer the start command with success.
    RunPipeline,
    /// Answer the start command with the failure; keep what ran before.
    ReportFailure,
    /// Drop the pipeline.
    DropPipeline,
    /// Push the chunk into the pipeline and send the frames it completes.
    ProcessSamples,
    /// Nothing to do.
    Wait,
    /// End the task.
    Exit,
}

/// The antenna task's next state and action.
pub open spec fn antenna_next(s: AntennaState, e: AntennaEvent) -> (AntennaState, AntennaAction) {
    match e {
        AntennaEvent::Start => (s, AntennaAction::Configure),
        AntennaEvent::Started { ok } => if ok {
            (AntennaState { running: true }, AntennaAction::RunPipeline)
        } else {
            (s, AntennaAction::ReportFailure)
        },
        AntennaEvent::Stop => (AntennaState { running: false }, AntennaAction::DropPipeline),
        AntennaEvent::Samples => if s.running {
            (s, AntennaAction::ProcessSamples)
        } else {
            (s, AntennaAction::Wait)
        },
        AntennaEvent::CommandsClosed => (s, AntennaAction::Exit),
    }
}

/// Whether the task waits for samples as well as for commands: only while a
/// pipeline runs.
pub fn wants_samples(s: AntennaState) -> (r: bool)
    ensures
        r == s.running,
{
    s.running
}

/// Decides what the antenna task does on an event.
pub fn antenna_step(s: AntennaState, e: AntennaEvent) -> (r: (AntennaState, AntennaAction))
    ensures
        r == antenna_next(s, e),
{
    match e {
        AntennaEvent::Start => (s, AntennaAction::Configure),
        AntennaEvent::Started { ok } => if ok {
            (AntennaState { running: true }, AntennaAction::RunPipeline)
        } else {
            (s, AntennaAction::ReportFailure)
        },
        AntennaEvent::Stop => (AntennaState { running: false }, AntennaAction::DropPipeline),
        AntennaEvent::Samples => if s.running {
            (s, AntennaAction::ProcessSamples)
        } else {
            (s, AntennaAction::Wait)
        },
        AntennaEvent::CommandsClosed => (s, AntennaAction::Exit),
    }
}

/// How the events move the antenna task: a start command, a failed start,
/// arriving samples and a closed command channel leave it as it was, so a
/// pipeline that runs keeps running while the receiver is configured and
/// after a start fails; a successful start leaves a pipeline running; a stop
/// leaves none; and samples are processed exactly while a pipeline runs.
pub proof fn lemma_antenna_transitions(s: AntennaState)
    ensures
        antenna_next(s, AntennaEvent::Start).0 == s,
        antenna_next(s, AntennaEvent::Start).1 == AntennaAction::Configure,
        antenna_next(antenna_next(s, AntennaEvent::Start).0, AntennaEvent::Started { ok: false }).0
            == s,
        antenna_next(s, AntennaEvent::Started { ok: false }).1 == AntennaAction::ReportFailure,
        antenna_next(s, AntennaEvent::Started { ok: true }).0.running,
        antenna_next(s, AntennaEvent::Started { ok: true }).1 == AntennaAction::RunPipeline,
        !antenna_next(s, AntennaEvent::Stop).0.running,
        antenna_next(s, AntennaEvent::Stop).1 == AntennaAction::DropPipeline,
        antenna_next(s, AntennaEvent::Samples).0 == s,
        (antenna_next(s, AntennaEvent::Samples).1 == AntennaAction::ProcessSamples) <==> s.running,
        antenna_next(s, AntennaEvent::CommandsClosed) == (s, AntennaAction::Exit),
{
}

} // verus!
