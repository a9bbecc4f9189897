//! The lifecycle of a guest: loaded from bytes, started, run tick by
//! tick, reset and unloaded.
//!
//! The work itself, compiling and calling the guest, is done elsewhere.
//! Here are the decisions: whether a load succeeded and with which
//! entrypoints, what a tick consists of, and which phase comes next.

use vstd::prelude::*;
use crate::abi::{resolved, DrawExport, GuestEntrypoints, GuestExports};

verus! {

/// Where a guest stands.
#[derive(Copy, Clone, Debug, Eq, PartialEq, Structural)]
pub enum Phase {
    /// No guest is loaded.
    Unloaded,
    /// A guest is instantiated and its entrypoints are resolved.
    Loaded,
    /// The guest's setup has run.
    Running,
}

/// The stage at which a load failed.
#[derive(Copy, Clone, Debug, Eq, PartialEq, Structural)]
pub enum LoadStage {
    /// The bytes are neither a binary nor text.
    Recognize,
    /// The module did not compile.
    Compile,
    /// The module did not instantiate against the host's imports.
    Instantiate,
    /// The guest lacks a required export.
    Resolve,
}

/// How far a load got, and what the instance exports.
#[derive(Copy, Clone, Debug, Eq, PartialEq, Structural)]
pub struct LoadReport {
    pub recognized: bool,
    pub compiled: bool,
    pub instantiated: bool,
    pub exports: GuestExports,
}

/// One step of a tick.
#[derive(Copy, Clone, Debug, Eq, PartialEq, Structural)]
pub enum TickStep {
    SnapshotInput,
    CallUpdate,
    CallDraw(DrawExport),
    PresentVideo,
    DrainAudio,
}

/// The phase of the guest and, while one is loaded, its entrypoints.
#[derive(Copy, Clone, Debug, Eq, PartialEq, Structural)]
pub struct Lifecycle {
    pub phase: Phase,
    pub entrypoints: Option<GuestEntrypoints>,
}

/// What a load comes to: the entrypoints, or the first stage that
/// failed.
pub open spec fn load_outcome(report: LoadReport) -> Result<GuestEntrypoints, LoadStage> {
    if !report.recognized {
        Err(LoadStage::Recognize)
    } else if !report.compiled {
        Err(LoadStage::Compile)
    } else if !report.instantiated {
        Err(LoadStage::Instantiate)
    } else {
        match resolved(report.exports) {
            Ok(e) => Ok(e),
            Err(_) => Err(LoadStage::Resolve),
        }
    }
}

/// The lifecycle after a load: loaded with the entrypoints, or unloaded
/// with nothing kept.
pub open spec fn after_load(report: LoadReport) -> Lifecycle {
    match load_outcome(report) {
        Ok(e) => Lifecycle { phase: Phase::Loaded, entrypoints: Some(e) },
        Err(_) => Lifecycle { phase: Phase::Unloaded, entrypoints: None },
    }
}

/// The steps of a tick for the given entrypoints: the input snapshot,
/// the update and the draw call where the guest has them, then the
/// presentation of the framebuffer and the audio drain, whatever the
/// guest did.
pub open spec fn tick_steps(e: GuestEntrypoints) -> Seq<TickStep> {
    seq![TickStep::SnapshotInput] + (if e.update {
        seq![TickStep::CallUpdate]
    } else {
        Seq::empty()
    }) + (match e.draw {
        Some(d) => seq![TickStep::CallDraw(d)],
        None => Seq::empty(),
    }) + seq![TickStep::PresentVideo, TickStep::DrainAudio]
}

impl Lifecycle {
    /// A lifecycle with no guest loaded.
    pub fn new() -> (l: Self)
        ensures
            l == (Lifecycle { phase: Phase::Unloaded, entrypoints: None }),
    {
        Lifecycle { phase: Phase::Unloaded, entrypoints: None }
    }

    /// The entrypoints are there exactly while a guest is loaded.
    pub open spec fn wf(self) -> bool {
        (self.phase == Phase::Unloaded) == (self.entrypoints is None)
    }

    /// Whether the entrypoints are there exactly while a guest is loaded.
    pub fn is_wf(&self) -> (r: bool)
        ensures
            r == self.wf(),
    {
        (self.phase == Phase::Unloaded) == self.entrypoints.is_none()
    }

    /// Takes in the outcome of a load. On success the guest is loaded; on
    /// failure nothing of it is kept, whatever was loaded before.
    pub fn load(&mut self, report: &LoadReport) -> (r: Result<GuestEntrypoints, LoadStage>)
        ensures
            r == load_outcome(*report),
            *final(self) == after_load(*report),
            final(self).wf(),
    {
        let r = if !report.recognized {
            Err(LoadStage::Recognize)
        } else if !report.compiled {
            Err(LoadStage::Compile)
        } else if !report.instantiated {
            Err(LoadStage::Instantiate)
        } else {
            match GuestEntrypoints::resolve_wasmtime(&report.exports) {
                Ok(e) => Ok(e),
                Err(_) => Err(LoadStage::Resolve),
            }
        };
        match r {
            Ok(e) => {
                self.phase = Phase::Loaded;
                self.entrypoints = Some(e);
            },
            Err(_) => {
                self.phase = Phase::Unloaded;
                self.entrypoints = None;
            },
        }
        r
    }

    /// Marks the guest as running, once its setup has been called.
    /// Answers whether a guest was loaded to be started.
    pub fn start(&mut self) -> (started: bool)
        requires
            old(self).wf(),
        ensures
            final(self).wf(),
            started == (old(self).phase == Phase::Loaded),
            final(self).entrypoints == old(self).entrypoints,
            final(self).phase == (if old(self).phase == Phase::Loaded {
                Phase::Running
            } else {
                old(self).phase
            }),
    {
        match self.phase {
            Phase::Loaded => {
                self.phase = Phase::Running;
                true
            },
            _ => false,
        }
    }

    /// The steps of the next tick: those of the guest's entrypoints
    /// while it runs, none otherwise.
    pub fn tick(&self) -> (steps: Vec<TickStep>)
        requires
            self.wf(),
        ensures
            steps@ == (if self.phase == Phase::Running {
                tick_steps(self.entrypoints.unwrap())
            } else {
                Seq::empty()
            }),
    {
        let mut steps: Vec<TickStep> = Vec::new();
        if self.phase != Phase::Running {
            return steps;
        }
        let e = match self.entrypoints {
            Some(e) => e,
            None => {
                return steps;
            },
        };
        steps.push(TickStep::SnapshotInput);
        if e.update {
            steps.push(TickStep::CallUpdate);
        }
        match e.draw {
            Some(d) => {
                steps.push(TickStep::CallDraw(d));
            },
            None => {},
        }
        steps.push(TickStep::PresentVideo);
        steps.push(TickStep::DrainAudio);
        steps
    }

    /// Whether a reset is to call the guest's setup again: while a guest
    /// is loaded or runs.
    pub fn reset(&self) -> (call_setup: bool)
        ensures
            call_setup == (self.phase != Phase::Unloaded),
    {
        self.phase != Phase::Unloaded
    }

    /// Forgets the guest.
    pub fn unload(&mut self)
        ensures
            *final(self) == (Lifecycle { phase: Phase::Unloaded, entrypoints: None }),
    {
        self.phase = Phase::Unloaded;
        self.entrypoints = None;
    }
}

} // verus!
