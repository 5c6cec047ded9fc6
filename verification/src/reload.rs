//! Hot-reload protocol. A reload is triggered by the debounced
//! file-change signal or by an operator command, and its outcome is applied
//! atomically: a successfully built pipeline replaces the running one
//! wholesale, while any failure leaves the running pipeline untouched and
//! surfaces the diagnostic.

use vstd::prelude::*;
use crate::average::RunningAverage;
use crate::pipeline::{LoadError, Pipeline};

verus! {

/// Number of samples in the aggregate frame-time average.
pub const FRAME_PERF_WINDOW: usize = 128;

/// Minimum quiet time after a build before the change signal may trigger
/// the next reload, in milliseconds.
pub const DEBOUNCE_MILLIS: u64 = 100;

/// Decides whether to start a reload this frame. The edge-triggered change
/// signal counts only once the debounce window since the last build has
/// passed; a manual trigger forces the reload regardless.
pub fn should_reload(file_changed: bool, millis_since_build: u64, manual: bool) -> (r: bool)
    ensures
        r == (manual || (file_changed && millis_since_build > DEBOUNCE_MILLIS)),
{
    manual || (file_changed && millis_since_build > DEBOUNCE_MILLIS)
}

/// The engine: the pipeline currently rendering, the diagnostic of the
/// last failed load, if any, and the smoothed frame time exposed to the
/// operator's overlay.
#[derive(Debug)]
pub struct Engine {
    pub pipeline: Pipeline,
    pub diagnostic: Option<LoadError>,
    pub frame_perf: RunningAverage,
}

impl Engine {
    /// A fresh engine renders nothing until the first successful load.
    pub fn new() -> (r: Self)
        ensures
            r.pipeline.wf(),
            r.pipeline.stages@.len() == 0,
            r.pipeline.buffers@.len() == 0,
            r.diagnostic is None,
            r.frame_perf.well_formed(),
            r.frame_perf.capacity() == FRAME_PERF_WINDOW,
            r.frame_perf.window() == Seq::new(FRAME_PERF_WINDOW as nat, |t: int| 0u32),
    {
        Engine {
            pipeline: Pipeline::empty(),
            diagnostic: None,
            frame_perf: RunningAverage::new(FRAME_PERF_WINDOW),
        }
    }

    /// Records one frame's wall time (for instance in microseconds) into
    /// the aggregate average; the pipeline and diagnostic are untouched.
    pub fn record_frame_time(&mut self, sample: u32)
        requires
            old(self).frame_perf.well_formed(),
        ensures
            final(self).pipeline == old(self).pipeline,
            final(self).diagnostic == old(self).diagnostic,
            final(self).frame_perf.well_formed(),
            final(self).frame_perf.capacity() == old(self).frame_perf.capacity(),
            final(self).frame_perf.window() == old(self).frame_perf.window().skip(1).push(sample),
    {
        self.frame_perf.push(sample);
    }

    /// Applies a reload outcome atomically. A built pipeline is installed
    /// wholesale and clears any earlier diagnostic. A failure is invisible
    /// to the renderer: the pipeline — its stage count, its buffer names,
    /// every handle and size — stays exactly what it was, and the error is
    /// surfaced as the diagnostic.
    pub fn apply_load(&mut self, outcome: Result<Pipeline, LoadError>)
        ensures
            outcome matches Ok(p) ==> final(self).pipeline == p && final(self).diagnostic is None,
            outcome matches Err(e) ==> {
                &&& final(self).pipeline == old(self).pipeline
                &&& final(self).pipeline.stages@.len() == old(self).pipeline.stages@.len()
                &&& crate::pipeline::registry_names(final(self).pipeline.buffers@)
                    == crate::pipeline::registry_names(old(self).pipeline.buffers@)
                &&& final(self).diagnostic == Some(e)
            },
    {
        match outcome {
            Ok(p) => {
                self.pipeline = p;
                self.diagnostic = None;
            },
            Err(e) => {
                self.diagnostic = Some(e);
            },
        }
    }
}

} // verus!
