//! The staged scheduler: runs the pipeline as a sequence of deferred,
//! cancellable steps so a single-threaded host stays responsive.
//!
//! The host owns the timers; the library owns the decisions. A run is an
//! explicit state machine: [`StagedPipeline::start`] asks the host to defer
//! the first stage, each [`StagedPipeline::step`] performs one stage's pixel
//! work synchronously and asks for the next deferral, with a cumulative
//! delay of one extra step per stage. The ids the host gets back from its
//! timer primitives are recorded in a [`TimingEventKeeper`]; releasing the
//! keeper returns every pending task so the host can actively cancel it —
//! one-shot tasks through the timeout-clear primitive, repeating ones
//! through the interval-clear primitive, told apart by the stored kind.

use crate::art::{corrected_height, is_sketch_luma, AsciiArtGenerator};
use crate::blur::{blur_fn, chan_fn};
use crate::glyph::glyph_char;
use crate::imageops::lanczos3_resized;
use crate::raster::{GrayImg, RgbImg};
use vstd::prelude::*;

verus! {

/// How a deferred task was registered, and so how it must be cancelled.
#[derive(Clone, Copy, PartialEq, Eq, Structural, Debug)]
pub enum TaskKind {
    /// A task that fires once (a timeout).
    OneShot,
    /// A task that fires repeatedly (an interval).
    Repeating,
}

/// A deferred task pending with the host, by its opaque timer id.
#[derive(Clone, Copy, PartialEq, Eq, Structural, Debug)]
pub struct ScheduledTask {
    /// The id the host timer primitive returned.
    pub id: i64,
    /// How the task must be cancelled.
    pub kind: TaskKind,
}

/// The registry of deferred tasks. Fired one-shot tasks may stay registered:
/// cancelling an already-fired timeout is harmless, and the registry's job
/// is that nothing pending survives a release.
pub struct TimingEventKeeper {
    tasks: Vec<ScheduledTask>,
}

impl TimingEventKeeper {
    /// The tasks registered so far, in registration order.
    pub closed spec fn pending(&self) -> Seq<ScheduledTask> {
        self.tasks@
    }

    /// Creates an empty registry.
    pub fn new() -> (k: TimingEventKeeper)
        ensures
            k.pending() == Seq::<ScheduledTask>::empty(),
    {
        TimingEventKeeper { tasks: Vec::new() }
    }

    /// Records a one-shot task under the host's timer id.
    pub fn add(&mut self, id: i64)
        ensures
            final(self).pending() == old(self).pending().push(
                ScheduledTask { id, kind: TaskKind::OneShot },
            ),
    {
        self.tasks.push(ScheduledTask { id, kind: TaskKind::OneShot });
    }

    /// Records a repeating task under the host's timer id.
    pub fn add_repetitive(&mut self, id: i64)
        ensures
            final(self).pending() == old(self).pending().push(
                ScheduledTask { id, kind: TaskKind::Repeating },
            ),
    {
        self.tasks.push(ScheduledTask { id, kind: TaskKind::Repeating });
    }

    /// Releases the registry: returns every registered task, each with the
    /// kind that selects the host's cancel primitive, and leaves the
    /// registry empty.
    pub fn release(&mut self) -> (cancelled: Vec<ScheduledTask>)
        ensures
            cancelled@ == old(self).pending(),
            final(self).pending() == Seq::<ScheduledTask>::empty(),
    {
        let mut out: Vec<ScheduledTask> = Vec::new();
        std::mem::swap(&mut out, &mut self.tasks);
        out
    }
}

/// Cancellation is total: every task pending when the keeper is released is
/// in the cancel list the host receives, so once the host clears those ids
/// no observer or final callback of the run fires again.
pub proof fn lemma_release_cancels_all(
    pending: Seq<ScheduledTask>,
    cancelled: Seq<ScheduledTask>,
    i: int,
)
    requires
        cancelled == pending,
        0 <= i < pending.len(),
    ensures
        cancelled.contains(pending[i]),
{
    assert(cancelled[i] == pending[i]);
}

/// The stages of one pipeline run, a single forward traversal.
#[derive(Clone, Copy, PartialEq, Eq, Structural, Debug)]
pub enum Stage {
    /// Nothing ran yet; the first deferred task is pending.
    Idle,
    /// The source was resized.
    Resized,
    /// The resized image was blurred and inverted.
    Blurred,
    /// The two layers were blended, level-adjusted and grayscaled.
    Blended,
    /// The glyph rows are ready; no further task is deferred.
    Done,
}

/// How many stages have completed.
pub open spec fn stage_steps(s: Stage) -> int {
    match s {
        Stage::Idle => 0,
        Stage::Resized => 1,
        Stage::Blurred => 2,
        Stage::Blended => 3,
        Stage::Done => 4,
    }
}

/// The absolute delays a run with step delay `d` asks of the host, in
/// firing order: one more step per stage.
pub open spec fn pipeline_delays(d: int) -> Seq<int> {
    Seq::new(4, |k: int| (k + 1) * d)
}

/// Scheduling law: for a run with step delay `d` and four stages, the
/// scheduled absolute delays are exactly `d, 2d, 3d, 4d`, in that order.
pub proof fn lemma_pipeline_delays(d: int)
    ensures
        pipeline_delays(d).len() == 4,
        pipeline_delays(d)[0] == d,
        pipeline_delays(d)[1] == 2 * d,
        pipeline_delays(d)[2] == 3 * d,
        pipeline_delays(d)[3] == 4 * d,
{
}

/// One pipeline run: the generator it reads, the stage tag, and the images
/// the completed stages produced.
pub struct StagedPipeline {
    /// The generator; read-only for the whole run.
    pub gen: AsciiArtGenerator,
    /// The last completed stage.
    pub stage: Stage,
    /// The pacing between stages, in milliseconds.
    pub step_delay: u32,
    /// Output of the resize stage.
    pub resized: Option<RgbImg>,
    /// Output of the blur-and-invert stage.
    pub blurred: Option<RgbImg>,
    /// Output of the blend-and-adjust stage.
    pub blended: Option<GrayImg>,
    /// The glyph rows, filled by the final stage.
    pub rows: Vec<String>,
}

impl StagedPipeline {
    /// The stages completed so far left consistent outputs behind.
    pub open spec fn wf(&self) -> bool {
        &&& self.gen.wf()
        &&& stage_steps(self.stage) >= 1 ==> match self.resized {
            Some(r) => {
                &&& r.wf()
                &&& r.width == self.gen.width
                &&& r.height as int == corrected_height(self.gen.height as int)
            },
            None => false,
        }
        &&& stage_steps(self.stage) >= 2 ==> match (self.resized, self.blurred) {
            (Some(r), Some(b)) => {
                &&& b.wf()
                &&& b.width == r.width
                &&& b.height == r.height
            },
            _ => false,
        }
        &&& stage_steps(self.stage) >= 3 ==> match (self.resized, self.blended) {
            (Some(r), Some(g)) => {
                &&& g.wf()
                &&& g.width == r.width
                &&& g.height == r.height
            },
            _ => false,
        }
        &&& stage_steps(self.stage) >= 4 ==> match self.blended {
            Some(g) => self.rows@.len() == g.height as int,
            None => false,
        }
    }

    /// Starts a run: returns the fresh state machine and the delay at which
    /// the host must defer the first step.
    pub fn start(gen: AsciiArtGenerator, step_delay: u32) -> (r: (StagedPipeline, u64))
        requires
            gen.wf(),
        ensures
            (r.0.wf()),
            r.0.stage == Stage::Idle,
            r.0.gen == gen,
            r.0.step_delay == step_delay,
            r.1 as int == pipeline_delays(step_delay as int)[0],
    {
        let p = StagedPipeline {
            gen,
            stage: Stage::Idle,
            step_delay,
            resized: None,
            blurred: None,
            blended: None,
            rows: Vec::new(),
        };
        (p, step_delay as u64)
    }

    /// Performs the next stage synchronously and returns the absolute delay
    /// at which the host must defer the following step — `None` after the
    /// final stage.
    ///
    /// Stage order is fixed: resize, blur and invert, blend and adjust,
    /// glyph mapping. Each completed stage leaves its image behind for the
    /// host's observer; the rows of the final stage are the deferred
    /// drawing action's content.
    pub fn step(&mut self) -> (next: Option<u64>)
        requires
            old(self).wf(),
            old(self).stage != Stage::Done,
        ensures
            final(self).wf(),
            final(self).gen == old(self).gen,
            final(self).step_delay == old(self).step_delay,
            stage_steps(final(self).stage) == stage_steps(old(self).stage) + 1,
            (next is None <==> final(self).stage == Stage::Done),
            (next matches Some(d) ==> d as int == pipeline_delays(old(self).step_delay as int)[
                stage_steps(final(self).stage)]),
            (old(self).stage == Stage::Idle ==> {
                &&& final(self).stage == Stage::Resized
                &&& final(self).blurred == old(self).blurred
                &&& final(self).blended == old(self).blended
                &&& final(self).rows == old(self).rows
                &&& match final(self).resized {
                    Some(r) => r.data@ == lanczos3_resized(
                        old(self).gen.img.data@,
                        old(self).gen.img.width as int,
                        old(self).gen.img.height as int,
                        r.width as int,
                        r.height as int,
                    ),
                    None => false,
                }
            }),
            (old(self).stage == Stage::Resized ==> {
                &&& final(self).stage == Stage::Blurred
                &&& final(self).resized == old(self).resized
                &&& final(self).blended == old(self).blended
                &&& final(self).rows == old(self).rows
                &&& match (final(self).resized, final(self).blurred) {
                    (Some(r), Some(b)) => forall|x: int, y: int, c: int|
                        0 <= x < r.width && 0 <= y < r.height && 0 <= c < 3 ==> b.chan(x, y, c)
                            == 255 - blur_fn(chan_fn(r), r.width as int, r.height as int)(x, y, c),
                    _ => false,
                }
            }),
            (old(self).stage == Stage::Blurred ==> {
                &&& final(self).stage == Stage::Blended
                &&& final(self).resized == old(self).resized
                &&& final(self).blurred == old(self).blurred
                &&& final(self).rows == old(self).rows
                &&& match (final(self).resized, final(self).blurred, final(self).blended) {
                    (Some(r), Some(b), Some(g)) => forall|x: int, y: int|
                        0 <= x < r.width && 0 <= y < r.height ==> is_sketch_luma(
                            r.chan(x, y, 0),
                            r.chan(x, y, 1),
                            r.chan(x, y, 2),
                            b.chan(x, y, 0),
                            b.chan(x, y, 1),
                            b.chan(x, y, 2),
                            old(self).gen.min_level,
                            old(self).gen.max_level,
                            old(self).gen.gamma_centi,
                            g.pixel(x, y),
                        ),
                    _ => false,
                }
            }),
            (old(self).stage == Stage::Blended ==> {
                &&& final(self).stage == Stage::Done
                &&& final(self).resized == old(self).resized
                &&& final(self).blurred == old(self).blurred
                &&& final(self).blended == old(self).blended
                &&& match final(self).blended {
                    Some(g) => {
                        &&& final(self).rows@.len() == g.height as int
                        &&& (forall|y: int|
                            0 <= y < g.height ==> (#[trigger] final(self).rows@[y])@.len()
                                == g.width as int)
                        &&& (forall|y: int, x: int|
                            #![trigger final(self).rows@[y]@[x]]
                            0 <= y < g.height && 0 <= x < g.width ==> final(self).rows@[y]@[x]
                                == glyph_char(g.pixel(x, y)))
                    },
                    None => false,
                }
            }),
    {
        let d: u64 = self.step_delay as u64;
        match self.stage {
            Stage::Idle => {
                let proc = self.gen.processor();
                let img = proc.resize();
                self.resized = Some(img);
                self.stage = Stage::Resized;
                Some(2 * d)
            },
            Stage::Resized => {
                let proc = self.gen.processor();
                let img = proc.blur_and_invert(self.resized.as_ref().unwrap());
                self.blurred = Some(img);
                self.stage = Stage::Blurred;
                Some(3 * d)
            },
            Stage::Blurred => {
                let proc = self.gen.processor();
                let img = proc.blend_and_adjust(
                    self.resized.as_ref().unwrap(),
                    self.blurred.as_ref().unwrap(),
                );
                self.blended = Some(img);
                self.stage = Stage::Blended;
                Some(4 * d)
            },
            Stage::Blended | Stage::Done => {
                let proc = self.gen.processor();
                let rows = proc.generate_from_img(self.blended.as_ref().unwrap());
                self.rows = rows;
                self.stage = Stage::Done;
                None
            },
        }
    }
}

} // verus!
