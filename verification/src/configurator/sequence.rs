//! The sequence of capturing one side of the tree: for each light in turn,
//! turn all lights off, take a base picture, light that one light and take
//! its picture; a light that cannot be lit is skipped. Finally all lights
//! are turned on dimly for a reference picture. The camera, the lights and
//! the locating of lights in pictures are driven by the caller, which asks
//! for the next step and reports whether a single-light frame was shown.

use vstd::prelude::*;

use crate::color::{black, white, Color, Frame};

verus! {

/// The pause, in milliseconds, that lets the lights settle before a
/// picture.
pub const SETTLE_MS: u64 = 30;

/// The level of the dim gray all lights show for the reference picture.
pub const REFERENCE_GRAY: u8 = 50;

/// The frames shown during a capture.
#[derive(Clone, Copy, Debug, PartialEq, Eq, Structural)]
pub enum CaptureFrame {
    /// Every light off.
    AllOff,
    /// Only this light on, white.
    SingleOn(usize),
    /// Every light on, dim gray.
    AllOn,
}

/// The colours of a capture frame for `n` lights.
pub open spec fn capture_frame_pixels(kind: CaptureFrame, n: nat) -> Seq<Color> {
    match kind {
        CaptureFrame::AllOff => Seq::new(n, |_x: int| black()),
        CaptureFrame::SingleOn(i) => Seq::new(
            n,
            |x: int|
                if x == i {
                    white()
                } else {
                    black()
                },
        ),
        CaptureFrame::AllOn => Seq::new(
            n,
            |_x: int| Color { r: REFERENCE_GRAY, g: REFERENCE_GRAY, b: REFERENCE_GRAY },
        ),
    }
}

/// The frame to show for `kind` with `number_of_lights` lights.
pub fn capture_frame(kind: CaptureFrame, number_of_lights: usize) -> (f: Frame)
    ensures
        f@ == capture_frame_pixels(kind, number_of_lights as nat),
{
    match kind {
        CaptureFrame::AllOff => Frame::new_black(number_of_lights),
        CaptureFrame::SingleOn(i) => {
            let f = Frame::new_black(number_of_lights).with_pixel(i, Color::white());
            assert(f@ =~= capture_frame_pixels(kind, number_of_lights as nat));
            f
        },
        CaptureFrame::AllOn => Frame::new(number_of_lights, Color::gray(REFERENCE_GRAY)),
    }
}

/// What the caller does next.
#[derive(Clone, Copy, Debug, PartialEq, Eq, Structural)]
pub enum CaptureStep {
    /// Show the frame, retrying until it is shown.
    ShowUntilShown(CaptureFrame),
    /// Wait this many milliseconds.
    Sleep(u64),
    /// Take the picture the next light is compared with.
    CaptureBase,
    /// Show the frame once and report whether it was shown.
    ShowOnce(CaptureFrame),
    /// The light could not be lit: warn and go on without it.
    SkipLight(usize),
    /// Take the picture of this light lit (retrying until one is taken),
    /// locate the light in it and record the position.
    CaptureLight(usize),
    /// Take the reference picture (retrying until one is taken) and save
    /// the results.
    CaptureReference,
    /// The side is captured.
    Finished,
}

/// Where a capture is: which step comes next.
#[derive(Clone, Copy, Debug, PartialEq, Eq, Structural)]
pub enum CaptureStage {
    LightsOff,
    SettleBase,
    Base,
    LightOn,
    SettleLight,
    Light,
    SettleReference,
    Reference,
    Done,
}

/// A capture of one side: the number of lights, the light being located
/// and the stage.
#[derive(Clone, Copy, Debug, PartialEq, Eq, Structural)]
pub struct PerspectiveCapture {
    pub number_of_lights: usize,
    pub light: usize,
    pub stage: CaptureStage,
}

impl PerspectiveCapture {
    /// The light index stays in range: below the number of lights while a
    /// light is being located, equal to it for the reference picture.
    pub open spec fn wf(self) -> bool {
        &&& self.light <= self.number_of_lights
        &&& match self.stage {
            CaptureStage::LightsOff => true,
            CaptureStage::SettleReference | CaptureStage::Reference | CaptureStage::Done => self.light
                == self.number_of_lights,
            _ => self.light < self.number_of_lights,
        }
    }

    /// A capture that has not started: the first light, all lights off
    /// first.
    pub open spec fn initial(number_of_lights: usize) -> PerspectiveCapture {
        PerspectiveCapture { number_of_lights, light: 0, stage: CaptureStage::LightsOff }
    }

    /// The state with the given stage and light.
    pub open spec fn at(self, stage: CaptureStage, light: int) -> PerspectiveCapture {
        PerspectiveCapture { number_of_lights: self.number_of_lights, light: light as usize, stage }
    }

    /// The next step and the state after it, given whether the frame of the
    /// previous step was shown (only a `ShowOnce` frame's outcome matters).
    pub open spec fn step_spec(self, shown: bool) -> (PerspectiveCapture, CaptureStep) {
        match self.stage {
            CaptureStage::LightsOff => if self.light < self.number_of_lights {
                (
                    self.at(CaptureStage::SettleBase, self.light as int),
                    CaptureStep::ShowUntilShown(CaptureFrame::AllOff),
                )
            } else {
                (
                    self.at(CaptureStage::SettleReference, self.light as int),
                    CaptureStep::ShowUntilShown(CaptureFrame::AllOn),
                )
            },
            CaptureStage::SettleBase => (
                self.at(CaptureStage::Base, self.light as int),
                CaptureStep::Sleep(SETTLE_MS),
            ),
            CaptureStage::Base => (
                self.at(CaptureStage::LightOn, self.light as int),
                CaptureStep::CaptureBase,
            ),
            CaptureStage::LightOn => (
                self.at(CaptureStage::SettleLight, self.light as int),
                CaptureStep::ShowOnce(CaptureFrame::SingleOn(self.light)),
            ),
            CaptureStage::SettleLight => if shown {
                (self.at(CaptureStage::Light, self.light as int), CaptureStep::Sleep(SETTLE_MS))
            } else {
                (
                    self.at(CaptureStage::LightsOff, self.light + 1),
                    CaptureStep::SkipLight(self.light),
                )
            },
            CaptureStage::Light => (
                self.at(CaptureStage::LightsOff, self.light + 1),
                CaptureStep::CaptureLight(self.light),
            ),
            CaptureStage::SettleReference => (
                self.at(CaptureStage::Reference, self.light as int),
                CaptureStep::Sleep(SETTLE_MS),
            ),
            CaptureStage::Reference => (
                self.at(CaptureStage::Done, self.light as int),
                CaptureStep::CaptureReference,
            ),
            CaptureStage::Done => (self, CaptureStep::Finished),
        }
    }

    /// A capture of `number_of_lights` lights that has not started.
    pub fn new(number_of_lights: usize) -> (c: PerspectiveCapture)
        ensures
            c == PerspectiveCapture::initial(number_of_lights),
            c.wf(),
    {
        PerspectiveCapture { number_of_lights, light: 0, stage: CaptureStage::LightsOff }
    }

    /// The next step; `shown` says whether the frame of the previous step
    /// was shown.
    pub fn step(&mut self, shown: bool) -> (s: CaptureStep)
        requires
            old(self).wf(),
        ensures
            (*final(self), s) == old(self).step_spec(shown),
            final(self).wf(),
    {
        let light = self.light;
        match self.stage {
            CaptureStage::LightsOff => {
                if light < self.number_of_lights {
                    self.stage = CaptureStage::SettleBase;
                    CaptureStep::ShowUntilShown(CaptureFrame::AllOff)
                } else {
                    self.stage = CaptureStage::SettleReference;
                    CaptureStep::ShowUntilShown(CaptureFrame::AllOn)
                }
            },
            CaptureStage::SettleBase => {
                self.stage = CaptureStage::Base;
                CaptureStep::Sleep(SETTLE_MS)
            },
            CaptureStage::Base => {
                self.stage = CaptureStage::LightOn;
                CaptureStep::CaptureBase
            },
            CaptureStage::LightOn => {
                self.stage = CaptureStage::SettleLight;
                CaptureStep::ShowOnce(CaptureFrame::SingleOn(light))
            },
            CaptureStage::SettleLight => {
                if shown {
                    self.stage = CaptureStage::Light;
                    CaptureStep::Sleep(SETTLE_MS)
                } else {
                    self.stage = CaptureStage::LightsOff;
                    self.light = light + 1;
                    CaptureStep::SkipLight(light)
                }
            },
            CaptureStage::Light => {
                self.stage = CaptureStage::LightsOff;
                self.light = light + 1;
                CaptureStep::CaptureLight(light)
            },
            CaptureStage::SettleReference => {
                self.stage = CaptureStage::Reference;
                CaptureStep::Sleep(SETTLE_MS)
            },
            CaptureStage::Reference => {
                self.stage = CaptureStage::Done;
                CaptureStep::CaptureReference
            },
            CaptureStage::Done => CaptureStep::Finished,
        }
    }
}

/// The state and the steps after feeding the outcomes `shown`, one per
/// step, starting from `c`.
pub open spec fn run_steps(c: PerspectiveCapture, shown: Seq<bool>) -> (PerspectiveCapture, Seq<CaptureStep>)
    decreases shown.len(),
{
    if shown.len() == 0 {
        (c, Seq::empty())
    } else {
        let (before, steps) = run_steps(c, shown.drop_last());
        let (after, s) = before.step_spec(shown.last());
        (after, steps.push(s))
    }
}

/// The steps of locating light `i`: all off, settle, base picture, light it;
/// then, if it was lit, settle and picture it, else skip it.
pub open spec fn light_steps(i: usize, lit: bool) -> Seq<CaptureStep> {
    let common = seq![
        CaptureStep::ShowUntilShown(CaptureFrame::AllOff),
        CaptureStep::Sleep(SETTLE_MS),
        CaptureStep::CaptureBase,
        CaptureStep::ShowOnce(CaptureFrame::SingleOn(i)),
    ];
    if lit {
        common + seq![CaptureStep::Sleep(SETTLE_MS), CaptureStep::CaptureLight(i)]
    } else {
        common.push(CaptureStep::SkipLight(i))
    }
}

/// The outcomes fed while locating one light: only the fifth, the outcome
/// of lighting it, matters.
pub open spec fn light_outcomes(lit: bool) -> Seq<bool> {
    if lit {
        seq![true, true, true, true, true, true]
    } else {
        seq![true, true, true, true, false]
    }
}

/// The steps of locating the lights one after another, the `i`-th lit as
/// `lit[i]` says.
pub open spec fn lights_plan(lit: Seq<bool>) -> Seq<CaptureStep>
    decreases lit.len(),
{
    if lit.len() == 0 {
        Seq::empty()
    } else {
        lights_plan(lit.drop_last()) + light_steps((lit.len() - 1) as usize, lit.last())
    }
}

/// The outcomes fed while locating the lights one after another.
pub open spec fn lights_outcomes(lit: Seq<bool>) -> Seq<bool>
    decreases lit.len(),
{
    if lit.len() == 0 {
        Seq::empty()
    } else {
        lights_outcomes(lit.drop_last()) + light_outcomes(lit.last())
    }
}

/// The steps after the last light: all lights on, settle, reference
/// picture, finished.
pub open spec fn reference_steps() -> Seq<CaptureStep> {
    seq![
        CaptureStep::ShowUntilShown(CaptureFrame::AllOn),
        CaptureStep::Sleep(SETTLE_MS),
        CaptureStep::CaptureReference,
        CaptureStep::Finished,
    ]
}

/// Running on two pieces of outcomes is running on the first, then on the
/// second from where the first ended.
proof fn lemma_run_concat(c: PerspectiveCapture, a: Seq<bool>, b: Seq<bool>)
    ensures
        run_steps(c, a + b) == (
            run_steps(run_steps(c, a).0, b).0,
            run_steps(c, a).1 + run_steps(run_steps(c, a).0, b).1,
        ),
    decreases b.len(),
{
    if b.len() == 0 {
        assert(a + b =~= a);
        assert(run_steps(c, a).1 + Seq::<CaptureStep>::empty() =~= run_steps(c, a).1);
    } else {
        assert((a + b).drop_last() =~= a + b.drop_last());
        lemma_run_concat(c, a, b.drop_last());
        let mid = run_steps(c, a).0;
        let (t, tail) = run_steps(mid, b.drop_last());
        let (u, s) = t.step_spec(b.last());
        assert(run_steps(c, a).1 + tail.push(s) =~= (run_steps(c, a).1 + tail).push(s));
    }
}

/// Locating one light takes exactly its steps and moves on to the next
/// light.
proof fn lemma_light_block(c: PerspectiveCapture, lit: bool)
    requires
        c.stage == CaptureStage::LightsOff,
        c.light < c.number_of_lights,
    ensures
        run_steps(c, light_outcomes(lit)) == (
            c.at(CaptureStage::LightsOff, c.light + 1),
            light_steps(c.light, lit),
        ),
{
    let o = light_outcomes(lit);
    reveal_with_fuel(run_steps, 7);
    if lit {
        assert(o.drop_last().drop_last().drop_last().drop_last().drop_last().drop_last() =~= Seq::<
            bool,
        >::empty());
        assert(o.drop_last().drop_last().drop_last().drop_last().drop_last() =~= seq![true]);
        assert(o.drop_last().drop_last().drop_last().drop_last() =~= seq![true, true]);
        assert(o.drop_last().drop_last().drop_last() =~= seq![true, true, true]);
        assert(o.drop_last().drop_last() =~= seq![true, true, true, true]);
        assert(o.drop_last() =~= seq![true, true, true, true, true]);
    } else {
        assert(o.drop_last().drop_last().drop_last().drop_last().drop_last() =~= Seq::<
            bool,
        >::empty());
        assert(o.drop_last().drop_last().drop_last().drop_last() =~= seq![true]);
        assert(o.drop_last().drop_last().drop_last() =~= seq![true, true]);
        assert(o.drop_last().drop_last() =~= seq![true, true, true]);
        assert(o.drop_last() =~= seq![true, true, true, true]);
    }
    assert(run_steps(c, o).1 =~= light_steps(c.light, lit));
}

/// A capture of `n` lights, fed the outcome of lighting each light in turn
/// (`lit[i]` for light `i`), goes through exactly the steps of the plan:
/// each light located in order (skipped when it could not be lit), then the
/// reference picture, then finished.
pub proof fn lemma_capture_follows_plan(n: usize, lit: Seq<bool>)
    requires
        lit.len() == n,
    ensures
        run_steps(
            PerspectiveCapture::initial(n),
            lights_outcomes(lit) + seq![true, true, true, true],
        ).1 == lights_plan(lit) + reference_steps(),
        run_steps(
            PerspectiveCapture::initial(n),
            lights_outcomes(lit) + seq![true, true, true, true],
        ).0.stage == CaptureStage::Done,
{
    lemma_lights_prefix(n, lit);
    let c = PerspectiveCapture::initial(n);
    let mid = c.at(CaptureStage::LightsOff, n as int);
    lemma_run_concat(c, lights_outcomes(lit), seq![true, true, true, true]);
    let r = seq![true, true, true, true];
    reveal_with_fuel(run_steps, 5);
    assert(r.drop_last().drop_last().drop_last().drop_last() =~= Seq::<bool>::empty());
    assert(r.drop_last().drop_last().drop_last() =~= seq![true]);
    assert(r.drop_last().drop_last() =~= seq![true, true]);
    assert(r.drop_last() =~= seq![true, true, true]);
    assert(run_steps(mid, r).1 =~= reference_steps());
}

/// After the outcomes of the first `lit.len()` lights, the capture is at
/// the next light with all the lights' steps behind it.
proof fn lemma_lights_prefix(n: usize, lit: Seq<bool>)
    requires
        lit.len() <= n,
    ensures
        run_steps(PerspectiveCapture::initial(n), lights_outcomes(lit)) == (
            PerspectiveCapture::initial(n).at(CaptureStage::LightsOff, lit.len() as int),
            lights_plan(lit),
        ),
    decreases lit.len(),
{
    let c = PerspectiveCapture::initial(n);
    if lit.len() == 0 {
        assert(c.at(CaptureStage::LightsOff, 0) == c);
    } else {
        let prev = lit.drop_last();
        lemma_lights_prefix(n, prev);
        lemma_run_concat(c, lights_outcomes(prev), light_outcomes(lit.last()));
        let mid = c.at(CaptureStage::LightsOff, prev.len() as int);
        lemma_light_block(mid, lit.last());
    }
}

} // verus!
