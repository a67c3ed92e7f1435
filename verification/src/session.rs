//! CaptureLoop orchestration: the work done for every frame the external
//! frame source delivers — count the bright samples, map them to a level,
//! drive the pin bank, hand the raw frame to the preview slot — and the
//! session's monotonically increasing frame counter.

use vstd::prelude::*;
use crate::gpio::{GPIO, HwError, PinOp, thermometer_value};
use crate::level::{level_for, level_spec};
use crate::sampler::{PixelFormat, bright_count, brightness_count};
use crate::slot::SharedFrameSlot;

verus! {

/// Fixed configuration of a capture session: frame geometry, pixel layout,
/// frame rate, brightness threshold and level divisor, all named values.
#[derive(Clone, Copy, PartialEq, Eq, Structural, Debug)]
pub struct CaptureConfig {
    pub width: usize,
    pub height: usize,
    pub fps: u32,
    pub threshold: u8,
    pub divisor: usize,
    pub format: PixelFormat,
}

impl CaptureConfig {
    pub open spec fn wf(self) -> bool {
        &&& self.format.wf()
        &&& self.divisor > 0
        &&& self.width * self.height * self.format.bytes_per_sample <= usize::MAX
    }

    /// How many bytes one raw frame of this configuration holds.
    pub open spec fn frame_bytes_spec(self) -> int {
        self.width * self.height * self.format.bytes_per_sample
    }

    /// How many luma samples one frame of this configuration holds.
    pub open spec fn samples_spec(self) -> int {
        self.width * self.height
    }

    pub fn frame_bytes(&self) -> (n: usize)
        requires
            self.wf(),
        ensures
            n == self.frame_bytes_spec(),
    {
        proof {
            assert(self.width * self.height <= self.width * self.height
                * self.format.bytes_per_sample) by (nonlinear_arith)
                requires
                    self.format.bytes_per_sample >= 1,
            ;
        }
        self.width * self.height * self.format.bytes_per_sample
    }

    /// The signalling deployment: 640x480 packed luma/chroma frames at 10
    /// frames per second, threshold 230, one level per 100 bright samples.
    pub fn default_signal() -> (c: CaptureConfig)
        ensures
            c == (CaptureConfig {
                width: 640usize,
                height: 480usize,
                fps: 10u32,
                threshold: 230u8,
                divisor: 100usize,
                format: PixelFormat { bytes_per_sample: 2usize, luma_offset: 0usize },
            }),
            c.wf(),
    {
        CaptureConfig {
            width: 640,
            height: 480,
            fps: 10,
            threshold: 230,
            divisor: 100,
            format: PixelFormat::yuyv(),
        }
    }

    /// The preview deployment: the same frames at 30 frames per second with
    /// threshold 200.
    pub fn default_preview() -> (c: CaptureConfig)
        ensures
            c == (CaptureConfig {
                width: 640usize,
                height: 480usize,
                fps: 30u32,
                threshold: 200u8,
                divisor: 100usize,
                format: PixelFormat { bytes_per_sample: 2usize, luma_offset: 0usize },
            }),
            c.wf(),
    {
        CaptureConfig {
            width: 640,
            height: 480,
            fps: 30,
            threshold: 200,
            divisor: 100,
            format: PixelFormat::yuyv(),
        }
    }
}

/// The level one frame of this configuration maps to on a bank of `pins`
/// pins.
pub open spec fn frame_level(cfg: CaptureConfig, frame: Seq<u8>, pins: nat) -> nat {
    level_spec(
        bright_count(frame, cfg.format, (cfg.width * cfg.height) as nat, cfg.threshold),
        cfg.divisor as nat,
        pins,
    )
}

/// A pin write failed while the bank was signalling a frame's level: the
/// pins before the failing one already show the frame's thermometer pattern,
/// the failing pin and those after it keep their previous recorded state,
/// and the error names the failing pin and the value write.
pub open spec fn bank_signal_interrupted(
    pre: CaptureSession,
    post: CaptureSession,
    frame: Seq<u8>,
    e: HwError,
) -> bool {
    post.bank() matches Some(g) && (pre.bank() matches Some(g0) && {
        &&& g.pin_ids() == g0.pin_ids()
        &&& g.state().len() == g0.state().len()
        &&& e.op == PinOp::ValueSet
        &&& exists|k: int|
            {
                &&& 0 <= k < g.pin_ids().len()
                &&& e.pin == g.pin_ids()[k]
                &&& forall|i: int|
                    0 <= i < k ==> (#[trigger] g.state()[i]).value == thermometer_value(
                        i,
                        frame_level(pre.config(), frame, g0.pin_count_spec()) as int,
                    )
                &&& forall|i: int| k <= i < g.state().len() ==> #[trigger] g.state()[i] == g0.state()[i]
            }
    })
}

/// After a fully handled frame with brightness count `count`, the session's
/// bank shows the thermometer pattern of the level that count maps to.
pub open spec fn bank_signalled(pre: CaptureSession, post: CaptureSession, count: usize) -> bool {
    post.bank() matches Some(g) && {
        &&& g.pin_count_spec() == pre.bank()->Some_0.pin_count_spec()
        &&& forall|i: int|
            0 <= i < g.state().len() ==> (#[trigger] g.state()[i]).value == thermometer_value(
                i,
                level_spec(count as nat, pre.config().divisor as nat, g.pin_count_spec()) as int,
            )
    }
}

/// One capture session: the per-frame pipeline and its diagnostics counter.
/// The pin bank is optional — the preview deployment runs without one — and
/// owned by the session alone, so only the capture side ever drives it.
pub struct CaptureSession {
    config: CaptureConfig,
    bank: Option<GPIO>,
    counter: u64,
}

impl CaptureSession {
    pub closed spec fn config(self) -> CaptureConfig {
        self.config
    }

    pub closed spec fn bank(self) -> Option<GPIO> {
        self.bank
    }

    /// How many frames the session has fully handled.
    pub closed spec fn frames_seen(self) -> u64 {
        self.counter
    }

    pub open spec fn wf(self) -> bool {
        &&& self.config().wf()
        &&& (self.bank() matches Some(g) ==> g.wf() && g.pin_count_spec() > 0)
    }

    pub fn new(config: CaptureConfig, bank: Option<GPIO>) -> (s: CaptureSession)
        requires
            config.wf(),
            bank matches Some(g) ==> g.wf() && g.pin_count_spec() > 0,
        ensures
            s.wf(),
            s.config() == config,
            s.bank() == bank,
            s.frames_seen() == 0,
    {
        CaptureSession { config, bank, counter: 0 }
    }

    pub fn counter(&self) -> (n: u64)
        ensures
            n == self.frames_seen(),
    {
        self.counter
    }

    /// Handles one delivered frame, synchronously, as the capture callback
    /// does: counts the luma samples brighter than the threshold, maps the
    /// count to a level, drives the pin bank's thermometer pattern (when a
    /// bank is present), publishes a copy of the raw frame to the preview
    /// slot (when one is given), and advances the frame counter. Returns the
    /// brightness count; fails only when a pin write fails, leaving the
    /// counter unchanged.
    pub fn on_frame(&mut self, frame: &Vec<u8>, slot: Option<&SharedFrameSlot>) -> (r: Result<
        usize,
        HwError,
    >)
        requires
            old(self).wf(),
            frame@.len() == old(self).config().frame_bytes_spec(),
            old(self).frames_seen() < u64::MAX,
            slot matches Some(s) ==> s.size_spec() == old(self).config().frame_bytes_spec(),
        ensures
            final(self).wf(),
            final(self).config() == old(self).config(),
            r matches Ok(count) ==> {
                &&& count == bright_count(
                    frame@,
                    old(self).config().format,
                    old(self).samples(),
                    old(self).config().threshold,
                )
                &&& final(self).frames_seen() == old(self).frames_seen() + 1
                &&& (old(self).bank() is Some ==> bank_signalled(*old(self), *final(self), count))
                &&& (old(self).bank() is None ==> final(self).bank() is None)
            },
            r matches Err(e) ==> final(self).frames_seen() == old(self).frames_seen()
                && bank_signal_interrupted(*old(self), *final(self), frame@, e),
    {
        let count = brightness_count(
            frame,
            self.config.width,
            self.config.height,
            self.config.threshold,
            self.config.format,
        );
        match &mut self.bank {
            Some(g) => {
                let level = level_for(count, self.config.divisor, g.pin_count());
                match g.signal(level) {
                    Ok(()) => {},
                    Err(e) => {
                        return Err(e);
                    },
                }
            },
            None => {},
        }
        match slot {
            Some(s) => {
                s.publish(frame);
            },
            None => {},
        }
        self.counter = self.counter + 1;
        Ok(count)
    }

    /// The sample count of the session's frames, as a spec value.
    pub open spec fn samples(self) -> nat {
        (self.config().width * self.config().height) as nat
    }
}

} // verus!
