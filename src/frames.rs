//! Where frames come from during playback, and which of them are shown.
//!
//! Frames are either decoded one per tick by the caller (streamed) or all
//! rendered before playback starts (preprocessed). Either way a rate
//! converter drops source frames, as evenly as it can, so that the frames
//! shown follow the target frame rate.
use vstd::prelude::*;
use vstd::arithmetic::div_mod::lemma_fundamental_div_mod_converse;
use crate::config::Config;
use crate::image::{Image, TextImage};
use crate::parallel::par_map;

verus! {

/// How many frames are rendered together, in parallel, while preprocessing.
pub const FRAME_CHUNK_SIZE: usize = 10;

/// The frame rate shown for a source rate and a requested rate: the
/// requested rate, but never above the source rate.
pub open spec fn effective_target(source: u32, requested: u32) -> u32 {
    if requested > source {
        source
    } else {
        requested
    }
}

// The rate converter keeps its accumulated error multiplied by the target
// rate, so that it stays an integer. Each output tick adds
// `source / target - 1` to the error, `source - target` once scaled, and
// each whole unit of error (`target` once scaled) drops one source frame.

/// Source frames dropped before the frame of the next tick, at an error of
/// `error` (scaled).
pub open spec fn drops(source: nat, target: nat, error: nat) -> nat {
    if target == 0 {
        0
    } else {
        ((error + source - target) as nat) / target
    }
}

/// The error after the next tick.
pub open spec fn next_error(source: nat, target: nat, error: nat) -> nat {
    if target == 0 {
        error
    } else {
        ((error + source - target) as nat) % target
    }
}

/// The error after `k` ticks of a fresh converter.
pub open spec fn error_after(source: nat, target: nat, k: nat) -> nat
    decreases k,
{
    if k == 0 {
        0
    } else {
        next_error(source, target, error_after(source, target, (k - 1) as nat))
    }
}

/// The source frames used up (dropped or shown) by `k` ticks of a fresh
/// converter; the frame shown at tick `k` is the one at position
/// `consumed_after(source, target, k) - 1`.
pub open spec fn consumed_after(source: nat, target: nat, k: nat) -> nat
    decreases k,
{
    if k == 0 {
        0
    } else {
        let before = (k - 1) as nat;
        consumed_after(source, target, before) + drops(source, target, error_after(source, target, before)) + 1
    }
}

/// The converter does not drift: after `k` ticks it has used up exactly
/// `k * source / target` source frames, rounded down, and its error is the
/// remainder of that division.
pub proof fn lemma_no_drift(source: nat, target: nat, k: nat)
    requires
        0 < target <= source,
    ensures
        consumed_after(source, target, k) == (k * source) / target,
        error_after(source, target, k) == (k * source) % target,
    decreases k,
{
    if k > 0 {
        let before = (k - 1) as nat;
        lemma_no_drift(source, target, before);
        let c = consumed_after(source, target, before);
        let e = error_after(source, target, before);
        let q = ((e + source - target) as nat) / target;
        let r = ((e + source - target) as nat) % target;
        assert((before * source) == c * target + e) by {
            vstd::arithmetic::div_mod::lemma_fundamental_div_mod((before * source) as int, target as int);
            vstd::arithmetic::mul::lemma_mul_is_commutative(target as int, c as int);
        }
        assert((e + source - target) as nat == q * target + r) by {
            vstd::arithmetic::div_mod::lemma_fundamental_div_mod((e + source - target) as int, target as int);
            vstd::arithmetic::mul::lemma_mul_is_commutative(target as int, q as int);
        }
        assert(k * source == (c + q + 1) * target + r) by (nonlinear_arith)
            requires
                k == before + 1,
                before * source == c * target + e,
                (e + source - target) == q * target + r,
                e + source >= target,
        ;
        lemma_fundamental_div_mod_converse((k * source) as int, target as int, (c + q + 1) as int, r as int);
        assert(drops(source, target, e) == q);
        assert(consumed_after(source, target, k) == c + q + 1);
        assert(error_after(source, target, k) == r);
    } else {
        assert(k * source == 0) by (nonlinear_arith)
            requires
                k == 0,
        ;
    }
}

/// Halving 30 frames a second to 15 shows one source frame of every two:
/// after `k` ticks exactly `2 * k` source frames are used up, the one shown
/// at each tick being the second of its pair, and no error is left over.
pub proof fn law_half_rate(k: nat)
    ensures
        consumed_after(30, 15, k) == 2 * k,
        error_after(30, 15, k) == 0,
{
    lemma_no_drift(30, 15, k);
    assert((k * 30) / 15 == 2 * k && (k * 30) % 15 == 0) by {
        lemma_fundamental_div_mod_converse((k * 30) as int, 15, (2 * k) as int, 0);
    }
}

/// A requested rate above the source rate is lowered to the source rate,
/// and then no source frame is ever dropped.
pub proof fn law_no_drop_at_source_rate(source: u32, requested: u32, k: nat)
    requires
        requested > source,
    ensures
        effective_target(source, requested) == source,
        consumed_after(source as nat, source as nat, k) == k,
    decreases k,
{
    if k > 0 {
        law_no_drop_at_source_rate(source, requested, (k - 1) as nat);
        let e = error_after(source as nat, source as nat, (k - 1) as nat);
        if source > 0 {
            lemma_no_drift(source as nat, source as nat, (k - 1) as nat);
            assert(e < source);
            lemma_fundamental_div_mod_converse(e as int, source as int, 0, e as int);
            assert(drops(source as nat, source as nat, e) == 0);
        }
    }
}

/// Where the frames come from.
pub enum Frames {
    /// The caller decodes frames one tick at a time; `ended` once the
    /// decoder has run dry.
    Streamed { ended: bool },
    /// Frames rendered before playback; `next` is the position of the next
    /// one to consider.
    Preprocessed { frames: Vec<TextImage>, next: usize },
}

impl Frames {
    /// No frame will come any more.
    pub open spec fn is_exhausted(&self) -> bool {
        match self {
            Frames::Streamed { ended } => *ended,
            Frames::Preprocessed { frames, next } => *next >= frames.len(),
        }
    }

    pub fn build_streamed() -> (r: Frames)
        ensures
            r == (Frames::Streamed { ended: false }),
    {
        Frames::Streamed { ended: false }
    }

    /// Renders every frame before playback, `FRAME_CHUNK_SIZE` frames at a
    /// time: the frames of a chunk in parallel, the chunks one after the
    /// other, each chunk's texts appended in the order of its frames.
    pub fn build_preprocessed(images: Vec<Image>, config: &Config) -> (r: Frames)
        ensures
            r matches Frames::Preprocessed { frames, next } && next == 0
                && frames.len() == images.len()
                && forall|i: int| 0 <= i < images.len()
                    ==> images@[i].renders_to(config, (#[trigger] frames@[i]).spec_text()),
    {
        let mut frames: Vec<TextImage> = Vec::new();
        let mut rest = images;
        while rest.len() > 0
            invariant
                frames.len() + rest.len() == images.len(),
                rest@ == images@.subrange(frames.len() as int, images.len() as int),
                forall|i: int| 0 <= i < frames.len()
                    ==> images@[i].renders_to(config, (#[trigger] frames@[i]).spec_text()),
            decreases rest.len(),
        {
            let at = if rest.len() < FRAME_CHUNK_SIZE { rest.len() } else { FRAME_CHUNK_SIZE };
            let tail = rest.split_off(at);
            let chunk = rest;
            rest = tail;
            let ghost start = frames.len() as int;
            let ghost chunk_view = chunk@;
            assert(forall|i: int| 0 <= i < chunk_view.len() ==> chunk_view[i] == images@[start + i]);
            let render = |image: Image| -> (t: TextImage)
                ensures
                    image.renders_to(config, t.spec_text()),
            {
                TextImage::build_from_image(image, config)
            };
            let mut texts = par_map(chunk, render);
            let ghost texts_view = texts@;
            frames.append(&mut texts);
            assert forall|i: int| 0 <= i < frames.len()
                implies images@[i].renders_to(config, (#[trigger] frames@[i]).spec_text()) by {
                if i >= start {
                    assert(frames@[i] == texts_view[i - start]);
                }
            }
        }
        Frames::Preprocessed { frames, next: 0 }
    }
}

/// What the caller does for the next tick.
pub enum NextFrame {
    /// Show this frame.
    Ready(TextImage),
    /// Decode and drop this many frames, then decode and show the next one.
    Decode(u64),
    /// No frame is left.
    Exhausted,
}

/// Hands out the frames to show, at the target frame rate.
pub struct FramesManager {
    frames: Frames,
    source_fps: u32,
    target_fps: u32,
    error: u64,
}

impl FramesManager {
    pub closed spec fn spec_frames(&self) -> Frames {
        self.frames
    }

    pub closed spec fn spec_source_fps(&self) -> nat {
        self.source_fps as nat
    }

    pub closed spec fn spec_target_fps(&self) -> nat {
        self.target_fps as nat
    }

    pub closed spec fn spec_error(&self) -> nat {
        self.error as nat
    }

    pub closed spec fn wf(&self) -> bool {
        &&& self.target_fps <= self.source_fps
        &&& self.target_fps == 0 ==> self.error == 0
        &&& self.target_fps > 0 ==> self.error < self.target_fps
    }

    /// A manager whose converter has not ticked yet; the target rate is
    /// `target_fps`, lowered to `fps` if above it.
    pub fn new(frames: Frames, fps: u32, target_fps: u32) -> (r: FramesManager)
        ensures
            r.wf(),
            r.spec_frames() == frames,
            r.spec_source_fps() == fps,
            r.spec_target_fps() == effective_target(fps, target_fps),
            r.spec_error() == 0,
    {
        let target_fps = if target_fps > fps { fps } else { target_fps };
        FramesManager { frames, source_fps: fps, target_fps, error: 0 }
    }

    /// A manager for a source of `fps` frames a second under the settings of
    /// `config`: the frames are preprocessed from `images` when `config` asks
    /// for preprocessing, and streamed otherwise (the caller then decodes them
    /// on request, and `images` is not used). A frame limit of 0 means none.
    pub fn build(images: Vec<Image>, fps: u32, config: &Config) -> (r: FramesManager)
        ensures
            r.wf(),
            config.spec_preprocessing() ==> (r.spec_frames() matches Frames::Preprocessed { frames, next }
                && next == 0
                && frames.len() == images.len()
                && forall|i: int| 0 <= i < images.len()
                    ==> images@[i].renders_to(config, (#[trigger] frames@[i]).spec_text())),
            !config.spec_preprocessing() ==> r.spec_frames() == (Frames::Streamed { ended: false }),
            r.spec_source_fps() == fps,
            r.spec_target_fps() == if config.spec_frame_limit() == 0 {
                fps
            } else {
                effective_target(fps, config.spec_frame_limit())
            },
            r.spec_error() == 0,
    {
        let frames = if config.preprocessing() {
            Frames::build_preprocessed(images, config)
        } else {
            Frames::build_streamed()
        };
        let target_fps = if config.frame_limit() == 0 { u32::MAX } else { config.frame_limit() };
        FramesManager::new(frames, fps, target_fps)
    }

    /// The frame rate frames are handed out at.
    pub fn fps(&self) -> (r: u32)
        ensures
            r == self.spec_target_fps(),
    {
        self.target_fps
    }

    /// Records that the decoder of a streamed source has run dry.
    pub fn end_stream(&mut self)
        requires
            old(self).wf(),
        ensures
            final(self).wf(),
            final(self).spec_source_fps() == old(self).spec_source_fps(),
            final(self).spec_target_fps() == old(self).spec_target_fps(),
            final(self).spec_error() == old(self).spec_error(),
            old(self).spec_frames() is Streamed ==> final(self).spec_frames() == (Frames::Streamed { ended: true }),
            old(self).spec_frames() is Preprocessed ==> final(self).spec_frames() == old(self).spec_frames(),
    {
        if let Frames::Streamed { ended } = &mut self.frames {
            *ended = true;
        }
    }

    /// Advances the converter by one tick and says what to show: it first
    /// drops the source frames that the accumulated error calls for, then
    /// takes the next one. Once no frame is left, no frame ever comes again.
    pub fn next_frame(&mut self) -> (r: NextFrame)
        requires
            old(self).wf(),
        ensures
            final(self).wf(),
            final(self).spec_source_fps() == old(self).spec_source_fps(),
            final(self).spec_target_fps() == old(self).spec_target_fps(),
            old(self).spec_frames().is_exhausted() ==> r is Exhausted
                && final(self).spec_frames() == old(self).spec_frames()
                && final(self).spec_error() == old(self).spec_error(),
            !old(self).spec_frames().is_exhausted() ==> ({
                let s = old(self).spec_source_fps();
                let t = old(self).spec_target_fps();
                let e = old(self).spec_error();
                &&& final(self).spec_error() == next_error(s, t, e)
                &&& match old(self).spec_frames() {
                    Frames::Streamed { ended } => r == NextFrame::Decode(drops(s, t, e) as u64)
                        && final(self).spec_frames() == old(self).spec_frames(),
                    Frames::Preprocessed { frames, next } => {
                        let p = next + drops(s, t, e);
                        if p < frames.len() {
                            &&& r matches NextFrame::Ready(f) && f.spec_text() == frames@[p].spec_text()
                            &&& final(self).spec_frames() matches Frames::Preprocessed { frames: f2, next: n2 }
                                && f2@ == frames@ && n2 == p + 1
                        } else {
                            &&& r is Exhausted
                            &&& final(self).spec_frames() matches Frames::Preprocessed { frames: f2, next: n2 }
                                && f2@ == frames@ && n2 == frames.len()
                        }
                    },
                }
            }),
    {
        let exhausted = match &self.frames {
            Frames::Streamed { ended } => *ended,
            Frames::Preprocessed { frames, next } => *next >= frames.len(),
        };
        if exhausted {
            return NextFrame::Exhausted;
        }
        let dropped: u64 = if self.target_fps == 0 {
            0
        } else {
            let total = self.error + (self.source_fps - self.target_fps) as u64;
            self.error = total % (self.target_fps as u64);
            total / (self.target_fps as u64)
        };
        match &mut self.frames {
            Frames::Streamed { .. } => NextFrame::Decode(dropped),
            Frames::Preprocessed { frames, next } => {
                let remaining = (frames.len() - *next) as u64;
                if dropped < remaining {
                    let p = *next + dropped as usize;
                    *next = p + 1;
                    NextFrame::Ready(TextImage::new(frames[p].as_text()))
                } else {
                    *next = frames.len();
                    NextFrame::Exhausted
                }
            },
        }
    }
}

} // verus!
