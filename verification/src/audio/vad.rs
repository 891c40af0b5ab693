//! Voice-activity detection: audio is cut into frames, a detector says of
//! each frame whether it holds speech, and the frames with speech are
//! counted window by window.

use vstd::prelude::*;
use vstd::slice::slice_subrange;

verus! {

/// The detector of the `webrtc-vad` crate. Nothing of its inside is known here.
#[verifier::external_type_specification]
#[verifier::external_body]
pub struct ExVad(webrtc_vad::Vad);

/// The length of a frame.
#[derive(Debug, Clone, Copy, PartialEq, Eq, Structural)]
pub enum SampleSize {
    Small,
    Medium,
    Large,
}

impl SampleSize {
    /// The length of a frame in milliseconds: 10, 20 or 30.
    pub open spec fn millis_of(self) -> int {
        match self {
            SampleSize::Small => 10,
            SampleSize::Medium => 20,
            SampleSize::Large => 30,
        }
    }

    pub fn millis(&self) -> (ms: u32)
        ensures
            ms == self.millis_of(),
    {
        match self {
            SampleSize::Small => 10,
            SampleSize::Medium => 20,
            SampleSize::Large => 30,
        }
    }
}

/// How readily the detector takes a frame for speech.
#[derive(Debug, Clone, Copy, PartialEq, Eq, Structural)]
pub enum Mode {
    Quality,
    LowBitrate,
    Aggressive,
    VeryAggressive,
}

/// The sample rates that the detector takes.
#[derive(Debug, Clone, Copy, PartialEq, Eq, Structural)]
pub enum Rate {
    Rate8kHz,
    Rate16kHz,
    Rate32kHz,
    Rate48kHz,
}

/// The detector's rate for a sample rate in hertz: 8000, 16000, 32000 and
/// 48000 have one, no other rate has.
pub open spec fn rate_of(hz: u16) -> Option<Rate> {
    if hz == 8000 {
        Some(Rate::Rate8kHz)
    } else if hz == 16000 {
        Some(Rate::Rate16kHz)
    } else if hz == 32000 {
        Some(Rate::Rate32kHz)
    } else if hz == 48000 {
        Some(Rate::Rate48kHz)
    } else {
        None
    }
}

#[derive(Debug, Clone, Copy, PartialEq, Eq, Structural)]
pub enum Error {
    /// The detector refused a frame.
    Vad,
    /// The detector does not take the sample rate.
    BadSampleRate,
}

/// How audio is cut up and judged.
#[derive(Debug, Clone, Copy)]
pub struct Config {
    mode: Mode,
    sample_rate: u16,
    sample_size: SampleSize,
    resolution_ms: u32,
}

impl Config {
    /// A window holds at least one frame.
    #[verifier::type_invariant]
    spec fn window_holds_a_frame(self) -> bool {
        self.resolution_ms >= self.sample_size.millis_of()
    }

    pub closed spec fn mode_of(self) -> Mode {
        self.mode
    }

    pub closed spec fn sample_rate_of(self) -> u16 {
        self.sample_rate
    }

    pub closed spec fn sample_size_of(self) -> SampleSize {
        self.sample_size
    }

    /// The length of a window in milliseconds.
    pub closed spec fn resolution_of(self) -> u32 {
        self.resolution_ms
    }

    /// The number of frames in a window.
    pub open spec fn frames_per_window(self) -> int {
        self.resolution_of() as int / self.sample_size_of().millis_of()
    }

    /// The number of samples in a frame.
    pub open spec fn samples_per_buffer(self) -> int {
        self.sample_size_of().millis_of() * self.sample_rate_of() / 1000
    }

    #[must_use]
    pub fn samples_per_frame(&self) -> (n: usize)
        ensures
            n == self.frames_per_window(),
            n >= 1,
    {
        proof {
            use_type_invariant(self);
        }
        (self.resolution_ms / self.sample_size.millis()) as usize
    }

    #[must_use]
    pub fn buffer_size(&self) -> (n: usize)
        ensures
            n == self.samples_per_buffer(),
    {
        (self.sample_size.millis() * (self.sample_rate as u32) / 1000) as usize
    }

    /// The frame of `data` with the given index.
    #[must_use]
    pub fn buffer_from<'a>(&self, index: usize, data: &'a [i16]) -> (b: Buffer<'a>)
        ensures
            b.data@ == data@,
            b.index == index,
            b.size == self.samples_per_buffer(),
    {
        Buffer { index, data, size: self.buffer_size() }
    }
}

impl Default for Config {
    /// Frames of 20 ms at 16 kHz, judged for quality, in windows of 200 ms.
    fn default() -> (c: Self)
        ensures
            c.mode_of() == Mode::Quality,
            c.sample_rate_of() == 16000,
            c.sample_size_of() == SampleSize::Medium,
            c.resolution_of() == 200,
    {
        Config {
            mode: Mode::Quality,
            sample_rate: 16000,
            sample_size: SampleSize::Medium,
            resolution_ms: 200,
        }
    }
}

/// One frame of a run of samples: the frame with index `index` among
/// frames of `size` samples.
pub struct Buffer<'a> {
    pub data: &'a [i16],
    pub size: usize,
    pub index: usize,
}

impl<'a> Buffer<'a> {
    pub fn size(&self) -> (n: usize)
        ensures
            n == self.size,
    {
        self.size
    }

    /// The frame lies within the samples.
    pub open spec fn in_bounds(self) -> bool {
        (self.index + 1) * self.size <= self.data@.len()
    }

    /// The samples of the frame.
    pub fn as_ref(&self) -> (frame: &'a [i16])
        requires
            self.in_bounds(),
        ensures
            frame@ == self.data@.subrange(self.index * self.size, (self.index + 1) * self.size),
    {
        let len: usize = self.data.len();
        proof {
            let i = self.index as int;
            let n = self.size as int;
            assert(i * n <= (i + 1) * n && (i + 1) * n == i * n + n) by (nonlinear_arith)
                requires
                    i >= 0,
                    n >= 0,
            ;
        }
        let start: usize = self.index * self.size;
        let end: usize = start + self.size;
        slice_subrange(self.data, start, end)
    }
}

impl Rate {
    /// The rate in hertz.
    pub open spec fn hertz(self) -> int {
        match self {
            Rate::Rate8kHz => 8000,
            Rate::Rate16kHz => 16000,
            Rate::Rate32kHz => 32000,
            Rate::Rate48kHz => 48000,
        }
    }
}

/// The sample rate in hertz that a detector was made with.
pub uninterp spec fn detector_rate(vad: webrtc_vad::Vad) -> int;

/// A frame of so many samples lasts 10, 20 or 30 milliseconds at the rate.
pub open spec fn frame_fits(hz: int, samples: int) -> bool {
    samples * 1000 == 10 * hz || samples * 1000 == 20 * hz || samples * 1000 == 30 * hz
}

/// A new detector for the given rate and mode
/// (`Vad::new_with_rate_and_mode`). The detector keeps the rate.
#[verifier::external_body]
fn new_vad(rate: Rate, mode: Mode) -> (vad: webrtc_vad::Vad)
    ensures
        detector_rate(vad) == rate.hertz(),
{
    let rate = match rate {
        Rate::Rate8kHz => webrtc_vad::SampleRate::Rate8kHz,
        Rate::Rate16kHz => webrtc_vad::SampleRate::Rate16kHz,
        Rate::Rate32kHz => webrtc_vad::SampleRate::Rate32kHz,
        Rate::Rate48kHz => webrtc_vad::SampleRate::Rate48kHz,
    };
    let mode = match mode {
        Mode::Quality => webrtc_vad::VadMode::Quality,
        Mode::LowBitrate => webrtc_vad::VadMode::LowBitrate,
        Mode::Aggressive => webrtc_vad::VadMode::Aggressive,
        Mode::VeryAggressive => webrtc_vad::VadMode::VeryAggressive,
    };
    webrtc_vad::Vad::new_with_rate_and_mode(rate, mode)
}

/// The detector's decision on one frame (`Vad::is_voice_segment`): speech
/// or no speech for a frame of 10, 20 or 30 milliseconds at the
/// detector's rate, and a refusal for every other frame. Which of the two
/// decisions it is depends on the frames that the detector has seen
/// before, so nothing is claimed of that. The detector keeps its rate. It
/// reads the first sample of the frame, which therefore must exist.
#[verifier::external_body]
fn voice_in(vad: &mut webrtc_vad::Vad, frame: &[i16]) -> (r: Result<bool, ()>)
    requires
        frame@.len() > 0,
    ensures
        detector_rate(*final(vad)) == detector_rate(*old(vad)),
        r is Ok <==> frame_fits(detector_rate(*old(vad)), frame@.len() as int),
{
    vad.is_voice_segment(frame)
}

/// The number of frames with speech in `flags`.
pub open spec fn voiced(flags: Seq<bool>) -> nat
    decreases flags.len(),
{
    if flags.len() == 0 {
        0
    } else {
        voiced(flags.drop_last()) + if flags.last() {
            1nat
        } else {
            0nat
        }
    }
}

/// The number of windows that `frames` frames fill, the last one perhaps in part.
pub open spec fn windows(frames: int, window: int) -> int {
    (frames + window - 1) / window
}

/// The frames of window `k`: `window` frames each, fewer in the last.
pub open spec fn window_of(flags: Seq<bool>, window: int, k: int) -> Seq<bool> {
    flags.subrange(
        k * window,
        if (k + 1) * window <= flags.len() {
            (k + 1) * window
        } else {
            flags.len() as int
        },
    )
}

proof fn lemma_voiced_bound(flags: Seq<bool>)
    ensures
        voiced(flags) <= flags.len(),
    decreases flags.len(),
{
    if flags.len() > 0 {
        lemma_voiced_bound(flags.drop_last());
    }
}

/// Counts, window by window, the frames that hold speech.
pub fn count_voiced(flags: &Vec<bool>, window: usize) -> (counts: Vec<usize>)
    requires
        window >= 1,
    ensures
        counts@.len() == windows(flags@.len() as int, window as int),
        forall|k: int|
            0 <= k < counts@.len() ==> (#[trigger] counts@[k]) == voiced(
                window_of(flags@, window as int, k),
            ),
        forall|k: int| 0 <= k < counts@.len() ==> (#[trigger] counts@[k]) <= window,
{
    let mut counts: Vec<usize> = Vec::new();
    let mut start: usize = 0;
    let ghost w = window as int;
    let ghost n = flags@.len() as int;
    assert(0 * w == 0);
    while start < flags.len()
        invariant
            window >= 1,
            w == window as int,
            n == flags@.len(),
            start <= n,
            start < n ==> start == counts@.len() * w,
            start == n ==> counts@.len() * w >= n && (counts@.len() - 1) * w < n,
            n == 0 ==> counts@.len() == 0,
            forall|k: int|
                0 <= k < counts@.len() ==> (#[trigger] counts@[k]) == voiced(
                    window_of(flags@, w, k),
                ),
            forall|k: int| 0 <= k < counts@.len() ==> (#[trigger] counts@[k]) <= window,
        decreases flags.len() - start,
    {
        let end: usize = if flags.len() - start >= window {
            start + window
        } else {
            flags.len()
        };
        let ghost k = counts@.len() as int;
        proof {
            assert((k + 1) * w == k * w + w) by (nonlinear_arith);
            assert(window_of(flags@, w, k) == flags@.subrange(start as int, end as int));
        }
        let mut count: usize = 0;
        let mut i: usize = start;
        assert(flags@.subrange(start as int, start as int) =~= Seq::<bool>::empty());
        while i < end
            invariant
                start <= i <= end <= flags.len(),
                end - start <= window,
                count == voiced(flags@.subrange(start as int, i as int)),
                count <= i - start,
            decreases end - i,
        {
            proof {
                assert(flags@.subrange(start as int, i + 1).drop_last() =~= flags@.subrange(
                    start as int,
                    i as int,
                ));
            }
            if flags[i] {
                count += 1;
            }
            i += 1;
        }
        counts.push(count);
        start = end;
    }
    proof {
        let c = counts@.len() as int;
        if n > 0 {
            assert((n + w - 1) / w == c) by (nonlinear_arith)
                requires
                    w >= 1,
                    c * w >= n,
                    (c - 1) * w < n,
            ;
        } else {
            assert((0 + w - 1) / w == 0) by (nonlinear_arith)
                requires
                    w >= 1,
            ;
        }
    }
    counts
}

/// The detector's rate for a sample rate in hertz, if it has one.
pub fn rate_for(hz: u16) -> (r: Option<Rate>)
    ensures
        r == rate_of(hz),
{
    if hz == 8000 {
        Some(Rate::Rate8kHz)
    } else if hz == 16000 {
        Some(Rate::Rate16kHz)
    } else if hz == 32000 {
        Some(Rate::Rate32kHz)
    } else if hz == 48000 {
        Some(Rate::Rate48kHz)
    } else {
        None
    }
}

impl Config {
    /// Cuts `input` into frames, asks the detector about each frame in
    /// turn, and counts the frames with speech window by window. Samples
    /// after the last whole frame are left out.
    ///
    /// Detection succeeds exactly where the detector takes the sample
    /// rate: every frame then has a length that the detector accepts.
    /// What the detector says of a frame is not known here: the counts
    /// are those of `count_voiced` on whatever it said.
    pub fn detect_voice(&self, input: &[i16]) -> (r: Result<Vec<usize>, Error>)
        ensures
            r is Ok <==> rate_of(self.sample_rate_of()) is Some,
            r matches Err(e) ==> e == Error::BadSampleRate,
            r matches Ok(counts) ==> exists|flags: Seq<bool>|
                {
                    &&& flags.len() == input@.len() / (self.samples_per_buffer() as nat)
                    &&& counts@.len() == windows(flags.len() as int, self.frames_per_window())
                    &&& forall|k: int|
                        0 <= k < counts@.len() ==> (#[trigger] counts@[k]) == voiced(
                            window_of(flags, self.frames_per_window(), k),
                        )
                },
    {
        let rate = match rate_for(self.sample_rate) {
            Some(rate) => rate,
            None => {
                return Err(Error::BadSampleRate);
            },
        };
        let mut vad = new_vad(rate, self.mode);
        let size: usize = self.buffer_size();
        let ghost hz = rate.hertz();
        assert(frame_fits(hz, size as int));
        let frames: usize = input.len() / size;
        let mut flags: Vec<bool> = Vec::new();
        let mut i: usize = 0;
        while i < frames
            invariant
                i <= frames,
                frames == input@.len() / (size as nat),
                size >= 80,
                size == self.samples_per_buffer(),
                frame_fits(hz, size as int),
                detector_rate(vad) == hz,
                flags@.len() == i,
            decreases frames - i,
        {
            let buffer = self.buffer_from(i, input);
            proof {
                let f = frames as int;
                let n = size as int;
                let len = input@.len() as int;
                assert((i + 1) * n <= len) by (nonlinear_arith)
                    requires
                        i + 1 <= f,
                        f == len / n,
                        n > 0,
                ;
                assert((i + 1) * n - i * n == n) by (nonlinear_arith);
            }
            let frame = buffer.as_ref();
            match voice_in(&mut vad, frame) {
                Ok(flag) => flags.push(flag),
                Err(_) => {
                    // The detector refuses no frame of this length.
                    return Err(Error::Vad);
                },
            }
            i += 1;
        }
        let counts = count_voiced(&flags, self.samples_per_frame());
        Ok(counts)
    }
}

} // verus!
