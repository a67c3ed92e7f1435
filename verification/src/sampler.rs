//! PixelSampler: extracts a brightness metric from one raw frame buffer,
//! given an explicit descriptor of where the luma byte of each sample lives.

use vstd::prelude::*;

verus! {

/// Where the luma byte of each sample sits in the raw frame: each sample
/// occupies `bytes_per_sample` consecutive bytes, with the luminance at
/// `luma_offset` within them. The interleaved chroma bytes are ignored.
#[derive(Clone, Copy, PartialEq, Eq, Structural, Debug)]
pub struct PixelFormat {
    pub bytes_per_sample: usize,
    pub luma_offset: usize,
}

impl PixelFormat {
    pub open spec fn wf(self) -> bool {
        &&& self.bytes_per_sample >= 1
        &&& self.luma_offset < self.bytes_per_sample
    }

    /// The packed luma/chroma layout the capture streams use: two bytes per
    /// sample, luminance first.
    pub fn yuyv() -> (f: PixelFormat)
        ensures
            f == (PixelFormat { bytes_per_sample: 2, luma_offset: 0 }),
            f.wf(),
    {
        PixelFormat { bytes_per_sample: 2, luma_offset: 0 }
    }
}

/// The luma byte of sample `i` of a raw frame.
pub open spec fn luma_at(frame: Seq<u8>, fmt: PixelFormat, i: int) -> u8 {
    frame[i * fmt.bytes_per_sample + fmt.luma_offset]
}

/// How many of the first `n` luma samples are strictly brighter than
/// `threshold`.
pub open spec fn bright_count(frame: Seq<u8>, fmt: PixelFormat, n: nat, threshold: u8) -> nat
    decreases n,
{
    if n == 0 {
        0
    } else {
        bright_count(frame, fmt, (n - 1) as nat, threshold) + if luma_at(
            frame,
            fmt,
            n - 1,
        ) > threshold {
            1nat
        } else {
            0nat
        }
    }
}

/// No more samples are bright than there are samples.
pub proof fn lemma_bright_count_le(frame: Seq<u8>, fmt: PixelFormat, n: nat, threshold: u8)
    ensures
        bright_count(frame, fmt, n, threshold) <= n,
    decreases n,
{
    if n > 0 {
        lemma_bright_count_le(frame, fmt, (n - 1) as nat, threshold);
    }
}

/// On a frame whose luma samples all equal `v`, the brightness count is the
/// whole sample count when `v` exceeds the threshold, and zero otherwise.
pub proof fn lemma_uniform_frame_count(
    frame: Seq<u8>,
    fmt: PixelFormat,
    n: nat,
    threshold: u8,
    v: u8,
)
    requires
        forall|i: int| 0 <= i < n ==> luma_at(frame, fmt, i) == v,
    ensures
        bright_count(frame, fmt, n, threshold) == if v > threshold {
            n
        } else {
            0nat
        },
    decreases n,
{
    if n > 0 {
        lemma_uniform_frame_count(frame, fmt, (n - 1) as nat, threshold, v);
    }
}

/// Counts the luma samples of one frame that are strictly brighter than
/// `threshold`, visiting exactly `width * height` samples in row-major order.
pub fn brightness_count(
    frame: &Vec<u8>,
    width: usize,
    height: usize,
    threshold: u8,
    fmt: PixelFormat,
) -> (count: usize)
    requires
        fmt.wf(),
        width * height * fmt.bytes_per_sample <= frame@.len(),
    ensures
        count == bright_count(frame@, fmt, (width * height) as nat, threshold),
        count <= width * height,
{
    proof {
        assert(frame@.len() == frame.len());
        assert(width * height <= width * height * fmt.bytes_per_sample) by (nonlinear_arith)
            requires
                fmt.bytes_per_sample >= 1,
        ;
    }
    let samples = width * height;
    let mut count: usize = 0;
    let mut i: usize = 0;
    while i < samples
        invariant
            i <= samples,
            samples == width * height,
            fmt.wf(),
            samples * fmt.bytes_per_sample <= frame@.len(),
            frame@.len() <= usize::MAX,
            count == bright_count(frame@, fmt, i as nat, threshold),
            count <= i,
        decreases samples - i,
    {
        assert(i * fmt.bytes_per_sample + fmt.luma_offset < samples * fmt.bytes_per_sample)
            by (nonlinear_arith)
            requires
                i < samples,
                fmt.luma_offset < fmt.bytes_per_sample,
        ;
        let offset = i * fmt.bytes_per_sample + fmt.luma_offset;
        let v = frame[offset];
        if v > threshold {
            count += 1;
        }
        i += 1;
    }
    count
}

/// One pixel of the annotated preview image.
#[derive(Clone, Copy, PartialEq, Eq, Structural, Debug)]
pub struct Rgb8 {
    pub r: u8,
    pub g: u8,
    pub b: u8,
}

/// How the preview paints one sample: bright samples are highlighted in red,
/// the rest show their luminance as a gray value.
pub open spec fn annotated_pixel(v: u8, threshold: u8) -> Rgb8 {
    if v > threshold {
        Rgb8 { r: 255, g: 0, b: 0 }
    } else {
        Rgb8 { r: v, g: v, b: v }
    }
}

/// Renders the preview annotation of one frame: one pixel per luma sample, in
/// row-major order, highlighted exactly where the sample is brighter than
/// `threshold`.
pub fn annotate_frame(
    frame: &Vec<u8>,
    width: usize,
    height: usize,
    threshold: u8,
    fmt: PixelFormat,
) -> (pixels: Vec<Rgb8>)
    requires
        fmt.wf(),
        width * height * fmt.bytes_per_sample <= frame@.len(),
    ensures
        pixels@.len() == width * height,
        forall|i: int|
            0 <= i < width * height ==> pixels@[i] == annotated_pixel(
                luma_at(frame@, fmt, i),
                threshold,
            ),
{
    proof {
        assert(frame@.len() == frame.len());
        assert(width * height <= width * height * fmt.bytes_per_sample) by (nonlinear_arith)
            requires
                fmt.bytes_per_sample >= 1,
        ;
    }
    let samples = width * height;
    let mut pixels: Vec<Rgb8> = Vec::new();
    let mut i: usize = 0;
    while i < samples
        invariant
            i <= samples,
            samples == width * height,
            fmt.wf(),
            samples * fmt.bytes_per_sample <= frame@.len(),
            frame@.len() <= usize::MAX,
            pixels@.len() == i,
            forall|j: int|
                0 <= j < i ==> pixels@[j] == annotated_pixel(luma_at(frame@, fmt, j), threshold),
        decreases samples - i,
    {
        assert(i * fmt.bytes_per_sample + fmt.luma_offset < samples * fmt.bytes_per_sample)
            by (nonlinear_arith)
            requires
                i < samples,
                fmt.luma_offset < fmt.bytes_per_sample,
        ;
        let offset = i * fmt.bytes_per_sample + fmt.luma_offset;
        let v = frame[offset];
        if v > threshold {
            pixels.push(Rgb8 { r: 255, g: 0, b: 0 });
        } else {
            pixels.push(Rgb8 { r: v, g: v, b: v });
        }
        i += 1;
    }
    pixels
}

} // verus!
