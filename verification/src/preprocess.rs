//! Per-pixel preprocessing applied before tracing: brightness, contrast and
//! gamma, in that fixed order, each skipped when its setting is the identity.
//!
//! Brightness and contrast are computed exactly in hundredth units:
//! `channel' = clamp(channel + 255*brightness/100)` and
//! `channel' = clamp((channel - 128)*(1 + contrast/100) + 128)`, the clamp
//! taken before the final truncating division so every result lies in 0..=255.
//! The gamma curve `channel' = clamp(255*(channel/255)^(1/gamma))` is not an
//! integer function; it enters as a 256-entry lookup table built by the caller,
//! and the pass is skipped entirely unless gamma differs from 1.00 by more
//! than 0.01. The alpha channel is never touched by any pass.

use vstd::prelude::*;
use crate::settings::ConversionSettings;

verus! {

/// One RGBA pixel.
#[derive(Clone, Copy, Debug, PartialEq, Eq, Structural)]
pub struct Pixel {
    pub r: u8,
    pub g: u8,
    pub b: u8,
    pub a: u8,
}

/// A decoded raster image: row-major pixels, `width * height` of them.
pub struct Image {
    pub width: usize,
    pub height: usize,
    pub pixels: Vec<Pixel>,
}

impl Image {
    /// The pixel buffer covers the stated dimensions exactly.
    pub open spec fn wf(&self) -> bool {
        self.pixels@.len() == self.width * self.height
    }
}

/// Clamp a channel value scaled by 100 into the representable band.
pub open spec fn clamp_scaled(v: int) -> int {
    if v < 0 {
        0
    } else if v > 25500 {
        25500
    } else {
        v
    }
}

/// Brightness: `channel + 255 * brightness/100`, clamped, then truncated.
pub open spec fn bright_chan(c: int, b: int) -> int {
    clamp_scaled(100 * c + 255 * b) / 100
}

/// Contrast: `(channel - 128) * (1 + contrast/100) + 128`, clamped, truncated.
pub open spec fn contrast_chan(c: int, k: int) -> int {
    clamp_scaled((c - 128) * (100 + k) + 12800) / 100
}

/// Every adjusted channel stays inside the valid 0..=255 band.
pub proof fn lemma_adjusted_channel_in_range(c: int, k: int)
    ensures
        0 <= bright_chan(c, k) <= 255,
        0 <= contrast_chan(c, k) <= 255,
{
}

pub open spec fn bright_pixel(p: Pixel, b: int) -> Pixel {
    Pixel {
        r: bright_chan(p.r as int, b) as u8,
        g: bright_chan(p.g as int, b) as u8,
        b: bright_chan(p.b as int, b) as u8,
        a: p.a,
    }
}

pub open spec fn contrast_pixel(p: Pixel, k: int) -> Pixel {
    Pixel {
        r: contrast_chan(p.r as int, k) as u8,
        g: contrast_chan(p.g as int, k) as u8,
        b: contrast_chan(p.b as int, k) as u8,
        a: p.a,
    }
}

/// The gamma curve applied through a 256-entry table.
pub open spec fn table_pixel(p: Pixel, t: Seq<u8>) -> Pixel {
    Pixel { r: t[p.r as int], g: t[p.g as int], b: t[p.b as int], a: p.a }
}

pub open spec fn map_bright(ps: Seq<Pixel>, b: int) -> Seq<Pixel> {
    ps.map_values(|p: Pixel| bright_pixel(p, b))
}

pub open spec fn map_contrast(ps: Seq<Pixel>, k: int) -> Seq<Pixel> {
    ps.map_values(|p: Pixel| contrast_pixel(p, k))
}

pub open spec fn map_table(ps: Seq<Pixel>, t: Seq<u8>) -> Seq<Pixel> {
    ps.map_values(|p: Pixel| table_pixel(p, t))
}

/// The gamma pass runs only when gamma differs from 1.00 by more than 0.01.
pub open spec fn gamma_pass_applies(gamma_centi: int) -> bool {
    gamma_centi < 99 || gamma_centi > 101
}

/// The whole pipeline on a pixel sequence: brightness, then contrast, then
/// gamma, each pass skipped at its identity setting.
pub open spec fn spec_preprocess(ps: Seq<Pixel>, s: ConversionSettings, t: Seq<u8>) -> Seq<Pixel> {
    let p1 = if s.brightness != 0 {
        map_bright(ps, s.brightness as int)
    } else {
        ps
    };
    let p2 = if s.contrast != 0 {
        map_contrast(p1, s.contrast as int)
    } else {
        p1
    };
    if gamma_pass_applies(s.gamma_centi as int) {
        map_table(p2, t)
    } else {
        p2
    }
}

fn bright_value(c: u8, b: i8) -> (r: u8)
    ensures
        r as int == bright_chan(c as int, b as int),
{
    let v: i32 = 100 * (c as i32) + 255 * (b as i32);
    let v: i32 = if v < 0 {
        0
    } else if v > 25500 {
        25500
    } else {
        v
    };
    (v / 100) as u8
}

fn contrast_value(c: u8, k: i8) -> (r: u8)
    ensures
        r as int == contrast_chan(c as int, k as int),
{
    let d: i32 = (c as i32) - 128;
    let m: i32 = 100 + (k as i32);
    proof {
        assert(-29056 <= d as int * m as int <= 28829) by (nonlinear_arith)
            requires
                -128 <= d as int <= 127,
                -28 <= m as int <= 227,
        ;
    }
    let v: i32 = d * m + 12800;
    let v: i32 = if v < 0 {
        0
    } else if v > 25500 {
        25500
    } else {
        v
    };
    (v / 100) as u8
}

/// Brightness pass over a fresh buffer; the input is never mutated.
pub fn adjust_brightness(img: &Image, brightness: i8) -> (out: Image)
    requires
        img.wf(),
    ensures
        out.width == img.width,
        out.height == img.height,
        out.pixels@ == map_bright(img.pixels@, brightness as int),
        out.wf(),
{
    let mut pixels: Vec<Pixel> = Vec::new();
    let n = img.pixels.len();
    let mut i: usize = 0;
    while i < n
        invariant
            n == img.pixels@.len(),
            i <= n,
            pixels@.len() == i,
            forall|j: int| 0 <= j < i ==> pixels@[j] == bright_pixel(img.pixels@[j], brightness as int),
        decreases n - i,
    {
        let p = img.pixels[i];
        pixels.push(Pixel {
            r: bright_value(p.r, brightness),
            g: bright_value(p.g, brightness),
            b: bright_value(p.b, brightness),
            a: p.a,
        });
        i = i + 1;
    }
    proof {
        assert(pixels@ =~= map_bright(img.pixels@, brightness as int));
    }
    Image { width: img.width, height: img.height, pixels }
}

/// Contrast pass over a fresh buffer; the input is never mutated.
pub fn adjust_contrast(img: &Image, contrast: i8) -> (out: Image)
    requires
        img.wf(),
    ensures
        out.width == img.width,
        out.height == img.height,
        out.pixels@ == map_contrast(img.pixels@, contrast as int),
        out.wf(),
{
    let mut pixels: Vec<Pixel> = Vec::new();
    let n = img.pixels.len();
    let mut i: usize = 0;
    while i < n
        invariant
            n == img.pixels@.len(),
            i <= n,
            pixels@.len() == i,
            forall|j: int| 0 <= j < i ==> pixels@[j] == contrast_pixel(img.pixels@[j], contrast as int),
        decreases n - i,
    {
        let p = img.pixels[i];
        pixels.push(Pixel {
            r: contrast_value(p.r, contrast),
            g: contrast_value(p.g, contrast),
            b: contrast_value(p.b, contrast),
            a: p.a,
        });
        i = i + 1;
    }
    proof {
        assert(pixels@ =~= map_contrast(img.pixels@, contrast as int));
    }
    Image { width: img.width, height: img.height, pixels }
}

/// Gamma pass: each color channel goes through the 256-entry curve table;
/// alpha is copied through.
pub fn adjust_gamma(img: &Image, table: &Vec<u8>) -> (out: Image)
    requires
        img.wf(),
        table@.len() == 256,
    ensures
        out.width == img.width,
        out.height == img.height,
        out.pixels@ == map_table(img.pixels@, table@),
        out.wf(),
{
    let mut pixels: Vec<Pixel> = Vec::new();
    let n = img.pixels.len();
    let mut i: usize = 0;
    while i < n
        invariant
            n == img.pixels@.len(),
            i <= n,
            table@.len() == 256,
            pixels@.len() == i,
            forall|j: int| 0 <= j < i ==> pixels@[j] == table_pixel(img.pixels@[j], table@),
        decreases n - i,
    {
        let p = img.pixels[i];
        pixels.push(Pixel {
            r: table[p.r as usize],
            g: table[p.g as usize],
            b: table[p.b as usize],
            a: p.a,
        });
        i = i + 1;
    }
    proof {
        assert(pixels@ =~= map_table(img.pixels@, table@));
    }
    Image { width: img.width, height: img.height, pixels }
}

/// The full preprocessing pipeline. `gamma_table` is the 256-entry gamma
/// curve for `s.gamma_centi`, built by the caller; it is consulted only when
/// the gamma pass applies.
pub fn preprocess_image(img: &Image, s: &ConversionSettings, gamma_table: &Vec<u8>) -> (out: Image)
    requires
        img.wf(),
        gamma_table@.len() == 256,
    ensures
        out.width == img.width,
        out.height == img.height,
        out.pixels@ == spec_preprocess(img.pixels@, *s, gamma_table@),
        out.wf(),
{
    let mut out = Image {
        width: img.width,
        height: img.height,
        pixels: img.pixels.clone(),
    };
    proof {
        assert(out.pixels@ =~= img.pixels@);
    }
    if s.brightness != 0 {
        out = adjust_brightness(&out, s.brightness);
    }
    if s.contrast != 0 {
        out = adjust_contrast(&out, s.contrast);
    }
    if s.gamma_centi < 99 || s.gamma_centi > 101 {
        out = adjust_gamma(&out, gamma_table);
    }
    out
}

/// With brightness 0, contrast 0 and gamma within 0.01 of 1.00, the pipeline
/// is the identity transform: the output equals the input.
pub proof fn lemma_preprocess_identity(ps: Seq<Pixel>, s: ConversionSettings, t: Seq<u8>)
    requires
        s.brightness == 0,
        s.contrast == 0,
        99 <= s.gamma_centi <= 101,
    ensures
        spec_preprocess(ps, s, t) == ps,
{
}

/// Preprocessing is deterministic: two outputs produced from the same pixels,
/// settings and gamma table are equal.
pub proof fn lemma_preprocess_deterministic(
    out1: Seq<Pixel>,
    out2: Seq<Pixel>,
    ps: Seq<Pixel>,
    s: ConversionSettings,
    t: Seq<u8>,
)
    requires
        out1 == spec_preprocess(ps, s, t),
        out2 == spec_preprocess(ps, s, t),
    ensures
        out1 == out2,
{
}

/// The pipeline keeps the pixel count and never changes the alpha channel;
/// color channels, being bytes clamped by every pass, stay inside 0..=255.
pub proof fn lemma_preprocess_alpha_unchanged(ps: Seq<Pixel>, s: ConversionSettings, t: Seq<u8>)
    requires
        t.len() == 256,
    ensures
        spec_preprocess(ps, s, t).len() == ps.len(),
        forall|i: int| 0 <= i < ps.len() ==> #[trigger] spec_preprocess(ps, s, t)[i].a == ps[i].a,
{
    let p1 = if s.brightness != 0 {
        map_bright(ps, s.brightness as int)
    } else {
        ps
    };
    let p2 = if s.contrast != 0 {
        map_contrast(p1, s.contrast as int)
    } else {
        p1
    };
    assert(p1.len() == ps.len());
    assert(p2.len() == ps.len());
    assert(forall|i: int| 0 <= i < ps.len() ==> #[trigger] p1[i].a == ps[i].a);
    assert(forall|i: int| 0 <= i < ps.len() ==> #[trigger] p2[i].a == p1[i].a);
}

} // verus!
