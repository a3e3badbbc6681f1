//! The settings model: a fully populated, validated record of conversion
//! parameters, and its parser for the untrusted JSON settings payload.
//!
//! Every field has a documented default; a field omitted from the payload,
//! or set to `null`, keeps its default. Unknown members are ignored whatever
//! the shape of their value. A payload whose shape is malformed (not a JSON
//! object, a known field of the wrong type, an out-of-range integer) makes
//! the whole parse fall back to the all-default settings; the caller learns
//! which path was taken from the second component of `settings_or_default`.
//! The mode strings are compared as raw bytes: an escaped spelling of
//! "monochrome" or "polygon" is a different string and selects the other
//! mode, exactly as the contracts state.

use vstd::prelude::*;
use vstd::string::*;

verus! {

/// Output mode of the produced vector document.
#[derive(Clone, Copy, Debug, PartialEq, Eq, Structural)]
pub enum OutputMode {
    Monochrome,
    Color,
}

/// Path style of the produced vector document.
#[derive(Clone, Copy, Debug, PartialEq, Eq, Structural)]
pub enum CurveMode {
    Spline,
    Polygon,
}

/// Conversion parameters, fully populated. `gamma_centi` carries the gamma
/// value in hundredths (100 = identity), so that the record stays in exact
/// integer arithmetic.
#[derive(Clone, Copy, Debug, PartialEq, Eq, Structural)]
pub struct ConversionSettings {
    pub output_mode: OutputMode,
    pub threshold: u8,
    pub color_count: u8,
    pub smoothing: u8,
    pub path_simplification: u8,
    pub noise_reduction: u8,
    pub background_transparency: bool,
    pub brightness: i8,
    pub contrast: i8,
    pub gamma_centi: u32,
    pub corner_threshold: u8,
    pub curve_mode: CurveMode,
}

/// The documented default for every field.
pub open spec fn spec_default_settings() -> ConversionSettings {
    ConversionSettings {
        output_mode: OutputMode::Monochrome,
        threshold: 128,
        color_count: 8,
        smoothing: 5,
        path_simplification: 5,
        noise_reduction: 4,
        background_transparency: false,
        brightness: 0,
        contrast: 0,
        gamma_centi: 100,
        corner_threshold: 60,
        curve_mode: CurveMode::Spline,
    }
}

impl Default for ConversionSettings {
    fn default() -> (r: Self)
        ensures
            r == spec_default_settings(),
    {
        ConversionSettings {
            output_mode: OutputMode::Monochrome,
            threshold: 128,
            color_count: 8,
            smoothing: 5,
            path_simplification: 5,
            noise_reduction: 4,
            background_transparency: false,
            brightness: 0,
            contrast: 0,
            gamma_centi: 100,
            corner_threshold: 60,
            curve_mode: CurveMode::Spline,
        }
    }
}


/// Fields read from the payload so far; `None` is an omitted field.
#[derive(Clone, Copy, Debug)]
pub struct PartialSettings {
    pub output_mode: Option<OutputMode>,
    pub threshold: Option<u8>,
    pub color_count: Option<u8>,
    pub smoothing: Option<u8>,
    pub path_simplification: Option<u8>,
    pub noise_reduction: Option<u8>,
    pub background_transparency: Option<bool>,
    pub brightness: Option<i8>,
    pub contrast: Option<i8>,
    pub gamma_centi: Option<u32>,
    pub corner_threshold: Option<u8>,
    pub curve_mode: Option<CurveMode>,
}

pub open spec fn spec_empty_partial() -> PartialSettings {
    PartialSettings {
        output_mode: None,
        threshold: None,
        color_count: None,
        smoothing: None,
        path_simplification: None,
        noise_reduction: None,
        background_transparency: None,
        brightness: None,
        contrast: None,
        gamma_centi: None,
        corner_threshold: None,
        curve_mode: None,
    }
}

/// Every omitted field takes its documented default.
pub open spec fn spec_finalize(p: PartialSettings) -> ConversionSettings {
    ConversionSettings {
        output_mode: if p.output_mode is Some { p.output_mode.unwrap() } else { OutputMode::Monochrome },
        threshold: if p.threshold is Some { p.threshold.unwrap() } else { 128 },
        color_count: if p.color_count is Some { p.color_count.unwrap() } else { 8 },
        smoothing: if p.smoothing is Some { p.smoothing.unwrap() } else { 5 },
        path_simplification: if p.path_simplification is Some { p.path_simplification.unwrap() } else { 5 },
        noise_reduction: if p.noise_reduction is Some { p.noise_reduction.unwrap() } else { 4 },
        background_transparency: if p.background_transparency is Some { p.background_transparency.unwrap() } else { false },
        brightness: if p.brightness is Some { p.brightness.unwrap() } else { 0 },
        contrast: if p.contrast is Some { p.contrast.unwrap() } else { 0 },
        gamma_centi: if p.gamma_centi is Some { p.gamma_centi.unwrap() } else { 100 },
        corner_threshold: if p.corner_threshold is Some { p.corner_threshold.unwrap() } else { 60 },
        curve_mode: if p.curve_mode is Some { p.curve_mode.unwrap() } else { CurveMode::Spline },
    }
}

/// A field omitted from the payload keeps its documented default: for every
/// field, if the payload's object carries no member of that name (so the
/// field was never set), the finalized settings hold the default value.
pub proof fn lemma_omitted_fields_default(p: PartialSettings)
    ensures
        p.output_mode is None ==> spec_finalize(p).output_mode == spec_default_settings().output_mode,
        p.threshold is None ==> spec_finalize(p).threshold == spec_default_settings().threshold,
        p.color_count is None ==> spec_finalize(p).color_count == spec_default_settings().color_count,
        p.smoothing is None ==> spec_finalize(p).smoothing == spec_default_settings().smoothing,
        p.path_simplification is None ==> spec_finalize(p).path_simplification == spec_default_settings().path_simplification,
        p.noise_reduction is None ==> spec_finalize(p).noise_reduction == spec_default_settings().noise_reduction,
        p.background_transparency is None ==> spec_finalize(p).background_transparency == spec_default_settings().background_transparency,
        p.brightness is None ==> spec_finalize(p).brightness == spec_default_settings().brightness,
        p.contrast is None ==> spec_finalize(p).contrast == spec_default_settings().contrast,
        p.gamma_centi is None ==> spec_finalize(p).gamma_centi == spec_default_settings().gamma_centi,
        p.corner_threshold is None ==> spec_finalize(p).corner_threshold == spec_default_settings().corner_threshold,
        p.curve_mode is None ==> spec_finalize(p).curve_mode == spec_default_settings().curve_mode,
{
}

/// A scanned scalar value of the payload. String values are kept as the
/// byte span of their raw content.
#[derive(Clone, Copy, Debug)]
pub enum JVal {
    Null,
    Bool(bool),
    /// A number in hundredths, sign included.
    Num(i64),
    Str(usize, usize),
}

pub open spec fn is_ws(b: u8) -> bool {
    b == 32 || b == 9 || b == 10 || b == 13
}

pub open spec fn is_digit(b: u8) -> bool {
    48 <= b <= 57
}

pub open spec fn spec_skip_ws(s: Seq<u8>, i: int) -> int
    decreases s.len() - i,
{
    if 0 <= i < s.len() && is_ws(s[i]) {
        spec_skip_ws(s, i + 1)
    } else {
        i
    }
}

fn skip_ws(s: &Vec<u8>, i: usize) -> (r: usize)
    requires
        i <= s@.len(),
    ensures
        r as int == spec_skip_ws(s@, i as int),
        i <= r <= s@.len(),
    decreases s@.len() - i,
{
    if i < s.len() {
        let b = s[i];
        if b == 32 || b == 9 || b == 10 || b == 13 {
            return skip_ws(s, i + 1);
        }
    }
    i
}

/// Position of the closing quote of a string whose content starts at `i`;
/// a backslash skips the following byte.
pub open spec fn spec_scan_str(s: Seq<u8>, i: int) -> Option<int>
    decreases s.len() - i,
{
    if i < 0 || i >= s.len() {
        None
    } else if s[i] == 34 {
        Some(i)
    } else if s[i] == 92 {
        if i + 1 < s.len() {
            spec_scan_str(s, i + 2)
        } else {
            None
        }
    } else {
        spec_scan_str(s, i + 1)
    }
}

fn scan_str(s: &Vec<u8>, i: usize) -> (r: Option<usize>)
    requires
        i <= s@.len(),
    ensures
        (match r {
            Some(e) => spec_scan_str(s@, i as int) == Some(e as int) && i <= e < s@.len(),
            None => spec_scan_str(s@, i as int) is None,
        }),
    decreases s@.len() - i,
{
    if i >= s.len() {
        return None;
    }
    let b = s[i];
    if b == 34 {
        Some(i)
    } else if b == 92 {
        if i + 1 < s.len() {
            scan_str(s, i + 2)
        } else {
            None
        }
    } else {
        scan_str(s, i + 1)
    }
}

/// Accumulate decimal digits; more than seven figures make the payload
/// malformed rather than silently wrapping.
pub open spec fn spec_digits(s: Seq<u8>, i: int, acc: int) -> Option<(int, int)>
    decreases s.len() - i,
{
    if 0 <= i < s.len() && is_digit(s[i]) {
        let a2 = acc * 10 + (s[i] - 48);
        if a2 > 10000000 {
            None
        } else {
            spec_digits(s, i + 1, a2)
        }
    } else {
        Some((acc, i))
    }
}

fn parse_digits(s: &Vec<u8>, i: usize, acc: u32) -> (r: Option<(u32, usize)>)
    requires
        i <= s@.len(),
        acc <= 10000000,
    ensures
        (match r {
            Some((a, p)) => spec_digits(s@, i as int, acc as int) == Some((a as int, p as int))
                && i <= p <= s@.len() && a <= 10000000,
            None => spec_digits(s@, i as int, acc as int) is None,
        }),
    decreases s@.len() - i,
{
    if i < s.len() {
        let b = s[i];
        if 48 <= b && b <= 57 {
            let a2: u32 = acc * 10 + ((b - 48) as u32);
            if a2 > 10000000 {
                return None;
            }
            return parse_digits(s, i + 1, a2);
        }
    }
    Some((acc, i))
}

pub open spec fn spec_skip_digits(s: Seq<u8>, i: int) -> int
    decreases s.len() - i,
{
    if 0 <= i < s.len() && is_digit(s[i]) {
        spec_skip_digits(s, i + 1)
    } else {
        i
    }
}

fn skip_digits(s: &Vec<u8>, i: usize) -> (r: usize)
    requires
        i <= s@.len(),
    ensures
        r as int == spec_skip_digits(s@, i as int),
        i <= r <= s@.len(),
    decreases s@.len() - i,
{
    if i < s.len() {
        let b = s[i];
        if 48 <= b && b <= 57 {
            return skip_digits(s, i + 1);
        }
    }
    i
}

/// The fraction after the decimal point, truncated to hundredths; at least
/// one digit is required.
pub open spec fn spec_frac(s: Seq<u8>, i: int) -> Option<(int, int)> {
    if 0 <= i < s.len() && is_digit(s[i]) {
        let d1 = (s[i] - 48) as int;
        if i + 1 < s.len() && is_digit(s[i + 1]) {
            let d2 = (s[i + 1] - 48) as int;
            Some((d1 * 10 + d2, spec_skip_digits(s, i + 2)))
        } else {
            Some((d1 * 10, i + 1))
        }
    } else {
        None
    }
}

fn parse_frac(s: &Vec<u8>, i: usize) -> (r: Option<(u32, usize)>)
    requires
        i <= s@.len(),
    ensures
        (match r {
            Some((f, p)) => spec_frac(s@, i as int) == Some((f as int, p as int)) && i < p
                <= s@.len() && f < 100,
            None => spec_frac(s@, i as int) is None,
        }),
{
    if i < s.len() {
        let b = s[i];
        if 48 <= b && b <= 57 {
            let d1: u32 = (b - 48) as u32;
            if i + 1 < s.len() {
                let b2 = s[i + 1];
                if 48 <= b2 && b2 <= 57 {
                    let d2: u32 = (b2 - 48) as u32;
                    let p = skip_digits(s, i + 2);
                    return Some((d1 * 10 + d2, p));
                }
            }
            return Some((d1 * 10, i + 1));
        }
    }
    None
}

/// A signed decimal number in hundredth units. Exponent notation is not
/// part of the flat settings schema and makes the payload malformed.
pub open spec fn spec_number(s: Seq<u8>, i: int) -> Option<(int, int)> {
    let neg = 0 <= i < s.len() && s[i] == 45;
    let i0 = if neg {
        i + 1
    } else {
        i
    };
    if !(0 <= i0 < s.len() && is_digit(s[i0])) {
        None
    } else {
        match spec_digits(s, i0, 0) {
            None => None,
            Some((whole, p)) => {
                let fr = if p < s.len() && s[p] == 46 {
                    spec_frac(s, p + 1)
                } else {
                    Some((0, p))
                };
                match fr {
                    None => None,
                    Some((f, p2)) => if p2 < s.len() && (s[p2] == 101 || s[p2] == 69) {
                        None
                    } else {
                        let c = whole * 100 + f;
                        Some(((if neg { -c } else { c }), p2))
                    },
                }
            },
        }
    }
}

fn parse_number(s: &Vec<u8>, i: usize) -> (r: Option<(i64, usize)>)
    requires
        i <= s@.len(),
    ensures
        (match r {
            Some((c, p)) => spec_number(s@, i as int) == Some((c as int, p as int)) && i <= p
                <= s@.len(),
            None => spec_number(s@, i as int) is None,
        }),
{
    let neg = i < s.len() && s[i] == 45;
    let i0: usize = if neg {
        i + 1
    } else {
        i
    };
    if !(i0 < s.len() && 48 <= s[i0] && s[i0] <= 57) {
        return None;
    }
    match parse_digits(s, i0, 0) {
        None => None,
        Some((whole, p)) => {
            let fr: Option<(u32, usize)> = if p < s.len() && s[p] == 46 {
                parse_frac(s, p + 1)
            } else {
                Some((0, p))
            };
            match fr {
                None => None,
                Some((f, p2)) => {
                    if p2 < s.len() && (s[p2] == 101 || s[p2] == 69) {
                        return None;
                    }
                    let c: i64 = (whole as i64) * 100 + (f as i64);
                    if neg {
                        Some((-c, p2))
                    } else {
                        Some((c, p2))
                    }
                },
            }
        },
    }
}

/// One scalar JSON value, for the known settings members, whose schema is
/// flat: an array or a nested object in a known field makes the payload
/// malformed. (An unknown member's value is passed over by the skip
/// functions above, whatever its shape.)
pub open spec fn spec_value(s: Seq<u8>, i: int) -> Option<(JVal, int)> {
    if i < 0 || i >= s.len() {
        None
    } else if s[i] == 34 {
        match spec_scan_str(s, i + 1) {
            Some(e) => Some((JVal::Str((i + 1) as usize, e as usize), e + 1)),
            None => None,
        }
    } else if s[i] == 116 {
        if i + 3 < s.len() && s[i + 1] == 114 && s[i + 2] == 117 && s[i + 3] == 101 {
            Some((JVal::Bool(true), i + 4))
        } else {
            None
        }
    } else if s[i] == 102 {
        if i + 4 < s.len() && s[i + 1] == 97 && s[i + 2] == 108 && s[i + 3] == 115 && s[i + 4]
            == 101 {
            Some((JVal::Bool(false), i + 5))
        } else {
            None
        }
    } else if s[i] == 110 {
        if i + 3 < s.len() && s[i + 1] == 117 && s[i + 2] == 108 && s[i + 3] == 108 {
            Some((JVal::Null, i + 4))
        } else {
            None
        }
    } else if s[i] == 45 || is_digit(s[i]) {
        match spec_number(s, i) {
            Some((c, p)) => Some((JVal::Num(c as i64), p)),
            None => None,
        }
    } else {
        None
    }
}

fn parse_value(s: &Vec<u8>, i: usize) -> (r: Option<(JVal, usize)>)
    requires
        i <= s@.len(),
    ensures
        (match r {
            Some((v, p)) => spec_value(s@, i as int) == Some((v, p as int)) && i <= p
                <= s@.len() && (v matches JVal::Str(a, b) ==> a <= b <= s@.len()),
            None => spec_value(s@, i as int) is None,
        }),
{
    if i >= s.len() {
        return None;
    }
    let b = s[i];
    if b == 34 {
        match scan_str(s, i + 1) {
            Some(e) => Some((JVal::Str(i + 1, e), e + 1)),
            None => None,
        }
    } else if b == 116 {
        if s.len() - i > 3 && s[i + 1] == 114 && s[i + 2] == 117 && s[i + 3] == 101 {
            Some((JVal::Bool(true), i + 4))
        } else {
            None
        }
    } else if b == 102 {
        if s.len() - i > 4 && s[i + 1] == 97 && s[i + 2] == 108 && s[i + 3] == 115 && s[i + 4]
            == 101 {
            Some((JVal::Bool(false), i + 5))
        } else {
            None
        }
    } else if b == 110 {
        if s.len() - i > 3 && s[i + 1] == 117 && s[i + 2] == 108 && s[i + 3] == 108 {
            Some((JVal::Null, i + 4))
        } else {
            None
        }
    } else if b == 45 || (48 <= b && b <= 57) {
        match parse_number(s, i) {
            Some((c, p)) => Some((JVal::Num(c), p)),
            None => None,
        }
    } else {
        None
    }
}

fn span_eq(s: &Vec<u8>, a: usize, b: usize, lit: &[u8]) -> (r: bool)
    requires
        a <= b <= s@.len(),
    ensures
        r == (s@.subrange(a as int, b as int) == lit@),
{
    if b - a != lit.len() {
        proof {
            assert(s@.subrange(a as int, b as int).len() != lit@.len());
        }
        return false;
    }
    let n = b - a;
    let mut k: usize = 0;
    while k < n
        invariant
            a <= b <= s@.len(),
            n == b - a,
            n == lit@.len(),
            k <= n,
            forall|t: int| 0 <= t < k ==> s@[a + t] == lit@[t],
        decreases n - k,
    {
        if s[a + k] != lit[k] {
            proof {
                assert(s@.subrange(a as int, b as int)[k as int] == s@[a + k]);
            }
            return false;
        }
        k = k + 1;
    }
    proof {
        assert(s@.subrange(a as int, b as int) =~= lit@);
    }
    true
}

pub open spec fn spec_u8_centi(c: int) -> Option<u8> {
    if c % 100 == 0 && 0 <= c <= 25500 {
        Some((c / 100) as u8)
    } else {
        None
    }
}

fn u8_from_centi(c: i64) -> (r: Option<u8>)
    ensures
        r == spec_u8_centi(c as int),
{
    if 0 <= c && c <= 25500 && c % 100 == 0 {
        Some((c / 100) as u8)
    } else {
        None
    }
}

pub open spec fn spec_i8_centi(c: int) -> Option<i8> {
    if c % 100 == 0 && -12800 <= c <= 12700 {
        Some((c / 100) as i8)
    } else {
        None
    }
}

fn i8_from_centi(c: i64) -> (r: Option<i8>)
    ensures
        r == spec_i8_centi(c as int),
{
    if c < -12800 || c > 12700 {
        return None;
    }
    if c >= 0 {
        if c % 100 == 0 {
            Some((c / 100) as i8)
        } else {
            None
        }
    } else {
        let m: i64 = -c;
        if m % 100 == 0 {
            let q: i64 = m / 100;
            proof {
                assert(c as int % 100 == 0);
                assert(c as int / 100 == -(q as int));
            }
            Some((-q) as i8)
        } else {
            proof {
                assert(c as int % 100 != 0);
            }
            None
        }
    }
}

/// Gamma is fail-soft: any number is clamped into 0.01 ..= 10000.00.
pub open spec fn spec_gamma_clamp(c: int) -> u32 {
    if c < 1 {
        1u32
    } else if c > 1000000 {
        1000000u32
    } else {
        c as u32
    }
}

fn gamma_clamp(c: i64) -> (r: u32)
    ensures
        r == spec_gamma_clamp(c as int),
{
    if c < 1 {
        1
    } else if c > 1000000 {
        1000000
    } else {
        c as u32
    }
}

/// Apply one known member to the partial settings. A `null` value leaves
/// the field absent (it keeps its default); a value of the wrong shape makes
/// the payload malformed. The mode strings, compared raw: "monochrome"
/// selects monochrome, any other string the color mode; "polygon" selects
/// polygon paths, any other string splines.
pub open spec fn spec_apply(s: Seq<u8>, ks: int, ke: int, v: JVal, p: PartialSettings) -> Option<
    PartialSettings,
> {
    let key = s.subrange(ks, ke);
    if key == "output_mode".spec_bytes() {
        match v {
            JVal::Str(a, b) => Some(
                PartialSettings {
                    output_mode: Some(
                        if s.subrange(a as int, b as int) == "monochrome".spec_bytes() {
                            OutputMode::Monochrome
                        } else {
                            OutputMode::Color
                        },
                    ),
                    ..p
                },
            ),
            JVal::Null => Some(p),
            _ => None,
        }
    } else if key == "threshold".spec_bytes() {
        match v {
            JVal::Num(c) => match spec_u8_centi(c as int) {
                Some(u) => Some(PartialSettings { threshold: Some(u), ..p }),
                None => None,
            },
            JVal::Null => Some(p),
            _ => None,
        }
    } else if key == "color_count".spec_bytes() {
        match v {
            JVal::Num(c) => match spec_u8_centi(c as int) {
                Some(u) => Some(PartialSettings { color_count: Some(u), ..p }),
                None => None,
            },
            JVal::Null => Some(p),
            _ => None,
        }
    } else if key == "smoothing".spec_bytes() {
        match v {
            JVal::Num(c) => match spec_u8_centi(c as int) {
                Some(u) => Some(PartialSettings { smoothing: Some(u), ..p }),
                None => None,
            },
            JVal::Null => Some(p),
            _ => None,
        }
    } else if key == "path_simplification".spec_bytes() {
        match v {
            JVal::Num(c) => match spec_u8_centi(c as int) {
                Some(u) => Some(PartialSettings { path_simplification: Some(u), ..p }),
                None => None,
            },
            JVal::Null => Some(p),
            _ => None,
        }
    } else if key == "noise_reduction".spec_bytes() {
        match v {
            JVal::Num(c) => match spec_u8_centi(c as int) {
                Some(u) => Some(PartialSettings { noise_reduction: Some(u), ..p }),
                None => None,
            },
            JVal::Null => Some(p),
            _ => None,
        }
    } else if key == "background_transparency".spec_bytes() {
        match v {
            JVal::Bool(x) => Some(PartialSettings { background_transparency: Some(x), ..p }),
            JVal::Null => Some(p),
            _ => None,
        }
    } else if key == "brightness".spec_bytes() {
        match v {
            JVal::Num(c) => match spec_i8_centi(c as int) {
                Some(u) => Some(PartialSettings { brightness: Some(u), ..p }),
                None => None,
            },
            JVal::Null => Some(p),
            _ => None,
        }
    } else if key == "contrast".spec_bytes() {
        match v {
            JVal::Num(c) => match spec_i8_centi(c as int) {
                Some(u) => Some(PartialSettings { contrast: Some(u), ..p }),
                None => None,
            },
            JVal::Null => Some(p),
            _ => None,
        }
    } else if key == "gamma".spec_bytes() {
        match v {
            JVal::Num(c) => Some(PartialSettings { gamma_centi: Some(spec_gamma_clamp(c as int)), ..p }),
            JVal::Null => Some(p),
            _ => None,
        }
    } else if key == "corner_threshold".spec_bytes() {
        match v {
            JVal::Num(c) => match spec_u8_centi(c as int) {
                Some(u) => Some(PartialSettings { corner_threshold: Some(u), ..p }),
                None => None,
            },
            JVal::Null => Some(p),
            _ => None,
        }
    } else if key == "curve_mode".spec_bytes() {
        match v {
            JVal::Str(a, b) => Some(
                PartialSettings {
                    curve_mode: Some(
                        if s.subrange(a as int, b as int) == "polygon".spec_bytes() {
                            CurveMode::Polygon
                        } else {
                            CurveMode::Spline
                        },
                    ),
                    ..p
                },
            ),
            JVal::Null => Some(p),
            _ => None,
        }
    } else {
        Some(p)
    }
}

fn apply_field(s: &Vec<u8>, ks: usize, ke: usize, v: JVal, p: PartialSettings) -> (r: Option<
    PartialSettings,
>)
    requires
        ks <= ke <= s@.len(),
        v matches JVal::Str(a, b) ==> a <= b <= s@.len(),
    ensures
        r == spec_apply(s@, ks as int, ke as int, v, p),
{
    if span_eq(s, ks, ke, "output_mode".as_bytes()) {
        match v {
            JVal::Str(a, b) => Some(
                PartialSettings {
                    output_mode: Some(
                        if span_eq(s, a, b, "monochrome".as_bytes()) {
                            OutputMode::Monochrome
                        } else {
                            OutputMode::Color
                        },
                    ),
                    ..p
                },
            ),
            JVal::Null => Some(p),
            _ => None,
        }
    } else if span_eq(s, ks, ke, "threshold".as_bytes()) {
        match v {
            JVal::Num(c) => match u8_from_centi(c) {
                Some(u) => Some(PartialSettings { threshold: Some(u), ..p }),
                None => None,
            },
            JVal::Null => Some(p),
            _ => None,
        }
    } else if span_eq(s, ks, ke, "color_count".as_bytes()) {
        match v {
            JVal::Num(c) => match u8_from_centi(c) {
                Some(u) => Some(PartialSettings { color_count: Some(u), ..p }),
                None => None,
            },
            JVal::Null => Some(p),
            _ => None,
        }
    } else if span_eq(s, ks, ke, "smoothing".as_bytes()) {
        match v {
            JVal::Num(c) => match u8_from_centi(c) {
                Some(u) => Some(PartialSettings { smoothing: Some(u), ..p }),
                None => None,
            },
            JVal::Null => Some(p),
            _ => None,
        }
    } else if span_eq(s, ks, ke, "path_simplification".as_bytes()) {
        match v {
            JVal::Num(c) => match u8_from_centi(c) {
                Some(u) => Some(PartialSettings { path_simplification: Some(u), ..p }),
                None => None,
            },
            JVal::Null => Some(p),
            _ => None,
        }
    } else if span_eq(s, ks, ke, "noise_reduction".as_bytes()) {
        match v {
            JVal::Num(c) => match u8_from_centi(c) {
                Some(u) => Some(PartialSettings { noise_reduction: Some(u), ..p }),
                None => None,
            },
            JVal::Null => Some(p),
            _ => None,
        }
    } else if span_eq(s, ks, ke, "background_transparency".as_bytes()) {
        match v {
            JVal::Bool(x) => Some(PartialSettings { background_transparency: Some(x), ..p }),
            JVal::Null => Some(p),
            _ => None,
        }
    } else if span_eq(s, ks, ke, "brightness".as_bytes()) {
        match v {
            JVal::Num(c) => match i8_from_centi(c) {
                Some(u) => Some(PartialSettings { brightness: Some(u), ..p }),
                None => None,
            },
            JVal::Null => Some(p),
            _ => None,
        }
    } else if span_eq(s, ks, ke, "contrast".as_bytes()) {
        match v {
            JVal::Num(c) => match i8_from_centi(c) {
                Some(u) => Some(PartialSettings { contrast: Some(u), ..p }),
                None => None,
            },
            JVal::Null => Some(p),
            _ => None,
        }
    } else if span_eq(s, ks, ke, "gamma".as_bytes()) {
        match v {
            JVal::Num(c) => Some(PartialSettings { gamma_centi: Some(gamma_clamp(c)), ..p }),
            JVal::Null => Some(p),
            _ => None,
        }
    } else if span_eq(s, ks, ke, "corner_threshold".as_bytes()) {
        match v {
            JVal::Num(c) => match u8_from_centi(c) {
                Some(u) => Some(PartialSettings { corner_threshold: Some(u), ..p }),
                None => None,
            },
            JVal::Null => Some(p),
            _ => None,
        }
    } else if span_eq(s, ks, ke, "curve_mode".as_bytes()) {
        match v {
            JVal::Str(a, b) => Some(
                PartialSettings {
                    curve_mode: Some(
                        if span_eq(s, a, b, "polygon".as_bytes()) {
                            CurveMode::Polygon
                        } else {
                            CurveMode::Spline
                        },
                    ),
                    ..p
                },
            ),
            JVal::Null => Some(p),
            _ => None,
        }
    } else {
        Some(p)
    }
}


/// One of the twelve settings member names.
pub open spec fn spec_known_key(key: Seq<u8>) -> bool {
    ||| key == "output_mode".spec_bytes()
    ||| key == "threshold".spec_bytes()
    ||| key == "color_count".spec_bytes()
    ||| key == "smoothing".spec_bytes()
    ||| key == "path_simplification".spec_bytes()
    ||| key == "noise_reduction".spec_bytes()
    ||| key == "background_transparency".spec_bytes()
    ||| key == "brightness".spec_bytes()
    ||| key == "contrast".spec_bytes()
    ||| key == "gamma".spec_bytes()
    ||| key == "corner_threshold".spec_bytes()
    ||| key == "curve_mode".spec_bytes()
}

fn key_is_known(s: &Vec<u8>, ks: usize, ke: usize) -> (r: bool)
    requires
        ks <= ke <= s@.len(),
    ensures
        r == spec_known_key(s@.subrange(ks as int, ke as int)),
{
    span_eq(s, ks, ke, "output_mode".as_bytes()) || span_eq(s, ks, ke, "threshold".as_bytes())
        || span_eq(s, ks, ke, "color_count".as_bytes()) || span_eq(s, ks, ke, "smoothing".as_bytes())
        || span_eq(s, ks, ke, "path_simplification".as_bytes()) || span_eq(
        s,
        ks,
        ke,
        "noise_reduction".as_bytes(),
    ) || span_eq(s, ks, ke, "background_transparency".as_bytes()) || span_eq(
        s,
        ks,
        ke,
        "brightness".as_bytes(),
    ) || span_eq(s, ks, ke, "contrast".as_bytes()) || span_eq(s, ks, ke, "gamma".as_bytes())
        || span_eq(s, ks, ke, "corner_threshold".as_bytes()) || span_eq(
        s,
        ks,
        ke,
        "curve_mode".as_bytes(),
    )
}

/// Pass over a number of any size, exponent included; an ignored member's
/// number is never converted, so nothing bounds it.
pub open spec fn spec_skip_number(s: Seq<u8>, i: int) -> Option<int> {
    let i0 = if 0 <= i < s.len() && s[i] == 45 {
        i + 1
    } else {
        i
    };
    if !(0 <= i0 < s.len() && is_digit(s[i0])) {
        None
    } else {
        let p = spec_skip_digits(s, i0);
        let frac = if p < s.len() && s[p] == 46 {
            if p + 1 < s.len() && is_digit(s[p + 1]) {
                Some(spec_skip_digits(s, p + 1))
            } else {
                None
            }
        } else {
            Some(p)
        };
        match frac {
            None => None,
            Some(q) => if q < s.len() && (s[q] == 101 || s[q] == 69) {
                let q1 = if q + 1 < s.len() && (s[q + 1] == 43 || s[q + 1] == 45) {
                    q + 2
                } else {
                    q + 1
                };
                if q1 < s.len() && is_digit(s[q1]) {
                    Some(spec_skip_digits(s, q1))
                } else {
                    None
                }
            } else {
                Some(q)
            },
        }
    }
}

fn skip_number(s: &Vec<u8>, i: usize) -> (r: Option<usize>)
    requires
        i <= s@.len(),
    ensures
        (match r {
            Some(e) => spec_skip_number(s@, i as int) == Some(e as int) && i <= e <= s@.len(),
            None => spec_skip_number(s@, i as int) is None,
        }),
{
    let i0: usize = if i < s.len() && s[i] == 45 {
        i + 1
    } else {
        i
    };
    if !(i0 < s.len() && 48 <= s[i0] && s[i0] <= 57) {
        return None;
    }
    let p = skip_digits(s, i0);
    let frac: Option<usize> = if p < s.len() && s[p] == 46 {
        if p + 1 < s.len() && 48 <= s[p + 1] && s[p + 1] <= 57 {
            Some(skip_digits(s, p + 1))
        } else {
            None
        }
    } else {
        Some(p)
    };
    match frac {
        None => None,
        Some(q) => {
            if q < s.len() && (s[q] == 101 || s[q] == 69) {
                let q1: usize = if q + 1 < s.len() && (s[q + 1] == 43 || s[q + 1] == 45) {
                    q + 2
                } else {
                    q + 1
                };
                if q1 < s.len() && 48 <= s[q1] && s[q1] <= 57 {
                    Some(skip_digits(s, q1))
                } else {
                    None
                }
            } else {
                Some(q)
            }
        },
    }
}

/// Pass over a value of any JSON shape; the values of ignored members are
/// not interpreted.
pub open spec fn spec_skip_value(s: Seq<u8>, i: int) -> Option<int>
    decreases s.len() - i, 0int,
{
    if i < 0 || i >= s.len() {
        None
    } else if s[i] == 34 {
        match spec_scan_str(s, i + 1) {
            Some(e) => Some(e + 1),
            None => None,
        }
    } else if s[i] == 116 {
        if i + 3 < s.len() && s[i + 1] == 114 && s[i + 2] == 117 && s[i + 3] == 101 {
            Some(i + 4)
        } else {
            None
        }
    } else if s[i] == 102 {
        if i + 4 < s.len() && s[i + 1] == 97 && s[i + 2] == 108 && s[i + 3] == 115 && s[i + 4]
            == 101 {
            Some(i + 5)
        } else {
            None
        }
    } else if s[i] == 110 {
        if i + 3 < s.len() && s[i + 1] == 117 && s[i + 2] == 108 && s[i + 3] == 108 {
            Some(i + 4)
        } else {
            None
        }
    } else if s[i] == 45 || is_digit(s[i]) {
        spec_skip_number(s, i)
    } else if s[i] == 91 {
        let j = spec_skip_ws(s, i + 1);
        if j < s.len() && s[j] == 93 {
            Some(j + 1)
        } else if i < j <= s.len() {
            spec_skip_elems(s, j)
        } else {
            None
        }
    } else if s[i] == 123 {
        let j = spec_skip_ws(s, i + 1);
        if j < s.len() && s[j] == 125 {
            Some(j + 1)
        } else if i < j <= s.len() {
            spec_skip_membs(s, j)
        } else {
            None
        }
    } else {
        None
    }
}

/// The elements of an array being passed over, from the first element on.
pub open spec fn spec_skip_elems(s: Seq<u8>, i: int) -> Option<int>
    decreases s.len() - i, 1int,
{
    if i < 0 || i > s.len() {
        None
    } else {
        let j = spec_skip_ws(s, i);
        if !(i <= j <= s.len()) {
            None
        } else {
            match spec_skip_value(s, j) {
                None => None,
                Some(e) => {
                    let k = spec_skip_ws(s, e);
                    if k < s.len() && s[k] == 44 && i < k + 1 {
                        spec_skip_elems(s, k + 1)
                    } else if k < s.len() && s[k] == 93 {
                        Some(k + 1)
                    } else {
                        None
                    }
                },
            }
        }
    }
}

/// The members of an object being passed over, from the first member on.
pub open spec fn spec_skip_membs(s: Seq<u8>, i: int) -> Option<int>
    decreases s.len() - i, 1int,
{
    if i < 0 || i > s.len() {
        None
    } else {
        let j = spec_skip_ws(s, i);
        if !(i <= j < s.len() && s[j] == 34) {
            None
        } else {
            match spec_scan_str(s, j + 1) {
                None => None,
                Some(ke) => {
                    let j2 = spec_skip_ws(s, ke + 1);
                    if !(j2 < s.len() && s[j2] == 58) {
                        None
                    } else {
                        let j3 = spec_skip_ws(s, j2 + 1);
                        if !(i <= j3 <= s.len()) {
                            None
                        } else {
                            match spec_skip_value(s, j3) {
                                None => None,
                                Some(e) => {
                                    let k = spec_skip_ws(s, e);
                                    if k < s.len() && s[k] == 44 && i < k + 1 {
                                        spec_skip_membs(s, k + 1)
                                    } else if k < s.len() && s[k] == 125 {
                                        Some(k + 1)
                                    } else {
                                        None
                                    }
                                },
                            }
                        }
                    }
                },
            }
        }
    }
}

fn skip_value(s: &Vec<u8>, i: usize) -> (r: Option<usize>)
    requires
        i <= s@.len(),
    ensures
        (match r {
            Some(e) => spec_skip_value(s@, i as int) == Some(e as int) && i <= e <= s@.len(),
            None => spec_skip_value(s@, i as int) is None,
        }),
    decreases s@.len() - i, 0int,
{
    if i >= s.len() {
        return None;
    }
    let b = s[i];
    if b == 34 {
        match scan_str(s, i + 1) {
            Some(e) => Some(e + 1),
            None => None,
        }
    } else if b == 116 {
        if s.len() - i > 3 && s[i + 1] == 114 && s[i + 2] == 117 && s[i + 3] == 101 {
            Some(i + 4)
        } else {
            None
        }
    } else if b == 102 {
        if s.len() - i > 4 && s[i + 1] == 97 && s[i + 2] == 108 && s[i + 3] == 115 && s[i + 4]
            == 101 {
            Some(i + 5)
        } else {
            None
        }
    } else if b == 110 {
        if s.len() - i > 3 && s[i + 1] == 117 && s[i + 2] == 108 && s[i + 3] == 108 {
            Some(i + 4)
        } else {
            None
        }
    } else if b == 45 || (48 <= b && b <= 57) {
        skip_number(s, i)
    } else if b == 91 {
        let j = skip_ws(s, i + 1);
        if j < s.len() && s[j] == 93 {
            Some(j + 1)
        } else {
            skip_elems(s, j)
        }
    } else if b == 123 {
        let j = skip_ws(s, i + 1);
        if j < s.len() && s[j] == 125 {
            Some(j + 1)
        } else {
            skip_membs(s, j)
        }
    } else {
        None
    }
}

fn skip_elems(s: &Vec<u8>, i: usize) -> (r: Option<usize>)
    requires
        i <= s@.len(),
    ensures
        (match r {
            Some(e) => spec_skip_elems(s@, i as int) == Some(e as int) && i <= e <= s@.len(),
            None => spec_skip_elems(s@, i as int) is None,
        }),
    decreases s@.len() - i, 1int,
{
    let j = skip_ws(s, i);
    match skip_value(s, j) {
        None => None,
        Some(e) => {
            let k = skip_ws(s, e);
            if k < s.len() && s[k] == 44 {
                skip_elems(s, k + 1)
            } else if k < s.len() && s[k] == 93 {
                Some(k + 1)
            } else {
                None
            }
        },
    }
}

fn skip_membs(s: &Vec<u8>, i: usize) -> (r: Option<usize>)
    requires
        i <= s@.len(),
    ensures
        (match r {
            Some(e) => spec_skip_membs(s@, i as int) == Some(e as int) && i <= e <= s@.len(),
            None => spec_skip_membs(s@, i as int) is None,
        }),
    decreases s@.len() - i, 1int,
{
    let j = skip_ws(s, i);
    if !(j < s.len() && s[j] == 34) {
        return None;
    }
    match scan_str(s, j + 1) {
        None => None,
        Some(ke) => {
            let j2 = skip_ws(s, ke + 1);
            if !(j2 < s.len() && s[j2] == 58) {
                return None;
            }
            let j3 = skip_ws(s, j2 + 1);
            match skip_value(s, j3) {
                None => None,
                Some(e) => {
                    let k = skip_ws(s, e);
                    if k < s.len() && s[k] == 44 {
                        skip_membs(s, k + 1)
                    } else if k < s.len() && s[k] == 125 {
                        Some(k + 1)
                    } else {
                        None
                    }
                },
            }
        },
    }
}

/// Termination guard for the member scan; the scan always advances, so the
/// first branch is the one taken.
pub open spec fn next_pos(i: int, j: int) -> int {
    if j > i {
        j
    } else {
        i + 1
    }
}

/// The members of the settings object, from position `i` (just past `{` or
/// a comma); ends at the closing brace.
pub open spec fn spec_members(s: Seq<u8>, i: int, p: PartialSettings) -> Option<
    (PartialSettings, int),
>
    decreases s.len() - i,
{
    if i < 0 || i > s.len() {
        None
    } else {
        let j = spec_skip_ws(s, i);
        if !(i <= j < s.len() && s[j] == 34) {
            None
        } else {
            match spec_scan_str(s, j + 1) {
                None => None,
                Some(ke) => {
                    let ks = j + 1;
                    let j2 = spec_skip_ws(s, ke + 1);
                    if !(j2 < s.len() && s[j2] == 58) {
                        None
                    } else {
                        let j3 = spec_skip_ws(s, j2 + 1);
                        let step: Option<(PartialSettings, int)> = if spec_known_key(
                            s.subrange(ks, ke),
                        ) {
                            match spec_value(s, j3) {
                                None => None,
                                Some((v, j4)) => match spec_apply(s, ks, ke, v, p) {
                                    None => None,
                                    Some(p2) => Some((p2, j4)),
                                },
                            }
                        } else {
                            let j4c = if i <= j3 {
                                j3
                            } else {
                                i
                            };
                            match spec_skip_value(s, j4c) {
                                None => None,
                                Some(j4) => Some((p, j4)),
                            }
                        };
                        match step {
                            None => None,
                            Some((p2, j4)) => {
                                let j5 = spec_skip_ws(s, j4);
                                if j5 < s.len() && s[j5] == 44 {
                                    spec_members(s, next_pos(i, j5 + 1), p2)
                                } else if j5 < s.len() && s[j5] == 125 {
                                    Some((p2, j5 + 1))
                                } else {
                                    None
                                }
                            },
                        }
                    }
                },
            }
        }
    }
}

fn parse_members(s: &Vec<u8>, i: usize, p: PartialSettings) -> (r: Option<(PartialSettings, usize)>)
    requires
        i <= s@.len(),
    ensures
        (match r {
            Some((q, e)) => spec_members(s@, i as int, p) == Some((q, e as int)) && e <= s@.len(),
            None => spec_members(s@, i as int, p) is None,
        }),
    decreases s@.len() - i,
{
    let j = skip_ws(s, i);
    if !(j < s.len() && s[j] == 34) {
        return None;
    }
    match scan_str(s, j + 1) {
        None => None,
        Some(ke) => {
            let ks = j + 1;
            let j2 = skip_ws(s, ke + 1);
            if !(j2 < s.len() && s[j2] == 58) {
                return None;
            }
            let j3 = skip_ws(s, j2 + 1);
            let step: Option<(PartialSettings, usize)> = if key_is_known(s, ks, ke) {
                match parse_value(s, j3) {
                    None => None,
                    Some((v, j4)) => match apply_field(s, ks, ke, v, p) {
                        None => None,
                        Some(p2) => Some((p2, j4)),
                    },
                }
            } else {
                match skip_value(s, j3) {
                    None => None,
                    Some(j4) => Some((p, j4)),
                }
            };
            match step {
                None => None,
                Some((p2, j4)) => {
                    let j5 = skip_ws(s, j4);
                    if j5 < s.len() && s[j5] == 44 {
                        proof {
                            assert(next_pos(i as int, j5 as int + 1) == j5 as int + 1);
                        }
                        parse_members(s, j5 + 1, p2)
                    } else if j5 < s.len() && s[j5] == 125 {
                        Some((p2, j5 + 1))
                    } else {
                        None
                    }
                },
            }
        },
    }
}

/// The whole payload: one object, nothing but whitespace around it. A parse
/// that fails here sends the caller down the all-defaults path.
pub open spec fn spec_parse_partial(s: Seq<u8>) -> Option<PartialSettings> {
    let i0 = spec_skip_ws(s, 0);
    if !(0 <= i0 < s.len() && s[i0] == 123) {
        None
    } else {
        let i1 = spec_skip_ws(s, i0 + 1);
        if i1 < s.len() && s[i1] == 125 {
            if spec_skip_ws(s, i1 + 1) == s.len() {
                Some(spec_empty_partial())
            } else {
                None
            }
        } else {
            match spec_members(s, i0 + 1, spec_empty_partial()) {
                None => None,
                Some((p, e)) => if spec_skip_ws(s, e) == s.len() {
                    Some(p)
                } else {
                    None
                },
            }
        }
    }
}

pub open spec fn spec_parse_settings(s: Seq<u8>) -> Option<ConversionSettings> {
    match spec_parse_partial(s) {
        Some(p) => Some(spec_finalize(p)),
        None => None,
    }
}

fn empty_partial() -> (r: PartialSettings)
    ensures
        r == spec_empty_partial(),
{
    PartialSettings {
        output_mode: None,
        threshold: None,
        color_count: None,
        smoothing: None,
        path_simplification: None,
        noise_reduction: None,
        background_transparency: None,
        brightness: None,
        contrast: None,
        gamma_centi: None,
        corner_threshold: None,
        curve_mode: None,
    }
}

fn finalize(p: PartialSettings) -> (r: ConversionSettings)
    ensures
        r == spec_finalize(p),
{
    ConversionSettings {
        output_mode: match p.output_mode {
            Some(x) => x,
            None => OutputMode::Monochrome,
        },
        threshold: match p.threshold {
            Some(x) => x,
            None => 128,
        },
        color_count: match p.color_count {
            Some(x) => x,
            None => 8,
        },
        smoothing: match p.smoothing {
            Some(x) => x,
            None => 5,
        },
        path_simplification: match p.path_simplification {
            Some(x) => x,
            None => 5,
        },
        noise_reduction: match p.noise_reduction {
            Some(x) => x,
            None => 4,
        },
        background_transparency: match p.background_transparency {
            Some(x) => x,
            None => false,
        },
        brightness: match p.brightness {
            Some(x) => x,
            None => 0,
        },
        contrast: match p.contrast {
            Some(x) => x,
            None => 0,
        },
        gamma_centi: match p.gamma_centi {
            Some(x) => x,
            None => 100,
        },
        corner_threshold: match p.corner_threshold {
            Some(x) => x,
            None => 60,
        },
        curve_mode: match p.curve_mode {
            Some(x) => x,
            None => CurveMode::Spline,
        },
    }
}

/// Parse the settings payload; `None` when it is malformed.
pub fn parse_settings(payload: &Vec<u8>) -> (r: Option<ConversionSettings>)
    ensures
        r == spec_parse_settings(payload@),
{
    let i0 = skip_ws(payload, 0);
    if !(i0 < payload.len() && payload[i0] == 123) {
        return None;
    }
    let i1 = skip_ws(payload, i0 + 1);
    if i1 < payload.len() && payload[i1] == 125 {
        if skip_ws(payload, i1 + 1) == payload.len() {
            return Some(finalize(empty_partial()));
        }
        return None;
    }
    match parse_members(payload, i0 + 1, empty_partial()) {
        None => None,
        Some((p, e)) => {
            if skip_ws(payload, e) == payload.len() {
                Some(finalize(p))
            } else {
                None
            }
        },
    }
}

/// The two-path settings parse: the parsed settings, or the full defaults
/// when the payload is malformed. The boolean reports which path was taken.
pub fn settings_or_default(payload: &Vec<u8>) -> (r: (ConversionSettings, bool))
    ensures
        (match spec_parse_settings(payload@) {
            Some(s) => r.0 == s && r.1,
            None => r.0 == spec_default_settings() && !r.1,
        }),
{
    match parse_settings(payload) {
        Some(s) => (s, true),
        None => (ConversionSettings::default(), false),
    }
}

} // verus!
