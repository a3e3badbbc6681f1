//! Mapping of the settings model onto the tracing engine's configuration
//! surface. The engine's knobs use their own units, so every rule is stated
//! here exactly: the mapper performs no I/O and cannot fail; out-of-range
//! scale values are clamped, never rejected.

use vstd::prelude::*;
use crate::settings::{ConversionSettings, CurveMode, OutputMode};

verus! {

#[derive(Clone, Copy, Debug, PartialEq, Eq, Structural)]
pub enum EngineColorMode {
    Binary,
    Color,
}

#[derive(Clone, Copy, Debug, PartialEq, Eq, Structural)]
pub enum EnginePathMode {
    Spline,
    Polygon,
}

/// The engine parameters this service drives, in the engine's own units.
/// `hierarchical_threshold` stands in for the engine's aggregation threshold,
/// which serves as the binarization control in monochrome mode.
#[derive(Clone, Copy, Debug, PartialEq, Eq, Structural)]
pub struct EngineConfig {
    pub color_mode: EngineColorMode,
    pub hierarchical_threshold: u32,
    pub color_precision: u32,
    pub path_precision: u32,
    pub corner_threshold: u32,
    pub filter_speckle: u32,
    pub path_mode: EnginePathMode,
}

/// Clamp a 0..=10 scale value.
pub open spec fn scale10(v: int) -> int {
    if v > 10 {
        10
    } else {
        v
    }
}

/// The exact mapping rules:
/// - monochrome -> binary mode, the threshold passed through as the
///   aggregation threshold; color -> color mode, `color_count` clamped into
///   the engine's 1..=8 precision range;
/// - `path_simplification` maps inversely to path precision:
///   `100 - (path_simplification/10)*90`;
/// - `noise_reduction` maps linearly to the speckle filter: `2 * value`;
/// - `corner_threshold` passes straight through;
/// - `polygon` curve mode -> polygon paths, anything else -> splines.
/// Engine knobs not driven by a mode keep the engine's defaults (aggregation
/// threshold 16, color precision 6).
pub open spec fn spec_engine_config(s: ConversionSettings) -> EngineConfig {
    EngineConfig {
        color_mode: if s.output_mode == OutputMode::Monochrome {
            EngineColorMode::Binary
        } else {
            EngineColorMode::Color
        },
        hierarchical_threshold: if s.output_mode == OutputMode::Monochrome {
            s.threshold as u32
        } else {
            16u32
        },
        color_precision: if s.output_mode == OutputMode::Monochrome {
            6u32
        } else if s.color_count < 1 {
            1u32
        } else if s.color_count > 8 {
            8u32
        } else {
            s.color_count as u32
        },
        path_precision: (100 - 9 * scale10(s.path_simplification as int)) as u32,
        corner_threshold: s.corner_threshold as u32,
        filter_speckle: (2 * scale10(s.noise_reduction as int)) as u32,
        path_mode: if s.curve_mode == CurveMode::Polygon {
            EnginePathMode::Polygon
        } else {
            EnginePathMode::Spline
        },
    }
}

/// Translate settings into the engine configuration; total and exact.
pub fn create_vtracer_config(s: &ConversionSettings) -> (c: EngineConfig)
    ensures
        c == spec_engine_config(*s),
{
    let ps: u32 = if s.path_simplification > 10 {
        10
    } else {
        s.path_simplification as u32
    };
    let nr: u32 = if s.noise_reduction > 10 {
        10
    } else {
        s.noise_reduction as u32
    };
    EngineConfig {
        color_mode: if matches!(s.output_mode, OutputMode::Monochrome) {
            EngineColorMode::Binary
        } else {
            EngineColorMode::Color
        },
        hierarchical_threshold: if matches!(s.output_mode, OutputMode::Monochrome) {
            s.threshold as u32
        } else {
            16
        },
        color_precision: if matches!(s.output_mode, OutputMode::Monochrome) {
            6
        } else if s.color_count < 1 {
            1
        } else if s.color_count > 8 {
            8
        } else {
            s.color_count as u32
        },
        path_precision: 100 - 9 * ps,
        corner_threshold: s.corner_threshold as u32,
        filter_speckle: 2 * nr,
        path_mode: if matches!(s.curve_mode, CurveMode::Polygon) {
            EnginePathMode::Polygon
        } else {
            EnginePathMode::Spline
        },
    }
}

} // verus!
