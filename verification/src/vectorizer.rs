//! The conversion pipeline around the tracing engine: preprocess the decoded
//! image, map the settings onto the engine configuration, and invoke the
//! engine. The engine itself is an external collaborator reached through the
//! trusted wrappers at the bottom; nothing is assumed about the vector
//! document it produces, so everything after the call is stated exactly over
//! whatever came back.

use vstd::prelude::*;
use crate::engine::{create_vtracer_config, EngineColorMode, EngineConfig, EnginePathMode};
use crate::preprocess::{preprocess_image, Image};
use crate::settings::ConversionSettings;

verus! {

/// Why a conversion failed.
#[derive(Debug)]
pub enum VectorizerError {
    /// The uploaded bytes could not be decoded as an image.
    ImageLoadError(String),
    /// The tracing engine rejected the image or the configuration.
    ProcessingError(String),
    /// The produced document could not be persisted.
    SaveError(String),
}

/// The image flattened to row-major RGBA bytes, as the engine consumes it.
pub fn flatten_pixels(img: &Image) -> (r: Vec<u8>)
    ensures
        r@.len() == 4 * img.pixels@.len(),
        forall|i: int|
            0 <= i < img.pixels@.len() ==> r@[4 * i] == (#[trigger] img.pixels@[i]).r && r@[4 * i
                + 1] == img.pixels@[i].g && r@[4 * i + 2] == img.pixels@[i].b && r@[4 * i + 3]
                == img.pixels@[i].a,
{
    let n = img.pixels.len();
    let mut out: Vec<u8> = Vec::new();
    let mut i: usize = 0;
    while i < n
        invariant
            n == img.pixels@.len(),
            i <= n,
            out@.len() == 4 * i,
            forall|j: int|
                0 <= j < i ==> out@[4 * j] == (#[trigger] img.pixels@[j]).r && out@[4 * j + 1]
                    == img.pixels@[j].g && out@[4 * j + 2] == img.pixels@[j].b && out@[4 * j + 3]
                    == img.pixels@[j].a,
        decreases n - i,
    {
        let p = img.pixels[i];
        out.push(p.r);
        out.push(p.g);
        out.push(p.b);
        out.push(p.a);
        i = i + 1;
    }
    out
}

/// Translate the engine's outcome: the document passes through unchanged,
/// and an engine diagnostic becomes a `ProcessingError` carrying exactly
/// that text.
pub fn finish_trace(outcome: Result<String, String>) -> (r: Result<String, VectorizerError>)
    ensures
        (match outcome {
            Ok(svg) => r matches Ok(s) && s == svg,
            Err(e) => r matches Err(v) && v matches VectorizerError::ProcessingError(m) && m == e,
        }),
{
    match outcome {
        Ok(svg) => Ok(svg),
        Err(e) => Err(VectorizerError::ProcessingError(e)),
    }
}

/// Convert a decoded image to a vector document: preprocess, map the
/// settings onto the engine configuration, trace. `gamma_table` is the
/// 256-entry gamma curve for the settings' gamma value. A zero-pixel image
/// is rejected before the engine is called, with the diagnostic fixed here;
/// past that point the engine decides, its output is opaque, and every
/// failure is a `ProcessingError` carrying the engine's own text (the exact
/// pass-through is stated at `finish_trace`).
pub fn convert_image_to_svg(
    img: &Image,
    settings: &ConversionSettings,
    gamma_table: &Vec<u8>,
) -> (r: Result<String, VectorizerError>)
    requires
        img.wf(),
        gamma_table@.len() == 256,
    ensures
        r matches Err(e) ==> e matches VectorizerError::ProcessingError(_),
        (img.width == 0 || img.height == 0) ==> (r matches Err(e2) && e2 matches
            VectorizerError::ProcessingError(m) && m@ == "image has no pixels"@),
{
    if img.width == 0 || img.height == 0 {
        return Err(
            VectorizerError::ProcessingError(String::from_str("image has no pixels")),
        );
    }
    let pre = preprocess_image(img, settings, gamma_table);
    let cfg = create_vtracer_config(settings);
    let rgba = flatten_pixels(&pre);
    proof {
        assert(rgba@.len() == 4 * (pre.width as int * pre.height as int));
        assert(4 * (pre.width as int * pre.height as int) == 4 * pre.width as int
            * pre.height as int) by (nonlinear_arith);
    }
    let outcome = trace_engine(pre.width, pre.height, &rgba, &cfg);
    finish_trace(outcome)
}

#[verifier::external_type_specification]
#[verifier::external_body]
pub struct ExVtracerConfig(vtracer::Config);

/// Relies on the vtracer Config record and its documented fields: carries
/// the engine configuration into vtracer's own parameter record, one field
/// at a time; knobs this service does not drive keep vtracer's defaults.
#[verifier::external_body]
fn to_engine_record(cfg: &EngineConfig) -> vtracer::Config {
    let mut vc = vtracer::Config::default();
    vc.color_mode = if matches!(cfg.color_mode, EngineColorMode::Binary) { vtracer::ColorMode::Binary } else { vtracer::ColorMode::Color };
    vc.mode = if matches!(cfg.path_mode, EnginePathMode::Polygon) { visioncortex::PathSimplifyMode::Polygon } else { visioncortex::PathSimplifyMode::Spline };
    vc.filter_speckle = cfg.filter_speckle as usize;
    vc.color_precision = cfg.color_precision as i32;
    vc.layer_difference = cfg.hierarchical_threshold as i32;
    vc.corner_threshold = cfg.corner_threshold as i32;
    vc.path_precision = Some(cfg.path_precision);
    vc
}

/// Relies on vtracer::convert: traces an RGBA pixel buffer under the given
/// configuration into an SVG document, or reports a diagnostic string. The
/// engine picks keying colors at random, so nothing is assumed of the
/// result.
#[verifier::external_body]
fn trace_engine(width: usize, height: usize, rgba: &Vec<u8>, cfg: &EngineConfig) -> (r: Result<
    String,
    String,
>)
    requires
        width > 0,
        height > 0,
        rgba@.len() == 4 * width * height,
{
    let img = vtracer::ColorImage { pixels: rgba.clone(), width, height };
    match vtracer::convert(img, to_engine_record(cfg)) {
        Ok(svg) => Ok(format!("{}", svg)),
        Err(e) => Err(e),
    }
}

} // verus!
