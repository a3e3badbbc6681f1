use vectorize::engine::{create_vtracer_config, EngineColorMode, EnginePathMode};
use vectorize::settings::{parse_settings, settings_or_default, ConversionSettings, CurveMode, OutputMode};

fn payload(s: &str) -> Vec<u8> {
    s.as_bytes().to_vec()
}

#[test]
fn defaults_for_omitted_fields() {
    let s = parse_settings(&payload("{}")).expect("empty object parses");
    let d = ConversionSettings::default();
    assert_eq!(s, d);
    assert_eq!(d.output_mode, OutputMode::Monochrome);
    assert_eq!(d.threshold, 128);
    assert_eq!(d.color_count, 8);
    assert_eq!(d.smoothing, 5);
    assert_eq!(d.path_simplification, 5);
    assert_eq!(d.noise_reduction, 4);
    assert_eq!(d.background_transparency, false);
    assert_eq!(d.brightness, 0);
    assert_eq!(d.contrast, 0);
    assert_eq!(d.gamma_centi, 100);
    assert_eq!(d.corner_threshold, 60);
    assert_eq!(d.curve_mode, CurveMode::Spline);
}

#[test]
fn partial_payload_keeps_other_defaults() {
    let s = parse_settings(&payload("{\"brightness\": 25, \"threshold\": 200}")).unwrap();
    assert_eq!(s.brightness, 25);
    assert_eq!(s.threshold, 200);
    assert_eq!(s.contrast, 0);
    assert_eq!(s.color_count, 8);
    assert_eq!(s.output_mode, OutputMode::Monochrome);
}

#[test]
fn unknown_fields_are_ignored() {
    let s = parse_settings(&payload("{\"mystery\": 7, \"contrast\": -30}")).unwrap();
    assert_eq!(s.contrast, -30);
}

#[test]
fn malformed_payload_falls_back_to_defaults() {
    let (s, parsed) = settings_or_default(&payload("{\"threshold\": \"high\"}"));
    assert!(!parsed);
    assert_eq!(s, ConversionSettings::default());

    let (s2, parsed2) = settings_or_default(&payload("not json at all"));
    assert!(!parsed2);
    assert_eq!(s2, ConversionSettings::default());

    // out-of-range integer for a byte-sized field is a malformed shape
    let (s3, parsed3) = settings_or_default(&payload("{\"threshold\": 300}"));
    assert!(!parsed3);
    assert_eq!(s3, ConversionSettings::default());
}

#[test]
fn full_payload_parses_every_field() {
    let text = "{\"output_mode\":\"color\",\"threshold\":99,\"color_count\":4,\
\"smoothing\":7,\"path_simplification\":10,\"noise_reduction\":2,\
\"background_transparency\":true,\"brightness\":-100,\"contrast\":100,\
\"gamma\":2.5,\"corner_threshold\":30,\"curve_mode\":\"polygon\"}";
    let s = parse_settings(&payload(text)).unwrap();
    assert_eq!(s.output_mode, OutputMode::Color);
    assert_eq!(s.threshold, 99);
    assert_eq!(s.color_count, 4);
    assert_eq!(s.smoothing, 7);
    assert_eq!(s.path_simplification, 10);
    assert_eq!(s.noise_reduction, 2);
    assert_eq!(s.background_transparency, true);
    assert_eq!(s.brightness, -100);
    assert_eq!(s.contrast, 100);
    assert_eq!(s.gamma_centi, 250);
    assert_eq!(s.corner_threshold, 30);
    assert_eq!(s.curve_mode, CurveMode::Polygon);
}

#[test]
fn gamma_is_clamped_not_rejected() {
    let s = parse_settings(&payload("{\"gamma\": 0}")).unwrap();
    assert_eq!(s.gamma_centi, 1);
    let s2 = parse_settings(&payload("{\"gamma\": 0.5}")).unwrap();
    assert_eq!(s2.gamma_centi, 50);
}

#[test]
fn color_settings_map_to_engine_configuration() {
    // settings payload {"output_mode":"color","color_count":4} maps to an
    // engine configuration with color mode and color precision 4
    let s = parse_settings(&payload("{\"output_mode\":\"color\",\"color_count\":4}")).unwrap();
    let c = create_vtracer_config(&s);
    assert_eq!(c.color_mode, EngineColorMode::Color);
    assert_eq!(c.color_precision, 4);
}

#[test]
fn engine_mapping_formulas() {
    let mut s = ConversionSettings::default();
    s.path_simplification = 10;
    s.noise_reduction = 4;
    s.corner_threshold = 45;
    s.curve_mode = CurveMode::Polygon;
    let c = create_vtracer_config(&s);
    // precision = 100 - (10/10)*90 = 10; speckle = 4 * 2 = 8
    assert_eq!(c.path_precision, 10);
    assert_eq!(c.filter_speckle, 8);
    assert_eq!(c.corner_threshold, 45);
    assert_eq!(c.path_mode, EnginePathMode::Polygon);
    // monochrome default passes the threshold through
    assert_eq!(c.color_mode, EngineColorMode::Binary);
    assert_eq!(c.hierarchical_threshold, 128);
}

#[test]
fn null_for_a_known_field_keeps_its_default() {
    let s = parse_settings(&payload("{\"threshold\": null, \"brightness\": 12}")).unwrap();
    assert_eq!(s.threshold, 128);
    assert_eq!(s.brightness, 12);
}

#[test]
fn unknown_fields_of_any_shape_are_ignored() {
    let s = parse_settings(&payload(
        "{\"extras\": {\"nested\": [1, 2, {\"deep\": true}]}, \"contrast\": 5}",
    ))
    .unwrap();
    assert_eq!(s.contrast, 5);
    let s2 = parse_settings(&payload("{\"big\": 123456789123456789e99, \"threshold\": 9}")).unwrap();
    assert_eq!(s2.threshold, 9);
    let s3 = parse_settings(&payload("{\"list\": [], \"note\": \"quoted \\\" text\"}")).unwrap();
    assert_eq!(s3, ConversionSettings::default());
}

#[test]
fn escaped_mode_strings_compare_raw() {
    // the mode comparison is over raw bytes: an escaped spelling is a
    // different string and selects the color fallback
    let s = parse_settings(&payload("{\"output_mode\": \"monochrom\\u0065\"}")).unwrap();
    assert_eq!(s.output_mode, OutputMode::Color);
}
