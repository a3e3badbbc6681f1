use vectorize::preprocess::{adjust_brightness, adjust_contrast, adjust_gamma, preprocess_image, Image, Pixel};
use vectorize::settings::ConversionSettings;

fn px(r: u8, g: u8, b: u8, a: u8) -> Pixel {
    Pixel { r, g, b, a }
}

fn sample_image() -> Image {
    let mut pixels = Vec::new();
    for i in 0..16u32 {
        let v = (i * 16) as u8;
        pixels.push(px(v, 255 - v, v / 2, (i % 5) as u8 * 60));
    }
    Image { width: 4, height: 4, pixels }
}

fn identity_table() -> Vec<u8> {
    (0..=255u8).collect()
}

fn bytes_of(img: &Image) -> Vec<u8> {
    let mut out = Vec::new();
    for p in &img.pixels {
        out.push(p.r);
        out.push(p.g);
        out.push(p.b);
        out.push(p.a);
    }
    out
}

#[test]
fn identity_settings_leave_image_unchanged() {
    let img = sample_image();
    let mut s = ConversionSettings::default();
    s.brightness = 0;
    s.contrast = 0;
    s.gamma_centi = 100;
    let out = preprocess_image(&img, &s, &identity_table());
    assert_eq!(bytes_of(&out), bytes_of(&img));

    // gamma within the 0.01 epsilon still skips the pass
    s.gamma_centi = 101;
    let out2 = preprocess_image(&img, &s, &identity_table());
    assert_eq!(bytes_of(&out2), bytes_of(&img));
}

#[test]
fn preprocessing_is_deterministic() {
    let img = sample_image();
    let mut s = ConversionSettings::default();
    s.brightness = 30;
    s.contrast = -40;
    s.gamma_centi = 220;
    let table: Vec<u8> = (0..=255u16)
        .map(|c| {
            let x = (c as f32 / 255.0).powf(100.0 / 220.0) * 255.0;
            x.clamp(0.0, 255.0) as u8
        })
        .collect();
    let a = preprocess_image(&img, &s, &table);
    let b = preprocess_image(&img, &s, &table);
    assert_eq!(bytes_of(&a), bytes_of(&b));
}

#[test]
fn brightness_formula_exact_values() {
    let img = Image { width: 2, height: 1, pixels: vec![px(100, 0, 250, 77), px(10, 200, 128, 0)] };
    // factor = 10/100: channel' = clamp(channel + 25.5), truncated
    let out = adjust_brightness(&img, 10);
    assert_eq!(out.pixels[0].r, 125);
    assert_eq!(out.pixels[0].g, 25);
    assert_eq!(out.pixels[0].b, 255); // clamped
    assert_eq!(out.pixels[0].a, 77);
    // negative brightness clamps at zero
    let dark = adjust_brightness(&img, -100);
    assert_eq!(dark.pixels[0].r, 0);
    assert_eq!(dark.pixels[0].a, 77);
}

#[test]
fn contrast_formula_exact_values() {
    let img = Image { width: 1, height: 1, pixels: vec![px(100, 128, 255, 9)] };
    // factor = 50/100: channel' = clamp((channel-128)*1.5 + 128)
    let out = adjust_contrast(&img, 50);
    assert_eq!(out.pixels[0].r, 86); // (100-128)*1.5+128 = 86
    assert_eq!(out.pixels[0].g, 128);
    assert_eq!(out.pixels[0].b, 255);
    assert_eq!(out.pixels[0].a, 9);
}

#[test]
fn gamma_table_drives_color_channels_only() {
    let img = sample_image();
    let invert: Vec<u8> = (0..=255u8).map(|c| 255 - c).collect();
    let out = adjust_gamma(&img, &invert);
    for (o, i) in out.pixels.iter().zip(img.pixels.iter()) {
        assert_eq!(o.r, 255 - i.r);
        assert_eq!(o.g, 255 - i.g);
        assert_eq!(o.b, 255 - i.b);
        assert_eq!(o.a, i.a);
    }
}

#[test]
fn alpha_never_changes_and_channels_stay_in_range() {
    let img = sample_image();
    let mut s = ConversionSettings::default();
    s.brightness = 100;
    s.contrast = 100;
    s.gamma_centi = 50;
    let table: Vec<u8> = (0..=255u16)
        .map(|c| {
            let x = (c as f32 / 255.0).powf(2.0) * 255.0;
            x.clamp(0.0, 255.0) as u8
        })
        .collect();
    let out = preprocess_image(&img, &s, &table);
    assert_eq!(out.pixels.len(), img.pixels.len());
    for (o, i) in out.pixels.iter().zip(img.pixels.iter()) {
        assert_eq!(o.a, i.a);
        // channels are bytes: the clamp keeps every computed value in 0..=255
    }
}
