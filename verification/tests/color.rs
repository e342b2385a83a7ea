use fancy_status::color::{Color, LinearColor, SCALE};

#[test]
fn display_color888() {
    assert_eq!(Color(0, 0, 0).to_string(), "000000");
    assert_eq!(Color(255, 255, 255).to_string(), "ffffff");
    assert_eq!(Color(1, 254, 10).to_string(), "01fe0a");
}

#[test]
fn color_display_color888() {
    assert_eq!(Color(0, 0, 0).to_string(), "000000");
    assert_eq!(Color(255, 255, 255).to_string(), "ffffff");
    assert_eq!(Color(1, 254, 10).to_string(), "01fe0a");
}

#[test]
fn lossless_conversion() {
    for i in 0..256 {
        let a = i as u8;
        let color = Color(a, a, a);
        let color2 = LinearColor::from(color).clamp_to_888();
        assert_eq!(color, color2);
    }
}

#[test]
fn color_lossless_conversion() {
    for i in 0..256 {
        let a = i as u8;
        let color = Color(a, a, a);
        let color2 = LinearColor::from(color).clamp_to_888();
        assert_eq!(color, color2);
    }
}

/// The full round-trip law, on a spread of display triplets.
#[test]
fn round_trip_law_spread() {
    for r in (0..256).step_by(7) {
        for g in (0..256).step_by(11) {
            for b in (0..256).step_by(13) {
                let color = Color(r as u8, g as u8, b as u8);
                assert_eq!(LinearColor::from(color).clamp_to_888(), color);
            }
        }
    }
}

#[test]
fn clampped_down_conversion() {
    // a linear channel of `i / 255` on the unit scale is `i * 255` here
    let max = Color(255, 255, 255);
    for i in 256i64..512 {
        let a = i * 255;
        let color = LinearColor { r: a, g: a, b: a }.clamp_to_888();
        assert_eq!(color, max);
    }
}

#[test]
fn color_clampped_down_conversion() {
    let max = Color(255, 255, 255);
    for i in 256i64..512 {
        let a = i * 255;
        let color = LinearColor { r: a, g: a, b: a }.clamp_to_888();
        assert_eq!(color, max);
    }
}

#[test]
fn clampped_up_conversion() {
    let min = Color(0, 0, 0);
    for i in -256i64..0 {
        let a = i * 255;
        let color = LinearColor { r: a, g: a, b: a }.clamp_to_888();
        assert_eq!(color, min);
    }
}

#[test]
fn color_clampped_up_conversion() {
    let min = Color(0, 0, 0);
    for i in -256i64..0 {
        let a = i * 255;
        let color = LinearColor { r: a, g: a, b: a }.clamp_to_888();
        assert_eq!(color, min);
    }
}

#[test]
fn clamp_boundaries() {
    // exactly at and just past the nominal range
    assert_eq!(LinearColor { r: SCALE, g: 0, b: SCALE + 1 }.clamp_to_888(), Color(255, 0, 255));
    assert_eq!(LinearColor { r: -1, g: 0, b: 1 }.clamp_to_888(), Color(0, 0, 1));
}

#[test]
fn mixing() {
    let c1 = LinearColor { r: SCALE, g: 0, b: 0 };
    let c2 = LinearColor { r: 0, g: 0, b: SCALE };
    for i in 0..256 {
        let mix1 = c1.mix(c2, i, 255).clamp_to_888();
        let mix2 = c1.mix_fast(c2, i, 255).clamp_to_888();
        println!("{} {}", mix1.to_string(), mix2.to_string());
    }
}

#[test]
fn mix_endpoints() {
    let c1 = LinearColor { r: SCALE, g: 0, b: 0 };
    let c2 = LinearColor { r: 0, g: SCALE, b: 0 };
    assert_eq!(c1.mix_fast(c2, 0, 1000), c1);
    assert_eq!(c1.mix_fast(c2, 1000, 1000), c2);
}

#[test]
fn lightness() {
    let c = LinearColor { r: 32512, g: 32512, b: 32512 };
    let black = c.set_lightness(0).clamp_to_888().to_string();
    let white = c.set_lightness(1000).clamp_to_888().to_string();
    assert_eq!(black, "000000");
    assert_eq!(white, "ffffff");
}
