use agt::color::{
    colorfgbg_str_to_rgb, default_dark_bg, parse_osc_color, parse_osc_color_response, response_ends,
    RgbColor,
};

/// How bright a colour is, from 0 to 1.
fn relative_luminance(c: RgbColor) -> f64 {
    fn linearize(v: u8) -> f64 {
        let s = v as f64 / 255.0;
        if s <= 0.04045 {
            s / 12.92
        } else {
            ((s + 0.055) / 1.055).powf(2.4)
        }
    }
    0.2126 * linearize(c.r) + 0.7152 * linearize(c.g) + 0.0722 * linearize(c.b)
}

#[test]
fn parse_osc_color_white() {
    let c = parse_osc_color("rgb:ffff/ffff/ffff").unwrap();
    assert_eq!(
        c,
        RgbColor {
            r: 255,
            g: 255,
            b: 255
        }
    );
}

#[test]
fn parse_osc_color_black() {
    let c = parse_osc_color("rgb:0000/0000/0000").unwrap();
    assert_eq!(c, RgbColor { r: 0, g: 0, b: 0 });
}

#[test]
fn parse_osc_color_dark_grey() {
    let c = parse_osc_color("rgb:1c1c/1e1e/1f1f").unwrap();
    assert_eq!(
        c,
        RgbColor {
            r: 0x1c,
            g: 0x1e,
            b: 0x1f
        }
    );
}

#[test]
fn parse_osc_color_malformed_returns_none() {
    assert!(parse_osc_color("rgb:gg/00/00").is_none());
    assert!(parse_osc_color("").is_none());
    assert!(parse_osc_color("rgb:ff/ff").is_none());
    assert!(parse_osc_color("notrgb:ff/ff/ff").is_none());
}

#[test]
fn colorfgbg_dark() {
    // "15;0": fg=white(15), bg=black(0) → dark theme
    let c = colorfgbg_str_to_rgb("15;0").unwrap();
    assert!(
        relative_luminance(c) < 0.5,
        "bg=0 should yield a dark color"
    );
}

#[test]
fn colorfgbg_light() {
    // "0;15": fg=black(0), bg=white(15) → light theme
    let c = colorfgbg_str_to_rgb("0;15").unwrap();
    assert!(
        relative_luminance(c) > 0.5,
        "bg=15 should yield a light color"
    );
}

#[test]
fn parse_response_bel_terminated() {
    let resp = b"\x1b]11;rgb:1c1c/1e1e/1f1f\x07";
    let c = parse_osc_color_response(resp).unwrap();
    assert_eq!(
        c,
        RgbColor {
            r: 0x1c,
            g: 0x1e,
            b: 0x1f
        }
    );
}

#[test]
fn parse_response_st_terminated() {
    let resp = b"\x1b]11;rgb:ffff/ffff/ffff\x1b\\";
    let c = parse_osc_color_response(resp).unwrap();
    assert_eq!(
        c,
        RgbColor {
            r: 255,
            g: 255,
            b: 255
        }
    );
}

#[test]
fn parts_of_other_widths_stand_for_themselves() {
    assert_eq!(parse_osc_color("rgb:f/8/0"), Some(RgbColor { r: 15, g: 8, b: 0 }));
    assert_eq!(parse_osc_color("rgb:0ff/012/1ab"), Some(RgbColor { r: 0xff, g: 0x12, b: 0xab }));
    assert_eq!(parse_osc_color("rgb:80/40/ff"), Some(RgbColor { r: 0x80, g: 0x40, b: 0xff }));
}

#[test]
fn a_response_that_is_no_text_is_none() {
    assert_eq!(parse_osc_color_response(&[0x1b, 0xff, 0xfe]), None);
    assert_eq!(parse_osc_color_response(b"\x1b]11;?\x07"), None);
}

#[test]
fn a_response_ends_at_its_terminator_or_when_it_is_too_long() {
    assert!(!response_ends(b""));
    assert!(!response_ends(b"\x1b]11;rgb:ff"));
    assert!(response_ends(b"\x1b]11;rgb:ff\x07"));
    assert!(response_ends(b"\x1b]11;rgb:ff\x1b\\"));
    assert!(!response_ends(b"rgb\\"));
    assert!(!response_ends(&[b'x'; 256]));
    assert!(response_ends(&[b'x'; 257]));
}

#[test]
fn the_background_index_decides() {
    assert_eq!(colorfgbg_str_to_rgb("15;8"), Some(default_dark_bg()));
    assert_eq!(colorfgbg_str_to_rgb("15; 9 "), Some(RgbColor { r: 255, g: 255, b: 255 }));
    assert_eq!(colorfgbg_str_to_rgb("15"), None);
    assert_eq!(colorfgbg_str_to_rgb("15;default"), None);
    assert_eq!(colorfgbg_str_to_rgb("15;256"), None);
    assert_eq!(default_dark_bg(), RgbColor { r: 0x1c, g: 0x1e, b: 0x1f });
}
