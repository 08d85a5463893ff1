use tp_term::colors::{ColorScheme, Rgba};
use tp_term::vt::VTColor;

#[test]
fn rgba_rgb_is_opaque() {
    assert_eq!(Rgba::rgb(1, 2, 3), Rgba(1, 2, 3, 0xff));
    assert_eq!(Rgba::default(), Rgba(0, 0, 0, 0xff));
}

#[test]
fn color_scheme_defaults() {
    let scheme = ColorScheme::default();
    assert_eq!(scheme.get_color(VTColor::DefaultFg), Rgba::rgb(0xff, 0xff, 0xff));
    assert_eq!(scheme.get_color(VTColor::DefaultBg), Rgba::rgb(0, 0, 0));
    assert_eq!(scheme.get_color(VTColor::Rgb(9, 8, 7)), Rgba(9, 8, 7, 0xff));
}

#[test]
fn color_scheme_palette() {
    let scheme = ColorScheme::default();
    assert_eq!(scheme.get_color(VTColor::Indexed(0)), Rgba::rgb(0, 0, 0));
    assert_eq!(scheme.get_color(VTColor::Indexed(1)), Rgba::rgb(0xc0, 0, 0));
    assert_eq!(scheme.get_color(VTColor::Indexed(12)), Rgba::rgb(0x00, 0x30, 0xff));
    assert_eq!(scheme.get_color(VTColor::Indexed(15)), Rgba::rgb(0xff, 0xff, 0xff));
    assert_eq!(scheme.indexed_color(16), Rgba::rgb(0, 0, 0));
    assert_eq!(scheme.indexed_color(17), Rgba::rgb(0, 0, 0x5f));
    assert_eq!(scheme.indexed_color(196), Rgba::rgb(0xff, 0, 0));
    assert_eq!(scheme.indexed_color(110), Rgba::rgb(0x87, 0xaf, 0xd7));
    assert_eq!(scheme.indexed_color(231), Rgba::rgb(0xff, 0xff, 0xff));
    assert_eq!(scheme.indexed_color(232), Rgba::rgb(8, 8, 8));
    assert_eq!(scheme.indexed_color(255), Rgba::rgb(238, 238, 238));
}

#[test]
fn it_works() {
    assert_eq!(2 + 2, 4);
}
