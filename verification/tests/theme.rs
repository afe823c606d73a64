use avt::pen::Intensity;
use avt::render::{color_to_rgb, mix_colors, pixel_position, text_attrs, TextAttrs};
use avt::theme::{Theme, ThemeError, ThemeName};
use avt::{Color, Pen, Rgb};

const NAMES: [ThemeName; 8] = [
    ThemeName::Asciinema,
    ThemeName::Dracula,
    ThemeName::GithubDark,
    ThemeName::GithubLight,
    ThemeName::Monokai,
    ThemeName::Nord,
    ThemeName::SolarizedDark,
    ThemeName::SolarizedLight,
];

fn dracula() -> Theme {
    Theme::named(ThemeName::Dracula)
}

#[test]
fn every_named_theme_parses() {
    for name in NAMES {
        let theme = Theme::named(name);
        assert_eq!(theme, Theme::parse(Theme::source(name)).unwrap());
    }
    assert_eq!(ThemeName::default(), ThemeName::Dracula);
}

#[test]
fn named_theme_has_its_colours() {
    let theme = dracula();
    assert_eq!(theme.background, Rgb::new(0x28, 0x2a, 0x36));
    assert_eq!(theme.foreground, Rgb::new(0xf8, 0xf8, 0xf2));
    assert_eq!(theme.background(), theme.background);
    assert_eq!(theme.foreground(), theme.foreground);
    assert_eq!(theme.color(0), Rgb::new(0x21, 0x22, 0x2c));
    assert_eq!(theme.color(1), Rgb::new(0xff, 0x55, 0x55));
    assert_eq!(theme.color(8), Rgb::new(0x62, 0x72, 0xa4));
    assert_eq!(theme.color(15), Rgb::new(0xff, 0xff, 0xff));
    assert_eq!(theme.clone(), theme);
}

#[test]
fn eight_palette_colours_stand_twice() {
    let theme = Theme::parse("000000,ffffff,010101,020202,030303,040404,050505,060606,070707,080808")
        .unwrap();
    for i in 0..8u8 {
        assert_eq!(theme.color(i), Rgb::new(i + 1, i + 1, i + 1));
        assert_eq!(theme.color(i + 8), Rgb::new(i + 1, i + 1, i + 1));
    }
}

#[test]
fn digits_may_be_upper_case_or_signed() {
    let theme = Theme::parse("AbCdEf,+1+a+F,000000,000000,000000,000000,000000,000000,000000,000000")
        .unwrap();
    assert_eq!(theme.background, Rgb::new(0xab, 0xcd, 0xef));
    assert_eq!(theme.foreground, Rgb::new(1, 10, 15));
}

#[test]
fn what_is_wrong_with_a_theme() {
    assert_eq!(Theme::parse(""), Err(ThemeError::NotHexTriplet));
    assert_eq!(Theme::parse("12345"), Err(ThemeError::NotHexTriplet));
    assert_eq!(Theme::parse("1234567"), Err(ThemeError::NotHexTriplet));
    assert_eq!(Theme::parse("12345g"), Err(ThemeError::InvalidDigit));
    assert_eq!(Theme::parse("-12345"), Err(ThemeError::InvalidDigit));
    assert_eq!(Theme::parse("1+2345"), Err(ThemeError::InvalidDigit));
    assert_eq!(Theme::parse("12345é"), Err(ThemeError::NotHexTriplet));
    assert_eq!(Theme::parse("1234é"), Err(ThemeError::InvalidDigit));
    assert_eq!(Theme::parse("123456"), Err(ThemeError::WrongCount(1)));
    assert_eq!(Theme::parse("123456,123456"), Err(ThemeError::WrongCount(2)));
    assert_eq!(Theme::parse("123456,"), Err(ThemeError::NotHexTriplet));
    assert_eq!(Theme::parse("12345g,12"), Err(ThemeError::InvalidDigit));
    assert_eq!(Theme::parse("12,12345g"), Err(ThemeError::NotHexTriplet));
    let eleven = ["123456"; 11].join(",");
    assert_eq!(Theme::parse(&eleven), Err(ThemeError::WrongCount(11)));
    let eighteen = ["123456"; 18].join(",");
    assert!(Theme::parse(&eighteen).is_ok());
}

#[test]
fn colours_beyond_the_theme_are_a_cube_and_greys() {
    let theme = dracula();
    assert_eq!(theme.color(16), Rgb::new(0, 0, 0));
    assert_eq!(theme.color(17), Rgb::new(0, 0, 95));
    assert_eq!(theme.color(21), Rgb::new(0, 0, 255));
    assert_eq!(theme.color(22), Rgb::new(0, 95, 0));
    assert_eq!(theme.color(52), Rgb::new(95, 0, 0));
    assert_eq!(theme.color(110), Rgb::new(135, 175, 215));
    assert_eq!(theme.color(231), Rgb::new(255, 255, 255));
    assert_eq!(theme.color(232), Rgb::new(8, 8, 8));
    assert_eq!(theme.color(244), Rgb::new(128, 128, 128));
    assert_eq!(theme.color(255), Rgb::new(238, 238, 238));
}

#[test]
fn colours_resolve_through_the_theme() {
    let theme = dracula();
    assert_eq!(color_to_rgb(&Color::RGB(Rgb::new(1, 2, 3)), &theme), Rgb::new(1, 2, 3));
    assert_eq!(color_to_rgb(&Color::Indexed(1), &theme), Rgb::new(0xff, 0x55, 0x55));
}

#[test]
fn a_plain_cell_has_the_foreground_of_the_theme() {
    let theme = dracula();
    let attrs = text_attrs(&Pen::default(), &None, 0, 0, &theme);
    assert_eq!(
        attrs,
        TextAttrs {
            foreground: theme.foreground,
            background: None
        }
    );
}

#[test]
fn bold_and_blink_brighten_the_first_eight_colours() {
    let theme = dracula();
    let mut pen = Pen {
        foreground: Some(Color::Indexed(1)),
        background: Some(Color::Indexed(2)),
        intensity: Intensity::Bold,
        attrs: 0,
    };
    let attrs = text_attrs(&pen, &Some((1, 0)), 0, 0, &theme);
    assert_eq!(attrs.foreground, theme.color(9));
    assert_eq!(attrs.background, Some(theme.color(2)));
    pen.set_blink();
    pen.foreground = Some(Color::Indexed(8));
    let attrs = text_attrs(&pen, &None, 0, 0, &theme);
    assert_eq!(attrs.foreground, theme.color(8));
    assert_eq!(attrs.background, Some(theme.color(10)));
}

#[test]
fn inverse_and_cursor_swap_the_colours() {
    let theme = dracula();
    let mut pen = Pen {
        foreground: Some(Color::Indexed(1)),
        ..Pen::default()
    };
    let under_cursor = text_attrs(&pen, &Some((3, 4)), 3, 4, &theme);
    assert_eq!(under_cursor.foreground, theme.background);
    assert_eq!(under_cursor.background, Some(theme.color(1)));
    let beside_cursor = text_attrs(&pen, &Some((3, 4)), 4, 3, &theme);
    assert_eq!(beside_cursor.foreground, theme.color(1));
    assert_eq!(beside_cursor.background, None);
    pen.set_inverse();
    let inverse = text_attrs(&pen, &None, 3, 4, &theme);
    assert_eq!(inverse, under_cursor);
    let both = text_attrs(&pen, &Some((3, 4)), 3, 4, &theme);
    assert_eq!(both, beside_cursor);
    let plain_inverse = text_attrs(
        &Pen {
            attrs: 16,
            ..Pen::default()
        },
        &None,
        0,
        0,
        &theme,
    );
    assert_eq!(plain_inverse.foreground, theme.background);
    assert_eq!(plain_inverse.background, Some(theme.foreground));
}

#[test]
fn pixels_outside_a_cell_belong_to_its_neighbours() {
    assert_eq!(pixel_position(2, 5, 10, 10, 20), Some(2));
    assert_eq!(pixel_position(2, 5, 19, 10, 20), Some(2));
    assert_eq!(pixel_position(2, 5, 9, 10, 20), Some(1));
    assert_eq!(pixel_position(0, 5, 9, 10, 20), None);
    assert_eq!(pixel_position(2, 5, 20, 10, 20), Some(3));
    assert_eq!(pixel_position(5, 5, 20, 10, 20), None);
}

#[test]
fn mixing_weighs_the_two_channels() {
    assert_eq!(mix_colors(200, 100, 0), 100);
    assert_eq!(mix_colors(200, 100, 255), 200);
    assert_eq!(mix_colors(200, 100, 128), 149);
    assert_eq!(mix_colors(255, 255, 100), 255);
    assert_eq!(mix_colors(255, 255, 1), 255);
    assert_eq!(mix_colors(0, 0, 77), 0);
}

#[test]
fn a_theme_parses_from_a_string() {
    let text = Theme::source(ThemeName::Nord);
    let theme: Theme = text.parse().unwrap();
    assert_eq!(theme, Theme::named(ThemeName::Nord));
    assert_eq!("12".parse::<Theme>(), Err(ThemeError::NotHexTriplet));
}
