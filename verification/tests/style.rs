use avt::charset::Charset;
use avt::cursor::Cursor;
use avt::pen::Intensity;
use avt::{Cell, Color, Pen, Rgb};

#[test]
fn default_pen_is_default() {
    let pen = Pen::default();
    assert!(pen.is_default());
    assert!(!pen.is_bold() && !pen.is_faint());
    assert_eq!(pen.attrs, 0);
}

#[test]
fn each_flag_is_set_and_cleared_alone() {
    let mut pen = Pen::default();
    pen.set_italic();
    assert!(pen.is_italic() && !pen.is_underline());
    assert_eq!(pen.attrs, 1);
    pen.set_underline();
    assert_eq!(pen.attrs, 3);
    pen.set_strikethrough();
    assert_eq!(pen.attrs, 7);
    pen.set_blink();
    assert_eq!(pen.attrs, 15);
    pen.set_inverse();
    assert_eq!(pen.attrs, 31);
    assert!(pen.is_strikethrough() && pen.is_blink() && pen.is_inverse());
    assert!(!pen.is_default());
    pen.unset_italic();
    assert_eq!(pen.attrs, 30);
    pen.unset_underline();
    assert_eq!(pen.attrs, 28);
    pen.unset_strikethrough();
    assert_eq!(pen.attrs, 24);
    pen.unset_blink();
    assert_eq!(pen.attrs, 16);
    pen.unset_inverse();
    assert_eq!(pen.attrs, 0);
    assert!(pen.is_default());
}

#[test]
fn colours_and_intensity_make_a_pen_not_default() {
    let coloured = Pen {
        foreground: Some(Color::Indexed(1)),
        ..Pen::default()
    };
    assert!(!coloured.is_default());
    let bold = Pen {
        intensity: Intensity::Bold,
        ..Pen::default()
    };
    assert!(bold.is_bold() && !bold.is_default());
    let faint = Pen {
        intensity: Intensity::Faint,
        ..Pen::default()
    };
    assert!(faint.is_faint() && !faint.is_default());
}

#[test]
fn colours_come_from_parameters() {
    assert_eq!(Color::from(7u16), Color::Indexed(7));
    assert_eq!(Color::from(258u16), Color::Indexed(2));
    assert_eq!(Color::from((10u16, 20u16, 300u16)), Color::RGB(Rgb::new(10, 20, 44)));
    assert_eq!(avt::color::channel(255), 255);
    assert_eq!(avt::color::channel(256), 0);
}

#[test]
fn cells_are_made_of_a_character_and_a_pen() {
    let pen = Pen {
        background: Some(Color::RGB(Rgb::new(1, 2, 3))),
        ..Pen::default()
    };
    assert_eq!(Cell::new('x', pen), Cell { ch: 'x', pen });
    assert_eq!(Cell::blank(pen), Cell { ch: ' ', pen });
    let cell: Cell = 'q'.into();
    assert_eq!(cell, Cell::new('q', Pen::default()));
}

#[test]
fn ascii_charset_changes_nothing() {
    for ch in ['a', '`', '~', '\u{7f}', 'é'] {
        assert_eq!(Charset::Ascii.translate(ch), ch);
    }
}

#[test]
fn drawing_charset_replaces_its_range() {
    let expected = [
        '♦', '▒', '␉', '␌', '␍', '␊', '°', '±', '␤', '␋', '┘', '┐', '┌', '└', '┼', '⎺', '⎻', '─',
        '⎼', '⎽', '├', '┤', '┴', '┬', '│', '≤', '≥', 'π', '≠', '£', '⋅',
    ];
    for (i, want) in expected.iter().enumerate() {
        let input = char::from_u32(0x60 + i as u32).unwrap();
        assert_eq!(Charset::Drawing.translate(input), *want);
    }
    assert_eq!(Charset::Drawing.translate('\u{5f}'), '\u{5f}');
    assert_eq!(Charset::Drawing.translate('\u{7f}'), '\u{7f}');
    assert_eq!(Charset::Drawing.translate('A'), 'A');
}

#[test]
fn cursor_position_and_visibility() {
    let cursor = Cursor::default();
    assert_eq!(cursor.position(), (0, 0));
    assert!(cursor.visible);
    let moved = Cursor {
        col: 3,
        row: 4,
        visible: true,
    };
    assert_eq!(moved.position(), (3, 4));
    assert_eq!(moved.shown_position(), Some((3, 4)));
    let hidden = Cursor {
        visible: false,
        ..moved
    };
    assert_eq!(hidden.position(), (3, 4));
    assert_eq!(hidden.shown_position(), None);
}

#[test]
fn a_cursor_turns_into_its_shown_position() {
    let cursor = Cursor {
        col: 2,
        row: 1,
        visible: true,
    };
    let shown: Option<(usize, usize)> = cursor.into();
    assert_eq!(shown, Some((2, 1)));
    let hidden: Option<(usize, usize)> = Cursor {
        visible: false,
        ..cursor
    }
    .into();
    assert_eq!(hidden, None);
}
