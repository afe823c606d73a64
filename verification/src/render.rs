use crate::color::{Color, Rgb};
use crate::pen::{flag, Intensity, Pen, BLINK_MASK, INVERSE_MASK};
use crate::theme::{palette_color, Theme, ThemeView};
use vstd::prelude::*;

verus! {

/// The colours that a cell is drawn in: the foreground, and the background
/// where it differs from that of the screen.
#[derive(Debug, Clone, Copy, PartialEq, Eq)]
pub struct TextAttrs {
    pub foreground: Rgb,
    pub background: Option<Rgb>,
}

/// The colour as it is drawn in a theme.
pub open spec fn resolved(color: Color, theme: ThemeView) -> Rgb {
    match color {
        Color::RGB(rgb) => rgb,
        Color::Indexed(index) => palette_color(theme.palette, index),
    }
}

/// The colour with one of the first eight entries of the palette replaced
/// by its bright twin, if `bright` says so.
pub open spec fn brightened(color: Option<Color>, bright: bool) -> Option<Color> {
    match color {
        Some(Color::Indexed(n)) => if bright && n < 8 {
            Some(Color::Indexed((n + 8) as u8))
        } else {
            color
        },
        _ => color,
    }
}

/// The colours that the cell in column `x` of row `y` is drawn in. A bold
/// pen brightens the foreground and a blinking pen the background. The two
/// change places if the pen is inverse or the cursor is on the cell, but
/// not if both hold; the foreground and background of the theme stand in
/// for what the pen leaves open.
pub open spec fn attrs_of(
    pen: Pen,
    cursor: Option<(usize, usize)>,
    x: usize,
    y: usize,
    theme: ThemeView,
) -> TextAttrs {
    let foreground = brightened(pen.foreground, pen.intensity == Intensity::Bold);
    let background = brightened(pen.background, flag(pen.attrs, BLINK_MASK));
    let under_cursor = cursor == Some((x, y));
    if flag(pen.attrs, INVERSE_MASK) != under_cursor {
        TextAttrs {
            foreground: match background {
                Some(color) => resolved(color, theme),
                None => theme.background,
            },
            background: Some(
                match foreground {
                    Some(color) => resolved(color, theme),
                    None => theme.foreground,
                },
            ),
        }
    } else {
        TextAttrs {
            foreground: match foreground {
                Some(color) => resolved(color, theme),
                None => theme.foreground,
            },
            background: match background {
                Some(color) => Some(resolved(color, theme)),
                None => None,
            },
        }
    }
}

/// The cell that a pixel at `p` belongs to, seen from the cell `c` whose
/// pixels run from `p_min` up to, not including, `p_max`: the cell itself,
/// or the one before or after it, if there is one.
pub open spec fn neighbour(c: usize, c_max: usize, p: usize, p_min: usize, p_max: usize) -> Option<
    usize,
> {
    if p < p_min {
        if c > 0 {
            Some((c - 1) as usize)
        } else {
            None
        }
    } else if p >= p_max {
        if c < c_max {
            Some((c + 1) as usize)
        } else {
            None
        }
    } else {
        Some(c)
    }
}

/// A channel of a foreground laid over one of a background, with `ratio`
/// parts in 255 of the foreground; each share is rounded down.
pub open spec fn mixed(fg: u8, bg: u8, ratio: u16) -> int {
    bg * (255 - ratio) / 255 + fg * ratio / 255
}

/// A mix of two channels is a channel.
pub proof fn lemma_mixed_is_a_channel(fg: u8, bg: u8, ratio: u16)
    requires
        ratio <= 255,
    ensures
        0 <= mixed(fg, bg, ratio) <= 255,
        0 <= bg * (255 - ratio) / 255 <= 255,
        0 <= fg * ratio / 255 <= 255,
        bg * (255 - ratio) <= 65025,
        fg * ratio <= 65025,
{
    let f = fg as int;
    let b = bg as int;
    let r = ratio as int;
    assert(0 <= b * (255 - r) <= 255 * (255 - r) && 0 <= f * r <= 255 * r) by (nonlinear_arith)
        requires
            0 <= f <= 255,
            0 <= b <= 255,
            0 <= r <= 255,
    ;
    assert(b * (255 - r) / 255 + f * r / 255 <= 255) by (nonlinear_arith)
        requires
            0 <= b * (255 - r) <= 255 * (255 - r),
            0 <= f * r <= 255 * r,
            0 <= r <= 255,
    ;
}

fn brighten(color: Option<Color>, bright: bool) -> (r: Option<Color>)
    ensures
        r == brightened(color, bright),
{
    match color {
        Some(Color::Indexed(n)) => if bright && n < 8 {
            Some(Color::Indexed(n + 8))
        } else {
            color
        },
        _ => color,
    }
}

pub fn color_to_rgb(c: &Color, theme: &Theme) -> (rgb: Rgb)
    requires
        theme.wf(),
    ensures
        rgb == resolved(*c, theme@),
{
    match c {
        Color::RGB(rgb) => *rgb,
        Color::Indexed(index) => theme.color(*index),
    }
}

pub fn text_attrs(
    pen: &Pen,
    cursor: &Option<(usize, usize)>,
    x: usize,
    y: usize,
    theme: &Theme,
) -> (attrs: TextAttrs)
    requires
        theme.wf(),
    ensures
        attrs == attrs_of(*pen, *cursor, x, y, theme@),
{
    let mut foreground = brighten(pen.foreground, pen.is_bold());
    let mut background = brighten(pen.background, pen.is_blink());
    let inverse = match cursor {
        Some((cx, cy)) => *cx == x && *cy == y,
        None => false,
    };
    if pen.is_inverse() != inverse {
        let fg = match background {
            Some(color) => color,
            None => Color::RGB(theme.background()),
        };
        let bg = match foreground {
            Some(color) => color,
            None => Color::RGB(theme.foreground()),
        };
        foreground = Some(fg);
        background = Some(bg);
    }
    TextAttrs {
        foreground: match foreground {
            Some(color) => color_to_rgb(&color, theme),
            None => theme.foreground(),
        },
        background: match background {
            Some(color) => Some(color_to_rgb(&color, theme)),
            None => None,
        },
    }
}

pub fn pixel_position(c: usize, c_max: usize, p: usize, p_min: usize, p_max: usize) -> (r: Option<
    usize,
>)
    ensures
        r == neighbour(c, c_max, p, p_min, p_max),
{
    if p < p_min {
        if c > 0 {
            Some(c - 1)
        } else {
            None
        }
    } else if p >= p_max {
        if c < c_max {
            Some(c + 1)
        } else {
            None
        }
    } else {
        Some(c)
    }
}

pub fn mix_colors(fg: u8, bg: u8, ratio: u16) -> (r: u8)
    requires
        ratio <= 255,
    ensures
        r == mixed(fg, bg, ratio),
{
    proof {
        lemma_mixed_is_a_channel(fg, bg, ratio);
    }
    let back: u16 = (bg as u16) * (255 - ratio) / 255;
    let front: u16 = (fg as u16) * ratio / 255;
    (back + front) as u8
}

} // verus!
