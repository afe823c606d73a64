use crate::color::Rgb;
use vstd::prelude::*;

verus! {

/// The colour themes that come with the library.
#[derive(Debug, Clone, Copy, PartialEq, Eq, Structural)]
pub enum ThemeName {
    Asciinema,
    Dracula,
    GithubDark,
    GithubLight,
    Monokai,
    Nord,
    SolarizedDark,
    SolarizedLight,
}

impl Default for ThemeName {
    fn default() -> (r: Self)
        ensures
            r == ThemeName::Dracula,
    {
        ThemeName::Dracula
    }
}

/// Why a text is not a theme.
#[derive(Debug, Clone, Copy, PartialEq, Eq)]
pub enum ThemeError {
    /// A field is not six characters long.
    NotHexTriplet,
    /// A field of six characters does not hold three numbers in base 16.
    InvalidDigit,
    /// There are neither ten nor eighteen fields, but this many.
    WrongCount(usize),
}

/// The colours of a screen: the background, the foreground, and the first
/// sixteen entries of the palette.
#[derive(Debug, PartialEq, Eq)]
pub struct Theme {
    pub background: Rgb,
    pub foreground: Rgb,
    palette: Vec<Rgb>,
}

/// The value of a theme.
pub struct ThemeView {
    pub background: Rgb,
    pub foreground: Rgb,
    pub palette: Seq<Rgb>,
}

impl View for Theme {
    type V = ThemeView;

    closed spec fn view(&self) -> ThemeView {
        ThemeView {
            background: self.background,
            foreground: self.foreground,
            palette: self.palette@,
        }
    }
}

/// The value of a digit of base 16.
pub open spec fn hex_digit(byte: u8) -> Option<u8> {
    if 0x30 <= byte <= 0x39 {
        Some((byte - 0x30) as u8)
    } else if 0x61 <= byte <= 0x66 {
        Some((byte - 0x61 + 10) as u8)
    } else if 0x41 <= byte <= 0x46 {
        Some((byte - 0x41 + 10) as u8)
    } else {
        None
    }
}

/// The number that two characters are in base 16: two digits, or a plus
/// sign and one digit.
pub open spec fn hex_pair(high: u8, low: u8) -> Option<u8> {
    let sixteens = if high == 0x2b {
        Some(0u8)
    } else {
        hex_digit(high)
    };
    match (sixteens, hex_digit(low)) {
        (Some(h), Some(l)) => Some((16 * h + l) as u8),
        _ => None,
    }
}

/// The colour that a field is: six characters, two for each channel.
pub open spec fn triplet(field: Seq<u8>) -> Result<Rgb, ThemeError> {
    if field.len() != 6 {
        Err(ThemeError::NotHexTriplet)
    } else {
        match (
            hex_pair(field[0], field[1]),
            hex_pair(field[2], field[3]),
            hex_pair(field[4], field[5]),
        ) {
            (Some(r), Some(g), Some(b)) => Ok(Rgb { r, g, b }),
            _ => Err(ThemeError::InvalidDigit),
        }
    }
}

/// How far a text has been read: the colours of the fields that a comma has
/// ended, or what was wrong with the first of them that is no colour, and
/// the field that is still open.
pub struct Scan {
    pub colors: Result<Seq<Rgb>, ThemeError>,
    pub field: Seq<u8>,
}

impl Scan {
    /// The colours with the open field as the last of them.
    pub open spec fn close(self) -> Result<Seq<Rgb>, ThemeError> {
        match self.colors {
            Err(error) => Err(error),
            Ok(colors) => match triplet(self.field) {
                Ok(color) => Ok(colors.push(color)),
                Err(error) => Err(error),
            },
        }
    }

    /// After the bytes of a text: a comma ends the open field, any other
    /// byte belongs to it.
    pub open spec fn over(bytes: Seq<u8>) -> Scan
        decreases bytes.len(),
    {
        if bytes.len() == 0 {
            Scan { colors: Ok(Seq::empty()), field: Seq::empty() }
        } else {
            let before = Scan::over(bytes.drop_last());
            if bytes.last() == 0x2c {
                Scan { colors: before.close(), field: Seq::empty() }
            } else {
                Scan { field: before.field.push(bytes.last()), ..before }
            }
        }
    }
}

/// The theme that ten or eighteen colours make: the background, the
/// foreground, and the palette, in which eight colours stand twice.
pub open spec fn theme_of(colors: Seq<Rgb>) -> Result<ThemeView, ThemeError> {
    if colors.len() != 10 && colors.len() != 18 {
        Err(ThemeError::WrongCount(colors.len() as usize))
    } else {
        Ok(
            ThemeView {
                background: colors[0],
                foreground: colors[1],
                palette: Seq::new(16, |i: int| colors[2 + i % (colors.len() - 2)]),
            },
        )
    }
}

/// The theme that a text describes: colours of six digits of base 16 each,
/// with commas between them. The first field that is no colour decides what
/// is wrong.
pub open spec fn parsed(bytes: Seq<u8>) -> Result<ThemeView, ThemeError> {
    match Scan::over(bytes).close() {
        Err(error) => Err(error),
        Ok(colors) => theme_of(colors),
    }
}

/// The colour of an entry of the 256-colour palette: the first sixteen come
/// from the theme, the next 216 are a cube of six levels for each channel,
/// and the last 24 are greys.
pub open spec fn palette_color(palette: Seq<Rgb>, color: u8) -> Rgb {
    if color < 16 {
        palette[color as int]
    } else if color < 232 {
        let n = color - 16;
        Rgb { r: cube_level((n / 36) % 6), g: cube_level((n / 6) % 6), b: cube_level(n % 6) }
    } else {
        let grey = (8 + 10 * (color - 232)) as u8;
        Rgb { r: grey, g: grey, b: grey }
    }
}

/// The brightness of a level of the colour cube: none at level zero, and
/// from 95 up in steps of 40.
pub open spec fn cube_level(level: int) -> u8 {
    if level == 0 {
        0
    } else {
        (level * 40 + 55) as u8
    }
}

/// The eighteen colours of a theme of the library: the background, the
/// foreground, and the sixteen entries of the palette.
pub open spec fn named_colors(name: ThemeName) -> Seq<Rgb> {
    match name {
        ThemeName::Asciinema => seq![
            Rgb { r: 0x12, g: 0x13, b: 0x14 },
            Rgb { r: 0xcc, g: 0xcc, b: 0xcc },
            Rgb { r: 0x00, g: 0x00, b: 0x00 },
            Rgb { r: 0xdd, g: 0x3c, b: 0x69 },
            Rgb { r: 0x4e, g: 0xbf, b: 0x22 },
            Rgb { r: 0xdd, g: 0xaf, b: 0x3c },
            Rgb { r: 0x26, g: 0xb0, b: 0xd7 },
            Rgb { r: 0xb9, g: 0x54, b: 0xe1 },
            Rgb { r: 0x54, g: 0xe1, b: 0xb9 },
            Rgb { r: 0xd9, g: 0xd9, b: 0xd9 },
            Rgb { r: 0x4d, g: 0x4d, b: 0x4d },
            Rgb { r: 0xdd, g: 0x3c, b: 0x69 },
            Rgb { r: 0x4e, g: 0xbf, b: 0x22 },
            Rgb { r: 0xdd, g: 0xaf, b: 0x3c },
            Rgb { r: 0x26, g: 0xb0, b: 0xd7 },
            Rgb { r: 0xb9, g: 0x54, b: 0xe1 },
            Rgb { r: 0x54, g: 0xe1, b: 0xb9 },
            Rgb { r: 0xff, g: 0xff, b: 0xff },
        ],
        ThemeName::Dracula => seq![
            Rgb { r: 0x28, g: 0x2a, b: 0x36 },
            Rgb { r: 0xf8, g: 0xf8, b: 0xf2 },
            Rgb { r: 0x21, g: 0x22, b: 0x2c },
            Rgb { r: 0xff, g: 0x55, b: 0x55 },
            Rgb { r: 0x50, g: 0xfa, b: 0x7b },
            Rgb { r: 0xf1, g: 0xfa, b: 0x8c },
            Rgb { r: 0xbd, g: 0x93, b: 0xf9 },
            Rgb { r: 0xff, g: 0x79, b: 0xc6 },
            Rgb { r: 0x8b, g: 0xe9, b: 0xfd },
            Rgb { r: 0xf8, g: 0xf8, b: 0xf2 },
            Rgb { r: 0x62, g: 0x72, b: 0xa4 },
            Rgb { r: 0xff, g: 0x6e, b: 0x6e },
            Rgb { r: 0x69, g: 0xff, b: 0x94 },
            Rgb { r: 0xff, g: 0xff, b: 0xa5 },
            Rgb { r: 0xd6, g: 0xac, b: 0xff },
            Rgb { r: 0xff, g: 0x92, b: 0xdf },
            Rgb { r: 0xa4, g: 0xff, b: 0xff },
            Rgb { r: 0xff, g: 0xff, b: 0xff },
        ],
        ThemeName::GithubDark => seq![
            Rgb { r: 0x17, g: 0x1b, b: 0x21 },
            Rgb { r: 0xec, g: 0xef, b: 0xf4 },
            Rgb { r: 0x0e, g: 0x11, b: 0x16 },
            Rgb { r: 0xf9, g: 0x75, b: 0x83 },
            Rgb { r: 0xa2, g: 0xfc, b: 0xa2 },
            Rgb { r: 0xfa, g: 0xbb, b: 0x72 },
            Rgb { r: 0x7d, g: 0xb4, b: 0xf9 },
            Rgb { r: 0xc4, g: 0xa0, b: 0xf5 },
            Rgb { r: 0x1f, g: 0x6f, b: 0xeb },
            Rgb { r: 0xec, g: 0xef, b: 0xf4 },
            Rgb { r: 0x6a, g: 0x73, b: 0x7d },
            Rgb { r: 0xbf, g: 0x5a, b: 0x64 },
            Rgb { r: 0x7a, g: 0xbf, b: 0x7a },
            Rgb { r: 0xbf, g: 0x8f, b: 0x57 },
            Rgb { r: 0x60, g: 0x8b, b: 0xbf },
            Rgb { r: 0x99, g: 0x7d, b: 0xbf },
            Rgb { r: 0x19, g: 0x5c, b: 0xbf },
            Rgb { r: 0xb9, g: 0xbb, b: 0xbf },
        ],
        ThemeName::GithubLight => seq![
            Rgb { r: 0xec, g: 0xef, b: 0xf4 },
            Rgb { r: 0x17, g: 0x1b, b: 0x21 },
            Rgb { r: 0x0e, g: 0x11, b: 0x16 },
            Rgb { r: 0xf9, g: 0x75, b: 0x83 },
            Rgb { r: 0xa2, g: 0xfc, b: 0xa2 },
            Rgb { r: 0xfa, g: 0xbb, b: 0x72 },
            Rgb { r: 0x7d, g: 0xb4, b: 0xf9 },
            Rgb { r: 0xc4, g: 0xa0, b: 0xf5 },
            Rgb { r: 0x1f, g: 0x6f, b: 0xeb },
            Rgb { r: 0xec, g: 0xef, b: 0xf4 },
            Rgb { r: 0x6a, g: 0x73, b: 0x7d },
            Rgb { r: 0xbf, g: 0x5a, b: 0x64 },
            Rgb { r: 0x7a, g: 0xbf, b: 0x7a },
            Rgb { r: 0xbf, g: 0x8f, b: 0x57 },
            Rgb { r: 0x60, g: 0x8b, b: 0xbf },
            Rgb { r: 0x99, g: 0x7d, b: 0xbf },
            Rgb { r: 0x19, g: 0x5c, b: 0xbf },
            Rgb { r: 0xb9, g: 0xbb, b: 0xbf },
        ],
        ThemeName::Monokai => seq![
            Rgb { r: 0x27, g: 0x28, b: 0x22 },
            Rgb { r: 0xf8, g: 0xf8, b: 0xf2 },
            Rgb { r: 0x27, g: 0x28, b: 0x22 },
            Rgb { r: 0xf9, g: 0x26, b: 0x72 },
            Rgb { r: 0xa6, g: 0xe2, b: 0x2e },
            Rgb { r: 0xf4, g: 0xbf, b: 0x75 },
            Rgb { r: 0x66, g: 0xd9, b: 0xef },
            Rgb { r: 0xae, g: 0x81, b: 0xff },
            Rgb { r: 0xa1, g: 0xef, b: 0xe4 },
            Rgb { r: 0xf8, g: 0xf8, b: 0xf2 },
            Rgb { r: 0x75, g: 0x71, b: 0x5e },
            Rgb { r: 0xf9, g: 0x26, b: 0x72 },
            Rgb { r: 0xa6, g: 0xe2, b: 0x2e },
            Rgb { r: 0xf4, g: 0xbf, b: 0x75 },
            Rgb { r: 0x66, g: 0xd9, b: 0xef },
            Rgb { r: 0xae, g: 0x81, b: 0xff },
            Rgb { r: 0xa1, g: 0xef, b: 0xe4 },
            Rgb { r: 0xf9, g: 0xf8, b: 0xf5 },
        ],
        ThemeName::Nord => seq![
            Rgb { r: 0x2e, g: 0x34, b: 0x40 },
            Rgb { r: 0xec, g: 0xef, b: 0xf4 },
            Rgb { r: 0x3b, g: 0x42, b: 0x52 },
            Rgb { r: 0xbf, g: 0x61, b: 0x6a },
            Rgb { r: 0xa3, g: 0xbe, b: 0x8c },
            Rgb { r: 0xeb, g: 0xcb, b: 0x8b },
            Rgb { r: 0x81, g: 0xa1, b: 0xc1 },
            Rgb { r: 0xb4, g: 0x8e, b: 0xad },
            Rgb { r: 0x88, g: 0xc0, b: 0xd0 },
            Rgb { r: 0xec, g: 0xef, b: 0xf4 },
            Rgb { r: 0x3b, g: 0x42, b: 0x52 },
            Rgb { r: 0xbf, g: 0x61, b: 0x6a },
            Rgb { r: 0xa3, g: 0xbe, b: 0x8c },
            Rgb { r: 0xeb, g: 0xcb, b: 0x8b },
            Rgb { r: 0x81, g: 0xa1, b: 0xc1 },
            Rgb { r: 0xb4, g: 0x8e, b: 0xad },
            Rgb { r: 0x88, g: 0xc0, b: 0xd0 },
            Rgb { r: 0xec, g: 0xef, b: 0xf4 },
        ],
        ThemeName::SolarizedDark => seq![
            Rgb { r: 0x00, g: 0x2b, b: 0x36 },
            Rgb { r: 0x83, g: 0x94, b: 0x96 },
            Rgb { r: 0x07, g: 0x36, b: 0x42 },
            Rgb { r: 0xdc, g: 0x32, b: 0x2f },
            Rgb { r: 0x85, g: 0x99, b: 0x00 },
            Rgb { r: 0xb5, g: 0x89, b: 0x00 },
            Rgb { r: 0x26, g: 0x8b, b: 0xd2 },
            Rgb { r: 0xd3, g: 0x36, b: 0x82 },
            Rgb { r: 0x2a, g: 0xa1, b: 0x98 },
            Rgb { r: 0xee, g: 0xe8, b: 0xd5 },
            Rgb { r: 0x00, g: 0x2b, b: 0x36 },
            Rgb { r: 0xcb, g: 0x4b, b: 0x16 },
            Rgb { r: 0x58, g: 0x6e, b: 0x75 },
            Rgb { r: 0x65, g: 0x7b, b: 0x83 },
            Rgb { r: 0x83, g: 0x94, b: 0x96 },
            Rgb { r: 0x6c, g: 0x71, b: 0xc4 },
            Rgb { r: 0x93, g: 0xa1, b: 0xa1 },
            Rgb { r: 0xfd, g: 0xf6, b: 0xe3 },
        ],
        ThemeName::SolarizedLight => seq![
            Rgb { r: 0xfd, g: 0xf6, b: 0xe3 },
            Rgb { r: 0x65, g: 0x7b, b: 0x83 },
            Rgb { r: 0x07, g: 0x36, b: 0x42 },
            Rgb { r: 0xdc, g: 0x32, b: 0x2f },
            Rgb { r: 0x85, g: 0x99, b: 0x00 },
            Rgb { r: 0xb5, g: 0x89, b: 0x00 },
            Rgb { r: 0x26, g: 0x8b, b: 0xd2 },
            Rgb { r: 0xd3, g: 0x36, b: 0x82 },
            Rgb { r: 0x2a, g: 0xa1, b: 0x98 },
            Rgb { r: 0xee, g: 0xe8, b: 0xd5 },
            Rgb { r: 0x00, g: 0x2b, b: 0x36 },
            Rgb { r: 0xcb, g: 0x4b, b: 0x16 },
            Rgb { r: 0x58, g: 0x6e, b: 0x75 },
            Rgb { r: 0x65, g: 0x7c, b: 0x83 },
            Rgb { r: 0x83, g: 0x94, b: 0x96 },
            Rgb { r: 0x6c, g: 0x71, b: 0xc4 },
            Rgb { r: 0x93, g: 0xa1, b: 0xa1 },
            Rgb { r: 0xfd, g: 0xf6, b: 0xe3 },
        ],
    }
}

/// The text of a theme of the library.
pub open spec fn source_text(name: ThemeName) -> Seq<char> {
    match name {
        ThemeName::Asciinema =>
            "121314,cccccc,000000,dd3c69,4ebf22,ddaf3c,26b0d7,b954e1,54e1b9,d9d9d9,4d4d4d,dd3c69,4ebf22,ddaf3c,26b0d7,b954e1,54e1b9,ffffff"@,
        ThemeName::Dracula =>
            "282a36,f8f8f2,21222c,ff5555,50fa7b,f1fa8c,bd93f9,ff79c6,8be9fd,f8f8f2,6272a4,ff6e6e,69ff94,ffffa5,d6acff,ff92df,a4ffff,ffffff"@,
        ThemeName::GithubDark =>
            "171b21,eceff4,0e1116,f97583,a2fca2,fabb72,7db4f9,c4a0f5,1f6feb,eceff4,6a737d,bf5a64,7abf7a,bf8f57,608bbf,997dbf,195cbf,b9bbbf"@,
        ThemeName::GithubLight =>
            "eceff4,171b21,0e1116,f97583,a2fca2,fabb72,7db4f9,c4a0f5,1f6feb,eceff4,6a737d,bf5a64,7abf7a,bf8f57,608bbf,997dbf,195cbf,b9bbbf"@,
        ThemeName::Monokai =>
            "272822,f8f8f2,272822,f92672,a6e22e,f4bf75,66d9ef,ae81ff,a1efe4,f8f8f2,75715e,f92672,a6e22e,f4bf75,66d9ef,ae81ff,a1efe4,f9f8f5"@,
        ThemeName::Nord =>
            "2e3440,eceff4,3b4252,bf616a,a3be8c,ebcb8b,81a1c1,b48ead,88c0d0,eceff4,3b4252,bf616a,a3be8c,ebcb8b,81a1c1,b48ead,88c0d0,eceff4"@,
        ThemeName::SolarizedDark =>
            "002b36,839496,073642,dc322f,859900,b58900,268bd2,d33682,2aa198,eee8d5,002b36,cb4b16,586e75,657b83,839496,6c71c4,93a1a1,fdf6e3"@,
        ThemeName::SolarizedLight =>
            "fdf6e3,657b83,073642,dc322f,859900,b58900,268bd2,d33682,2aa198,eee8d5,002b36,cb4b16,586e75,657c83,839496,6c71c4,93a1a1,fdf6e3"@,
    }
}

/// The value of a digit of base 16.
fn digit(byte: u8) -> (r: Option<u8>)
    ensures
        r == hex_digit(byte),
{
    if 0x30 <= byte && byte <= 0x39 {
        Some(byte - 0x30)
    } else if 0x61 <= byte && byte <= 0x66 {
        Some(byte - 0x61 + 10)
    } else if 0x41 <= byte && byte <= 0x46 {
        Some(byte - 0x41 + 10)
    } else {
        None
    }
}

/// The number that two characters are in base 16.
fn pair(high: u8, low: u8) -> (r: Option<u8>)
    ensures
        r == hex_pair(high, low),
{
    let sixteens = if high == 0x2b {
        Some(0u8)
    } else {
        digit(high)
    };
    match (sixteens, digit(low)) {
        (Some(h), Some(l)) => Some(16 * h + l),
        _ => None,
    }
}

/// The colour that the bytes from `start` up to, not including, `end` are.
fn color_between(bytes: &[u8], start: usize, end: usize) -> (r: Result<Rgb, ThemeError>)
    requires
        start <= end <= bytes@.len(),
    ensures
        r == triplet(bytes@.subrange(start as int, end as int)),
{
    if end - start != 6 {
        Err(ThemeError::NotHexTriplet)
    } else {
        let red = pair(bytes[start], bytes[start + 1]);
        let green = pair(bytes[start + 2], bytes[start + 3]);
        let blue = pair(bytes[start + 4], bytes[start + 5]);
        match (red, green, blue) {
            (Some(r), Some(g), Some(b)) => Ok(Rgb::new(r, g, b)),
            _ => Err(ThemeError::InvalidDigit),
        }
    }
}

/// Adds a colour to those read so far, unless something was wrong before.
fn close_field(
    colors: &mut Vec<Rgb>,
    error: &mut Option<ThemeError>,
    color: Result<Rgb, ThemeError>,
)
    ensures
        match *old(error) {
            Some(e) => *final(error) == Some(e) && final(colors)@ == old(colors)@,
            None => match color {
                Ok(c) => *final(error) == None::<ThemeError> && final(colors)@ == old(colors)@.push(
                    c,
                ),
                Err(e) => *final(error) == Some(e) && final(colors)@ == old(colors)@,
            },
        },
{
    if error.is_none() {
        match color {
            Ok(c) => colors.push(c),
            Err(e) => *error = Some(e),
        }
    }
}

impl Clone for Theme {
    fn clone(&self) -> (r: Self)
        ensures
            r@ == self@,
    {
        let mut palette: Vec<Rgb> = Vec::new();
        let mut i: usize = 0;
        while i < self.palette.len()
            invariant
                i <= self.palette@.len(),
                palette@ == self.palette@.take(i as int),
            decreases self.palette@.len() - i,
        {
            palette.push(self.palette[i]);
            assert(self.palette@.take(i + 1) =~= self.palette@.take(i as int).push(
                self.palette@[i as int],
            ));
            i = i + 1;
        }
        assert(self.palette@.take(self.palette@.len() as int) =~= self.palette@);
        Theme { background: self.background, foreground: self.foreground, palette }
    }
}

impl std::str::FromStr for Theme {
    type Err = ThemeError;

    fn from_str(s: &str) -> (r: Result<Self, ThemeError>)
        ensures
            match r {
                Ok(theme) => theme.wf() && parsed(vstd::utf8::encode_utf8(s@)) == Ok::<
                    ThemeView,
                    ThemeError,
                >(theme@),
                Err(error) => parsed(vstd::utf8::encode_utf8(s@)) == Err::<ThemeView, ThemeError>(
                    error,
                ),
            },
    {
        Theme::parse(s)
    }
}

impl Theme {
    /// The background of the screen.
    pub fn background(&self) -> (rgb: Rgb)
        ensures
            rgb == self@.background,
    {
        self.background
    }

    /// The colour of text that has none of its own.
    pub fn foreground(&self) -> (rgb: Rgb)
        ensures
            rgb == self@.foreground,
    {
        self.foreground
    }

    /// The palette has its sixteen entries.
    pub open spec fn wf(&self) -> bool {
        self@.palette.len() == 16
    }

    /// The theme that the text describes.
    pub fn parse(s: &str) -> (r: Result<Theme, ThemeError>)
        ensures
            match r {
                Ok(theme) => theme.wf() && parsed(vstd::utf8::encode_utf8(s@)) == Ok::<ThemeView, ThemeError>(
                    theme@,
                ),
                Err(error) => parsed(vstd::utf8::encode_utf8(s@)) == Err::<ThemeView, ThemeError>(error),
            },
    {
        let bytes = s.as_bytes();
        let mut colors: Vec<Rgb> = Vec::new();
        let mut error: Option<ThemeError> = None;
        let mut start: usize = 0;
        let mut i: usize = 0;
        assert(bytes@.subrange(0, 0) =~= Seq::<u8>::empty());
        while i < bytes.len()
            invariant
                start <= i <= bytes@.len(),
                error is Some ==> Scan::over(bytes@.take(i as int)).colors == Err::<
                    Seq<Rgb>,
                    ThemeError,
                >(error->0),
                error is None ==> Scan::over(bytes@.take(i as int)).colors == Ok::<
                    Seq<Rgb>,
                    ThemeError,
                >(colors@),
                bytes@.subrange(start as int, i as int) == Scan::over(bytes@.take(i as int)).field,
            decreases bytes@.len() - i,
        {
            proof {
                let next = bytes@.take(i + 1);
                assert(next.drop_last() =~= bytes@.take(i as int));
                assert(next.last() == bytes@[i as int]);
            }
            if bytes[i] == 0x2c {
                let color = color_between(bytes, start, i);
                close_field(&mut colors, &mut error, color);
                start = i + 1;
                assert(bytes@.subrange(start as int, i + 1) =~= Seq::<u8>::empty());
            } else {
                assert(bytes@.subrange(start as int, i + 1) =~= bytes@.subrange(
                    start as int,
                    i as int,
                ).push(bytes@[i as int]));
            }
            i = i + 1;
        }
        assert(bytes@.take(bytes@.len() as int) =~= bytes@);
        let color = color_between(bytes, start, i);
        close_field(&mut colors, &mut error, color);
        match error {
            Some(e) => Err(e),
            None => Theme::from_colors(colors),
        }
    }

    /// The theme that the colours make, if there are ten or eighteen of them.
    fn from_colors(colors: Vec<Rgb>) -> (r: Result<Theme, ThemeError>)
        ensures
            match r {
                Ok(theme) => theme.wf() && theme_of(colors@) == Ok::<ThemeView, ThemeError>(
                    theme@,
                ),
                Err(error) => theme_of(colors@) == Err::<ThemeView, ThemeError>(error),
            },
    {
        let count = colors.len();
        if count != 10 && count != 18 {
            Err(ThemeError::WrongCount(count))
        } else {
            Ok(Theme::build(colors))
        }
    }

    /// The theme that ten or eighteen colours make.
    fn build(colors: Vec<Rgb>) -> (theme: Theme)
        requires
            colors@.len() == 10 || colors@.len() == 18,
        ensures
            theme.wf(),
            theme_of(colors@) == Ok::<ThemeView, ThemeError>(theme@),
    {
        let count = colors.len();
        let mut palette: Vec<Rgb> = Vec::new();
        let mut i: usize = 0;
        while i < 16
            invariant
                i <= 16,
                count == colors@.len(),
                count == 10 || count == 18,
                palette@.len() == i,
                forall|k: int| 0 <= k < i ==> palette@[k] == colors@[2 + k % (count - 2)],
            decreases 16 - i,
        {
            palette.push(colors[2 + i % (count - 2)]);
            i = i + 1;
        }
        let theme = Theme { background: colors[0], foreground: colors[1], palette };
        assert(theme@.palette =~= Seq::new(16, |i: int| colors@[2 + i % (colors@.len() - 2)]));
        theme
    }

    /// The text of a theme of the library.
    pub fn source(name: ThemeName) -> (text: &'static str)
        ensures
            text@ == source_text(name),
    {
        match name {
            ThemeName::Asciinema => "121314,cccccc,000000,dd3c69,4ebf22,ddaf3c,26b0d7,b954e1,54e1b9,d9d9d9,4d4d4d,dd3c69,4ebf22,ddaf3c,26b0d7,b954e1,54e1b9,ffffff",
            ThemeName::Dracula => "282a36,f8f8f2,21222c,ff5555,50fa7b,f1fa8c,bd93f9,ff79c6,8be9fd,f8f8f2,6272a4,ff6e6e,69ff94,ffffa5,d6acff,ff92df,a4ffff,ffffff",
            ThemeName::GithubDark => "171b21,eceff4,0e1116,f97583,a2fca2,fabb72,7db4f9,c4a0f5,1f6feb,eceff4,6a737d,bf5a64,7abf7a,bf8f57,608bbf,997dbf,195cbf,b9bbbf",
            ThemeName::GithubLight => "eceff4,171b21,0e1116,f97583,a2fca2,fabb72,7db4f9,c4a0f5,1f6feb,eceff4,6a737d,bf5a64,7abf7a,bf8f57,608bbf,997dbf,195cbf,b9bbbf",
            ThemeName::Monokai => "272822,f8f8f2,272822,f92672,a6e22e,f4bf75,66d9ef,ae81ff,a1efe4,f8f8f2,75715e,f92672,a6e22e,f4bf75,66d9ef,ae81ff,a1efe4,f9f8f5",
            ThemeName::Nord => "2e3440,eceff4,3b4252,bf616a,a3be8c,ebcb8b,81a1c1,b48ead,88c0d0,eceff4,3b4252,bf616a,a3be8c,ebcb8b,81a1c1,b48ead,88c0d0,eceff4",
            ThemeName::SolarizedDark => "002b36,839496,073642,dc322f,859900,b58900,268bd2,d33682,2aa198,eee8d5,002b36,cb4b16,586e75,657b83,839496,6c71c4,93a1a1,fdf6e3",
            ThemeName::SolarizedLight => "fdf6e3,657b83,073642,dc322f,859900,b58900,268bd2,d33682,2aa198,eee8d5,002b36,cb4b16,586e75,657c83,839496,6c71c4,93a1a1,fdf6e3",
        }
    }

    /// The eighteen colours of a theme of the library.
    fn colors(name: ThemeName) -> (colors: Vec<Rgb>)
        ensures
            colors@ == named_colors(name),
    {
        match name {
            ThemeName::Asciinema => vec![
                Rgb { r: 0x12, g: 0x13, b: 0x14 },
                Rgb { r: 0xcc, g: 0xcc, b: 0xcc },
                Rgb { r: 0x00, g: 0x00, b: 0x00 },
                Rgb { r: 0xdd, g: 0x3c, b: 0x69 },
                Rgb { r: 0x4e, g: 0xbf, b: 0x22 },
                Rgb { r: 0xdd, g: 0xaf, b: 0x3c },
                Rgb { r: 0x26, g: 0xb0, b: 0xd7 },
                Rgb { r: 0xb9, g: 0x54, b: 0xe1 },
                Rgb { r: 0x54, g: 0xe1, b: 0xb9 },
                Rgb { r: 0xd9, g: 0xd9, b: 0xd9 },
                Rgb { r: 0x4d, g: 0x4d, b: 0x4d },
                Rgb { r: 0xdd, g: 0x3c, b: 0x69 },
                Rgb { r: 0x4e, g: 0xbf, b: 0x22 },
                Rgb { r: 0xdd, g: 0xaf, b: 0x3c },
                Rgb { r: 0x26, g: 0xb0, b: 0xd7 },
                Rgb { r: 0xb9, g: 0x54, b: 0xe1 },
                Rgb { r: 0x54, g: 0xe1, b: 0xb9 },
                Rgb { r: 0xff, g: 0xff, b: 0xff },
            ],
            ThemeName::Dracula => vec![
                Rgb { r: 0x28, g: 0x2a, b: 0x36 },
                Rgb { r: 0xf8, g: 0xf8, b: 0xf2 },
                Rgb { r: 0x21, g: 0x22, b: 0x2c },
                Rgb { r: 0xff, g: 0x55, b: 0x55 },
                Rgb { r: 0x50, g: 0xfa, b: 0x7b },
                Rgb { r: 0xf1, g: 0xfa, b: 0x8c },
                Rgb { r: 0xbd, g: 0x93, b: 0xf9 },
                Rgb { r: 0xff, g: 0x79, b: 0xc6 },
                Rgb { r: 0x8b, g: 0xe9, b: 0xfd },
                Rgb { r: 0xf8, g: 0xf8, b: 0xf2 },
                Rgb { r: 0x62, g: 0x72, b: 0xa4 },
                Rgb { r: 0xff, g: 0x6e, b: 0x6e },
                Rgb { r: 0x69, g: 0xff, b: 0x94 },
                Rgb { r: 0xff, g: 0xff, b: 0xa5 },
                Rgb { r: 0xd6, g: 0xac, b: 0xff },
                Rgb { r: 0xff, g: 0x92, b: 0xdf },
                Rgb { r: 0xa4, g: 0xff, b: 0xff },
                Rgb { r: 0xff, g: 0xff, b: 0xff },
            ],
            ThemeName::GithubDark => vec![
                Rgb { r: 0x17, g: 0x1b, b: 0x21 },
                Rgb { r: 0xec, g: 0xef, b: 0xf4 },
                Rgb { r: 0x0e, g: 0x11, b: 0x16 },
                Rgb { r: 0xf9, g: 0x75, b: 0x83 },
                Rgb { r: 0xa2, g: 0xfc, b: 0xa2 },
                Rgb { r: 0xfa, g: 0xbb, b: 0x72 },
                Rgb { r: 0x7d, g: 0xb4, b: 0xf9 },
                Rgb { r: 0xc4, g: 0xa0, b: 0xf5 },
                Rgb { r: 0x1f, g: 0x6f, b: 0xeb },
                Rgb { r: 0xec, g: 0xef, b: 0xf4 },
                Rgb { r: 0x6a, g: 0x73, b: 0x7d },
                Rgb { r: 0xbf, g: 0x5a, b: 0x64 },
                Rgb { r: 0x7a, g: 0xbf, b: 0x7a },
                Rgb { r: 0xbf, g: 0x8f, b: 0x57 },
                Rgb { r: 0x60, g: 0x8b, b: 0xbf },
                Rgb { r: 0x99, g: 0x7d, b: 0xbf },
                Rgb { r: 0x19, g: 0x5c, b: 0xbf },
                Rgb { r: 0xb9, g: 0xbb, b: 0xbf },
            ],
            ThemeName::GithubLight => vec![
                Rgb { r: 0xec, g: 0xef, b: 0xf4 },
                Rgb { r: 0x17, g: 0x1b, b: 0x21 },
                Rgb { r: 0x0e, g: 0x11, b: 0x16 },
                Rgb { r: 0xf9, g: 0x75, b: 0x83 },
                Rgb { r: 0xa2, g: 0xfc, b: 0xa2 },
                Rgb { r: 0xfa, g: 0xbb, b: 0x72 },
                Rgb { r: 0x7d, g: 0xb4, b: 0xf9 },
                Rgb { r: 0xc4, g: 0xa0, b: 0xf5 },
                Rgb { r: 0x1f, g: 0x6f, b: 0xeb },
                Rgb { r: 0xec, g: 0xef, b: 0xf4 },
                Rgb { r: 0x6a, g: 0x73, b: 0x7d },
                Rgb { r: 0xbf, g: 0x5a, b: 0x64 },
                Rgb { r: 0x7a, g: 0xbf, b: 0x7a },
                Rgb { r: 0xbf, g: 0x8f, b: 0x57 },
                Rgb { r: 0x60, g: 0x8b, b: 0xbf },
                Rgb { r: 0x99, g: 0x7d, b: 0xbf },
                Rgb { r: 0x19, g: 0x5c, b: 0xbf },
                Rgb { r: 0xb9, g: 0xbb, b: 0xbf },
            ],
            ThemeName::Monokai => vec![
                Rgb { r: 0x27, g: 0x28, b: 0x22 },
                Rgb { r: 0xf8, g: 0xf8, b: 0xf2 },
                Rgb { r: 0x27, g: 0x28, b: 0x22 },
                Rgb { r: 0xf9, g: 0x26, b: 0x72 },
                Rgb { r: 0xa6, g: 0xe2, b: 0x2e },
                Rgb { r: 0xf4, g: 0xbf, b: 0x75 },
                Rgb { r: 0x66, g: 0xd9, b: 0xef },
                Rgb { r: 0xae, g: 0x81, b: 0xff },
                Rgb { r: 0xa1, g: 0xef, b: 0xe4 },
                Rgb { r: 0xf8, g: 0xf8, b: 0xf2 },
                Rgb { r: 0x75, g: 0x71, b: 0x5e },
                Rgb { r: 0xf9, g: 0x26, b: 0x72 },
                Rgb { r: 0xa6, g: 0xe2, b: 0x2e },
                Rgb { r: 0xf4, g: 0xbf, b: 0x75 },
                Rgb { r: 0x66, g: 0xd9, b: 0xef },
                Rgb { r: 0xae, g: 0x81, b: 0xff },
                Rgb { r: 0xa1, g: 0xef, b: 0xe4 },
                Rgb { r: 0xf9, g: 0xf8, b: 0xf5 },
            ],
            ThemeName::Nord => vec![
                Rgb { r: 0x2e, g: 0x34, b: 0x40 },
                Rgb { r: 0xec, g: 0xef, b: 0xf4 },
                Rgb { r: 0x3b, g: 0x42, b: 0x52 },
                Rgb { r: 0xbf, g: 0x61, b: 0x6a },
                Rgb { r: 0xa3, g: 0xbe, b: 0x8c },
                Rgb { r: 0xeb, g: 0xcb, b: 0x8b },
                Rgb { r: 0x81, g: 0xa1, b: 0xc1 },
                Rgb { r: 0xb4, g: 0x8e, b: 0xad },
                Rgb { r: 0x88, g: 0xc0, b: 0xd0 },
                Rgb { r: 0xec, g: 0xef, b: 0xf4 },
                Rgb { r: 0x3b, g: 0x42, b: 0x52 },
                Rgb { r: 0xbf, g: 0x61, b: 0x6a },
                Rgb { r: 0xa3, g: 0xbe, b: 0x8c },
                Rgb { r: 0xeb, g: 0xcb, b: 0x8b },
                Rgb { r: 0x81, g: 0xa1, b: 0xc1 },
                Rgb { r: 0xb4, g: 0x8e, b: 0xad },
                Rgb { r: 0x88, g: 0xc0, b: 0xd0 },
                Rgb { r: 0xec, g: 0xef, b: 0xf4 },
            ],
            ThemeName::SolarizedDark => vec![
                Rgb { r: 0x00, g: 0x2b, b: 0x36 },
                Rgb { r: 0x83, g: 0x94, b: 0x96 },
                Rgb { r: 0x07, g: 0x36, b: 0x42 },
                Rgb { r: 0xdc, g: 0x32, b: 0x2f },
                Rgb { r: 0x85, g: 0x99, b: 0x00 },
                Rgb { r: 0xb5, g: 0x89, b: 0x00 },
                Rgb { r: 0x26, g: 0x8b, b: 0xd2 },
                Rgb { r: 0xd3, g: 0x36, b: 0x82 },
                Rgb { r: 0x2a, g: 0xa1, b: 0x98 },
                Rgb { r: 0xee, g: 0xe8, b: 0xd5 },
                Rgb { r: 0x00, g: 0x2b, b: 0x36 },
                Rgb { r: 0xcb, g: 0x4b, b: 0x16 },
                Rgb { r: 0x58, g: 0x6e, b: 0x75 },
                Rgb { r: 0x65, g: 0x7b, b: 0x83 },
                Rgb { r: 0x83, g: 0x94, b: 0x96 },
                Rgb { r: 0x6c, g: 0x71, b: 0xc4 },
                Rgb { r: 0x93, g: 0xa1, b: 0xa1 },
                Rgb { r: 0xfd, g: 0xf6, b: 0xe3 },
            ],
            ThemeName::SolarizedLight => vec![
                Rgb { r: 0xfd, g: 0xf6, b: 0xe3 },
                Rgb { r: 0x65, g: 0x7b, b: 0x83 },
                Rgb { r: 0x07, g: 0x36, b: 0x42 },
                Rgb { r: 0xdc, g: 0x32, b: 0x2f },
                Rgb { r: 0x85, g: 0x99, b: 0x00 },
                Rgb { r: 0xb5, g: 0x89, b: 0x00 },
                Rgb { r: 0x26, g: 0x8b, b: 0xd2 },
                Rgb { r: 0xd3, g: 0x36, b: 0x82 },
                Rgb { r: 0x2a, g: 0xa1, b: 0x98 },
                Rgb { r: 0xee, g: 0xe8, b: 0xd5 },
                Rgb { r: 0x00, g: 0x2b, b: 0x36 },
                Rgb { r: 0xcb, g: 0x4b, b: 0x16 },
                Rgb { r: 0x58, g: 0x6e, b: 0x75 },
                Rgb { r: 0x65, g: 0x7c, b: 0x83 },
                Rgb { r: 0x83, g: 0x94, b: 0x96 },
                Rgb { r: 0x6c, g: 0x71, b: 0xc4 },
                Rgb { r: 0x93, g: 0xa1, b: 0xa1 },
                Rgb { r: 0xfd, g: 0xf6, b: 0xe3 },
            ],
        }
    }

    /// The theme of the library with the given name.
    pub fn named(name: ThemeName) -> (theme: Theme)
        ensures
            theme.wf(),
            theme_of(named_colors(name)) == Ok::<ThemeView, ThemeError>(theme@),
    {
        Theme::build(Theme::colors(name))
    }

    pub fn color(&self, color: u8) -> (rgb: Rgb)
        requires
            self.wf(),
        ensures
            rgb == palette_color(self@.palette, color),
    {
        if color < 16 {
            self.palette[color as usize]
        } else if color < 232 {
            let n = color - 16;
            let mut r = ((n / 36) % 6) * 40;
            let mut g = ((n / 6) % 6) * 40;
            let mut b = (n % 6) * 40;
            if r > 0 {
                r += 55;
            }
            if g > 0 {
                g += 55;
            }
            if b > 0 {
                b += 55;
            }
            Rgb::new(r, g, b)
        } else {
            let v = 8 + 10 * (color - 232);
            Rgb::new(v, v, v)
        }
    }
}

} // verus!
