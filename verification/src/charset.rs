use vstd::prelude::*;

verus! {

/// What a character-set slot makes of the characters that are printed.
#[derive(Debug, Clone, Copy, PartialEq, Eq, Structural)]
pub enum Charset {
    Ascii,
    Drawing,
}

impl Default for Charset {
    fn default() -> (r: Self)
        ensures
            r == Charset::Ascii,
    {
        Charset::Ascii
    }
}

/// The DEC special graphics characters, in the order of the code points
/// `0x60` to `0x7e` that they replace.
pub open spec fn special_gfx_chars() -> Seq<char> {
    seq![
        '\u{2666}', '\u{2592}', '\u{2409}', '\u{240c}', '\u{240d}', '\u{240a}', '\u{b0}',
        '\u{b1}', '\u{2424}', '\u{240b}', '\u{2518}', '\u{2510}', '\u{250c}', '\u{2514}',
        '\u{253c}', '\u{23ba}', '\u{23bb}', '\u{2500}', '\u{23bc}', '\u{23bd}', '\u{251c}',
        '\u{2524}', '\u{2534}', '\u{252c}', '\u{2502}', '\u{2264}', '\u{2265}', '\u{3c0}',
        '\u{2260}', '\u{a3}', '\u{22c5}',
    ]
}

impl Charset {
    /// What this character set prints for `input`.
    pub open spec fn translated(self, input: char) -> char {
        match self {
            Charset::Ascii => input,
            Charset::Drawing => if 0x60 <= input as u32 <= 0x7e {
                special_gfx_chars()[input as u32 - 0x60]
            } else {
                input
            },
        }
    }

    pub fn translate(&self, input: char) -> (r: char)
        ensures
            r == self.translated(input),
    {
        match self {
            Charset::Ascii => input,
            Charset::Drawing => match input {
                '\u{60}' => '\u{2666}',
                '\u{61}' => '\u{2592}',
                '\u{62}' => '\u{2409}',
                '\u{63}' => '\u{240c}',
                '\u{64}' => '\u{240d}',
                '\u{65}' => '\u{240a}',
                '\u{66}' => '\u{b0}',
                '\u{67}' => '\u{b1}',
                '\u{68}' => '\u{2424}',
                '\u{69}' => '\u{240b}',
                '\u{6a}' => '\u{2518}',
                '\u{6b}' => '\u{2510}',
                '\u{6c}' => '\u{250c}',
                '\u{6d}' => '\u{2514}',
                '\u{6e}' => '\u{253c}',
                '\u{6f}' => '\u{23ba}',
                '\u{70}' => '\u{23bb}',
                '\u{71}' => '\u{2500}',
                '\u{72}' => '\u{23bc}',
                '\u{73}' => '\u{23bd}',
                '\u{74}' => '\u{251c}',
                '\u{75}' => '\u{2524}',
                '\u{76}' => '\u{2534}',
                '\u{77}' => '\u{252c}',
                '\u{78}' => '\u{2502}',
                '\u{79}' => '\u{2264}',
                '\u{7a}' => '\u{2265}',
                '\u{7b}' => '\u{3c0}',
                '\u{7c}' => '\u{2260}',
                '\u{7d}' => '\u{a3}',
                '\u{7e}' => '\u{22c5}',
                _ => input,
            },
        }
    }
}

} // verus!
