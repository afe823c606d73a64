use crate::color::Color;
use vstd::prelude::*;

verus! {

/// How strongly a cell is drawn.
#[derive(Debug, Clone, Copy, PartialEq, Eq, Structural)]
pub enum Intensity {
    Normal,
    Bold,
    Faint,
}

impl Default for Intensity {
    fn default() -> (r: Self)
        ensures
            r == Intensity::Normal,
    {
        Intensity::Normal
    }
}

/// The style that newly printed cells take: two optional colours, an
/// intensity, and five attribute flags packed into the low bits of `attrs`.
#[derive(Debug, Clone, Copy, PartialEq, Eq)]
pub struct Pen {
    pub foreground: Option<Color>,
    pub background: Option<Color>,
    pub intensity: Intensity,
    pub attrs: u8,
}

pub const ITALIC_MASK: u8 = 1;

pub const UNDERLINE_MASK: u8 = 2;

pub const STRIKETHROUGH_MASK: u8 = 4;

pub const BLINK_MASK: u8 = 8;

pub const INVERSE_MASK: u8 = 16;

/// Whether any bit of `mask` is set in `attrs`.
pub open spec fn flag(attrs: u8, mask: u8) -> bool {
    attrs & mask != 0
}

/// The five attribute flags of `a` and `b` agree, except perhaps the one that `mask` names.
pub open spec fn same_flags_but(a: u8, b: u8, mask: u8) -> bool {
    &&& mask != ITALIC_MASK ==> flag(a, ITALIC_MASK) == flag(b, ITALIC_MASK)
    &&& mask != UNDERLINE_MASK ==> flag(a, UNDERLINE_MASK) == flag(b, UNDERLINE_MASK)
    &&& mask != STRIKETHROUGH_MASK ==> flag(a, STRIKETHROUGH_MASK) == flag(b, STRIKETHROUGH_MASK)
    &&& mask != BLINK_MASK ==> flag(a, BLINK_MASK) == flag(b, BLINK_MASK)
    &&& mask != INVERSE_MASK ==> flag(a, INVERSE_MASK) == flag(b, INVERSE_MASK)
}

/// Setting the bits of a mask raises its flag and leaves the other four alone.
pub proof fn lemma_set_flag(attrs: u8, mask: u8)
    requires
        mask == ITALIC_MASK || mask == UNDERLINE_MASK || mask == STRIKETHROUGH_MASK || mask
            == BLINK_MASK || mask == INVERSE_MASK,
    ensures
        flag(attrs | mask, mask),
        same_flags_but(attrs | mask, attrs, mask),
{
    assert(forall|a: u8, m: u8, k: u8|
        (m == 1 || m == 2 || m == 4 || m == 8 || m == 16) && (k == 1 || k == 2 || k == 4 || k == 8
            || k == 16) ==> (#[trigger] ((a | m) & k) != 0) == (m == k || a & k != 0))
        by (bit_vector);
    assert(((attrs | mask) & mask) != 0);
    assert((((attrs | mask) & 1u8) != 0) == (mask == 1u8 || attrs & 1u8 != 0));
    assert((((attrs | mask) & 2u8) != 0) == (mask == 2u8 || attrs & 2u8 != 0));
    assert((((attrs | mask) & 4u8) != 0) == (mask == 4u8 || attrs & 4u8 != 0));
    assert((((attrs | mask) & 8u8) != 0) == (mask == 8u8 || attrs & 8u8 != 0));
    assert((((attrs | mask) & 16u8) != 0) == (mask == 16u8 || attrs & 16u8 != 0));
}

/// Clearing the bits of a mask lowers its flag and leaves the other four alone.
pub proof fn lemma_unset_flag(attrs: u8, mask: u8)
    requires
        mask == ITALIC_MASK || mask == UNDERLINE_MASK || mask == STRIKETHROUGH_MASK || mask
            == BLINK_MASK || mask == INVERSE_MASK,
    ensures
        !flag(attrs & !mask, mask),
        same_flags_but(attrs & !mask, attrs, mask),
{
    assert(forall|a: u8, m: u8, k: u8|
        (m == 1 || m == 2 || m == 4 || m == 8 || m == 16) && (k == 1 || k == 2 || k == 4 || k == 8
            || k == 16) ==> (#[trigger] ((a & !m) & k) != 0) == (m != k && a & k != 0))
        by (bit_vector);
    assert((((attrs & !mask) & mask) != 0) == false);
    assert((((attrs & !mask) & 1u8) != 0) == (mask != 1u8 && attrs & 1u8 != 0));
    assert((((attrs & !mask) & 2u8) != 0) == (mask != 2u8 && attrs & 2u8 != 0));
    assert((((attrs & !mask) & 4u8) != 0) == (mask != 4u8 && attrs & 4u8 != 0));
    assert((((attrs & !mask) & 8u8) != 0) == (mask != 8u8 && attrs & 8u8 != 0));
    assert((((attrs & !mask) & 16u8) != 0) == (mask != 16u8 && attrs & 16u8 != 0));
}

impl Default for Pen {
    fn default() -> (r: Self)
        ensures
            r == Pen::default_pen(),
    {
        Pen { foreground: None, background: None, intensity: Intensity::Normal, attrs: 0 }
    }
}

impl Pen {
    /// The pen with no colours, normal intensity and no flag set.
    pub open spec fn default_pen() -> Pen {
        Pen { foreground: None, background: None, intensity: Intensity::Normal, attrs: 0 }
    }

    /// This pen with the bits of `mask` set.
    pub open spec fn with_flag(self, mask: u8) -> Pen {
        Pen { attrs: self.attrs | mask, ..self }
    }

    /// This pen with the bits of `mask` cleared.
    pub open spec fn without_flag(self, mask: u8) -> Pen {
        Pen { attrs: self.attrs & !mask, ..self }
    }

    /// Whether this pen draws like the default pen: no colours, normal
    /// intensity and none of the five flags. Bits of `attrs` above the flags
    /// do not count.
    pub open spec fn plain(self) -> bool {
        &&& self.foreground is None
        &&& self.background is None
        &&& self.intensity == Intensity::Normal
        &&& !flag(self.attrs, ITALIC_MASK)
        &&& !flag(self.attrs, UNDERLINE_MASK)
        &&& !flag(self.attrs, STRIKETHROUGH_MASK)
        &&& !flag(self.attrs, BLINK_MASK)
        &&& !flag(self.attrs, INVERSE_MASK)
    }

    pub fn is_bold(&self) -> (r: bool)
        ensures
            r == (self.intensity == Intensity::Bold),
    {
        self.intensity == Intensity::Bold
    }

    pub fn is_faint(&self) -> (r: bool)
        ensures
            r == (self.intensity == Intensity::Faint),
    {
        self.intensity == Intensity::Faint
    }

    pub fn is_italic(&self) -> (r: bool)
        ensures
            r == flag(self.attrs, ITALIC_MASK),
    {
        (self.attrs & ITALIC_MASK) != 0
    }

    pub fn is_underline(&self) -> (r: bool)
        ensures
            r == flag(self.attrs, UNDERLINE_MASK),
    {
        (self.attrs & UNDERLINE_MASK) != 0
    }

    pub fn is_strikethrough(&self) -> (r: bool)
        ensures
            r == flag(self.attrs, STRIKETHROUGH_MASK),
    {
        (self.attrs & STRIKETHROUGH_MASK) != 0
    }

    pub fn is_blink(&self) -> (r: bool)
        ensures
            r == flag(self.attrs, BLINK_MASK),
    {
        (self.attrs & BLINK_MASK) != 0
    }

    pub fn is_inverse(&self) -> (r: bool)
        ensures
            r == flag(self.attrs, INVERSE_MASK),
    {
        (self.attrs & INVERSE_MASK) != 0
    }

    pub fn set_italic(&mut self)
        ensures
            *final(self) == old(self).with_flag(ITALIC_MASK),
            flag(final(self).attrs, ITALIC_MASK),
            same_flags_but(final(self).attrs, old(self).attrs, ITALIC_MASK),
    {
        proof {
            lemma_set_flag(self.attrs, ITALIC_MASK);
        }
        self.attrs = self.attrs | ITALIC_MASK;
    }

    pub fn set_underline(&mut self)
        ensures
            *final(self) == old(self).with_flag(UNDERLINE_MASK),
            flag(final(self).attrs, UNDERLINE_MASK),
            same_flags_but(final(self).attrs, old(self).attrs, UNDERLINE_MASK),
    {
        proof {
            lemma_set_flag(self.attrs, UNDERLINE_MASK);
        }
        self.attrs = self.attrs | UNDERLINE_MASK;
    }

    pub fn set_blink(&mut self)
        ensures
            *final(self) == old(self).with_flag(BLINK_MASK),
            flag(final(self).attrs, BLINK_MASK),
            same_flags_but(final(self).attrs, old(self).attrs, BLINK_MASK),
    {
        proof {
            lemma_set_flag(self.attrs, BLINK_MASK);
        }
        self.attrs = self.attrs | BLINK_MASK;
    }

    pub fn set_strikethrough(&mut self)
        ensures
            *final(self) == old(self).with_flag(STRIKETHROUGH_MASK),
            flag(final(self).attrs, STRIKETHROUGH_MASK),
            same_flags_but(final(self).attrs, old(self).attrs, STRIKETHROUGH_MASK),
    {
        proof {
            lemma_set_flag(self.attrs, STRIKETHROUGH_MASK);
        }
        self.attrs = self.attrs | STRIKETHROUGH_MASK;
    }

    pub fn set_inverse(&mut self)
        ensures
            *final(self) == old(self).with_flag(INVERSE_MASK),
            flag(final(self).attrs, INVERSE_MASK),
            same_flags_but(final(self).attrs, old(self).attrs, INVERSE_MASK),
    {
        proof {
            lemma_set_flag(self.attrs, INVERSE_MASK);
        }
        self.attrs = self.attrs | INVERSE_MASK;
    }

    pub fn unset_italic(&mut self)
        ensures
            *final(self) == old(self).without_flag(ITALIC_MASK),
            !flag(final(self).attrs, ITALIC_MASK),
            same_flags_but(final(self).attrs, old(self).attrs, ITALIC_MASK),
    {
        proof {
            lemma_unset_flag(self.attrs, ITALIC_MASK);
        }
        self.attrs = self.attrs & !ITALIC_MASK;
    }

    pub fn unset_underline(&mut self)
        ensures
            *final(self) == old(self).without_flag(UNDERLINE_MASK),
            !flag(final(self).attrs, UNDERLINE_MASK),
            same_flags_but(final(self).attrs, old(self).attrs, UNDERLINE_MASK),
    {
        proof {
            lemma_unset_flag(self.attrs, UNDERLINE_MASK);
        }
        self.attrs = self.attrs & !UNDERLINE_MASK;
    }

    pub fn unset_blink(&mut self)
        ensures
            *final(self) == old(self).without_flag(BLINK_MASK),
            !flag(final(self).attrs, BLINK_MASK),
            same_flags_but(final(self).attrs, old(self).attrs, BLINK_MASK),
    {
        proof {
            lemma_unset_flag(self.attrs, BLINK_MASK);
        }
        self.attrs = self.attrs & !BLINK_MASK;
    }

    pub fn unset_strikethrough(&mut self)
        ensures
            *final(self) == old(self).without_flag(STRIKETHROUGH_MASK),
            !flag(final(self).attrs, STRIKETHROUGH_MASK),
            same_flags_but(final(self).attrs, old(self).attrs, STRIKETHROUGH_MASK),
    {
        proof {
            lemma_unset_flag(self.attrs, STRIKETHROUGH_MASK);
        }
        self.attrs = self.attrs & !STRIKETHROUGH_MASK;
    }

    pub fn unset_inverse(&mut self)
        ensures
            *final(self) == old(self).without_flag(INVERSE_MASK),
            !flag(final(self).attrs, INVERSE_MASK),
            same_flags_but(final(self).attrs, old(self).attrs, INVERSE_MASK),
    {
        proof {
            lemma_unset_flag(self.attrs, INVERSE_MASK);
        }
        self.attrs = self.attrs & !INVERSE_MASK;
    }

    pub fn is_default(&self) -> (r: bool)
        ensures
            r == self.plain(),
    {
        self.foreground.is_none() && self.background.is_none() && self.intensity
            == Intensity::Normal && !self.is_italic() && !self.is_underline()
            && !self.is_strikethrough() && !self.is_blink() && !self.is_inverse()
    }
}

} // verus!
