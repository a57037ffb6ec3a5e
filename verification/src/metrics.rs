//! The metrics of one font at one size, in hundredths of a pixel.

use std::collections::HashMap;
use vstd::prelude::*;
use vstd::string::StringExecFns;
use crate::error::SiaError;

verus! {

broadcast use vstd::std_specs::hash::group_hash_axioms;

/// The vertical metrics of a font, in hundredths of a pixel. The descent of a usual font is
/// negative.
#[derive(Clone, Copy, Debug, PartialEq, Eq, Structural)]
pub struct VerticalMetrics {
    pub ascent: i32,
    pub descent: i32,
    pub line_gap: i32,
}

/// How the width of text is taken from the metrics. One choice holds for a whole render.
#[derive(Clone, Copy, Debug, PartialEq, Eq, Structural)]
pub enum WidthMode {
    /// Every character is as wide as its own glyph advances.
    Exact,
    /// An approximation: every character is taken to be as wide as the glyph of the given
    /// reference character.
    Reference(char),
}

/// The mathematical value of [`FontMetrics`].
pub struct MetricsView {
    pub ascent: int,
    pub descent: int,
    pub line_gap: int,
    /// The advance widths of the glyphs that the font is known to have.
    pub advances: Map<char, nat>,
    /// The advance width of every other character.
    pub fallback_advance: nat,
}

impl MetricsView {
    /// The distance from one baseline to the next.
    pub open spec fn line_height(self) -> int {
        self.ascent - self.descent + self.line_gap
    }

    /// The advance width of the glyph that `ch` is drawn with.
    pub open spec fn advance(self, ch: char) -> nat {
        if self.advances.contains_key(ch) {
            self.advances[ch]
        } else {
            self.fallback_advance
        }
    }

    /// The width that `ch` takes under `mode`.
    pub open spec fn char_width(self, mode: WidthMode, ch: char) -> nat {
        match mode {
            WidthMode::Exact => self.advance(ch),
            WidthMode::Reference(reference) => self.advance(reference),
        }
    }

    /// Metrics that a font can have: the line height is not negative, and it and every advance
    /// width fit in 32 bits.
    pub open spec fn well_formed(self) -> bool {
        &&& 0 <= self.line_height() <= u32::MAX
        &&& self.fallback_advance <= u32::MAX
        &&& forall|ch: char|
            self.advances.contains_key(ch) ==> #[trigger] self.advances[ch] <= u32::MAX
    }
}

/// Two characters with one code point are one character.
proof fn lemma_code_points_differ(c: char, d: char)
    ensures
        (c as u32 == d as u32) <==> c == d,
{
}

/// The metrics of one loaded font at one size. All lengths are in hundredths of a pixel.
#[derive(Debug)]
pub struct FontMetrics {
    vertical: VerticalMetrics,
    fallback_advance: u32,
    advances: HashMap<u32, u32>,
}

impl View for FontMetrics {
    type V = MetricsView;

    closed spec fn view(&self) -> MetricsView {
        MetricsView {
            ascent: self.vertical.ascent as int,
            descent: self.vertical.descent as int,
            line_gap: self.vertical.line_gap as int,
            advances: Map::new(
                |ch: char| self.advances@.contains_key(ch as u32),
                |ch: char| self.advances@[ch as u32] as nat,
            ),
            fallback_advance: self.fallback_advance as nat,
        }
    }
}

impl FontMetrics {
    #[verifier::type_invariant]
    closed spec fn valid(&self) -> bool {
        self@.well_formed()
    }

    /// Metrics with the given vertical metrics, in which every character advances by
    /// `fallback_advance`. Vertical metrics whose line height is negative or does not fit in 32
    /// bits belong to no usable font and are refused.
    pub fn new(vertical: VerticalMetrics, fallback_advance: u32) -> (out: Result<
        FontMetrics,
        SiaError,
    >)
        ensures
            match out {
                Ok(m) => {
                    &&& m@.ascent == vertical.ascent
                    &&& m@.descent == vertical.descent
                    &&& m@.line_gap == vertical.line_gap
                    &&& m@.fallback_advance == fallback_advance
                    &&& m@.advances == Map::<char, nat>::empty()
                    &&& m@.well_formed()
                },
                Err(e) => {
                    &&& e matches SiaError::FontLoad(d)
                    &&& d@ == "line height"@
                },
            },
            out is Ok <==> 0 <= vertical.ascent - vertical.descent + vertical.line_gap <= u32::MAX,
    {
        let height: i64 = vertical.ascent as i64 - vertical.descent as i64
            + vertical.line_gap as i64;
        if height < 0 || height > 0xffff_ffff {
            return Err(SiaError::FontLoad(String::from_str("line height")));
        }
        let m = FontMetrics { vertical, fallback_advance, advances: HashMap::new() };
        assert(m@.advances =~= Map::<char, nat>::empty());
        Ok(m)
    }

    /// Records that the glyph of `ch` advances by `advance`.
    pub fn set_advance(&mut self, ch: char, advance: u32)
        ensures
            final(self)@ == (MetricsView {
                advances: old(self)@.advances.insert(ch, advance as nat),
                ..old(self)@
            }),
    {
        proof {
            use_type_invariant(&*self);
        }
        let ghost wanted = old(self)@.advances.insert(ch, advance as nat);
        let mut advances: HashMap<u32, u32> = HashMap::new();
        std::mem::swap(&mut self.advances, &mut advances);
        advances.insert(ch as u32, advance);
        std::mem::swap(&mut self.advances, &mut advances);
        assert forall|c: char| self@.advances.contains_key(c) <==> wanted.contains_key(c) by {
            lemma_code_points_differ(c, ch);
        }
        assert forall|c: char| #[trigger]
            self@.advances.contains_key(c) implies self@.advances[c] == wanted[c] by {
            lemma_code_points_differ(c, ch);
        }
        assert(self@.advances =~= wanted);
    }

    /// The advance width of the glyph that `ch` is drawn with.
    pub fn advance_width(&self, ch: char) -> (w: u32)
        ensures
            w == self@.advance(ch),
    {
        match self.advances.get(&(ch as u32)) {
            Some(w) => *w,
            None => self.fallback_advance,
        }
    }

    /// The width that `ch` takes under `mode`.
    pub fn char_width(&self, mode: WidthMode, ch: char) -> (w: u32)
        ensures
            w == self@.char_width(mode, ch),
    {
        match mode {
            WidthMode::Exact => self.advance_width(ch),
            WidthMode::Reference(reference) => self.advance_width(reference),
        }
    }

    /// The ascent, descent and line gap of the font.
    pub fn vertical_metrics(&self) -> (v: VerticalMetrics)
        ensures
            v.ascent == self@.ascent,
            v.descent == self@.descent,
            v.line_gap == self@.line_gap,
            self@.well_formed(),
    {
        proof {
            use_type_invariant(self);
        }
        self.vertical
    }

    /// The distance from one baseline to the next: ascent minus descent plus line gap.
    pub fn line_height(&self) -> (h: u32)
        ensures
            h == self@.line_height(),
            self@.well_formed(),
    {
        proof {
            use_type_invariant(self);
        }
        let height: i64 = self.vertical.ascent as i64 - self.vertical.descent as i64
            + self.vertical.line_gap as i64;
        height as u32
    }
}

} // verus!
