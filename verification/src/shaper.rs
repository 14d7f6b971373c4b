//! The shaping interface: a capability contract over shaping backends
//! ((font bytes, text, variations) to ordered glyph records), the virtual
//! inter-word spacing control, and a deterministic backend for driving the
//! pipeline without a real font.
//!
//! Variation values are fixed-point thousandths throughout: 1000 stands for a
//! variation value of one, 2000 for two.

use vstd::arithmetic::div_mod::lemma_fundamental_div_mod_converse_div;
use vstd::prelude::*;

verus! {

/// One typographic control applied before shaping and before outline
/// extraction.
#[derive(Clone, Copy, Debug)]
pub enum VariationKind {
    /// A real font variation axis, named by its 4-byte tag.
    Axis([u8; 4]),
    /// The virtual inter-word spacing control, recognized only by the shaping
    /// side: it scales the space glyph's advance.
    Spacing,
}

/// A variation with its value in fixed-point thousandths.
#[derive(Clone, Copy, Debug)]
pub struct Variation {
    /// Which control.
    pub kind: VariationKind,
    /// Value in thousandths: 1000 is 1.0.
    pub value_milli: i32,
}

/// A real axis setting to hand to a font engine, extracted from a variation
/// list.
#[derive(Clone, Copy, Debug)]
pub struct AxisSetting {
    /// The axis's 4-byte tag.
    pub tag: [u8; 4],
    /// Value in thousandths.
    pub value_milli: i32,
}

/// One shaped glyph record, in font design units at the active instancing:
/// glyph id (font-local, not Unicode), source cluster, advances and offsets.
#[derive(Clone, Copy, PartialEq, Eq, Structural, Debug)]
pub struct GlyphData {
    /// Font-local glyph id.
    pub codepoint: u32,
    /// Byte index of the source cluster this glyph came from.
    pub cluster: u32,
    /// Horizontal advance in font units.
    pub x_advance: i32,
    /// Vertical advance in font units.
    pub y_advance: i32,
    /// Horizontal offset in font units.
    pub x_offset: i32,
    /// Vertical offset in font units.
    pub y_offset: i32,
}

/// Capability contract over shaping backends: load a font, then shape text
/// under a list of variations into glyph records in visual order.
pub trait Shaper<'f> where Self: Sized {
    /// Construct the engine from raw font bytes.
    fn load_font(font_data: &'f [u8]) -> Self;

    /// Shape `input` under `variations`, every `Axis` entry applied to the
    /// font instance before shaping and a `Spacing` entry applied to the
    /// space glyph's advance afterwards.
    fn shape_text(&mut self, input: &str, variations: &[Variation]) -> Vec<GlyphData>;
}

/// The value of the first `Spacing` entry, if any.
pub open spec fn spec_spacing_of(vs: Seq<Variation>) -> Option<i32>
    decreases vs.len(),
{
    if vs.len() == 0 {
        None
    } else if vs[0].kind is Spacing {
        Some(vs[0].value_milli)
    } else {
        spec_spacing_of(vs.drop_first())
    }
}

/// The `Axis` entries, in order, with their tags and values.
pub open spec fn spec_axes_of(vs: Seq<Variation>) -> Seq<AxisSetting>
    decreases vs.len(),
{
    if vs.len() == 0 {
        Seq::empty()
    } else {
        let rest = spec_axes_of(vs.drop_last());
        match vs.last().kind {
            VariationKind::Axis(tag) => rest.push(
                AxisSetting { tag, value_milli: vs.last().value_milli },
            ),
            VariationKind::Spacing => rest,
        }
    }
}

/// Find the first `Spacing` entry's value.
pub fn find_spacing(vars: &[Variation]) -> (r: Option<i32>)
    ensures
        r == spec_spacing_of(vars@),
{
    let n = vars.len();
    proof {
        assert(vars@.skip(0) =~= vars@);
    }
    let mut i: usize = 0;
    while i < n
        invariant
            i <= n,
            n == vars@.len(),
            spec_spacing_of(vars@) == spec_spacing_of(vars@.skip(i as int)),
            forall|j: int| 0 <= j < i ==> !((#[trigger] vars@[j]).kind is Spacing),
        decreases n - i,
    {
        proof {
            assert(vars@.skip(i as int)[0] == vars@[i as int]);
        }
        match vars[i].kind {
            VariationKind::Spacing => {
                return Some(vars[i].value_milli);
            },
            VariationKind::Axis(_) => {},
        }
        proof {
            assert(vars@.skip(i as int).drop_first() =~= vars@.skip(i as int + 1));
        }
        i += 1;
    }
    proof {
        assert(vars@.skip(n as int) =~= Seq::<Variation>::empty());
    }
    None
}

/// Extract the real axis settings, in order, for the font engines.
pub fn axis_settings(vars: &[Variation]) -> (r: Vec<AxisSetting>)
    ensures
        r@ == spec_axes_of(vars@),
{
    let n = vars.len();
    let mut r: Vec<AxisSetting> = Vec::new();
    let mut i: usize = 0;
    while i < n
        invariant
            i <= n,
            n == vars@.len(),
            r@ == spec_axes_of(vars@.take(i as int)),
        decreases n - i,
    {
        proof {
            assert(vars@.take(i as int + 1).drop_last() =~= vars@.take(i as int));
            assert(vars@.take(i as int + 1).last() == vars@[i as int]);
        }
        match vars[i].kind {
            VariationKind::Axis(tag) => {
                r.push(AxisSetting { tag, value_milli: vars[i].value_milli });
            },
            VariationKind::Spacing => {},
        }
        i += 1;
    }
    proof {
        assert(vars@.take(n as int) =~= vars@);
    }
    r
}

/// `v` scaled by `m` thousandths, rounded to the nearest unit (halves up).
pub open spec fn scaled_milli(v: int, m: int) -> int {
    (v * m + 500) / 1000
}

/// Clamp into the advance field's range.
pub open spec fn clamp_advance(v: int) -> int {
    if v < -0x8000_0000 {
        -0x8000_0000
    } else if v > 0x7fff_ffff {
        0x7fff_ffff
    } else {
        v
    }
}

/// A space advance under a spacing value: nominal advance times the value in
/// thousandths, rounded to the nearest unit, clamped to the field's range.
pub open spec fn spaced_advance(adv: int, m: int) -> int {
    clamp_advance(scaled_milli(adv, m))
}

/// One glyph record after the spacing substitution: with a spacing value
/// present, every record of the space glyph has its advance replaced by the
/// scaled nominal space advance; absent spacing leaves every record untouched.
pub open spec fn spaced_glyph(
    g: GlyphData,
    space_glyph: u32,
    space_advance: i32,
    spacing: Option<i32>,
) -> GlyphData {
    match spacing {
        None => g,
        Some(m) => if g.codepoint == space_glyph {
            GlyphData { x_advance: spaced_advance(space_advance as int, m as int) as i32, ..g }
        } else {
            g
        },
    }
}

/// Compute a spacing-scaled space advance.
pub fn scale_advance_milli(adv: i32, m: i32) -> (r: i32)
    ensures
        r as int == spaced_advance(adv as int, m as int),
{
    proof {
        assert(-0x4000_0000_0000_0000 <= (adv as int) * (m as int) <= 0x4000_0000_0000_0000)
            by (nonlinear_arith)
            requires
                -0x8000_0000 <= adv <= 0x7fff_ffff,
                -0x8000_0000 <= m <= 0x7fff_ffff,
        ;
    }
    let num: i64 = (adv as i64) * (m as i64) + 500;
    let q: i64 = floor_div_1000(num);
    if q < -0x8000_0000i64 {
        proof {
            assert(clamp_advance(q as int) == -0x8000_0000);
        }
        i32::MIN
    } else if q > 0x7fff_ffffi64 {
        i32::MAX
    } else {
        q as i32
    }
}

/// Floor division of `n` by 1000.
fn floor_div_1000(n: i64) -> (r: i64)
    ensures
        r as int == (n as int) / 1000,
{
    if n >= 0 {
        let q = (n as u64) / 1000;
        proof {
            assert((n as u64) as int == n as int);
        }
        q as i64
    } else {
        let m: u64 = (-(n + 1)) as u64 + 1;
        let qd: u64 = m / 1000;
        let rm: u64 = m % 1000;
        proof {
            assert(m as int == -(n as int));
            if rm == 0 {
                lemma_fundamental_div_mod_converse_div(
                    n as int,
                    1000,
                    -(qd as int),
                    0,
                );
            } else {
                lemma_fundamental_div_mod_converse_div(
                    n as int,
                    1000,
                    -(qd as int) - 1,
                    1000 - rm as int,
                );
            }
        }
        if rm == 0 {
            -(qd as i64)
        } else {
            -(qd as i64) - 1
        }
    }
}

/// Apply the spacing substitution to a shaped glyph sequence.
pub fn apply_spacing(
    glyphs: Vec<GlyphData>,
    space_glyph: u32,
    space_advance: i32,
    spacing: Option<i32>,
) -> (r: Vec<GlyphData>)
    ensures
        r@.len() == glyphs@.len(),
        forall|i: int|
            0 <= i < glyphs@.len() ==> r@[i] == spaced_glyph(
                #[trigger] glyphs@[i],
                space_glyph,
                space_advance,
                spacing,
            ),
{
    match spacing {
        None => glyphs,
        Some(m) => {
            let scaled = scale_advance_milli(space_advance, m);
            let n = glyphs.len();
            let mut r: Vec<GlyphData> = Vec::new();
            let mut i: usize = 0;
            while i < n
                invariant
                    i <= n,
                    n == glyphs@.len(),
                    r@.len() == i,
                    scaled as int == spaced_advance(space_advance as int, m as int),
                    forall|j: int|
                        0 <= j < i ==> r@[j] == spaced_glyph(
                            #[trigger] glyphs@[j],
                            space_glyph,
                            space_advance,
                            Some(m),
                        ),
                decreases n - i,
            {
                let g = glyphs[i];
                if g.codepoint == space_glyph {
                    r.push(GlyphData { x_advance: scaled, ..g });
                } else {
                    r.push(g);
                }
                i += 1;
            }
            r
        },
    }
}

/// The accumulated advance of the space glyph's records after the spacing
/// substitution with value `m`: the total inter-word advance of the line.
pub open spec fn space_advance_sum(gs: Seq<GlyphData>, space_glyph: u32, space_advance: i32, m: int) -> int
    decreases gs.len(),
{
    if gs.len() == 0 {
        0
    } else {
        space_advance_sum(gs.drop_last(), space_glyph, space_advance, m) + (
        if gs.last().codepoint == space_glyph {
            spaced_advance(space_advance as int, m)
        } else {
            0
        })
    }
}

proof fn lemma_scaled_exact(sa: int)
    requires
        -0x2000_0000 <= sa <= 0x2000_0000,
    ensures
        spaced_advance(sa, 1000) == sa,
        spaced_advance(sa, 2000) == 2 * sa,
{
    lemma_fundamental_div_mod_converse_div(sa * 1000 + 500, 1000, sa, 500);
    lemma_fundamental_div_mod_converse_div(sa * 2000 + 500, 1000, 2 * sa, 500);
}

/// Law: holding the nominal space advance fixed, a spacing value of 2.0
/// yields exactly double the accumulated inter-word advance that 1.0 yields
/// (no rounding remainder: thousandths divide both scalings evenly). Advances
/// near the field's limits are left out, where the doubled value would clamp.
pub proof fn lemma_spacing_doubles(gs: Seq<GlyphData>, space_glyph: u32, space_advance: i32)
    requires
        -0x2000_0000 <= space_advance <= 0x2000_0000,
    ensures
        space_advance_sum(gs, space_glyph, space_advance, 2000) == 2 * space_advance_sum(
            gs,
            space_glyph,
            space_advance,
            1000,
        ),
    decreases gs.len(),
{
    lemma_scaled_exact(space_advance as int);
    if gs.len() > 0 {
        lemma_spacing_doubles(gs.drop_last(), space_glyph, space_advance);
    }
}

/// A deterministic shaping backend: it returns a fixed glyph script whatever
/// the input text (empty input aside), with the virtual spacing control
/// applied to its designated space glyph. It drives the compositor and line
/// renderer without a real font or shaping engine.
pub struct FixedShaper {
    /// The glyph records returned for any non-empty input.
    pub script: Vec<GlyphData>,
    /// The glyph id treated as the space glyph.
    pub space_glyph: u32,
    /// The space glyph's nominal advance.
    pub space_advance: i32,
}

impl FixedShaper {
    /// A shaper that plays back `script`.
    pub fn from_script(script: Vec<GlyphData>, space_glyph: u32, space_advance: i32) -> (r:
        FixedShaper)
        ensures
            r.script == script,
            r.space_glyph == space_glyph,
            r.space_advance == space_advance,
    {
        FixedShaper { script, space_glyph, space_advance }
    }

    /// Shape: an empty input yields the empty sequence (not an error); any
    /// other input yields the script with the spacing substitution applied.
    pub fn shape(&self, input: &str, variations: &[Variation]) -> (r: Vec<GlyphData>)
        ensures
            input@.len() == 0 ==> r@.len() == 0,
            input@.len() > 0 ==> {
                &&& r@.len() == self.script@.len()
                &&& forall|i: int|
                    0 <= i < self.script@.len() ==> r@[i] == spaced_glyph(
                        #[trigger] self.script@[i],
                        self.space_glyph,
                        self.space_advance,
                        spec_spacing_of(variations@),
                    )
            },
    {
        if input.unicode_len() == 0 {
            Vec::new()
        } else {
            let spacing = find_spacing(variations);
            let mut script: Vec<GlyphData> = Vec::new();
            let n = self.script.len();
            let mut i: usize = 0;
            while i < n
                invariant
                    i <= n,
                    n == self.script@.len(),
                    script@ == self.script@.take(i as int),
                decreases n - i,
            {
                script.push(self.script[i]);
                proof {
                    assert(script@ =~= self.script@.take(i as int + 1));
                }
                i += 1;
            }
            proof {
                assert(self.script@.take(n as int) =~= self.script@);
            }
            apply_spacing(script, self.space_glyph, self.space_advance, spacing)
        }
    }
}

impl<'f> Shaper<'f> for FixedShaper {
    fn load_font(font_data: &'f [u8]) -> Self {
        FixedShaper { script: Vec::new(), space_glyph: 0, space_advance: 0 }
    }

    fn shape_text(&mut self, input: &str, variations: &[Variation]) -> Vec<GlyphData> {
        self.shape(input, variations)
    }
}

} // verus!
