//! Bitmap fonts in the BDF format, read with the `bdf_reader` crate.
//!
//! The glyphs of a font are opaque to the proofs: what a glyph looks like is
//! whatever the font file says, and nothing here claims more.

use bdf_reader::{Font, Glyph};
use crate::bdf::bdf_readable;
use vstd::prelude::*;
use vstd::string::StrSliceExecFns;

verus! {

#[verifier::external_type_specification]
#[verifier::external_body]
pub struct ExFont(Font);

#[verifier::external_type_specification]
#[verifier::external_body]
pub struct ExGlyph(Glyph);

/// What a font holds: for each encoding that it has a glyph for, the glyph
/// as (width, height, offset_x, offset_y, dots row by row, advance).
pub uninterp spec fn font_glyphs(font: Font) -> Map<u32, (u32, u32, i32, i32, Seq<bool>, Option<i32>)>;

/// The height of a font's default bounding box.
pub uninterp spec fn font_box_height(font: Font) -> u32;

/// Looks up the glyph of a character with `bdf_reader::Font::glyph`, by the
/// character's number as its encoding, and hands it out as plain values: its
/// bounding box from `Glyph::bounding_box`, the dots of its bitmap row by row
/// as `Bitmap::get` reads them (a dot outside the bitmap reading as unset),
/// and the horizontal device width from `Glyph::dwidth`, truncated to an
/// integer as a cast does. The contract claims that the result is what the
/// font holds for that encoding, and that there is one dot per cell of the
/// bounding box.
#[verifier::external_body]
fn font_glyph(font: &Font, ch: char) -> (res: Option<(u32, u32, i32, i32, Vec<bool>, Option<i32>)>)
    ensures
        res is None <==> !font_glyphs(*font).contains_key(ch as u32),
        res matches Some(t) ==> font_glyphs(*font)[ch as u32] == (t.0, t.1, t.2, t.3, t.4@, t.5),
        res matches Some(t) ==> t.4@.len() == (t.0 as int) * (t.1 as int),
{
    let glyph = font.glyph(ch)?;
    let bb = glyph.bounding_box();
    let bitmap = glyph.bitmap();
    let dots: Vec<bool> = (0..bb.height as usize)
        .flat_map(|row| (0..bb.width as usize).map(move |col| bitmap.get(col, row).unwrap_or(false)))
        .collect();
    let advance = glyph.dwidth().map(|(dx, _)| dx as i32);
    Some((bb.width, bb.height, bb.offset_x, bb.offset_y, dots, advance))
}

/// The height of the font's default bounding box, from
/// `bdf_reader::Font::bounding_box`.
#[verifier::external_body]
fn read_box_height(font: &Font) -> (res: u32)
    ensures
        res == font_box_height(*font),
{
    font.bounding_box().height
}

/// A glyph as plain values.
pub struct GlyphInfo {
    pub width: u32,
    pub height: u32,
    pub offset_x: i32,
    pub offset_y: i32,
    /// The dots of the bitmap, row by row: `width * height` of them.
    pub dots: Vec<bool>,
    pub advance: Option<i32>,
}

impl GlyphInfo {
    /// The dot at (`col`, `row`).
    pub open spec fn dot(&self, col: int, row: int) -> bool {
        self.dots@[row * self.width + col]
    }

    /// The dots match the size.
    pub open spec fn wf(&self) -> bool {
        self.dots@.len() == (self.width as int) * (self.height as int)
    }
}

/// Whether `g` is the glyph `t` as a font holds it (see [`font_glyphs`]).
pub open spec fn is_glyph(g: GlyphInfo, t: (u32, u32, i32, i32, Seq<bool>, Option<i32>)) -> bool {
    &&& g.width == t.0
    &&& g.height == t.1
    &&& g.offset_x == t.2
    &&& g.offset_y == t.3
    &&& g.dots@ == t.4
    &&& g.advance == t.5
}

/// Whether `g` is what the glyphs `glyphs` (by encoding) hold for `ch`:
/// nothing when there is no glyph for the character, its glyph otherwise.
pub open spec fn holds_glyph(glyphs: Map<u32, (u32, u32, i32, i32, Seq<bool>, Option<i32>)>, ch: char, g: Option<GlyphInfo>) -> bool {
    match g {
        None => !glyphs.contains_key(ch as u32),
        Some(g) => glyphs.contains_key(ch as u32) && is_glyph(g, glyphs[ch as u32]),
    }
}

/// Whether `g` is what `font` holds for `ch`.
pub open spec fn font_glyph_is(font: Font, ch: char, g: Option<GlyphInfo>) -> bool {
    holds_glyph(font_glyphs(font), ch, g)
}

/// Whether a font was read from the BDF text `bdf`.
pub uninterp spec fn bdf_parses(bdf: Seq<u8>) -> bool;

/// The glyphs of the font read from the BDF text `bdf`, as
/// [`font_glyphs`] gives them.
pub uninterp spec fn bdf_glyphs(bdf: Seq<u8>) -> Map<u32, (u32, u32, i32, i32, Seq<bool>, Option<i32>)>;

/// The height of the default bounding box of the font read from the BDF
/// text `bdf`.
pub uninterp spec fn bdf_box_height(bdf: Seq<u8>) -> u32;

/// Reads a font from BDF text with `bdf_reader::Font::read`, the text being
/// one of those it reads without stopping (see [`bdf_readable`]). The
/// contract claims that whether it reads a font, and the glyphs and box
/// height of that font, depend on the text alone.
#[verifier::external_body]
pub(crate) fn read_font(bdf: &[u8]) -> (res: Option<Font>)
    requires
        bdf_readable(bdf@),
    ensures
        res is Some <==> bdf_parses(bdf@),
        res matches Some(f) ==> font_glyphs(f) == bdf_glyphs(bdf@),
        res matches Some(f) ==> font_box_height(f) == bdf_box_height(bdf@),
{
    Font::read(bdf).ok()
}

/// The glyph of `ch` in `font`, as plain values, or `None` when the font has
/// no glyph for it.
pub fn glyph_info(font: &Font, ch: char) -> (res: Option<GlyphInfo>)
    ensures
        font_glyph_is(*font, ch, res),
        res matches Some(g) ==> g.wf(),
{
    match font_glyph(font, ch) {
        None => None,
        Some((width, height, offset_x, offset_y, dots, advance)) => Some(
            GlyphInfo { width, height, offset_x, offset_y, dots, advance },
        ),
    }
}

/// The glyph bound to `ch` by the first entry for it, if any.
pub open spec fn glyph_in(entries: Seq<(char, Option<GlyphInfo>)>, ch: char) -> Option<GlyphInfo>
    decreases entries.len(),
{
    if entries.len() == 0 {
        None
    } else if entries[0].0 == ch {
        entries[0].1
    } else {
        glyph_in(entries.drop_first(), ch)
    }
}

/// Whether `entries` has an entry for `ch`.
pub open spec fn has_char(entries: Seq<(char, Option<GlyphInfo>)>, ch: char) -> bool
    decreases entries.len(),
{
    if entries.len() == 0 {
        false
    } else if entries[0].0 == ch {
        true
    } else {
        has_char(entries.drop_first(), ch)
    }
}

/// An entry added after the others binds its character only when no entry
/// did before.
proof fn lemma_push_entry(entries: Seq<(char, Option<GlyphInfo>)>, e: (char, Option<GlyphInfo>), ch: char)
    ensures
        has_char(entries.push(e), ch) == (has_char(entries, ch) || e.0 == ch),
        glyph_in(entries.push(e), ch) == if has_char(entries, ch) {
            glyph_in(entries, ch)
        } else if e.0 == ch {
            e.1
        } else {
            None
        },
    decreases entries.len(),
{
    if entries.len() > 0 {
        assert(entries.push(e)[0] == entries[0]);
        assert(entries.push(e).drop_first() =~= entries.drop_first().push(e));
        lemma_push_entry(entries.drop_first(), e, ch);
    } else {
        let empty = Seq::<(char, Option<GlyphInfo>)>::empty();
        assert(entries.push(e)[0] == e);
        assert(entries.push(e).drop_first() =~= empty);
        assert(!has_char(empty, ch));
        assert(glyph_in(empty, ch) is None);
    }
}

/// The entries have one for `ch` exactly when `ch` is among their characters.
proof fn lemma_has_char_contains(entries: Seq<(char, Option<GlyphInfo>)>, ch: char)
    ensures
        has_char(entries, ch) <==> entries.map_values(|e: (char, Option<GlyphInfo>)| e.0).contains(ch),
    decreases entries.len(),
{
    let cs = entries.map_values(|e: (char, Option<GlyphInfo>)| e.0);
    if entries.len() > 0 {
        lemma_has_char_contains(entries.drop_first(), ch);
        let rest = entries.drop_first().map_values(|e: (char, Option<GlyphInfo>)| e.0);
        assert(rest =~= cs.drop_first());
        if cs.contains(ch) && entries[0].0 != ch {
            let k = choose|k: int| 0 <= k < cs.len() && cs[k] == ch;
            assert(rest[k - 1] == ch);
        }
        if rest.contains(ch) {
            let k = choose|k: int| 0 <= k < rest.len() && rest[k] == ch;
            assert(cs[k + 1] == ch);
        }
        if entries[0].0 == ch {
            assert(cs[0] == ch);
        }
    }
}

/// The glyphs of some characters of a font, as plain values, with the height
/// of the font's bounding box. A character without an entry, or whose entry
/// is `None`, has no glyph.
pub struct GlyphSet {
    pub box_height: u32,
    pub entries: Vec<(char, Option<GlyphInfo>)>,
}

impl GlyphSet {
    /// The glyph of `ch`, if any.
    pub open spec fn glyph(&self, ch: char) -> Option<GlyphInfo> {
        glyph_in(self.entries@, ch)
    }

    /// Every glyph is well formed.
    pub open spec fn wf(&self) -> bool {
        forall|i: int|
            0 <= i < self.entries@.len() ==> ((#[trigger] self.entries@[i]).1 matches Some(g) ==> g.wf())
    }

    /// Whether the set was read from `font`: its height is the font's, and
    /// the glyph of each character with an entry is the font's glyph for it.
    pub open spec fn from_font(&self, font: Font) -> bool {
        self.read_from(font_box_height(font), font_glyphs(font))
    }

    /// Whether the set was read from a font whose bounding box is
    /// `box_height` high and whose glyphs are `glyphs`.
    pub open spec fn read_from(&self, box_height: u32, glyphs: Map<u32, (u32, u32, i32, i32, Seq<bool>, Option<i32>)>) -> bool {
        &&& self.box_height == box_height
        &&& forall|ch: char| #[trigger] has_char(self.entries@, ch) ==> holds_glyph(glyphs, ch, self.glyph(ch))
    }

    /// An empty set for a font whose bounding box is `box_height` high.
    pub fn new(box_height: u32) -> (res: Self)
        ensures
            res.box_height == box_height,
            res.entries@.len() == 0,
            res.wf(),
    {
        GlyphSet { box_height, entries: Vec::new() }
    }

    /// The glyph of `ch`, if any.
    pub fn lookup(&self, ch: char) -> (res: Option<&GlyphInfo>)
        requires
            self.wf(),
        ensures
            res matches Some(g) ==> self.glyph(ch) == Some(*g) && g.wf(),
            res is None <==> self.glyph(ch) is None,
    {
        let mut i: usize = 0;
        assert(self.entries@.skip(0) =~= self.entries@);
        while i < self.entries.len()
            invariant
                i <= self.entries@.len(),
                self.wf(),
                glyph_in(self.entries@, ch) == glyph_in(self.entries@.skip(i as int), ch),
            decreases self.entries@.len() - i,
        {
            assert(self.entries@.skip(i as int).drop_first() =~= self.entries@.skip(i + 1));
            if self.entries[i].0 == ch {
                let entry = &self.entries[i];
                assert(self.entries@[i as int] == *entry);
                return match &entry.1 {
                    Some(g) => Some(g),
                    None => None,
                };
            }
            i = i + 1;
        }
        None
    }

    /// Adds an entry for each character of `text`, in order, with its glyph
    /// read from `font`.
    pub fn add_text(&mut self, font: &Font, text: &str)
        requires
            old(self).wf(),
            old(self).from_font(*font),
        ensures
            final(self).wf(),
            final(self).from_font(*font),
            final(self).box_height == old(self).box_height,
            final(self).entries@.len() == old(self).entries@.len() + text@.len(),
            forall|i: int| 0 <= i < old(self).entries@.len() ==> #[trigger] final(self).entries@[i] == old(self).entries@[i],
            forall|i: int| 0 <= i < text@.len() ==> (#[trigger] final(self).entries@[old(self).entries@.len() + i]).0 == text@[i],
    {
        let n = text.unicode_len();
        let mut i: usize = 0;
        while i < n
            invariant
                self.wf(),
                self.from_font(*font),
                self.box_height == old(self).box_height,
                n == text@.len(),
                i <= n,
                self.entries@.len() == old(self).entries@.len() + i,
                forall|k: int| 0 <= k < old(self).entries@.len() ==> #[trigger] self.entries@[k] == old(self).entries@[k],
                forall|k: int| 0 <= k < i ==> (#[trigger] self.entries@[old(self).entries@.len() + k]).0 == text@[k],
            decreases n - i,
        {
            let ch = text.get_char(i);
            let glyph = glyph_info(font, ch);
            let ghost before = self.entries@;
            self.entries.push((ch, glyph));
            proof {
                assert forall|c: char| #[trigger] has_char(self.entries@, c) implies font_glyph_is(
                    *font,
                    c,
                    self.glyph(c),
                ) by {
                    lemma_push_entry(before, (ch, glyph), c);
                    if has_char(before, c) {
                        assert(font_glyph_is(*font, c, glyph_in(before, c)));
                    }
                }
                assert(self.entries@[old(self).entries@.len() + i].0 == text@[i as int]);
            }
            i = i + 1;
        }
    }

    /// The glyphs of the characters of `texts`, read from `font`: one entry
    /// per character, in order.
    pub fn read(font: &Font, texts: &Vec<&str>) -> (res: Self)
        ensures
            res.wf(),
            res.from_font(*font),
            res.entries@.map_values(|e: (char, Option<GlyphInfo>)| e.0) == chars_of(texts@),
            forall|ch: char| #[trigger] chars_of(texts@).contains(ch) ==> font_glyph_is(*font, ch, res.glyph(ch)),
    {
        let mut set = GlyphSet::new(read_box_height(font));
        let mut i: usize = 0;
        while i < texts.len()
            invariant
                set.wf(),
                set.from_font(*font),
                i <= texts@.len(),
                set.entries@.map_values(|e: (char, Option<GlyphInfo>)| e.0) == chars_of(texts@.take(i as int)),
            decreases texts.len() - i,
        {
            let ghost before = set.entries@;
            let text = texts[i];
            set.add_text(font, text);
            proof {
                let a = set.entries@.map_values(|e: (char, Option<GlyphInfo>)| e.0);
                let b = before.map_values(|e: (char, Option<GlyphInfo>)| e.0) + text@;
                assert(a.len() == b.len());
                assert forall|k: int| 0 <= k < a.len() implies a[k] == b[k] by {
                    if k < before.len() {
                        assert(set.entries@[k] == before[k]);
                    } else {
                        assert(set.entries@[before.len() + (k - before.len())].0 == text@[k - before.len()]);
                    }
                }
                assert(text == texts@[i as int]);
                assert(texts@.take(i + 1).drop_last() =~= texts@.take(i as int));
                assert(set.entries@.map_values(|e: (char, Option<GlyphInfo>)| e.0) =~= before.map_values(
                    |e: (char, Option<GlyphInfo>)| e.0,
                ) + texts@[i as int]@);
            }
            i = i + 1;
        }
        assert(texts@.take(texts@.len() as int) =~= texts@);
        proof {
            assert forall|ch: char| #[trigger] chars_of(texts@).contains(ch) implies font_glyph_is(
                *font,
                ch,
                set.glyph(ch),
            ) by {
                lemma_has_char_contains(set.entries@, ch);
            }
        }
        set
    }
}

/// The characters of `texts`, one after the other.
pub open spec fn chars_of(texts: Seq<&str>) -> Seq<char>
    decreases texts.len(),
{
    if texts.len() == 0 {
        Seq::empty()
    } else {
        chars_of(texts.drop_last()) + texts.last()@
    }
}

} // verus!
