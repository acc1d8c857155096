//! The glyph data that a request works on, as plain values.

use vstd::prelude::*;

verus! {

/// What a glyph is in contracts.
pub struct GlyphView {
    pub id: u32,
    pub bitmap: Option<Seq<u8>>,
    pub width: u32,
    pub height: u32,
    pub left: i32,
    pub top: i32,
    pub advance: u32,
}

/// What a glyph set is in contracts.
pub struct GlyphSetView {
    pub name: Seq<char>,
    pub range: Seq<char>,
    pub glyphs: Seq<GlyphView>,
}

/// The rendering data of one code point: an optional distance-field bitmap
/// and the glyph's metrics. The code point is `id`.
#[derive(Debug, Clone, PartialEq, Eq)]
pub struct GlyphDatum {
    pub id: u32,
    pub bitmap: Option<Vec<u8>>,
    pub width: u32,
    pub height: u32,
    pub left: i32,
    pub top: i32,
    pub advance: u32,
}

impl View for GlyphDatum {
    type V = GlyphView;

    open spec fn view(&self) -> GlyphView {
        GlyphView {
            id: self.id,
            bitmap: match self.bitmap {
                Some(b) => Some(b@),
                None => None,
            },
            width: self.width,
            height: self.height,
            left: self.left,
            top: self.top,
            advance: self.advance,
        }
    }
}

impl GlyphDatum {
    /// A copy of this glyph.
    pub fn duplicate(&self) -> (r: GlyphDatum)
        ensures
            r@ == self@,
    {
        let bitmap = match &self.bitmap {
            Some(b) => Some(b.clone()),
            None => None,
        };
        GlyphDatum {
            id: self.id,
            bitmap,
            width: self.width,
            height: self.height,
            left: self.left,
            top: self.top,
            advance: self.advance,
        }
    }
}

/// The glyphs of one font on one range, in the order in which they are
/// stored. `name` is the font's name and `range` the label of the range, as
/// the store gives them.
#[derive(Debug, Clone, PartialEq, Eq)]
pub struct GlyphSet {
    pub name: String,
    pub range: String,
    pub glyphs: Vec<GlyphDatum>,
}

/// The views of a sequence of glyphs.
pub open spec fn glyph_views(glyphs: Seq<GlyphDatum>) -> Seq<GlyphView> {
    glyphs.map_values(|g: GlyphDatum| g@)
}

impl View for GlyphSet {
    type V = GlyphSetView;

    open spec fn view(&self) -> GlyphSetView {
        GlyphSetView { name: self.name@, range: self.range@, glyphs: glyph_views(self.glyphs@) }
    }
}

/// The views of a sequence of glyph sets.
pub open spec fn set_views(sets: Seq<GlyphSet>) -> Seq<GlyphSetView> {
    sets.map_values(|s: GlyphSet| s@)
}

/// The first glyph of `glyphs` whose code point is `code_point`.
pub open spec fn lookup(glyphs: Seq<GlyphView>, code_point: u32) -> Option<GlyphView>
    decreases glyphs.len(),
{
    if glyphs.len() == 0 {
        None
    } else {
        match lookup(glyphs.drop_last(), code_point) {
            Some(found) => Some(found),
            None => if glyphs.last().id == code_point {
                Some(glyphs.last())
            } else {
                None
            },
        }
    }
}

/// Whether some glyph of `glyphs` has the code point `code_point`.
pub open spec fn covers(glyphs: Seq<GlyphView>, code_point: u32) -> bool {
    exists|i: int| 0 <= i < glyphs.len() && glyphs[i].id == code_point
}

/// What a prefix of `glyphs` holds for a code point, the whole of `glyphs`
/// holds for it too.
pub proof fn lemma_lookup_prefix(glyphs: Seq<GlyphView>, n: int, code_point: u32)
    requires
        0 <= n <= glyphs.len(),
        lookup(glyphs.take(n), code_point) is Some,
    ensures
        lookup(glyphs, code_point) == lookup(glyphs.take(n), code_point),
    decreases glyphs.len() - n,
{
    if n == glyphs.len() {
        assert(glyphs.take(n) =~= glyphs);
    } else {
        let next = glyphs.take(n + 1);
        assert(next.drop_last() =~= glyphs.take(n));
        lemma_lookup_prefix(glyphs, n + 1, code_point);
    }
}

/// A code point has a glyph in `glyphs` exactly if `glyphs` covers it, and
/// the glyph found has that code point and occurs in `glyphs`.
pub proof fn lemma_lookup_covers(glyphs: Seq<GlyphView>, code_point: u32)
    ensures
        lookup(glyphs, code_point) is Some <==> covers(glyphs, code_point),
        lookup(glyphs, code_point) matches Some(found) ==> found.id == code_point
            && glyphs.contains(found),
    decreases glyphs.len(),
{
    if glyphs.len() > 0 {
        let front = glyphs.drop_last();
        lemma_lookup_covers(front, code_point);
        if covers(front, code_point) {
            let i = choose|i: int| 0 <= i < front.len() && front[i].id == code_point;
            assert(glyphs[i].id == code_point);
            let found = lookup(front, code_point)->0;
            let k = choose|k: int| 0 <= k < front.len() && front[k] == found;
            assert(glyphs[k] == found);
        } else if glyphs.last().id == code_point {
            assert(glyphs[glyphs.len() - 1].id == code_point);
        } else {
            if covers(glyphs, code_point) {
                let i = choose|i: int| 0 <= i < glyphs.len() && glyphs[i].id == code_point;
                assert(front[i].id == code_point);
            }
        }
    }
}

impl GlyphSet {
    /// A set without glyphs.
    pub fn empty(name: String, range: String) -> (r: GlyphSet)
        ensures
            r@.name == name@,
            r@.range == range@,
            r@.glyphs.len() == 0,
    {
        GlyphSet { name, range, glyphs: Vec::new() }
    }

    /// The number of glyphs stored, counting repeated code points.
    pub fn len(&self) -> (n: usize)
        ensures
            n == self@.glyphs.len(),
    {
        self.glyphs.len()
    }

    /// The first glyph stored for `code_point`, if there is one.
    pub fn get(&self, code_point: u32) -> (r: Option<&GlyphDatum>)
        ensures
            match r {
                Some(g) => lookup(self@.glyphs, code_point) == Some(g@),
                None => lookup(self@.glyphs, code_point) is None,
            },
    {
        let mut i: usize = 0;
        while i < self.glyphs.len()
            invariant
                i <= self.glyphs.len(),
                lookup(self@.glyphs.take(i as int), code_point) is None,
            decreases self.glyphs.len() - i,
        {
            proof {
                let next = self@.glyphs.take(i + 1);
                assert(next.drop_last() =~= self@.glyphs.take(i as int));
                assert(next.last() == self.glyphs@[i as int]@);
            }
            if self.glyphs[i].id == code_point {
                proof {
                    lemma_lookup_prefix(self@.glyphs, i + 1, code_point);
                }
                return Some(&self.glyphs[i]);
            }
            i += 1;
        }
        proof {
            assert(self@.glyphs.take(i as int) =~= self@.glyphs);
        }
        None
    }

    /// A copy of this set.
    pub fn duplicate(&self) -> (r: GlyphSet)
        ensures
            r@ == self@,
    {
        let mut glyphs: Vec<GlyphDatum> = Vec::new();
        let mut i: usize = 0;
        while i < self.glyphs.len()
            invariant
                i <= self.glyphs.len(),
                glyphs.len() == i,
                forall|k: int| 0 <= k < i ==> glyphs@[k]@ == self.glyphs@[k]@,
            decreases self.glyphs.len() - i,
        {
            glyphs.push(self.glyphs[i].duplicate());
            i += 1;
        }
        let r = GlyphSet { name: self.name.clone(), range: self.range.clone(), glyphs };
        proof {
            assert(r@.glyphs =~= self@.glyphs);
        }
        r
    }
}

} // verus!
