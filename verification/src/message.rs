//! Glyph messages of `pbf_font_tools`, as this library sees them.
//!
//! A message is held as an opaque value. What it holds is named by
//! [`stacks_of`], and the functions of this file that are marked
//! `external_body` say, without proof, how the message type's own operations
//! act on that content.

use pbf_font_tools::{Fontstack, Glyph, Glyphs};
use vstd::prelude::*;

use crate::glyph::{GlyphDatum, GlyphView};

verus! {

/// The fields of one glyph message; a field that is not set is `None`.
pub struct GlyphRecord {
    pub id: Option<u32>,
    pub bitmap: Option<Seq<u8>>,
    pub width: Option<u32>,
    pub height: Option<u32>,
    pub left: Option<i32>,
    pub top: Option<i32>,
    pub advance: Option<u32>,
}

/// The fields of one font stack message; a field that is not set is `None`.
pub struct StackRecord {
    pub name: Option<Seq<char>>,
    pub range: Option<Seq<char>>,
    pub glyphs: Seq<GlyphRecord>,
}

/// The glyph message type of `pbf_font_tools`.
#[verifier::external_type_specification]
#[verifier::external_body]
pub struct ExGlyphs(Glyphs);

/// The font stacks that a message holds, in order, with their declared
/// fields. Fields that the format does not declare are not part of it.
pub uninterp spec fn stacks_of(message: Glyphs) -> Seq<StackRecord>;

/// Whether the message, one of its stacks or one of its glyphs carries a
/// field that the format does not declare.
pub uninterp spec fn has_undeclared_fields(message: Glyphs) -> bool;

/// The fields of one glyph as they are read from a message.
#[derive(Debug, Clone, PartialEq, Eq)]
pub struct GlyphFields {
    pub id: Option<u32>,
    pub bitmap: Option<Vec<u8>>,
    pub width: Option<u32>,
    pub height: Option<u32>,
    pub left: Option<i32>,
    pub top: Option<i32>,
    pub advance: Option<u32>,
}

impl View for GlyphFields {
    type V = GlyphRecord;

    open spec fn view(&self) -> GlyphRecord {
        GlyphRecord {
            id: self.id,
            bitmap: match self.bitmap {
                Some(b) => Some(b@),
                None => None,
            },
            width: self.width,
            height: self.height,
            left: self.left,
            top: self.top,
            advance: self.advance,
        }
    }
}

/// The record of a glyph all of whose fields but the bitmap are set.
pub open spec fn record_of(glyph: GlyphView) -> GlyphRecord {
    GlyphRecord {
        id: Some(glyph.id),
        bitmap: glyph.bitmap,
        width: Some(glyph.width),
        height: Some(glyph.height),
        left: Some(glyph.left),
        top: Some(glyph.top),
        advance: Some(glyph.advance),
    }
}

/// Whether every field that the format requires of a glyph is set.
pub open spec fn glyph_complete(record: GlyphRecord) -> bool {
    &&& record.id is Some
    &&& record.width is Some
    &&& record.height is Some
    &&& record.left is Some
    &&& record.top is Some
    &&& record.advance is Some
}

/// The glyph that a complete record stands for.
pub open spec fn glyph_of(record: GlyphRecord) -> GlyphView {
    GlyphView {
        id: record.id->0,
        bitmap: record.bitmap,
        width: record.width->0,
        height: record.height->0,
        left: record.left->0,
        top: record.top->0,
        advance: record.advance->0,
    }
}

/// Whether every field that the format requires of a stack and of its
/// glyphs is set.
pub open spec fn stack_complete(record: StackRecord) -> bool {
    &&& record.name is Some
    &&& record.range is Some
    &&& forall|j: int| 0 <= j < record.glyphs.len() ==> glyph_complete(#[trigger] record.glyphs[j])
}

/// Whether every stack of a message is complete.
pub open spec fn stacks_complete(stacks: Seq<StackRecord>) -> bool {
    forall|i: int| 0 <= i < stacks.len() ==> stack_complete(#[trigger] stacks[i])
}

/// `stacks` with `glyph` added at the end of the stack at `index`.
pub open spec fn with_glyph(stacks: Seq<StackRecord>, index: int, glyph: GlyphRecord) -> Seq<
    StackRecord,
>
    recommends
        0 <= index < stacks.len(),
{
    stacks.update(
        index,
        StackRecord {
            name: stacks[index].name,
            range: stacks[index].range,
            glyphs: stacks[index].glyphs.push(glyph),
        },
    )
}

/// `Glyphs::new`: a message without stacks and without undeclared fields.
#[verifier::external_body]
pub(crate) fn new_message() -> (message: Glyphs)
    ensures
        stacks_of(message) == Seq::<StackRecord>::empty(),
        !has_undeclared_fields(message),
{
    Glyphs::new()
}

/// Pushes onto the message's `stacks` a new stack with the given name and
/// range and no glyphs.
#[verifier::external_body]
pub(crate) fn push_stack(message: &mut Glyphs, name: String, range: String)
    ensures
        stacks_of(*final(message)) == stacks_of(*old(message)).push(
            StackRecord { name: Some(name@), range: Some(range@), glyphs: Seq::empty() },
        ),
        has_undeclared_fields(*final(message)) == has_undeclared_fields(*old(message)),
{
    let mut stack = Fontstack::new();
    stack.set_name(name);
    stack.set_range(range);
    message.stacks.push(stack);
}

/// Pushes onto the `glyphs` of the stack at `index` a glyph with the fields
/// of `glyph`, each of them set but for an absent bitmap.
#[verifier::external_body]
pub(crate) fn push_glyph(message: &mut Glyphs, index: usize, glyph: &GlyphDatum)
    requires
        index < stacks_of(*old(message)).len(),
    ensures
        stacks_of(*final(message)) == with_glyph(
            stacks_of(*old(message)),
            index as int,
            record_of(glyph@),
        ),
        has_undeclared_fields(*final(message)) == has_undeclared_fields(*old(message)),
{
    let mut made = Glyph::new();
    made.id = Some(glyph.id);
    made.bitmap = glyph.bitmap.clone();
    made.width = Some(glyph.width);
    made.height = Some(glyph.height);
    made.left = Some(glyph.left);
    made.top = Some(glyph.top);
    made.advance = Some(glyph.advance);
    message.stacks[index].glyphs.push(made);
}

/// The length of the message's `stacks`.
#[verifier::external_body]
pub(crate) fn stack_count(message: &Glyphs) -> (n: usize)
    ensures
        n == stacks_of(*message).len(),
{
    message.stacks.len()
}

/// A copy of the `name` field of the stack at `index`.
#[verifier::external_body]
pub(crate) fn stack_name(message: &Glyphs, index: usize) -> (name: Option<String>)
    requires
        index < stacks_of(*message).len(),
    ensures
        match name {
            Some(text) => stacks_of(*message)[index as int].name == Some(text@),
            None => stacks_of(*message)[index as int].name is None,
        },
{
    message.stacks[index].name.clone()
}

/// A copy of the `range` field of the stack at `index`.
#[verifier::external_body]
pub(crate) fn stack_range(message: &Glyphs, index: usize) -> (range: Option<String>)
    requires
        index < stacks_of(*message).len(),
    ensures
        match range {
            Some(text) => stacks_of(*message)[index as int].range == Some(text@),
            None => stacks_of(*message)[index as int].range is None,
        },
{
    message.stacks[index].range.clone()
}

/// The length of the `glyphs` of the stack at `index`.
#[verifier::external_body]
pub(crate) fn glyph_count(message: &Glyphs, index: usize) -> (n: usize)
    requires
        index < stacks_of(*message).len(),
    ensures
        n == stacks_of(*message)[index as int].glyphs.len(),
{
    message.stacks[index].glyphs.len()
}

/// A copy of the declared fields of the glyph at `position` in the stack at
/// `index`.
#[verifier::external_body]
pub(crate) fn glyph_at(message: &Glyphs, index: usize, position: usize) -> (fields: GlyphFields)
    requires
        index < stacks_of(*message).len(),
        position < stacks_of(*message)[index as int].glyphs.len(),
    ensures
        fields@ == stacks_of(*message)[index as int].glyphs[position as int],
{
    let glyph = &message.stacks[index].glyphs[position];
    GlyphFields {
        id: glyph.id,
        bitmap: glyph.bitmap.clone(),
        width: glyph.width,
        height: glyph.height,
        left: glyph.left,
        top: glyph.top,
        advance: glyph.advance,
    }
}

} // verus!
