//! Glyph sets to messages and back.

use pbf_font_tools::Glyphs;
use vstd::prelude::*;

use crate::glyph::{GlyphDatum, GlyphSet, GlyphSetView, GlyphView};
use crate::message::{
    glyph_at, glyph_complete, glyph_count, glyph_of, has_undeclared_fields, new_message,
    push_glyph, push_stack, record_of, stack_complete, stack_count, stack_name, stack_range,
    stacks_complete, stacks_of, GlyphFields, GlyphRecord, StackRecord,
};

verus! {

/// The records of a sequence of glyphs.
pub open spec fn glyph_records(glyphs: Seq<GlyphView>) -> Seq<GlyphRecord> {
    glyphs.map_values(|g: GlyphView| record_of(g))
}

/// The glyphs that a sequence of complete records stands for.
pub open spec fn record_glyphs(records: Seq<GlyphRecord>) -> Seq<GlyphView> {
    records.map_values(|r: GlyphRecord| glyph_of(r))
}

/// The stack record that a glyph set is written as.
pub open spec fn set_record(set: GlyphSetView) -> StackRecord {
    StackRecord {
        name: Some(set.name),
        range: Some(set.range),
        glyphs: glyph_records(set.glyphs),
    }
}

/// The glyph set that a complete stack record stands for.
pub open spec fn record_set(record: StackRecord) -> GlyphSetView {
    GlyphSetView {
        name: record.name->0,
        range: record.range->0,
        glyphs: record_glyphs(record.glyphs),
    }
}

/// The stack records that a sequence of glyph sets is written as.
pub open spec fn set_records(sets: Seq<GlyphSetView>) -> Seq<StackRecord> {
    sets.map_values(|s: GlyphSetView| set_record(s))
}

/// The glyph sets that a sequence of complete stack records stands for.
pub open spec fn record_sets(records: Seq<StackRecord>) -> Seq<GlyphSetView> {
    records.map_values(|r: StackRecord| record_set(r))
}

/// A set's record is complete and stands for the set.
pub proof fn lemma_record_of_set(set: GlyphSetView)
    ensures
        stack_complete(set_record(set)),
        record_set(set_record(set)) == set,
{
    assert(record_glyphs(glyph_records(set.glyphs)) =~= set.glyphs);
}

/// The glyph that `fields` stands for, if every required field is set.
pub fn glyph_from_fields(fields: GlyphFields) -> (r: Option<GlyphDatum>)
    ensures
        r is Some <==> glyph_complete(fields@),
        r matches Some(g) ==> g@ == glyph_of(fields@),
{
    match (fields.id, fields.width, fields.height, fields.left, fields.top, fields.advance) {
        (Some(id), Some(width), Some(height), Some(left), Some(top), Some(advance)) => Some(
            GlyphDatum { id, bitmap: fields.bitmap, width, height, left, top, advance },
        ),
        _ => None,
    }
}

/// A message with one stack, which holds the set.
pub fn message_of_set(set: &GlyphSet) -> (message: Glyphs)
    ensures
        stacks_of(message) == seq![set_record(set@)],
        !has_undeclared_fields(message),
{
    let mut message = new_message();
    push_stack(&mut message, set.name.clone(), set.range.clone());
    let mut j: usize = 0;
    proof {
        assert(glyph_records(set@.glyphs.take(0)) =~= Seq::<GlyphRecord>::empty());
        assert(stacks_of(message) =~= seq![
            StackRecord {
                name: Some(set.name@),
                range: Some(set.range@),
                glyphs: glyph_records(set@.glyphs.take(0)),
            },
        ]);
    }
    while j < set.glyphs.len()
        invariant
            j <= set.glyphs.len(),
            !has_undeclared_fields(message),
            stacks_of(message) == seq![
                StackRecord {
                    name: Some(set.name@),
                    range: Some(set.range@),
                    glyphs: glyph_records(set@.glyphs.take(j as int)),
                },
            ],
        decreases set.glyphs.len() - j,
    {
        push_glyph(&mut message, 0, &set.glyphs[j]);
        proof {
            let done = set@.glyphs.take(j as int);
            let next = set@.glyphs.take(j + 1);
            assert(next =~= done.push(set.glyphs@[j as int]@));
            assert(glyph_records(next) =~= glyph_records(done).push(
                record_of(set.glyphs@[j as int]@),
            ));
            assert(stacks_of(message) =~= seq![
                StackRecord {
                    name: Some(set.name@),
                    range: Some(set.range@),
                    glyphs: glyph_records(next),
                },
            ]);
        }
        j += 1;
    }
    proof {
        assert(set@.glyphs.take(j as int) =~= set@.glyphs);
    }
    message
}

/// The glyph set held by the stack at `index`, if that stack is complete.
pub(crate) fn set_at(message: &Glyphs, index: usize) -> (r: Option<GlyphSet>)
    requires
        index < stacks_of(*message).len(),
    ensures
        r is Some <==> stack_complete(stacks_of(*message)[index as int]),
        r matches Some(set) ==> set@ == record_set(stacks_of(*message)[index as int]),
{
    let ghost record = stacks_of(*message)[index as int];
    let name = match stack_name(message, index) {
        Some(name) => name,
        None => {
            return None;
        },
    };
    let range = match stack_range(message, index) {
        Some(range) => range,
        None => {
            return None;
        },
    };
    let count = glyph_count(message, index);
    let mut glyphs: Vec<GlyphDatum> = Vec::new();
    let mut j: usize = 0;
    while j < count
        invariant
            j <= count,
            count == record.glyphs.len(),
            index < stacks_of(*message).len(),
            record == stacks_of(*message)[index as int],
            glyphs.len() == j,
            forall|k: int| 0 <= k < j ==> glyph_complete(#[trigger] record.glyphs[k]),
            forall|k: int| 0 <= k < j ==> (#[trigger] glyphs@[k])@ == glyph_of(record.glyphs[k]),
        decreases count - j,
    {
        match glyph_from_fields(glyph_at(message, index, j)) {
            Some(glyph) => {
                glyphs.push(glyph);
            },
            None => {
                return None;
            },
        }
        j += 1;
    }
    let set = GlyphSet { name, range, glyphs };
    proof {
        assert(set@.glyphs =~= record_glyphs(record.glyphs));
    }
    Some(set)
}

/// The glyph sets held by the message's stacks, in order, if every stack is
/// complete.
pub fn sets_of_message(message: &Glyphs) -> (r: Option<Vec<GlyphSet>>)
    ensures
        r is Some <==> stacks_complete(stacks_of(*message)),
        r matches Some(sets) ==> crate::glyph::set_views(sets@) == record_sets(stacks_of(*message)),
{
    let count = stack_count(message);
    let mut sets: Vec<GlyphSet> = Vec::new();
    let mut i: usize = 0;
    while i < count
        invariant
            i <= count,
            count == stacks_of(*message).len(),
            sets.len() == i,
            forall|k: int| 0 <= k < i ==> stack_complete(#[trigger] stacks_of(*message)[k]),
            forall|k: int|
                0 <= k < i ==> (#[trigger] sets@[k])@ == record_set(stacks_of(*message)[k]),
        decreases count - i,
    {
        match set_at(message, i) {
            Some(set) => {
                sets.push(set);
            },
            None => {
                return None;
            },
        }
        i += 1;
    }
    proof {
        assert(crate::glyph::set_views(sets@) =~= record_sets(stacks_of(*message)));
    }
    Some(sets)
}

} // verus!
