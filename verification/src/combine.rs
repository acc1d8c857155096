//! Merging the glyph sets of several fonts into one, the first font listed
//! taking precedence.

use pbf_font_tools::Glyphs;
use vstd::prelude::*;

use crate::convert::{
    glyph_records, lemma_record_of_set, message_of_set, set_at, set_record, set_records,
};
use crate::glyph::{covers, lookup, set_views, GlyphDatum, GlyphSet, GlyphSetView, GlyphView};
use crate::message::{record_of, stacks_of, GlyphRecord, StackRecord};
use crate::range::{lemma_range_text, range_of, range_text, CodePointRange};

verus! {

/// Whether `ids[i]` is set and differs from every identifier before it.
pub open spec fn is_first(ids: Seq<Option<u32>>, i: int) -> bool {
    &&& ids[i] is Some
    &&& forall|j: int| 0 <= j < i ==> #[trigger] ids[j] != ids[i]
}

/// The items whose identifier is set and occurs for the first time, in their
/// order. `ids[i]` is the identifier of `items[i]`.
pub open spec fn keep_firsts<A>(items: Seq<A>, ids: Seq<Option<u32>>) -> Seq<A>
    recommends
        items.len() == ids.len(),
    decreases items.len(),
{
    if items.len() == 0 {
        Seq::empty()
    } else {
        let before = keep_firsts(items.drop_last(), ids.drop_last());
        if is_first(ids, items.len() - 1) {
            before.push(items.last())
        } else {
            before
        }
    }
}

/// The least identifier that is set, or `u32::MAX` if none is.
pub open spec fn lowest(ids: Seq<Option<u32>>) -> u32
    decreases ids.len(),
{
    if ids.len() == 0 {
        u32::MAX
    } else {
        let before = lowest(ids.drop_last());
        match ids.last() {
            Some(id) => if id < before {
                id
            } else {
                before
            },
            None => before,
        }
    }
}

/// The greatest identifier that is set, or 0 if none is.
pub open spec fn highest(ids: Seq<Option<u32>>) -> u32
    decreases ids.len(),
{
    if ids.len() == 0 {
        0
    } else {
        let before = highest(ids.drop_last());
        match ids.last() {
            Some(id) => if id > before {
                id
            } else {
                before
            },
            None => before,
        }
    }
}

/// The names joined by a comma and a space.
pub open spec fn joined(names: Seq<Seq<char>>) -> Seq<char>
    decreases names.len(),
{
    if names.len() == 0 {
        Seq::empty()
    } else if names.len() == 1 {
        names[0]
    } else {
        joined(names.drop_last()) + seq![',', ' '] + names.last()
    }
}

/// The stacks of all the messages, in order.
pub open spec fn message_stacks(messages: Seq<Glyphs>) -> Seq<StackRecord>
    decreases messages.len(),
{
    if messages.len() == 0 {
        Seq::empty()
    } else {
        message_stacks(messages.drop_last()) + stacks_of(messages.last())
    }
}

/// The glyphs of all the stacks, in order.
pub open spec fn stack_glyphs(stacks: Seq<StackRecord>) -> Seq<GlyphRecord>
    decreases stacks.len(),
{
    if stacks.len() == 0 {
        Seq::empty()
    } else {
        stack_glyphs(stacks.drop_last()) + stacks.last().glyphs
    }
}

/// The identifiers of the glyph records.
pub open spec fn record_ids(records: Seq<GlyphRecord>) -> Seq<Option<u32>> {
    records.map_values(|r: GlyphRecord| r.id)
}

/// The names of the stacks, an unset name counting as empty.
pub open spec fn stack_names(stacks: Seq<StackRecord>) -> Seq<Seq<char>> {
    stacks.map_values(
        |s: StackRecord|
            match s.name {
                Some(name) => name,
                None => Seq::empty(),
            },
    )
}

/// `combine_glyphs` walks the stacks of all the messages in order and keeps,
/// in one new stack, each glyph whose `id` is set and was not met before. It
/// returns `None` if it kept no glyph. The new stack is named by the names met,
/// joined by ", ", and its range is the least and the greatest identifier
/// kept, each in base ten as `{}` formats a `u32`, with a dash between them.
pub assume_specification[ pbf_font_tools::combine_glyphs ](glyphs_to_combine: Vec<Glyphs>) -> (combined:
    Option<Glyphs>)
    ensures
        combined is None <==> keep_firsts(
            stack_glyphs(message_stacks(glyphs_to_combine@)),
            record_ids(stack_glyphs(message_stacks(glyphs_to_combine@))),
        ).len() == 0,
        combined matches Some(message) ==> stacks_of(message).len() == 1,
        combined matches Some(message) ==> stacks_of(message)[0].name == Some(
            joined(stack_names(message_stacks(glyphs_to_combine@))),
        ),
        combined matches Some(message) ==> stacks_of(message)[0].range == Some(
            range_text(
                lowest(record_ids(stack_glyphs(message_stacks(glyphs_to_combine@)))),
                highest(record_ids(stack_glyphs(message_stacks(glyphs_to_combine@)))),
            ),
        ),
        combined matches Some(message) ==> stacks_of(message)[0].glyphs == keep_firsts(
            stack_glyphs(message_stacks(glyphs_to_combine@)),
            record_ids(stack_glyphs(message_stacks(glyphs_to_combine@))),
        ),
;

/// The glyphs of all the sets, in order.
pub open spec fn all_glyphs(sets: Seq<GlyphSetView>) -> Seq<GlyphView>
    decreases sets.len(),
{
    if sets.len() == 0 {
        Seq::empty()
    } else {
        all_glyphs(sets.drop_last()) + sets.last().glyphs
    }
}

/// The code points of the glyphs.
pub open spec fn glyph_ids(glyphs: Seq<GlyphView>) -> Seq<Option<u32>> {
    glyphs.map_values(|g: GlyphView| Some(g.id))
}

/// The glyphs whose code point occurs for the first time, in their order.
pub open spec fn first_wins(glyphs: Seq<GlyphView>) -> Seq<GlyphView> {
    keep_firsts(glyphs, glyph_ids(glyphs))
}

/// The names of the sets.
pub open spec fn set_names(sets: Seq<GlyphSetView>) -> Seq<Seq<char>> {
    sets.map_values(|s: GlyphSetView| s.name)
}

/// What the sets are combined into: `None` if they hold no glyph.
pub open spec fn combined_view(sets: Seq<GlyphSetView>) -> Option<GlyphSetView> {
    let glyphs = all_glyphs(sets);
    if glyphs.len() == 0 {
        None
    } else {
        Some(
            GlyphSetView {
                name: joined(set_names(sets)),
                range: range_text(lowest(glyph_ids(glyphs)), highest(glyph_ids(glyphs))),
                glyphs: first_wins(glyphs),
            },
        )
    }
}

/// Whether no two glyphs have the same code point.
pub open spec fn distinct_ids(glyphs: Seq<GlyphView>) -> bool {
    forall|i: int, j: int|
        0 <= i < j < glyphs.len() ==> #[trigger] glyphs[i].id != #[trigger] glyphs[j].id
}

/// Keeping the first occurrences commutes with mapping the items.
pub proof fn lemma_keep_firsts_map<A, B>(items: Seq<A>, ids: Seq<Option<u32>>, f: spec_fn(A) -> B)
    ensures
        keep_firsts(items.map_values(f), ids) == keep_firsts(items, ids).map_values(f),
    decreases items.len(),
{
    if items.len() > 0 {
        lemma_keep_firsts_map(items.drop_last(), ids.drop_last(), f);
        assert(items.map_values(f).drop_last() =~= items.drop_last().map_values(f));
    }
    assert(keep_firsts(items.map_values(f), ids) =~= keep_firsts(items, ids).map_values(f));
}

/// Each glyph kept occurs among the glyphs, under its own code point.
pub proof fn lemma_first_wins_subset(glyphs: Seq<GlyphView>, k: int)
    requires
        0 <= k < first_wins(glyphs).len(),
    ensures
        glyphs.contains(first_wins(glyphs)[k]),
    decreases glyphs.len(),
{
    let ids = glyph_ids(glyphs);
    let front = glyphs.drop_last();
    assert(ids.drop_last() =~= glyph_ids(front));
    if k < first_wins(front).len() {
        lemma_first_wins_subset(front, k);
        let i = choose|i: int| 0 <= i < front.len() && front[i] == first_wins(front)[k];
        assert(glyphs[i] == first_wins(glyphs)[k]);
    } else {
        assert(glyphs[glyphs.len() - 1] == first_wins(glyphs)[k]);
    }
}

/// The glyphs kept hold, for every code point, what the glyphs hold.
pub proof fn lemma_first_wins_lookup(glyphs: Seq<GlyphView>, code_point: u32)
    ensures
        lookup(first_wins(glyphs), code_point) == lookup(glyphs, code_point),
    decreases glyphs.len(),
{
    if glyphs.len() > 0 {
        let ids = glyph_ids(glyphs);
        let front = glyphs.drop_last();
        let last = glyphs.last();
        assert(ids.drop_last() =~= glyph_ids(front));
        lemma_first_wins_lookup(front, code_point);
        crate::glyph::lemma_lookup_covers(front, last.id);
        if is_first(ids, glyphs.len() - 1) {
            assert(first_wins(glyphs).drop_last() =~= first_wins(front));
        } else {
            let j = choose|j: int|
                0 <= j < glyphs.len() - 1 && #[trigger] ids[j] == ids[glyphs.len() - 1];
            assert(front[j].id == last.id);
        }
    }
}

/// No code point occurs twice among the glyphs kept.
pub proof fn lemma_first_wins_distinct(glyphs: Seq<GlyphView>)
    ensures
        distinct_ids(first_wins(glyphs)),
    decreases glyphs.len(),
{
    if glyphs.len() > 0 {
        let ids = glyph_ids(glyphs);
        let front = glyphs.drop_last();
        assert(ids.drop_last() =~= glyph_ids(front));
        lemma_first_wins_distinct(front);
        if is_first(ids, glyphs.len() - 1) {
            let kept = first_wins(glyphs);
            assert forall|i: int, j: int| 0 <= i < j < kept.len() implies kept[i].id
                != kept[j].id by {
                if j == kept.len() - 1 {
                    lemma_first_wins_subset(front, i);
                    let m = choose|m: int| 0 <= m < front.len() && front[m] == first_wins(front)[i];
                    assert(ids[m] == Some(kept[i].id));
                }
            }
        }
    }
}

/// Glyphs are kept exactly if there are glyphs.
pub proof fn lemma_first_wins_empty(glyphs: Seq<GlyphView>)
    ensures
        first_wins(glyphs).len() == 0 <==> glyphs.len() == 0,
    decreases glyphs.len(),
{
    if glyphs.len() > 0 {
        let ids = glyph_ids(glyphs);
        let front = glyphs.drop_last();
        assert(ids.drop_last() =~= glyph_ids(front));
        lemma_first_wins_empty(front);
        if front.len() == 0 {
            assert(is_first(ids, glyphs.len() - 1));
        }
    }
}

/// The glyph records of the stacks that sets are written as are the records
/// of the sets' glyphs, and the stacks' names are the sets' names.
pub proof fn lemma_records_of_sets(sets: Seq<GlyphSetView>)
    ensures
        stack_glyphs(set_records(sets)) == glyph_records(all_glyphs(sets)),
        stack_names(set_records(sets)) == set_names(sets),
        record_ids(glyph_records(all_glyphs(sets))) == glyph_ids(all_glyphs(sets)),
    decreases sets.len(),
{
    if sets.len() > 0 {
        lemma_records_of_sets(sets.drop_last());
        assert(set_records(sets).drop_last() =~= set_records(sets.drop_last()));
        assert(stack_glyphs(set_records(sets)) =~= glyph_records(all_glyphs(sets)));
    } else {
        assert(stack_glyphs(set_records(sets)) =~= glyph_records(all_glyphs(sets)));
    }
    assert(stack_names(set_records(sets)) =~= set_names(sets));
    assert(record_ids(glyph_records(all_glyphs(sets))) =~= glyph_ids(all_glyphs(sets)));
}

/// Messages that hold one stack each hold those stacks together.
pub proof fn lemma_single_stacks(messages: Seq<Glyphs>, stacks: Seq<StackRecord>)
    requires
        messages.len() == stacks.len(),
        forall|k: int| 0 <= k < messages.len() ==> stacks_of(#[trigger] messages[k]) == seq![stacks[k]],
    ensures
        message_stacks(messages) == stacks,
    decreases messages.len(),
{
    if messages.len() > 0 {
        lemma_single_stacks(messages.drop_last(), stacks.drop_last());
    }
    assert(message_stacks(messages) =~= stacks);
}

/// A code point is looked up in `front + back` first in `front`, then in
/// `back`.
pub proof fn lemma_lookup_concat(front: Seq<GlyphView>, back: Seq<GlyphView>, code_point: u32)
    ensures
        lookup(front + back, code_point) == match lookup(front, code_point) {
            Some(found) => Some(found),
            None => lookup(back, code_point),
        },
    decreases back.len(),
{
    if back.len() == 0 {
        assert(front + back =~= front);
    } else {
        lemma_lookup_concat(front, back.drop_last(), code_point);
        assert((front + back).drop_last() =~= front + back.drop_last());
    }
}

/// The glyphs of all the sets hold for a code point what the first set that
/// covers it holds for it.
pub proof fn lemma_all_glyphs_lookup(sets: Seq<GlyphSetView>, first: int, code_point: u32)
    requires
        0 <= first < sets.len(),
        covers(sets[first].glyphs, code_point),
        forall|j: int| 0 <= j < first ==> !covers(#[trigger] sets[j].glyphs, code_point),
    ensures
        lookup(all_glyphs(sets), code_point) == lookup(sets[first].glyphs, code_point),
    decreases sets.len(),
{
    let front = sets.drop_last();
    lemma_lookup_concat(all_glyphs(front), sets.last().glyphs, code_point);
    if first < sets.len() - 1 {
        lemma_all_glyphs_lookup(front, first, code_point);
        crate::glyph::lemma_lookup_covers(sets[first].glyphs, code_point);
    } else {
        lemma_all_glyphs_uncovered(front, code_point);
    }
}

/// The glyphs of all the sets hold nothing for a code point that no set
/// covers.
pub proof fn lemma_all_glyphs_uncovered(sets: Seq<GlyphSetView>, code_point: u32)
    requires
        forall|j: int| 0 <= j < sets.len() ==> !covers(#[trigger] sets[j].glyphs, code_point),
    ensures
        lookup(all_glyphs(sets), code_point) is None,
    decreases sets.len(),
{
    if sets.len() > 0 {
        let front = sets.drop_last();
        lemma_all_glyphs_uncovered(front, code_point);
        lemma_lookup_concat(all_glyphs(front), sets.last().glyphs, code_point);
        crate::glyph::lemma_lookup_covers(sets.last().glyphs, code_point);
    }
}

/// Fallback priority: where `first` is the first of the sets that covers a
/// code point, the sets combine into a set that holds for that code point the
/// glyph that `sets[first]` holds for it.
pub proof fn lemma_fallback_priority(sets: Seq<GlyphSetView>, first: int, code_point: u32)
    requires
        0 <= first < sets.len(),
        covers(sets[first].glyphs, code_point),
        forall|j: int| 0 <= j < first ==> !covers(#[trigger] sets[j].glyphs, code_point),
    ensures
        combined_view(sets) is Some,
        lookup(combined_view(sets)->0.glyphs, code_point) == lookup(
            sets[first].glyphs,
            code_point,
        ),
        lookup(sets[first].glyphs, code_point) is Some,
{
    lemma_all_glyphs_lookup(sets, first, code_point);
    lemma_first_wins_lookup(all_glyphs(sets), code_point);
    crate::glyph::lemma_lookup_covers(sets[first].glyphs, code_point);
}

/// A code point that no set covers has no glyph in what the sets combine
/// into.
pub proof fn lemma_only_given_glyphs(sets: Seq<GlyphSetView>, code_point: u32)
    requires
        forall|j: int| 0 <= j < sets.len() ==> !covers(#[trigger] sets[j].glyphs, code_point),
    ensures
        combined_view(sets) matches Some(combined) ==> lookup(combined.glyphs, code_point)
            is None,
{
    lemma_all_glyphs_uncovered(sets, code_point);
    lemma_first_wins_lookup(all_glyphs(sets), code_point);
}

/// Sets without glyphs, and no sets at all, combine into nothing.
pub proof fn lemma_nothing_from_empty_sets(sets: Seq<GlyphSetView>)
    requires
        forall|j: int| 0 <= j < sets.len() ==> (#[trigger] sets[j]).glyphs.len() == 0,
    ensures
        combined_view(sets) is None,
    decreases sets.len(),
{
    if sets.len() > 0 {
        lemma_nothing_from_empty_sets(sets.drop_last());
    }
}

/// What sets combine into holds a glyph, and no code point twice.
pub proof fn lemma_combined_distinct(sets: Seq<GlyphSetView>)
    ensures
        combined_view(sets) matches Some(combined) ==> combined.glyphs.len() > 0 && distinct_ids(
            combined.glyphs,
        ),
{
    lemma_first_wins_empty(all_glyphs(sets));
    lemma_first_wins_distinct(all_glyphs(sets));
}

/// An identifier that is set lies between the least and the greatest.
pub proof fn lemma_lowest_highest(ids: Seq<Option<u32>>, i: int)
    requires
        0 <= i < ids.len(),
        ids[i] is Some,
    ensures
        lowest(ids) <= ids[i]->0 <= highest(ids),
    decreases ids.len(),
{
    if i < ids.len() - 1 {
        lemma_lowest_highest(ids.drop_last(), i);
    }
}

/// The range of what sets combine into names the code points from the least
/// to the greatest of the sets' glyphs, and every glyph kept lies in it.
pub proof fn lemma_combined_range(sets: Seq<GlyphSetView>)
    ensures
        combined_view(sets) matches Some(combined) ==> {
            let ids = glyph_ids(all_glyphs(sets));
            &&& range_of(combined.range) == Some(
                CodePointRange { start: lowest(ids), end: highest(ids) },
            )
            &&& forall|k: int|
                0 <= k < combined.glyphs.len() ==> lowest(ids) <= (
                #[trigger] combined.glyphs[k]).id <= highest(ids)
        },
{
    let glyphs = all_glyphs(sets);
    let ids = glyph_ids(glyphs);
    if glyphs.len() > 0 {
        lemma_lowest_highest(ids, 0);
        lemma_range_text(lowest(ids), highest(ids));
        let kept = first_wins(glyphs);
        assert forall|k: int| 0 <= k < kept.len() implies lowest(ids) <= (#[trigger] kept[k]).id
            <= highest(ids) by {
            lemma_first_wins_subset(glyphs, k);
            let i = choose|i: int| 0 <= i < glyphs.len() && glyphs[i] == kept[k];
            lemma_lowest_highest(ids, i);
        }
    }
}

/// The glyphs of several fonts merged into one set. It holds at least one
/// glyph and no code point twice.
#[derive(Debug, PartialEq, Eq)]
pub struct CombinedGlyphSet {
    set: GlyphSet,
}

impl View for CombinedGlyphSet {
    type V = GlyphSetView;

    closed spec fn view(&self) -> GlyphSetView {
        self.set@
    }
}

impl CombinedGlyphSet {
    #[verifier::type_invariant]
    spec fn holds_distinct_glyphs(self) -> bool {
        self.set@.glyphs.len() > 0 && distinct_ids(self.set@.glyphs)
    }

    /// The mapping from code point to glyph that the set stands for.
    pub open spec fn as_map(&self) -> Map<u32, GlyphView> {
        Map::new(
            |code_point: u32| covers(self@.glyphs, code_point),
            |code_point: u32| lookup(self@.glyphs, code_point)->0,
        )
    }

    /// The set as a plain glyph set.
    pub fn as_set(&self) -> (set: &GlyphSet)
        ensures
            set@ == self@,
            set@.glyphs.len() > 0,
            distinct_ids(set@.glyphs),
    {
        proof {
            use_type_invariant(self);
        }
        &self.set
    }

    /// The number of code points that have a glyph.
    pub fn len(&self) -> (n: usize)
        ensures
            n == self@.glyphs.len(),
            n > 0,
    {
        proof {
            use_type_invariant(self);
        }
        self.set.glyphs.len()
    }

    /// The glyph of `code_point`, if it has one.
    pub fn get(&self, code_point: u32) -> (r: Option<&GlyphDatum>)
        ensures
            r is Some <==> self.as_map().dom().contains(code_point),
            r matches Some(glyph) ==> self.as_map()[code_point] == glyph@,
    {
        proof {
            crate::glyph::lemma_lookup_covers(self@.glyphs, code_point);
        }
        self.set.get(code_point)
    }

    /// The set that holds the glyphs of `set`, if `set` holds a glyph and no
    /// code point twice.
    pub fn from_set(set: GlyphSet) -> (r: Option<CombinedGlyphSet>)
        ensures
            r is Some <==> set@.glyphs.len() > 0 && distinct_ids(set@.glyphs),
            r matches Some(combined) ==> combined@ == set@,
    {
        if set.glyphs.len() == 0 {
            return None;
        }
        let mut j: usize = 1;
        while j < set.glyphs.len()
            invariant
                1 <= j <= set.glyphs.len(),
                distinct_ids(set@.glyphs.take(j as int)),
            decreases set.glyphs.len() - j,
        {
            let mut i: usize = 0;
            while i < j
                invariant
                    i <= j < set.glyphs.len(),
                    forall|k: int| 0 <= k < i ==> set.glyphs@[k].id != set.glyphs@[j as int].id,
                decreases j - i,
            {
                if set.glyphs[i].id == set.glyphs[j].id {
                    proof {
                        assert(set@.glyphs[i as int].id == set@.glyphs[j as int].id);
                    }
                    return None;
                }
                i += 1;
            }
            proof {
                let before = set@.glyphs.take(j as int);
                let next = set@.glyphs.take(j + 1);
                assert forall|a: int, b: int| 0 <= a < b < next.len() implies next[a].id
                    != next[b].id by {
                    if b < j {
                        assert(before[a].id != before[b].id);
                    }
                }
            }
            j += 1;
        }
        proof {
            assert(set@.glyphs.take(j as int) =~= set@.glyphs);
        }
        Some(CombinedGlyphSet { set })
    }
}

/// The glyphs of the sets in one set: for each code point the glyph of the
/// first set, in the order given, that has one. `None` if no set holds a
/// glyph.
pub fn combine(sets: Vec<GlyphSet>) -> (r: Option<CombinedGlyphSet>)
    ensures
        match r {
            Some(combined) => combined_view(set_views(sets@)) == Some(combined@),
            None => combined_view(set_views(sets@)) is None,
        },
{
    let ghost views = set_views(sets@);
    let mut messages: Vec<Glyphs> = Vec::new();
    let mut i: usize = 0;
    while i < sets.len()
        invariant
            i <= sets.len(),
            messages.len() == i,
            views == set_views(sets@),
            forall|k: int|
                0 <= k < i ==> stacks_of(#[trigger] messages@[k]) == seq![set_record(views[k])],
        decreases sets.len() - i,
    {
        messages.push(message_of_set(&sets[i]));
        i += 1;
    }
    proof {
        lemma_single_stacks(messages@, set_records(views));
        lemma_records_of_sets(views);
        lemma_keep_firsts_map(
            all_glyphs(views),
            glyph_ids(all_glyphs(views)),
            |g: GlyphView| record_of(g),
        );
        lemma_first_wins_empty(all_glyphs(views));
        lemma_first_wins_distinct(all_glyphs(views));
    }
    match pbf_font_tools::combine_glyphs(messages) {
        None => None,
        Some(message) => {
            proof {
                let glyphs = all_glyphs(views);
                let expected = GlyphSetView {
                    name: joined(set_names(views)),
                    range: range_text(lowest(glyph_ids(glyphs)), highest(glyph_ids(glyphs))),
                    glyphs: first_wins(glyphs),
                };
                assert(stacks_of(message)[0] == set_record(expected));
                lemma_record_of_set(expected);
            }
            Some(CombinedGlyphSet { set: set_at(&message, 0).unwrap() })
        },
    }
}

} // verus!
