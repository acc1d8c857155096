use glyph_ranges::combine::{combine, CombinedGlyphSet};
use glyph_ranges::glyph::{GlyphDatum, GlyphSet};
use glyph_ranges::range::{parse_range, CodePointRange};

fn glyph(id: u32, mark: u8) -> GlyphDatum {
    GlyphDatum {
        id,
        bitmap: Some(vec![mark, mark, mark]),
        width: mark as u32,
        height: 2,
        left: -1,
        top: 3,
        advance: 7,
    }
}

fn set(name: &str, range: &str, glyphs: Vec<GlyphDatum>) -> GlyphSet {
    GlyphSet { name: name.to_string(), range: range.to_string(), glyphs }
}

#[test]
fn combine_of_nothing_is_none() {
    assert_eq!(combine(Vec::new()), None);
}

#[test]
fn combine_of_empty_sets_is_none() {
    let a = GlyphSet::empty("A".to_string(), "0-255".to_string());
    let b = GlyphSet::empty("B".to_string(), "0-255".to_string());
    assert_eq!(combine(vec![a, b]), None);
}

#[test]
fn combine_of_one_set_keeps_its_glyphs() {
    let a = set("A", "0-255", vec![glyph(65, 1), glyph(66, 1)]);
    let combined = combine(vec![a.clone()]).unwrap();
    let result = combined.as_set();
    assert_eq!(result.name, "A");
    assert_eq!(result.range, "65-66");
    assert_eq!(result.glyphs, a.glyphs);
    assert_eq!(combined.len(), 2);
}

#[test]
fn first_font_wins() {
    let a = set("A", "0-255", vec![glyph(65, 1), glyph(66, 1)]);
    let b = set("B", "0-255", vec![glyph(66, 2), glyph(67, 2), glyph(64, 2)]);
    let combined = combine(vec![a, b]).unwrap();
    let result = combined.as_set();
    assert_eq!(
        result.glyphs,
        vec![glyph(65, 1), glyph(66, 1), glyph(67, 2), glyph(64, 2)]
    );
    assert_eq!(combined.get(65), Some(&glyph(65, 1)));
    assert_eq!(combined.get(66), Some(&glyph(66, 1)));
    assert_eq!(combined.get(67), Some(&glyph(67, 2)));
    assert_eq!(combined.get(64), Some(&glyph(64, 2)));
    assert_eq!(combined.get(68), None);
    assert_eq!(result.name, "A, B");
    assert_eq!(result.range, "64-67");
}

#[test]
fn order_of_the_fonts_decides() {
    let a = set("A", "0-255", vec![glyph(66, 1)]);
    let b = set("B", "0-255", vec![glyph(66, 2)]);
    let ab = combine(vec![a.clone(), b.clone()]).unwrap();
    let ba = combine(vec![b, a]).unwrap();
    assert_eq!(ab.get(66), Some(&glyph(66, 1)));
    assert_eq!(ba.get(66), Some(&glyph(66, 2)));
    assert_eq!(ab.as_set().name, "A, B");
    assert_eq!(ba.as_set().name, "B, A");
}

#[test]
fn repeated_code_point_in_one_set_keeps_the_first() {
    let a = set("A", "0-255", vec![glyph(70, 1), glyph(70, 2), glyph(71, 3)]);
    let combined = combine(vec![a]).unwrap();
    assert_eq!(combined.as_set().glyphs, vec![glyph(70, 1), glyph(71, 3)]);
    assert_eq!(combined.len(), 2);
}

#[test]
fn empty_sets_still_lend_their_names() {
    let a = GlyphSet::empty("A".to_string(), "0-255".to_string());
    let b = set("B", "0-255", vec![glyph(0, 2), glyph(4294967295, 2)]);
    let c = GlyphSet::empty(String::new(), String::new());
    let combined = combine(vec![a, b, c]).unwrap();
    assert_eq!(combined.as_set().name, "A, B, ");
    assert_eq!(combined.as_set().range, "0-4294967295");
    assert_eq!(combined.len(), 2);
}

#[test]
fn glyph_without_bitmap_is_kept_as_it_is() {
    let bare = GlyphDatum {
        id: 32,
        bitmap: None,
        width: 0,
        height: 0,
        left: 0,
        top: -2147483648,
        advance: 4294967295,
    };
    let hollow = GlyphDatum { id: 33, bitmap: Some(Vec::new()), ..bare.clone() };
    let a = set("A", "0-255", vec![bare.clone(), hollow.clone()]);
    let combined = combine(vec![a]).unwrap();
    assert_eq!(combined.get(32), Some(&bare));
    assert_eq!(combined.get(33), Some(&hollow));
}

#[test]
fn combine_is_repeatable() {
    let a = set("A", "0-255", vec![glyph(65, 1), glyph(66, 1)]);
    let b = set("B", "0-255", vec![glyph(66, 2), glyph(67, 2)]);
    let first = combine(vec![a.clone(), b.clone()]);
    let second = combine(vec![a, b]);
    assert_eq!(first, second);
}

#[test]
fn from_set_checks_the_glyphs() {
    let good = set("A", "1-2", vec![glyph(1, 1), glyph(2, 1)]);
    let made = CombinedGlyphSet::from_set(good.clone()).unwrap();
    assert_eq!(made.as_set(), &good);
    assert_eq!(made.len(), 2);
    let empty = GlyphSet::empty("A".to_string(), "0-255".to_string());
    assert_eq!(CombinedGlyphSet::from_set(empty), None);
    let twice = set("A", "1-2", vec![glyph(1, 1), glyph(2, 1), glyph(1, 2)]);
    assert_eq!(CombinedGlyphSet::from_set(twice), None);
    let one = set("A", "1-1", vec![glyph(1, 1)]);
    assert!(CombinedGlyphSet::from_set(one).is_some());
}

#[test]
fn set_lookup_and_copy() {
    let a = set("A", "0-255", vec![glyph(70, 1), glyph(70, 2), glyph(71, 3)]);
    assert_eq!(a.len(), 3);
    assert_eq!(a.get(70), Some(&glyph(70, 1)));
    assert_eq!(a.get(71), Some(&glyph(71, 3)));
    assert_eq!(a.get(72), None);
    assert_eq!(a.duplicate(), a);
    assert_eq!(glyph(70, 1).duplicate(), glyph(70, 1));
    let empty = GlyphSet::empty("E".to_string(), "0-1".to_string());
    assert_eq!(empty.len(), 0);
    assert_eq!(empty.name, "E");
    assert_eq!(empty.range, "0-1");
    assert_eq!(empty.get(0), None);
}

#[test]
fn combined_range_names_the_least_and_greatest_code_point() {
    let a = set("A", "0-255", vec![glyph(300, 1), glyph(7, 1)]);
    let b = set("B", "0-255", vec![glyph(7, 2), glyph(1000000, 2), glyph(42, 2)]);
    let combined = combine(vec![a, b]).unwrap();
    assert_eq!(combined.as_set().range, "7-1000000");
    assert_eq!(
        parse_range(&combined.as_set().range),
        Ok(CodePointRange { start: 7, end: 1000000 })
    );
    let single = combine(vec![set("C", "", vec![glyph(0, 1)])]).unwrap();
    assert_eq!(single.as_set().range, "0-0");
    let wide = combine(vec![set("D", "", vec![glyph(4294967295, 1), glyph(10, 1)])]).unwrap();
    assert_eq!(wide.as_set().range, "10-4294967295");
}
