use glyph_ranges::convert::{glyph_from_fields, message_of_set, sets_of_message};
use glyph_ranges::glyph::{GlyphDatum, GlyphSet};
use glyph_ranges::message::GlyphFields;
use glyph_ranges::wire::{decode, encode};
use pbf_font_tools::protobuf::Message;
use pbf_font_tools::{Fontstack, Glyph, Glyphs};

fn glyph(id: u32, mark: u8) -> GlyphDatum {
    GlyphDatum {
        id,
        bitmap: Some(vec![mark, 0, 255]),
        width: 10,
        height: 20,
        left: -3,
        top: 4,
        advance: 12,
    }
}

fn sample() -> GlyphSet {
    GlyphSet {
        name: "Open Sans Regular".to_string(),
        range: "0-255".to_string(),
        glyphs: vec![
            glyph(65, 1),
            GlyphDatum { id: 66, bitmap: None, width: 0, height: 0, left: 0, top: 0, advance: 5 },
            GlyphDatum {
                id: 4294967295,
                bitmap: Some(Vec::new()),
                width: 4294967295,
                height: 1,
                left: -2147483648,
                top: 2147483647,
                advance: 0,
            },
        ],
    }
}

#[test]
fn encoding_is_read_by_the_message_type() {
    let set = sample();
    let bytes = encode(&set);
    let message = Glyphs::parse_from_bytes(&bytes).unwrap();
    assert_eq!(message.stacks.len(), 1);
    let stack = &message.stacks[0];
    assert_eq!(stack.name(), "Open Sans Regular");
    assert_eq!(stack.range(), "0-255");
    assert_eq!(stack.glyphs.len(), 3);
    assert_eq!(stack.glyphs[0].id(), 65);
    assert_eq!(stack.glyphs[0].bitmap(), &[1u8, 0, 255][..]);
    assert_eq!(stack.glyphs[0].width(), 10);
    assert_eq!(stack.glyphs[0].height(), 20);
    assert_eq!(stack.glyphs[0].left(), -3);
    assert_eq!(stack.glyphs[0].top(), 4);
    assert_eq!(stack.glyphs[0].advance(), 12);
    assert!(!stack.glyphs[1].has_bitmap());
    assert!(stack.glyphs[2].has_bitmap());
    assert_eq!(stack.glyphs[2].id(), 4294967295);
    assert_eq!(stack.glyphs[2].left(), -2147483648);
}

#[test]
fn encoding_has_the_expected_bytes() {
    let set = GlyphSet {
        name: "A".to_string(),
        range: "1-1".to_string(),
        glyphs: vec![GlyphDatum {
            id: 1,
            bitmap: Some(vec![9]),
            width: 2,
            height: 3,
            left: -1,
            top: 1,
            advance: 4,
        }],
    };
    let expected: Vec<u8> = vec![
        0x0a, 0x19, 0x0a, 0x01, 0x41, 0x12, 0x03, 0x31, 0x2d, 0x31, 0x1a, 0x0f, 0x08, 0x01, 0x12,
        0x01, 0x09, 0x18, 0x02, 0x20, 0x03, 0x28, 0x01, 0x30, 0x02, 0x38, 0x04,
    ];
    let bytes = encode(&set);
    assert_eq!(bytes.len(), expected.len());
    assert_eq!(bytes, expected);
}

#[test]
fn round_trip_gives_the_set_back() {
    let set = sample();
    let bytes = encode(&set);
    assert_eq!(decode(&bytes), Ok(vec![set]));
}

#[test]
fn round_trip_of_a_set_without_glyphs() {
    let set = GlyphSet::empty("Empty Light".to_string(), "256-511".to_string());
    let bytes = encode(&set);
    assert_eq!(decode(&bytes), Ok(vec![set]));
}

#[test]
fn encoding_twice_gives_the_same_bytes() {
    let set = sample();
    assert_eq!(encode(&set), encode(&set));
    assert_eq!(encode(&set.duplicate()), encode(&set));
}

#[test]
fn different_sets_have_different_encodings() {
    let set = sample();
    let mut other = sample();
    other.glyphs[0].advance = 13;
    assert_ne!(encode(&set), encode(&other));
}

#[test]
fn decode_of_no_bytes_is_no_set() {
    assert_eq!(decode(&[]), Ok(Vec::new()));
}

#[test]
fn decode_refuses_what_is_no_message() {
    assert!(decode(&[0xff, 0xff, 0xff]).is_err());
    assert!(decode(&[0x0a, 0x05, 0x0a]).is_err());
}

#[test]
fn decode_refuses_a_message_with_a_missing_field() {
    // one stack with a name and no range
    assert!(decode(&[0x0a, 0x03, 0x0a, 0x01, 0x41]).is_err());
}

#[test]
fn decode_reads_every_stack() {
    let mut message = Glyphs::new();
    for name in ["One", "Two"] {
        let mut stack = Fontstack::new();
        stack.set_name(name.to_string());
        stack.set_range("0-255".to_string());
        let mut g = Glyph::new();
        g.set_id(7);
        g.set_width(1);
        g.set_height(2);
        g.set_left(3);
        g.set_top(4);
        g.set_advance(5);
        stack.glyphs.push(g);
        message.stacks.push(stack);
    }
    let bytes = message.write_to_bytes().unwrap();
    let sets = decode(&bytes).unwrap();
    assert_eq!(sets.len(), 2);
    assert_eq!(sets[0].name, "One");
    assert_eq!(sets[1].name, "Two");
    assert_eq!(
        sets[1].glyphs,
        vec![GlyphDatum { id: 7, bitmap: None, width: 1, height: 2, left: 3, top: 4, advance: 5 }]
    );
}

#[test]
fn message_of_set_fills_the_message() {
    let set = sample();
    let message = message_of_set(&set);
    assert_eq!(message.stacks.len(), 1);
    assert_eq!(message.stacks[0].name, Some("Open Sans Regular".to_string()));
    assert_eq!(message.stacks[0].range, Some("0-255".to_string()));
    assert_eq!(message.stacks[0].glyphs.len(), 3);
    assert_eq!(message.stacks[0].glyphs[0].id, Some(65));
    assert_eq!(message.stacks[0].glyphs[0].bitmap, Some(vec![1u8, 0, 255]));
    assert_eq!(message.stacks[0].glyphs[0].left, Some(-3));
    assert_eq!(message.stacks[0].glyphs[1].bitmap, None);
    assert_eq!(message.stacks[0].glyphs[1].width, Some(0));
    assert_eq!(message.stacks[0].glyphs[2].top, Some(2147483647));
    assert_eq!(sets_of_message(&message), Some(vec![set]));
}

#[test]
fn incomplete_message_gives_no_sets() {
    let mut message = Glyphs::new();
    let mut stack = Fontstack::new();
    stack.set_name("A".to_string());
    message.stacks.push(stack);
    assert_eq!(sets_of_message(&message), None);
    message.stacks[0].set_range("0-1".to_string());
    assert_eq!(
        sets_of_message(&message),
        Some(vec![GlyphSet::empty("A".to_string(), "0-1".to_string())])
    );
    let mut g = Glyph::new();
    g.set_id(1);
    message.stacks[0].glyphs.push(g);
    assert_eq!(sets_of_message(&message), None);
}

#[test]
fn glyph_from_fields_needs_every_metric() {
    let full = GlyphFields {
        id: Some(1),
        bitmap: None,
        width: Some(2),
        height: Some(3),
        left: Some(-4),
        top: Some(5),
        advance: Some(6),
    };
    assert_eq!(
        glyph_from_fields(full.clone()),
        Some(GlyphDatum { id: 1, bitmap: None, width: 2, height: 3, left: -4, top: 5, advance: 6 })
    );
    assert_eq!(glyph_from_fields(GlyphFields { id: None, ..full.clone() }), None);
    assert_eq!(glyph_from_fields(GlyphFields { width: None, ..full.clone() }), None);
    assert_eq!(glyph_from_fields(GlyphFields { height: None, ..full.clone() }), None);
    assert_eq!(glyph_from_fields(GlyphFields { left: None, ..full.clone() }), None);
    assert_eq!(glyph_from_fields(GlyphFields { top: None, ..full.clone() }), None);
    assert_eq!(glyph_from_fields(GlyphFields { advance: None, ..full }), None);
}
