use glyph_ranges::error::RequestError;
use glyph_ranges::fonts::{font_chain, split_fonts, FALLBACK_FONT};
use glyph_ranges::text::chars_of;

fn names(list: &[&str]) -> Vec<String> {
    list.iter().map(|s| s.to_string()).collect()
}

#[test]
fn splits_on_commas() {
    assert_eq!(split_fonts("Roboto-Regular"), names(&["Roboto-Regular"]));
    assert_eq!(
        split_fonts("Open Sans Bold,Noto Sans Regular"),
        names(&["Open Sans Bold", "Noto Sans Regular"])
    );
    assert_eq!(split_fonts("a,b,c"), names(&["a", "b", "c"]));
}

#[test]
fn split_keeps_empty_pieces() {
    assert_eq!(split_fonts(""), names(&[""]));
    assert_eq!(split_fonts(","), names(&["", ""]));
    assert_eq!(split_fonts("a,,b"), names(&["a", "", "b"]));
    assert_eq!(split_fonts(",a,"), names(&["", "a", ""]));
}

#[test]
fn split_keeps_other_characters() {
    assert_eq!(split_fonts("Noto Sans JP 日本語,Ünï"), names(&["Noto Sans JP 日本語", "Ünï"]));
    assert_eq!(split_fonts(" a , b "), names(&[" a ", " b "]));
}

#[test]
fn split_pieces_rejoin_to_the_text() {
    for text in ["", "a", "a,b", ",,", "x,,y,", "Open Sans,Arial"] {
        assert_eq!(split_fonts(text).join(","), text);
        assert_eq!(split_fonts(text).len(), text.matches(',').count() + 1);
    }
}

#[test]
fn chain_appends_the_fallback_font() {
    assert_eq!(FALLBACK_FONT, "Arial-Unicode-Regular");
    assert_eq!(
        font_chain(names(&["Roboto-Regular"])),
        Ok(names(&["Roboto-Regular", "Arial-Unicode-Regular"]))
    );
    assert_eq!(
        font_chain(names(&["A", "B"])),
        Ok(names(&["A", "B", "Arial-Unicode-Regular"]))
    );
    assert_eq!(
        font_chain(names(&["Arial-Unicode-Regular"])),
        Ok(names(&["Arial-Unicode-Regular", "Arial-Unicode-Regular"]))
    );
}

#[test]
fn chain_refuses_an_empty_list() {
    assert_eq!(font_chain(Vec::new()), Err(RequestError::NoGlyphsSpecified));
}

#[test]
fn chars_of_gives_every_character() {
    assert_eq!(chars_of(""), Vec::<char>::new());
    assert_eq!(chars_of("a-ß日"), vec!['a', '-', 'ß', '日']);
}
