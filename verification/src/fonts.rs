//! The list of fonts that a request names, and the font that stands behind
//! every request.

use vstd::prelude::*;

use crate::error::RequestError;
use crate::text::texts;

verus! {

/// The font that is asked after the fonts that a request names.
pub const FALLBACK_FONT: &'static str = "Arial-Unicode-Regular";

/// The pieces of the text between its commas. A text without a comma is one
/// piece; a comma at either end borders an empty piece. The empty text counts
/// as one empty piece here, but it names no font: a request refuses an empty
/// list before the list is split and before the range is read.
pub open spec fn split_commas(text: Seq<char>) -> Seq<Seq<char>>
    decreases text.len(),
{
    if text.len() == 0 {
        seq![Seq::empty()]
    } else {
        let before = split_commas(text.drop_last());
        if text.last() == ',' {
            before.push(Seq::empty())
        } else {
            before.update(before.len() - 1, before.last().push(text.last()))
        }
    }
}

/// The pieces with a comma between each two.
pub open spec fn join_commas(pieces: Seq<Seq<char>>) -> Seq<char>
    decreases pieces.len(),
{
    if pieces.len() == 0 {
        Seq::empty()
    } else if pieces.len() == 1 {
        pieces[0]
    } else {
        join_commas(pieces.drop_last()) + seq![','] + pieces.last()
    }
}

/// A text has at least one piece, no piece holds a comma, and the pieces
/// joined by commas are the text.
pub proof fn lemma_split_commas(text: Seq<char>)
    ensures
        split_commas(text).len() >= 1,
        forall|i: int, j: int|
            0 <= i < split_commas(text).len() && 0 <= j < split_commas(text)[i].len()
                ==> #[trigger] split_commas(text)[i][j] != ',',
        join_commas(split_commas(text)) == text,
    decreases text.len(),
{
    if text.len() == 0 {
        assert(join_commas(split_commas(text)) =~= text);
    } else {
        let front = text.drop_last();
        let before = split_commas(front);
        lemma_split_commas(front);
        let pieces = split_commas(text);
        if text.last() == ',' {
            assert(pieces.drop_last() =~= before);
            assert(join_commas(pieces) =~= text);
        } else {
            if before.len() == 1 {
                assert(join_commas(pieces) =~= text);
            } else {
                assert(pieces.drop_last() =~= before.drop_last());
                assert(join_commas(before) == join_commas(before.drop_last()) + seq![',']
                    + before.last());
                assert(text =~= front.push(text.last()));
                assert(join_commas(pieces) =~= join_commas(before).push(text.last()));
            }
        }
    }
}

/// The font names of a comma-separated list, in order. An empty list is for
/// the caller to refuse: it comes back as one empty name.
pub fn split_fonts(list: &str) -> (fonts: Vec<String>)
    ensures
        texts(fonts@) == split_commas(list@),
{
    let mut fonts: Vec<String> = Vec::new();
    let mut current = String::new();
    for c in it: list.chars()
        invariant
            it.seq() == list@,
            split_commas(list@.take(it.index() as int)) == texts(fonts@).push(current@),
    {
        proof {
            let n = it.index() as int;
            assert(list@.take(n + 1).drop_last() =~= list@.take(n));
            assert(list@.take(n + 1).last() == c);
        }
        if c == ',' {
            let ghost before = texts(fonts@).push(current@);
            fonts.push(current);
            current = String::new();
            proof {
                assert(texts(fonts@) =~= before);
            }
        } else {
            let ghost before = texts(fonts@).push(current@);
            current.push(c);
            proof {
                assert(texts(fonts@).push(current@) =~= before.update(
                    before.len() - 1,
                    before.last().push(c),
                ));
            }
        }
    }
    proof {
        assert(list@.take(list@.len() as int) =~= list@);
    }
    let ghost before = texts(fonts@).push(current@);
    fonts.push(current);
    proof {
        assert(texts(fonts@) =~= before);
    }
    fonts
}

/// The fonts to ask, in order: the fonts requested, then the fallback font.
/// An empty request is refused.
pub fn font_chain(requested: Vec<String>) -> (r: Result<Vec<String>, RequestError>)
    ensures
        match r {
            Ok(chain) => requested@.len() > 0 && texts(chain@) == texts(requested@).push(
                FALLBACK_FONT@,
            ),
            Err(e) => requested@.len() == 0 && e == RequestError::NoGlyphsSpecified,
        },
{
    if requested.len() == 0 {
        return Err(RequestError::NoGlyphsSpecified);
    }
    let mut chain = requested;
    let ghost before = texts(chain@);
    chain.push(FALLBACK_FONT.to_owned());
    proof {
        assert(texts(chain@) =~= before.push(FALLBACK_FONT@));
    }
    Ok(chain)
}

} // verus!
