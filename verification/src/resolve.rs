//! The course of one request: which font to load next, and what to answer
//! once every font is loaded or one has failed. The caller loads; this file
//! decides.

use vstd::prelude::*;

use crate::combine::{combine, combined_view};
use crate::error::RequestError;
use crate::fonts::{font_chain, split_commas, split_fonts, FALLBACK_FONT};
use crate::glyph::{set_views, GlyphSet, GlyphSetView};
use crate::range::{parse_range, range_of, CodePointRange};
use crate::response::{Response, ResponseView};
use crate::text::texts;
use crate::wire::{decoding, encode, encoding, MAX_MESSAGE_LEN};

verus! {

/// Why a font's glyphs could not be loaded.
#[derive(Debug, Clone, PartialEq, Eq)]
pub enum LoadError {
    /// The store itself cannot be reached.
    StoreUnavailable,
    /// The store has no such font.
    FontNotFound,
    /// What is stored for the font on the range could not be read; `cause`
    /// says why.
    DecodeError { font: String, range: CodePointRange, cause: String },
}

/// A font to load on a range.
#[derive(Debug, Clone, PartialEq, Eq)]
pub struct LoadRequest {
    pub font: String,
    pub range: CodePointRange,
}

/// The text of a font's name as `{:?}` formats it.
pub uninterp spec fn debug_text(text: Seq<char>) -> Seq<char>;

/// `format!("{:?}", text)`: the text in quotes, with its special characters
/// escaped.
#[verifier::external_body]
pub(crate) fn debug_quoted(text: &str) -> (quoted: String)
    ensures
        quoted@ == debug_text(text@),
{
    format!("{:?}", text)
}

/// How the body of the response to a failed load begins.
pub const LOAD_FAILED: &'static str = "Error loading glyph: ";

/// The body of the response when `font` could not be loaded for `cause`.
pub open spec fn load_failure_text(font: Seq<char>, cause: Seq<char>) -> Seq<char> {
    LOAD_FAILED@ + debug_text(font) + seq!['\n'] + cause
}

/// The body of the response when `font` could not be loaded for `cause`.
pub fn load_failure(font: &str, cause: &str) -> (text: String)
    ensures
        text@ == load_failure_text(font@, cause@),
{
    let mut text = LOAD_FAILED.to_owned();
    let quoted = debug_quoted(font);
    text.append(quoted.as_str());
    text.push('\n');
    text.append(cause);
    text
}

/// The response that ends a request when a font could not be loaded: not
/// found where the store or the font is missing, else an internal error that
/// names the font and the cause.
pub open spec fn failure_response(error: LoadError) -> ResponseView {
    match error {
        LoadError::StoreUnavailable => ResponseView::NotFound,
        LoadError::FontNotFound => ResponseView::NotFound,
        LoadError::DecodeError { font, range, cause } => ResponseView::InternalError(
            load_failure_text(font@, cause@),
        ),
    }
}

impl LoadError {
    /// The response that ends a request on this error.
    pub fn response(&self) -> (response: Response)
        ensures
            response@ == failure_response(*self),
    {
        match self {
            LoadError::StoreUnavailable => Response::NotFound,
            LoadError::FontNotFound => Response::NotFound,
            LoadError::DecodeError { font, range: _, cause } => Response::InternalError(
                load_failure(font.as_str(), cause.as_str()),
            ),
        }
    }
}

/// The response to a request for which `loaded` was loaded in all: no
/// content where the sets hold no glyph, else the encoding of what they
/// combine into.
pub open spec fn answer(loaded: Seq<GlyphSetView>) -> ResponseView {
    match combined_view(loaded) {
        None => ResponseView::NoContent,
        Some(combined) => ResponseView::Glyphs(encoding(combined)),
    }
}

/// Whether the body of a response that carries glyphs decodes to the one set
/// that `loaded` combines into. It is asked of bodies of no more than
/// `MAX_MESSAGE_LEN` bytes.
pub open spec fn body_decodes(loaded: Seq<GlyphSetView>, response: ResponseView) -> bool {
    match response {
        ResponseView::Glyphs(bytes) => bytes.len() <= MAX_MESSAGE_LEN ==> combined_view(loaded)
            is Some && decoding(bytes) == Some(seq![combined_view(loaded)->0]),
        _ => true,
    }
}

/// The response to a request for which `loaded` was loaded in all, in the
/// order of the fonts.
pub fn finish(loaded: Vec<GlyphSet>) -> (response: Response)
    ensures
        response@ == answer(set_views(loaded@)),
        body_decodes(set_views(loaded@), response@),
{
    match combine(loaded) {
        None => Response::NoContent,
        Some(combined) => Response::Glyphs(encode(combined.as_set())),
    }
}

/// A request under way: the fonts to ask in order, the range, the glyph sets
/// loaded so far and the place of the font to load next.
#[derive(Debug, PartialEq, Eq)]
pub struct Resolution {
    fonts: Vec<String>,
    range: CodePointRange,
    loaded: Vec<GlyphSet>,
    position: usize,
}

/// Where a request stands after a step.
#[derive(Debug, PartialEq, Eq)]
pub enum Progress {
    /// A font is still to be loaded.
    Pending(Resolution),
    /// The request is answered.
    Finished(Response),
}

impl Resolution {
    #[verifier::type_invariant]
    spec fn has_pending_font(self) -> bool {
        self.position < self.fonts@.len() && self.range.wf()
    }

    /// The fonts to ask, in order.
    pub closed spec fn fonts(&self) -> Seq<Seq<char>> {
        texts(self.fonts@)
    }

    /// The range requested.
    pub closed spec fn range(&self) -> CodePointRange {
        self.range
    }

    /// The glyph sets loaded so far, in order.
    pub closed spec fn loaded(&self) -> Seq<GlyphSetView> {
        set_views(self.loaded@)
    }

    /// The place in `fonts` of the font to load next.
    pub closed spec fn position(&self) -> int {
        self.position as int
    }

    /// A request for the fonts on the range that `range` names. It is refused
    /// where no font is named, else where `range` names no range. The fallback
    /// font is asked after the fonts named.
    pub fn begin(fonts: Vec<String>, range: &str) -> (r: Result<Resolution, RequestError>)
        ensures
            match r {
                Ok(state) => {
                    &&& fonts@.len() > 0
                    &&& range_of(range@) == Some(state.range())
                    &&& state.fonts() == texts(fonts@).push(FALLBACK_FONT@)
                    &&& state.loaded() == Seq::<GlyphSetView>::empty()
                    &&& state.position() == 0
                },
                Err(e) => if fonts@.len() == 0 {
                    e == RequestError::NoGlyphsSpecified
                } else {
                    range_of(range@) is None && e == RequestError::InvalidRange
                },
            },
    {
        let chain = match font_chain(fonts) {
            Ok(chain) => chain,
            Err(e) => {
                return Err(e);
            },
        };
        let range = match parse_range(range) {
            Ok(range) => range,
            Err(e) => {
                return Err(e);
            },
        };
        proof {
            assert(texts(chain@).len() == chain@.len());
        }
        let state = Resolution { fonts: chain, range, loaded: Vec::new(), position: 0 };
        proof {
            assert(state.loaded() =~= Seq::<GlyphSetView>::empty());
        }
        Ok(state)
    }

    /// The font to load next, and the range to load it on.
    pub fn pending(&self) -> (request: LoadRequest)
        ensures
            0 <= self.position() < self.fonts().len(),
            request.font@ == self.fonts()[self.position()],
            request.range == self.range(),
            request.range.wf(),
    {
        proof {
            use_type_invariant(self);
        }
        LoadRequest { font: self.fonts[self.position].clone(), range: self.range }
    }

    /// The request after the load of the pending font ended with `loaded`.
    /// An error ends the request. Glyph sets, one for each stack stored for
    /// the font, are added to those loaded; after the last font the request is
    /// answered from all of them.
    pub fn advance(self, loaded: Result<Vec<GlyphSet>, LoadError>) -> (progress: Progress)
        ensures
            0 <= self.position() < self.fonts().len(),
            match loaded {
                Err(error) => progress matches Progress::Finished(response) && response@
                    == failure_response(error),
                Ok(sets) => if self.position() + 1 < self.fonts().len() {
                    &&& progress matches Progress::Pending(next)
                    &&& next.fonts() == self.fonts()
                    &&& next.range() == self.range()
                    &&& next.position() == self.position() + 1
                    &&& next.loaded() == self.loaded() + set_views(sets@)
                } else {
                    &&& progress matches Progress::Finished(response)
                    &&& response@ == answer(self.loaded() + set_views(sets@))
                    &&& body_decodes(self.loaded() + set_views(sets@), response@)
                },
            },
    {
        proof {
            use_type_invariant(&self);
        }
        match loaded {
            Err(error) => Progress::Finished(error.response()),
            Ok(sets) => {
                let ghost added = self.loaded() + set_views(sets@);
                let ghost before = self;
                let Resolution { fonts, range, loaded, position } = self;
                proof {
                    assert(fonts == before.fonts && position == before.position);
                    assert(position < fonts@.len());
                }
                let mut loaded = loaded;
                let mut sets = sets;
                loaded.append(&mut sets);
                proof {
                    assert(set_views(loaded@) =~= added);
                }
                let count = fonts.len();
                if position + 1 < count {
                    Progress::Pending(Resolution { fonts, range, loaded, position: position + 1 })
                } else {
                    Progress::Finished(finish(loaded))
                }
            },
        }
    }
}

/// What the fonts named in `list`, separated by commas, and the range named
/// by `range` are answered with before anything is loaded. An empty list
/// names no font and is refused before the range is read; else a text that
/// names no range is refused; else the request is under way.
pub fn start(list: &str, range: &str) -> (progress: Progress)
    ensures
        match progress {
            Progress::Pending(state) => {
                &&& list@.len() > 0
                &&& range_of(range@) == Some(state.range())
                &&& state.fonts() == split_commas(list@).push(FALLBACK_FONT@)
                &&& state.loaded() == Seq::<GlyphSetView>::empty()
                &&& state.position() == 0
            },
            Progress::Finished(response) => if list@.len() == 0 {
                response@ == ResponseView::BadRequest(RequestError::NoGlyphsSpecified)
            } else {
                range_of(range@) is None && response@ == ResponseView::BadRequest(
                    RequestError::InvalidRange,
                )
            },
        },
{
    if list.is_empty() {
        return Progress::Finished(Response::BadRequest(RequestError::NoGlyphsSpecified));
    }
    let fonts = split_fonts(list);
    proof {
        crate::fonts::lemma_split_commas(list@);
    }
    match Resolution::begin(fonts, range) {
        Ok(state) => Progress::Pending(state),
        Err(e) => Progress::Finished(Response::BadRequest(e)),
    }
}

} // verus!
