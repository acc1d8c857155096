//! What a request is answered with.

use vstd::prelude::*;

use crate::error::RequestError;

verus! {

/// What a response is in contracts.
pub enum ResponseView {
    Glyphs(Seq<u8>),
    NoContent,
    BadRequest(RequestError),
    NotFound,
    InternalError(Seq<char>),
}

/// The answer to a request.
#[derive(Debug, Clone, PartialEq, Eq)]
pub enum Response {
    /// The combined glyphs in the protobuf glyph format.
    Glyphs(Vec<u8>),
    /// No font has a glyph in the range.
    NoContent,
    /// The request was refused.
    BadRequest(RequestError),
    /// The glyph store, or a font in it, is missing.
    NotFound,
    /// A font could not be loaded; the text says which font and why.
    InternalError(String),
}

impl View for Response {
    type V = ResponseView;

    open spec fn view(&self) -> ResponseView {
        match self {
            Response::Glyphs(bytes) => ResponseView::Glyphs(bytes@),
            Response::NoContent => ResponseView::NoContent,
            Response::BadRequest(e) => ResponseView::BadRequest(*e),
            Response::NotFound => ResponseView::NotFound,
            Response::InternalError(text) => ResponseView::InternalError(text@),
        }
    }
}

/// The content type of a response that carries glyphs.
pub const PROTOBUF_CONTENT_TYPE: &'static str = "application/x-protobuf";

/// The body of the response to a request without fonts.
pub const NO_GLYPHS_SPECIFIED: &'static str = "No glyphs specified";

/// The body of the response to a request with a malformed range.
pub const INVALID_RANGE: &'static str = "Invalid range";

/// The body of the response when the store or a font is missing.
pub const GLYPH_NOT_FOUND: &'static str = "Glyph not found";

/// The body of the response when no font has a glyph in the range.
pub const NO_GLYPHS_FOUND: &'static str = "No Glyphs found";

/// The HTTP status of a response.
pub open spec fn status_of(response: ResponseView) -> u16 {
    match response {
        ResponseView::Glyphs(_) => 200,
        ResponseView::NoContent => 204,
        ResponseView::BadRequest(_) => 400,
        ResponseView::NotFound => 404,
        ResponseView::InternalError(_) => 500,
    }
}

/// The text that a response carries as its body; `None` for a response that
/// carries glyphs.
pub open spec fn text_of(response: ResponseView) -> Option<Seq<char>> {
    match response {
        ResponseView::Glyphs(_) => None,
        ResponseView::NoContent => Some(NO_GLYPHS_FOUND@),
        ResponseView::BadRequest(RequestError::NoGlyphsSpecified) => Some(NO_GLYPHS_SPECIFIED@),
        ResponseView::BadRequest(RequestError::InvalidRange) => Some(INVALID_RANGE@),
        ResponseView::NotFound => Some(GLYPH_NOT_FOUND@),
        ResponseView::InternalError(text) => Some(text),
    }
}

impl Response {
    /// The HTTP status of the response.
    pub fn status(&self) -> (code: u16)
        ensures
            code == status_of(self@),
    {
        match self {
            Response::Glyphs(_) => 200,
            Response::NoContent => 204,
            Response::BadRequest(_) => 400,
            Response::NotFound => 404,
            Response::InternalError(_) => 500,
        }
    }

    /// The text of the body, for a response that does not carry glyphs.
    pub fn text(&self) -> (text: Option<String>)
        ensures
            match text {
                Some(t) => text_of(self@) == Some(t@),
                None => text_of(self@) is None,
            },
    {
        match self {
            Response::Glyphs(_) => None,
            Response::NoContent => Some(NO_GLYPHS_FOUND.to_owned()),
            Response::BadRequest(RequestError::NoGlyphsSpecified) => Some(
                NO_GLYPHS_SPECIFIED.to_owned(),
            ),
            Response::BadRequest(RequestError::InvalidRange) => Some(INVALID_RANGE.to_owned()),
            Response::NotFound => Some(GLYPH_NOT_FOUND.to_owned()),
            Response::InternalError(text) => Some(text.clone()),
        }
    }

    /// The content type, for a response that carries glyphs.
    pub fn content_type(&self) -> (content_type: Option<String>)
        ensures
            match content_type {
                Some(t) => self@ is Glyphs && t@ == PROTOBUF_CONTENT_TYPE@,
                None => !(self@ is Glyphs),
            },
    {
        match self {
            Response::Glyphs(_) => Some(PROTOBUF_CONTENT_TYPE.to_owned()),
            _ => None,
        }
    }
}

} // verus!
