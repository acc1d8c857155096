//! Glyph sets in the protobuf glyph format.

use pbf_font_tools::protobuf::Message;
use pbf_font_tools::Glyphs;
use vstd::prelude::*;

use crate::convert::{
    lemma_record_of_set, message_of_set, record_sets, set_record, sets_of_message,
};
use crate::glyph::{set_views, GlyphSet, GlyphSetView};
use crate::message::{has_undeclared_fields, stacks_complete, stacks_of, StackRecord};

verus! {

/// The bytes that `write_to_bytes` gives for a message that holds these
/// stacks and no undeclared fields.
pub uninterp spec fn wire_bytes(stacks: Seq<StackRecord>) -> Seq<u8>;

/// The stacks of the message that `parse_from_bytes` reads from the bytes,
/// or `None` where it fails.
pub uninterp spec fn parsed_stacks(bytes: Seq<u8>) -> Option<Seq<StackRecord>>;

/// The greatest length of an encoding that is known to be read back as it
/// was written.
pub const MAX_MESSAGE_LEN: usize = 0x7fff_ffff;

/// `Message::write_to_bytes`, with a failure as `None`. It fails only where
/// a required field is not set: writing into a vector has no other failure.
/// For a message without undeclared fields the bytes depend on the stacks
/// alone, and `Message::parse_from_bytes` reads the same stacks from them
/// while the nested lengths fit the format, which `MAX_MESSAGE_LEN` bytes
/// do.
#[verifier::external_body]
pub(crate) fn write_message(message: &Glyphs) -> (written: Option<Vec<u8>>)
    ensures
        stacks_complete(stacks_of(*message)) ==> written is Some,
        written matches Some(bytes) ==> (!has_undeclared_fields(*message) ==> bytes@ == wire_bytes(
            stacks_of(*message),
        )),
        written matches Some(bytes) ==> (!has_undeclared_fields(*message) && bytes@.len()
            <= MAX_MESSAGE_LEN ==> parsed_stacks(bytes@) == Some(stacks_of(*message))),
{
    message.write_to_bytes().ok()
}

/// `Message::parse_from_bytes` for a glyph message, the error rendered as
/// text. A message that it returns has every required field set.
#[verifier::external_body]
pub(crate) fn parse_message(bytes: &[u8]) -> (read: Result<Glyphs, String>)
    ensures
        match read {
            Ok(message) => parsed_stacks(bytes@) == Some(stacks_of(message)) && stacks_complete(
                stacks_of(message),
            ),
            Err(_) => parsed_stacks(bytes@) is None,
        },
{
    Glyphs::parse_from_bytes(bytes).map_err(|e| format!("{:#?}", e))
}

/// The encoding of a glyph set: a message of one stack.
pub open spec fn encoding(set: GlyphSetView) -> Seq<u8> {
    wire_bytes(seq![set_record(set)])
}

/// The glyph sets that the bytes encode, or `None` where they are not a
/// glyph message.
pub open spec fn decoding(bytes: Seq<u8>) -> Option<Seq<GlyphSetView>> {
    match parsed_stacks(bytes) {
        Some(stacks) => Some(record_sets(stacks)),
        None => None,
    }
}

/// The set in the protobuf glyph format, as a message of one stack. Bytes
/// of no more than `MAX_MESSAGE_LEN` decode to the set again.
pub fn encode(set: &GlyphSet) -> (bytes: Vec<u8>)
    ensures
        bytes@ == encoding(set@),
        bytes@.len() <= MAX_MESSAGE_LEN ==> decoding(bytes@) == Some(seq![set@]),
{
    let message = message_of_set(set);
    proof {
        lemma_record_of_set(set@);
        assert(record_sets(seq![set_record(set@)]) =~= seq![set@]);
    }
    write_message(&message).unwrap()
}

/// Encoding depends on the set alone: what is encoded twice gives the same
/// bytes twice.
pub proof fn lemma_encoding_repeatable(set: GlyphSetView, first: Seq<u8>, second: Seq<u8>)
    requires
        first == encoding(set),
        second == encoding(set),
    ensures
        first == second,
{
}

/// The glyph sets that the bytes encode, one for each stack of the message;
/// an error that holds the cause where the bytes are not a glyph message.
pub fn decode(bytes: &[u8]) -> (r: Result<Vec<GlyphSet>, String>)
    ensures
        match r {
            Ok(sets) => decoding(bytes@) == Some(set_views(sets@)),
            Err(_) => decoding(bytes@) is None,
        },
{
    match parse_message(bytes) {
        Ok(message) => Ok(sets_of_message(&message).unwrap()),
        Err(cause) => Err(cause),
    }
}

} // verus!
