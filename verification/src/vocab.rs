//! The tokenizer capability: a fixed sub-word vocabulary with deterministic
//! id-to-text decoding, held behind a narrow trusted interface. The tokenizer
//! value itself is opaque; what the library relies on is named by the two
//! spec functions below.

use vstd::prelude::*;

verus! {

#[verifier::external_type_specification]
#[verifier::external_body]
pub struct ExTokenizer(tokenizers::Tokenizer);

/// The text that the tokenizer decodes a window of token ids to, with special
/// tokens skipped. Decoding is a pure function of the tokenizer value and the
/// id window: the same window always decodes to the same text.
pub uninterp spec fn spec_decode(t: tokenizers::Tokenizer, ids: Seq<u32>) -> Seq<char>;

/// The vocabulary of the tokenizer, added tokens included: token text to id.
pub uninterp spec fn spec_vocab(t: tokenizers::Tokenizer) -> Map<Seq<char>, u32>;

/// Whether the tokenizer decodes a given non-empty id window at all. Decoding
/// is deterministic, so success too is a function of the tokenizer value and
/// of the ids alone.
pub uninterp spec fn decode_ok(t: tokenizers::Tokenizer, ids: Seq<u32>) -> bool;

/// Whether the tokenizer's configured decoder chain returns on every piece
/// list that decoding can hand it, the empty list and empty piece strings
/// included. Joining with spaces (no configured decoder) is total; a chain
/// that indexes into its pieces is not (the crate's BPE decoder counts from
/// one below the list's length, its Strip decoder from the end of each
/// piece). Totality is a property of the tokenizer value alone; whoever
/// builds a decoder around a tokenizer vouches for it, and
/// `TokenOutputStream::try_new` establishes it for the plainly total case.
pub uninterp spec fn decoder_total(t: tokenizers::Tokenizer) -> bool;

/// A token id window could not be decoded; fatal for the current request.
#[derive(Debug)]
pub struct DecodeError {
    pub message: String,
}

/// A prompt could not be tokenized.
#[derive(Debug)]
pub struct TokenizeError {
    pub message: String,
}

/// Relies on `tokenizers::Tokenizer::decode` with `skip_special_tokens = true`:
/// it maps each id to its token text, filters specials, and joins the pieces
/// through the configured decoder — result and success both deterministic
/// functions of the tokenizer value and of the ids alone. The window must be
/// non-empty (callers produce the empty string for an empty window
/// themselves) and the decoder chain total (`decoder_total`): decoding drops
/// unknown and special ids, so even a non-empty window can hand the
/// configured decoder an empty piece list or empty piece strings, on which a
/// non-total chain asserts instead of returning.
#[verifier::external_body]
pub fn decode_ids(t: &tokenizers::Tokenizer, ids: &[u32]) -> (r: Result<String, DecodeError>)
    requires
        ids@.len() > 0,
        decoder_total(*t),
    ensures
        r is Ok <==> decode_ok(*t, ids@),
        r is Ok ==> r->Ok_0@ == spec_decode(*t, ids@),
{
    match t.decode(ids, true) {
        Ok(s) => Ok(s),
        Err(e) => Err(DecodeError { message: e.to_string() }),
    }
}

/// Relies on `tokenizers::Tokenizer::encode` with `add_special_tokens = true`
/// and `Encoding::get_ids`, which hand back the id sequence of the text.
/// Nothing is assumed of the ids: an encoder may be configured with
/// randomized (dropout) merges, so two calls on one text may differ.
#[verifier::external_body]
pub fn encode_text(t: &tokenizers::Tokenizer, text: &str) -> (r: Result<Vec<u32>, TokenizeError>)
{
    match t.encode(text, true) {
        Ok(enc) => Ok(enc.get_ids().to_vec()),
        Err(e) => Err(TokenizeError { message: e.to_string() }),
    }
}

/// Relies on `tokenizers::Tokenizer::get_decoder`: a tokenizer with no
/// configured decoder joins its pieces with single spaces, which returns on
/// every piece list, so its chain is total.
#[verifier::external_body]
pub(crate) fn decoder_is_plain_join(t: &tokenizers::Tokenizer) -> (r: bool)
    ensures
        r ==> decoder_total(*t),
{
    t.get_decoder().is_none()
}

/// Relies on `tokenizers::Tokenizer::get_vocab(true)` and `HashMap::get`:
/// the id that the vocabulary (added tokens included) assigns to the given
/// token text, or `None` if the text is not a vocabulary entry.
#[verifier::external_body]
pub fn vocab_id(t: &tokenizers::Tokenizer, token_text: &str) -> (r: Option<u32>)
    ensures
        r == if spec_vocab(*t).dom().contains(token_text@) {
            Some(spec_vocab(*t)[token_text@])
        } else {
            None::<u32>
        },
{
    t.get_vocab(true).get(token_text).copied()
}

} // verus!
