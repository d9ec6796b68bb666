//! The incremental text decoder: buffers emitted token ids and exposes
//! newly-confirmed text fragments as they become byte-stable.
//!
//! Decoding a single sub-word token in isolation can produce a malformed
//! partial multi-byte character, so the decoder decodes a growing window of
//! ids and diffs it against the previous window's text: a fragment is
//! confirmed once the window's text has grown and ends in a single-byte
//! (ASCII) character. The ASCII-tail heuristic is an approximation, kept
//! deliberately: scripts whose stable characters are all multi-byte may see
//! their text held back until the final flush.

use vstd::prelude::*;
use vstd::slice::slice_subrange;
use vstd::string::StrSliceExecFns;
use vstd::utf8::encode_utf8;
use vstd::utf8::is_char_boundary;

use crate::vocab::DecodeError;
use crate::vocab::decode_ids;
use crate::vocab::decode_ok;
use crate::vocab::decoder_is_plain_join;
use crate::vocab::decoder_total;
use crate::vocab::spec_decode;
use crate::vocab::spec_vocab;
use crate::vocab::vocab_id;

verus! {

/// The abstract state of the decoder: all ids seen so far and the two window
/// boundaries used for differencing.
pub struct StreamView {
    pub tokens: Seq<u32>,
    pub prev: int,
    pub cur: int,
}

pub open spec fn stream_wf(v: StreamView) -> bool {
    0 <= v.prev && v.prev <= v.cur && v.cur <= v.tokens.len()
}

pub open spec fn init_view() -> StreamView {
    StreamView { tokens: Seq::empty(), prev: 0, cur: 0 }
}

/// The text a window of ids decodes to; an empty window is the empty string,
/// decided without consulting the tokenizer.
pub open spec fn window_chars(t: tokenizers::Tokenizer, ids: Seq<u32>) -> Seq<char> {
    if ids.len() == 0 {
        Seq::empty()
    } else {
        spec_decode(t, ids)
    }
}

/// Whether a window decodes at all; an empty window always does.
pub open spec fn window_ok(t: tokenizers::Tokenizer, ids: Seq<u32>) -> bool {
    ids.len() == 0 || decode_ok(t, ids)
}

/// The ids of the previous decode window `[prev, cur)`.
pub open spec fn prev_window_ids(v: StreamView) -> Seq<u32> {
    v.tokens.subrange(v.prev, v.cur)
}

/// The ids of the current decode window `[prev, len + 1)` once `token` has
/// been appended.
pub open spec fn cur_window_ids(v: StreamView, token: u32) -> Seq<u32> {
    v.tokens.push(token).subrange(v.prev, v.tokens.len() as int + 1)
}

/// The ids of the residual window `[prev, len)` at end of stream.
pub open spec fn rest_window_ids(v: StreamView) -> Seq<u32> {
    v.tokens.subrange(v.prev, v.tokens.len() as int)
}

/// The text of the previous decode window.
pub open spec fn prev_window_chars(t: tokenizers::Tokenizer, v: StreamView) -> Seq<char> {
    window_chars(t, prev_window_ids(v))
}

/// The text of the current decode window once `token` has been appended.
pub open spec fn cur_window_chars(t: tokenizers::Tokenizer, v: StreamView, token: u32) -> Seq<char> {
    window_chars(t, cur_window_ids(v, token))
}

/// Whether appending `token` confirms a fragment: the window's text has grown
/// in bytes and now ends in a single-byte (ASCII) character.
pub open spec fn step_emits(t: tokenizers::Tokenizer, v: StreamView, token: u32) -> bool {
    let p = encode_utf8(prev_window_chars(t, v));
    let c = cur_window_chars(t, v, token);
    encode_utf8(c).len() > p.len() && c.len() > 0 && (c.last() as u32) < 128
}

/// The decoder state after appending `token`: the window collapses to start
/// at the new length exactly when a fragment is confirmed.
pub open spec fn step_view(t: tokenizers::Tokenizer, v: StreamView, token: u32) -> StreamView {
    if step_emits(t, v, token) {
        StreamView { tokens: v.tokens.push(token), prev: v.cur, cur: v.tokens.len() as int + 1 }
    } else {
        StreamView { tokens: v.tokens.push(token), prev: v.prev, cur: v.cur }
    }
}

/// The bytes of the fragment that appending `token` confirms, if any: the
/// current window's text past the previous window's byte length.
pub open spec fn step_frag(t: tokenizers::Tokenizer, v: StreamView, token: u32) -> Option<Seq<u8>> {
    if step_emits(t, v, token) {
        Some(
            encode_utf8(cur_window_chars(t, v, token)).skip(
                encode_utf8(prev_window_chars(t, v)).len() as int,
            ),
        )
    } else {
        None
    }
}

/// Whether the previous window's byte length falls on a character boundary of
/// the current window's text, so that the fragment can be split off as a
/// well-formed string.
pub open spec fn step_boundary_ok(t: tokenizers::Tokenizer, v: StreamView, token: u32) -> bool {
    is_char_boundary(
        encode_utf8(cur_window_chars(t, v, token)),
        encode_utf8(prev_window_chars(t, v)).len() as int,
    )
}

/// The text of the residual window at end of stream.
pub open spec fn rest_window_chars(t: tokenizers::Tokenizer, v: StreamView) -> Seq<char> {
    window_chars(t, rest_window_ids(v))
}

/// The bytes of the residual unconfirmed text, if any; no ASCII-boundary
/// requirement, since no more tokens will arrive to disambiguate.
pub open spec fn rest_frag(t: tokenizers::Tokenizer, v: StreamView) -> Option<Seq<u8>> {
    let p = encode_utf8(prev_window_chars(t, v));
    let c = encode_utf8(rest_window_chars(t, v));
    if c.len() > p.len() {
        Some(c.skip(p.len() as int))
    } else {
        None
    }
}

pub open spec fn rest_boundary_ok(t: tokenizers::Tokenizer, v: StreamView) -> bool {
    is_char_boundary(
        encode_utf8(rest_window_chars(t, v)),
        encode_utf8(prev_window_chars(t, v)).len() as int,
    )
}

/// Whether appending `token` makes the decoder step fail: one of the two
/// windows does not decode, or the confirmed fragment's split point misses a
/// character boundary of the window's text (where the decoded windows are no
/// prefixes of one another).
pub open spec fn step_error(t: tokenizers::Tokenizer, v: StreamView, token: u32) -> bool {
    ||| !window_ok(t, prev_window_ids(v))
    ||| !window_ok(t, cur_window_ids(v, token))
    ||| (step_emits(t, v, token) && !step_boundary_ok(t, v, token))
}

/// Whether the end-of-stream flush fails, in the same way.
pub open spec fn rest_error(t: tokenizers::Tokenizer, v: StreamView) -> bool {
    ||| !window_ok(t, prev_window_ids(v))
    ||| !window_ok(t, rest_window_ids(v))
    ||| (rest_frag(t, v) is Some && !rest_boundary_ok(t, v))
}

/// Decoding distributes over concatenation of id windows. The streaming
/// reassembly laws below hold of tokenizers with this property; a sub-word
/// decoder that joins the pieces of each window independently of its
/// neighbours (plain piece concatenation) has it, while one that, say,
/// strips a leading space from every window's text on its own does not.
pub open spec fn decode_concatenative(t: tokenizers::Tokenizer) -> bool {
    forall|a: Seq<u32>, b: Seq<u32>|
        #[trigger] spec_decode(t, a + b) == spec_decode(t, a) + spec_decode(t, b)
}

pub proof fn lemma_concatenative_empty(t: tokenizers::Tokenizer)
    requires
        decode_concatenative(t),
    ensures
        spec_decode(t, Seq::<u32>::empty()) == Seq::<char>::empty(),
{
    let e = Seq::<u32>::empty();
    assert(e + e =~= e);
    assert(spec_decode(t, e + e) == spec_decode(t, e) + spec_decode(t, e));
    assert(spec_decode(t, e).len() == 0);
    assert(spec_decode(t, e) =~= Seq::<char>::empty());
}

/// UTF-8 encoding distributes over concatenation of character sequences.
pub proof fn lemma_encode_utf8_concat(a: Seq<char>, b: Seq<char>)
    ensures
        encode_utf8(a + b) == encode_utf8(a) + encode_utf8(b),
    decreases a.len(),
{
    if a.len() == 0 {
        assert(a + b =~= b);
        assert(encode_utf8(a) + encode_utf8(b) =~= encode_utf8(b));
    } else {
        let ab = a + b;
        assert(ab[0] == a[0]);
        assert(ab.drop_first() =~= a.drop_first() + b);
        lemma_encode_utf8_concat(a.drop_first(), b);
        assert(encode_utf8(ab) == vstd::utf8::encode_scalar(ab[0] as u32) + encode_utf8(
            ab.drop_first(),
        ));
        assert(encode_utf8(a) == vstd::utf8::encode_scalar(a[0] as u32) + encode_utf8(
            a.drop_first(),
        ));
        assert(encode_utf8(a + b) =~= encode_utf8(a) + encode_utf8(b));
    }
}

/// The length of the encoding of `a` is a character boundary of the encoding
/// of `a` followed by the encoding of `b`.
pub proof fn lemma_encode_boundary(a: Seq<char>, b: Seq<char>)
    ensures
        is_char_boundary(encode_utf8(a) + encode_utf8(b), encode_utf8(a).len() as int),
    decreases a.len(),
{
    broadcast use vstd::utf8::encode_utf8_valid_utf8;

    lemma_encode_utf8_concat(a, b);
    let s = encode_utf8(a) + encode_utf8(b);
    assert(s == encode_utf8(a + b));
    if a.len() == 0 {
        assert(encode_utf8(a).len() == 0);
        assert(is_char_boundary(s, 0));
    } else {
        vstd::utf8::encode_utf8_first_scalar(a + b);
        assert((a + b)[0] == a[0]);
        assert((a + b).drop_first() =~= a.drop_first() + b);
        lemma_encode_utf8_concat(a.drop_first(), b);
        assert(vstd::utf8::pop_first_scalar(s) =~= encode_utf8(a.drop_first()) + encode_utf8(b));
        assert(encode_utf8(a) == vstd::utf8::encode_scalar(a[0] as u32) + encode_utf8(
            a.drop_first(),
        ));
        lemma_encode_boundary(a.drop_first(), b);
    }
}

/// The decoder state after feeding the ids of `toks` one at a time into a
/// fresh decoder.
pub open spec fn feed_view(t: tokenizers::Tokenizer, toks: Seq<u32>) -> StreamView
    decreases toks.len(),
{
    if toks.len() == 0 {
        init_view()
    } else {
        step_view(t, feed_view(t, toks.drop_last()), toks.last())
    }
}

/// The concatenation of all fragment bytes confirmed while feeding the ids of
/// `toks` one at a time into a fresh decoder.
pub open spec fn feed_frags(t: tokenizers::Tokenizer, toks: Seq<u32>) -> Seq<u8>
    decreases toks.len(),
{
    if toks.len() == 0 {
        Seq::empty()
    } else {
        feed_frags(t, toks.drop_last()) + match step_frag(
            t,
            feed_view(t, toks.drop_last()),
            toks.last(),
        ) {
            Some(f) => f,
            None => Seq::empty(),
        }
    }
}

/// The bytes the final flush hands out of a given decoder state.
pub open spec fn flush_bytes(t: tokenizers::Tokenizer, v: StreamView) -> Seq<u8> {
    match rest_frag(t, v) {
        Some(f) => f,
        None => Seq::empty(),
    }
}

/// Under a concatenative decode every window's text is its decode, the empty
/// window included.
proof fn lemma_window_decode(t: tokenizers::Tokenizer, ids: Seq<u32>)
    requires
        decode_concatenative(t),
    ensures
        window_chars(t, ids) == spec_decode(t, ids),
{
    if ids.len() == 0 {
        assert(ids =~= Seq::<u32>::empty());
        lemma_concatenative_empty(t);
    }
}

/// The invariant of the streaming reassembly: what has been confirmed so far
/// is exactly the encoding of the decode of the ids up to the current window
/// boundary.
proof fn lemma_feed_invariant(t: tokenizers::Tokenizer, toks: Seq<u32>)
    requires
        decode_concatenative(t),
    ensures
        feed_view(t, toks).tokens == toks,
        stream_wf(feed_view(t, toks)),
        feed_frags(t, toks) == encode_utf8(
            spec_decode(t, toks.subrange(0, feed_view(t, toks).cur)),
        ),
    decreases toks.len(),
{
    if toks.len() == 0 {
        lemma_concatenative_empty(t);
        assert(toks.subrange(0, 0) =~= Seq::<u32>::empty());
    } else {
        let pre = toks.drop_last();
        let tok = toks.last();
        lemma_feed_invariant(t, pre);
        let v = feed_view(t, pre);
        let n0 = pre.len() as int;
        assert(v.tokens.push(tok) =~= toks);
        lemma_window_decode(t, prev_window_ids(v));
        lemma_window_decode(t, cur_window_ids(v, tok));
        let prev_ids = toks.subrange(v.prev, v.cur);
        assert(pre.subrange(v.prev, v.cur) =~= prev_ids);
        let prev_cs = spec_decode(t, prev_ids);
        let tail_ids = toks.subrange(v.cur, toks.len() as int);
        let tail_cs = spec_decode(t, tail_ids);
        assert(prev_ids + tail_ids =~= toks.subrange(v.prev, toks.len() as int));
        assert(spec_decode(t, prev_ids + tail_ids) == prev_cs + tail_cs);
        assert(v.tokens.push(tok).subrange(v.prev, v.tokens.len() as int + 1) =~= toks.subrange(
            v.prev,
            toks.len() as int,
        ));
        assert(cur_window_chars(t, v, tok) == prev_cs + tail_cs);
        lemma_encode_utf8_concat(prev_cs, tail_cs);
        let lead_ids = toks.subrange(0, v.cur);
        assert(pre.subrange(0, v.cur) =~= lead_ids);
        let lead_cs = spec_decode(t, lead_ids);
        if step_emits(t, v, tok) {
            let w = step_view(t, v, tok);
            assert(w.cur == toks.len() as int);
            assert(step_frag(t, v, tok) == Some(
                encode_utf8(prev_cs + tail_cs).skip(encode_utf8(prev_cs).len() as int),
            ));
            assert(encode_utf8(prev_cs + tail_cs).skip(encode_utf8(prev_cs).len() as int) =~= encode_utf8(
                tail_cs,
            ));
            assert(lead_ids + tail_ids =~= toks.subrange(0, toks.len() as int));
            assert(spec_decode(t, lead_ids + tail_ids) == lead_cs + tail_cs);
            lemma_encode_utf8_concat(lead_cs, tail_cs);
            assert(feed_frags(t, toks) =~= encode_utf8(lead_cs + tail_cs));
            assert(toks.subrange(0, w.cur) =~= toks.subrange(0, toks.len() as int));
        } else {
            let w = step_view(t, v, tok);
            assert(w.cur == v.cur);
            assert(feed_frags(t, toks) =~= feed_frags(t, pre));
            assert(toks.subrange(0, w.cur) =~= lead_ids);
        }
    }
}

/// Decoder no-duplication: for any id sequence fed one at a time into a fresh
/// decoder of a concatenative tokenizer, the concatenation of every fragment
/// confirmed by `next_token` plus the final `decode_rest` flush equals the
/// decode of the entire sequence at once.
pub proof fn lemma_no_duplication(t: tokenizers::Tokenizer, toks: Seq<u32>)
    requires
        decode_concatenative(t),
    ensures
        feed_view(t, toks).tokens == toks,
        feed_frags(t, toks) + flush_bytes(t, feed_view(t, toks)) == encode_utf8(
            spec_decode(t, toks),
        ),
{
    lemma_feed_invariant(t, toks);
    let v = feed_view(t, toks);
    let n = toks.len() as int;
    lemma_window_decode(t, prev_window_ids(v));
    lemma_window_decode(t, rest_window_ids(v));
    let prev_ids = toks.subrange(v.prev, v.cur);
    let prev_cs = spec_decode(t, prev_ids);
    let tail_ids = toks.subrange(v.cur, n);
    let tail_cs = spec_decode(t, tail_ids);
    assert(prev_ids + tail_ids =~= toks.subrange(v.prev, n));
    assert(spec_decode(t, prev_ids + tail_ids) == prev_cs + tail_cs);
    assert(rest_window_chars(t, v) == prev_cs + tail_cs);
    lemma_encode_utf8_concat(prev_cs, tail_cs);
    match rest_frag(t, v) {
        Some(f) => {
            assert(f =~= encode_utf8(tail_cs));
        },
        None => {
            assert(encode_utf8(tail_cs).len() == 0);
            assert(flush_bytes(t, v) =~= encode_utf8(tail_cs));
        },
    }
    let lead_ids = toks.subrange(0, v.cur);
    let lead_cs = spec_decode(t, lead_ids);
    assert(lead_ids + tail_ids =~= toks.subrange(0, n));
    assert(toks.subrange(0, n) =~= toks);
    assert(spec_decode(t, lead_ids + tail_ids) == lead_cs + tail_cs);
    lemma_encode_utf8_concat(lead_cs, tail_cs);
    assert(feed_frags(t, toks) + flush_bytes(t, v) =~= encode_utf8(spec_decode(t, toks)));
}

/// Decoder no-premature-split: under a concatenative decode, every fragment
/// that a step confirms is the whole UTF-8 encoding of a character sequence —
/// the decode of the ids between the former and the new window boundary — so
/// no fragment ever ends with part of a multi-byte character, and the split
/// point is a character boundary of the window's text.
pub proof fn lemma_fragment_whole_chars(t: tokenizers::Tokenizer, v: StreamView, tok: u32)
    requires
        decode_concatenative(t),
        stream_wf(v),
        step_emits(t, v, tok),
    ensures
        step_frag(t, v, tok) == Some(
            encode_utf8(
                spec_decode(t, v.tokens.push(tok).subrange(v.cur, v.tokens.len() as int + 1)),
            ),
        ),
        step_boundary_ok(t, v, tok),
{
    lemma_window_decode(t, prev_window_ids(v));
    lemma_window_decode(t, cur_window_ids(v, tok));
    let toks = v.tokens.push(tok);
    let n = toks.len() as int;
    let prev_ids = toks.subrange(v.prev, v.cur);
    assert(v.tokens.subrange(v.prev, v.cur) =~= prev_ids);
    let prev_cs = spec_decode(t, prev_ids);
    let tail_ids = toks.subrange(v.cur, n);
    let tail_cs = spec_decode(t, tail_ids);
    assert(prev_ids + tail_ids =~= toks.subrange(v.prev, n));
    assert(spec_decode(t, prev_ids + tail_ids) == prev_cs + tail_cs);
    assert(cur_window_chars(t, v, tok) == prev_cs + tail_cs);
    lemma_encode_utf8_concat(prev_cs, tail_cs);
    assert(encode_utf8(prev_cs + tail_cs).skip(encode_utf8(prev_cs).len() as int) =~= encode_utf8(
        tail_cs,
    ));
    lemma_encode_boundary(prev_cs, tail_cs);
}

/// A wrapper around a tokenizer so that text can be handed back to the caller
/// in a streaming way rather than only after the full decoding.
pub struct TokenOutputStream {
    tokenizer: tokenizers::Tokenizer,
    tokens: Vec<u32>,
    prev_index: usize,
    current_index: usize,
}

impl View for TokenOutputStream {
    type V = StreamView;

    closed spec fn view(&self) -> StreamView {
        StreamView {
            tokens: self.tokens@,
            prev: self.prev_index as int,
            cur: self.current_index as int,
        }
    }
}

impl TokenOutputStream {
    pub closed spec fn spec_tokenizer(&self) -> tokenizers::Tokenizer {
        self.tokenizer
    }

    /// Well-formed: the window boundaries are ordered and in range, and the
    /// tokenizer's decoder chain is total, so no decode call can assert.
    pub open spec fn wf(&self) -> bool {
        &&& stream_wf(self@)
        &&& decoder_total(self.spec_tokenizer())
    }

    /// Wraps a tokenizer the caller vouches for: its decoder chain must be
    /// total. `try_new` establishes that for the plainly total case.
    pub fn new(tokenizer: tokenizers::Tokenizer) -> (s: Self)
        requires
            decoder_total(tokenizer),
        ensures
            s@ == init_view(),
            s.spec_tokenizer() == tokenizer,
            s.wf(),
    {
        let s = Self { tokenizer: tokenizer, tokens: Vec::new(), prev_index: 0, current_index: 0 };
        proof {
            assert(s@ =~= init_view());
        }
        s
    }

    /// Wraps a tokenizer whose decoder chain is plainly total — one with no
    /// configured decoder, whose pieces are joined with spaces — and hands
    /// any other tokenizer back unchanged, for a caller prepared to vouch
    /// for totality itself through `new`.
    pub fn try_new(tokenizer: tokenizers::Tokenizer) -> (r: Result<Self, tokenizers::Tokenizer>)
        ensures
            match r {
                Ok(s) => {
                    &&& s@ == init_view()
                    &&& s.spec_tokenizer() == tokenizer
                    &&& s.wf()
                },
                Err(t2) => t2 == tokenizer,
            },
    {
        if decoder_is_plain_join(&tokenizer) {
            Ok(Self::new(tokenizer))
        } else {
            Err(tokenizer)
        }
    }

    pub fn into_inner(self) -> (t: tokenizers::Tokenizer)
        ensures
            t == self.spec_tokenizer(),
    {
        self.tokenizer
    }

    /// Appends one token id; returns the newly confirmed text fragment, if
    /// the window's decoded text has grown past the previous window's byte
    /// length and ends in an ASCII character. It fails exactly when a window
    /// does not decode or the split point falls inside a multi-byte character
    /// (a decode anomaly no concatenative tokenizer produces, answered with a
    /// `DecodeError` where emitting a malformed fragment would be worse).
    pub fn next_token(&mut self, token: u32) -> (r: Result<Option<String>, DecodeError>)
        requires
            old(self).wf(),
        ensures
            final(self).wf(),
            final(self).spec_tokenizer() == old(self).spec_tokenizer(),
            r is Err <==> step_error(old(self).spec_tokenizer(), old(self)@, token),
            match r {
                Ok(Some(f)) => {
                    &&& step_emits(old(self).spec_tokenizer(), old(self)@, token)
                    &&& step_boundary_ok(old(self).spec_tokenizer(), old(self)@, token)
                    &&& final(self)@ == step_view(old(self).spec_tokenizer(), old(self)@, token)
                    &&& step_frag(old(self).spec_tokenizer(), old(self)@, token) == Some(
                        encode_utf8(f@),
                    )
                },
                Ok(None) => {
                    &&& !step_emits(old(self).spec_tokenizer(), old(self)@, token)
                    &&& final(self)@ == step_view(old(self).spec_tokenizer(), old(self)@, token)
                },
                Err(_) => final(self)@ == if !window_ok(
                    old(self).spec_tokenizer(),
                    prev_window_ids(old(self)@),
                ) {
                    old(self)@
                } else {
                    (StreamView { tokens: old(self)@.tokens.push(token), ..old(self)@ })
                },
            },
    {
        let ghost t = self.tokenizer;
        let ghost v0 = self@;
        let prev_text: String = if self.prev_index == self.current_index {
            String::new()
        } else {
            let window = slice_subrange(self.tokens.as_slice(), self.prev_index, self.current_index);
            match decode_ids(&self.tokenizer, window) {
                Ok(s) => s,
                Err(e) => {
                    proof {
                        assert(window@ =~= prev_window_ids(v0));
                        assert(step_error(t, v0, token));
                    }
                    return Err(e);
                },
            }
        };
        proof {
            assert(window_ok(t, prev_window_ids(v0)));
            assert(prev_text@ == prev_window_chars(t, v0));
        }
        self.tokens.push(token);
        let window = slice_subrange(self.tokens.as_slice(), self.prev_index, self.tokens.len());
        proof {
            assert(self.tokens@ =~= v0.tokens.push(token));
            assert(window@ =~= cur_window_ids(v0, token));
        }
        let text = match decode_ids(&self.tokenizer, window) {
            Ok(s) => s,
            Err(e) => {
                proof {
                    assert(step_error(t, v0, token));
                }
                return Err(e);
            },
        };
        proof {
            assert(window_ok(t, cur_window_ids(v0, token)));
            assert(text@ == cur_window_chars(t, v0, token));
        }
        let prev_bytes_len = prev_text.as_str().as_bytes().len();
        let cur_bytes_len = text.as_str().as_bytes().len();
        proof {
            assert(encode_utf8(Seq::<char>::empty()) =~= Seq::<u8>::empty());
            assert(prev_bytes_len as int == encode_utf8(prev_window_chars(t, v0)).len());
            assert(cur_bytes_len as int == encode_utf8(cur_window_chars(t, v0, token)).len());
        }
        if cur_bytes_len > prev_bytes_len {
            proof {
                if text@.len() == 0 {
                    assert(encode_utf8(text@) =~= Seq::<u8>::empty());
                }
            }
            let n = text.as_str().unicode_len();
            let last = text.as_str().get_char(n - 1);
            if (last as u32) < 128 {
                if text.as_str().is_char_boundary(prev_bytes_len) {
                    let pieces = text.as_str().split_at(prev_bytes_len);
                    let frag = pieces.1.to_owned();
                    self.prev_index = self.current_index;
                    self.current_index = self.tokens.len();
                    proof {
                        assert(step_emits(t, v0, token));
                        assert(!step_error(t, v0, token));
                        assert(self@ == step_view(t, v0, token));
                        assert(encode_utf8(frag@) =~= encode_utf8(cur_window_chars(t, v0, token))
                            .skip(encode_utf8(prev_window_chars(t, v0)).len() as int));
                    }
                    Ok(Some(frag))
                } else {
                    proof {
                        assert(step_emits(t, v0, token));
                        assert(step_error(t, v0, token));
                    }
                    Err(DecodeError {
                        message: "decoded window does not split at the confirmed boundary".to_owned(),
                    })
                }
            } else {
                proof {
                    assert(!step_emits(t, v0, token));
                    assert(!step_error(t, v0, token));
                    assert(self@ == step_view(t, v0, token));
                }
                Ok(None)
            }
        } else {
            proof {
                assert(!step_emits(t, v0, token));
                assert(!step_error(t, v0, token));
                assert(self@ == step_view(t, v0, token));
            }
            Ok(None)
        }
    }

    /// At end of stream, returns any residual unconfirmed text; the indices
    /// are left untouched, so the call mutates nothing and repeating it
    /// returns the same value. It fails exactly when a window does not decode
    /// or the residual split point misses a character boundary.
    pub fn decode_rest(&self) -> (r: Result<Option<String>, DecodeError>)
        requires
            self.wf(),
        ensures
            r is Err <==> rest_error(self.spec_tokenizer(), self@),
            match r {
                Ok(Some(f)) => {
                    &&& rest_boundary_ok(self.spec_tokenizer(), self@)
                    &&& rest_frag(self.spec_tokenizer(), self@) == Some(encode_utf8(f@))
                },
                Ok(None) => rest_frag(self.spec_tokenizer(), self@) is None,
                Err(_) => true,
            },
    {
        let ghost t = self.tokenizer;
        let prev_text: String = if self.prev_index == self.current_index {
            String::new()
        } else {
            let window = slice_subrange(self.tokens.as_slice(), self.prev_index, self.current_index);
            match decode_ids(&self.tokenizer, window) {
                Ok(s) => s,
                Err(e) => {
                    proof {
                        assert(window@ =~= prev_window_ids(self@));
                        assert(rest_error(t, self@));
                    }
                    return Err(e);
                },
            }
        };
        proof {
            assert(window_ok(t, prev_window_ids(self@)));
            assert(prev_text@ == prev_window_chars(t, self@));
        }
        let text: String = if self.prev_index == self.tokens.len() {
            String::new()
        } else {
            let window = slice_subrange(self.tokens.as_slice(), self.prev_index, self.tokens.len());
            match decode_ids(&self.tokenizer, window) {
                Ok(s) => s,
                Err(e) => {
                    proof {
                        assert(window@ =~= rest_window_ids(self@));
                        assert(rest_error(t, self@));
                    }
                    return Err(e);
                },
            }
        };
        proof {
            assert(window_ok(t, rest_window_ids(self@)));
            assert(text@ == rest_window_chars(t, self@));
        }
        let prev_bytes_len = prev_text.as_str().as_bytes().len();
        let cur_bytes_len = text.as_str().as_bytes().len();
        proof {
            assert(encode_utf8(Seq::<char>::empty()) =~= Seq::<u8>::empty());
            assert(prev_bytes_len as int == encode_utf8(prev_window_chars(t, self@)).len());
            assert(cur_bytes_len as int == encode_utf8(rest_window_chars(t, self@)).len());
        }
        if cur_bytes_len > prev_bytes_len {
            if text.as_str().is_char_boundary(prev_bytes_len) {
                let pieces = text.as_str().split_at(prev_bytes_len);
                let frag = pieces.1.to_owned();
                proof {
                    assert(!rest_error(t, self@));
                    assert(encode_utf8(frag@) =~= encode_utf8(rest_window_chars(t, self@)).skip(
                        encode_utf8(prev_window_chars(t, self@)).len() as int,
                    ));
                }
                Ok(Some(frag))
            } else {
                proof {
                    assert(rest_error(t, self@));
                }
                Err(DecodeError {
                    message: "decoded window does not split at the confirmed boundary".to_owned(),
                })
            }
        } else {
            proof {
                assert(rest_frag(t, self@) is None);
                assert(!rest_error(t, self@));
            }
            Ok(None)
        }
    }

    /// Decodes the entire buffered id sequence at once; it succeeds exactly
    /// when that window decodes (an empty buffer is the empty string).
    pub fn decode_all(&self) -> (r: Result<String, DecodeError>)
        requires
            self.wf(),
        ensures
            r is Ok <==> window_ok(self.spec_tokenizer(), self@.tokens),
            r is Ok ==> r->Ok_0@ == window_chars(self.spec_tokenizer(), self@.tokens),
    {
        if self.tokens.len() == 0 {
            proof {
                assert(self@.tokens =~= Seq::<u32>::empty());
            }
            return Ok(String::new());
        }
        let whole = slice_subrange(self.tokens.as_slice(), 0, self.tokens.len());
        proof {
            assert(whole@ =~= self@.tokens);
        }
        decode_ids(&self.tokenizer, whole)
    }

    /// Looks a token's text up in the vocabulary.
    pub fn get_token(&self, token_s: &str) -> (r: Option<u32>)
        ensures
            r == if spec_vocab(self.spec_tokenizer()).dom().contains(token_s@) {
                Some(spec_vocab(self.spec_tokenizer())[token_s@])
            } else {
                None::<u32>
            },
    {
        vocab_id(&self.tokenizer, token_s)
    }

    pub fn tokenizer(&self) -> (t: &tokenizers::Tokenizer)
        ensures
            *t == self.spec_tokenizer(),
    {
        &self.tokenizer
    }

    /// Clears all decoder state; after a reset the abstract state equals a
    /// freshly created decoder's, so a fresh token sequence behaves
    /// identically whatever the prior history.
    pub fn clear(&mut self)
        ensures
            final(self)@ == init_view(),
            final(self).spec_tokenizer() == old(self).spec_tokenizer(),
            decoder_total(old(self).spec_tokenizer()) ==> final(self).wf(),
    {
        self.tokens.clear();
        self.prev_index = 0;
        self.current_index = 0;
        proof {
            assert(self@ =~= init_view());
        }
    }
}

} // verus!
