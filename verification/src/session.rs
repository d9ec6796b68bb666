//! The generation loop policy. A session owns the incremental decoder and the
//! running token context and makes every decision of the autoregressive loop:
//! the prompt-length guard, the context-window policy for each forward pass,
//! the repetition-penalty window, the stop conditions, and the accumulation of
//! confirmed output. The outside work — the model forward pass and the
//! sampling of the next id from the logits — is performed by the caller, who
//! asks the session what to feed the model (`next_query`) and hands back each
//! sampled id (`accept_token`).

use vstd::prelude::*;
use vstd::slice::slice_index_get;
use vstd::utf8::encode_utf8;

use crate::decoder::StreamView;
use crate::decoder::TokenOutputStream;
use crate::decoder::init_view;
use crate::decoder::prev_window_ids;
use crate::decoder::rest_error;
use crate::decoder::rest_frag;
use crate::decoder::step_error;
use crate::decoder::step_frag;
use crate::decoder::step_view;
use crate::decoder::stream_wf;
use crate::decoder::window_ok;
use crate::vocab::DecodeError;
use crate::vocab::TokenizeError;
use crate::vocab::decoder_total;
use crate::vocab::encode_text;
use crate::vocab::spec_vocab;

verus! {

/// A prompt may tokenize to at most this many ids (three times the expected
/// 140-token input budget); longer prompts yield an empty result without any
/// model work.
pub const MAX_PROMPT_TOKENS: usize = 420;

/// The vocabulary entry whose id signals the end of the sequence.
pub open spec fn eos_marker() -> Seq<char> {
    "</s>"@
}

/// The fragment that halts generation: a single newline character.
pub open spec fn newline_fragment() -> Seq<u8> {
    seq![10u8]
}

#[derive(Debug)]
pub enum GenError {
    /// The prompt could not be tokenized.
    Tokenize(TokenizeError),
    /// The end-of-sequence token is absent from the vocabulary: a fatal
    /// configuration error.
    MissingEosToken,
    /// A token window could not be decoded; the run is aborted.
    Decode(DecodeError),
}

#[derive(Debug, PartialEq, Eq)]
pub enum BeginOutcome {
    /// The session is ready: the caller may start querying the model.
    Started,
    /// The prompt tokenized to more than `MAX_PROMPT_TOKENS` ids; the run
    /// ends at once with empty output.
    PromptTooLong,
}

#[derive(Debug, PartialEq, Eq)]
pub enum StepOutcome {
    /// Generation goes on: ask `next_query` for the next step.
    Progress,
    /// A stop condition was met: flush with `finish`.
    Stopped,
}

/// What the model should be fed for the next step: the token context starting
/// at `start_pos` (the whole sequence on the first step, only the latest token
/// afterwards), and, if repetition is penalized, the start of the trailing
/// window of ids whose logits are to be down-weighted.
pub struct TokenQuery {
    pub start_pos: usize,
    pub penalty_start: Option<usize>,
}

/// The abstract state of a generation session.
pub struct SessionView {
    pub stream: StreamView,
    pub tokens: Seq<u32>,
    pub output: Seq<u8>,
    pub eos: u32,
    pub budget: int,
    pub generated: int,
    pub penalize: bool,
    pub repeat_last_n: int,
    pub active: bool,
}

pub open spec fn session_wf(v: SessionView) -> bool {
    &&& stream_wf(v.stream)
    &&& 0 <= v.generated <= v.tokens.len()
}

pub struct GenerationSession {
    stream: TokenOutputStream,
    tokens: Vec<u32>,
    output: Vec<u8>,
    eos_token: u32,
    budget: usize,
    generated: usize,
    penalize: bool,
    repeat_last_n: usize,
    active: bool,
}

impl View for GenerationSession {
    type V = SessionView;

    closed spec fn view(&self) -> SessionView {
        SessionView {
            stream: self.stream@,
            tokens: self.tokens@,
            output: self.output@,
            eos: self.eos_token,
            budget: self.budget as int,
            generated: self.generated as int,
            penalize: self.penalize,
            repeat_last_n: self.repeat_last_n as int,
            active: self.active,
        }
    }
}

/// Appends the bytes of `frag` to `out`.
fn append_bytes(out: &mut Vec<u8>, frag: &[u8])
    ensures
        final(out)@ == old(out)@ + frag@,
{
    let ghost orig = out@;
    let mut i: usize = 0;
    while i < frag.len()
        invariant
            i <= frag@.len(),
            out@ == orig + frag@.subrange(0, i as int),
        decreases frag@.len() - i,
    {
        out.push(*slice_index_get(frag, i));
        i = i + 1;
        proof {
            assert(out@ =~= orig + frag@.subrange(0, i as int));
        }
    }
    proof {
        assert(out@ =~= orig + frag@);
    }
}

impl GenerationSession {
    pub closed spec fn spec_tokenizer(&self) -> tokenizers::Tokenizer {
        self.stream.spec_tokenizer()
    }

    pub open spec fn wf(&self) -> bool {
        &&& session_wf(self@)
        &&& decoder_total(self.spec_tokenizer())
    }

    /// Whether the configuration of the session (everything a single run does
    /// not own) is unchanged between two states.
    pub open spec fn same_config(pre: &Self, post: &Self) -> bool {
        &&& post.spec_tokenizer() == pre.spec_tokenizer()
        &&& post@.penalize == pre@.penalize
        &&& post@.repeat_last_n == pre@.repeat_last_n
    }

    /// A fresh, inactive session around a decoder; `penalize` is false when
    /// the configured repetition-penalty factor is exactly neutral.
    pub fn new(stream: TokenOutputStream, penalize: bool, repeat_last_n: usize) -> (s: Self)
        requires
            stream.wf(),
        ensures
            s.wf(),
            !s@.active,
            s.spec_tokenizer() == stream.spec_tokenizer(),
            s@.penalize == penalize,
            s@.repeat_last_n == repeat_last_n as int,
    {
        GenerationSession {
            stream,
            tokens: Vec::new(),
            output: Vec::new(),
            eos_token: 0,
            budget: 0,
            generated: 0,
            penalize,
            repeat_last_n,
            active: false,
        }
    }

    /// Starts a run from an already tokenized prompt: resets the decoder and
    /// all per-run state, applies the prompt-length guard, and resolves the
    /// end-of-sequence id. Exactly the prompts of more than
    /// `MAX_PROMPT_TOKENS` ids are turned away, and the end-of-sequence token
    /// is missing exactly when the vocabulary has no entry for it.
    pub fn begin_with_ids(&mut self, ids: Vec<u32>, budget: usize) -> (r: Result<
        BeginOutcome,
        GenError,
    >)
        requires
            old(self).wf(),
        ensures
            final(self).wf(),
            Self::same_config(old(self), final(self)),
            match r {
                Ok(BeginOutcome::PromptTooLong) => {
                    &&& ids@.len() > MAX_PROMPT_TOKENS as int
                    &&& !final(self)@.active
                    &&& final(self)@.output.len() == 0
                    &&& final(self)@.stream == init_view()
                    &&& final(self)@.tokens == ids@
                    &&& final(self)@.generated == 0
                },
                Ok(BeginOutcome::Started) => {
                    &&& ids@.len() <= MAX_PROMPT_TOKENS as int
                    &&& spec_vocab(old(self).spec_tokenizer()).dom().contains(eos_marker())
                    &&& final(self)@.active
                    &&& final(self)@.tokens == ids@
                    &&& final(self)@.output.len() == 0
                    &&& final(self)@.generated == 0
                    &&& final(self)@.stream == init_view()
                    &&& final(self)@.budget == budget as int
                    &&& final(self)@.eos == spec_vocab(old(self).spec_tokenizer())[eos_marker()]
                },
                Err(GenError::MissingEosToken) => {
                    &&& ids@.len() <= MAX_PROMPT_TOKENS as int
                    &&& !spec_vocab(old(self).spec_tokenizer()).dom().contains(eos_marker())
                    &&& !final(self)@.active
                },
                Err(_) => false,
            },
    {
        self.stream.clear();
        self.tokens = ids;
        self.output = Vec::new();
        self.generated = 0;
        self.budget = budget;
        self.active = false;
        if self.tokens.len() > MAX_PROMPT_TOKENS {
            return Ok(BeginOutcome::PromptTooLong);
        }
        match self.stream.get_token("</s>") {
            Some(id) => {
                self.eos_token = id;
                self.active = true;
                Ok(BeginOutcome::Started)
            },
            None => Err(GenError::MissingEosToken),
        }
    }

    /// Starts a run from a prompt string: tokenizes it and hands the ids to
    /// `begin_with_ids`. Tokenization is outside work, so when it fails the
    /// run ends with `Tokenize`; on every other path the behaviour is that of
    /// `begin_with_ids` on whatever ids the tokenizer produced.
    pub fn begin(&mut self, prompt: &str, budget: usize) -> (r: Result<BeginOutcome, GenError>)
        requires
            old(self).wf(),
        ensures
            final(self).wf(),
            Self::same_config(old(self), final(self)),
            match r {
                Ok(BeginOutcome::PromptTooLong) => {
                    &&& !final(self)@.active
                    &&& final(self)@.output.len() == 0
                    &&& final(self)@.stream == init_view()
                    &&& final(self)@.generated == 0
                },
                Ok(BeginOutcome::Started) => {
                    &&& spec_vocab(old(self).spec_tokenizer()).dom().contains(eos_marker())
                    &&& final(self)@.active
                    &&& final(self)@.tokens.len() <= MAX_PROMPT_TOKENS as int
                    &&& final(self)@.output.len() == 0
                    &&& final(self)@.generated == 0
                    &&& final(self)@.stream == init_view()
                    &&& final(self)@.budget == budget as int
                    &&& final(self)@.eos == spec_vocab(old(self).spec_tokenizer())[eos_marker()]
                },
                Err(GenError::Tokenize(_)) => !final(self)@.active,
                Err(GenError::MissingEosToken) => {
                    &&& !spec_vocab(old(self).spec_tokenizer()).dom().contains(eos_marker())
                    &&& !final(self)@.active
                },
                Err(_) => false,
            },
    {
        let ids = match encode_text(self.stream.tokenizer(), prompt) {
            Ok(ids) => ids,
            Err(e) => {
                self.active = false;
                return Err(GenError::Tokenize(e));
            },
        };
        self.begin_with_ids(ids, budget)
    }

    /// What to feed the model next, or `None` once the run has stopped or the
    /// token budget is exhausted. On the first step the model consumes the
    /// whole context from position 0; on every later step only the single
    /// most recent token, from the position it was appended at. The logits of
    /// the trailing `repeat_last_n` sampled ids — generated tokens only,
    /// never the prompt's — are to be down-weighted exactly when the penalty
    /// factor is not neutral.
    pub fn next_query(&self) -> (r: Option<TokenQuery>)
        requires
            self.wf(),
        ensures
            r is Some <==> (self@.active && self@.generated < self@.budget),
            r is Some ==> {
                let q = r->Some_0;
                &&& q.start_pos as int == if self@.generated == 0 {
                    0
                } else {
                    self@.tokens.len() - 1
                }
                &&& (q.penalty_start is Some <==> self@.penalize)
                &&& q.penalty_start is Some ==> q.penalty_start->Some_0 as int == if self@.repeat_last_n
                    <= self@.generated {
                    self@.tokens.len() - self@.repeat_last_n
                } else {
                    self@.tokens.len() - self@.generated
                }
            },
    {
        if !self.active || self.generated >= self.budget {
            return None;
        }
        let start_pos: usize = if self.generated == 0 {
            0
        } else {
            self.tokens.len() - 1
        };
        let penalty_start: Option<usize> = if self.penalize {
            if self.repeat_last_n <= self.generated {
                Some(self.tokens.len() - self.repeat_last_n)
            } else {
                Some(self.tokens.len() - self.generated)
            }
        } else {
            None
        };
        Some(TokenQuery { start_pos, penalty_start })
    }

    /// Accepts the id the sampler picked: appends it to the context and
    /// evaluates the stop conditions. An end-of-sequence id stops the run
    /// without reaching the decoder; otherwise the id is fed to the decoder,
    /// and a confirmed fragment equal to a single newline stops the run
    /// without being appended, while any other fragment is appended to the
    /// output.
    pub fn accept_token(&mut self, token: u32) -> (r: Result<StepOutcome, GenError>)
        requires
            old(self).wf(),
            old(self)@.active,
            old(self)@.generated < old(self)@.budget,
        ensures
            final(self).wf(),
            Self::same_config(old(self), final(self)),
            final(self)@.tokens == old(self)@.tokens.push(token),
            final(self)@.generated == old(self)@.generated + 1,
            final(self)@.eos == old(self)@.eos,
            final(self)@.budget == old(self)@.budget,
            r is Err <==> (token != old(self)@.eos && step_error(
                old(self).spec_tokenizer(),
                old(self)@.stream,
                token,
            )),
            match r {
                Ok(o) => {
                    if token == old(self)@.eos {
                        &&& final(self)@.stream == old(self)@.stream
                        &&& final(self)@.output == old(self)@.output
                        &&& !final(self)@.active
                        &&& o is Stopped
                    } else {
                        &&& final(self)@.stream == step_view(
                            old(self).spec_tokenizer(),
                            old(self)@.stream,
                            token,
                        )
                        &&& match step_frag(old(self).spec_tokenizer(), old(self)@.stream, token) {
                            Some(f) => {
                                if f == newline_fragment() {
                                    &&& final(self)@.output == old(self)@.output
                                    &&& !final(self)@.active
                                    &&& o is Stopped
                                } else {
                                    &&& final(self)@.output == old(self)@.output + f
                                    &&& final(self)@.active
                                    &&& o is Progress
                                }
                            },
                            None => {
                                &&& final(self)@.output == old(self)@.output
                                &&& final(self)@.active
                                &&& o is Progress
                            },
                        }
                    }
                },
                Err(GenError::Decode(_)) => {
                    &&& !final(self)@.active
                    &&& final(self)@.output == old(self)@.output
                    &&& final(self)@.stream == if !window_ok(
                        old(self).spec_tokenizer(),
                        prev_window_ids(old(self)@.stream),
                    ) {
                        old(self)@.stream
                    } else {
                        (StreamView {
                            tokens: old(self)@.stream.tokens.push(token),
                            ..old(self)@.stream
                        })
                    }
                },
                Err(_) => false,
            },
    {
        self.tokens.push(token);
        self.generated = self.generated + 1;
        if token == self.eos_token {
            self.active = false;
            return Ok(StepOutcome::Stopped);
        }
        match self.stream.next_token(token) {
            Ok(Some(frag)) => {
                let fb = frag.as_str().as_bytes();
                if fb.len() == 1 && *slice_index_get(fb, 0) == 10u8 {
                    proof {
                        assert(encode_utf8(frag@) =~= newline_fragment());
                    }
                    self.active = false;
                    Ok(StepOutcome::Stopped)
                } else {
                    proof {
                        if encode_utf8(frag@) == newline_fragment() {
                            assert(fb@.len() == 1 && fb@[0] == 10u8);
                        }
                    }
                    append_bytes(&mut self.output, fb);
                    Ok(StepOutcome::Progress)
                }
            },
            Ok(None) => Ok(StepOutcome::Progress),
            Err(e) => {
                self.active = false;
                Err(GenError::Decode(e))
            },
        }
    }

    /// Ends the run: flushes any residual unconfirmed text out of the decoder
    /// into the output. The session is inactive afterwards.
    pub fn finish(&mut self) -> (r: Result<(), GenError>)
        requires
            old(self).wf(),
        ensures
            final(self).wf(),
            Self::same_config(old(self), final(self)),
            final(self)@.tokens == old(self)@.tokens,
            final(self)@.generated == old(self)@.generated,
            final(self)@.stream == old(self)@.stream,
            !final(self)@.active,
            r is Err <==> rest_error(old(self).spec_tokenizer(), old(self)@.stream),
            match r {
                Ok(_) => match rest_frag(old(self).spec_tokenizer(), old(self)@.stream) {
                    Some(f) => final(self)@.output == old(self)@.output + f,
                    None => final(self)@.output == old(self)@.output,
                },
                Err(GenError::Decode(_)) => final(self)@.output == old(self)@.output,
                Err(_) => false,
            },
    {
        self.active = false;
        match self.stream.decode_rest() {
            Ok(Some(frag)) => {
                let fb = frag.as_str().as_bytes();
                append_bytes(&mut self.output, fb);
                Ok(())
            },
            Ok(None) => Ok(()),
            Err(e) => Err(GenError::Decode(e)),
        }
    }

    /// The accumulated confirmed output, as UTF-8 bytes.
    pub fn output(&self) -> (r: &Vec<u8>)
        ensures
            r@ == self@.output,
    {
        &self.output
    }

    /// The full token context of the current run: prompt ids, then sampled
    /// ids. The caller slices it as `next_query` directs.
    pub fn tokens(&self) -> (r: &Vec<u32>)
        ensures
            r@ == self@.tokens,
    {
        &self.tokens
    }

    /// How many tokens have been sampled in the current run.
    pub fn generated(&self) -> (r: usize)
        ensures
            r as int == self@.generated,
    {
        self.generated
    }
}

} // verus!
