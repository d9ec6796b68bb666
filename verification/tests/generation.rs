use std::str::FromStr;

use tokenizers::Tokenizer;
use translation_engine::decoder::TokenOutputStream;
use translation_engine::session::BeginOutcome;
use translation_engine::session::GenError;
use translation_engine::session::GenerationSession;
use translation_engine::session::StepOutcome;

fn toy_tokenizer(with_eos: bool) -> Tokenizer {
    let added = if with_eos {
        r#"[ { "id": 9, "content": "</s>", "single_word": false, "lstrip": false,
      "rstrip": false, "normalized": false, "special": true } ]"#
    } else {
        "[]"
    };
    let eos_entry = if with_eos { r#" "</s>": 9,"# } else { "" };
    let json = format!(
        r#"{{
  "version": "1.0",
  "truncation": null,
  "padding": null,
  "added_tokens": {},
  "normalizer": null,
  "pre_tokenizer": {{ "type": "WhitespaceSplit" }},
  "post_processor": null,
  "decoder": null,
  "model": {{
    "type": "WordLevel",
    "vocab": {{
      "[UNK]": 0, "Puer": 1, "canem": 2, "vult.": 3, "The": 4, "boy": 5,
      "wants": 6, "a": 7, "dog.": 8,{} "\n": 10
    }},
    "unk_token": "[UNK]"
  }}
}}"#,
        added, eos_entry
    );
    Tokenizer::from_str(&json).expect("toy tokenizer should parse")
}

fn toy_session(penalize: bool) -> GenerationSession {
    let stream = TokenOutputStream::new(toy_tokenizer(true));
    GenerationSession::new(stream, penalize, 64)
}

/// Drives a session the way the application drives the model: the stub
/// "model and sampler" deterministically emits the scripted ids in order.
fn run_scripted(
    session: &mut GenerationSession,
    prompt: &str,
    budget: usize,
    script: &[u32],
) -> Result<String, GenError> {
    match session.begin(prompt, budget)? {
        BeginOutcome::PromptTooLong => return Ok(String::new()),
        BeginOutcome::Started => {},
    }
    let mut next: usize = 0;
    while let Some(_query) = session.next_query() {
        let token = script[next];
        next += 1;
        match session.accept_token(token)? {
            StepOutcome::Stopped => break,
            StepOutcome::Progress => {},
        }
    }
    session.finish()?;
    Ok(String::from_utf8(session.output().clone()).expect("output is UTF-8"))
}

#[test]
fn eos_as_first_token_yields_empty_output() {
    let mut session = toy_session(false);
    let out = run_scripted(&mut session, "Puer canem vult.", 10, &[9]).unwrap();
    assert_eq!(out, "");
    assert_eq!(session.generated(), 1);
}

#[test]
fn newline_fragment_stops_generation_without_output() {
    let mut session = toy_session(false);
    let out = run_scripted(&mut session, "Puer canem vult.", 10, &[10, 4, 5]).unwrap();
    assert_eq!(out, "");
    // Generation halted after the newline: no further token was sampled.
    assert_eq!(session.generated(), 1);
    assert!(session.next_query().is_none());
}

#[test]
fn oversized_prompt_yields_empty_output_without_model_work() {
    let mut session = toy_session(false);
    let mut prompt = String::new();
    for _ in 0..421 {
        prompt.push_str("Puer ");
    }
    let out = run_scripted(&mut session, &prompt, 10, &[4, 5]).unwrap();
    assert_eq!(out, "");
    // The session never became active: the model is never queried.
    assert!(session.next_query().is_none());
    assert_eq!(session.generated(), 0);
}

#[test]
fn prompt_at_the_limit_is_accepted() {
    let mut session = toy_session(false);
    let mut prompt = String::new();
    for _ in 0..420 {
        prompt.push_str("Puer ");
    }
    let out = run_scripted(&mut session, &prompt, 5, &[4, 9]).unwrap();
    assert_eq!(out, "The");
}

#[test]
fn budget_exhaustion_flushes_residual_text() {
    let mut session = toy_session(false);
    let out = run_scripted(&mut session, "Puer canem vult.", 2, &[4, 5]).unwrap();
    assert_eq!(out, "The boy");
    assert_eq!(session.generated(), 2);
    assert!(session.next_query().is_none());
}

#[test]
fn missing_eos_token_is_a_fatal_configuration_error() {
    let stream = TokenOutputStream::new(toy_tokenizer(false));
    let mut session = GenerationSession::new(stream, false, 64);
    let err = run_scripted(&mut session, "Puer canem vult.", 10, &[4]).unwrap_err();
    assert!(matches!(err, GenError::MissingEosToken));
}

#[test]
fn neutral_penalty_queries_no_penalty_window() {
    let mut session = toy_session(false);
    assert!(matches!(session.begin("Puer canem vult.", 10), Ok(BeginOutcome::Started)));
    let query = session.next_query().expect("an active session queries the model");
    assert!(query.penalty_start.is_none());

    let mut penalized = toy_session(true);
    assert!(matches!(penalized.begin("Puer canem vult.", 10), Ok(BeginOutcome::Started)));
    let query = penalized.next_query().expect("an active session queries the model");
    // No token has been sampled yet, so the window of penalized ids is empty:
    // it starts at the end of the three prompt ids and never covers them.
    assert_eq!(query.penalty_start, Some(3));
    assert_eq!(penalized.accept_token(4).unwrap(), StepOutcome::Progress);
    let query = penalized.next_query().expect("the run goes on");
    // One sampled token: the window covers exactly it.
    assert_eq!(query.penalty_start, Some(3));
    assert_eq!(penalized.tokens().len(), 4);
}

#[test]
fn neutral_penalty_output_matches_unpenalized_sampling() {
    let script: Vec<u32> = vec![4, 5, 6, 7, 8, 9];
    let mut neutral = toy_session(false);
    let out_neutral = run_scripted(&mut neutral, "Puer canem vult.", 100, &script).unwrap();
    let mut penalized = toy_session(true);
    let out_penalized = run_scripted(&mut penalized, "Puer canem vult.", 100, &script).unwrap();
    assert_eq!(out_neutral, out_penalized);
}

#[test]
fn context_window_policy_is_whole_then_incremental() {
    let mut session = toy_session(false);
    assert!(matches!(session.begin("Puer canem vult.", 10), Ok(BeginOutcome::Started)));
    let first = session.next_query().unwrap();
    assert_eq!(first.start_pos, 0);
    assert_eq!(session.accept_token(4).unwrap(), StepOutcome::Progress);
    let second = session.next_query().unwrap();
    // One token was appended: only it is fed, from its own position.
    assert_eq!(second.start_pos, session.tokens().len() - 1);
}

#[test]
fn same_seed_same_prompt_is_byte_identical() {
    // With a deterministic sampler (the script stands for a seeded sampler),
    // two runs over the same prompt produce byte-identical output.
    let script: Vec<u32> = vec![4, 5, 6, 7, 8, 9];
    let mut first = toy_session(false);
    let out_first = run_scripted(&mut first, "Puer canem vult.", 100, &script).unwrap();
    let mut second = toy_session(false);
    let out_second = run_scripted(&mut second, "Puer canem vult.", 100, &script).unwrap();
    assert_eq!(out_first.as_bytes(), out_second.as_bytes());
    assert_eq!(out_first, "The boy wants a dog.");
}
