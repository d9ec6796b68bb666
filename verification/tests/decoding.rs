use std::str::FromStr;

use tokenizers::Tokenizer;
use translation_engine::decoder::TokenOutputStream;

fn toy_tokenizer_with(decoder: &str) -> Tokenizer {
    let json = format!(
        r#"{{
  "version": "1.0",
  "truncation": null,
  "padding": null,
  "added_tokens": [
    {{ "id": 9, "content": "</s>", "single_word": false, "lstrip": false,
      "rstrip": false, "normalized": false, "special": true }}
  ],
  "normalizer": null,
  "pre_tokenizer": {{ "type": "WhitespaceSplit" }},
  "post_processor": null,
  "decoder": {},
  "model": {{
    "type": "WordLevel",
    "vocab": {{
      "[UNK]": 0, "Puer": 1, "canem": 2, "vult.": 3, "The": 4, "boy": 5,
      "wants": 6, "a": 7, "dog.": 8, "</s>": 9, "\n": 10, "café": 11, "ok": 12
    }},
    "unk_token": "[UNK]"
  }}
}}"#,
        decoder
    );
    Tokenizer::from_str(&json).expect("toy tokenizer should parse")
}

fn toy_tokenizer() -> Tokenizer {
    toy_tokenizer_with("null")
}

fn feed_all(stream: &mut TokenOutputStream, ids: &[u32]) -> String {
    let mut got = String::new();
    for &id in ids {
        if let Some(frag) = stream.next_token(id).expect("decode should succeed") {
            got.push_str(&frag);
        }
    }
    if let Some(rest) = stream.decode_rest().expect("flush should succeed") {
        got.push_str(&rest);
    }
    got
}

#[test]
fn fragments_reassemble_full_decode() {
    let mut stream = TokenOutputStream::new(toy_tokenizer());
    let ids: Vec<u32> = vec![4, 5, 6, 7, 8];
    let mut got = String::new();
    for &id in &ids {
        if let Some(frag) = stream.next_token(id).expect("decode should succeed") {
            got.push_str(&frag);
        }
    }
    if let Some(rest) = stream.decode_rest().expect("flush should succeed") {
        got.push_str(&rest);
    }
    let whole = stream.decode_all().expect("full decode should succeed");
    assert_eq!(got, whole);
    assert_eq!(got, "The boy wants a dog.");
}

#[test]
fn fragments_emitted_once_and_incrementally() {
    let mut stream = TokenOutputStream::new(toy_tokenizer());
    assert_eq!(stream.next_token(4).unwrap().as_deref(), Some("The"));
    assert_eq!(stream.next_token(5).unwrap().as_deref(), Some(" boy"));
    assert_eq!(stream.next_token(6).unwrap().as_deref(), Some(" wants"));
    assert_eq!(stream.decode_rest().unwrap(), None);
}

#[test]
fn multibyte_tail_is_buffered_until_stable() {
    let mut stream = TokenOutputStream::new(toy_tokenizer());
    // "café" ends in a multi-byte character: nothing may be emitted yet.
    assert_eq!(stream.next_token(11).unwrap(), None);
    let frag = stream.next_token(12).unwrap().expect("ascii tail confirms the text");
    assert_eq!(frag, "caf\u{e9} ok");
    // The fragment is a whole-character string: its bytes round-trip.
    assert!(std::str::from_utf8(frag.as_bytes()).is_ok());
}

#[test]
fn flush_returns_residual_multibyte_text() {
    let mut stream = TokenOutputStream::new(toy_tokenizer());
    assert_eq!(stream.next_token(11).unwrap(), None);
    let rest = stream.decode_rest().unwrap().expect("residual text is flushed");
    assert_eq!(rest, "caf\u{e9}");
}

#[test]
fn reset_behaves_like_fresh_decoder() {
    let mut used = TokenOutputStream::new(toy_tokenizer());
    let _ = feed_all(&mut used, &[4, 5, 6, 7, 8, 11]);
    used.clear();
    let after_reset = feed_all(&mut used, &[1, 2, 3]);

    let mut fresh = TokenOutputStream::new(toy_tokenizer());
    let from_fresh = feed_all(&mut fresh, &[1, 2, 3]);
    assert_eq!(after_reset, from_fresh);
    assert_eq!(after_reset, "Puer canem vult.");
}

#[test]
fn vocabulary_lookup_finds_special_token() {
    let stream = TokenOutputStream::new(toy_tokenizer());
    assert_eq!(stream.get_token("</s>"), Some(9));
    assert_eq!(stream.get_token("Puer"), Some(1));
    assert_eq!(stream.get_token("not-in-vocabulary"), None);
}

#[test]
fn special_tokens_are_skipped_in_decoding() {
    let mut stream = TokenOutputStream::new(toy_tokenizer());
    // The end-of-sequence id decodes to nothing at all.
    assert_eq!(stream.next_token(9).unwrap(), None);
    assert_eq!(stream.decode_rest().unwrap(), None);
}

#[test]
fn try_new_accepts_only_a_plain_join_decoder() {
    // The toy tokenizer configures no decoder: pieces are joined with
    // spaces, a plainly total chain.
    assert!(TokenOutputStream::try_new(toy_tokenizer()).is_ok());
    // With a decoder chain configured, the tokenizer is handed back for the
    // caller to vouch for itself.
    let fused = toy_tokenizer_with(r#"{ "type": "Fuse" }"#);
    assert!(TokenOutputStream::try_new(fused).is_err());
}
