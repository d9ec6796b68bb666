use translation_engine::request::build_prompt;
use translation_engine::request::pow_check;
use translation_engine::request::stamp_response;

fn first_24_bits_accepted(message: &str) -> bool {
    let digest = ring::digest::digest(&ring::digest::SHA256, message.as_bytes());
    let digest = digest.as_ref();
    let first_24_bits = ((digest[0] as i32) << 16) | ((digest[1] as i32) << 8) | digest[2] as i32;
    first_24_bits == 0 || (first_24_bits << 8).leading_zeros() >= 20
}

#[test]
fn stamp_finds_the_first_accepted_nonce() {
    let (message, response) = stamp_response("  hello world  ", 1700000000)
        .expect("a nonce is found");
    assert_eq!(response, "hello world");
    let prefix = "response=hello%20world&time=1700000000&nonce=";
    assert!(message.starts_with(prefix), "unexpected message: {}", message);
    let nonce: u64 = message[prefix.len()..].parse().expect("nonce is decimal");
    // The winning message really hashes to an accepted digest, under the real
    // SHA-256 of the ring crate.
    assert!(first_24_bits_accepted(&message));
    // And every smaller nonce really fails.
    for m in 0..nonce {
        let candidate = format!("{}{}", prefix, m);
        assert!(!first_24_bits_accepted(&candidate));
    }
}

#[test]
fn stamp_is_deterministic() {
    let a = stamp_response("salve", 42).expect("a nonce is found");
    let b = stamp_response("salve", 42).expect("a nonce is found");
    assert_eq!(a.0, b.0);
    assert_eq!(a.1, b.1);
}

#[test]
fn pow_check_matches_the_bit_rule() {
    // Accepted: first 24 bits zero.
    assert!(pow_check(&vec![0, 0, 0, 0xff]));
    // Accepted: first 24 bits below 16, i.e. 20 leading zeros after the shift.
    assert!(pow_check(&vec![0, 0, 15, 0xff]));
    // Rejected: 16 and above.
    assert!(!pow_check(&vec![0, 0, 16, 0]));
    assert!(!pow_check(&vec![0, 1, 0, 0]));
    assert!(!pow_check(&vec![1, 0, 0, 0]));
}

#[test]
fn prompt_wraps_and_trims_the_input() {
    let prompt = build_prompt("  Canis currit.  ");
    assert_eq!(
        prompt,
        "Example Latin: Puer canem vult.\nEnglish translation: The boy wants a dog.\n\nLatin: Canis currit.\nEnglish translation:"
    );
}
