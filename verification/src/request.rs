//! The request-level glue around a generation run: the few-shot prompt
//! wrapped around the caller's sentence, and the lightweight proof-of-work
//! stamp put on a response — the first nonce whose stamped message hashes,
//! under SHA-256, to a digest whose leading 24 bits are zero or, shifted left
//! by 8 bits into a 32-bit word, carry at least 20 leading zero bits.

use vstd::prelude::*;
use vstd::string::StrSliceExecFns;
use vstd::string::StringExecFns;
use vstd::utf8::encode_utf8;

verus! {

/// The SHA-256 digest of the UTF-8 bytes of a string.
pub uninterp spec fn sha256_of(s: Seq<char>) -> Seq<u8>;


/// The string with leading and trailing whitespace removed.
pub uninterp spec fn trim_of(s: Seq<char>) -> Seq<char>;

/// Relies on `ring::digest::digest` with SHA-256: the digest is a function of
/// the input bytes alone and is 32 bytes long (`SHA256_OUTPUT_LEN`).
#[verifier::external_body]
fn sha256_str(s: &str) -> (r: Vec<u8>)
    ensures
        r@ == sha256_of(s@),
        r@.len() == 32,
{
    ring::digest::digest(&ring::digest::SHA256, s.as_bytes()).as_ref().to_vec()
}

pub open spec fn hex_digit_char(d: nat) -> char {
    if d < 10 {
        digit_char(d)
    } else if d == 10 {
        'A'
    } else if d == 11 {
        'B'
    } else if d == 12 {
        'C'
    } else if d == 13 {
        'D'
    } else if d == 14 {
        'E'
    } else {
        'F'
    }
}

/// The bytes percent-encoding leaves as they stand: alphanumerics and
/// `-`, `.`, `_`, `~`.
pub open spec fn percent_keeps(b: u8) -> bool {
    ||| 0x30 <= b <= 0x39
    ||| 0x41 <= b <= 0x5a
    ||| 0x61 <= b <= 0x7a
    ||| b == 0x2d
    ||| b == 0x2e
    ||| b == 0x5f
    ||| b == 0x7e
}

/// The percent-encoding of one byte: a kept byte stands as its own (ASCII)
/// character, every other byte becomes `%` and two uppercase hex digits.
pub open spec fn percent_encode_byte(b: u8) -> Seq<char> {
    if percent_keeps(b) {
        seq![b as char]
    } else {
        seq!['%', hex_digit_char(b as nat / 16), hex_digit_char(b as nat % 16)]
    }
}

/// The percent-encoding of a string: a byte-wise map over its UTF-8 bytes.
pub open spec fn url_encoded(s: Seq<char>) -> Seq<char> {
    encode_utf8(s).map_values(|b: u8| percent_encode_byte(b)).flatten()
}

/// Relies on `urlencoding::encode`: it percent-encodes every byte of the
/// string except alphanumerics and `-`, `_`, `.`, `~`, with uppercase hex
/// digits, as `url_encoded` states.
#[verifier::external_body]
pub fn url_encode(s: &str) -> (r: String)
    ensures
        r@ == url_encoded(s@),
{
    urlencoding::encode(s).into_owned()
}

/// Relies on `str::trim`: the slice with leading and trailing whitespace
/// removed, a function of the characters alone.
#[verifier::external_body]
pub fn trim_str(s: &str) -> (r: &str)
    ensures
        r@ == trim_of(s@),
{
    s.trim()
}

pub open spec fn digit_char(d: nat) -> char {
    if d == 0 {
        '0'
    } else if d == 1 {
        '1'
    } else if d == 2 {
        '2'
    } else if d == 3 {
        '3'
    } else if d == 4 {
        '4'
    } else if d == 5 {
        '5'
    } else if d == 6 {
        '6'
    } else if d == 7 {
        '7'
    } else if d == 8 {
        '8'
    } else {
        '9'
    }
}

/// The decimal digits of `n`, most significant first.
pub open spec fn dec_str(n: nat) -> Seq<char>
    decreases n,
{
    if n < 10 {
        seq![digit_char(n)]
    } else {
        dec_str(n / 10).push(digit_char(n % 10))
    }
}

/// Relies on the `Display` implementation for `u64`: plain base-10 digits,
/// no sign, no padding, no separators.
#[verifier::external_body]
fn format_u64(n: u64) -> (r: String)
    ensures
        r@ == dec_str(n as nat),
{
    format!("{}", n)
}

/// The message that is hashed for a given encoded response, timestamp and
/// nonce.
pub open spec fn candidate_msg(enc_resp: Seq<char>, time: u64, nonce: u64) -> Seq<char> {
    "response="@ + enc_resp + "&time="@ + dec_str(time as nat) + "&nonce="@ + dec_str(
        nonce as nat,
    )
}

fn build_candidate(enc_resp: &str, time: u64, nonce: u64) -> (r: String)
    ensures
        r@ == candidate_msg(enc_resp@, time, nonce),
{
    let mut m = String::from_str("response=");
    m.append(enc_resp);
    m.append("&time=");
    let ts = format_u64(time);
    m.append(ts.as_str());
    m.append("&nonce=");
    let ns = format_u64(nonce);
    m.append(ns.as_str());
    proof {
        assert(m@ =~= candidate_msg(enc_resp@, time, nonce));
    }
    m
}

/// The acceptance test on a digest: its first 24 bits, read as one integer,
/// are exactly zero, or that integer shifted left by 8 bits into a 32-bit
/// word has at least 20 leading zero bits (it is below 2^12).
pub open spec fn pow_accepts(d: Seq<u8>) -> bool {
    d.len() >= 3 && {
        let first24 = (d[0] as int) * 0x10000 + (d[1] as int) * 0x100 + (d[2] as int);
        first24 == 0 || first24 * 0x100 < 0x1000
    }
}

/// Evaluates the acceptance test on a digest.
pub fn pow_check(d: &Vec<u8>) -> (r: bool)
    requires
        d@.len() >= 3,
    ensures
        r == pow_accepts(d@),
{
    let b0 = *d.get(0).unwrap();
    let b1 = *d.get(1).unwrap();
    let b2 = *d.get(2).unwrap();
    let hit = b0 == 0 && b1 == 0 && b2 < 16;
    proof {
        let first24 = (d@[0] as int) * 0x10000 + (d@[1] as int) * 0x100 + (d@[2] as int);
        if hit {
            assert(first24 == d@[2]);
            assert(first24 == 0 || first24 * 0x100 < 0x1000);
        } else {
            if b0 != 0 || b1 != 0 {
                assert(first24 >= 0x100);
                assert(first24 * 0x100 >= 0x1000);
            } else {
                assert(first24 == d@[2] && d@[2] >= 16);
                assert(first24 * 0x100 >= 0x1000);
            }
            assert(!(first24 == 0 || first24 * 0x100 < 0x1000));
        }
    }
    hit
}

pub open spec fn stamp_candidate(resp: Seq<char>, time: u64, n: u64) -> Seq<char> {
    candidate_msg(url_encoded(trim_of(resp)), time, n)
}

pub open spec fn stamp_hits(resp: Seq<char>, time: u64, n: u64) -> bool {
    pow_accepts(sha256_of(stamp_candidate(resp, time, n)))
}

/// Stamps a response: trims it, percent-encodes it, and searches increasing
/// nonces from zero for the first whose candidate message hashes to an
/// accepted digest. Returns the winning message together with the trimmed
/// response; `None` only if no nonce at all is accepted.
pub fn stamp_response(response: &str, time: u64) -> (r: Option<(String, String)>)
    ensures
        match r {
            Some(pair) => {
                &&& pair.1@ == trim_of(response@)
                &&& exists|n: u64|
                    {
                        &&& #[trigger] stamp_hits(response@, time, n)
                        &&& pair.0@ == stamp_candidate(response@, time, n)
                        &&& forall|m: u64| m < n ==> !stamp_hits(response@, time, m)
                    }
            },
            None => forall|n: u64| !stamp_hits(response@, time, n),
        },
{
    let trimmed_slice = trim_str(response);
    let trimmed = trimmed_slice.to_owned();
    let enc = url_encode(trimmed.as_str());
    let mut nonce: u64 = 0;
    loop
        invariant
            trimmed@ == trim_of(response@),
            enc@ == url_encoded(trim_of(response@)),
            forall|m: u64| m < nonce ==> !stamp_hits(response@, time, m),
        decreases u64::MAX - nonce,
    {
        let msg = build_candidate(enc.as_str(), time, nonce);
        let digest = sha256_str(msg.as_str());
        if pow_check(&digest) {
            proof {
                assert(stamp_hits(response@, time, nonce));
            }
            return Some((msg, trimmed));
        }
        if nonce == u64::MAX {
            proof {
                assert(forall|m: u64| m < u64::MAX ==> !stamp_hits(response@, time, m));
                assert(!stamp_hits(response@, time, u64::MAX));
            }
            return None;
        }
        nonce = nonce + 1;
    }
}

/// The few-shot prompt wrapped around the (trimmed) input sentence.
pub open spec fn prompt_for(input: Seq<char>) -> Seq<char> {
    "Example Latin: Puer canem vult.\nEnglish translation: The boy wants a dog.\n\nLatin: "@
        + trim_of(input) + "\nEnglish translation:"@
}

/// Builds the translation prompt for a caller sentence.
pub fn build_prompt(input: &str) -> (r: String)
    ensures
        r@ == prompt_for(input@),
{
    let mut m = String::from_str(
        "Example Latin: Puer canem vult.\nEnglish translation: The boy wants a dog.\n\nLatin: ",
    );
    m.append(trim_str(input));
    m.append("\nEnglish translation:");
    proof {
        assert(m@ =~= prompt_for(input@));
    }
    m
}

} // verus!
