//! The signing seed, and bytes as hexadecimal text.

use vstd::prelude::*;
use crate::text;

verus! {

/// The digit that writes a number below sixteen, in small letters.
pub open spec fn hex_digit(d: int) -> char {
    if d < 10 {
        ((48 + d) as u32) as char
    } else {
        ((87 + d) as u32) as char
    }
}

/// The number that a hexadecimal digit stands for.
pub open spec fn hex_value(c: char) -> Option<int> {
    if '0' <= c <= '9' {
        Some(c as int - 48)
    } else if 'a' <= c <= 'f' {
        Some(c as int - 87)
    } else if 'A' <= c <= 'F' {
        Some(c as int - 55)
    } else {
        None
    }
}

/// Bytes as hexadecimal text: two digits each, in small letters.
pub open spec fn hex_text(bytes: Seq<u8>) -> Seq<char> {
    Seq::new(
        2 * bytes.len(),
        |i: int|
            if i % 2 == 0 {
                hex_digit(bytes[i / 2] as int / 16)
            } else {
                hex_digit(bytes[i / 2] as int % 16)
            },
    )
}

/// The bytes that a hexadecimal text stands for: an even number of digits.
pub open spec fn hex_bytes(s: Seq<char>) -> Option<Seq<u8>> {
    if s.len() % 2 == 0 && forall|i: int| 0 <= i < s.len() ==> hex_value(#[trigger] s[i]) is Some {
        Some(
            Seq::new(
                s.len() / 2,
                |i: int| (hex_value(s[2 * i])->0 * 16 + hex_value(s[2 * i + 1])->0) as u8,
            ),
        )
    } else {
        None
    }
}

/// What `hex::decode` says of a text that is not hexadecimal.
pub uninterp spec fn hex_fault(s: Seq<char>) -> Seq<char>;

/// `hex::encode`: two digits for each byte, in small letters.
#[verifier::external_body]
pub(crate) fn encode_hex(bytes: &[u8]) -> (s: String)
    ensures
        s@ == hex_text(bytes@),
{
    hex::encode(bytes)
}

/// `hex::decode`: the bytes that an even number of hexadecimal digits, in
/// small or capital letters, stand for; the words of the error for every
/// other text.
#[verifier::external_body]
pub(crate) fn decode_hex(s: &str) -> (bytes: Result<Vec<u8>, String>)
    ensures
        match bytes {
            Ok(b) => hex_bytes(s@) == Some(b@),
            Err(words) => hex_bytes(s@) is None && words@ == hex_fault(s@),
        },
{
    hex::decode(s).map_err(|error| error.to_string())
}

/// A digit writes the number that it is read as.
proof fn lemma_hex_digit(d: int)
    requires
        0 <= d < 16,
    ensures
        hex_value(hex_digit(d)) == Some(d),
{
}

/// Bytes are read back from the text that they were written as.
pub proof fn law_hex_round_trips(bytes: Seq<u8>)
    ensures
        hex_bytes(hex_text(bytes)) == Some(bytes),
{
    let s = hex_text(bytes);
    assert forall|i: int| 0 <= i < s.len() implies hex_value(#[trigger] s[i]) is Some by {
        lemma_hex_digit(bytes[i / 2] as int / 16);
        lemma_hex_digit(bytes[i / 2] as int % 16);
    }
    assert forall|i: int| 0 <= i < bytes.len() implies (hex_value(#[trigger] s[2 * i])->0 * 16 + hex_value(
        s[2 * i + 1],
    )->0) as u8 == bytes[i] by {
        lemma_hex_digit(bytes[i] as int / 16);
        lemma_hex_digit(bytes[i] as int % 16);
        assert((2 * i) / 2 == i && (2 * i) % 2 == 0);
        assert((2 * i + 1) / 2 == i && (2 * i + 1) % 2 == 1);
    }
    assert(hex_bytes(s)->0 =~= bytes);
}

/// Whether all bytes are `b`.
pub open spec fn all_bytes(bytes: Seq<u8>, b: u8) -> bool {
    forall|i: int| 0 <= i < bytes.len() ==> #[trigger] bytes[i] == b
}

/// What a stored signing seed comes to. A seed that anyone could guess is
/// refused.
pub open spec fn stored_seed(stored: Seq<char>, path: Seq<char>) -> Result<Seq<u8>, Seq<char>> {
    match hex_bytes(text::trimmed(stored)) {
        None => Err("decode signing seed as hex"@),
        Some(bytes) => if bytes.len() != 32 {
            Err("signing seed must contain exactly 32 bytes"@)
        } else if all_bytes(bytes, 0) {
            Err(
                "signing seed at "@ + path
                    + " is all zeros; refusing (this is a known-weak seed with a globally predictable public key)"@,
            )
        } else if all_bytes(bytes, 255) {
            Err(
                "signing seed at "@ + path
                    + " is all 0xFF bytes; refusing (this is a known-weak seed with a globally predictable public key)"@,
            )
        } else {
            Ok(bytes)
        },
    }
}

/// Whether all bytes are `b`.
fn each_is(bytes: &Vec<u8>, b: u8) -> (all: bool)
    ensures
        all == all_bytes(bytes@, b),
{
    let mut i: usize = 0;
    while i < bytes.len()
        invariant
            i <= bytes@.len(),
            forall|k: int| 0 <= k < i ==> #[trigger] bytes@[k] == b,
        decreases bytes.len() - i,
    {
        if bytes[i] != b {
            return false;
        }
        i += 1;
    }
    true
}

/// Reads a stored signing seed.
pub fn read_seed(stored: &str, path: &str) -> (seed: Result<Vec<u8>, String>)
    ensures
        match seed {
            Ok(s) => stored_seed(stored@, path@) == Ok::<Seq<u8>, Seq<char>>(s@),
            Err(e) => stored_seed(stored@, path@) == Err::<Seq<u8>, Seq<char>>(e@),
        },
{
    let bytes: Vec<u8> = match decode_hex(text::trim(stored).as_str()) {
        Ok(bytes) => bytes,
        Err(_) => {
            return Err("decode signing seed as hex".to_owned());
        },
    };
    if bytes.len() != 32 {
        return Err("signing seed must contain exactly 32 bytes".to_owned());
    }
    if each_is(&bytes, 0) {
        return Err(
            text::concat3(
                "signing seed at ",
                path,
                " is all zeros; refusing (this is a known-weak seed with a globally predictable public key)",
            ),
        );
    }
    if each_is(&bytes, 255) {
        return Err(
            text::concat3(
                "signing seed at ",
                path,
                " is all 0xFF bytes; refusing (this is a known-weak seed with a globally predictable public key)",
            ),
        );
    }
    Ok(bytes)
}

/// A signing seed as it is stored.
pub fn encode_seed(seed: &[u8]) -> (stored: String)
    ensures
        stored@ == hex_text(seed@),
{
    encode_hex(seed)
}

/// No white space in hexadecimal text: trimming it changes nothing.
proof fn lemma_hex_text_is_trimmed(bytes: Seq<u8>)
    ensures
        text::trimmed(hex_text(bytes)) == hex_text(bytes),
{
    let s = hex_text(bytes);
    if s.len() > 0 {
        lemma_hex_digit(bytes[0] as int / 16);
        assert(s[0] == hex_digit(bytes[0] as int / 16));
        let last = bytes[bytes.len() - 1];
        assert((s.len() - 1) / 2 == bytes.len() - 1 && (s.len() - 1) % 2 == 1);
        assert(s.last() == hex_digit(last as int % 16));
    }
}

/// A seed that is no weak one is read back from the text that it was stored as.
pub proof fn law_stored_seed_is_read_back(seed: Seq<u8>, path: Seq<char>)
    requires
        seed.len() == 32,
        !all_bytes(seed, 0),
        !all_bytes(seed, 255),
    ensures
        stored_seed(hex_text(seed), path) == Ok::<Seq<u8>, Seq<char>>(seed),
{
    lemma_hex_text_is_trimmed(seed);
    law_hex_round_trips(seed);
}

/// A signing seed is thirty-two bytes, written as hex digits with or without
/// white space around them, and neither all zeros nor all ones.
pub proof fn law_weak_seeds_are_refused(stored: Seq<char>, path: Seq<char>)
    ensures
        stored_seed(stored, path) matches Ok(seed) ==> {
            &&& seed.len() == 32
            &&& hex_bytes(text::trimmed(stored)) == Some(seed)
            &&& exists|i: int| 0 <= i < 32 && #[trigger] seed[i] != 0
            &&& exists|i: int| 0 <= i < 32 && #[trigger] seed[i] != 255
        },
        hex_bytes(text::trimmed(stored)) is None ==> stored_seed(stored, path) is Err,
        (hex_bytes(text::trimmed(stored)) matches Some(seed) && seed.len() == 32 && (exists|i: int|
            0 <= i < 32 && #[trigger] seed[i] != 0) && (exists|i: int| 0 <= i < 32 && #[trigger] seed[i] != 255))
            ==> stored_seed(stored, path) is Ok,
{
}

/// Hex digits stand two for a byte, the higher first, in small letters; both
/// cases are read.
pub proof fn law_hex_digits_stand_for_their_byte(bytes: Seq<u8>, i: int)
    requires
        0 <= i < bytes.len(),
    ensures
        hex_text(bytes).len() == 2 * bytes.len(),
        hex_value(hex_text(bytes)[2 * i]) == Some(bytes[i] as int / 16),
        hex_value(hex_text(bytes)[2 * i + 1]) == Some(bytes[i] as int % 16),
        !('A' <= hex_text(bytes)[2 * i] <= 'F') && !('A' <= hex_text(bytes)[2 * i + 1] <= 'F'),
        hex_value('a') == hex_value('A') && hex_value('f') == hex_value('F'),
{
    lemma_digit_value(bytes[i] as int / 16);
    lemma_digit_value(bytes[i] as int % 16);
}

/// A digit is read as the value that it was written for.
proof fn lemma_digit_value(d: int)
    requires
        0 <= d < 16,
    ensures
        hex_value(hex_digit(d)) == Some(d),
        !('A' <= hex_digit(d) <= 'F'),
{
}

/// A seed that is refused is refused for what is wrong with it.
pub proof fn law_refused_seeds_are_told_why(stored: Seq<char>, path: Seq<char>)
    ensures
        hex_bytes(text::trimmed(stored)) is None ==> stored_seed(stored, path) == Err::<Seq<u8>, Seq<char>>(
            "decode signing seed as hex"@,
        ),
        (hex_bytes(text::trimmed(stored)) matches Some(seed) && seed.len() != 32) ==> stored_seed(stored, path) == Err::<
            Seq<u8>,
            Seq<char>,
        >("signing seed must contain exactly 32 bytes"@),
        (hex_bytes(text::trimmed(stored)) matches Some(seed) && seed.len() == 32 && forall|i: int|
            0 <= i < 32 ==> #[trigger] seed[i] == 0) ==> stored_seed(stored, path) == Err::<Seq<u8>, Seq<char>>(
            "signing seed at "@ + path
                + " is all zeros; refusing (this is a known-weak seed with a globally predictable public key)"@,
        ),
        (hex_bytes(text::trimmed(stored)) matches Some(seed) && seed.len() == 32 && forall|i: int|
            0 <= i < 32 ==> #[trigger] seed[i] == 255) ==> stored_seed(stored, path) == Err::<Seq<u8>, Seq<char>>(
            "signing seed at "@ + path
                + " is all 0xFF bytes; refusing (this is a known-weak seed with a globally predictable public key)"@,
        ),
{
    if let Some(seed) = hex_bytes(text::trimmed(stored)) {
        if seed.len() == 32 && seed[0] == 255 {
            assert(!all_bytes(seed, 0));
        }
    }
}

} // verus!
