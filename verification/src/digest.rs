use sha2::{Digest, Sha256};
use vstd::prelude::*;

verus! {

/// The SHA-256 digest of `data`, as the crate sha2 computes it.
pub uninterp spec fn sha256_digest(data: Seq<u8>) -> Seq<u8>;

/// `Sha256::digest` of the crate sha2, with its output copied into a vector.
/// The contract names the result, a function of the bytes hashed alone, and
/// gives its length, the 32 bytes of the hasher's output size; nothing else
/// is claimed of it.
#[verifier::external_body]
fn sha256(data: &[u8]) -> (digest: Vec<u8>)
    ensures
        digest@ == sha256_digest(data@),
        digest@.len() == 32,
{
    Sha256::digest(data).to_vec()
}

/// The lower-case hexadecimal digit of a value below sixteen.
pub open spec fn hex_digit(nibble: int) -> char {
    if nibble == 0 {
        '0'
    } else if nibble == 1 {
        '1'
    } else if nibble == 2 {
        '2'
    } else if nibble == 3 {
        '3'
    } else if nibble == 4 {
        '4'
    } else if nibble == 5 {
        '5'
    } else if nibble == 6 {
        '6'
    } else if nibble == 7 {
        '7'
    } else if nibble == 8 {
        '8'
    } else if nibble == 9 {
        '9'
    } else if nibble == 10 {
        'a'
    } else if nibble == 11 {
        'b'
    } else if nibble == 12 {
        'c'
    } else if nibble == 13 {
        'd'
    } else if nibble == 14 {
        'e'
    } else {
        'f'
    }
}

/// The character at `position` of the hexadecimal text of `bytes`: the high
/// digit of a byte at an even position, its low digit at the odd one after.
pub open spec fn hex_char_at(bytes: Seq<u8>, position: int) -> char {
    if position % 2 == 0 {
        hex_digit(bytes[position / 2] as int / 16)
    } else {
        hex_digit(bytes[position / 2] as int % 16)
    }
}

/// `bytes` in lower-case hexadecimal, two digits for each byte.
pub open spec fn hex_lower(bytes: Seq<u8>) -> Seq<char> {
    Seq::new(2 * bytes.len(), |position: int| hex_char_at(bytes, position))
}

/// The checksum of `content`: its SHA-256 digest in lower-case hexadecimal.
pub open spec fn content_checksum(content: Seq<u8>) -> Seq<char> {
    hex_lower(sha256_digest(content))
}

fn digit_text(nibble: u8) -> (text: &'static str)
    requires
        nibble < 16,
    ensures
        text@ == seq![hex_digit(nibble as int)],
{
    proof {
        reveal_strlit("0");
        reveal_strlit("1");
        reveal_strlit("2");
        reveal_strlit("3");
        reveal_strlit("4");
        reveal_strlit("5");
        reveal_strlit("6");
        reveal_strlit("7");
        reveal_strlit("8");
        reveal_strlit("9");
        reveal_strlit("a");
        reveal_strlit("b");
        reveal_strlit("c");
        reveal_strlit("d");
        reveal_strlit("e");
        reveal_strlit("f");
    }
    let text = if nibble == 0 {
        "0"
    } else if nibble == 1 {
        "1"
    } else if nibble == 2 {
        "2"
    } else if nibble == 3 {
        "3"
    } else if nibble == 4 {
        "4"
    } else if nibble == 5 {
        "5"
    } else if nibble == 6 {
        "6"
    } else if nibble == 7 {
        "7"
    } else if nibble == 8 {
        "8"
    } else if nibble == 9 {
        "9"
    } else if nibble == 10 {
        "a"
    } else if nibble == 11 {
        "b"
    } else if nibble == 12 {
        "c"
    } else if nibble == 13 {
        "d"
    } else if nibble == 14 {
        "e"
    } else {
        "f"
    };
    proof {
        assert(text@ =~= seq![hex_digit(nibble as int)]);
    }
    text
}

/// Writes `bytes` in lower-case hexadecimal.
pub fn to_hex_lower(bytes: &[u8]) -> (text: String)
    ensures
        text@ == hex_lower(bytes@),
{
    let mut text = String::new();
    let mut i: usize = 0;
    while i < bytes.len()
        invariant
            i <= bytes.len(),
            text@ == hex_lower(bytes@.take(i as int)),
        decreases bytes.len() - i,
    {
        let byte: u8 = bytes[i];
        let ghost before = text@;
        text.append(digit_text(byte / 16));
        text.append(digit_text(byte % 16));
        proof {
            let longer = bytes@.take(i + 1);
            assert(text@ == before + seq![hex_digit(byte as int / 16)] + seq![
                hex_digit(byte as int % 16),
            ]);
            assert forall|p: int| 0 <= p < 2 * (i + 1) implies text@[p] == hex_char_at(
                longer,
                p,
            ) by {
                if p < 2 * i {
                    assert(before[p] == hex_char_at(bytes@.take(i as int), p));
                    assert(bytes@.take(i as int)[p / 2] == longer[p / 2]);
                } else {
                    assert(longer[p / 2] == byte);
                }
            }
            assert(text@ =~= hex_lower(longer));
        }
        i = i + 1;
    }
    proof {
        assert(bytes@.take(bytes.len() as int) =~= bytes@);
    }
    text
}

/// Computes the checksum of `content`: sixty-four digits.
pub fn checksum_of(content: &[u8]) -> (text: String)
    ensures
        text@ == content_checksum(content@),
        text@.len() == 64,
{
    let digest = sha256(content);
    to_hex_lower(digest.as_slice())
}

/// Whether `content` is what `checksum` stands for. A text that is not
/// sixty-four characters long stands for no content.
pub fn is_current(content: &[u8], checksum: &String) -> (current: bool)
    ensures
        current == (content_checksum(content@) == checksum@),
        checksum@.len() != 64 ==> !current,
{
    let text = checksum_of(content);
    text == *checksum
}

} // verus!
