//! Hexadecimal text.

use vstd::prelude::*;
use vstd::string::*;
use vstd::utf8::*;

verus! {

broadcast use vstd::string::group_string_axioms;

/// The lower case hexadecimal digit of a value below sixteen.
pub open spec fn hex_digit(value: int) -> char {
    seq!['0', '1', '2', '3', '4', '5', '6', '7', '8', '9', 'a', 'b', 'c', 'd', 'e', 'f'][value]
}

/// The lower case hexadecimal text of `data`: two digits for each byte, the
/// high one first.
pub open spec fn hex_text(data: Seq<u8>) -> Seq<char> {
    Seq::new(
        2 * data.len(),
        |i: int|
            if i % 2 == 0 {
                hex_digit(data[i / 2] as int / 16)
            } else {
                hex_digit(data[i / 2] as int % 16)
            },
    )
}

/// Whether `byte` is a hexadecimal digit of either case.
pub open spec fn is_hex_digit(byte: u8) -> bool {
    ||| 0x30 <= byte <= 0x39
    ||| 0x41 <= byte <= 0x46
    ||| 0x61 <= byte <= 0x66
}

/// The value of a hexadecimal digit.
pub open spec fn hex_value(byte: u8) -> int {
    if byte <= 0x39 {
        byte - 0x30
    } else if byte <= 0x46 {
        byte - 0x41 + 10
    } else {
        byte - 0x61 + 10
    }
}

/// Whether `text` is an even number of hexadecimal digits.
pub open spec fn is_hex(text: Seq<u8>) -> bool {
    &&& text.len() % 2 == 0
    &&& forall|i: int| 0 <= i < text.len() ==> is_hex_digit(#[trigger] text[i])
}

/// The bytes that hexadecimal text stands for.
pub open spec fn hex_bytes(text: Seq<u8>) -> Seq<u8> {
    Seq::new(
        text.len() / 2,
        |i: int| (16 * hex_value(text[2 * i]) + hex_value(text[2 * i + 1])) as u8,
    )
}

/// What may go wrong when hexadecimal text is decoded. Nothing here looks
/// inside.
#[verifier::external_type_specification]
#[verifier::external_body]
pub struct ExFromHexError(hex::FromHexError);

/// Calls `hex::encode`, which writes each byte of `data` as two lower case
/// hexadecimal digits. The text must fit in a `String`.
#[verifier::external_body]
fn encode(data: &[u8]) -> (text: String)
    requires
        2 * data@.len() <= isize::MAX,
    ensures
        text@ == hex_text(data@),
{
    hex::encode(data)
}

/// Calls `hex::decode`, which reads pairs of hexadecimal digits of either
/// case. It succeeds if and only if the text is an even number of digits.
#[verifier::external_body]
pub(crate) fn decode(text: &str) -> (bytes: Result<Vec<u8>, hex::FromHexError>)
    ensures
        bytes is Ok <==> is_hex(text.spec_bytes()),
        bytes matches Ok(data) ==> data@ == hex_bytes(text.spec_bytes()),
{
    hex::decode(text)
}

/// `0x` followed by the lower case hexadecimal text of `data`: how Ethereum
/// hashes and addresses are reported.
pub open spec fn prefixed_hex(data: Seq<u8>) -> Seq<char> {
    seq!['0', 'x'] + hex_text(data)
}

/// `sync-tx:` followed by the lower case hexadecimal text of `data`: how
/// hashes of rollup transactions are reported.
pub open spec fn sync_tx_text(data: Seq<u8>) -> Seq<char> {
    seq!['s', 'y', 'n', 'c', '-', 't', 'x', ':'] + hex_text(data)
}

/// Renders an Ethereum hash as `0x` followed by lower case hexadecimal
/// digits.
pub fn render_eth_hash(hash: &[u8]) -> (text: String)
    requires
        2 * hash@.len() + 2 <= isize::MAX,
    ensures
        text@ == prefixed_hex(hash@),
{
    proof {
        reveal_strlit("0x");
    }
    let mut text = String::from_str("0x");
    let digits = encode(hash);
    text.append(digits.as_str());
    assert(text@ =~= prefixed_hex(hash@));
    text
}

/// A digit is ASCII, is read as a digit, and has the value that it was written
/// for.
proof fn lemma_digits(value: int)
    requires
        0 <= value < 16,
    ensures
        hex_digit(value) <= '\u{7f}',
        is_hex_digit(hex_digit(value) as u8),
        hex_value(hex_digit(value) as u8) == value,
{
}

/// Decoding undoes encoding: behind any ASCII prefix, the lower case text of
/// `data` is hexadecimal text that stands for `data`.
pub proof fn law_decode_undoes_encode(prefix: Seq<char>, data: Seq<u8>)
    requires
        is_ascii_chars(prefix),
    ensures
        encode_utf8(prefix + hex_text(data)).len() == prefix.len() + 2 * data.len(),
        forall|i: int|
            0 <= i < prefix.len() ==> #[trigger] encode_utf8(prefix + hex_text(data))[i]
                == prefix[i] as u8,
        is_hex(encode_utf8(prefix + hex_text(data)).skip(prefix.len() as int)),
        hex_bytes(encode_utf8(prefix + hex_text(data)).skip(prefix.len() as int)) == data,
{
    let digits = hex_text(data);
    let whole = prefix + digits;
    assert forall|i: int| 0 <= i < digits.len() implies '\0' <= #[trigger] digits[i] <= '\u{7f}'
        && is_hex_digit(digits[i] as u8) && hex_value(digits[i] as u8) == (if i % 2 == 0 {
        data[i / 2] as int / 16
    } else {
        data[i / 2] as int % 16
    }) by {
        lemma_digits(data[i / 2] as int / 16);
        lemma_digits(data[i / 2] as int % 16);
    }
    assert(is_ascii_chars(whole));
    is_ascii_chars_encode_utf8(whole);
    let text = encode_utf8(whole).skip(prefix.len() as int);
    assert forall|i: int| 0 <= i < text.len() implies #[trigger] text[i] == digits[i] as u8 by {
        assert(whole[prefix.len() + i] == digits[i]);
    }
    assert forall|i: int| 0 <= i < data.len() implies #[trigger] hex_bytes(text)[i] == data[i] by {
        assert(text[2 * i] == digits[2 * i] as u8);
        assert(text[2 * i + 1] == digits[2 * i + 1] as u8);
    }
    assert(hex_bytes(text) =~= data);
}

/// The text of `data` gives the byte at `i` two digits, the high one first, and
/// all its digits are lower case.
pub proof fn law_each_byte_has_two_digits(data: Seq<u8>, i: int)
    requires
        0 <= i < data.len(),
    ensures
        hex_text(data).len() == 2 * data.len(),
        hex_text(data)[2 * i] == "0123456789abcdef"@[data[i] as int / 16],
        hex_text(data)[2 * i + 1] == "0123456789abcdef"@[data[i] as int % 16],
{
    reveal_strlit("0123456789abcdef");
    assert((2 * i) / 2 == i && (2 * i) % 2 == 0);
    assert((2 * i + 1) / 2 == i && (2 * i + 1) % 2 == 1);
}

/// Reported hashes and addresses start with `0x`, hashes of rollup transactions
/// with `sync-tx:`. Behind it stands the text of the data and nothing else.
pub proof fn law_reported_text_has_its_prefix(data: Seq<u8>)
    ensures
        prefixed_hex(data) == "0x"@ + hex_text(data),
        sync_tx_text(data) == "sync-tx:"@ + hex_text(data),
        hex_text(data).len() == 2 * data.len(),
{
    reveal_strlit("0x");
    reveal_strlit("sync-tx:");
    assert("0x"@ =~= seq!['0', 'x']);
    assert("sync-tx:"@ =~= seq!['s', 'y', 'n', 'c', '-', 't', 'x', ':']);
}

/// The bytes of two texts stand one after the other in the bytes of the whole.
pub(crate) proof fn lemma_bytes_of_parts(a: Seq<char>, b: Seq<char>)
    ensures
        encode_utf8(a + b) == encode_utf8(a) + encode_utf8(b),
    decreases a.len(),
{
    if a.len() == 0 {
        assert(a + b =~= b);
        assert(encode_utf8(a) + encode_utf8(b) =~= encode_utf8(b));
    } else {
        lemma_bytes_of_parts(a.drop_first(), b);
        assert((a + b).drop_first() =~= a.drop_first() + b);
        assert(encode_utf8(a + b) =~= encode_utf8(a) + encode_utf8(b));
    }
}

/// A character is ASCII exactly where its first byte is, and then it is that
/// byte.
proof fn lemma_bytes_of_char(c: char)
    ensures
        encode_scalar(c as u32).len() > 0,
        encode_scalar(c as u32)[0] <= 0x7f <==> '\0' <= c <= '\u{7f}',
        '\0' <= c <= '\u{7f}' ==> encode_scalar(c as u32) == seq![c as u8] && c as u8 as int
            == c as int,
{
    let u: u32 = c as u32;
    char_is_scalar(c);
    assert(u as int == c as int);
    assert(has_width_1_encoding(u) ==> leading_byte_width_1(u) == u as u8 && u as u8 <= 0x7f)
        by (bit_vector);
    assert(has_width_2_encoding(u) ==> leading_byte_width_2(u) > 0x7f) by (bit_vector);
    assert(has_width_3_encoding(u) ==> leading_byte_width_3(u) > 0x7f) by (bit_vector);
    assert(has_width_4_encoding(u) ==> leading_byte_width_4(u) > 0x7f) by (bit_vector);
    if u <= 0x7f {
        assert(u as u8 as int == u as int);
        assert(encode_scalar(u) =~= seq![c as u8]);
    }
}

proof fn lemma_first_byte(text: Seq<char>)
    requires
        text.len() > 0,
    ensures
        encode_utf8(text).len() > 0,
        encode_utf8(text)[0] <= 0x7f <==> '\0' <= text[0] <= '\u{7f}',
        '\0' <= text[0] <= '\u{7f}' ==> encode_utf8(text)[0] as int == text[0] as int
            && encode_utf8(text).skip(1) == encode_utf8(text.skip(1)),
{
    lemma_bytes_of_char(text[0]);
    let first = encode_scalar(text[0] as u32);
    assert(encode_utf8(text) == first + encode_utf8(text.drop_first()));
    assert(encode_utf8(text)[0] == first[0]);
    assert(text.drop_first() =~= text.skip(1));
    if '\0' <= text[0] <= '\u{7f}' {
        assert(first.len() == 1);
        assert(encode_utf8(text).skip(1) =~= encode_utf8(text.skip(1)));
    }
}

/// Text all of whose bytes are ASCII is ASCII.
proof fn lemma_ascii_bytes(text: Seq<char>)
    requires
        forall|i: int| 0 <= i < encode_utf8(text).len() ==> #[trigger] encode_utf8(text)[i] <= 0x7f,
    ensures
        is_ascii_chars(text),
    decreases text.len(),
{
    if text.len() > 0 {
        lemma_first_byte(text);
        let rest = text.skip(1);
        assert forall|i: int| 0 <= i < encode_utf8(rest).len() implies #[trigger] encode_utf8(
            rest,
        )[i] <= 0x7f by {
            assert(encode_utf8(text).skip(1)[i] == encode_utf8(text)[i + 1]);
        }
        lemma_ascii_bytes(rest);
        assert forall|i: int| 0 <= i < text.len() implies '\0' <= #[trigger] text[i] <= '\u{7f}' by {
            if i > 0 {
                assert(rest[i - 1] == text[i]);
            }
        }
    }
}

/// Text starts with an ASCII prefix exactly where its bytes start with those of
/// the prefix.
pub(crate) proof fn lemma_prefix_of_bytes(text: Seq<char>, prefix: Seq<char>)
    requires
        is_ascii_chars(prefix),
    ensures
        encode_utf8(prefix).is_prefix_of(encode_utf8(text)) <==> prefix.is_prefix_of(text),
        prefix.is_prefix_of(text) ==> encode_utf8(text).skip(prefix.len() as int) == encode_utf8(
            text.skip(prefix.len() as int),
        ),
{
    is_ascii_chars_encode_utf8(prefix);
    if prefix.is_prefix_of(text) {
        let rest = text.skip(prefix.len() as int);
        assert(text =~= prefix + rest);
        lemma_bytes_of_parts(prefix, rest);
        assert(encode_utf8(text).subrange(0, prefix.len() as int) =~= encode_utf8(prefix));
        assert(encode_utf8(text).skip(prefix.len() as int) =~= encode_utf8(rest));
    }
    if encode_utf8(prefix).is_prefix_of(encode_utf8(text)) {
        lemma_prefix_of_chars(text, prefix);
    }
}

proof fn lemma_prefix_of_chars(text: Seq<char>, prefix: Seq<char>)
    requires
        is_ascii_chars(prefix),
        encode_utf8(prefix).is_prefix_of(encode_utf8(text)),
    ensures
        prefix.is_prefix_of(text),
    decreases prefix.len(),
{
    is_ascii_chars_encode_utf8(prefix);
    if prefix.len() > 0 {
        let whole = encode_utf8(text);
        let start = encode_utf8(prefix);
        assert(whole.subrange(0, start.len() as int)[0] == start[0]);
        assert(prefix[0] <= '\u{7f}');
        assert(prefix[0] as u8 <= 0x7f);
        assert(text.len() > 0);
        lemma_first_byte(text);
        lemma_first_byte(prefix);
        let rest = prefix.skip(1);
        assert(is_ascii_chars(rest)) by {
            assert forall|i: int| 0 <= i < rest.len() implies '\0' <= #[trigger] rest[i]
                <= '\u{7f}' by {
                assert(rest[i] == prefix[i + 1]);
            }
        }
        assert(encode_utf8(rest).is_prefix_of(encode_utf8(text.skip(1)))) by {
            assert(encode_utf8(rest) =~= start.skip(1));
            assert(encode_utf8(text.skip(1)) =~= whole.skip(1));
            assert(start.skip(1) =~= whole.skip(1).subrange(0, start.len() - 1)) by {
                assert forall|i: int| 0 <= i < start.len() - 1 implies start.skip(1)[i]
                    == whole.skip(1)[i] by {
                    assert(whole.subrange(0, start.len() as int)[i + 1] == start[i + 1]);
                }
            }
        }
        lemma_prefix_of_chars(text.skip(1), rest);
        assert(text[0] == prefix[0]);
        assert(prefix =~= text.subrange(0, prefix.len() as int)) by {
            assert forall|i: int| 0 <= i < prefix.len() implies prefix[i] == text[i] by {
                if i > 0 {
                    assert(rest[i - 1] == text.skip(1).subrange(0, rest.len() as int)[i - 1]);
                }
            }
        }
    } else {
        assert(prefix =~= text.subrange(0, 0));
    }
}

/// Text is read as `data` exactly where it is the lower case text of `data` but
/// for the case of its digits.
pub proof fn law_text_is_read_in_either_case(text: Seq<char>, data: Seq<u8>)
    ensures
        is_hex(encode_utf8(text)) && hex_bytes(encode_utf8(text)) == data <==> {
            &&& text.len() == hex_text(data).len()
            &&& forall|i: int|
                0 <= i < text.len() ==> (#[trigger] text[i] == hex_text(data)[i] || 'A' <= text[i]
                    <= 'F' && text[i] as int + 32 == hex_text(data)[i] as int)
        },
{
    let bytes = encode_utf8(text);
    let lower = hex_text(data);
    let spelt = text.len() == lower.len() && forall|i: int|
        0 <= i < text.len() ==> (#[trigger] text[i] == lower[i] || 'A' <= text[i] <= 'F'
            && text[i] as int + 32 == lower[i] as int);
    assert forall|i: int| 0 <= i < lower.len() implies '\0' <= #[trigger] lower[i] <= '\u{7f}'
        && is_hex_digit(lower[i] as u8) && hex_value(lower[i] as u8) == (if i % 2 == 0 {
        data[i / 2] as int / 16
    } else {
        data[i / 2] as int % 16
    }) && !('A' <= lower[i] <= 'F') by {
        lemma_digits(data[i / 2] as int / 16);
        lemma_digits(data[i / 2] as int % 16);
    }
    if spelt {
        assert(is_ascii_chars(text));
        is_ascii_chars_encode_utf8(text);
        assert forall|i: int| 0 <= i < bytes.len() implies is_hex_digit(#[trigger] bytes[i])
            && hex_value(bytes[i]) == hex_value(lower[i] as u8) by {
            assert(bytes[i] == text[i] as u8);
        }
        assert forall|i: int| 0 <= i < data.len() implies #[trigger] hex_bytes(bytes)[i]
            == data[i] by {
            assert(hex_value(bytes[2 * i]) == data[i] as int / 16);
            assert(hex_value(bytes[2 * i + 1]) == data[i] as int % 16);
        }
        assert(hex_bytes(bytes) =~= data);
    }
    if is_hex(bytes) && hex_bytes(bytes) == data {
        lemma_ascii_bytes(text);
        is_ascii_chars_encode_utf8(text);
        assert forall|i: int| 0 <= i < text.len() implies (#[trigger] text[i] == lower[i] || 'A'
            <= text[i] <= 'F' && text[i] as int + 32 == lower[i] as int) by {
            let k = i / 2;
            assert(bytes[i] == text[i] as u8);
            assert(is_hex_digit(bytes[2 * k]) && is_hex_digit(bytes[2 * k + 1]));
            assert(hex_bytes(bytes)[k] == data[k]);
            assert(0 <= hex_value(bytes[2 * k]) < 16 && 0 <= hex_value(bytes[2 * k + 1]) < 16);
            assert(data[k] as int / 16 == hex_value(bytes[2 * k]));
            assert(data[k] as int % 16 == hex_value(bytes[2 * k + 1]));
            lemma_same_digit(text[i], hex_value(bytes[i]));
        }
    }
}

proof fn lemma_same_digit(c: char, value: int)
    requires
        c <= '\u{7f}',
        is_hex_digit(c as u8),
        value == hex_value(c as u8),
    ensures
        c == hex_digit(value) || 'A' <= c <= 'F' && c as int + 32 == hex_digit(value) as int,
{
    assert(c as u8 as int == c as int);
}

/// A rendered Ethereum hash is `0x` and the digits of the hash.
pub proof fn law_rendered_hash_is_whole(hash: &[u8], text: String)
    requires
        call_ensures(render_eth_hash, (hash,), text),
    ensures
        text@ == "0x"@ + hex_text(hash@),
{
    law_reported_text_has_its_prefix(hash@);
}

} // verus!
