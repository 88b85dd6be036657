//! Transactions looked up by hash, and the receipts of priority operations.

use vstd::prelude::*;
use vstd::string::*;
use vstd::utf8::*;

use crate::hex_text;
use crate::reply::ErrorReply;

verus! {

broadcast use {
    vstd::string::group_string_axioms,
    encode_utf8_valid_utf8,
    is_char_boundary_start_end_of_seq,
};

/// The bytes of `0x`.
pub open spec fn eth_prefix() -> Seq<u8> {
    seq![0x30, 0x78]
}

/// The bytes of `sync-tx:`.
pub open spec fn sync_tx_prefix() -> Seq<u8> {
    seq![0x73, 0x79, 0x6e, 0x63, 0x2d, 0x74, 0x78, 0x3a]
}

/// The hash that `text` gives behind its first `skipped` bytes, if what
/// stands there is hexadecimal text.
pub open spec fn hash_behind(text: Seq<u8>, skipped: int) -> Option<Seq<u8>> {
    if skipped <= text.len() && hex_text::is_hex(text.skip(skipped)) {
        Some(hex_text::hex_bytes(text.skip(skipped)))
    } else {
        None
    }
}

/// The hash that `text` gives behind a prefix that is not looked at.
pub open spec fn unchecked_hash(text: Seq<u8>) -> Option<Seq<u8>> {
    hash_behind(text, 2)
}

/// The hash that `text` gives behind one of the two known prefixes.
pub open spec fn prefixed_hash(text: Seq<u8>) -> Option<Seq<u8>> {
    if eth_prefix().is_prefix_of(text) {
        hash_behind(text, 2)
    } else if sync_tx_prefix().is_prefix_of(text) {
        hash_behind(text, 8)
    } else {
        None
    }
}

/// Whether `text` can be cut behind its first two bytes: it is shorter, or no
/// character straddles the cut.
pub open spec fn cuttable(text: Seq<char>) -> bool {
    encode_utf8(text).len() >= 2 ==> is_char_boundary(encode_utf8(text), 2)
}

/// The outcome of reading a hash from a request: the hash, or a refusal where
/// there is none.
pub open spec fn hash_outcome(outcome: Result<Vec<u8>, ErrorReply>, hash: Option<Seq<u8>>) -> bool {
    match hash {
        Some(bytes) => outcome matches Ok(found) && found@ == bytes,
        None => outcome == Err::<Vec<u8>, ErrorReply>(ErrorReply::BadRequest),
    }
}

/// A position behind nothing but ASCII is a character boundary.
proof fn lemma_boundary_behind_ascii(text: Seq<u8>, position: int)
    requires
        valid_utf8(text),
        0 <= position <= text.len(),
        forall|i: int| 0 <= i < position ==> #[trigger] text[i] <= 0x7f,
    ensures
        is_char_boundary(text, position),
    decreases position,
{
    if position > 0 {
        assert(text[0] <= 0x7f);
        assert(length_of_first_scalar(text) == 1);
        let rest = pop_first_scalar(text);
        assert forall|i: int| 0 <= i < position - 1 implies #[trigger] rest[i] <= 0x7f by {
            assert(rest[i] == text[i + 1]);
        }
        lemma_boundary_behind_ascii(rest, position - 1);
    }
}

/// Whether `text` starts with `prefix`.
fn starts_with(text: &[u8], prefix: &[u8]) -> (starts: bool)
    ensures
        starts == prefix@.is_prefix_of(text@),
{
    if text.len() < prefix.len() {
        return false;
    }
    let mut i: usize = 0;
    while i < prefix.len()
        invariant
            i <= prefix@.len() <= text@.len(),
            forall|j: int| 0 <= j < i ==> prefix@[j] == text@[j],
        decreases prefix@.len() - i,
    {
        if text[i] != prefix[i] {
            assert(prefix@ != text@.subrange(0, prefix@.len() as int)) by {
                assert(text@.subrange(0, prefix@.len() as int)[i as int] == text@[i as int]);
            }
            return false;
        }
        i += 1;
    }
    assert(prefix@ =~= text@.subrange(0, prefix@.len() as int));
    true
}

/// Decodes what stands behind the first `skipped` bytes of `text`.
fn decode_behind(text: &str, skipped: usize) -> (outcome: Result<Vec<u8>, ErrorReply>)
    requires
        skipped <= text.spec_bytes().len(),
        is_char_boundary(text.spec_bytes(), skipped as int),
    ensures
        hash_outcome(outcome, hash_behind(text.spec_bytes(), skipped as int)),
{
    let (_, digits) = text.split_at(skipped);
    assert(digits.spec_bytes() =~= text.spec_bytes().skip(skipped as int));
    match hex_text::decode(digits) {
        Ok(hash) => Ok(hash),
        Err(_) => Err(ErrorReply::BadRequest),
    }
}

/// Reads the hash that a request for an executed transaction names: the
/// hexadecimal text behind the first two bytes, whatever these are. Shorter
/// text is refused, and so is anything that is not hexadecimal.
///
/// The third byte must not stand inside a character.
pub fn handle_get_executed_transaction_by_hash(tx_hash_hex: &str) -> (outcome: Result<
    Vec<u8>,
    ErrorReply,
>)
    requires
        cuttable(tx_hash_hex@),
    ensures
        hash_outcome(outcome, unchecked_hash(encode_utf8(tx_hash_hex@))),
{
    if tx_hash_hex.as_bytes().len() < 2 {
        return Err(ErrorReply::BadRequest);
    }
    decode_behind(tx_hash_hex, 2)
}

/// Reads the hash that a request for any transaction names: the hexadecimal
/// text behind `0x` or behind `sync-tx:`. Everything else is refused.
pub fn handle_get_tx_by_hash(hash_hex_with_prefix: &str) -> (outcome: Result<Vec<u8>, ErrorReply>)
    ensures
        hash_outcome(outcome, prefixed_hash(encode_utf8(hash_hex_with_prefix@))),
{
    let text = hash_hex_with_prefix.as_bytes();
    if text.len() < 2 {
        return Err(ErrorReply::BadRequest);
    }
    let eth: [u8; 2] = [0x30, 0x78];
    let sync_tx: [u8; 8] = [0x73, 0x79, 0x6e, 0x63, 0x2d, 0x74, 0x78, 0x3a];
    assert(eth@ =~= eth_prefix());
    assert(sync_tx@ =~= sync_tx_prefix());
    if starts_with(text, &eth) {
        proof {
            assert forall|i: int| 0 <= i < 2 implies #[trigger] text@[i] <= 0x7f by {
                assert(text@[i] == eth_prefix()[i]);
            }
            lemma_boundary_behind_ascii(text@, 2);
        }
        decode_behind(hash_hex_with_prefix, 2)
    } else if starts_with(text, &sync_tx) {
        proof {
            assert forall|i: int| 0 <= i < 8 implies #[trigger] text@[i] <= 0x7f by {
                assert(text@[i] == sync_tx_prefix()[i]);
            }
            lemma_boundary_behind_ascii(text@, 8);
        }
        decode_behind(hash_hex_with_prefix, 8)
    } else {
        Err(ErrorReply::BadRequest)
    }
}

/// Replies to a request for an executed transaction with its receipt. A hash
/// that the storage does not know and a query that failed are both answered
/// with nothing, which is no error.
pub fn executed_transaction_reply<T, E>(receipt: Result<Option<T>, E>) -> (reply: Option<T>)
    ensures
        reply == (match receipt {
            Ok(found) => found,
            Err(_) => None,
        }),
{
    match receipt {
        Ok(found) => found,
        Err(_) => None,
    }
}

/// Replies to a request for any transaction with what the storage holds under
/// its hash. A failed query is an internal error.
pub fn tx_by_hash_reply<T, E>(tx: Result<Option<T>, E>) -> (reply: Result<Option<T>, ErrorReply>)
    ensures
        reply == crate::reply::or_reply(tx, ErrorReply::InternalServerError),
{
    crate::reply::query_result(tx)
}

/// Replies to a request for the receipt of a priority operation. A failed
/// query is an internal error.
pub fn handle_get_priority_op_receipt<T, E>(receipt: Result<T, E>) -> (reply: Result<T, ErrorReply>)
    ensures
        reply == crate::reply::or_reply(receipt, ErrorReply::InternalServerError),
{
    crate::reply::query_result(receipt)
}

/// Replies to a request for the transactions of an account. A failed query is
/// an internal error.
pub fn handle_get_account_transactions<T, E>(txs: Result<T, E>) -> (reply: Result<T, ErrorReply>)
    ensures
        reply == crate::reply::or_reply(txs, ErrorReply::InternalServerError),
{
    crate::reply::query_result(txs)
}

/// A hash reported with the prefix `0x` leads back to the same hash, whichever
/// of the two lookups the text is given to.
pub proof fn law_reported_eth_hash_is_found(hash: Seq<u8>)
    ensures
        prefixed_hash(encode_utf8(hex_text::prefixed_hex(hash))) == Some(hash),
        unchecked_hash(encode_utf8(hex_text::prefixed_hex(hash))) == Some(hash),
{
    hex_text::law_decode_undoes_encode(seq!['0', 'x'], hash);
    let text = encode_utf8(hex_text::prefixed_hex(hash));
    assert(text.subrange(0, 2) =~= eth_prefix());
}

/// A hash reported with the prefix `sync-tx:` leads back to the same hash.
pub proof fn law_reported_sync_tx_hash_is_found(hash: Seq<u8>)
    ensures
        prefixed_hash(encode_utf8(hex_text::sync_tx_text(hash))) == Some(hash),
{
    hex_text::law_decode_undoes_encode(seq!['s', 'y', 'n', 'c', '-', 't', 'x', ':'], hash);
    let text = encode_utf8(hex_text::sync_tx_text(hash));
    assert(text.subrange(0, 8) =~= sync_tx_prefix());
    assert(text.subrange(0, 2)[0] != eth_prefix()[0]);
}

/// Behind `0x` the two lookups read the same hash.
pub proof fn law_lookups_agree_behind_eth_prefix(text: Seq<u8>)
    requires
        eth_prefix().is_prefix_of(text),
    ensures
        prefixed_hash(text) == unchecked_hash(text),
{
}

/// A lookup by prefixed hash reads what stands behind the prefix.
pub(crate) proof fn lemma_prefixed_text(text: Seq<char>, data: Seq<u8>)
    ensures
        prefixed_hash(encode_utf8(text)) == Some(data) <==> {
            ||| "0x"@.is_prefix_of(text) && hex_text::is_hex(encode_utf8(text.skip(2)))
                && hex_text::hex_bytes(encode_utf8(text.skip(2))) == data
            ||| "sync-tx:"@.is_prefix_of(text) && hex_text::is_hex(encode_utf8(text.skip(8)))
                && hex_text::hex_bytes(encode_utf8(text.skip(8))) == data
        },
{
    reveal_strlit("0x");
    reveal_strlit("sync-tx:");
    assert(is_ascii_chars("0x"@));
    assert(is_ascii_chars("sync-tx:"@));
    is_ascii_chars_encode_utf8("0x"@);
    is_ascii_chars_encode_utf8("sync-tx:"@);
    assert(encode_utf8("0x"@) =~= eth_prefix()) by {
        assert("0x"@[0] == '0' && "0x"@[1] == 'x');
    }
    assert(encode_utf8("sync-tx:"@) =~= sync_tx_prefix()) by {
        let prefix = "sync-tx:"@;
        assert(prefix[0] == 's' && prefix[1] == 'y' && prefix[2] == 'n' && prefix[3] == 'c');
        assert(prefix[4] == '-' && prefix[5] == 't' && prefix[6] == 'x' && prefix[7] == ':');
    }
    hex_text::lemma_prefix_of_bytes(text, "0x"@);
    hex_text::lemma_prefix_of_bytes(text, "sync-tx:"@);
    if "0x"@.is_prefix_of(text) && "sync-tx:"@.is_prefix_of(text) {
        assert(text.subrange(0, 2)[0] == '0');
        assert(text.subrange(0, 8)[0] == 's');
    }
    if "0x"@.is_prefix_of(text) {
        assert(encode_utf8(text).len() >= 2) by {
            assert(eth_prefix().len() == 2);
        }
    }
    if "sync-tx:"@.is_prefix_of(text) {
        assert(encode_utf8(text).len() >= 8) by {
            assert(sync_tx_prefix().len() == 8);
        }
    }
}

/// A lookup by receipt reads what stands behind the characters that fill the
/// first two bytes.
pub(crate) proof fn lemma_unchecked_text(text: Seq<char>, data: Seq<u8>)
    requires
        cuttable(text),
    ensures
        unchecked_hash(encode_utf8(text)) == Some(data) <==> exists|k: int|
            0 <= k <= text.len() && encode_utf8(#[trigger] text.take(k)).len() == 2
                && hex_text::is_hex(encode_utf8(text.skip(k))) && hex_text::hex_bytes(
                encode_utf8(text.skip(k)),
            ) == data,
{
    let bytes = encode_utf8(text);
    assert forall|k: int|
        0 <= k <= text.len() && encode_utf8(#[trigger] text.take(k)).len() == 2 implies bytes.len()
        >= 2 && bytes.skip(2) == encode_utf8(text.skip(k)) by {
        hex_text::lemma_bytes_of_parts(text.take(k), text.skip(k));
        assert(text =~= text.take(k) + text.skip(k));
        assert(bytes.skip(2) =~= encode_utf8(text.skip(k)));
    }
    if unchecked_hash(bytes) == Some(data) {
        valid_utf8_split(bytes, 2);
        decode_utf8_split(bytes, 2);
        encode_utf8_decode_utf8(text);
        let start = bytes.subrange(0, 2);
        let k = decode_utf8(start).len() as int;
        decode_utf8_encode_utf8(start);
        assert(text == decode_utf8(start) + decode_utf8(bytes.subrange(2, bytes.len() as int)));
        assert(text.take(k) =~= decode_utf8(start));
    }
}

} // verus!
