//! What whole requests are answered, from their arrival to their reply.
//!
//! Each law follows a request through its stages: `start` is where it begins,
//! `asked` is where it stands once the storage is open, and `end` is where the
//! answer leads.

use std::collections::HashMap;

use vstd::prelude::*;

use crate::accounts::{PubKeyHash, StoredAccountState};
use crate::address::Address;
use crate::blocks;
use crate::blocks::{ExecutedOperations, HandleBlocksQuery};
use crate::handling::{Accepted, Outcome, Reply, Request, Stage, Work};
use crate::hex_text;
use crate::history;
use crate::history::{PriorityOp, TransactionsHistoryItem};
use crate::json;
use crate::reply::ErrorReply;
use crate::status::NetworkStatus;
use crate::tokens;
use crate::tokens::Token;
use crate::transactions;

verus! {

broadcast use vstd::std_specs::hash::group_hash_axioms;

/// The configuration names the contract that the server was started for.
pub proof fn law_configuration_names_the_contract<T, S>(
    contract_address: String,
    start: Stage<T, S>,
)
    requires
        (Request::TestnetConfig { contract_address }).begins(start),
    ensures
        start matches Stage::Done { reply: Reply::TestnetConfig(config) }
            && config.contract_address@ == contract_address@,
{
}

/// The status is reported as it was last published.
pub proof fn law_status_is_reported<T, S>(network_status: NetworkStatus, start: Stage<T, S>)
    requires
        (Request::NetworkStatus { network_status }).begins(start),
    ensures
        start matches Stage::Done { reply: Reply::NetworkStatus(status) } && {
            &&& status.next_block_at_max == network_status.next_block_at_max
            &&& status.last_committed == network_status.last_committed
            &&& status.last_verified == network_status.last_verified
            &&& status.total_transactions == network_status.total_transactions
            &&& status.outstanding_txs == network_status.outstanding_txs
        },
{
}

/// The storage is asked for the account at the requested address. Its committed
/// account is reported as committed and its verified one as verified, never the
/// other way round; the id is that of the committed one. What the storage does
/// not know is reported as a default account at the requested address.
pub proof fn law_account_states_keep_their_places<T, S: Default>(
    address: Address,
    stored: StoredAccountState<S>,
    start: Stage<T, S>,
    asked: Stage<T, S>,
    end: Stage<T, S>,
)
    requires
        (Request::AccountState { address }).begins(start),
        start.leads_to(Outcome::Opened, asked),
        asked.leads_to(Outcome::AccountState(stored), end),
    ensures
        start.awaits() == Some(Work::OpenStorage),
        asked.awaits() == Some(Work::AccountStateByAddress(&address)),
        end matches Stage::Done { reply: Reply::AccountState(response) } && {
            &&& stored.committed matches Some((id, account)) ==> response.id == Some(id)
                && response.commited == account
            &&& stored.committed is None ==> response.id is None && response.commited.address
                == address && call_ensures(S::default, (), response.commited.state)
            &&& stored.verified matches Some((_, account)) ==> response.verified == account
            &&& stored.verified is None ==> response.verified.address == address && call_ensures(
                S::default,
                (),
                response.verified.state,
            )
        },
{
}

/// The tokens that the storage knows are listed, one for each of its keys, and
/// by ascending id.
pub proof fn law_known_tokens_are_listed<T, S: Default>(
    known: HashMap<u16, Token>,
    start: Stage<T, S>,
    asked: Stage<T, S>,
    end: Stage<T, S>,
)
    requires
        Request::Tokens.begins(start),
        start.leads_to(Outcome::Opened, asked),
        asked.leads_to(Outcome::Tokens(known), end),
    ensures
        start.awaits() == Some(Work::OpenStorage),
        asked.awaits() == Some(Work::LoadTokens),
        end matches Stage::Done { reply: Reply::Tokens(listing) } && {
            &&& exists|walk: Seq<u16>|
                {
                    &&& walk.no_duplicates()
                    &&& #[trigger] walk.to_set() == known@.dom()
                    &&& walk.len() == listing@.len()
                    &&& forall|i: int|
                        0 <= i < walk.len() ==> #[trigger] listing@[i] == known@[walk[i]]
                }
            &&& forall|i: int, j: int|
                0 <= i <= j < listing@.len() ==> (#[trigger] listing@[i]).id <= (
                #[trigger] listing@[j]).id
        },
{
    tokens::lemma_listing_is_walked(end->reply->Tokens_0@, known@);
}

/// The storage is asked for the transactions of the requested owner, and its
/// answer is passed on.
pub proof fn law_transactions_of_an_account_are_passed_on<T, S: Default>(
    owner: PubKeyHash,
    txs: T,
    start: Stage<T, S>,
    asked: Stage<T, S>,
    end: Stage<T, S>,
)
    requires
        (Request::AccountTransactions { owner }).begins(start),
        start.leads_to(Outcome::Opened, asked),
        asked.leads_to(Outcome::Record(txs), end),
    ensures
        start.awaits() == Some(Work::OpenStorage),
        asked.awaits() == Some(Work::AccountTransactions(&owner)),
        end == (Stage::<T, S>::Done { reply: Reply::Record(txs) }),
{
}

/// The storage is asked for the receipt of the requested priority operation,
/// and its answer is passed on.
pub proof fn law_priority_op_receipts_are_passed_on<T, S: Default>(
    id: u32,
    receipt: T,
    start: Stage<T, S>,
    asked: Stage<T, S>,
    end: Stage<T, S>,
)
    requires
        (Request::PriorityOpReceipt { id }).begins(start),
        start.leads_to(Outcome::Opened, asked),
        asked.leads_to(Outcome::Record(receipt), end),
    ensures
        start.awaits() == Some(Work::OpenStorage),
        asked.awaits() == Some(Work::PriorityOpReceipt(id)),
        end == (Stage::<T, S>::Done { reply: Reply::Record(receipt) }),
{
}

/// The storage is asked for the operations of the requested block, and the one
/// at the requested position is reported. A position that the block does not
/// have is not found.
pub proof fn law_operations_are_found_by_position<T, S: Default>(
    block_id: u32,
    tx_id: u32,
    ops: Vec<ExecutedOperations<T>>,
    start: Stage<T, S>,
    asked: Stage<T, S>,
    end: Stage<T, S>,
)
    requires
        (Request::TransactionById { block_id, tx_id }).begins(start),
        start.leads_to(Outcome::Opened, asked),
        asked.leads_to(Outcome::ExecutedOps(ops), end),
    ensures
        start.awaits() == Some(Work::OpenStorage),
        asked.awaits() == Some(Work::BlockExecutedOps(block_id)),
        tx_id < ops@.len() ==> end == (Stage::<T, S>::Done {
            reply: Reply::Operation(ops@[tx_id as int]),
        }),
        tx_id >= ops@.len() ==> end == (Stage::<T, S>::Done {
            reply: Reply::Error(ErrorReply::NotFound),
        }),
{
}

/// The storage is asked for the operations of the requested block. All of them
/// but the failed transactions are listed, in their order: a transaction under
/// its whole hash, a priority operation under `0x` and the digits of the hash of
/// its Ethereum transaction.
pub proof fn law_block_operations_are_listed<T, S: Default>(
    block_id: u32,
    ops: Vec<ExecutedOperations<T>>,
    start: Stage<T, S>,
    asked: Stage<T, S>,
    end: Stage<T, S>,
)
    requires
        (Request::BlockTransactions { block_id }).begins(start),
        start.leads_to(Outcome::Opened, asked),
        asked.leads_to(Outcome::ExecutedOps(ops), end),
    ensures
        start.awaits() == Some(Work::OpenStorage),
        asked.awaits() == Some(Work::BlockExecutedOps(block_id)),
        end matches Stage::Done { reply: Reply::Operations(listed) } && {
            &&& listed@.map_values(|item: blocks::ExecutedOperationWithHash<T>| item.op)
                == ops@.filter(
                |op: ExecutedOperations<T>| op matches ExecutedOperations::Tx(tx) ==> tx.has_op,
            )
            &&& forall|i: int|
                0 <= i < listed@.len() ==> match (#[trigger] listed@[i]).op {
                    ExecutedOperations::Tx(tx) => tx.has_op && listed@[i].tx_hash@ == tx.hash@,
                    ExecutedOperations::PriorityOp(op) => listed@[i].tx_hash@ == "0x"@
                        + hex_text::hex_text(op.eth_hash@),
                }
        },
{
    blocks::law_listed_ops_carry_their_hashes(end->reply->Operations_0@, ops@);
}

/// To find one block the storage is asked for one block from its number down.
/// The last block of the answer is reported; where there is none, the block is
/// not found.
pub proof fn law_blocks_are_found_by_number<T, S: Default>(
    block_id: u32,
    found: Vec<T>,
    start: Stage<T, S>,
    asked: Stage<T, S>,
    end: Stage<T, S>,
)
    requires
        (Request::BlockById { block_id }).begins(start),
        start.leads_to(Outcome::Opened, asked),
        asked.leads_to(Outcome::Records(found), end),
    ensures
        start.awaits() == Some(Work::OpenStorage),
        asked.awaits() matches Some(Work::LoadBlockRange(range)) && range.max_block == block_id
            && range.limit == 1,
        found@.len() > 0 ==> end == (Stage::<T, S>::Done {
            reply: Reply::Record(found@[found@.len() - 1]),
        }),
        found@.len() == 0 ==> end == (Stage::<T, S>::Done {
            reply: Reply::Error(ErrorReply::NotFound),
        }),
{
}

/// A request for blocks is refused exactly where it names a limit above a
/// hundred. Otherwise the storage is asked from the block that it names down,
/// whatever its limit, for as many blocks as it names, whatever its block; each
/// default stands in for its own parameter only. The answer is passed on.
pub proof fn law_blocks_are_asked_for_as_named<T, S: Default>(
    query: HandleBlocksQuery,
    found: Vec<T>,
    start: Stage<T, S>,
    asked: Stage<T, S>,
    end: Stage<T, S>,
)
    requires
        (Request::Blocks { query }).begins(start),
        start.leads_to(Outcome::Opened, asked),
        start is Connect ==> asked.leads_to(Outcome::Records(found), end),
    ensures
        query.limit is Some && query.limit->Some_0 > 100 ==> start == (Stage::<T, S>::Done {
            reply: Reply::Error(ErrorReply::BadRequest),
        }),
        !(query.limit is Some && query.limit->Some_0 > 100) ==> {
            &&& start.awaits() == Some(Work::OpenStorage)
            &&& asked.awaits() matches Some(Work::LoadBlockRange(range)) && {
                &&& query.max_block matches Some(max_block) ==> range.max_block == max_block
                &&& query.max_block is None ==> range.max_block == 999_999_999
                &&& query.limit matches Some(limit) ==> range.limit == limit
                &&& query.limit is None ==> range.limit == 20
            }
            &&& end == (Stage::<T, S>::Done { reply: Reply::Records(found) })
        },
{
}

/// The storage is asked with the very text of the search, and the block that it
/// finds is reported. Where it finds none, the block is not found.
pub proof fn law_searches_report_what_is_found<T, S: Default>(
    text: String,
    found: Option<T>,
    start: Stage<T, S>,
    asked: Stage<T, S>,
    end: Stage<T, S>,
)
    requires
        (Request::BlockSearch { text }).begins(start),
        start.leads_to(Outcome::Opened, asked),
        asked.leads_to(Outcome::Nullable(found), end),
    ensures
        start.awaits() == Some(Work::OpenStorage),
        asked.awaits() == Some(Work::FindBlockByHeightOrHash(&text)),
        found matches Some(block) ==> end == (Stage::<T, S>::Done { reply: Reply::Record(block) }),
        found is None ==> end == (Stage::<T, S>::Done {
            reply: Reply::Error(ErrorReply::NotFound),
        }),
{
}

/// Any transaction can be looked up by its hash: behind `0x` as behind
/// `sync-tx:`, the lower case digits of a hash lead to a storage that is asked
/// for exactly that hash, and its answer is passed on.
pub proof fn law_transactions_are_found_by_hash<T, S: Default>(
    tx_hash: String,
    data: Seq<u8>,
    found: Option<T>,
    start: Stage<T, S>,
    asked: Stage<T, S>,
    end: Stage<T, S>,
)
    requires
        tx_hash@ == "0x"@ + hex_text::hex_text(data) || tx_hash@ == "sync-tx:"@
            + hex_text::hex_text(data),
        (Request::TxByHash { tx_hash }).begins(start),
        start.leads_to(Outcome::Opened, asked),
        asked.leads_to(Outcome::Nullable(found), end),
    ensures
        start.awaits() == Some(Work::OpenStorage),
        asked.awaits() matches Some(Work::TxByHash(hash)) && hash@ == data,
        end == (Stage::<T, S>::Done { reply: Reply::Nullable(found) }),
{
    hex_text::law_reported_text_has_its_prefix(data);
    transactions::law_reported_eth_hash_is_found(data);
    transactions::law_reported_sync_tx_hash_is_found(data);
}

/// A lookup of any transaction reads digits of either case behind `0x` or
/// `sync-tx:`, and accepts nothing else: every other text is refused.
pub proof fn law_lookups_accept_prefixed_digits_only<T, S>(
    tx_hash: String,
    data: Seq<u8>,
    start: Stage<T, S>,
)
    requires
        (Request::TxByHash { tx_hash }).begins(start),
    ensures
        (start matches Stage::Connect { accepted: Accepted::TxByHash { hash } } && hash@ == data)
            <==> {
            let lower = hex_text::hex_text(data);
            let eth = tx_hash@.skip(2);
            let sync_tx = tx_hash@.skip(8);
            ||| {
                &&& "0x"@.is_prefix_of(tx_hash@)
                &&& eth.len() == lower.len()
                &&& forall|i: int|
                    0 <= i < eth.len() ==> (#[trigger] eth[i] == lower[i] || 'A' <= eth[i] <= 'F'
                        && eth[i] as int + 32 == lower[i] as int)
            }
            ||| {
                &&& "sync-tx:"@.is_prefix_of(tx_hash@)
                &&& sync_tx.len() == lower.len()
                &&& forall|i: int|
                    0 <= i < sync_tx.len() ==> (#[trigger] sync_tx[i] == lower[i] || 'A' <= sync_tx[i] <= 'F'
                        && sync_tx[i] as int + 32 == lower[i] as int)
            }
        },
        !(start matches Stage::Connect { accepted: Accepted::TxByHash { .. } }) ==> start == (
        Stage::<T, S>::Done { reply: Reply::Error(ErrorReply::BadRequest) }),
{
    transactions::lemma_prefixed_text(tx_hash@, data);
    hex_text::law_text_is_read_in_either_case(tx_hash@.skip(2), data);
    hex_text::law_text_is_read_in_either_case(tx_hash@.skip(8), data);
}

/// The receipt of an executed transaction can be asked for by its hash: behind
/// any two ASCII characters, the lower case digits of a hash lead to a storage
/// that is asked for exactly that hash, and its answer is passed on.
pub proof fn law_receipts_are_found_by_hash<T, S: Default>(
    tx_hash: String,
    prefix: Seq<char>,
    data: Seq<u8>,
    receipt: Option<T>,
    start: Stage<T, S>,
    asked: Stage<T, S>,
    end: Stage<T, S>,
)
    requires
        prefix.len() == 2,
        vstd::utf8::is_ascii_chars(prefix),
        tx_hash@ == prefix + hex_text::hex_text(data),
        (Request::ExecutedTransactionByHash { tx_hash }).begins(start),
        start.leads_to(Outcome::Opened, asked),
        asked.leads_to(Outcome::Nullable(receipt), end),
    ensures
        start.awaits() == Some(Work::OpenStorage),
        asked.awaits() matches Some(Work::TxReceipt(hash)) && hash@ == data,
        end == (Stage::<T, S>::Done { reply: Reply::Nullable(receipt) }),
{
    hex_text::law_decode_undoes_encode(prefix, data);
}

/// A request for a receipt reads digits of either case behind the characters
/// that fill the first two bytes, and accepts nothing else: every other text is
/// refused.
pub proof fn law_receipts_accept_digits_only<T, S>(
    tx_hash: String,
    data: Seq<u8>,
    start: Stage<T, S>,
)
    requires
        (Request::ExecutedTransactionByHash { tx_hash }).readable(),
        (Request::ExecutedTransactionByHash { tx_hash }).begins(start),
    ensures
        (start matches Stage::Connect { accepted: Accepted::ExecutedTransactionByHash { hash } }
            && hash@ == data) <==> exists|k: int|
            {
                let lower = hex_text::hex_text(data);
                let digits = tx_hash@.skip(k);
                &&& 0 <= k <= tx_hash@.len()
                &&& vstd::utf8::encode_utf8(#[trigger] tx_hash@.take(k)).len() == 2
                &&& digits.len() == lower.len()
                &&& forall|i: int|
                    0 <= i < digits.len() ==> (#[trigger] digits[i] == lower[i] || 'A' <= digits[i]
                        <= 'F' && digits[i] as int + 32 == lower[i] as int)
            },
        !(start matches Stage::Connect { accepted: Accepted::ExecutedTransactionByHash { .. } })
            ==> start == (Stage::<T, S>::Done { reply: Reply::Error(ErrorReply::BadRequest) }),
{
    transactions::lemma_unchecked_text(tx_hash@, data);
    assert forall|k: int|
        #![trigger tx_hash@.take(k)]
        {
            let lower = hex_text::hex_text(data);
            let digits = tx_hash@.skip(k);
            let bytes = vstd::utf8::encode_utf8(digits);
            hex_text::is_hex(bytes) && hex_text::hex_bytes(bytes) == data <==> {
                &&& digits.len() == lower.len()
                &&& forall|i: int|
                    0 <= i < digits.len() ==> (#[trigger] digits[i] == lower[i] || 'A' <= digits[i]
                        <= 'F' && digits[i] as int + 32 == lower[i] as int)
            }
        } by {
        hex_text::law_text_is_read_in_either_case(tx_hash@.skip(k), data);
    }
}

/// The hash under which a block lists an operation leads back to it: asked for
/// any transaction with that hash, the storage is asked for the hash of the
/// Ethereum transaction of a priority operation, and for the hash that a
/// transaction shows behind `sync-tx:`.
pub proof fn law_listed_hashes_can_be_looked_up<T, S: Default>(
    block_id: u32,
    ops: Vec<ExecutedOperations<T>>,
    listing: (Stage<T, S>, Stage<T, S>, Stage<T, S>),
    i: int,
    data: Seq<u8>,
    start: Stage<T, S>,
    asked: Stage<T, S>,
)
    requires
        (Request::BlockTransactions { block_id }).begins(listing.0),
        listing.0.leads_to(Outcome::Opened, listing.1),
        listing.1.leads_to(Outcome::ExecutedOps(ops), listing.2),
        0 <= i < listing.2->reply->Operations_0@.len(),
        match listing.2->reply->Operations_0@[i].op {
            ExecutedOperations::Tx(tx) => tx.hash@ == "sync-tx:"@ + hex_text::hex_text(data),
            ExecutedOperations::PriorityOp(op) => op.eth_hash@ == data,
        },
        (Request::TxByHash { tx_hash: listing.2->reply->Operations_0@[i].tx_hash }).begins(start),
        start.leads_to(Outcome::Opened, asked),
    ensures
        start.awaits() == Some(Work::OpenStorage),
        asked.awaits() matches Some(Work::TxByHash(hash)) && hash@ == data,
{
    law_block_operations_are_listed(block_id, ops, listing.0, listing.1, listing.2);
    hex_text::law_reported_text_has_its_prefix(data);
    transactions::law_reported_eth_hash_is_found(data);
    transactions::law_reported_sync_tx_hash_is_found(data);
}

/// A request for a history is accepted exactly where its offset is not negative
/// and its limit lies between zero and a hundred. Otherwise it is refused.
pub proof fn law_histories_are_limited<T, S>(
    address: Address,
    offset: i64,
    limit: i64,
    start: Stage<T, S>,
)
    requires
        (Request::AccountTransactionsHistory { address, offset, limit }).begins(start),
    ensures
        0 <= offset && 0 <= limit <= 100 ==> start.awaits() == Some(Work::OpenStorage),
        !(0 <= offset && 0 <= limit <= 100) ==> start == (Stage::<T, S>::Done {
            reply: Reply::Error(ErrorReply::BadRequest),
        }),
{
}

/// A request for a history asks for the tokens, then for the ongoing operations,
/// then for what is stored. It reports the deposits of the address that lie
/// behind the offset and within the limit, each under its own hash and with the
/// symbol of its own token, and behind them what the storage gave. Once a
/// deposit is reported, the storage is asked from its beginning for what is left
/// of the limit; otherwise for the whole limit, from the offset less the number
/// of ongoing operations.
pub proof fn law_histories_report_deposits_first<T, S: Default>(
    address: Address,
    offset: i64,
    limit: i64,
    known: HashMap<u16, Token>,
    ops: Vec<(u64, PriorityOp)>,
    stored: Vec<TransactionsHistoryItem>,
    stages: Seq<Stage<T, S>>,
)
    requires
        0 <= offset,
        0 <= limit <= 100,
        stages.len() == 5,
        (Request::AccountTransactionsHistory { address, offset, limit }).begins(stages[0]),
        stages[0].leads_to(Outcome::Opened, stages[1]),
        stages[1].leads_to(Outcome::Tokens(known), stages[2]),
        stages[2].leads_to(Outcome::OngoingPriorityOps(ops), stages[3]),
        stages[3].leads_to(Outcome::History(stored), stages[4]),
    ensures
        stages[0].awaits() == Some(Work::OpenStorage),
        stages[1].awaits() == Some(Work::LoadTokens),
        stages[2].awaits() == Some(Work::OngoingPriorityOps),
        stages[3].awaits() matches Some(
            Work::AccountTransactionsHistory { address: asked, offset: from, limit: left },
        ) && stages[4] matches Stage::Done { reply: Reply::History(items) } && {
            let deposits = history::deposits_of(ops@, address.bytes@);
            let behind = deposits.len() - (offset as usize);
            let reported = items@.len() - stored@.len();
            &&& reported == if behind <= 0 {
                0
            } else if behind <= limit {
                behind
            } else {
                limit as int
            }
            &&& items@.skip(reported) == stored@
            &&& asked.bytes@ == address.bytes@
            &&& reported > 0 ==> from == 0
            &&& reported == 0 ==> from == offset - ops@.len()
            &&& left == limit - reported
            &&& forall|i: int|
                0 <= i < reported ==> {
                    let op = deposits[(offset as usize) + i].1;
                    &&& (#[trigger] items@[i])@ == history::deposit_entry(op, known@)
                    &&& items@[i].hash matches Some(hash) && hash@ == "0x"@ + hex_text::hex_text(
                        op.eth_hash@,
                    )
                    &&& op.data matches history::FranklinPriorityOp::Deposit(deposit)
                        && json::json_of(items@[i].tx) matches json::Json::Object(tx)
                        && tx["priority_op"@] matches json::Json::Object(transfer) && {
                        &&& transfer["amount"@] == json::Json::Text(deposit.amount@)
                        &&& known@.dom().contains(deposit.token) ==> transfer["token"@]
                            == json::Json::Text(known@[deposit.token].symbol@)
                        &&& !known@.dom().contains(deposit.token) ==> transfer["token"@]
                            == json::Json::Text("unknown"@)
                    }
                }
        },
{
    let page = stages[3]->AskHistory_page;
    let items = stages[4]->reply->History_0;
    history::law_page_reports_from_the_offset(page, address, offset, limit, ops@, known@);
    let deposits = history::deposits_of(ops@, address.bytes@);
    let reported = items@.len() - stored@.len();
    assert(reported == page.items@.len());
    assert(items@.skip(reported) =~= stored@);
    assert forall|i: int| 0 <= i < reported implies {
        let op = deposits[(offset as usize) + i].1;
        &&& (#[trigger] items@[i])@ == history::deposit_entry(op, known@)
        &&& items@[i].hash matches Some(hash) && hash@ == "0x"@ + hex_text::hex_text(op.eth_hash@)
        &&& op.data matches history::FranklinPriorityOp::Deposit(deposit) && json::json_of(
            items@[i].tx,
        ) matches json::Json::Object(tx) && tx["priority_op"@] matches json::Json::Object(transfer)
            && {
            &&& transfer["amount"@] == json::Json::Text(deposit.amount@)
            &&& known@.dom().contains(deposit.token) ==> transfer["token"@] == json::Json::Text(
                known@[deposit.token].symbol@,
            )
            &&& !known@.dom().contains(deposit.token) ==> transfer["token"@] == json::Json::Text(
                "unknown"@,
            )
        }
    } by {
        let op = deposits[(offset as usize) + i].1;
        assert(items@[i] == page.items@[i]);
        history::law_entry_describes_its_deposit(items@[i], op, op.data->Deposit_0, known@);
    }
}

/// Each piece of work ends in its own kind of outcome or fails, but for the
/// search for a block, which does not fail.
pub proof fn law_outcomes_come_of_their_work<T, S>(outcome: Outcome<T, S>, work: Work<'_>)
    ensures
        outcome.comes_of(work) <==> {
            ||| outcome is Failed && !(work is FindBlockByHeightOrHash)
            ||| outcome is Opened && work is OpenStorage
            ||| outcome is AccountState && work is AccountStateByAddress
            ||| outcome is Tokens && work is LoadTokens
            ||| outcome is OngoingPriorityOps && work is OngoingPriorityOps
            ||| outcome is History && work is AccountTransactionsHistory
            ||| outcome is Record && (work is AccountTransactions || work is PriorityOpReceipt)
            ||| outcome is Nullable && (work is TxReceipt || work is TxByHash
                || work is FindBlockByHeightOrHash)
            ||| outcome is ExecutedOps && work is BlockExecutedOps
            ||| outcome is Records && work is LoadBlockRange
        },
{
}

/// Every request can be begun but one: for a receipt, with text whose third byte
/// stands inside a character.
pub proof fn law_nearly_all_requests_can_be_begun(request: Request)
    ensures
        request.readable() <==> !(request matches Request::ExecutedTransactionByHash { tx_hash }
            && vstd::utf8::encode_utf8(tx_hash@).len() >= 2 && !vstd::utf8::is_char_boundary(
            vstd::utf8::encode_utf8(tx_hash@),
            2,
        )),
{
}

/// Every outcome can be handed back whose operations can be counted and whose
/// hashes can be written out within the bounds of memory.
pub proof fn law_outcomes_can_be_handed_back<T, S>(outcome: Outcome<T, S>)
    ensures
        outcome.readable() <==> match outcome {
            Outcome::OngoingPriorityOps(ops) => ops@.len() <= i64::MAX && forall|i: int|
                0 <= i < ops@.len() ==> 2 * (#[trigger] ops@[i]).1.eth_hash@.len() + 2
                    <= isize::MAX,
            Outcome::ExecutedOps(ops) => forall|i: int|
                0 <= i < ops@.len() ==> (#[trigger] ops@[i] matches ExecutedOperations::PriorityOp(
                    op,
                ) ==> 2 * op.eth_hash@.len() + 2 <= isize::MAX),
            _ => true,
        },
{
}

} // verus!
