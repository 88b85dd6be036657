//! How a request is handled from its arrival to its reply.
//!
//! A request is either answered at once or waits for outside work: opening the
//! storage, a query, a question to the watcher of Ethereum. Whoever runs the
//! server performs the work and hands its outcome back, until there is a
//! reply.

use std::collections::HashMap;

use vstd::prelude::*;
use vstd::string::*;

use crate::accounts;
use crate::accounts::{
    handle_get_account_state, AccountStateResponse, PubKeyHash, StoredAccountState,
};
use crate::address::Address;
use crate::blocks;
use crate::blocks::{
    BlockRange, ExecutedOperationWithHash, ExecutedOperations, HandleBlocksQuery,
};
use crate::history;
use crate::history::{HistoryPage, HistoryRequest, PriorityOp, TransactionsHistoryItem};
use crate::reply;
use crate::reply::ErrorReply;
use crate::status::{
    handle_get_network_status, handle_get_testnet_config, NetworkStatus, TestnetConfigResponse,
};
use crate::tokens;
use crate::tokens::Token;
use crate::transactions;

verus! {

/// A request to one of the endpoints. The two that need no storage bring along
/// what the server holds for them.
pub enum Request {
    TestnetConfig { contract_address: String },
    NetworkStatus { network_status: NetworkStatus },
    AccountState { address: Address },
    Tokens,
    AccountTransactions { owner: PubKeyHash },
    AccountTransactionsHistory { address: Address, offset: i64, limit: i64 },
    ExecutedTransactionByHash { tx_hash: String },
    TxByHash { tx_hash: String },
    PriorityOpReceipt { id: u32 },
    TransactionById { block_id: u32, tx_id: u32 },
    BlockTransactions { block_id: u32 },
    BlockById { block_id: u32 },
    Blocks { query: HandleBlocksQuery },
    BlockSearch { text: String },
}

/// A request that was accepted, with what the storage is to be asked for it.
pub enum Accepted {
    AccountState { address: Address },
    Tokens,
    AccountTransactions { owner: PubKeyHash },
    AccountTransactionsHistory { request: HistoryRequest },
    ExecutedTransactionByHash { hash: Vec<u8> },
    TxByHash { hash: Vec<u8> },
    PriorityOpReceipt { id: u32 },
    TransactionById { block_id: u32, tx_id: u32 },
    BlockTransactions { block_id: u32 },
    BlockById { range: BlockRange },
    Blocks { range: BlockRange },
    BlockSearch { text: String },
}

/// How far the handling of a request has come.
pub enum Stage<T, S> {
    /// The storage is to be opened.
    Connect { accepted: Accepted },
    /// The storage is open and is to be asked.
    Ask { accepted: Accepted },
    /// The tokens are loaded; the watcher is to name the ongoing operations.
    AskWatcher { request: HistoryRequest, tokens: HashMap<u16, Token> },
    /// The ongoing deposits are collected; the storage is to give the rest.
    AskHistory { page: HistoryPage },
    /// There is a reply.
    Done { reply: Reply<T, S> },
}

/// The reply to a request.
pub enum Reply<T, S> {
    TestnetConfig(TestnetConfigResponse),
    NetworkStatus(NetworkStatus),
    AccountState(AccountStateResponse<S>),
    Tokens(Vec<Token>),
    History(Vec<TransactionsHistoryItem>),
    /// A record as the storage gave it.
    Record(T),
    /// A record as the storage gave it, or `null`.
    Nullable(Option<T>),
    /// Records as the storage gave them.
    Records(Vec<T>),
    Operation(ExecutedOperations<T>),
    Operations(Vec<ExecutedOperationWithHash<T>>),
    Error(ErrorReply),
}

/// Outside work that a request waits for.
pub enum Work<'a> {
    OpenStorage,
    AccountStateByAddress(&'a Address),
    LoadTokens,
    AccountTransactions(&'a PubKeyHash),
    OngoingPriorityOps,
    AccountTransactionsHistory { address: &'a Address, offset: i64, limit: i64 },
    TxReceipt(&'a Vec<u8>),
    TxByHash(&'a Vec<u8>),
    PriorityOpReceipt(u32),
    BlockExecutedOps(u32),
    LoadBlockRange(BlockRange),
    FindBlockByHeightOrHash(&'a String),
}

/// What came of outside work.
pub enum Outcome<T, S> {
    /// The storage is open.
    Opened,
    AccountState(StoredAccountState<S>),
    Tokens(HashMap<u16, Token>),
    OngoingPriorityOps(Vec<(u64, PriorityOp)>),
    History(Vec<TransactionsHistoryItem>),
    Record(T),
    Nullable(Option<T>),
    Records(Vec<T>),
    ExecutedOps(Vec<ExecutedOperations<T>>),
    /// The work failed.
    Failed,
}

impl Request {
    /// Whether the request can be read: text that a hash is cut from must not
    /// be cut inside a character.
    pub open spec fn readable(self) -> bool {
        self matches Request::ExecutedTransactionByHash { tx_hash } ==> transactions::cuttable(
            tx_hash@,
        )
    }

    /// Whether `stage` is where the handling of this request begins.
    pub open spec fn begins<T, S>(self, stage: Stage<T, S>) -> bool {
        match self {
            Request::TestnetConfig { contract_address } => stage matches Stage::Done {
                reply: Reply::TestnetConfig(config),
            } && config.contract_address@ == contract_address@,
            Request::NetworkStatus { network_status } => stage == (Stage::<T, S>::Done {
                reply: Reply::NetworkStatus(network_status),
            }),
            Request::AccountState { address } => stage == connect::<T, S>(
                Accepted::AccountState { address },
            ),
            Request::Tokens => stage == connect::<T, S>(Accepted::Tokens),
            Request::AccountTransactions { owner } => stage == connect::<T, S>(
                Accepted::AccountTransactions { owner },
            ),
            Request::AccountTransactionsHistory { address, offset, limit } => {
                let query = history::HistoryQuery { address: address@, offset, limit };
                if query.acceptable() {
                    stage matches Stage::Connect {
                        accepted: Accepted::AccountTransactionsHistory { request },
                    } && request@ == query
                } else {
                    stage == error::<T, S>(ErrorReply::BadRequest)
                }
            },
            Request::ExecutedTransactionByHash { tx_hash } => match transactions::unchecked_hash(
                vstd::utf8::encode_utf8(tx_hash@),
            ) {
                Some(bytes) => stage matches Stage::Connect {
                    accepted: Accepted::ExecutedTransactionByHash { hash },
                } && hash@ == bytes,
                None => stage == error::<T, S>(ErrorReply::BadRequest),
            },
            Request::TxByHash { tx_hash } => match transactions::prefixed_hash(
                vstd::utf8::encode_utf8(tx_hash@),
            ) {
                Some(bytes) => stage matches Stage::Connect {
                    accepted: Accepted::TxByHash { hash },
                } && hash@ == bytes,
                None => stage == error::<T, S>(ErrorReply::BadRequest),
            },
            Request::PriorityOpReceipt { id } => stage == connect::<T, S>(
                Accepted::PriorityOpReceipt { id },
            ),
            Request::TransactionById { block_id, tx_id } => stage == connect::<T, S>(
                Accepted::TransactionById { block_id, tx_id },
            ),
            Request::BlockTransactions { block_id } => stage == connect::<T, S>(
                Accepted::BlockTransactions { block_id },
            ),
            Request::BlockById { block_id } => stage == connect::<T, S>(
                Accepted::BlockById { range: BlockRange { max_block: block_id, limit: 1 } },
            ),
            Request::Blocks { query } => {
                let range = blocks::requested_range(query);
                stage == if range.limit > blocks::MAX_BLOCKS {
                    error::<T, S>(ErrorReply::BadRequest)
                } else {
                    connect::<T, S>(Accepted::Blocks { range })
                }
            },
            Request::BlockSearch { text } => stage == connect::<T, S>(
                Accepted::BlockSearch { text },
            ),
        }
    }
}

/// The stage of an accepted request that waits for the storage to be opened.
pub open spec fn connect<T, S>(accepted: Accepted) -> Stage<T, S> {
    Stage::Connect { accepted }
}

/// The stage of a request that has failed.
pub open spec fn error<T, S>(reply: ErrorReply) -> Stage<T, S> {
    Stage::Done { reply: Reply::Error(reply) }
}

/// Begins the handling of a request: it is refused, answered at once, or
/// accepted and then waits for the storage.
pub fn begin<T, S>(request: Request) -> (stage: Stage<T, S>)
    requires
        request.readable(),
    ensures
        request.begins(stage),
{
    match request {
        Request::TestnetConfig { contract_address } => Stage::Done {
            reply: Reply::TestnetConfig(handle_get_testnet_config(&contract_address)),
        },
        Request::NetworkStatus { network_status } => Stage::Done {
            reply: Reply::NetworkStatus(handle_get_network_status(&network_status)),
        },
        Request::AccountState { address } => Stage::Connect {
            accepted: Accepted::AccountState { address },
        },
        Request::Tokens => Stage::Connect { accepted: Accepted::Tokens },
        Request::AccountTransactions { owner } => Stage::Connect {
            accepted: Accepted::AccountTransactions { owner },
        },
        Request::AccountTransactionsHistory { address, offset, limit } => {
            match history::handle_get_account_transactions_history(address, offset, limit) {
                Ok(request) => Stage::Connect {
                    accepted: Accepted::AccountTransactionsHistory { request },
                },
                Err(reply) => Stage::Done { reply: Reply::Error(reply) },
            }
        },
        Request::ExecutedTransactionByHash { tx_hash } => {
            match transactions::handle_get_executed_transaction_by_hash(tx_hash.as_str()) {
                Ok(hash) => Stage::Connect {
                    accepted: Accepted::ExecutedTransactionByHash { hash },
                },
                Err(reply) => Stage::Done { reply: Reply::Error(reply) },
            }
        },
        Request::TxByHash { tx_hash } => {
            match transactions::handle_get_tx_by_hash(tx_hash.as_str()) {
                Ok(hash) => Stage::Connect { accepted: Accepted::TxByHash { hash } },
                Err(reply) => Stage::Done { reply: Reply::Error(reply) },
            }
        },
        Request::PriorityOpReceipt { id } => Stage::Connect {
            accepted: Accepted::PriorityOpReceipt { id },
        },
        Request::TransactionById { block_id, tx_id } => Stage::Connect {
            accepted: Accepted::TransactionById { block_id, tx_id },
        },
        Request::BlockTransactions { block_id } => Stage::Connect {
            accepted: Accepted::BlockTransactions { block_id },
        },
        Request::BlockById { block_id } => Stage::Connect {
            accepted: Accepted::BlockById { range: blocks::handle_get_block_by_id(block_id) },
        },
        Request::Blocks { query } => {
            match blocks::handle_get_blocks(query) {
                Ok(range) => Stage::Connect { accepted: Accepted::Blocks { range } },
                Err(reply) => Stage::Done { reply: Reply::Error(reply) },
            }
        },
        Request::BlockSearch { text } => Stage::Connect {
            accepted: Accepted::BlockSearch { text },
        },
    }
}

impl Accepted {
    /// What the storage is asked first.
    pub open spec fn question(&self) -> Work<'_> {
        match self {
            Accepted::AccountState { address } => Work::AccountStateByAddress(address),
            Accepted::Tokens => Work::LoadTokens,
            Accepted::AccountTransactions { owner } => Work::AccountTransactions(owner),
            Accepted::AccountTransactionsHistory { .. } => Work::LoadTokens,
            Accepted::ExecutedTransactionByHash { hash } => Work::TxReceipt(hash),
            Accepted::TxByHash { hash } => Work::TxByHash(hash),
            Accepted::PriorityOpReceipt { id } => Work::PriorityOpReceipt(*id),
            Accepted::TransactionById { block_id, .. } => Work::BlockExecutedOps(*block_id),
            Accepted::BlockTransactions { block_id } => Work::BlockExecutedOps(*block_id),
            Accepted::BlockById { range } => Work::LoadBlockRange(*range),
            Accepted::Blocks { range } => Work::LoadBlockRange(*range),
            Accepted::BlockSearch { text } => Work::FindBlockByHeightOrHash(text),
        }
    }

    /// Says what the storage is asked first.
    fn ask(&self) -> (work: Work<'_>)
        ensures
            work == self.question(),
    {
        match self {
            Accepted::AccountState { address } => Work::AccountStateByAddress(address),
            Accepted::Tokens => Work::LoadTokens,
            Accepted::AccountTransactions { owner } => Work::AccountTransactions(owner),
            Accepted::AccountTransactionsHistory { .. } => Work::LoadTokens,
            Accepted::ExecutedTransactionByHash { hash } => Work::TxReceipt(hash),
            Accepted::TxByHash { hash } => Work::TxByHash(hash),
            Accepted::PriorityOpReceipt { id } => Work::PriorityOpReceipt(*id),
            Accepted::TransactionById { block_id, .. } => Work::BlockExecutedOps(*block_id),
            Accepted::BlockTransactions { block_id } => Work::BlockExecutedOps(*block_id),
            Accepted::BlockById { range } => Work::LoadBlockRange(*range),
            Accepted::Blocks { range } => Work::LoadBlockRange(*range),
            Accepted::BlockSearch { text } => Work::FindBlockByHeightOrHash(text),
        }
    }
}

impl<T, S> Stage<T, S> {
    /// The outside work that this stage waits for.
    pub open spec fn awaits(&self) -> Option<Work<'_>> {
        match self {
            Stage::Connect { .. } => Some(Work::OpenStorage),
            Stage::Ask { accepted } => Some(accepted.question()),
            Stage::AskWatcher { .. } => Some(Work::OngoingPriorityOps),
            Stage::AskHistory { page } => Some(
                Work::AccountTransactionsHistory {
                    address: &page.address,
                    offset: page.offset,
                    limit: page.limit,
                },
            ),
            Stage::Done { .. } => None,
        }
    }

    /// Says which outside work is to be performed next, if any.
    pub fn work(&self) -> (work: Option<Work<'_>>)
        ensures
            work == self.awaits(),
    {
        match self {
            Stage::Connect { .. } => Some(Work::OpenStorage),
            Stage::Ask { accepted } => Some(accepted.ask()),
            Stage::AskWatcher { .. } => Some(Work::OngoingPriorityOps),
            Stage::AskHistory { page } => Some(
                Work::AccountTransactionsHistory {
                    address: &page.address,
                    offset: page.offset,
                    limit: page.limit,
                },
            ),
            Stage::Done { .. } => None,
        }
    }
}

impl<T, S> Outcome<T, S> {
    /// Whether the outcome can come of `work`. A search for a block finds one
    /// or none, and does not fail.
    pub open spec fn comes_of(self, work: Work<'_>) -> bool {
        match work {
            Work::OpenStorage => self is Opened || self is Failed,
            Work::AccountStateByAddress(_) => self is AccountState || self is Failed,
            Work::LoadTokens => self is Tokens || self is Failed,
            Work::AccountTransactions(_) => self is Record || self is Failed,
            Work::OngoingPriorityOps => self is OngoingPriorityOps || self is Failed,
            Work::AccountTransactionsHistory { .. } => self is History || self is Failed,
            Work::TxReceipt(_) => self is Nullable || self is Failed,
            Work::TxByHash(_) => self is Nullable || self is Failed,
            Work::PriorityOpReceipt(_) => self is Record || self is Failed,
            Work::BlockExecutedOps(_) => self is ExecutedOps || self is Failed,
            Work::LoadBlockRange(_) => self is Records || self is Failed,
            Work::FindBlockByHeightOrHash(_) => self is Nullable,
        }
    }

    /// Whether the hashes in the outcome can be rendered, and the operations
    /// counted.
    pub open spec fn readable(self) -> bool {
        match self {
            Outcome::OngoingPriorityOps(ops) => history::readable(ops@),
            Outcome::ExecutedOps(ops) => forall|i: int|
                0 <= i < ops@.len() ==> blocks::renderable(#[trigger] ops@[i]),
            _ => true,
        }
    }
}

/// The stage of a request that has its reply.
pub open spec fn done<T, S>(reply: Reply<T, S>) -> Stage<T, S> {
    Stage::Done { reply }
}

impl Accepted {
    /// Whether `next` is the stage that the answer to the first question leads
    /// to.
    pub open spec fn answered<T, S: Default>(self, answer: Outcome<T, S>, next: Stage<T, S>) -> bool {
        match (self, answer) {
            (Accepted::AccountState { address }, Outcome::AccountState(stored)) => next matches
                Stage::Done { reply: Reply::AccountState(response) } && accounts::responds(
                response,
                stored,
                address,
            ),
            (Accepted::Tokens, Outcome::Tokens(known)) => next matches Stage::Done {
                reply: Reply::Tokens(listing),
            } && tokens::lists_tokens(listing@, known@),
            (Accepted::AccountTransactions { .. }, Outcome::Record(txs)) => next == done::<T, S>(
                Reply::Record(txs),
            ),
            (
                Accepted::AccountTransactionsHistory { request },
                Outcome::Tokens(tokens),
            ) => next == (Stage::<T, S>::AskWatcher { request, tokens }),
            (Accepted::ExecutedTransactionByHash { .. }, Outcome::Nullable(receipt)) => next
                == done::<T, S>(Reply::Nullable(receipt)),
            (Accepted::TxByHash { .. }, Outcome::Nullable(tx)) => next == done::<T, S>(
                Reply::Nullable(tx),
            ),
            (Accepted::PriorityOpReceipt { .. }, Outcome::Record(receipt)) => next == done::<T, S>(
                Reply::Record(receipt),
            ),
            (Accepted::TransactionById { tx_id, .. }, Outcome::ExecutedOps(ops)) => next == if tx_id
                < ops@.len() {
                done::<T, S>(Reply::Operation(ops@[tx_id as int]))
            } else {
                error::<T, S>(ErrorReply::NotFound)
            },
            (Accepted::BlockTransactions { .. }, Outcome::ExecutedOps(ops)) => next matches
                Stage::Done { reply: Reply::Operations(listed) } && blocks::listed_ops(listed@)
                == blocks::shown_ops(ops@),
            (Accepted::BlockById { .. }, Outcome::Records(found)) => next == if found@.len() > 0 {
                done::<T, S>(Reply::Record(found@.last()))
            } else {
                error::<T, S>(ErrorReply::NotFound)
            },
            (Accepted::Blocks { .. }, Outcome::Records(found)) => next == done::<T, S>(
                Reply::Records(found),
            ),
            (Accepted::BlockSearch { .. }, Outcome::Nullable(found)) => next == (match found {
                Some(block) => done::<T, S>(Reply::Record(block)),
                None => error::<T, S>(ErrorReply::NotFound),
            }),
            _ => false,
        }
    }

    /// The stage that a failure to answer the first question leads to. A
    /// receipt that cannot be had counts as one that does not exist.
    pub open spec fn unanswered<T, S>(self) -> Stage<T, S> {
        match self {
            Accepted::ExecutedTransactionByHash { .. } => done(Reply::Nullable(None)),
            _ => error(ErrorReply::InternalServerError),
        }
    }
}

impl<T, S: Default> Stage<T, S> {
    /// Whether `next` is the stage that the outcome of the awaited work leads
    /// to.
    pub open spec fn leads_to(self, outcome: Outcome<T, S>, next: Stage<T, S>) -> bool {
        match self {
            Stage::Connect { accepted } => next == if outcome is Failed {
                error::<T, S>(ErrorReply::RequestTimeout)
            } else {
                Stage::<T, S>::Ask { accepted }
            },
            Stage::Ask { accepted } => if outcome is Failed {
                next == accepted.unanswered::<T, S>()
            } else {
                accepted.answered(outcome, next)
            },
            Stage::AskWatcher { request, tokens } => match outcome {
                Outcome::OngoingPriorityOps(ops) => next matches Stage::AskHistory { page }
                    && history::is_page(page, request@, ops@, tokens@),
                _ => next == error::<T, S>(ErrorReply::InternalServerError),
            },
            Stage::AskHistory { page } => match outcome {
                Outcome::History(stored) => next matches Stage::Done {
                    reply: Reply::History(items),
                } && items@ == page.items@ + stored@,
                _ => next == error::<T, S>(ErrorReply::InternalServerError),
            },
            Stage::Done { .. } => next == self,
        }
    }

    /// Goes on with the handling of a request, given what came of the work that
    /// it waited for.
    pub fn resume(self, outcome: Outcome<T, S>) -> (next: Stage<T, S>)
        requires
            self.awaits() matches Some(work) && outcome.comes_of(work),
            outcome.readable(),
        ensures
            self.leads_to(outcome, next),
    {
        match self {
            Stage::Connect { accepted } => {
                let connection: Result<(), ()> = match outcome {
                    Outcome::Failed => Err(()),
                    _ => Ok(()),
                };
                match reply::access_storage(connection) {
                    Ok(_) => Stage::Ask { accepted },
                    Err(reply) => Stage::Done { reply: Reply::Error(reply) },
                }
            },
            Stage::Ask { accepted } => accepted.conclude(outcome),
            Stage::AskWatcher { request, tokens } => {
                let ongoing_ops: Result<Vec<(u64, PriorityOp)>, ()> = match outcome {
                    Outcome::OngoingPriorityOps(ops) => Ok(ops),
                    _ => Err(()),
                };
                match request.page(&tokens, ongoing_ops) {
                    Ok(page) => Stage::AskHistory { page },
                    Err(reply) => Stage::Done { reply: Reply::Error(reply) },
                }
            },
            Stage::AskHistory { page } => {
                let stored: Result<Vec<TransactionsHistoryItem>, ()> = match outcome {
                    Outcome::History(stored) => Ok(stored),
                    _ => Err(()),
                };
                match page.reply(stored) {
                    Ok(items) => Stage::Done { reply: Reply::History(items) },
                    Err(reply) => Stage::Done { reply: Reply::Error(reply) },
                }
            },
            Stage::Done { reply } => Stage::Done { reply },
        }
    }
}

impl Accepted {
    /// Goes on with an accepted request, given the answer to the first
    /// question.
    fn conclude<T, S: Default>(self, answer: Outcome<T, S>) -> (next: Stage<T, S>)
        requires
            answer.comes_of(self.question()),
            answer.readable(),
        ensures
            answer is Failed ==> next == self.unanswered::<T, S>(),
            !(answer is Failed) ==> self.answered(answer, next),
    {
        let reply: Result<Reply<T, S>, ErrorReply> = match self {
            Accepted::AccountState { address } => {
                let stored: Result<StoredAccountState<S>, ()> = match answer {
                    Outcome::AccountState(stored) => Ok(stored),
                    _ => Err(()),
                };
                match handle_get_account_state(address, stored) {
                    Ok(response) => Ok(Reply::AccountState(response)),
                    Err(reply) => Err(reply),
                }
            },
            Accepted::Tokens => {
                let known: Result<HashMap<u16, Token>, ()> = match answer {
                    Outcome::Tokens(known) => Ok(known),
                    _ => Err(()),
                };
                match tokens::handle_get_tokens(known) {
                    Ok(listing) => Ok(Reply::Tokens(listing)),
                    Err(reply) => Err(reply),
                }
            },
            Accepted::AccountTransactions { .. } => {
                match transactions::handle_get_account_transactions(answer.record()) {
                    Ok(txs) => Ok(Reply::Record(txs)),
                    Err(reply) => Err(reply),
                }
            },
            Accepted::AccountTransactionsHistory { request } => {
                let known: Result<HashMap<u16, Token>, ()> = match answer {
                    Outcome::Tokens(known) => Ok(known),
                    _ => Err(()),
                };
                match reply::query_result(known) {
                    Ok(tokens) => return Stage::AskWatcher { request, tokens },
                    Err(reply) => Err(reply),
                }
            },
            Accepted::ExecutedTransactionByHash { .. } => Ok(
                Reply::Nullable(transactions::executed_transaction_reply(answer.nullable())),
            ),
            Accepted::TxByHash { .. } => {
                match transactions::tx_by_hash_reply(answer.nullable()) {
                    Ok(tx) => Ok(Reply::Nullable(tx)),
                    Err(reply) => Err(reply),
                }
            },
            Accepted::PriorityOpReceipt { .. } => {
                match transactions::handle_get_priority_op_receipt(answer.record()) {
                    Ok(receipt) => Ok(Reply::Record(receipt)),
                    Err(reply) => Err(reply),
                }
            },
            Accepted::TransactionById { tx_id, .. } => {
                match blocks::handle_get_transaction_by_id(tx_id, answer.executed_ops()) {
                    Ok(op) => Ok(Reply::Operation(op)),
                    Err(reply) => Err(reply),
                }
            },
            Accepted::BlockTransactions { .. } => {
                match blocks::handle_get_block_transactions(answer.executed_ops()) {
                    Ok(listed) => Ok(Reply::Operations(listed)),
                    Err(reply) => Err(reply),
                }
            },
            Accepted::BlockById { .. } => {
                match blocks::block_by_id_reply(answer.records()) {
                    Ok(block) => Ok(Reply::Record(block)),
                    Err(reply) => Err(reply),
                }
            },
            Accepted::Blocks { .. } => {
                match blocks::blocks_reply(answer.records()) {
                    Ok(found) => Ok(Reply::Records(found)),
                    Err(reply) => Err(reply),
                }
            },
            Accepted::BlockSearch { .. } => {
                let found: Option<T> = match answer {
                    Outcome::Nullable(found) => found,
                    _ => None,
                };
                match blocks::handle_block_search(found) {
                    Ok(block) => Ok(Reply::Record(block)),
                    Err(reply) => Err(reply),
                }
            },
        };
        match reply {
            Ok(reply) => Stage::Done { reply },
            Err(reply) => Stage::Done { reply: Reply::Error(reply) },
        }
    }
}

impl<T, S> Outcome<T, S> {
    fn record(self) -> (record: Result<T, ()>)
        ensures
            record == (match self {
                Outcome::Record(record) => Ok::<T, ()>(record),
                _ => Err::<T, ()>(()),
            }),
    {
        match self {
            Outcome::Record(record) => Ok(record),
            _ => Err(()),
        }
    }

    fn nullable(self) -> (record: Result<Option<T>, ()>)
        ensures
            record == (match self {
                Outcome::Nullable(record) => Ok::<Option<T>, ()>(record),
                _ => Err::<Option<T>, ()>(()),
            }),
    {
        match self {
            Outcome::Nullable(record) => Ok(record),
            _ => Err(()),
        }
    }

    fn records(self) -> (records: Result<Vec<T>, ()>)
        ensures
            records == (match self {
                Outcome::Records(records) => Ok::<Vec<T>, ()>(records),
                _ => Err::<Vec<T>, ()>(()),
            }),
    {
        match self {
            Outcome::Records(records) => Ok(records),
            _ => Err(()),
        }
    }

    fn executed_ops(self) -> (ops: Result<Vec<ExecutedOperations<T>>, ()>)
        ensures
            ops == (match self {
                Outcome::ExecutedOps(ops) => Ok::<Vec<ExecutedOperations<T>>, ()>(ops),
                _ => Err::<Vec<ExecutedOperations<T>>, ()>(()),
            }),
    {
        match self {
            Outcome::ExecutedOps(ops) => Ok(ops),
            _ => Err(()),
        }
    }
}

impl<T, S> Stage<T, S> {
    /// How much outside work there still is at most.
    pub open spec fn remaining(self) -> nat {
        match self {
            Stage::Connect { accepted: Accepted::AccountTransactionsHistory { .. } } => 4,
            Stage::Ask { accepted: Accepted::AccountTransactionsHistory { .. } } => 3,
            Stage::AskWatcher { .. } => 2,
            Stage::AskHistory { .. } => 1,
            Stage::Connect { .. } => 2,
            Stage::Ask { .. } => 1,
            Stage::Done { .. } => 0,
        }
    }
}

/// A request is refused, if at all, as a bad request and before the storage is
/// touched; the configuration and the status are answered without it; every
/// other request waits for it to be opened.
pub proof fn law_refusals_come_before_storage<T, S>(request: Request, stage: Stage<T, S>)
    requires
        request.begins(stage),
    ensures
        stage is Done || stage is Connect,
        stage matches Stage::Done { reply: Reply::Error(reply) } ==> reply
            == ErrorReply::BadRequest,
        stage is Done && !(stage->reply is Error) <==> request is TestnetConfig
            || request is NetworkStatus,
        stage.remaining() <= 4,
{
}

/// No list of blocks that the storage is asked for is longer than the maximum,
/// whatever a request says.
pub proof fn law_block_lists_are_limited<T, S>(request: Request, accepted: Accepted)
    requires
        request.begins(connect::<T, S>(accepted)),
    ensures
        accepted.question() matches Work::LoadBlockRange(range) ==> range.limit
            <= blocks::MAX_BLOCKS,
{
}

/// Where no storage can be had, each accepted request times out.
pub proof fn law_no_storage_times_out<T, S: Default>(accepted: Accepted, next: Stage<T, S>)
    requires
        (Stage::<T, S>::Connect { accepted }).leads_to(Outcome::Failed, next),
    ensures
        next == (Stage::<T, S>::Done { reply: Reply::Error(ErrorReply::RequestTimeout) }),
{
}

/// Once the storage is open, a failure ends a request as an internal error, but
/// for the receipt of an executed transaction, which is then `null`.
pub proof fn law_failures_are_internal_errors<T, S: Default>(stage: Stage<T, S>, next: Stage<T, S>)
    requires
        stage is Ask || stage is AskWatcher || stage is AskHistory,
        stage.leads_to(Outcome::Failed, next),
    ensures
        next == if stage is Ask && stage->Ask_accepted is ExecutedTransactionByHash {
            Stage::<T, S>::Done { reply: Reply::Nullable(None) }
        } else {
            Stage::<T, S>::Done { reply: Reply::Error(ErrorReply::InternalServerError) }
        },
{
}

/// Each piece of outside work brings a request closer to its reply: there is
/// always less left to do.
pub proof fn law_handling_comes_to_an_end<T, S: Default>(
    stage: Stage<T, S>,
    outcome: Outcome<T, S>,
    next: Stage<T, S>,
)
    requires
        stage.awaits() matches Some(work) && outcome.comes_of(work),
        stage.leads_to(outcome, next),
    ensures
        next.remaining() < stage.remaining(),
        next.remaining() == 0 <==> next is Done,
{
}

/// A request for a history, all of whose work succeeds, is answered with the
/// requested window of one list: the ongoing deposits of the address followed
/// by what the storage holds. This is for a storage that holds `held` and
/// answers the query it is given with that window of it.
pub proof fn law_history_request_gets_its_window<T, S: Default>(
    address: Address,
    offset: i64,
    limit: i64,
    known: HashMap<u16, Token>,
    ops: Vec<(u64, PriorityOp)>,
    stored: Vec<TransactionsHistoryItem>,
    held: Seq<history::HistoryEntry>,
    stages: Seq<Stage<T, S>>,
)
    requires
        stages.len() == 5,
        ({
            let query = history::HistoryQuery { address: address@, offset, limit };
            &&& query.acceptable()
            &&& offset <= usize::MAX
            &&& (Request::AccountTransactionsHistory { address, offset, limit }).begins(stages[0])
            &&& stages[0].leads_to(Outcome::Opened, stages[1])
            &&& stages[1].leads_to(Outcome::Tokens(known), stages[2])
            &&& stages[2].leads_to(Outcome::OngoingPriorityOps(ops), stages[3])
            &&& stages[3].leads_to(Outcome::History(stored), stages[4])
            &&& stages[3].awaits() matches Some(
                Work::AccountTransactionsHistory { offset, limit, .. },
            ) ==> history::entries(stored@) == history::window(held, offset as int, limit as int)
            &&& history::undisturbed(query, ops@, held)
        }),
    ensures
        stages[4] matches Stage::Done { reply: Reply::History(items) } && history::entries(items@)
            == history::window(
            history::deposits_of(ops@, address@).map_values(
                |op: (u64, PriorityOp)| history::deposit_entry(op.1, known@),
            ) + held,
            offset as int,
            limit as int,
        ),
{
    let query = history::HistoryQuery { address: address@, offset, limit };
    history::law_history_is_one_list(query, ops@, known@, held);
    let page = stages[3]->AskHistory_page;
    assert(history::is_page(page, query, ops@, known@));
    let items = stages[4]->reply->History_0;
    assert(history::entries(items@) =~= history::entries(page.items@) + history::entries(stored@));
}

/// The hash under which a block shows a priority operation can be asked for: the
/// request is accepted, and the storage is asked for the hash of the very
/// Ethereum transaction.
pub proof fn law_shown_hash_can_be_asked_for<T, S>(
    op: blocks::ExecutedPriorityOp<T>,
    tx_hash: String,
    stage: Stage<T, S>,
)
    requires
        tx_hash@ == blocks::shown_hash(ExecutedOperations::PriorityOp(op)),
        (Request::TxByHash { tx_hash }).begins(stage),
    ensures
        stage matches Stage::Connect { accepted: Accepted::TxByHash { hash } } && hash@
            == op.eth_hash@,
{
    blocks::law_shown_priority_op_is_found(op);
}

} // verus!
