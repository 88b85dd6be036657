use std::collections::HashMap;

use rest_api::accounts::{PubKeyHash, StoredAccountState};
use rest_api::address::Address;
use rest_api::blocks::{
    BlockRange, ExecutedOperations, ExecutedPriorityOp, HandleBlocksQuery,
};
use rest_api::handling::{begin, Outcome, Reply, Request, Stage, Work};
use rest_api::reply::ErrorReply;
use rest_api::routes::{routes, Endpoint, CORS_MAX_AGE, ICON, SCOPE, SHUTDOWN_TIMEOUT};
use rest_api::status::{
    handle_get_network_status, handle_get_testnet_config, NetworkStatus, UpdaterEvent,
    UpdaterStep,
};
use rest_api::tokens::Token;

fn start(request: Request) -> Stage<u8, u32> {
    begin(request)
}

fn error(stage: Stage<u8, u32>) -> Option<ErrorReply> {
    match stage {
        Stage::Done { reply: Reply::Error(reply) } => Some(reply),
        _ => None,
    }
}

fn opened(request: Request) -> Stage<u8, u32> {
    let stage = start(request);
    assert!(matches!(stage.work(), Some(Work::OpenStorage)));
    stage.resume(Outcome::Opened)
}

fn address() -> Address {
    Address { bytes: [4; 20] }
}

#[test]
fn configuration_and_status_need_no_storage() {
    match start(Request::TestnetConfig { contract_address: "0xcc".to_string() }) {
        Stage::Done { reply: Reply::TestnetConfig(config) } => {
            assert_eq!(config.contract_address, "0xcc")
        }
        _ => panic!("no configuration"),
    }
    let status = NetworkStatus { last_committed: 3, ..NetworkStatus::default() };
    match start(Request::NetworkStatus { network_status: status }) {
        Stage::Done { reply: Reply::NetworkStatus(reported) } => assert_eq!(reported, status),
        _ => panic!("no status"),
    }
    assert_eq!(handle_get_testnet_config(&"0xdd".to_string()).contract_address, "0xdd");
    assert_eq!(handle_get_network_status(&status), status);
}

#[test]
fn bad_requests_are_refused_at_once() {
    let refused = vec![
        Request::AccountTransactionsHistory { address: address(), offset: -1, limit: 1 },
        Request::AccountTransactionsHistory { address: address(), offset: 0, limit: 101 },
        Request::ExecutedTransactionByHash { tx_hash: "0".to_string() },
        Request::TxByHash { tx_hash: "xyz".to_string() },
        Request::Blocks { query: HandleBlocksQuery { max_block: None, limit: Some(101) } },
    ];
    for request in refused {
        assert_eq!(error(start(request)), Some(ErrorReply::BadRequest));
    }
}

fn accepted_requests() -> Vec<Request> {
    vec![
        Request::AccountState { address: address() },
        Request::Tokens,
        Request::AccountTransactions { owner: PubKeyHash { bytes: [5; 20] } },
        Request::AccountTransactionsHistory { address: address(), offset: 0, limit: 10 },
        Request::ExecutedTransactionByHash { tx_hash: "0x01".to_string() },
        Request::TxByHash { tx_hash: "0x01".to_string() },
        Request::PriorityOpReceipt { id: 3 },
        Request::TransactionById { block_id: 1, tx_id: 2 },
        Request::BlockTransactions { block_id: 1 },
        Request::BlockById { block_id: 1 },
        Request::Blocks { query: HandleBlocksQuery { max_block: None, limit: None } },
        Request::BlockSearch { text: "17".to_string() },
    ]
}

#[test]
fn no_storage_times_out() {
    for request in accepted_requests() {
        let stage = start(request);
        assert!(matches!(stage.work(), Some(Work::OpenStorage)));
        assert_eq!(error(stage.resume(Outcome::Failed)), Some(ErrorReply::RequestTimeout));
    }
}

#[test]
fn failed_queries_end_requests() {
    for request in accepted_requests() {
        let is_receipt = matches!(request, Request::ExecutedTransactionByHash { .. });
        if matches!(request, Request::BlockSearch { .. }) {
            continue;
        }
        let next = opened(request).resume(Outcome::Failed);
        if is_receipt {
            assert!(matches!(next, Stage::Done { reply: Reply::Nullable(None) }));
        } else {
            assert_eq!(error(next), Some(ErrorReply::InternalServerError));
        }
    }
}

#[test]
fn each_request_asks_its_question() {
    for request in accepted_requests() {
        let kind = match &request {
            Request::AccountState { .. } => 0,
            Request::Tokens => 1,
            Request::AccountTransactions { .. } => 2,
            Request::AccountTransactionsHistory { .. } => 1,
            Request::ExecutedTransactionByHash { .. } => 3,
            Request::TxByHash { .. } => 4,
            Request::PriorityOpReceipt { .. } => 5,
            Request::TransactionById { .. } => 6,
            Request::BlockTransactions { .. } => 6,
            Request::BlockById { .. } => 7,
            Request::Blocks { .. } => 8,
            _ => 9,
        };
        let stage = opened(request);
        let asked = match stage.work() {
            Some(Work::AccountStateByAddress(a)) if *a == address() => 0,
            Some(Work::LoadTokens) => 1,
            Some(Work::AccountTransactions(hash)) if hash.bytes == [5; 20] => 2,
            Some(Work::TxReceipt(hash)) if *hash == vec![1] => 3,
            Some(Work::TxByHash(hash)) if *hash == vec![1] => 4,
            Some(Work::PriorityOpReceipt(3)) => 5,
            Some(Work::BlockExecutedOps(1)) => 6,
            Some(Work::LoadBlockRange(BlockRange { max_block: 1, limit: 1 })) => 7,
            Some(Work::LoadBlockRange(BlockRange { max_block: 999_999_999, limit: 20 })) => 8,
            Some(Work::FindBlockByHeightOrHash(text)) if text == "17" => 9,
            _ => 10,
        };
        assert_eq!(asked, kind);
    }
}

#[test]
fn answers_become_replies() {
    let stored = StoredAccountState { committed: None, verified: None };
    match opened(Request::AccountState { address: address() }).resume(Outcome::AccountState(stored)) {
        Stage::Done { reply: Reply::AccountState(response) } => {
            assert_eq!(response.commited.address, address())
        }
        _ => panic!("no account state"),
    }
    let mut tokens = HashMap::new();
    tokens.insert(1, Token { id: 1, address: address(), symbol: "T".to_string() });
    match opened(Request::Tokens).resume(Outcome::Tokens(tokens)) {
        Stage::Done { reply: Reply::Tokens(listing) } => assert_eq!(listing.len(), 1),
        _ => panic!("no tokens"),
    }
    let found = opened(Request::TxByHash { tx_hash: "0x01".to_string() });
    assert!(matches!(
        found.resume(Outcome::Nullable(Some(6))),
        Stage::Done { reply: Reply::Nullable(Some(6)) }
    ));
    let receipt = opened(Request::PriorityOpReceipt { id: 3 });
    assert!(matches!(
        receipt.resume(Outcome::Record(8)),
        Stage::Done { reply: Reply::Record(8) }
    ));
    let block = opened(Request::BlockById { block_id: 1 });
    assert!(matches!(
        block.resume(Outcome::Records(vec![7])),
        Stage::Done { reply: Reply::Record(7) }
    ));
    let no_block = opened(Request::BlockById { block_id: 1 });
    assert_eq!(error(no_block.resume(Outcome::Records(vec![]))), Some(ErrorReply::NotFound));
    let search = opened(Request::BlockSearch { text: "17".to_string() });
    assert_eq!(error(search.resume(Outcome::Nullable(None))), Some(ErrorReply::NotFound));
    let by_id = opened(Request::TransactionById { block_id: 1, tx_id: 0 });
    let op = ExecutedOperations::PriorityOp(ExecutedPriorityOp { eth_hash: vec![1], record: 5 });
    match by_id.resume(Outcome::ExecutedOps(vec![op])) {
        Stage::Done { reply: Reply::Operation(ExecutedOperations::PriorityOp(op)) } => {
            assert_eq!(op.record, 5)
        }
        _ => panic!("no operation"),
    }
    let ops = opened(Request::BlockTransactions { block_id: 1 });
    let op = ExecutedOperations::PriorityOp(ExecutedPriorityOp { eth_hash: vec![1], record: 5 });
    match ops.resume(Outcome::ExecutedOps(vec![op])) {
        Stage::Done { reply: Reply::Operations(listed) } => assert_eq!(listed[0].tx_hash, "0x01"),
        _ => panic!("no operations"),
    }
}

#[test]
fn history_is_handled_in_four_steps() {
    let request = Request::AccountTransactionsHistory { address: address(), offset: 6, limit: 10 };
    let stage = opened(request).resume(Outcome::Tokens(HashMap::new()));
    assert!(matches!(stage.work(), Some(Work::OngoingPriorityOps)));
    let stage = stage.resume(Outcome::OngoingPriorityOps(vec![]));
    match stage.work() {
        Some(Work::AccountTransactionsHistory { address: asked, offset, limit }) => {
            assert_eq!(*asked, address());
            assert_eq!((offset, limit), (6, 10));
        }
        _ => panic!("no question"),
    }
    let stage = stage.resume(Outcome::History(vec![]));
    assert!(stage.work().is_none());
    assert!(matches!(stage, Stage::Done { reply: Reply::History(_) }));
}

#[test]
fn shown_hash_can_be_asked_for() {
    let ops = opened(Request::BlockTransactions { block_id: 1 });
    let op = ExecutedOperations::PriorityOp(ExecutedPriorityOp { eth_hash: vec![1, 0xef], record: 5 });
    let tx_hash = match ops.resume(Outcome::ExecutedOps(vec![op])) {
        Stage::Done { reply: Reply::Operations(listed) } => listed[0].tx_hash.clone(),
        _ => panic!("no operations"),
    };
    let stage = opened(Request::TxByHash { tx_hash });
    match stage.work() {
        Some(Work::TxByHash(hash)) => assert_eq!(*hash, vec![1, 0xef]),
        _ => panic!("no question"),
    }
}

#[test]
fn updater_publishes_the_answers() {
    let mut step = UpdaterStep::Wait;
    for event in [
        UpdaterEvent::Done,
        UpdaterEvent::Opened(true),
        UpdaterEvent::Answered(Some(4)),
        UpdaterEvent::Answered(Some(6)),
        UpdaterEvent::Answered(None),
    ] {
        step = step.next(event);
    }
    assert_eq!(
        step,
        UpdaterStep::AskOutstandingProofs {
            last_verified: 4,
            last_committed: 6,
            total_transactions: 0
        }
    );
    step = step.next(UpdaterEvent::Answered(Some(9)));
    let status = NetworkStatus {
        next_block_at_max: None,
        last_committed: 6,
        last_verified: 4,
        total_transactions: 0,
        outstanding_txs: 9,
    };
    assert_eq!(step, UpdaterStep::Publish { status });
    assert_eq!(step.next(UpdaterEvent::Done), UpdaterStep::Wait);
}

#[test]
fn updater_gives_up_without_storage() {
    assert_eq!(UpdaterStep::OpenStorage.next(UpdaterEvent::Opened(false)), UpdaterStep::GiveUp);
}

#[test]
fn failed_verified_block_counts_as_zero() {
    assert_eq!(
        UpdaterStep::AskLastVerified.next(UpdaterEvent::Answered(None)),
        UpdaterStep::AskLastCommitted { last_verified: 0 }
    );
}

#[test]
fn routes_are_listed_in_order() {
    let table = routes();
    assert_eq!(table.len(), 15);
    assert_eq!(table[0].path, "/blocks/{block_id}/transactions");
    assert_eq!(table[0].endpoint, Endpoint::BlockTransactions);
    assert_eq!(table[9].path, "/priority_operations/{pq_id}/");
    assert_eq!(table[11].path, table[0].path);
    assert_eq!(table[11].endpoint, table[0].endpoint);
    assert_eq!(table[14].path, "/search");
    assert_eq!(SCOPE, "/api/v0.1");
    assert_eq!(ICON, "/favicon.ico");
    assert_eq!(CORS_MAX_AGE, 3600);
    assert_eq!(SHUTDOWN_TIMEOUT, 1);
}

#[test]
fn each_path_has_one_endpoint_and_each_endpoint_a_path() {
    let table = routes();
    for a in &table {
        for b in &table {
            assert_eq!(a.path == b.path, a.endpoint == b.endpoint);
        }
    }
    for endpoint in [
        Endpoint::TestnetConfig,
        Endpoint::NetworkStatus,
        Endpoint::AccountState,
        Endpoint::Tokens,
        Endpoint::AccountTransactions,
        Endpoint::AccountTransactionsHistory,
        Endpoint::ExecutedTransactionByHash,
        Endpoint::TxByHash,
        Endpoint::PriorityOpReceipt,
        Endpoint::TransactionById,
        Endpoint::BlockTransactions,
        Endpoint::BlockById,
        Endpoint::Blocks,
        Endpoint::BlockSearch,
    ] {
        assert!(table.iter().any(|route| route.endpoint == endpoint));
    }
}
