use std::collections::HashMap;

use rest_api::accounts::{handle_get_account_state, Account, StoredAccountState};
use rest_api::address::Address;
use rest_api::blocks::{
    block_by_id_reply, blocks_reply, handle_block_search, handle_get_block_by_id,
    handle_get_block_transactions, handle_get_blocks, handle_get_transaction_by_id, BlockRange,
    ExecutedOperations, ExecutedPriorityOp, ExecutedTx, HandleBlocksQuery,
};
use rest_api::reply::ErrorReply;
use rest_api::tokens::{handle_get_tokens, Token};

fn token(id: u16, symbol: &str) -> Token {
    Token { id, address: Address { bytes: [id as u8; 20] }, symbol: symbol.to_string() }
}

#[test]
fn tokens_are_listed_by_id() {
    let mut tokens = HashMap::new();
    for (id, symbol) in [(7, "DAI"), (0, "ETH"), (300, "MKR"), (2, "BAT")] {
        tokens.insert(id, token(id, symbol));
    }
    let listing = handle_get_tokens::<()>(Ok(tokens)).unwrap();
    assert_eq!(
        listing,
        vec![token(0, "ETH"), token(2, "BAT"), token(7, "DAI"), token(300, "MKR")]
    );
}

#[test]
fn tokens_are_listed_by_their_ids_under_any_keys() {
    let mut tokens = HashMap::new();
    for (key, id, symbol) in [(0, 7, "DAI"), (1, 300, "MKR"), (2, 0, "ETH"), (7, 2, "BAT")] {
        tokens.insert(key, token(id, symbol));
    }
    let listing = handle_get_tokens::<()>(Ok(tokens)).unwrap();
    assert_eq!(
        listing,
        vec![token(0, "ETH"), token(2, "BAT"), token(7, "DAI"), token(300, "MKR")]
    );
}

#[test]
fn equal_tokens_are_listed_as_often_as_they_occur() {
    let mut tokens = HashMap::new();
    for (key, id, symbol) in [(0, 7, "DAI"), (1, 2, "BAT"), (2, 7, "DAI")] {
        tokens.insert(key, token(id, symbol));
    }
    let listing = handle_get_tokens::<()>(Ok(tokens)).unwrap();
    assert_eq!(listing, vec![token(2, "BAT"), token(7, "DAI"), token(7, "DAI")]);
}

#[test]
fn no_tokens_and_no_answer() {
    assert_eq!(handle_get_tokens::<()>(Ok(HashMap::new())), Ok(vec![]));
    assert_eq!(handle_get_tokens::<()>(Err(())), Err(ErrorReply::InternalServerError));
}

#[test]
fn unknown_account_is_empty() {
    let address = Address { bytes: [9; 20] };
    let stored = StoredAccountState::<u32> { committed: None, verified: None };
    let response = handle_get_account_state::<u32, ()>(address, Ok(stored)).unwrap();
    assert_eq!(response.id, None);
    assert_eq!(response.commited, Account { address, state: 0 });
    assert_eq!(response.verified, Account { address, state: 0 });
}

#[test]
fn committed_account_has_an_id() {
    let address = Address { bytes: [9; 20] };
    let stored = StoredAccountState::<u32> {
        committed: Some((5, Account { address, state: 77 })),
        verified: None,
    };
    let response = handle_get_account_state::<u32, ()>(address, Ok(stored)).unwrap();
    assert_eq!(response.id, Some(5));
    assert_eq!(response.commited, Account { address, state: 77 });
    assert_eq!(response.verified, Account { address, state: 0 });
}

#[test]
fn verified_account_alone_has_no_id() {
    let address = Address { bytes: [9; 20] };
    let other = Address { bytes: [8; 20] };
    let stored = StoredAccountState::<u32> {
        committed: None,
        verified: Some((5, Account { address: other, state: 77 })),
    };
    let response = handle_get_account_state::<u32, ()>(address, Ok(stored)).unwrap();
    assert_eq!(response.id, None);
    assert_eq!(response.commited, Account { address, state: 0 });
    assert_eq!(response.verified, Account { address: other, state: 77 });
}

#[test]
fn account_state_needs_an_answer() {
    let address = Address { bytes: [9; 20] };
    assert_eq!(
        handle_get_account_state::<u32, ()>(address, Err(())),
        Err(ErrorReply::InternalServerError)
    );
}

#[test]
fn block_ranges() {
    let ask = |max_block, limit| handle_get_blocks(HandleBlocksQuery { max_block, limit });
    assert_eq!(ask(None, None), Ok(BlockRange { max_block: 999_999_999, limit: 20 }));
    assert_eq!(ask(Some(3), None), Ok(BlockRange { max_block: 3, limit: 20 }));
    assert_eq!(ask(Some(3), Some(0)), Ok(BlockRange { max_block: 3, limit: 0 }));
    assert_eq!(ask(None, Some(100)), Ok(BlockRange { max_block: 999_999_999, limit: 100 }));
    assert_eq!(ask(Some(3), Some(101)), Err(ErrorReply::BadRequest));
    assert_eq!(handle_get_block_by_id(8), BlockRange { max_block: 8, limit: 1 });
}

#[test]
fn block_replies() {
    assert_eq!(blocks_reply::<u8, ()>(Ok(vec![1, 2])), Ok(vec![1, 2]));
    assert_eq!(blocks_reply::<u8, ()>(Err(())), Err(ErrorReply::InternalServerError));
    assert_eq!(block_by_id_reply::<u8, ()>(Ok(vec![1, 2])), Ok(2));
    assert_eq!(block_by_id_reply::<u8, ()>(Ok(vec![])), Err(ErrorReply::NotFound));
    assert_eq!(block_by_id_reply::<u8, ()>(Err(())), Err(ErrorReply::InternalServerError));
    assert_eq!(handle_block_search(Some(4)), Ok(4));
    assert_eq!(handle_block_search::<u8>(None), Err(ErrorReply::NotFound));
}

#[test]
fn operation_by_position() {
    let ops = || -> Result<Vec<u8>, ()> { Ok(vec![10, 11, 12]) };
    assert_eq!(handle_get_transaction_by_id(0, ops()), Ok(10));
    assert_eq!(handle_get_transaction_by_id(1, ops()), Ok(11));
    assert_eq!(handle_get_transaction_by_id(2, ops()), Ok(12));
    assert_eq!(handle_get_transaction_by_id(3, ops()), Err(ErrorReply::NotFound));
    assert_eq!(handle_get_transaction_by_id(u32::MAX, ops()), Err(ErrorReply::NotFound));
    assert_eq!(
        handle_get_transaction_by_id::<u8, ()>(0, Err(())),
        Err(ErrorReply::InternalServerError)
    );
}

fn tx(hash: &str, has_op: bool) -> ExecutedOperations<u8> {
    ExecutedOperations::Tx(ExecutedTx { hash: hash.to_string(), has_op, record: 1 })
}

fn priority_op(eth_hash: Vec<u8>) -> ExecutedOperations<u8> {
    ExecutedOperations::PriorityOp(ExecutedPriorityOp { eth_hash, record: 2 })
}

#[test]
fn failed_transactions_are_hidden() {
    let ops = vec![
        tx("sync-tx:01", true),
        tx("sync-tx:02", false),
        priority_op(vec![0xab, 0x01]),
        tx("sync-tx:03", true),
    ];
    let listed = handle_get_block_transactions::<u8, ()>(Ok(ops)).unwrap();
    let hashes: Vec<&str> = listed.iter().map(|item| item.tx_hash.as_str()).collect();
    assert_eq!(hashes, vec!["sync-tx:01", "0xab01", "sync-tx:03"]);
    assert_eq!(listed[0].op, tx("sync-tx:01", true));
    assert_eq!(listed[1].op, priority_op(vec![0xab, 0x01]));
    assert_eq!(listed[2].op, tx("sync-tx:03", true));
}

#[test]
fn block_transactions_need_an_answer() {
    assert_eq!(
        handle_get_block_transactions::<u8, ()>(Err(())),
        Err(ErrorReply::InternalServerError)
    );
    assert_eq!(handle_get_block_transactions::<u8, ()>(Ok(vec![])), Ok(vec![]));
}
