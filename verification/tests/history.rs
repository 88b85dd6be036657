use std::collections::HashMap;

use rest_api::address::Address;
use rest_api::history::{
    handle_get_account_transactions_history, Deposit, FranklinPriorityOp, HistoryPage,
    PriorityOp, TransactionsHistoryItem,
};
use rest_api::reply::ErrorReply;
use rest_api::tokens::Token;
use rest_api::transactions::handle_get_tx_by_hash;

fn account(n: u8) -> Address {
    Address { bytes: [n; 20] }
}

fn deposit(block: u64, serial_id: u64, from: u8, to: u8) -> (u64, PriorityOp) {
    let deposit =
        Deposit { from: account(from), to: account(to), token: 0, amount: "1000".to_string() };
    let op = PriorityOp {
        serial_id,
        data: FranklinPriorityOp::Deposit(deposit),
        eth_fee: "25".to_string(),
        eth_hash: vec![serial_id as u8, 0xfe],
    };
    (block, op)
}

fn full_exit(block: u64, serial_id: u64) -> (u64, PriorityOp) {
    let op = PriorityOp {
        serial_id,
        data: FranklinPriorityOp::Other,
        eth_fee: "0".to_string(),
        eth_hash: vec![],
    };
    (block, op)
}

fn tokens() -> HashMap<u16, Token> {
    let mut tokens = HashMap::new();
    tokens.insert(0, Token { id: 0, address: account(0), symbol: "ETH".to_string() });
    tokens
}

fn page(ops: Vec<(u64, PriorityOp)>, address: u8, offset: i64, limit: i64) -> HistoryPage {
    let request = handle_get_account_transactions_history(account(address), offset, limit);
    request.ok().unwrap().page::<()>(&tokens(), Ok(ops)).unwrap()
}

fn serials(page: &HistoryPage) -> Vec<i64> {
    page.items.iter().map(|item| item.pq_id.unwrap()).collect()
}

fn stored_item(n: i64) -> TransactionsHistoryItem {
    TransactionsHistoryItem {
        hash: None,
        pq_id: Some(n),
        tx: serde_json::Value::Null,
        success: Some(true),
        fail_reason: None,
        commited: true,
        verified: false,
    }
}

#[test]
fn limits_of_a_request() {
    let ask = |offset, limit| {
        handle_get_account_transactions_history(account(1), offset, limit).err()
    };
    assert_eq!(ask(0, 0), None);
    assert_eq!(ask(0, 100), None);
    assert_eq!(ask(i64::MAX, 100), None);
    assert_eq!(ask(0, 101), Some(ErrorReply::BadRequest));
    assert_eq!(ask(0, -1), Some(ErrorReply::BadRequest));
    assert_eq!(ask(-1, 10), Some(ErrorReply::BadRequest));
}

#[test]
fn deposit_is_described() {
    let page = page(vec![deposit(5, 3, 1, 2)], 1, 0, 10);
    let item = &page.items[0];
    assert_eq!(item.hash.as_deref(), Some("0x03fe"));
    assert_eq!(item.pq_id, Some(3));
    assert_eq!(item.success, None);
    assert_eq!(item.fail_reason, None);
    assert!(!item.commited);
    assert!(!item.verified);
    let expected = "{\"account_id\":null,\"eth_fee\":\"25\",\"priority_op\":{\"amount\":\"1000\",\
        \"from\":\"0x0101010101010101010101010101010101010101\",\
        \"to\":\"0x0202020202020202020202020202020202020202\",\"token\":\"ETH\"},\
        \"type\":\"Deposit\"}";
    let expected: serde_json::Value = serde_json::from_str(expected).unwrap();
    assert_eq!(item.tx, expected);
}

#[test]
fn unregistered_token_is_unknown() {
    let request = handle_get_account_transactions_history(account(1), 0, 10).ok().unwrap();
    let page = request.page::<()>(&HashMap::new(), Ok(vec![deposit(5, 3, 1, 2)])).unwrap();
    assert_eq!(page.items[0].tx["priority_op"]["token"], serde_json::Value::from("unknown"));
}

#[test]
fn serial_id_keeps_its_bits() {
    let page = page(vec![deposit(5, u64::MAX, 1, 2), deposit(6, 1 << 63, 1, 2)], 1, 0, 10);
    assert_eq!(serials(&page), vec![-1, i64::MIN]);
}

#[test]
fn deposits_are_sorted_by_block_and_keep_their_order() {
    let ops = vec![
        deposit(9, 1, 1, 2),
        deposit(4, 2, 2, 1),
        deposit(9, 3, 1, 1),
        deposit(4, 4, 1, 2),
        deposit(1, 5, 3, 3),
        full_exit(2, 6),
    ];
    assert_eq!(serials(&page(ops, 1, 0, 10)), vec![2, 4, 1, 3]);
}

#[test]
fn sender_and_recipient_see_a_deposit() {
    for (address, seen) in [(1, 1), (2, 1), (3, 0)] {
        assert_eq!(page(vec![deposit(5, 3, 1, 2)], address, 0, 10).items.len(), seen);
    }
}

#[test]
fn reported_deposit_uses_offset_and_limit() {
    let ops = || (0..5).map(|n| deposit(n, n, 1, 2)).collect::<Vec<_>>();
    let first = page(ops(), 1, 0, 3);
    assert_eq!(serials(&first), vec![0, 1, 2]);
    assert_eq!((first.offset, first.limit), (0, 0));
    let second = page(ops(), 1, 3, 4);
    assert_eq!(serials(&second), vec![3, 4]);
    assert_eq!((second.offset, second.limit), (0, 2));
    let third = page(ops(), 1, 7, 4);
    assert_eq!(serials(&third), Vec::<i64>::new());
    assert_eq!((third.offset, third.limit), (2, 4));
    assert_eq!(third.address, account(1));
}

#[test]
fn all_ongoing_operations_are_taken_from_the_offset() {
    let page = page(vec![deposit(1, 1, 8, 9), full_exit(2, 2), full_exit(3, 3)], 1, 2, 10);
    assert!(page.items.is_empty());
    assert_eq!((page.offset, page.limit), (-1, 10));
}

#[test]
fn no_entries_asked_for() {
    let page = page(vec![deposit(1, 1, 1, 2)], 1, 0, 0);
    assert!(page.items.is_empty());
    assert_eq!((page.offset, page.limit), (-1, 0));
}

#[test]
fn pages_give_one_list() {
    let ops = || (0..3).map(|n| deposit(n, n, 1, 2)).collect::<Vec<_>>();
    let held: Vec<i64> = (10..16).collect();
    let whole: Vec<i64> = (0..3).chain(10..16).collect();
    for offset in 0..12 {
        for limit in 1..12 {
            let page = page(ops(), 1, offset, limit);
            let from = page.offset as usize;
            let stored: Vec<TransactionsHistoryItem> = held
                .iter()
                .skip(from)
                .take(page.limit as usize)
                .map(|n| stored_item(*n))
                .collect();
            let reply = page.reply::<()>(Ok(stored)).unwrap();
            let got: Vec<i64> = reply.iter().map(|item| item.pq_id.unwrap()).collect();
            let expected: Vec<i64> =
                whole.iter().copied().skip(offset as usize).take(limit as usize).collect();
            assert_eq!(got, expected);
        }
    }
}

#[test]
fn stored_entries_follow_unchanged() {
    let reply = page(vec![deposit(1, 1, 1, 2)], 1, 0, 5).reply::<()>(Ok(vec![stored_item(40)])).unwrap();
    assert_eq!(reply.len(), 2);
    assert_eq!(reply[1].pq_id, Some(40));
    assert_eq!(reply[1].success, Some(true));
    assert!(reply[1].commited);
}

#[test]
fn failures_are_internal_errors() {
    let request = handle_get_account_transactions_history(account(1), 0, 10).ok().unwrap();
    let outcome = request.page::<()>(&tokens(), Err(()));
    assert_eq!(outcome.err(), Some(ErrorReply::InternalServerError));
    let reply = page(vec![], 1, 0, 5).reply::<()>(Err(()));
    assert_eq!(reply.err(), Some(ErrorReply::InternalServerError));
}

#[test]
fn reported_deposit_is_found() {
    let page = page(vec![deposit(5, 3, 1, 2)], 1, 0, 10);
    let text = page.items[0].hash.clone().unwrap();
    assert_eq!(handle_get_tx_by_hash(&text), Ok(vec![3, 0xfe]));
}

#[test]
fn unconcerned_operations_disturb_nothing_behind_the_end() {
    let page = page(vec![deposit(1, 1, 1, 2), full_exit(2, 2)], 1, 9, 5);
    assert!(page.items.is_empty());
    assert_eq!((page.offset, page.limit), (7, 5));
    let held: Vec<i64> = (10..17).collect();
    assert_eq!(held.iter().skip(page.offset as usize).count(), 0);
    assert_eq!(held.iter().skip(9 - 1).count(), 0);
}
