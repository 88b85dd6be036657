use rest_api::address::{render_contract_address, Address};
use rest_api::hex_text::render_eth_hash;
use rest_api::reply::{access_storage, query_result, ErrorReply};
use rest_api::transactions::{
    executed_transaction_reply, handle_get_account_transactions,
    handle_get_executed_transaction_by_hash, handle_get_priority_op_receipt,
    handle_get_tx_by_hash, tx_by_hash_reply,
};

#[test]
fn eth_hash_is_rendered_in_lower_case() {
    assert_eq!(render_eth_hash(&[0x00, 0x0f, 0xab, 0xff]), "0x000fabff");
    assert_eq!(render_eth_hash(&[]), "0x");
}

#[test]
fn contract_address_is_rendered_in_full() {
    let mut bytes = [0u8; 20];
    bytes[0] = 0xde;
    bytes[19] = 0x0a;
    assert_eq!(
        render_contract_address(&Address { bytes }),
        "0xde0000000000000000000000000000000000000a"
    );
}

#[test]
fn addresses_are_told_apart() {
    let a = Address { bytes: [1; 20] };
    let mut b = a;
    assert!(a.is(&b));
    b.bytes[19] = 2;
    assert!(!a.is(&b));
}

#[test]
fn executed_transaction_hash_ignores_its_prefix() {
    assert_eq!(handle_get_executed_transaction_by_hash("0x0aFf"), Ok(vec![0x0a, 0xff]));
    assert_eq!(handle_get_executed_transaction_by_hash("zz0a"), Ok(vec![0x0a]));
    assert_eq!(handle_get_executed_transaction_by_hash("0x"), Ok(vec![]));
    assert_eq!(handle_get_executed_transaction_by_hash("\u{e9}10"), Ok(vec![0x10]));
}

#[test]
fn executed_transaction_hash_is_refused() {
    for text in ["", "0", "0x1", "0xgg", "0x0 ", "sync-tx:00", "0x\u{e9}"] {
        assert_eq!(handle_get_executed_transaction_by_hash(text), Err(ErrorReply::BadRequest));
    }
}

#[test]
fn tx_hash_needs_a_known_prefix() {
    assert_eq!(handle_get_tx_by_hash("0x0aFf"), Ok(vec![0x0a, 0xff]));
    assert_eq!(handle_get_tx_by_hash("sync-tx:0aFf"), Ok(vec![0x0a, 0xff]));
    assert_eq!(handle_get_tx_by_hash("sync-tx:"), Ok(vec![]));
    assert_eq!(handle_get_tx_by_hash("0x"), Ok(vec![]));
}

#[test]
fn tx_hash_is_refused() {
    let refused =
        ["", "0", "0a", "zz0a", "0X0a", "sync-tx", "sync:0a", "0x0", "sync-tx:0", "sync-tx:xx", "a\u{e9}"];
    for text in refused {
        assert_eq!(handle_get_tx_by_hash(text), Err(ErrorReply::BadRequest));
    }
}

#[test]
fn rendered_hash_leads_back() {
    let hash: Vec<u8> = (0..=255).collect();
    let text = render_eth_hash(&hash);
    assert_eq!(handle_get_tx_by_hash(&text), Ok(hash.clone()));
    assert_eq!(handle_get_executed_transaction_by_hash(&text), Ok(hash.clone()));
    let sync_tx = format!("sync-tx:{}", &text[2..]);
    assert_eq!(handle_get_tx_by_hash(&sync_tx), Ok(hash));
}

#[test]
fn missing_receipt_is_null() {
    assert_eq!(executed_transaction_reply::<u8, ()>(Ok(Some(7))), Some(7));
    assert_eq!(executed_transaction_reply::<u8, ()>(Ok(None)), None);
    assert_eq!(executed_transaction_reply::<u8, ()>(Err(())), None);
}

#[test]
fn failed_queries_are_internal_errors() {
    assert_eq!(tx_by_hash_reply::<u8, ()>(Ok(Some(7))), Ok(Some(7)));
    assert_eq!(tx_by_hash_reply::<u8, ()>(Err(())), Err(ErrorReply::InternalServerError));
    assert_eq!(handle_get_priority_op_receipt::<u8, ()>(Ok(7)), Ok(7));
    assert_eq!(
        handle_get_priority_op_receipt::<u8, ()>(Err(())),
        Err(ErrorReply::InternalServerError)
    );
    assert_eq!(handle_get_account_transactions::<u8, ()>(Ok(7)), Ok(7));
    assert_eq!(
        handle_get_account_transactions::<u8, ()>(Err(())),
        Err(ErrorReply::InternalServerError)
    );
    assert_eq!(query_result::<u8, ()>(Err(())), Err(ErrorReply::InternalServerError));
    assert_eq!(query_result::<u8, ()>(Ok(1)), Ok(1));
}

#[test]
fn missing_storage_times_out() {
    assert_eq!(access_storage::<u8, ()>(Ok(1)), Ok(1));
    assert_eq!(access_storage::<u8, ()>(Err(())), Err(ErrorReply::RequestTimeout));
}

#[test]
fn status_codes() {
    assert_eq!(ErrorReply::BadRequest.status_code(), 400);
    assert_eq!(ErrorReply::NotFound.status_code(), 404);
    assert_eq!(ErrorReply::RequestTimeout.status_code(), 408);
    assert_eq!(ErrorReply::InternalServerError.status_code(), 500);
}
