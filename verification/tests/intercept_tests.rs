use range_proxy::intercept::{
    process_transaction, run_interception, RequestModel, ReturnToken, Transaction,
};

fn transaction(header: Option<&[u8]>) -> Transaction {
    Transaction {
        request: RequestModel { range_header: header.map(|h| h.to_vec()) },
        request_back: ReturnToken::grant(),
    }
}

#[test]
fn loop_forwards_every_transaction_in_order() {
    let txs = vec![
        transaction(Some(b"bytes=0-999999999")),
        transaction(None),
        transaction(Some(b"items=0-10")),
        transaction(Some(b"bytes=500-")),
    ];
    let out = run_interception(txs, 1000);
    assert_eq!(out.len(), 4);
    assert_eq!(out[0].request.range_header, Some(b"bytes=0-1000".to_vec()));
    assert_eq!(out[1].request.range_header, None);
    assert_eq!(out[2].request.range_header, Some(b"items=0-10".to_vec()));
    assert_eq!(out[3].request.range_header, Some(b"bytes=500-1500".to_vec()));
}

#[test]
fn empty_batch_forwards_nothing() {
    let out = run_interception(Vec::new(), 1000);
    assert_eq!(out.len(), 0);
}

#[test]
fn request_without_range_header_passes_through_untouched() {
    let done = process_transaction(transaction(None), 2048);
    assert_eq!(done.request.range_header, None);
}

#[test]
fn request_with_foreign_unit_passes_through_untouched() {
    let done = process_transaction(transaction(Some(b"items=0-10")), 2048);
    assert_eq!(done.request.range_header, Some(b"items=0-10".to_vec()));
}

#[test]
fn open_ended_request_is_chunked() {
    let done = process_transaction(transaction(Some(b"bytes=500-")), 2048);
    assert_eq!(done.request.range_header, Some(b"bytes=500-2548".to_vec()));
}
