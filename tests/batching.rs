use relay_core::batch::{batch_messages, message_size, Any};
use relay_core::error::Error;

fn message_of_size(encoded: usize) -> Any {
    // One byte of key and two of length prefix for values of 128..16383 bytes.
    Any { type_url: String::new(), value: vec![7u8; encoded - 3] }
}

fn batch_lengths(batches: &[Vec<Any>]) -> Vec<usize> {
    batches.iter().map(|b| b.len()).collect()
}

#[test]
fn message_size_counts_key_length_and_payload() {
    assert_eq!(message_size(&message_of_size(2_000)).unwrap(), 2_000);
    let m = Any { type_url: "/ibc.core.client.v1.MsgUpdateClient".to_string(), value: vec![1, 2, 3] };
    // type URL: 1 + 1 + 35 bytes; value: 1 + 1 + 3 bytes.
    assert_eq!(message_size(&m).unwrap(), 42);
    let empty = Any { type_url: String::new(), value: vec![] };
    assert_eq!(message_size(&empty).unwrap(), 0);
}

#[test]
fn batch_splitting_by_count() {
    let msgs: Vec<Any> = (0..7).map(|_| message_of_size(2_000)).collect();
    let batches = batch_messages(msgs, 3, 10_000).unwrap();
    assert_eq!(batch_lengths(&batches), vec![3, 3, 1]);
}

#[test]
fn batch_splitting_by_size() {
    let msgs: Vec<Any> = (0..7).map(|_| message_of_size(2_000)).collect();
    let batches = batch_messages(msgs, 3, 4_500).unwrap();
    assert_eq!(batch_lengths(&batches), vec![2, 2, 2, 1]);
}

#[test]
fn batching_keeps_order_and_content() {
    let msgs: Vec<Any> = (0..5u8)
        .map(|i| Any { type_url: format!("/t{}", i), value: vec![i; 10] })
        .collect();
    let batches = batch_messages(msgs, 2, 1_000).unwrap();
    assert_eq!(batch_lengths(&batches), vec![2, 2, 1]);
    let flat: Vec<String> = batches.iter().flatten().map(|m| m.type_url.clone()).collect();
    assert_eq!(flat, vec!["/t0", "/t1", "/t2", "/t3", "/t4"]);
}

#[test]
fn batching_nothing_gives_no_batch() {
    let batches = batch_messages(Vec::new(), 3, 100).unwrap();
    assert!(batches.is_empty());
}

#[test]
fn message_larger_than_tx_is_refused() {
    let msgs = vec![message_of_size(200), message_of_size(2_000), message_of_size(5_000)];
    match batch_messages(msgs, 3, 1_000) {
        Err(Error::MessageTooBigForTx { size, max_tx_size }) => {
            assert_eq!(size, 2_000);
            assert_eq!(max_tx_size, 1_000);
        }
        other => panic!("unexpected result: {:?}", other.map(|b| b.len())),
    }
}
