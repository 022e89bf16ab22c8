use futures::channel::mpsc::TryRecvError;
use opendht::completion::{complete, open_completion, OutcomeSender};
use opendht::custody::Custody;
use opendht::stream::{deliver, finish, forward_batch, open_stream, settle, ValueSender};

#[test]
fn completion_resolves_receiver() {
    let mut table: Custody<OutcomeSender> = Custody::new();
    let (token, mut rx) = open_completion(&mut table).unwrap();
    assert!(table.is_pending(token));
    assert_eq!(rx.try_recv(), Ok(None));
    assert!(complete(&mut table, token, true).0);
    assert!(!table.is_pending(token));
    assert_eq!(rx.try_recv(), Ok(Some(true)));
}

#[test]
fn completion_carries_failure() {
    let mut table: Custody<OutcomeSender> = Custody::new();
    let (token, mut rx) = open_completion(&mut table).unwrap();
    assert!(complete(&mut table, token, false).0);
    assert_eq!(rx.try_recv(), Ok(Some(false)));
}

#[test]
fn completion_fires_once() {
    let mut table: Custody<OutcomeSender> = Custody::new();
    let (token, _rx) = open_completion(&mut table).unwrap();
    assert!(complete(&mut table, token, true).0);
    assert!(!complete(&mut table, token, true).0);
    assert_eq!(table.len(), 0);
}

#[test]
fn completion_with_dropped_receiver_is_no_error() {
    let mut table: Custody<OutcomeSender> = Custody::new();
    let (token, rx) = open_completion(&mut table).unwrap();
    drop(rx);
    assert!(complete(&mut table, token, true).0);
    assert!(!table.is_pending(token));
}

#[test]
fn completions_get_distinct_tokens() {
    let mut table: Custody<OutcomeSender> = Custody::new();
    let (a, mut rx_a) = open_completion(&mut table).unwrap();
    let (b, mut rx_b) = open_completion(&mut table).unwrap();
    assert_ne!(a, b);
    assert!(complete(&mut table, b, false).0);
    assert!(complete(&mut table, a, true).0);
    assert_eq!(rx_a.try_recv(), Ok(Some(true)));
    assert_eq!(rx_b.try_recv(), Ok(Some(false)));
}

#[test]
fn stream_delivers_copied_values_then_ends() {
    let mut table: Custody<ValueSender> = Custody::new();
    let (token, mut rx) = open_stream(&mut table).unwrap();
    let a: &[u8] = &[9, 9, 9];
    let b: &[u8] = &[];
    let c: &[u8] = &[1];
    assert!(deliver(&mut table, token, &[a, b]).0);
    assert!(deliver(&mut table, token, &[c, a]).0);
    assert!(finish(&mut table, token));
    assert!(!table.is_pending(token));
    assert_eq!(rx.try_recv(), Ok(vec![9, 9, 9]));
    assert_eq!(rx.try_recv(), Ok(vec![]));
    assert_eq!(rx.try_recv(), Ok(vec![1]));
    assert_eq!(rx.try_recv(), Ok(vec![9, 9, 9]));
    assert_eq!(rx.try_recv(), Err(TryRecvError::Closed));
}

#[test]
fn stream_keeps_duplicates() {
    let mut table: Custody<ValueSender> = Custody::new();
    let (token, mut rx) = open_stream(&mut table).unwrap();
    let a: &[u8] = &[5];
    assert!(deliver(&mut table, token, &[a, a]).0);
    assert!(finish(&mut table, token));
    assert_eq!(rx.try_recv(), Ok(vec![5]));
    assert_eq!(rx.try_recv(), Ok(vec![5]));
    assert_eq!(rx.try_recv(), Err(TryRecvError::Closed));
}

#[test]
fn empty_batch_keeps_going() {
    let mut table: Custody<ValueSender> = Custody::new();
    let (token, mut rx) = open_stream(&mut table).unwrap();
    assert!(deliver(&mut table, token, &[]).0);
    assert!(table.is_pending(token));
    assert_eq!(rx.try_recv(), Err(TryRecvError::Empty));
}

#[test]
fn stream_without_values_is_empty_and_closed() {
    let mut table: Custody<ValueSender> = Custody::new();
    let (token, mut rx) = open_stream(&mut table).unwrap();
    assert!(finish(&mut table, token));
    assert_eq!(rx.try_recv(), Err(TryRecvError::Closed));
}

#[test]
fn dropped_reader_stops_delivery_without_panic() {
    let mut table: Custody<ValueSender> = Custody::new();
    let (token, rx) = open_stream(&mut table).unwrap();
    drop(rx);
    let a: &[u8] = &[1, 2];
    assert!(!deliver(&mut table, token, &[a]).0);
    assert!(!table.is_pending(token));
    assert!(!deliver(&mut table, token, &[a]).0);
    assert!(!finish(&mut table, token));
    assert_eq!(table.len(), 0);
}

#[test]
fn sustained_backpressure_stops_and_releases_once() {
    let mut table: Custody<ValueSender> = Custody::new();
    let (token, mut rx) = open_stream(&mut table).unwrap();
    let a: &[u8] = &[3];
    let mut accepted = 0;
    let mut stopped = false;
    for _ in 0..100 {
        if deliver(&mut table, token, &[a]).0 {
            accepted += 1;
        } else {
            stopped = true;
            break;
        }
    }
    assert!(stopped);
    assert!(accepted >= 10);
    assert!(!table.is_pending(token));
    assert!(!deliver(&mut table, token, &[a]).0);
    assert!(!finish(&mut table, token));
    let mut drained = 0;
    while let Ok(v) = rx.try_recv() {
        assert_eq!(v, vec![3]);
        drained += 1;
    }
    assert_eq!(drained, accepted);
    assert_eq!(rx.try_recv(), Err(TryRecvError::Closed));
}

#[test]
fn forward_batch_counts_taken_values() {
    let (mut tx, mut rx) = futures::channel::mpsc::channel::<Vec<u8>>(1);
    let a: &[u8] = &[1];
    let b: &[u8] = &[2];
    assert_eq!(forward_batch(&mut tx, &[a, b]).0, 2);
    assert_eq!(rx.try_recv(), Ok(vec![1]));
    drop(rx);
    assert_eq!(forward_batch(&mut tx, &[a, b]).0, 0);
}

#[test]
fn streams_are_independent() {
    let mut table: Custody<ValueSender> = Custody::new();
    let (s1, mut rx1) = open_stream(&mut table).unwrap();
    let (s2, mut rx2) = open_stream(&mut table).unwrap();
    assert_ne!(s1, s2);
    let a: &[u8] = &[1];
    let b: &[u8] = &[2];
    assert!(deliver(&mut table, s1, &[a]).0);
    assert!(deliver(&mut table, s2, &[b]).0);
    assert!(finish(&mut table, s1));
    assert!(table.is_pending(s2));
    assert_eq!(rx1.try_recv(), Ok(vec![1]));
    assert_eq!(rx1.try_recv(), Err(TryRecvError::Closed));
    assert_eq!(rx2.try_recv(), Ok(vec![2]));
    assert_eq!(rx2.try_recv(), Err(TryRecvError::Empty));
}

#[test]
fn teardown_ends_open_subscriptions_and_cancels_completions() {
    let mut streams: Custody<ValueSender> = Custody::new();
    let mut completions: Custody<OutcomeSender> = Custody::new();
    let (s, mut srx) = open_stream(&mut streams).unwrap();
    let (c, mut crx) = open_completion(&mut completions).unwrap();
    let a: &[u8] = &[8];
    assert!(deliver(&mut streams, s, &[a]).0);
    streams.release_all(&[s]);
    completions.release_all(&[c]);
    assert_eq!(srx.try_recv(), Ok(vec![8]));
    assert_eq!(srx.try_recv(), Err(TryRecvError::Closed));
    assert!(crx.try_recv().is_err());
    assert!(!deliver(&mut streams, s, &[a]).0);
    assert!(!complete(&mut completions, c, true).0);
}

#[test]
fn settle_parks_sender_again_when_whole_batch_taken() {
    let mut table: Custody<ValueSender> = Custody::new();
    let (token, mut rx) = open_stream(&mut table).unwrap();
    let mut tx = table.reclaim(token).unwrap();
    let a: &[u8] = &[4];
    assert_eq!(forward_batch(&mut tx, &[a]).0, 1);
    assert!(settle(&mut table, token, tx, 1, 1));
    assert!(table.is_pending(token));
    assert_eq!(rx.try_recv(), Ok(vec![4]));
    assert_eq!(rx.try_recv(), Err(TryRecvError::Empty));
}

#[test]
fn settle_releases_sender_when_batch_cut_short() {
    let mut table: Custody<ValueSender> = Custody::new();
    let (token, mut rx) = open_stream(&mut table).unwrap();
    let tx = table.reclaim(token).unwrap();
    assert!(!settle(&mut table, token, tx, 2, 3));
    assert!(!table.is_pending(token));
    assert_eq!(rx.try_recv(), Err(TryRecvError::Closed));
}

#[test]
fn batch_cut_short_queues_exactly_its_first_values() {
    let (mut tx, mut rx) = futures::channel::mpsc::channel::<Vec<u8>>(0);
    let a: &[u8] = &[1];
    let b: &[u8] = &[2];
    let c: &[u8] = &[3];
    assert_eq!(forward_batch(&mut tx, &[a, b, c]).0, 1);
    assert_eq!(rx.try_recv(), Ok(vec![1]));
    assert_eq!(rx.try_recv(), Err(TryRecvError::Empty));
}

#[test]
fn late_deliveries_after_reader_left_release_nothing_more() {
    let mut table: Custody<ValueSender> = Custody::new();
    let (token, rx) = open_stream(&mut table).unwrap();
    let other = open_stream(&mut table).unwrap();
    let a: &[u8] = &[1];
    assert!(deliver(&mut table, token, &[a]).0);
    drop(rx);
    assert!(!deliver(&mut table, token, &[a, a]).0);
    assert!(!deliver(&mut table, token, &[]).0);
    assert!(!finish(&mut table, token));
    assert!(!finish(&mut table, token));
    assert!(table.is_pending(other.0));
    assert_eq!(table.len(), 1);
}
