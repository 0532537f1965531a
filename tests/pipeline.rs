use std::collections::HashMap;

use narwhal_worker::batch::{Batch, BatchDigest};
use narwhal_worker::batch_maker::BatchMaker;
use narwhal_worker::committee::{reaches_quorum, Authority, Committee, ReconfigureNotification};
use narwhal_worker::handlers::{sync_replies, SyncReply};
use narwhal_worker::primary_connector::{ConnectorAction, PrimaryConnector};
use narwhal_worker::processor::{Processor, WorkerPrimaryMessage};
use narwhal_worker::quorum::QuorumWaiter;

fn committee(epoch: u64, stakes: &[(u64, u64)]) -> Committee {
    let authorities = stakes.iter().map(|&(id, stake)| Authority { id, stake }).collect();
    Committee::new(epoch, authorities).expect("valid committee")
}

fn batch(txs: &[&[u8]]) -> Batch {
    Batch { transactions: txs.iter().map(|t| t.to_vec()).collect() }
}

#[test]
fn digest_is_blake2b_256_of_the_transactions() {
    let d = batch(&[b"hello", b"world"]).digest();
    let expected: [u8; 32] = [
        60, 34, 131, 6, 85, 33, 119, 245, 163, 4, 203, 18, 165, 181, 230, 8, 151, 242, 244, 134,
        182, 70, 113, 175, 220, 207, 15, 141, 217, 65, 12, 189,
    ];
    assert_eq!(d.bytes, expected);
    let empty = Batch { transactions: vec![] }.digest();
    assert_eq!(empty.bytes[0..4], [14, 87, 81, 192]);
}

#[test]
fn committee_rejects_duplicate_ids() {
    let a = vec![Authority { id: 1, stake: 1 }, Authority { id: 2, stake: 1 }, Authority { id: 1, stake: 3 }];
    assert!(Committee::new(0, a).is_none());
}

#[test]
fn committee_rejects_stake_overflow() {
    let a = vec![Authority { id: 1, stake: u64::MAX }, Authority { id: 2, stake: 1 }];
    assert!(Committee::new(0, a).is_none());
    let b = vec![Authority { id: 1, stake: u64::MAX - 1 }, Authority { id: 2, stake: 1 }];
    assert_eq!(Committee::new(0, b).unwrap().total_stake(), u64::MAX);
}

#[test]
fn committee_totals_and_peers() {
    let c = committee(7, &[(1, 5), (2, 3), (3, 2)]);
    assert_eq!(c.epoch(), 7);
    assert_eq!(c.total_stake(), 10);
    assert_eq!(c.peers(2), vec![1, 3]);
    assert_eq!(c.peers(9), vec![1, 2, 3]);
    assert_eq!(c.members().len(), 3);
}

#[test]
fn quorum_is_strictly_above_two_thirds() {
    assert!(reaches_quorum(3, 4));
    assert!(!reaches_quorum(2, 3));
    assert!(reaches_quorum(3, 4));
    assert!(!reaches_quorum(2, 4));
    assert!(reaches_quorum(u64::MAX, u64::MAX));
    assert!(!reaches_quorum(0, 0));
}

#[test]
fn forwarded_batches_have_quorum() {
    let w = QuorumWaiter::new(1, committee(0, &[(1, 1), (2, 1), (3, 1), (4, 1)]));
    let (peers, mut t) = w.start().unwrap();
    assert_eq!(peers, vec![2, 3, 4]);
    assert!(!t.has_quorum());
    assert!(w.release(&t, batch(&[b"a"])).is_none());
    assert!(!t.acknowledge(2));
    assert!(!t.acknowledge(2));
    assert!(!t.acknowledge(99));
    assert!(w.release(&t, batch(&[b"a"])).is_none());
    assert!(t.acknowledge(3));
    assert_eq!(w.release(&t, batch(&[b"a"])), Some(batch(&[b"a"])));
}

#[test]
fn update_committee_changes_threshold() {
    let mut w = QuorumWaiter::new(1, committee(0, &[(1, 1), (2, 1), (3, 1), (4, 1)]));
    let (_, mut old) = w.start().unwrap();
    assert!(!old.acknowledge(2));
    assert!(old.acknowledge(3));
    w.reconfigure(ReconfigureNotification::UpdateCommittee(committee(0, &[(1, 1), (2, 1), (3, 1), (4, 10)])));
    assert!(w.release(&old, batch(&[b"x"])).is_none());
    let (_, mut t) = w.start().unwrap();
    assert!(!t.acknowledge(2));
    assert!(!t.acknowledge(3));
    assert!(w.release(&t, batch(&[b"x"])).is_none());
    assert!(t.acknowledge(4));
    assert!(w.release(&t, batch(&[b"x"])).is_some());
}

#[test]
fn new_epoch_replaces_committee() {
    let mut w = QuorumWaiter::new(1, committee(0, &[(1, 1), (2, 1)]));
    w.reconfigure(ReconfigureNotification::NewEpoch(committee(1, &[(1, 1), (5, 1), (6, 1)])));
    assert_eq!(w.committee.epoch(), 1);
    let (peers, _) = w.start().unwrap();
    assert_eq!(peers, vec![5, 6]);
}

#[test]
fn shutdown_stops_every_stage() {
    let mut w = QuorumWaiter::new(1, committee(0, &[(1, 1), (2, 1)]));
    let (_, t) = w.start().unwrap();
    w.reconfigure(ReconfigureNotification::Shutdown);
    assert!(w.start().is_none());
    assert!(w.release(&t, batch(&[b"a"])).is_none());
    w.reconfigure(ReconfigureNotification::NewEpoch(committee(1, &[(1, 1)])));
    assert!(w.shut_down);
    assert!(w.start().is_none());

    let mut m = BatchMaker::new(10, 100);
    assert!(!m.reconfigure(&ReconfigureNotification::Shutdown));
    assert!(m.on_transaction(vec![0; 50], 0).is_none());
    assert!(m.on_tick(1000).is_none());
    assert!(!m.reconfigure(&ReconfigureNotification::UpdateCommittee(committee(0, &[(1, 1)]))));

    let mut p = Processor::new(3, true);
    assert!(!p.reconfigure(&ReconfigureNotification::Shutdown));
    assert!(p.process(batch(&[b"a"])).is_none());

    let mut c = PrimaryConnector::new(10, 100);
    assert!(c.accepts());
    assert!(!c.reconfigure(&ReconfigureNotification::Shutdown));
    assert!(!c.accepts());
    assert_eq!(c.after_send(true, 0), ConnectorAction::Exit);
    assert_eq!(c.after_send(false, 0), ConnectorAction::RetryAfter(10));
}

#[test]
fn non_shutdown_notifications_keep_stages_running() {
    let mut m = BatchMaker::new(10, 100);
    assert!(m.reconfigure(&ReconfigureNotification::NewEpoch(committee(1, &[(1, 1)]))));
    let mut p = Processor::new(3, false);
    assert!(p.reconfigure(&ReconfigureNotification::UpdateCommittee(committee(1, &[(1, 1)]))));
    assert!(p.process(batch(&[b"a"])).is_some());
}

#[test]
fn batch_sealed_after_timeout() {
    let mut m = BatchMaker::new(1_000_000, 100);
    assert!(m.on_transaction(vec![7; 10], 0).is_none());
    assert!(m.on_tick(50).is_none());
    assert!(m.on_tick(99).is_none());
    let b = m.on_tick(100).unwrap();
    assert_eq!(b.transactions, vec![vec![7u8; 10]]);
    assert!(m.on_tick(1000).is_none());
}

#[test]
fn timeout_counts_from_first_transaction() {
    let mut m = BatchMaker::new(1_000_000, 100);
    assert!(m.on_transaction(vec![1], 10).is_none());
    assert!(m.on_transaction(vec![2], 80).is_none());
    assert!(m.on_tick(109).is_none());
    assert_eq!(m.on_tick(110).unwrap().transactions, vec![vec![1u8], vec![2u8]]);
}

#[test]
fn empty_batch_never_sealed() {
    let mut m = BatchMaker::new(10, 0);
    assert!(m.on_tick(0).is_none());
    assert!(m.on_tick(u64::MAX).is_none());
}

#[test]
fn batch_sealed_at_size_threshold() {
    let mut m = BatchMaker::new(1000, 1_000_000);
    for i in 0..8 {
        assert!(m.on_transaction(vec![i as u8; 120], i).is_none());
    }
    let b = m.on_transaction(vec![8; 120], 8).unwrap();
    assert_eq!(b.transactions.len(), 9);
    assert_eq!(b.transactions[8], vec![8u8; 120]);
    assert!(m.on_transaction(vec![9; 120], 9).is_none());
    assert!(m.on_tick(1_000_008).is_none());
    assert_eq!(m.on_tick(1_000_009).unwrap().transactions, vec![vec![9u8; 120]]);
}

#[test]
fn exact_threshold_seals() {
    let mut m = BatchMaker::new(100, 5);
    assert!(m.on_transaction(vec![0; 60], 0).is_none());
    assert!(m.on_transaction(vec![0; 40], 1).is_some());
    let mut z = BatchMaker::new(0, 5);
    assert_eq!(z.on_transaction(vec![], 0).unwrap().transactions, vec![Vec::<u8>::new()]);
}

#[test]
fn huge_deadline_saturates() {
    let mut m = BatchMaker::new(100, u64::MAX);
    assert!(m.on_transaction(vec![1], 5).is_none());
    assert!(m.on_tick(u64::MAX - 1).is_none());
    assert!(m.on_tick(u64::MAX).is_some());
}

#[test]
fn reported_batch_is_stored() {
    let p = Processor::new(4, true);
    let mut store: HashMap<BatchDigest, Batch> = HashMap::new();
    let b = batch(&[b"tx1", b"tx2"]);
    let w = p.process(b.clone()).unwrap();
    assert_eq!(w.digest, b.digest());
    store.insert(w.digest, w.batch);
    let m = p.after_write(w.digest, true).unwrap();
    match m {
        WorkerPrimaryMessage::OurBatch(d, id) => {
            assert_eq!(id, 4);
            assert_eq!(store.get(&d), Some(&b));
        }
        WorkerPrimaryMessage::OthersBatch(..) => panic!("expected our batch"),
    }
}

#[test]
fn failed_write_is_not_reported() {
    let p = Processor::new(4, true);
    let w = p.process(batch(&[b"tx"])).unwrap();
    assert!(p.after_write(w.digest, false).is_none());
}

#[test]
fn same_content_stored_once() {
    let ours = Processor::new(1, true);
    let theirs = Processor::new(1, false);
    let mut store: HashMap<BatchDigest, Batch> = HashMap::new();
    let a = theirs.process(batch(&[b"same"])).unwrap();
    let b = ours.process(batch(&[b"same"])).unwrap();
    assert_eq!(a.digest, b.digest);
    store.insert(a.digest, a.batch);
    store.insert(b.digest, b.batch);
    assert_eq!(store.len(), 1);
    assert_eq!(theirs.after_write(a.digest, true), Some(WorkerPrimaryMessage::OthersBatch(a.digest, 1)));
    assert_eq!(ours.after_write(b.digest, true), Some(WorkerPrimaryMessage::OurBatch(b.digest, 1)));
    let c = ours.process(batch(&[b"other"])).unwrap();
    assert_ne!(c.digest, a.digest);
}

#[test]
fn sync_of_unstored_digest_is_missing() {
    let stored = batch(&[b"kept"]);
    let d1 = stored.digest();
    let d2 = batch(&[b"never stored"]).digest();
    let r = sync_replies(&vec![d1, d2], vec![Some(stored.clone()), None]);
    assert_eq!(r, vec![SyncReply::Found(d1, stored), SyncReply::Missing(d2)]);
    let short = sync_replies(&vec![d2, d1], vec![None]);
    assert_eq!(short, vec![SyncReply::Missing(d2), SyncReply::Missing(d1)]);
    assert!(sync_replies(&vec![], vec![]).is_empty());
}

#[test]
fn backoff_doubles_up_to_cap() {
    let c = PrimaryConnector::new(100, 1000);
    let delays: Vec<u64> = (0..6).map(|a| c.backoff_delay(a)).collect();
    assert_eq!(delays, vec![100, 200, 400, 800, 1000, 1000]);
    assert_eq!(c.backoff_delay(u32::MAX), 1000);
    let over = PrimaryConnector::new(5000, 1000);
    assert_eq!(over.backoff_delay(0), 1000);
    let big = PrimaryConnector::new(u64::MAX / 2 + 1, u64::MAX);
    assert_eq!(big.backoff_delay(1), u64::MAX);
    assert_eq!(c.after_send(true, 3), ConnectorAction::Next);
    assert_eq!(c.after_send(false, 3), ConnectorAction::RetryAfter(800));
}
