use sealed_auction::contract::{ContractParts, SealedBidAuction};
use sealed_auction::registry::{CommitKey, UserEntry};
use sealed_auction::types::{AuctionError, BidStatus, CallContext};
use soroban_sdk::Env;

fn ctx(timestamp: u64, caller: &str) -> CallContext {
    CallContext { timestamp, caller: caller.as_bytes().to_vec() }
}

fn busy_contract() -> SealedBidAuction {
    let mut c = SealedBidAuction::new();
    c.create_auction(&ctx(100, "alice"), b"A".to_vec(), b"first".to_vec(), 10, 1000).unwrap();
    c.create_auction(&ctx(100, "bob"), b"B".to_vec(), b"second".to_vec(), 20, 1000).unwrap();
    c.commit_bid(&ctx(200, "carol"), 1, b"h1".to_vec(), 15).unwrap();
    c.commit_bid(&ctx(200, "carol"), 2, b"h2".to_vec(), 25).unwrap();
    c
}

#[test]
fn parts_round_trip_keeps_the_state() {
    let env = Env::default();
    let c = busy_contract();
    let parts = c.into_parts();
    assert_eq!(parts.auction_counter, 2);
    assert_eq!(parts.bid_counter, 2);
    assert!(!parts.locked);
    assert_eq!(parts.auctions.len(), 2);
    assert_eq!(parts.bids.len(), 2);
    assert_eq!(parts.committed.len(), 2);
    let mut restored = SealedBidAuction::restore(&env, parts).unwrap();
    assert_eq!(restored.get_total_auctions(), 2);
    assert_eq!(restored.get_total_bids(), 2);
    assert_eq!(restored.get_user_auctions(&b"bob".to_vec()), vec![2]);
    assert_eq!(restored.get_user_bids(&b"carol".to_vec()), vec![1, 2]);
    assert_eq!(restored.get_auction(2).unwrap().description, b"second".to_vec());
    assert_eq!(
        restored.commit_bid(&ctx(300, "carol"), 1, b"h3".to_vec(), 15),
        Err(AuctionError::AlreadyCommitted)
    );
}

#[test]
fn restore_refuses_inconsistent_parts() {
    let env = Env::default();
    let tamper = |f: &dyn Fn(&mut ContractParts)| {
        let mut p = busy_contract().into_parts();
        f(&mut p);
        SealedBidAuction::restore(&env, p).is_none()
    };
    assert!(tamper(&|p| p.auction_counter = 3));
    assert!(tamper(&|p| p.bids[1].bid_id = 7));
    assert!(tamper(&|p| p.bids[0].auction_id = 9));
    assert!(tamper(&|p| p.bids[0].auction_id = 0));
    assert!(tamper(&|p| p.auctions[0].bid_count = 2));
    assert!(tamper(&|p| p.user_auctions.push(UserEntry { user: b"alice".to_vec(), ids: vec![5] })));
    assert!(tamper(&|p| p.user_auctions.push(UserEntry { user: b"zed".to_vec(), ids: vec![7] })));
    assert!(tamper(&|p| p.user_bids.push(UserEntry { user: b"zed".to_vec(), ids: vec![] })));
    assert!(tamper(&|p| p.user_bids.clear()));
    assert!(tamper(&|p| p.committed.push(CommitKey { auction_id: 5, bidder: b"zed".to_vec() })));
    assert!(tamper(&|p| p.committed.clear()));
    assert!(tamper(&|p| p.bids[0].bid_amount = 3));
    assert!(tamper(&|p| p.bids[0].status = BidStatus::Refunded));
    assert!(tamper(&|p| {
        p.bids[0].status = BidStatus::Revealed;
        p.bids[0].bid_amount = 0;
    }));
    assert!(tamper(&|p| p.auctions[0].highest_bid = 12));
}

#[test]
fn a_held_guard_refuses_every_change() {
    let env = Env::default();
    let mut p = busy_contract().into_parts();
    p.locked = true;
    let mut c = SealedBidAuction::restore(&env, p).unwrap();
    assert_eq!(
        c.create_auction(&ctx(100, "alice"), vec![], vec![], 10, 10),
        Err(AuctionError::ReentrancyDetected)
    );
    assert_eq!(c.commit_bid(&ctx(200, "dave"), 1, vec![1], 15), Err(AuctionError::ReentrancyDetected));
    assert_eq!(c.end_auction(&ctx(5000, "dave"), 1), Err(AuctionError::ReentrancyDetected));
    assert_eq!(c.cancel_auction(&ctx(200, "alice"), 1), Err(AuctionError::ReentrancyDetected));
    assert_eq!(c.reveal_bid(&env, &ctx(200, "carol"), 1, 15, vec![]), Err(AuctionError::ReentrancyDetected));
    assert_eq!(c.get_total_auctions(), 2);
    assert_eq!(c.get_auction(1).unwrap().auction_id, 1);
}

#[test]
fn empty_parts_restore_a_fresh_contract() {
    let env = Env::default();
    let parts = ContractParts {
        locked: false,
        auction_counter: 0,
        bid_counter: 0,
        auctions: vec![],
        bids: vec![],
        user_auctions: vec![],
        user_bids: vec![],
        committed: vec![],
    };
    let c = SealedBidAuction::restore(&env, parts).unwrap();
    assert_eq!(c.get_total_auctions(), 0);
    assert_eq!(c.get_total_bids(), 0);
}

#[test]
fn revealed_state_round_trips() {
    let env = Env::default();
    let mut c = SealedBidAuction::new();
    c.create_auction(&ctx(100, "alice"), b"A".to_vec(), vec![], 10, 1000).unwrap();
    let h = SealedBidAuction::get_commitment(&env, 40, &b"k".to_vec());
    c.commit_bid(&ctx(200, "bob"), 1, h, 40).unwrap();
    c.reveal_bid(&env, &ctx(300, "bob"), 1, 40, b"k".to_vec()).unwrap();
    let parts = c.into_parts();
    assert_eq!(parts.auctions[0].highest_bid, 40);
    assert_eq!(parts.auctions[0].highest_bidder, b"bob".to_vec());
    let restored = SealedBidAuction::restore(&env, parts).unwrap();
    let mut tampered = restored.into_parts();
    tampered.auctions[0].highest_bidder = b"mallory".to_vec();
    assert!(SealedBidAuction::restore(&env, tampered).is_none());
    let mut c2 = SealedBidAuction::new();
    c2.create_auction(&ctx(100, "alice"), b"A".to_vec(), vec![], 10, 1000).unwrap();
    c2.commit_bid(&ctx(200, "bob"), 1, SealedBidAuction::get_commitment(&env, 40, &b"k".to_vec()), 40).unwrap();
    c2.reveal_bid(&env, &ctx(300, "bob"), 1, 40, b"k".to_vec()).unwrap();
    let mut p2 = c2.into_parts();
    p2.bids[0].secret = b"other".to_vec();
    assert!(SealedBidAuction::restore(&env, p2).is_none());
}
