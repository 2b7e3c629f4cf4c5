use sealed_auction::contract::SealedBidAuction;
use sealed_auction::types::{
    AuctionError, AuctionEvent, AuctionStatus, BidStatus, CallContext, MAX_BID_AMOUNT,
    MAX_DURATION,
};
use soroban_sdk::Env;

fn ctx(timestamp: u64, caller: &str) -> CallContext {
    CallContext { timestamp, caller: caller.as_bytes().to_vec() }
}

fn with_one_auction() -> SealedBidAuction {
    let mut c = SealedBidAuction::new();
    let r = c.create_auction(&ctx(1000, "alice"), b"Lamp".to_vec(), b"An old lamp".to_vec(), 50, 3600);
    assert_eq!(r.unwrap().0, 1);
    c
}

#[test]
fn fresh_contract_is_empty() {
    let c = SealedBidAuction::new();
    assert_eq!(c.get_total_auctions(), 0);
    assert_eq!(c.get_total_bids(), 0);
    assert_eq!(c.get_auction(0), Err(AuctionError::AuctionNotFound));
    assert_eq!(c.get_auction(1), Err(AuctionError::AuctionNotFound));
    assert_eq!(c.get_bid(0), Err(AuctionError::BidNotFound));
    assert_eq!(c.get_bid(1), Err(AuctionError::BidNotFound));
    assert_eq!(c.get_user_auctions(&b"alice".to_vec()), Vec::<u64>::new());
    assert_eq!(c.get_user_bids(&b"alice".to_vec()), Vec::<u64>::new());
}

#[test]
fn create_auction_records_it() {
    let mut c = SealedBidAuction::new();
    let (id, event) = c
        .create_auction(&ctx(1000, "alice"), b"Lamp".to_vec(), b"An old lamp".to_vec(), 50, 3600)
        .unwrap();
    assert_eq!(id, 1);
    assert_eq!(
        event,
        AuctionEvent::AuctionCreated { auction_id: 1, title: b"Lamp".to_vec(), starting_bid: 50, end_time: 4600 }
    );
    assert_eq!(c.get_total_auctions(), 1);
    let a = c.get_auction(1).unwrap();
    assert_eq!(a.auction_id, 1);
    assert_eq!(a.creator, b"alice".to_vec());
    assert_eq!(a.title, b"Lamp".to_vec());
    assert_eq!(a.description, b"An old lamp".to_vec());
    assert_eq!(a.starting_bid, 50);
    assert_eq!(a.end_time, 4600);
    assert_eq!(a.bid_count, 0);
    assert_eq!(a.highest_bidder, b"alice".to_vec());
    assert_eq!(a.highest_bid, 0);
    assert_eq!(a.status, AuctionStatus::Active);
    assert_eq!(a.created_at, 1000);
    assert_eq!(a.ended_at, 0);
    assert_eq!(c.get_user_auctions(&b"alice".to_vec()), vec![1]);
}

#[test]
fn auctions_are_read_back_by_their_ids() {
    let mut c = with_one_auction();
    assert_eq!(c.get_auction(0), Err(AuctionError::AuctionNotFound));
    assert_eq!(c.get_auction(2), Err(AuctionError::AuctionNotFound));
    let (id, _) = c.create_auction(&ctx(1000, "bob"), b"Vase".to_vec(), vec![], 10, 60).unwrap();
    assert_eq!(id, 2);
    assert_eq!(c.get_auction(2).unwrap().auction_id, 2);
    assert_eq!(c.get_auction(2).unwrap().title, b"Vase".to_vec());
    assert_eq!(c.get_auction(1).unwrap().auction_id, 1);
    assert_eq!(c.get_user_auctions(&b"bob".to_vec()), vec![2]);
    let (id3, _) = c.create_auction(&ctx(1000, "alice"), b"Rug".to_vec(), vec![], 10, 60).unwrap();
    assert_eq!(id3, 3);
    assert_eq!(c.get_user_auctions(&b"alice".to_vec()), vec![1, 3]);
    assert_eq!(c.get_auction(3).unwrap().title, b"Rug".to_vec());
}

#[test]
fn create_auction_rejects_bad_inputs() {
    let mut c = SealedBidAuction::new();
    let x = ctx(1000, "alice");
    assert_eq!(c.create_auction(&x, vec![], vec![], 0, 10), Err(AuctionError::StartingBidZero));
    assert_eq!(c.create_auction(&x, vec![], vec![], 5, 0), Err(AuctionError::DurationZero));
    assert_eq!(c.create_auction(&x, vec![], vec![], MAX_BID_AMOUNT + 1, 10), Err(AuctionError::StartingBidTooHigh));
    assert_eq!(c.create_auction(&x, vec![], vec![], 5, MAX_DURATION + 1), Err(AuctionError::DurationTooLong));
    assert_eq!(
        c.create_auction(&ctx(u64::MAX - 5, "alice"), vec![], vec![], 5, 10),
        Err(AuctionError::EndTimeOverflow)
    );
    assert_eq!(c.get_total_auctions(), 0);
    assert!(c.create_auction(&x, vec![], vec![], MAX_BID_AMOUNT, MAX_DURATION).is_ok());
    assert!(c.create_auction(&ctx(u64::MAX - 10, "alice"), vec![], vec![], 5, 10).is_ok());
    assert_eq!(c.get_total_auctions(), 2);
}

#[test]
fn commit_bid_records_it() {
    let mut c = with_one_auction();
    let (bid_id, event) = c.commit_bid(&ctx(2000, "bob"), 1, b"c0ffee".to_vec(), 60).unwrap();
    assert_eq!(bid_id, 1);
    assert_eq!(
        event,
        AuctionEvent::BidCommitted { auction_id: 1, bid_id: 1, bidder: b"bob".to_vec(), commitment: b"c0ffee".to_vec() }
    );
    let b = c.get_bid(1).unwrap();
    assert_eq!(b.bid_id, 1);
    assert_eq!(b.auction_id, 1);
    assert_eq!(b.bidder, b"bob".to_vec());
    assert_eq!(b.commitment, b"c0ffee".to_vec());
    assert_eq!(b.bid_amount, 0);
    assert_eq!(b.secret, Vec::<u8>::new());
    assert_eq!(b.status, BidStatus::Committed);
    assert_eq!(b.committed_at, 2000);
    assert_eq!(b.revealed_at, 0);
    assert_eq!(c.get_auction(1).unwrap().bid_count, 1);
    assert_eq!(c.get_total_bids(), 1);
    assert_eq!(c.get_user_bids(&b"bob".to_vec()), vec![1]);
    assert_eq!(c.get_bid(2), Err(AuctionError::BidNotFound));
}

#[test]
fn commit_bid_rejections() {
    let mut c = with_one_auction();
    assert_eq!(c.commit_bid(&ctx(2000, "bob"), 0, vec![1], 60), Err(AuctionError::AuctionNotFound));
    assert_eq!(c.commit_bid(&ctx(2000, "bob"), 2, vec![1], 60), Err(AuctionError::AuctionNotFound));
    assert_eq!(c.commit_bid(&ctx(4600, "bob"), 1, vec![1], 60), Err(AuctionError::AuctionEnded));
    assert_eq!(c.commit_bid(&ctx(2000, "bob"), 1, vec![1], 49), Err(AuctionError::BidBelowStartingBid));
    assert_eq!(c.commit_bid(&ctx(2000, "bob"), 1, vec![1], 0), Err(AuctionError::BidBelowStartingBid));
    assert_eq!(
        c.commit_bid(&ctx(2000, "bob"), 1, vec![1], MAX_BID_AMOUNT + 1),
        Err(AuctionError::BidAmountTooHigh)
    );
    assert_eq!(c.get_total_bids(), 0);
    assert_eq!(c.get_auction(1).unwrap().bid_count, 0);
    assert!(c.commit_bid(&ctx(2000, "bob"), 1, vec![1], 50).is_ok());
    assert_eq!(c.commit_bid(&ctx(2001, "bob"), 1, vec![2], 70), Err(AuctionError::AlreadyCommitted));
    assert!(c.commit_bid(&ctx(2001, "carol"), 1, vec![2], 70).is_ok());
    assert_eq!(c.get_total_bids(), 2);
    assert_eq!(c.get_auction(1).unwrap().bid_count, 2);
}

#[test]
fn reveal_raises_the_highest_bid() {
    let env = Env::default();
    let mut c = with_one_auction();
    let bob_commit = SealedBidAuction::get_commitment(&env, 70, &b"bob-secret".to_vec());
    let carol_commit = SealedBidAuction::get_commitment(&env, 90, &b"carol-secret".to_vec());
    let dave_commit = SealedBidAuction::get_commitment(&env, 80, &b"dave-secret".to_vec());
    c.commit_bid(&ctx(2000, "bob"), 1, bob_commit, 70).unwrap();
    c.commit_bid(&ctx(2000, "carol"), 1, carol_commit, 90).unwrap();
    c.commit_bid(&ctx(2000, "dave"), 1, dave_commit, 80).unwrap();

    let ev = c.reveal_bid(&env, &ctx(3000, "bob"), 1, 70, b"bob-secret".to_vec()).unwrap();
    assert_eq!(ev, AuctionEvent::BidRevealed { auction_id: 1, bid_id: 1, bidder: b"bob".to_vec(), bid_amount: 70 });
    let b = c.get_bid(1).unwrap();
    assert_eq!(b.status, BidStatus::Revealed);
    assert_eq!(b.bid_amount, 70);
    assert_eq!(b.secret, b"bob-secret".to_vec());
    assert_eq!(b.revealed_at, 3000);
    assert_eq!(c.get_auction(1).unwrap().highest_bid, 70);
    assert_eq!(c.get_auction(1).unwrap().highest_bidder, b"bob".to_vec());

    c.reveal_bid(&env, &ctx(3100, "carol"), 2, 90, b"carol-secret".to_vec()).unwrap();
    assert_eq!(c.get_auction(1).unwrap().highest_bid, 90);
    assert_eq!(c.get_auction(1).unwrap().highest_bidder, b"carol".to_vec());

    c.reveal_bid(&env, &ctx(3200, "dave"), 3, 80, b"dave-secret".to_vec()).unwrap();
    assert_eq!(c.get_auction(1).unwrap().highest_bid, 90);
    assert_eq!(c.get_auction(1).unwrap().highest_bidder, b"carol".to_vec());
    assert_eq!(c.get_bid(3).unwrap().bid_amount, 80);
    assert_eq!(c.get_auction(1).unwrap().bid_count, 3);
}

#[test]
fn a_tie_keeps_the_earlier_bidder() {
    let env = Env::default();
    let mut c = with_one_auction();
    c.commit_bid(&ctx(2000, "bob"), 1, SealedBidAuction::get_commitment(&env, 60, &b"x".to_vec()), 60).unwrap();
    c.commit_bid(&ctx(2000, "carol"), 1, SealedBidAuction::get_commitment(&env, 60, &b"y".to_vec()), 60).unwrap();
    c.reveal_bid(&env, &ctx(3000, "bob"), 1, 60, b"x".to_vec()).unwrap();
    c.reveal_bid(&env, &ctx(3000, "carol"), 2, 60, b"y".to_vec()).unwrap();
    assert_eq!(c.get_auction(1).unwrap().highest_bidder, b"bob".to_vec());
}

#[test]
fn reveal_rejections() {
    let env = Env::default();
    let mut c = with_one_auction();
    let commit = SealedBidAuction::get_commitment(&env, 70, &b"pw".to_vec());
    c.commit_bid(&ctx(2000, "bob"), 1, commit, 70).unwrap();
    assert_eq!(c.reveal_bid(&env, &ctx(3000, "bob"), 2, 70, b"pw".to_vec()), Err(AuctionError::BidNotFound));
    assert_eq!(c.reveal_bid(&env, &ctx(3000, "bob"), 0, 70, b"pw".to_vec()), Err(AuctionError::BidNotFound));
    assert_eq!(c.reveal_bid(&env, &ctx(3000, "eve"), 1, 70, b"pw".to_vec()), Err(AuctionError::NotBidOwner));
    assert_eq!(c.reveal_bid(&env, &ctx(4600, "bob"), 1, 70, b"pw".to_vec()), Err(AuctionError::RevealPeriodEnded));
    assert_eq!(c.reveal_bid(&env, &ctx(3000, "bob"), 1, 71, b"pw".to_vec()), Err(AuctionError::InvalidCommitment));
    assert_eq!(c.reveal_bid(&env, &ctx(3000, "bob"), 1, 70, b"px".to_vec()), Err(AuctionError::InvalidCommitment));
    assert_eq!(c.get_bid(1).unwrap().status, BidStatus::Committed);
    assert!(c.reveal_bid(&env, &ctx(3000, "bob"), 1, 70, b"pw".to_vec()).is_ok());
    assert_eq!(c.reveal_bid(&env, &ctx(3001, "bob"), 1, 70, b"pw".to_vec()), Err(AuctionError::BidAlreadyRevealed));
}

#[test]
fn reveal_of_an_amount_above_the_limit_is_refused() {
    let env = Env::default();
    let mut c = with_one_auction();
    let big = MAX_BID_AMOUNT + 1;
    let commit = SealedBidAuction::get_commitment(&env, big, &b"pw".to_vec());
    c.commit_bid(&ctx(2000, "bob"), 1, commit.clone(), 60).unwrap();
    assert_eq!(
        c.reveal_bid_with_commitment(&ctx(3000, "bob"), 1, big, b"pw".to_vec(), &commit),
        Err(AuctionError::BidAmountTooHigh)
    );
    assert_eq!(c.reveal_bid(&env, &ctx(3000, "bob"), 1, big, b"pw".to_vec()), Err(AuctionError::BidAmountTooHigh));
}

#[test]
fn end_auction_after_its_end_time() {
    let mut c = with_one_auction();
    assert_eq!(c.end_auction(&ctx(4599, "anyone"), 1), Err(AuctionError::AuctionNotEnded));
    assert_eq!(c.end_auction(&ctx(4600, "anyone"), 2), Err(AuctionError::AuctionNotFound));
    let ev = c.end_auction(&ctx(4600, "anyone"), 1).unwrap();
    assert_eq!(ev, AuctionEvent::AuctionEnded { auction_id: 1, highest_bidder: b"alice".to_vec(), highest_bid: 0 });
    let a = c.get_auction(1).unwrap();
    assert_eq!(a.status, AuctionStatus::Ended);
    assert_eq!(a.ended_at, 4600);
    assert_eq!(c.end_auction(&ctx(5000, "anyone"), 1), Err(AuctionError::AuctionNotActive));
    assert_eq!(c.cancel_auction(&ctx(5000, "alice"), 1), Err(AuctionError::AuctionNotActive));
    assert_eq!(c.commit_bid(&ctx(1000, "bob"), 1, vec![1], 60), Err(AuctionError::AuctionNotActive));
}

#[test]
fn cancel_auction_by_its_creator() {
    let mut c = with_one_auction();
    assert_eq!(c.cancel_auction(&ctx(2000, "bob"), 1), Err(AuctionError::NotAuctionCreator));
    assert_eq!(c.cancel_auction(&ctx(2000, "alice"), 5), Err(AuctionError::AuctionNotFound));
    let ev = c.cancel_auction(&ctx(2000, "alice"), 1).unwrap();
    assert_eq!(ev, AuctionEvent::AuctionCancelled { auction_id: 1 });
    let a = c.get_auction(1).unwrap();
    assert_eq!(a.status, AuctionStatus::Cancelled);
    assert_eq!(a.ended_at, 2000);
    assert_eq!(c.cancel_auction(&ctx(2001, "alice"), 1), Err(AuctionError::AuctionNotActive));
    assert_eq!(c.end_auction(&ctx(9000, "alice"), 1), Err(AuctionError::AuctionNotActive));
}

#[test]
fn user_bid_lists_follow_commitments() {
    let mut c = with_one_auction();
    c.create_auction(&ctx(1000, "alice"), b"B".to_vec(), vec![], 1, 5000).unwrap();
    c.commit_bid(&ctx(2000, "bob"), 1, vec![1], 60).unwrap();
    c.commit_bid(&ctx(2000, "carol"), 2, vec![2], 60).unwrap();
    c.commit_bid(&ctx(2000, "bob"), 2, vec![3], 60).unwrap();
    assert_eq!(c.get_user_bids(&b"bob".to_vec()), vec![1, 3]);
    assert_eq!(c.get_user_bids(&b"carol".to_vec()), vec![2]);
    assert_eq!(c.get_user_bids(&b"dave".to_vec()), Vec::<u64>::new());
    assert_eq!(c.get_auction(2).unwrap().bid_count, 2);
    assert_eq!(c.get_auction(1).unwrap().bid_count, 1);
    assert_eq!(c.get_bid(3).unwrap().auction_id, 2);
}
