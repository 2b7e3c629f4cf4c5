use vstd::prelude::*;
use crate::text::copy_bytes;

verus! {

/// Largest amount accepted as a starting bid or a bid: half of `u64::MAX`.
pub const MAX_BID_AMOUNT: u64 = 9223372036854775807;

/// Longest accepted auction duration, in seconds: one year of 365 days.
pub const MAX_DURATION: u64 = 31536000;

/// Life cycle of an auction.
#[derive(Clone, Copy, Debug, PartialEq, Eq, Structural)]
pub enum AuctionStatus {
    Created,
    Active,
    Ended,
    Cancelled,
}

/// Life cycle of a bid.
#[derive(Clone, Copy, Debug, PartialEq, Eq, Structural)]
pub enum BidStatus {
    Committed,
    Revealed,
    Refunded,
}

/// An auction as it is stored. Addresses and texts are held as their bytes.
#[derive(Debug, PartialEq, Eq)]
pub struct Auction {
    pub auction_id: u64,
    pub creator: Vec<u8>,
    pub title: Vec<u8>,
    pub description: Vec<u8>,
    pub starting_bid: u64,
    pub end_time: u64,
    pub bid_count: u64,
    pub highest_bidder: Vec<u8>,
    pub highest_bid: u64,
    pub status: AuctionStatus,
    pub created_at: u64,
    pub ended_at: u64,
}

/// The mathematical value of an [`Auction`].
pub struct AuctionModel {
    pub auction_id: u64,
    pub creator: Seq<u8>,
    pub title: Seq<u8>,
    pub description: Seq<u8>,
    pub starting_bid: u64,
    pub end_time: u64,
    pub bid_count: u64,
    pub highest_bidder: Seq<u8>,
    pub highest_bid: u64,
    pub status: AuctionStatus,
    pub created_at: u64,
    pub ended_at: u64,
}

impl View for Auction {
    type V = AuctionModel;

    open spec fn view(&self) -> AuctionModel {
        AuctionModel {
            auction_id: self.auction_id,
            creator: self.creator@,
            title: self.title@,
            description: self.description@,
            starting_bid: self.starting_bid,
            end_time: self.end_time,
            bid_count: self.bid_count,
            highest_bidder: self.highest_bidder@,
            highest_bid: self.highest_bid,
            status: self.status,
            created_at: self.created_at,
            ended_at: self.ended_at,
        }
    }
}

impl Auction {
    /// A copy of this auction with the same value.
    pub fn duplicate(&self) -> (copy: Auction)
        ensures
            copy@ == self@,
    {
        Auction {
            auction_id: self.auction_id,
            creator: copy_bytes(&self.creator),
            title: copy_bytes(&self.title),
            description: copy_bytes(&self.description),
            starting_bid: self.starting_bid,
            end_time: self.end_time,
            bid_count: self.bid_count,
            highest_bidder: copy_bytes(&self.highest_bidder),
            highest_bid: self.highest_bid,
            status: self.status,
            created_at: self.created_at,
            ended_at: self.ended_at,
        }
    }
}

/// A sealed bid as it is stored: the amount and the secret stay empty until
/// the bid is revealed.
#[derive(Debug, PartialEq, Eq)]
pub struct Bid {
    pub bid_id: u64,
    pub auction_id: u64,
    pub bidder: Vec<u8>,
    pub commitment: Vec<u8>,
    pub bid_amount: u64,
    pub secret: Vec<u8>,
    pub status: BidStatus,
    pub committed_at: u64,
    pub revealed_at: u64,
}

/// The mathematical value of a [`Bid`].
pub struct BidModel {
    pub bid_id: u64,
    pub auction_id: u64,
    pub bidder: Seq<u8>,
    pub commitment: Seq<u8>,
    pub bid_amount: u64,
    pub secret: Seq<u8>,
    pub status: BidStatus,
    pub committed_at: u64,
    pub revealed_at: u64,
}

impl View for Bid {
    type V = BidModel;

    open spec fn view(&self) -> BidModel {
        BidModel {
            bid_id: self.bid_id,
            auction_id: self.auction_id,
            bidder: self.bidder@,
            commitment: self.commitment@,
            bid_amount: self.bid_amount,
            secret: self.secret@,
            status: self.status,
            committed_at: self.committed_at,
            revealed_at: self.revealed_at,
        }
    }
}

impl Bid {
    /// A copy of this bid with the same value.
    pub fn duplicate(&self) -> (copy: Bid)
        ensures
            copy@ == self@,
    {
        Bid {
            bid_id: self.bid_id,
            auction_id: self.auction_id,
            bidder: copy_bytes(&self.bidder),
            commitment: copy_bytes(&self.commitment),
            bid_amount: self.bid_amount,
            secret: copy_bytes(&self.secret),
            status: self.status,
            committed_at: self.committed_at,
            revealed_at: self.revealed_at,
        }
    }
}

/// What an invocation knows of its environment: the ledger's close time and
/// the address that is recorded as the acting party.
#[derive(Debug, PartialEq, Eq)]
pub struct CallContext {
    pub timestamp: u64,
    pub caller: Vec<u8>,
}

/// An event that a successful operation publishes.
#[derive(Debug, PartialEq, Eq)]
pub enum AuctionEvent {
    AuctionCreated { auction_id: u64, title: Vec<u8>, starting_bid: u64, end_time: u64 },
    BidCommitted { auction_id: u64, bid_id: u64, bidder: Vec<u8>, commitment: Vec<u8> },
    BidRevealed { auction_id: u64, bid_id: u64, bidder: Vec<u8>, bid_amount: u64 },
    AuctionEnded { auction_id: u64, highest_bidder: Vec<u8>, highest_bid: u64 },
    AuctionCancelled { auction_id: u64 },
}

/// The mathematical value of an [`AuctionEvent`].
pub enum EventModel {
    AuctionCreated { auction_id: u64, title: Seq<u8>, starting_bid: u64, end_time: u64 },
    BidCommitted { auction_id: u64, bid_id: u64, bidder: Seq<u8>, commitment: Seq<u8> },
    BidRevealed { auction_id: u64, bid_id: u64, bidder: Seq<u8>, bid_amount: u64 },
    AuctionEnded { auction_id: u64, highest_bidder: Seq<u8>, highest_bid: u64 },
    AuctionCancelled { auction_id: u64 },
}

impl View for AuctionEvent {
    type V = EventModel;

    open spec fn view(&self) -> EventModel {
        match self {
            AuctionEvent::AuctionCreated { auction_id, title, starting_bid, end_time } =>
                EventModel::AuctionCreated {
                    auction_id: *auction_id,
                    title: title@,
                    starting_bid: *starting_bid,
                    end_time: *end_time,
                },
            AuctionEvent::BidCommitted { auction_id, bid_id, bidder, commitment } =>
                EventModel::BidCommitted {
                    auction_id: *auction_id,
                    bid_id: *bid_id,
                    bidder: bidder@,
                    commitment: commitment@,
                },
            AuctionEvent::BidRevealed { auction_id, bid_id, bidder, bid_amount } =>
                EventModel::BidRevealed {
                    auction_id: *auction_id,
                    bid_id: *bid_id,
                    bidder: bidder@,
                    bid_amount: *bid_amount,
                },
            AuctionEvent::AuctionEnded { auction_id, highest_bidder, highest_bid } =>
                EventModel::AuctionEnded {
                    auction_id: *auction_id,
                    highest_bidder: highest_bidder@,
                    highest_bid: *highest_bid,
                },
            AuctionEvent::AuctionCancelled { auction_id } =>
                EventModel::AuctionCancelled { auction_id: *auction_id },
        }
    }
}

/// Why an operation was refused. A refused operation changes nothing.
#[derive(Clone, Copy, Debug, PartialEq, Eq, Structural)]
pub enum AuctionError {
    /// Another operation holds the reentrancy guard.
    ReentrancyDetected,
    /// The starting bid is zero.
    StartingBidZero,
    /// The duration is zero.
    DurationZero,
    /// The starting bid is above [`MAX_BID_AMOUNT`].
    StartingBidTooHigh,
    /// The duration is above [`MAX_DURATION`].
    DurationTooLong,
    /// The auction counter cannot be raised any further.
    AuctionCounterOverflow,
    /// The end time does not fit in a `u64`.
    EndTimeOverflow,
    /// No auction has the given id.
    AuctionNotFound,
    /// The auction is not active.
    AuctionNotActive,
    /// The auction's end time has passed.
    AuctionEnded,
    /// This bidder has already committed a bid to this auction.
    AlreadyCommitted,
    /// The bid is below the auction's starting bid.
    BidBelowStartingBid,
    /// The bid is above [`MAX_BID_AMOUNT`].
    BidAmountTooHigh,
    /// The bid counter cannot be raised any further.
    BidCounterOverflow,
    /// The auction's bid count cannot be raised any further.
    BidCountOverflow,
    /// No bid has the given id.
    BidNotFound,
    /// The caller is not the bidder.
    NotBidOwner,
    /// The bid is no longer in the committed state.
    BidAlreadyRevealed,
    /// The auction's end time has passed, so the bid can no longer be revealed.
    RevealPeriodEnded,
    /// The amount and secret do not match the stored commitment.
    InvalidCommitment,
    /// The auction's end time has not been reached yet.
    AuctionNotEnded,
    /// The caller is not the auction's creator.
    NotAuctionCreator,
}

} // verus!
