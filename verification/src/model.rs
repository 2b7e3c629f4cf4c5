use vstd::prelude::*;
use crate::hashing::commitment_of;
use crate::registry::{append_for, ids_owned, lemma_ids_owned_push, lemma_lists_match_append, lists_match, seq_set};
use crate::types::{AuctionError, AuctionModel, AuctionStatus, BidModel, BidStatus, MAX_BID_AMOUNT, MAX_DURATION};

verus! {

/// The whole state of the contract.
pub struct ContractModel {
    /// The reentrancy guard.
    pub locked: bool,
    /// The number of auctions created so far; the last auction's id.
    pub auction_counter: u64,
    /// The number of bids committed so far; the last bid's id.
    pub bid_counter: u64,
    /// Every auction, in the order of creation; the auction with id `k` is
    /// at position `k - 1`.
    pub auctions: Seq<AuctionModel>,
    /// Every bid, in the order of commitment; the bid with id `k` is at
    /// position `k - 1`.
    pub bids: Seq<BidModel>,
    /// The ids of the auctions each address created.
    pub user_auctions: Map<Seq<u8>, Seq<u64>>,
    /// The ids of the bids each address committed.
    pub user_bids: Map<Seq<u8>, Seq<u64>>,
    /// The (auction id, bidder) pairs that have committed a bid.
    pub committed: Set<(u64, Seq<u8>)>,
}

/// Each auction's creator paired with its id, in creation order.
pub open spec fn auction_owners(auctions: Seq<AuctionModel>) -> Seq<(Seq<u8>, u64)> {
    auctions.map_values(|a: AuctionModel| (a.creator, a.auction_id))
}

/// Each bid's bidder paired with its id, in commitment order.
pub open spec fn bid_owners(bids: Seq<BidModel>) -> Seq<(Seq<u8>, u64)> {
    bids.map_values(|b: BidModel| (b.bidder, b.bid_id))
}

/// Each bid's auction id paired with its bidder, in commitment order.
pub open spec fn bid_keys(bids: Seq<BidModel>) -> Seq<(u64, Seq<u8>)> {
    bids.map_values(|b: BidModel| (b.auction_id, b.bidder))
}

/// The number of bids that name `auction_id`.
pub open spec fn bids_naming(bids: Seq<BidModel>, auction_id: u64) -> nat
    decreases bids.len(),
{
    if bids.len() == 0 {
        0
    } else {
        bids_naming(bids.drop_last(), auction_id) + if bids.last().auction_id == auction_id {
            1nat
        } else {
            0nat
        }
    }
}

/// What a bid holds in its state: a committed bid has no amount, secret or
/// reveal time yet; a revealed bid holds an amount within the limit whose
/// commitment, with its secret, is the stored one. No bid is refunded.
pub open spec fn bid_state_ok(b: BidModel) -> bool {
    match b.status {
        BidStatus::Committed => b.bid_amount == 0 && b.secret.len() == 0 && b.revealed_at == 0,
        BidStatus::Revealed => b.bid_amount <= MAX_BID_AMOUNT && b.commitment == commitment_of(
            b.bid_amount,
            b.secret,
        ),
        BidStatus::Refunded => false,
    }
}

impl ContractModel {
    /// What every reachable state satisfies:
    /// - the counters match the lists, and ids are handed out in order from one;
    /// - each bid names a stored auction and is in a consistent state;
    /// - each auction's bid count is the number of bids that name it;
    /// - each auction's highest bid is at least every revealed bid that names
    ///   it and, unless it is zero, is the amount of one of them, revealed by
    ///   the recorded highest bidder;
    /// - the per-user lists hold exactly each user's auctions and bids, and
    ///   the committed pairs are exactly those of the stored bids.
    pub open spec fn wf(self) -> bool {
        &&& self.auctions.len() == self.auction_counter
        &&& self.bids.len() == self.bid_counter
        &&& forall|i: int| 0 <= i < self.auctions.len() ==> #[trigger] self.auctions[i].auction_id == i + 1
        &&& forall|i: int| 0 <= i < self.bids.len() ==> #[trigger] self.bids[i].bid_id == i + 1
        &&& forall|i: int|
            0 <= i < self.bids.len() ==> 1 <= #[trigger] self.bids[i].auction_id <= self.auctions.len()
        &&& forall|i: int| 0 <= i < self.bids.len() ==> bid_state_ok(#[trigger] self.bids[i])
        &&& forall|i: int|
            0 <= i < self.bids.len() && #[trigger] self.bids[i].status == BidStatus::Revealed
                ==> self.auctions[self.bids[i].auction_id - 1].highest_bid >= self.bids[i].bid_amount
        &&& forall|i: int|
            0 <= i < self.auctions.len() && #[trigger] self.auctions[i].highest_bid != 0
                ==> exists|j: int| self.is_winning_bid(i, j)
        &&& forall|i: int|
            0 <= i < self.auctions.len() ==> #[trigger] self.auctions[i].bid_count == bids_naming(
                self.bids,
                (i + 1) as u64,
            )
        &&& lists_match(self.user_auctions, auction_owners(self.auctions))
        &&& lists_match(self.user_bids, bid_owners(self.bids))
        &&& self.committed == seq_set(bid_keys(self.bids))
    }

    /// Bid `j` is a revealed bid for the auction at position `i` whose amount
    /// and bidder are the auction's recorded highest bid and bidder.
    pub open spec fn is_winning_bid(self, i: int, j: int) -> bool {
        &&& 0 <= j < self.bids.len()
        &&& self.bids[j].status == BidStatus::Revealed
        &&& self.bids[j].auction_id == i + 1
        &&& self.bids[j].bid_amount == self.auctions[i].highest_bid
        &&& self.bids[j].bidder == self.auctions[i].highest_bidder
    }

    /// The state of a freshly deployed contract.
    pub open spec fn initial() -> ContractModel {
        ContractModel {
            locked: false,
            auction_counter: 0,
            bid_counter: 0,
            auctions: Seq::empty(),
            bids: Seq::empty(),
            user_auctions: Map::empty(),
            user_bids: Map::empty(),
            committed: Set::empty(),
        }
    }

    /// The auction with id `auction_id`, if there is one.
    pub open spec fn auction_at(self, auction_id: u64) -> Option<AuctionModel> {
        if 1 <= auction_id <= self.auctions.len() {
            Some(self.auctions[auction_id - 1])
        } else {
            None
        }
    }

    /// The bid with id `bid_id`, if there is one.
    pub open spec fn bid_at(self, bid_id: u64) -> Option<BidModel> {
        if 1 <= bid_id <= self.bids.len() {
            Some(self.bids[bid_id - 1])
        } else {
            None
        }
    }
}

// ---------------------------------------------------------------- create

/// The first check that refuses `create_auction`, if any.
pub open spec fn create_auction_error(m: ContractModel, now: u64, starting_bid: u64, duration: u64) -> Option<AuctionError> {
    if m.locked {
        Some(AuctionError::ReentrancyDetected)
    } else if starting_bid == 0 {
        Some(AuctionError::StartingBidZero)
    } else if duration == 0 {
        Some(AuctionError::DurationZero)
    } else if starting_bid > MAX_BID_AMOUNT {
        Some(AuctionError::StartingBidTooHigh)
    } else if duration > MAX_DURATION {
        Some(AuctionError::DurationTooLong)
    } else if m.auction_counter == u64::MAX {
        Some(AuctionError::AuctionCounterOverflow)
    } else if now + duration > u64::MAX {
        Some(AuctionError::EndTimeOverflow)
    } else {
        None
    }
}

/// The auction that `create_auction` stores: active, ending `duration`
/// seconds from now, with the creator as its provisional highest bidder.
pub open spec fn new_auction(m: ContractModel, now: u64, creator: Seq<u8>, title: Seq<u8>, description: Seq<u8>, starting_bid: u64, duration: u64) -> AuctionModel {
    AuctionModel {
        auction_id: (m.auction_counter + 1) as u64,
        creator,
        title,
        description,
        starting_bid,
        end_time: (now + duration) as u64,
        bid_count: 0,
        highest_bidder: creator,
        highest_bid: 0,
        status: AuctionStatus::Active,
        created_at: now,
        ended_at: 0,
    }
}

/// The state after a successful `create_auction`.
pub open spec fn after_create(m: ContractModel, now: u64, creator: Seq<u8>, title: Seq<u8>, description: Seq<u8>, starting_bid: u64, duration: u64) -> ContractModel {
    let a = new_auction(m, now, creator, title, description, starting_bid, duration);
    ContractModel {
        auction_counter: a.auction_id,
        auctions: m.auctions.push(a),
        user_auctions: append_for(m.user_auctions, creator, a.auction_id),
        ..m
    }
}

// ---------------------------------------------------------------- commit

/// The first check that refuses `commit_bid`, if any.
pub open spec fn commit_bid_error(m: ContractModel, now: u64, bidder: Seq<u8>, auction_id: u64, bid_amount: u64) -> Option<AuctionError> {
    if m.locked {
        Some(AuctionError::ReentrancyDetected)
    } else if m.auction_at(auction_id) is None {
        Some(AuctionError::AuctionNotFound)
    } else {
        let a = m.auctions[auction_id - 1];
        if a.status != AuctionStatus::Active {
            Some(AuctionError::AuctionNotActive)
        } else if now >= a.end_time {
            Some(AuctionError::AuctionEnded)
        } else if m.committed.contains((auction_id, bidder)) {
            Some(AuctionError::AlreadyCommitted)
        } else if bid_amount < a.starting_bid {
            Some(AuctionError::BidBelowStartingBid)
        } else if bid_amount > MAX_BID_AMOUNT {
            Some(AuctionError::BidAmountTooHigh)
        } else if m.bid_counter == u64::MAX {
            Some(AuctionError::BidCounterOverflow)
        } else if a.bid_count == u64::MAX {
            Some(AuctionError::BidCountOverflow)
        } else {
            None
        }
    }
}

/// The bid that `commit_bid` stores: committed, with no amount or secret yet.
pub open spec fn new_bid(m: ContractModel, now: u64, bidder: Seq<u8>, auction_id: u64, commitment: Seq<u8>) -> BidModel {
    BidModel {
        bid_id: (m.bid_counter + 1) as u64,
        auction_id,
        bidder,
        commitment,
        bid_amount: 0,
        secret: Seq::empty(),
        status: BidStatus::Committed,
        committed_at: now,
        revealed_at: 0,
    }
}

/// The state after a successful `commit_bid`.
pub open spec fn after_commit(m: ContractModel, now: u64, bidder: Seq<u8>, auction_id: u64, commitment: Seq<u8>) -> ContractModel {
    let b = new_bid(m, now, bidder, auction_id, commitment);
    let a = m.auctions[auction_id - 1];
    ContractModel {
        bid_counter: b.bid_id,
        bids: m.bids.push(b),
        auctions: m.auctions.update(auction_id - 1, AuctionModel { bid_count: (a.bid_count + 1) as u64, ..a }),
        committed: m.committed.insert((auction_id, bidder)),
        user_bids: append_for(m.user_bids, bidder, b.bid_id),
        ..m
    }
}

// ---------------------------------------------------------------- reveal

/// The first check that refuses `reveal_bid`, if any, where `expected` is the
/// commitment computed from the revealed amount and secret.
pub open spec fn reveal_bid_error(m: ContractModel, now: u64, caller: Seq<u8>, bid_id: u64, bid_amount: u64, expected: Seq<u8>) -> Option<AuctionError> {
    if m.locked {
        Some(AuctionError::ReentrancyDetected)
    } else if m.bid_at(bid_id) is None {
        Some(AuctionError::BidNotFound)
    } else {
        let b = m.bids[bid_id - 1];
        let a = m.auctions[b.auction_id - 1];
        if b.bidder != caller {
            Some(AuctionError::NotBidOwner)
        } else if b.status != BidStatus::Committed {
            Some(AuctionError::BidAlreadyRevealed)
        } else if now >= a.end_time {
            Some(AuctionError::RevealPeriodEnded)
        } else if expected != b.commitment {
            Some(AuctionError::InvalidCommitment)
        } else if bid_amount > MAX_BID_AMOUNT {
            Some(AuctionError::BidAmountTooHigh)
        } else {
            None
        }
    }
}

/// The state after a successful `reveal_bid`: the bid holds its amount and
/// secret, and the auction's highest bid is raised where the amount beats it.
pub open spec fn after_reveal(m: ContractModel, now: u64, bid_id: u64, bid_amount: u64, secret: Seq<u8>) -> ContractModel {
    let b = m.bids[bid_id - 1];
    let a = m.auctions[b.auction_id - 1];
    let revealed = BidModel {
        bid_amount,
        secret,
        status: BidStatus::Revealed,
        revealed_at: now,
        ..b
    };
    ContractModel {
        bids: m.bids.update(bid_id - 1, revealed),
        auctions: if bid_amount > a.highest_bid {
            m.auctions.update(b.auction_id - 1, AuctionModel { highest_bid: bid_amount, highest_bidder: b.bidder, ..a })
        } else {
            m.auctions
        },
        ..m
    }
}

// ---------------------------------------------------------------- end and cancel

/// The first check that refuses `end_auction`, if any.
pub open spec fn end_auction_error(m: ContractModel, now: u64, auction_id: u64) -> Option<AuctionError> {
    if m.locked {
        Some(AuctionError::ReentrancyDetected)
    } else if m.auction_at(auction_id) is None {
        Some(AuctionError::AuctionNotFound)
    } else if m.auctions[auction_id - 1].status != AuctionStatus::Active {
        Some(AuctionError::AuctionNotActive)
    } else if now < m.auctions[auction_id - 1].end_time {
        Some(AuctionError::AuctionNotEnded)
    } else {
        None
    }
}

/// The state with the auction `auction_id` moved to `status` at time `now`.
pub open spec fn with_closed_auction(m: ContractModel, now: u64, auction_id: u64, status: AuctionStatus) -> ContractModel {
    let a = m.auctions[auction_id - 1];
    ContractModel {
        auctions: m.auctions.update(auction_id - 1, AuctionModel { status, ended_at: now, ..a }),
        ..m
    }
}

/// The first check that refuses `cancel_auction`, if any.
pub open spec fn cancel_auction_error(m: ContractModel, caller: Seq<u8>, auction_id: u64) -> Option<AuctionError> {
    if m.locked {
        Some(AuctionError::ReentrancyDetected)
    } else if m.auction_at(auction_id) is None {
        Some(AuctionError::AuctionNotFound)
    } else if m.auctions[auction_id - 1].creator != caller {
        Some(AuctionError::NotAuctionCreator)
    } else if m.auctions[auction_id - 1].status != AuctionStatus::Active {
        Some(AuctionError::AuctionNotActive)
    } else {
        None
    }
}

// ---------------------------------------------------------------- invariant

pub proof fn lemma_bids_naming_push(bids: Seq<BidModel>, b: BidModel, x: u64)
    ensures
        bids_naming(bids.push(b), x) == bids_naming(bids, x) + if b.auction_id == x {
            1nat
        } else {
            0nat
        },
{
    assert(bids.push(b).drop_last() =~= bids);
}

proof fn lemma_bids_naming_absent(bids: Seq<BidModel>, x: u64)
    requires
        forall|i: int| 0 <= i < bids.len() ==> #[trigger] bids[i].auction_id != x,
    ensures
        bids_naming(bids, x) == 0,
    decreases bids.len(),
{
    if bids.len() > 0 {
        assert(bids.last().auction_id != x);
        lemma_bids_naming_absent(bids.drop_last(), x);
    }
}

proof fn lemma_bids_naming_update(bids: Seq<BidModel>, k: int, b: BidModel, x: u64)
    requires
        0 <= k < bids.len(),
        b.auction_id == bids[k].auction_id,
    ensures
        bids_naming(bids.update(k, b), x) == bids_naming(bids, x),
    decreases bids.len(),
{
    let u = bids.update(k, b);
    if k == bids.len() - 1 {
        assert(u.drop_last() =~= bids.drop_last());
    } else {
        lemma_bids_naming_update(bids.drop_last(), k, b, x);
        assert(u.drop_last() =~= bids.drop_last().update(k, b));
    }
}

proof fn lemma_seq_set_push(s: Seq<(u64, Seq<u8>)>, p: (u64, Seq<u8>))
    ensures
        seq_set(s.push(p)) == seq_set(s).insert(p),
{
    assert forall|q: (u64, Seq<u8>)| #[trigger] seq_set(s.push(p)).contains(q) == seq_set(s).insert(p).contains(q) by {
        if s.contains(q) {
            let i = choose|i: int| 0 <= i < s.len() && s[i] == q;
            assert(s.push(p)[i] == q);
        }
        if q == p {
            assert(s.push(p)[s.len() as int] == q);
        }
        if s.push(p).contains(q) {
            let i = choose|i: int| 0 <= i < s.push(p).len() && s.push(p)[i] == q;
            if i < s.len() {
                assert(s[i] == q);
            }
        }
    }
    assert(seq_set(s.push(p)) =~= seq_set(s).insert(p));
}

/// A successful `create_auction` keeps the state well formed.
pub proof fn lemma_create_keeps_wf(m: ContractModel, now: u64, creator: Seq<u8>, title: Seq<u8>, description: Seq<u8>, starting_bid: u64, duration: u64)
    requires
        m.wf(),
        create_auction_error(m, now, starting_bid, duration) is None,
    ensures
        after_create(m, now, creator, title, description, starting_bid, duration).wf(),
{
    let post = after_create(m, now, creator, title, description, starting_bid, duration);
    let a = new_auction(m, now, creator, title, description, starting_bid, duration);
    assert forall|i: int|
        0 <= i < post.auctions.len() && #[trigger] post.auctions[i].highest_bid != 0
        implies exists|j: int| post.is_winning_bid(i, j) by {
        assert(post.auctions[i] == m.auctions[i]);
        let j = choose|j: int| m.is_winning_bid(i, j);
        assert(post.is_winning_bid(i, j));
    }
    assert forall|j: int|
        0 <= j < post.bids.len() && #[trigger] post.bids[j].status == BidStatus::Revealed
        implies post.auctions[post.bids[j].auction_id - 1].highest_bid >= post.bids[j].bid_amount by {
        assert(1 <= m.bids[j].auction_id <= m.auctions.len());
        assert(post.auctions[m.bids[j].auction_id - 1] == m.auctions[m.bids[j].auction_id - 1]);
    }
    assert forall|i: int| 0 <= i < post.auctions.len() implies #[trigger] post.auctions[i].bid_count
        == bids_naming(post.bids, (i + 1) as u64) by {
        if i == m.auctions.len() {
            assert forall|k: int| 0 <= k < m.bids.len() implies #[trigger] m.bids[k].auction_id != (i + 1) as u64 by {
                assert(1 <= m.bids[k].auction_id <= m.auctions.len());
            }
            lemma_bids_naming_absent(m.bids, (i + 1) as u64);
        } else {
            assert(post.auctions[i] == m.auctions[i]);
        }
    }
    assert(auction_owners(post.auctions) =~= auction_owners(m.auctions).push((creator, a.auction_id)));
    lemma_lists_match_append(m.user_auctions, auction_owners(m.auctions), creator, a.auction_id);
}

/// A successful `commit_bid` keeps the state well formed.
pub proof fn lemma_commit_keeps_wf(m: ContractModel, now: u64, bidder: Seq<u8>, auction_id: u64, commitment: Seq<u8>, bid_amount: u64)
    requires
        m.wf(),
        commit_bid_error(m, now, bidder, auction_id, bid_amount) is None,
    ensures
        after_commit(m, now, bidder, auction_id, commitment).wf(),
{
    let post = after_commit(m, now, bidder, auction_id, commitment);
    let b = new_bid(m, now, bidder, auction_id, commitment);
    assert forall|i: int|
        0 <= i < post.auctions.len() && #[trigger] post.auctions[i].highest_bid != 0
        implies exists|j: int| post.is_winning_bid(i, j) by {
        assert(post.auctions[i].highest_bid == m.auctions[i].highest_bid);
        assert(post.auctions[i].highest_bidder == m.auctions[i].highest_bidder);
        let j = choose|j: int| m.is_winning_bid(i, j);
        assert(post.bids[j] == m.bids[j]);
        assert(post.is_winning_bid(i, j));
    }
    assert forall|j: int|
        0 <= j < post.bids.len() && #[trigger] post.bids[j].status == BidStatus::Revealed
        implies post.auctions[post.bids[j].auction_id - 1].highest_bid >= post.bids[j].bid_amount by {
        assert(post.bids[j] == m.bids[j]);
    }
    assert forall|j: int| 0 <= j < post.bids.len() implies bid_state_ok(#[trigger] post.bids[j]) by {
        if j < m.bids.len() {
            assert(post.bids[j] == m.bids[j]);
        }
    }
    assert forall|i: int| 0 <= i < post.auctions.len() implies #[trigger] post.auctions[i].bid_count
        == bids_naming(post.bids, (i + 1) as u64) by {
        lemma_bids_naming_push(m.bids, b, (i + 1) as u64);
        assert(m.auctions[i].bid_count == bids_naming(m.bids, (i + 1) as u64));
    }
    assert(auction_owners(post.auctions) =~= auction_owners(m.auctions));
    assert(bid_owners(post.bids) =~= bid_owners(m.bids).push((bidder, b.bid_id)));
    lemma_lists_match_append(m.user_bids, bid_owners(m.bids), bidder, b.bid_id);
    assert(bid_keys(post.bids) =~= bid_keys(m.bids).push((auction_id, bidder)));
    lemma_seq_set_push(bid_keys(m.bids), (auction_id, bidder));
}

/// A successful `reveal_bid` keeps the state well formed.
pub proof fn lemma_reveal_keeps_wf(m: ContractModel, now: u64, caller: Seq<u8>, bid_id: u64, bid_amount: u64, secret: Seq<u8>)
    requires
        m.wf(),
        reveal_bid_error(m, now, caller, bid_id, bid_amount, commitment_of(bid_amount, secret)) is None,
    ensures
        after_reveal(m, now, bid_id, bid_amount, secret).wf(),
{
    let post = after_reveal(m, now, bid_id, bid_amount, secret);
    let k = bid_id - 1;
    let b = m.bids[k];
    let s = b.auction_id - 1;
    assert(1 <= b.auction_id <= m.auctions.len());
    assert forall|i: int|
        0 <= i < post.auctions.len() && #[trigger] post.auctions[i].highest_bid != 0
        implies exists|j: int| post.is_winning_bid(i, j) by {
        if i == s && bid_amount > m.auctions[s].highest_bid {
            assert(post.is_winning_bid(i, k));
        } else {
            assert(post.auctions[i] == m.auctions[i]);
            let j = choose|j: int| m.is_winning_bid(i, j);
            assert(j != k);
            assert(post.bids[j] == m.bids[j]);
            assert(post.is_winning_bid(i, j));
        }
    }
    assert forall|j: int|
        0 <= j < post.bids.len() && #[trigger] post.bids[j].status == BidStatus::Revealed
        implies post.auctions[post.bids[j].auction_id - 1].highest_bid >= post.bids[j].bid_amount by {
        if j != k {
            assert(post.bids[j] == m.bids[j]);
        }
    }
    assert forall|j: int| 0 <= j < post.bids.len() implies bid_state_ok(#[trigger] post.bids[j]) by {
        if j != k {
            assert(post.bids[j] == m.bids[j]);
        }
    }
    assert forall|i: int| 0 <= i < post.auctions.len() implies #[trigger] post.auctions[i].bid_count
        == bids_naming(post.bids, (i + 1) as u64) by {
        lemma_bids_naming_update(m.bids, k, post.bids[k], (i + 1) as u64);
        assert(post.auctions[i].bid_count == m.auctions[i].bid_count);
    }
    assert(auction_owners(post.auctions) =~= auction_owners(m.auctions));
    assert(bid_owners(post.bids) =~= bid_owners(m.bids));
    assert(bid_keys(post.bids) =~= bid_keys(m.bids));
}

/// Ending or cancelling an auction that is stored keeps the state well formed.
pub proof fn lemma_close_keeps_wf(m: ContractModel, now: u64, auction_id: u64, status: AuctionStatus)
    requires
        m.wf(),
        m.auction_at(auction_id) is Some,
    ensures
        with_closed_auction(m, now, auction_id, status).wf(),
{
    let post = with_closed_auction(m, now, auction_id, status);
    assert forall|i: int|
        0 <= i < post.auctions.len() && #[trigger] post.auctions[i].highest_bid != 0
        implies exists|j: int| post.is_winning_bid(i, j) by {
        assert(post.auctions[i].highest_bid == m.auctions[i].highest_bid);
        assert(post.auctions[i].highest_bidder == m.auctions[i].highest_bidder);
        let j = choose|j: int| m.is_winning_bid(i, j);
        assert(post.is_winning_bid(i, j));
    }
    assert forall|j: int|
        0 <= j < post.bids.len() && #[trigger] post.bids[j].status == BidStatus::Revealed
        implies post.auctions[post.bids[j].auction_id - 1].highest_bid >= post.bids[j].bid_amount by {
        assert(post.bids[j] == m.bids[j]);
    }
    assert forall|i: int| 0 <= i < post.auctions.len() implies #[trigger] post.auctions[i].bid_count
        == bids_naming(post.bids, (i + 1) as u64) by {
        assert(post.auctions[i].bid_count == m.auctions[i].bid_count);
    }
    assert(auction_owners(post.auctions) =~= auction_owners(m.auctions));
}

} // verus!
