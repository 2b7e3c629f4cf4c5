use vstd::prelude::*;
use crate::model::{
    after_commit, after_create, after_reveal, cancel_auction_error, commit_bid_error,
    create_auction_error, end_auction_error, lemma_close_keeps_wf, lemma_commit_keeps_wf,
    lemma_create_keeps_wf, lemma_reveal_keeps_wf, new_auction, new_bid, reveal_bid_error,
    auction_owners, bid_keys, bid_owners, bid_state_ok, bids_naming, lemma_bids_naming_push,
    with_closed_auction, ContractModel,
};
use crate::hashing::{commitment_of, sha256};
use crate::registry::{
    entries_map, keys_set, list_of, owner_view, pair_view, seq_set, users_distinct, CommitKey, CommitmentSet,
    UserEntry, UserIndex,
};
use crate::text::{bytes_equal, copy_bytes, decimal, decimal_bytes, hex_bytes};
use crate::types::{
    Auction, AuctionError, AuctionEvent, AuctionStatus, Bid, BidStatus, CallContext, EventModel,
    MAX_BID_AMOUNT, MAX_DURATION,
};

verus! {

/// The position of the auction or bid with id `id` in a list of `len`
/// entries whose ids run from one: `id - 1`, where `1 <= id <= len`.
fn position(id: u64, len: usize) -> (index: Option<usize>)
    ensures
        match index {
            Some(i) => 1 <= id <= len && i == id - 1,
            None => !(1 <= id <= len),
        },
{
    if id == 0 {
        None
    } else if id - 1 < len as u64 {
        Some((id - 1) as usize)
    } else {
        None
    }
}

/// The number of bids that name `auction_id`.
fn count_naming(bids: &Vec<Bid>, auction_id: u64) -> (n: usize)
    ensures
        n == bids_naming(bids@.map_values(|b: Bid| b@), auction_id),
{
    let ghost bm = bids@.map_values(|b: Bid| b@);
    let mut n: usize = 0;
    let mut i: usize = 0;
    while i < bids.len()
        invariant
            i <= bids@.len(),
            n <= i,
            bm == bids@.map_values(|b: Bid| b@),
            n == bids_naming(bm.take(i as int), auction_id),
        decreases bids@.len() - i,
    {
        proof {
            assert(bm.take(i + 1) =~= bm.take(i as int).push(bm[i as int]));
            lemma_bids_naming_push(bm.take(i as int), bm[i as int], auction_id);
        }
        if bids[i].auction_id == auction_id {
            n = n + 1;
        }
        i = i + 1;
    }
    assert(bm.take(bids@.len() as int) =~= bm);
    n
}

/// Each auction's creator with its id.
fn auction_owner_pairs(auctions: &Vec<Auction>) -> (owners: Vec<(Vec<u8>, u64)>)
    ensures
        owner_view(owners@) == auction_owners(auctions@.map_values(|a: Auction| a@)),
{
    let ghost target = auction_owners(auctions@.map_values(|a: Auction| a@));
    let mut owners: Vec<(Vec<u8>, u64)> = Vec::new();
    let mut i: usize = 0;
    while i < auctions.len()
        invariant
            i <= auctions@.len(),
            target == auction_owners(auctions@.map_values(|a: Auction| a@)),
            owner_view(owners@).len() == i,
            forall|k: int| 0 <= k < i ==> #[trigger] owner_view(owners@)[k] == target[k],
        decreases auctions@.len() - i,
    {
        assert(target[i as int] == (auctions@[i as int].creator@, auctions@[i as int].auction_id));
        let ghost prev = owners@;
        owners.push((copy_bytes(&auctions[i].creator), auctions[i].auction_id));
        assert forall|k: int| 0 <= k < i + 1 implies #[trigger] owner_view(owners@)[k] == target[k] by {
            if k < i {
                assert(owners@[k] == prev[k]);
                assert(owner_view(prev)[k] == target[k]);
            }
        }
        i = i + 1;
    }
    assert(owner_view(owners@) =~= target);
    owners
}

/// Each bid's bidder with its id.
fn bid_owner_pairs(bids: &Vec<Bid>) -> (owners: Vec<(Vec<u8>, u64)>)
    ensures
        owner_view(owners@) == bid_owners(bids@.map_values(|b: Bid| b@)),
{
    let ghost target = bid_owners(bids@.map_values(|b: Bid| b@));
    let mut owners: Vec<(Vec<u8>, u64)> = Vec::new();
    let mut i: usize = 0;
    while i < bids.len()
        invariant
            i <= bids@.len(),
            target == bid_owners(bids@.map_values(|b: Bid| b@)),
            owner_view(owners@).len() == i,
            forall|k: int| 0 <= k < i ==> #[trigger] owner_view(owners@)[k] == target[k],
        decreases bids@.len() - i,
    {
        assert(target[i as int] == (bids@[i as int].bidder@, bids@[i as int].bid_id));
        let ghost prev = owners@;
        owners.push((copy_bytes(&bids[i].bidder), bids[i].bid_id));
        assert forall|k: int| 0 <= k < i + 1 implies #[trigger] owner_view(owners@)[k] == target[k] by {
            if k < i {
                assert(owners@[k] == prev[k]);
                assert(owner_view(prev)[k] == target[k]);
            }
        }
        i = i + 1;
    }
    assert(owner_view(owners@) =~= target);
    owners
}

/// Each bid's auction id with its bidder.
fn bid_key_pairs(bids: &Vec<Bid>) -> (keys: Vec<(u64, Vec<u8>)>)
    ensures
        pair_view(keys@) == bid_keys(bids@.map_values(|b: Bid| b@)),
{
    let ghost target = bid_keys(bids@.map_values(|b: Bid| b@));
    let mut keys: Vec<(u64, Vec<u8>)> = Vec::new();
    let mut i: usize = 0;
    while i < bids.len()
        invariant
            i <= bids@.len(),
            target == bid_keys(bids@.map_values(|b: Bid| b@)),
            pair_view(keys@).len() == i,
            forall|k: int| 0 <= k < i ==> #[trigger] pair_view(keys@)[k] == target[k],
        decreases bids@.len() - i,
    {
        assert(target[i as int] == (bids@[i as int].auction_id, bids@[i as int].bidder@));
        let ghost prev = keys@;
        keys.push((bids[i].auction_id, copy_bytes(&bids[i].bidder)));
        assert forall|k: int| 0 <= k < i + 1 implies #[trigger] pair_view(keys@)[k] == target[k] by {
            if k < i {
                assert(keys@[k] == prev[k]);
                assert(pair_view(prev)[k] == target[k]);
            }
        }
        i = i + 1;
    }
    assert(pair_view(keys@) =~= target);
    keys
}

/// Whether some revealed bid for the auction at position `i` carries the auction's
/// highest bid and bidder.
fn has_winning_bid(auctions: &Vec<Auction>, bids: &Vec<Bid>, i: usize, Ghost(m): Ghost<ContractModel>) -> (found: bool)
    requires
        i < auctions@.len(),
        m.auctions == auctions@.map_values(|a: Auction| a@),
        m.bids == bids@.map_values(|b: Bid| b@),
    ensures
        found == exists|j: int| m.is_winning_bid(i as int, j),
{
    let mut j: usize = 0;
    while j < bids.len()
        invariant
            i < auctions@.len(),
            m.auctions == auctions@.map_values(|a: Auction| a@),
            m.bids == bids@.map_values(|b: Bid| b@),
            j <= bids@.len(),
            forall|q: int| 0 <= q < j ==> !m.is_winning_bid(i as int, q),
        decreases bids@.len() - j,
    {
        if bids[j].status == BidStatus::Revealed && bids[j].auction_id >= 1 && bids[j].auction_id - 1 == i as u64
            && bids[j].bid_amount == auctions[i].highest_bid
            && bytes_equal(&bids[j].bidder, &auctions[i].highest_bidder) {
            assert(m.is_winning_bid(i as int, j as int));
            return true;
        }
        assert(!m.is_winning_bid(i as int, j as int));
        j = j + 1;
    }
    false
}

/// The stored state of the contract part by part, as it is kept between
/// invocations.
pub struct ContractParts {
    pub locked: bool,
    pub auction_counter: u64,
    pub bid_counter: u64,
    pub auctions: Vec<Auction>,
    pub bids: Vec<Bid>,
    pub user_auctions: Vec<UserEntry>,
    pub user_bids: Vec<UserEntry>,
    pub committed: Vec<CommitKey>,
}

/// The contract state that the parts describe.
pub open spec fn parts_model(p: ContractParts) -> ContractModel {
    ContractModel {
        locked: p.locked,
        auction_counter: p.auction_counter,
        bid_counter: p.bid_counter,
        auctions: p.auctions@.map_values(|a: Auction| a@),
        bids: p.bids@.map_values(|b: Bid| b@),
        user_auctions: entries_map(p.user_auctions@),
        user_bids: entries_map(p.user_bids@),
        committed: keys_set(p.committed@),
    }
}

/// Whether the parts describe a state that the contract can be in: its
/// model is well formed and no user has two entries in either index.
pub open spec fn parts_valid(p: ContractParts) -> bool {
    &&& parts_model(p).wf()
    &&& users_distinct(p.user_auctions@)
    &&& users_distinct(p.user_bids@)
}

/// The sealed-bid auction contract: its whole stored state.
pub struct SealedBidAuction {
    locked: bool,
    auction_counter: u64,
    bid_counter: u64,
    auctions: Vec<Auction>,
    bids: Vec<Bid>,
    user_auctions: UserIndex,
    user_bids: UserIndex,
    has_committed: CommitmentSet,
}

impl View for SealedBidAuction {
    type V = ContractModel;

    closed spec fn view(&self) -> ContractModel {
        ContractModel {
            locked: self.locked,
            auction_counter: self.auction_counter,
            bid_counter: self.bid_counter,
            auctions: self.auctions@.map_values(|a: Auction| a@),
            bids: self.bids@.map_values(|b: Bid| b@),
            user_auctions: self.user_auctions@,
            user_bids: self.user_bids@,
            committed: self.has_committed@,
        }
    }
}

impl SealedBidAuction {
    /// The invariant of the stored state; every operation keeps it.
    pub closed spec fn wf(&self) -> bool {
        &&& self@.wf()
        &&& self.user_auctions.wf()
        &&& self.user_bids.wf()
    }

    /// A well-formed contract has a well-formed model.
    pub proof fn lemma_wf_model(&self)
        requires
            self.wf(),
        ensures
            self@.wf(),
    {
    }

    /// A freshly deployed contract: no auction, no bid, the guard released.
    pub fn new() -> (contract: SealedBidAuction)
        ensures
            contract.wf(),
            contract@ == ContractModel::initial(),
    {
        let contract = SealedBidAuction {
            locked: false,
            auction_counter: 0,
            bid_counter: 0,
            auctions: Vec::new(),
            bids: Vec::new(),
            user_auctions: UserIndex::new(),
            user_bids: UserIndex::new(),
            has_committed: CommitmentSet::new(),
        };
        assert(contract@.auctions =~= Seq::empty());
        assert(contract@.bids =~= Seq::empty());
        assert(auction_owners(contract@.auctions) =~= Seq::empty());
        assert(bid_owners(contract@.bids) =~= Seq::empty());
        assert(seq_set(bid_keys(contract@.bids)) =~= Set::empty());
        contract
    }

    /// The contract whose stored state the parts hold, where they describe a
    /// state that the contract can be in. The commitments of revealed bids
    /// are checked with the host's hash.
    #[verifier::loop_isolation(false)]
    pub fn restore(env: &soroban_sdk::Env, parts: ContractParts) -> (contract: Option<SealedBidAuction>)
        ensures
            match contract {
                Some(c) => c.wf() && c@ == parts_model(parts),
                None => !parts_valid(parts),
            },
    {
        let ghost m = parts_model(parts);
        let ContractParts {
            locked,
            auction_counter,
            bid_counter,
            auctions,
            bids,
            user_auctions,
            user_bids,
            committed,
        } = parts;
        if auctions.len() as u64 != auction_counter || bids.len() as u64 != bid_counter {
            return None;
        }
        let mut i: usize = 0;
        while i < auctions.len()
            invariant
                i <= auctions@.len(),
                m.auctions == auctions@.map_values(|a: Auction| a@),
                forall|k: int| 0 <= k < i ==> #[trigger] m.auctions[k].auction_id == k + 1,
            decreases auctions@.len() - i,
        {
            if auctions[i].auction_id != i as u64 + 1 {
                assert(m.auctions[i as int].auction_id != i + 1);
                return None;
            }
            i = i + 1;
        }
        let mut j: usize = 0;
        while j < bids.len()
            invariant
                j <= bids@.len(),
                m.auctions == auctions@.map_values(|a: Auction| a@),
                m.bids == bids@.map_values(|b: Bid| b@),
                forall|k: int| 0 <= k < j ==> #[trigger] m.bids[k].bid_id == k + 1,
                forall|k: int| 0 <= k < j ==> 1 <= #[trigger] m.bids[k].auction_id <= m.auctions.len(),
                forall|k: int| 0 <= k < j ==> bid_state_ok(#[trigger] m.bids[k]),
                forall|k: int|
                    0 <= k < j && #[trigger] m.bids[k].status == BidStatus::Revealed
                        ==> m.auctions[m.bids[k].auction_id - 1].highest_bid >= m.bids[k].bid_amount,
            decreases bids@.len() - j,
        {
            assert(bids@[j as int]@ == m.bids[j as int]);
            if bids[j].bid_id != j as u64 + 1 {
                assert(m.bids[j as int].bid_id != j + 1);
                return None;
            }
            let a = match position(bids[j].auction_id, auctions.len()) {
                Some(a) => a,
                None => return None,
            };
            match bids[j].status {
                BidStatus::Committed => {
                    if bids[j].bid_amount != 0 || bids[j].secret.len() != 0 || bids[j].revealed_at != 0 {
                        return None;
                    }
                },
                BidStatus::Revealed => {
                    if bids[j].bid_amount > MAX_BID_AMOUNT {
                        return None;
                    }
                    let expected = Self::get_commitment(env, bids[j].bid_amount, &bids[j].secret);
                    if !bytes_equal(&expected, &bids[j].commitment) {
                        return None;
                    }
                    if auctions[a].highest_bid < bids[j].bid_amount {
                        return None;
                    }
                },
                BidStatus::Refunded => {
                    return None;
                },
            }
            j = j + 1;
        }
        let mut w: usize = 0;
        while w < auctions.len()
            invariant
                w <= auctions@.len(),
                m.auctions == auctions@.map_values(|a: Auction| a@),
                m.bids == bids@.map_values(|b: Bid| b@),
                forall|k: int|
                    0 <= k < w && #[trigger] m.auctions[k].highest_bid != 0 ==> exists|j: int| m.is_winning_bid(k, j),
                forall|k: int|
                    0 <= k < w ==> #[trigger] m.auctions[k].bid_count == bids_naming(m.bids, (k + 1) as u64),
            decreases auctions@.len() - w,
        {
            if auctions[w].highest_bid != 0 && !has_winning_bid(&auctions, &bids, w, Ghost(m)) {
                assert(m.auctions[w as int].highest_bid != 0);
                return None;
            }
            let n = count_naming(&bids, w as u64 + 1);
            if n as u64 != auctions[w].bid_count {
                assert(m.auctions[w as int].bid_count != bids_naming(m.bids, (w + 1) as u64));
                return None;
            }
            w = w + 1;
        }
        let user_auctions = match UserIndex::from_entries(user_auctions) {
            Some(index) => index,
            None => return None,
        };
        let user_bids = match UserIndex::from_entries(user_bids) {
            Some(index) => index,
            None => return None,
        };
        if !user_auctions.matches_owners(&auction_owner_pairs(&auctions)) {
            return None;
        }
        if !user_bids.matches_owners(&bid_owner_pairs(&bids)) {
            return None;
        }
        let has_committed = CommitmentSet::from_keys(committed);
        if !has_committed.equals_pairs(&bid_key_pairs(&bids)) {
            return None;
        }
        let contract = SealedBidAuction {
            locked,
            auction_counter,
            bid_counter,
            auctions,
            bids,
            user_auctions,
            user_bids,
            has_committed,
        };
        assert(contract@ == m);
        Some(contract)
    }

    /// The stored state of the contract, part by part.
    pub fn into_parts(self) -> (parts: ContractParts)
        requires
            self.wf(),
        ensures
            parts_valid(parts),
            parts_model(parts) == self@,
    {
        let ghost m = self@;
        let user_auctions = self.user_auctions.to_entries();
        let user_bids = self.user_bids.to_entries();
        let committed = self.has_committed.to_keys();
        let parts = ContractParts {
            locked: self.locked,
            auction_counter: self.auction_counter,
            bid_counter: self.bid_counter,
            auctions: self.auctions,
            bids: self.bids,
            user_auctions,
            user_bids,
            committed,
        };
        assert(parts_model(parts) == m);
        parts
    }

    /// Refuses the call while the reentrancy guard is held.
    fn require_not_locked(&self) -> (checked: Result<(), AuctionError>)
        ensures
            checked is Ok <==> !self.locked,
            checked is Err ==> checked == Err::<(), AuctionError>(AuctionError::ReentrancyDetected),
    {
        if self.locked {
            Err(AuctionError::ReentrancyDetected)
        } else {
            Ok(())
        }
    }

    /// Takes the reentrancy guard.
    fn set_lock(&mut self)
        ensures
            *final(self) == (SealedBidAuction { locked: true, ..*old(self) }),
    {
        self.locked = true;
    }

    /// Releases the reentrancy guard.
    fn remove_lock(&mut self)
        ensures
            *final(self) == (SealedBidAuction { locked: false, ..*old(self) }),
    {
        self.locked = false;
    }

    /// Creates an auction owned by the caller, active until `duration`
    /// seconds from now, and returns its id with the event to publish.
    pub fn create_auction(
        &mut self,
        ctx: &CallContext,
        title: Vec<u8>,
        description: Vec<u8>,
        starting_bid: u64,
        duration: u64,
    ) -> (result: Result<(u64, AuctionEvent), AuctionError>)
        requires
            old(self).wf(),
        ensures
            final(self).wf(),
            match result {
                Ok((auction_id, event)) => {
                    &&& create_auction_error(old(self)@, ctx.timestamp, starting_bid, duration) is None
                    &&& auction_id == old(self)@.auction_counter + 1
                    &&& final(self)@ == after_create(old(self)@, ctx.timestamp, ctx.caller@, title@, description@, starting_bid, duration)
                    &&& event@ == (EventModel::AuctionCreated {
                        auction_id,
                        title: title@,
                        starting_bid,
                        end_time: (ctx.timestamp + duration) as u64,
                    })
                },
                Err(e) => {
                    &&& create_auction_error(old(self)@, ctx.timestamp, starting_bid, duration) == Some(e)
                    &&& final(self)@ == old(self)@
                },
            },
    {
        if let Err(e) = self.require_not_locked() {
            return Err(e);
        }
        self.set_lock();
        let now = ctx.timestamp;
        if starting_bid == 0 {
            self.remove_lock();
            return Err(AuctionError::StartingBidZero);
        }
        if duration == 0 {
            self.remove_lock();
            return Err(AuctionError::DurationZero);
        }
        if starting_bid > MAX_BID_AMOUNT {
            self.remove_lock();
            return Err(AuctionError::StartingBidTooHigh);
        }
        if duration > MAX_DURATION {
            self.remove_lock();
            return Err(AuctionError::DurationTooLong);
        }
        let auction_id = match self.auction_counter.checked_add(1) {
            Some(id) => id,
            None => {
                self.remove_lock();
                return Err(AuctionError::AuctionCounterOverflow);
            },
        };
        let end_time = match now.checked_add(duration) {
            Some(t) => t,
            None => {
                self.remove_lock();
                return Err(AuctionError::EndTimeOverflow);
            },
        };
        self.auction_counter = auction_id;
        let ghost pre = old(self)@;
        let ghost a = new_auction(pre, now, ctx.caller@, title@, description@, starting_bid, duration);
        let auction = Auction {
            auction_id,
            creator: copy_bytes(&ctx.caller),
            title: copy_bytes(&title),
            description,
            starting_bid,
            end_time,
            bid_count: 0,
            highest_bidder: copy_bytes(&ctx.caller),
            highest_bid: 0,
            status: AuctionStatus::Active,
            created_at: now,
            ended_at: 0,
        };
        assert(auction@ == a);
        self.auctions.push(auction);
        self.user_auctions.append(&ctx.caller, auction_id);
        self.remove_lock();
        assert(self@.auctions =~= pre.auctions.push(a));
        proof {
            lemma_create_keeps_wf(pre, now, ctx.caller@, title@, description@, starting_bid, duration);
        }
        assert(self@ == after_create(pre, now, ctx.caller@, title@, description@, starting_bid, duration));
        Ok((auction_id, AuctionEvent::AuctionCreated { auction_id, title, starting_bid, end_time }))
    }

    /// Commits a sealed bid of the caller to the auction with id `auction_id` and
    /// returns the new bid's id with the event to publish. The amount is only
    /// checked here; the bid stores it when it is revealed.
    pub fn commit_bid(
        &mut self,
        ctx: &CallContext,
        auction_id: u64,
        commitment: Vec<u8>,
        bid_amount: u64,
    ) -> (result: Result<(u64, AuctionEvent), AuctionError>)
        requires
            old(self).wf(),
        ensures
            final(self).wf(),
            match result {
                Ok((bid_id, event)) => {
                    &&& commit_bid_error(old(self)@, ctx.timestamp, ctx.caller@, auction_id, bid_amount) is None
                    &&& bid_id == old(self)@.bid_counter + 1
                    &&& final(self)@ == after_commit(old(self)@, ctx.timestamp, ctx.caller@, auction_id, commitment@)
                    &&& event@ == (EventModel::BidCommitted {
                        auction_id,
                        bid_id,
                        bidder: ctx.caller@,
                        commitment: commitment@,
                    })
                },
                Err(e) => {
                    &&& commit_bid_error(old(self)@, ctx.timestamp, ctx.caller@, auction_id, bid_amount) == Some(e)
                    &&& final(self)@ == old(self)@
                },
            },
    {
        if let Err(e) = self.require_not_locked() {
            return Err(e);
        }
        self.set_lock();
        let ghost pre = old(self)@;
        let now = ctx.timestamp;
        let idx = match position(auction_id, self.auctions.len()) {
            Some(i) => i,
            None => {
                self.remove_lock();
                return Err(AuctionError::AuctionNotFound);
            },
        };
        assert(self.auctions@[idx as int]@ == pre.auctions[auction_id - 1]);
        if self.auctions[idx].status != AuctionStatus::Active {
            self.remove_lock();
            return Err(AuctionError::AuctionNotActive);
        }
        if now >= self.auctions[idx].end_time {
            self.remove_lock();
            return Err(AuctionError::AuctionEnded);
        }
        if self.has_committed.contains(auction_id, &ctx.caller) {
            self.remove_lock();
            return Err(AuctionError::AlreadyCommitted);
        }
        if bid_amount < self.auctions[idx].starting_bid {
            self.remove_lock();
            return Err(AuctionError::BidBelowStartingBid);
        }
        if bid_amount > MAX_BID_AMOUNT {
            self.remove_lock();
            return Err(AuctionError::BidAmountTooHigh);
        }
        let bid_id = match self.bid_counter.checked_add(1) {
            Some(id) => id,
            None => {
                self.remove_lock();
                return Err(AuctionError::BidCounterOverflow);
            },
        };
        let bid_count = match self.auctions[idx].bid_count.checked_add(1) {
            Some(n) => n,
            None => {
                self.remove_lock();
                return Err(AuctionError::BidCountOverflow);
            },
        };
        self.bid_counter = bid_id;
        let ghost b = new_bid(pre, now, ctx.caller@, auction_id, commitment@);
        let bid = Bid {
            bid_id,
            auction_id,
            bidder: copy_bytes(&ctx.caller),
            commitment: copy_bytes(&commitment),
            bid_amount: 0,
            secret: Vec::new(),
            status: BidStatus::Committed,
            committed_at: now,
            revealed_at: 0,
        };
        assert(bid@.secret =~= Seq::<u8>::empty());
        assert(bid@ == b);
        self.bids.push(bid);
        let mut updated = self.auctions[idx].duplicate();
        updated.bid_count = bid_count;
        self.auctions.set(idx, updated);
        self.has_committed.insert(auction_id, &ctx.caller);
        self.user_bids.append(&ctx.caller, bid_id);
        self.remove_lock();
        proof {
            lemma_commit_keeps_wf(pre, now, ctx.caller@, auction_id, commitment@, bid_amount);
        }
        let ghost post = after_commit(pre, now, ctx.caller@, auction_id, commitment@);
        assert(self@.bids =~= post.bids);
        assert(self@.auctions =~= post.auctions);
        assert(self@ == post);
        Ok((bid_id, AuctionEvent::BidCommitted { auction_id, bid_id, bidder: copy_bytes(&ctx.caller), commitment }))
    }

    /// Generates the commitment that a bidder publishes for `bid_amount` and
    /// `secret`, and that a reveal is checked against.
    pub fn get_commitment(env: &soroban_sdk::Env, bid_amount: u64, secret: &Vec<u8>) -> (commitment: Vec<u8>)
        ensures
            commitment@ == commitment_of(bid_amount, secret@),
    {
        let mut combined = decimal_bytes(bid_amount);
        let mut i: usize = 0;
        while i < secret.len()
            invariant
                i <= secret@.len(),
                combined@ == decimal(bid_amount as nat) + secret@.subrange(0, i as int),
            decreases secret@.len() - i,
        {
            combined.push(secret[i]);
            i = i + 1;
            assert(combined@ =~= decimal(bid_amount as nat) + secret@.subrange(0, i as int));
        }
        assert(secret@.subrange(0, secret@.len() as int) =~= secret@);
        let digest = sha256(env, &combined);
        hex_bytes(&digest)
    }

    /// Reveals the bid with id `bid_id` with its amount and secret, given the
    /// commitment computed from them, and returns the event to publish. The
    /// auction's highest bid and bidder are raised where the amount beats it.
    pub fn reveal_bid_with_commitment(
        &mut self,
        ctx: &CallContext,
        bid_id: u64,
        bid_amount: u64,
        secret: Vec<u8>,
        expected: &Vec<u8>,
    ) -> (result: Result<AuctionEvent, AuctionError>)
        requires
            old(self).wf(),
            expected@ == commitment_of(bid_amount, secret@),
        ensures
            final(self).wf(),
            match result {
                Ok(event) => {
                    &&& reveal_bid_error(old(self)@, ctx.timestamp, ctx.caller@, bid_id, bid_amount, expected@) is None
                    &&& final(self)@ == after_reveal(old(self)@, ctx.timestamp, bid_id, bid_amount, secret@)
                    &&& event@ == (EventModel::BidRevealed {
                        auction_id: old(self)@.bids[bid_id - 1].auction_id,
                        bid_id,
                        bidder: old(self)@.bids[bid_id - 1].bidder,
                        bid_amount,
                    })
                },
                Err(e) => {
                    &&& reveal_bid_error(old(self)@, ctx.timestamp, ctx.caller@, bid_id, bid_amount, expected@) == Some(e)
                    &&& final(self)@ == old(self)@
                },
            },
    {
        if let Err(e) = self.require_not_locked() {
            return Err(e);
        }
        self.set_lock();
        let ghost pre = old(self)@;
        let now = ctx.timestamp;
        let bidx = match position(bid_id, self.bids.len()) {
            Some(i) => i,
            None => {
                self.remove_lock();
                return Err(AuctionError::BidNotFound);
            },
        };
        assert(self.bids@[bidx as int]@ == pre.bids[bid_id - 1]);
        if !bytes_equal(&self.bids[bidx].bidder, &ctx.caller) {
            self.remove_lock();
            return Err(AuctionError::NotBidOwner);
        }
        if self.bids[bidx].status != BidStatus::Committed {
            self.remove_lock();
            return Err(AuctionError::BidAlreadyRevealed);
        }
        let auction_id = self.bids[bidx].auction_id;
        let aidx = match position(auction_id, self.auctions.len()) {
            Some(i) => i,
            None => {
                proof {
                    assert(1 <= pre.bids[bid_id - 1].auction_id <= pre.auctions.len());
                }
                self.remove_lock();
                return Err(AuctionError::AuctionNotFound);
            },
        };
        assert(self.auctions@[aidx as int]@ == pre.auctions[auction_id - 1]);
        if now >= self.auctions[aidx].end_time {
            self.remove_lock();
            return Err(AuctionError::RevealPeriodEnded);
        }
        if !bytes_equal(expected, &self.bids[bidx].commitment) {
            self.remove_lock();
            return Err(AuctionError::InvalidCommitment);
        }
        if bid_amount > MAX_BID_AMOUNT {
            self.remove_lock();
            return Err(AuctionError::BidAmountTooHigh);
        }
        let mut bid = self.bids[bidx].duplicate();
        let bidder = copy_bytes(&bid.bidder);
        bid.bid_amount = bid_amount;
        bid.secret = secret;
        bid.status = BidStatus::Revealed;
        bid.revealed_at = now;
        self.bids.set(bidx, bid);
        if bid_amount > self.auctions[aidx].highest_bid {
            let mut auction = self.auctions[aidx].duplicate();
            auction.highest_bid = bid_amount;
            auction.highest_bidder = copy_bytes(&bidder);
            self.auctions.set(aidx, auction);
        }
        self.remove_lock();
        proof {
            lemma_reveal_keeps_wf(pre, now, ctx.caller@, bid_id, bid_amount, secret@);
        }
        let ghost post = after_reveal(pre, now, bid_id, bid_amount, secret@);
        assert(self@.bids =~= post.bids);
        assert(self@.auctions =~= post.auctions);
        assert(self@ == post);
        Ok(AuctionEvent::BidRevealed { auction_id, bid_id, bidder, bid_amount })
    }

    /// Reveals a committed bid: checks that the amount and secret hash to the
    /// stored commitment, stores them, and raises the auction's highest bid
    /// where the amount beats it. Returns the event to publish.
    pub fn reveal_bid(
        &mut self,
        env: &soroban_sdk::Env,
        ctx: &CallContext,
        bid_id: u64,
        bid_amount: u64,
        secret: Vec<u8>,
    ) -> (result: Result<AuctionEvent, AuctionError>)
        requires
            old(self).wf(),
        ensures
            final(self).wf(),
            match result {
                Ok(event) => {
                    &&& reveal_bid_error(old(self)@, ctx.timestamp, ctx.caller@, bid_id, bid_amount, commitment_of(bid_amount, secret@)) is None
                    &&& final(self)@ == after_reveal(old(self)@, ctx.timestamp, bid_id, bid_amount, secret@)
                    &&& event@ == (EventModel::BidRevealed {
                        auction_id: old(self)@.bids[bid_id - 1].auction_id,
                        bid_id,
                        bidder: old(self)@.bids[bid_id - 1].bidder,
                        bid_amount,
                    })
                },
                Err(e) => {
                    &&& reveal_bid_error(old(self)@, ctx.timestamp, ctx.caller@, bid_id, bid_amount, commitment_of(bid_amount, secret@)) == Some(e)
                    &&& final(self)@ == old(self)@
                },
            },
    {
        let expected = Self::get_commitment(env, bid_amount, &secret);
        self.reveal_bid_with_commitment(ctx, bid_id, bid_amount, secret, &expected)
    }

    /// Ends the auction with id `auction_id` once its end time has been reached,
    /// and returns the event to publish with the winner and amount.
    pub fn end_auction(&mut self, ctx: &CallContext, auction_id: u64) -> (result: Result<AuctionEvent, AuctionError>)
        requires
            old(self).wf(),
        ensures
            final(self).wf(),
            match result {
                Ok(event) => {
                    &&& end_auction_error(old(self)@, ctx.timestamp, auction_id) is None
                    &&& final(self)@ == with_closed_auction(old(self)@, ctx.timestamp, auction_id, AuctionStatus::Ended)
                    &&& event@ == (EventModel::AuctionEnded {
                        auction_id,
                        highest_bidder: old(self)@.auctions[auction_id - 1].highest_bidder,
                        highest_bid: old(self)@.auctions[auction_id - 1].highest_bid,
                    })
                },
                Err(e) => {
                    &&& end_auction_error(old(self)@, ctx.timestamp, auction_id) == Some(e)
                    &&& final(self)@ == old(self)@
                },
            },
    {
        if let Err(e) = self.require_not_locked() {
            return Err(e);
        }
        self.set_lock();
        let ghost pre = old(self)@;
        let now = ctx.timestamp;
        let idx = match position(auction_id, self.auctions.len()) {
            Some(i) => i,
            None => {
                self.remove_lock();
                return Err(AuctionError::AuctionNotFound);
            },
        };
        assert(self.auctions@[idx as int]@ == pre.auctions[auction_id - 1]);
        if self.auctions[idx].status != AuctionStatus::Active {
            self.remove_lock();
            return Err(AuctionError::AuctionNotActive);
        }
        if now < self.auctions[idx].end_time {
            self.remove_lock();
            return Err(AuctionError::AuctionNotEnded);
        }
        let mut auction = self.auctions[idx].duplicate();
        auction.status = AuctionStatus::Ended;
        auction.ended_at = now;
        let highest_bidder = copy_bytes(&auction.highest_bidder);
        let highest_bid = auction.highest_bid;
        self.auctions.set(idx, auction);
        self.remove_lock();
        proof {
            lemma_close_keeps_wf(pre, now, auction_id, AuctionStatus::Ended);
        }
        let ghost post = with_closed_auction(pre, now, auction_id, AuctionStatus::Ended);
        assert(self@.auctions =~= post.auctions);
        assert(self@ == post);
        Ok(AuctionEvent::AuctionEnded { auction_id, highest_bidder, highest_bid })
    }

    /// Cancels the active auction with id `auction_id` on its creator's request,
    /// and returns the event to publish.
    pub fn cancel_auction(&mut self, ctx: &CallContext, auction_id: u64) -> (result: Result<AuctionEvent, AuctionError>)
        requires
            old(self).wf(),
        ensures
            final(self).wf(),
            match result {
                Ok(event) => {
                    &&& cancel_auction_error(old(self)@, ctx.caller@, auction_id) is None
                    &&& final(self)@ == with_closed_auction(old(self)@, ctx.timestamp, auction_id, AuctionStatus::Cancelled)
                    &&& event@ == (EventModel::AuctionCancelled { auction_id })
                },
                Err(e) => {
                    &&& cancel_auction_error(old(self)@, ctx.caller@, auction_id) == Some(e)
                    &&& final(self)@ == old(self)@
                },
            },
    {
        if let Err(e) = self.require_not_locked() {
            return Err(e);
        }
        self.set_lock();
        let ghost pre = old(self)@;
        let now = ctx.timestamp;
        let idx = match position(auction_id, self.auctions.len()) {
            Some(i) => i,
            None => {
                self.remove_lock();
                return Err(AuctionError::AuctionNotFound);
            },
        };
        assert(self.auctions@[idx as int]@ == pre.auctions[auction_id - 1]);
        if !bytes_equal(&self.auctions[idx].creator, &ctx.caller) {
            self.remove_lock();
            return Err(AuctionError::NotAuctionCreator);
        }
        if self.auctions[idx].status != AuctionStatus::Active {
            self.remove_lock();
            return Err(AuctionError::AuctionNotActive);
        }
        let mut auction = self.auctions[idx].duplicate();
        auction.status = AuctionStatus::Cancelled;
        auction.ended_at = now;
        self.auctions.set(idx, auction);
        self.remove_lock();
        proof {
            lemma_close_keeps_wf(pre, now, auction_id, AuctionStatus::Cancelled);
        }
        let ghost post = with_closed_auction(pre, now, auction_id, AuctionStatus::Cancelled);
        assert(self@.auctions =~= post.auctions);
        assert(self@ == post);
        Ok(AuctionEvent::AuctionCancelled { auction_id })
    }

    /// The auction with id `auction_id`.
    pub fn get_auction(&self, auction_id: u64) -> (result: Result<Auction, AuctionError>)
        requires
            self.wf(),
        ensures
            match result {
                Ok(auction) => self@.auction_at(auction_id) == Some(auction@),
                Err(e) => self@.auction_at(auction_id) is None && e == AuctionError::AuctionNotFound,
            },
    {
        match position(auction_id, self.auctions.len()) {
            Some(idx) => Ok(self.auctions[idx].duplicate()),
            None => Err(AuctionError::AuctionNotFound),
        }
    }

    /// The bid with id `bid_id`.
    pub fn get_bid(&self, bid_id: u64) -> (result: Result<Bid, AuctionError>)
        requires
            self.wf(),
        ensures
            match result {
                Ok(bid) => self@.bid_at(bid_id) == Some(bid@),
                Err(e) => self@.bid_at(bid_id) is None && e == AuctionError::BidNotFound,
            },
    {
        match position(bid_id, self.bids.len()) {
            Some(idx) => Ok(self.bids[idx].duplicate()),
            None => Err(AuctionError::BidNotFound),
        }
    }

    /// The ids of the auctions that `user` created, in creation order.
    pub fn get_user_auctions(&self, user: &Vec<u8>) -> (ids: Vec<u64>)
        requires
            self.wf(),
        ensures
            ids@ == list_of(self@.user_auctions, user@),
    {
        self.user_auctions.ids_of(user)
    }

    /// The ids of the bids that `user` committed, in commitment order.
    pub fn get_user_bids(&self, user: &Vec<u8>) -> (ids: Vec<u64>)
        requires
            self.wf(),
        ensures
            ids@ == list_of(self@.user_bids, user@),
    {
        self.user_bids.ids_of(user)
    }

    /// The number of auctions created so far.
    pub fn get_total_auctions(&self) -> (total: u64)
        ensures
            total == self@.auction_counter,
    {
        self.auction_counter
    }

    /// The number of bids committed so far.
    pub fn get_total_bids(&self) -> (total: u64)
        ensures
            total == self@.bid_counter,
    {
        self.bid_counter
    }
}

} // verus!
