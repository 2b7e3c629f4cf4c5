use vstd::prelude::*;
use crate::hashing::commitment_of;
use crate::model::{
    after_commit, after_create, after_reveal, cancel_auction_error, commit_bid_error,
    create_auction_error, end_auction_error, lemma_create_keeps_wf, new_auction, new_bid, reveal_bid_error,
    with_closed_auction, ContractModel,
};
use crate::registry::list_of;
use crate::types::{AuctionError, AuctionModel, AuctionStatus, BidModel, BidStatus, MAX_BID_AMOUNT, MAX_DURATION};

verus! {

/// No operation that succeeds on a released guard leaves the guard held.
pub proof fn law_guard_released_after_success(
    m: ContractModel,
    now: u64,
    caller: Seq<u8>,
    id: u64,
    amount: u64,
    text: Seq<u8>,
    other_text: Seq<u8>,
    duration: u64,
)
    requires
        !m.locked,
    ensures
        !after_create(m, now, caller, text, other_text, amount, duration).locked,
        !after_commit(m, now, caller, id, text).locked,
        !after_reveal(m, now, id, amount, text).locked,
        !with_closed_auction(m, now, id, AuctionStatus::Ended).locked,
        !with_closed_auction(m, now, id, AuctionStatus::Cancelled).locked,
{
}

/// While the guard is held, every state-changing operation is refused as a
/// reentrant call.
pub proof fn law_guard_held_refuses_everything(
    m: ContractModel,
    now: u64,
    caller: Seq<u8>,
    id: u64,
    amount: u64,
    text: Seq<u8>,
    duration: u64,
)
    requires
        m.locked,
    ensures
        create_auction_error(m, now, amount, duration) == Some(AuctionError::ReentrancyDetected),
        commit_bid_error(m, now, caller, id, amount) == Some(AuctionError::ReentrancyDetected),
        reveal_bid_error(m, now, caller, id, amount, text) == Some(AuctionError::ReentrancyDetected),
        end_auction_error(m, now, id) == Some(AuctionError::ReentrancyDetected),
        cancel_auction_error(m, caller, id) == Some(AuctionError::ReentrancyDetected),
{
}

/// Auction ids are handed out in order: a created auction gets the previous
/// total plus one, the total becomes its id, and every other auction stays.
pub proof fn law_auction_ids_sequential(
    m: ContractModel,
    now: u64,
    creator: Seq<u8>,
    title: Seq<u8>,
    description: Seq<u8>,
    starting_bid: u64,
    duration: u64,
)
    requires
        m.wf(),
        create_auction_error(m, now, starting_bid, duration) is None,
    ensures
        ({
            let post = after_create(m, now, creator, title, description, starting_bid, duration);
            &&& post.wf()
            &&& post.auction_counter == m.auction_counter + 1
            &&& post.auctions.last().auction_id == post.auction_counter
            &&& post.auctions.drop_last() == m.auctions
        }),
{
    let post = after_create(m, now, creator, title, description, starting_bid, duration);
    lemma_create_keeps_wf(m, now, creator, title, description, starting_bid, duration);
    assert(post.auctions.drop_last() =~= m.auctions);
}

/// A created auction is read back by the id that creation returned, and every
/// auction created before it still reads the same.
pub proof fn law_created_auction_lookup(
    m: ContractModel,
    now: u64,
    creator: Seq<u8>,
    title: Seq<u8>,
    description: Seq<u8>,
    starting_bid: u64,
    duration: u64,
)
    requires
        m.wf(),
        create_auction_error(m, now, starting_bid, duration) is None,
    ensures
        ({
            let post = after_create(m, now, creator, title, description, starting_bid, duration);
            let a = new_auction(m, now, creator, title, description, starting_bid, duration);
            &&& post.auction_at(a.auction_id) == Some(a)
            &&& forall|id: u64| id != a.auction_id ==> #[trigger] post.auction_at(id) == m.auction_at(id)
        }),
{
}

/// A committed bid is read back by the id that the commitment returned, and
/// every bid committed before it still reads the same.
pub proof fn law_committed_bid_lookup(
    m: ContractModel,
    now: u64,
    bidder: Seq<u8>,
    auction_id: u64,
    commitment: Seq<u8>,
    bid_amount: u64,
)
    requires
        m.wf(),
        commit_bid_error(m, now, bidder, auction_id, bid_amount) is None,
    ensures
        ({
            let post = after_commit(m, now, bidder, auction_id, commitment);
            let b = new_bid(m, now, bidder, auction_id, commitment);
            &&& post.bid_at(b.bid_id) == Some(b)
            &&& forall|id: u64| id != b.bid_id ==> #[trigger] post.bid_at(id) == m.bid_at(id)
        }),
{
}

/// A bidder commits at most once to an auction: once a commitment has been
/// accepted, a second one from the same bidder to the same auction is
/// refused, as already committed while the auction is still open.
pub proof fn law_commit_once(
    m: ContractModel,
    now: u64,
    bidder: Seq<u8>,
    auction_id: u64,
    commitment: Seq<u8>,
    bid_amount: u64,
    later: u64,
    other_amount: u64,
)
    requires
        m.wf(),
        commit_bid_error(m, now, bidder, auction_id, bid_amount) is None,
    ensures
        ({
            let post = after_commit(m, now, bidder, auction_id, commitment);
            &&& commit_bid_error(post, later, bidder, auction_id, other_amount) is Some
            &&& later < m.auctions[auction_id - 1].end_time ==> commit_bid_error(
                post,
                later,
                bidder,
                auction_id,
                other_amount,
            ) == Some(AuctionError::AlreadyCommitted)
        }),
{
}

/// A bid is revealed at most once: after a successful reveal, revealing the
/// same bid again is refused as already revealed.
pub proof fn law_reveal_once(
    m: ContractModel,
    now: u64,
    caller: Seq<u8>,
    bid_id: u64,
    bid_amount: u64,
    secret: Seq<u8>,
    later: u64,
    other_amount: u64,
    other_secret: Seq<u8>,
)
    requires
        m.wf(),
        reveal_bid_error(m, now, caller, bid_id, bid_amount, commitment_of(bid_amount, secret)) is None,
    ensures
        reveal_bid_error(
            after_reveal(m, now, bid_id, bid_amount, secret),
            later,
            caller,
            bid_id,
            other_amount,
            commitment_of(other_amount, other_secret),
        ) == Some(AuctionError::BidAlreadyRevealed),
{
    let post = after_reveal(m, now, bid_id, bid_amount, secret);
    let b = m.bids[bid_id - 1];
    assert(post.bids[bid_id - 1].bidder == b.bidder);
}

/// A reveal is accepted only for the amount and secret whose commitment is
/// the one stored with the bid, and only by the bidder, before the end time.
pub proof fn law_reveal_matches_commitment(
    m: ContractModel,
    now: u64,
    caller: Seq<u8>,
    bid_id: u64,
    bid_amount: u64,
    secret: Seq<u8>,
)
    requires
        m.wf(),
        reveal_bid_error(m, now, caller, bid_id, bid_amount, commitment_of(bid_amount, secret)) is None,
    ensures
        m.bid_at(bid_id) is Some,
        m.bids[bid_id - 1].commitment == commitment_of(bid_amount, secret),
        m.bids[bid_id - 1].bidder == caller,
        now < m.auctions[m.bids[bid_id - 1].auction_id - 1].end_time,
        bid_amount <= crate::types::MAX_BID_AMOUNT,
{
}

/// An auction's status changes only while it is active: ended and cancelled
/// auctions stay as they are under every operation.
pub proof fn law_status_leaves_active_only(
    m: ContractModel,
    now: u64,
    caller: Seq<u8>,
    id: u64,
    amount: u64,
    text: Seq<u8>,
    other_text: Seq<u8>,
    duration: u64,
    i: int,
)
    requires
        m.wf(),
        0 <= i < m.auctions.len(),
        m.auctions[i].status != AuctionStatus::Active,
    ensures
        create_auction_error(m, now, amount, duration) is None ==> after_create(
            m,
            now,
            caller,
            text,
            other_text,
            amount,
            duration,
        ).auctions[i].status == m.auctions[i].status,
        commit_bid_error(m, now, caller, id, amount) is None ==> after_commit(
            m,
            now,
            caller,
            id,
            text,
        ).auctions[i].status == m.auctions[i].status,
        reveal_bid_error(m, now, caller, id, amount, other_text) is None ==> after_reveal(
            m,
            now,
            id,
            amount,
            text,
        ).auctions[i].status == m.auctions[i].status,
        end_auction_error(m, now, id) is None ==> with_closed_auction(
            m,
            now,
            id,
            AuctionStatus::Ended,
        ).auctions[i].status == m.auctions[i].status,
        cancel_auction_error(m, caller, id) is None ==> with_closed_auction(
            m,
            now,
            id,
            AuctionStatus::Cancelled,
        ).auctions[i].status == m.auctions[i].status,
{
}

/// No operation lowers an auction's highest bid, and no operation lowers the
/// auction or bid totals.
pub proof fn law_highest_bid_and_totals_never_decrease(
    m: ContractModel,
    now: u64,
    caller: Seq<u8>,
    id: u64,
    amount: u64,
    text: Seq<u8>,
    other_text: Seq<u8>,
    duration: u64,
    i: int,
)
    requires
        m.wf(),
        0 <= i < m.auctions.len(),
    ensures
        create_auction_error(m, now, amount, duration) is None ==> ({
            let post = after_create(m, now, caller, text, other_text, amount, duration);
            &&& post.auctions[i].highest_bid >= m.auctions[i].highest_bid
            &&& post.auction_counter >= m.auction_counter
            &&& post.bid_counter >= m.bid_counter
        }),
        commit_bid_error(m, now, caller, id, amount) is None ==> ({
            let post = after_commit(m, now, caller, id, text);
            &&& post.auctions[i].highest_bid >= m.auctions[i].highest_bid
            &&& post.auction_counter >= m.auction_counter
            &&& post.bid_counter >= m.bid_counter
        }),
        reveal_bid_error(m, now, caller, id, amount, other_text) is None ==> ({
            let post = after_reveal(m, now, id, amount, text);
            &&& post.auctions[i].highest_bid >= m.auctions[i].highest_bid
            &&& post.auction_counter >= m.auction_counter
            &&& post.bid_counter >= m.bid_counter
        }),
        ({
            let post = with_closed_auction(m, now, id, AuctionStatus::Ended);
            end_auction_error(m, now, id) is None ==> post.auctions[i].highest_bid
                >= m.auctions[i].highest_bid && post.auction_counter >= m.auction_counter
                && post.bid_counter >= m.bid_counter
        }),
        ({
            let post = with_closed_auction(m, now, id, AuctionStatus::Cancelled);
            cancel_auction_error(m, caller, id) is None ==> post.auctions[i].highest_bid
                >= m.auctions[i].highest_bid && post.auction_counter >= m.auction_counter
                && post.bid_counter >= m.bid_counter
        }),
{
}

/// In every reachable state, an auction's recorded highest bid is the largest
/// revealed bid that names it: no revealed bid exceeds it, and unless it is
/// zero it is the amount of a revealed bid by the recorded highest bidder.
pub proof fn law_highest_bid_is_best_revealed(m: ContractModel, i: int)
    requires
        m.wf(),
        0 <= i < m.auctions.len(),
    ensures
        forall|j: int|
            0 <= j < m.bids.len() && #[trigger] m.bids[j].status == BidStatus::Revealed && m.bids[j].auction_id == i + 1 ==> m.bids[j].bid_amount <= m.auctions[i].highest_bid,
        m.auctions[i].highest_bid == 0 || exists|j: int|
            {
                &&& 0 <= j < m.bids.len()
                &&& #[trigger] m.bids[j].status == BidStatus::Revealed
                &&& m.bids[j].auction_id == i + 1
                &&& m.bids[j].bid_amount == m.auctions[i].highest_bid
                &&& m.bids[j].bidder == m.auctions[i].highest_bidder
            },
{
    if m.auctions[i].highest_bid != 0 {
        let j = choose|j: int| m.is_winning_bid(i, j);
        assert(m.bids[j].status == BidStatus::Revealed);
    }
}

/// Commitments are never forgotten: no operation removes a committed
/// (auction, bidder) pair.
pub proof fn law_committed_pairs_persist(
    m: ContractModel,
    now: u64,
    caller: Seq<u8>,
    id: u64,
    amount: u64,
    text: Seq<u8>,
    other_text: Seq<u8>,
    duration: u64,
)
    requires
        m.wf(),
    ensures
        create_auction_error(m, now, amount, duration) is None ==> m.committed.subset_of(
            after_create(m, now, caller, text, other_text, amount, duration).committed,
        ),
        commit_bid_error(m, now, caller, id, amount) is None ==> m.committed.subset_of(
            after_commit(m, now, caller, id, text).committed,
        ),
        reveal_bid_error(m, now, caller, id, amount, commitment_of(amount, text)) is None
            ==> m.committed.subset_of(after_reveal(m, now, id, amount, text).committed),
        end_auction_error(m, now, id) is None ==> m.committed.subset_of(
            with_closed_auction(m, now, id, AuctionStatus::Ended).committed,
        ),
        cancel_auction_error(m, caller, id) is None ==> m.committed.subset_of(
            with_closed_auction(m, now, id, AuctionStatus::Cancelled).committed,
        ),
{
}

/// A bidder that has committed to an auction is refused any further
/// commitment to it, in every later state.
pub proof fn law_committed_pair_refused(m: ContractModel, now: u64, bidder: Seq<u8>, auction_id: u64, bid_amount: u64)
    requires
        m.wf(),
        m.committed.contains((auction_id, bidder)),
    ensures
        commit_bid_error(m, now, bidder, auction_id, bid_amount) is Some,
{
}

/// A revealed bid stays as it was revealed under every operation.
pub proof fn law_revealed_bids_persist(
    m: ContractModel,
    now: u64,
    caller: Seq<u8>,
    id: u64,
    amount: u64,
    text: Seq<u8>,
    other_text: Seq<u8>,
    duration: u64,
    j: int,
)
    requires
        m.wf(),
        0 <= j < m.bids.len(),
        m.bids[j].status == BidStatus::Revealed,
    ensures
        create_auction_error(m, now, amount, duration) is None ==> after_create(
            m,
            now,
            caller,
            text,
            other_text,
            amount,
            duration,
        ).bids[j] == m.bids[j],
        commit_bid_error(m, now, caller, id, amount) is None ==> after_commit(
            m,
            now,
            caller,
            id,
            text,
        ).bids[j] == m.bids[j],
        reveal_bid_error(m, now, caller, id, amount, commitment_of(amount, text)) is None
            ==> after_reveal(m, now, id, amount, text).bids[j] == m.bids[j],
        end_auction_error(m, now, id) is None ==> with_closed_auction(
            m,
            now,
            id,
            AuctionStatus::Ended,
        ).bids[j] == m.bids[j],
        cancel_auction_error(m, caller, id) is None ==> with_closed_auction(
            m,
            now,
            id,
            AuctionStatus::Cancelled,
        ).bids[j] == m.bids[j],
{
}

/// A revealed bid is refused any further reveal, in every later state.
pub proof fn law_revealed_bid_refused(m: ContractModel, now: u64, caller: Seq<u8>, bid_id: u64, bid_amount: u64, expected: Seq<u8>)
    requires
        m.wf(),
        m.bid_at(bid_id) is Some,
        m.bids[bid_id - 1].status == BidStatus::Revealed,
    ensures
        reveal_bid_error(m, now, caller, bid_id, bid_amount, expected) is Some,
{
}

/// `create_auction` succeeds exactly when the guard is released, the starting
/// bid is between one and the limit, the duration is between one second and
/// the longest allowed, another id can be handed out and the end time fits.
pub proof fn law_create_succeeds_exactly(m: ContractModel, now: u64, starting_bid: u64, duration: u64)
    ensures
        create_auction_error(m, now, starting_bid, duration) is None <==> {
            &&& !m.locked
            &&& 1 <= starting_bid <= MAX_BID_AMOUNT
            &&& 1 <= duration <= MAX_DURATION
            &&& m.auction_counter < u64::MAX
            &&& now + duration <= u64::MAX
        },
{
}

/// `commit_bid` succeeds exactly when the guard is released, the auction
/// exists, is active and has not reached its end time, the bidder has not
/// committed to it yet, the amount is between the starting bid and the limit,
/// and both the bid counter and the auction's bid count can still grow.
pub proof fn law_commit_succeeds_exactly(m: ContractModel, now: u64, bidder: Seq<u8>, auction_id: u64, bid_amount: u64)
    ensures
        commit_bid_error(m, now, bidder, auction_id, bid_amount) is None <==> {
            &&& !m.locked
            &&& 1 <= auction_id <= m.auctions.len()
            &&& m.auctions[auction_id - 1].status == AuctionStatus::Active
            &&& now < m.auctions[auction_id - 1].end_time
            &&& !m.committed.contains((auction_id, bidder))
            &&& m.auctions[auction_id - 1].starting_bid <= bid_amount <= MAX_BID_AMOUNT
            &&& m.bid_counter < u64::MAX
            &&& m.auctions[auction_id - 1].bid_count < u64::MAX
        },
{
}

/// A bid on an existing auction that is not active (created, ended or
/// cancelled) is refused as not active while the guard is released.
pub proof fn law_commit_on_inactive_auction_refused(m: ContractModel, now: u64, bidder: Seq<u8>, auction_id: u64, bid_amount: u64)
    requires
        !m.locked,
        1 <= auction_id <= m.auctions.len(),
        m.auctions[auction_id - 1].status != AuctionStatus::Active,
    ensures
        commit_bid_error(m, now, bidder, auction_id, bid_amount) == Some(AuctionError::AuctionNotActive),
{
}

/// `reveal_bid` succeeds exactly when the guard is released, the bid exists,
/// the caller is its bidder, it is still committed, its auction has not
/// reached its end time, the commitment matches and the amount is within the
/// limit; the auction's status plays no part.
pub proof fn law_reveal_succeeds_exactly(m: ContractModel, now: u64, caller: Seq<u8>, bid_id: u64, bid_amount: u64, expected: Seq<u8>)
    requires
        m.wf(),
    ensures
        reveal_bid_error(m, now, caller, bid_id, bid_amount, expected) is None <==> {
            &&& !m.locked
            &&& 1 <= bid_id <= m.bids.len()
            &&& m.bids[bid_id - 1].bidder == caller
            &&& m.bids[bid_id - 1].status == BidStatus::Committed
            &&& now < m.auctions[m.bids[bid_id - 1].auction_id - 1].end_time
            &&& expected == m.bids[bid_id - 1].commitment
            &&& bid_amount <= MAX_BID_AMOUNT
        },
{
}

/// `end_auction` succeeds exactly when the guard is released, the auction
/// exists, is active and its end time has been reached, whatever its bids.
pub proof fn law_end_succeeds_exactly(m: ContractModel, now: u64, auction_id: u64)
    ensures
        end_auction_error(m, now, auction_id) is None <==> {
            &&& !m.locked
            &&& 1 <= auction_id <= m.auctions.len()
            &&& m.auctions[auction_id - 1].status == AuctionStatus::Active
            &&& now >= m.auctions[auction_id - 1].end_time
        },
{
}

/// `cancel_auction` succeeds exactly when the guard is released, the auction
/// exists, the caller is its creator and it is active, whatever its bids and
/// whatever the time.
pub proof fn law_cancel_succeeds_exactly(m: ContractModel, caller: Seq<u8>, auction_id: u64)
    ensures
        cancel_auction_error(m, caller, auction_id) is None <==> {
            &&& !m.locked
            &&& 1 <= auction_id <= m.auctions.len()
            &&& m.auctions[auction_id - 1].creator == caller
            &&& m.auctions[auction_id - 1].status == AuctionStatus::Active
        },
{
}

/// Ending or cancelling changes only the auction's status and end stamp: the
/// auction reads with the new status and `ended_at == now`, every other
/// auction and every bid read as before, and lists, counters, commitments
/// and the guard are unchanged.
pub proof fn law_close_changes_only_the_auction(m: ContractModel, now: u64, auction_id: u64, status: AuctionStatus)
    requires
        1 <= auction_id <= m.auctions.len(),
    ensures
        ({
            let post = with_closed_auction(m, now, auction_id, status);
            let a = m.auctions[auction_id - 1];
            &&& post.auction_at(auction_id) == Some(AuctionModel { status, ended_at: now, ..a })
            &&& forall|id: u64| id != auction_id ==> #[trigger] post.auction_at(id) == m.auction_at(id)
            &&& post.bids == m.bids
            &&& post.auctions.len() == m.auctions.len()
            &&& post.auction_counter == m.auction_counter
            &&& post.bid_counter == m.bid_counter
            &&& post.user_auctions == m.user_auctions
            &&& post.user_bids == m.user_bids
            &&& post.committed == m.committed
            &&& post.locked == m.locked
        }),
{
}

/// A successful commitment stores the bid under the next id, unrevealed,
/// raises only the named auction's bid count by one, records the pair as
/// committed, lists the bid for its bidder, and leaves everything else as it was.
pub proof fn law_commit_effect(m: ContractModel, now: u64, bidder: Seq<u8>, auction_id: u64, commitment: Seq<u8>, bid_amount: u64)
    requires
        commit_bid_error(m, now, bidder, auction_id, bid_amount) is None,
    ensures
        ({
            let post = after_commit(m, now, bidder, auction_id, commitment);
            let a = m.auctions[auction_id - 1];
            let id = (m.bid_counter + 1) as u64;
            &&& post.bid_counter == m.bid_counter + 1
            &&& post.bids.len() == m.bids.len() + 1
            &&& post.bids.drop_last() == m.bids
            &&& post.bids.last().bid_id == id
            &&& post.bids.last().auction_id == auction_id
            &&& post.bids.last().bidder == bidder
            &&& post.bids.last().commitment == commitment
            &&& post.bids.last().status == BidStatus::Committed
            &&& post.bids.last().committed_at == now
            &&& post.auction_at(auction_id) == Some(AuctionModel { bid_count: (a.bid_count + 1) as u64, ..a })
            &&& forall|other: u64| other != auction_id ==> #[trigger] post.auction_at(other) == m.auction_at(other)
            &&& post.committed == m.committed.insert((auction_id, bidder))
            &&& list_of(post.user_bids, bidder) == list_of(m.user_bids, bidder).push(id)
            &&& forall|u: Seq<u8>| u != bidder ==> #[trigger] list_of(post.user_bids, u) == list_of(m.user_bids, u)
            &&& post.user_auctions == m.user_auctions
            &&& post.auction_counter == m.auction_counter
            &&& post.locked == m.locked
        }),
{
    let post = after_commit(m, now, bidder, auction_id, commitment);
    assert(post.bids.drop_last() =~= m.bids);
}

/// A successful reveal stores the amount and secret in the bid and marks it
/// revealed at `now`; its auction's highest bid becomes the larger of the two
/// amounts, the bidder taking over only on a strictly larger amount; nothing
/// else changes.
pub proof fn law_reveal_effect(m: ContractModel, now: u64, caller: Seq<u8>, bid_id: u64, bid_amount: u64, secret: Seq<u8>, expected: Seq<u8>)
    requires
        m.wf(),
        reveal_bid_error(m, now, caller, bid_id, bid_amount, expected) is None,
    ensures
        ({
            let post = after_reveal(m, now, bid_id, bid_amount, secret);
            let b = m.bids[bid_id - 1];
            let a = m.auctions[b.auction_id - 1];
            &&& post.bid_at(bid_id) == Some(BidModel {
                bid_amount,
                secret,
                status: BidStatus::Revealed,
                revealed_at: now,
                ..b
            })
            &&& forall|other: u64| other != bid_id ==> #[trigger] post.bid_at(other) == m.bid_at(other)
            &&& post.auctions[b.auction_id - 1].highest_bid == if bid_amount > a.highest_bid {
                bid_amount
            } else {
                a.highest_bid
            }
            &&& post.auctions[b.auction_id - 1].highest_bidder == if bid_amount > a.highest_bid {
                b.bidder
            } else {
                a.highest_bidder
            }
            &&& post.auctions[b.auction_id - 1].status == a.status
            &&& post.auctions[b.auction_id - 1].bid_count == a.bid_count
            &&& post.auctions[b.auction_id - 1].end_time == a.end_time
            &&& post.auctions.len() == m.auctions.len()
            &&& forall|i: int| 0 <= i < m.auctions.len() && i != b.auction_id - 1 ==> #[trigger] post.auctions[i] == m.auctions[i]
            &&& post.committed == m.committed
            &&& post.user_bids == m.user_bids
            &&& post.user_auctions == m.user_auctions
            &&& post.auction_counter == m.auction_counter
            &&& post.bid_counter == m.bid_counter
        }),
{
}

} // verus!
