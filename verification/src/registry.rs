use vstd::prelude::*;
use crate::text::{bytes_equal, copy_bytes};

verus! {

/// The ids recorded for one user.
pub struct UserEntry {
    pub user: Vec<u8>,
    pub ids: Vec<u64>,
}

/// The map from each user's address bytes to the list of ids recorded for it,
/// in the order they were recorded.
pub struct UserIndex {
    entries: Vec<UserEntry>,
}

/// The map that a sequence of entries denotes; a later entry for the same user
/// overrides an earlier one.
pub open spec fn entries_map(s: Seq<UserEntry>) -> Map<Seq<u8>, Seq<u64>>
    decreases s.len(),
{
    if s.len() == 0 {
        Map::empty()
    } else {
        entries_map(s.drop_last()).insert(s.last().user@, s.last().ids@)
    }
}

/// No user has two entries.
pub open spec fn users_distinct(s: Seq<UserEntry>) -> bool {
    forall|i: int, j: int|
        0 <= i < s.len() && 0 <= j < s.len() && i != j ==> #[trigger] s[i].user@ != #[trigger] s[j].user@
}

/// The list recorded for `user`, empty where there is none.
pub open spec fn list_of(m: Map<Seq<u8>, Seq<u64>>, user: Seq<u8>) -> Seq<u64> {
    if m.contains_key(user) {
        m[user]
    } else {
        Seq::empty()
    }
}

/// `m` with `id` appended to the list of `user`.
pub open spec fn append_for(m: Map<Seq<u8>, Seq<u64>>, user: Seq<u8>, id: u64) -> Map<
    Seq<u8>,
    Seq<u64>,
> {
    m.insert(user, list_of(m, user).push(id))
}

proof fn lemma_entries_map_absent(s: Seq<UserEntry>, user: Seq<u8>)
    requires
        forall|i: int| 0 <= i < s.len() ==> #[trigger] s[i].user@ != user,
    ensures
        !entries_map(s).contains_key(user),
    decreases s.len(),
{
    if s.len() > 0 {
        assert(s.last().user@ != user);
        lemma_entries_map_absent(s.drop_last(), user);
    }
}

proof fn lemma_entries_map_at(s: Seq<UserEntry>, i: int)
    requires
        users_distinct(s),
        0 <= i < s.len(),
    ensures
        entries_map(s).contains_key(s[i].user@),
        entries_map(s)[s[i].user@] == s[i].ids@,
    decreases s.len(),
{
    if i < s.len() - 1 {
        let t = s.drop_last();
        assert(users_distinct(t));
        assert(t[i] == s[i]);
        lemma_entries_map_at(t, i);
        assert(s.last().user@ != s[i].user@);
    }
}

proof fn lemma_entries_map_update(s: Seq<UserEntry>, i: int, e: UserEntry)
    requires
        users_distinct(s),
        0 <= i < s.len(),
        e.user@ == s[i].user@,
    ensures
        entries_map(s.update(i, e)) == entries_map(s).insert(e.user@, e.ids@),
    decreases s.len(),
{
    let u = s.update(i, e);
    if i == s.len() - 1 {
        assert(u.drop_last() =~= s.drop_last());
        assert(entries_map(u) =~= entries_map(s).insert(e.user@, e.ids@));
    } else {
        let t = s.drop_last();
        assert(users_distinct(t));
        assert(t[i] == s[i]);
        lemma_entries_map_update(t, i, e);
        assert(u.drop_last() =~= t.update(i, e));
        assert(s.last().user@ != e.user@);
        assert(entries_map(u) =~= entries_map(s).insert(e.user@, e.ids@));
    }
}

proof fn lemma_entries_map_same_keys(s: Seq<UserEntry>, t: Seq<UserEntry>)
    requires
        s.len() == t.len(),
        forall|k: int| 0 <= k < s.len() ==> (#[trigger] s[k]).user@ == t[k].user@ && s[k].ids@ == t[k].ids@,
    ensures
        entries_map(s) == entries_map(t),
        users_distinct(t) ==> users_distinct(s),
    decreases s.len(),
{
    if s.len() > 0 {
        lemma_entries_map_same_keys(s.drop_last(), t.drop_last());
        assert(s.last().user@ == t.last().user@);
    }
    if users_distinct(t) {
        assert forall|i: int, j: int|
            0 <= i < s.len() && 0 <= j < s.len() && i != j implies #[trigger] s[i].user@ != #[trigger] s[j].user@ by {
            assert(s[i].user@ == t[i].user@);
            assert(s[j].user@ == t[j].user@);
        }
    }
}

/// The address bytes and ids of `(owner, id)` pairs held as executable values.
pub open spec fn owner_view(owners: Seq<(Vec<u8>, u64)>) -> Seq<(Seq<u8>, u64)> {
    owners.map_values(|p: (Vec<u8>, u64)| (p.0@, p.1))
}

/// The ids that `owners` pairs with `user`, in their order.
pub open spec fn ids_owned(owners: Seq<(Seq<u8>, u64)>, user: Seq<u8>) -> Seq<u64>
    decreases owners.len(),
{
    if owners.len() == 0 {
        Seq::empty()
    } else {
        let rest = ids_owned(owners.drop_last(), user);
        if owners.last().0 == user {
            rest.push(owners.last().1)
        } else {
            rest
        }
    }
}

/// The index lists, for every user, exactly the ids that `owners` pairs with
/// that user, and holds no user with an empty list.
pub open spec fn lists_match(index: Map<Seq<u8>, Seq<u64>>, owners: Seq<(Seq<u8>, u64)>) -> bool {
    &&& forall|u: Seq<u8>| list_of(index, u) == #[trigger] ids_owned(owners, u)
    &&& forall|u: Seq<u8>| #[trigger] index.contains_key(u) ==> ids_owned(owners, u).len() > 0
}

/// Appending a pair extends the list of its owner only.
pub proof fn lemma_ids_owned_push(owners: Seq<(Seq<u8>, u64)>, p: (Seq<u8>, u64), user: Seq<u8>)
    ensures
        ids_owned(owners.push(p), user) == if p.0 == user {
            ids_owned(owners, user).push(p.1)
        } else {
            ids_owned(owners, user)
        },
{
    assert(owners.push(p).drop_last() =~= owners);
}

/// A user that owns no pair has no ids.
pub proof fn lemma_ids_owned_absent(owners: Seq<(Seq<u8>, u64)>, user: Seq<u8>)
    requires
        forall|i: int| 0 <= i < owners.len() ==> #[trigger] owners[i].0 != user,
    ensures
        ids_owned(owners, user) == Seq::<u64>::empty(),
    decreases owners.len(),
{
    if owners.len() > 0 {
        assert(owners.last().0 != user);
        lemma_ids_owned_absent(owners.drop_last(), user);
    }
}

/// A user that owns some pair has at least one id.
pub proof fn lemma_ids_owned_present(owners: Seq<(Seq<u8>, u64)>, j: int, user: Seq<u8>)
    requires
        0 <= j < owners.len(),
        owners[j].0 == user,
    ensures
        ids_owned(owners, user).len() > 0,
    decreases owners.len(),
{
    if j < owners.len() - 1 {
        assert(owners.drop_last()[j] == owners[j]);
        lemma_ids_owned_present(owners.drop_last(), j, user);
    }
}

/// Recording `id` for `user` in a matching index keeps it matching the pairs
/// with `(user, id)` appended.
pub proof fn lemma_lists_match_append(index: Map<Seq<u8>, Seq<u64>>, owners: Seq<(Seq<u8>, u64)>, user: Seq<u8>, id: u64)
    requires
        lists_match(index, owners),
    ensures
        lists_match(append_for(index, user, id), owners.push((user, id))),
{
    let post = append_for(index, user, id);
    let o = owners.push((user, id));
    assert forall|u: Seq<u8>| list_of(post, u) == #[trigger] ids_owned(o, u) by {
        lemma_ids_owned_push(owners, (user, id), u);
        assert(list_of(index, u) == ids_owned(owners, u));
    }
    assert forall|u: Seq<u8>| #[trigger] post.contains_key(u) implies ids_owned(o, u).len() > 0 by {
        lemma_ids_owned_push(owners, (user, id), u);
        if u != user {
            assert(index.contains_key(u));
        }
    }
}

/// Some entry of a map built from entries has the key of each user it holds.
proof fn lemma_entries_map_has_entry(s: Seq<UserEntry>, user: Seq<u8>)
    requires
        entries_map(s).contains_key(user),
    ensures
        exists|i: int| 0 <= i < s.len() && #[trigger] s[i].user@ == user,
    decreases s.len(),
{
    if s.last().user@ != user {
        lemma_entries_map_has_entry(s.drop_last(), user);
        let i = choose|i: int| 0 <= i < s.drop_last().len() && #[trigger] s.drop_last()[i].user@ == user;
        assert(s[i].user@ == user);
    } else {
        assert(s[s.len() - 1].user@ == user);
    }
}

fn ids_equal(a: &Vec<u64>, b: &Vec<u64>) -> (same: bool)
    ensures
        same == (a@ == b@),
{
    if a.len() != b.len() {
        return false;
    }
    let mut i: usize = 0;
    while i < a.len()
        invariant
            a@.len() == b@.len(),
            i <= a@.len(),
            forall|j: int| 0 <= j < i ==> a@[j] == b@[j],
        decreases a@.len() - i,
    {
        if a[i] != b[i] {
            return false;
        }
        i = i + 1;
    }
    assert(a@ =~= b@);
    true
}

/// The ids that `owners` pairs with `user`, in their order.
pub fn owned_ids(owners: &Vec<(Vec<u8>, u64)>, user: &Vec<u8>) -> (ids: Vec<u64>)
    ensures
        ids@ == ids_owned(owner_view(owners@), user@),
{
    let ghost ov = owner_view(owners@);
    let mut ids: Vec<u64> = Vec::new();
    let mut i: usize = 0;
    while i < owners.len()
        invariant
            i <= owners@.len(),
            ov == owner_view(owners@),
            ids@ == ids_owned(ov.take(i as int), user@),
        decreases owners@.len() - i,
    {
        proof {
            assert(ov.take(i + 1) =~= ov.take(i as int).push(ov[i as int]));
            lemma_ids_owned_push(ov.take(i as int), ov[i as int], user@);
        }
        if bytes_equal(&owners[i].0, user) {
            ids.push(owners[i].1);
        }
        i = i + 1;
    }
    assert(ov.take(owners@.len() as int) =~= ov);
    ids
}

impl View for UserIndex {
    type V = Map<Seq<u8>, Seq<u64>>;

    closed spec fn view(&self) -> Map<Seq<u8>, Seq<u64>> {
        entries_map(self.entries@)
    }
}

impl UserIndex {
    /// The index's own invariant: no user has two entries.
    pub closed spec fn wf(&self) -> bool {
        users_distinct(self.entries@)
    }

    /// An index with no user in it.
    pub fn new() -> (index: UserIndex)
        ensures
            index.wf(),
            index@ == Map::<Seq<u8>, Seq<u64>>::empty(),
    {
        UserIndex { entries: Vec::new() }
    }

    fn find(&self, user: &Vec<u8>) -> (found: Option<usize>)
        requires
            self.wf(),
        ensures
            match found {
                Some(i) => i < self.entries@.len() && self.entries@[i as int].user@ == user@,
                None => forall|j: int|
                    0 <= j < self.entries@.len() ==> #[trigger] self.entries@[j].user@ != user@,
            },
    {
        let mut i: usize = 0;
        while i < self.entries.len()
            invariant
                i <= self.entries@.len(),
                forall|j: int| 0 <= j < i ==> #[trigger] self.entries@[j].user@ != user@,
            decreases self.entries@.len() - i,
        {
            if bytes_equal(&self.entries[i].user, user) {
                return Some(i);
            }
            i = i + 1;
        }
        None
    }

    /// The ids recorded for `user`, empty where there are none.
    pub fn ids_of(&self, user: &Vec<u8>) -> (ids: Vec<u64>)
        requires
            self.wf(),
        ensures
            ids@ == list_of(self@, user@),
    {
        match self.find(user) {
            Some(i) => {
                proof {
                    lemma_entries_map_at(self.entries@, i as int);
                }
                self.entries[i].ids.clone()
            },
            None => {
                proof {
                    lemma_entries_map_absent(self.entries@, user@);
                }
                Vec::new()
            },
        }
    }

    /// The index that `entries` lists, where no user has two entries.
    pub fn from_entries(entries: Vec<UserEntry>) -> (index: Option<UserIndex>)
        ensures
            match index {
                Some(index) => index.wf() && index@ == entries_map(entries@),
                None => !users_distinct(entries@),
            },
    {
        let mut i: usize = 0;
        while i < entries.len()
            invariant
                i <= entries@.len(),
                forall|a: int, b: int|
                    0 <= a < i && 0 <= b < entries@.len() && a != b ==> #[trigger] entries@[a].user@
                        != #[trigger] entries@[b].user@,
            decreases entries@.len() - i,
        {
            let mut j: usize = 0;
            while j < entries.len()
                invariant
                    i < entries@.len(),
                    j <= entries@.len(),
                    forall|a: int, b: int|
                        0 <= a < i && 0 <= b < entries@.len() && a != b ==> #[trigger] entries@[a].user@
                            != #[trigger] entries@[b].user@,
                    forall|b: int| 0 <= b < j && b != i ==> entries@[i as int].user@ != #[trigger] entries@[b].user@,
                decreases entries@.len() - j,
            {
                if j != i && bytes_equal(&entries[i].user, &entries[j].user) {
                    assert(!users_distinct(entries@)) by {
                        assert(entries@[i as int].user@ == entries@[j as int].user@);
                    }
                    return None;
                }
                j = j + 1;
            }
            i = i + 1;
        }
        Some(UserIndex { entries })
    }

    /// The entries of the index, one per user.
    pub fn to_entries(&self) -> (entries: Vec<UserEntry>)
        requires
            self.wf(),
        ensures
            users_distinct(entries@),
            entries_map(entries@) == self@,
    {
        let mut out: Vec<UserEntry> = Vec::new();
        let mut i: usize = 0;
        while i < self.entries.len()
            invariant
                i <= self.entries@.len(),
                out@.len() == i,
                forall|k: int| 0 <= k < i ==> (#[trigger] out@[k]).user@ == self.entries@[k].user@
                    && out@[k].ids@ == self.entries@[k].ids@,
            decreases self.entries@.len() - i,
        {
            let ids = self.entries[i].ids.clone();
            assert(ids@ =~= self.entries@[i as int].ids@);
            out.push(UserEntry { user: copy_bytes(&self.entries[i].user), ids });
            i = i + 1;
        }
        proof {
            lemma_entries_map_same_keys(out@, self.entries@);
        }
        out
    }

    /// Whether the index lists, for every user, exactly the ids that `owners`
    /// pairs with that user, and no user with an empty list.
    pub fn matches_owners(&self, owners: &Vec<(Vec<u8>, u64)>) -> (ok: bool)
        requires
            self.wf(),
        ensures
            ok == lists_match(self@, owner_view(owners@)),
    {
        let ghost ov = owner_view(owners@);
        let mut i: usize = 0;
        while i < self.entries.len()
            invariant
                self.wf(),
                i <= self.entries@.len(),
                ov == owner_view(owners@),
                forall|k: int|
                    0 <= k < i ==> #[trigger] self.entries@[k].ids@ == ids_owned(ov, self.entries@[k].user@)
                        && self.entries@[k].ids@.len() > 0,
            decreases self.entries@.len() - i,
        {
            let ids = owned_ids(owners, &self.entries[i].user);
            if ids.len() == 0 || !ids_equal(&ids, &self.entries[i].ids) {
                proof {
                    lemma_entries_map_at(self.entries@, i as int);
                }
                return false;
            }
            i = i + 1;
        }
        let mut j: usize = 0;
        while j < owners.len()
            invariant
                self.wf(),
                j <= owners@.len(),
                ov == owner_view(owners@),
                forall|k: int| 0 <= k < j ==> self@.contains_key(#[trigger] ov[k].0),
            decreases owners@.len() - j,
        {
            match self.find(&owners[j].0) {
                None => {
                    proof {
                        lemma_entries_map_absent(self.entries@, ov[j as int].0);
                        lemma_ids_owned_present(ov, j as int, ov[j as int].0);
                        assert(list_of(self@, ov[j as int].0) == ids_owned(ov, ov[j as int].0) ==> false);
                    }
                    return false;
                },
                Some(f) => {
                    proof {
                        lemma_entries_map_at(self.entries@, f as int);
                    }
                },
            }
            j = j + 1;
        }
        proof {
            assert forall|u: Seq<u8>| list_of(self@, u) == #[trigger] ids_owned(ov, u) by {
                if self@.contains_key(u) {
                    lemma_entries_map_has_entry(self.entries@, u);
                    let k = choose|k: int| 0 <= k < self.entries@.len() && #[trigger] self.entries@[k].user@ == u;
                    lemma_entries_map_at(self.entries@, k);
                } else {
                    assert forall|k: int| 0 <= k < ov.len() implies #[trigger] ov[k].0 != u by {
                        assert(self@.contains_key(ov[k].0));
                    }
                    lemma_ids_owned_absent(ov, u);
                }
            }
            assert forall|u: Seq<u8>| #[trigger] self@.contains_key(u) implies ids_owned(ov, u).len() > 0 by {
                lemma_entries_map_has_entry(self.entries@, u);
                let k = choose|k: int| 0 <= k < self.entries@.len() && #[trigger] self.entries@[k].user@ == u;
                assert(self.entries@[k].ids@ == ids_owned(ov, u));
            }
        }
        true
    }

    /// Appends `id` to the list of `user`, creating the list where there is none.
    pub fn append(&mut self, user: &Vec<u8>, id: u64)
        requires
            old(self).wf(),
        ensures
            final(self).wf(),
            final(self)@ == append_for(old(self)@, user@, id),
    {
        match self.find(user) {
            Some(i) => {
                proof {
                    lemma_entries_map_at(self.entries@, i as int);
                }
                let mut ids = self.entries[i].ids.clone();
                assert(ids@ =~= self.entries@[i as int].ids@);
                ids.push(id);
                let entry = UserEntry { user: copy_bytes(user), ids };
                proof {
                    lemma_entries_map_update(self.entries@, i as int, entry);
                }
                self.entries.set(i, entry);
                assert(users_distinct(self.entries@));
            },
            None => {
                proof {
                    lemma_entries_map_absent(self.entries@, user@);
                }
                let mut ids: Vec<u64> = Vec::new();
                ids.push(id);
                let entry = UserEntry { user: copy_bytes(user), ids };
                self.entries.push(entry);
                assert(self.entries@.drop_last() =~= old(self).entries@);
                assert(ids@ =~= Seq::<u64>::empty().push(id));
                assert(users_distinct(self.entries@));
            },
        }
    }
}

/// A pair of an auction id and a bidder's address bytes.
pub struct CommitKey {
    pub auction_id: u64,
    pub bidder: Vec<u8>,
}

/// The set of (auction id, bidder) pairs that have committed a bid.
pub struct CommitmentSet {
    keys: Vec<CommitKey>,
}

pub open spec fn key_view(k: CommitKey) -> (u64, Seq<u8>) {
    (k.auction_id, k.bidder@)
}

/// The set of the pairs that `keys` lists.
pub open spec fn keys_set(keys: Seq<CommitKey>) -> Set<(u64, Seq<u8>)> {
    Set::new(|p: (u64, Seq<u8>)| exists|i: int| 0 <= i < keys.len() && #[trigger] key_view(keys[i]) == p)
}

/// The auction ids and bidder bytes of pairs held as executable values.
pub open spec fn pair_view(pairs: Seq<(u64, Vec<u8>)>) -> Seq<(u64, Seq<u8>)> {
    pairs.map_values(|p: (u64, Vec<u8>)| (p.0, p.1@))
}

/// The set of the elements of a sequence of pairs.
pub open spec fn seq_set(s: Seq<(u64, Seq<u8>)>) -> Set<(u64, Seq<u8>)> {
    Set::new(|p: (u64, Seq<u8>)| s.contains(p))
}

fn pairs_contain(pairs: &Vec<(u64, Vec<u8>)>, auction_id: u64, bidder: &Vec<u8>) -> (found: bool)
    ensures
        found == pair_view(pairs@).contains((auction_id, bidder@)),
{
    let ghost pv = pair_view(pairs@);
    let mut i: usize = 0;
    while i < pairs.len()
        invariant
            i <= pairs@.len(),
            pv == pair_view(pairs@),
            forall|k: int| 0 <= k < i ==> pv[k] != (auction_id, bidder@),
        decreases pairs@.len() - i,
    {
        if pairs[i].0 == auction_id && bytes_equal(&pairs[i].1, bidder) {
            assert(pv[i as int] == (auction_id, bidder@));
            return true;
        }
        i = i + 1;
    }
    false
}

impl View for CommitmentSet {
    type V = Set<(u64, Seq<u8>)>;

    closed spec fn view(&self) -> Set<(u64, Seq<u8>)> {
        keys_set(self.keys@)
    }
}

impl CommitmentSet {
    /// A set with no pair in it.
    pub fn new() -> (set: CommitmentSet)
        ensures
            set@ == Set::<(u64, Seq<u8>)>::empty(),
    {
        let set = CommitmentSet { keys: Vec::new() };
        assert(set@ =~= Set::<(u64, Seq<u8>)>::empty());
        set
    }

    /// The set of the pairs that `keys` lists.
    pub fn from_keys(keys: Vec<CommitKey>) -> (set: CommitmentSet)
        ensures
            set@ == keys_set(keys@),
    {
        CommitmentSet { keys }
    }

    /// The pairs of the set, as a list.
    pub fn to_keys(&self) -> (keys: Vec<CommitKey>)
        ensures
            keys_set(keys@) == self@,
    {
        let mut out: Vec<CommitKey> = Vec::new();
        let mut i: usize = 0;
        while i < self.keys.len()
            invariant
                i <= self.keys@.len(),
                out@.len() == i,
                forall|k: int| 0 <= k < i ==> key_view(#[trigger] out@[k]) == key_view(self.keys@[k]),
            decreases self.keys@.len() - i,
        {
            out.push(CommitKey { auction_id: self.keys[i].auction_id, bidder: copy_bytes(&self.keys[i].bidder) });
            i = i + 1;
        }
        assert forall|p: (u64, Seq<u8>)| #[trigger] keys_set(out@).contains(p) == self@.contains(p) by {
            if keys_set(out@).contains(p) {
                let k = choose|k: int| 0 <= k < out@.len() && #[trigger] key_view(out@[k]) == p;
                assert(key_view(self.keys@[k]) == p);
            }
            if self@.contains(p) {
                let k = choose|k: int| 0 <= k < self.keys@.len() && #[trigger] key_view(self.keys@[k]) == p;
                assert(key_view(out@[k]) == p);
            }
        }
        assert(keys_set(out@) =~= self@);
        out
    }

    /// Whether the set holds exactly the pairs that `pairs` lists.
    pub fn equals_pairs(&self, pairs: &Vec<(u64, Vec<u8>)>) -> (same: bool)
        ensures
            same == (self@ == seq_set(pair_view(pairs@))),
    {
        let ghost pv = pair_view(pairs@);
        let mut i: usize = 0;
        while i < pairs.len()
            invariant
                i <= pairs@.len(),
                pv == pair_view(pairs@),
                forall|k: int| 0 <= k < i ==> self@.contains(#[trigger] pv[k]),
            decreases pairs@.len() - i,
        {
            if !self.contains(pairs[i].0, &pairs[i].1) {
                assert(seq_set(pv).contains(pv[i as int]));
                return false;
            }
            i = i + 1;
        }
        let mut k: usize = 0;
        while k < self.keys.len()
            invariant
                k <= self.keys@.len(),
                pv == pair_view(pairs@),
                forall|q: int| 0 <= q < k ==> pv.contains(#[trigger] key_view(self.keys@[q])),
            decreases self.keys@.len() - k,
        {
            if !pairs_contain(pairs, self.keys[k].auction_id, &self.keys[k].bidder) {
                assert(self@.contains(key_view(self.keys@[k as int])));
                assert(!seq_set(pv).contains(key_view(self.keys@[k as int])));
                return false;
            }
            k = k + 1;
        }
        assert forall|p: (u64, Seq<u8>)| #[trigger] self@.contains(p) == seq_set(pv).contains(p) by {
            if self@.contains(p) {
                let q = choose|q: int| 0 <= q < self.keys@.len() && #[trigger] key_view(self.keys@[q]) == p;
                assert(pv.contains(key_view(self.keys@[q])));
            }
            if seq_set(pv).contains(p) {
                let q = choose|q: int| 0 <= q < pv.len() && pv[q] == p;
                assert(self@.contains(pv[q]));
            }
        }
        assert(self@ =~= seq_set(pv));
        true
    }

    /// Whether `bidder` has committed to `auction_id`.
    pub fn contains(&self, auction_id: u64, bidder: &Vec<u8>) -> (found: bool)
        ensures
            found == self@.contains((auction_id, bidder@)),
    {
        let mut i: usize = 0;
        while i < self.keys.len()
            invariant
                i <= self.keys@.len(),
                forall|j: int| 0 <= j < i ==> #[trigger] key_view(self.keys@[j]) != (auction_id, bidder@),
            decreases self.keys@.len() - i,
        {
            if self.keys[i].auction_id == auction_id && bytes_equal(&self.keys[i].bidder, bidder) {
                assert(key_view(self.keys@[i as int]) == (auction_id, bidder@));
                return true;
            }
            i = i + 1;
        }
        false
    }

    /// Records that `bidder` has committed to `auction_id`.
    pub fn insert(&mut self, auction_id: u64, bidder: &Vec<u8>)
        ensures
            final(self)@ == old(self)@.insert((auction_id, bidder@)),
    {
        let key = CommitKey { auction_id, bidder: copy_bytes(bidder) };
        self.keys.push(key);
        assert forall|p: (u64, Seq<u8>)| #[trigger] self@.contains(p) == old(self)@.insert(
            (auction_id, bidder@),
        ).contains(p) by {
            if old(self)@.contains(p) {
                let i = choose|i: int| 0 <= i < old(self).keys@.len() && #[trigger] key_view(old(self).keys@[i]) == p;
                assert(key_view(self.keys@[i]) == p);
            }
            if p == (auction_id, bidder@) {
                assert(key_view(self.keys@[self.keys@.len() - 1]) == p);
            }
            if self@.contains(p) {
                let i = choose|i: int| 0 <= i < self.keys@.len() && #[trigger] key_view(self.keys@[i]) == p;
                if i < old(self).keys@.len() {
                    assert(key_view(old(self).keys@[i]) == p);
                }
            }
        }
        assert(self@ =~= old(self)@.insert((auction_id, bidder@)));
    }
}

} // verus!
