//! Which safekeeper offloads a timeline.
use vstd::multiset::Multiset;
use vstd::prelude::*;

use crate::base::lsn::Lsn;
use crate::base::text;
use crate::pageserver::ids::TimelineId;

verus! {

/// The number of a node.
#[derive(Clone, Copy, Debug, PartialEq, Eq, Structural, Hash)]
pub struct NodeId(pub u64);

/// What is known of a safekeeper of a timeline.
#[derive(Clone, Copy, Debug, PartialEq, Eq, Structural)]
pub struct PeerInfo {
    pub sk_id: NodeId,
    /// Up to where its log is committed.
    pub commit_lsn: Lsn,
    /// From where on it has the log.
    pub local_start_lsn: Lsn,
}

/// Whether a peer has the log from the backup position on, and has committed up to `floor`.
pub open spec fn qualifies(p: PeerInfo, wal_backup_lsn: Lsn, floor: int) -> bool {
    p.local_start_lsn.0 <= wal_backup_lsn.0 && p.commit_lsn.0 >= floor
}

/// The peers that have the log from the backup position on and have committed up to `floor`.
pub open spec fn qualified(peers: Seq<PeerInfo>, wal_backup_lsn: Lsn, floor: int) -> Seq<PeerInfo>
    decreases peers.len(),
{
    if peers.len() == 0 {
        Seq::empty()
    } else {
        let front = qualified(peers.drop_last(), wal_backup_lsn, floor);
        if qualifies(peers.last(), wal_backup_lsn, floor) {
            front.push(peers.last())
        } else {
            front
        }
    }
}

/// The greatest committed position.
pub open spec fn max_commit(peers: Seq<PeerInfo>) -> int
    decreases peers.len(),
{
    if peers.len() == 0 {
        0
    } else {
        let front = max_commit(peers.drop_last());
        if peers.last().commit_lsn.0 > front {
            peers.last().commit_lsn.0 as int
        } else {
            front
        }
    }
}

/// A list that is ordered by number, with a peer put behind those whose number is not greater.
pub open spec fn insert_by_id(s: Seq<PeerInfo>, p: PeerInfo) -> Seq<PeerInfo>
    decreases s.len(),
{
    if s.len() == 0 || s.last().sk_id.0 <= p.sk_id.0 {
        s.push(p)
    } else {
        insert_by_id(s.drop_last(), p).push(s.last())
    }
}

/// The peers ordered by number; those with the same number stay in their order.
pub open spec fn sorted_by_id(s: Seq<PeerInfo>) -> Seq<PeerInfo>
    decreases s.len(),
{
    if s.len() == 0 {
        s
    } else {
        insert_by_id(sorted_by_id(s.drop_last()), s.last())
    }
}

/// The position that a peer must have reached: `lag` bytes before the greatest, or zero.
pub open spec fn election_floor(peers: Seq<PeerInfo>, wal_backup_lsn: Lsn, lag: u64) -> int {
    let max = max_commit(qualified(peers, wal_backup_lsn, 0));
    if max >= lag {
        max - lag
    } else {
        0
    }
}

/// The peers that may be elected, ordered by number.
pub open spec fn electable(peers: Seq<PeerInfo>, wal_backup_lsn: Lsn, lag: u64) -> Seq<PeerInfo> {
    sorted_by_id(
        qualified(peers, wal_backup_lsn, election_floor(peers, wal_backup_lsn, lag)),
    )
}

/// The safekeeper that offloads: among the peers that may be elected, the one at the position
/// that the timeline's number gives.
pub open spec fn offloader(
    peers: Seq<PeerInfo>,
    wal_backup_lsn: Lsn,
    timeline_id: TimelineId,
    lag: u64,
) -> Option<NodeId> {
    let candidates = electable(peers, wal_backup_lsn, lag);
    if candidates.len() == 0 {
        None
    } else {
        Some(candidates[timeline_id.0 as int % candidates.len() as int].sk_id)
    }
}

/// The outcome of an election.
pub struct Election {
    pub offloader: Option<NodeId>,
    /// The peers that have the log from the backup position on, ordered by number, each with
    /// its committed position.
    pub candidates: Vec<(NodeId, Lsn)>,
    /// How many of them are not too far behind.
    pub caughtup: usize,
}

/// A candidate in text.
pub open spec fn candidate_text(candidate: (NodeId, Lsn)) -> Seq<char> {
    "(NodeId("@ + text::decimal(candidate.0.0 as nat) + "), "@ + candidate.1.text() + ")"@
}

/// Candidates in text, separated by commas.
pub open spec fn candidates_text(candidates: Seq<(NodeId, Lsn)>) -> Seq<char>
    decreases candidates.len(),
{
    if candidates.len() == 0 {
        Seq::empty()
    } else if candidates.len() == 1 {
        candidate_text(candidates[0])
    } else {
        candidates_text(candidates.drop_last()) + ", "@ + candidate_text(candidates.last())
    }
}

/// Why an election has ended as it did: who was elected, among whom, and how many of them were
/// caught up.
pub open spec fn explained(
    offloader: Option<NodeId>,
    candidates: Seq<(NodeId, Lsn)>,
    caughtup: nat,
) -> Seq<char> {
    match offloader {
        None => "no connected peers to elect from"@,
        Some(id) => "elected "@ + text::decimal(id.0 as nat) + " among ["@ + candidates_text(
            candidates,
        ) + "] peers, with "@ + text::decimal(caughtup) + " of them being caughtup"@,
    }
}

/// The peers that have the log from the backup position on, ordered by number, each with its
/// committed position.
pub open spec fn capable(peers: Seq<PeerInfo>, wal_backup_lsn: Lsn) -> Seq<(NodeId, Lsn)> {
    let sorted = sorted_by_id(qualified(peers, wal_backup_lsn, 0));
    Seq::new(sorted.len(), |i: int| (sorted[i].sk_id, sorted[i].commit_lsn))
}

/// Why the election among these peers ends as it does.
pub open spec fn explanation_for(
    peers: Seq<PeerInfo>,
    wal_backup_lsn: Lsn,
    timeline_id: TimelineId,
    lag: u64,
) -> Seq<char> {
    explained(
        offloader(peers, wal_backup_lsn, timeline_id, lag),
        capable(peers, wal_backup_lsn),
        electable(peers, wal_backup_lsn, lag).len(),
    )
}

impl Election {
    /// Why the election has ended as it did.
    pub fn explanation(&self) -> (r: String)
        ensures
            r@ == explained(self.offloader, self.candidates@, self.caughtup as nat),
    {
        let id = match self.offloader {
            Some(id) => id,
            None => {
                return String::from_str("no connected peers to elect from");
            },
        };
        let mut r = String::from_str("elected ");
        let number = text::decimal_text(id.0);
        r.append(number.as_str());
        r.append(" among [");
        let ghost before = r@;
        let mut i: usize = 0;
        assert(self.candidates@.take(0).len() == 0);
        assert(before + candidates_text(self.candidates@.take(0)) =~= before);
        while i < self.candidates.len()
            invariant
                i <= self.candidates@.len(),
                r@ == before + candidates_text(self.candidates@.take(i as int)),
            decreases self.candidates@.len() - i,
        {
            let ghost so_far = r@;
            let (node, lsn) = self.candidates[i];
            if i > 0 {
                r.append(", ");
            }
            let node_text = text::decimal_text(node.0);
            let lsn_text = lsn.to_text();
            r.append("(NodeId(");
            r.append(node_text.as_str());
            r.append("), ");
            r.append(lsn_text.as_str());
            r.append(")");
            proof {
                let next = self.candidates@.take(i + 1);
                assert(next.drop_last() =~= self.candidates@.take(i as int));
                assert(next.last() == (node, lsn));
                assert(r@ =~= so_far + (if i > 0 {
                    ", "@
                } else {
                    Seq::empty()
                }) + candidate_text((node, lsn)));
                assert(r@ =~= before + candidates_text(next));
            }
            i += 1;
        }
        assert(self.candidates@.take(i as int) =~= self.candidates@);
        let caughtup = text::decimal_text(self.caughtup as u64);
        r.append("] peers, with ");
        r.append(caughtup.as_str());
        r.append(" of them being caughtup");
        assert(r@ =~= explained(self.offloader, self.candidates@, self.caughtup as nat));
        r
    }
}

/// Where a peer goes in a list that is ordered by number.
proof fn lemma_insert_by_id(s: Seq<PeerInfo>, p: PeerInfo, k: int)
    requires
        0 <= k <= s.len(),
        forall|i: int| k <= i < s.len() ==> (#[trigger] s[i]).sk_id.0 > p.sk_id.0,
        k > 0 ==> s[k - 1].sk_id.0 <= p.sk_id.0,
    ensures
        insert_by_id(s, p) == s.insert(k, p),
    decreases s.len(),
{
    if k < s.len() {
        lemma_insert_by_id(s.drop_last(), p, k);
        assert(s.drop_last().insert(k, p).push(s.last()) =~= s.insert(k, p));
    } else {
        assert(s.insert(k, p) =~= s.push(p));
    }
}

/// Orders peers by number.
fn sort_by_id(peers: &Vec<PeerInfo>) -> (r: Vec<PeerInfo>)
    ensures
        r@ == sorted_by_id(peers@),
        r@.len() == peers@.len(),
{
    let mut r: Vec<PeerInfo> = Vec::new();
    let mut i: usize = 0;
    assert(peers@.take(0) =~= r@);
    while i < peers.len()
        invariant
            i <= peers@.len(),
            r@ == sorted_by_id(peers@.take(i as int)),
            r@.len() == i,
        decreases peers@.len() - i,
    {
        let p = peers[i];
        let mut k: usize = r.len();
        while k > 0 && r[k - 1].sk_id.0 > p.sk_id.0
            invariant
                k <= r@.len(),
                forall|j: int| k <= j < r@.len() ==> (#[trigger] r@[j]).sk_id.0 > p.sk_id.0,
            decreases k,
        {
            k -= 1;
        }
        proof {
            lemma_insert_by_id(r@, p, k as int);
            assert(peers@.take(i + 1).drop_last() =~= peers@.take(i as int));
        }
        r.insert(k, p);
        i += 1;
    }
    assert(peers@.take(i as int) =~= peers@);
    r
}

/// The peers that have the log from the backup position on and have committed up to `floor`.
fn select(peers: &Vec<PeerInfo>, wal_backup_lsn: Lsn, floor: u64) -> (r: Vec<PeerInfo>)
    ensures
        r@ == qualified(peers@, wal_backup_lsn, floor as int),
{
    let mut r: Vec<PeerInfo> = Vec::new();
    let mut i: usize = 0;
    while i < peers.len()
        invariant
            i <= peers@.len(),
            r@ == qualified(peers@.take(i as int), wal_backup_lsn, floor as int),
        decreases peers@.len() - i,
    {
        assert(peers@.take(i + 1).drop_last() =~= peers@.take(i as int));
        if peers[i].local_start_lsn.0 <= wal_backup_lsn.0 && peers[i].commit_lsn.0 >= floor {
            r.push(peers[i]);
        }
        i += 1;
    }
    assert(peers@.take(i as int) =~= peers@);
    r
}

/// The greatest committed position.
fn greatest_commit(peers: &Vec<PeerInfo>) -> (r: u64)
    ensures
        r == max_commit(peers@),
{
    let mut r: u64 = 0;
    let mut i: usize = 0;
    while i < peers.len()
        invariant
            i <= peers@.len(),
            r == max_commit(peers@.take(i as int)),
        decreases peers@.len() - i,
    {
        assert(peers@.take(i + 1).drop_last() =~= peers@.take(i as int));
        if peers[i].commit_lsn.0 > r {
            r = peers[i].commit_lsn.0;
        }
        i += 1;
    }
    assert(peers@.take(i as int) =~= peers@);
    r
}

/// No peer has committed more than the greatest, and one of them has committed that much.
proof fn lemma_max_commit(peers: Seq<PeerInfo>)
    ensures
        forall|i: int|
            0 <= i < peers.len() ==> (#[trigger] peers[i]).commit_lsn.0 <= max_commit(peers),
        peers.len() > 0 ==> exists|i: int|
            0 <= i < peers.len() && (#[trigger] peers[i]).commit_lsn.0 == max_commit(peers),
        max_commit(peers) >= 0,
    decreases peers.len(),
{
    if peers.len() > 0 {
        let front = peers.drop_last();
        lemma_max_commit(front);
        assert forall|i: int| 0 <= i < peers.len() implies (#[trigger] peers[i]).commit_lsn.0
            <= max_commit(peers) by {
            if i < front.len() {
                assert(peers[i] == front[i]);
            }
        }
        if peers.last().commit_lsn.0 > max_commit(front) || front.len() == 0 {
            assert(peers[peers.len() - 1].commit_lsn.0 == max_commit(peers));
        } else {
            let i = choose|i: int|
                0 <= i < front.len() && (#[trigger] front[i]).commit_lsn.0 == max_commit(front);
            assert(peers[i] == front[i]);
        }
    }
}

/// The peers that qualify are exactly those of the list that do.
proof fn lemma_qualified(peers: Seq<PeerInfo>, wal_backup_lsn: Lsn, floor: int)
    ensures
        forall|p: PeerInfo|
            #[trigger] qualified(peers, wal_backup_lsn, floor).contains(p) <==> (peers.contains(p)
                && qualifies(p, wal_backup_lsn, floor)),
    decreases peers.len(),
{
    let q = qualified(peers, wal_backup_lsn, floor);
    if peers.len() > 0 {
        let front = peers.drop_last();
        let fq = qualified(front, wal_backup_lsn, floor);
        lemma_qualified(front, wal_backup_lsn, floor);
        assert forall|p: PeerInfo| #[trigger] q.contains(p) <==> (peers.contains(p) && qualifies(
            p,
            wal_backup_lsn,
            floor,
        )) by {
            if q.contains(p) {
                let i = choose|i: int| 0 <= i < q.len() && q[i] == p;
                if i < fq.len() {
                    assert(fq[i] == p);
                    assert(fq.contains(p));
                    let j = choose|j: int| 0 <= j < front.len() && front[j] == p;
                    assert(peers[j] == p);
                } else {
                    assert(peers[peers.len() - 1] == p);
                }
            }
            if peers.contains(p) && qualifies(p, wal_backup_lsn, floor) {
                let i = choose|i: int| 0 <= i < peers.len() && peers[i] == p;
                if i < front.len() {
                    assert(front[i] == p);
                    assert(fq.contains(p));
                    let j = choose|j: int| 0 <= j < fq.len() && fq[j] == p;
                    assert(q[j] == p);
                } else {
                    assert(q[q.len() - 1] == p);
                }
            }
        }
    }
}

/// Among peers of which one qualifies, one has caught up.
proof fn lemma_someone_is_caught_up(peers: Seq<PeerInfo>, wal_backup_lsn: Lsn, lag: u64)
    requires
        qualified(peers, wal_backup_lsn, 0).len() > 0,
    ensures
        qualified(
            peers,
            wal_backup_lsn,
            election_floor(peers, wal_backup_lsn, lag),
        ).len() > 0,
{
    let capable = qualified(peers, wal_backup_lsn, 0);
    let floor = election_floor(peers, wal_backup_lsn, lag);
    lemma_max_commit(capable);
    let i = choose|i: int|
        0 <= i < capable.len() && (#[trigger] capable[i]).commit_lsn.0 == max_commit(capable);
    let p = capable[i];
    assert(capable.contains(p));
    lemma_qualified(peers, wal_backup_lsn, 0);
    lemma_qualified(peers, wal_backup_lsn, floor);
    assert(qualified(peers, wal_backup_lsn, floor).contains(p));
}

/// Where no peer qualifies, none has caught up.
proof fn lemma_no_one_is_caught_up(peers: Seq<PeerInfo>, wal_backup_lsn: Lsn, floor: int)
    requires
        qualified(peers, wal_backup_lsn, 0).len() == 0,
        floor >= 0,
    ensures
        qualified(peers, wal_backup_lsn, floor).len() == 0,
{
    lemma_qualified(peers, wal_backup_lsn, 0);
    lemma_qualified(peers, wal_backup_lsn, floor);
    let q = qualified(peers, wal_backup_lsn, floor);
    if q.len() > 0 {
        assert(q.contains(q[0]));
        assert(qualified(peers, wal_backup_lsn, 0).contains(q[0]));
    }
}

/// Ordering keeps the number of peers.
proof fn lemma_sorted_len(s: Seq<PeerInfo>)
    ensures
        sorted_by_id(s).len() == s.len(),
    decreases s.len(),
{
    if s.len() > 0 {
        lemma_sorted_len(s.drop_last());
        lemma_insert_len(sorted_by_id(s.drop_last()), s.last());
    }
}

proof fn lemma_insert_len(s: Seq<PeerInfo>, p: PeerInfo)
    ensures
        insert_by_id(s, p).len() == s.len() + 1,
    decreases s.len(),
{
    if s.len() > 0 && s.last().sk_id.0 > p.sk_id.0 {
        lemma_insert_len(s.drop_last(), p);
    }
}

/// Elects the safekeeper that offloads.
///
/// The goal is to ensure that normally only one safekeeper offloads.  Changing it often would
/// be bad, and so would be one that is seriously behind: so the choice is fixed by the
/// timeline, among the peers that are reasonably caught up.
pub fn determine_offloader(
    alive_peers: &Vec<PeerInfo>,
    wal_backup_lsn: Lsn,
    timeline_id: TimelineId,
    max_offloader_lag_bytes: u64,
) -> (r: Election)
    ensures
        r.offloader == offloader(
            alive_peers@,
            wal_backup_lsn,
            timeline_id,
            max_offloader_lag_bytes,
        ),
        r.candidates@ == capable(alive_peers@, wal_backup_lsn),
        r.caughtup == electable(alive_peers@, wal_backup_lsn, max_offloader_lag_bytes).len(),
{
    let capable = select(alive_peers, wal_backup_lsn, 0);
    let max_commit_lsn = greatest_commit(&capable);
    let threshold: u64 = if max_commit_lsn >= max_offloader_lag_bytes {
        max_commit_lsn - max_offloader_lag_bytes
    } else {
        0
    };
    let caughtup = select(alive_peers, wal_backup_lsn, threshold);
    let caughtup = sort_by_id(&caughtup);
    let capable = sort_by_id(&capable);
    let mut candidates: Vec<(NodeId, Lsn)> = Vec::new();
    let mut i: usize = 0;
    while i < capable.len()
        invariant
            i <= capable@.len(),
            candidates@ == Seq::new(
                i as nat,
                |j: int| (capable@[j].sk_id, capable@[j].commit_lsn),
            ),
        decreases capable@.len() - i,
    {
        candidates.push((capable[i].sk_id, capable[i].commit_lsn));
        i += 1;
        assert(candidates@ =~= Seq::new(
            i as nat,
            |j: int| (capable@[j].sk_id, capable@[j].commit_lsn),
        ));
    }
    let chosen = if caughtup.len() == 0 {
        None
    } else {
        // To distribute the load, shift by timeline_id.
        let at: usize = (timeline_id.0 % caughtup.len() as u128) as usize;
        Some(caughtup[at].sk_id)
    };
    Election { offloader: chosen, candidates, caughtup: caughtup.len() }
}

/// Someone is elected exactly where some peer has the log from the backup position on; where no
/// one is, the explanation says so.
pub proof fn someone_is_elected(
    peers: Seq<PeerInfo>,
    wal_backup_lsn: Lsn,
    timeline_id: TimelineId,
    lag: u64,
)
    ensures
        offloader(peers, wal_backup_lsn, timeline_id, lag) is Some <==> exists|i: int|
            0 <= i < peers.len() && (#[trigger] peers[i]).local_start_lsn.0 <= wal_backup_lsn.0,
        offloader(peers, wal_backup_lsn, timeline_id, lag) is None ==> explanation_for(
            peers,
            wal_backup_lsn,
            timeline_id,
            lag,
        ) == "no connected peers to elect from"@,
{
    let capable = qualified(peers, wal_backup_lsn, 0);
    let floor = election_floor(peers, wal_backup_lsn, lag);
    lemma_qualified(peers, wal_backup_lsn, 0);
    lemma_sorted_len(qualified(peers, wal_backup_lsn, floor));
    if capable.len() > 0 {
        lemma_someone_is_caught_up(peers, wal_backup_lsn, lag);
        assert(capable.contains(capable[0]));
        let i = choose|i: int| 0 <= i < peers.len() && peers[i] == capable[0];
        assert(peers[i].local_start_lsn.0 <= wal_backup_lsn.0);
    } else {
        lemma_no_one_is_caught_up(peers, wal_backup_lsn, floor);
        assert forall|i: int| 0 <= i < peers.len() implies (#[trigger] peers[i]).local_start_lsn.0
            > wal_backup_lsn.0 by {
            assert(peers.contains(peers[i]));
            assert(!capable.contains(peers[i]));
        }
    }
}

/// The members of a list do not change when it is ordered.
proof fn lemma_insert_contains(s: Seq<PeerInfo>, p: PeerInfo)
    ensures
        insert_by_id(s, p).to_multiset() =~= s.to_multiset().insert(p),
    decreases s.len(),
{
    broadcast use vstd::multiset::group_multiset_axioms;

    if s.len() == 0 || s.last().sk_id.0 <= p.sk_id.0 {
        vstd::seq_lib::to_multiset_build(s, p);
    } else {
        lemma_insert_contains(s.drop_last(), p);
        vstd::seq_lib::to_multiset_build(insert_by_id(s.drop_last(), p), s.last());
        vstd::seq_lib::to_multiset_build(s.drop_last(), s.last());
        assert(s.drop_last().push(s.last()) =~= s);
    }
}

proof fn lemma_sorted_members(s: Seq<PeerInfo>)
    ensures
        sorted_by_id(s).to_multiset() =~= s.to_multiset(),
    decreases s.len(),
{
    broadcast use vstd::multiset::group_multiset_axioms;

    if s.len() > 0 {
        lemma_sorted_members(s.drop_last());
        lemma_insert_contains(sorted_by_id(s.drop_last()), s.last());
        vstd::seq_lib::to_multiset_build(s.drop_last(), s.last());
        assert(s.drop_last().push(s.last()) =~= s);
    }
}

/// The one that is elected is a peer that has the log from the backup position on and is no
/// more than `lag` bytes behind every other such peer.
pub proof fn the_elected_is_caught_up(
    peers: Seq<PeerInfo>,
    wal_backup_lsn: Lsn,
    timeline_id: TimelineId,
    lag: u64,
)
    requires
        offloader(peers, wal_backup_lsn, timeline_id, lag) is Some,
    ensures
        exists|i: int|
            {
                &&& 0 <= i < peers.len()
                &&& (#[trigger] peers[i]).sk_id == offloader(
                    peers,
                    wal_backup_lsn,
                    timeline_id,
                    lag,
                )->0
                &&& peers[i].local_start_lsn.0 <= wal_backup_lsn.0
                &&& forall|j: int|
                    0 <= j < peers.len() && (#[trigger] peers[j]).local_start_lsn.0
                        <= wal_backup_lsn.0 ==> peers[i].commit_lsn.0 + lag
                        >= peers[j].commit_lsn.0
            },
{
    let capable = qualified(peers, wal_backup_lsn, 0);
    let floor = election_floor(peers, wal_backup_lsn, lag);
    let caughtup = qualified(peers, wal_backup_lsn, floor);
    let sorted = sorted_by_id(caughtup);
    let n = timeline_id.0 as int % sorted.len() as int;
    let p = sorted[n];
    lemma_qualified(peers, wal_backup_lsn, 0);
    lemma_qualified(peers, wal_backup_lsn, floor);
    lemma_max_commit(capable);
    lemma_sorted_members(caughtup);
    assert(sorted.contains(p));
    vstd::seq_lib::to_multiset_contains(sorted, p);
    vstd::seq_lib::to_multiset_contains(caughtup, p);
    assert(caughtup.contains(p));
    assert(peers.contains(p));
    let i = choose|i: int| 0 <= i < peers.len() && peers[i] == p;
    assert forall|j: int|
        0 <= j < peers.len() && (#[trigger] peers[j]).local_start_lsn.0
            <= wal_backup_lsn.0 implies peers[i].commit_lsn.0 + lag >= peers[j].commit_lsn.0 by {
        assert(peers.contains(peers[j]));
        assert(capable.contains(peers[j]));
        let k = choose|k: int| 0 <= k < capable.len() && capable[k] == peers[j];
        assert(capable[k].commit_lsn.0 <= max_commit(capable));
    }
    assert(peers[i].sk_id == offloader(peers, wal_backup_lsn, timeline_id, lag)->0);
}

/// The members of a list that qualify, as a multiset.
proof fn lemma_qualified_members(peers: Seq<PeerInfo>, wal_backup_lsn: Lsn, floor: int)
    ensures
        qualified(peers, wal_backup_lsn, floor).to_multiset() =~= peers.to_multiset().filter(
            |p: PeerInfo| qualifies(p, wal_backup_lsn, floor),
        ),
    decreases peers.len(),
{
    broadcast use vstd::multiset::group_multiset_axioms;

    let f = |p: PeerInfo| qualifies(p, wal_backup_lsn, floor);
    if peers.len() > 0 {
        let front = peers.drop_last();
        lemma_qualified_members(front, wal_backup_lsn, floor);
        vstd::seq_lib::to_multiset_build(front, peers.last());
        assert(front.push(peers.last()) =~= peers);
        vstd::seq_lib::to_multiset_build(qualified(front, wal_backup_lsn, floor), peers.last());
    } else {
        vstd::seq_lib::to_multiset_len(peers);
        vstd::seq_lib::to_multiset_len(qualified(peers, wal_backup_lsn, floor));
        assert(peers.to_multiset() =~= Multiset::<PeerInfo>::empty());
        assert(qualified(peers, wal_backup_lsn, floor).to_multiset() =~= Multiset::<
            PeerInfo,
        >::empty());
    }
}

/// The greatest committed position does not depend on the order.
proof fn lemma_max_commit_unordered(a: Seq<PeerInfo>, b: Seq<PeerInfo>)
    requires
        a.to_multiset() == b.to_multiset(),
    ensures
        max_commit(a) == max_commit(b),
{
    lemma_max_commit(a);
    lemma_max_commit(b);
    vstd::seq_lib::to_multiset_len(a);
    vstd::seq_lib::to_multiset_len(b);
    if a.len() > 0 {
        let i = choose|i: int|
            0 <= i < a.len() && (#[trigger] a[i]).commit_lsn.0 == max_commit(a);
        assert(a.contains(a[i]));
        vstd::seq_lib::to_multiset_contains(a, a[i]);
        vstd::seq_lib::to_multiset_contains(b, a[i]);
        let k = choose|k: int| 0 <= k < b.len() && b[k] == a[i];
        assert(b[k].commit_lsn.0 <= max_commit(b));
        let j = choose|j: int|
            0 <= j < b.len() && (#[trigger] b[j]).commit_lsn.0 == max_commit(b);
        assert(b.contains(b[j]));
        vstd::seq_lib::to_multiset_contains(b, b[j]);
        vstd::seq_lib::to_multiset_contains(a, b[j]);
        let l = choose|l: int| 0 <= l < a.len() && a[l] == b[j];
        assert(a[l].commit_lsn.0 <= max_commit(a));
    }
}

/// The numbers of an ordered list ascend.
proof fn lemma_sorted_ascends(s: Seq<PeerInfo>)
    ensures
        forall|i: int, j: int|
            0 <= i <= j < s.len() ==> (#[trigger] sorted_by_id(s)[i]).sk_id.0 <= (
            #[trigger] sorted_by_id(s)[j]).sk_id.0,
    decreases s.len(),
{
    lemma_sorted_len(s);
    if s.len() > 0 {
        let front = sorted_by_id(s.drop_last());
        lemma_sorted_ascends(s.drop_last());
        lemma_sorted_len(s.drop_last());
        lemma_insert_ascends(front, s.last());
    }
}

proof fn lemma_insert_ascends(s: Seq<PeerInfo>, p: PeerInfo)
    requires
        forall|i: int, j: int|
            0 <= i <= j < s.len() ==> (#[trigger] s[i]).sk_id.0 <= (#[trigger] s[j]).sk_id.0,
    ensures
        forall|i: int, j: int|
            0 <= i <= j < s.len() + 1 ==> (#[trigger] insert_by_id(s, p)[i]).sk_id.0 <= (
            #[trigger] insert_by_id(s, p)[j]).sk_id.0,
        forall|i: int|
            0 <= i < s.len() + 1 ==> (#[trigger] insert_by_id(s, p)[i]).sk_id.0 <= p.sk_id.0 || (
            s.len() > 0 && insert_by_id(s, p)[i].sk_id.0 <= s.last().sk_id.0),
    decreases s.len(),
{
    lemma_insert_len(s, p);
    if s.len() > 0 && s.last().sk_id.0 > p.sk_id.0 {
        let front = s.drop_last();
        lemma_insert_len(front, p);
        lemma_insert_ascends(front, p);
        let r = insert_by_id(front, p);
        assert forall|i: int| 0 <= i < r.len() implies (#[trigger] r[i]).sk_id.0
            <= s.last().sk_id.0 by {
            if front.len() > 0 {
                assert(front.last() == s[s.len() - 2]);
                assert(s[s.len() - 2].sk_id.0 <= s[s.len() - 1].sk_id.0);
            }
        }
    }
}

/// Two ordered lists with the same members have the same numbers in the same places.
proof fn lemma_same_ids(a: Seq<PeerInfo>, b: Seq<PeerInfo>, k: int)
    requires
        a.to_multiset() == b.to_multiset(),
        forall|i: int, j: int|
            0 <= i <= j < a.len() ==> (#[trigger] a[i]).sk_id.0 <= (#[trigger] a[j]).sk_id.0,
        forall|i: int, j: int|
            0 <= i <= j < b.len() ==> (#[trigger] b[i]).sk_id.0 <= (#[trigger] b[j]).sk_id.0,
        0 <= k < a.len(),
    ensures
        a.len() == b.len(),
        a[k].sk_id.0 <= b[k].sk_id.0,
{
    vstd::seq_lib::to_multiset_len(a);
    vstd::seq_lib::to_multiset_len(b);
    if a[k].sk_id.0 > b[k].sk_id.0 {
        let bound = b[k].sk_id.0;
        lemma_below_multiset(a, bound);
        lemma_below_multiset(b, bound);
        lemma_below_count(a, bound, k);
        lemma_below_count(b, bound, k);
    }
}

/// How many members have a number up to `bound`.
spec fn below(s: Seq<PeerInfo>, bound: u64) -> nat
    decreases s.len(),
{
    if s.len() == 0 {
        0
    } else {
        below(s.drop_last(), bound) + if s.last().sk_id.0 <= bound {
            1nat
        } else {
            0nat
        }
    }
}

proof fn lemma_below_multiset(s: Seq<PeerInfo>, bound: u64)
    ensures
        below(s, bound) == s.to_multiset().filter(|p: PeerInfo| p.sk_id.0 <= bound).len(),
    decreases s.len(),
{
    broadcast use vstd::multiset::group_multiset_axioms;

    let f = |p: PeerInfo| p.sk_id.0 <= bound;
    if s.len() > 0 {
        let front = s.drop_last();
        lemma_below_multiset(front, bound);
        vstd::seq_lib::to_multiset_build(front, s.last());
        assert(front.push(s.last()) =~= s);
        if f(s.last()) {
            assert(s.to_multiset().filter(f) =~= front.to_multiset().filter(f).insert(s.last()));
        } else {
            assert(s.to_multiset().filter(f) =~= front.to_multiset().filter(f));
        }
    } else {
        vstd::seq_lib::to_multiset_len(s);
        assert(s.to_multiset().filter(f) =~= Multiset::<PeerInfo>::empty());
    }
}

/// In an ordered list, the members up to `bound` stand in front.
proof fn lemma_below_count(s: Seq<PeerInfo>, bound: u64, k: int)
    requires
        forall|i: int, j: int|
            0 <= i <= j < s.len() ==> (#[trigger] s[i]).sk_id.0 <= (#[trigger] s[j]).sk_id.0,
        0 <= k < s.len(),
    ensures
        s[k].sk_id.0 > bound ==> below(s, bound) <= k,
        s[k].sk_id.0 <= bound ==> below(s, bound) > k,
    decreases s.len(),
{
    let front = s.drop_last();
    assert forall|i: int, j: int| 0 <= i <= j < front.len() implies (#[trigger] front[i]).sk_id.0
        <= (#[trigger] front[j]).sk_id.0 by {
        assert(s[i].sk_id.0 <= s[j].sk_id.0);
    }
    if k < front.len() {
        lemma_below_count(front, bound, k);
        assert(front[k] == s[k]);
        assert(s[k].sk_id.0 <= s[s.len() - 1].sk_id.0);
    } else if s[k].sk_id.0 <= bound {
        lemma_all_below(s, bound);
    } else {
        lemma_below_at_most(front, bound);
    }
}

proof fn lemma_all_below(s: Seq<PeerInfo>, bound: u64)
    requires
        forall|i: int| 0 <= i < s.len() ==> (#[trigger] s[i]).sk_id.0 <= bound,
    ensures
        below(s, bound) == s.len(),
    decreases s.len(),
{
    if s.len() > 0 {
        assert(s[s.len() - 1].sk_id.0 <= bound);
        assert forall|i: int| 0 <= i < s.drop_last().len() implies (
        #[trigger] s.drop_last()[i]).sk_id.0 <= bound by {
            assert(s[i].sk_id.0 <= bound);
        }
        lemma_all_below(s.drop_last(), bound);
    }
}

proof fn lemma_below_at_most(s: Seq<PeerInfo>, bound: u64)
    ensures
        below(s, bound) <= s.len(),
    decreases s.len(),
{
    if s.len() > 0 {
        lemma_below_at_most(s.drop_last(), bound);
    }
}

/// All safekeepers that know the same peers elect the same one, in whichever order they know
/// them.
pub proof fn the_order_of_peers_does_not_matter(
    a: Seq<PeerInfo>,
    b: Seq<PeerInfo>,
    wal_backup_lsn: Lsn,
    timeline_id: TimelineId,
    lag: u64,
)
    requires
        a.to_multiset() == b.to_multiset(),
    ensures
        offloader(a, wal_backup_lsn, timeline_id, lag) == offloader(
            b,
            wal_backup_lsn,
            timeline_id,
            lag,
        ),
{
    lemma_qualified_members(a, wal_backup_lsn, 0);
    lemma_qualified_members(b, wal_backup_lsn, 0);
    lemma_max_commit_unordered(
        qualified(a, wal_backup_lsn, 0),
        qualified(b, wal_backup_lsn, 0),
    );
    let floor = election_floor(a, wal_backup_lsn, lag);
    assert(floor == election_floor(b, wal_backup_lsn, lag));
    lemma_qualified_members(a, wal_backup_lsn, floor);
    lemma_qualified_members(b, wal_backup_lsn, floor);
    let qa = qualified(a, wal_backup_lsn, floor);
    let qb = qualified(b, wal_backup_lsn, floor);
    let sa = sorted_by_id(qa);
    let sb = sorted_by_id(qb);
    lemma_sorted_members(qa);
    lemma_sorted_members(qb);
    lemma_sorted_ascends(qa);
    lemma_sorted_ascends(qb);
    lemma_sorted_len(qa);
    lemma_sorted_len(qb);
    vstd::seq_lib::to_multiset_len(sa);
    vstd::seq_lib::to_multiset_len(sb);
    if sa.len() > 0 {
        let n = timeline_id.0 as int % sa.len() as int;
        lemma_same_ids(sa, sb, n);
        lemma_same_ids(sb, sa, n);
    }
}

/// A peer may be elected exactly if it has the log from the backup position on and no other
/// such peer has committed more than the lag beyond it.
pub proof fn the_caught_up_may_be_elected(
    peers: Seq<PeerInfo>,
    wal_backup_lsn: Lsn,
    lag: u64,
    p: PeerInfo,
)
    ensures
        electable(peers, wal_backup_lsn, lag).contains(p) <==> {
            &&& peers.contains(p)
            &&& p.local_start_lsn.0 <= wal_backup_lsn.0
            &&& forall|j: int|
                0 <= j < peers.len() && (#[trigger] peers[j]).local_start_lsn.0 <= wal_backup_lsn.0
                    ==> peers[j].commit_lsn.0 <= p.commit_lsn.0 + lag
        },
{
    let has_log = qualified(peers, wal_backup_lsn, 0);
    let floor = election_floor(peers, wal_backup_lsn, lag);
    let caughtup = qualified(peers, wal_backup_lsn, floor);
    lemma_qualified(peers, wal_backup_lsn, 0);
    lemma_qualified(peers, wal_backup_lsn, floor);
    lemma_max_commit(has_log);
    lemma_sorted_members(caughtup);
    vstd::seq_lib::to_multiset_contains(sorted_by_id(caughtup), p);
    vstd::seq_lib::to_multiset_contains(caughtup, p);
    if caughtup.contains(p) {
        assert forall|j: int|
            0 <= j < peers.len() && (#[trigger] peers[j]).local_start_lsn.0
                <= wal_backup_lsn.0 implies peers[j].commit_lsn.0 <= p.commit_lsn.0 + lag by {
            assert(peers.contains(peers[j]));
            assert(has_log.contains(peers[j]));
            let k = choose|k: int| 0 <= k < has_log.len() && has_log[k] == peers[j];
            assert(has_log[k].commit_lsn.0 <= max_commit(has_log));
        }
    }
    if peers.contains(p) && p.local_start_lsn.0 <= wal_backup_lsn.0 && (forall|j: int|
        0 <= j < peers.len() && (#[trigger] peers[j]).local_start_lsn.0 <= wal_backup_lsn.0
            ==> peers[j].commit_lsn.0 <= p.commit_lsn.0 + lag) {
        assert(has_log.contains(p));
        let i = choose|i: int|
            0 <= i < has_log.len() && (#[trigger] has_log[i]).commit_lsn.0 == max_commit(has_log);
        assert(has_log.contains(has_log[i]));
        let j = choose|j: int| 0 <= j < peers.len() && peers[j] == has_log[i];
        assert(peers[j].local_start_lsn.0 <= wal_backup_lsn.0);
    }
}

/// Putting a peer into an ordered list keeps the order.
proof fn lemma_insert_sorted(s: Seq<PeerInfo>, p: PeerInfo)
    requires
        forall|i: int, j: int|
            0 <= i < j < s.len() ==> (#[trigger] s[i]).sk_id.0 <= (#[trigger] s[j]).sk_id.0,
    ensures
        forall|i: int, j: int|
            0 <= i < j < insert_by_id(s, p).len() ==> (#[trigger] insert_by_id(s, p)[i]).sk_id.0
                <= (#[trigger] insert_by_id(s, p)[j]).sk_id.0,
        forall|i: int|
            0 <= i < insert_by_id(s, p).len() ==> (#[trigger] insert_by_id(s, p)[i]).sk_id.0
                <= p.sk_id.0 || (s.len() > 0 && insert_by_id(s, p)[i].sk_id.0
                <= s.last().sk_id.0),
    decreases s.len(),
{
    if s.len() > 0 && s.last().sk_id.0 > p.sk_id.0 {
        let front = s.drop_last();
        assert forall|i: int, j: int| 0 <= i < j < front.len() implies (
        #[trigger] front[i]).sk_id.0 <= (#[trigger] front[j]).sk_id.0 by {
            assert(front[i] == s[i] && front[j] == s[j]);
        }
        lemma_insert_sorted(front, p);
        let before = insert_by_id(front, p);
        if front.len() > 0 {
            assert(front.last() == s[s.len() - 2]);
            assert(s[s.len() - 2].sk_id.0 <= s[s.len() - 1].sk_id.0);
        }
        assert forall|i: int| 0 <= i < before.len() implies (#[trigger] before[i]).sk_id.0
            <= s.last().sk_id.0 by {}
    }
}

/// The peers that may be elected stand in the order of their numbers.
pub proof fn the_electable_are_ordered(peers: Seq<PeerInfo>, wal_backup_lsn: Lsn, lag: u64)
    ensures
        forall|i: int, j: int|
            0 <= i < j < electable(peers, wal_backup_lsn, lag).len() ==> (#[trigger] electable(
                peers,
                wal_backup_lsn,
                lag,
            )[i]).sk_id.0 <= (#[trigger] electable(peers, wal_backup_lsn, lag)[j]).sk_id.0,
{
    lemma_sorted(
        qualified(peers, wal_backup_lsn, election_floor(peers, wal_backup_lsn, lag)),
    );
}

/// A sorted list is in order.
proof fn lemma_sorted(s: Seq<PeerInfo>)
    ensures
        forall|i: int, j: int|
            0 <= i < j < sorted_by_id(s).len() ==> (#[trigger] sorted_by_id(s)[i]).sk_id.0 <= (
            #[trigger] sorted_by_id(s)[j]).sk_id.0,
    decreases s.len(),
{
    if s.len() > 0 {
        lemma_sorted(s.drop_last());
        lemma_insert_sorted(sorted_by_id(s.drop_last()), s.last());
    }
}

/// Timelines are spread evenly over the peers that may be elected: with `n` of them, each is
/// elected for every `n`th timeline, in the order of their numbers.
pub proof fn timelines_are_spread_over_the_electable(
    peers: Seq<PeerInfo>,
    wal_backup_lsn: Lsn,
    lag: u64,
    round: nat,
    i: int,
    timeline_id: TimelineId,
)
    requires
        0 <= i < electable(peers, wal_backup_lsn, lag).len(),
        timeline_id.0 == round * electable(peers, wal_backup_lsn, lag).len() + i,
    ensures
        offloader(peers, wal_backup_lsn, timeline_id, lag) == Some(
            electable(peers, wal_backup_lsn, lag)[i].sk_id,
        ),
{
    let n = electable(peers, wal_backup_lsn, lag).len() as int;
    let r = round as int;
    vstd::arithmetic::div_mod::lemma_fundamental_div_mod_converse(timeline_id.0 as int, n, r, i);
}

/// The candidates that an explanation lists are the peers that have the log from the backup
/// position on, each with what it has committed, in the order of their numbers.
pub proof fn explanations_list_the_capable(
    peers: Seq<PeerInfo>,
    wal_backup_lsn: Lsn,
    c: (NodeId, Lsn),
)
    ensures
        capable(peers, wal_backup_lsn).contains(c) <==> exists|i: int|
            0 <= i < peers.len() && (#[trigger] peers[i]).local_start_lsn.0 <= wal_backup_lsn.0
                && peers[i].sk_id == c.0 && peers[i].commit_lsn == c.1,
        forall|i: int, j: int|
            0 <= i < j < capable(peers, wal_backup_lsn).len() ==> (#[trigger] capable(
                peers,
                wal_backup_lsn,
            )[i]).0.0 <= (#[trigger] capable(peers, wal_backup_lsn)[j]).0.0,
{
    let found = qualified(peers, wal_backup_lsn, 0);
    let sorted = sorted_by_id(found);
    let listed = capable(peers, wal_backup_lsn);
    lemma_qualified(peers, wal_backup_lsn, 0);
    lemma_sorted_members(found);
    lemma_sorted(found);
    if listed.contains(c) {
        let k = listed.index_of(c);
        let p = sorted[k];
        assert(sorted.contains(p));
        vstd::seq_lib::to_multiset_contains(sorted, p);
        vstd::seq_lib::to_multiset_contains(found, p);
        let i = peers.index_of(p);
        assert(peers[i].sk_id == c.0);
    }
    if exists|i: int|
        0 <= i < peers.len() && (#[trigger] peers[i]).local_start_lsn.0 <= wal_backup_lsn.0
            && peers[i].sk_id == c.0 && peers[i].commit_lsn == c.1 {
        let i = choose|i: int|
            0 <= i < peers.len() && (#[trigger] peers[i]).local_start_lsn.0 <= wal_backup_lsn.0
                && peers[i].sk_id == c.0 && peers[i].commit_lsn == c.1;
        let p = peers[i];
        assert(peers.contains(p));
        vstd::seq_lib::to_multiset_contains(sorted, p);
        vstd::seq_lib::to_multiset_contains(found, p);
        let k = sorted.index_of(p);
        assert(listed[k] == c);
    }
}

/// Candidates are listed with their number and position, apart by a comma and a space.
pub proof fn candidates_are_listed_with_commas(
    candidates: Seq<(NodeId, Lsn)>,
    id: NodeId,
    lsn: Lsn,
)
    ensures
        candidate_text((id, lsn)) == "(NodeId("@ + text::decimal(id.0 as nat) + "), "@ + lsn.text()
            + ")"@,
        candidates_text(seq![(id, lsn)]) == candidate_text((id, lsn)),
        candidates.len() > 0 ==> candidates_text(candidates.push((id, lsn))) == candidates_text(
            candidates,
        ) + ", "@ + candidate_text((id, lsn)),
        candidates_text(Seq::empty()) == Seq::<char>::empty(),
{
    assert(candidates.push((id, lsn)).drop_last() =~= candidates);
}

} // verus!
