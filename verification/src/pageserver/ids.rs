//! Identifiers of tenants, shards and timelines, and generations of attachments.
use vstd::prelude::*;

use crate::base::ordered_map::MapKey;

verus! {

/// A tenant.
#[derive(Clone, Copy, Debug, PartialEq, Eq, Structural, Hash)]
pub struct TenantId(pub u128);

/// A timeline of a tenant.
#[derive(Clone, Copy, Debug, PartialEq, Eq, Structural, Hash)]
pub struct TimelineId(pub u128);

/// The number of a shard, from zero.
#[derive(Clone, Copy, Debug, PartialEq, Eq, Structural, Hash)]
pub struct ShardNumber(pub u8);

/// How many shards a tenant is split into; zero for a tenant without shards.
#[derive(Clone, Copy, Debug, PartialEq, Eq, Structural, Hash)]
pub struct ShardCount(pub u8);

/// A shard of a tenant, or a whole tenant that has no shards.  Shards are ordered by
/// tenant, then by number, then by count.
#[derive(Clone, Copy, Debug, PartialEq, Eq, Structural, Hash)]
pub struct TenantShardId {
    pub tenant_id: TenantId,
    pub shard_number: ShardNumber,
    pub shard_count: ShardCount,
}

/// The place of a shard among its siblings and the number of pages that go to one shard
/// in a row.
#[derive(Clone, Copy, Debug, PartialEq, Eq, Structural, Hash)]
pub struct ShardIdentity {
    pub number: ShardNumber,
    pub count: ShardCount,
    pub stripe_size: u32,
}

/// The generation of an attachment: each time a tenant is attached it gets a greater one.
#[derive(Clone, Copy, Debug, PartialEq, Eq, Structural, Hash)]
pub enum Generation {
    /// A tenant from before generations were introduced.
    Unset,
    /// A tenant that must not write.
    Broken,
    Valid(u32),
}

impl MapKey for TimelineId {
    open spec fn rank(self) -> int {
        self.0 as int
    }

    proof fn rank_is_unique(a: Self, b: Self) {
    }

    fn precedes(&self, other: &Self) -> bool {
        self.0 < other.0
    }
}

impl MapKey for TenantShardId {
    open spec fn rank(self) -> int {
        (self.tenant_id.0 * 256 + self.shard_number.0) * 256 + self.shard_count.0
    }

    proof fn rank_is_unique(a: Self, b: Self) {
    }

    fn precedes(&self, other: &Self) -> bool {
        if self.tenant_id.0 != other.tenant_id.0 {
            self.tenant_id.0 < other.tenant_id.0
        } else if self.shard_number.0 != other.shard_number.0 {
            self.shard_number.0 < other.shard_number.0
        } else {
            self.shard_count.0 < other.shard_count.0
        }
    }
}

impl ShardCount {
    pub open spec fn effective(self) -> int {
        if self.0 > 0 {
            self.0 as int
        } else {
            1
        }
    }

    /// The number of shards, one for a tenant without shards.
    pub fn count(&self) -> (r: u8)
        ensures
            r == self.effective(),
    {
        if self.0 > 0 {
            self.0
        } else {
            1
        }
    }

    /// Whether the tenant has no shards.
    pub fn is_unsharded(&self) -> (r: bool)
        ensures
            r == (self.0 == 0),
    {
        self.0 == 0
    }
}

/// The shards among `new_count` that hold what shard `id` held.
pub open spec fn split_children(id: TenantShardId, new_count: ShardCount, n: int) -> Seq<
    TenantShardId,
>
    decreases n,
{
    if n <= 0 {
        Seq::empty()
    } else {
        let before = split_children(id, new_count, n - 1);
        if (n - 1) % id.shard_count.effective() == id.shard_number.0 {
            before.push(
                TenantShardId {
                    tenant_id: id.tenant_id,
                    shard_number: ShardNumber((n - 1) as u8),
                    shard_count: new_count,
                },
            )
        } else {
            before
        }
    }
}

impl TenantShardId {
    /// The identifier of a tenant without shards.
    #[verifier::allow_in_spec]
    pub fn unsharded(tenant_id: TenantId) -> TenantShardId
        returns
            (TenantShardId { tenant_id, shard_number: ShardNumber(0), shard_count: ShardCount(0) }),
    {
        TenantShardId { tenant_id, shard_number: ShardNumber(0), shard_count: ShardCount(0) }
    }

    /// The shards that this one splits into: pages go to shards by a hash modulo the number
    /// of shards, so they are those whose number is this one's modulo the present count.
    pub fn split(&self, new_shard_count: ShardCount) -> (r: Vec<TenantShardId>)
        ensures
            r@ == split_children(*self, new_shard_count, new_shard_count.0 as int),
    {
        let old_count = self.shard_count.count();
        let mut children: Vec<TenantShardId> = Vec::new();
        let mut n: u8 = 0;
        while n < new_shard_count.0
            invariant
                n <= new_shard_count.0,
                old_count == self.shard_count.effective(),
                children@ == split_children(*self, new_shard_count, n as int),
            decreases new_shard_count.0 - n,
        {
            if n % old_count == self.shard_number.0 {
                children.push(
                    TenantShardId {
                        tenant_id: self.tenant_id,
                        shard_number: ShardNumber(n),
                        shard_count: new_shard_count,
                    },
                );
            }
            n += 1;
        }
        children
    }
}

impl Generation {
    /// The number that orders generations.
    pub open spec fn rank(self) -> int {
        match self {
            Generation::Unset => 0,
            Generation::Broken => 1,
            Generation::Valid(n) => n + 2,
        }
    }

    /// Whether this generation is older than another.
    pub fn older_than(&self, other: &Generation) -> (r: bool)
        ensures
            r == (self.rank() < other.rank()),
    {
        match (self, other) {
            (Generation::Unset, Generation::Unset) => false,
            (Generation::Unset, _) => true,
            (Generation::Broken, Generation::Valid(_)) => true,
            (Generation::Broken, _) => false,
            (Generation::Valid(a), Generation::Valid(b)) => *a < *b,
            (Generation::Valid(_), _) => false,
        }
    }

    /// Whether the tenant is from before generations were introduced.
    pub fn is_none(&self) -> (r: bool)
        ensures
            r == (*self is Unset),
    {
        match self {
            Generation::Unset => true,
            _ => false,
        }
    }
}

/// A shard is among the children exactly if it is of the same tenant, has the new count and
/// its number is the parent's modulo the old count.
pub proof fn children_are_the_matching_numbers(
    id: TenantShardId,
    new_count: ShardCount,
    n: int,
    child: TenantShardId,
)
    requires
        0 <= n <= new_count.0,
    ensures
        split_children(id, new_count, n).contains(child) <==> {
            &&& child.tenant_id == id.tenant_id
            &&& child.shard_count == new_count
            &&& child.shard_number.0 < n
            &&& child.shard_number.0 as int % id.shard_count.effective() == id.shard_number.0
        },
    decreases n,
{
    if n > 0 {
        children_are_the_matching_numbers(id, new_count, n - 1, child);
        let before = split_children(id, new_count, n - 1);
        let all = split_children(id, new_count, n);
        let last = TenantShardId {
            tenant_id: id.tenant_id,
            shard_number: ShardNumber((n - 1) as u8),
            shard_count: new_count,
        };
        if (n - 1) % id.shard_count.effective() == id.shard_number.0 {
            assert(all[all.len() - 1] == last);
            if before.contains(child) {
                let i = before.index_of(child);
                assert(all[i] == child);
            }
            if all.contains(child) && child != last {
                let i = all.index_of(child);
                assert(before[i] == child);
            }
        }
        if child.tenant_id == id.tenant_id && child.shard_count == new_count
            && child.shard_number.0 == n - 1 {
            assert(child == last);
        }
    }
}

/// Each shard of the new count is a child of exactly one shard of the old one: splitting all
/// shards of a tenant loses no page and serves none twice.
pub proof fn splits_partition_the_new_shards(
    a: TenantShardId,
    b: TenantShardId,
    new_count: ShardCount,
    child: TenantShardId,
)
    requires
        a.tenant_id == b.tenant_id,
        a.shard_count == b.shard_count,
        child.tenant_id == a.tenant_id,
        child.shard_count == new_count,
        child.shard_number.0 < new_count.0,
    ensures
        split_children(a, new_count, new_count.0 as int).contains(child) && split_children(
            b,
            new_count,
            new_count.0 as int,
        ).contains(child) ==> a == b,
        a.shard_number.0 == child.shard_number.0 as int % a.shard_count.effective()
            ==> split_children(a, new_count, new_count.0 as int).contains(child),
{
    children_are_the_matching_numbers(a, new_count, new_count.0 as int, child);
    children_are_the_matching_numbers(b, new_count, new_count.0 as int, child);
}

/// Quotient and remainder of the number before `n`.
proof fn lemma_previous(n: int, c: int)
    by (nonlinear_arith)
    requires
        0 < n,
        0 < c,
    ensures
        n % c == 0 ==> (n - 1) / c == n / c - 1 && (n - 1) % c == c - 1,
        n % c != 0 ==> (n - 1) / c == n / c && (n - 1) % c == n % c - 1,
{
    let q = n / c;
    let r = n % c;
    assert(n == q * c + r);
    if r == 0 {
        assert(n - 1 == (q - 1) * c + (c - 1));
        vstd::arithmetic::div_mod::lemma_fundamental_div_mod_converse(n - 1, c, q - 1, c - 1);
    } else {
        vstd::arithmetic::div_mod::lemma_fundamental_div_mod_converse(n - 1, c, q, r - 1);
    }
}

/// The number of children among the first `n` shards.
proof fn lemma_children_count(id: TenantShardId, new_count: ShardCount, n: int)
    requires
        0 <= n,
        id.shard_number.0 < id.shard_count.effective(),
    ensures
        split_children(id, new_count, n).len() == n / id.shard_count.effective() + if id.shard_number.0
            < n % id.shard_count.effective() {
            1int
        } else {
            0
        },
    decreases n,
{
    let c = id.shard_count.effective();
    if n > 0 {
        lemma_children_count(id, new_count, n - 1);
        lemma_previous(n, c);
    } else {
        assert(0int / c == 0 && 0int % c == 0) by (nonlinear_arith)
            requires
                c > 0,
        ;
    }
}

/// Where the old count divides the new one, every shard splits into the same number of
/// children.
pub proof fn splits_are_even(id: TenantShardId, new_count: ShardCount)
    requires
        id.shard_number.0 < id.shard_count.effective(),
        new_count.0 as int % id.shard_count.effective() == 0,
    ensures
        split_children(id, new_count, new_count.0 as int).len() == new_count.0 as int
            / id.shard_count.effective(),
{
    lemma_children_count(id, new_count, new_count.0 as int);
}

/// Shards are ordered by tenant, then by number, then by count.
pub proof fn shards_are_ordered_by_tenant_first(a: TenantShardId, b: TenantShardId)
    ensures
        a.rank() < b.rank() <==> {
            ||| a.tenant_id.0 < b.tenant_id.0
            ||| a.tenant_id.0 == b.tenant_id.0 && a.shard_number.0 < b.shard_number.0
            ||| a.tenant_id.0 == b.tenant_id.0 && a.shard_number.0 == b.shard_number.0
                && a.shard_count.0 < b.shard_count.0
        },
{
}

/// A tenant without shards counts as one with a single shard, any other as one with as many
/// as it has.
pub proof fn no_shards_count_as_one(count: ShardCount)
    ensures
        count.0 == 0 ==> count.effective() == 1,
        count.0 > 0 ==> count.effective() == count.0,
{
}

/// Numbered generations are ordered by their number, and every other one is older than all of
/// them, that of tenants from before generations the oldest.
pub proof fn generations_are_ordered(a: u32, b: u32)
    ensures
        Generation::Valid(a).rank() < Generation::Valid(b).rank() <==> a < b,
        Generation::Broken.rank() < Generation::Valid(a).rank(),
        Generation::Unset.rank() < Generation::Broken.rank(),
{
}

/// The children of a shard come in ascending order of their number, each once.
pub proof fn children_ascend(id: TenantShardId, new_count: ShardCount, n: int)
    requires
        0 <= n <= new_count.0,
    ensures
        forall|i: int, j: int|
            0 <= i < j < split_children(id, new_count, n).len() ==> (#[trigger] split_children(
                id,
                new_count,
                n,
            )[i]).shard_number.0 < (#[trigger] split_children(id, new_count, n)[j]).shard_number.0,
        forall|i: int|
            0 <= i < split_children(id, new_count, n).len() ==> (#[trigger] split_children(
                id,
                new_count,
                n,
            )[i]).shard_number.0 < n,
    decreases n,
{
    if n > 0 {
        children_ascend(id, new_count, n - 1);
        let front = split_children(id, new_count, n - 1);
        let all = split_children(id, new_count, n);
        assert forall|i: int| 0 <= i < front.len() implies #[trigger] all[i] == front[i] by {}
    }
}

/// A child has a number that leaves the parent's when it is divided by the parent's count, where
/// a count of zero stands for one: a tenant without shards splits into all shards of the new
/// count.
pub proof fn a_whole_tenant_splits_into_all_shards(
    tenant_id: TenantId,
    new_count: ShardCount,
    child: TenantShardId,
)
    ensures
        split_children(
            TenantShardId { tenant_id, shard_number: ShardNumber(0), shard_count: ShardCount(0) },
            new_count,
            new_count.0 as int,
        ).contains(child) <==> child.tenant_id == tenant_id && child.shard_count == new_count
            && child.shard_number.0 < new_count.0,
{
    let id = TenantShardId {
        tenant_id,
        shard_number: ShardNumber(0),
        shard_count: ShardCount(0),
    };
    children_are_the_matching_numbers(id, new_count, new_count.0 as int, child);
}

} // verus!
