//! Splitting a tenant shard into shards that each hold a part of it.
//!
//! The steps of a split: plan it; write the children's indexes; acquire the parent's slot;
//! link the parent's files into the children's directories; set the location of each child;
//! wait for the children to catch up; shut the parent down, remove its files and release
//! its slot.
use vstd::prelude::*;

use crate::base::paths;
use crate::pageserver::ids;
use crate::pageserver::ids::Generation;
use crate::pageserver::ids::ShardCount;
use crate::pageserver::ids::ShardIdentity;
use crate::pageserver::ids::TenantShardId;
use crate::pageserver::ids::TimelineId;
use crate::pageserver::location::AttachedLocationConfig;
use crate::pageserver::location::LocationConf;
use crate::pageserver::location::LocationMode;
use crate::pageserver::location::TenantConf;
use crate::pageserver::tenant_manager;
use crate::pageserver::tenant_manager::GetTenantError;
use crate::pageserver::tenant_map;
use crate::pageserver::tenant_map::AttachmentMode;
use crate::pageserver::tenant_map::SlotGuard;
use crate::pageserver::tenant_map::Tenant;
use crate::pageserver::tenant_map::TenantMapError;
use crate::pageserver::tenant_map::TenantSlot;
use crate::pageserver::tenant_map::TenantSlotAcquireMode;
use crate::pageserver::tenant_map::TenantSlotError;
use crate::pageserver::tenant_map::TenantsMap;

verus! {

/// Why a shard was not split.
pub enum SplitError {
    Tenant(GetTenantError),
    /// "Requested shard count is not an increase"
    NotAnIncrease,
    /// "Requested split is not a power of two"
    NotAPowerOfTwo,
    Slot(TenantSlotError),
    /// "Tenant location in secondary mode"
    ParentSecondary,
    /// "Detached parent shard in the middle of split!"
    ParentDetached,
    /// The children's indexes were not written; the parent has been reset.
    Prepare,
    /// The children's indexes were not written, and resetting the parent failed too.
    Reset,
    /// The parent's files were not linked.
    Link,
    /// The location of a child was not set.
    Location,
    Unavailable(TenantMapError),
    /// The parent's directory was not renamed.
    Rename,
}

/// Whether an eight-bit number is a power of two.
pub open spec fn is_power_of_two(n: int) -> bool {
    n == 1 || n == 2 || n == 4 || n == 8 || n == 16 || n == 32 || n == 64 || n == 128
}

/// What a split is to bring about.
pub struct SplitPlan {
    pub parent: TenantShardId,
    /// The parent's handle.
    pub handle: u64,
    pub parent_identity: ShardIdentity,
    pub parent_generation: Generation,
    /// The parent's settings.
    pub parent_conf: TenantConf,
    pub children: Vec<TenantShardId>,
}

/// Why a split of an active tenant would be refused.
pub open spec fn split_refusal(old_count: ShardCount, new_count: ShardCount) -> Option<SplitError> {
    if new_count.effective() <= old_count.effective() {
        Some(SplitError::NotAnIncrease)
    } else if !is_power_of_two(new_count.effective() / old_count.effective()) {
        Some(SplitError::NotAPowerOfTwo)
    } else {
        None
    }
}

/// Plans the split of an active tenant's shard.
pub fn plan_split(tenants: &TenantsMap, id: TenantShardId, new_count: ShardCount) -> (r: Result<
    SplitPlan,
    SplitError,
>)
    requires
        tenants.wf(),
    ensures
        match tenant_manager::lookup(*tenants, id, true) {
            Err(e) => r == Err::<SplitPlan, SplitError>(SplitError::Tenant(e)),
            Ok(tenant) => match split_refusal(id.shard_count, new_count) {
                Some(e) => r == Err::<SplitPlan, SplitError>(e),
                None => {
                    &&& r matches Ok(plan)
                    &&& plan.parent == id
                    &&& plan.handle == tenant.handle
                    &&& plan.parent_identity == tenant.shard_identity
                    &&& plan.parent_generation == tenant.generation
                    &&& plan.parent_conf == tenant.tenant_conf
                    &&& plan.children@ == ids::split_children(id, new_count, new_count.0 as int)
                },
            },
        },
        tenant_manager::lookup(*tenants, id, true) is Ok ==> {
            let old_shards: int = if id.shard_count.0 == 0 { 1 } else { id.shard_count.0 as int };
            let new_shards: int = if new_count.0 == 0 { 1 } else { new_count.0 as int };
            r is Ok <==> old_shards < new_shards && exists|k: nat|
                new_shards / old_shards == #[trigger] vstd::arithmetic::power2::pow2(k)
        },
{
    proof {
        splits_go_by_powers_of_two(id.shard_count, new_count);
    }
    let tenant = match tenant_manager::get_tenant(tenants, id, true) {
        Ok(tenant) => tenant,
        Err(e) => {
            return Err(SplitError::Tenant(e));
        },
    };
    let new = new_count.count();
    let old = id.shard_count.count();
    if new <= old {
        return Err(SplitError::NotAnIncrease);
    }
    let expansion_factor = new / old;
    let power_of_two = match expansion_factor {
        1 => true,
        2 => true,
        4 => true,
        8 => true,
        16 => true,
        32 => true,
        64 => true,
        128 => true,
        _ => false,
    };
    if !power_of_two {
        return Err(SplitError::NotAPowerOfTwo);
    }
    Ok(
        SplitPlan {
            parent: id,
            handle: tenant.handle,
            parent_identity: tenant.shard_identity,
            parent_generation: tenant.generation,
            parent_conf: tenant.tenant_conf,
            children: id.split(new_count),
        },
    )
}

/// Acquires the parent's slot.  Where the parent is no longer attached the split ends: a slot
/// whose tenant still runs gets it back, another is left empty.
pub fn acquire_parent(tenants: &mut TenantsMap, parent: TenantShardId, barrier: u64, completion: u64) -> (r:
    Result<(SlotGuard, u64), SplitError>)
    requires
        old(tenants).wf(),
    ensures
        final(tenants).wf(),
        final(tenants).is_open() == old(tenants).is_open(),
        final(tenants).is_shutting_down() == old(tenants).is_shutting_down(),
        match tenant_map::refusal(*old(tenants), parent, TenantSlotAcquireMode::Any) {
            Some(why) => {
                &&& r matches Err(SplitError::Slot(e)) && tenant_map::error_tells(
                    e,
                    why,
                    parent,
                    old(tenants).slots(),
                )
                &&& final(tenants).slots() == old(tenants).slots()
            },
            None => match tenant_map::slot_value(old(tenants).slots(), parent) {
                Some(TenantSlot::Attached(t)) => {
                    &&& r matches Ok((guard, handle))
                    &&& guard.wf()
                    &&& !guard.upserted
                    &&& guard.tenant_shard_id == parent
                    &&& guard.completion == completion
                    &&& guard.old_value == Some(TenantSlot::Attached(t))
                    &&& handle == t.handle
                    &&& final(tenants).slots() == old(tenants).slots().insert(
                        parent,
                        TenantSlot::InProgress(barrier),
                    )
                },
                old_value => {
                    &&& r == Err::<(SlotGuard, u64), SplitError>(
                        if old_value is Some {
                            SplitError::ParentSecondary
                        } else {
                            SplitError::ParentDetached
                        },
                    )
                    &&& final(tenants).slots() == if tenant_map::old_shut_down(old_value) {
                        old(tenants).slots().remove(parent)
                    } else {
                        old(tenants).slots()
                    }
                },
            },
        },
{
    let ghost before = tenants.slots();
    let guard = match tenant_map::tenant_map_acquire_slot(
        &parent,
        tenants,
        TenantSlotAcquireMode::Any,
        barrier,
        completion,
    ) {
        Ok(guard) => guard,
        Err(e) => {
            return Err(SplitError::Slot(e));
        },
    };
    let why = match guard.get_old_value() {
        Some(TenantSlot::Attached(t)) => {
            let handle = t.handle;
            return Ok((guard, handle));
        },
        Some(_) => SplitError::ParentSecondary,
        None => SplitError::ParentDetached,
    };
    proof {
        tenant_map::release_keeps_running_tenants(before, parent, barrier, guard.old_value);
    }
    guard.release(tenants);
    Err(why)
}

/// The location of a child: attached in the parent's generation, with the parent's settings, and
/// with the parent's identity but for the number and the count.
pub open spec fn child_location_of(plan: SplitPlan, child: TenantShardId) -> LocationConf {
    LocationConf {
        mode: LocationMode::Attached(
            AttachedLocationConfig {
                generation: plan.parent_generation,
                attach_mode: AttachmentMode::Single,
            },
        ),
        shard: ShardIdentity {
            count: child.shard_count,
            number: child.shard_number,
            ..plan.parent_identity
        },
        tenant_conf: plan.parent_conf,
    }
}

/// The location of a child.
pub fn child_location(plan: &SplitPlan, child: TenantShardId) -> (r: LocationConf)
    ensures
        r == child_location_of(*plan, child),
{
    let shard = ShardIdentity {
        count: child.shard_count,
        number: child.shard_number,
        stripe_size: plan.parent_identity.stripe_size,
    };
    LocationConf::attached_single(plan.parent_conf, plan.parent_generation, shard)
}

/// Ends a split after the parent has been shut down and its files have been removed: its
/// slot is left empty.
pub fn finish_split(guard: SlotGuard, tenants: &mut TenantsMap)
    requires
        guard.wf(),
        !guard.upserted,
        old(tenants).wf(),
    ensures
        final(tenants).wf(),
        final(tenants).is_open() == old(tenants).is_open(),
        final(tenants).is_shutting_down() == old(tenants).is_shutting_down(),
        final(tenants).slots() == if old(tenants).is_open() {
            old(tenants).slots().remove(guard.tenant_shard_id)
        } else {
            old(tenants).slots()
        },
{
    let mut guard = guard;
    let ghost id = guard.tenant_shard_id;
    guard.old_value_shut_down();
    let _ = guard.drop_old_value();
    guard.release(tenants);
    assert(old(tenants).is_open() ==> tenants.slots() =~= old(tenants).slots().remove(id));
}

/// A directory of a child.
#[derive(Clone, Copy, Debug, PartialEq, Eq, Structural)]
pub enum ChildDir {
    Tenant(TenantShardId),
    Timeline(TenantShardId, TimelineId),
}

/// The directories of one child.
pub open spec fn dirs_of_child(child: TenantShardId, timelines: Seq<TimelineId>) -> Seq<ChildDir> {
    seq![ChildDir::Tenant(child)] + Seq::new(
        timelines.len(),
        |i: int| ChildDir::Timeline(child, timelines[i]),
    )
}

/// The directories of all children, child by child.
pub open spec fn dirs_of(children: Seq<TenantShardId>, timelines: Seq<TimelineId>) -> Seq<ChildDir>
    decreases children.len(),
{
    if children.len() == 0 {
        Seq::empty()
    } else {
        dirs_of(children.drop_last(), timelines) + dirs_of_child(children.last(), timelines)
    }
}

/// The directories to create before files are linked: for each child its own and one for
/// each timeline of the parent.
pub fn child_dirs(children: &Vec<TenantShardId>, timelines: &Vec<TimelineId>) -> (r: Vec<ChildDir>)
    ensures
        r@ == dirs_of(children@, timelines@),
{
    let mut dirs: Vec<ChildDir> = Vec::new();
    let mut i: usize = 0;
    assert(children@.take(0).len() == 0);
    while i < children.len()
        invariant
            i <= children@.len(),
            dirs@ == dirs_of(children@.take(i as int), timelines@),
        decreases children@.len() - i,
    {
        let child = children[i];
        let ghost before = dirs@;
        assert(children@.take(i + 1).drop_last() =~= children@.take(i as int));
        dirs.push(ChildDir::Tenant(child));
        let mut j: usize = 0;
        assert(dirs@ =~= before + dirs_of_child(child, timelines@).take(1));
        while j < timelines.len()
            invariant
                j <= timelines@.len(),
                dirs@ == before + dirs_of_child(child, timelines@).take(1 + j),
            decreases timelines@.len() - j,
        {
            dirs.push(ChildDir::Timeline(child, timelines[j]));
            j += 1;
            assert(dirs@ =~= before + dirs_of_child(child, timelines@).take(1 + j));
        }
        assert(dirs_of_child(child, timelines@).take(1 + j) =~= dirs_of_child(child, timelines@));
        i += 1;
    }
    assert(children@.take(i as int) =~= children@);
    dirs
}

/// The paths within a directory; none where one of them is not within it.
pub open spec fn paths_within(dir: Seq<char>, files: Seq<String>) -> Option<Seq<Seq<char>>>
    decreases files.len(),
{
    if files.len() == 0 {
        Some(Seq::empty())
    } else {
        match (
            paths_within(dir, files.drop_last()),
            paths::stripped_path(files.last()@, dir),
        ) {
            (Some(front), Some(rest)) => Some(front.push(rest)),
            _ => None,
        }
    }
}

/// Where a file is not within the directory, no more files help.
proof fn lemma_not_within(dir: Seq<char>, files: Seq<String>, n: int)
    requires
        0 <= n <= files.len(),
        paths_within(dir, files.take(n)) is None,
    ensures
        paths_within(dir, files) is None,
    decreases files.len() - n,
{
    if n < files.len() {
        assert(files.take(n + 1).drop_last() =~= files.take(n));
        lemma_not_within(dir, files, n + 1);
    } else {
        assert(files.take(n) =~= files);
    }
}

/// The paths of the parent's layers within its directory.  A layer that is not there stops the
/// split.
pub fn relative_layers(parent_dir: &str, layers: &Vec<String>) -> (r: Result<
    Vec<String>,
    SplitError,
>)
    ensures
        match paths_within(parent_dir@, layers@) {
            Some(within) => r matches Ok(list) && list@.len() == within.len() && forall|i: int|
                0 <= i < list@.len() ==> (#[trigger] list@[i])@ == within[i],
            None => r == Err::<Vec<String>, SplitError>(SplitError::Link),
        },
{
    let mut list: Vec<String> = Vec::new();
    let mut i: usize = 0;
    assert(layers@.take(0).len() == 0);
    while i < layers.len()
        invariant
            i <= layers@.len(),
            paths_within(parent_dir@, layers@.take(i as int)) matches Some(within)
                && list@.len() == within.len() && forall|j: int|
                0 <= j < list@.len() ==> (#[trigger] list@[j])@ == within[j],
        decreases layers@.len() - i,
    {
        assert(layers@.take(i + 1).drop_last() =~= layers@.take(i as int));
        match paths::path_strip_prefix(layers[i].as_str(), parent_dir) {
            Some(rest) => {
                list.push(rest);
            },
            None => {
                proof {
                    lemma_not_within(parent_dir@, layers@, i + 1);
                }
                return Err(SplitError::Link);
            },
        }
        i += 1;
    }
    assert(layers@.take(i as int) =~= layers@);
    Ok(list)
}

/// How the linking of files has ended.
#[derive(Clone, Copy, Debug, PartialEq, Eq, Structural)]
pub enum LinkEnd {
    Linked,
    /// A directory or a link could not be made.
    Failed,
    /// The task that makes them has panicked.
    Panicked,
}

/// Whether the split goes on: links only save downloads, so that a failure is tolerated; a panic
/// is not.
pub fn goes_on_after(end: LinkEnd) -> (r: bool)
    ensures
        r == (end != LinkEnd::Panicked),
{
    match end {
        LinkEnd::Linked => true,
        LinkEnd::Failed => true,
        LinkEnd::Panicked => false,
    }
}

/// A file to link: the child, and which of the parent's files.
#[derive(Clone, Copy, Debug, PartialEq, Eq, Structural)]
pub struct Link {
    pub child: TenantShardId,
    pub layer: usize,
}

/// The links to make: each of the parent's `layers` files into each child.
pub fn child_links(children: &Vec<TenantShardId>, layers: usize) -> (r: Vec<Link>)
    requires
        children@.len() * layers <= usize::MAX,
    ensures
        r@.len() == children@.len() * layers,
        forall|i: int, j: int|
            #![trigger children@[i], r@[i * layers + j]]
            0 <= i < children@.len() && 0 <= j < layers ==> r@[i * layers + j] == (Link {
                child: children@[i],
                layer: j as usize,
            }),
{
    let mut links: Vec<Link> = Vec::new();
    let mut c: usize = 0;
    while c < children.len()
        invariant
            c <= children@.len(),
            links@.len() == c * layers,
            forall|i: int, j: int|
                #![trigger children@[i], links@[i * layers + j]]
                0 <= i < c && 0 <= j < layers ==> links@[i * layers + j] == (Link {
                    child: children@[i],
                    layer: j as usize,
                }),
        decreases children@.len() - c,
    {
        let child = children[c];
        let mut l: usize = 0;
        while l < layers
            invariant
                c < children@.len(),
                child == children@[c as int],
                l <= layers,
                links@.len() == c * layers + l,
                forall|i: int, j: int|
                    #![trigger children@[i], links@[i * layers + j]]
                    0 <= i < c && 0 <= j < layers ==> links@[i * layers + j] == (Link {
                        child: children@[i],
                        layer: j as usize,
                    }),
                forall|j: int|
                    0 <= j < l ==> #[trigger] links@[c * layers + j] == (Link {
                        child,
                        layer: j as usize,
                    }),
            decreases layers - l,
        {
            let ghost before = links@;
            links.push(Link { child, layer: l });
            assert forall|i: int, j: int|
                #![trigger children@[i], links@[i * layers + j]]
                0 <= i < c && 0 <= j < layers implies links@[i * layers + j] == (Link {
                child: children@[i],
                layer: j as usize,
            }) by {
                lemma_row_before(i, j, layers as int, c as int);
                assert(links@[i * layers + j] == before[i * layers + j]);
            }
            l += 1;
        }
        assert((c + 1) * layers == c * layers + layers) by (nonlinear_arith);
        assert forall|i: int, j: int|
            #![trigger children@[i], links@[i * layers + j]]
            0 <= i < c + 1 && 0 <= j < layers implies links@[i * layers + j] == (Link {
            child: children@[i],
            layer: j as usize,
        }) by {
            if i == c {
                assert(links@[c * layers + j] == (Link { child, layer: j as usize }));
            }
        }
        c += 1;
    }
    links
}

/// An earlier row of a table ends before a later one begins.
proof fn lemma_row_before(i: int, j: int, width: int, row: int)
    requires
        0 <= i < row,
        0 <= j < width,
    ensures
        0 <= i * width + j < row * width,
{
    assert(i * width + j < (i + 1) * width && (i + 1) * width <= row * width && 0 <= i * width)
        by (nonlinear_arith)
        requires
            0 <= i < row,
            0 <= j < width,
    ;
}

/// What went wrong with a file or a directory.
#[derive(Clone, Copy, Debug, PartialEq, Eq, Structural)]
pub enum FileError {
    AlreadyExists,
    NotFound,
    Other,
}

/// Whether linking goes on after a directory was not created.
pub fn create_dir_tolerated(e: FileError) -> (r: bool)
    ensures
        r == (e == FileError::AlreadyExists),
{
    match e {
        FileError::AlreadyExists => true,
        _ => false,
    }
}

/// Whether linking goes on after a file was not linked: it may have been linked before, or
/// the parent may have dropped it.
pub fn link_tolerated(e: FileError) -> (r: bool)
    ensures
        r == (e == FileError::AlreadyExists || e == FileError::NotFound),
{
    match e {
        FileError::AlreadyExists => true,
        FileError::NotFound => true,
        FileError::Other => false,
    }
}

/// The positions that the children of a split are waited for: those of the parent's
/// timelines that the child has too.
pub open spec fn targets_of(
    parent: Seq<(TimelineId, u64)>,
    child: Seq<TimelineId>,
) -> Seq<(TimelineId, u64)>
    decreases child.len(),
{
    if child.len() == 0 {
        Seq::empty()
    } else {
        let front = targets_of(parent, child.drop_last());
        match find_target(parent, child.last()) {
            Some(lsn) => front.push((child.last(), lsn)),
            None => front,
        }
    }
}

/// The position of a timeline of the parent.
pub open spec fn find_target(parent: Seq<(TimelineId, u64)>, id: TimelineId) -> Option<u64>
    decreases parent.len(),
{
    if parent.len() == 0 {
        None
    } else if parent[0].0 == id {
        Some(parent[0].1)
    } else {
        find_target(parent.skip(1), id)
    }
}

/// The positions that a child is waited for.
pub fn wait_targets(parent: &Vec<(TimelineId, u64)>, child: &Vec<TimelineId>) -> (r: Vec<
    (TimelineId, u64),
>)
    ensures
        r@ == targets_of(parent@, child@),
{
    let mut r: Vec<(TimelineId, u64)> = Vec::new();
    let mut i: usize = 0;
    assert(child@.take(0).len() == 0);
    while i < child.len()
        invariant
            i <= child@.len(),
            r@ == targets_of(parent@, child@.take(i as int)),
        decreases child@.len() - i,
    {
        assert(child@.take(i + 1).drop_last() =~= child@.take(i as int));
        let mut j: usize = 0;
        assert(parent@.skip(0) =~= parent@);
        while j < parent.len()
            invariant_except_break
                j <= parent@.len(),
                i < child@.len(),
                find_target(parent@, child@[i as int]) == find_target(
                    parent@.skip(j as int),
                    child@[i as int],
                ),
            ensures
                i < child@.len(),
                j <= parent@.len(),
                find_target(parent@, child@[i as int]) == if j < parent@.len() {
                    Some(parent@[j as int].1)
                } else {
                    None
                },
            decreases parent@.len() - j,
        {
            assert(parent@.skip(j as int).skip(1) =~= parent@.skip(j + 1));
            if parent[j].0 == child[i] {
                break;
            }
            j += 1;
        }
        if j < parent.len() {
            r.push((child[i], parent[j].1));
        }
        i += 1;
    }
    assert(child@.take(i as int) =~= child@);
    r
}

/// Each child is attached in the parent's generation, as its only location, and keeps the
/// parent's stripe size.
pub proof fn children_share_the_parents_generation(plan: SplitPlan, child: TenantShardId)
    ensures
        child_location_of(plan, child).mode matches LocationMode::Attached(a) && a.generation
            == plan.parent_generation && a.attach_mode == AttachmentMode::Single,
        child_location_of(plan, child).shard.number == child.shard_number,
        child_location_of(plan, child).shard.count == child.shard_count,
        child_location_of(plan, child).shard.stripe_size == plan.parent_identity.stripe_size,
{
}

/// The children have the parent's settings.
pub proof fn children_inherit_the_parents_settings(plan: SplitPlan, child: TenantShardId)
    ensures
        child_location_of(plan, child).tenant_conf == plan.parent_conf,
{
}

/// The powers of two below 256 and no other numbers below it are in the list.
proof fn lemma_powers_of_two(n: int)
    requires
        0 < n < 256,
    ensures
        is_power_of_two(n) <==> exists|k: nat| n == #[trigger] vstd::arithmetic::power2::pow2(k),
{
    vstd::arithmetic::power2::lemma2_to64();
    if is_power_of_two(n) {
        assert(n == vstd::arithmetic::power2::pow2(0) || n == vstd::arithmetic::power2::pow2(1)
            || n == vstd::arithmetic::power2::pow2(2) || n == vstd::arithmetic::power2::pow2(3)
            || n == vstd::arithmetic::power2::pow2(4) || n == vstd::arithmetic::power2::pow2(5)
            || n == vstd::arithmetic::power2::pow2(6) || n == vstd::arithmetic::power2::pow2(7));
    }
    if exists|k: nat| n == #[trigger] vstd::arithmetic::power2::pow2(k) {
        let k = choose|k: nat| n == #[trigger] vstd::arithmetic::power2::pow2(k);
        if k > 8 {
            vstd::arithmetic::power2::lemma_pow2_strictly_increases(8, k);
        }
        assert(k == 0 || k == 1 || k == 2 || k == 3 || k == 4 || k == 5 || k == 6 || k == 7 || k
            == 8 || k > 8);
    }
}

/// A split is refused as no increase where there are not to be more shards than before, where a
/// count of zero stands for one shard; otherwise it is refused exactly where the quotient of
/// the counts is not a power of two.
pub proof fn splits_go_by_powers_of_two(old_count: ShardCount, new_count: ShardCount)
    ensures
        ({
            let old_shards: int = if old_count.0 == 0 { 1 } else { old_count.0 as int };
            let new_shards: int = if new_count.0 == 0 { 1 } else { new_count.0 as int };
            let refusal = split_refusal(old_count, new_count);
            &&& refusal == Some(SplitError::NotAnIncrease) <==> new_shards <= old_shards
            &&& refusal is None <==> old_shards < new_shards && exists|k: nat|
                new_shards / old_shards == #[trigger] vstd::arithmetic::power2::pow2(k)
            &&& refusal is Some ==> refusal == Some(SplitError::NotAnIncrease) || refusal == Some(
                SplitError::NotAPowerOfTwo,
            )
        }),
{
    let old_shards: int = if old_count.0 == 0 { 1 } else { old_count.0 as int };
    let new_shards: int = if new_count.0 == 0 { 1 } else { new_count.0 as int };
    if old_shards < new_shards {
        assert(1 <= new_shards / old_shards <= new_shards) by (nonlinear_arith)
            requires
                1 <= old_shards < new_shards,
        ;
        lemma_powers_of_two(new_shards / old_shards);
    }
}

/// Whatever the number of shards is, they can be split by every power of two that leaves a
/// count of at most 255; a tenant without shards splits as one with a single shard does.
pub proof fn every_power_of_two_splits(old_count: ShardCount, new_count: ShardCount, k: nat)
    requires
        1 <= k,
        new_count.0 == (if old_count.0 == 0 { 1 } else { old_count.0 as int })
            * vstd::arithmetic::power2::pow2(k),
    ensures
        split_refusal(old_count, new_count) is None,
{
    let old_shards: int = if old_count.0 == 0 { 1 } else { old_count.0 as int };
    let factor: int = vstd::arithmetic::power2::pow2(k) as int;
    vstd::arithmetic::power2::lemma2_to64();
    if k > 1 {
        vstd::arithmetic::power2::lemma_pow2_strictly_increases(1, k);
    }
    assert((old_shards * factor) / old_shards == factor && old_shards * factor > old_shards)
        by (nonlinear_arith)
        requires
            1 <= old_shards,
            2 <= factor,
    ;
    splits_go_by_powers_of_two(old_count, new_count);
}

/// The directories of the children: child `c` has its own directory first and then one for
/// each timeline, and the directories of all children stand behind each other.
pub proof fn every_child_has_its_directories(
    children: Seq<TenantShardId>,
    timelines: Seq<TimelineId>,
    c: int,
    t: int,
)
    requires
        0 <= c < children.len(),
        0 <= t < timelines.len(),
    ensures
        dirs_of(children, timelines).len() == children.len() * (timelines.len() + 1),
        dirs_of(children, timelines)[c * (timelines.len() + 1)] == ChildDir::Tenant(children[c]),
        dirs_of(children, timelines)[c * (timelines.len() + 1) + 1 + t] == ChildDir::Timeline(
            children[c],
            timelines[t],
        ),
    decreases children.len(),
{
    lemma_dirs_len(children, timelines);
    let width: int = timelines.len() as int + 1;
    let n: int = children.len() - 1;
    lemma_dirs_len(children.drop_last(), timelines);
    if c < n {
        every_child_has_its_directories(children.drop_last(), timelines, c, t);
        lemma_row_before(c, 1 + t, width, n);
        lemma_row_before(c, 0, width, n);
    } else {
        assert(dirs_of(children.drop_last(), timelines).len() == n * width);
    }
}

/// How many directories there are.
proof fn lemma_dirs_len(children: Seq<TenantShardId>, timelines: Seq<TimelineId>)
    ensures
        dirs_of(children, timelines).len() == children.len() * (timelines.len() + 1),
    decreases children.len(),
{
    if children.len() > 0 {
        lemma_dirs_len(children.drop_last(), timelines);
        let n: int = children.len() as int;
        let width: int = timelines.len() as int + 1;
        assert((n - 1) * width + width == n * width) by (nonlinear_arith);
    } else {
        assert(0 * (timelines.len() + 1) == 0);
    }
}

/// The parent's files are linked only where every one of them is within its directory, and
/// then each by its own path there, in the order of the files.
pub proof fn layers_keep_their_paths(dir: Seq<char>, files: Seq<String>)
    ensures
        paths_within(dir, files) is Some <==> forall|i: int|
            0 <= i < files.len() ==> paths::stripped_path((#[trigger] files[i])@, dir) is Some,
        paths_within(dir, files) matches Some(within) ==> within.len() == files.len() && forall|
            i: int,
        |
            0 <= i < files.len() ==> paths::stripped_path((#[trigger] files[i])@, dir) == Some(
                within[i],
            ),
    decreases files.len(),
{
    if files.len() > 0 {
        let front = files.drop_last();
        layers_keep_their_paths(dir, front);
        assert(files.last() == files[files.len() - 1]);
        assert forall|i: int| 0 <= i < front.len() implies front[i] == files[i] by {}
        if paths_within(dir, front) is None {
            let i = choose|i: int|
                0 <= i < front.len() && paths::stripped_path((#[trigger] front[i])@, dir) is None;
            assert(paths::stripped_path(files[i]@, dir) is None);
        } else {
            assert forall|i: int| 0 <= i < front.len() implies paths::stripped_path(
                (#[trigger] files[i])@,
                dir,
            ) is Some by {
                assert(paths::stripped_path(front[i]@, dir) is Some);
            }
            assert forall|i: int|
                0 <= i < front.len() implies paths::stripped_path((#[trigger] files[i])@, dir)
                == Some(paths_within(dir, front)->0[i]) by {
                assert(paths::stripped_path(front[i]@, dir) == Some(
                    paths_within(dir, front)->0[i],
                ));
            }
        }
    }
}

/// A position is found for a timeline exactly where the parent has the timeline, and it is the
/// parent's.
pub proof fn targets_are_the_parents_positions(
    parent: Seq<(TimelineId, u64)>,
    id: TimelineId,
    i: int,
)
    requires
        forall|a: int, b: int|
            0 <= a < b < parent.len() ==> (#[trigger] parent[a]).0 != (#[trigger] parent[b]).0,
    ensures
        0 <= i < parent.len() && parent[i].0 == id ==> find_target(parent, id) == Some(parent[i].1),
        find_target(parent, id) matches Some(lsn) ==> exists|k: int|
            0 <= k < parent.len() && #[trigger] parent[k] == (id, lsn),
    decreases parent.len(),
{
    if parent.len() > 0 && parent[0].0 != id {
        let rest = parent.skip(1);
        assert forall|a: int, b: int| 0 <= a < b < rest.len() implies (#[trigger] rest[a]).0 != (
        #[trigger] rest[b]).0 by {
            assert(rest[a] == parent[a + 1] && rest[b] == parent[b + 1]);
        }
        targets_are_the_parents_positions(rest, id, i - 1);
        if 0 <= i < parent.len() && parent[i].0 == id {
            assert(rest[i - 1] == parent[i]);
        }
        if let Some(lsn) = find_target(parent, id) {
            let k = choose|k: int| 0 <= k < rest.len() && #[trigger] rest[k] == (id, lsn);
            assert(parent[k + 1] == (id, lsn));
        }
    } else if parent.len() > 0 {
        assert(parent[0] == (id, parent[0].1));
    }
}

/// A child is waited for on a timeline exactly where both the child and its parent have the
/// timeline, and until it has reached the parent's position there.
pub proof fn children_catch_up_with_the_parent(
    parent: Seq<(TimelineId, u64)>,
    child: Seq<TimelineId>,
    id: TimelineId,
    lsn: u64,
)
    requires
        forall|a: int, b: int|
            0 <= a < b < parent.len() ==> (#[trigger] parent[a]).0 != (#[trigger] parent[b]).0,
    ensures
        targets_of(parent, child).contains((id, lsn)) <==> parent.contains((id, lsn))
            && child.contains(id),
    decreases child.len(),
{
    if child.len() > 0 {
        let front = child.drop_last();
        children_catch_up_with_the_parent(parent, front, id, lsn);
        let all = targets_of(parent, child);
        let before = targets_of(parent, front);
        let last = child.last();
        assert(child =~= front.push(last));
        if parent.contains((id, lsn)) {
            let i = parent.index_of((id, lsn));
            targets_are_the_parents_positions(parent, id, i);
        }
        targets_are_the_parents_positions(parent, last, 0);
        if before.contains((id, lsn)) {
            let k = before.index_of((id, lsn));
            assert(all[k] == (id, lsn));
        }
        if all.contains((id, lsn)) {
            let k = all.index_of((id, lsn));
            if k < before.len() {
                assert(before[k] == (id, lsn));
            }
        }
        if front.contains(id) {
            let k = front.index_of(id);
            assert(child[k] == id);
        }
        if child.contains(id) && id != last {
            let k = child.index_of(id);
            assert(front[k] == id);
        }
        if id == last {
            assert(child[child.len() - 1] == id);
            if parent.contains((id, lsn)) {
                assert(all[all.len() - 1] == (id, lsn));
            }
        }
    }
}

} // verus!
