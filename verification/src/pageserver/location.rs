//! How a page server is to hold a tenant shard.
use vstd::prelude::*;

use crate::pageserver::ids::Generation;
use crate::pageserver::ids::ShardIdentity;
use crate::pageserver::tenant_map::AttachmentMode;

verus! {

/// The settings of an attached location.
#[derive(Clone, Copy, Debug, PartialEq, Eq, Structural)]
pub struct AttachedLocationConfig {
    pub generation: Generation,
    pub attach_mode: AttachmentMode,
}

/// The settings of a secondary location.
#[derive(Clone, Copy, Debug, PartialEq, Eq, Structural)]
pub struct SecondaryLocationConfig {
    /// Whether to keep a local cache.
    pub warm: bool,
}

/// Whether a location is attached or secondary.
#[derive(Clone, Copy, Debug, PartialEq, Eq, Structural)]
pub enum LocationMode {
    Attached(AttachedLocationConfig),
    Secondary(SecondaryLocationConfig),
}

/// The settings of a tenant, by the number under which they are kept.  They are handed on as a
/// whole: nothing here depends on what they say.
#[derive(Clone, Copy, Debug, PartialEq, Eq, Structural)]
pub struct TenantConf(pub u64);

/// The configuration of a location.
#[derive(Clone, Copy, Debug, PartialEq, Eq, Structural)]
pub struct LocationConf {
    pub mode: LocationMode,
    pub shard: ShardIdentity,
    pub tenant_conf: TenantConf,
}

impl LocationConf {
    /// The configuration of the only attached location of a shard.
    pub fn attached_single(
        tenant_conf: TenantConf,
        generation: Generation,
        shard: ShardIdentity,
    ) -> (r: LocationConf)
        ensures
            r.mode == LocationMode::Attached(
                AttachedLocationConfig { generation, attach_mode: AttachmentMode::Single },
            ),
            r.shard == shard,
            r.tenant_conf == tenant_conf,
    {
        LocationConf {
            mode: LocationMode::Attached(
                AttachedLocationConfig { generation, attach_mode: AttachmentMode::Single },
            ),
            shard,
            tenant_conf,
        }
    }

    /// The configuration with the location attached in `generation`.  A location that was
    /// attached keeps its attachment mode; a secondary one becomes the only attached one.  The
    /// settings stay.
    pub open spec fn in_generation(self, generation: Generation) -> LocationConf {
        LocationConf {
            mode: LocationMode::Attached(
                AttachedLocationConfig {
                    generation,
                    attach_mode: match self.mode {
                        LocationMode::Attached(a) => a.attach_mode,
                        LocationMode::Secondary(_) => AttachmentMode::Single,
                    },
                },
            ),
            shard: self.shard,
            tenant_conf: self.tenant_conf,
        }
    }

    /// Attaches the location in `generation`.
    pub fn attach_in_generation(&mut self, generation: Generation)
        ensures
            *final(self) == old(self).in_generation(generation),
    {
        let attach_mode = match self.mode {
            LocationMode::Attached(a) => a.attach_mode,
            LocationMode::Secondary(_) => AttachmentMode::Single,
        };
        self.mode = LocationMode::Attached(AttachedLocationConfig { generation, attach_mode });
    }
}

/// Another generation changes nothing of an attached location but the generation; a secondary
/// location becomes one that is attached alone.
pub proof fn generations_change_nothing_else(conf: LocationConf, generation: Generation)
    ensures
        conf.in_generation(generation).mode matches LocationMode::Attached(a) && a.generation
            == generation && (conf.mode matches LocationMode::Attached(b) ==> a.attach_mode
            == b.attach_mode) && (conf.mode is Secondary ==> a.attach_mode
            == AttachmentMode::Single),
        conf.in_generation(generation).shard == conf.shard,
        conf.in_generation(generation).tenant_conf == conf.tenant_conf,
{
}

} // verus!
