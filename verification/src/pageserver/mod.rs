//! The page server: pages, layers, timelines and tenants.
pub mod apply_neon;
pub mod aux_files;
pub mod ephemeral_file;
pub mod eviction_task;
pub mod heatmap_uploader;
pub mod ids;
pub mod inmemory_layer;
pub mod key;
pub mod layer;
pub mod layer_metrics;
pub mod location;
pub mod location_upsert;
pub mod pg_constants;
pub mod postgres_redo;
pub mod shard_split;
pub mod split_flow;
pub mod startup;
pub mod tasks;
pub mod tenant_manager;
pub mod tenant_map;
pub mod tenant_ops;
pub mod timeline_delete;
pub mod walredo;
