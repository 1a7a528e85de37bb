//! The keys and values of a sequence's committed positions, layer by layer, and
//! the state of its recurrent layers. Values are held as the bits of their
//! single-precision encoding.

pub mod blob;
pub mod cache;
pub mod layer;
pub mod mirror;
pub mod recurrent;

pub use crate::kv_cache::blob::KvBlobError;
pub use crate::kv_cache::cache::KvCache;
pub use crate::kv_cache::layer::LayerCache;
pub use crate::kv_cache::mirror::{GpuMirror, MirrorLayout, SyncPlan, Upload};
pub use crate::kv_cache::recurrent::RecurrentLayerState;
