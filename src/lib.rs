//! Compact voxel-world storage: a widening bit-packed integer array, a
//! fixed-capacity slot pool, a 3D Morton codec, a packed octree node id, and
//! namespaced resource identifiers.
pub mod bit_buffer;
pub mod identity;
pub mod morton;
pub mod node_id;
pub mod packed_array;
pub mod simple_pool;

pub use identity::{Namespace, NamespacedIdentifier, Path, ResourceId, DEFAULT_NAMESPACE};
pub use morton::{Morton3D, MortonDecodable, MortonEncodable};
pub use node_id::{Depth, NodeId, NodeKind, OctreeError, OctreeTraversal};
pub use packed_array::{ArrayError, PackedArrayU32};
pub use simple_pool::{PoolError, SimplePool};
