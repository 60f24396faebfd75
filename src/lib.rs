//! CPU-side state of a 2D draw layer: the textures packed into its atlas,
//! the entities it draws, and the exact bytes of the vertex, index and
//! per-entity transform buffers that a renderer uploads to the GPU.

pub mod atlas;
pub mod entity;
pub mod layer;

pub use atlas::{AtlasRegion, Texture2D, TextureAtlas2D, TextureID, ATLAS_HEIGHT, ATLAS_WIDTH};
pub use entity::{Entity2D, QUAD_SIZE, RAW_TRANSFORM_SIZE, VERTEX_SIZE};
pub use layer::{Layer2D, Layer2DSystem, LayerError, LayerID, LayerView};
