//! Converts Wavefront OBJ text into a renderer-ready triangulated mesh:
//! per-vertex position, normal and texture-coordinate buffers plus a triangle
//! index buffer.

pub mod loader;
pub mod mesh;
pub mod obj_api;
pub mod prescan;

pub use loader::{
    build_mesh, classify_format, load_obj, load_obj_from_bytes, ObjLoadError, ObjLoader,
};
pub use mesh::{set_mesh_indices, set_normal_data, set_position_data, set_uv_data, MeshData};
pub use obj_api::{KIND_P, KIND_PN, KIND_PT, KIND_PTN};
