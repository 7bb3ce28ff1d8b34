//! The phosphor demo: map-file property handling, culling of map geometry,
//! mesh index assembly and SVG path reading.
pub mod assemblage;
pub mod brush_mesh;
pub mod collider;
pub mod map_build;
pub mod mesh_buffers;
pub mod components;
pub mod entity_plans;
pub mod map_data;
pub mod svg_file;
pub mod svg_lines;
