//! Verified core of the antigen engine: lazily initialised components,
//! change flags, the expression language, mesh index assembly and
//! map-file property handling.
pub mod changed;
pub mod components;
pub mod expression;
pub mod float_literal;
pub mod fs;
pub mod gpu;
pub mod lazy_component;
pub mod map_file;
pub mod peano;
pub mod phosphor;
pub mod render_pass;
pub mod physics;
pub mod text;
pub mod traits;
pub mod usage;
pub mod window;
