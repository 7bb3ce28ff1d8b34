use vstd::prelude::*;

use crate::changed::Changed;
use crate::usage::Usage;

verus! {

/// Phosphor renderer tag
pub struct PhosphorRenderer;

/// Usage tag: the time the demo started
pub enum StartTime {
    Tag,
}

/// Usage tag: the time of the current frame
pub enum Timestamp {
    Tag,
}

/// Usage tag: seconds since the start
pub enum TotalTime {
    Tag,
}

/// Usage tag: seconds since the last frame
pub enum DeltaTime {
    Tag,
}

pub struct BeamBuffer;

pub struct BeamMultisample;

pub struct BeamDepthBuffer;

#[derive(Debug, Copy, Clone)]
pub struct Vertices;

#[derive(Debug, Copy, Clone)]
pub struct TriangleIndices;

#[derive(Debug, Copy, Clone)]
pub struct TriangleMeshes;

#[derive(Debug, Copy, Clone)]
pub struct TriangleMeshInstances;

#[derive(Debug, Copy, Clone)]
pub struct LineVertices;

#[derive(Debug, Copy, Clone)]
pub struct LineIndices;

#[derive(Debug, Copy, Clone)]
pub struct LineMeshes;

#[derive(Debug, Copy, Clone)]
pub struct LineMeshInstances;

#[derive(Debug, Copy, Clone)]
pub struct LineInstances;

pub struct Perspective;

pub struct Orthographic;

pub struct Uniform;

pub struct StorageBuffers;

pub struct PhosphorDecay;

pub struct PhosphorFrontBuffer;

pub struct PhosphorBackBuffer;

pub struct Beam;

pub struct BeamLine;

pub struct BeamMesh;

pub struct Tonemap;

/// Usage tag: the map file of the demo
pub enum MapFile {
    Tag,
}

/// Mesh ID map tag
#[derive(Copy, Clone)]
pub struct MeshIds;

/// Usage tag: the line mesh that an instance draws
pub enum LineMeshId {
    Tag,
}

pub type LineMeshIdComponent = Usage<LineMeshId, u32>;

/// Index of a triangle index in the index buffer
pub type TriangleIndexData = u16;

/// Index of a line index in the index buffer
pub type LineIndexData = u32;

/// Draw parameters of one triangle mesh
#[derive(Debug, Default, Copy, Clone)]
pub struct TriangleMeshData {
    pub vertex_count: u32,
    pub instance_count: u32,
    pub index_offset: u32,
    pub vertex_offset: u32,
    pub _pad: u32,
}

/// Where one line mesh sits in the vertex and index buffers
#[derive(Debug, Default, Copy, Clone)]
pub struct LineMeshData {
    pub vertex_offset: u32,
    pub vertex_count: u32,
    pub index_offset: u32,
    pub index_count: u32,
}

/// Instance data representing a single line
#[derive(Debug, Default, Copy, Clone)]
pub struct LineInstanceData {
    pub mesh_instance: u32,
    pub line_index: u32,
}

/// A point in time (`std::time::Instant`), carried through unread
#[verifier::external_type_specification]
#[verifier::external_body]
pub struct ExInstant(std::time::Instant);

/// A timer: when it was started and how long it runs
#[derive(Debug, Copy, Clone)]
pub struct Timer {
    pub timestamp: std::time::Instant,
    pub duration: std::time::Duration,
}

pub type TimerComponent = Changed<Timer>;

/// Usage tag: a mesh instance
pub enum MeshInstance {
    Tag,
}

} // verus!
