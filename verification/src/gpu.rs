use vstd::prelude::*;

use crate::usage::Usage;

verus! {

/// Usage tag: the multisampled framebuffer
pub enum MsaaFramebuffer {
    Tag,
}

/// Usage tag: texel data
pub enum Texels {
    Tag,
}

/// Usage tag: mesh vertex data
pub enum MeshVertices {
    Tag,
}

/// Usage tag: mesh texture coordinates
pub enum MeshUvs {
    Tag,
}

/// Usage tag: mesh index data
pub enum MeshIndices {
    Tag,
}

/// Usage tag: a compute pass
pub enum ComputePass {
    Tag,
}

/// Usage tag: a render pass
pub enum RenderPassTag {
    Tag,
}

/// Usage tag: an indirect draw
pub enum DrawIndirect {
    Tag,
}

/// Usage tag: an indexed indirect draw
pub enum DrawIndexedIndirect {
    Tag,
}

/// Namespace for assembling render passes
pub enum RenderPassBundle {
    Tag,
}

/// Handle of a staging belt
#[derive(Debug, Default, Copy, Clone, PartialEq, Eq, PartialOrd, Ord, Hash)]
pub struct StagingBeltId(pub usize);

/// The weight of byte `k` of a `u32`, counting from the least significant byte
pub open spec fn byte_weight(k: int) -> int {
    if k == 0 {
        1
    } else if k == 1 {
        0x100
    } else if k == 2 {
        0x1_0000
    } else {
        0x100_0000
    }
}

/// Byte `k` (from 0 to 3) of `v` as it lies in memory: in little-endian order the
/// least significant byte comes first, in big-endian order the most significant
pub open spec fn u32_byte(v: u32, k: int, little_endian: bool) -> u8 {
    let place = if little_endian {
        k
    } else {
        3 - k
    };
    ((v as int / byte_weight(place)) % 256) as u8
}

/// The bytes of the values of `s`, four per value in turn, all in one byte order
pub open spec fn u32s_bytes(s: Seq<u32>, little_endian: bool) -> Seq<u8> {
    Seq::new(4 * s.len(), |i: int| u32_byte(s[i / 4], i % 4, little_endian))
}

/// Values that can be written to a GPU buffer as bytes
pub trait ToBytes {
    /// The bytes of the value as they lie in memory in the given byte order
    spec fn bytes_in(&self, little_endian: bool) -> Seq<u8>;

    /// The bytes of the value as they lie in memory: its encoding in the machine's
    /// byte order, which is little-endian or big-endian
    fn to_bytes(&self) -> (res: &[u8])
        ensures
            res@ == self.bytes_in(true) || res@ == self.bytes_in(false),
    ;
}

/// The bytes of a `u32` in memory (`bytemuck::bytes_of`). Trusted: its encoding in
/// the machine's byte order, little-endian or big-endian; which one is not stated.
#[verifier::external_body]
fn u32_bytes(v: &u32) -> (res: &[u8])
    ensures
        res@ == u32s_bytes(seq![*v], true) || res@ == u32s_bytes(seq![*v], false),
{
    bytemuck::bytes_of(v)
}

/// The bytes of a slice of `u32`s in memory (`bytemuck::cast_slice`). Trusted: the
/// encodings of the values in turn, all in the machine's byte order, little-endian
/// or big-endian; which one is not stated.
#[verifier::external_body]
fn u32_slice_bytes(v: &[u32]) -> (res: &[u8])
    ensures
        res@ == u32s_bytes(v@, true) || res@ == u32s_bytes(v@, false),
{
    bytemuck::cast_slice(v)
}

impl ToBytes for u32 {
    open spec fn bytes_in(&self, little_endian: bool) -> Seq<u8> {
        u32s_bytes(seq![*self], little_endian)
    }

    fn to_bytes(&self) -> (res: &[u8]) {
        u32_bytes(self)
    }
}

impl ToBytes for Vec<u32> {
    open spec fn bytes_in(&self, little_endian: bool) -> Seq<u8> {
        u32s_bytes(self@, little_endian)
    }

    fn to_bytes(&self) -> (res: &[u8]) {
        u32_slice_bytes(self.as_slice())
    }
}

impl<const N: usize> ToBytes for [u32; N] {
    open spec fn bytes_in(&self, little_endian: bool) -> Seq<u8> {
        u32s_bytes(self@, little_endian)
    }

    fn to_bytes(&self) -> (res: &[u8]) {
        u32_slice_bytes(self.as_slice())
    }
}

impl<U, T: ToBytes> ToBytes for Usage<U, T> {
    open spec fn bytes_in(&self, little_endian: bool) -> Seq<u8> {
        self.data.bytes_in(little_endian)
    }

    fn to_bytes(&self) -> (res: &[u8]) {
        self.data.to_bytes()
    }
}

} // verus!
