//! The asset description: buffers, buffer views, accessors and meshes,
//! addressed by their position in the declaration order.
//!
//! Resolution follows the accessor -> buffer view -> buffer chain and
//! returns a typed failure for every reference that is out of range and
//! for every byte range that leaves its owning buffer.

use vstd::prelude::*;

verus! {

/// Component type tag of 32-bit IEEE 754 single-precision floats.
pub const COMPONENT_F32: u32 = 5126;

/// Component type tag of 16-bit unsigned integers.
pub const COMPONENT_U16: u32 = 5123;

/// A contiguous byte sub-range of one raw buffer.
#[derive(Clone, Copy, PartialEq, Eq, Structural, Debug)]
pub struct BufferView {
    /// Position of the owning buffer in the buffer store.
    pub buffer: usize,
    /// First byte of the range inside the owning buffer.
    pub byte_offset: usize,
    /// Number of bytes in the range.
    pub byte_length: usize,
}

/// A typed window into a buffer view: `count` elements of the given
/// component type, starting at the view's first byte.
#[derive(Clone, Copy, PartialEq, Eq, Structural, Debug)]
pub struct Accessor {
    /// Position of the referenced buffer view in the declaration order.
    pub buffer_view: usize,
    /// Component type tag, for example `COMPONENT_F32`.
    pub component_type: u32,
    /// Number of elements the accessor designates.
    pub count: usize,
}

/// One drawable piece of a mesh: accessor positions for its vertex
/// attributes and its index buffer. An absent reference is rejected at
/// decode time, never defaulted.
#[derive(Clone, Copy, PartialEq, Eq, Debug)]
pub struct Primitive {
    /// Accessor of the POSITION attribute (three floats per vertex).
    pub position: Option<usize>,
    /// Accessor of the TEXCOORD_0 attribute (two floats per vertex).
    pub texcoord: Option<usize>,
    /// Accessor of the triangle-list index buffer (one 16-bit unsigned
    /// integer per index).
    pub indices: Option<usize>,
}

/// The primitives of one declared mesh.
#[derive(Clone, PartialEq, Eq, Debug)]
pub struct MeshDesc {
    pub primitives: Vec<Primitive>,
}

/// A parsed asset description. The raw buffers themselves are kept apart,
/// in declaration order, and are referenced by position.
#[derive(Clone, PartialEq, Eq, Debug)]
pub struct AssetDesc {
    /// Declared format version; only `"2.0"` is supported.
    pub version: String,
    pub buffer_views: Vec<BufferView>,
    pub accessors: Vec<Accessor>,
    pub meshes: Vec<MeshDesc>,
}

/// Why a decode was aborted. Every variant names the reference that
/// failed to resolve, so a diagnostic can point at it.
#[derive(Clone, Copy, PartialEq, Eq, Structural, Debug)]
pub enum DecodeError {
    /// The declared format version is not the supported one.
    UnsupportedVersion,
    /// A primitive has no POSITION attribute.
    MissingPosition,
    /// A primitive has no TEXCOORD_0 attribute.
    MissingTexcoord,
    /// A primitive has no index accessor.
    MissingIndices,
    /// An accessor position is past the end of the accessor table.
    AccessorOutOfRange { accessor: usize },
    /// An accessor references a buffer view past the end of the view table.
    BufferViewOutOfRange { buffer_view: usize },
    /// A buffer view references a buffer past the end of the buffer store.
    BufferOutOfRange { buffer: usize },
    /// A buffer view's byte range ends past the end of its owning buffer.
    ViewExceedsBuffer { buffer_view: usize },
    /// An accessor's component type is not the one required here.
    UnsupportedComponentType { accessor: usize, component_type: u32 },
    /// An accessor's elements end past the end of its buffer view.
    ElementsExceedView { accessor: usize },
}

/// A resolved accessor: an in-bounds byte range of one buffer.
#[derive(Clone, Copy, PartialEq, Eq, Structural, Debug)]
pub struct ResolvedRange {
    /// Position of the buffer holding the range.
    pub buffer: usize,
    /// First byte of the range inside that buffer.
    pub offset: usize,
    /// Number of bytes in the range.
    pub length: usize,
}

/// The byte range that accessor `acc_index` designates inside the buffer
/// store `bufs`, or the first failure along the resolution chain.
pub open spec fn spec_resolve_accessor(
    asset: AssetDesc,
    bufs: Seq<Seq<u8>>,
    acc_index: usize,
) -> Result<ResolvedRange, DecodeError> {
    if acc_index >= asset.accessors@.len() {
        Err(DecodeError::AccessorOutOfRange { accessor: acc_index })
    } else {
        let acc = asset.accessors@[acc_index as int];
        if acc.buffer_view >= asset.buffer_views@.len() {
            Err(DecodeError::BufferViewOutOfRange { buffer_view: acc.buffer_view })
        } else {
            let view = asset.buffer_views@[acc.buffer_view as int];
            if view.buffer >= bufs.len() {
                Err(DecodeError::BufferOutOfRange { buffer: view.buffer })
            } else if view.byte_offset + view.byte_length > bufs[view.buffer as int].len() {
                Err(DecodeError::ViewExceedsBuffer { buffer_view: acc.buffer_view })
            } else {
                Ok(ResolvedRange {
                    buffer: view.buffer,
                    offset: view.byte_offset,
                    length: view.byte_length,
                })
            }
        }
    }
}

/// Resolves an accessor to the byte range it designates, bounds-checking
/// every step of the accessor -> buffer view -> buffer chain.
pub fn resolve_accessor(asset: &AssetDesc, buffers: &Vec<Vec<u8>>, acc_index: usize) -> (r:
    Result<ResolvedRange, DecodeError>)
    ensures
        r == spec_resolve_accessor(*asset, buffers.deep_view(), acc_index),
        r matches Ok(range) ==> {
            &&& range.buffer < buffers@.len()
            &&& range.offset + range.length <= buffers@[range.buffer as int]@.len()
        },
{
    proof {
        assert(buffers.deep_view().len() == buffers@.len());
    }
    if acc_index >= asset.accessors.len() {
        return Err(DecodeError::AccessorOutOfRange { accessor: acc_index });
    }
    let acc = asset.accessors[acc_index];
    if acc.buffer_view >= asset.buffer_views.len() {
        return Err(DecodeError::BufferViewOutOfRange { buffer_view: acc.buffer_view });
    }
    let view = asset.buffer_views[acc.buffer_view];
    if view.buffer >= buffers.len() {
        return Err(DecodeError::BufferOutOfRange { buffer: view.buffer });
    }
    let buffer_len = buffers[view.buffer].len();
    proof {
        assert(buffers.deep_view()[view.buffer as int] == buffers@[view.buffer as int]@);
    }
    if view.byte_offset > buffer_len || view.byte_length > buffer_len - view.byte_offset {
        return Err(DecodeError::ViewExceedsBuffer { buffer_view: acc.buffer_view });
    }
    Ok(ResolvedRange { buffer: view.buffer, offset: view.byte_offset, length: view.byte_length })
}

/// An accessor resolves only to a range that lies fully inside its owning
/// buffer: a range that ends past the buffer is rejected, never clipped.
pub proof fn lemma_resolution_never_truncates(
    asset: AssetDesc,
    bufs: Seq<Seq<u8>>,
    acc_index: usize,
)
    ensures
        spec_resolve_accessor(asset, bufs, acc_index) matches Ok(range) ==> {
            &&& range.buffer < bufs.len()
            &&& range.offset + range.length <= bufs[range.buffer as int].len()
        },
        acc_index < asset.accessors@.len() && asset.accessors@[acc_index as int].buffer_view
            < asset.buffer_views@.len() && ({
            let view = asset.buffer_views@[asset.accessors@[acc_index as int].buffer_view as int];
            view.buffer < bufs.len() && view.byte_offset + view.byte_length > bufs[view.buffer as int].len()
        }) ==> spec_resolve_accessor(asset, bufs, acc_index) == Err::<ResolvedRange, DecodeError>(
            DecodeError::ViewExceedsBuffer {
                buffer_view: asset.accessors@[acc_index as int].buffer_view,
            },
        ),
{
}

} // verus!
