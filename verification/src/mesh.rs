//! Mesh assembly: walking the asset's mesh/primitive graph and decoding
//! the referenced byte ranges into one interleaved vertex array and one
//! index array.
//!
//! Decoding either consumes the whole asset or fails with the first error
//! met in declaration order; a partial mesh is never produced.

use vstd::prelude::*;

use crate::asset::{
    spec_resolve_accessor, resolve_accessor, AssetDesc, DecodeError, Primitive, COMPONENT_F32,
    COMPONENT_U16,
};
use crate::codec::{read_u16_le, read_u32_le, spec_u16_at, spec_u32_at};

verus! {

/// Bit pattern of the IEEE 754 single-precision value 1.0.
pub const ONE_F32_BITS: u32 = 0x3f80_0000;

/// Three 32-bit bit patterns: a position or a color.
#[derive(Clone, Copy, PartialEq, Eq, Structural, Debug)]
pub struct Vec3Bits {
    pub x: u32,
    pub y: u32,
    pub z: u32,
}

/// Two 32-bit bit patterns: a texture coordinate pair.
#[derive(Clone, Copy, PartialEq, Eq, Structural, Debug)]
pub struct Vec2Bits {
    pub u: u32,
    pub v: u32,
}

/// One interleaved vertex record. Each component is the little-endian
/// bit pattern of a 32-bit IEEE 754 single-precision value.
#[derive(Clone, Copy, PartialEq, Eq, Structural, Debug)]
pub struct Vertex {
    pub position: Vec3Bits,
    pub color: Vec3Bits,
    pub uv: Vec2Bits,
}

/// A decoded mesh: the interleaved vertex array and the triangle-list
/// index array. Built once from an asset description, immutable after.
#[derive(Clone, PartialEq, Eq, Debug)]
pub struct Mesh {
    pub verts: Vec<Vertex>,
    pub indices: Vec<u16>,
}

/// The vertex whose position starts at `pos_off` in `pos` and whose
/// texture coordinates start at `uv_off` in `uv`. No accessor supplies a
/// color, so every vertex gets the constant white (1, 1, 1).
pub open spec fn spec_vertex_at(pos: Seq<u8>, pos_off: int, uv: Seq<u8>, uv_off: int) -> Vertex {
    Vertex {
        position: Vec3Bits {
            x: spec_u32_at(pos, pos_off),
            y: spec_u32_at(pos, pos_off + 4),
            z: spec_u32_at(pos, pos_off + 8),
        },
        color: Vec3Bits { x: ONE_F32_BITS, y: ONE_F32_BITS, z: ONE_F32_BITS },
        uv: Vec2Bits { u: spec_u32_at(uv, uv_off), v: spec_u32_at(uv, uv_off + 4) },
    }
}

/// The `count` vertices laid out at 12-byte position stride from
/// `pos_off` and 8-byte texture-coordinate stride from `uv_off`.
pub open spec fn spec_vertices(
    pos: Seq<u8>,
    pos_off: int,
    uv: Seq<u8>,
    uv_off: int,
    count: nat,
) -> Seq<Vertex> {
    Seq::new(count, |i: int| spec_vertex_at(pos, pos_off + 12 * i, uv, uv_off + 8 * i))
}

/// The `count` 16-bit little-endian indices laid out at 2-byte stride
/// from `off`.
pub open spec fn spec_indices(bytes: Seq<u8>, off: int, count: nat) -> Seq<u16> {
    Seq::new(count, |i: int| spec_u16_at(bytes, off + 2 * i))
}

/// Decodes `count` vertices and appends them to `out`. Positions are read
/// at 12-byte stride from `pos`, texture coordinates at 8-byte stride
/// from `uv`; both ranges must lie inside their buffers.
pub fn decode_vertices(
    pos: &Vec<u8>,
    pos_off: usize,
    uv: &Vec<u8>,
    uv_off: usize,
    count: usize,
    out: &mut Vec<Vertex>,
)
    requires
        pos_off + count * 12 <= pos.len(),
        uv_off + count * 8 <= uv.len(),
    ensures
        final(out)@ == old(out)@ + spec_vertices(
            pos@,
            pos_off as int,
            uv@,
            uv_off as int,
            count as nat,
        ),
{
    let ghost base = out@;
    let mut i: usize = 0;
    while i < count
        invariant
            i <= count,
            pos_off + count * 12 <= pos.len(),
            uv_off + count * 8 <= uv.len(),
            out@ == base + spec_vertices(pos@, pos_off as int, uv@, uv_off as int, i as nat),
        decreases count - i,
    {
        let x = read_u32_le(pos, pos_off + i * 12);
        let y = read_u32_le(pos, pos_off + i * 12 + 4);
        let z = read_u32_le(pos, pos_off + i * 12 + 8);
        let u = read_u32_le(uv, uv_off + i * 8);
        let v = read_u32_le(uv, uv_off + i * 8 + 4);
        out.push(
            Vertex {
                position: Vec3Bits { x, y, z },
                color: Vec3Bits { x: ONE_F32_BITS, y: ONE_F32_BITS, z: ONE_F32_BITS },
                uv: Vec2Bits { u, v },
            },
        );
        proof {
            assert(out@ =~= base + spec_vertices(
                pos@,
                pos_off as int,
                uv@,
                uv_off as int,
                (i + 1) as nat,
            ));
        }
        i = i + 1;
    }
    proof {
        assert(out@ =~= base + spec_vertices(pos@, pos_off as int, uv@, uv_off as int, count as nat));
    }
}

/// What decoding one primitive yields: its vertex run and its index run,
/// or the first failure along its reference chains. POSITION and
/// TEXCOORD_0 must be 32-bit float accessors and the indices a 16-bit
/// unsigned accessor; every read must fit inside the resolved range.
/// The vertex count is the POSITION accessor's element count.
pub open spec fn spec_decode_primitive(
    asset: AssetDesc,
    bufs: Seq<Seq<u8>>,
    prim: Primitive,
) -> Result<(Seq<Vertex>, Seq<u16>), DecodeError> {
    match prim.position {
        Option::None => Err(DecodeError::MissingPosition),
        Option::Some(pa) => match spec_resolve_accessor(asset, bufs, pa) {
            Err(e) => Err(e),
            Ok(pr) => {
                let pacc = asset.accessors@[pa as int];
                if pacc.component_type != COMPONENT_F32 {
                    Err(DecodeError::UnsupportedComponentType {
                        accessor: pa,
                        component_type: pacc.component_type,
                    })
                } else if pacc.count * 12 > pr.length {
                    Err(DecodeError::ElementsExceedView { accessor: pa })
                } else {
                    match prim.texcoord {
                        Option::None => Err(DecodeError::MissingTexcoord),
                        Option::Some(ta) => match spec_resolve_accessor(asset, bufs, ta) {
                            Err(e) => Err(e),
                            Ok(tr) => {
                                let tacc = asset.accessors@[ta as int];
                                if tacc.component_type != COMPONENT_F32 {
                                    Err(DecodeError::UnsupportedComponentType {
                                        accessor: ta,
                                        component_type: tacc.component_type,
                                    })
                                } else if pacc.count * 8 > tr.length {
                                    Err(DecodeError::ElementsExceedView { accessor: ta })
                                } else {
                                    match prim.indices {
                                        Option::None => Err(DecodeError::MissingIndices),
                                        Option::Some(ia) => match spec_resolve_accessor(
                                            asset,
                                            bufs,
                                            ia,
                                        ) {
                                            Err(e) => Err(e),
                                            Ok(ir) => {
                                                let iacc = asset.accessors@[ia as int];
                                                if iacc.component_type != COMPONENT_U16 {
                                                    Err(DecodeError::UnsupportedComponentType {
                                                        accessor: ia,
                                                        component_type: iacc.component_type,
                                                    })
                                                } else if iacc.count * 2 > ir.length {
                                                    Err(DecodeError::ElementsExceedView {
                                                        accessor: ia,
                                                    })
                                                } else {
                                                    Ok(
                                                        (
                                                            spec_vertices(
                                                                bufs[pr.buffer as int],
                                                                pr.offset as int,
                                                                bufs[tr.buffer as int],
                                                                tr.offset as int,
                                                                pacc.count as nat,
                                                            ),
                                                            spec_indices(
                                                                bufs[ir.buffer as int],
                                                                ir.offset as int,
                                                                iacc.count as nat,
                                                            ),
                                                        ),
                                                    )
                                                }
                                            },
                                        },
                                    }
                                }
                            },
                        },
                    }
                }
            },
        },
    }
}

/// The deep view of the buffer store indexes to the view of each buffer.
pub proof fn lemma_store_view_index(buffers: &Vec<Vec<u8>>)
    ensures
        buffers.deep_view().len() == buffers@.len(),
        forall|i: int|
            0 <= i < buffers@.len() ==> #[trigger] buffers.deep_view()[i] == buffers@[i]@,
{
    assert forall|i: int|
        0 <= i < buffers@.len() implies #[trigger] buffers.deep_view()[i] == buffers@[i]@ by {
        assert(buffers.deep_view()[i] =~= buffers@[i]@);
    }
}

/// Decodes one primitive, appending its vertices and indices. On failure
/// nothing is appended and the first error along the primitive's
/// reference chains is returned.
pub fn decode_primitive(
    asset: &AssetDesc,
    buffers: &Vec<Vec<u8>>,
    prim: &Primitive,
    verts: &mut Vec<Vertex>,
    inds: &mut Vec<u16>,
) -> (r: Result<(), DecodeError>)
    ensures
        ({
            let s = spec_decode_primitive(*asset, buffers.deep_view(), *prim);
            match r {
                Ok(_) => s matches Ok(p) && final(verts)@ == old(verts)@ + p.0 && final(inds)@
                    == old(inds)@ + p.1,
                Err(e) => s == Err::<(Seq<Vertex>, Seq<u16>), DecodeError>(e) && final(verts)@
                    == old(verts)@ && final(inds)@ == old(inds)@,
            }
        }),
{
    proof {
        lemma_store_view_index(buffers);
    }
    let pa = match prim.position {
        Some(a) => a,
        None => { return Err(DecodeError::MissingPosition) },
    };
    let pr = match resolve_accessor(asset, buffers, pa) {
        Ok(range) => range,
        Err(e) => { return Err(e) },
    };
    let pacc = asset.accessors[pa];
    if pacc.component_type != COMPONENT_F32 {
        return Err(DecodeError::UnsupportedComponentType {
            accessor: pa,
            component_type: pacc.component_type,
        });
    }
    let vertex_count = pacc.count;
    if (vertex_count as u128) * 12 > (pr.length as u128) {
        return Err(DecodeError::ElementsExceedView { accessor: pa });
    }
    let ta = match prim.texcoord {
        Some(a) => a,
        None => { return Err(DecodeError::MissingTexcoord) },
    };
    let tr = match resolve_accessor(asset, buffers, ta) {
        Ok(range) => range,
        Err(e) => { return Err(e) },
    };
    let tacc = asset.accessors[ta];
    if tacc.component_type != COMPONENT_F32 {
        return Err(DecodeError::UnsupportedComponentType {
            accessor: ta,
            component_type: tacc.component_type,
        });
    }
    if (vertex_count as u128) * 8 > (tr.length as u128) {
        return Err(DecodeError::ElementsExceedView { accessor: ta });
    }
    let ia = match prim.indices {
        Some(a) => a,
        None => { return Err(DecodeError::MissingIndices) },
    };
    let ir = match resolve_accessor(asset, buffers, ia) {
        Ok(range) => range,
        Err(e) => { return Err(e) },
    };
    let iacc = asset.accessors[ia];
    if iacc.component_type != COMPONENT_U16 {
        return Err(DecodeError::UnsupportedComponentType {
            accessor: ia,
            component_type: iacc.component_type,
        });
    }
    let index_count = iacc.count;
    if (index_count as u128) * 2 > (ir.length as u128) {
        return Err(DecodeError::ElementsExceedView { accessor: ia });
    }
    decode_vertices(&buffers[pr.buffer], pr.offset, &buffers[tr.buffer], tr.offset, vertex_count, verts);
    decode_indices(&buffers[ir.buffer], ir.offset, index_count, inds);
    Ok(())
}

/// What decoding the primitives of one mesh from position `j` on yields:
/// the concatenation of each primitive's vertex and index runs, or the
/// first failure in declaration order.
pub open spec fn spec_decode_prims_from(
    asset: AssetDesc,
    bufs: Seq<Seq<u8>>,
    prims: Seq<Primitive>,
    j: int,
) -> Result<(Seq<Vertex>, Seq<u16>), DecodeError>
    decreases prims.len() - j,
{
    if j < 0 || j >= prims.len() {
        Ok((Seq::empty(), Seq::empty()))
    } else {
        match spec_decode_primitive(asset, bufs, prims[j]) {
            Err(e) => Err(e),
            Ok(p) => match spec_decode_prims_from(asset, bufs, prims, j + 1) {
                Err(e) => Err(e),
                Ok(rest) => Ok((p.0 + rest.0, p.1 + rest.1)),
            },
        }
    }
}

/// What decoding the meshes of the asset from position `i` on yields: the
/// concatenation of each mesh's primitives, or the first failure in
/// declaration order.
pub open spec fn spec_decode_meshes_from(
    asset: AssetDesc,
    bufs: Seq<Seq<u8>>,
    i: int,
) -> Result<(Seq<Vertex>, Seq<u16>), DecodeError>
    decreases asset.meshes@.len() - i,
{
    if i < 0 || i >= asset.meshes@.len() {
        Ok((Seq::empty(), Seq::empty()))
    } else {
        match spec_decode_prims_from(asset, bufs, asset.meshes@[i].primitives@, 0) {
            Err(e) => Err(e),
            Ok(p) => match spec_decode_meshes_from(asset, bufs, i + 1) {
                Err(e) => Err(e),
                Ok(rest) => Ok((p.0 + rest.0, p.1 + rest.1)),
            },
        }
    }
}

/// What decoding the whole asset against the buffer store `bufs` yields:
/// one interleaved vertex sequence and one index sequence, growing
/// additively across primitives and meshes, or the first failure. An
/// asset whose declared version is not `"2.0"` is rejected outright.
pub open spec fn spec_decode_asset(asset: AssetDesc, bufs: Seq<Seq<u8>>) -> Result<
    (Seq<Vertex>, Seq<u16>),
    DecodeError,
> {
    if asset.version@ != "2.0"@ {
        Err(DecodeError::UnsupportedVersion)
    } else {
        spec_decode_meshes_from(asset, bufs, 0)
    }
}

/// Decodes every primitive of one mesh in declaration order, appending to
/// `verts` and `inds`; stops at the first failing primitive.
fn decode_mesh_primitives(
    asset: &AssetDesc,
    buffers: &Vec<Vec<u8>>,
    prims: &Vec<Primitive>,
    verts: &mut Vec<Vertex>,
    inds: &mut Vec<u16>,
) -> (r: Result<(), DecodeError>)
    ensures
        ({
            let s = spec_decode_prims_from(*asset, buffers.deep_view(), prims@, 0);
            match r {
                Ok(_) => s matches Ok(p) && final(verts)@ == old(verts)@ + p.0 && final(inds)@
                    == old(inds)@ + p.1,
                Err(e) => s == Err::<(Seq<Vertex>, Seq<u16>), DecodeError>(e),
            }
        }),
{
    let ghost dv = buffers.deep_view();
    let ghost base_verts = verts@;
    let ghost base_inds = inds@;
    let ghost mut gv: Seq<Vertex> = Seq::empty();
    let ghost mut gi: Seq<u16> = Seq::empty();
    proof {
        assert(verts@ =~= base_verts + gv);
        assert(inds@ =~= base_inds + gi);
    }
    let mut j: usize = 0;
    while j < prims.len()
        invariant
            j <= prims@.len(),
            verts@ == base_verts + gv,
            inds@ == base_inds + gi,
            spec_decode_prims_from(*asset, dv, prims@, 0) == (match spec_decode_prims_from(
                *asset,
                dv,
                prims@,
                j as int,
            ) {
                Err(e) => Err::<(Seq<Vertex>, Seq<u16>), DecodeError>(e),
                Ok(rest) => Ok::<(Seq<Vertex>, Seq<u16>), DecodeError>(
                    (gv + rest.0, gi + rest.1),
                ),
            }),
            dv == buffers.deep_view(),
        decreases prims@.len() - j,
    {
        match decode_primitive(asset, buffers, &prims[j], verts, inds) {
            Err(e) => {
                return Err(e);
            },
            Ok(_) => {},
        }
        proof {
            let p = spec_decode_primitive(*asset, dv, prims@[j as int])->Ok_0;
            match spec_decode_prims_from(*asset, dv, prims@, j + 1) {
                Err(e) => {},
                Ok(rest) => {
                    assert(gv + (p.0 + rest.0) =~= (gv + p.0) + rest.0);
                    assert(gi + (p.1 + rest.1) =~= (gi + p.1) + rest.1);
                },
            }
            gv = gv + p.0;
            gi = gi + p.1;
        }
        j = j + 1;
    }
    proof {
        let s = spec_decode_prims_from(*asset, dv, prims@, j as int);
        assert(s == Ok::<(Seq<Vertex>, Seq<u16>), DecodeError>((Seq::empty(), Seq::empty())));
        assert(gv + Seq::<Vertex>::empty() =~= gv);
        assert(gi + Seq::<u16>::empty() =~= gi);
    }
    Ok(())
}

impl Mesh {
    /// Assembles the mesh described by `asset` from the raw buffers in
    /// `buffers`, walking every mesh and primitive in declaration order.
    /// Vertex and index arrays grow additively across primitives; no
    /// base-vertex adjustment is performed. Returns the first failure in
    /// declaration order instead of any partial mesh.
    pub fn from_asset(asset: &AssetDesc, buffers: &Vec<Vec<u8>>) -> (r: Result<Mesh, DecodeError>)
        ensures
            ({
                let s = spec_decode_asset(*asset, buffers.deep_view());
                match r {
                    Ok(m) => s == Ok::<(Seq<Vertex>, Seq<u16>), DecodeError>(
                        (m.verts@, m.indices@),
                    ),
                    Err(e) => s == Err::<(Seq<Vertex>, Seq<u16>), DecodeError>(e),
                }
            }),
    {
        let supported = "2.0".to_owned();
        if !(asset.version == supported) {
            return Err(DecodeError::UnsupportedVersion);
        }
        let ghost dv = buffers.deep_view();
        let mut verts: Vec<Vertex> = Vec::new();
        let mut inds: Vec<u16> = Vec::new();
        let ghost mut gv: Seq<Vertex> = Seq::empty();
        let ghost mut gi: Seq<u16> = Seq::empty();
        proof {
            assert(verts@ =~= gv);
            assert(inds@ =~= gi);
        }
        let mut i: usize = 0;
        while i < asset.meshes.len()
            invariant
                i <= asset.meshes@.len(),
                asset.version@ == "2.0"@,
                verts@ == gv,
                inds@ == gi,
                spec_decode_meshes_from(*asset, dv, 0) == (match spec_decode_meshes_from(
                    *asset,
                    dv,
                    i as int,
                ) {
                    Err(e) => Err::<(Seq<Vertex>, Seq<u16>), DecodeError>(e),
                    Ok(rest) => Ok::<(Seq<Vertex>, Seq<u16>), DecodeError>(
                        (gv + rest.0, gi + rest.1),
                    ),
                }),
                dv == buffers.deep_view(),
            decreases asset.meshes@.len() - i,
        {
            match decode_mesh_primitives(
                asset,
                buffers,
                &asset.meshes[i].primitives,
                &mut verts,
                &mut inds,
            ) {
                Err(e) => {
                    return Err(e);
                },
                Ok(_) => {},
            }
            proof {
                let p = spec_decode_prims_from(
                    *asset,
                    dv,
                    asset.meshes@[i as int].primitives@,
                    0,
                )->Ok_0;
                match spec_decode_meshes_from(*asset, dv, i + 1) {
                    Err(e) => {},
                    Ok(rest) => {
                        assert(gv + (p.0 + rest.0) =~= (gv + p.0) + rest.0);
                        assert(gi + (p.1 + rest.1) =~= (gi + p.1) + rest.1);
                    },
                }
                gv = gv + p.0;
                gi = gi + p.1;
            }
            i = i + 1;
        }
        proof {
            let s = spec_decode_meshes_from(*asset, dv, i as int);
            assert(s == Ok::<(Seq<Vertex>, Seq<u16>), DecodeError>(
                (Seq::empty(), Seq::empty()),
            ));
            assert(gv + Seq::<Vertex>::empty() =~= gv);
            assert(gi + Seq::<u16>::empty() =~= gi);
        }
        Ok(Mesh { verts, indices: inds })
    }
}

/// Decodes `count` 16-bit little-endian indices and appends them to
/// `out`. The read range must lie inside `bytes`.
pub fn decode_indices(bytes: &Vec<u8>, off: usize, count: usize, out: &mut Vec<u16>)
    requires
        off + count * 2 <= bytes.len(),
    ensures
        final(out)@ == old(out)@ + spec_indices(bytes@, off as int, count as nat),
{
    let ghost base = out@;
    let mut i: usize = 0;
    while i < count
        invariant
            i <= count,
            off + count * 2 <= bytes.len(),
            out@ == base + spec_indices(bytes@, off as int, i as nat),
        decreases count - i,
    {
        let ix = read_u16_le(bytes, off + i * 2);
        out.push(ix);
        proof {
            assert(out@ =~= base + spec_indices(bytes@, off as int, (i + 1) as nat));
        }
        i = i + 1;
    }
    proof {
        assert(out@ =~= base + spec_indices(bytes@, off as int, count as nat));
    }
}

} // verus!
