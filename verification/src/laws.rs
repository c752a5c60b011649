//! Library-wide guarantees, stated and proved once: decoding is
//! deterministic, a decode succeeds only when every read it makes lies
//! inside the declared ranges, and encoding position triples and decoding
//! them again reproduces the exact bit patterns.

use vstd::prelude::*;

use crate::asset::{spec_resolve_accessor, AssetDesc, Primitive};
use crate::codec::{lemma_u32_round_trip, spec_u32_at, u32_le, u32_le_bytes, write_u32_le};
use crate::mesh::{
    spec_decode_asset, spec_decode_meshes_from, spec_decode_primitive, spec_decode_prims_from,
    Vec3Bits,
};

verus! {

/// Decoding is deterministic: the decoded arrays are a function of the
/// asset description and the buffer bytes alone, so repeated decodes of
/// the same bytes yield identical vertex and index arrays.
pub proof fn lemma_decode_deterministic(
    asset1: AssetDesc,
    bufs1: Seq<Seq<u8>>,
    asset2: AssetDesc,
    bufs2: Seq<Seq<u8>>,
)
    requires
        asset1 == asset2,
        bufs1 == bufs2,
    ensures
        spec_decode_asset(asset1, bufs1) == spec_decode_asset(asset2, bufs2),
{
}

/// If the meshes from position `i` on decode, so does the primitive list
/// of each mesh at or after `i`.
proof fn lemma_meshes_ok_at(asset: AssetDesc, bufs: Seq<Seq<u8>>, i: int, mi: int)
    requires
        0 <= i <= mi < asset.meshes@.len(),
        spec_decode_meshes_from(asset, bufs, i) is Ok,
    ensures
        spec_decode_prims_from(asset, bufs, asset.meshes@[mi].primitives@, 0) is Ok,
    decreases mi - i,
{
    if i < mi {
        lemma_meshes_ok_at(asset, bufs, i + 1, mi);
    }
}

/// If the primitives from position `j` on decode, so does each primitive
/// at or after `j`.
proof fn lemma_prims_ok_at(
    asset: AssetDesc,
    bufs: Seq<Seq<u8>>,
    prims: Seq<Primitive>,
    j: int,
    pj: int,
)
    requires
        0 <= j <= pj < prims.len(),
        spec_decode_prims_from(asset, bufs, prims, j) is Ok,
    ensures
        spec_decode_primitive(asset, bufs, prims[pj]) is Ok,
    decreases pj - j,
{
    if j < pj {
        lemma_prims_ok_at(asset, bufs, prims, j + 1, pj);
    }
}

/// A primitive decodes only when all three of its references are present
/// and resolve to ranges that lie fully inside their owning buffers, and
/// every element read fits inside the resolved range: an out-of-bounds
/// range fails the decode, it is never truncated.
pub proof fn lemma_primitive_ok_reads_in_bounds(
    asset: AssetDesc,
    bufs: Seq<Seq<u8>>,
    prim: Primitive,
)
    requires
        spec_decode_primitive(asset, bufs, prim) is Ok,
    ensures
        prim.position is Some,
        prim.texcoord is Some,
        prim.indices is Some,
        ({
            let pr = spec_resolve_accessor(asset, bufs, prim.position->0);
            &&& pr is Ok
            &&& pr->Ok_0.offset + pr->Ok_0.length <= bufs[pr->Ok_0.buffer as int].len()
            &&& asset.accessors@[prim.position->0 as int].count * 12 <= pr->Ok_0.length
        }),
        ({
            let tr = spec_resolve_accessor(asset, bufs, prim.texcoord->0);
            &&& tr is Ok
            &&& tr->Ok_0.offset + tr->Ok_0.length <= bufs[tr->Ok_0.buffer as int].len()
            &&& asset.accessors@[prim.position->0 as int].count * 8 <= tr->Ok_0.length
        }),
        ({
            let ir = spec_resolve_accessor(asset, bufs, prim.indices->0);
            &&& ir is Ok
            &&& ir->Ok_0.offset + ir->Ok_0.length <= bufs[ir->Ok_0.buffer as int].len()
            &&& asset.accessors@[prim.indices->0 as int].count * 2 <= ir->Ok_0.length
        }),
{
}

/// A whole-asset decode succeeds only when every primitive of every mesh
/// reads exclusively from ranges inside the declared buffer views and
/// buffers. Together with `lemma_resolution_never_truncates` this says an
/// accessor whose range leaves its buffer makes the decode fail.
pub proof fn lemma_decode_ok_reads_in_bounds(
    asset: AssetDesc,
    bufs: Seq<Seq<u8>>,
    mi: int,
    pj: int,
)
    requires
        spec_decode_asset(asset, bufs) is Ok,
        0 <= mi < asset.meshes@.len(),
        0 <= pj < asset.meshes@[mi].primitives@.len(),
    ensures
        spec_decode_primitive(asset, bufs, asset.meshes@[mi].primitives@[pj]) is Ok,
        ({
            let prim = asset.meshes@[mi].primitives@[pj];
            let pr = spec_resolve_accessor(asset, bufs, prim.position->0);
            &&& prim.position is Some
            &&& pr is Ok
            &&& pr->Ok_0.offset + pr->Ok_0.length <= bufs[pr->Ok_0.buffer as int].len()
        }),
{
    lemma_meshes_ok_at(asset, bufs, 0, mi);
    lemma_prims_ok_at(asset, bufs, asset.meshes@[mi].primitives@, 0, pj);
    lemma_primitive_ok_reads_in_bounds(asset, bufs, asset.meshes@[mi].primitives@[pj]);
}

/// The 12-byte little-endian encoding of one position triple.
pub open spec fn spec_encode_position(p: Vec3Bits) -> Seq<u8> {
    u32_le_bytes(p.x) + u32_le_bytes(p.y) + u32_le_bytes(p.z)
}

/// The little-endian encoding of position triples at 12-byte stride.
pub open spec fn spec_encode_positions(points: Seq<Vec3Bits>) -> Seq<u8>
    decreases points.len(),
{
    if points.len() == 0 {
        Seq::empty()
    } else {
        spec_encode_position(points[0]) + spec_encode_positions(points.drop_first())
    }
}

/// Appending one triple to the input appends its 12 bytes to the encoding.
proof fn lemma_encode_positions_push(points: Seq<Vec3Bits>, p: Vec3Bits)
    ensures
        spec_encode_positions(points.push(p)) == spec_encode_positions(points)
            + spec_encode_position(p),
    decreases points.len(),
{
    if points.len() == 0 {
        assert(points.push(p).drop_first() =~= Seq::<Vec3Bits>::empty());
        assert(points.push(p)[0] == p);
        assert(spec_encode_positions(points.push(p).drop_first()) == Seq::<u8>::empty());
        assert(spec_encode_position(p) + Seq::<u8>::empty() =~= spec_encode_position(p));
        assert(spec_encode_positions(points) + spec_encode_position(p) =~= spec_encode_position(
            p,
        ));
    } else {
        lemma_encode_positions_push(points.drop_first(), p);
        assert(points.push(p).drop_first() =~= points.drop_first().push(p));
        assert(spec_encode_position(points[0]) + (spec_encode_positions(points.drop_first())
            + spec_encode_position(p)) =~= (spec_encode_position(points[0])
            + spec_encode_positions(points.drop_first())) + spec_encode_position(p));
    }
}

/// The encoding is 12 bytes per triple.
pub proof fn lemma_encode_positions_len(points: Seq<Vec3Bits>)
    ensures
        spec_encode_positions(points).len() == 12 * points.len(),
    decreases points.len(),
{
    if points.len() > 0 {
        lemma_encode_positions_len(points.drop_first());
    }
}

/// Round trip: the three 32-bit values read back at 12-byte stride from
/// the encoding of `points` are bit-identical to the encoded triple.
pub proof fn lemma_positions_round_trip(points: Seq<Vec3Bits>, i: int)
    requires
        0 <= i < points.len(),
    ensures
        ({
            let enc = spec_encode_positions(points);
            &&& spec_u32_at(enc, 12 * i) == points[i].x
            &&& spec_u32_at(enc, 12 * i + 4) == points[i].y
            &&& spec_u32_at(enc, 12 * i + 8) == points[i].z
        }),
    decreases i,
{
    let enc = spec_encode_positions(points);
    let first = spec_encode_position(points[0]);
    let rest = spec_encode_positions(points.drop_first());
    lemma_encode_positions_len(points);
    lemma_encode_positions_len(points.drop_first());
    assert(enc == first + rest);
    assert(first.len() == 12);
    if i == 0 {
        let bx = u32_le_bytes(points[0].x);
        let by = u32_le_bytes(points[0].y);
        let bz = u32_le_bytes(points[0].z);
        assert forall|n: int| 0 <= n < 12 implies #[trigger] enc[n] == (if n < 4 {
            bx[n]
        } else if n < 8 {
            by[n - 4]
        } else {
            bz[n - 8]
        }) by {
            assert(enc[n] == first[n]);
        }
        lemma_u32_round_trip(points[0].x);
        lemma_u32_round_trip(points[0].y);
        lemma_u32_round_trip(points[0].z);
    } else {
        lemma_positions_round_trip(points.drop_first(), i - 1);
        assert forall|n: int| 12 * i <= n < 12 * i + 12 implies #[trigger] enc[n] == rest[n
            - 12] by {
        }
        assert(points.drop_first()[i - 1] == points[i]);
        assert(spec_u32_at(rest, 12 * (i - 1)) == u32_le(rest[12 * i - 12], rest[12 * i - 11],
            rest[12 * i - 10], rest[12 * i - 9]));
    }
}

/// Encodes position triples at 12-byte stride, little-endian, lowest
/// component first. The inverse of position decoding, used to build
/// synthetic buffers.
pub fn encode_positions(points: &Vec<Vec3Bits>) -> (r: Vec<u8>)
    ensures
        r@ == spec_encode_positions(points@),
{
    let mut r: Vec<u8> = Vec::new();
    let mut i: usize = 0;
    proof {
        assert(points@.take(0) =~= Seq::<Vec3Bits>::empty());
        assert(r@ =~= spec_encode_positions(points@.take(0)));
    }
    while i < points.len()
        invariant
            i <= points@.len(),
            r@ == spec_encode_positions(points@.take(i as int)),
        decreases points@.len() - i,
    {
        let p = points[i];
        write_u32_le(&mut r, p.x);
        write_u32_le(&mut r, p.y);
        write_u32_le(&mut r, p.z);
        proof {
            lemma_encode_positions_push(points@.take(i as int), points@[i as int]);
            assert(points@.take(i + 1) =~= points@.take(i as int).push(points@[i as int]));
            assert(r@ =~= spec_encode_positions(points@.take(i as int)) + spec_encode_position(
                points@[i as int],
            ));
        }
        i = i + 1;
    }
    proof {
        assert(points@.take(points@.len() as int) =~= points@);
    }
    r
}

} // verus!
