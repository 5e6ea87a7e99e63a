//! Ring (annulus) geometry generation: the band between an inner and an
//! outer radius, triangulated into quads over a fixed angular range of
//! one full turn.
//!
//! A vertex is kept in evaluation-free form: the boundary index `b` (its
//! angle is `b / subdivisions` of a full turn), the band it lies on, and
//! an optional color. Radii are exact fixed-point values in units of
//! `1 / RADIUS_ONE`, so every vertex's distance from the origin — the
//! radius of its band — is pinned down exactly; turning a vertex into a
//! floating-point position is the trigonometric evaluation
//! `(cos(angle) * radius, sin(angle) * radius)`, which is left to the
//! unverified layer around this crate.

use vstd::prelude::*;

use crate::GenError;

verus! {

/// The fixed-point representation of radius 1.0: radii are integers in
/// units of `1 / 65536`.
pub const RADIUS_ONE: i64 = 65536;

/// Which of the two ring boundaries a vertex lies on.
#[derive(Clone, Copy, Debug, PartialEq, Eq)]
pub enum RingBand {
    /// The outer boundary, at the outer radius.
    Outer,
    /// The inner boundary, at the inner radius.
    Inner,
}

/// An RGB color, one byte per channel.
#[derive(Clone, Copy, Debug, PartialEq, Eq)]
pub struct Rgb {
    /// Red channel.
    pub r: u8,
    /// Green channel.
    pub g: u8,
    /// Blue channel.
    pub b: u8,
}

/// One ring corner: the boundary index giving its angle as
/// `boundary / subdivisions` of a full turn, the band giving its radius,
/// and an optional per-vertex color.
#[derive(Clone, Copy, Debug, PartialEq, Eq)]
pub struct RingVertex {
    /// Angular position, as an index into `subdivisions` equal steps.
    pub boundary: u32,
    /// The boundary (and so the radius) the corner lies on.
    pub band: RingBand,
    /// The corner's color, if the variant carries colors.
    pub color: Option<Rgb>,
}

/// Ring geometry as handed to the graphics layer: the vertex sequence,
/// an optional index list, and the parameters it was generated from.
#[derive(Debug)]
pub struct RingGeometry {
    /// Number of angular subdivisions the full turn was split into.
    pub subdivisions: u32,
    /// Radius of the outer boundary, in units of `1 / RADIUS_ONE`.
    pub outer_radius: i64,
    /// Radius of the inner boundary, in units of `1 / RADIUS_ONE`.
    pub inner_radius: i64,
    /// The vertices, in emission order.
    pub vertices: Vec<RingVertex>,
    /// Triangle-list indices into `vertices`, for the indexed variant.
    pub indices: Option<Vec<u32>>,
}

/// The fixed color of outer-boundary corners in the two-tone variant:
/// dark gray.
pub open spec fn outer_rim_color() -> Rgb {
    Rgb { r: 25, g: 25, b: 25 }
}

/// The fixed color of inner-boundary corners in the two-tone variant:
/// white.
pub open spec fn inner_rim_color() -> Rgb {
    Rgb { r: 255, g: 255, b: 255 }
}

/// Corner `j` of subdivision `i` in the duplicated-vertex layout: the
/// two triangles `(outer@i, outer@i+1, inner@i)` and
/// `(inner@i, outer@i+1, inner@i+1)`, colorless.
pub open spec fn duplicated_vertex(i: int, j: int) -> RingVertex {
    let boundary: int = if j == 1 || j == 4 || j == 5 {
        i + 1
    } else {
        i
    };
    let band: RingBand = if j == 0 || j == 1 || j == 4 {
        RingBand::Outer
    } else {
        RingBand::Inner
    };
    RingVertex { boundary: boundary as u32, band, color: None }
}

/// Vertex `slot` of the indexed layout: boundary `slot / 2`, outer
/// corners at even slots and inner corners at odd slots, each carrying
/// its band's fixed color.
pub open spec fn indexed_vertex(slot: int) -> RingVertex {
    if slot % 2 == 0 {
        RingVertex {
            boundary: (slot / 2) as u32,
            band: RingBand::Outer,
            color: Some(outer_rim_color()),
        }
    } else {
        RingVertex {
            boundary: (slot / 2) as u32,
            band: RingBand::Inner,
            color: Some(inner_rim_color()),
        }
    }
}

/// Index `j` of subdivision `i` of the indexed layout: the triangles
/// `(2i, 2i+1, 2i+2)` and `(2i+2, 2i+1, 2i+3)`.
pub open spec fn ring_index(i: int, j: int) -> int {
    if j == 0 {
        2 * i
    } else if j == 1 {
        2 * i + 1
    } else if j == 2 {
        2 * i + 2
    } else if j == 3 {
        2 * i + 2
    } else if j == 4 {
        2 * i + 1
    } else {
        2 * i + 3
    }
}

impl RingGeometry {
    /// How many vertices the geometry holds; the draw parameter of the
    /// non-indexed variant.
    pub fn vertex_count(&self) -> (n: usize)
        ensures
            n == self.vertices@.len(),
    {
        self.vertices.len()
    }

    /// How many indices the geometry holds (zero when there is no index
    /// list); the draw parameter of the indexed variant.
    pub fn index_count(&self) -> (n: usize)
        ensures
            self.indices matches Some(ix) ==> n == ix@.len(),
            self.indices is None ==> n == 0,
    {
        match &self.indices {
            Some(ix) => ix.len(),
            None => 0,
        }
    }

    /// The radius a vertex lies on: the outer radius for outer-band
    /// corners, the inner radius for inner-band corners. Once positions
    /// are evaluated, a vertex's distance from the origin is exactly
    /// this value (in units of `1 / RADIUS_ONE`).
    pub fn vertex_radius(&self, v: &RingVertex) -> (r: i64)
        ensures
            v.band == RingBand::Outer ==> r == self.outer_radius,
            v.band == RingBand::Inner ==> r == self.inner_radius,
    {
        match v.band {
            RingBand::Outer => self.outer_radius,
            RingBand::Inner => self.inner_radius,
        }
    }
}

/// Byte `k` of the little-endian encoding of `v`.
pub open spec fn u32_le_byte(v: u32, k: int) -> u8 {
    if k == 0 {
        v as u8
    } else if k == 1 {
        (v >> 8) as u8
    } else if k == 2 {
        (v >> 16) as u8
    } else {
        (v >> 24) as u8
    }
}

impl RingGeometry {
    /// Serializes the index list, if there is one, to the little-endian
    /// byte buffer an external graphics-resource layer uploads as an
    /// index buffer of unsigned 32-bit indices.
    pub fn index_buffer_bytes(&self) -> (out: Option<Vec<u8>>)
        ensures
            out is Some <==> self.indices is Some,
            out matches Some(bytes) ==> self.indices matches Some(ix) && bytes@.len() == 4
                * ix@.len() && forall|k: int, b: int|
                0 <= k < ix@.len() && 0 <= b < 4 ==> bytes@[4 * k + b] == u32_le_byte(ix@[k], b),
    {
        let ix: &Vec<u32> = match &self.indices {
            Some(ix) => ix,
            None => {
                return None;
            },
        };
        let ghost ixs: Seq<u32> = ix@;
        let n: usize = ix.len();
        let mut bytes: Vec<u8> = Vec::new();
        let mut k: usize = 0;
        while k < n
            invariant
                k <= n,
                n == ixs.len(),
                ix@ == ixs,
                bytes@.len() == 4 * k,
                forall|k2: int, b: int|
                    0 <= k2 < k && 0 <= b < 4 ==> bytes@[4 * k2 + b] == u32_le_byte(ixs[k2], b),
            decreases n - k,
        {
            let v: u32 = ix[k];
            bytes.push(#[verifier::truncate] (v as u8));
            bytes.push(#[verifier::truncate] ((v >> 8) as u8));
            bytes.push(#[verifier::truncate] ((v >> 16) as u8));
            bytes.push(#[verifier::truncate] ((v >> 24) as u8));
            k += 1;
        }
        Some(bytes)
    }
}

/// Builds duplicated-vertex ring geometry: each of the `subdivisions`
/// quads is emitted as 6 independent colorless vertices forming two
/// triangles, directly drawable as a triangle list without an index
/// buffer. Zero subdivisions or a negative radius is rejected.
pub fn build_ring_geometry_duplicated(
    outer_radius: i64,
    inner_radius: i64,
    subdivisions: u32,
) -> (result: Result<RingGeometry, GenError>)
    requires
        6 * subdivisions as int <= usize::MAX,
    ensures
        result is Ok <==> subdivisions >= 1 && outer_radius >= 0 && inner_radius >= 0,
        result matches Ok(g) ==> ({
            &&& g.subdivisions == subdivisions
            &&& g.outer_radius == outer_radius
            &&& g.inner_radius == inner_radius
            &&& g.vertices@.len() == 6 * subdivisions as int
            &&& forall|i: int, j: int|
                0 <= i < subdivisions && 0 <= j < 6 ==> g.vertices@[6 * i + j]
                    == duplicated_vertex(i, j)
            &&& g.indices is None
        }),
        result matches Err(e) ==> e == GenError::InvalidParameter,
{
    if subdivisions == 0 || outer_radius < 0 || inner_radius < 0 {
        return Err(GenError::InvalidParameter);
    }
    let mut vertices: Vec<RingVertex> = Vec::new();
    let mut i: u32 = 0;
    while i < subdivisions
        invariant
            i <= subdivisions,
            6 * subdivisions as int <= usize::MAX,
            vertices@.len() == 6 * i as int,
            forall|i2: int, j: int|
                0 <= i2 < i && 0 <= j < 6 ==> vertices@[6 * i2 + j] == duplicated_vertex(i2, j),
        decreases subdivisions - i,
    {
        vertices.push(RingVertex { boundary: i, band: RingBand::Outer, color: None });
        vertices.push(RingVertex { boundary: i + 1, band: RingBand::Outer, color: None });
        vertices.push(RingVertex { boundary: i, band: RingBand::Inner, color: None });
        vertices.push(RingVertex { boundary: i, band: RingBand::Inner, color: None });
        vertices.push(RingVertex { boundary: i + 1, band: RingBand::Outer, color: None });
        vertices.push(RingVertex { boundary: i + 1, band: RingBand::Inner, color: None });
        i += 1;
    }
    Ok(
        RingGeometry {
            subdivisions,
            outer_radius,
            inner_radius,
            vertices,
            indices: None,
        },
    )
}

/// Builds indexed ring geometry: two colored vertices (outer, inner) per
/// boundary for `subdivisions + 1` boundaries — the last boundary
/// repeats the first one's position to close the seam and keep the index
/// arithmetic uniform — plus a triangle-list index buffer of 6 indices
/// per subdivision, all in range. Zero subdivisions or a negative radius
/// is rejected.
pub fn build_ring_geometry_indexed(
    outer_radius: i64,
    inner_radius: i64,
    subdivisions: u32,
) -> (result: Result<RingGeometry, GenError>)
    requires
        6 * subdivisions as int <= usize::MAX,
        2 * subdivisions as int + 3 <= u32::MAX,
    ensures
        result is Ok <==> subdivisions >= 1 && outer_radius >= 0 && inner_radius >= 0,
        result matches Ok(g) ==> ({
            &&& g.subdivisions == subdivisions
            &&& g.outer_radius == outer_radius
            &&& g.inner_radius == inner_radius
            &&& g.vertices@.len() == 2 * (subdivisions as int + 1)
            &&& forall|s: int|
                0 <= s < g.vertices@.len() ==> g.vertices@[s] == indexed_vertex(s)
            &&& g.indices matches Some(ix)
            &&& g.indices matches Some(ix) ==> ix@.len() == 6 * subdivisions as int
                && (forall|i: int, j: int|
                0 <= i < subdivisions && 0 <= j < 6 ==> ix@[6 * i + j] as int == ring_index(i, j))
                && (forall|k: int| 0 <= k < ix@.len() ==> (ix@[k] as int) < g.vertices@.len())
        }),
        result matches Err(e) ==> e == GenError::InvalidParameter,
{
    if subdivisions == 0 || outer_radius < 0 || inner_radius < 0 {
        return Err(GenError::InvalidParameter);
    }
    let mut vertices: Vec<RingVertex> = Vec::new();
    let mut b: u32 = 0;
    while b <= subdivisions
        invariant
            b <= subdivisions + 1,
            2 * subdivisions as int + 3 <= u32::MAX,
            6 * subdivisions as int <= usize::MAX,
            subdivisions >= 1,
            vertices@.len() == 2 * b as int,
            forall|s: int| 0 <= s < vertices@.len() ==> vertices@[s] == indexed_vertex(s),
        decreases subdivisions + 1 - b,
    {
        vertices.push(
            RingVertex { boundary: b, band: RingBand::Outer, color: Some(Rgb { r: 25, g: 25, b: 25 }) },
        );
        vertices.push(
            RingVertex {
                boundary: b,
                band: RingBand::Inner,
                color: Some(Rgb { r: 255, g: 255, b: 255 }),
            },
        );
        proof {
            let len: int = vertices@.len() as int;
            assert(vertices@[len - 2] == indexed_vertex(len - 2));
            assert(vertices@[len - 1] == indexed_vertex(len - 1));
        }
        b += 1;
    }
    let mut indices: Vec<u32> = Vec::new();
    let mut i: u32 = 0;
    while i < subdivisions
        invariant
            i <= subdivisions,
            2 * subdivisions as int + 3 <= u32::MAX,
            6 * subdivisions as int <= usize::MAX,
            indices@.len() == 6 * i as int,
            forall|i2: int, j: int|
                0 <= i2 < i && 0 <= j < 6 ==> indices@[6 * i2 + j] as int == ring_index(i2, j),
        decreases subdivisions - i,
    {
        let base: u32 = 2 * i;
        indices.push(base);
        indices.push(base + 1);
        indices.push(base + 2);
        indices.push(base + 2);
        indices.push(base + 1);
        indices.push(base + 3);
        i += 1;
    }
    proof {
        assert forall|k: int| 0 <= k < indices@.len() implies (indices@[k] as int) < 2 * (
        subdivisions as int + 1) by {
            let i2: int = k / 6;
            let j: int = k % 6;
            assert(k == 6 * i2 + j && 0 <= i2 < subdivisions && 0 <= j < 6);
            assert(indices@[6 * i2 + j] as int == ring_index(i2, j));
        }
    }
    Ok(
        RingGeometry {
            subdivisions,
            outer_radius,
            inner_radius,
            vertices,
            indices: Some(indices),
        },
    )
}

} // verus!
