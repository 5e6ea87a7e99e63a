use mip_ring::ring::{
    build_ring_geometry_duplicated, build_ring_geometry_indexed, RingBand, RingGeometry,
    RingVertex, RADIUS_ONE,
};
use mip_ring::GenError;

const HALF: i64 = RADIUS_ONE / 2;
const QUARTER: i64 = RADIUS_ONE / 4;

fn position_of(g: &RingGeometry, v: &RingVertex) -> (f64, f64) {
    // trigonometric evaluation of a planned vertex, as the unverified
    // layer around the library performs it
    let angle: f64 = (v.boundary as f64) / (g.subdivisions as f64) * 2.0 * std::f64::consts::PI;
    let radius: f64 = (g.vertex_radius(v) as f64) / (RADIUS_ONE as f64);
    (angle.cos() * radius, angle.sin() * radius)
}

#[test]
fn duplicated_24_subdivisions_has_144_vertices() {
    let g: RingGeometry = build_ring_geometry_duplicated(HALF, QUARTER, 24).unwrap();
    assert_eq!(g.vertex_count(), 144);
    assert!(g.indices.is_none());
    assert_eq!(g.index_count(), 0);
}

#[test]
fn indexed_24_subdivisions_has_50_vertices_144_indices() {
    let g: RingGeometry = build_ring_geometry_indexed(HALF, QUARTER, 24).unwrap();
    assert_eq!(g.vertex_count(), 50);
    assert_eq!(g.index_count(), 144);
}

#[test]
fn duplicated_pattern_per_subdivision() {
    let g: RingGeometry = build_ring_geometry_duplicated(HALF, QUARTER, 4).unwrap();
    assert_eq!(g.vertex_count(), 24);
    for i in 0..4u32 {
        let s: usize = (i as usize) * 6;
        let boundaries: [u32; 6] = [i, i + 1, i, i, i + 1, i + 1];
        let bands: [RingBand; 6] = [
            RingBand::Outer,
            RingBand::Outer,
            RingBand::Inner,
            RingBand::Inner,
            RingBand::Outer,
            RingBand::Inner,
        ];
        for j in 0..6usize {
            assert_eq!(g.vertices[s + j].boundary, boundaries[j]);
            assert_eq!(g.vertices[s + j].band, bands[j]);
            assert!(g.vertices[s + j].color.is_none());
        }
    }
}

#[test]
fn indexed_vertices_alternate_bands_and_colors() {
    let g: RingGeometry = build_ring_geometry_indexed(HALF, QUARTER, 24).unwrap();
    for b in 0..=24u32 {
        let outer: &RingVertex = &g.vertices[(b as usize) * 2];
        let inner: &RingVertex = &g.vertices[(b as usize) * 2 + 1];
        assert_eq!(outer.boundary, b);
        assert_eq!(outer.band, RingBand::Outer);
        assert_eq!(outer.color.unwrap().r, 25);
        assert_eq!(outer.color.unwrap().g, 25);
        assert_eq!(outer.color.unwrap().b, 25);
        assert_eq!(inner.boundary, b);
        assert_eq!(inner.band, RingBand::Inner);
        assert_eq!(inner.color.unwrap().r, 255);
        assert_eq!(inner.color.unwrap().g, 255);
        assert_eq!(inner.color.unwrap().b, 255);
    }
    // boundary 24 closes the seam: same angle modulo a full turn as
    // boundary 0, kept as its own pair of vertices
    assert_eq!(g.vertices.len(), 50);
}

#[test]
fn indexed_triangles_reference_adjacent_boundaries() {
    let g: RingGeometry = build_ring_geometry_indexed(HALF, QUARTER, 24).unwrap();
    let ix: &Vec<u32> = g.indices.as_ref().unwrap();
    assert_eq!(ix.len(), 144);
    for i in 0..24u32 {
        let s: usize = (i as usize) * 6;
        let o: u32 = 2 * i;
        assert_eq!(&ix[s..s + 6], &[o, o + 1, o + 2, o + 2, o + 1, o + 3]);
    }
    for k in ix {
        assert!((*k as usize) < g.vertices.len());
    }
}

#[test]
fn zero_subdivisions_is_rejected() {
    let r: Result<RingGeometry, GenError> = build_ring_geometry_duplicated(HALF, QUARTER, 0);
    assert_eq!(r.unwrap_err(), GenError::InvalidParameter);
    let r: Result<RingGeometry, GenError> = build_ring_geometry_indexed(HALF, QUARTER, 0);
    assert_eq!(r.unwrap_err(), GenError::InvalidParameter);
}

#[test]
fn negative_radius_is_rejected() {
    let r: Result<RingGeometry, GenError> = build_ring_geometry_duplicated(-1, QUARTER, 24);
    assert_eq!(r.unwrap_err(), GenError::InvalidParameter);
    let r: Result<RingGeometry, GenError> = build_ring_geometry_indexed(HALF, -QUARTER, 24);
    assert_eq!(r.unwrap_err(), GenError::InvalidParameter);
}

#[test]
fn full_circle_defaults_accepted() {
    // the observed defaults: outer radius 1.0, inner radius 0.0
    let g: RingGeometry = build_ring_geometry_indexed(RADIUS_ONE, 0, 24).unwrap();
    assert_eq!(g.outer_radius, RADIUS_ONE);
    assert_eq!(g.inner_radius, 0);
    assert_eq!(g.vertex_count(), 50);
}

#[test]
fn evaluated_distances_match_radii() {
    // outer = 0.5, inner = 0.25: every evaluated vertex sits at exactly
    // its band's distance from the origin, within float tolerance
    let g: RingGeometry = build_ring_geometry_indexed(HALF, QUARTER, 24).unwrap();
    let mut max_dist: f64 = 0.0;
    let mut min_dist: f64 = f64::MAX;
    for v in &g.vertices {
        let (x, y): (f64, f64) = position_of(&g, v);
        let dist: f64 = (x * x + y * y).sqrt();
        if dist > max_dist {
            max_dist = dist;
        }
        if dist < min_dist {
            min_dist = dist;
        }
        let expected: f64 = match v.band {
            RingBand::Outer => 0.5,
            RingBand::Inner => 0.25,
        };
        assert!((dist - expected).abs() < 1e-9);
    }
    assert!((max_dist - 0.5).abs() < 1e-9);
    assert!((min_dist - 0.25).abs() < 1e-9);
}

#[test]
fn duplicated_distances_match_radii() {
    let g: RingGeometry = build_ring_geometry_duplicated(HALF, QUARTER, 24).unwrap();
    for v in &g.vertices {
        let (x, y): (f64, f64) = position_of(&g, v);
        let dist: f64 = (x * x + y * y).sqrt();
        let expected: f64 = match v.band {
            RingBand::Outer => 0.5,
            RingBand::Inner => 0.25,
        };
        assert!((dist - expected).abs() < 1e-9);
    }
}

#[test]
fn index_bytes_are_little_endian() {
    let g: RingGeometry = build_ring_geometry_indexed(HALF, QUARTER, 24).unwrap();
    let bytes: Vec<u8> = g.index_buffer_bytes().unwrap();
    let ix: &Vec<u32> = g.indices.as_ref().unwrap();
    assert_eq!(bytes.len(), 4 * ix.len());
    for (k, v) in ix.iter().enumerate() {
        assert_eq!(&bytes[4 * k..4 * k + 4], &v.to_le_bytes());
    }
    let d: RingGeometry = build_ring_geometry_duplicated(HALF, QUARTER, 24).unwrap();
    assert!(d.index_buffer_bytes().is_none());
}
