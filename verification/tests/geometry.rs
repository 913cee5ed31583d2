use map_editor::geometry::{mesh_from_faces, plane_triples, triangulate, Mesh};
use map_editor::types::Vec3;

fn point(x: f32, y: f32, z: f32) -> Vec3 {
    Vec3 { x: x.to_bits(), y: y.to_bits(), z: z.to_bits() }
}

/// The four corners of each side of the cube `[-s, s]³`, in order around the
/// side's outward normal (right, left, top, bottom, front, back).
fn box_faces(s: f32) -> Vec<Vec<Vec3>> {
    vec![
        vec![point(s, -s, -s), point(s, s, -s), point(s, s, s), point(s, -s, s)],
        vec![point(-s, -s, s), point(-s, s, s), point(-s, s, -s), point(-s, -s, -s)],
        vec![point(-s, s, -s), point(-s, s, s), point(s, s, s), point(s, s, -s)],
        vec![point(-s, -s, s), point(-s, -s, -s), point(s, -s, -s), point(s, -s, s)],
        vec![point(-s, -s, s), point(s, -s, s), point(s, s, s), point(-s, s, s)],
        vec![point(s, -s, -s), point(-s, -s, -s), point(-s, s, -s), point(s, s, -s)],
    ]
}

fn unique_vertices(mesh: &Mesh) -> usize {
    let mut seen: Vec<[u32; 3]> = Vec::new();
    for v in &mesh.vertices {
        if !seen.contains(v) {
            seen.push(*v);
        }
    }
    seen.len()
}

#[test]
fn box_brush_has_8_unique_vertices() {
    let mesh = mesh_from_faces(&box_faces(1.0), false);
    assert!(mesh.vertices.len() >= 8, "Expected at least 8 vertices, got {}", mesh.vertices.len());
    assert_eq!(unique_vertices(&mesh), 8);
}

#[test]
fn box_brush_has_correct_index_count() {
    let mesh = mesh_from_faces(&box_faces(1.0), false);
    // 6 faces * 2 triangles * 3 indices = 36
    assert_eq!(mesh.indices.len(), 36, "Expected 36 indices, got {}", mesh.indices.len());
}

#[test]
fn inverted_box_has_same_counts() {
    let mesh = mesh_from_faces(&box_faces(1.0), true);
    assert!(mesh.vertices.len() >= 8);
    assert_eq!(mesh.indices.len(), 36);
}

#[test]
fn box_mesh_vertices_follow_the_faces() {
    let faces = box_faces(2.0);
    let mesh = mesh_from_faces(&faces, false);
    assert_eq!(mesh.vertices.len(), 24);
    for (f, face) in faces.iter().enumerate() {
        for (i, v) in face.iter().enumerate() {
            assert_eq!(mesh.vertices[4 * f + i], [v.x, v.y, v.z]);
        }
    }
}

#[test]
fn box_mesh_indices_are_offset_fans() {
    let mesh = mesh_from_faces(&box_faces(1.0), false);
    for f in 0..6u32 {
        let base = 4 * f;
        let k = 6 * f as usize;
        assert_eq!(&mesh.indices[k..k + 6], &[base, base + 1, base + 2, base, base + 2, base + 3]);
    }
    assert!(mesh.indices.iter().all(|&i| (i as usize) < mesh.vertices.len()));
}

#[test]
fn inverted_box_flips_every_triangle() {
    let plain = mesh_from_faces(&box_faces(1.0), false);
    let inverted = mesh_from_faces(&box_faces(1.0), true);
    assert_eq!(plain.vertices, inverted.vertices);
    for t in 0..12 {
        assert_eq!(inverted.indices[3 * t], plain.indices[3 * t]);
        assert_eq!(inverted.indices[3 * t + 1], plain.indices[3 * t + 2]);
        assert_eq!(inverted.indices[3 * t + 2], plain.indices[3 * t + 1]);
    }
}

#[test]
fn faces_with_fewer_than_three_points_are_skipped() {
    let a = point(0.0, 0.0, 0.0);
    let b = point(1.0, 0.0, 0.0);
    let c = point(0.0, 1.0, 0.0);
    let faces = vec![vec![a, b], vec![], vec![a, b, c], vec![c], vec![c, b, a]];
    let mesh = mesh_from_faces(&faces, false);
    assert_eq!(mesh.vertices.len(), 6);
    assert_eq!(mesh.indices, vec![0, 1, 2, 3, 4, 5]);
}

#[test]
fn no_faces_make_an_empty_mesh() {
    let mesh = mesh_from_faces(&Vec::new(), true);
    assert!(mesh.vertices.is_empty());
    assert!(mesh.indices.is_empty());
}

#[test]
fn triangulate_fans_from_the_first_point() {
    let v = point(0.0, 0.0, 0.0);
    assert_eq!(triangulate(&[v], false), Vec::<u32>::new());
    assert_eq!(triangulate(&[v, v], false), Vec::<u32>::new());
    assert_eq!(triangulate(&[v, v, v], false), vec![0, 1, 2]);
    assert_eq!(triangulate(&[v, v, v, v, v], false), vec![0, 1, 2, 0, 2, 3, 0, 3, 4]);
}

#[test]
fn triangulate_inverted_reverses_winding() {
    let v = point(0.0, 0.0, 0.0);
    assert_eq!(triangulate(&[v, v, v], true), vec![0, 2, 1]);
    assert_eq!(triangulate(&[v, v, v, v], true), vec![0, 2, 1, 0, 3, 2]);
}

#[test]
fn plane_triples_lists_every_choice_once_in_order() {
    assert!(plane_triples(0).is_empty());
    assert!(plane_triples(2).is_empty());
    assert_eq!(plane_triples(3), vec![(0, 1, 2)]);
    assert_eq!(plane_triples(4), vec![(0, 1, 2), (0, 1, 3), (0, 2, 3), (1, 2, 3)]);
    assert_eq!(plane_triples(6).len(), 20);
}
