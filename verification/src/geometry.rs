//! Index bookkeeping for brush meshes.
//!
//! Turning a brush into triangles takes two kinds of work. Finding the corner
//! points of the solid and ordering each face's points around its normal is
//! floating-point geometry and is done by the renderer. What remains, and is
//! specified here, is how the ordered faces become one indexed triangle list:
//! faces with fewer than three points are dropped, every other face is fanned
//! out from its first point, and the fans are offset so that each indexes its
//! own face's vertices.

use vstd::prelude::*;
use crate::types::Vec3;

verus! {

/// One triangle of a fan: it joins the fan's first point to points `t + 1`
/// and `t + 2`, wound the other way round on an inverted brush.
pub open spec fn fan_triangle(t: nat, inverted: bool) -> Seq<u32> {
    if inverted {
        seq![0u32, (t + 2) as u32, (t + 1) as u32]
    } else {
        seq![0u32, (t + 1) as u32, (t + 2) as u32]
    }
}

/// The first `count` triangles of a fan, three indices each.
pub open spec fn fan(count: nat, inverted: bool) -> Seq<u32>
    decreases count,
{
    if count == 0 {
        Seq::empty()
    } else {
        fan((count - 1) as nat, inverted) + fan_triangle((count - 1) as nat, inverted)
    }
}

/// Number of triangles in the fan over a polygon of `n` points.
pub open spec fn fan_size(n: nat) -> nat {
    if n >= 2 {
        (n - 2) as nat
    } else {
        0
    }
}

/// A fan has three indices per triangle.
pub proof fn lemma_fan_len(count: nat, inverted: bool)
    ensures
        fan(count, inverted).len() == 3 * count,
    decreases count,
{
    if count > 0 {
        lemma_fan_len((count - 1) as nat, inverted);
    }
}

/// Every index of a fan of `count` triangles names one of its `count + 2`
/// points, provided these can be numbered in a `u32`.
pub proof fn lemma_fan_indices_in_range(count: nat, inverted: bool)
    requires
        count + 1 <= u32::MAX,
    ensures
        forall|k: int|
            0 <= k < fan(count, inverted).len() ==> #[trigger] fan(count, inverted)[k] < count + 2,
    decreases count,
{
    lemma_fan_len(count, inverted);
    if count > 0 {
        let c1 = (count - 1) as nat;
        lemma_fan_indices_in_range(c1, inverted);
        lemma_fan_len(c1, inverted);
        let prev = fan(c1, inverted);
        let tri = fan_triangle(c1, inverted);
        assert forall|k: int| 0 <= k < fan(count, inverted).len() implies #[trigger] fan(count, inverted)[k]
            < count + 2 by {
            if k < prev.len() {
                assert(fan(count, inverted)[k] == prev[k]);
            } else {
                assert(fan(count, inverted)[k] == tri[k - prev.len()]);
            }
        }
    }
}

/// Inverting a brush flips the winding of each triangle and changes nothing
/// else: the fan has the same triangles, each with its last two indices
/// swapped.
pub proof fn lemma_inverted_fan_swaps_winding(count: nat)
    ensures
        fan(count, true).len() == fan(count, false).len(),
        forall|t: int|
            0 <= t < count ==> {
                &&& #[trigger] fan(count, true)[3 * t] == fan(count, false)[3 * t]
                &&& fan(count, true)[3 * t + 1] == fan(count, false)[3 * t + 2]
                &&& fan(count, true)[3 * t + 2] == fan(count, false)[3 * t + 1]
            },
    decreases count,
{
    lemma_fan_len(count, true);
    lemma_fan_len(count, false);
    if count > 0 {
        let c1 = (count - 1) as nat;
        lemma_inverted_fan_swaps_winding(c1);
        lemma_fan_len(c1, true);
        lemma_fan_len(c1, false);
        assert forall|t: int| 0 <= t < count implies {
            &&& #[trigger] fan(count, true)[3 * t] == fan(count, false)[3 * t]
            &&& fan(count, true)[3 * t + 1] == fan(count, false)[3 * t + 2]
            &&& fan(count, true)[3 * t + 2] == fan(count, false)[3 * t + 1]
        } by {
            if t < c1 {
                assert(fan(count, true)[3 * t] == fan(c1, true)[3 * t]);
                assert(fan(count, false)[3 * t] == fan(c1, false)[3 * t]);
                assert(fan(count, true)[3 * t + 1] == fan(c1, true)[3 * t + 1]);
                assert(fan(count, false)[3 * t + 1] == fan(c1, false)[3 * t + 1]);
                assert(fan(count, true)[3 * t + 2] == fan(c1, true)[3 * t + 2]);
                assert(fan(count, false)[3 * t + 2] == fan(c1, false)[3 * t + 2]);
            }
        }
    }
}

/// Fans out a convex polygon whose points are already in order around its
/// normal: one triangle per point after the second, each joining the first
/// point to two neighbours, wound the other way when `inverted`.
pub fn triangulate(verts: &[Vec3], inverted: bool) -> (indices: Vec<u32>)
    requires
        1 <= verts@.len(),
        verts@.len() - 1 <= u32::MAX,
    ensures
        indices@ == fan(fan_size(verts@.len()), inverted),
{
    let mut indices: Vec<u32> = Vec::new();
    let n = verts.len();
    let mut i: usize = 1;
    while i < n - 1
        invariant
            n == verts@.len(),
            1 <= n,
            n - 1 <= u32::MAX,
            1 <= i <= if n >= 2 { n - 1 } else { 1 },
            indices@ == fan((i - 1) as nat, inverted),
        decreases n - 1 - i,
    {
        let ghost before = indices@;
        if inverted {
            indices.push(0u32);
            indices.push((i + 1) as u32);
            indices.push(i as u32);
        } else {
            indices.push(0u32);
            indices.push(i as u32);
            indices.push((i + 1) as u32);
        }
        assert(indices@ =~= before + fan_triangle((i - 1) as nat, inverted));
        i = i + 1;
    }
    indices
}


/// Three distinct plane positions below `n`, in increasing order.
pub open spec fn is_plane_triple(n: nat, t: (usize, usize, usize)) -> bool {
    t.0 < t.1 && t.1 < t.2 && t.2 < n
}

/// `a` comes before `b` in lexicographic order.
pub open spec fn triple_before(a: (usize, usize, usize), b: (usize, usize, usize)) -> bool {
    ||| a.0 < b.0
    ||| a.0 == b.0 && a.1 < b.1
    ||| a.0 == b.0 && a.1 == b.1 && a.2 < b.2
}

/// `t` is among the triples listed in `s`.
pub open spec fn lists_triple(s: Seq<(usize, usize, usize)>, t: (usize, usize, usize)) -> bool {
    exists|m: int| 0 <= m < s.len() && s[m] == t
}

/// Every corner of a brush lies on three of its planes. This lists each way
/// to choose three of `n` planes exactly once, as increasing positions, in
/// lexicographic order.
pub fn plane_triples(n: usize) -> (triples: Vec<(usize, usize, usize)>)
    ensures
        forall|m: int| 0 <= m < triples@.len() ==> is_plane_triple(n as nat, #[trigger] triples@[m]),
        forall|a: int, b: int|
            0 <= a < b < triples@.len() ==> triple_before(#[trigger] triples@[a], #[trigger] triples@[b]),
        forall|t: (usize, usize, usize)| is_plane_triple(n as nat, t) ==> #[trigger] lists_triple(triples@, t),
{
    let mut triples: Vec<(usize, usize, usize)> = Vec::new();
    let mut i: usize = 0;
    while i < n
        invariant
            0 <= i <= n,
            forall|m: int|
                0 <= m < triples@.len() ==> is_plane_triple(n as nat, #[trigger] triples@[m]) && triples@[m].0
                    < i,
            forall|a: int, b: int|
                0 <= a < b < triples@.len() ==> triple_before(#[trigger] triples@[a], #[trigger] triples@[b]),
            forall|t: (usize, usize, usize)|
                is_plane_triple(n as nat, t) && t.0 < i ==> #[trigger] lists_triple(triples@, t),
        decreases n - i,
    {
        let mut j: usize = i + 1;
        while j < n
            invariant
                0 <= i < n,
                i + 1 <= j <= n,
                forall|m: int|
                    0 <= m < triples@.len() ==> is_plane_triple(n as nat, #[trigger] triples@[m]) && (
                    triples@[m].0 < i || (triples@[m].0 == i && triples@[m].1 < j)),
                forall|a: int, b: int|
                    0 <= a < b < triples@.len() ==> triple_before(#[trigger] triples@[a], #[trigger] triples@[b]),
                forall|t: (usize, usize, usize)|
                    is_plane_triple(n as nat, t) && (t.0 < i || (t.0 == i && t.1 < j)) ==> #[trigger] lists_triple(
                        triples@,
                        t,
                    ),
            decreases n - j,
        {
            let mut k: usize = j + 1;
            while k < n
                invariant
                    0 <= i < j < n,
                    j + 1 <= k <= n,
                    forall|m: int|
                        0 <= m < triples@.len() ==> is_plane_triple(n as nat, #[trigger] triples@[m]) && (
                        triples@[m].0 < i || (triples@[m].0 == i && triples@[m].1 < j) || (triples@[m].0 == i
                            && triples@[m].1 == j && triples@[m].2 < k)),
                    forall|a: int, b: int|
                        0 <= a < b < triples@.len() ==> triple_before(
                            #[trigger] triples@[a],
                            #[trigger] triples@[b],
                        ),
                    forall|t: (usize, usize, usize)|
                        is_plane_triple(n as nat, t) && (t.0 < i || (t.0 == i && t.1 < j) || (t.0 == i && t.1
                            == j && t.2 < k)) ==> #[trigger] lists_triple(triples@, t),
                decreases n - k,
            {
                let ghost before = triples@;
                triples.push((i, j, k));
                assert forall|t: (usize, usize, usize)|
                    is_plane_triple(n as nat, t) && (t.0 < i || (t.0 == i && t.1 < j) || (t.0 == i && t.1 == j
                        && t.2 < k + 1)) implies #[trigger] lists_triple(triples@, t) by {
                    if t == (i, j, k) {
                        assert(triples@[before.len() as int] == t);
                    } else {
                        assert(lists_triple(before, t));
                        let m = choose|m: int| 0 <= m < before.len() && before[m] == t;
                        assert(triples@[m] == t);
                    }
                }
                assert forall|a: int, b: int|
                    0 <= a < b < triples@.len() implies triple_before(
                        #[trigger] triples@[a],
                        #[trigger] triples@[b],
                    ) by {
                    if b == before.len() {
                        assert(triples@[a] == before[a]);
                    } else {
                        assert(triples@[a] == before[a] && triples@[b] == before[b]);
                    }
                }
                k = k + 1;
            }
            j = j + 1;
        }
        i = i + 1;
    }
    triples
}

/// An indexed triangle list; each vertex is an `[x, y, z]` triple of
/// single-precision bit patterns.
pub struct Mesh {
    pub vertices: Vec<[u32; 3]>,
    pub indices: Vec<u32>,
}

/// A point as a vertex record.
pub open spec fn vertex_record(v: Vec3) -> [u32; 3] {
    [v.x, v.y, v.z]
}

/// A face contributes to the mesh only when it has at least three points.
pub open spec fn face_is_kept(face: Seq<Vec3>) -> bool {
    face.len() >= 3
}

/// The faces of a brush, each as the sequence of its points.
pub open spec fn face_views(faces: Seq<Vec<Vec3>>) -> Seq<Seq<Vec3>> {
    faces.map_values(|f: Vec<Vec3>| f@)
}

/// The vertex list of the mesh built from `faces`: the points of every kept
/// face, face after face.
pub open spec fn mesh_vertices(faces: Seq<Seq<Vec3>>) -> Seq<[u32; 3]>
    decreases faces.len(),
{
    if faces.len() == 0 {
        Seq::empty()
    } else {
        let earlier = mesh_vertices(faces.drop_last());
        let face = faces.last();
        if face_is_kept(face) {
            earlier + face.map_values(|v: Vec3| vertex_record(v))
        } else {
            earlier
        }
    }
}

/// The index list of the mesh built from `faces`: the fan of every kept face,
/// offset by the number of vertices that the faces before it contributed.
pub open spec fn mesh_indices(faces: Seq<Seq<Vec3>>, inverted: bool) -> Seq<u32>
    decreases faces.len(),
{
    if faces.len() == 0 {
        Seq::empty()
    } else {
        let earlier = mesh_indices(faces.drop_last(), inverted);
        let base = mesh_vertices(faces.drop_last()).len();
        let face = faces.last();
        if face_is_kept(face) {
            earlier + fan(fan_size(face.len()), inverted).map_values(|i: u32| (i + base) as u32)
        } else {
            earlier
        }
    }
}

/// Number of triangles that the kept faces among `faces` yield.
pub open spec fn triangle_count(faces: Seq<Seq<Vec3>>) -> nat
    decreases faces.len(),
{
    if faces.len() == 0 {
        0
    } else if face_is_kept(faces.last()) {
        triangle_count(faces.drop_last()) + fan_size(faces.last().len())
    } else {
        triangle_count(faces.drop_last())
    }
}

/// Dropping trailing faces never adds vertices.
pub proof fn lemma_mesh_vertices_prefix(faces: Seq<Seq<Vec3>>, p: int)
    requires
        0 <= p <= faces.len(),
    ensures
        mesh_vertices(faces.take(p)).len() <= mesh_vertices(faces).len(),
    decreases faces.len(),
{
    if p < faces.len() {
        assert(faces.drop_last().take(p) =~= faces.take(p));
        lemma_mesh_vertices_prefix(faces.drop_last(), p);
    } else {
        assert(faces.take(p) =~= faces);
    }
}

/// The mesh has three indices per triangle of its kept faces, and this does
/// not depend on whether the brush is inverted.
pub proof fn lemma_mesh_index_count(faces: Seq<Seq<Vec3>>, inverted: bool)
    ensures
        mesh_indices(faces, inverted).len() == 3 * triangle_count(faces),
    decreases faces.len(),
{
    if faces.len() > 0 {
        lemma_mesh_index_count(faces.drop_last(), inverted);
        lemma_fan_len(fan_size(faces.last().len()), inverted);
    }
}

/// The mesh has one vertex per point of each kept face.
pub open spec fn kept_point_count(faces: Seq<Seq<Vec3>>) -> nat
    decreases faces.len(),
{
    if faces.len() == 0 {
        0
    } else if face_is_kept(faces.last()) {
        kept_point_count(faces.drop_last()) + faces.last().len()
    } else {
        kept_point_count(faces.drop_last())
    }
}

/// The vertex list holds exactly the points of the kept faces.
pub proof fn lemma_mesh_vertex_count(faces: Seq<Seq<Vec3>>)
    ensures
        mesh_vertices(faces).len() == kept_point_count(faces),
    decreases faces.len(),
{
    if faces.len() > 0 {
        lemma_mesh_vertex_count(faces.drop_last());
    }
}

/// Every index of the mesh names one of its vertices, when the vertices can
/// be numbered in a `u32`.
pub proof fn lemma_mesh_indices_in_range(faces: Seq<Seq<Vec3>>, inverted: bool)
    requires
        mesh_vertices(faces).len() <= u32::MAX,
    ensures
        forall|k: int|
            0 <= k < mesh_indices(faces, inverted).len() ==> #[trigger] mesh_indices(faces, inverted)[k]
                < mesh_vertices(faces).len(),
    decreases faces.len(),
{
    if faces.len() > 0 {
        let earlier = faces.drop_last();
        let face = faces.last();
        assert(faces.take(faces.len() - 1) =~= earlier);
        lemma_mesh_vertices_prefix(faces, faces.len() - 1);
        lemma_mesh_indices_in_range(earlier, inverted);
        if face_is_kept(face) {
            let base = mesh_vertices(earlier).len();
            let c = fan_size(face.len());
            lemma_fan_indices_in_range(c, inverted);
            lemma_fan_len(c, inverted);
            let prev = mesh_indices(earlier, inverted);
            let shifted = fan(c, inverted).map_values(|i: u32| (i + base) as u32);
            assert forall|k: int| 0 <= k < mesh_indices(faces, inverted).len() implies #[trigger] mesh_indices(
                faces,
                inverted,
            )[k] < mesh_vertices(faces).len() by {
                if k < prev.len() {
                    assert(mesh_indices(faces, inverted)[k] == prev[k]);
                    assert(prev[k] < base);
                } else {
                    assert(mesh_indices(faces, inverted)[k] == shifted[k - prev.len()]);
                    assert(fan(c, inverted)[k - prev.len()] < c + 2);
                }
            }
        } else {
            assert(mesh_indices(faces, inverted) == mesh_indices(earlier, inverted));
            assert(mesh_vertices(faces) == mesh_vertices(earlier));
        }
    }
}

/// An inverted brush's mesh has the same vertices and the same triangles as
/// the plain one, each triangle with its last two indices swapped.
pub proof fn lemma_inverted_mesh_swaps_winding(faces: Seq<Seq<Vec3>>)
    ensures
        mesh_indices(faces, true).len() == mesh_indices(faces, false).len(),
        forall|t: int|
            0 <= t < triangle_count(faces) ==> {
                &&& #[trigger] mesh_indices(faces, true)[3 * t] == mesh_indices(faces, false)[3 * t]
                &&& mesh_indices(faces, true)[3 * t + 1] == mesh_indices(faces, false)[3 * t + 2]
                &&& mesh_indices(faces, true)[3 * t + 2] == mesh_indices(faces, false)[3 * t + 1]
            },
    decreases faces.len(),
{
    lemma_mesh_index_count(faces, true);
    lemma_mesh_index_count(faces, false);
    if faces.len() > 0 {
        let earlier = faces.drop_last();
        let face = faces.last();
        lemma_inverted_mesh_swaps_winding(earlier);
        lemma_mesh_index_count(earlier, true);
        lemma_mesh_index_count(earlier, false);
        if face_is_kept(face) {
            let base = mesh_vertices(earlier).len();
            let c = fan_size(face.len());
            let e = triangle_count(earlier);
            lemma_inverted_fan_swaps_winding(c);
            lemma_fan_len(c, true);
            let inv = fan(c, true).map_values(|i: u32| (i + base) as u32);
            let pln = fan(c, false).map_values(|i: u32| (i + base) as u32);
            assert forall|t: int| 0 <= t < triangle_count(faces) implies {
                &&& #[trigger] mesh_indices(faces, true)[3 * t] == mesh_indices(faces, false)[3 * t]
                &&& mesh_indices(faces, true)[3 * t + 1] == mesh_indices(faces, false)[3 * t + 2]
                &&& mesh_indices(faces, true)[3 * t + 2] == mesh_indices(faces, false)[3 * t + 1]
            } by {
                if t < e {
                    assert(mesh_indices(faces, true)[3 * t] == mesh_indices(earlier, true)[3 * t]);
                    assert(mesh_indices(faces, false)[3 * t] == mesh_indices(earlier, false)[3 * t]);
                    assert(mesh_indices(faces, true)[3 * t + 1] == mesh_indices(earlier, true)[3 * t + 1]);
                    assert(mesh_indices(faces, false)[3 * t + 1] == mesh_indices(earlier, false)[3 * t + 1]);
                    assert(mesh_indices(faces, true)[3 * t + 2] == mesh_indices(earlier, true)[3 * t + 2]);
                    assert(mesh_indices(faces, false)[3 * t + 2] == mesh_indices(earlier, false)[3 * t + 2]);
                } else {
                    let u = t - e;
                    assert(fan(c, true)[3 * u] == fan(c, false)[3 * u]);
                    assert(mesh_indices(faces, true)[3 * t] == inv[3 * u]);
                    assert(mesh_indices(faces, false)[3 * t] == pln[3 * u]);
                    assert(mesh_indices(faces, true)[3 * t + 1] == inv[3 * u + 1]);
                    assert(mesh_indices(faces, false)[3 * t + 2] == pln[3 * u + 2]);
                    assert(mesh_indices(faces, true)[3 * t + 2] == inv[3 * u + 2]);
                    assert(mesh_indices(faces, false)[3 * t + 1] == pln[3 * u + 1]);
                }
            }
        } else {
            assert(mesh_indices(faces, true) == mesh_indices(earlier, true));
            assert(mesh_indices(faces, false) == mesh_indices(earlier, false));
        }
    }
}

/// Triangle `t` of the fan over a polygon joins its point 0 to points
/// `t + 1` and `t + 2`, in that order, or `t + 2` and `t + 1` on an inverted
/// brush; there are three indices per triangle and nothing else.
pub proof fn law_fan_triangles(count: nat, inverted: bool)
    requires
        count + 2 <= u32::MAX,
    ensures
        fan(count, inverted).len() == 3 * count,
        forall|t: int|
            0 <= t < count ==> {
                &&& #[trigger] fan(count, inverted)[3 * t] == 0
                &&& fan(count, inverted)[3 * t + 1] == (if inverted { t + 2 } else { t + 1 })
                &&& fan(count, inverted)[3 * t + 2] == (if inverted { t + 1 } else { t + 2 })
            },
    decreases count,
{
    lemma_fan_len(count, inverted);
    if count > 0 {
        let c1 = (count - 1) as nat;
        law_fan_triangles(c1, inverted);
        lemma_fan_len(c1, inverted);
        let prev = fan(c1, inverted);
        let tri = fan_triangle(c1, inverted);
        assert forall|t: int| 0 <= t < count implies {
            &&& #[trigger] fan(count, inverted)[3 * t] == 0
            &&& fan(count, inverted)[3 * t + 1] == (if inverted { t + 2 } else { t + 1 })
            &&& fan(count, inverted)[3 * t + 2] == (if inverted { t + 1 } else { t + 2 })
        } by {
            if t < c1 {
                assert(fan(count, inverted)[3 * t] == prev[3 * t]);
                assert(fan(count, inverted)[3 * t + 1] == prev[3 * t + 1]);
                assert(fan(count, inverted)[3 * t + 2] == prev[3 * t + 2]);
            } else {
                assert(fan(count, inverted)[3 * t] == tri[0]);
                assert(fan(count, inverted)[3 * t + 1] == tri[1]);
                assert(fan(count, inverted)[3 * t + 2] == tri[2]);
            }
        }
    }
}

/// A mesh with no faces is empty.
pub proof fn law_mesh_of_no_faces(inverted: bool)
    ensures
        mesh_vertices(Seq::<Seq<Vec3>>::empty()).len() == 0,
        mesh_indices(Seq::<Seq<Vec3>>::empty(), inverted).len() == 0,
{
}

/// Adding a face with fewer than three points leaves the mesh as it was; a
/// face with three or more points appends its own points, in order, as
/// `[x, y, z]` records and keeps the earlier vertices.
pub proof fn law_mesh_add_face_vertices(faces: Seq<Seq<Vec3>>, f: Seq<Vec3>)
    ensures
        f.len() < 3 ==> mesh_vertices(faces.push(f)) == mesh_vertices(faces),
        f.len() >= 3 ==> {
            let base = mesh_vertices(faces).len();
            &&& mesh_vertices(faces.push(f)).len() == base + f.len()
            &&& forall|k: int| 0 <= k < base ==> #[trigger] mesh_vertices(faces.push(f))[k] == mesh_vertices(faces)[k]
            &&& forall|i: int|
                0 <= i < f.len() ==> #[trigger] mesh_vertices(faces.push(f))[base + i] == [f[i].x, f[i].y, f[i].z]
        },
{
    assert(faces.push(f).drop_last() =~= faces);
    assert(faces.push(f).last() == f);
    if f.len() >= 3 {
        let base = mesh_vertices(faces).len();
        let added = f.map_values(|v: Vec3| vertex_record(v));
        assert forall|i: int| 0 <= i < f.len() implies #[trigger] mesh_vertices(faces.push(f))[base + i] == [
            f[i].x,
            f[i].y,
            f[i].z,
        ] by {
            assert(mesh_vertices(faces.push(f))[base + i] == added[i]);
        }
    }
}

/// Adding a face with fewer than three points adds no triangles; a face of
/// `n >= 3` points appends its `n - 2` fan triangles, each joining the face's
/// first vertex to two neighbouring ones, numbered from where the face's
/// vertices start, wound the other way on an inverted brush; earlier indices
/// stay.
pub proof fn law_mesh_add_face_indices(faces: Seq<Seq<Vec3>>, f: Seq<Vec3>, inverted: bool)
    requires
        mesh_vertices(faces).len() + f.len() <= u32::MAX,
    ensures
        f.len() < 3 ==> mesh_indices(faces.push(f), inverted) == mesh_indices(faces, inverted),
        f.len() >= 3 ==> {
            let base = mesh_vertices(faces).len();
            let start = mesh_indices(faces, inverted).len();
            &&& mesh_indices(faces.push(f), inverted).len() == start + 3 * (f.len() - 2)
            &&& forall|k: int|
                0 <= k < start ==> #[trigger] mesh_indices(faces.push(f), inverted)[k] == mesh_indices(
                    faces,
                    inverted,
                )[k]
            &&& forall|t: int|
                0 <= t < f.len() - 2 ==> {
                    &&& #[trigger] mesh_indices(faces.push(f), inverted)[start + 3 * t] == base
                    &&& mesh_indices(faces.push(f), inverted)[start + 3 * t + 1] == base + (if inverted {
                        t + 2
                    } else {
                        t + 1
                    })
                    &&& mesh_indices(faces.push(f), inverted)[start + 3 * t + 2] == base + (if inverted {
                        t + 1
                    } else {
                        t + 2
                    })
                }
        },
{
    assert(faces.push(f).drop_last() =~= faces);
    assert(faces.push(f).last() == f);
    if f.len() >= 3 {
        let base = mesh_vertices(faces).len();
        let start = mesh_indices(faces, inverted).len();
        let c = fan_size(f.len());
        law_fan_triangles(c, inverted);
        let added = fan(c, inverted).map_values(|i: u32| (i + base) as u32);
        let all = mesh_indices(faces.push(f), inverted);
        assert forall|t: int| 0 <= t < f.len() - 2 implies {
            &&& #[trigger] all[start + 3 * t] == base
            &&& all[start + 3 * t + 1] == base + (if inverted { t + 2 } else { t + 1 })
            &&& all[start + 3 * t + 2] == base + (if inverted { t + 1 } else { t + 2 })
        } by {
            assert(all[start + 3 * t] == added[3 * t]);
            assert(all[start + 3 * t + 1] == added[3 * t + 1]);
            assert(all[start + 3 * t + 2] == added[3 * t + 2]);
        }
    }
}

/// The vertices of the mesh of the first `p` faces come first in the mesh of
/// all the faces, unchanged.
pub proof fn law_mesh_vertices_grow(faces: Seq<Seq<Vec3>>, p: int)
    requires
        0 <= p <= faces.len(),
    ensures
        mesh_vertices(faces.take(p)).len() <= mesh_vertices(faces).len(),
        forall|k: int|
            0 <= k < mesh_vertices(faces.take(p)).len() ==> #[trigger] mesh_vertices(faces)[k]
                == mesh_vertices(faces.take(p))[k],
    decreases faces.len(),
{
    if p < faces.len() {
        let earlier = faces.drop_last();
        assert(earlier.take(p) =~= faces.take(p));
        law_mesh_vertices_grow(earlier, p);
        assert(faces =~= earlier.push(faces.last()));
        law_mesh_add_face_vertices(earlier, faces.last());
    } else {
        assert(faces.take(p) =~= faces);
    }
}

/// Each point of a face with at least three points is a vertex of the mesh:
/// point `i` of face `p` is the record `[x, y, z]` at position `base + i`,
/// where `base` counts the vertices of the faces before `p`.
pub proof fn law_face_points_are_mesh_vertices(faces: Seq<Seq<Vec3>>, p: int, i: int)
    requires
        0 <= p < faces.len(),
        faces[p].len() >= 3,
        0 <= i < faces[p].len(),
    ensures
        mesh_vertices(faces)[mesh_vertices(faces.take(p)).len() + i] == [faces[p][i].x, faces[p][i].y, faces[p][i].z],
{
    assert(faces.take(p + 1) =~= faces.take(p).push(faces[p]));
    law_mesh_add_face_vertices(faces.take(p), faces[p]);
    law_mesh_vertices_grow(faces, p + 1);
    let k = mesh_vertices(faces.take(p)).len() + i;
    assert(mesh_vertices(faces.take(p + 1))[k] == [faces[p][i].x, faces[p][i].y, faces[p][i].z]);
}

/// Builds one triangle list from the faces of a brush. `faces[i]` holds the
/// points of the brush that lie on its `i`-th plane, in order around the
/// plane's normal. Faces with fewer than three points are skipped; every other
/// face adds its points as vertices and its fan as triangles.
pub fn mesh_from_faces(faces: &Vec<Vec<Vec3>>, inverted: bool) -> (mesh: Mesh)
    requires
        mesh_vertices(face_views(faces@)).len() <= u32::MAX,
    ensures
        mesh.vertices@ == mesh_vertices(face_views(faces@)),
        mesh.indices@ == mesh_indices(face_views(faces@), inverted),
{
    let ghost all = face_views(faces@);
    let mut vertices: Vec<[u32; 3]> = Vec::new();
    let mut indices: Vec<u32> = Vec::new();
    let count = faces.len();
    let mut p: usize = 0;
    while p < count
        invariant
            count == faces@.len(),
            all == face_views(faces@),
            0 <= p <= count,
            mesh_vertices(all).len() <= u32::MAX,
            vertices@ == mesh_vertices(all.take(p as int)),
            indices@ == mesh_indices(all.take(p as int), inverted),
        decreases count - p,
    {
        let face = &faces[p];
        let ghost done = all.take(p as int);
        let ghost next = all.take(p + 1);
        proof {
            assert(next.drop_last() =~= done);
            assert(next.last() == face@);
            lemma_mesh_vertices_prefix(all, p + 1);
        }
        if face.len() >= 3 {
            let ghost v_before = vertices@;
            let ghost i_before = indices@;
            let base = vertices.len() as u32;
            let tris = triangulate(face.as_slice(), inverted);
            let n = face.len();
            let mut j: usize = 0;
            while j < n
                invariant
                    n == face@.len(),
                    0 <= j <= n,
                    vertices@ =~= v_before + face@.take(j as int).map_values(|v: Vec3| vertex_record(v)),
                decreases n - j,
            {
                let v = face[j];
                vertices.push([v.x, v.y, v.z]);
                assert(face@.take(j + 1) =~= face@.take(j as int).push(v));
                j = j + 1;
            }
            assert(face@.take(n as int) =~= face@);
            assert(vertices@ =~= mesh_vertices(next));
            let ghost offset = v_before.len();
            assert(base == offset);
            proof {
                lemma_fan_indices_in_range(fan_size(n as nat), inverted);
            }
            let m = tris.len();
            let mut k: usize = 0;
            while k < m
                invariant
                    m == tris@.len(),
                    0 <= k <= m,
                    base == offset,
                    offset + n <= u32::MAX,
                    tris@ == fan(fan_size(n as nat), inverted),
                    forall|q: int| 0 <= q < tris@.len() ==> #[trigger] tris@[q] < fan_size(n as nat) + 2,
                    fan_size(n as nat) + 2 == n,
                    indices@ =~= i_before + tris@.take(k as int).map_values(|i: u32| (i + offset) as u32),
                decreases m - k,
            {
                let idx = tris[k];
                assert(tris@[k as int] < n);
                indices.push(base + idx);
                assert(tris@.take(k + 1) =~= tris@.take(k as int).push(idx));
                k = k + 1;
            }
            assert(tris@.take(m as int) =~= tris@);
            assert(indices@ =~= mesh_indices(next, inverted));
        } else {
            assert(vertices@ =~= mesh_vertices(next));
            assert(indices@ =~= mesh_indices(next, inverted));
        }
        p = p + 1;
    }
    assert(all.take(count as int) =~= all);
    Mesh { vertices, indices }
}

} // verus!
