use vstd::prelude::*;

verus! {

/// The six corners, in order, of the two triangles (0, 1, 2) and (0, 2, 3)
/// that cover a quad whose corners are numbered 0 to 3.
pub open spec fn quad_corner(c: int) -> int {
    if c == 0 {
        0
    } else if c == 1 {
        1
    } else if c == 2 {
        2
    } else if c == 3 {
        0
    } else if c == 4 {
        2
    } else {
        3
    }
}

/// Index `i` of a list of quads whose corners are stored four by four.
pub open spec fn quad_index(i: int) -> int {
    4 * (i / 6) + quad_corner(i % 6)
}

/// Index `k` of the sphere grid with `s` segments: cell `k / 6` is the cell at
/// row `lat` and column `lon` of the `(s + 1) x (s + 1)` vertex grid, drawn as
/// the triangles (first, second, first + 1) and (second, second + 1, first + 1).
pub open spec fn sphere_index(s: int, k: int) -> int {
    let cell = k / 6;
    let lat = cell / s;
    let lon = cell % s;
    let first = lat * (s + 1) + lon;
    let second = first + s + 1;
    let c = k % 6;
    if c == 0 {
        first
    } else if c == 1 {
        second
    } else if c == 2 {
        first + 1
    } else if c == 3 {
        second
    } else if c == 4 {
        second + 1
    } else {
        first + 1
    }
}

/// Index `k` of the cylinder side with vertices stored bottom/top in pairs:
/// segment `k / 6` is drawn as the triangles (a, c, b) and (b, c, d).
pub open spec fn cylinder_index(k: int) -> int {
    let i = k / 6;
    let a = 2 * i;
    let b = a + 1;
    let c = 2 * (i + 1);
    let d = c + 1;
    let j = k % 6;
    if j == 0 {
        a
    } else if j == 1 {
        c
    } else if j == 2 {
        b
    } else if j == 3 {
        b
    } else if j == 4 {
        c
    } else {
        d
    }
}

/// Vertices of a sphere with `s` segments: an `(s + 1) x (s + 1)` grid.
pub open spec fn sphere_vertex_count(s: int) -> int {
    (s + 1) * (s + 1)
}

/// Vertices of a cylinder with `s` segments: a bottom and a top vertex per
/// grid column, `s + 1` columns.
pub open spec fn cylinder_vertex_count(s: int) -> int {
    2 * (s + 1)
}

proof fn lemma_div_mod_6(cell: int, c: int)
    requires
        0 <= cell,
        0 <= c < 6,
    ensures
        (6 * cell + c) / 6 == cell,
        (6 * cell + c) % 6 == c,
{
    vstd::arithmetic::div_mod::lemma_fundamental_div_mod_converse(6 * cell + c, 6, cell, c);
}

proof fn lemma_cell(s: int, lat: int, lon: int)
    requires
        0 < s,
        0 <= lat,
        0 <= lon < s,
    ensures
        (lat * s + lon) / s == lat,
        (lat * s + lon) % s == lon,
{
    vstd::arithmetic::div_mod::lemma_fundamental_div_mod_converse(lat * s + lon, s, lat, lon);
}

/// Indices of `quads` quads stored four corners each: two triangles per quad.
pub fn quad_indices(quads: u32) -> (r: Vec<u32>)
    requires
        6 * quads <= usize::MAX,
        4 * quads <= u32::MAX,
    ensures
        r@.len() == 6 * quads,
        forall|i: int| 0 <= i < r@.len() ==> #[trigger] r@[i] == quad_index(i),
{
    let mut out: Vec<u32> = Vec::new();
    let mut q: u32 = 0;
    while q < quads
        invariant
            q <= quads,
            6 * quads <= usize::MAX,
            4 * quads <= u32::MAX,
            out@.len() == 6 * q,
            forall|i: int| 0 <= i < out@.len() ==> #[trigger] out@[i] == quad_index(i),
        decreases quads - q,
    {
        let base = 4 * q;
        let ghost start = out@.len() as int;
        out.push(base);
        out.push(base + 1);
        out.push(base + 2);
        out.push(base);
        out.push(base + 2);
        out.push(base + 3);
        proof {
            assert forall|i: int| 0 <= i < out@.len() implies #[trigger] out@[i] == quad_index(i) by {
                if i >= start {
                    lemma_div_mod_6(q as int, i - start);
                }
            }
        }
        q = q + 1;
    }
    out
}

/// Indices of the cube: six faces of four corners each.
pub fn cube_indices() -> (r: Vec<u32>)
    ensures
        r@.len() == 36,
        forall|i: int| 0 <= i < 36 ==> #[trigger] r@[i] == quad_index(i),
{
    quad_indices(6)
}

/// Indices of the plane: one quad.
pub fn plane_indices() -> (r: Vec<u32>)
    ensures
        r@ == seq![0u32, 1, 2, 0, 2, 3],
{
    let r = quad_indices(1);
    proof {
        assert forall|i: int| 0 <= i < 6 implies #[trigger] r@[i] == seq![0u32, 1, 2, 0, 2, 3][i] by {
            lemma_div_mod_6(0, i);
        }
        assert(r@ =~= seq![0u32, 1, 2, 0, 2, 3]);
    }
    r
}

/// Indices of a sphere with `segments` segments: two triangles for each cell
/// of the latitude/longitude grid, row by row.
pub fn sphere_indices(segments: u32) -> (r: Vec<u32>)
    requires
        6 * segments * segments <= usize::MAX,
        sphere_vertex_count(segments as int) <= u32::MAX + 1,
    ensures
        r@.len() == 6 * segments * segments,
        forall|k: int| 0 <= k < r@.len() ==> #[trigger] r@[k] == sphere_index(segments as int, k),
{
    let s = segments;
    let ghost si = s as int;
    let mut out: Vec<u32> = Vec::new();
    let mut lat: u32 = 0;
    while lat < s
        invariant
            lat <= s,
            si == s,
            6 * si * si <= usize::MAX,
            (si + 1) * (si + 1) <= u32::MAX + 1,
            out@.len() == 6 * (lat * si),
            forall|k: int| 0 <= k < out@.len() ==> #[trigger] out@[k] == sphere_index(si, k),
        decreases s - lat,
    {
        let mut lon: u32 = 0;
        while lon < s
            invariant
                lat < s,
                lon <= s,
                si == s,
                6 * si * si <= usize::MAX,
                (si + 1) * (si + 1) <= u32::MAX + 1,
                out@.len() == 6 * (lat * si + lon),
                forall|k: int| 0 <= k < out@.len() ==> #[trigger] out@[k] == sphere_index(si, k),
            decreases s - lon,
        {
            proof {
                assert(lat * (si + 1) + lon + si + 2 < (si + 1) * (si + 1)) by (nonlinear_arith)
                    requires
                        0 <= lat < si,
                        0 <= lon < si,
                ;
                assert(6 * (lat * si + lon) + 6 <= 6 * si * si) by (nonlinear_arith)
                    requires
                        0 <= lat < si,
                        0 <= lon < si,
                ;
            }
            let first = lat * (s + 1) + lon;
            let second = first + s + 1;
            let ghost start = out@.len() as int;
            let ghost cell = lat * si + lon;
            out.push(first);
            out.push(second);
            out.push(first + 1);
            out.push(second);
            out.push(second + 1);
            out.push(first + 1);
            proof {
                lemma_cell(si, lat as int, lon as int);
                assert forall|k: int| 0 <= k < out@.len() implies #[trigger] out@[k] == sphere_index(
                    si,
                    k,
                ) by {
                    if k >= start {
                        lemma_div_mod_6(cell, k - start);
                    }
                }
                assert(out@.len() == 6 * (lat * si + lon + 1));
            }
            lon = lon + 1;
        }
        proof {
            assert(6 * (lat * si + si) == 6 * ((lat + 1) * si)) by (nonlinear_arith);
        }
        lat = lat + 1;
    }
    proof {
        assert(6 * (si * si) == 6 * si * si) by (nonlinear_arith);
    }
    out
}

/// Indices of the side of a cylinder with `segments` segments: two triangles
/// per segment between the bottom and top rings.
pub fn cylinder_indices(segments: u32) -> (r: Vec<u32>)
    requires
        6 * segments <= usize::MAX,
        cylinder_vertex_count(segments as int) <= u32::MAX + 1,
    ensures
        r@.len() == 6 * segments,
        forall|k: int| 0 <= k < r@.len() ==> #[trigger] r@[k] == cylinder_index(k),
{
    let mut out: Vec<u32> = Vec::new();
    let mut i: u32 = 0;
    while i < segments
        invariant
            i <= segments,
            6 * segments <= usize::MAX,
            2 * (segments + 1) <= u32::MAX + 1,
            out@.len() == 6 * i,
            forall|k: int| 0 <= k < out@.len() ==> #[trigger] out@[k] == cylinder_index(k),
        decreases segments - i,
    {
        let a = i * 2;
        let b = a + 1;
        let c = (i + 1) * 2;
        let d = c + 1;
        let ghost start = out@.len() as int;
        out.push(a);
        out.push(c);
        out.push(b);
        out.push(b);
        out.push(c);
        out.push(d);
        proof {
            assert forall|k: int| 0 <= k < out@.len() implies #[trigger] out@[k] == cylinder_index(k) by {
                if k >= start {
                    lemma_div_mod_6(i as int, k - start);
                }
            }
        }
        i = i + 1;
    }
    out
}

/// Every index of a sphere refers to one of its `(s + 1)^2` vertices.
pub proof fn lemma_sphere_indices_in_range(s: int, k: int)
    requires
        0 < s,
        0 <= k < 6 * s * s,
    ensures
        0 <= sphere_index(s, k) < sphere_vertex_count(s),
{
    let cell = k / 6;
    assert(0 <= cell < s * s) by {
        vstd::arithmetic::div_mod::lemma_div_pos_is_pos(k, 6);
        vstd::arithmetic::div_mod::lemma_fundamental_div_mod(k, 6);
        assert(6 * cell <= k) by {
            vstd::arithmetic::div_mod::lemma_mod_bound(k, 6);
        }
        assert(cell < s * s) by (nonlinear_arith)
            requires
                6 * cell <= k,
                k < 6 * s * s,
        ;
    }
    let lat = cell / s;
    let lon = cell % s;
    assert(0 <= lat < s && 0 <= lon < s) by {
        vstd::arithmetic::div_mod::lemma_fundamental_div_mod(cell, s);
        vstd::arithmetic::div_mod::lemma_mod_bound(cell, s);
        vstd::arithmetic::div_mod::lemma_div_pos_is_pos(cell, s);
        assert(lat < s) by (nonlinear_arith)
            requires
                cell == s * lat + lon,
                0 <= lon,
                cell < s * s,
                0 < s,
        ;
    }
    assert(0 <= lat * (s + 1) + lon + s + 1 + 1 < (s + 1) * (s + 1)) by (nonlinear_arith)
        requires
            0 <= lat < s,
            0 <= lon < s,
    ;
    vstd::arithmetic::div_mod::lemma_mod_bound(k, 6);
}

/// Every index of a cylinder side refers to one of its `2 (s + 1)` vertices.
pub proof fn lemma_cylinder_indices_in_range(s: int, k: int)
    requires
        0 < s,
        0 <= k < 6 * s,
    ensures
        0 <= cylinder_index(k) < cylinder_vertex_count(s),
{
    vstd::arithmetic::div_mod::lemma_fundamental_div_mod(k, 6);
    vstd::arithmetic::div_mod::lemma_mod_bound(k, 6);
    vstd::arithmetic::div_mod::lemma_div_pos_is_pos(k, 6);
}

/// Every index of a list of quads refers to one of its four corners per quad.
pub proof fn lemma_quad_indices_in_range(quads: int, i: int)
    requires
        0 <= i < 6 * quads,
    ensures
        0 <= quad_index(i) < 4 * quads,
{
    vstd::arithmetic::div_mod::lemma_fundamental_div_mod(i, 6);
    vstd::arithmetic::div_mod::lemma_mod_bound(i, 6);
    vstd::arithmetic::div_mod::lemma_div_pos_is_pos(i, 6);
}

/// The two triangles of quad `q` of a quad list are (4q, 4q+1, 4q+2) and
/// (4q, 4q+2, 4q+3): its own four corners, counter-clockwise, sharing the
/// diagonal from corner 0 to corner 2.
pub proof fn law_quad_triangles(q: int)
    requires
        0 <= q,
    ensures
        quad_index(6 * q) == 4 * q,
        quad_index(6 * q + 1) == 4 * q + 1,
        quad_index(6 * q + 2) == 4 * q + 2,
        quad_index(6 * q + 3) == 4 * q,
        quad_index(6 * q + 4) == 4 * q + 2,
        quad_index(6 * q + 5) == 4 * q + 3,
{
    lemma_div_mod_6(q, 0);
    lemma_div_mod_6(q, 1);
    lemma_div_mod_6(q, 2);
    lemma_div_mod_6(q, 3);
    lemma_div_mod_6(q, 4);
    lemma_div_mod_6(q, 5);
}

/// The two triangles of the sphere cell at row `lat` and column `lon` join
/// the four grid points around it, where grid point (row, column) is vertex
/// `row * (s + 1) + column`: (lat, lon), (lat + 1, lon), (lat, lon + 1) and
/// (lat + 1, lon), (lat + 1, lon + 1), (lat, lon + 1).
pub proof fn law_sphere_cell_triangles(s: int, lat: int, lon: int)
    requires
        0 < s,
        0 <= lat < s,
        0 <= lon < s,
    ensures
        sphere_index(s, 6 * (lat * s + lon)) == lat * (s + 1) + lon,
        sphere_index(s, 6 * (lat * s + lon) + 1) == (lat + 1) * (s + 1) + lon,
        sphere_index(s, 6 * (lat * s + lon) + 2) == lat * (s + 1) + (lon + 1),
        sphere_index(s, 6 * (lat * s + lon) + 3) == (lat + 1) * (s + 1) + lon,
        sphere_index(s, 6 * (lat * s + lon) + 4) == (lat + 1) * (s + 1) + (lon + 1),
        sphere_index(s, 6 * (lat * s + lon) + 5) == lat * (s + 1) + (lon + 1),
{
    let cell = lat * s + lon;
    assert(0 <= cell) by (nonlinear_arith)
        requires
            cell == lat * s + lon,
            0 <= lat,
            0 <= lon,
            0 < s,
    ;
    lemma_cell(s, lat, lon);
    lemma_div_mod_6(cell, 0);
    lemma_div_mod_6(cell, 1);
    lemma_div_mod_6(cell, 2);
    lemma_div_mod_6(cell, 3);
    lemma_div_mod_6(cell, 4);
    lemma_div_mod_6(cell, 5);
    assert((lat + 1) * (s + 1) == lat * (s + 1) + s + 1) by (nonlinear_arith);
}

/// The two triangles of side segment `i` of a cylinder join its bottom and
/// top vertices (2i, 2i + 1) with those of the next column (2i + 2, 2i + 3):
/// (2i, 2i + 2, 2i + 1) and (2i + 1, 2i + 2, 2i + 3); no triangle repeats a
/// vertex.
pub proof fn law_cylinder_segment_triangles(i: int)
    requires
        0 <= i,
    ensures
        cylinder_index(6 * i) == 2 * i,
        cylinder_index(6 * i + 1) == 2 * i + 2,
        cylinder_index(6 * i + 2) == 2 * i + 1,
        cylinder_index(6 * i + 3) == 2 * i + 1,
        cylinder_index(6 * i + 4) == 2 * i + 2,
        cylinder_index(6 * i + 5) == 2 * i + 3,
{
    lemma_div_mod_6(i, 0);
    lemma_div_mod_6(i, 1);
    lemma_div_mod_6(i, 2);
    lemma_div_mod_6(i, 3);
    lemma_div_mod_6(i, 4);
    lemma_div_mod_6(i, 5);
}

} // verus!
