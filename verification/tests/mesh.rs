use muse::mesh::{cube_indices, cylinder_indices, plane_indices, quad_indices, sphere_indices};

#[test]
fn cube_indices_are_two_triangles_per_face() {
    let expected: Vec<u32> = vec![
        0, 1, 2, 0, 2, 3, 4, 5, 6, 4, 6, 7, 8, 9, 10, 8, 10, 11, 12, 13, 14, 12, 14, 15, 16, 17,
        18, 16, 18, 19, 20, 21, 22, 20, 22, 23,
    ];
    assert_eq!(cube_indices(), expected);
}

#[test]
fn plane_indices_cover_one_quad() {
    assert_eq!(plane_indices(), vec![0, 1, 2, 0, 2, 3]);
}

#[test]
fn quad_indices_of_zero_quads_is_empty() {
    assert!(quad_indices(0).is_empty());
}

#[test]
fn sphere_indices_follow_the_grid() {
    let r = sphere_indices(2);
    assert_eq!(r.len(), 24);
    assert_eq!(&r[0..6], &[0, 3, 1, 3, 4, 1]);
    assert_eq!(&r[6..12], &[1, 4, 2, 4, 5, 2]);
    assert_eq!(&r[12..18], &[3, 6, 4, 6, 7, 4]);
    assert_eq!(&r[18..24], &[4, 7, 5, 7, 8, 5]);
    assert!(sphere_indices(0).is_empty());
}

#[test]
fn sphere_indices_address_grid_vertices() {
    for s in [1u32, 3, 16, 31] {
        let r = sphere_indices(s);
        assert_eq!(r.len() as u32, 6 * s * s);
        let vertices = (s + 1) * (s + 1);
        assert!(r.iter().all(|&i| i < vertices));
    }
}

#[test]
fn cylinder_indices_pair_bottom_and_top() {
    let r = cylinder_indices(2);
    assert_eq!(r, vec![0, 2, 1, 1, 2, 3, 2, 4, 3, 3, 4, 5]);
    let r = cylinder_indices(32);
    assert!(r.iter().all(|&i| i < 2 * 33));
}
