use muse::batch::{IndirectDraw, MeshBatch};

#[test]
fn add_mesh_offsets_indices_and_records_draws() {
    let mut b: MeshBatch<char, u8> = MeshBatch::new();
    b.add_mesh(vec!['a', 'b', 'c'], vec![0, 1, 2], 10);
    b.add_mesh(vec!['d', 'e'], vec![1, 0, 1, 1], 20);
    assert_eq!(b.vertices_slice(), &['a', 'b', 'c', 'd', 'e']);
    assert_eq!(b.indices_slice(), &[0, 1, 2, 4, 3, 4, 4]);
    assert_eq!(b.instances_slice(), &[10, 20]);
    assert_eq!(
        b.draws_slice(),
        &[
            IndirectDraw { index_count: 3, instance_count: 1, first_index: 0, base_vertex: 0, first_instance: 0 },
            IndirectDraw { index_count: 4, instance_count: 1, first_index: 3, base_vertex: 0, first_instance: 1 },
        ]
    );
    assert_eq!(b.index_count(), 7);
}

#[test]
fn draws_tile_the_index_buffer() {
    let mut b: MeshBatch<u32, u32> = MeshBatch::new();
    for n in 1..6u32 {
        let verts: Vec<u32> = (0..n).collect();
        let idx: Vec<u32> = (0..n).rev().collect();
        b.add_mesh(verts, idx, n);
    }
    let mut next = 0u32;
    for (i, d) in b.draws_slice().iter().enumerate() {
        assert_eq!(d.first_index, next);
        assert_eq!(d.first_instance as usize, i);
        next = d.first_index + d.index_count;
    }
    assert_eq!(next as usize, b.index_count());
    let nv = b.vertices_slice().len() as u32;
    assert!(b.indices_slice().iter().all(|&i| i < nv));
}

#[test]
fn clear_drops_everything() {
    let mut b: MeshBatch<u8, u8> = MeshBatch::new();
    b.add_mesh(vec![1, 2, 3], vec![0, 1, 2], 0);
    b.clear();
    assert_eq!(b.index_count(), 0);
    assert!(b.vertices_slice().is_empty());
    assert!(b.instances_slice().is_empty());
    assert!(b.draws_slice().is_empty());
    b.add_mesh(vec![9], vec![0], 1);
    assert_eq!(b.draws_slice()[0].first_instance, 0);
    assert_eq!(b.draws_slice()[0].first_index, 0);
}
