use vstd::prelude::*;

verus! {

/// One indexed draw of a batch: `index_count` indices from `first_index` of the
/// index buffer, `instance_count` instances from `first_instance`.
#[derive(Clone, Copy, Debug, PartialEq, Eq)]
pub struct IndirectDraw {
    pub index_count: u32,
    pub instance_count: u32,
    pub first_index: u32,
    pub base_vertex: i32,
    pub first_instance: u32,
}

/// Meshes gathered for one frame: all vertices in one buffer, all indices in
/// one buffer (already offset to address the shared vertex buffer), one
/// instance per mesh, and one draw per mesh.
pub struct MeshBatch<V, I> {
    pending_vertices: Vec<V>,
    pending_indices: Vec<u32>,
    pending_instances: Vec<I>,
    pending_indirect: Vec<IndirectDraw>,
}

/// The draw that mesh number `n` of a batch gets, when its `count` indices
/// start at `first` in the index buffer.
pub open spec fn draw_for(n: int, first: int, count: int) -> IndirectDraw {
    IndirectDraw {
        index_count: count as u32,
        instance_count: 1,
        first_index: first as u32,
        base_vertex: 0,
        first_instance: n as u32,
    }
}

/// Where draw `d` ends in the index buffer.
pub open spec fn draw_end(d: IndirectDraw) -> int {
    d.first_index + d.index_count
}

/// How many indices the first `n` draws read together.
pub open spec fn indices_before(ds: Seq<IndirectDraw>, n: int) -> int
    decreases n,
{
    if n <= 0 {
        0
    } else {
        indices_before(ds, n - 1) + ds[n - 1].index_count
    }
}

/// Appending a draw leaves the counts before the earlier draws alone.
proof fn lemma_indices_before_push(ds: Seq<IndirectDraw>, x: IndirectDraw, n: int)
    requires
        0 <= n <= ds.len(),
    ensures
        indices_before(ds.push(x), n) == indices_before(ds, n),
    decreases n,
{
    if n > 0 {
        lemma_indices_before_push(ds, x, n - 1);
        assert(ds.push(x)[n - 1] == ds[n - 1]);
    }
}

/// The counts grow with the number of draws.
proof fn lemma_indices_before_monotone(ds: Seq<IndirectDraw>, m: int, n: int)
    requires
        0 <= m <= n,
    ensures
        indices_before(ds, m) <= indices_before(ds, n),
    decreases n - m,
{
    if m < n {
        lemma_indices_before_monotone(ds, m, n - 1);
    }
}

/// `indices` shifted up by `offset`.
pub open spec fn shifted(indices: Seq<u32>, offset: int) -> Seq<u32> {
    Seq::new(indices.len(), |i: int| (indices[i] + offset) as u32)
}

/// Shifting adds the offset to every index (where the sum fits a `u32`).
pub proof fn law_shifted_adds_offset(indices: Seq<u32>, offset: int, i: int)
    requires
        0 <= i < indices.len(),
        0 <= indices[i] + offset <= u32::MAX,
    ensures
        shifted(indices, offset).len() == indices.len(),
        shifted(indices, offset)[i] == indices[i] + offset,
{
}

impl<V, I> MeshBatch<V, I> {
    pub closed spec fn vertices(&self) -> Seq<V> {
        self.pending_vertices@
    }

    pub closed spec fn indices(&self) -> Seq<u32> {
        self.pending_indices@
    }

    pub closed spec fn instances(&self) -> Seq<I> {
        self.pending_instances@
    }

    pub closed spec fn draws(&self) -> Seq<IndirectDraw> {
        self.pending_indirect@
    }

    /// The draws cover the index buffer from its start, one after another and
    /// without gaps, one draw per instance; everything fits `u32` counts.
    pub open spec fn wf(&self) -> bool {
        let ds = self.draws();
        &&& ds.len() == self.instances().len()
        &&& self.indices().len() <= u32::MAX
        &&& self.vertices().len() <= u32::MAX
        &&& forall|d: int|
            #![trigger ds[d]]
            0 <= d < ds.len() ==> {
                &&& ds[d].instance_count == 1
                &&& ds[d].base_vertex == 0
                &&& ds[d].first_instance == d
                &&& ds[d].first_index == indices_before(ds, d)
            }
        &&& self.indices().len() == indices_before(ds, ds.len() as int)
    }

    /// Every index addresses a vertex of the batch.
    pub open spec fn indices_address_vertices(&self) -> bool {
        forall|i: int|
            0 <= i < self.indices().len() ==> #[trigger] self.indices()[i] < self.vertices().len()
    }

    pub fn new() -> (b: Self)
        ensures
            b.wf(),
            b.vertices().len() == 0,
            b.indices().len() == 0,
            b.instances().len() == 0,
            b.draws().len() == 0,
    {
        MeshBatch {
            pending_vertices: Vec::new(),
            pending_indices: Vec::new(),
            pending_instances: Vec::new(),
            pending_indirect: Vec::new(),
        }
    }

    /// Appends a mesh: its vertices go after those already gathered, its
    /// indices are shifted by the number of vertices gathered before it, and
    /// it gets one instance and one draw over its own indices.
    pub fn add_mesh(&mut self, vertices: Vec<V>, indices: Vec<u32>, instance: I)
        requires
            old(self).wf(),
            old(self).vertices().len() + vertices@.len() <= u32::MAX,
            old(self).indices().len() + indices@.len() <= u32::MAX,
            old(self).instances().len() < u32::MAX,
            forall|i: int|
                0 <= i < indices@.len() ==> #[trigger] indices@[i] + old(self).vertices().len()
                    <= u32::MAX,
        ensures
            final(self).wf(),
            final(self).vertices() == old(self).vertices() + vertices@,
            final(self).indices() == old(self).indices() + shifted(
                indices@,
                old(self).vertices().len() as int,
            ),
            final(self).instances() == old(self).instances().push(instance),
            final(self).draws() == old(self).draws().push(
                draw_for(
                    old(self).instances().len() as int,
                    old(self).indices().len() as int,
                    indices@.len() as int,
                ),
            ),
            old(self).indices_address_vertices() && (forall|i: int|
                0 <= i < indices@.len() ==> #[trigger] indices@[i] < vertices@.len())
                ==> final(self).indices_address_vertices(),
            final(self).vertices().len() == old(self).vertices().len() + vertices@.len(),
            final(self).indices().len() == old(self).indices().len() + indices@.len(),
            forall|i: int|
                0 <= i < old(self).indices().len() ==> #[trigger] final(self).indices()[i] == old(self).indices()[i],
            final(self).draws().last().first_index == old(self).indices().len(),
            final(self).draws().last().index_count == indices@.len(),
            final(self).draws().last().first_instance == old(self).instances().len(),
            final(self).draws().last().instance_count == 1,
            final(self).instances().last() == instance,
            forall|i: int|
                #![trigger indices@[i]]
                0 <= i < indices@.len() ==> final(self).indices()[old(self).indices().len() + i] == indices@[i]
                    + old(self).vertices().len(),
            forall|i: int|
                #![trigger indices@[i]]
                0 <= i < indices@.len() && indices@[i] < vertices@.len()
                    ==> final(self).vertices()[final(self).indices()[old(self).indices().len() + i] as int]
                    == vertices@[indices@[i] as int],
    {
        let vertex_offset = self.pending_vertices.len() as u32;
        let index_offset = self.pending_indices.len() as u32;
        let ghost old_indices = self.pending_indices@;
        let ghost new_vertices = vertices@;
        let mut vertices = vertices;
        self.pending_vertices.append(&mut vertices);
        let n = indices.len();
        let mut i: usize = 0;
        while i < n
            invariant
                n == indices@.len(),
                i <= n,
                vertex_offset == old(self).vertices().len(),
                index_offset == old(self).indices().len(),
                self.pending_vertices@ == old(self).vertices() + new_vertices,
                self.pending_instances@ == old(self).instances(),
                self.pending_indirect@ == old(self).draws(),
                forall|j: int|
                    0 <= j < indices@.len() ==> #[trigger] indices@[j] + vertex_offset <= u32::MAX,
                self.pending_indices@ == old_indices + shifted(indices@, vertex_offset as int).take(
                    i as int,
                ),
            decreases n - i,
        {
            self.pending_indices.push(indices[i] + vertex_offset);
            proof {
                assert(shifted(indices@, vertex_offset as int).take(i + 1) =~= shifted(
                    indices@,
                    vertex_offset as int,
                ).take(i as int).push((indices@[i as int] + vertex_offset) as u32));
            }
            i = i + 1;
        }
        proof {
            assert(shifted(indices@, vertex_offset as int).take(n as int) =~= shifted(
                indices@,
                vertex_offset as int,
            ));
        }
        self.pending_instances.push(instance);
        let first_instance = (self.pending_instances.len() - 1) as u32;
        self.pending_indirect.push(
            IndirectDraw {
                index_count: n as u32,
                instance_count: 1,
                first_index: index_offset,
                base_vertex: 0,
                first_instance,
            },
        );
        proof {
            let ds = self.pending_indirect@;
            let ods = old(self).draws();
            assert(ds == ods.push(ds.last()));
            assert forall|d: int|
                #![trigger ds[d]]
                0 <= d < ds.len() implies {
                &&& ds[d].instance_count == 1
                &&& ds[d].base_vertex == 0
                &&& ds[d].first_instance == d
                &&& ds[d].first_index == indices_before(ds, d)
            } by {
                lemma_indices_before_push(ods, ds.last(), d);
                if d < ods.len() {
                    assert(ds[d] == ods[d]);
                }
            }
            lemma_indices_before_push(ods, ds.last(), ods.len() as int);
            assert(indices_before(ds, ds.len() as int) == indices_before(ds, ods.len() as int)
                + ds[ods.len() as int].index_count);
            if old(self).indices_address_vertices() && (forall|i: int|
                0 <= i < indices@.len() ==> #[trigger] indices@[i] < vertices@.len()) {
                assert forall|i: int| 0 <= i < self.indices().len() implies #[trigger] self.indices()[i]
                    < self.vertices().len() by {
                    if i >= old_indices.len() {
                        assert(self.indices()[i] == (indices@[i - old_indices.len()] + vertex_offset) as u32);
                    } else {
                        assert(self.indices()[i] == old_indices[i]);
                    }
                }
            }
        }
    }

    /// Drops everything gathered.
    pub fn clear(&mut self)
        ensures
            final(self).wf(),
            final(self).vertices().len() == 0,
            final(self).indices().len() == 0,
            final(self).instances().len() == 0,
            final(self).draws().len() == 0,
    {
        self.pending_vertices.clear();
        self.pending_indices.clear();
        self.pending_instances.clear();
        self.pending_indirect.clear();
    }

    pub fn vertices_slice(&self) -> (r: &[V])
        ensures
            r@ == self.vertices(),
    {
        self.pending_vertices.as_slice()
    }

    pub fn indices_slice(&self) -> (r: &[u32])
        ensures
            r@ == self.indices(),
    {
        self.pending_indices.as_slice()
    }

    pub fn instances_slice(&self) -> (r: &[I])
        ensures
            r@ == self.instances(),
    {
        self.pending_instances.as_slice()
    }

    pub fn draws_slice(&self) -> (r: &[IndirectDraw])
        ensures
            r@ == self.draws(),
    {
        self.pending_indirect.as_slice()
    }

    /// Number of indices gathered.
    pub fn index_count(&self) -> (n: usize)
        ensures
            n == self.indices().len(),
    {
        self.pending_indices.len()
    }
}

/// In a well-formed batch every draw reads a range inside the index buffer,
/// the draws do not overlap, and each draws exactly its own instance.
pub proof fn lemma_draws_in_bounds<V, I>(b: MeshBatch<V, I>, d: int)
    requires
        b.wf(),
        0 <= d < b.draws().len(),
    ensures
        draw_end(b.draws()[d]) <= b.indices().len(),
        forall|e: int| 0 <= e < d ==> draw_end(#[trigger] b.draws()[e]) <= b.draws()[d].first_index,
        b.draws()[d].first_instance < b.instances().len(),
        b.draws()[d].first_instance + b.draws()[d].instance_count <= b.instances().len(),
{
    let ds = b.draws();
    assert(ds[d] == ds[d]);
    assert(indices_before(ds, d + 1) == indices_before(ds, d) + ds[d].index_count);
    lemma_indices_before_monotone(ds, d + 1, ds.len() as int);
    assert forall|e: int| 0 <= e < d implies draw_end(#[trigger] ds[e]) <= ds[d].first_index by {
        assert(indices_before(ds, e + 1) == indices_before(ds, e) + ds[e].index_count);
        lemma_indices_before_monotone(ds, e + 1, d);
    }
}

} // verus!
