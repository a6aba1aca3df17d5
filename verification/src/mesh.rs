//! Mesh fragments and the global mesh buffer.
//!
//! A fragment is a self-contained batch of triangle geometry with local
//! indices: every index points into the fragment's own vertex list. The
//! consumer merges fragments into one global buffer, re-basing each
//! fragment's indices by the vertex count accumulated so far.

use vstd::prelude::*;

verus! {

/// One mesh vertex: a true geographic position in micro-degrees and a packed
/// RGBA color. Projection onto the sphere is the renderer's concern.
#[derive(Clone, Copy, PartialEq, Eq, Structural, Debug)]
pub struct Vertex {
    pub lon_udeg: i64,
    pub lat_udeg: i64,
    pub color: u32,
}

/// A locally indexed batch of triangles produced by one tessellation call.
pub struct Fragment {
    pub vertices: Vec<Vertex>,
    pub indices: Vec<u32>,
}

impl Fragment {
    /// The fragment invariant: indices form whole triangles and stay inside
    /// the fragment's own vertex list.
    pub open spec fn wf(&self) -> bool {
        &&& self.indices@.len() % 3 == 0
        &&& forall|i: int|
            0 <= i < self.indices@.len() ==> (self.indices@[i] as int) < self.vertices@.len()
    }

    /// Whether the fragment indexes its vertices one by one, in order: index
    /// `i` is `i`. Fragments built by the tessellator have this shape.
    pub open spec fn identity_indexed(&self) -> bool {
        &&& self.indices@.len() == self.vertices@.len()
        &&& forall|i: int| 0 <= i < self.indices@.len() ==> self.indices@[i] as int == i
    }

    /// An empty fragment: no vertices, no indices.
    pub fn empty() -> (f: Fragment)
        ensures
            f.vertices@.len() == 0,
            f.indices@.len() == 0,
            f.wf(),
            f.identity_indexed(),
    {
        Fragment { vertices: Vec::new(), indices: Vec::new() }
    }
}

/// The renderer-owned accumulation of all merged fragments.
pub struct GlobalMesh {
    pub vertices: Vec<Vertex>,
    pub indices: Vec<u32>,
}

/// Sum of the vertex counts of the first `k` fragments.
pub open spec fn vertex_total(frags: Seq<Fragment>, k: int) -> int
    decreases k,
{
    if k <= 0 {
        0
    } else {
        vertex_total(frags, k - 1) + frags[k - 1].vertices@.len()
    }
}

/// Sum of the index counts of the first `k` fragments.
pub open spec fn index_total(frags: Seq<Fragment>, k: int) -> int
    decreases k,
{
    if k <= 0 {
        0
    } else {
        index_total(frags, k - 1) + frags[k - 1].indices@.len()
    }
}

impl GlobalMesh {
    /// The buffer invariant: indices form whole triangles and stay inside the
    /// accumulated vertex list.
    pub open spec fn wf(&self) -> bool {
        &&& self.indices@.len() % 3 == 0
        &&& forall|i: int|
            0 <= i < self.indices@.len() ==> (self.indices@[i] as int) < self.vertices@.len()
    }

    /// Whether the buffer indexes its vertices one by one, in order.
    pub open spec fn identity_indexed(&self) -> bool {
        &&& self.indices@.len() == self.vertices@.len()
        &&& forall|i: int| 0 <= i < self.indices@.len() ==> self.indices@[i] as int == i
    }

    /// A fresh, empty global mesh.
    pub fn new() -> (m: GlobalMesh)
        ensures
            m.vertices@.len() == 0,
            m.indices@.len() == 0,
            m.wf(),
            m.identity_indexed(),
    {
        GlobalMesh { vertices: Vec::new(), indices: Vec::new() }
    }

    /// Merges one fragment: appends its vertices, and appends its indices
    /// re-based by the vertex count accumulated before the merge.
    pub fn merge(&mut self, frag: &Fragment)
        requires
            old(self).wf(),
            frag.wf(),
            old(self).vertices@.len() + frag.vertices@.len() <= u32::MAX,
        ensures
            final(self).vertices@ == old(self).vertices@ + frag.vertices@,
            final(self).indices@.len() == old(self).indices@.len() + frag.indices@.len(),
            forall|i: int|
                0 <= i < old(self).indices@.len() ==> final(self).indices@[i]
                    == old(self).indices@[i],
            forall|j: int|
                0 <= j < frag.indices@.len() ==> final(self).indices@[old(self).indices@.len()
                    + j] as int == frag.indices@[j] + old(self).vertices@.len(),
            final(self).wf(),
            old(self).identity_indexed() && frag.identity_indexed()
                ==> final(self).identity_indexed(),
    {
        let base = self.vertices.len() as u32;
        let mut k: usize = 0;
        while k < frag.vertices.len()
            invariant
                k <= frag.vertices@.len(),
                self.vertices@ == old(self).vertices@ + frag.vertices@.take(k as int),
                self.indices@ == old(self).indices@,
            decreases frag.vertices@.len() - k,
        {
            self.vertices.push(frag.vertices[k]);
            assert(self.vertices@ == old(self).vertices@ + frag.vertices@.take(k + 1int));
            k = k + 1;
        }
        assert(frag.vertices@.take(frag.vertices@.len() as int) == frag.vertices@);
        let mut j: usize = 0;
        while j < frag.indices.len()
            invariant
                old(self).wf(),
                frag.wf(),
                base as int == old(self).vertices@.len(),
                old(self).vertices@.len() + frag.vertices@.len() <= u32::MAX,
                j <= frag.indices@.len(),
                self.vertices@ == old(self).vertices@ + frag.vertices@,
                self.indices@.len() == old(self).indices@.len() + j,
                forall|i: int|
                    0 <= i < old(self).indices@.len() ==> self.indices@[i] == old(
                        self,
                    ).indices@[i],
                forall|i: int|
                    0 <= i < j ==> self.indices@[old(self).indices@.len() + i] as int
                        == frag.indices@[i] + old(self).vertices@.len(),
            decreases frag.indices@.len() - j,
        {
            assert((frag.indices@[j as int] as int) < frag.vertices@.len());
            self.indices.push(frag.indices[j] + base);
            j = j + 1;
        }
        assert forall|i: int| 0 <= i < self.indices@.len() implies (self.indices@[i] as int)
            < self.vertices@.len() by {
            if i < old(self).indices@.len() {
                assert((old(self).indices@[i] as int) < old(self).vertices@.len());
            } else {
                let d = i - old(self).indices@.len();
                assert(self.indices@[old(self).indices@.len() + d] as int == frag.indices@[d]
                    + old(self).vertices@.len());
                assert((frag.indices@[d] as int) < frag.vertices@.len());
            }
        }
        assert(self.indices@.len() % 3 == 0) by {
            assert(old(self).indices@.len() % 3 == 0);
            assert(frag.indices@.len() % 3 == 0);
        }
        proof {
            if old(self).identity_indexed() && frag.identity_indexed() {
                assert forall|i: int| 0 <= i < self.indices@.len() implies self.indices@[i] as int
                    == i by {
                    if i < old(self).indices@.len() {
                        assert(self.indices@[i] == old(self).indices@[i]);
                    } else {
                        let d = i - old(self).indices@.len();
                        assert(self.indices@[old(self).indices@.len() + d] as int
                            == frag.indices@[d] + old(self).vertices@.len());
                    }
                }
            }
        }
    }
}

/// Merges a whole list of fragments into a fresh global mesh.
///
/// This states the merge law: merging fragments with vertex counts
/// `v1..vN` yields a buffer with `v1 + .. + vN` vertices, every merged index
/// below that total, and — when each fragment indexes its own vertices in
/// order — the merged buffer does so too, so no index repeats.
pub fn merge_fragments(frags: &Vec<Fragment>) -> (m: GlobalMesh)
    requires
        forall|i: int| 0 <= i < frags@.len() ==> frags@[i].wf(),
        vertex_total(frags@, frags@.len() as int) <= u32::MAX,
    ensures
        m.vertices@.len() == vertex_total(frags@, frags@.len() as int),
        m.indices@.len() == index_total(frags@, frags@.len() as int),
        m.wf(),
        forall|i: int|
            0 <= i < m.indices@.len() ==> (m.indices@[i] as int) < vertex_total(
                frags@,
                frags@.len() as int,
            ),
        (forall|i: int| 0 <= i < frags@.len() ==> frags@[i].identity_indexed())
            ==> m.identity_indexed(),
{
    let mut m = GlobalMesh::new();
    let mut k: usize = 0;
    while k < frags.len()
        invariant
            forall|i: int| 0 <= i < frags@.len() ==> frags@[i].wf(),
            vertex_total(frags@, frags@.len() as int) <= u32::MAX,
            k <= frags@.len(),
            m.vertices@.len() == vertex_total(frags@, k as int),
            m.indices@.len() == index_total(frags@, k as int),
            m.wf(),
            (forall|i: int| 0 <= i < frags@.len() ==> frags@[i].identity_indexed())
                ==> m.identity_indexed(),
        decreases frags@.len() - k,
    {
        proof {
            lemma_vertex_total_mono(frags@, k + 1int, frags@.len() as int);
        }
        m.merge(&frags[k]);
        k = k + 1;
    }
    m
}

/// The running vertex total never shrinks as more fragments are counted.
proof fn lemma_vertex_total_mono(frags: Seq<Fragment>, k: int, n: int)
    requires
        0 <= k <= n <= frags.len(),
    ensures
        vertex_total(frags, k) <= vertex_total(frags, n),
    decreases n - k,
{
    if k < n {
        lemma_vertex_total_mono(frags, k, n - 1);
    }
}

} // verus!
