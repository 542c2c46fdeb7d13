//! Index buffers for glyph quads.
//!
//! Every back-end draws a glyph as a quad of four vertices, listed in the order
//! top-right, bottom-right, bottom-left, top-left, and covers it with the two
//! triangles (0, 1, 3) and (1, 2, 3).
use vstd::prelude::*;

verus! {

/// Offset, inside its quad, of the `k`-th of the six indices that cover a quad.
pub open spec fn quad_corner(k: int) -> int {
    if k == 0 {
        0
    } else if k == 1 {
        1
    } else if k == 2 {
        3
    } else if k == 3 {
        1
    } else if k == 4 {
        2
    } else {
        3
    }
}

/// The `i`-th entry of the index buffer of a run of quads whose vertices are
/// stored one quad after the other, starting at vertex `base`.
pub open spec fn quad_index(base: int, i: int) -> int {
    base + 4 * (i / 6) + quad_corner(i % 6)
}

/// The six indices that cover the quad whose first vertex is `first`.
pub open spec fn quad_six(first: int) -> Seq<int> {
    seq![first, first + 1, first + 3, first + 1, first + 2, first + 3]
}

/// Appends the six indices of the quad whose first vertex is `index_count`.
pub fn push_quad_indices(index_buffer: &mut Vec<i32>, index_count: i32)
    requires
        index_count + 3 <= i32::MAX,
    ensures
        final(index_buffer)@.len() == old(index_buffer)@.len() + 6,
        final(index_buffer)@.subrange(0, old(index_buffer)@.len() as int) == old(index_buffer)@,
        forall|k: int|
            0 <= k < 6 ==> final(index_buffer)@[old(index_buffer)@.len() + k] as int
                == index_count + quad_corner(k),
{
    index_buffer.push(index_count);
    index_buffer.push(1 + index_count);
    index_buffer.push(3 + index_count);
    index_buffer.push(1 + index_count);
    index_buffer.push(2 + index_count);
    index_buffer.push(3 + index_count);
}


/// Vertex and index capacities of a simple console's buffers: thirteen floats
/// per vertex, four vertices and six indices per cell.
pub fn simple_capacities(width: usize, height: usize) -> (caps: (usize, usize))
    requires
        13 * width * height * 4 <= usize::MAX,
    ensures
        caps.0 == 13 * width * height * 4,
        caps.1 == 6 * width * height,
{
    assert(6 * width * height <= 13 * width * height * 4) by (nonlinear_arith)
        requires
            width >= 0,
            height >= 0,
    ;
    assert(13 * width <= 13 * width * height * 4 || height == 0) by (nonlinear_arith)
        requires
            width >= 0,
            height >= 0,
    ;
    assert(6 * width <= 13 * width * height * 4 || height == 0) by (nonlinear_arith)
        requires
            width >= 0,
            height >= 0,
    ;
    if height == 0 {
        assert(13 * width * height * 4 == 0) by (nonlinear_arith)
            requires
                height == 0,
        ;
        assert(6 * width * height == 0) by (nonlinear_arith)
            requires
                height == 0,
        ;
        return (0, 0);
    }
    assert(13 * width <= usize::MAX) by (nonlinear_arith)
        requires
            13 * width <= 13 * width * height * 4,
            13 * width * height * 4 <= usize::MAX,
    ;
    assert(13 * width * height <= 13 * width * height * 4) by (nonlinear_arith)
        requires
            width >= 0,
            height >= 1,
    ;
    assert(6 * width <= 13 * width) by (nonlinear_arith)
        requires
            width >= 0,
    ;
    let vertex_capacity: usize = (13 * width * height) * 4;
    let index_capacity: usize = 6 * width * height;
    (vertex_capacity, index_capacity)
}

/// Writes the six indices of the quad whose first vertex is `index_count` at
/// positions `at .. at + 6` of a preallocated index buffer.
pub fn write_quad_indices(index_buffer: &mut Vec<i32>, at: usize, index_count: i32)
    requires
        at + 6 <= old(index_buffer)@.len(),
        index_count + 3 <= i32::MAX,
    ensures
        final(index_buffer)@.len() == old(index_buffer)@.len(),
        forall|k: int|
            0 <= k < final(index_buffer)@.len() && !(at <= k < at + 6) ==> final(index_buffer)@[k]
                == old(index_buffer)@[k],
        forall|k: int|
            0 <= k < 6 ==> final(index_buffer)@[at + k] as int == index_count + quad_corner(k),
{
    proof {
        assert(index_buffer.len() == index_buffer@.len());
    }
    index_buffer.set(at, index_count);
    index_buffer.set(at + 1, 1 + index_count);
    index_buffer.set(at + 2, 3 + index_count);
    index_buffer.set(at + 3, 1 + index_count);
    index_buffer.set(at + 4, 2 + index_count);
    index_buffer.set(at + 5, 3 + index_count);
}

proof fn lemma_quad_index_step(i: int, q: int, k: int)
    requires
        0 <= k < 6,
        i == 6 * q + k,
        0 <= q,
    ensures
        i / 6 == q,
        i % 6 == k,
{
    vstd::arithmetic::div_mod::lemma_fundamental_div_mod_converse(i, 6, q, k);
}

/// The index buffer of `n_quads` quads stored one after the other: quad `q`
/// uses vertices `4q .. 4q + 3`.
pub fn quad_index_buffer(n_quads: usize) -> (buf: Vec<i32>)
    requires
        4 * n_quads <= i32::MAX,
    ensures
        buf@.len() == 6 * n_quads,
        forall|i: int| 0 <= i < buf@.len() ==> buf@[i] as int == quad_index(0, i),
{
    let mut buf: Vec<i32> = Vec::new();
    let mut index_count: i32 = 0;
    let mut q: usize = 0;
    while q < n_quads
        invariant
            q <= n_quads,
            4 * n_quads <= i32::MAX,
            index_count == 4 * q,
            buf@.len() == 6 * q,
            forall|i: int| 0 <= i < buf@.len() ==> buf@[i] as int == quad_index(0, i),
        decreases n_quads - q,
    {
        let ghost before = buf@;
        push_quad_indices(&mut buf, index_count);
        assert forall|i: int| 0 <= i < buf@.len() implies buf@[i] as int == quad_index(0, i) by {
            if i >= before.len() {
                lemma_quad_index_step(i, q as int, i - 6 * q);
            } else {
                assert(buf@[i] == buf@.subrange(0, before.len() as int)[i]);
            }
        }
        index_count = index_count + 4;
        q = q + 1;
    }
    buf
}

/// The 16-bit index buffer of `n_quads` quads, as the WebGPU back-end builds
/// it.
pub fn quad_index_buffer_u16(n_quads: usize) -> (buf: Vec<u16>)
    requires
        4 * n_quads <= u16::MAX,
    ensures
        buf@.len() == 6 * n_quads,
        forall|i: int| 0 <= i < buf@.len() ==> buf@[i] as int == quad_index(0, i),
{
    let mut buf: Vec<u16> = Vec::new();
    let mut index_count: u16 = 0;
    let mut q: usize = 0;
    while q < n_quads
        invariant
            q <= n_quads,
            4 * n_quads <= u16::MAX,
            index_count == 4 * q,
            buf@.len() == 6 * q,
            forall|i: int| 0 <= i < buf@.len() ==> buf@[i] as int == quad_index(0, i),
        decreases n_quads - q,
    {
        let ghost before = buf@;
        buf.push(index_count);
        buf.push(1 + index_count);
        buf.push(3 + index_count);
        buf.push(1 + index_count);
        buf.push(2 + index_count);
        buf.push(3 + index_count);
        assert forall|i: int| 0 <= i < buf@.len() implies buf@[i] as int == quad_index(0, i) by {
            if i >= before.len() {
                lemma_quad_index_step(i, q as int, i - 6 * q);
            } else {
                assert(buf@[i] == before[i]);
            }
        }
        index_count = index_count + 4;
        q = q + 1;
    }
    buf
}

/// Every index of a quad index buffer names one of its own quad's four
/// vertices, and each quad is covered by the triangles (0, 1, 3) and (1, 2, 3)
/// of its vertices.
pub proof fn quad_indices_stay_in_their_quad(i: int)
    requires
        0 <= i,
    ensures
        4 * (i / 6) <= quad_index(0, i) <= 4 * (i / 6) + 3,
        quad_index(0, i) - 4 * (i / 6) == quad_corner(i % 6),
{
    vstd::arithmetic::div_mod::lemma_mod_bound(i, 6);
}


/// The CPU side of a WebGPU index buffer: its 16-bit indices.
pub struct IndexBuffer {
    pub data: Vec<u16>,
}

impl IndexBuffer {
    /// An empty index buffer with room reserved for `capacity` indices; the
    /// room is reserved, not filled.
    pub fn new(capacity: usize) -> (b: IndexBuffer)
        ensures
            b.data@.len() == 0,
    {
        IndexBuffer { data: Vec::with_capacity(capacity) }
    }

    /// The number of indices, kept to 32 bits.
    pub fn len(&self) -> (n: u32)
        ensures
            n == self.data@.len() as u32,
    {
        self.data.len() as u32
    }
}

} // verus!
