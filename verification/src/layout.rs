//! Memory layouts: vertex attribute layouts of the vertex buffers, and the
//! row padding of the buffer a screenshot is copied into, and the screenshot's
//! PNG file.
use vstd::prelude::*;

verus! {

/// One attribute of an OpenGL vertex: its attribute index and its number of
/// floats.
#[derive(Clone, Copy, PartialEq, Eq, Debug, Structural)]
pub struct VertexArrayEntry {
    pub index: u32,
    pub size: i32,
}

/// Floats in the first `n` attributes.
pub open spec fn floats_before(entries: Seq<VertexArrayEntry>, n: nat) -> int
    decreases n,
{
    if n == 0 {
        0
    } else {
        floats_before(entries, (n - 1) as nat) + entries[n - 1].size
    }
}

/// The attribute sizes are positive and all the byte offsets fit an `i32`.
pub open spec fn entries_fit(entries: Seq<VertexArrayEntry>) -> bool {
    &&& forall|i: int| 0 <= i < entries.len() ==> (#[trigger] entries[i]).size >= 0
    &&& 4 * floats_before(entries, entries.len()) <= i32::MAX
}

/// The interleaved float layout of an OpenGL vertex: the stride in bytes, and
/// the byte offset of each attribute (four bytes per float).
pub struct FloatLayout {
    pub stride: i32,
    pub offsets: Vec<i32>,
}

proof fn lemma_floats_before_mono(entries: Seq<VertexArrayEntry>, a: nat, b: nat)
    requires
        a <= b <= entries.len(),
        forall|i: int| 0 <= i < entries.len() ==> (#[trigger] entries[i]).size >= 0,
    ensures
        0 <= floats_before(entries, a) <= floats_before(entries, b),
    decreases b,
{
    if b > 0 {
        if a < b {
            lemma_floats_before_mono(entries, a, (b - 1) as nat);
        } else {
            lemma_floats_before_mono(entries, (a - 1) as nat, (b - 1) as nat);
        }
    }
}

/// Lays out a vertex of the given attributes back to back.
pub fn float_layout(entries: &Vec<VertexArrayEntry>) -> (l: FloatLayout)
    requires
        entries_fit(entries@),
    ensures
        l.stride == 4 * floats_before(entries@, entries@.len()),
        l.offsets@.len() == entries@.len(),
        forall|i: int|
            0 <= i < entries@.len() ==> #[trigger] l.offsets@[i] == 4 * floats_before(
                entries@,
                i as nat,
            ),
{
    let mut offsets: Vec<i32> = Vec::new();
    let mut cumulative_offset: i32 = 0;
    let mut i: usize = 0;
    while i < entries.len()
        invariant
            entries_fit(entries@),
            i <= entries@.len(),
            cumulative_offset == floats_before(entries@, i as nat),
            offsets@.len() == i,
            forall|j: int|
                0 <= j < i ==> #[trigger] offsets@[j] == 4 * floats_before(entries@, j as nat),
        decreases entries@.len() - i,
    {
        proof {
            lemma_floats_before_mono(entries@, i as nat, entries@.len());
            lemma_floats_before_mono(entries@, (i + 1) as nat, entries@.len());
        }
        offsets.push(cumulative_offset * 4);
        cumulative_offset = cumulative_offset + entries[i].size;
        i = i + 1;
    }
    proof {
        lemma_floats_before_mono(entries@, entries@.len(), entries@.len());
    }
    FloatLayout { stride: cumulative_offset * 4, offsets }
}

/// The vertex formats of a WebGPU float vertex buffer: one to four 32-bit
/// floats.
#[derive(Clone, Copy, PartialEq, Eq, Debug, Structural)]
pub enum VertexFormat {
    Float32,
    Float32x2,
    Float32x3,
    Float32x4,
}

/// The format that holds `size` floats.
pub open spec fn format_for(size: usize) -> VertexFormat {
    if size == 1 {
        VertexFormat::Float32
    } else if size == 2 {
        VertexFormat::Float32x2
    } else if size == 3 {
        VertexFormat::Float32x3
    } else {
        VertexFormat::Float32x4
    }
}

/// One attribute of a WebGPU vertex buffer.
#[derive(Clone, Copy, PartialEq, Eq, Debug, Structural)]
pub struct VertexAttribute {
    pub offset: u64,
    pub shader_location: u32,
    pub format: VertexFormat,
}

/// Elements in the first `n` attributes of a layout.
pub open spec fn elements_before(layout: Seq<usize>, n: nat) -> int
    decreases n,
{
    if n == 0 {
        0
    } else {
        elements_before(layout, (n - 1) as nat) + layout[n - 1]
    }
}

/// A buffer layout: its attributes, and the size of one vertex in bytes.
pub struct BufferLayout {
    pub attributes: Vec<VertexAttribute>,
    pub total_size: u64,
}

proof fn lemma_elements_before_mono(layout: Seq<usize>, a: nat, b: nat)
    requires
        a <= b <= layout.len(),
    ensures
        0 <= elements_before(layout, a) <= elements_before(layout, b),
    decreases b,
{
    if b > 0 {
        if a < b {
            lemma_elements_before_mono(layout, a, (b - 1) as nat);
        } else {
            lemma_elements_before_mono(layout, (a - 1) as nat, (b - 1) as nat);
        }
    }
}

/// Lays out a WebGPU vertex buffer whose attributes hold `layout[i]` elements of
/// `elem_size` bytes each: attribute `i` is read at shader location `i`, from
/// the bytes after those of the attributes before it.
pub fn float_buffer_layout(layout: &Vec<usize>, elem_size: usize) -> (l: BufferLayout)
    requires
        forall|i: int| 0 <= i < layout@.len() ==> 1 <= #[trigger] layout@[i] <= 4,
        layout@.len() <= u32::MAX,
        elem_size * elements_before(layout@, layout@.len()) <= u64::MAX,
        elem_size * 4 <= usize::MAX,
    ensures
        l.total_size == elem_size * elements_before(layout@, layout@.len()),
        l.attributes@.len() == layout@.len(),
        forall|i: int|
            0 <= i < layout@.len() ==> #[trigger] l.attributes@[i] == (VertexAttribute {
                offset: (elem_size * elements_before(layout@, i as nat)) as u64,
                shader_location: i as u32,
                format: format_for(layout@[i]),
            }),
{
    let mut attributes: Vec<VertexAttribute> = Vec::new();
    let mut cumulative_size: u64 = 0;
    let mut i: usize = 0;
    while i < layout.len()
        invariant
            forall|j: int| 0 <= j < layout@.len() ==> 1 <= #[trigger] layout@[j] <= 4,
            layout@.len() <= u32::MAX,
            elem_size * elements_before(layout@, layout@.len()) <= u64::MAX,
            elem_size * 4 <= usize::MAX,
            i <= layout@.len(),
            cumulative_size == elem_size * elements_before(layout@, i as nat),
            attributes@.len() == i,
            forall|j: int|
                0 <= j < i ==> #[trigger] attributes@[j] == (VertexAttribute {
                    offset: (elem_size * elements_before(layout@, j as nat)) as u64,
                    shader_location: j as u32,
                    format: format_for(layout@[j]),
                }),
        decreases layout@.len() - i,
    {
        let size = layout[i];
        let format = if size == 1 {
            VertexFormat::Float32
        } else if size == 2 {
            VertexFormat::Float32x2
        } else if size == 3 {
            VertexFormat::Float32x3
        } else {
            VertexFormat::Float32x4
        };
        attributes.push(VertexAttribute { offset: cumulative_size, shader_location: i as u32, format });
        proof {
            lemma_elements_before_mono(layout@, (i + 1) as nat, layout@.len());
            assert(elem_size * elements_before(layout@, (i + 1) as nat) == elem_size
                * elements_before(layout@, i as nat) + elem_size * size) by (nonlinear_arith)
                requires
                    elements_before(layout@, (i + 1) as nat) == elements_before(layout@, i as nat)
                        + size,
            ;
            assert(elem_size * elements_before(layout@, (i + 1) as nat) <= elem_size
                * elements_before(layout@, layout@.len())) by (nonlinear_arith)
                requires
                    elements_before(layout@, (i + 1) as nat) <= elements_before(
                        layout@,
                        layout@.len(),
                    ),
                    elem_size >= 0,
            ;
            assert(elem_size * size <= elem_size * 4) by (nonlinear_arith)
                requires
                    size <= 4,
                    elem_size >= 0,
            ;
        }
        cumulative_size = cumulative_size + (elem_size * size) as u64;
        i = i + 1;
    }
    BufferLayout { attributes, total_size: cumulative_size }
}

/// WebGPU's alignment of the bytes per row in a texture-to-buffer copy.
pub const COPY_BYTES_PER_ROW_ALIGNMENT: usize = 256;

/// The bytes a padded row takes for `unpadded` bytes of pixels.
pub open spec fn padded_row_bytes(unpadded: int) -> int {
    let a = COPY_BYTES_PER_ROW_ALIGNMENT as int;
    unpadded + (a - unpadded % a) % a
}

/// The size of an RGBA8 image copied out of the GPU: each row of `width`
/// four-byte pixels is padded up to a multiple of the copy alignment.
#[derive(Clone, Copy, PartialEq, Eq, Debug, Structural)]
pub struct BufferDimensions {
    pub width: usize,
    pub height: usize,
    pub unpadded_bytes_per_row: usize,
    pub padded_bytes_per_row: usize,
}

impl BufferDimensions {
    /// The dimensions of a `width` x `height` RGBA8 image.
    pub fn new(width: usize, height: usize) -> (d: BufferDimensions)
        requires
            4 * width + COPY_BYTES_PER_ROW_ALIGNMENT - 1 <= usize::MAX,
        ensures
            d.width == width,
            d.height == height,
            d.unpadded_bytes_per_row == 4 * width,
            d.padded_bytes_per_row == padded_row_bytes(4 * width),
    {
        let bytes_per_pixel: usize = 4;
        let unpadded_bytes_per_row = width * bytes_per_pixel;
        let align = COPY_BYTES_PER_ROW_ALIGNMENT;
        let padded_bytes_per_row_padding = (align - unpadded_bytes_per_row % align) % align;
        let padded_bytes_per_row = unpadded_bytes_per_row + padded_bytes_per_row_padding;
        BufferDimensions { width, height, unpadded_bytes_per_row, padded_bytes_per_row }
    }
}

/// A padded row is the shortest multiple of the copy alignment that holds the
/// row's pixels.
pub proof fn padded_rows_are_aligned(width: usize, height: usize)
    requires
        4 * width + COPY_BYTES_PER_ROW_ALIGNMENT - 1 <= usize::MAX,
    ensures
        padded_row_bytes(4 * width) % (COPY_BYTES_PER_ROW_ALIGNMENT as int) == 0,
        4 * width <= padded_row_bytes(4 * width) < 4 * width + COPY_BYTES_PER_ROW_ALIGNMENT,
{
    let u = 4 * width as int;
    let a = COPY_BYTES_PER_ROW_ALIGNMENT as int;
    vstd::arithmetic::div_mod::lemma_fundamental_div_mod(u, a);
    let r = u % a;
    if r == 0 {
        assert((a - r) % a == 0) by {
            vstd::arithmetic::div_mod::lemma_mod_self_0(a);
        }
        assert((u + (a - r) % a) % a == 0);
    } else {
        assert((a - r) % a == a - r) by {
            vstd::arithmetic::div_mod::lemma_small_mod((a - r) as nat, a as nat);
        }
        let q = u / a;
        assert(u + (a - r) == a * (q + 1)) by (nonlinear_arith)
            requires
                u == a * q + r,
        ;
        vstd::arithmetic::div_mod::lemma_mod_multiples_basic(q + 1, a);
        vstd::arithmetic::mul::lemma_mul_is_commutative(a, q + 1);
    }
}

/// The image rows of a padded copy: the first `unpadded_bytes_per_row` bytes
/// of each padded row, rows in order.
pub open spec fn unpadded(padded: Seq<u8>, d: BufferDimensions, rows: nat) -> Seq<u8>
    decreases rows,
{
    if rows == 0 {
        seq![]
    } else {
        let r = rows - 1;
        unpadded(padded, d, (rows - 1) as nat) + padded.subrange(
            r * d.padded_bytes_per_row,
            r * d.padded_bytes_per_row + d.unpadded_bytes_per_row,
        )
    }
}

/// Drops the row padding of a screenshot copy.
pub fn unpad_rows(padded: &Vec<u8>, d: BufferDimensions) -> (image: Vec<u8>)
    requires
        d.unpadded_bytes_per_row <= d.padded_bytes_per_row,
        padded@.len() == d.padded_bytes_per_row * d.height,
    ensures
        image@ == unpadded(padded@, d, d.height as nat),
{
    let mut image: Vec<u8> = Vec::new();
    let mut row: usize = 0;
    while row < d.height
        invariant
            d.unpadded_bytes_per_row <= d.padded_bytes_per_row,
            padded@.len() == d.padded_bytes_per_row * d.height,
            row <= d.height,
            image@ == unpadded(padded@, d, row as nat),
        decreases d.height - row,
    {
        proof {
            vstd::arithmetic::mul::lemma_mul_inequality(row as int + 1, d.height as int, d.padded_bytes_per_row as int);
            vstd::arithmetic::mul::lemma_mul_is_distributive_add_other_way(d.padded_bytes_per_row as int, row as int, 1);
            vstd::arithmetic::mul::lemma_mul_is_commutative(d.padded_bytes_per_row as int, d.height as int);
            vstd::arithmetic::mul::lemma_mul_nonnegative(row as int, d.padded_bytes_per_row as int);
            vstd::arithmetic::mul::lemma_mul_is_commutative(row as int, d.padded_bytes_per_row as int);
            assert(padded.len() == padded@.len());
        }
        let start: usize = row * d.padded_bytes_per_row;
        let ghost before = image@;
        let mut k: usize = 0;
        while k < d.unpadded_bytes_per_row
            invariant
                d.unpadded_bytes_per_row <= d.padded_bytes_per_row,
                padded@.len() == d.padded_bytes_per_row * d.height,
                start + d.padded_bytes_per_row <= padded@.len(),
                padded@.len() <= usize::MAX,
                start == row * d.padded_bytes_per_row,
                k <= d.unpadded_bytes_per_row,
                image@ == before + padded@.subrange(start as int, start + k),
            decreases d.unpadded_bytes_per_row - k,
        {
            image.push(padded[start + k]);
            assert(padded@.subrange(start as int, start + k + 1) == padded@.subrange(
                start as int,
                start + k,
            ).push(padded@[start + k]));
            k = k + 1;
        }
        row = row + 1;
    }
    image
}

/// Each padded row gives `unpadded_bytes_per_row` bytes.
proof fn lemma_unpadded_len(padded: Seq<u8>, d: BufferDimensions, rows: nat)
    requires
        rows <= d.height,
        d.unpadded_bytes_per_row <= d.padded_bytes_per_row,
        padded.len() == d.padded_bytes_per_row * d.height,
    ensures
        unpadded(padded, d, rows).len() == rows * d.unpadded_bytes_per_row,
    decreases rows,
{
    if rows > 0 {
        let r = rows - 1;
        lemma_unpadded_len(padded, d, r as nat);
        let p = d.padded_bytes_per_row as int;
        let u = d.unpadded_bytes_per_row as int;
        let h = d.height as int;
        assert(r * p + u <= p * h && 0 <= r * p) by (nonlinear_arith)
            requires
                0 <= r < h,
                0 <= u <= p,
        ;
        assert(rows * u == r * u + u) by (nonlinear_arith)
            requires
                rows == r + 1,
        ;
        assert(padded.subrange(r * p, r * p + u).len() == u);
        assert(unpadded(padded, d, rows) == unpadded(padded, d, r as nat) + padded.subrange(
            r * p,
            r * p + u,
        ));
    } else {
        assert(rows * d.unpadded_bytes_per_row == 0) by (nonlinear_arith)
            requires
                rows == 0,
        ;
    }
}

/// What the `image` crate's PNG encoder writes for an RGBA image of `width` x
/// `height` pixels, or `None` when it refuses the image.
pub uninterp spec fn png_encoded(width: u32, height: u32, rgba: Seq<u8>) -> Option<Seq<u8>>;

/// Encodes RGBA rows as a PNG file in memory, with
/// `image::codecs::png::PngEncoder::write_image`.
///
/// Trusted: the result is the encoding that `png_encoded` names for these
/// arguments, `None` exactly when the encoder returns an error (as it does for
/// an image of zero width or height). The encoder panics unless the data holds
/// four bytes per pixel, which the `requires` asks.
#[verifier::external_body]
fn encode_png_rgba(width: u32, height: u32, rgba: &[u8]) -> (r: Option<Vec<u8>>)
    requires
        rgba@.len() == 4 * width * height,
    ensures
        r is None <==> png_encoded(width, height, rgba@) is None,
        r matches Some(b) ==> png_encoded(width, height, rgba@) == Some(b@),
{
    let mut out: Vec<u8> = Vec::new();
    let encoder = image::codecs::png::PngEncoder::new(&mut out);
    match image::ImageEncoder::write_image(encoder, rgba, width, height, image::ColorType::Rgba8) {
        Ok(()) => Some(out),
        Err(_) => None,
    }
}

/// The PNG file of a screenshot copied with padded rows: the rows without
/// their padding, encoded as RGBA. `None` when the encoder refuses the image.
pub fn screenshot_png(padded: &Vec<u8>, d: BufferDimensions) -> (png: Option<Vec<u8>>)
    requires
        d.unpadded_bytes_per_row == 4 * d.width,
        d.unpadded_bytes_per_row <= d.padded_bytes_per_row,
        padded@.len() == d.padded_bytes_per_row * d.height,
        d.width <= u32::MAX,
        d.height <= u32::MAX,
    ensures
        png is None <==> png_encoded(d.width as u32, d.height as u32, unpadded(padded@, d, d.height as nat))
            is None,
        png matches Some(b) ==> png_encoded(
            d.width as u32,
            d.height as u32,
            unpadded(padded@, d, d.height as nat),
        ) == Some(b@),
{
    let image = unpad_rows(padded, d);
    proof {
        lemma_unpadded_len(padded@, d, d.height as nat);
        vstd::arithmetic::mul::lemma_mul_is_commutative(d.height as int, d.unpadded_bytes_per_row as int);
        vstd::arithmetic::mul::lemma_mul_is_associative(4, d.width as int, d.height as int);
    }
    encode_png_rgba(d.width as u32, d.height as u32, image.as_slice())
}

} // verus!
