use bracket_terminal::layout::{
    float_buffer_layout, float_layout, screenshot_png, unpad_rows, BufferDimensions, VertexArrayEntry,
    VertexAttribute, VertexFormat,
};
use bracket_terminal::quad::{
    push_quad_indices, quad_index_buffer, quad_index_buffer_u16, simple_capacities,
    write_quad_indices, IndexBuffer,
};

#[test]
fn quad_indices_cover_two_triangles() {
    let mut buf = vec![9];
    push_quad_indices(&mut buf, 8);
    assert_eq!(buf, vec![9, 8, 9, 11, 9, 10, 11]);
    assert_eq!(quad_index_buffer(2), vec![0, 1, 3, 1, 2, 3, 4, 5, 7, 5, 6, 7]);
    assert_eq!(quad_index_buffer_u16(1), vec![0u16, 1, 3, 1, 2, 3]);
    let mut pre = vec![0; 8];
    write_quad_indices(&mut pre, 1, 4);
    assert_eq!(pre, vec![0, 4, 5, 7, 5, 6, 7, 0]);
}

#[test]
fn simple_console_capacities() {
    assert_eq!(simple_capacities(80, 50), (13 * 80 * 50 * 4, 6 * 80 * 50));
    assert_eq!(simple_capacities(0, 10), (0, 0));
}

#[test]
fn index_buffer_starts_empty_with_room() {
    let b = IndexBuffer::new(5);
    assert!(b.data.is_empty());
    assert!(b.data.capacity() >= 5);
    assert_eq!(b.len(), 0);
}

#[test]
fn gl_float_layout_of_the_simple_console() {
    let entries = vec![
        VertexArrayEntry { index: 0, size: 3 },
        VertexArrayEntry { index: 1, size: 4 },
        VertexArrayEntry { index: 2, size: 4 },
        VertexArrayEntry { index: 3, size: 2 },
    ];
    let l = float_layout(&entries);
    assert_eq!(l.stride, 52);
    assert_eq!(l.offsets, vec![0, 12, 28, 44]);
}

#[test]
fn wgpu_buffer_layout() {
    let l = float_buffer_layout(&vec![3, 4, 4, 2], 4);
    assert_eq!(l.total_size, 52);
    assert_eq!(
        l.attributes,
        vec![
            VertexAttribute { offset: 0, shader_location: 0, format: VertexFormat::Float32x3 },
            VertexAttribute { offset: 12, shader_location: 1, format: VertexFormat::Float32x4 },
            VertexAttribute { offset: 28, shader_location: 2, format: VertexFormat::Float32x4 },
            VertexAttribute { offset: 44, shader_location: 3, format: VertexFormat::Float32x2 },
        ]
    );
}

#[test]
fn screenshot_rows_are_padded_to_256_bytes() {
    let d = BufferDimensions::new(100, 3);
    assert_eq!(d.unpadded_bytes_per_row, 400);
    assert_eq!(d.padded_bytes_per_row, 512);
    let d = BufferDimensions::new(64, 1);
    assert_eq!(d.padded_bytes_per_row, 256);
    let d = BufferDimensions::new(0, 1);
    assert_eq!(d.padded_bytes_per_row, 0);
}

#[test]
fn unpadding_keeps_pixel_bytes_of_each_row() {
    let d = BufferDimensions { width: 1, height: 2, unpadded_bytes_per_row: 4, padded_bytes_per_row: 6 };
    let padded = vec![1, 2, 3, 4, 0, 0, 5, 6, 7, 8, 0, 0];
    assert_eq!(unpad_rows(&padded, d), vec![1, 2, 3, 4, 5, 6, 7, 8]);
}

#[test]
fn widest_row_that_fits_is_padded() {
    let width = (usize::MAX - 255) / 4;
    let d = BufferDimensions::new(width, 1);
    assert_eq!(d.unpadded_bytes_per_row, usize::MAX - 255);
    assert_eq!(d.padded_bytes_per_row, usize::MAX - 255);
}

#[test]
fn screenshot_png_holds_the_unpadded_rows() {
    let d = BufferDimensions { width: 2, height: 2, unpadded_bytes_per_row: 8, padded_bytes_per_row: 12 };
    let padded = vec![
        1, 2, 3, 255, 4, 5, 6, 255, 0, 0, 0, 0, //
        7, 8, 9, 255, 10, 11, 12, 255, 0, 0, 0, 0,
    ];
    let png = screenshot_png(&padded, d).unwrap();
    let img = image::load_from_memory(&png).unwrap().to_rgba8();
    assert_eq!(img.dimensions(), (2, 2));
    assert_eq!(img.into_raw(), vec![1, 2, 3, 255, 4, 5, 6, 255, 7, 8, 9, 255, 10, 11, 12, 255]);
}

#[test]
fn screenshot_of_no_pixels_is_refused() {
    let d = BufferDimensions::new(0, 3);
    assert!(screenshot_png(&vec![], d).is_none());
}
