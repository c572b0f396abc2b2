use voids::conversions::{
    AsBytes, BufferBinding, GpuBuffer, StepMode, VertexAttribute, VertexFormat, INDEX, TRANSFER_DST, TRANSFER_SRC,
    UNIFORM, VERTEX,
};
use voids::mesh::{Float2, Float3, Vertex};
use voids::model::ModelGroup;

#[test]
fn byte_slices_are_packed_in_order() {
    let a: Vec<u8> = (0..64).collect();
    let b: Vec<u8> = (100..136).collect();
    let buf = GpuBuffer::from_byte_slices(UNIFORM | TRANSFER_DST, &[&a, &b]);
    assert_eq!(buf.len, 100);
    assert_eq!(&buf.contents[..64], &a[..]);
    assert_eq!(&buf.contents[64..100], &b[..]);
    assert_eq!(buf.contents.len(), 100);
    assert_eq!(buf.usage, UNIFORM | TRANSFER_DST);
}

#[test]
fn empty_slices_leave_no_gap() {
    let a = [1u8, 2];
    let b: [u8; 0] = [];
    let c = [3u8];
    let buf = GpuBuffer::from_byte_slices(UNIFORM, &[&a, &b, &c]);
    assert_eq!(buf.contents, vec![1, 2, 3]);
    assert_eq!(buf.len, 3);
}

#[test]
fn index_buffer_counts_elements() {
    let buf = GpuBuffer::new(INDEX, &[1u16, 0x0203, 0xffff]);
    assert_eq!(buf.len, 3);
    assert_eq!(buf.contents, vec![1, 0, 3, 2, 0xff, 0xff]);
}

#[test]
fn vertex_buffer_holds_32_bytes_per_vertex() {
    let v = Vertex {
        position: Float3 { x: 1.0f32.to_bits(), y: 2.0f32.to_bits(), z: 3.0f32.to_bits() },
        normal: Float3 { x: 0, y: 0, z: 1.0f32.to_bits() },
        tex_coord: Float2 { x: 0x04030201, y: 0 },
    };
    let buf = GpuBuffer::new(VERTEX, &[v, v]);
    assert_eq!(buf.len, 2);
    assert_eq!(buf.contents.len(), 64);
    assert_eq!(&buf.contents[0..4], &1.0f32.to_le_bytes());
    assert_eq!(&buf.contents[8..12], &3.0f32.to_le_bytes());
    assert_eq!(&buf.contents[24..28], &[1, 2, 3, 4]);
    assert_eq!(v.as_bytes(), buf.contents[32..64].to_vec());
}

#[test]
fn single_item_length_is_one_element() {
    let buf = GpuBuffer::from_single(UNIFORM, 0x1234u16);
    assert_eq!(buf.len, 1);
    assert_eq!(buf.contents, vec![0x34, 0x12]);
}

#[test]
fn raw_bytes_are_kept() {
    let buf = GpuBuffer::from_bytes(TRANSFER_SRC, &[9, 8, 7]);
    assert_eq!(buf.len, 3);
    assert_eq!(buf.contents, vec![9, 8, 7]);
    assert_eq!(buf.usage, TRANSFER_SRC);
}

#[test]
fn transformed_rows_follow_the_items() {
    let items = [1u8, 2, 3];
    let buf = GpuBuffer::from_transformed_slice(VERTEX, &items, |x: &u8| vec![*x, *x * 10]);
    assert_eq!(buf.len, 3);
    assert_eq!(buf.contents, vec![1, 10, 2, 20, 3, 30]);
}

#[test]
fn binding_covers_the_whole_buffer() {
    let buf = GpuBuffer::from_bytes(UNIFORM, &[0; 48]);
    assert_eq!(buf.binding(2), BufferBinding { binding: 2, offset: 0, size: 48 });
}

#[test]
fn binding_of_an_element_buffer_counts_bytes() {
    let buf = GpuBuffer::new(INDEX, &[1u16, 2]);
    assert_eq!(buf.len, 2);
    assert_eq!(buf.binding(0), BufferBinding { binding: 0, offset: 0, size: 4 });
    let single = GpuBuffer::from_single(UNIFORM, 7u16);
    assert_eq!(single.binding(1).size, 2);
}

#[test]
fn copy_overwrites_the_start_of_the_destination() {
    let staging = GpuBuffer::from_bytes(TRANSFER_SRC, &[1, 2]);
    let mut target = GpuBuffer::from_bytes(UNIFORM | TRANSFER_DST, &[0, 0, 0, 9]);
    let copied = staging.copy_to_buffer(&mut target);
    assert_eq!(copied, 2);
    assert_eq!(target.contents, vec![1, 2, 0, 9]);
    assert_eq!(target.len, 4);
    assert_eq!(target.usage, UNIFORM | TRANSFER_DST);
}

#[test]
fn vertex_layout_tiles_the_record() {
    let layout = Vertex::buffer_descriptor();
    assert_eq!(layout.stride, 32);
    assert_eq!(layout.step_mode, StepMode::Vertex);
    assert_eq!(
        layout.attributes,
        vec![
            VertexAttribute { location: 0, format: VertexFormat::Float3, offset: 0 },
            VertexAttribute { location: 1, format: VertexFormat::Float3, offset: 12 },
            VertexAttribute { location: 2, format: VertexFormat::Float2, offset: 24 },
        ]
    );
}

#[test]
fn instance_layout_holds_four_columns() {
    let layout = ModelGroup::<u8, ()>::buffer_descriptor();
    assert_eq!(layout.stride, 64);
    assert_eq!(layout.step_mode, StepMode::Instance);
    let offsets: Vec<u32> = layout.attributes.iter().map(|a| a.offset).collect();
    let locations: Vec<u32> = layout.attributes.iter().map(|a| a.location).collect();
    assert_eq!(offsets, vec![0, 16, 32, 48]);
    assert_eq!(locations, vec![3, 4, 5, 6]);
    assert!(layout.attributes.iter().all(|a| a.format == VertexFormat::Float4));
}
