use voids::assets::Assets;
use voids::mesh::{
    load_png, Accessor, Attribute, BaseColorTexture, BufferView, Container, Float2, Float3, ImageSource, Mesh,
    MeshEntry, MeshLoadError, Primitive, Semantic,
};

fn encode_png(width: u32, height: u32, color: png::ColorType, data: &[u8]) -> Vec<u8> {
    let mut out = Vec::new();
    {
        let mut encoder = png::Encoder::new(&mut out, width, height);
        encoder.set_color(color);
        encoder.set_depth(png::BitDepth::Eight);
        let mut writer = encoder.write_header().unwrap();
        writer.write_image_data(data).unwrap();
    }
    out
}

fn push_f32s(buf: &mut Vec<u8>, values: &[f32]) {
    for v in values {
        buf.extend_from_slice(&v.to_le_bytes());
    }
}

fn view(buf: &Vec<u8>, start: usize) -> BufferView {
    BufferView { buffer: 0, offset: start, length: buf.len() - start }
}

/// A container whose single buffer holds, in order: the image, the indices, the
/// positions, the normals and the texture coordinates.
fn container(
    image: &[u8],
    mime_type: &str,
    indices: &[u16],
    positions: &[f32],
    normals: &[f32],
    tex_coords: &[f32],
) -> Container {
    let mut buf = Vec::new();
    buf.extend_from_slice(image);
    let image_view = BufferView { buffer: 0, offset: 0, length: image.len() };
    let start = buf.len();
    for i in indices {
        buf.extend_from_slice(&i.to_le_bytes());
    }
    let index_view = BufferView { buffer: 0, offset: start, length: buf.len() - start };
    let start = buf.len();
    push_f32s(&mut buf, positions);
    let position_view = view(&buf, start);
    let start = buf.len();
    push_f32s(&mut buf, normals);
    let normal_view = view(&buf, start);
    let start = buf.len();
    push_f32s(&mut buf, tex_coords);
    let tex_view = view(&buf, start);
    let primitive = Primitive {
        attributes: vec![
            Attribute { semantic: Semantic::Positions, accessor: Accessor { view: Some(position_view) } },
            Attribute { semantic: Semantic::Normals, accessor: Accessor { view: Some(normal_view) } },
            Attribute { semantic: Semantic::TexCoords(0), accessor: Accessor { view: Some(tex_view) } },
        ],
        indices: Some(Accessor { view: Some(index_view) }),
        base_color_texture: Some(BaseColorTexture {
            tex_coord: 0,
            source: ImageSource::View { view: image_view, mime_type: mime_type.to_string() },
        }),
    };
    Container {
        buffers: vec![buf],
        meshes: vec![MeshEntry { name: Some("tri".to_string()), primitives: vec![primitive] }],
    }
}

fn one_pixel_png() -> Vec<u8> {
    encode_png(1, 1, png::ColorType::Rgba, &[10, 20, 30, 255])
}

fn triangle() -> Container {
    container(
        &one_pixel_png(),
        "image/png",
        &[0, 1, 2],
        &[0.0, 0.0, 0.0, 1.0, 0.0, 0.0, 0.0, 1.0, 0.0],
        &[0.0, 0.0, 1.0, 0.0, 0.0, 1.0, 0.0, 0.0, 1.0],
        &[0.0, 0.0, 1.0, 0.0, 0.0, 1.0],
    )
}

fn first_primitive(c: &mut Container) -> &mut Primitive {
    &mut c.meshes[0].primitives[0]
}

#[test]
fn single_triangle_decodes() {
    let mesh = Mesh::load("tri.glb", &triangle()).unwrap();
    assert_eq!(mesh.vertices.len(), 3);
    assert_eq!(mesh.indices, vec![0, 1, 2]);
    assert_eq!(mesh.texture.width, 1);
    assert_eq!(mesh.texture.height, 1);
    assert_eq!(mesh.texture.pixels.len(), 4);
    assert_eq!(mesh.texture.pixels, vec![10, 20, 30, 255]);
}

#[test]
fn vertices_hold_the_stream_values() {
    let mesh = Mesh::load("tri.glb", &triangle()).unwrap();
    let v = mesh.vertices[1];
    assert_eq!(v.position, Float3 { x: 1.0f32.to_bits(), y: 0.0f32.to_bits(), z: 0.0f32.to_bits() });
    assert_eq!(v.normal, Float3 { x: 0.0f32.to_bits(), y: 0.0f32.to_bits(), z: 1.0f32.to_bits() });
    assert_eq!(v.tex_coord, Float2 { x: 1.0f32.to_bits(), y: 0.0f32.to_bits() });
    assert_eq!(f32::from_bits(mesh.vertices[2].position.y), 1.0);
}

#[test]
fn two_triangles_index_existing_vertices() {
    let c = container(
        &one_pixel_png(),
        "image/png",
        &[0, 1, 2, 2, 1, 3],
        &[0.0, 0.0, 0.0, 1.0, 0.0, 0.0, 0.0, 1.0, 0.0, 1.0, 1.0, 0.0],
        &[0.0, 0.0, 1.0, 0.0, 0.0, 1.0, 0.0, 0.0, 1.0, 0.0, 0.0, 1.0],
        &[0.0, 0.0, 1.0, 0.0, 0.0, 1.0, 1.0, 1.0],
    );
    let mesh = Mesh::load("quad.glb", &c).unwrap();
    assert_eq!(mesh.indices.len() % 3, 0);
    assert_eq!(mesh.vertices.len(), 4);
    assert!(mesh.indices.iter().all(|&i| (i as usize) < mesh.vertices.len()));
    assert_eq!(*mesh.indices.iter().max().unwrap(), 3);
}

#[test]
fn vertex_count_follows_the_shortest_stream() {
    let c = container(
        &one_pixel_png(),
        "image/png",
        &[0, 1, 0],
        &[0.0, 0.0, 0.0, 1.0, 0.0, 0.0, 0.0, 1.0, 0.0],
        &[0.0, 0.0, 1.0, 0.0, 0.0, 1.0],
        &[0.0, 0.0, 1.0, 0.0, 0.0, 1.0],
    );
    let mesh = Mesh::load("short.glb", &c).unwrap();
    assert_eq!(mesh.vertices.len(), 2);
}

#[test]
fn missing_base_color_texture_is_refused() {
    let mut c = triangle();
    first_primitive(&mut c).base_color_texture = None;
    match Mesh::load("tri.glb", &c) {
        Err(MeshLoadError::NoBaseColorTexture { mesh }) => assert_eq!(mesh, "tri"),
        other => panic!("unexpected {:?}", other.map(|_| ())),
    }
}

#[test]
fn unsupported_image_type_is_reported_verbatim() {
    let c = container(&one_pixel_png(), "image/jpeg", &[0, 1, 2], &[0.0; 9], &[0.0; 9], &[0.0; 6]);
    match Mesh::load("tri.glb", &c) {
        Err(MeshLoadError::UnsupportedImageFormat { mime_type }) => assert_eq!(mime_type, "image/jpeg"),
        other => panic!("unexpected {:?}", other.map(|_| ())),
    }
}

#[test]
fn external_image_is_refused() {
    let mut c = triangle();
    first_primitive(&mut c).base_color_texture =
        Some(BaseColorTexture { tex_coord: 0, source: ImageSource::Uri { uri: "tex.png".to_string() } });
    match Mesh::load("tri.glb", &c) {
        Err(MeshLoadError::ExternalImage { uri }) => assert_eq!(uri, "tex.png"),
        other => panic!("unexpected {:?}", other.map(|_| ())),
    }
}

#[test]
fn container_without_meshes_names_its_path() {
    let c = Container { buffers: vec![], meshes: vec![] };
    match Mesh::load("empty.glb", &c) {
        Err(MeshLoadError::NoMesh { path }) => assert_eq!(path, "empty.glb"),
        other => panic!("unexpected {:?}", other.map(|_| ())),
    }
}

#[test]
fn mesh_without_primitives_is_refused() {
    let c = Container { buffers: vec![], meshes: vec![MeshEntry { name: None, primitives: vec![] }] };
    match Mesh::load("bare.glb", &c) {
        Err(MeshLoadError::NoPrimitives { mesh, path }) => {
            assert_eq!(mesh, "<unknown>");
            assert_eq!(path, "bare.glb");
        }
        other => panic!("unexpected {:?}", other.map(|_| ())),
    }
}

#[test]
fn missing_indices_are_refused() {
    let mut c = triangle();
    first_primitive(&mut c).indices = None;
    assert!(matches!(Mesh::load("tri.glb", &c), Err(MeshLoadError::NoIndices { .. })));
}

#[test]
fn missing_normals_name_the_semantic() {
    let mut c = triangle();
    first_primitive(&mut c).attributes.retain(|a| a.semantic != Semantic::Normals);
    match Mesh::load("tri.glb", &c) {
        Err(MeshLoadError::NoSemantic { mesh, semantic }) => {
            assert_eq!(mesh, "tri");
            assert_eq!(semantic, Semantic::Normals);
        }
        other => panic!("unexpected {:?}", other.map(|_| ())),
    }
}

#[test]
fn texture_coordinates_follow_the_material_set() {
    let mut c = triangle();
    if let Some(t) = &mut first_primitive(&mut c).base_color_texture {
        t.tex_coord = 1;
    }
    match Mesh::load("tri.glb", &c) {
        Err(MeshLoadError::NoSemantic { semantic, .. }) => assert_eq!(semantic, Semantic::TexCoords(1)),
        other => panic!("unexpected {:?}", other.map(|_| ())),
    }
}

#[test]
fn view_past_the_buffer_is_refused() {
    let mut c = triangle();
    let len = c.buffers[0].len();
    first_primitive(&mut c).indices = Some(Accessor { view: Some(BufferView { buffer: 0, offset: len - 2, length: 6 }) });
    assert!(matches!(Mesh::load("tri.glb", &c), Err(MeshLoadError::InvalidView { .. })));
    first_primitive(&mut c).indices = Some(Accessor { view: Some(BufferView { buffer: 3, offset: 0, length: 6 }) });
    assert!(matches!(Mesh::load("tri.glb", &c), Err(MeshLoadError::InvalidView { .. })));
    first_primitive(&mut c).indices = Some(Accessor { view: None });
    assert!(matches!(Mesh::load("tri.glb", &c), Err(MeshLoadError::InvalidView { .. })));
}

#[test]
fn uneven_stream_is_refused() {
    let mut c = triangle();
    let index_view = first_primitive(&mut c).indices.unwrap().view.unwrap();
    first_primitive(&mut c).indices =
        Some(Accessor { view: Some(BufferView { length: index_view.length - 1, ..index_view }) });
    match Mesh::load("tri.glb", &c) {
        Err(MeshLoadError::UnevenStream { length, stride, .. }) => {
            assert_eq!(length, 5);
            assert_eq!(stride, 2);
        }
        other => panic!("unexpected {:?}", other.map(|_| ())),
    }
}

#[test]
fn index_past_the_vertices_is_refused() {
    let c = container(&one_pixel_png(), "image/png", &[0, 1, 3], &[0.0; 9], &[0.0; 9], &[0.0; 6]);
    assert!(matches!(Mesh::load("tri.glb", &c), Err(MeshLoadError::InvalidIndices { .. })));
}

#[test]
fn incomplete_triangle_is_refused() {
    let c = container(&one_pixel_png(), "image/png", &[0, 1], &[0.0; 9], &[0.0; 9], &[0.0; 6]);
    assert!(matches!(Mesh::load("tri.glb", &c), Err(MeshLoadError::InvalidIndices { .. })));
}

#[test]
fn undecodable_image_is_refused() {
    let c = container(&[1, 2, 3, 4], "image/png", &[0, 1, 2], &[0.0; 9], &[0.0; 9], &[0.0; 6]);
    assert!(matches!(Mesh::load("tri.glb", &c), Err(MeshLoadError::ImageDecodeFailed(_))));
}

#[test]
fn png_decodes_to_rgba_pixels() {
    let bytes = encode_png(2, 1, png::ColorType::Rgba, &[1, 2, 3, 4, 5, 6, 7, 8]);
    let texture = load_png(&bytes).unwrap();
    assert_eq!((texture.width, texture.height), (2, 1));
    assert_eq!(texture.pixels, vec![1, 2, 3, 4, 5, 6, 7, 8]);
    assert_eq!(texture.bytes_per_row(), 8);
    let extent = texture.extent();
    assert_eq!((extent.width, extent.height, extent.depth), (2, 1, 1));
}

#[test]
fn png_without_alpha_is_refused() {
    let bytes = encode_png(2, 2, png::ColorType::Rgb, &[0; 12]);
    match load_png(&bytes) {
        Err(MeshLoadError::UnsupportedPixelLayout { width, height, length }) => {
            assert_eq!((width, height, length), (2, 2, 12));
        }
        other => panic!("unexpected {:?}", other.map(|_| ())),
    }
}

#[test]
fn assets_file_the_decoded_cube() {
    let assets = Assets::load("assets/cube.glb", &triangle(), vec![3, 2, 1], vec![7]).unwrap();
    let cube = assets.models.find("cube").unwrap();
    assert_eq!(cube.indices, vec![0, 1, 2]);
    assert_eq!(cube.vertices.len(), 3);
    assert_eq!(assets.shaders.find("vertex"), Some(&vec![3, 2, 1]));
    assert_eq!(assets.shaders.find("fragment"), Some(&vec![7]));
    assert!(assets.models.find("sphere").is_none());
}
