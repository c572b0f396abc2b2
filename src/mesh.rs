use crate::conversions::{AsBytes, StepMode, VertexAttribute, VertexBufferLayout, VertexFormat, tiles_record};
use vstd::prelude::*;

verus! {

/// Three single-precision values, each held as its IEEE-754 bit pattern.
#[derive(Clone, Copy, Debug, PartialEq, Eq, Structural)]
pub struct Float3 {
    pub x: u32,
    pub y: u32,
    pub z: u32,
}

/// Two single-precision values, each held as its IEEE-754 bit pattern.
#[derive(Clone, Copy, Debug, PartialEq, Eq, Structural)]
pub struct Float2 {
    pub x: u32,
    pub y: u32,
}

/// One corner of a mesh: where it is, which way its surface faces, and where it
/// samples the texture.
#[derive(Clone, Copy, Debug, PartialEq, Eq, Structural)]
pub struct Vertex {
    pub position: Float3,
    pub normal: Float3,
    pub tex_coord: Float2,
}

/// The little-endian `u16` that starts at byte `2 * i`.
pub open spec fn u16_at(b: Seq<u8>, i: int) -> u16 {
    (b[2 * i] as int + 256 * b[2 * i + 1] as int) as u16
}

/// The little-endian `u32` that starts at byte `k`.
pub open spec fn u32_at(b: Seq<u8>, k: int) -> u32 {
    (b[k] as int + 256 * b[k + 1] as int + 65536 * b[k + 2] as int + 16777216 * b[k + 3] as int) as u32
}

/// The bytes read as consecutive little-endian `u16`s; a trailing odd byte is ignored.
pub open spec fn u16s_of(b: Seq<u8>) -> Seq<u16> {
    Seq::new(b.len() / 2, |i: int| u16_at(b, i))
}

pub open spec fn float3_at(b: Seq<u8>, k: int) -> Float3 {
    Float3 { x: u32_at(b, k), y: u32_at(b, k + 4), z: u32_at(b, k + 8) }
}

pub open spec fn float2_at(b: Seq<u8>, k: int) -> Float2 {
    Float2 { x: u32_at(b, k), y: u32_at(b, k + 4) }
}

/// The bytes read as consecutive 12-byte triples of little-endian words.
pub open spec fn float3s_of(b: Seq<u8>) -> Seq<Float3> {
    Seq::new(b.len() / 12, |i: int| float3_at(b, 12 * i))
}

/// The bytes read as consecutive 8-byte pairs of little-endian words.
pub open spec fn float2s_of(b: Seq<u8>) -> Seq<Float2> {
    Seq::new(b.len() / 8, |i: int| float2_at(b, 8 * i))
}

fn read_u32(bytes: &[u8], k: usize) -> (r: u32)
    requires
        k + 4 <= bytes@.len(),
    ensures
        r == u32_at(bytes@, k as int),
{
    bytes[k] as u32 + 256 * (bytes[k + 1] as u32) + 65536 * (bytes[k + 2] as u32) + 16777216 * (bytes[k + 3] as u32)
}

fn bytes_to_u16(bytes: &[u8]) -> (r: Vec<u16>)
    ensures
        r@ == u16s_of(bytes@),
{
    let n = bytes.len() / 2;
    let mut out: Vec<u16> = Vec::with_capacity(n);
    let mut i: usize = 0;
    while i < n
        invariant
            n == bytes@.len() / 2,
            bytes@.len() <= usize::MAX,
            i <= n,
            out@ == u16s_of(bytes@).take(i as int),
        decreases n - i,
    {
        assert(2 * i + 2 <= bytes@.len()) by (nonlinear_arith)
            requires
                i < n,
                n == bytes@.len() / 2,
        ;
        let v: u16 = bytes[2 * i] as u16 + 256 * (bytes[2 * i + 1] as u16);
        out.push(v);
        i += 1;
        assert(out@ =~= u16s_of(bytes@).take(i as int));
    }
    assert(out@ =~= u16s_of(bytes@));
    out
}

fn bytes_to_vector3(bytes: &[u8]) -> (r: Vec<Float3>)
    ensures
        r@ == float3s_of(bytes@),
{
    let n = bytes.len() / 12;
    let mut out: Vec<Float3> = Vec::with_capacity(n);
    let mut i: usize = 0;
    while i < n
        invariant
            n == bytes@.len() / 12,
            bytes@.len() <= usize::MAX,
            i <= n,
            out@ == float3s_of(bytes@).take(i as int),
        decreases n - i,
    {
        assert(12 * i + 12 <= bytes@.len()) by (nonlinear_arith)
            requires
                i < n,
                n == bytes@.len() / 12,
        ;
        let k = 12 * i;
        let v = Float3 { x: read_u32(bytes, k), y: read_u32(bytes, k + 4), z: read_u32(bytes, k + 8) };
        out.push(v);
        i += 1;
        assert(out@ =~= float3s_of(bytes@).take(i as int));
    }
    assert(out@ =~= float3s_of(bytes@));
    out
}

fn bytes_to_point2(bytes: &[u8]) -> (r: Vec<Float2>)
    ensures
        r@ == float2s_of(bytes@),
{
    let n = bytes.len() / 8;
    let mut out: Vec<Float2> = Vec::with_capacity(n);
    let mut i: usize = 0;
    while i < n
        invariant
            n == bytes@.len() / 8,
            bytes@.len() <= usize::MAX,
            i <= n,
            out@ == float2s_of(bytes@).take(i as int),
        decreases n - i,
    {
        assert(8 * i + 8 <= bytes@.len()) by (nonlinear_arith)
            requires
                i < n,
                n == bytes@.len() / 8,
        ;
        let k = 8 * i;
        let v = Float2 { x: read_u32(bytes, k), y: read_u32(bytes, k + 4) };
        out.push(v);
        i += 1;
        assert(out@ =~= float2s_of(bytes@).take(i as int));
    }
    assert(out@ =~= float2s_of(bytes@));
    out
}


/// Where a stream of data lies: a byte range of one of the container's buffers.
#[derive(Clone, Copy, Debug, PartialEq, Eq, Structural)]
pub struct BufferView {
    pub buffer: usize,
    pub offset: usize,
    pub length: usize,
}

/// A typed data stream; one without a buffer view has no data to read.
#[derive(Clone, Copy, Debug, PartialEq, Eq, Structural)]
pub struct Accessor {
    pub view: Option<BufferView>,
}

/// What a vertex attribute stream holds.
#[derive(Clone, Copy, Debug, PartialEq, Eq, Structural)]
pub enum Semantic {
    Positions,
    Normals,
    TexCoords(u32),
    Other,
}

#[derive(Clone, Copy, Debug)]
pub struct Attribute {
    pub semantic: Semantic,
    pub accessor: Accessor,
}

/// Where the pixels of an image come from.
#[derive(Clone, Debug)]
pub enum ImageSource {
    /// Encoded image bytes inside one of the container's buffers.
    View { view: BufferView, mime_type: String },
    /// An image in a file of its own.
    Uri { uri: String },
}

/// The base-color texture of a material, with the texture-coordinate set it samples with.
#[derive(Clone, Debug)]
pub struct BaseColorTexture {
    pub tex_coord: u32,
    pub source: ImageSource,
}

/// One drawable part of a mesh.
#[derive(Clone, Debug)]
pub struct Primitive {
    pub attributes: Vec<Attribute>,
    pub indices: Option<Accessor>,
    pub base_color_texture: Option<BaseColorTexture>,
}

#[derive(Clone, Debug)]
pub struct MeshEntry {
    pub name: Option<String>,
    pub primitives: Vec<Primitive>,
}

/// A 3D-asset container as the loader reads it: its binary buffers and its meshes,
/// whose data streams point into those buffers.
#[derive(Clone, Debug)]
pub struct Container {
    pub buffers: Vec<Vec<u8>>,
    pub meshes: Vec<MeshEntry>,
}

/// Decoded pixels: `width * height` pixels of 4 bytes each, row by row.
#[derive(Debug)]
pub struct Texture {
    pub pixels: Vec<u8>,
    pub width: u32,
    pub height: u32,
}

/// The size of a texture on the device.
#[derive(Clone, Copy, Debug, PartialEq, Eq, Structural)]
pub struct Extent3d {
    pub width: u32,
    pub height: u32,
    pub depth: u32,
}

impl Texture {
    pub open spec fn wf(&self) -> bool {
        self.pixels@.len() == self.width as int * self.height as int * 4
    }

    /// The number of bytes in one row of pixels.
    pub fn bytes_per_row(&self) -> (r: u32)
        requires
            self.width as int * 4 <= u32::MAX,
        ensures
            r == self.width as int * 4,
    {
        4 * self.width
    }

    pub fn extent(&self) -> (r: Extent3d)
        ensures
            r == (Extent3d { width: self.width, height: self.height, depth: 1 }),
    {
        Extent3d { width: self.width, height: self.height, depth: 1 }
    }
}

/// Decoded geometry and the texture it is drawn with.
#[derive(Debug)]
pub struct Mesh {
    pub indices: Vec<u16>,
    pub vertices: Vec<Vertex>,
    pub texture: Texture,
}

/// Every index names a vertex, and the indices come in whole triangles.
pub open spec fn valid_triangles(indices: Seq<u16>, vertex_count: nat) -> bool {
    &&& indices.len() % 3 == 0
    &&& forall|i: int| 0 <= i < indices.len() ==> (#[trigger] indices[i]) < vertex_count
}

impl Mesh {
    pub open spec fn wf(&self) -> bool {
        &&& valid_triangles(self.indices@, self.vertices@.len())
        &&& self.texture.wf()
    }
}

#[verifier::external_type_specification]
#[verifier::external_body]
pub struct ExGltfError(gltf::Error);

#[verifier::external_type_specification]
#[verifier::external_body]
pub struct ExPngDecodingError(png::DecodingError);

/// Why a container could not be turned into a `Mesh`.
#[derive(Debug)]
pub enum MeshLoadError {
    InvalidImport(gltf::Error),
    NoMesh { path: String },
    NoPrimitives { mesh: String, path: String },
    NoIndices { mesh: String },
    NoSemantic { mesh: String, semantic: Semantic },
    NoBaseColorTexture { mesh: String },
    /// The texture's image is a file of its own, which the loader does not read.
    ExternalImage { uri: String },
    UnsupportedImageFormat { mime_type: String },
    ImageDecodeFailed(png::DecodingError),
    /// The decoded image does not hold 4 bytes for each pixel.
    UnsupportedPixelLayout { width: u32, height: u32, length: usize },
    /// A data stream has no buffer view, or its view lies outside the buffers.
    InvalidView { mesh: String },
    /// A data stream's length is not a whole number of its elements.
    UnevenStream { mesh: String, length: usize, stride: usize },
    /// The indices do not form whole triangles of existing vertices.
    InvalidIndices { mesh: String },
}

/// `MeshLoadError` with its strings as character sequences and the outside
/// errors left out.
pub enum LoadFailure {
    InvalidImport,
    NoMesh { path: Seq<char> },
    NoPrimitives { mesh: Seq<char>, path: Seq<char> },
    NoIndices { mesh: Seq<char> },
    NoSemantic { mesh: Seq<char>, semantic: Semantic },
    NoBaseColorTexture { mesh: Seq<char> },
    ExternalImage { uri: Seq<char> },
    UnsupportedImageFormat { mime_type: Seq<char> },
    ImageDecodeFailed,
    UnsupportedPixelLayout { width: u32, height: u32, length: nat },
    InvalidView { mesh: Seq<char> },
    UnevenStream { mesh: Seq<char>, length: nat, stride: nat },
    InvalidIndices { mesh: Seq<char> },
}

impl View for MeshLoadError {
    type V = LoadFailure;

    open spec fn view(&self) -> LoadFailure {
        match self {
            MeshLoadError::InvalidImport(_) => LoadFailure::InvalidImport,
            MeshLoadError::NoMesh { path } => LoadFailure::NoMesh { path: path@ },
            MeshLoadError::NoPrimitives { mesh, path } => LoadFailure::NoPrimitives { mesh: mesh@, path: path@ },
            MeshLoadError::NoIndices { mesh } => LoadFailure::NoIndices { mesh: mesh@ },
            MeshLoadError::NoSemantic { mesh, semantic } => LoadFailure::NoSemantic { mesh: mesh@, semantic: *semantic },
            MeshLoadError::NoBaseColorTexture { mesh } => LoadFailure::NoBaseColorTexture { mesh: mesh@ },
            MeshLoadError::ExternalImage { uri } => LoadFailure::ExternalImage { uri: uri@ },
            MeshLoadError::UnsupportedImageFormat { mime_type } => LoadFailure::UnsupportedImageFormat { mime_type: mime_type@ },
            MeshLoadError::ImageDecodeFailed(_) => LoadFailure::ImageDecodeFailed,
            MeshLoadError::UnsupportedPixelLayout { width, height, length } => LoadFailure::UnsupportedPixelLayout { width: *width, height: *height, length: *length as nat },
            MeshLoadError::InvalidView { mesh } => LoadFailure::InvalidView { mesh: mesh@ },
            MeshLoadError::UnevenStream { mesh, length, stride } => LoadFailure::UnevenStream { mesh: mesh@, length: *length as nat, stride: *stride as nat },
            MeshLoadError::InvalidIndices { mesh } => LoadFailure::InvalidIndices { mesh: mesh@ },
        }
    }
}

impl From<gltf::Error> for MeshLoadError {
    fn from(err: gltf::Error) -> (r: Self)
        ensures
            r is InvalidImport,
    {
        MeshLoadError::InvalidImport(err)
    }
}

impl vstd::std_specs::convert::FromSpecImpl<gltf::Error> for MeshLoadError {
    open spec fn obeys_from_spec() -> bool {
        true
    }

    open spec fn from_spec(v: gltf::Error) -> Self {
        MeshLoadError::InvalidImport(v)
    }
}


impl From<png::DecodingError> for MeshLoadError {
    fn from(err: png::DecodingError) -> (r: Self)
        ensures
            r is ImageDecodeFailed,
    {
        MeshLoadError::ImageDecodeFailed(err)
    }
}

impl vstd::std_specs::convert::FromSpecImpl<png::DecodingError> for MeshLoadError {
    open spec fn obeys_from_spec() -> bool {
        true
    }

    open spec fn from_spec(v: png::DecodingError) -> Self {
        MeshLoadError::ImageDecodeFailed(v)
    }
}

/// What a PNG file decodes to: width, height and the pixel bytes; `None` where
/// the bytes are not a PNG image that the decoder accepts.
pub uninterp spec fn png_image(bytes: Seq<u8>) -> Option<(u32, u32, Seq<u8>)>;

/// Relies on png's `Decoder`: `read_info` parses the header, `output_buffer_size`
/// gives the size of one frame, and `next_frame` fills it with the pixels.
#[verifier::external_body]
fn decode_png(bytes: &[u8]) -> (r: Result<(u32, u32, Vec<u8>), png::DecodingError>)
    ensures
        match r {
            Ok((w, h, pixels)) => png_image(bytes@) == Some((w, h, pixels@)),
            Err(_) => png_image(bytes@) is None,
        },
{
    let mut reader = png::Decoder::new(bytes).read_info()?;
    let mut pixels = vec![0u8; reader.output_buffer_size()];
    let info = reader.next_frame(&mut pixels)?;
    Ok((info.width, info.height, pixels))
}

/// The name that errors about a mesh give it.
pub open spec fn mesh_label(mesh: MeshEntry) -> Seq<char> {
    match mesh.name {
        Some(n) => n@,
        None => "<unknown>"@,
    }
}

/// The bytes that a view covers, if it lies inside the buffers.
pub open spec fn view_bytes(buffers: Seq<Vec<u8>>, v: BufferView) -> Option<Seq<u8>> {
    if v.buffer < buffers.len() && v.offset + v.length <= buffers[v.buffer as int]@.len() {
        Some(buffers[v.buffer as int]@.subrange(v.offset as int, v.offset + v.length))
    } else {
        None
    }
}

/// The accessor of the first attribute with the given semantic.
pub open spec fn attribute_of(attrs: Seq<Attribute>, semantic: Semantic) -> Option<Accessor>
    decreases attrs.len(),
{
    if attrs.len() == 0 {
        None
    } else if attrs[0].semantic == semantic {
        Some(attrs[0].accessor)
    } else {
        attribute_of(attrs.drop_first(), semantic)
    }
}

/// The bytes of a stream of `stride`-byte elements, or why they cannot be read.
pub open spec fn stream_spec(buffers: Seq<Vec<u8>>, mesh: Seq<char>, acc: Accessor, stride: nat) -> Result<Seq<u8>, LoadFailure> {
    match acc.view {
        None => Err(LoadFailure::InvalidView { mesh }),
        Some(v) => match view_bytes(buffers, v) {
            None => Err(LoadFailure::InvalidView { mesh }),
            Some(b) => if b.len() % stride == 0 {
                Ok(b)
            } else {
                Err(LoadFailure::UnevenStream { mesh, length: b.len(), stride })
            },
        },
    }
}

/// The bytes of the primitive's attribute stream with the given semantic.
pub open spec fn attribute_spec(buffers: Seq<Vec<u8>>, mesh: Seq<char>, p: Primitive, semantic: Semantic, stride: nat) -> Result<Seq<u8>, LoadFailure> {
    match attribute_of(p.attributes@, semantic) {
        None => Err(LoadFailure::NoSemantic { mesh, semantic }),
        Some(acc) => stream_spec(buffers, mesh, acc, stride),
    }
}

/// Decoded pixels, as a texture model: width, height, pixel bytes.
pub struct TextureModel {
    pub width: u32,
    pub height: u32,
    pub pixels: Seq<u8>,
}

pub open spec fn png_mime() -> Seq<char> {
    "image/png"@
}

/// The texture that an image source decodes to, or why it does not.
pub open spec fn texture_spec(buffers: Seq<Vec<u8>>, mesh: Seq<char>, source: ImageSource) -> Result<TextureModel, LoadFailure> {
    match source {
        ImageSource::Uri { uri } => Err(LoadFailure::ExternalImage { uri: uri@ }),
        ImageSource::View { view, mime_type } => if mime_type@ != png_mime() {
            Err(LoadFailure::UnsupportedImageFormat { mime_type: mime_type@ })
        } else {
            match view_bytes(buffers, view) {
                None => Err(LoadFailure::InvalidView { mesh }),
                Some(b) => match png_image(b) {
                    None => Err(LoadFailure::ImageDecodeFailed),
                    Some((w, h, px)) => if px.len() == w as int * h as int * 4 {
                        Ok(TextureModel { width: w, height: h, pixels: px })
                    } else {
                        Err(LoadFailure::UnsupportedPixelLayout { width: w, height: h, length: px.len() })
                    },
                },
            }
        },
    }
}

/// Vertices built from the three attribute streams, as many as the shortest has.
pub open spec fn zip_vertices(positions: Seq<Float3>, normals: Seq<Float3>, tex_coords: Seq<Float2>) -> Seq<Vertex> {
    let n = if positions.len() <= normals.len() { positions.len() } else { normals.len() };
    let n = if n <= tex_coords.len() { n } else { tex_coords.len() };
    Seq::new(n, |i: int| Vertex { position: positions[i], normal: normals[i], tex_coord: tex_coords[i] })
}

/// A decoded mesh, as a model.
pub struct MeshModel {
    pub indices: Seq<u16>,
    pub vertices: Seq<Vertex>,
    pub texture: TextureModel,
}

impl Mesh {
    pub open spec fn model(&self) -> MeshModel {
        MeshModel {
            indices: self.indices@,
            vertices: self.vertices@,
            texture: TextureModel { width: self.texture.width, height: self.texture.height, pixels: self.texture.pixels@ },
        }
    }
}

/// What loading the first primitive of the first mesh gives: the texture is
/// decoded first, then the texture-coordinate, index, position and normal streams
/// are read in that order; the first failure is the one reported.
pub open spec fn load_spec(path: Seq<char>, c: Container) -> Result<MeshModel, LoadFailure> {
    if c.meshes@.len() == 0 {
        Err(LoadFailure::NoMesh { path })
    } else {
        let mesh = c.meshes@[0];
        let label = mesh_label(mesh);
        let buffers = c.buffers@;
        if mesh.primitives@.len() == 0 {
            Err(LoadFailure::NoPrimitives { mesh: label, path })
        } else {
            let p = mesh.primitives@[0];
            match p.base_color_texture {
                None => Err(LoadFailure::NoBaseColorTexture { mesh: label }),
                Some(base) => match texture_spec(buffers, label, base.source) {
                    Err(e) => Err(e),
                    Ok(texture) => match attribute_spec(buffers, label, p, Semantic::TexCoords(base.tex_coord), 8) {
                        Err(e) => Err(e),
                        Ok(tex_bytes) => match p.indices {
                            None => Err(LoadFailure::NoIndices { mesh: label }),
                            Some(ia) => match stream_spec(buffers, label, ia, 2) {
                                Err(e) => Err(e),
                                Ok(index_bytes) => match attribute_spec(buffers, label, p, Semantic::Positions, 12) {
                                    Err(e) => Err(e),
                                    Ok(pos_bytes) => match attribute_spec(buffers, label, p, Semantic::Normals, 12) {
                                        Err(e) => Err(e),
                                        Ok(normal_bytes) => {
                                            let indices = u16s_of(index_bytes);
                                            let vertices = zip_vertices(float3s_of(pos_bytes), float3s_of(normal_bytes), float2s_of(tex_bytes));
                                            if valid_triangles(indices, vertices.len()) {
                                                Ok(MeshModel { indices, vertices, texture })
                                            } else {
                                                Err(LoadFailure::InvalidIndices { mesh: label })
                                            }
                                        },
                                    },
                                },
                            },
                        },
                    },
                },
            }
        }
    }
}


fn mesh_name(mesh: &MeshEntry) -> (r: String)
    ensures
        r@ == mesh_label(*mesh),
{
    match &mesh.name {
        Some(n) => n.clone(),
        None => "<unknown>".to_string(),
    }
}

fn access_bytes<'a>(buffers: &'a Vec<Vec<u8>>, view: &BufferView) -> (r: Option<&'a [u8]>)
    ensures
        match r {
            Some(b) => view_bytes(buffers@, *view) == Some(b@),
            None => view_bytes(buffers@, *view) is None,
        },
{
    if view.buffer >= buffers.len() {
        return None;
    }
    let buffer = &buffers[view.buffer];
    if view.length > buffer.len() || view.offset > buffer.len() - view.length {
        return None;
    }
    Some(&buffer.as_slice()[view.offset..view.offset + view.length])
}

fn find_attribute(primitive: &Primitive, semantic: Semantic) -> (r: Option<Accessor>)
    ensures
        r == attribute_of(primitive.attributes@, semantic),
{
    let attrs = &primitive.attributes;
    let mut i: usize = 0;
    assert(attrs@.subrange(0, attrs@.len() as int) =~= attrs@);
    while i < attrs.len()
        invariant
            attrs == &primitive.attributes,
            i <= attrs@.len(),
            attribute_of(attrs@, semantic) == attribute_of(attrs@.subrange(i as int, attrs@.len() as int), semantic),
        decreases attrs@.len() - i,
    {
        proof {
            let rest = attrs@.subrange(i as int, attrs@.len() as int);
            assert(rest[0] == attrs@[i as int]);
            assert(rest.drop_first() =~= attrs@.subrange(i + 1, attrs@.len() as int));
        }
        if attrs[i].semantic == semantic {
            return Some(attrs[i].accessor);
        }
        i += 1;
    }
    None
}

fn accessor_bytes<'a>(buffers: &'a Vec<Vec<u8>>, mesh: &MeshEntry, accessor: &Accessor, stride: usize) -> (r: Result<&'a [u8], MeshLoadError>)
    requires
        stride > 0,
    ensures
        match r {
            Ok(b) => stream_spec(buffers@, mesh_label(*mesh), *accessor, stride as nat) == Ok::<Seq<u8>, LoadFailure>(b@),
            Err(e) => stream_spec(buffers@, mesh_label(*mesh), *accessor, stride as nat) == Err::<Seq<u8>, LoadFailure>(e@),
        },
{
    let view = match &accessor.view {
        Some(v) => v,
        None => return Err(MeshLoadError::InvalidView { mesh: mesh_name(mesh) }),
    };
    let bytes = match access_bytes(buffers, view) {
        Some(b) => b,
        None => return Err(MeshLoadError::InvalidView { mesh: mesh_name(mesh) }),
    };
    if bytes.len() % stride != 0 {
        return Err(MeshLoadError::UnevenStream { mesh: mesh_name(mesh), length: bytes.len(), stride });
    }
    Ok(bytes)
}

fn attribute_bytes<'a>(buffers: &'a Vec<Vec<u8>>, mesh: &MeshEntry, primitive: &Primitive, semantic: Semantic, stride: usize) -> (r: Result<&'a [u8], MeshLoadError>)
    requires
        stride > 0,
    ensures
        match r {
            Ok(b) => attribute_spec(buffers@, mesh_label(*mesh), *primitive, semantic, stride as nat) == Ok::<Seq<u8>, LoadFailure>(b@),
            Err(e) => attribute_spec(buffers@, mesh_label(*mesh), *primitive, semantic, stride as nat) == Err::<Seq<u8>, LoadFailure>(e@),
        },
{
    match find_attribute(primitive, semantic) {
        Some(acc) => accessor_bytes(buffers, mesh, &acc, stride),
        None => Err(MeshLoadError::NoSemantic { mesh: mesh_name(mesh), semantic }),
    }
}

/// Decodes a PNG image into a texture of 4 bytes per pixel.
pub fn load_png(bytes: &[u8]) -> (r: Result<Texture, MeshLoadError>)
    ensures
        match png_image(bytes@) {
            None => r matches Err(MeshLoadError::ImageDecodeFailed(_)),
            Some((w, h, px)) => if px.len() == w as int * h as int * 4 {
                r matches Ok(t) && t.width == w && t.height == h && t.pixels@ == px
            } else {
                r matches Err(e) && e@ == (LoadFailure::UnsupportedPixelLayout { width: w, height: h, length: px.len() })
            },
        },
        r matches Ok(t) ==> t.wf(),
{
    match decode_png(bytes) {
        Err(e) => Err(MeshLoadError::ImageDecodeFailed(e)),
        Ok((width, height, pixels)) => {
            assert(width as u64 * height as u64 <= u64::MAX) by (nonlinear_arith)
                requires
                    width <= u32::MAX,
                    height <= u32::MAX,
            ;
            let expected: u64 = width as u64 * height as u64;
            if expected <= u64::MAX / 4 && pixels.len() as u64 == expected * 4 {
                Ok(Texture { pixels, width, height })
            } else {
                Err(MeshLoadError::UnsupportedPixelLayout { width, height, length: pixels.len() })
            }
        },
    }
}

fn load_texture(buffers: &Vec<Vec<u8>>, mesh: &MeshEntry, source: &ImageSource) -> (r: Result<Texture, MeshLoadError>)
    ensures
        match r {
            Ok(t) => texture_spec(buffers@, mesh_label(*mesh), *source) == Ok::<TextureModel, LoadFailure>(TextureModel { width: t.width, height: t.height, pixels: t.pixels@ }),
            Err(e) => texture_spec(buffers@, mesh_label(*mesh), *source) == Err::<TextureModel, LoadFailure>(e@),
        },
{
    match source {
        ImageSource::Uri { uri } => Err(MeshLoadError::ExternalImage { uri: uri.clone() }),
        ImageSource::View { view, mime_type } => {
            let png = "image/png".to_string();
            if !(*mime_type == png) {
                return Err(MeshLoadError::UnsupportedImageFormat { mime_type: mime_type.clone() });
            }
            match access_bytes(buffers, view) {
                None => Err(MeshLoadError::InvalidView { mesh: mesh_name(mesh) }),
                Some(bytes) => load_png(bytes),
            }
        },
    }
}

fn zip_streams(positions: &Vec<Float3>, normals: &Vec<Float3>, tex_coords: &Vec<Float2>) -> (r: Vec<Vertex>)
    ensures
        r@ == zip_vertices(positions@, normals@, tex_coords@),
{
    let mut n = positions.len();
    if normals.len() < n {
        n = normals.len();
    }
    if tex_coords.len() < n {
        n = tex_coords.len();
    }
    let mut out: Vec<Vertex> = Vec::with_capacity(n);
    let mut i: usize = 0;
    while i < n
        invariant
            n == zip_vertices(positions@, normals@, tex_coords@).len(),
            i <= n,
            out@ == zip_vertices(positions@, normals@, tex_coords@).take(i as int),
        decreases n - i,
    {
        out.push(Vertex { position: positions[i], normal: normals[i], tex_coord: tex_coords[i] });
        i += 1;
        assert(out@ =~= zip_vertices(positions@, normals@, tex_coords@).take(i as int));
    }
    assert(out@ =~= zip_vertices(positions@, normals@, tex_coords@));
    out
}

fn forms_triangles(indices: &Vec<u16>, vertex_count: usize) -> (r: bool)
    ensures
        r == valid_triangles(indices@, vertex_count as nat),
{
    if indices.len() % 3 != 0 {
        return false;
    }
    let mut i: usize = 0;
    while i < indices.len()
        invariant
            i <= indices@.len(),
            forall|j: int| 0 <= j < i ==> (#[trigger] indices@[j]) < vertex_count,
        decreases indices@.len() - i,
    {
        if indices[i] as usize >= vertex_count {
            return false;
        }
        i += 1;
    }
    true
}

impl Mesh {
    /// Decodes the first primitive of the first mesh of a container read from
    /// `path`: its index stream, its vertices and its base-color texture.
    pub fn load(path: &str, container: &Container) -> (r: Result<Mesh, MeshLoadError>)
        ensures
            match r {
                Ok(m) => load_spec(path@, *container) == Ok::<MeshModel, LoadFailure>(m.model()),
                Err(e) => load_spec(path@, *container) == Err::<MeshModel, LoadFailure>(e@),
            },
            r matches Ok(m) ==> m.wf(),
    {
        if container.meshes.len() == 0 {
            return Err(MeshLoadError::NoMesh { path: path.to_string() });
        }
        let mesh_doc = &container.meshes[0];
        if mesh_doc.primitives.len() == 0 {
            return Err(MeshLoadError::NoPrimitives { mesh: mesh_name(mesh_doc), path: path.to_string() });
        }
        let primitive = &mesh_doc.primitives[0];
        let base_color_texture = match &primitive.base_color_texture {
            Some(t) => t,
            None => return Err(MeshLoadError::NoBaseColorTexture { mesh: mesh_name(mesh_doc) }),
        };
        let buffers = &container.buffers;
        let texture = match load_texture(buffers, mesh_doc, &base_color_texture.source) {
            Ok(t) => t,
            Err(e) => return Err(e),
        };
        let tex_coord_bytes = match attribute_bytes(buffers, mesh_doc, primitive, Semantic::TexCoords(base_color_texture.tex_coord), 8) {
            Ok(b) => b,
            Err(e) => return Err(e),
        };
        let tex_coords = bytes_to_point2(tex_coord_bytes);
        let indices_doc = match &primitive.indices {
            Some(a) => a,
            None => return Err(MeshLoadError::NoIndices { mesh: mesh_name(mesh_doc) }),
        };
        let index_bytes = match accessor_bytes(buffers, mesh_doc, indices_doc, 2) {
            Ok(b) => b,
            Err(e) => return Err(e),
        };
        let indices = bytes_to_u16(index_bytes);
        let position_bytes = match attribute_bytes(buffers, mesh_doc, primitive, Semantic::Positions, 12) {
            Ok(b) => b,
            Err(e) => return Err(e),
        };
        let positions = bytes_to_vector3(position_bytes);
        let normal_bytes = match attribute_bytes(buffers, mesh_doc, primitive, Semantic::Normals, 12) {
            Ok(b) => b,
            Err(e) => return Err(e),
        };
        let normals = bytes_to_vector3(normal_bytes);
        let vertices = zip_streams(&positions, &normals, &tex_coords);
        if !forms_triangles(&indices, vertices.len()) {
            return Err(MeshLoadError::InvalidIndices { mesh: mesh_name(mesh_doc) });
        }
        Ok(Mesh { indices, vertices, texture })
    }
}


/// A first primitive without a base-color texture is refused for that reason,
/// naming its mesh.
pub proof fn lemma_missing_base_color_texture(path: Seq<char>, c: Container)
    requires
        c.meshes@.len() > 0,
        c.meshes@[0].primitives@.len() > 0,
        c.meshes@[0].primitives@[0].base_color_texture is None,
    ensures
        load_spec(path, c) == Err::<MeshModel, LoadFailure>(LoadFailure::NoBaseColorTexture { mesh: mesh_label(c.meshes@[0]) }),
{
}

/// An embedded base-color image whose declared type is not PNG is refused,
/// carrying that type unchanged.
pub proof fn lemma_unsupported_image_type(path: Seq<char>, c: Container)
    requires
        c.meshes@.len() > 0,
        c.meshes@[0].primitives@.len() > 0,
        c.meshes@[0].primitives@[0].base_color_texture matches Some(t) && t.source is View,
        c.meshes@[0].primitives@[0].base_color_texture->Some_0.source->mime_type@ != png_mime(),
    ensures
        load_spec(path, c) == Err::<MeshModel, LoadFailure>(LoadFailure::UnsupportedImageFormat {
            mime_type: c.meshes@[0].primitives@[0].base_color_texture->Some_0.source->mime_type@,
        }),
{
}


impl Vertex {
    /// The layout of a vertex buffer of `Vertex` records: position at location 0,
    /// normal at 1, texture coordinate at 2, packed in that order.
    pub fn buffer_descriptor() -> (r: VertexBufferLayout)
        ensures
            r.stride == 32,
            r.step_mode == StepMode::Vertex,
            r.attributes@ == seq![
                VertexAttribute { location: 0, format: VertexFormat::Float3, offset: 0 },
                VertexAttribute { location: 1, format: VertexFormat::Float3, offset: 12 },
                VertexAttribute { location: 2, format: VertexFormat::Float2, offset: 24 },
            ],
            tiles_record(r.attributes@, r.stride as nat),
            forall|v: Vertex| #[trigger] v.byte_view().len() == r.stride,
    {
        let attributes = vec![
            VertexAttribute { location: 0, format: VertexFormat::Float3, offset: 0 },
            VertexAttribute { location: 1, format: VertexFormat::Float3, offset: 12 },
            VertexAttribute { location: 2, format: VertexFormat::Float2, offset: 24 },
        ];
        let r = VertexBufferLayout { stride: 32, step_mode: StepMode::Vertex, attributes };
        assert(r.attributes@[1].offset == r.attributes@[0].offset + 12);
        assert(r.attributes@[2].offset == r.attributes@[1].offset + 12);
        r
    }
}


/// Whatever the loader accepts is a triangle list over its own vertices: the
/// index count is a multiple of three and every index names a vertex.
pub proof fn lemma_loaded_mesh_is_triangle_list(path: Seq<char>, c: Container)
    requires
        load_spec(path, c) is Ok,
    ensures
        load_spec(path, c)->Ok_0.indices.len() % 3 == 0,
        forall|i: int| 0 <= i < load_spec(path, c)->Ok_0.indices.len()
            ==> (#[trigger] load_spec(path, c)->Ok_0.indices[i]) < load_spec(path, c)->Ok_0.vertices.len(),
{
}


/// A well-formed container holding `n` triangles: its first primitive has a
/// decodable embedded PNG base-color texture of 4 bytes per pixel, readable
/// texture-coordinate, position and normal streams, and an index stream of
/// `3 * n` indices that all name existing vertices.
pub open spec fn well_formed_with_triangles(c: Container, n: nat) -> bool {
    &&& c.meshes@.len() > 0
    &&& c.meshes@[0].primitives@.len() > 0
    &&& {
        let label = mesh_label(c.meshes@[0]);
        let buffers = c.buffers@;
        let p = c.meshes@[0].primitives@[0];
        &&& p.base_color_texture matches Some(t)
        &&& texture_spec(buffers, label, t.source) is Ok
        &&& attribute_spec(buffers, label, p, Semantic::TexCoords(t.tex_coord), 8) is Ok
        &&& p.indices matches Some(ia)
        &&& stream_spec(buffers, label, ia, 2) matches Ok(ib)
        &&& ib.len() == 6 * n
        &&& attribute_spec(buffers, label, p, Semantic::Positions, 12) matches Ok(pb)
        &&& attribute_spec(buffers, label, p, Semantic::Normals, 12) matches Ok(nb)
        &&& forall|i: int| 0 <= i < u16s_of(ib).len() ==> (#[trigger] u16s_of(ib)[i]) < zip_vertices(
            float3s_of(pb),
            float3s_of(nb),
            float2s_of(attribute_spec(buffers, label, p, Semantic::TexCoords(t.tex_coord), 8)->Ok_0),
        ).len()
    }
}

/// A well-formed container of `n` triangles loads, giving `3 * n` indices that
/// all name decoded vertices.
pub proof fn lemma_well_formed_container_loads(path: Seq<char>, c: Container, n: nat)
    requires
        well_formed_with_triangles(c, n),
    ensures
        load_spec(path, c) is Ok,
        load_spec(path, c)->Ok_0.indices.len() == 3 * n,
        load_spec(path, c)->Ok_0.indices.len() % 3 == 0,
        forall|i: int| 0 <= i < load_spec(path, c)->Ok_0.indices.len()
            ==> (#[trigger] load_spec(path, c)->Ok_0.indices[i]) < load_spec(path, c)->Ok_0.vertices.len(),
{
    let p = c.meshes@[0].primitives@[0];
    let ib = stream_spec(c.buffers@, mesh_label(c.meshes@[0]), p.indices->Some_0, 2)->Ok_0;
    assert(u16s_of(ib).len() == 3 * n) by (nonlinear_arith)
        requires
            u16s_of(ib).len() == ib.len() / 2,
            ib.len() == 6 * n,
    ;
}

} // verus!
