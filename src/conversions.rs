use crate::mesh::{Float2, Float3, Vertex};
use vstd::prelude::*;

verus! {

/// The four little-endian bytes of a word.
pub open spec fn word_bytes(w: u32) -> Seq<u8> {
    seq![(w % 256) as u8, ((w / 256) % 256) as u8, ((w / 65536) % 256) as u8, (w / 16777216) as u8]
}

pub open spec fn float3_bytes(v: Float3) -> Seq<u8> {
    word_bytes(v.x) + word_bytes(v.y) + word_bytes(v.z)
}

pub open spec fn float2_bytes(v: Float2) -> Seq<u8> {
    word_bytes(v.x) + word_bytes(v.y)
}

/// Values with a fixed byte image, as a device buffer holds them.
pub trait AsBytes {
    spec fn byte_view(&self) -> Seq<u8>;

    fn as_bytes(&self) -> (r: Vec<u8>)
        ensures
            r@ == self.byte_view(),
    ;
}

fn push_word(out: &mut Vec<u8>, w: u32)
    ensures
        final(out)@ == old(out)@ + word_bytes(w),
{
    out.push((w % 256) as u8);
    out.push(((w / 256) % 256) as u8);
    out.push(((w / 65536) % 256) as u8);
    out.push((w / 16777216) as u8);
    assert(final(out)@ =~= old(out)@ + word_bytes(w));
}

impl AsBytes for u16 {
    open spec fn byte_view(&self) -> Seq<u8> {
        seq![(*self % 256) as u8, (*self / 256) as u8]
    }

    fn as_bytes(&self) -> (r: Vec<u8>) {
        let mut out: Vec<u8> = Vec::with_capacity(2);
        out.push((*self % 256) as u8);
        out.push((*self / 256) as u8);
        assert(out@ =~= self.byte_view());
        out
    }
}

impl AsBytes for Vertex {
    /// Position, normal and texture coordinate, each word little-endian: the
    /// 32-byte record that the vertex layout describes.
    open spec fn byte_view(&self) -> Seq<u8> {
        float3_bytes(self.position) + float3_bytes(self.normal) + float2_bytes(self.tex_coord)
    }

    fn as_bytes(&self) -> (r: Vec<u8>) {
        let mut out: Vec<u8> = Vec::with_capacity(32);
        push_word(&mut out, self.position.x);
        push_word(&mut out, self.position.y);
        push_word(&mut out, self.position.z);
        push_word(&mut out, self.normal.x);
        push_word(&mut out, self.normal.y);
        push_word(&mut out, self.normal.z);
        push_word(&mut out, self.tex_coord.x);
        push_word(&mut out, self.tex_coord.y);
        assert(out@ =~= self.byte_view());
        out
    }
}

impl AsBytes for Vec<u8> {
    open spec fn byte_view(&self) -> Seq<u8> {
        self@
    }

    fn as_bytes(&self) -> (r: Vec<u8>) {
        self.clone()
    }
}


/// Usage bits of a device buffer.
pub const VERTEX: u32 = 0x1;
pub const INDEX: u32 = 0x2;
pub const UNIFORM: u32 = 0x4;
pub const TRANSFER_SRC: u32 = 0x8;
pub const TRANSFER_DST: u32 = 0x10;

/// The byte images of the items, one after another.
pub open spec fn items_bytes<T: AsBytes>(items: Seq<T>) -> Seq<u8> {
    items.map_values(|t: T| t.byte_view()).flatten()
}

/// The slices, one after another, with nothing between them.
pub open spec fn concat_slices(slices: Seq<&[u8]>) -> Seq<u8> {
    slices.map_values(|s: &[u8]| s@).flatten()
}

/// One slot of a bind group: a buffer bound at `binding`, over the byte range
/// that starts at `offset` and holds `size` bytes.
#[derive(Clone, Copy, Debug, PartialEq, Eq, Structural)]
pub struct BufferBinding {
    pub binding: u32,
    pub offset: u32,
    pub size: u32,
}

/// The contents of one device buffer as the host builds them, with its usage
/// bits and its length: a count of elements for a typed array, else of bytes.
pub struct GpuBuffer {
    pub len: u32,
    pub usage: u32,
    pub contents: Vec<u8>,
}

fn append_bytes(out: &mut Vec<u8>, bytes: &[u8])
    ensures
        final(out)@ == old(out)@ + bytes@,
{
    let mut i: usize = 0;
    while i < bytes.len()
        invariant
            i <= bytes@.len(),
            out@ == old(out)@ + bytes@.take(i as int),
        decreases bytes@.len() - i,
    {
        out.push(bytes[i]);
        i += 1;
        assert(out@ =~= old(out)@ + bytes@.take(i as int));
    }
    assert(bytes@.take(bytes@.len() as int) =~= bytes@);
}

impl GpuBuffer {
    /// A buffer of the items' byte images; its length is the number of items.
    pub fn new<T: AsBytes>(buffer_usage: u32, contents: &[T]) -> (r: GpuBuffer)
        requires
            contents@.len() <= u32::MAX,
        ensures
            r.len == contents@.len(),
            r.usage == buffer_usage,
            r.contents@ == items_bytes(contents@),
    {
        let mut out: Vec<u8> = Vec::new();
        let mut i: usize = 0;
        while i < contents.len()
            invariant
                i <= contents@.len(),
                out@ == items_bytes(contents@.take(i as int)),
            decreases contents@.len() - i,
        {
            let mut item = contents[i].as_bytes();
            proof {
                let pre = contents@.take(i as int).map_values(|t: T| t.byte_view());
                assert(contents@.take(i + 1).map_values(|t: T| t.byte_view()) =~= pre.push(contents@[i as int].byte_view()));
                pre.lemma_flatten_push(contents@[i as int].byte_view());
            }
            out.append(&mut item);
            i += 1;
        }
        assert(contents@.take(contents@.len() as int) =~= contents@);
        GpuBuffer { len: contents.len() as u32, usage: buffer_usage, contents: out }
    }

    /// A buffer of one item's byte image; its length is one element.
    pub fn from_single<T: AsBytes>(buffer_usage: u32, item: T) -> (r: GpuBuffer)
        ensures
            r.len == 1,
            r.usage == buffer_usage,
            r.contents@ == item.byte_view(),
    {
        let bytes = item.as_bytes();
        GpuBuffer { len: 1, usage: buffer_usage, contents: bytes }
    }

    /// A buffer of the bytes; its length is their number.
    pub fn from_bytes(buffer_usage: u32, bytes: &[u8]) -> (r: GpuBuffer)
        requires
            bytes@.len() <= u32::MAX,
        ensures
            r.len == bytes@.len(),
            r.usage == buffer_usage,
            r.contents@ == bytes@,
    {
        let mut out: Vec<u8> = Vec::new();
        append_bytes(&mut out, bytes);
        GpuBuffer { len: bytes.len() as u32, usage: buffer_usage, contents: out }
    }

    /// A buffer of the slices packed one after another; its length is the total
    /// number of bytes.
    pub fn from_byte_slices(buffer_usage: u32, bytes: &[&[u8]]) -> (r: GpuBuffer)
        requires
            concat_slices(bytes@).len() <= u32::MAX,
        ensures
            r.len == concat_slices(bytes@).len(),
            r.usage == buffer_usage,
            r.contents@ == concat_slices(bytes@),
    {
        let mut out: Vec<u8> = Vec::new();
        let mut i: usize = 0;
        while i < bytes.len()
            invariant
                i <= bytes@.len(),
                out@ == concat_slices(bytes@.take(i as int)),
            decreases bytes@.len() - i,
        {
            proof {
                let pre = bytes@.take(i as int).map_values(|s: &[u8]| s@);
                assert(bytes@.take(i + 1).map_values(|s: &[u8]| s@) =~= pre.push(bytes@[i as int]@));
                pre.lemma_flatten_push(bytes@[i as int]@);
            }
            append_bytes(&mut out, bytes[i]);
            i += 1;
        }
        assert(bytes@.take(bytes@.len() as int) =~= bytes@);
        GpuBuffer { len: out.len() as u32, usage: buffer_usage, contents: out }
    }

    /// A buffer of one row per item, each row the byte image of what `transform`
    /// makes of the item; its length is the number of items.
    pub fn from_transformed_slice<A, B: AsBytes, F: Fn(&A) -> B>(buffer_usage: u32, items: &[A], transform: F) -> (r: GpuBuffer)
        requires
            items@.len() <= u32::MAX,
            forall|i: int| 0 <= i < items@.len() ==> transform.requires((&items@[i],)),
        ensures
            r.len == items@.len(),
            r.usage == buffer_usage,
            exists|rows: Seq<B>|
                {
                    &&& rows.len() == items@.len()
                    &&& forall|i: int| 0 <= i < items@.len() ==> transform.ensures((&items@[i],), #[trigger] rows[i])
                    &&& r.contents@ == items_bytes(rows)
                },
    {
        let mut out: Vec<u8> = Vec::new();
        let ghost mut rows: Seq<B> = Seq::empty();
        let mut i: usize = 0;
        while i < items.len()
            invariant
                i <= items@.len(),
                forall|j: int| 0 <= j < items@.len() ==> transform.requires((&items@[j],)),
                rows.len() == i,
                forall|j: int| 0 <= j < i ==> transform.ensures((&items@[j],), #[trigger] rows[j]),
                out@ == items_bytes(rows),
            decreases items@.len() - i,
        {
            let row = transform(&items[i]);
            let mut row_bytes = row.as_bytes();
            proof {
                let pre = rows.map_values(|t: B| t.byte_view());
                assert(rows.push(row).map_values(|t: B| t.byte_view()) =~= pre.push(row.byte_view()));
                pre.lemma_flatten_push(row.byte_view());
                rows = rows.push(row);
            }
            out.append(&mut row_bytes);
            i += 1;
        }
        GpuBuffer { len: items.len() as u32, usage: buffer_usage, contents: out }
    }

    /// The binding at slot `binding_index` of the buffer's whole byte range.
    pub fn binding(&self, binding_index: u32) -> (r: BufferBinding)
        requires
            self.contents@.len() <= u32::MAX,
        ensures
            r == (BufferBinding { binding: binding_index, offset: 0, size: self.contents@.len() as u32 }),
    {
        BufferBinding { binding: binding_index, offset: 0, size: self.contents.len() as u32 }
    }

    /// Copies this buffer's bytes over the start of `destination`, keeping the
    /// rest of it; returns the number of bytes copied.
    pub fn copy_to_buffer(&self, destination: &mut GpuBuffer) -> (size: usize)
        requires
            self.contents@.len() <= old(destination).contents@.len(),
        ensures
            size == self.contents@.len(),
            final(destination).len == old(destination).len,
            final(destination).usage == old(destination).usage,
            final(destination).contents@ == self.contents@ + old(destination).contents@.skip(size as int),
    {
        let n = self.contents.len();
        let mut i: usize = 0;
        while i < n
            invariant
                n == self.contents@.len(),
                n <= destination.contents@.len(),
                destination.contents@.len() == old(destination).contents@.len(),
                i <= n,
                destination.len == old(destination).len,
                destination.usage == old(destination).usage,
                destination.contents@ == self.contents@.take(i as int) + old(destination).contents@.skip(i as int),
            decreases n - i,
        {
            destination.contents.set(i, self.contents[i]);
            i += 1;
            assert(destination.contents@ =~= self.contents@.take(i as int) + old(destination).contents@.skip(i as int));
        }
        assert(self.contents@.take(n as int) =~= self.contents@);
        n
    }
}


/// Packing two slices puts the first at offset zero and the second right after
/// it, with nothing between them.
pub proof fn lemma_two_slices_packed(a: &[u8], b: &[u8])
    ensures
        concat_slices(seq![a, b]) == a@ + b@,
        concat_slices(seq![a, b]).len() == a@.len() + b@.len(),
        concat_slices(seq![a, b]).subrange(0, a@.len() as int) == a@,
        concat_slices(seq![a, b]).subrange(a@.len() as int, (a@.len() + b@.len()) as int) == b@,
{
    let views = seq![a, b].map_values(|s: &[u8]| s@);
    assert(views =~= Seq::<Seq<u8>>::empty().push(a@).push(b@));
    Seq::<Seq<u8>>::empty().lemma_flatten_push(a@);
    Seq::<Seq<u8>>::empty().push(a@).lemma_flatten_push(b@);
    assert(Seq::<Seq<u8>>::empty().flatten() =~= Seq::<u8>::empty());
    assert(concat_slices(seq![a, b]) =~= a@ + b@);
    assert((a@ + b@).subrange(0, a@.len() as int) =~= a@);
    assert((a@ + b@).subrange(a@.len() as int, (a@.len() + b@.len()) as int) =~= b@);
}

/// The type of one vertex attribute: two, three or four single-precision values.
#[derive(Clone, Copy, Debug, PartialEq, Eq, Structural)]
pub enum VertexFormat {
    Float2,
    Float3,
    Float4,
}

pub open spec fn format_size(f: VertexFormat) -> nat {
    match f {
        VertexFormat::Float2 => 8,
        VertexFormat::Float3 => 12,
        VertexFormat::Float4 => 16,
    }
}

/// Whether a vertex buffer advances once per vertex or once per instance.
#[derive(Clone, Copy, Debug, PartialEq, Eq, Structural)]
pub enum StepMode {
    Vertex,
    Instance,
}

#[derive(Clone, Copy, Debug, PartialEq, Eq, Structural)]
pub struct VertexAttribute {
    pub location: u32,
    pub format: VertexFormat,
    pub offset: u32,
}

/// How the shader reads the records of a vertex buffer.
#[derive(Clone, Debug)]
pub struct VertexBufferLayout {
    pub stride: u32,
    pub step_mode: StepMode,
    pub attributes: Vec<VertexAttribute>,
}

/// The attributes tile a record of `stride` bytes: each starts where the one
/// before it ends, the first at zero and the last ending at `stride`.
pub open spec fn tiles_record(attrs: Seq<VertexAttribute>, stride: nat) -> bool {
    &&& attrs.len() > 0
    &&& attrs[0].offset == 0
    &&& forall|i: int| 0 <= i < attrs.len() - 1 ==> #[trigger] attrs[i + 1].offset == attrs[i].offset + format_size(attrs[i].format)
    &&& attrs.last().offset + format_size(attrs.last().format) == stride
}

} // verus!
