use crate::conversions::{AsBytes, GpuBuffer, StepMode, VertexAttribute, VertexBufferLayout, VertexFormat, VERTEX, items_bytes, tiles_record};
use vstd::prelude::*;

verus! {

/// A batch of instances of one mesh, drawn with one call: the shared index and
/// vertex buffers, the device-side resources the group is drawn with, the
/// instances, and the per-instance buffer last built from them.
pub struct ModelGroup<M, R> {
    pub name: String,
    pub index_buf: GpuBuffer,
    pub vertex_buf: GpuBuffer,
    pub resources: R,
    pub models: Vec<M>,
    pub mvp_buffer: Option<GpuBuffer>,
}

/// One indexed, instanced draw of a group: indices `0..index_count` of its index
/// buffer, instances `0..instance_count` of its instance buffer.
#[derive(Clone, Copy, Debug, PartialEq, Eq, Structural)]
pub struct DrawCall {
    pub group: usize,
    pub index_count: u32,
    pub instance_count: u32,
}

/// `buf` holds one row per model, in order, each the byte image of a result
/// that `model_matrix` may give for that model.
pub open spec fn instance_buffer_of<M, B: AsBytes, F: Fn(&M) -> B>(buf: GpuBuffer, models: Seq<M>, model_matrix: F) -> bool {
    &&& buf.len == models.len()
    &&& buf.usage == VERTEX
    &&& exists|rows: Seq<B>|
        {
            &&& rows.len() == models.len()
            &&& forall|i: int| 0 <= i < rows.len() ==> model_matrix.ensures((&models[i],), #[trigger] rows[i])
            &&& buf.contents@ == items_bytes(rows)
        }
}

impl<M, R> ModelGroup<M, R> {
    /// A group with no instances yet and no instance buffer.
    pub fn new(name: String, index_buf: GpuBuffer, vertex_buf: GpuBuffer, resources: R) -> (r: ModelGroup<M, R>)
        ensures
            r.name@ == name@,
            r.index_buf == index_buf,
            r.vertex_buf == vertex_buf,
            r.resources == resources,
            r.models@.len() == 0,
            r.mvp_buffer is None,
    {
        ModelGroup { name, index_buf, vertex_buf, resources, models: Vec::new(), mvp_buffer: None }
    }

    /// Appends an instance; the instance buffer stays as it was until it is rebuilt.
    pub fn add_model(&mut self, model: M)
        ensures
            final(self).models@ == old(self).models@.push(model),
            final(self).name == old(self).name,
            final(self).index_buf == old(self).index_buf,
            final(self).vertex_buf == old(self).vertex_buf,
            final(self).resources == old(self).resources,
            final(self).mvp_buffer == old(self).mvp_buffer,
    {
        self.models.push(model);
    }

    /// Rebuilds the instance buffer from the current instances: one row per
    /// instance, each the byte image of what `model_matrix` makes of it.
    pub fn update_mvp_buffer<B: AsBytes, F: Fn(&M) -> B>(&mut self, model_matrix: F)
        requires
            old(self).models@.len() <= u32::MAX,
            forall|i: int| 0 <= i < old(self).models@.len() ==> model_matrix.requires((&old(self).models@[i],)),
        ensures
            final(self).models == old(self).models,
            final(self).name == old(self).name,
            final(self).index_buf == old(self).index_buf,
            final(self).vertex_buf == old(self).vertex_buf,
            final(self).resources == old(self).resources,
            final(self).mvp_buffer matches Some(buf) && instance_buffer_of(buf, old(self).models@, model_matrix),
    {
        let buf = GpuBuffer::from_transformed_slice(VERTEX, self.models.as_slice(), model_matrix);
        self.mvp_buffer = Some(buf);
    }

    /// The instance buffer last built.
    pub fn mvp_buffer(&self) -> (r: &GpuBuffer)
        requires
            self.mvp_buffer is Some,
        ensures
            *r == self.mvp_buffer->Some_0,
    {
        self.mvp_buffer.as_ref().unwrap()
    }

    /// The layout of an instance buffer: one 64-byte 4x4 matrix per instance, its
    /// four columns at locations 3 to 6.
    pub fn buffer_descriptor() -> (r: VertexBufferLayout)
        ensures
            r.stride == 64,
            r.step_mode == StepMode::Instance,
            r.attributes@ == seq![
                VertexAttribute { location: 3, format: VertexFormat::Float4, offset: 0 },
                VertexAttribute { location: 4, format: VertexFormat::Float4, offset: 16 },
                VertexAttribute { location: 5, format: VertexFormat::Float4, offset: 32 },
                VertexAttribute { location: 6, format: VertexFormat::Float4, offset: 48 },
            ],
            tiles_record(r.attributes@, r.stride as nat),
    {
        let attributes = vec![
            VertexAttribute { location: 3, format: VertexFormat::Float4, offset: 0 },
            VertexAttribute { location: 4, format: VertexFormat::Float4, offset: 16 },
            VertexAttribute { location: 5, format: VertexFormat::Float4, offset: 32 },
            VertexAttribute { location: 6, format: VertexFormat::Float4, offset: 48 },
        ];
        let r = VertexBufferLayout { stride: 64, step_mode: StepMode::Instance, attributes };
        assert(r.attributes@[1].offset == r.attributes@[0].offset + 16);
        assert(r.attributes@[2].offset == r.attributes@[1].offset + 16);
        assert(r.attributes@[3].offset == r.attributes@[2].offset + 16);
        r
    }

    /// The draw of this group with its current instance buffer: every index, and
    /// every row of the instance buffer.
    pub fn draw_call(&self, group: usize) -> (r: DrawCall)
        requires
            self.mvp_buffer is Some,
        ensures
            r == (DrawCall { group, index_count: self.index_buf.len, instance_count: self.mvp_buffer->Some_0.len }),
    {
        DrawCall { group, index_count: self.index_buf.len, instance_count: self.mvp_buffer().len }
    }
}

} // verus!
