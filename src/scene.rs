use crate::conversions::{AsBytes, VERTEX};
use crate::model::{DrawCall, ModelGroup, instance_buffer_of};
use vstd::prelude::*;

verus! {

/// The shader stage that reads a binding.
#[derive(Clone, Copy, Debug, PartialEq, Eq, Structural)]
pub enum Stage {
    Vertex,
    Fragment,
}

/// What a binding holds.
#[derive(Clone, Copy, Debug, PartialEq, Eq, Structural)]
pub enum BindingKind {
    UniformBuffer,
    SampledTexture,
    Sampler,
}

#[derive(Clone, Copy, Debug, PartialEq, Eq, Structural)]
pub struct BindingSlot {
    pub binding: u32,
    pub visibility: Stage,
    pub kind: BindingKind,
}

/// The slots of every group's bind group: the projection-view matrix for the
/// vertex stage, then the view and normal matrices, the light, the texture and
/// its sampler for the fragment stage.
pub fn group_bind_slots() -> (r: Vec<BindingSlot>)
    ensures
        r@ == seq![
            BindingSlot { binding: 0, visibility: Stage::Vertex, kind: BindingKind::UniformBuffer },
            BindingSlot { binding: 1, visibility: Stage::Fragment, kind: BindingKind::UniformBuffer },
            BindingSlot { binding: 2, visibility: Stage::Fragment, kind: BindingKind::UniformBuffer },
            BindingSlot { binding: 3, visibility: Stage::Fragment, kind: BindingKind::SampledTexture },
            BindingSlot { binding: 4, visibility: Stage::Fragment, kind: BindingKind::Sampler },
        ],
{
    vec![
        BindingSlot { binding: 0, visibility: Stage::Vertex, kind: BindingKind::UniformBuffer },
        BindingSlot { binding: 1, visibility: Stage::Fragment, kind: BindingKind::UniformBuffer },
        BindingSlot { binding: 2, visibility: Stage::Fragment, kind: BindingKind::UniformBuffer },
        BindingSlot { binding: 3, visibility: Stage::Fragment, kind: BindingKind::SampledTexture },
        BindingSlot { binding: 4, visibility: Stage::Fragment, kind: BindingKind::Sampler },
    ]
}

/// The model groups that a renderer draws, in the order they were added.
pub struct Scene<M, R> {
    pub model_groups: Vec<ModelGroup<M, R>>,
}

/// The position of the first group with the given name.
pub open spec fn group_index<M, R>(groups: Seq<ModelGroup<M, R>>, name: Seq<char>) -> Option<int> {
    if exists|i: int| 0 <= i < groups.len() && groups[i].name@ == name {
        Some(choose|i: int| 0 <= i < groups.len() && groups[i].name@ == name
            && forall|j: int| 0 <= j < i ==> groups[j].name@ != name)
    } else {
        None
    }
}

impl<M, R> Scene<M, R> {
    pub fn new() -> (r: Scene<M, R>)
        ensures
            r.model_groups@.len() == 0,
    {
        Scene { model_groups: Vec::new() }
    }

    /// Registers a group; it is drawn after the groups registered before it.
    pub fn add_model_group(&mut self, group: ModelGroup<M, R>)
        ensures
            final(self).model_groups@ == old(self).model_groups@.push(group),
    {
        self.model_groups.push(group);
    }

    /// Appends an instance to the first group with the given name.
    pub fn add_model(&mut self, group_name: &str, model: M)
        requires
            group_index(old(self).model_groups@, group_name@) is Some,
        ensures
            ({
                let g = group_index(old(self).model_groups@, group_name@)->Some_0;
                &&& final(self).model_groups@.len() == old(self).model_groups@.len()
                &&& final(self).model_groups@[g].models@ == old(self).model_groups@[g].models@.push(model)
                &&& final(self).model_groups@[g].name == old(self).model_groups@[g].name
                &&& final(self).model_groups@[g].mvp_buffer == old(self).model_groups@[g].mvp_buffer
                &&& forall|j: int| 0 <= j < final(self).model_groups@.len() && j != g
                    ==> final(self).model_groups@[j] == old(self).model_groups@[j]
            }),
    {
        let ghost g = group_index(old(self).model_groups@, group_name@)->Some_0;
        proof {
            lemma_group_index(old(self).model_groups@, group_name@);
        }
        let wanted = group_name.to_string();
        let n = self.model_groups.len();
        let mut i: usize = 0;
        while !(self.model_groups[i].name == wanted)
            invariant
                self.model_groups@ == old(self).model_groups@,
                n == self.model_groups@.len(),
                0 <= g < self.model_groups@.len(),
                self.model_groups@[g].name@ == group_name@,
                forall|j: int| 0 <= j < g ==> self.model_groups@[j].name@ != group_name@,
                i <= g,
                wanted@ == group_name@,
            decreases self.model_groups@.len() - i,
        {
            assert(i < g);
            i += 1;
        }
        assert(i == g);
        let ghost before = self.model_groups@;
        let mut group = self.model_groups.remove(i);
        group.add_model(model);
        self.model_groups.insert(i, group);
        assert(self.model_groups@ =~= before.update(g, self.model_groups@[g]));
    }

    /// Rebuilds every group's instance buffer from its current instances and
    /// lists the draws of the frame, one per group in registration order, each
    /// over all of the group's indices and all of its instances.
    pub fn prepare_draws<B: AsBytes, F: Fn(&M) -> B + Copy>(&mut self, model_matrix: F) -> (draws: Vec<DrawCall>)
        requires
            forall|g: int| 0 <= g < old(self).model_groups@.len() ==> (#[trigger] old(self).model_groups@[g]).models@.len() <= u32::MAX,
            forall|g: int, i: int| 0 <= g < old(self).model_groups@.len() && 0 <= i < old(self).model_groups@[g].models@.len()
                ==> model_matrix.requires((&(#[trigger] old(self).model_groups@[g].models@[i]),)),
        ensures
            final(self).model_groups@.len() == old(self).model_groups@.len(),
            draws@.len() == old(self).model_groups@.len(),
            forall|g: int| 0 <= g < draws@.len() ==> {
                let before = old(self).model_groups@[g];
                let after = (#[trigger] final(self).model_groups@[g]);
                &&& after.name == before.name
                &&& after.models == before.models
                &&& after.index_buf == before.index_buf
                &&& after.vertex_buf == before.vertex_buf
                &&& after.resources == before.resources
                &&& after.mvp_buffer matches Some(buf) && instance_buffer_of(buf, before.models@, model_matrix)
                &&& draws@[g] == (DrawCall { group: g as usize, index_count: before.index_buf.len, instance_count: before.models@.len() as u32 })
            },
    {
        let mut draws: Vec<DrawCall> = Vec::new();
        let n = self.model_groups.len();
        let mut g: usize = 0;
        while g < n
            invariant
                n == old(self).model_groups@.len(),
                self.model_groups@.len() == n,
                g <= n,
                draws@.len() == g,
                forall|k: int| g <= k < n ==> #[trigger] self.model_groups@[k] == old(self).model_groups@[k],
                forall|k: int| 0 <= k < n ==> (#[trigger] old(self).model_groups@[k]).models@.len() <= u32::MAX,
                forall|k: int, i: int| 0 <= k < n && 0 <= i < old(self).model_groups@[k].models@.len()
                    ==> model_matrix.requires((&(#[trigger] old(self).model_groups@[k].models@[i]),)),
                forall|k: int| 0 <= k < g ==> {
                    let before = old(self).model_groups@[k];
                    let after = (#[trigger] self.model_groups@[k]);
                    &&& after.name == before.name
                    &&& after.models == before.models
                    &&& after.index_buf == before.index_buf
                    &&& after.vertex_buf == before.vertex_buf
                    &&& after.resources == before.resources
                    &&& after.mvp_buffer matches Some(buf) && instance_buffer_of(buf, before.models@, model_matrix)
                    &&& draws@[k] == (DrawCall { group: k as usize, index_count: before.index_buf.len, instance_count: before.models@.len() as u32 })
                },
            decreases n - g,
        {
            let ghost before = self.model_groups@;
            let mut group = self.model_groups.remove(g);
            assert(group == old(self).model_groups@[g as int]);
            group.update_mvp_buffer(model_matrix);
            draws.push(group.draw_call(g));
            self.model_groups.insert(g, group);
            assert(self.model_groups@ =~= before.update(g as int, self.model_groups@[g as int]));
            g += 1;
        }
        draws
    }
}

proof fn lemma_group_index<M, R>(groups: Seq<ModelGroup<M, R>>, name: Seq<char>)
    requires
        group_index(groups, name) is Some,
    ensures
        0 <= group_index(groups, name)->Some_0 < groups.len(),
        groups[group_index(groups, name)->Some_0].name@ == name,
        forall|j: int| 0 <= j < group_index(groups, name)->Some_0 ==> groups[j].name@ != name,
{
    let i = choose|i: int| 0 <= i < groups.len() && groups[i].name@ == name;
    lemma_first_match(groups, name, i);
}

proof fn lemma_first_match<M, R>(groups: Seq<ModelGroup<M, R>>, name: Seq<char>, k: int)
    requires
        0 <= k < groups.len(),
        groups[k].name@ == name,
    ensures
        exists|i: int| 0 <= i < groups.len() && groups[i].name@ == name
            && forall|j: int| 0 <= j < i ==> groups[j].name@ != name,
    decreases k,
{
    if exists|j: int| 0 <= j < k && groups[j].name@ == name {
        let j = choose|j: int| 0 <= j < k && groups[j].name@ == name;
        lemma_first_match(groups, name, j);
    } else {
        assert(forall|j: int| 0 <= j < k ==> groups[j].name@ != name);
    }
}

} // verus!
