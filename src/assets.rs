use crate::mesh::{Container, Mesh, MeshLoadError, load_spec};
use crate::shader::ShaderCompilationError;
use std::marker::PhantomData;
use vstd::prelude::*;

verus! {

/// Why the assets could not be loaded.
#[derive(Debug)]
pub enum AssetError {
    MeshLoadFailed(MeshLoadError),
    ShaderLoadFailed(ShaderCompilationError),
}

impl From<MeshLoadError> for AssetError {
    fn from(err: MeshLoadError) -> (r: Self)
        ensures
            r == AssetError::MeshLoadFailed(err),
    {
        AssetError::MeshLoadFailed(err)
    }
}

impl vstd::std_specs::convert::FromSpecImpl<MeshLoadError> for AssetError {
    open spec fn obeys_from_spec() -> bool {
        true
    }

    open spec fn from_spec(v: MeshLoadError) -> Self {
        AssetError::MeshLoadFailed(v)
    }
}

impl From<ShaderCompilationError> for AssetError {
    fn from(err: ShaderCompilationError) -> (r: Self)
        ensures
            r == AssetError::ShaderLoadFailed(err),
    {
        AssetError::ShaderLoadFailed(err)
    }
}

impl vstd::std_specs::convert::FromSpecImpl<ShaderCompilationError> for AssetError {
    open spec fn obeys_from_spec() -> bool {
        true
    }

    open spec fn from_spec(v: ShaderCompilationError) -> Self {
        AssetError::ShaderLoadFailed(v)
    }
}

/// The assets a renderer starts from: the meshes, and the compiled shaders.
pub struct Assets {
    pub models: AssetStore<Mesh>,
    pub shaders: AssetStore<Vec<u8>>,
}

impl Assets {
    /// Decodes the cube mesh from its container and files it under "cube", and
    /// files the compiled shaders under "vertex" and "fragment".
    pub fn load(cube_path: &str, cube: &Container, vertex_shader: Vec<u8>, fragment_shader: Vec<u8>) -> (r: Result<Assets, AssetError>)
        ensures
            match r {
                Ok(a) => {
                    &&& load_spec(cube_path@, *cube) matches Ok(m)
                    &&& a.models@.names == Map::<Seq<char>, u32>::empty().insert("cube"@, 0)
                    &&& a.models@.values.len() == 1
                    &&& a.models@.values[0].model() == m
                    &&& a.models@.values[0].wf()
                    &&& a.shaders@ == StoreModel::<Vec<u8>>::empty().insert("vertex"@, vertex_shader).insert("fragment"@, fragment_shader)
                    &&& a.models@.wf()
                    &&& a.shaders@.wf()
                },
                Err(e) => load_spec(cube_path@, *cube) matches Err(f) && e matches AssetError::MeshLoadFailed(me) && me@ == f,
            },
    {
        let cube = match Mesh::load(cube_path, cube) {
            Ok(m) => m,
            Err(e) => return Err(AssetError::MeshLoadFailed(e)),
        };
        let mut models = AssetStore::new();
        models.insert("cube", cube);
        let mut shaders = AssetStore::new();
        shaders.insert("vertex", vertex_shader);
        shaders.insert("fragment", fragment_shader);
        Ok(Assets { models, shaders })
    }
}

/// Name-to-position table of an `AssetStore`, kept in a hashbrown `HashMap`.
#[verifier::external_body]
pub struct NameTable {
    map: hashbrown::HashMap<String, u32>,
}

/// The entries of a `NameTable`: each name with the position it was last given.
pub uninterp spec fn table_entries(t: NameTable) -> Map<Seq<char>, u32>;

impl NameTable {
    /// Relies on hashbrown's `HashMap::new`: the new map holds no entry.
    #[verifier::external_body]
    fn new() -> (r: NameTable)
        ensures
            table_entries(r) =~= Map::empty(),
    {
        NameTable { map: hashbrown::HashMap::new() }
    }

    /// Relies on hashbrown's `HashMap::insert`: the name now maps to `id`, replacing
    /// what it mapped to before; no other entry changes.
    #[verifier::external_body]
    fn insert(&mut self, name: &str, id: u32)
        ensures
            table_entries(*final(self)) == table_entries(*old(self)).insert(name@, id),
    {
        self.map.insert(name.to_string(), id);
    }

    /// Relies on hashbrown's `HashMap::get`: the entry for the name, if there is one.
    #[verifier::external_body]
    fn get(&self, name: &str) -> (r: Option<u32>)
        ensures
            r == (if table_entries(*self).dom().contains(name@) {
                Some(table_entries(*self)[name@])
            } else {
                None::<u32>
            }),
    {
        self.map.get(name).copied()
    }
}

/// What an `AssetStore` holds: the values in insertion order, and the position
/// that each name was last given.
pub struct StoreModel<T> {
    pub names: Map<Seq<char>, u32>,
    pub values: Seq<T>,
}

impl<T> StoreModel<T> {
    pub open spec fn empty() -> StoreModel<T> {
        StoreModel { names: Map::empty(), values: Seq::empty() }
    }

    /// Appends `value` and points `name` at it.
    pub open spec fn insert(self, name: Seq<char>, value: T) -> StoreModel<T> {
        StoreModel {
            names: self.names.insert(name, self.values.len() as u32),
            values: self.values.push(value),
        }
    }

    pub open spec fn id_of(self, name: Seq<char>) -> Option<u32> {
        if self.names.dom().contains(name) {
            Some(self.names[name])
        } else {
            None
        }
    }

    pub open spec fn get(self, id: u32) -> Option<T> {
        if id < self.values.len() {
            Some(self.values[id as int])
        } else {
            None
        }
    }

    pub open spec fn find(self, name: Seq<char>) -> Option<T> {
        match self.id_of(name) {
            Some(id) => self.get(id),
            None => None,
        }
    }

    /// Every name points at a value of the store.
    pub open spec fn wf(self) -> bool {
        forall|n: Seq<char>| #[trigger] self.names.dom().contains(n) ==> self.names[n] < self.values.len()
    }
}

/// A registry of values of one kind, each reachable by the handle that `insert`
/// returned and by the name it was last inserted under.
pub struct AssetStore<T> {
    name_to_id: NameTable,
    assets: Vec<T>,
}

impl<T> View for AssetStore<T> {
    type V = StoreModel<T>;

    closed spec fn view(&self) -> StoreModel<T> {
        StoreModel { names: table_entries(self.name_to_id), values: self.assets@ }
    }
}

impl<T> AssetStore<T> {
    pub fn new() -> (r: AssetStore<T>)
        ensures
            r@ == StoreModel::<T>::empty(),
            r@.wf(),
    {
        AssetStore { name_to_id: NameTable::new(), assets: Vec::new() }
    }

    pub fn len(&self) -> (r: usize)
        ensures
            r == self@.values.len(),
    {
        self.assets.len()
    }

    /// Appends `asset` and gives `name` its handle; a name inserted before now
    /// refers to the new value, while the old value stays reachable by its handle.
    pub fn insert(&mut self, name: &str, asset: T) -> (r: AssetId<T>)
        requires
            old(self)@.wf(),
            old(self)@.values.len() < u32::MAX,
        ensures
            final(self)@ == old(self)@.insert(name@, asset),
            final(self)@.wf(),
            r.index() == old(self)@.values.len() as u32,
    {
        let id: u32 = self.assets.len() as u32;
        self.name_to_id.insert(name, id);
        self.assets.push(asset);
        assert forall|n: Seq<char>| #[trigger] self@.names.dom().contains(n) implies self@.names[n] < self@.values.len() by {
            if n != name@ {
                assert(old(self)@.names.dom().contains(n));
            }
        }
        AssetId(id, PhantomData)
    }

    pub fn get_id(&self, name: &str) -> (r: Option<AssetId<T>>)
        ensures
            match r {
                Some(id) => self@.id_of(name@) == Some(id.index()),
                None => self@.id_of(name@) is None,
            },
    {
        match self.name_to_id.get(name) {
            Some(i) => Some(AssetId(i, PhantomData)),
            None => None,
        }
    }

    /// The value behind `id`; `None` for a handle that this store did not issue.
    pub fn get(&self, id: AssetId<T>) -> (r: Option<&T>)
        ensures
            match r {
                Some(v) => self@.get(id.index()) == Some(*v),
                None => self@.get(id.index()) is None,
            },
    {
        if (id.0 as usize) < self.assets.len() {
            Some(&self.assets[id.0 as usize])
        } else {
            None
        }
    }

    pub fn find(&self, asset_name: &str) -> (r: Option<&T>)
        requires
            self@.wf(),
        ensures
            match r {
                Some(v) => self@.find(asset_name@) == Some(*v),
                None => self@.find(asset_name@) is None,
            },
    {
        match self.name_to_id.get(asset_name) {
            Some(i) => Some(&self.assets[i as usize]),
            None => None,
        }
    }
}

/// The store that inserting `values[k]` under `names[k]`, for each `k` in order,
/// builds from an empty store.
pub open spec fn inserted_all<T>(names: Seq<Seq<char>>, values: Seq<T>) -> StoreModel<T>
    decreases values.len(),
{
    if values.len() == 0 || names.len() == 0 {
        StoreModel::empty()
    } else {
        inserted_all(names.drop_last(), values.drop_last()).insert(names.last(), values.last())
    }
}

/// Inserting values under distinct names keeps them in order, and each name
/// resolves to the position of its value: the handle that its `insert` returned.
pub proof fn lemma_inserted_all_positions<T>(names: Seq<Seq<char>>, values: Seq<T>)
    requires
        names.len() == values.len(),
        values.len() <= u32::MAX,
        names.no_duplicates(),
    ensures
        inserted_all(names, values).values == values,
        inserted_all(names, values).wf(),
        forall|j: int| 0 <= j < names.len() ==> inserted_all(names, values).id_of(#[trigger] names[j]) == Some(j as u32),
    decreases values.len(),
{
    if values.len() > 0 {
        let (pn, pv) = (names.drop_last(), values.drop_last());
        assert(pn.no_duplicates()) by {
            assert forall|a: int, b: int| 0 <= a < b < pn.len() implies pn[a] != pn[b] by {
                assert(pn[a] == names[a] && pn[b] == names[b]);
            }
        }
        lemma_inserted_all_positions(pn, pv);
        let prev = inserted_all(pn, pv);
        assert(inserted_all(names, values).values =~= values);
        assert forall|j: int| 0 <= j < names.len() implies inserted_all(names, values).id_of(#[trigger] names[j]) == Some(j as u32) by {
            if j < names.len() - 1 {
                assert(pn[j] == names[j]);
                assert(names[j] != names.last());
            }
        }
    } else {
        assert(inserted_all(names, values).values =~= values);
    }
}

/// Inserting values under distinct names makes each name find its own value, and
/// the handle that the name resolves to reaches that same value.
pub proof fn lemma_unique_names_find_their_values<T>(names: Seq<Seq<char>>, values: Seq<T>, i: int)
    requires
        names.len() == values.len(),
        values.len() <= u32::MAX,
        names.no_duplicates(),
        0 <= i < names.len(),
    ensures
        inserted_all(names, values).find(names[i]) == Some(values[i]),
        inserted_all(names, values).id_of(names[i]) is Some,
        inserted_all(names, values).get(inserted_all(names, values).id_of(names[i])->Some_0) == Some(values[i]),
{
    lemma_inserted_all_positions(names, values);
}

/// Inserting a second value under a name already in use makes the name find the
/// new value, while the handle of the first insertion still reaches the first value.
pub proof fn lemma_repeated_name_orphans_first<T>(store: StoreModel<T>, name: Seq<char>, first: T, second: T)
    requires
        store.wf(),
        store.values.len() + 2 <= u32::MAX,
    ensures
        store.insert(name, first).insert(name, second).find(name) == Some(second),
        store.insert(name, first).insert(name, second).id_of(name) == Some((store.values.len() + 1) as u32),
        store.insert(name, first).insert(name, second).get(store.values.len() as u32) == Some(first),
        store.insert(name, first).insert(name, second).get((store.values.len() + 1) as u32) == Some(second),
        store.values.len() as u32 != (store.values.len() + 1) as u32,
{
    let after = store.insert(name, first).insert(name, second);
    assert(after.values[store.values.len() as int] == first);
    assert(after.values[store.values.len() + 1 as int] == second);
}

/// A handle to a value held by an `AssetStore<T>`.
#[derive(Debug, PartialEq, Eq, Hash)]
pub struct AssetId<T>(u32, PhantomData<T>);

impl<T> AssetId<T> {
    /// The position of the value in its store.
    pub closed spec fn index(self) -> u32 {
        self.0
    }
}

impl<T> Clone for AssetId<T> {
    fn clone(&self) -> (r: Self)
        ensures
            r.index() == self.index(),
    {
        AssetId(self.0, PhantomData)
    }
}

impl<T> Copy for AssetId<T> {
}

} // verus!
