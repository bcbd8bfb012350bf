//! Element trees describe what a template shows, driver trees hold what the
//! user entered, and spawn trees hold what is cached between frames; a field
//! keeps the named chunks and spawns from which templates are put together.
use vstd::prelude::*;
use std::collections::HashMap;

use crate::outside::strings_model;
use self::enumset::{EnumModel, EnumCacheModel};

pub mod enumset;
pub mod copy;
pub mod spawn;
pub mod rows;
pub mod shortcut;
pub mod laws;

verus! {

broadcast use vstd::std_specs::vec::axiom_vec_index_decreases;

/// A widget template: a row or a column of templates, a static widget, or a
/// widget driven by user input.
pub enum Element {
    Horizontal(Vec<Element>),
    Vertical(Vec<Element>),
    Static(Static),
    Driven(Driven),
}

/// A widget that shows something and takes no input.
pub enum Static {
    LabelRT(String),
}

/// A widget that the user drives.
pub enum Driven {
    Enum(enumset::Enum),
    CheckBoxRT(String),
    TableH(Box<Element>),
    TextBoxEditable(egui::FontId),
}

/// What the user entered into an element, laid out as the element is.
pub enum Driver {
    Nothing,
    List(Vec<Driver>),
    Enum(Box<Spawner>),
    CheckBoxRT(bool),
    TableH(Vec<Driver>),
    TextBoxEditable(String),
}

/// A spawn together with the element and driver it was spawned from.
pub struct Spawner {
    pub spw: Spawn,
    pub elem: Element,
    pub drv: Driver,
}

/// What is kept between frames for an element: the spawns of its parts and
/// its own cache.
pub struct Spawn {
    pub child: Vec<Spawn>,
    pub cache: Cache,
}

/// The cache of a spawn: only selectors keep one.
pub enum Cache {
    Enum(enumset::Cache),
    Nothing,
}

/// A named element with its driver and the tags it can be searched by.
pub struct Chunk {
    pub elem: Element,
    pub drv: Driver,
    pub tags: Vec<String>,
}

/// The named chunks and spawns, keyed by id, and the ids filed under each tag.
pub struct Field {
    pub map: HashMap<u64, Chunk>,
    pub spw: HashMap<u64, Spawn>,
    pub tag: Vec<(String, Vec<u64>)>,
}

/// The drivers of named templates, keyed by id.
pub struct DriverField {
    pub map: HashMap<u64, Driver>,
}

// ---------------------------------------------------------------------------
// Models: the trees as mathematical values.

/// An element as a mathematical value.
pub enum ElementModel {
    Horizontal(Seq<ElementModel>),
    Vertical(Seq<ElementModel>),
    Static(StaticModel),
    Driven(DrivenModel),
}

/// A static widget as a mathematical value.
pub enum StaticModel {
    LabelRT(Seq<char>),
}

/// A driven widget as a mathematical value.
pub enum DrivenModel {
    Enum(EnumModel),
    CheckBoxRT(Seq<char>),
    TableH(Box<ElementModel>),
    TextBoxEditable(egui::FontId),
}

/// A driver as a mathematical value.
pub enum DriverModel {
    Nothing,
    List(Seq<DriverModel>),
    Enum(Box<SpawnerModel>),
    CheckBoxRT(bool),
    TableH(Seq<DriverModel>),
    TextBoxEditable(Seq<char>),
}

/// A chunk as a mathematical value.
pub struct ChunkModel {
    pub elem: ElementModel,
    pub drv: DriverModel,
    pub tags: Seq<Seq<char>>,
}

/// A spawner as a mathematical value.
pub struct SpawnerModel {
    pub spw: SpawnModel,
    pub elem: ElementModel,
    pub drv: DriverModel,
}

/// A spawn as a mathematical value; a selector's search index is modelled
/// by the ids and tokens filed in it.
pub struct SpawnModel {
    pub child: Seq<SpawnModel>,
    pub cache: CacheModel,
}

/// A spawn's cache as a mathematical value.
pub enum CacheModel {
    Enum(EnumCacheModel),
    Nothing,
}


impl Static {
    pub open spec fn model(self) -> StaticModel {
        match self {
            Static::LabelRT(s) => StaticModel::LabelRT(s@),
        }
    }
}

impl Element {
    pub open spec fn model(self) -> ElementModel
        decreases self,
    {
        match self {
            Element::Horizontal(v) => ElementModel::Horizontal(
                Seq::new(
                    v@.len(),
                    |i: int|
                        if 0 <= i < v@.len() {
                            v@[i].model()
                        } else {
                            ElementModel::Horizontal(Seq::empty())
                        },
                ),
            ),
            Element::Vertical(v) => ElementModel::Vertical(
                Seq::new(
                    v@.len(),
                    |i: int|
                        if 0 <= i < v@.len() {
                            v@[i].model()
                        } else {
                            ElementModel::Horizontal(Seq::empty())
                        },
                ),
            ),
            Element::Static(s) => ElementModel::Static(s.model()),
            Element::Driven(d) => ElementModel::Driven(
                match d {
                    Driven::Enum(e) => DrivenModel::Enum(e.model()),
                    Driven::CheckBoxRT(s) => DrivenModel::CheckBoxRT(s@),
                    Driven::TableH(b) => DrivenModel::TableH(Box::new((*b).model())),
                    Driven::TextBoxEditable(f) => DrivenModel::TextBoxEditable(f),
                },
            ),
        }
    }
}

impl Driver {
    pub open spec fn model(self) -> DriverModel
        decreases self,
    {
        match self {
            Driver::Nothing => DriverModel::Nothing,
            Driver::List(v) => DriverModel::List(
                Seq::new(
                    v@.len(),
                    |i: int|
                        if 0 <= i < v@.len() {
                            v@[i].model()
                        } else {
                            DriverModel::Nothing
                        },
                ),
            ),
            Driver::Enum(b) => DriverModel::Enum(Box::new((*b).model())),
            Driver::CheckBoxRT(x) => DriverModel::CheckBoxRT(x),
            Driver::TableH(v) => DriverModel::TableH(
                Seq::new(
                    v@.len(),
                    |i: int|
                        if 0 <= i < v@.len() {
                            v@[i].model()
                        } else {
                            DriverModel::Nothing
                        },
                ),
            ),
            Driver::TextBoxEditable(s) => DriverModel::TextBoxEditable(s@),
        }
    }
}

impl Spawner {
    pub open spec fn model(self) -> SpawnerModel
        decreases self,
    {
        SpawnerModel { spw: self.spw.model(), elem: self.elem.model(), drv: self.drv.model() }
    }
}

impl Cache {
    pub open spec fn model(self) -> CacheModel
        decreases self,
    {
        match self {
            Cache::Enum(c) => CacheModel::Enum(c.model()),
            Cache::Nothing => CacheModel::Nothing,
        }
    }
}

impl Spawn {
    pub open spec fn model(self) -> SpawnModel
        decreases self,
    {
        SpawnModel {
            child: Seq::new(
                self.child@.len(),
                |i: int|
                    if 0 <= i < self.child@.len() {
                        self.child@[i].model()
                    } else {
                        SpawnModel { child: Seq::empty(), cache: CacheModel::Nothing }
                    },
            ),
            cache: self.cache.model(),
        }
    }
}

// ---------------------------------------------------------------------------
// Chunks, spawners and the field.

impl Default for Chunk {
    /// An empty label with no driver and no tags.
    fn default() -> (r: Self)
        ensures
            r.elem.model() == ElementModel::Static(StaticModel::LabelRT(Seq::empty())),
            r.drv.model() == DriverModel::Nothing,
            r.tags@.len() == 0,
    {
        Self { elem: Element::Static(Static::LabelRT(String::new())), drv: Driver::Nothing, tags: Vec::new() }
    }
}

impl Chunk {
    /// A chunk that holds `elem`, with no driver and no tags.
    pub fn with_elem(elem: Element) -> (r: Self)
        ensures
            r.elem == elem,
            r.drv.model() == DriverModel::Nothing,
            r.tags@.len() == 0,
    {
        Self { elem, drv: Driver::Nothing, tags: Vec::new() }
    }
}

impl From<(Spawn, Element, Driver)> for Spawner {
    fn from(value: (Spawn, Element, Driver)) -> (r: Self) {
        Self { spw: value.0, elem: value.1, drv: value.2 }
    }
}

impl vstd::std_specs::convert::FromSpecImpl<(Spawn, Element, Driver)> for Spawner {
    open spec fn obeys_from_spec() -> bool {
        true
    }

    open spec fn from_spec(v: (Spawn, Element, Driver)) -> Self {
        Spawner { spw: v.0, elem: v.1, drv: v.2 }
    }
}

impl From<Spawner> for (Spawn, Element, Driver) {
    fn from(value: Spawner) -> (r: Self) {
        (value.spw, value.elem, value.drv)
    }
}

impl vstd::std_specs::convert::FromSpecImpl<Spawner> for (Spawn, Element, Driver) {
    open spec fn obeys_from_spec() -> bool {
        true
    }

    open spec fn from_spec(v: Spawner) -> Self {
        (v.spw, v.elem, v.drv)
    }
}

impl Default for Field {
    fn default() -> (r: Self)
        ensures
            r.map@ == Map::<u64, Chunk>::empty(),
            r.spw@ == Map::<u64, Spawn>::empty(),
            r.tag@.len() == 0,
    {
        Field { map: HashMap::new(), spw: HashMap::new(), tag: Vec::new() }
    }
}

impl Default for DriverField {
    fn default() -> (r: Self)
        ensures
            r.map@ == Map::<u64, Driver>::empty(),
    {
        DriverField { map: HashMap::new() }
    }
}

/// The ids filed under `key`: those of the first entry with that tag.
pub open spec fn tag_lookup(tag: Seq<(String, Vec<u64>)>, key: Seq<char>) -> Option<Seq<u64>>
    decreases tag.len(),
{
    if tag.len() == 0 {
        None
    } else if tag[0].0@ == key {
        Some(tag[0].1@)
    } else {
        tag_lookup(tag.drop_first(), key)
    }
}

/// No tag is filed twice, so the tag index reads as a map from tags to ids.
pub open spec fn tags_distinct(tag: Seq<(String, Vec<u64>)>) -> bool {
    forall|i: int, j: int| 0 <= i < j < tag.len() ==> #[trigger] tag[i].0@ != #[trigger] tag[j].0@
}

/// With no tag filed twice, looking up the tag of any entry gives that
/// entry's ids; a tag that no entry has is not found.
pub proof fn lemma_tag_lookup_distinct(tag: Seq<(String, Vec<u64>)>, i: int, key: Seq<char>)
    requires
        tags_distinct(tag),
        0 <= i < tag.len(),
    ensures
        tag_lookup(tag, tag[i].0@) == Some(tag[i].1@),
        (forall|j: int| 0 <= j < tag.len() ==> tag[j].0@ != key) ==> tag_lookup(tag, key) is None,
    decreases tag.len(),
{
    if i > 0 {
        assert(tag[0].0@ != tag[i].0@);
        let rest = tag.drop_first();
        assert(tags_distinct(rest)) by {
            assert forall|a: int, b: int| 0 <= a < b < rest.len() implies #[trigger] rest[a].0@
                != #[trigger] rest[b].0@ by {
                assert(rest[a] == tag[a + 1]);
                assert(rest[b] == tag[b + 1]);
            }
        }
        lemma_tag_lookup_distinct(rest, i - 1, key);
        assert(rest[i - 1] == tag[i]);
    }
    if forall|j: int| 0 <= j < tag.len() ==> tag[j].0@ != key {
        lemma_tag_lookup_absent(tag, key);
    }
}

/// A tag that no entry has is not found.
pub proof fn lemma_tag_lookup_absent(tag: Seq<(String, Vec<u64>)>, key: Seq<char>)
    requires
        forall|j: int| 0 <= j < tag.len() ==> tag[j].0@ != key,
    ensures
        tag_lookup(tag, key) is None,
    decreases tag.len(),
{
    if tag.len() > 0 {
        let rest = tag.drop_first();
        assert forall|j: int| 0 <= j < rest.len() implies rest[j].0@ != key by {
            assert(rest[j] == tag[j + 1]);
        }
        lemma_tag_lookup_absent(rest, key);
    }
}

impl Chunk {
    pub open spec fn model(self) -> ChunkModel {
        ChunkModel { elem: self.elem.model(), drv: self.drv.model(), tags: strings_model(self.tags@) }
    }
}

impl Field {
    /// No tag is filed twice in the field's tag index.
    pub open spec fn tags_are_distinct(self) -> bool {
        tags_distinct(self.tag@)
    }

    /// The chunks of the field, as models.
    pub open spec fn chunks(self) -> Map<u64, ChunkModel> {
        self.map@.map_values(|c: Chunk| c.model())
    }

    /// The spawner stored under `k`, if both a chunk and a spawn are.
    pub open spec fn spawner_at(self, k: u64) -> Option<SpawnerModel> {
        if self.map@.contains_key(k) && self.spw@.contains_key(k) {
            Some(
                SpawnerModel {
                    spw: self.spw@[k].model(),
                    elem: self.map@[k].elem.model(),
                    drv: self.map@[k].drv.model(),
                },
            )
        } else {
            None
        }
    }

    /// Stores the spawner `v` under `k`, with `tags`: its element and driver go
    /// into a chunk, its spawn into the spawns.
    pub fn insert_spawner(&mut self, k: u64, v: Spawner, tags: Vec<String>)
        ensures
            final(self).map@ == old(self).map@.insert(k, Chunk { elem: v.elem, drv: v.drv, tags }),
            final(self).spw@ == old(self).spw@.insert(k, v.spw),
            final(self).tag == old(self).tag,
    {
        broadcast use vstd::std_specs::hash::group_hash_axioms;

        self.map.insert(k, Chunk { elem: v.elem, drv: v.drv, tags });
        self.spw.insert(k, v.spw);
    }

    /// A copy of the spawner stored under `k`; `None` unless both a chunk and
    /// a spawn are stored there.
    pub fn get_spawner(&self, k: u64) -> (r: Option<Spawner>)
        ensures
            match r {
                Some(s) => self.spawner_at(k) == Some(s.model()),
                None => self.spawner_at(k) is None,
            },
    {
        broadcast use vstd::std_specs::hash::group_hash_axioms;

        let c = match self.map.get(&k) {
            Some(c) => c.clone(),
            None => return None,
        };
        let s = match self.spw.get(&k) {
            Some(s) => s.clone(),
            None => return None,
        };
        Some(Spawner { spw: s, elem: c.elem, drv: c.drv })
    }

    /// The ids filed under `key`, if it is a tag of the field.
    pub fn tag_ids(&self, key: &String) -> (r: Option<&Vec<u64>>)
        ensures
            match r {
                Some(v) => tag_lookup(self.tag@, key@) == Some(v@),
                None => tag_lookup(self.tag@, key@) is None,
            },
    {
        let mut i: usize = 0;
        assert(self.tag@.skip(0) =~= self.tag@);
        while i < self.tag.len()
            invariant
                i <= self.tag@.len(),
                tag_lookup(self.tag@, key@) == tag_lookup(self.tag@.skip(i as int), key@),
            decreases self.tag@.len() - i,
        {
            assert(self.tag@.skip(i as int).drop_first() =~= self.tag@.skip(i + 1));
            if self.tag[i].0 == *key {
                return Some(&self.tag[i].1);
            }
            i = i + 1;
        }
        None
    }
}

/// Once a spawner is stored under `k`, reading `k` gives back a spawner with
/// the same model, and every other key reads as before.
pub proof fn lemma_get_after_insert(
    before: Field,
    after: Field,
    k: u64,
    v: Spawner,
    tags: Vec<String>,
    j: u64,
)
    requires
        after.map@ == before.map@.insert(k, Chunk { elem: v.elem, drv: v.drv, tags }),
        after.spw@ == before.spw@.insert(k, v.spw),
    ensures
        after.spawner_at(k) == Some(v.model()),
        j != k ==> after.spawner_at(j) == before.spawner_at(j),
{
}

} // verus!
