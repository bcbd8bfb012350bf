//! Spawning: building the spawn tree of an element from its driver and the
//! chunks and spawns of a field.
use vstd::prelude::*;

use super::{Cache, CacheModel, Driven, Driver, Element, Field, Spawn, SpawnModel, tag_lookup};
use super::enumset::{Cond, Enum, EnumCacheModel};
use crate::context::Context;
use crate::outside::{
    search_index, search_insert_tokens, search_new, search_tokens, strings_model,
};

verus! {

broadcast use vstd::std_specs::vec::axiom_vec_index_decreases;

/// The ids filed under the tags `tags`, tag after tag.
pub open spec fn tags_ids(tags: Seq<String>, tag: Seq<(String, Vec<u64>)>) -> Seq<u64>
    decreases tags.len(),
{
    if tags.len() == 0 {
        Seq::empty()
    } else {
        tags_ids(tags.drop_last(), tag) + tag_lookup(tag, tags.last()@).unwrap()
    }
}

/// The ids of the chunks a selector offers.
pub open spec fn enum_choices(cond: Cond, field: Field) -> Seq<u64> {
    match cond {
        Cond::Elem(v) => v@,
        Cond::Tags(t) => tags_ids(t@, field.tag@),
    }
}

/// The tokens under which the search index files the `i`-th choice of a
/// selector: those made of the tags of its chunk, or, for choices found by
/// tag, of the selector's tags.
pub open spec fn enum_tokens(cond: Cond, field: Field, i: int) -> Seq<Seq<char>> {
    match cond {
        Cond::Elem(v) => search_tokens(strings_model(field.map@[v@[i]].tags@)),
        Cond::Tags(t) => search_tokens(strings_model(t@)),
    }
}

/// Spawning the selector `e` finds everything it looks up: the chunk of every
/// listed id or the ids of every listed tag, the spawn of every choice, and
/// the spawner of the default.
pub open spec fn enum_ok(e: Enum, field: Field) -> bool {
    &&& match e.cond {
        Cond::Elem(v) => forall|i: int| 0 <= i < v@.len() ==> field.map@.contains_key(#[trigger] v@[i]),
        Cond::Tags(t) => forall|i: int|
            0 <= i < t@.len() ==> (#[trigger] tag_lookup(field.tag@, t@[i]@)) is Some,
    }
    &&& forall|i: int|
        0 <= i < enum_choices(e.cond, field).len() ==> field.spw@.contains_key(
            #[trigger] enum_choices(e.cond, field)[i],
        )
    &&& field.spawner_at(e.default) is Some
}

/// Spawning `elem` with `drv` goes through: the driver has the shape that the
/// element asks for, and every lookup in `field` finds what it looks for.
pub open spec fn spawn_ok(elem: Element, drv: Driver, field: Field) -> bool
    decreases elem,
{
    match elem {
        Element::Horizontal(es) => match drv {
            Driver::List(ds) => forall|i: int|
                0 <= i < es@.len() && 0 <= i < ds@.len() ==> spawn_ok(
                    #[trigger] es@[i],
                    ds@[i],
                    field,
                ),
            _ => false,
        },
        Element::Vertical(es) => match drv {
            Driver::List(ds) => forall|i: int|
                0 <= i < es@.len() && 0 <= i < ds@.len() ==> spawn_ok(
                    #[trigger] es@[i],
                    ds@[i],
                    field,
                ),
            _ => false,
        },
        Element::Static(_) => true,
        Element::Driven(d) => match d {
            Driven::Enum(e) => drv is Enum && enum_ok(e, field),
            Driven::TableH(b) => match drv {
                Driver::List(ds) => forall|i: int|
                    0 <= i < ds@.len() ==> spawn_ok(*b, #[trigger] ds@[i], field),
                _ => false,
            },
            _ => true,
        },
    }
}

/// The smaller of two lengths.
pub open spec fn min_len(a: nat, b: nat) -> nat {
    if a <= b {
        a
    } else {
        b
    }
}

/// The spawn with no parts and no cache.
pub open spec fn empty_spawn() -> SpawnModel {
    SpawnModel { child: Seq::empty(), cache: CacheModel::Nothing }
}

/// What spawning `elem` with `drv` from `field` builds: rows, columns and
/// tables get one spawn per entry of their driver (rows and columns as many
/// as they have both parts and entries), a selector gets the spawns of its
/// choices together with a search index over them, its default as the
/// selection and the ids of its choices; everything else gets the empty spawn.
pub open spec fn spawn_spec(elem: Element, drv: Driver, field: Field) -> SpawnModel
    decreases elem,
{
    match elem {
        Element::Horizontal(es) => match drv {
            Driver::List(ds) => SpawnModel {
                child: Seq::new(
                    min_len(es@.len(), ds@.len()),
                    |i: int|
                        if 0 <= i < es@.len() && 0 <= i < ds@.len() {
                            spawn_spec(es@[i], ds@[i], field)
                        } else {
                            empty_spawn()
                        },
                ),
                cache: CacheModel::Nothing,
            },
            _ => empty_spawn(),
        },
        Element::Vertical(es) => match drv {
            Driver::List(ds) => SpawnModel {
                child: Seq::new(
                    min_len(es@.len(), ds@.len()),
                    |i: int|
                        if 0 <= i < es@.len() && 0 <= i < ds@.len() {
                            spawn_spec(es@[i], ds@[i], field)
                        } else {
                            empty_spawn()
                        },
                ),
                cache: CacheModel::Nothing,
            },
            _ => empty_spawn(),
        },
        Element::Static(_) => empty_spawn(),
        Element::Driven(d) => match d {
            Driven::Enum(e) => {
                let ids = enum_choices(e.cond, field);
                SpawnModel {
                    child: ids.map_values(|id: u64| field.spw@[id].model()),
                    cache: CacheModel::Enum(
                        EnumCacheModel {
                            index: Map::new(
                                |k: usize| k < ids.len(),
                                |k: usize| enum_tokens(e.cond, field, k as int),
                            ),
                            selected: Box::new(field.spawner_at(e.default).unwrap()),
                            selectable: ids,
                        },
                    ),
                }
            },
            Driven::TableH(b) => match drv {
                Driver::List(ds) => SpawnModel {
                    child: Seq::new(
                        ds@.len(),
                        |i: int|
                            if 0 <= i < ds@.len() {
                                spawn_spec(*b, ds@[i], field)
                            } else {
                                empty_spawn()
                            },
                    ),
                    cache: CacheModel::Nothing,
                },
                _ => empty_spawn(),
            },
            _ => empty_spawn(),
        },
    }
}

/// The ids of the choices of a selector, and a search index that files the
/// `k`-th choice under its tokens.
fn index_choices(cond: &Cond, field: &Field) -> (r: (Vec<u64>, simsearch::SimSearch<usize>))
    requires
        match *cond {
            Cond::Elem(v) => forall|i: int|
                0 <= i < v@.len() ==> field.map@.contains_key(#[trigger] v@[i]),
            Cond::Tags(t) => forall|i: int|
                0 <= i < t@.len() ==> (#[trigger] tag_lookup(field.tag@, t@[i]@)) is Some,
        },
    ensures
        r.0@ == enum_choices(*cond, *field),
        search_index(r.1) == Map::new(
            |k: usize| k < r.0@.len(),
            |k: usize| enum_tokens(*cond, *field, k as int),
        ),
{
    broadcast use vstd::std_specs::hash::group_hash_axioms;

    let mut ids: Vec<u64> = Vec::new();
    let mut searcher = search_new();
    match cond {
        Cond::Elem(v) => {
            let mut i: usize = 0;
            while i < v.len()
                invariant
                    *cond == Cond::Elem(*v),
                    forall|j: int| 0 <= j < v@.len() ==> field.map@.contains_key(#[trigger] v@[j]),
                    i <= v@.len(),
                    ids@ == v@.take(i as int),
                    search_index(searcher) == Map::new(
                        |k: usize| k < i,
                        |k: usize| enum_tokens(*cond, *field, k as int),
                    ),
                decreases v@.len() - i,
            {
                let id = v[i];
                ids.push(id);
                let chunk = field.map.get(&id).unwrap();
                search_insert_tokens(&mut searcher, i, &chunk.tags);
                i = i + 1;
                assert(ids@ =~= v@.take(i as int));
                assert(search_index(searcher) =~= Map::new(
                    |k: usize| k < i,
                    |k: usize| enum_tokens(*cond, *field, k as int),
                ));
            }
            assert(v@.take(i as int) =~= v@);
        },
        Cond::Tags(t) => {
            let mut j: usize = 0;
            while j < t.len()
                invariant
                    *cond == Cond::Tags(*t),
                    forall|i: int|
                        0 <= i < t@.len() ==> (#[trigger] tag_lookup(field.tag@, t@[i]@)) is Some,
                    j <= t@.len(),
                    ids@ == tags_ids(t@.take(j as int), field.tag@),
                    search_index(searcher) == Map::new(
                        |k: usize| k < ids@.len(),
                        |k: usize| enum_tokens(*cond, *field, k as int),
                    ),
                decreases t@.len() - j,
            {
                let found = field.tag_ids(&t[j]).unwrap();
                assert(tag_lookup(field.tag@, t@[j as int]@) is Some);
                let ghost before = ids@;
                let mut m: usize = 0;
                while m < found.len()
                    invariant
                        *cond == Cond::Tags(*t),
                        m <= found@.len(),
                        ids@ == before + found@.take(m as int),
                        search_index(searcher) == Map::new(
                            |k: usize| k < ids@.len(),
                            |k: usize| enum_tokens(*cond, *field, k as int),
                        ),
                    decreases found@.len() - m,
                {
                    let k = ids.len();
                    ids.push(found[m]);
                    search_insert_tokens(&mut searcher, k, t);
                    m = m + 1;
                    assert(ids@ =~= before + found@.take(m as int));
                    assert(search_index(searcher) =~= Map::new(
                        |k: usize| k < ids@.len(),
                        |k: usize| enum_tokens(*cond, *field, k as int),
                    ));
                }
                assert(found@.take(m as int) =~= found@);
                assert(t@.take(j + 1).drop_last() =~= t@.take(j as int));
                j = j + 1;
            }
            assert(t@.take(j as int) =~= t@);
        },
    }
    (ids, searcher)
}

/// Copies of the spawns stored under `ids`, in order.
fn spawns_of(ids: &Vec<u64>, field: &Field) -> (r: Vec<Spawn>)
    requires
        forall|i: int| 0 <= i < ids@.len() ==> field.spw@.contains_key(#[trigger] ids@[i]),
    ensures
        r@.len() == ids@.len(),
        forall|i: int|
            0 <= i < ids@.len() ==> #[trigger] r@[i].model() == field.spw@[ids@[i]].model(),
{
    broadcast use vstd::std_specs::hash::group_hash_axioms;

    let mut out: Vec<Spawn> = Vec::new();
    let mut i: usize = 0;
    while i < ids.len()
        invariant
            forall|j: int| 0 <= j < ids@.len() ==> field.spw@.contains_key(#[trigger] ids@[j]),
            i <= ids@.len(),
            out@.len() == i,
            forall|j: int| 0 <= j < i ==> #[trigger] out@[j].model() == field.spw@[ids@[j]].model(),
        decreases ids@.len() - i,
    {
        let s = field.spw.get(&ids[i]).unwrap().clone();
        out.push(s);
        i = i + 1;
    }
    out
}

/// The spawn of the selector `e`.
fn spawn_enum(e: &Enum, field: &Field) -> (r: Spawn)
    requires
        enum_ok(*e, *field),
    ensures
        r.model() == spawn_spec(Element::Driven(Driven::Enum(*e)), Driver::Enum(arbitrary()), *field),
{
    let (ids, searcher) = index_choices(&e.cond, field);
    let child = spawns_of(&ids, field);
    let sel = field.get_spawner(e.default).unwrap();
    let selectable = super::copy::copy_ids(&ids);
    let c = super::enumset::Cache {
        searcher,
        selected: Box::new((sel.spw, sel.elem, sel.drv)),
        selectable,
    };
    let ghost spec = spawn_spec(Element::Driven(Driven::Enum(*e)), Driver::Enum(arbitrary()), *field);
    proof {
        let cm = c.model();
        assert(cm.selectable == spec.cache->Enum_0.selectable);
        assert(cm.index =~= spec.cache->Enum_0.index);
        assert(cm.selected == spec.cache->Enum_0.selected);
        assert(cm == spec.cache->Enum_0);
    }
    let cache = Cache::Enum(c);
    assert(cache.model() == spec.cache);
    let r = Spawn { child, cache };
    proof {
        assert(r.model().child.len() == spec.child.len());
        assert(forall|j: int| 0 <= j < child@.len() ==> r.model().child[j] == child@[j].model());
        assert(r.model().child =~= spec.child);
    }
    r
}

/// The spawns of the parts of a row or column: one per part that has a
/// driver entry.
fn spawn_parts(
    es: &Vec<Element>,
    ds: &Vec<Driver>,
    ctx: &mut Context,
    field: &Field,
) -> (r: Vec<Spawn>)
    requires
        forall|i: int|
            0 <= i < es@.len() && 0 <= i < ds@.len() ==> spawn_ok(es@[i], ds@[i], *field),
    ensures
        r@.len() == min_len(es@.len(), ds@.len()),
        forall|i: int|
            0 <= i < r@.len() ==> #[trigger] r@[i].model() == spawn_spec(es@[i], ds@[i], *field),
        *final(ctx) == *old(ctx),
    decreases *es, 0int,
{
    let n = if es.len() <= ds.len() {
        es.len()
    } else {
        ds.len()
    };
    let mut out: Vec<Spawn> = Vec::new();
    let mut i: usize = 0;
    while i < n
        invariant
            n == min_len(es@.len(), ds@.len()),
            forall|j: int|
                0 <= j < es@.len() && 0 <= j < ds@.len() ==> spawn_ok(es@[j], ds@[j], *field),
            i <= n,
            out@.len() == i,
            forall|j: int|
                0 <= j < i ==> #[trigger] out@[j].model() == spawn_spec(es@[j], ds@[j], *field),
            *ctx == *old(ctx),
        decreases n - i,
    {
        proof {
            assert(decreases_to!(*es => es[i as int]));
        }
        let s = Spawn::new(&es[i], &ds[i], ctx, field);
        out.push(s);
        i = i + 1;
    }
    out
}

/// The spawns of the rows of a table: one per driver entry, each spawned from
/// the table's row element.
fn spawn_rows(row: &Element, ds: &Vec<Driver>, ctx: &mut Context, field: &Field) -> (r: Vec<Spawn>)
    requires
        forall|i: int| 0 <= i < ds@.len() ==> spawn_ok(*row, ds@[i], *field),
    ensures
        r@.len() == ds@.len(),
        forall|i: int|
            0 <= i < r@.len() ==> #[trigger] r@[i].model() == spawn_spec(*row, ds@[i], *field),
        *final(ctx) == *old(ctx),
    decreases *row, 2int,
{
    let mut out: Vec<Spawn> = Vec::new();
    let mut i: usize = 0;
    while i < ds.len()
        invariant
            forall|j: int| 0 <= j < ds@.len() ==> spawn_ok(*row, ds@[j], *field),
            i <= ds@.len(),
            out@.len() == i,
            forall|j: int| 0 <= j < i ==> #[trigger] out@[j].model() == spawn_spec(*row, ds@[j], *field),
            *ctx == *old(ctx),
        decreases ds@.len() - i,
    {
        let s = Spawn::new(row, &ds[i], ctx, field);
        out.push(s);
        i = i + 1;
    }
    out
}

impl Spawn {
    /// Spawns `elem` with its driver `drv`, looking up selector choices and
    /// defaults in `field`.
    pub fn new(elem: &Element, drv: &Driver, ctx: &mut Context, field: &Field) -> (r: Spawn)
        requires
            spawn_ok(*elem, *drv, *field),
        ensures
            r.model() == spawn_spec(*elem, *drv, *field),
            *final(ctx) == *old(ctx),
        decreases *elem, 1int,
    {
        match elem {
            Element::Horizontal(es) => {
                let ds = match drv {
                    Driver::List(ds) => ds,
                    _ => vstd::pervasive::unreached(),
                };
                proof {
                    assert(decreases_to!(*elem => elem->Horizontal_0));
                }
                let child = spawn_parts(es, ds, ctx, field);
                let r = Spawn { child, cache: Cache::Nothing };
                assert(r.cache.model() == CacheModel::Nothing);
                proof {
                    let spec = spawn_spec(*elem, *drv, *field);
                    assert(r.model().child.len() == spec.child.len());
                    assert(forall|j: int| 0 <= j < child@.len() ==> r.model().child[j] == child@[j].model());
                    assert(forall|j: int| 0 <= j < child@.len() ==> spec.child[j] == spawn_spec(es@[j], ds@[j], *field));
                    assert(r.model().child =~= spec.child);
                }
                r
            },
            Element::Vertical(es) => {
                let ds = match drv {
                    Driver::List(ds) => ds,
                    _ => vstd::pervasive::unreached(),
                };
                proof {
                    assert(decreases_to!(*elem => elem->Vertical_0));
                }
                let child = spawn_parts(es, ds, ctx, field);
                let r = Spawn { child, cache: Cache::Nothing };
                assert(r.cache.model() == CacheModel::Nothing);
                proof {
                    let spec = spawn_spec(*elem, *drv, *field);
                    assert(r.model().child.len() == spec.child.len());
                    assert(forall|j: int| 0 <= j < child@.len() ==> r.model().child[j] == child@[j].model());
                    assert(forall|j: int| 0 <= j < child@.len() ==> spec.child[j] == spawn_spec(es@[j], ds@[j], *field));
                    assert(r.model().child =~= spec.child);
                }
                r
            },
            Element::Static(_) => Spawn::default(),
            Element::Driven(d) => match d {
                Driven::Enum(e) => {
                    let r = spawn_enum(e, field);
                    assert(spawn_spec(*elem, *drv, *field) == spawn_spec(
                        Element::Driven(Driven::Enum(*e)),
                        Driver::Enum(arbitrary()),
                        *field,
                    ));
                    r
                },
                Driven::TableH(row) => {
                    let ds = match drv {
                        Driver::List(ds) => ds,
                        _ => vstd::pervasive::unreached(),
                    };
                    proof {
                        assert(decreases_to!(*elem => elem->Driven_0));
                        assert(decreases_to!(elem->Driven_0 => elem->Driven_0->TableH_0));
                    }
                    let child = spawn_rows(row, ds, ctx, field);
                    let r = Spawn { child, cache: Cache::Nothing };
                assert(r.cache.model() == CacheModel::Nothing);
                    proof {
                        let spec = spawn_spec(*elem, *drv, *field);
                        assert(r.model().child.len() == spec.child.len());
                        assert(forall|j: int| 0 <= j < child@.len() ==> r.model().child[j] == child@[j].model());
                        assert(forall|j: int| 0 <= j < child@.len() ==> spec.child[j] == spawn_spec(**row, ds@[j], *field));
                        assert(r.model().child =~= spec.child);
                    }
                    r
                },
                _ => Spawn::default(),
            },
        }
    }
}

impl Default for Spawn {
    /// A spawn with no parts and no cache.
    fn default() -> (r: Self)
        ensures
            r.model() == empty_spawn(),
    {
        let r = Self { child: Vec::new(), cache: Cache::Nothing };
        assert(r.cache.model() == CacheModel::Nothing);
        assert(r.model().child =~= Seq::<SpawnModel>::empty());
        r
    }
}

impl Default for Cache {
    fn default() -> (r: Self)
        ensures
            r.model() == CacheModel::Nothing,
    {
        Cache::Nothing
    }
}

/// A spawned table holds one row spawn per driver entry, each spawned from
/// the table's row element with that entry.
pub proof fn lemma_table_spawn_rows(elem: Element, drv: Driver, field: Field)
    requires
        elem is Driven,
        elem->Driven_0 is TableH,
        drv is List,
    ensures
        spawn_spec(elem, drv, field).child.len() == drv->List_0@.len(),
        forall|i: int|
            0 <= i < drv->List_0@.len() ==> #[trigger] spawn_spec(elem, drv, field).child[i]
                == spawn_spec(*elem->Driven_0->TableH_0, drv->List_0@[i], field),
{
}

/// Rows and columns get one part spawn per part that has a driver entry.
pub proof fn lemma_group_spawn_parts(elem: Element, drv: Driver, field: Field)
    requires
        elem is Horizontal,
        drv is List,
    ensures
        spawn_spec(elem, drv, field).child.len() == min_len(
            elem->Horizontal_0@.len(),
            drv->List_0@.len(),
        ),
        forall|i: int|
            0 <= i < spawn_spec(elem, drv, field).child.len() ==> #[trigger] spawn_spec(
                elem,
                drv,
                field,
            ).child[i] == spawn_spec(elem->Horizontal_0@[i], drv->List_0@[i], field),
{
}

} // verus!
