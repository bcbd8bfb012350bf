//! What spawning and selecting promise, stated over the contracts of
//! `Spawn::new`, `can_spawn`, `row_id` and `on_row`.
use vstd::prelude::*;

use super::{
    ChunkModel, Driven, Driver, DriverModel, Element, ElementModel, Field, SpawnerModel,
    StaticModel, tag_lookup,
};
use super::enumset::{
    row_count, row_fires, row_id_spec, with_labels, with_unselected, Cache as EnumCache,
};
use super::rows::default_driver;
use super::spawn::{enum_choices, spawn_ok, spawn_spec, tags_ids};
use crate::outside::{search_index, search_tokens, strings_model};

verus! {

/// A column spawned with a driver list gets, at every index up to the
/// shorter of its parts and entries, the spawn of that part with that entry,
/// in the order of the parts.
pub proof fn lemma_column_spawn_parts(elem: Element, drv: Driver, field: Field)
    requires
        elem is Vertical,
        drv is List,
    ensures
        spawn_spec(elem, drv, field).child.len() <= elem->Vertical_0@.len(),
        spawn_spec(elem, drv, field).child.len() <= drv->List_0@.len(),
        spawn_spec(elem, drv, field).child.len() == elem->Vertical_0@.len()
            || spawn_spec(elem, drv, field).child.len() == drv->List_0@.len(),
        forall|i: int|
            0 <= i < spawn_spec(elem, drv, field).child.len() ==> #[trigger] spawn_spec(
                elem,
                drv,
                field,
            ).child[i] == spawn_spec(elem->Vertical_0@[i], drv->List_0@[i], field),
{
}

/// A row spawned with a driver list gets, at every index up to the shorter
/// of its parts and entries, the spawn of that part with that entry, in the
/// order of the parts.
pub proof fn lemma_row_spawn_parts(elem: Element, drv: Driver, field: Field)
    requires
        elem is Horizontal,
        drv is List,
    ensures
        spawn_spec(elem, drv, field).child.len() <= elem->Horizontal_0@.len(),
        spawn_spec(elem, drv, field).child.len() <= drv->List_0@.len(),
        spawn_spec(elem, drv, field).child.len() == elem->Horizontal_0@.len()
            || spawn_spec(elem, drv, field).child.len() == drv->List_0@.len(),
        forall|i: int|
            0 <= i < spawn_spec(elem, drv, field).child.len() ==> #[trigger] spawn_spec(
                elem,
                drv,
                field,
            ).child[i] == spawn_spec(elem->Horizontal_0@[i], drv->List_0@[i], field),
{
}

/// Adding a tag at the end of a tag list adds the ids filed under it at the
/// end of the list's ids.
pub proof fn lemma_tags_ids_append(tags: Seq<String>, t: String, tag: Seq<(String, Vec<u64>)>)
    ensures
        tags_ids(tags.push(t), tag) == tags_ids(tags, tag) + tag_lookup(tag, t@).unwrap(),
{
    assert(tags.push(t).drop_last() =~= tags);
}

/// When every tag of a list is filed, its ids are exactly the ids filed under
/// its tags: each id filed under one of the tags is among them, and each of
/// them is filed under one of the tags.
pub proof fn lemma_tags_ids_members(tags: Seq<String>, tag: Seq<(String, Vec<u64>)>)
    requires
        forall|i: int| 0 <= i < tags.len() ==> (#[trigger] tag_lookup(tag, tags[i]@)) is Some,
    ensures
        forall|i: int, k: int|
            0 <= i < tags.len() && 0 <= k < tag_lookup(tag, tags[i]@).unwrap().len()
                ==> tags_ids(tags, tag).contains(#[trigger] tag_lookup(tag, tags[i]@).unwrap()[k]),
        forall|x: u64|
            tags_ids(tags, tag).contains(x) ==> exists|i: int|
                0 <= i < tags.len() && (#[trigger] tag_lookup(tag, tags[i]@)).unwrap().contains(x),
        tags_ids(tags, tag).len() >= if tags.len() == 0 {
            0
        } else {
            tag_lookup(tag, tags.last()@).unwrap().len()
        },
    decreases tags.len(),
{
    if tags.len() > 0 {
        let init = tags.drop_last();
        let last = tag_lookup(tag, tags.last()@).unwrap();
        assert forall|i: int| 0 <= i < init.len() implies (#[trigger] tag_lookup(
            tag,
            init[i]@,
        )) is Some by {
            assert(init[i] == tags[i]);
        }
        lemma_tags_ids_members(init, tag);
        let all = tags_ids(tags, tag);
        let front = tags_ids(init, tag);
        assert(all == front + last);
        assert forall|i: int, k: int|
            0 <= i < tags.len() && 0 <= k < tag_lookup(tag, tags[i]@).unwrap().len() implies all.contains(
            #[trigger] tag_lookup(tag, tags[i]@).unwrap()[k],
        ) by {
            let x = tag_lookup(tag, tags[i]@).unwrap()[k];
            if i < init.len() {
                assert(init[i] == tags[i]);
                assert(front.contains(x));
                let p = choose|p: int| 0 <= p < front.len() && front[p] == x;
                assert(all[p] == x);
            } else {
                assert(tags[i] == tags.last());
                assert(all[front.len() + k] == x);
            }
        }
        assert forall|x: u64| all.contains(x) implies exists|i: int|
            0 <= i < tags.len() && (#[trigger] tag_lookup(tag, tags[i]@)).unwrap().contains(x) by {
            let p = choose|p: int| 0 <= p < all.len() && all[p] == x;
            if p < front.len() {
                assert(front[p] == x);
                assert(front.contains(x));
                let i = choose|i: int|
                    0 <= i < init.len() && (#[trigger] tag_lookup(tag, init[i]@)).unwrap().contains(x);
                assert(init[i] == tags[i]);
            } else {
                assert(last[p - front.len()] == x);
                assert(tags[tags.len() - 1] == tags.last());
                assert(tag_lookup(tag, tags[tags.len() - 1]@).unwrap().contains(x));
            }
        }
    }
}

/// Spawning a selector offers its choices in order and keeps, for each, its
/// spawn and its place in the search index: the choices are the listed ids,
/// or for a tag selector the ids filed under its tags, tag after tag, every
/// one of them; child `k` is the stored spawn of choice `k`; the search index
/// files exactly the indexes of the choices, choice `k` under the tokens of
/// all the tags of its chunk (or, for a tag selector, of all the selector's
/// tags); the selection is the spawner stored under the default.
pub proof fn lemma_selector_spawn(elem: Element, drv: Driver, field: Field)
    requires
        elem is Driven,
        elem->Driven_0 is Enum,
        spawn_ok(elem, drv, field),
    ensures
        ({
            let e = elem->Driven_0->Enum_0;
            let sp = spawn_spec(elem, drv, field);
            let c = sp.cache->Enum_0;
            &&& sp.cache is Enum
            &&& c.selectable == enum_choices(e.cond, field)
            &&& e.cond is Elem ==> c.selectable == e.cond->Elem_0@
            &&& e.cond is Tags ==> c.selectable == tags_ids(e.cond->Tags_0@, field.tag@)
            &&& e.cond is Tags ==> forall|i: int, k: int|
                0 <= i < e.cond->Tags_0@.len() && 0 <= k < tag_lookup(
                    field.tag@,
                    e.cond->Tags_0@[i]@,
                ).unwrap().len() ==> c.selectable.contains(
                    #[trigger] tag_lookup(field.tag@, e.cond->Tags_0@[i]@).unwrap()[k],
                )
            &&& e.cond is Tags ==> forall|x: u64|
                c.selectable.contains(x) ==> exists|i: int|
                    0 <= i < e.cond->Tags_0@.len() && (#[trigger] tag_lookup(
                        field.tag@,
                        e.cond->Tags_0@[i]@,
                    )).unwrap().contains(x)
            &&& sp.child.len() == c.selectable.len()
            &&& forall|k: int|
                0 <= k < c.selectable.len() ==> #[trigger] sp.child[k]
                    == field.spw@[c.selectable[k]].model()
            &&& forall|k: usize| c.index.dom().contains(k) <==> k < c.selectable.len()
            &&& e.cond is Elem ==> forall|k: usize|
                k < c.selectable.len() ==> #[trigger] c.index[k] == search_tokens(
                    strings_model(field.map@[c.selectable[k as int]].tags@),
                )
            &&& e.cond is Tags ==> forall|k: usize|
                k < c.selectable.len() ==> #[trigger] c.index[k] == search_tokens(
                    strings_model(e.cond->Tags_0@),
                )
            &&& Some(*c.selected) == field.spawner_at(e.default)
        }),
{
    let e = elem->Driven_0->Enum_0;
    if e.cond is Tags {
        lemma_tags_ids_members(e.cond->Tags_0@, field.tag@);
    }
}

/// The rows of a spawned selector's popup are its choices: there are as many
/// rows as choices, row `i` shows choice `i` (the listed id, or the id kept
/// in the cache), and the search index files each row's choice under its
/// row's index.
pub proof fn lemma_rows_are_choices(elem: Element, drv: Driver, field: Field, cache: EnumCache)
    requires
        elem is Driven,
        elem->Driven_0 is Enum,
        spawn_ok(elem, drv, field),
        spawn_spec(elem, drv, field).cache == super::CacheModel::Enum(cache.model()),
    ensures
        ({
            let cond = elem->Driven_0->Enum_0.cond;
            &&& row_count(cond, cache) == cache.selectable@.len()
            &&& cache.selectable@ == enum_choices(cond, field)
            &&& forall|i: int|
                0 <= i < row_count(cond, cache) ==> #[trigger] row_id_spec(cond, cache, i)
                    == cache.selectable@[i]
            &&& forall|i: usize|
                i < row_count(cond, cache) ==> search_index(cache.searcher).dom().contains(i)
        }),
{
    lemma_selector_spawn(elem, drv, field);
}

/// A table can be spawned with a driver list exactly when every entry can be
/// spawned with the table's row element; in particular a table with no rows
/// yet can be spawned, and its spawn has no rows.
pub proof fn lemma_table_spawn_ok(elem: Element, drv: Driver, field: Field)
    requires
        elem is Driven,
        elem->Driven_0 is TableH,
        drv is List,
    ensures
        spawn_ok(elem, drv, field) <==> forall|i: int|
            0 <= i < drv->List_0@.len() ==> spawn_ok(
                *elem->Driven_0->TableH_0,
                #[trigger] drv->List_0@[i],
                field,
            ),
        drv->List_0@.len() == 0 ==> spawn_ok(elem, drv, field)
            && spawn_spec(elem, drv, field).child.len() == 0,
{
}

/// A row or a column can be spawned with a driver list exactly when each of
/// its parts that has an entry can be spawned with that entry; with no parts
/// or no entries it always can.
pub proof fn lemma_group_spawn_ok(elem: Element, drv: Driver, field: Field)
    requires
        elem is Horizontal || elem is Vertical,
        drv is List,
    ensures
        elem is Horizontal ==> (spawn_ok(elem, drv, field) <==> forall|i: int|
            0 <= i < elem->Horizontal_0@.len() && 0 <= i < drv->List_0@.len() ==> spawn_ok(
                #[trigger] elem->Horizontal_0@[i],
                drv->List_0@[i],
                field,
            )),
        elem is Vertical ==> (spawn_ok(elem, drv, field) <==> forall|i: int|
            0 <= i < elem->Vertical_0@.len() && 0 <= i < drv->List_0@.len() ==> spawn_ok(
                #[trigger] elem->Vertical_0@[i],
                drv->List_0@[i],
                field,
            )),
        elem is Horizontal && (elem->Horizontal_0@.len() == 0 || drv->List_0@.len() == 0)
            ==> spawn_ok(elem, drv, field),
        elem is Vertical && (elem->Vertical_0@.len() == 0 || drv->List_0@.len() == 0)
            ==> spawn_ok(elem, drv, field),
{
}

/// A row is chosen when it is clicked, or when Tab moved to it and Enter was
/// pressed while the search text is the first tag of its chunk; a row that is
/// not clicked is not chosen unless Tab moved to it and Enter was pressed.
pub proof fn lemma_row_choice(
    search: Seq<char>,
    field: Field,
    id: u64,
    index: usize,
    target: Option<usize>,
    enter_pressed: bool,
    clicked: bool,
)
    ensures
        clicked ==> row_fires(search, field, id, index, target, enter_pressed, clicked),
        !clicked && (target != Some(index) || !enter_pressed) ==> !row_fires(
            search,
            field,
            id,
            index,
            target,
            enter_pressed,
            clicked,
        ),
        !clicked && target == Some(index) && enter_pressed ==> (row_fires(
            search,
            field,
            id,
            index,
            target,
            enter_pressed,
            clicked,
        ) <==> search == field.map@[id].tags@[0]@),
{
}

/// Filing labels under distinct ids files under the `i`-th id a label chunk
/// that shows the `i`-th label, has no driver and is found by that label
/// alone; every other key keeps its chunk.
pub proof fn lemma_with_labels(chunks: Map<u64, ChunkModel>, ids: Seq<u64>, labels: Seq<Seq<char>>)
    requires
        ids.len() == labels.len(),
        ids.no_duplicates(),
    ensures
        forall|i: int|
            0 <= i < ids.len() ==> with_labels(chunks, ids, labels).contains_key(#[trigger] ids[i])
                && with_labels(chunks, ids, labels)[ids[i]] == (ChunkModel {
                elem: ElementModel::Static(StaticModel::LabelRT(labels[i])),
                drv: DriverModel::Nothing,
                tags: seq![labels[i]],
            }),
        forall|k: u64|
            !ids.contains(k) ==> (with_labels(chunks, ids, labels).contains_key(k)
                == chunks.contains_key(k) && with_labels(chunks, ids, labels)[k] == chunks[k]),
    decreases ids.len(),
{
    if ids.len() > 0 {
        let n = ids.len() - 1;
        let pi = ids.drop_last();
        let pl = labels.drop_last();
        assert(pi.no_duplicates()) by {
            assert forall|a: int, b: int| 0 <= a < b < pi.len() implies pi[a] != pi[b] by {
                assert(pi[a] == ids[a] && pi[b] == ids[b]);
            }
        }
        lemma_with_labels(chunks, pi, pl);
        assert forall|i: int|
            0 <= i < ids.len() implies with_labels(chunks, ids, labels).contains_key(
            #[trigger] ids[i],
        ) && with_labels(chunks, ids, labels)[ids[i]] == (ChunkModel {
            elem: ElementModel::Static(StaticModel::LabelRT(labels[i])),
            drv: DriverModel::Nothing,
            tags: seq![labels[i]],
        }) by {
            if i < n {
                assert(pi[i] == ids[i] && pl[i] == labels[i]);
                assert(ids[i] != ids[n]);
            }
        }
        assert forall|k: u64| !ids.contains(k) implies (with_labels(
            chunks,
            ids,
            labels,
        ).contains_key(k) == chunks.contains_key(k) && with_labels(chunks, ids, labels)[k]
            == chunks[k]) by {
            assert(k != ids[n]);
            if pi.contains(k) {
                let p = choose|p: int| 0 <= p < pi.len() && pi[p] == k;
                assert(ids[p] == k);
            }
        }
    }
}

/// Filing the unselected chunk under `id`: a chunk already there stays;
/// otherwise the chunk put there shows "unselected", has no driver and no
/// tags; every other key keeps its chunk.
pub proof fn lemma_with_unselected(chunks: Map<u64, ChunkModel>, id: u64)
    ensures
        with_unselected(chunks, id).contains_key(id),
        chunks.contains_key(id) ==> with_unselected(chunks, id)[id] == chunks[id],
        !chunks.contains_key(id) ==> with_unselected(chunks, id)[id] == (ChunkModel {
            elem: ElementModel::Static(StaticModel::LabelRT("unselected"@)),
            drv: DriverModel::Nothing,
            tags: Seq::empty(),
        }),
        forall|k: u64|
            k != id ==> (with_unselected(chunks, id).contains_key(k) == chunks.contains_key(k)
                && with_unselected(chunks, id)[k] == chunks[k]),
{
}

/// A fresh driver: nothing for a static widget, an unchecked box for a check
/// box, an empty table, an empty text, and for a selector the default
/// spawner.
pub proof fn lemma_default_drivers(elem: Element, default: SpawnerModel)
    ensures
        elem is Static ==> default_driver(elem, default) == DriverModel::Nothing,
        elem is Driven && elem->Driven_0 is CheckBoxRT ==> default_driver(elem, default)
            == DriverModel::CheckBoxRT(false),
        elem is Driven && elem->Driven_0 is TableH ==> default_driver(elem, default)
            == DriverModel::TableH(Seq::empty()),
        elem is Driven && elem->Driven_0 is TextBoxEditable ==> default_driver(elem, default)
            == DriverModel::TextBoxEditable(Seq::empty()),
        elem is Driven && elem->Driven_0 is Enum ==> default_driver(elem, default)
            == DriverModel::Enum(Box::new(default)),
{
}

/// Static widgets, check boxes and text boxes keep nothing between frames:
/// their spawn has no parts and no cache, whatever their driver.
pub proof fn lemma_plain_spawn(elem: Element, drv: Driver, field: Field)
    requires
        elem is Static || (elem is Driven && (elem->Driven_0 is CheckBoxRT
            || elem->Driven_0 is TextBoxEditable)),
    ensures
        spawn_spec(elem, drv, field).child.len() == 0,
        spawn_spec(elem, drv, field).cache == super::CacheModel::Nothing,
        spawn_ok(elem, drv, field),
{
}

} // verus!
