//! Selectors: a template that offers a choice among named chunks.
use vstd::prelude::*;

use super::{
    Chunk, ChunkModel, Driven, Driver, DriverModel, Element, ElementModel, Field, Spawn,
    Spawner, SpawnerModel, Static, StaticModel,
};
use crate::context::{Context, TabCycle};
use crate::outside::{
    egui_id_child_str, egui_id_child_usize, egui_id_str, id_child_str, id_child_usize,
    search_hits, search_index, search_search, strings_model,
};

verus! {

/// A selector: where its choices come from, and the id of the chunk shown
/// while nothing is selected.
pub struct Enum {
    pub cond: Cond,
    pub default: u64,
}

/// The choices of a selector: the listed chunk ids, or the chunks filed under
/// the listed tags.
pub enum Cond {
    Elem(Vec<u64>),
    Tags(Vec<String>),
}

/// What a spawned selector keeps: the search index over its choices, the
/// current selection, and the ids of the choices.
pub struct Cache {
    pub searcher: simsearch::SimSearch<usize>,
    pub selected: Box<(Spawn, Element, Driver)>,
    pub selectable: Vec<u64>,
}

/// Where a selector's choices come from, as a mathematical value.
pub enum CondModel {
    Elem(Seq<u64>),
    Tags(Seq<Seq<char>>),
}

/// A selector as a mathematical value.
pub struct EnumModel {
    pub cond: CondModel,
    pub default: u64,
}

/// A spawned selector's cache as a mathematical value.
pub struct EnumCacheModel {
    pub index: Map<usize, Seq<Seq<char>>>,
    pub selected: Box<SpawnerModel>,
    pub selectable: Seq<u64>,
}

impl Cond {
    pub open spec fn model(self) -> CondModel {
        match self {
            Cond::Elem(v) => CondModel::Elem(v@),
            Cond::Tags(v) => CondModel::Tags(strings_model(v@)),
        }
    }
}

impl Enum {
    pub open spec fn model(self) -> EnumModel {
        EnumModel { cond: self.cond.model(), default: self.default }
    }
}

impl Cache {
    pub open spec fn model(self) -> EnumCacheModel
        decreases self,
    {
        EnumCacheModel {
            index: search_index(self.searcher),
            selected: Box::new(
                SpawnerModel {
                    spw: self.selected.0.model(),
                    elem: self.selected.1.model(),
                    drv: self.selected.2.model(),
                },
            ),
            selectable: self.selectable@,
        }
    }
}

/// The id of the chunk that selectors show while nothing is selected: egui's
/// id of "enum" with the child "unselected".
pub open spec fn unselected_id() -> u64 {
    egui_id_child_str(egui_id_str("enum"@), "unselected"@)
}

/// The id under which a label drawn with counter value `n` is filed: egui's
/// id of "enum" with the child `n`.
pub open spec fn label_id(n: usize) -> u64 {
    egui_id_child_usize(egui_id_str("enum"@), n)
}

/// The chunk of a label that shows `text` and is found by it.
pub open spec fn label_chunk(text: Seq<char>) -> ChunkModel {
    ChunkModel {
        elem: ElementModel::Static(StaticModel::LabelRT(text)),
        drv: DriverModel::Nothing,
        tags: seq![text],
    }
}

/// The chunk shown by a selector while nothing is selected.
pub open spec fn unselected_chunk() -> ChunkModel {
    ChunkModel {
        elem: ElementModel::Static(StaticModel::LabelRT("unselected"@)),
        drv: DriverModel::Nothing,
        tags: Seq::empty(),
    }
}

/// `chunks` with the unselected chunk filed under `id`, unless `id` is taken.
pub open spec fn with_unselected(chunks: Map<u64, ChunkModel>, id: u64) -> Map<u64, ChunkModel> {
    if chunks.contains_key(id) {
        chunks
    } else {
        chunks.insert(id, unselected_chunk())
    }
}

/// `chunks` with the label of `labels[i]` filed under `ids[i]`, one after the
/// other (a later label wins over an earlier one under the same id).
pub open spec fn with_labels(
    chunks: Map<u64, ChunkModel>,
    ids: Seq<u64>,
    labels: Seq<Seq<char>>,
) -> Map<u64, ChunkModel>
    decreases ids.len(),
{
    if ids.len() == 0 || labels.len() == 0 {
        chunks
    } else {
        with_labels(chunks, ids.drop_last(), labels.drop_last()).insert(
            ids.last(),
            label_chunk(labels[ids.len() - 1]),
        )
    }
}

/// Filing the unselected chunk twice under one id changes nothing the second
/// time; as `enum_default` always files it under `unselected_id()`, calling
/// `enum_default` twice has the effect of calling it once.
pub proof fn lemma_with_unselected_idempotent(chunks: Map<u64, ChunkModel>, id: u64)
    ensures
        with_unselected(with_unselected(chunks, id), id) == with_unselected(chunks, id),
        with_unselected(chunks, id).contains_key(id),
{
}

impl Enum {
    /// Files the unselected chunk under `id`, unless a chunk is there already.
    pub fn insert_unselected(field: &mut Field, id: u64)
        ensures
            final(field).chunks() == with_unselected(old(field).chunks(), id),
            final(field).spw == old(field).spw,
            final(field).tag == old(field).tag,
    {
        broadcast use vstd::std_specs::hash::group_hash_axioms;
        broadcast use vstd::string::group_string_axioms;

        if field.map.get(&id).is_none() {
            let c = Chunk {
                elem: Element::Static(Static::LabelRT("unselected".to_string())),
                drv: Driver::Nothing,
                tags: Vec::new(),
            };
            field.map.insert(id, c);
            assert(strings_model(c.tags@) =~= Seq::<Seq<char>>::empty());
            assert(field.chunks() =~= with_unselected(old(field).chunks(), id));
        } else {
            assert(field.chunks() =~= with_unselected(old(field).chunks(), id));
        }
    }

    /// The id of the chunk that selectors show while nothing is selected,
    /// filing that chunk first if it is not there yet.
    pub fn enum_default(field: &mut Field) -> (r: u64)
        ensures
            r == unselected_id(),
            r != 0,
            final(field).chunks() == with_unselected(old(field).chunks(), r),
            final(field).spw == old(field).spw,
            final(field).tag == old(field).tag,
    {
        let id = id_child_str("enum", "unselected");
        Enum::insert_unselected(field, id);
        id
    }

    /// The selector as an element.
    pub fn into_elem(self) -> (r: Element)
        ensures
            r == Element::Driven(Driven::Enum(self)),
    {
        Element::Driven(Driven::Enum(self))
    }

    /// A selector among the labels `labels`: each label is filed as a chunk
    /// under a fresh id drawn with the context's counter, and the unselected
    /// chunk is filed as the default.
    pub fn from_strings(labels: Vec<String>, ctx: &mut Context, field: &mut Field) -> (r: Self)
        requires
            old(ctx).count@ + labels@.len() <= usize::MAX,
        ensures
            r.cond is Elem,
            r.cond->Elem_0@.len() == labels@.len(),
            forall|i: int|
                0 <= i < labels@.len() ==> #[trigger] r.cond->Elem_0@[i] == label_id(
                    (old(ctx).count@ + i) as usize,
                ),
            r.default == unselected_id(),
            final(field).chunks() == with_unselected(
                with_labels(old(field).chunks(), r.cond->Elem_0@, strings_model(labels@)),
                r.default,
            ),
            final(field).spw == old(field).spw,
            final(field).tag == old(field).tag,
            final(ctx).count@ == old(ctx).count@ + labels@.len(),
            final(ctx).focus == old(ctx).focus,
            final(ctx).search == old(ctx).search,
            final(ctx).depth == old(ctx).depth,
            final(ctx).open_popup == old(ctx).open_popup,
            final(ctx).close_popup == old(ctx).close_popup,
            final(ctx).inc_table == old(ctx).inc_table,
            final(ctx).dec_table == old(ctx).dec_table,
    {
        broadcast use vstd::std_specs::hash::group_hash_axioms;

        let mut ids: Vec<u64> = Vec::new();
        let mut i: usize = 0;
        while i < labels.len()
            invariant
                i <= labels@.len(),
                ids@.len() == i,
                forall|j: int|
                    0 <= j < i ==> #[trigger] ids@[j] == label_id((old(ctx).count@ + j) as usize),
                ctx.count@ == old(ctx).count@ + i,
                old(ctx).count@ + labels@.len() <= usize::MAX,
                field.chunks() == with_labels(
                    old(field).chunks(),
                    ids@,
                    strings_model(labels@.take(i as int)),
                ),
                field.spw == old(field).spw,
                field.tag == old(field).tag,
                ctx.focus == old(ctx).focus,
                ctx.search == old(ctx).search,
                ctx.depth == old(ctx).depth,
                ctx.open_popup == old(ctx).open_popup,
                ctx.close_popup == old(ctx).close_popup,
                ctx.inc_table == old(ctx).inc_table,
                ctx.dec_table == old(ctx).dec_table,
            decreases labels@.len() - i,
        {
            let n = ctx.count.get();
            let id = id_child_usize("enum", n);
            let s = &labels[i];
            let c = Chunk {
                elem: Element::Static(Static::LabelRT(s.clone())),
                drv: Driver::Nothing,
                tags: vec![s.clone()],
            };
            field.map.insert(id, c);
            let ghost prev = ids@;
            ids.push(id);
            i = i + 1;
            proof {
                let lm = strings_model(labels@.take(i as int));
                assert(ids@.drop_last() =~= prev);
                assert(lm.drop_last() =~= strings_model(labels@.take(i - 1)));
                assert(strings_model(c.tags@) =~= seq![s@]);
                assert(lm[ids@.len() - 1] == s@);
                assert(field.chunks() =~= with_labels(old(field).chunks(), ids@, lm));
            }
        }
        assert(labels@.take(i as int) =~= labels@);
        let default = Enum::enum_default(field);
        Enum { cond: Cond::Elem(ids), default }
    }
}

/// Whether spawning the selector `e` from `field` goes through.
pub fn can_spawn_enum(e: &Enum, field: &Field) -> (r: bool)
    ensures
        r == super::spawn::enum_ok(*e, *field),
{
    broadcast use vstd::std_specs::hash::group_hash_axioms;

    let ids: Vec<u64> = match &e.cond {
        Cond::Elem(v) => {
            let mut i: usize = 0;
            while i < v.len()
                invariant
                    e.cond is Elem && e.cond->Elem_0 == *v,
                    forall|j: int| 0 <= j < i ==> field.map@.contains_key(#[trigger] v@[j]),
                decreases v@.len() - i,
            {
                if field.map.get(&v[i]).is_none() {
                    assert(!field.map@.contains_key(v@[i as int]));
                    assert(!(forall|j: int| 0 <= j < v@.len() ==> field.map@.contains_key(#[trigger] v@[j])));
                    return false;
                }
                i = i + 1;
            }
            super::copy::copy_ids(v)
        },
        Cond::Tags(t) => {
            let mut ids: Vec<u64> = Vec::new();
            let mut j: usize = 0;
            while j < t.len()
                invariant
                    e.cond is Tags && e.cond->Tags_0 == *t,
                    j <= t@.len(),
                    forall|i: int|
                        0 <= i < j ==> (#[trigger] super::tag_lookup(field.tag@, t@[i]@)) is Some,
                    ids@ == super::spawn::tags_ids(t@.take(j as int), field.tag@),
                decreases t@.len() - j,
            {
                let found = match field.tag_ids(&t[j]) {
                    Some(f) => f,
                    None => return false,
                };
                let ghost before = ids@;
                let mut m: usize = 0;
                while m < found.len()
                    invariant
                        m <= found@.len(),
                        ids@ == before + found@.take(m as int),
                    decreases found@.len() - m,
                {
                    ids.push(found[m]);
                    m = m + 1;
                    assert(ids@ =~= before + found@.take(m as int));
                }
                assert(found@.take(m as int) =~= found@);
                assert(t@.take(j + 1).drop_last() =~= t@.take(j as int));
                j = j + 1;
            }
            assert(t@.take(j as int) =~= t@);
            ids
        },
    };
    assert(ids@ == super::spawn::enum_choices(e.cond, *field));
    let mut i: usize = 0;
    while i < ids.len()
        invariant
            ids@ == super::spawn::enum_choices(e.cond, *field),
            forall|j: int| 0 <= j < i ==> field.spw@.contains_key(#[trigger] ids@[j]),
        decreases ids@.len() - i,
    {
        if field.spw.get(&ids[i]).is_none() {
            return false;
        }
        i = i + 1;
    }
    field.get_spawner(e.default).is_some()
}

/// Starts a frame of a selector: the keyboard has not left a selector in
/// this frame yet.
pub fn begin_frame(ctx: &mut Context)
    ensures
        !final(ctx).focus.lost_focus_this_frame@,
        final(ctx).focus.turn_next == old(ctx).focus.turn_next,
        final(ctx).focus.edit_next == old(ctx).focus.edit_next,
        final(ctx).focus.edit_once == old(ctx).focus.edit_once,
        final(ctx).focus.on_button == old(ctx).focus.on_button,
        final(ctx).focus.tab_target_id == old(ctx).focus.tab_target_id,
        final(ctx).search == old(ctx).search,
        final(ctx).depth == old(ctx).depth,
        final(ctx).count == old(ctx).count,
        final(ctx).open_popup == old(ctx).open_popup,
        final(ctx).close_popup == old(ctx).close_popup,
        final(ctx).inc_table == old(ctx).inc_table,
        final(ctx).dec_table == old(ctx).dec_table,
{
    ctx.focus.lost_focus_this_frame.off();
}

/// What becomes of a selector's popup at the end of a frame.
#[derive(Clone, Copy, Debug, PartialEq, Eq, Structural)]
pub enum PopupAction {
    Open,
    Close,
    Keep,
}

/// The popup of a selector at the end of a frame: a request to open it wins
/// over a request to close it; the request that was honoured is disarmed.
pub fn popup_action(ctx: &mut Context) -> (r: PopupAction)
    ensures
        old(ctx).open_popup@ ==> r == PopupAction::Open,
        !old(ctx).open_popup@ && old(ctx).close_popup@ ==> r == PopupAction::Close,
        !old(ctx).open_popup@ && !old(ctx).close_popup@ ==> r == PopupAction::Keep,
        !final(ctx).open_popup@,
        final(ctx).close_popup@ == (old(ctx).open_popup@ && old(ctx).close_popup@),
        final(ctx).focus == old(ctx).focus,
        final(ctx).search == old(ctx).search,
        final(ctx).depth == old(ctx).depth,
        final(ctx).count == old(ctx).count,
        final(ctx).inc_table == old(ctx).inc_table,
        final(ctx).dec_table == old(ctx).dec_table,
{
    if ctx.open_popup.run(|| {}) {
        PopupAction::Open
    } else if ctx.close_popup.run(|| {}) {
        PopupAction::Close
    } else {
        PopupAction::Keep
    }
}

/// A frame in which the selector shows its selection and a button: a click,
/// or focus handed to the button, asks for the popup to open with an empty
/// search that takes the keyboard.
pub fn on_button_frame(ctx: &mut Context, clicked: bool)
    ensures
        (clicked || old(ctx).focus.on_button@) ==> {
            &&& !final(ctx).focus.on_button@
            &&& final(ctx).open_popup@
            &&& final(ctx).focus.edit_once@
            &&& final(ctx).search@ == Seq::<char>::empty()
        },
        !(clicked || old(ctx).focus.on_button@) ==> *final(ctx) == *old(ctx),
        final(ctx).focus.turn_next == old(ctx).focus.turn_next,
        final(ctx).focus.edit_next == old(ctx).focus.edit_next,
        final(ctx).focus.lost_focus_this_frame == old(ctx).focus.lost_focus_this_frame,
        final(ctx).focus.tab_target_id == old(ctx).focus.tab_target_id,
        final(ctx).depth == old(ctx).depth,
        final(ctx).count == old(ctx).count,
        final(ctx).close_popup == old(ctx).close_popup,
        final(ctx).inc_table == old(ctx).inc_table,
        final(ctx).dec_table == old(ctx).dec_table,
{
    if clicked || ctx.focus.on_button.is_on() {
        ctx.focus.on_button.off();
        ctx.open_popup.on();
        ctx.focus.edit_once.on();
        ctx.search = String::new();
    }
}

/// What a frame with the popup open asks of the search box: whether it takes
/// the keyboard, and which row, if any, Tab moved to.
#[derive(Clone, Copy, Debug, PartialEq, Eq, Structural)]
pub struct SearchStep {
    pub request_focus: bool,
    pub target: Option<usize>,
}

/// Whether a frame with the popup open runs a new search: the search box lost
/// the keyboard while holding some text.
pub open spec fn search_refreshes(search: Seq<char>, edit_lost_focus: bool) -> bool {
    edit_lost_focus && search.len() > 0
}

/// A frame with the popup open, after the user edited the search text: the
/// search box takes the keyboard when asked to once or on Backspace; Enter on
/// an empty search asks for the popup to close; when the search box lost the
/// keyboard with some text in it, Tab cycles through the hits of a new
/// search; on Tab, or after such a search, the next hit is the row to move to.
pub fn on_search_frame(
    ctx: &mut Context,
    cache: &Cache,
    tab_pressed: bool,
    backspace_pressed: bool,
    enter_pressed: bool,
    edit_lost_focus: bool,
) -> (r: SearchStep)
    ensures
        r.request_focus == (old(ctx).focus.edit_once@ || backspace_pressed),
        final(ctx).focus.edit_once@ == (old(ctx).focus.edit_once@ || backspace_pressed),
        final(ctx).close_popup@ == (old(ctx).close_popup@ || (enter_pressed && old(ctx).search@.len() == 0)),
        search_refreshes(old(ctx).search@, edit_lost_focus) ==> {
            &&& final(ctx).focus.tab_target_id.items().no_duplicates()
            &&& final(ctx).focus.tab_target_id.items().to_set() == search_hits(
                search_index(cache.searcher),
                old(ctx).search@,
            )
            &&& forall|i: int|
                0 <= i < final(ctx).focus.tab_target_id.items().len() ==> search_index(
                    cache.searcher,
                ).dom().contains(#[trigger] final(ctx).focus.tab_target_id.items()[i])
        },
        !search_refreshes(old(ctx).search@, edit_lost_focus) ==> final(ctx).focus.tab_target_id.items() == old(ctx).focus.tab_target_id.items(),
        ({
            let start: nat = if search_refreshes(old(ctx).search@, edit_lost_focus) {
                0
            } else {
                old(ctx).focus.tab_target_id.position()
            };
            let items = final(ctx).focus.tab_target_id.items();
            if tab_pressed || search_refreshes(old(ctx).search@, edit_lost_focus) {
                if items.len() == 0 {
                    r.target is None && final(ctx).focus.tab_target_id.position() == 0
                } else {
                    &&& start < items.len()
                    &&& r.target == Some(items[start as int])
                    &&& final(ctx).focus.tab_target_id.position() == crate::context::cycle_step(
                        start,
                        items.len(),
                    )
                }
            } else {
                r.target is None && final(ctx).focus.tab_target_id.position() == start
            }
        }),
        final(ctx).focus.turn_next == old(ctx).focus.turn_next,
        final(ctx).focus.edit_next == old(ctx).focus.edit_next,
        final(ctx).focus.lost_focus_this_frame == old(ctx).focus.lost_focus_this_frame,
        final(ctx).focus.on_button == old(ctx).focus.on_button,
        final(ctx).search == old(ctx).search,
        final(ctx).depth == old(ctx).depth,
        final(ctx).count == old(ctx).count,
        final(ctx).open_popup == old(ctx).open_popup,
        final(ctx).inc_table == old(ctx).inc_table,
        final(ctx).dec_table == old(ctx).dec_table,
{
    let mut tab_choice = tab_pressed;
    let mut request_focus = false;
    if ctx.focus.edit_once.is_on() || backspace_pressed {
        request_focus = true;
        ctx.focus.edit_once.on();
    }
    let search_empty = ctx.search.as_str().is_empty();
    if enter_pressed && search_empty {
        ctx.close_popup.on();
    }
    if edit_lost_focus && !search_empty {
        tab_choice = true;
        let hits = search_search(&cache.searcher, ctx.search.as_str());
        ctx.focus.tab_target_id = TabCycle::from_vec(hits);
    }
    let target = if tab_choice {
        ctx.focus.tab_target_id.next()
    } else {
        None
    };
    SearchStep { request_focus, target }
}

/// The number of rows that a selector's popup lists.
pub open spec fn row_count(cond: Cond, cache: Cache) -> nat {
    match cond {
        Cond::Elem(v) => v@.len(),
        Cond::Tags(_) => cache.selectable@.len(),
    }
}

/// The chunk id shown in row `index` of a selector's popup.
pub open spec fn row_id_spec(cond: Cond, cache: Cache, index: int) -> u64 {
    match cond {
        Cond::Elem(v) => v@[index],
        Cond::Tags(_) => cache.selectable@[index],
    }
}

/// The chunk id shown in row `index` of a selector's popup: the listed id, or
/// for choices found by tag, the id kept in the cache.
pub fn row_id(cond: &Cond, cache: &Cache, index: usize) -> (r: u64)
    requires
        index < row_count(*cond, *cache),
    ensures
        r == row_id_spec(*cond, *cache, index as int),
{
    match cond {
        Cond::Elem(v) => v[index],
        Cond::Tags(_) => cache.selectable[index],
    }
}

/// Whether row `index` is chosen in this frame: it was clicked, or Tab moved
/// to it and Enter was pressed while the search text is its first tag.
pub open spec fn row_fires(
    search: Seq<char>,
    field: Field,
    id: u64,
    index: usize,
    target: Option<usize>,
    enter_pressed: bool,
    clicked: bool,
) -> bool {
    ||| clicked
    ||| (target == Some(index) && enter_pressed && search == field.map@[id].tags@[0]@)
}

/// A row of the open popup: choosing it makes the row's chunk the selection,
/// notes that the keyboard left the selector in this frame, and asks for the
/// popup to close. Returns whether the row takes the keyboard, which it does
/// when Tab moved to it.
pub fn on_row(
    ctx: &mut Context,
    drv: &mut Spawner,
    cond: &Cond,
    cache: &Cache,
    field: &Field,
    index: usize,
    target: Option<usize>,
    enter_pressed: bool,
    clicked: bool,
) -> (r: bool)
    requires
        index < row_count(*cond, *cache),
        target == Some(index) ==> {
            &&& field.map@.contains_key(row_id_spec(*cond, *cache, index as int))
            &&& field.map@[row_id_spec(*cond, *cache, index as int)].tags@.len() > 0
        },
        row_fires(
            old(ctx).search@,
            *field,
            row_id_spec(*cond, *cache, index as int),
            index,
            target,
            enter_pressed,
            clicked,
        ) ==> field.spawner_at(row_id_spec(*cond, *cache, index as int)) is Some,
    ensures
        r == (target == Some(index)),
        row_fires(
            old(ctx).search@,
            *field,
            row_id_spec(*cond, *cache, index as int),
            index,
            target,
            enter_pressed,
            clicked,
        ) ==> {
            &&& Some(final(drv).model()) == field.spawner_at(
                row_id_spec(*cond, *cache, index as int),
            )
            &&& final(ctx).focus.lost_focus_this_frame@
            &&& final(ctx).close_popup@
        },
        !row_fires(
            old(ctx).search@,
            *field,
            row_id_spec(*cond, *cache, index as int),
            index,
            target,
            enter_pressed,
            clicked,
        ) ==> *final(drv) == *old(drv) && *final(ctx) == *old(ctx),
        final(ctx).focus.turn_next == old(ctx).focus.turn_next,
        final(ctx).focus.edit_next == old(ctx).focus.edit_next,
        final(ctx).focus.edit_once == old(ctx).focus.edit_once,
        final(ctx).focus.on_button == old(ctx).focus.on_button,
        final(ctx).focus.tab_target_id == old(ctx).focus.tab_target_id,
        final(ctx).search == old(ctx).search,
        final(ctx).depth == old(ctx).depth,
        final(ctx).count == old(ctx).count,
        final(ctx).open_popup == old(ctx).open_popup,
        final(ctx).inc_table == old(ctx).inc_table,
        final(ctx).dec_table == old(ctx).dec_table,
{
    broadcast use vstd::std_specs::hash::group_hash_axioms;

    let id = row_id(cond, cache, index);
    let mut fire = clicked;
    let mut focus = false;
    if let Some(u) = target {
        if u == index {
            let chunk = field.map.get(&id).unwrap();
            if ctx.search == chunk.tags[0] && enter_pressed {
                fire = true;
            }
            focus = true;
        }
    }
    if fire {
        ctx.focus.lost_focus_this_frame.on();
        *drv = field.get_spawner(id).unwrap();
        ctx.close_popup.on();
    }
    focus
}

} // verus!
