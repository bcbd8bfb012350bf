//! Default drivers, and adding and removing the rows of a table.
use vstd::prelude::*;

use super::{Driven, Driver, DriverModel, Element, Field, Spawn, SpawnerModel};
use super::spawn::{enum_ok, spawn_ok, spawn_spec};
use crate::context::Context;
use crate::outside::{egui_id_str, id_of};

verus! {

broadcast use vstd::std_specs::vec::axiom_vec_index_decreases;

/// Whether `elem` is a selector.
pub open spec fn is_selector(elem: Element) -> bool {
    elem matches Element::Driven(Driven::Enum(_))
}

/// Whether `elem` is a row or a column.
pub open spec fn is_group(elem: Element) -> bool {
    elem is Horizontal || elem is Vertical
}

/// The driver that a fresh `elem` starts with, where `default` is the spawner
/// that a fresh selector starts with.
pub open spec fn default_driver(elem: Element, default: SpawnerModel) -> DriverModel {
    match elem {
        Element::Driven(d) => match d {
            Driven::Enum(_) => DriverModel::Enum(Box::new(default)),
            Driven::CheckBoxRT(_) => DriverModel::CheckBoxRT(false),
            Driven::TableH(_) => DriverModel::TableH(Seq::empty()),
            Driven::TextBoxEditable(_) => DriverModel::TextBoxEditable(Seq::empty()),
        },
        _ => DriverModel::Nothing,
    }
}

/// The key under which the spawner that a fresh selector starts with is
/// stored: egui's id of "default".
pub open spec fn default_spawner_key() -> u64 {
    egui_id_str("default"@)
}

impl Driver {
    /// The driver that a fresh `elem` starts with; a selector starts with a
    /// copy of the spawner stored under `default_key`.
    fn default_for_key(elem: &Element, field: &Field, default_key: u64) -> (r: Driver)
        requires
            !is_group(*elem),
            is_selector(*elem) ==> field.spawner_at(default_key) is Some,
        ensures
            r.model() == default_driver(*elem, field.spawner_at(default_key).unwrap()),
    {
        match elem {
            Element::Horizontal(_) => vstd::pervasive::unreached(),
            Element::Vertical(_) => vstd::pervasive::unreached(),
            Element::Static(_) => Driver::Nothing,
            Element::Driven(d) => match d {
                Driven::Enum(_) => {
                    let s = field.get_spawner(default_key).unwrap();
                    Driver::Enum(Box::new(s))
                },
                Driven::CheckBoxRT(_) => Driver::CheckBoxRT(false),
                Driven::TableH(_) => {
                    let r = Driver::TableH(Vec::new());
                    assert(r.model()->TableH_0 =~= Seq::<DriverModel>::empty());
                    r
                },
                Driven::TextBoxEditable(_) => Driver::TextBoxEditable(String::new()),
            },
        }
    }

    /// The driver that a fresh `elem` starts with; a selector starts with a
    /// copy of the spawner stored under the id of "default".
    pub fn default_for(elem: &Element, field: &Field) -> (r: Driver)
        requires
            !is_group(*elem),
            is_selector(*elem) ==> field.spawner_at(default_spawner_key()) is Some,
        ensures
            r.model() == default_driver(*elem, field.spawner_at(default_spawner_key()).unwrap()),
    {
        let key = id_of("default");
        Driver::default_for_key(elem, field, key)
    }

    /// The driver that a fresh `elem` starts with, as `default_for` gives it;
    /// `None` for a selector when no spawner is stored under the id of
    /// "default".
    pub fn try_default_for(elem: &Element, field: &Field) -> (r: Option<Driver>)
        requires
            !is_group(*elem),
        ensures
            is_selector(*elem) ==> (r is Some <==> field.spawner_at(default_spawner_key()) is Some),
            !is_selector(*elem) ==> r is Some,
            r matches Some(d) ==> d.model() == default_driver(
                *elem,
                field.spawner_at(default_spawner_key()).unwrap(),
            ),
    {
        let key = id_of("default");
        if let Element::Driven(Driven::Enum(_)) = elem {
            if field.get_spawner(key).is_none() {
                return None;
            }
        }
        Some(Driver::default_for(elem, field))
    }
}

/// Whether spawning `elem` with `drv` from `field` goes through.
pub fn can_spawn(elem: &Element, drv: &Driver, field: &Field) -> (r: bool)
    ensures
        r == spawn_ok(*elem, *drv, *field),
    decreases *elem,
{
    broadcast use vstd::std_specs::hash::group_hash_axioms;

    match elem {
        Element::Horizontal(es) | Element::Vertical(es) => {
            let ds = match drv {
                Driver::List(ds) => ds,
                _ => return false,
            };
            let mut i: usize = 0;
            while i < es.len() && i < ds.len()
                invariant
                    (*elem is Horizontal && elem->Horizontal_0 == *es) || (*elem is Vertical
                        && elem->Vertical_0 == *es),
                    *drv is List && drv->List_0 == *ds,
                    forall|j: int| 0 <= j < i ==> spawn_ok(#[trigger] es@[j], ds@[j], *field),
                decreases es@.len() - i,
            {
                proof {
                    if *elem is Horizontal {
                        assert(decreases_to!(*elem => elem->Horizontal_0));
                    } else {
                        assert(decreases_to!(*elem => elem->Vertical_0));
                    }
                    assert(decreases_to!(*es => es[i as int]));
                }
                if !can_spawn(&es[i], &ds[i], field) {
                    return false;
                }
                i = i + 1;
            }
            true
        },
        Element::Static(_) => true,
        Element::Driven(d) => match d {
            Driven::Enum(e) => {
                if let Driver::Enum(_) = drv {
                    super::enumset::can_spawn_enum(e, field)
                } else {
                    false
                }
            },
            Driven::TableH(row) => {
                let ds = match drv {
                    Driver::List(ds) => ds,
                    _ => return false,
                };
                let mut i: usize = 0;
                while i < ds.len()
                    invariant
                        *elem is Driven && elem->Driven_0 is TableH && elem->Driven_0->TableH_0
                            == *row,
                        *drv is List && drv->List_0 == *ds,
                        forall|j: int| 0 <= j < i ==> spawn_ok(**row, #[trigger] ds@[j], *field),
                    decreases ds@.len() - i,
                {
                    proof {
                        assert(decreases_to!(*elem => elem->Driven_0));
                        assert(decreases_to!(elem->Driven_0 => elem->Driven_0->TableH_0));
                    }
                    if !can_spawn(row, &ds[i], field) {
                        assert(!spawn_ok(**row, ds@[i as int], *field));
                        return false;
                    }
                    i = i + 1;
                }
                true
            },
            _ => true,
        },
    }
}

/// When the context asks for a table row, adds an empty driver entry and
/// disarms the request.
pub fn table_inc(ctx: &mut Context, drv: &mut Vec<Driver>)
    ensures
        !final(ctx).inc_table@,
        old(ctx).inc_table@ ==> final(drv)@ == old(drv)@.push(Driver::Nothing),
        !old(ctx).inc_table@ ==> final(drv)@ == old(drv)@,
        final(ctx).focus == old(ctx).focus,
        final(ctx).search == old(ctx).search,
        final(ctx).depth == old(ctx).depth,
        final(ctx).count == old(ctx).count,
        final(ctx).open_popup == old(ctx).open_popup,
        final(ctx).close_popup == old(ctx).close_popup,
        final(ctx).dec_table == old(ctx).dec_table,
{
    if ctx.inc_table.run(|| {}) {
        drv.push(Driver::Nothing);
    }
}

impl Spawn {
    /// Adds a table row: spawns `row` with `new_driver`, and adds the spawn and
    /// the driver at the end.
    pub fn push_row(
        &mut self,
        drv: &mut Vec<Driver>,
        row: &Element,
        new_driver: Driver,
        ctx: &mut Context,
        field: &Field,
    )
        requires
            spawn_ok(*row, new_driver, *field),
        ensures
            final(self).child@.len() == old(self).child@.len() + 1,
            final(self).child@.drop_last() == old(self).child@,
            final(self).child@.last().model() == spawn_spec(*row, new_driver, *field),
            final(self).cache == old(self).cache,
            final(drv)@ == old(drv)@.push(new_driver),
            *final(ctx) == *old(ctx),
    {
        let s = Spawn::new(row, &new_driver, ctx, field);
        self.child.push(s);
        drv.push(new_driver);
        assert(self.child@.drop_last() =~= old(self).child@);
    }

    /// Removes the last table row: its spawn and its driver, where there are
    /// any.
    pub fn pop_row(&mut self, drv: &mut Vec<Driver>)
        ensures
            old(self).child@.len() > 0 ==> final(self).child@ == old(self).child@.drop_last(),
            old(self).child@.len() == 0 ==> final(self).child@ == old(self).child@,
            final(self).cache == old(self).cache,
            old(drv)@.len() > 0 ==> final(drv)@ == old(drv)@.drop_last(),
            old(drv)@.len() == 0 ==> final(drv)@ == old(drv)@,
    {
        self.child.pop();
        drv.pop();
    }
}

/// The driver that a fresh row starts with lets the row be spawned, for every
/// row that is not a row, column or table, and whose lookups, if it is a
/// selector, all succeed.
pub proof fn lemma_default_driver_spawns(row: Element, drv: Driver, default: SpawnerModel, field: Field)
    requires
        !is_group(row),
        !(row matches Element::Driven(Driven::TableH(_))),
        row matches Element::Driven(Driven::Enum(e)) ==> enum_ok(e, field),
        drv.model() == default_driver(row, default),
    ensures
        spawn_ok(row, drv, field),
{
    if let Element::Driven(Driven::Enum(_)) = row {
        assert(drv.model() is Enum);
        assert(drv is Enum);
    }
}

/// One frame of a table's controls: a pending request for a row adds an
/// empty driver entry; then `new_driver`, when the user asked for a row, is
/// spawned from `row` and added together with its spawn, or else, when the
/// user asked to remove one, the last spawn and the last driver entry go.
/// A table whose spawns and driver entries match in number, with no row
/// request pending, keeps them matched.
pub fn table_frame(
    spawn: &mut Spawn,
    drv: &mut Vec<Driver>,
    row: &Element,
    new_driver: Option<Driver>,
    remove_clicked: bool,
    ctx: &mut Context,
    field: &Field,
)
    requires
        new_driver matches Some(d) ==> spawn_ok(*row, d, *field),
    ensures
        ({
            let entries = if old(ctx).inc_table@ {
                old(drv)@.push(Driver::Nothing)
            } else {
                old(drv)@
            };
            match new_driver {
                Some(d) => {
                    &&& final(spawn).child@.len() == old(spawn).child@.len() + 1
                    &&& final(spawn).child@.drop_last() == old(spawn).child@
                    &&& final(spawn).child@.last().model() == spawn_spec(*row, d, *field)
                    &&& final(drv)@ == entries.push(d)
                },
                None => if remove_clicked {
                    &&& final(spawn).child@ == if old(spawn).child@.len() > 0 {
                        old(spawn).child@.drop_last()
                    } else {
                        old(spawn).child@
                    }
                    &&& final(drv)@ == if entries.len() > 0 {
                        entries.drop_last()
                    } else {
                        entries
                    }
                } else {
                    &&& final(spawn).child@ == old(spawn).child@
                    &&& final(drv)@ == entries
                },
            }
        }),
        old(spawn).child@.len() == old(drv)@.len() && !old(ctx).inc_table@ ==> final(spawn).child@.len() == final(drv)@.len(),
        final(spawn).cache == old(spawn).cache,
        !final(ctx).inc_table@,
        final(ctx).focus == old(ctx).focus,
        final(ctx).search == old(ctx).search,
        final(ctx).depth == old(ctx).depth,
        final(ctx).count == old(ctx).count,
        final(ctx).open_popup == old(ctx).open_popup,
        final(ctx).close_popup == old(ctx).close_popup,
        final(ctx).dec_table == old(ctx).dec_table,
{
    table_inc(ctx, drv);
    match new_driver {
        Some(d) => spawn.push_row(drv, row, d, ctx, field),
        None => {
            if remove_clicked {
                spawn.pop_row(drv);
            }
        },
    }
}

} // verus!
