//! Copies of element, driver and spawn trees that keep their models.
use vstd::prelude::*;

use super::{Cache, Chunk, Driven, Driver, Element, Spawn, Spawner, Static};
use super::enumset;
use crate::outside::{font_id_clone, search_clone};

verus! {

broadcast use vstd::std_specs::vec::axiom_vec_index_decreases;

/// A copy of a list of ids.
pub fn copy_ids(v: &Vec<u64>) -> (r: Vec<u64>)
    ensures
        r@ == v@,
{
    let mut out: Vec<u64> = Vec::new();
    let mut i: usize = 0;
    while i < v.len()
        invariant
            i <= v@.len(),
            out@ == v@.take(i as int),
        decreases v@.len() - i,
    {
        out.push(v[i]);
        i = i + 1;
        assert(out@ =~= v@.take(i as int));
    }
    assert(v@.take(i as int) =~= v@);
    out
}

/// A copy of a list of strings.
pub fn copy_strings(v: &Vec<String>) -> (r: Vec<String>)
    ensures
        r@ == v@,
{
    let mut out: Vec<String> = Vec::new();
    let mut i: usize = 0;
    while i < v.len()
        invariant
            i <= v@.len(),
            out@ == v@.take(i as int),
        decreases v@.len() - i,
    {
        out.push(v[i].clone());
        i = i + 1;
        assert(out@ =~= v@.take(i as int));
    }
    assert(v@.take(i as int) =~= v@);
    out
}

impl Clone for Static {
    fn clone(&self) -> (r: Self)
        ensures
            r.model() == self.model(),
    {
        match self {
            Static::LabelRT(s) => Static::LabelRT(s.clone()),
        }
    }
}

impl Clone for enumset::Cond {
    fn clone(&self) -> (r: Self)
        ensures
            r.model() == self.model(),
    {
        match self {
            enumset::Cond::Elem(v) => enumset::Cond::Elem(copy_ids(v)),
            enumset::Cond::Tags(v) => enumset::Cond::Tags(copy_strings(v)),
        }
    }
}

impl Clone for enumset::Enum {
    fn clone(&self) -> (r: Self)
        ensures
            r.model() == self.model(),
    {
        enumset::Enum { cond: self.cond.clone(), default: self.default }
    }
}

/// A copy of a list of elements.
fn copy_elements(v: &Vec<Element>) -> (r: Vec<Element>)
    ensures
        r@.len() == v@.len(),
        forall|j: int| 0 <= j < v@.len() ==> #[trigger] r@[j].model() == v@[j].model(),
    decreases *v, 0int,
{
    let mut out: Vec<Element> = Vec::new();
    let mut i: usize = 0;
    while i < v.len()
        invariant
            i <= v@.len(),
            out@.len() == i,
            forall|j: int| 0 <= j < i ==> #[trigger] out@[j].model() == v@[j].model(),
        decreases v@.len() - i,
    {
        proof {
            assert(decreases_to!(*v => v[i as int]));
        }
        let c = v[i].clone();
        out.push(c);
        i = i + 1;
    }
    out
}

impl Clone for Element {
    fn clone(&self) -> (r: Self)
        ensures
            r.model() == self.model(),
        decreases *self, 1int,
    {
        match self {
            Element::Horizontal(v) => {
                proof {
                    assert(decreases_to!(*self => self->Horizontal_0));
                }
                let out = copy_elements(v);
                let r = Element::Horizontal(out);
                proof {
                    assert(r.model()->Horizontal_0.len() == out@.len());
                    assert(forall|j: int|
                        0 <= j < out@.len() ==> r.model()->Horizontal_0[j] == out@[j].model());
                    assert(forall|j: int|
                        0 <= j < v@.len() ==> self.model()->Horizontal_0[j] == v@[j].model());
                    assert(r.model()->Horizontal_0 =~= self.model()->Horizontal_0);
                }
                r
            },
            Element::Vertical(v) => {
                proof {
                    assert(decreases_to!(*self => self->Vertical_0));
                }
                let out = copy_elements(v);
                let r = Element::Vertical(out);
                proof {
                    assert(r.model()->Vertical_0.len() == out@.len());
                    assert(forall|j: int|
                        0 <= j < out@.len() ==> r.model()->Vertical_0[j] == out@[j].model());
                    assert(forall|j: int|
                        0 <= j < v@.len() ==> self.model()->Vertical_0[j] == v@[j].model());
                    assert(r.model()->Vertical_0 =~= self.model()->Vertical_0);
                }
                r
            },
            Element::Static(s) => Element::Static(s.clone()),
            Element::Driven(d) => {
                let nd = match d {
                    Driven::Enum(e) => Driven::Enum(e.clone()),
                    Driven::CheckBoxRT(s) => Driven::CheckBoxRT(s.clone()),
                    Driven::TableH(b) => {
                        proof {
                            assert(decreases_to!(*self => self->Driven_0));
                            assert(decreases_to!(self->Driven_0 => self->Driven_0->TableH_0));
                        }
                        Driven::TableH(Box::new((**b).clone()))
                    },
                    Driven::TextBoxEditable(f) => Driven::TextBoxEditable(font_id_clone(f)),
                };
                Element::Driven(nd)
            },
        }
    }
}

/// A copy of a list of drivers.
fn copy_drivers(v: &Vec<Driver>) -> (r: Vec<Driver>)
    ensures
        r@.len() == v@.len(),
        forall|j: int| 0 <= j < v@.len() ==> #[trigger] r@[j].model() == v@[j].model(),
    decreases *v, 0int,
{
    let mut out: Vec<Driver> = Vec::new();
    let mut i: usize = 0;
    while i < v.len()
        invariant
            i <= v@.len(),
            out@.len() == i,
            forall|j: int| 0 <= j < i ==> #[trigger] out@[j].model() == v@[j].model(),
        decreases v@.len() - i,
    {
        proof {
            assert(decreases_to!(*v => v[i as int]));
        }
        let c = v[i].clone();
        out.push(c);
        i = i + 1;
    }
    out
}

/// A copy of a list of spawns.
fn copy_spawns(v: &Vec<Spawn>) -> (r: Vec<Spawn>)
    ensures
        r@.len() == v@.len(),
        forall|j: int| 0 <= j < v@.len() ==> #[trigger] r@[j].model() == v@[j].model(),
    decreases *v, 0int,
{
    let mut out: Vec<Spawn> = Vec::new();
    let mut i: usize = 0;
    while i < v.len()
        invariant
            i <= v@.len(),
            out@.len() == i,
            forall|j: int| 0 <= j < i ==> #[trigger] out@[j].model() == v@[j].model(),
        decreases v@.len() - i,
    {
        proof {
            assert(decreases_to!(*v => v[i as int]));
        }
        let c = v[i].clone();
        out.push(c);
        i = i + 1;
    }
    out
}

impl Clone for Driver {
    fn clone(&self) -> (r: Self)
        ensures
            r.model() == self.model(),
        decreases *self, 1int,
    {
        match self {
            Driver::Nothing => Driver::Nothing,
            Driver::List(v) => {
                proof {
                    assert(decreases_to!(*self => self->List_0));
                }
                let out = copy_drivers(v);
                let r = Driver::List(out);
                proof {
                    assert(r.model()->List_0.len() == out@.len());
                    assert(forall|j: int|
                        0 <= j < out@.len() ==> r.model()->List_0[j] == out@[j].model());
                    assert(forall|j: int|
                        0 <= j < v@.len() ==> self.model()->List_0[j] == v@[j].model());
                    assert(r.model()->List_0 =~= self.model()->List_0);
                }
                r
            },
            Driver::Enum(b) => {
                proof {
                    assert(decreases_to!(*self => self->Enum_0));
                }
                Driver::Enum(Box::new((**b).clone()))
            },
            Driver::CheckBoxRT(x) => Driver::CheckBoxRT(*x),
            Driver::TableH(v) => {
                proof {
                    assert(decreases_to!(*self => self->TableH_0));
                }
                let out = copy_drivers(v);
                let r = Driver::TableH(out);
                proof {
                    assert(r.model()->TableH_0.len() == out@.len());
                    assert(forall|j: int|
                        0 <= j < out@.len() ==> r.model()->TableH_0[j] == out@[j].model());
                    assert(forall|j: int|
                        0 <= j < v@.len() ==> self.model()->TableH_0[j] == v@[j].model());
                    assert(r.model()->TableH_0 =~= self.model()->TableH_0);
                }
                r
            },
            Driver::TextBoxEditable(s) => Driver::TextBoxEditable(s.clone()),
        }
    }
}

impl Clone for Spawner {
    fn clone(&self) -> (r: Self)
        ensures
            r.model() == self.model(),
        decreases *self, 1int,
    {
        proof {
            assert(decreases_to!(*self => self.spw));
            assert(decreases_to!(*self => self.drv));
        }
        Spawner { spw: self.spw.clone(), elem: self.elem.clone(), drv: self.drv.clone() }
    }
}

impl Clone for enumset::Cache {
    fn clone(&self) -> (r: Self)
        ensures
            r.model() == self.model(),
        decreases *self, 1int,
    {
        proof {
            assert(decreases_to!(*self => self.selected));
            assert(decreases_to!(self.selected => self.selected.0));
            assert(decreases_to!(self.selected => self.selected.2));
        }
        let spw = self.selected.0.clone();
        let elem = self.selected.1.clone();
        let drv = self.selected.2.clone();
        enumset::Cache {
            searcher: search_clone(&self.searcher),
            selected: Box::new((spw, elem, drv)),
            selectable: copy_ids(&self.selectable),
        }
    }
}

impl Clone for Cache {
    fn clone(&self) -> (r: Self)
        ensures
            r.model() == self.model(),
        decreases *self, 1int,
    {
        match self {
            Cache::Enum(c) => {
                proof {
                    assert(decreases_to!(*self => self->Enum_0));
                }
                Cache::Enum(c.clone())
            },
            Cache::Nothing => Cache::Nothing,
        }
    }
}

impl Clone for Spawn {
    fn clone(&self) -> (r: Self)
        ensures
            r.model() == self.model(),
        decreases *self, 1int,
    {
        proof {
            assert(decreases_to!(*self => self.child));
            assert(decreases_to!(*self => self.cache));
        }
        let child = copy_spawns(&self.child);
        let cache = self.cache.clone();
        let r = Spawn { child, cache };
        proof {
            assert(r.model().child.len() == child@.len());
            assert(forall|j: int| 0 <= j < child@.len() ==> r.model().child[j] == child@[j].model());
            assert(forall|j: int|
                0 <= j < self.child@.len() ==> self.model().child[j] == self.child@[j].model());
            assert(r.model().child =~= self.model().child);
        }
        r
    }
}

impl Clone for Chunk {
    fn clone(&self) -> (r: Self)
        ensures
            r.elem.model() == self.elem.model(),
            r.drv.model() == self.drv.model(),
            r.tags@ == self.tags@,
    {
        Chunk { elem: self.elem.clone(), drv: self.drv.clone(), tags: copy_strings(&self.tags) }
    }
}

} // verus!
