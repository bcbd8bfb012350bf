use noel_editor::context::Context;
use noel_editor::template::enumset::{Cache as EnumCache, Cond, Enum};
use noel_editor::template::rows::{can_spawn, table_frame, table_inc};
use noel_editor::template::{Cache, Chunk, Driven, Driver, DriverField, Element, Field, Spawn, Spawner, Static};

fn label(s: &str) -> Element {
    Element::Static(Static::LabelRT(s.to_string()))
}

fn label_text(e: &Element) -> String {
    match e {
        Element::Static(Static::LabelRT(s)) => s.clone(),
        _ => panic!("not a label"),
    }
}

fn spawner_of(text: &str) -> Spawner {
    Spawner { spw: Spawn::default(), elem: label(text), drv: Driver::Nothing }
}

fn checkbox_table() -> Element {
    Element::Driven(Driven::TableH(Box::new(Element::Driven(Driven::CheckBoxRT("try".to_string())))))
}

#[test]
fn field_default_is_empty() {
    let f = Field::default();
    assert!(f.map.is_empty() && f.spw.is_empty() && f.tag.is_empty());
    let d = DriverField::default();
    assert!(d.map.is_empty());
}

#[test]
fn get_spawner_missing_is_none() {
    let f = Field::default();
    assert!(f.get_spawner(3).is_none());
}

#[test]
fn get_after_insert_spawner() {
    let mut f = Field::default();
    f.insert_spawner(7, spawner_of("seven"), vec!["s".to_string()]);
    f.insert_spawner(8, spawner_of("eight"), vec![]);
    let s = f.get_spawner(7).unwrap();
    assert_eq!(label_text(&s.elem), "seven");
    assert!(matches!(s.drv, Driver::Nothing));
    assert_eq!(f.map[&7].tags, vec!["s".to_string()]);
    assert_eq!(label_text(&f.get_spawner(8).unwrap().elem), "eight");
}

#[test]
fn insert_spawner_overwrites() {
    let mut f = Field::default();
    f.insert_spawner(1, spawner_of("a"), vec![]);
    f.insert_spawner(1, spawner_of("b"), vec![]);
    assert_eq!(label_text(&f.get_spawner(1).unwrap().elem), "b");
    assert_eq!(f.map.len(), 1);
}

#[test]
fn get_spawner_needs_both_chunk_and_spawn() {
    let mut f = Field::default();
    f.map.insert(5, Chunk::with_elem(label("only chunk")));
    assert!(f.get_spawner(5).is_none());
}

#[test]
fn chunk_default_is_empty_label() {
    let c = Chunk::default();
    assert_eq!(label_text(&c.elem), "");
    assert!(matches!(c.drv, Driver::Nothing));
    assert!(c.tags.is_empty());
}

#[test]
fn spawner_tuple_round_trip() {
    let s: Spawner = (Spawn::default(), label("x"), Driver::CheckBoxRT(true)).into();
    let (spw, elem, drv): (Spawn, Element, Driver) = s.into();
    assert!(spw.child.is_empty());
    assert_eq!(label_text(&elem), "x");
    assert!(matches!(drv, Driver::CheckBoxRT(true)));
}

#[test]
fn tag_ids_finds_first_entry() {
    let mut f = Field::default();
    f.tag.push(("a".to_string(), vec![1, 2]));
    f.tag.push(("b".to_string(), vec![3]));
    f.tag.push(("a".to_string(), vec![9]));
    assert_eq!(f.tag_ids(&"a".to_string()), Some(&vec![1, 2]));
    assert_eq!(f.tag_ids(&"b".to_string()), Some(&vec![3]));
    assert_eq!(f.tag_ids(&"c".to_string()), None);
}

#[test]
fn spawn_table_has_one_row_per_driver_entry() {
    let f = Field::default();
    let mut ctx = Context::default();
    let drv = Driver::List(vec![Driver::CheckBoxRT(true), Driver::CheckBoxRT(false), Driver::CheckBoxRT(true)]);
    assert!(can_spawn(&checkbox_table(), &drv, &f));
    let s = Spawn::new(&checkbox_table(), &drv, &mut ctx, &f);
    assert_eq!(s.child.len(), 3);
    assert!(matches!(s.cache, Cache::Nothing));
    assert!(s.child.iter().all(|c| c.child.is_empty()));
}

#[test]
fn spawn_row_takes_the_shorter_length() {
    let f = Field::default();
    let mut ctx = Context::default();
    let elem = Element::Horizontal(vec![label("a"), label("b"), label("c")]);
    let drv = Driver::List(vec![Driver::Nothing, Driver::Nothing]);
    let s = Spawn::new(&elem, &drv, &mut ctx, &f);
    assert_eq!(s.child.len(), 2);
    let elem = Element::Vertical(vec![label("a")]);
    let s = Spawn::new(&elem, &drv, &mut ctx, &f);
    assert_eq!(s.child.len(), 1);
}

#[test]
fn spawn_static_is_empty() {
    let f = Field::default();
    let mut ctx = Context::default();
    let s = Spawn::new(&label("x"), &Driver::Nothing, &mut ctx, &f);
    assert!(s.child.is_empty());
    assert!(matches!(s.cache, Cache::Nothing));
}

#[test]
fn can_spawn_rejects_mismatched_driver() {
    let f = Field::default();
    assert!(!can_spawn(&checkbox_table(), &Driver::Nothing, &f));
    assert!(!can_spawn(&Element::Horizontal(vec![]), &Driver::CheckBoxRT(true), &f));
    assert!(can_spawn(&Element::Horizontal(vec![]), &Driver::List(vec![]), &f));
}

fn selector_field() -> (Field, Enum) {
    let mut f = Field::default();
    f.insert_spawner(10, spawner_of("Noel"), vec!["noel".to_string()]);
    f.insert_spawner(11, spawner_of("Alma"), vec!["alma".to_string()]);
    f.insert_spawner(99, spawner_of("unselected"), vec![]);
    (f, Enum { cond: Cond::Elem(vec![10, 11]), default: 99 })
}

#[test]
fn spawn_selector_by_ids() {
    let (f, e) = selector_field();
    let mut ctx = Context::default();
    let elem = e.into_elem();
    let drv = Driver::Enum(Box::new(spawner_of("x")));
    assert!(can_spawn(&elem, &drv, &f));
    let s = Spawn::new(&elem, &drv, &mut ctx, &f);
    assert_eq!(s.child.len(), 2);
    match &s.cache {
        Cache::Enum(c) => {
            assert_eq!(c.selectable, vec![10, 11]);
            assert_eq!(label_text(&c.selected.1), "unselected");
            assert_eq!(c.searcher.search("alma"), vec![1]);
            assert_eq!(c.searcher.search("noel"), vec![0]);
        },
        Cache::Nothing => panic!("selector without cache"),
    }
}

#[test]
fn spawn_selector_by_tags() {
    let (mut f, _) = selector_field();
    f.tag.push(("people".to_string(), vec![10, 11]));
    let e = Enum { cond: Cond::Tags(vec!["people".to_string()]), default: 99 };
    let mut ctx = Context::default();
    let elem = e.into_elem();
    let drv = Driver::Enum(Box::new(spawner_of("x")));
    assert!(can_spawn(&elem, &drv, &f));
    let s = Spawn::new(&elem, &drv, &mut ctx, &f);
    assert_eq!(s.child.len(), 2);
    match &s.cache {
        Cache::Enum(c) => {
            assert_eq!(c.selectable, vec![10, 11]);
            let mut hits = c.searcher.search("people");
            hits.sort();
            assert_eq!(hits, vec![0, 1]);
        },
        Cache::Nothing => panic!("selector without cache"),
    }
}

#[test]
fn can_spawn_selector_needs_its_lookups() {
    let (f, _) = selector_field();
    let drv = Driver::Enum(Box::new(spawner_of("x")));
    let missing_choice = Enum { cond: Cond::Elem(vec![10, 12]), default: 99 }.into_elem();
    assert!(!can_spawn(&missing_choice, &drv, &f));
    let missing_default = Enum { cond: Cond::Elem(vec![10]), default: 98 }.into_elem();
    assert!(!can_spawn(&missing_default, &drv, &f));
    let missing_tag = Enum { cond: Cond::Tags(vec!["nobody".to_string()]), default: 99 }.into_elem();
    assert!(!can_spawn(&missing_tag, &drv, &f));
    let wrong_driver = Enum { cond: Cond::Elem(vec![10]), default: 99 }.into_elem();
    assert!(!can_spawn(&wrong_driver, &Driver::Nothing, &f));
}

#[test]
fn spawn_clone_keeps_shape() {
    let (f, e) = selector_field();
    let mut ctx = Context::default();
    let s = Spawn::new(&e.into_elem(), &Driver::Enum(Box::new(spawner_of("x"))), &mut ctx, &f);
    let t = s.clone();
    assert_eq!(t.child.len(), 2);
    match (&s.cache, &t.cache) {
        (Cache::Enum(a), Cache::Enum(b)) => {
            assert_eq!(a.selectable, b.selectable);
            assert_eq!(b.searcher.search("alma"), vec![1]);
        },
        _ => panic!("cache lost"),
    }
}

#[test]
fn enum_cache_clone_keeps_selection() {
    let (f, e) = selector_field();
    let mut ctx = Context::default();
    let s = Spawn::new(&e.into_elem(), &Driver::Enum(Box::new(spawner_of("x"))), &mut ctx, &f);
    if let Cache::Enum(c) = &s.cache {
        let d: EnumCache = c.clone();
        assert_eq!(label_text(&d.selected.1), "unselected");
    } else {
        panic!("cache lost");
    }
}

#[test]
fn default_for_plain_widgets() {
    let f = Field::default();
    assert!(matches!(Driver::try_default_for(&label("x"), &f), Some(Driver::Nothing)));
    assert!(matches!(Driver::default_for(&label("x"), &f), Driver::Nothing));
    let cb = Element::Driven(Driven::CheckBoxRT("c".to_string()));
    assert!(matches!(Driver::try_default_for(&cb, &f), Some(Driver::CheckBoxRT(false))));
    match Driver::try_default_for(&checkbox_table(), &f) {
        Some(Driver::TableH(v)) => assert!(v.is_empty()),
        _ => panic!("wrong default"),
    }
    let tb = Element::Driven(Driven::TextBoxEditable(egui::FontId::default()));
    match Driver::try_default_for(&tb, &f) {
        Some(Driver::TextBoxEditable(s)) => assert!(s.is_empty()),
        _ => panic!("wrong default"),
    }
}

#[test]
fn default_for_selector_without_default_is_none() {
    let f = Field::default();
    let sel = Enum { cond: Cond::Elem(vec![]), default: 1 }.into_elem();
    assert!(Driver::try_default_for(&sel, &f).is_none());
}

#[test]
fn default_for_selector_copies_default_spawner() {
    let mut f = Field::default();
    f.insert_spawner(egui::Id::new("default").value(), spawner_of("dflt"), vec![]);
    let sel = Enum { cond: Cond::Elem(vec![]), default: 1 }.into_elem();
    match Driver::try_default_for(&sel, &f) {
        Some(Driver::Enum(s)) => assert_eq!(label_text(&s.elem), "dflt"),
        _ => panic!("wrong default"),
    }
    match Driver::default_for(&sel, &f) {
        Driver::Enum(s) => assert_eq!(label_text(&s.elem), "dflt"),
        _ => panic!("wrong default"),
    }
    f.insert_spawner(egui::Id::new("elsewhere").value(), spawner_of("other"), vec![]);
    match Driver::default_for(&sel, &f) {
        Driver::Enum(s) => assert_eq!(label_text(&s.elem), "dflt"),
        _ => panic!("wrong default"),
    }
}

#[test]
fn table_rows_grow_and_shrink_together() {
    let f = Field::default();
    let mut ctx = Context::default();
    let row = Element::Driven(Driven::CheckBoxRT("c".to_string()));
    let mut spawn = Spawn::default();
    let mut drv: Vec<Driver> = Vec::new();
    let nd = Driver::default_for(&row, &f);
    spawn.push_row(&mut drv, &row, nd, &mut ctx, &f);
    let nd = Driver::default_for(&row, &f);
    spawn.push_row(&mut drv, &row, nd, &mut ctx, &f);
    assert_eq!((spawn.child.len(), drv.len()), (2, 2));
    spawn.pop_row(&mut drv);
    assert_eq!((spawn.child.len(), drv.len()), (1, 1));
    spawn.pop_row(&mut drv);
    spawn.pop_row(&mut drv);
    assert_eq!((spawn.child.len(), drv.len()), (0, 0));
}

#[test]
fn table_inc_adds_empty_driver_once() {
    let mut ctx = Context::default();
    let mut drv = vec![Driver::CheckBoxRT(true)];
    table_inc(&mut ctx, &mut drv);
    assert_eq!(drv.len(), 1);
    ctx.inc_table.on();
    table_inc(&mut ctx, &mut drv);
    assert_eq!(drv.len(), 2);
    assert!(matches!(drv[1], Driver::Nothing));
    table_inc(&mut ctx, &mut drv);
    assert_eq!(drv.len(), 2);
}

#[test]
fn element_clone_keeps_font_and_parts() {
    let font = egui::FontId::monospace(13.0);
    let e = Element::Vertical(vec![
        Element::Driven(Driven::TextBoxEditable(font.clone())),
        Element::Horizontal(vec![label("a")]),
    ]);
    let c = e.clone();
    match c {
        Element::Vertical(parts) => {
            assert_eq!(parts.len(), 2);
            match &parts[0] {
                Element::Driven(Driven::TextBoxEditable(f)) => assert_eq!(*f, font),
                _ => panic!("part lost"),
            }
            match &parts[1] {
                Element::Horizontal(inner) => assert_eq!(label_text(&inner[0]), "a"),
                _ => panic!("part lost"),
            }
        },
        _ => panic!("shape lost"),
    }
}

#[test]
fn driver_clone_keeps_entries() {
    let d = Driver::List(vec![Driver::CheckBoxRT(true), Driver::TextBoxEditable("t".to_string()), Driver::Enum(Box::new(spawner_of("s")))]);
    match d.clone() {
        Driver::List(v) => {
            assert!(matches!(v[0], Driver::CheckBoxRT(true)));
            assert!(matches!(&v[1], Driver::TextBoxEditable(s) if s == "t"));
            assert!(matches!(&v[2], Driver::Enum(s) if label_text(&s.elem) == "s"));
        },
        _ => panic!("shape lost"),
    }
}

#[test]
fn default_row_driver_spawns_except_for_tables() {
    let f = Field::default();
    let row = Element::Driven(Driven::CheckBoxRT("c".to_string()));
    let nd = Driver::default_for(&row, &f);
    assert!(can_spawn(&row, &nd, &f));
    let nested = checkbox_table();
    let nd = Driver::default_for(&nested, &f);
    assert!(!can_spawn(&nested, &nd, &f));
}

#[test]
fn table_frame_keeps_rows_matched() {
    let f = Field::default();
    let mut ctx = Context::default();
    let row = Element::Driven(Driven::CheckBoxRT("c".to_string()));
    let mut spawn = Spawn::default();
    let mut drv: Vec<Driver> = Vec::new();
    table_frame(&mut spawn, &mut drv, &row, Some(Driver::default_for(&row, &f)), false, &mut ctx, &f);
    table_frame(&mut spawn, &mut drv, &row, Some(Driver::default_for(&row, &f)), false, &mut ctx, &f);
    assert_eq!((spawn.child.len(), drv.len()), (2, 2));
    table_frame(&mut spawn, &mut drv, &row, None, false, &mut ctx, &f);
    assert_eq!((spawn.child.len(), drv.len()), (2, 2));
    table_frame(&mut spawn, &mut drv, &row, None, true, &mut ctx, &f);
    assert_eq!((spawn.child.len(), drv.len()), (1, 1));
    ctx.inc_table.on();
    table_frame(&mut spawn, &mut drv, &row, None, false, &mut ctx, &f);
    assert_eq!((spawn.child.len(), drv.len()), (1, 2));
    assert!(matches!(drv[1], Driver::Nothing));
}

#[test]
fn search_index_lowercases_and_splits_tags() {
    let mut f = Field::default();
    f.insert_spawner(10, spawner_of("Noel"), vec!["Noel Primula".to_string()]);
    f.insert_spawner(99, spawner_of("unselected"), vec![]);
    let e = Enum { cond: Cond::Elem(vec![10]), default: 99 };
    let mut ctx = Context::default();
    let s = Spawn::new(&e.into_elem(), &Driver::Enum(Box::new(spawner_of("x"))), &mut ctx, &f);
    match &s.cache {
        Cache::Enum(c) => {
            assert_eq!(c.searcher.search("noel"), vec![0]);
            assert_eq!(c.searcher.search("PRIMULA"), vec![0]);
            assert!(c.searcher.search("zzzzzz").is_empty());
        },
        Cache::Nothing => panic!("selector without cache"),
    }
}
