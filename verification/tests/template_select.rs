use noel_editor::context::Context;
use noel_editor::template::enumset::{
    begin_frame, on_button_frame, on_row, on_search_frame, popup_action, row_id, Cond, Enum,
    PopupAction,
};
use noel_editor::template::shortcut::{ActionMNG, ShortCut, ShortCutMNG, Template};
use noel_editor::template::{Cache, Driver, Element, Field, Spawn, Spawner, Static};

fn label_text(e: &Element) -> String {
    match e {
        Element::Static(Static::LabelRT(s)) => s.clone(),
        _ => panic!("not a label"),
    }
}

fn spawner_of(text: &str) -> Spawner {
    Spawner { spw: Spawn::default(), elem: Element::Static(Static::LabelRT(text.to_string())), drv: Driver::Nothing }
}

#[test]
fn enum_default_files_unselected_once() {
    let mut f = Field::default();
    let id = Enum::enum_default(&mut f);
    assert_eq!(id, egui::Id::new("enum").with("unselected").value());
    assert_eq!(label_text(&f.map[&id].elem), "unselected");
    assert!(f.map[&id].tags.is_empty());
    f.map.get_mut(&id).unwrap().tags.push("kept".to_string());
    let again = Enum::enum_default(&mut f);
    assert_eq!(again, id);
    assert_eq!(f.map[&id].tags, vec!["kept".to_string()]);
    assert_eq!(f.map.len(), 1);
}

#[test]
fn insert_unselected_keeps_existing_chunk() {
    let mut f = Field::default();
    f.insert_spawner(4, spawner_of("mine"), vec![]);
    Enum::insert_unselected(&mut f, 4);
    assert_eq!(label_text(&f.map[&4].elem), "mine");
    Enum::insert_unselected(&mut f, 5);
    assert_eq!(label_text(&f.map[&5].elem), "unselected");
}

#[test]
fn from_strings_files_labels() {
    let mut f = Field::default();
    let mut ctx = Context::default();
    let e = Enum::from_strings(vec!["Noel".to_string(), "Alma".to_string()], &mut ctx, &mut f);
    let ids = match &e.cond {
        Cond::Elem(v) => v.clone(),
        Cond::Tags(_) => panic!("expected ids"),
    };
    assert_eq!(ids.len(), 2);
    assert_eq!(ids[0], egui::Id::new("enum").with(0usize).value());
    assert_eq!(ids[1], egui::Id::new("enum").with(1usize).value());
    assert_eq!(label_text(&f.map[&ids[0]].elem), "Noel");
    assert_eq!(f.map[&ids[1]].tags, vec!["Alma".to_string()]);
    assert_eq!(label_text(&f.map[&e.default].elem), "unselected");
    assert_eq!(ctx.count.get(), 2);
}

#[test]
fn popup_open_wins_over_close() {
    let mut ctx = Context::default();
    ctx.open_popup.on();
    ctx.close_popup.on();
    assert_eq!(popup_action(&mut ctx), PopupAction::Open);
    assert!(!*ctx.open_popup);
    assert!(*ctx.close_popup);
    assert_eq!(popup_action(&mut ctx), PopupAction::Close);
    assert_eq!(popup_action(&mut ctx), PopupAction::Keep);
}

#[test]
fn button_click_opens_popup_with_empty_search() {
    let mut ctx = Context::default();
    ctx.search = "old".to_string();
    on_button_frame(&mut ctx, false);
    assert_eq!(ctx.search, "old");
    assert!(!*ctx.open_popup);
    on_button_frame(&mut ctx, true);
    assert_eq!(ctx.search, "");
    assert!(*ctx.open_popup && *ctx.focus.edit_once);
    let mut ctx = Context::default();
    ctx.focus.on_button.on();
    on_button_frame(&mut ctx, false);
    assert!(*ctx.open_popup && !*ctx.focus.on_button);
}

fn spawned_selector() -> (Field, Enum, Spawn) {
    let mut f = Field::default();
    f.insert_spawner(10, spawner_of("Noel"), vec!["noel".to_string()]);
    f.insert_spawner(11, spawner_of("Alma"), vec!["alma".to_string()]);
    f.insert_spawner(99, spawner_of("unselected"), vec![]);
    let e = Enum { cond: Cond::Elem(vec![10, 11]), default: 99 };
    let mut ctx = Context::default();
    let s = Spawn::new(&Element::Driven(noel_editor::template::Driven::Enum(Enum {
        cond: Cond::Elem(vec![10, 11]),
        default: 99,
    })), &Driver::Enum(Box::new(spawner_of("x"))), &mut ctx, &f);
    (f, e, s)
}

#[test]
fn search_frame_enter_on_empty_closes() {
    let (_, _, s) = spawned_selector();
    let Cache::Enum(cache) = &s.cache else { panic!("no cache") };
    let mut ctx = Context::default();
    let step = on_search_frame(&mut ctx, cache, false, false, true, false);
    assert!(*ctx.close_popup);
    assert!(!step.request_focus);
    assert_eq!(step.target, None);
}

#[test]
fn search_frame_backspace_takes_keyboard() {
    let (_, _, s) = spawned_selector();
    let Cache::Enum(cache) = &s.cache else { panic!("no cache") };
    let mut ctx = Context::default();
    let step = on_search_frame(&mut ctx, cache, false, true, false, false);
    assert!(step.request_focus);
    assert!(*ctx.focus.edit_once);
}

#[test]
fn search_frame_lost_focus_searches_and_tab_cycles() {
    let (_, _, s) = spawned_selector();
    let Cache::Enum(cache) = &s.cache else { panic!("no cache") };
    let mut ctx = Context::default();
    ctx.search = "alma".to_string();
    let step = on_search_frame(&mut ctx, cache, false, false, false, true);
    assert_eq!(step.target, Some(1));
    let step = on_search_frame(&mut ctx, cache, true, false, false, false);
    assert_eq!(step.target, Some(1));
    let step = on_search_frame(&mut ctx, cache, false, false, false, false);
    assert_eq!(step.target, None);
}

#[test]
fn row_click_selects_and_closes() {
    let (f, e, s) = spawned_selector();
    let Cache::Enum(cache) = &s.cache else { panic!("no cache") };
    let mut ctx = Context::default();
    let mut drv = spawner_of("before");
    assert_eq!(row_id(&e.cond, cache, 1), 11);
    let focus = on_row(&mut ctx, &mut drv, &e.cond, cache, &f, 1, None, false, true);
    assert!(!focus);
    assert_eq!(label_text(&drv.elem), "Alma");
    assert!(*ctx.close_popup && *ctx.focus.lost_focus_this_frame);
}

#[test]
fn row_enter_on_target_with_matching_search_selects() {
    let (f, e, s) = spawned_selector();
    let Cache::Enum(cache) = &s.cache else { panic!("no cache") };
    let mut ctx = Context::default();
    ctx.search = "noel".to_string();
    let mut drv = spawner_of("before");
    let focus = on_row(&mut ctx, &mut drv, &e.cond, cache, &f, 0, Some(0), true, false);
    assert!(focus);
    assert_eq!(label_text(&drv.elem), "Noel");
}

#[test]
fn row_target_without_enter_only_takes_focus() {
    let (f, e, s) = spawned_selector();
    let Cache::Enum(cache) = &s.cache else { panic!("no cache") };
    let mut ctx = Context::default();
    ctx.search = "noel".to_string();
    let mut drv = spawner_of("before");
    let focus = on_row(&mut ctx, &mut drv, &e.cond, cache, &f, 0, Some(0), false, false);
    assert!(focus);
    assert_eq!(label_text(&drv.elem), "before");
    assert!(!*ctx.close_popup);
}

#[test]
fn template_init_empties_start_shortcuts_only() {
    let mut t = Template {
        id: "t".to_string(),
        version: "1".to_string(),
        element: vec![],
        shortcut: vec![
            ShortCutMNG { short: ShortCut::OnceStart, action: ActionMNG::new(), modifier: egui::Modifiers::NONE },
            ShortCutMNG { short: ShortCut::KeyPressed(egui::Key::A), action: ActionMNG::new(), modifier: egui::Modifiers::CTRL },
        ],
    };
    t.init();
    assert_eq!(t.shortcut.len(), 2);
    assert!(t.shortcut.iter().all(|s| s.action.action.is_empty()));
    assert!(matches!(t.shortcut[1].short, ShortCut::KeyPressed(egui::Key::A)));
    let mut a = ActionMNG::new();
    let mut b = ActionMNG::new();
    a.merge(&mut b);
    a.run();
    assert!(a.action.is_empty() && b.action.is_empty());
}

#[test]
fn begin_frame_clears_lost_focus_only() {
    let mut ctx = Context::default();
    ctx.focus.lost_focus_this_frame.on();
    ctx.focus.edit_once.on();
    ctx.search = "x".to_string();
    begin_frame(&mut ctx);
    assert!(!*ctx.focus.lost_focus_this_frame);
    assert!(*ctx.focus.edit_once);
    assert_eq!(ctx.search, "x");
}

#[test]
fn search_frame_without_hits_yields_no_target() {
    let (_, _, s) = spawned_selector();
    let Cache::Enum(cache) = &s.cache else { panic!("no cache") };
    let mut ctx = Context::default();
    ctx.search = "qqqqqq".to_string();
    let step = on_search_frame(&mut ctx, cache, false, false, false, true);
    assert_eq!(step.target, None);
}

#[test]
fn enum_default_twice_is_once() {
    let mut f = Field::default();
    let a = Enum::enum_default(&mut f);
    let n = f.map.len();
    let b = Enum::enum_default(&mut f);
    assert_eq!(a, b);
    assert_eq!(f.map.len(), n);
}
